use loco_controller::backend::{
    connect_loco_id, control_loco_message, drive_actuator_message, loco_status_from_reply,
    retrieve_header_op,
};
use loco_controller::device::{
    check_actuators_op, check_loco_op, connect_message, control_loco_command,
    drive_actuator_command, loco_status_reply, received_header, sensors_status_message, Error,
};
use loco_controller::protocol::{
    ActuatorId, ActuatorType, Direction, Error as ProtocolError, LocoId, Operation, SensorId, Speed,
    SwitchRailsState,
};

#[test]
fn connect_frame() {
    assert_eq!(connect_message(LocoId::Loco1), vec![0xab, 1, 1, 1]);
    assert_eq!(connect_message(LocoId::Loco2), vec![0xab, 1, 1, 2]);
}

#[test]
fn received_header_checks() {
    assert_eq!(received_header(&[0xab, 2, 2]), Ok((Operation::ControlLoco, 2)));
    assert_eq!(received_header(&[0x00, 2, 2]), Err(Error::InvalidBackendProtocolMagicNumber(0)));
    assert_eq!(
        received_header(&[0xab, 0, 2]),
        Err(Error::ConvertLocoProtocolType(ProtocolError::UnknownOperation(0)))
    );
    assert_eq!(received_header(&[0xab, 2]), Err(Error::DecodeFromSlice));
}

#[test]
fn device_operation_checks() {
    assert_eq!(check_loco_op(Operation::ControlLoco), Ok(false));
    assert_eq!(check_loco_op(Operation::LocoStatus), Ok(true));
    assert_eq!(
        check_loco_op(Operation::DriveActuator),
        Err(Error::UnsupportedOperation(Operation::DriveActuator))
    );
    assert_eq!(check_actuators_op(Operation::DriveActuator), Ok(()));
    assert_eq!(
        check_actuators_op(Operation::Connect),
        Err(Error::UnsupportedOperation(Operation::Connect))
    );
}

#[test]
fn control_loco_payload_checks() {
    assert_eq!(control_loco_command(&[1, 3]), Ok((Direction::Forward, Speed::Fast)));
    assert_eq!(control_loco_command(&[2, 105]), Ok((Direction::Backward, Speed::PwmDutyCycle(5))));
    assert_eq!(
        control_loco_command(&[1, 7]),
        Err(Error::ConvertLocoProtocolType(ProtocolError::UnknownSpeed(7)))
    );
    assert_eq!(
        control_loco_command(&[0, 7]),
        Err(Error::ConvertLocoProtocolType(ProtocolError::UnknownDirection(0)))
    );
    assert_eq!(control_loco_command(&[1]), Err(Error::DecodeFromSlice));
}

#[test]
fn status_reply_bytes() {
    assert_eq!(loco_status_reply(Direction::Backward, Speed::Slow), Ok(vec![2, 1]));
    assert_eq!(
        loco_status_reply(Direction::Forward, Speed::PwmDutyCycle(100)),
        Err(Error::ConvertLocoProtocolType(ProtocolError::InvalidDutyCycle(100)))
    );
}

#[test]
fn drive_actuator_payload_checks() {
    assert_eq!(
        drive_actuator_command(&[3, 1, 2]),
        Ok((ActuatorId::SwitchRails3, SwitchRailsState::Diverted))
    );
    assert_eq!(
        drive_actuator_command(&[9, 1, 2]),
        Err(Error::ConvertLocoProtocolType(ProtocolError::UnknownActuatorId(9)))
    );
    assert_eq!(
        drive_actuator_command(&[3, 2, 2]),
        Err(Error::ConvertLocoProtocolType(ProtocolError::UnknownActuatorType(2)))
    );
    assert_eq!(
        drive_actuator_command(&[3, 1, 0]),
        Err(Error::ConvertLocoProtocolType(ProtocolError::UnknownSwitchRailsState(0)))
    );
    assert_eq!(drive_actuator_command(&[3, 1]), Err(Error::DecodeFromSlice));
}

#[test]
fn sensors_status_frame() {
    let records = vec![(LocoId::Loco1, SensorId::RfidReader7), (LocoId::Loco2, SensorId::RfidReader2)];
    assert_eq!(sensors_status_message(&records), Ok(vec![0xab, 4, 5, 2, 7, 1, 2, 2]));
    assert_eq!(sensors_status_message(&vec![]), Ok(vec![0xab, 4, 1, 0]));
    let many = vec![(LocoId::Loco1, SensorId::RfidReader1); 128];
    assert_eq!(sensors_status_message(&many), Err(Error::PayloadSizeTooLarge(128)));
    let most = vec![(LocoId::Loco1, SensorId::RfidReader1); 127];
    let m = sensors_status_message(&most).unwrap();
    assert_eq!(m.len(), 3 + 255);
    assert_eq!(m[2], 255);
}

#[test]
fn controller_frames_decode_on_devices() {
    let m = control_loco_message(Direction::Backward, Speed::PwmDutyCycle(42)).unwrap();
    assert_eq!(received_header(&m[..3]), Ok((Operation::ControlLoco, 2)));
    assert_eq!(control_loco_command(&m[3..]), Ok((Direction::Backward, Speed::PwmDutyCycle(42))));
    let m = drive_actuator_message(ActuatorId::SwitchRails1, ActuatorType::SwitchRails, 2);
    assert_eq!(received_header(&m[..3]), Ok((Operation::DriveActuator, 3)));
    assert_eq!(drive_actuator_command(&m[3..]), Ok((ActuatorId::SwitchRails1, SwitchRailsState::Diverted)));
    let m = connect_message(LocoId::Loco2);
    assert_eq!(retrieve_header_op(&m[..3]), Ok(Operation::Connect));
    assert_eq!(connect_loco_id(&m[3..]), Ok(LocoId::Loco2));
    let reply = loco_status_reply(Direction::Forward, Speed::Fast).unwrap();
    let st = loco_status_from_reply(&reply, None, None).unwrap();
    assert_eq!((st.direction(), st.speed()), (Direction::Forward, Speed::Fast));
}
