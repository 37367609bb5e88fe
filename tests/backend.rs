use loco_controller::backend::{
    check_loco_connection_op, check_manual_control, check_sensors_op, connect_loco_id, control_loco_message,
    drive_actuator_message, loco_ids, loco_status_from_reply, loco_status_message,
    retrieve_header_op, sensor_record, sensors_status_len, Error, LocoIntent, OracleMode,
};
use loco_controller::protocol::{
    ActuatorId, ActuatorType, Direction, Error as ProtocolError, LocoId, Operation, SensorId,
    Speed,
};
use loco_controller::rail_network::TrackId;

#[test]
fn control_loco_frame() {
    let m = control_loco_message(Direction::Backward, Speed::Normal).unwrap();
    assert_eq!(m, vec![0xab, 2, 2, 2, 2]);
    let m = control_loco_message(Direction::Forward, Speed::PwmDutyCycle(40)).unwrap();
    assert_eq!(m, vec![0xab, 2, 2, 1, 140]);
}

#[test]
fn control_loco_frame_rejects_bad_duty_cycle() {
    assert_eq!(
        control_loco_message(Direction::Forward, Speed::PwmDutyCycle(120)),
        Err(Error::ConvertLocoProtocolType(ProtocolError::InvalidDutyCycle(120)))
    );
}

#[test]
fn loco_status_request_frame() {
    assert_eq!(loco_status_message(), vec![0xab, 3, 0]);
}

#[test]
fn drive_actuator_frame() {
    let m = drive_actuator_message(ActuatorId::SwitchRails4, ActuatorType::SwitchRails, 2);
    assert_eq!(m, vec![0xab, 5, 3, 4, 1, 2]);
}

#[test]
fn header_operation_checks() {
    assert_eq!(retrieve_header_op(&[0xab, 1, 1]), Ok(Operation::Connect));
    assert_eq!(retrieve_header_op(&[0xac, 1, 1]), Err(Error::InvalidBackendProtocolMagicNumber(0xac)));
    assert_eq!(
        retrieve_header_op(&[0xab, 9, 0]),
        Err(Error::ConvertLocoProtocolType(ProtocolError::UnknownOperation(9)))
    );
    assert_eq!(retrieve_header_op(&[0xab]), Err(Error::DecodeFromStream));
}

#[test]
fn session_operation_checks() {
    assert_eq!(check_loco_connection_op(Operation::Connect), Ok(()));
    assert_eq!(
        check_loco_connection_op(Operation::LocoStatus),
        Err(Error::UnsupportedOperation(Operation::LocoStatus))
    );
    assert_eq!(check_sensors_op(Operation::SensorsStatus), Ok(()));
    assert_eq!(
        check_sensors_op(Operation::Connect),
        Err(Error::UnsupportedOperation(Operation::Connect))
    );
}

#[test]
fn connect_payload() {
    assert_eq!(connect_loco_id(&[2]), Ok(LocoId::Loco2));
    assert_eq!(
        connect_loco_id(&[7]),
        Err(Error::ConvertLocoProtocolType(ProtocolError::UnknownLocoId(7)))
    );
    assert_eq!(connect_loco_id(&[]), Err(Error::DecodeFromStream));
}

#[test]
fn loco_status_reply() {
    let intent = Some(LocoIntent::Drive(Direction::Forward, TrackId::Station1));
    let st = loco_status_from_reply(&[2, 1], Some(SensorId::RfidReader3), intent).unwrap();
    assert_eq!(st.direction(), Direction::Backward);
    assert_eq!(st.speed(), Speed::Slow);
    assert_eq!(st.location(), Some(SensorId::RfidReader3));
    assert_eq!(st.intent(), intent);
    assert_eq!(
        loco_status_from_reply(&[3, 1], None, None),
        Err(Error::ConvertLocoProtocolType(ProtocolError::UnknownDirection(3)))
    );
    assert_eq!(
        loco_status_from_reply(&[1, 50], None, None),
        Err(Error::ConvertLocoProtocolType(ProtocolError::UnknownSpeed(50)))
    );
    assert_eq!(loco_status_from_reply(&[1], None, None), Err(Error::DecodeFromStream));
}

#[test]
fn sensor_records() {
    assert_eq!(sensors_status_len(&[3]), Ok(3));
    assert_eq!(sensors_status_len(&[]), Err(Error::DecodeFromStream));
    assert_eq!(sensor_record(&[7, 1]), Ok((LocoId::Loco1, SensorId::RfidReader7)));
    assert_eq!(
        sensor_record(&[7, 3]),
        Err(Error::ConvertLocoProtocolType(ProtocolError::UnknownLocoId(3)))
    );
    assert_eq!(
        sensor_record(&[0, 1]),
        Err(Error::ConvertLocoProtocolType(ProtocolError::UnknownSensorId(0)))
    );
}

#[test]
fn oracle_mode_and_loco_list() {
    assert!(OracleMode::Auto.enables_oracle());
    assert!(!OracleMode::Off.enables_oracle());
    assert_eq!(loco_ids(), vec![LocoId::Loco1, LocoId::Loco2]);
}

#[test]
fn manual_control_gated_by_oracle() {
    assert_eq!(check_manual_control(false), Ok(()));
    assert_eq!(check_manual_control(true), Err(Error::OracleRunning));
}
