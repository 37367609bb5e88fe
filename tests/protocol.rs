use loco_controller::protocol::{
    ActuatorId, ActuatorType, ConnectPayload, ControlLocoPayload, Direction, DriveActuatorPayload,
    Error, Header, LocoId, LocoStatusResponse, Operation, SensorId, SensorStatus,
    SensorsStatusArray, Speed, SwitchRailsState, BACKEND_PROTOCOL_MAGIC_NUMBER,
};

#[test]
fn loco_id_codes() {
    assert_eq!(u8::from(LocoId::Loco1), 1);
    assert_eq!(u8::from(LocoId::Loco2), 2);
    assert_eq!(LocoId::try_from(1u8).unwrap(), LocoId::Loco1);
    assert_eq!(LocoId::try_from(2u8).unwrap(), LocoId::Loco2);
    assert_eq!(LocoId::try_from(0u8), Err(Error::UnknownLocoId(0)));
    assert_eq!(LocoId::try_from(3u8), Err(Error::UnknownLocoId(3)));
}

#[test]
fn sensor_and_actuator_codes() {
    assert_eq!(u8::from(SensorId::RfidReader8), 8);
    assert_eq!(SensorId::try_from(5u8).unwrap(), SensorId::RfidReader5);
    assert_eq!(SensorId::try_from(9u8), Err(Error::UnknownSensorId(9)));
    assert_eq!(u8::from(ActuatorId::SwitchRails3), 3);
    assert_eq!(ActuatorId::try_from(8u8).unwrap(), ActuatorId::SwitchRails8);
    assert_eq!(ActuatorId::try_from(0u8), Err(Error::UnknownActuatorId(0)));
    assert_eq!(u8::from(ActuatorType::SwitchRails), 1);
    assert_eq!(ActuatorType::try_from(2u8), Err(Error::UnknownActuatorType(2)));
}

#[test]
fn switch_state_and_direction_codes() {
    assert_eq!(u8::from(SwitchRailsState::Direct), 1);
    assert_eq!(u8::from(SwitchRailsState::Diverted), 2);
    assert_eq!(SwitchRailsState::try_from(3u8), Err(Error::UnknownSwitchRailsState(3)));
    assert_eq!(u8::from(Direction::Forward), 1);
    assert_eq!(u8::from(Direction::Backward), 2);
    assert_eq!(Direction::try_from(2u8).unwrap(), Direction::Backward);
    assert_eq!(Direction::try_from(0u8), Err(Error::UnknownDirection(0)));
}

#[test]
fn operation_codes() {
    assert_eq!(u8::from(Operation::Connect), 1);
    assert_eq!(u8::from(Operation::DriveActuator), 5);
    assert_eq!(Operation::try_from(4u8).unwrap(), Operation::SensorsStatus);
    assert_eq!(Operation::try_from(6u8), Err(Error::UnknownOperation(6)));
}

#[test]
fn speed_codes() {
    assert_eq!(u8::try_from(Speed::Stop), Ok(0));
    assert_eq!(u8::try_from(Speed::Slow), Ok(1));
    assert_eq!(u8::try_from(Speed::Normal), Ok(2));
    assert_eq!(u8::try_from(Speed::Fast), Ok(3));
    assert_eq!(u8::try_from(Speed::PwmDutyCycle(0)), Ok(100));
    assert_eq!(u8::try_from(Speed::PwmDutyCycle(99)), Ok(199));
    assert_eq!(Speed::try_from(150u8).unwrap(), Speed::PwmDutyCycle(50));
    assert_eq!(Speed::try_from(3u8).unwrap(), Speed::Fast);
}

#[test]
fn speed_out_of_range_is_rejected() {
    assert_eq!(u8::try_from(Speed::PwmDutyCycle(100)), Err(Error::InvalidDutyCycle(100)));
    assert_eq!(u8::try_from(Speed::PwmDutyCycle(255)), Err(Error::InvalidDutyCycle(255)));
    for v in [4u8, 50, 99, 200, 255] {
        assert_eq!(Speed::try_from(v), Err(Error::UnknownSpeed(v)));
    }
}

#[test]
fn speed_round_trips_over_all_codes() {
    for v in 0u8..=255 {
        match Speed::try_from(v) {
            Ok(s) => assert_eq!(u8::try_from(s), Ok(v)),
            Err(e) => {
                assert_eq!(e, Error::UnknownSpeed(v));
                assert!(!(v <= 3 || (100..200).contains(&v)));
            }
        }
    }
}

#[test]
fn loco_id_from_uid() {
    assert_eq!(LocoId::from_uid(&[0xe3, 0xa6, 0xaf, 0x05]), Ok(LocoId::Loco1));
    assert_eq!(LocoId::from_uid(&[0xf1, 0x65, 0xb2, 0x01]), Ok(LocoId::Loco2));
    assert_eq!(LocoId::from_uid(&[0xf1, 0x65, 0xb2, 0x02]), Err(Error::UnknownUid));
    assert_eq!(LocoId::from_uid(&[0xe3, 0xa6, 0xaf]), Err(Error::UidTooLong));
    assert_eq!(LocoId::from_uid(&[0xe3, 0xa6, 0xaf, 0x05, 0x00]), Err(Error::UidTooLong));
}

#[test]
fn header_round_trip() {
    let bytes = [BACKEND_PROTOCOL_MAGIC_NUMBER, 2, 2, 9, 9];
    let (h, n) = Header::decode(&bytes).unwrap();
    assert_eq!(n, 3);
    assert_eq!(h, Header { magic: 0xab, operation: 2, payload_len: 2 });
    assert_eq!(h.encode(), vec![0xab, 2, 2]);
    assert_eq!(Header::decode(&bytes[..2]), Err(Error::UnexpectedEnd));
}

#[test]
fn payload_round_trips() {
    let c = ConnectPayload { loco_id: 2 };
    assert_eq!(c.encode(), vec![2]);
    assert_eq!(ConnectPayload::decode(&c.encode()), Ok((c, 1)));
    let cl = ControlLocoPayload { direction: 1, speed: 2 };
    assert_eq!(cl.encode(), vec![1, 2]);
    assert_eq!(ControlLocoPayload::decode(&cl.encode()), Ok((cl, 2)));
    let a = SensorsStatusArray { len: 3 };
    assert_eq!(SensorsStatusArray::decode(&a.encode()), Ok((a, 1)));
    let st = SensorStatus { sensor_id: 7, loco_id: 1 };
    assert_eq!(st.encode(), vec![7, 1]);
    assert_eq!(SensorStatus::decode(&st.encode()), Ok((st, 2)));
    let r = LocoStatusResponse { direction: 2, speed: 0 };
    assert_eq!(LocoStatusResponse::decode(&r.encode()), Ok((r, 2)));
    let d = DriveActuatorPayload { actuator_id: 4, actuator_type: 1, actuator_state: 2 };
    assert_eq!(d.encode(), vec![4, 1, 2]);
    assert_eq!(DriveActuatorPayload::decode(&d.encode()), Ok((d, 3)));
    assert_eq!(DriveActuatorPayload::decode(&[4, 1]), Err(Error::UnexpectedEnd));
    assert_eq!(ConnectPayload::decode(&[]), Err(Error::UnexpectedEnd));
}
