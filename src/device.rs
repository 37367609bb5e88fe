//! The device side of the protocol: the frames a locomotive and the sensor
//! bank send, and the checks a locomotive and the actuator bank make on what
//! they receive. The radios, sockets and pins stay with the firmware.
use vstd::prelude::*;

use crate::backend::{spec_connect_loco, spec_frame, spec_header_op, spec_loco_status_reply};
use crate::protocol::{lemma_enum_codes_round_trip, lemma_speed_codes};
use crate::protocol::{
    self, ActuatorId, ActuatorType, ConnectPayload, ControlLocoPayload, Direction,
    DriveActuatorPayload, Header, LocoId, LocoStatusResponse, Operation, SensorId, SensorStatus,
    SensorsStatusArray, Speed, SwitchRailsState, BACKEND_PROTOCOL_MAGIC_NUMBER,
};

verus! {

/// Errors of a device session.
#[derive(Copy, Clone, Debug, PartialEq, Eq, Structural)]
pub enum Error {
    ConvertLocoProtocolType(protocol::Error),
    /// Fewer bytes than the record needs.
    DecodeFromSlice,
    InvalidBackendProtocolMagicNumber(u8),
    /// This many sensor records do not fit in one frame.
    PayloadSizeTooLarge(usize),
    UnsupportedOperation(Operation),
}

fn frame(op: Operation, payload: Vec<u8>) -> (r: Vec<u8>)
    requires
        payload@.len() <= 255,
    ensures
        r@ == spec_frame(op, payload@),
{
    let header = Header {
        magic: BACKEND_PROTOCOL_MAGIC_NUMBER,
        operation: u8::from(op),
        payload_len: payload.len() as u8,
    };
    let mut message = header.encode();
    let mut payload = payload;
    message.append(&mut payload);
    message
}

/// The `Connect` frame by which a locomotive announces itself.
pub fn connect_message(loco_id: LocoId) -> (r: Vec<u8>)
    ensures
        r@ == spec_frame(Operation::Connect, seq![loco_id.spec_to_u8()]),
{
    let payload = ConnectPayload { loco_id: u8::from(loco_id) };
    frame(Operation::Connect, payload.encode())
}

/// A received header: the magic byte must match and the code be known; the
/// operation and the payload length come back.
pub open spec fn spec_received_header(b: Seq<u8>) -> Result<(Operation, u8), Error> {
    match Header::spec_decode(b) {
        Err(_) => Err(Error::DecodeFromSlice),
        Ok((h, _)) => if h.magic != BACKEND_PROTOCOL_MAGIC_NUMBER {
            Err(Error::InvalidBackendProtocolMagicNumber(h.magic))
        } else {
            match Operation::spec_from_u8(h.operation) {
                Ok(op) => Ok((op, h.payload_len)),
                Err(e) => Err(Error::ConvertLocoProtocolType(e)),
            }
        },
    }
}

pub fn received_header(b: &[u8]) -> (r: Result<(Operation, u8), Error>)
    ensures
        r == spec_received_header(b@),
{
    let header = match Header::decode(b) {
        Ok((h, _)) => h,
        Err(_) => {
            return Err(Error::DecodeFromSlice);
        },
    };
    if header.magic != BACKEND_PROTOCOL_MAGIC_NUMBER {
        return Err(Error::InvalidBackendProtocolMagicNumber(header.magic));
    }
    match Operation::try_from(header.operation) {
        Ok(op) => Ok((op, header.payload_len)),
        Err(e) => Err(Error::ConvertLocoProtocolType(e)),
    }
}

/// A locomotive serves `ControlLoco` and `LocoStatus`; the reply to the
/// latter is the only one it sends.
pub fn check_loco_op(op: Operation) -> (r: Result<bool, Error>)
    ensures
        op == Operation::ControlLoco ==> r == Ok::<bool, Error>(false),
        op == Operation::LocoStatus ==> r == Ok::<bool, Error>(true),
        op != Operation::ControlLoco && op != Operation::LocoStatus ==> r == Err::<bool, Error>(
            Error::UnsupportedOperation(op),
        ),
{
    match op {
        Operation::ControlLoco => Ok(false),
        Operation::LocoStatus => Ok(true),
        Operation::Connect | Operation::SensorsStatus | Operation::DriveActuator => Err(
            Error::UnsupportedOperation(op),
        ),
    }
}

/// The actuator bank serves `DriveActuator` only.
pub fn check_actuators_op(op: Operation) -> (r: Result<(), Error>)
    ensures
        op == Operation::DriveActuator ==> r is Ok,
        op != Operation::DriveActuator ==> r == Err::<(), Error>(Error::UnsupportedOperation(op)),
{
    match op {
        Operation::DriveActuator => Ok(()),
        Operation::Connect
        | Operation::SensorsStatus
        | Operation::ControlLoco
        | Operation::LocoStatus => Err(Error::UnsupportedOperation(op)),
    }
}

/// What a `ControlLoco` payload commands: direction then speed, each
/// checked in turn.
pub open spec fn spec_control_loco(b: Seq<u8>) -> Result<(Direction, Speed), Error> {
    match ControlLocoPayload::spec_decode(b) {
        Err(_) => Err(Error::DecodeFromSlice),
        Ok((p, _)) => match Direction::spec_from_u8(p.direction) {
            Err(e) => Err(Error::ConvertLocoProtocolType(e)),
            Ok(d) => match Speed::spec_from_u8(p.speed) {
                Err(e) => Err(Error::ConvertLocoProtocolType(e)),
                Ok(s) => Ok((d, s)),
            },
        },
    }
}

pub fn control_loco_command(b: &[u8]) -> (r: Result<(Direction, Speed), Error>)
    ensures
        r == spec_control_loco(b@),
{
    let payload = match ControlLocoPayload::decode(b) {
        Ok((p, _)) => p,
        Err(_) => {
            return Err(Error::DecodeFromSlice);
        },
    };
    let direction = match Direction::try_from(payload.direction) {
        Ok(d) => d,
        Err(e) => {
            return Err(Error::ConvertLocoProtocolType(e));
        },
    };
    match Speed::try_from(payload.speed) {
        Ok(s) => Ok((direction, s)),
        Err(e) => Err(Error::ConvertLocoProtocolType(e)),
    }
}

/// The reply a locomotive sends to `LocoStatus`, without a header.
pub fn loco_status_reply(direction: Direction, speed: Speed) -> (r: Result<Vec<u8>, Error>)
    ensures
        match speed.spec_to_u8() {
            Ok(code) => r matches Ok(m) && m@ == seq![direction.spec_to_u8(), code],
            Err(e) => r == Err::<Vec<u8>, Error>(Error::ConvertLocoProtocolType(e)),
        },
{
    let code = match u8::try_from(speed) {
        Ok(c) => c,
        Err(e) => {
            return Err(Error::ConvertLocoProtocolType(e));
        },
    };
    let reply = LocoStatusResponse { direction: u8::from(direction), speed: code };
    Ok(reply.encode())
}

/// What a `DriveActuator` payload commands: actuator, kind, then state,
/// each checked in turn.
pub open spec fn spec_drive_actuator(b: Seq<u8>) -> Result<(ActuatorId, SwitchRailsState), Error> {
    match DriveActuatorPayload::spec_decode(b) {
        Err(_) => Err(Error::DecodeFromSlice),
        Ok((p, _)) => match ActuatorId::spec_from_u8(p.actuator_id) {
            Err(e) => Err(Error::ConvertLocoProtocolType(e)),
            Ok(id) => match ActuatorType::spec_from_u8(p.actuator_type) {
                Err(e) => Err(Error::ConvertLocoProtocolType(e)),
                Ok(_) => match SwitchRailsState::spec_from_u8(p.actuator_state) {
                    Err(e) => Err(Error::ConvertLocoProtocolType(e)),
                    Ok(st) => Ok((id, st)),
                },
            },
        },
    }
}

pub fn drive_actuator_command(b: &[u8]) -> (r: Result<(ActuatorId, SwitchRailsState), Error>)
    ensures
        r == spec_drive_actuator(b@),
{
    let payload = match DriveActuatorPayload::decode(b) {
        Ok((p, _)) => p,
        Err(_) => {
            return Err(Error::DecodeFromSlice);
        },
    };
    let actuator_id = match ActuatorId::try_from(payload.actuator_id) {
        Ok(id) => id,
        Err(e) => {
            return Err(Error::ConvertLocoProtocolType(e));
        },
    };
    let actuator_type = match ActuatorType::try_from(payload.actuator_type) {
        Ok(t) => t,
        Err(e) => {
            return Err(Error::ConvertLocoProtocolType(e));
        },
    };
    match actuator_type {
        ActuatorType::SwitchRails => match SwitchRailsState::try_from(payload.actuator_state) {
            Ok(st) => Ok((actuator_id, st)),
            Err(e) => Err(Error::ConvertLocoProtocolType(e)),
        },
    }
}

/// The sensor records of a `SensorsStatus` payload, one per sighting.
pub open spec fn spec_sensor_records(records: Seq<(LocoId, SensorId)>) -> Seq<u8>
    decreases records.len(),
{
    if records.len() == 0 {
        seq![]
    } else {
        spec_sensor_records(records.drop_last()) + (SensorStatus {
            sensor_id: records.last().1.spec_to_u8(),
            loco_id: records.last().0.spec_to_u8(),
        }).spec_encode()
    }
}

/// The `SensorsStatus` frame for the sightings: their count, then one record
/// each. More than 127 sightings do not fit in one frame.
pub fn sensors_status_message(records: &Vec<(LocoId, SensorId)>) -> (r: Result<Vec<u8>, Error>)
    ensures
        records@.len() <= 127 ==> (r matches Ok(m) && m@ == spec_frame(
            Operation::SensorsStatus,
            (SensorsStatusArray { len: records@.len() as u8 }).spec_encode() + spec_sensor_records(
                records@,
            ),
        )),
        records@.len() > 127 ==> r == Err::<Vec<u8>, Error>(
            Error::PayloadSizeTooLarge(records@.len() as usize),
        ),
{
    if records.len() > 127 {
        return Err(Error::PayloadSizeTooLarge(records.len()));
    }
    let mut payload = (SensorsStatusArray { len: records.len() as u8 }).encode();
    let ghost head = payload@;
    let mut i: usize = 0;
    while i < records.len()
        invariant
            0 <= i <= records@.len() <= 127,
            payload@ == head + spec_sensor_records(records@.take(i as int)),
            payload@.len() == 1 + 2 * i,
        decreases records.len() - i,
    {
        let (loco_id, sensor_id) = records[i];
        let rec = SensorStatus { sensor_id: u8::from(sensor_id), loco_id: u8::from(loco_id) };
        let mut bytes = rec.encode();
        payload.append(&mut bytes);
        proof {
            assert(records@.take(i + 1).drop_last() =~= records@.take(i as int));
            assert(records@.take(i + 1).last() == records@[i as int]);
            assert(payload@ =~= head + spec_sensor_records(records@.take(i + 1)));
        }
        i += 1;
    }
    assert(records@.take(i as int) =~= records@);
    Ok(frame(Operation::SensorsStatus, payload))
}


/// A `ControlLoco` frame built by the controller passes the locomotive's
/// header check and decodes back to the direction and speed it was built
/// from.
pub proof fn lemma_control_loco_round_trip(direction: Direction, speed: Speed, code: u8)
    requires
        speed.spec_to_u8() == Ok::<u8, protocol::Error>(code),
    ensures
        ({
            let payload = (ControlLocoPayload { direction: direction.spec_to_u8(), speed: code }).spec_encode();
            let m = spec_frame(Operation::ControlLoco, payload);
            &&& spec_received_header(m) == Ok::<(Operation, u8), Error>((Operation::ControlLoco, 2u8))
            &&& spec_control_loco(m.skip(3)) == Ok::<(Direction, Speed), Error>((direction, speed))
        }),
{
    lemma_speed_codes(speed, code);
    lemma_enum_codes_round_trip(code);
    let payload = (ControlLocoPayload { direction: direction.spec_to_u8(), speed: code }).spec_encode();
    let m = spec_frame(Operation::ControlLoco, payload);
    assert(m.skip(3) =~= payload);
    assert(m[0] == BACKEND_PROTOCOL_MAGIC_NUMBER && m[1] == 2 && m[2] == 2);
}

/// A `DriveActuator` frame for a switch passes the actuator bank's header
/// check and decodes back to the switch and position it was built from.
pub proof fn lemma_drive_actuator_round_trip(actuator_id: ActuatorId, state: SwitchRailsState)
    ensures
        ({
            let payload = (DriveActuatorPayload {
                actuator_id: actuator_id.spec_to_u8(),
                actuator_type: ActuatorType::SwitchRails.spec_to_u8(),
                actuator_state: state.spec_to_u8(),
            }).spec_encode();
            let m = spec_frame(Operation::DriveActuator, payload);
            &&& spec_received_header(m) == Ok::<(Operation, u8), Error>((Operation::DriveActuator, 3u8))
            &&& spec_drive_actuator(m.skip(3)) == Ok::<(ActuatorId, SwitchRailsState), Error>(
                (actuator_id, state),
            )
        }),
{
    lemma_enum_codes_round_trip(0);
    let payload = (DriveActuatorPayload {
        actuator_id: actuator_id.spec_to_u8(),
        actuator_type: ActuatorType::SwitchRails.spec_to_u8(),
        actuator_state: state.spec_to_u8(),
    }).spec_encode();
    let m = spec_frame(Operation::DriveActuator, payload);
    assert(m.skip(3) =~= payload);
    assert(m[0] == BACKEND_PROTOCOL_MAGIC_NUMBER && m[1] == 5 && m[2] == 3);
}


/// The `Connect` frame of a locomotive passes the controller's header check
/// and names that locomotive.
pub proof fn lemma_connect_round_trip(loco_id: LocoId)
    ensures
        ({
            let m = spec_frame(Operation::Connect, seq![loco_id.spec_to_u8()]);
            &&& spec_header_op(m) == Ok::<Operation, crate::backend::Error>(Operation::Connect)
            &&& spec_connect_loco(m.skip(3)) == Ok::<LocoId, crate::backend::Error>(loco_id)
        }),
{
    lemma_enum_codes_round_trip(0);
    let m = spec_frame(Operation::Connect, seq![loco_id.spec_to_u8()]);
    assert(m.skip(3) =~= seq![loco_id.spec_to_u8()]);
    assert(m[0] == BACKEND_PROTOCOL_MAGIC_NUMBER && m[1] == 1 && m[2] == 1);
}

/// The reply of a locomotive to `LocoStatus` decodes, at the controller, to
/// the direction and speed it was built from.
pub proof fn lemma_loco_status_round_trip(direction: Direction, speed: Speed, code: u8)
    requires
        speed.spec_to_u8() == Ok::<u8, protocol::Error>(code),
    ensures
        spec_loco_status_reply(seq![direction.spec_to_u8(), code]) == Ok::<
            (Direction, Speed),
            crate::backend::Error,
        >((direction, speed)),
{
    lemma_speed_codes(speed, code);
    lemma_enum_codes_round_trip(code);
}

} // verus!
