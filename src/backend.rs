//! Device-side logic of the controller: the state it keeps per locomotive,
//! the frames it sends to the devices and the checks on what they send back.
//! The sessions themselves (sockets and their locks) live with the caller.
use vstd::prelude::*;

use crate::protocol::{
    self, ActuatorId, ActuatorType, ConnectPayload, ControlLocoPayload, Direction,
    DriveActuatorPayload, Header, LocoId, LocoStatusResponse, Operation, SensorId, SensorStatus,
    SensorsStatusArray, Speed, BACKEND_PROTOCOL_MAGIC_NUMBER,
};
use crate::rail_network::{CheckpointId, TrackId};

verus! {

/// Errors of the device sessions.
#[derive(Copy, Clone, Debug, PartialEq, Eq, Structural)]
pub enum Error {
    ActuatorsNotConnected,
    /// A byte from a device is not a valid protocol value.
    ConvertLocoProtocolType(protocol::Error),
    /// A device sent fewer bytes than the record needs.
    DecodeFromStream,
    InvalidBackendProtocolMagicNumber(u8),
    LocoNotConnected(LocoId),
    UnsupportedOperation(Operation),
    /// Reading from or writing to a device failed.
    Transport,
    /// Manual commands are refused while the oracle drives the network.
    OracleRunning,
}

/// Whether the oracle drives the network.
#[derive(Copy, Clone, Debug, PartialEq, Eq, Structural)]
pub enum OracleMode {
    Off,
    Auto,
}

impl OracleMode {
    pub open spec fn spec_enables_oracle(self) -> bool {
        self == OracleMode::Auto
    }

    /// The value of the oracle flag that this mode sets.
    pub fn enables_oracle(&self) -> (r: bool)
        ensures
            r == self.spec_enables_oracle(),
    {
        match self {
            OracleMode::Off => false,
            OracleMode::Auto => true,
        }
    }
}

/// What the operator asks of a locomotive.
#[derive(Copy, Clone, Debug, PartialEq, Eq, Structural)]
pub enum LocoIntent {
    /// Go in the direction until any checkpoint of the track.
    Drive(Direction, TrackId),
    /// Go in the direction until the checkpoint, then stop there.
    Stop(Direction, CheckpointId),
}

/// What is known of a locomotive: what it reports of itself, where it was
/// last seen and what it was asked to do.
#[derive(Copy, Clone, Debug, PartialEq, Eq, Structural)]
pub struct LocoStatus {
    direction: Direction,
    speed: Speed,
    location: Option<SensorId>,
    intent: Option<LocoIntent>,
}

impl LocoStatus {
    pub closed spec fn spec_direction(self) -> Direction {
        self.direction
    }

    pub closed spec fn spec_speed(self) -> Speed {
        self.speed
    }

    pub closed spec fn spec_location(self) -> Option<SensorId> {
        self.location
    }

    pub closed spec fn spec_intent(self) -> Option<LocoIntent> {
        self.intent
    }

    pub fn new(
        direction: Direction,
        speed: Speed,
        location: Option<SensorId>,
        intent: Option<LocoIntent>,
    ) -> (r: LocoStatus)
        ensures
            r.spec_direction() == direction,
            r.spec_speed() == speed,
            r.spec_location() == location,
            r.spec_intent() == intent,
    {
        LocoStatus { direction, speed, location, intent }
    }

    pub fn direction(&self) -> (r: Direction)
        ensures
            r == self.spec_direction(),
    {
        self.direction
    }

    pub fn speed(&self) -> (r: Speed)
        ensures
            r == self.spec_speed(),
    {
        self.speed
    }

    pub fn location(&self) -> (r: Option<SensorId>)
        ensures
            r == self.spec_location(),
    {
        self.location
    }

    pub fn intent(&self) -> (r: Option<LocoIntent>)
        ensures
            r == self.spec_intent(),
    {
        self.intent
    }
}

/// A manual command to a locomotive or a switch is allowed only while the
/// oracle is off.
pub fn check_manual_control(oracle_enabled: bool) -> (r: Result<(), Error>)
    ensures
        oracle_enabled ==> r == Err::<(), Error>(Error::OracleRunning),
        !oracle_enabled ==> r is Ok,
{
    if oracle_enabled {
        Err(Error::OracleRunning)
    } else {
        Ok(())
    }
}

/// The locomotives the controller knows, in declaration order.
pub fn loco_ids() -> (r: Vec<LocoId>)
    ensures
        r@ == seq![LocoId::Loco1, LocoId::Loco2],
{
    vec![LocoId::Loco1, LocoId::Loco2]
}

/// A frame: the header for `op` and the payload's length, then the payload.
pub open spec fn spec_frame(op: Operation, payload: Seq<u8>) -> Seq<u8> {
    (Header {
        magic: BACKEND_PROTOCOL_MAGIC_NUMBER,
        operation: op.spec_to_u8(),
        payload_len: payload.len() as u8,
    }).spec_encode() + payload
}

fn frame(op: Operation, payload: Vec<u8>) -> (r: Vec<u8>)
    requires
        payload@.len() <= 255,
    ensures
        r@ == spec_frame(op, payload@),
{
    let header = Header {
        magic: BACKEND_PROTOCOL_MAGIC_NUMBER,
        operation: u8::from(op),
        payload_len: payload.len() as u8,
    };
    let mut message = header.encode();
    let mut payload = payload;
    message.append(&mut payload);
    message
}

/// The `ControlLoco` frame that sets a locomotive's direction and speed; a
/// speed without a wire code is refused.
pub fn control_loco_message(direction: Direction, speed: Speed) -> (r: Result<Vec<u8>, Error>)
    ensures
        match speed.spec_to_u8() {
            Ok(code) => r matches Ok(m) && m@ == spec_frame(
                Operation::ControlLoco,
                (ControlLocoPayload { direction: direction.spec_to_u8(), speed: code }).spec_encode(),
            ),
            Err(e) => r == Err::<Vec<u8>, Error>(Error::ConvertLocoProtocolType(e)),
        },
{
    let code = match u8::try_from(speed) {
        Ok(c) => c,
        Err(e) => {
            return Err(Error::ConvertLocoProtocolType(e));
        },
    };
    let payload = ControlLocoPayload { direction: u8::from(direction), speed: code };
    Ok(frame(Operation::ControlLoco, payload.encode()))
}

/// The `LocoStatus` request: a header with an empty payload.
pub fn loco_status_message() -> (r: Vec<u8>)
    ensures
        r@ == spec_frame(Operation::LocoStatus, seq![]),
{
    frame(Operation::LocoStatus, Vec::new())
}

/// The `DriveActuator` frame that moves an actuator to the state coded
/// `actuator_state`.
pub fn drive_actuator_message(
    actuator_id: ActuatorId,
    actuator_type: ActuatorType,
    actuator_state: u8,
) -> (r: Vec<u8>)
    ensures
        r@ == spec_frame(
            Operation::DriveActuator,
            (DriveActuatorPayload {
                actuator_id: actuator_id.spec_to_u8(),
                actuator_type: actuator_type.spec_to_u8(),
                actuator_state,
            }).spec_encode(),
        ),
{
    let payload = DriveActuatorPayload {
        actuator_id: u8::from(actuator_id),
        actuator_type: u8::from(actuator_type),
        actuator_state,
    };
    frame(Operation::DriveActuator, payload.encode())
}

/// Operation of a received header: the magic byte must match and the code
/// must be known.
pub open spec fn spec_header_op(b: Seq<u8>) -> Result<Operation, Error> {
    match Header::spec_decode(b) {
        Err(_) => Err(Error::DecodeFromStream),
        Ok((h, _)) => if h.magic != BACKEND_PROTOCOL_MAGIC_NUMBER {
            Err(Error::InvalidBackendProtocolMagicNumber(h.magic))
        } else {
            match Operation::spec_from_u8(h.operation) {
                Ok(op) => Ok(op),
                Err(e) => Err(Error::ConvertLocoProtocolType(e)),
            }
        },
    }
}

pub fn retrieve_header_op(b: &[u8]) -> (r: Result<Operation, Error>)
    ensures
        r == spec_header_op(b@),
{
    let header = match Header::decode(b) {
        Ok((h, _)) => h,
        Err(_) => {
            return Err(Error::DecodeFromStream);
        },
    };
    if header.magic != BACKEND_PROTOCOL_MAGIC_NUMBER {
        return Err(Error::InvalidBackendProtocolMagicNumber(header.magic));
    }
    match Operation::try_from(header.operation) {
        Ok(op) => Ok(op),
        Err(e) => Err(Error::ConvertLocoProtocolType(e)),
    }
}

/// A locomotive session must open with `Connect`.
pub fn check_loco_connection_op(op: Operation) -> (r: Result<(), Error>)
    ensures
        op == Operation::Connect ==> r is Ok,
        op != Operation::Connect ==> r == Err::<(), Error>(Error::UnsupportedOperation(op)),
{
    match op {
        Operation::Connect => Ok(()),
        Operation::ControlLoco
        | Operation::LocoStatus
        | Operation::SensorsStatus
        | Operation::DriveActuator => Err(Error::UnsupportedOperation(op)),
    }
}

/// A sensor session only sends `SensorsStatus`.
pub fn check_sensors_op(op: Operation) -> (r: Result<(), Error>)
    ensures
        op == Operation::SensorsStatus ==> r is Ok,
        op != Operation::SensorsStatus ==> r == Err::<(), Error>(Error::UnsupportedOperation(op)),
{
    match op {
        Operation::SensorsStatus => Ok(()),
        Operation::Connect
        | Operation::ControlLoco
        | Operation::LocoStatus
        | Operation::DriveActuator => Err(Error::UnsupportedOperation(op)),
    }
}

/// The locomotive that a `Connect` payload announces.
pub open spec fn spec_connect_loco(b: Seq<u8>) -> Result<LocoId, Error> {
    match ConnectPayload::spec_decode(b) {
        Err(_) => Err(Error::DecodeFromStream),
        Ok((p, _)) => match LocoId::spec_from_u8(p.loco_id) {
            Ok(l) => Ok(l),
            Err(e) => Err(Error::ConvertLocoProtocolType(e)),
        },
    }
}

pub fn connect_loco_id(b: &[u8]) -> (r: Result<LocoId, Error>)
    ensures
        r == spec_connect_loco(b@),
{
    let payload = match ConnectPayload::decode(b) {
        Ok((p, _)) => p,
        Err(_) => {
            return Err(Error::DecodeFromStream);
        },
    };
    match LocoId::try_from(payload.loco_id) {
        Ok(l) => Ok(l),
        Err(e) => Err(Error::ConvertLocoProtocolType(e)),
    }
}

/// The reply to `LocoStatus`: direction then speed, each checked in turn.
pub open spec fn spec_loco_status_reply(b: Seq<u8>) -> Result<(Direction, Speed), Error> {
    match LocoStatusResponse::spec_decode(b) {
        Err(_) => Err(Error::DecodeFromStream),
        Ok((p, _)) => match Direction::spec_from_u8(p.direction) {
            Err(e) => Err(Error::ConvertLocoProtocolType(e)),
            Ok(d) => match Speed::spec_from_u8(p.speed) {
                Err(e) => Err(Error::ConvertLocoProtocolType(e)),
                Ok(s) => Ok((d, s)),
            },
        },
    }
}

/// The status of a locomotive from its reply and from what the controller
/// keeps of it.
pub fn loco_status_from_reply(
    b: &[u8],
    location: Option<SensorId>,
    intent: Option<LocoIntent>,
) -> (r: Result<LocoStatus, Error>)
    ensures
        match spec_loco_status_reply(b@) {
            Ok((d, s)) => r matches Ok(st) && st.spec_direction() == d && st.spec_speed() == s
                && st.spec_location() == location && st.spec_intent() == intent,
            Err(e) => r == Err::<LocoStatus, Error>(e),
        },
{
    let resp = match LocoStatusResponse::decode(b) {
        Ok((p, _)) => p,
        Err(_) => {
            return Err(Error::DecodeFromStream);
        },
    };
    let direction = match Direction::try_from(resp.direction) {
        Ok(d) => d,
        Err(e) => {
            return Err(Error::ConvertLocoProtocolType(e));
        },
    };
    let speed = match Speed::try_from(resp.speed) {
        Ok(s) => s,
        Err(e) => {
            return Err(Error::ConvertLocoProtocolType(e));
        },
    };
    Ok(LocoStatus::new(direction, speed, location, intent))
}

/// Number of sensor records announced by a `SensorsStatus` payload.
pub fn sensors_status_len(b: &[u8]) -> (r: Result<u8, Error>)
    ensures
        match SensorsStatusArray::spec_decode(b@) {
            Ok((p, _)) => r == Ok::<u8, Error>(p.len),
            Err(_) => r == Err::<u8, Error>(Error::DecodeFromStream),
        },
{
    match SensorsStatusArray::decode(b) {
        Ok((p, _)) => Ok(p.len),
        Err(_) => Err(Error::DecodeFromStream),
    }
}

/// A sensor record: which locomotive was seen by which sensor, the
/// locomotive checked first.
pub open spec fn spec_sensor_record(b: Seq<u8>) -> Result<(LocoId, SensorId), Error> {
    match SensorStatus::spec_decode(b) {
        Err(_) => Err(Error::DecodeFromStream),
        Ok((p, _)) => match LocoId::spec_from_u8(p.loco_id) {
            Err(e) => Err(Error::ConvertLocoProtocolType(e)),
            Ok(l) => match SensorId::spec_from_u8(p.sensor_id) {
                Err(e) => Err(Error::ConvertLocoProtocolType(e)),
                Ok(s) => Ok((l, s)),
            },
        },
    }
}

pub fn sensor_record(b: &[u8]) -> (r: Result<(LocoId, SensorId), Error>)
    ensures
        r == spec_sensor_record(b@),
{
    let rec = match SensorStatus::decode(b) {
        Ok((p, _)) => p,
        Err(_) => {
            return Err(Error::DecodeFromStream);
        },
    };
    let loco_id = match LocoId::try_from(rec.loco_id) {
        Ok(l) => l,
        Err(e) => {
            return Err(Error::ConvertLocoProtocolType(e));
        },
    };
    match SensorId::try_from(rec.sensor_id) {
        Ok(s) => Ok((loco_id, s)),
        Err(e) => Err(Error::ConvertLocoProtocolType(e)),
    }
}

} // verus!
