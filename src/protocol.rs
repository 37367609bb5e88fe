//! Wire protocol shared by the controller and the devices: little-endian
//! records of single bytes, a three-byte frame header and the byte codes of
//! every protocol enum.
use vstd::prelude::*;

verus! {

/// Magic byte that opens every frame header.
pub const BACKEND_PROTOCOL_MAGIC_NUMBER: u8 = 0xab;

/// Size in bytes of an encoded header.
pub const HEADER_SIZE: usize = 3;

/// Errors raised while converting between wire bytes and protocol values.
#[derive(Copy, Clone, Debug, PartialEq, Eq, Structural)]
pub enum Error {
    UidTooLong,
    UnknownActuatorId(u8),
    UnknownActuatorType(u8),
    UnknownDirection(u8),
    UnknownLocoId(u8),
    UnknownOperation(u8),
    UnknownSensorId(u8),
    UnknownSpeed(u8),
    UnknownSwitchRailsState(u8),
    UnknownUid,
    UnsupportedOperation(Operation),
    /// A duty cycle outside `0..100` has no wire code.
    InvalidDutyCycle(u8),
    /// Fewer bytes than the record needs.
    UnexpectedEnd,
}

/// Identifier of a locomotive.
#[derive(Copy, Clone, Debug, PartialEq, Eq, Hash, PartialOrd, Ord, Structural)]
pub enum LocoId {
    Loco1,
    Loco2,
}

impl LocoId {
    /// Wire code of the value.
    pub open spec fn spec_to_u8(self) -> u8 {
        match self {
            LocoId::Loco1 => 1,
            LocoId::Loco2 => 2,
        }
    }

    /// Value of a wire code; an unknown code is an error that carries it.
    pub open spec fn spec_from_u8(v: u8) -> Result<LocoId, Error> {
        if v == 1 {
            Ok(LocoId::Loco1)
        } else if v == 2 {
            Ok(LocoId::Loco2)
        } else {
            Err(Error::UnknownLocoId(v))
        }
    }
}

impl From<LocoId> for u8 {
    fn from(item: LocoId) -> u8 {
        match item {
            LocoId::Loco1 => 1,
            LocoId::Loco2 => 2,
        }
    }
}

impl vstd::std_specs::convert::FromSpecImpl<LocoId> for u8 {
    open spec fn obeys_from_spec() -> bool {
        true
    }

    open spec fn from_spec(v: LocoId) -> u8 {
        v.spec_to_u8()
    }
}

impl TryFrom<u8> for LocoId {
    type Error = Error;

    fn try_from(value: u8) -> Result<LocoId, Error> {
        match value {
            1 => Ok(LocoId::Loco1),
            2 => Ok(LocoId::Loco2),
            _ => Err(Error::UnknownLocoId(value)),
        }
    }
}

impl vstd::std_specs::convert::TryFromSpecImpl<u8> for LocoId {
    open spec fn obeys_try_from_spec() -> bool {
        true
    }

    open spec fn try_from_spec(v: u8) -> Result<LocoId, Error> {
        LocoId::spec_from_u8(v)
    }
}

/// Identifier of a wayside RFID reader.
#[derive(Copy, Clone, Debug, PartialEq, Eq, Hash, Structural)]
pub enum SensorId {
    RfidReader1,
    RfidReader2,
    RfidReader3,
    RfidReader4,
    RfidReader5,
    RfidReader6,
    RfidReader7,
    RfidReader8,
}

impl SensorId {
    /// Wire code of the value.
    pub open spec fn spec_to_u8(self) -> u8 {
        match self {
            SensorId::RfidReader1 => 1,
            SensorId::RfidReader2 => 2,
            SensorId::RfidReader3 => 3,
            SensorId::RfidReader4 => 4,
            SensorId::RfidReader5 => 5,
            SensorId::RfidReader6 => 6,
            SensorId::RfidReader7 => 7,
            SensorId::RfidReader8 => 8,
        }
    }

    /// Value of a wire code; an unknown code is an error that carries it.
    pub open spec fn spec_from_u8(v: u8) -> Result<SensorId, Error> {
        if v == 1 {
            Ok(SensorId::RfidReader1)
        } else if v == 2 {
            Ok(SensorId::RfidReader2)
        } else if v == 3 {
            Ok(SensorId::RfidReader3)
        } else if v == 4 {
            Ok(SensorId::RfidReader4)
        } else if v == 5 {
            Ok(SensorId::RfidReader5)
        } else if v == 6 {
            Ok(SensorId::RfidReader6)
        } else if v == 7 {
            Ok(SensorId::RfidReader7)
        } else if v == 8 {
            Ok(SensorId::RfidReader8)
        } else {
            Err(Error::UnknownSensorId(v))
        }
    }
}

impl From<SensorId> for u8 {
    fn from(item: SensorId) -> u8 {
        match item {
            SensorId::RfidReader1 => 1,
            SensorId::RfidReader2 => 2,
            SensorId::RfidReader3 => 3,
            SensorId::RfidReader4 => 4,
            SensorId::RfidReader5 => 5,
            SensorId::RfidReader6 => 6,
            SensorId::RfidReader7 => 7,
            SensorId::RfidReader8 => 8,
        }
    }
}

impl vstd::std_specs::convert::FromSpecImpl<SensorId> for u8 {
    open spec fn obeys_from_spec() -> bool {
        true
    }

    open spec fn from_spec(v: SensorId) -> u8 {
        v.spec_to_u8()
    }
}

impl TryFrom<u8> for SensorId {
    type Error = Error;

    fn try_from(value: u8) -> Result<SensorId, Error> {
        match value {
            1 => Ok(SensorId::RfidReader1),
            2 => Ok(SensorId::RfidReader2),
            3 => Ok(SensorId::RfidReader3),
            4 => Ok(SensorId::RfidReader4),
            5 => Ok(SensorId::RfidReader5),
            6 => Ok(SensorId::RfidReader6),
            7 => Ok(SensorId::RfidReader7),
            8 => Ok(SensorId::RfidReader8),
            _ => Err(Error::UnknownSensorId(value)),
        }
    }
}

impl vstd::std_specs::convert::TryFromSpecImpl<u8> for SensorId {
    open spec fn obeys_try_from_spec() -> bool {
        true
    }

    open spec fn try_from_spec(v: u8) -> Result<SensorId, Error> {
        SensorId::spec_from_u8(v)
    }
}

/// Identifier of a motorized switch.
#[derive(Copy, Clone, Debug, PartialEq, Eq, Hash, Structural)]
pub enum ActuatorId {
    SwitchRails1,
    SwitchRails2,
    SwitchRails3,
    SwitchRails4,
    SwitchRails5,
    SwitchRails6,
    SwitchRails7,
    SwitchRails8,
}

impl ActuatorId {
    /// Wire code of the value.
    pub open spec fn spec_to_u8(self) -> u8 {
        match self {
            ActuatorId::SwitchRails1 => 1,
            ActuatorId::SwitchRails2 => 2,
            ActuatorId::SwitchRails3 => 3,
            ActuatorId::SwitchRails4 => 4,
            ActuatorId::SwitchRails5 => 5,
            ActuatorId::SwitchRails6 => 6,
            ActuatorId::SwitchRails7 => 7,
            ActuatorId::SwitchRails8 => 8,
        }
    }

    /// Value of a wire code; an unknown code is an error that carries it.
    pub open spec fn spec_from_u8(v: u8) -> Result<ActuatorId, Error> {
        if v == 1 {
            Ok(ActuatorId::SwitchRails1)
        } else if v == 2 {
            Ok(ActuatorId::SwitchRails2)
        } else if v == 3 {
            Ok(ActuatorId::SwitchRails3)
        } else if v == 4 {
            Ok(ActuatorId::SwitchRails4)
        } else if v == 5 {
            Ok(ActuatorId::SwitchRails5)
        } else if v == 6 {
            Ok(ActuatorId::SwitchRails6)
        } else if v == 7 {
            Ok(ActuatorId::SwitchRails7)
        } else if v == 8 {
            Ok(ActuatorId::SwitchRails8)
        } else {
            Err(Error::UnknownActuatorId(v))
        }
    }
}

impl From<ActuatorId> for u8 {
    fn from(item: ActuatorId) -> u8 {
        match item {
            ActuatorId::SwitchRails1 => 1,
            ActuatorId::SwitchRails2 => 2,
            ActuatorId::SwitchRails3 => 3,
            ActuatorId::SwitchRails4 => 4,
            ActuatorId::SwitchRails5 => 5,
            ActuatorId::SwitchRails6 => 6,
            ActuatorId::SwitchRails7 => 7,
            ActuatorId::SwitchRails8 => 8,
        }
    }
}

impl vstd::std_specs::convert::FromSpecImpl<ActuatorId> for u8 {
    open spec fn obeys_from_spec() -> bool {
        true
    }

    open spec fn from_spec(v: ActuatorId) -> u8 {
        v.spec_to_u8()
    }
}

impl TryFrom<u8> for ActuatorId {
    type Error = Error;

    fn try_from(value: u8) -> Result<ActuatorId, Error> {
        match value {
            1 => Ok(ActuatorId::SwitchRails1),
            2 => Ok(ActuatorId::SwitchRails2),
            3 => Ok(ActuatorId::SwitchRails3),
            4 => Ok(ActuatorId::SwitchRails4),
            5 => Ok(ActuatorId::SwitchRails5),
            6 => Ok(ActuatorId::SwitchRails6),
            7 => Ok(ActuatorId::SwitchRails7),
            8 => Ok(ActuatorId::SwitchRails8),
            _ => Err(Error::UnknownActuatorId(value)),
        }
    }
}

impl vstd::std_specs::convert::TryFromSpecImpl<u8> for ActuatorId {
    open spec fn obeys_try_from_spec() -> bool {
        true
    }

    open spec fn try_from_spec(v: u8) -> Result<ActuatorId, Error> {
        ActuatorId::spec_from_u8(v)
    }
}

/// Kind of actuator driven by a `DriveActuator` frame.
#[derive(Copy, Clone, Debug, Default, PartialEq, Eq, Structural)]
pub enum ActuatorType {
    #[default]
    SwitchRails,
}

impl ActuatorType {
    /// Wire code of the value.
    pub open spec fn spec_to_u8(self) -> u8 {
        match self {
            ActuatorType::SwitchRails => 1,
        }
    }

    /// Value of a wire code; an unknown code is an error that carries it.
    pub open spec fn spec_from_u8(v: u8) -> Result<ActuatorType, Error> {
        if v == 1 {
            Ok(ActuatorType::SwitchRails)
        } else {
            Err(Error::UnknownActuatorType(v))
        }
    }
}

impl From<ActuatorType> for u8 {
    fn from(item: ActuatorType) -> u8 {
        match item {
            ActuatorType::SwitchRails => 1,
        }
    }
}

impl vstd::std_specs::convert::FromSpecImpl<ActuatorType> for u8 {
    open spec fn obeys_from_spec() -> bool {
        true
    }

    open spec fn from_spec(v: ActuatorType) -> u8 {
        v.spec_to_u8()
    }
}

impl TryFrom<u8> for ActuatorType {
    type Error = Error;

    fn try_from(value: u8) -> Result<ActuatorType, Error> {
        match value {
            1 => Ok(ActuatorType::SwitchRails),
            _ => Err(Error::UnknownActuatorType(value)),
        }
    }
}

impl vstd::std_specs::convert::TryFromSpecImpl<u8> for ActuatorType {
    open spec fn obeys_try_from_spec() -> bool {
        true
    }

    open spec fn try_from_spec(v: u8) -> Result<ActuatorType, Error> {
        ActuatorType::spec_from_u8(v)
    }
}

/// Position of a switch.
#[derive(Copy, Clone, Debug, Default, PartialEq, Eq, Structural)]
pub enum SwitchRailsState {
    #[default]
    Direct,
    Diverted,
}

impl SwitchRailsState {
    /// Wire code of the value.
    pub open spec fn spec_to_u8(self) -> u8 {
        match self {
            SwitchRailsState::Direct => 1,
            SwitchRailsState::Diverted => 2,
        }
    }

    /// Value of a wire code; an unknown code is an error that carries it.
    pub open spec fn spec_from_u8(v: u8) -> Result<SwitchRailsState, Error> {
        if v == 1 {
            Ok(SwitchRailsState::Direct)
        } else if v == 2 {
            Ok(SwitchRailsState::Diverted)
        } else {
            Err(Error::UnknownSwitchRailsState(v))
        }
    }
}

impl From<SwitchRailsState> for u8 {
    fn from(item: SwitchRailsState) -> u8 {
        match item {
            SwitchRailsState::Direct => 1,
            SwitchRailsState::Diverted => 2,
        }
    }
}

impl vstd::std_specs::convert::FromSpecImpl<SwitchRailsState> for u8 {
    open spec fn obeys_from_spec() -> bool {
        true
    }

    open spec fn from_spec(v: SwitchRailsState) -> u8 {
        v.spec_to_u8()
    }
}

impl TryFrom<u8> for SwitchRailsState {
    type Error = Error;

    fn try_from(value: u8) -> Result<SwitchRailsState, Error> {
        match value {
            1 => Ok(SwitchRailsState::Direct),
            2 => Ok(SwitchRailsState::Diverted),
            _ => Err(Error::UnknownSwitchRailsState(value)),
        }
    }
}

impl vstd::std_specs::convert::TryFromSpecImpl<u8> for SwitchRailsState {
    open spec fn obeys_try_from_spec() -> bool {
        true
    }

    open spec fn try_from_spec(v: u8) -> Result<SwitchRailsState, Error> {
        SwitchRailsState::spec_from_u8(v)
    }
}

/// Travel direction of a locomotive.
#[derive(Copy, Clone, Debug, Default, PartialEq, Eq, PartialOrd, Ord, Structural)]
pub enum Direction {
    #[default]
    Forward,
    Backward,
}

impl Direction {
    /// Wire code of the value.
    pub open spec fn spec_to_u8(self) -> u8 {
        match self {
            Direction::Forward => 1,
            Direction::Backward => 2,
        }
    }

    /// Value of a wire code; an unknown code is an error that carries it.
    pub open spec fn spec_from_u8(v: u8) -> Result<Direction, Error> {
        if v == 1 {
            Ok(Direction::Forward)
        } else if v == 2 {
            Ok(Direction::Backward)
        } else {
            Err(Error::UnknownDirection(v))
        }
    }
}

impl From<Direction> for u8 {
    fn from(item: Direction) -> u8 {
        match item {
            Direction::Forward => 1,
            Direction::Backward => 2,
        }
    }
}

impl vstd::std_specs::convert::FromSpecImpl<Direction> for u8 {
    open spec fn obeys_from_spec() -> bool {
        true
    }

    open spec fn from_spec(v: Direction) -> u8 {
        v.spec_to_u8()
    }
}

impl TryFrom<u8> for Direction {
    type Error = Error;

    fn try_from(value: u8) -> Result<Direction, Error> {
        match value {
            1 => Ok(Direction::Forward),
            2 => Ok(Direction::Backward),
            _ => Err(Error::UnknownDirection(value)),
        }
    }
}

impl vstd::std_specs::convert::TryFromSpecImpl<u8> for Direction {
    open spec fn obeys_try_from_spec() -> bool {
        true
    }

    open spec fn try_from_spec(v: u8) -> Result<Direction, Error> {
        Direction::spec_from_u8(v)
    }
}

/// Operation code carried in the second byte of a header.
#[derive(Copy, Clone, Debug, PartialEq, Eq, Structural)]
pub enum Operation {
    Connect,
    ControlLoco,
    LocoStatus,
    SensorsStatus,
    DriveActuator,
}

impl Operation {
    /// Wire code of the value.
    pub open spec fn spec_to_u8(self) -> u8 {
        match self {
            Operation::Connect => 1,
            Operation::ControlLoco => 2,
            Operation::LocoStatus => 3,
            Operation::SensorsStatus => 4,
            Operation::DriveActuator => 5,
        }
    }

    /// Value of a wire code; an unknown code is an error that carries it.
    pub open spec fn spec_from_u8(v: u8) -> Result<Operation, Error> {
        if v == 1 {
            Ok(Operation::Connect)
        } else if v == 2 {
            Ok(Operation::ControlLoco)
        } else if v == 3 {
            Ok(Operation::LocoStatus)
        } else if v == 4 {
            Ok(Operation::SensorsStatus)
        } else if v == 5 {
            Ok(Operation::DriveActuator)
        } else {
            Err(Error::UnknownOperation(v))
        }
    }
}

impl From<Operation> for u8 {
    fn from(item: Operation) -> u8 {
        match item {
            Operation::Connect => 1,
            Operation::ControlLoco => 2,
            Operation::LocoStatus => 3,
            Operation::SensorsStatus => 4,
            Operation::DriveActuator => 5,
        }
    }
}

impl vstd::std_specs::convert::FromSpecImpl<Operation> for u8 {
    open spec fn obeys_from_spec() -> bool {
        true
    }

    open spec fn from_spec(v: Operation) -> u8 {
        v.spec_to_u8()
    }
}

impl TryFrom<u8> for Operation {
    type Error = Error;

    fn try_from(value: u8) -> Result<Operation, Error> {
        match value {
            1 => Ok(Operation::Connect),
            2 => Ok(Operation::ControlLoco),
            3 => Ok(Operation::LocoStatus),
            4 => Ok(Operation::SensorsStatus),
            5 => Ok(Operation::DriveActuator),
            _ => Err(Error::UnknownOperation(value)),
        }
    }
}

impl vstd::std_specs::convert::TryFromSpecImpl<u8> for Operation {
    open spec fn obeys_try_from_spec() -> bool {
        true
    }

    open spec fn try_from_spec(v: u8) -> Result<Operation, Error> {
        Operation::spec_from_u8(v)
    }
}

/// Payload of `Connect`: the locomotive announcing itself.
#[derive(Copy, Clone, Debug, PartialEq, Eq, Structural)]
pub struct ConnectPayload {
    pub loco_id: u8,
}

impl ConnectPayload {
    /// Number of bytes of an encoded record.
    pub open spec fn spec_size() -> usize {
        1
    }

    /// The fields in declaration order, one byte each.
    pub open spec fn spec_encode(self) -> Seq<u8> {
        seq![self.loco_id]
    }

    /// The record read from the first 1 byte, with the number of bytes used.
    pub open spec fn spec_decode(b: Seq<u8>) -> Result<(ConnectPayload, usize), Error> {
        if b.len() < 1 {
            Err(Error::UnexpectedEnd)
        } else {
            Ok((ConnectPayload { loco_id: b[0] }, 1))
        }
    }

    pub fn encode(&self) -> (r: Vec<u8>)
        ensures
            r@ == self.spec_encode(),
    {
        let mut r: Vec<u8> = Vec::new();
        r.push(self.loco_id);
        proof {
            assert(r@ =~= self.spec_encode());
        }
        r
    }

    pub fn decode(b: &[u8]) -> (r: Result<(ConnectPayload, usize), Error>)
        ensures
            r == ConnectPayload::spec_decode(b@),
    {
        if b.len() < 1 {
            return Err(Error::UnexpectedEnd);
        }
        Ok((ConnectPayload { loco_id: b[0] }, 1))
    }
}

/// Decoding the bytes of a ConnectPayload and encoding the result again gives the same bytes,
/// and every ConnectPayload decodes back from its own encoding.
pub proof fn lemma_connect_payload_round_trip(b: Seq<u8>, x: ConnectPayload)
    ensures
        ConnectPayload::spec_decode(b) matches Ok((y, n)) ==> y.spec_encode() == b.take(n as int),
        ConnectPayload::spec_decode(x.spec_encode()) == Ok::<(ConnectPayload, usize), Error>((x, 1usize)),
{
    if let Ok((y, n)) = ConnectPayload::spec_decode(b) {
        assert(y.spec_encode() =~= b.take(n as int));
    }
}

/// Payload of `ControlLoco`.
#[derive(Copy, Clone, Debug, PartialEq, Eq, Structural)]
pub struct ControlLocoPayload {
    pub direction: u8,
    pub speed: u8,
}

impl ControlLocoPayload {
    /// Number of bytes of an encoded record.
    pub open spec fn spec_size() -> usize {
        2
    }

    /// The fields in declaration order, one byte each.
    pub open spec fn spec_encode(self) -> Seq<u8> {
        seq![self.direction, self.speed]
    }

    /// The record read from the first 2 bytes, with the number of bytes used.
    pub open spec fn spec_decode(b: Seq<u8>) -> Result<(ControlLocoPayload, usize), Error> {
        if b.len() < 2 {
            Err(Error::UnexpectedEnd)
        } else {
            Ok((ControlLocoPayload { direction: b[0], speed: b[1] }, 2))
        }
    }

    pub fn encode(&self) -> (r: Vec<u8>)
        ensures
            r@ == self.spec_encode(),
    {
        let mut r: Vec<u8> = Vec::new();
        r.push(self.direction);
        r.push(self.speed);
        proof {
            assert(r@ =~= self.spec_encode());
        }
        r
    }

    pub fn decode(b: &[u8]) -> (r: Result<(ControlLocoPayload, usize), Error>)
        ensures
            r == ControlLocoPayload::spec_decode(b@),
    {
        if b.len() < 2 {
            return Err(Error::UnexpectedEnd);
        }
        Ok((ControlLocoPayload { direction: b[0], speed: b[1] }, 2))
    }
}

/// Decoding the bytes of a ControlLocoPayload and encoding the result again gives the same bytes,
/// and every ControlLocoPayload decodes back from its own encoding.
pub proof fn lemma_control_loco_payload_round_trip(b: Seq<u8>, x: ControlLocoPayload)
    ensures
        ControlLocoPayload::spec_decode(b) matches Ok((y, n)) ==> y.spec_encode() == b.take(n as int),
        ControlLocoPayload::spec_decode(x.spec_encode()) == Ok::<(ControlLocoPayload, usize), Error>((x, 2usize)),
{
    if let Ok((y, n)) = ControlLocoPayload::spec_decode(b) {
        assert(y.spec_encode() =~= b.take(n as int));
    }
}

/// Leading record of `SensorsStatus`: how many sensor records follow.
#[derive(Copy, Clone, Debug, PartialEq, Eq, Structural)]
pub struct SensorsStatusArray {
    pub len: u8,
}

impl SensorsStatusArray {
    /// Number of bytes of an encoded record.
    pub open spec fn spec_size() -> usize {
        1
    }

    /// The fields in declaration order, one byte each.
    pub open spec fn spec_encode(self) -> Seq<u8> {
        seq![self.len]
    }

    /// The record read from the first 1 byte, with the number of bytes used.
    pub open spec fn spec_decode(b: Seq<u8>) -> Result<(SensorsStatusArray, usize), Error> {
        if b.len() < 1 {
            Err(Error::UnexpectedEnd)
        } else {
            Ok((SensorsStatusArray { len: b[0] }, 1))
        }
    }

    pub fn encode(&self) -> (r: Vec<u8>)
        ensures
            r@ == self.spec_encode(),
    {
        let mut r: Vec<u8> = Vec::new();
        r.push(self.len);
        proof {
            assert(r@ =~= self.spec_encode());
        }
        r
    }

    pub fn decode(b: &[u8]) -> (r: Result<(SensorsStatusArray, usize), Error>)
        ensures
            r == SensorsStatusArray::spec_decode(b@),
    {
        if b.len() < 1 {
            return Err(Error::UnexpectedEnd);
        }
        Ok((SensorsStatusArray { len: b[0] }, 1))
    }
}

/// Decoding the bytes of a SensorsStatusArray and encoding the result again gives the same bytes,
/// and every SensorsStatusArray decodes back from its own encoding.
pub proof fn lemma_sensors_status_array_round_trip(b: Seq<u8>, x: SensorsStatusArray)
    ensures
        SensorsStatusArray::spec_decode(b) matches Ok((y, n)) ==> y.spec_encode() == b.take(n as int),
        SensorsStatusArray::spec_decode(x.spec_encode()) == Ok::<(SensorsStatusArray, usize), Error>((x, 1usize)),
{
    if let Ok((y, n)) = SensorsStatusArray::spec_decode(b) {
        assert(y.spec_encode() =~= b.take(n as int));
    }
}

/// One record of `SensorsStatus`: a locomotive seen by a sensor.
#[derive(Copy, Clone, Debug, PartialEq, Eq, Structural)]
pub struct SensorStatus {
    pub sensor_id: u8,
    pub loco_id: u8,
}

impl SensorStatus {
    /// Number of bytes of an encoded record.
    pub open spec fn spec_size() -> usize {
        2
    }

    /// The fields in declaration order, one byte each.
    pub open spec fn spec_encode(self) -> Seq<u8> {
        seq![self.sensor_id, self.loco_id]
    }

    /// The record read from the first 2 bytes, with the number of bytes used.
    pub open spec fn spec_decode(b: Seq<u8>) -> Result<(SensorStatus, usize), Error> {
        if b.len() < 2 {
            Err(Error::UnexpectedEnd)
        } else {
            Ok((SensorStatus { sensor_id: b[0], loco_id: b[1] }, 2))
        }
    }

    pub fn encode(&self) -> (r: Vec<u8>)
        ensures
            r@ == self.spec_encode(),
    {
        let mut r: Vec<u8> = Vec::new();
        r.push(self.sensor_id);
        r.push(self.loco_id);
        proof {
            assert(r@ =~= self.spec_encode());
        }
        r
    }

    pub fn decode(b: &[u8]) -> (r: Result<(SensorStatus, usize), Error>)
        ensures
            r == SensorStatus::spec_decode(b@),
    {
        if b.len() < 2 {
            return Err(Error::UnexpectedEnd);
        }
        Ok((SensorStatus { sensor_id: b[0], loco_id: b[1] }, 2))
    }
}

/// Decoding the bytes of a SensorStatus and encoding the result again gives the same bytes,
/// and every SensorStatus decodes back from its own encoding.
pub proof fn lemma_sensor_status_round_trip(b: Seq<u8>, x: SensorStatus)
    ensures
        SensorStatus::spec_decode(b) matches Ok((y, n)) ==> y.spec_encode() == b.take(n as int),
        SensorStatus::spec_decode(x.spec_encode()) == Ok::<(SensorStatus, usize), Error>((x, 2usize)),
{
    if let Ok((y, n)) = SensorStatus::spec_decode(b) {
        assert(y.spec_encode() =~= b.take(n as int));
    }
}

/// Reply to `LocoStatus`, sent without a header.
#[derive(Copy, Clone, Debug, PartialEq, Eq, Structural)]
pub struct LocoStatusResponse {
    pub direction: u8,
    pub speed: u8,
}

impl LocoStatusResponse {
    /// Number of bytes of an encoded record.
    pub open spec fn spec_size() -> usize {
        2
    }

    /// The fields in declaration order, one byte each.
    pub open spec fn spec_encode(self) -> Seq<u8> {
        seq![self.direction, self.speed]
    }

    /// The record read from the first 2 bytes, with the number of bytes used.
    pub open spec fn spec_decode(b: Seq<u8>) -> Result<(LocoStatusResponse, usize), Error> {
        if b.len() < 2 {
            Err(Error::UnexpectedEnd)
        } else {
            Ok((LocoStatusResponse { direction: b[0], speed: b[1] }, 2))
        }
    }

    pub fn encode(&self) -> (r: Vec<u8>)
        ensures
            r@ == self.spec_encode(),
    {
        let mut r: Vec<u8> = Vec::new();
        r.push(self.direction);
        r.push(self.speed);
        proof {
            assert(r@ =~= self.spec_encode());
        }
        r
    }

    pub fn decode(b: &[u8]) -> (r: Result<(LocoStatusResponse, usize), Error>)
        ensures
            r == LocoStatusResponse::spec_decode(b@),
    {
        if b.len() < 2 {
            return Err(Error::UnexpectedEnd);
        }
        Ok((LocoStatusResponse { direction: b[0], speed: b[1] }, 2))
    }
}

/// Decoding the bytes of a LocoStatusResponse and encoding the result again gives the same bytes,
/// and every LocoStatusResponse decodes back from its own encoding.
pub proof fn lemma_loco_status_response_round_trip(b: Seq<u8>, x: LocoStatusResponse)
    ensures
        LocoStatusResponse::spec_decode(b) matches Ok((y, n)) ==> y.spec_encode() == b.take(n as int),
        LocoStatusResponse::spec_decode(x.spec_encode()) == Ok::<(LocoStatusResponse, usize), Error>((x, 2usize)),
{
    if let Ok((y, n)) = LocoStatusResponse::spec_decode(b) {
        assert(y.spec_encode() =~= b.take(n as int));
    }
}

/// Payload of `DriveActuator`.
#[derive(Copy, Clone, Debug, PartialEq, Eq, Structural)]
pub struct DriveActuatorPayload {
    pub actuator_id: u8,
    pub actuator_type: u8,
    pub actuator_state: u8,
}

impl DriveActuatorPayload {
    /// Number of bytes of an encoded record.
    pub open spec fn spec_size() -> usize {
        3
    }

    /// The fields in declaration order, one byte each.
    pub open spec fn spec_encode(self) -> Seq<u8> {
        seq![self.actuator_id, self.actuator_type, self.actuator_state]
    }

    /// The record read from the first 3 bytes, with the number of bytes used.
    pub open spec fn spec_decode(b: Seq<u8>) -> Result<(DriveActuatorPayload, usize), Error> {
        if b.len() < 3 {
            Err(Error::UnexpectedEnd)
        } else {
            Ok((DriveActuatorPayload { actuator_id: b[0], actuator_type: b[1], actuator_state: b[2] }, 3))
        }
    }

    pub fn encode(&self) -> (r: Vec<u8>)
        ensures
            r@ == self.spec_encode(),
    {
        let mut r: Vec<u8> = Vec::new();
        r.push(self.actuator_id);
        r.push(self.actuator_type);
        r.push(self.actuator_state);
        proof {
            assert(r@ =~= self.spec_encode());
        }
        r
    }

    pub fn decode(b: &[u8]) -> (r: Result<(DriveActuatorPayload, usize), Error>)
        ensures
            r == DriveActuatorPayload::spec_decode(b@),
    {
        if b.len() < 3 {
            return Err(Error::UnexpectedEnd);
        }
        Ok((DriveActuatorPayload { actuator_id: b[0], actuator_type: b[1], actuator_state: b[2] }, 3))
    }
}

/// Decoding the bytes of a DriveActuatorPayload and encoding the result again gives the same bytes,
/// and every DriveActuatorPayload decodes back from its own encoding.
pub proof fn lemma_drive_actuator_payload_round_trip(b: Seq<u8>, x: DriveActuatorPayload)
    ensures
        DriveActuatorPayload::spec_decode(b) matches Ok((y, n)) ==> y.spec_encode() == b.take(n as int),
        DriveActuatorPayload::spec_decode(x.spec_encode()) == Ok::<(DriveActuatorPayload, usize), Error>((x, 3usize)),
{
    if let Ok((y, n)) = DriveActuatorPayload::spec_decode(b) {
        assert(y.spec_encode() =~= b.take(n as int));
    }
}

/// Frame header: magic byte, operation code and payload length.
#[derive(Copy, Clone, Debug, PartialEq, Eq, Structural)]
pub struct Header {
    pub magic: u8,
    pub operation: u8,
    pub payload_len: u8,
}

impl Header {
    /// Number of bytes of an encoded record.
    pub open spec fn spec_size() -> usize {
        3
    }

    /// The fields in declaration order, one byte each.
    pub open spec fn spec_encode(self) -> Seq<u8> {
        seq![self.magic, self.operation, self.payload_len]
    }

    /// The record read from the first 3 bytes, with the number of bytes used.
    pub open spec fn spec_decode(b: Seq<u8>) -> Result<(Header, usize), Error> {
        if b.len() < 3 {
            Err(Error::UnexpectedEnd)
        } else {
            Ok((Header { magic: b[0], operation: b[1], payload_len: b[2] }, 3))
        }
    }

    pub fn encode(&self) -> (r: Vec<u8>)
        ensures
            r@ == self.spec_encode(),
    {
        let mut r: Vec<u8> = Vec::new();
        r.push(self.magic);
        r.push(self.operation);
        r.push(self.payload_len);
        proof {
            assert(r@ =~= self.spec_encode());
        }
        r
    }

    pub fn decode(b: &[u8]) -> (r: Result<(Header, usize), Error>)
        ensures
            r == Header::spec_decode(b@),
    {
        if b.len() < 3 {
            return Err(Error::UnexpectedEnd);
        }
        Ok((Header { magic: b[0], operation: b[1], payload_len: b[2] }, 3))
    }
}

/// Decoding the bytes of a Header and encoding the result again gives the same bytes,
/// and every Header decodes back from its own encoding.
pub proof fn lemma_header_round_trip(b: Seq<u8>, x: Header)
    ensures
        Header::spec_decode(b) matches Ok((y, n)) ==> y.spec_encode() == b.take(n as int),
        Header::spec_decode(x.spec_encode()) == Ok::<(Header, usize), Error>((x, 3usize)),
{
    if let Ok((y, n)) = Header::spec_decode(b) {
        assert(y.spec_encode() =~= b.take(n as int));
    }
}

/// First wire code of the duty-cycle range.
pub const SPEED_PWM_IDX_L: u8 = 100;

/// Number of duty-cycle codes.
pub const SPEED_PWM_RANGE: u8 = 100;

/// Commanded speed of a locomotive.
#[derive(Copy, Clone, Debug, Default, PartialEq, Eq, Structural)]
pub enum Speed {
    #[default]
    Stop,
    Slow,
    Normal,
    Fast,
    /// Raw duty cycle in percent, `0..100`.
    PwmDutyCycle(u8),
}

impl Speed {
    /// Wire code of a speed: `0..=3` for the named speeds, `100 + p` for a
    /// duty cycle `p < 100`; any other duty cycle has no code.
    pub open spec fn spec_to_u8(self) -> Result<u8, Error> {
        match self {
            Speed::Stop => Ok(0),
            Speed::Slow => Ok(1),
            Speed::Normal => Ok(2),
            Speed::Fast => Ok(3),
            Speed::PwmDutyCycle(p) => if p < 100 {
                Ok((p + 100) as u8)
            } else {
                Err(Error::InvalidDutyCycle(p))
            },
        }
    }

    /// Speed of a wire code; codes outside `0..=3` and `100..200` are unknown.
    pub open spec fn spec_from_u8(v: u8) -> Result<Speed, Error> {
        if v == 0 {
            Ok(Speed::Stop)
        } else if v == 1 {
            Ok(Speed::Slow)
        } else if v == 2 {
            Ok(Speed::Normal)
        } else if v == 3 {
            Ok(Speed::Fast)
        } else if 100 <= v < 200 {
            Ok(Speed::PwmDutyCycle((v - 100) as u8))
        } else {
            Err(Error::UnknownSpeed(v))
        }
    }
}

impl TryFrom<u8> for Speed {
    type Error = Error;

    fn try_from(value: u8) -> Result<Speed, Error> {
        match value {
            0 => Ok(Speed::Stop),
            1 => Ok(Speed::Slow),
            2 => Ok(Speed::Normal),
            3 => Ok(Speed::Fast),
            SPEED_PWM_IDX_L..200 => Ok(Speed::PwmDutyCycle(value - SPEED_PWM_IDX_L)),
            _ => Err(Error::UnknownSpeed(value)),
        }
    }
}

impl vstd::std_specs::convert::TryFromSpecImpl<u8> for Speed {
    open spec fn obeys_try_from_spec() -> bool {
        true
    }

    open spec fn try_from_spec(v: u8) -> Result<Speed, Error> {
        Speed::spec_from_u8(v)
    }
}

impl TryFrom<Speed> for u8 {
    type Error = Error;

    fn try_from(item: Speed) -> Result<u8, Error> {
        match item {
            Speed::Stop => Ok(0),
            Speed::Slow => Ok(1),
            Speed::Normal => Ok(2),
            Speed::Fast => Ok(3),
            Speed::PwmDutyCycle(duty_percent) => {
                if duty_percent < SPEED_PWM_RANGE {
                    Ok(duty_percent + SPEED_PWM_IDX_L)
                } else {
                    Err(Error::InvalidDutyCycle(duty_percent))
                }
            },
        }
    }
}

impl vstd::std_specs::convert::TryFromSpecImpl<Speed> for u8 {
    open spec fn obeys_try_from_spec() -> bool {
        true
    }

    open spec fn try_from_spec(v: Speed) -> Result<u8, Error> {
        v.spec_to_u8()
    }
}

/// A speed has a wire code exactly when that code lies in `0..=3` or
/// `100..200`; a code outside those ranges decodes to `UnknownSpeed`, and
/// encoding and decoding undo each other.
pub proof fn lemma_speed_codes(s: Speed, v: u8)
    ensures
        s.spec_to_u8() matches Ok(c) ==> (c <= 3 || 100 <= c < 200),
        s.spec_to_u8() matches Ok(c) ==> Speed::spec_from_u8(c) == Ok::<Speed, Error>(s),
        !(v <= 3 || 100 <= v < 200) <==> Speed::spec_from_u8(v) is Err,
        Speed::spec_from_u8(v) is Err ==> Speed::spec_from_u8(v) == Err::<Speed, Error>(
            Error::UnknownSpeed(v),
        ),
        Speed::spec_from_u8(v) matches Ok(t) ==> t.spec_to_u8() == Ok::<u8, Error>(v),
{
}

/// Every code that decodes to an enum value is that value's code, and every
/// enum value decodes back from its code.
pub proof fn lemma_enum_codes_round_trip(v: u8)
    ensures
        LocoId::spec_from_u8(v) matches Ok(x) ==> x.spec_to_u8() == v,
        SensorId::spec_from_u8(v) matches Ok(x) ==> x.spec_to_u8() == v,
        ActuatorId::spec_from_u8(v) matches Ok(x) ==> x.spec_to_u8() == v,
        ActuatorType::spec_from_u8(v) matches Ok(x) ==> x.spec_to_u8() == v,
        SwitchRailsState::spec_from_u8(v) matches Ok(x) ==> x.spec_to_u8() == v,
        Direction::spec_from_u8(v) matches Ok(x) ==> x.spec_to_u8() == v,
        Operation::spec_from_u8(v) matches Ok(x) ==> x.spec_to_u8() == v,
        forall|x: LocoId| #[trigger] LocoId::spec_from_u8(x.spec_to_u8()) == Ok::<LocoId, Error>(x),
        forall|x: SensorId| #[trigger] SensorId::spec_from_u8(x.spec_to_u8()) == Ok::<SensorId, Error>(x),
        forall|x: ActuatorId| #[trigger] ActuatorId::spec_from_u8(x.spec_to_u8()) == Ok::<ActuatorId, Error>(x),
        forall|x: ActuatorType| #[trigger] ActuatorType::spec_from_u8(x.spec_to_u8()) == Ok::<ActuatorType, Error>(x),
        forall|x: SwitchRailsState| #[trigger] SwitchRailsState::spec_from_u8(x.spec_to_u8()) == Ok::<SwitchRailsState, Error>(x),
        forall|x: Direction| #[trigger] Direction::spec_from_u8(x.spec_to_u8()) == Ok::<Direction, Error>(x),
        forall|x: Operation| #[trigger] Operation::spec_from_u8(x.spec_to_u8()) == Ok::<Operation, Error>(x),
{
}

impl LocoId {
    /// The locomotive whose RFID tag carries the four-byte `uid`.
    pub open spec fn spec_from_uid(uid: Seq<u8>) -> Result<LocoId, Error> {
        if uid.len() != 4 {
            Err(Error::UidTooLong)
        } else if uid =~= seq![0xe3u8, 0xa6u8, 0xafu8, 0x05u8] {
            Ok(LocoId::Loco1)
        } else if uid =~= seq![0xf1u8, 0x65u8, 0xb2u8, 0x01u8] {
            Ok(LocoId::Loco2)
        } else {
            Err(Error::UnknownUid)
        }
    }

    pub fn from_uid(uid: &[u8]) -> (r: Result<LocoId, Error>)
        ensures
            r == LocoId::spec_from_uid(uid@),
    {
        if uid.len() != 4 {
            return Err(Error::UidTooLong);
        }
        if uid[0] == 0xe3 && uid[1] == 0xa6 && uid[2] == 0xaf && uid[3] == 0x05 {
            assert(uid@ =~= seq![0xe3u8, 0xa6u8, 0xafu8, 0x05u8]);
            Ok(LocoId::Loco1)
        } else if uid[0] == 0xf1 && uid[1] == 0x65 && uid[2] == 0xb2 && uid[3] == 0x01 {
            assert(uid@ =~= seq![0xf1u8, 0x65u8, 0xb2u8, 0x01u8]);
            Ok(LocoId::Loco2)
        } else {
            assert(!(uid@ =~= seq![0xe3u8, 0xa6u8, 0xafu8, 0x05u8])) by {
                if uid@ =~= seq![0xe3u8, 0xa6u8, 0xafu8, 0x05u8] {
                    assert(uid@[0] == 0xe3 && uid@[1] == 0xa6 && uid@[2] == 0xaf && uid@[3] == 0x05);
                }
            }
            assert(!(uid@ =~= seq![0xf1u8, 0x65u8, 0xb2u8, 0x01u8])) by {
                if uid@ =~= seq![0xf1u8, 0x65u8, 0xb2u8, 0x01u8] {
                    assert(uid@[0] == 0xf1 && uid@[1] == 0x65 && uid@[2] == 0xb2 && uid@[3] == 0x01);
                }
            }
            Err(Error::UnknownUid)
        }
    }
}

} // verus!
