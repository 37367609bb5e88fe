//! Static model of the track: checkpoints joined by segments, the switch
//! positions and conflicts of each segment, and the best-first search that
//! picks the next checkpoint towards a destination.
use vstd::prelude::*;

use crate::protocol::{ActuatorId, Direction, SensorId, SwitchRailsState};

verus! {

/// Errors of the rail network.
#[derive(Copy, Clone, Debug, PartialEq, Eq, Structural)]
pub enum Error {
    /// The two checkpoints are not the ends of one segment.
    ConvertCheckpointsIntoSegmentId,
}

/// Rank used to order segments and checkpoints, `Priority0` first.
#[derive(Copy, Clone, Debug, PartialEq, Eq, PartialOrd, Ord, Structural)]
pub enum SegmentPriority {
    Priority0,
    Priority1,
    Priority2,
}

impl SegmentPriority {
    pub open spec fn spec_rank(self) -> u8 {
        match self {
            SegmentPriority::Priority0 => 0,
            SegmentPriority::Priority1 => 1,
            SegmentPriority::Priority2 => 2,
        }
    }

    pub fn rank(&self) -> (r: u8)
        ensures
            r == self.spec_rank(),
    {
        match self {
            SegmentPriority::Priority0 => 0,
            SegmentPriority::Priority1 => 1,
            SegmentPriority::Priority2 => 2,
        }
    }
}

/// A physical track that groups checkpoints.
#[derive(Copy, Clone, Debug, PartialEq, Eq, Structural)]
pub enum TrackId {
    Track1,
    Station1,
    Station2,
}

/// A point of the track where a locomotive can be detected.
#[derive(Copy, Clone, Debug, PartialEq, Eq, PartialOrd, Ord, Structural)]
pub enum CheckpointId {
    Checkpoint1,
    Checkpoint2,
    Checkpoint3,
    Checkpoint4,
    Checkpoint5,
    Checkpoint6,
    Station1,
    Station2,
}

impl CheckpointId {
    /// Position of the checkpoint in declaration order.
    pub open spec fn spec_index(self) -> u8 {
        match self {
            CheckpointId::Checkpoint1 => 0,
            CheckpointId::Checkpoint2 => 1,
            CheckpointId::Checkpoint3 => 2,
            CheckpointId::Checkpoint4 => 3,
            CheckpointId::Checkpoint5 => 4,
            CheckpointId::Checkpoint6 => 5,
            CheckpointId::Station1 => 6,
            CheckpointId::Station2 => 7,
        }
    }

    pub fn index(&self) -> (r: usize)
        ensures
            r == self.spec_index(),
    {
        match self {
            CheckpointId::Checkpoint1 => 0,
            CheckpointId::Checkpoint2 => 1,
            CheckpointId::Checkpoint3 => 2,
            CheckpointId::Checkpoint4 => 3,
            CheckpointId::Checkpoint5 => 4,
            CheckpointId::Checkpoint6 => 5,
            CheckpointId::Station1 => 6,
            CheckpointId::Station2 => 7,
        }
    }

    /// The checkpoint watched by a sensor.
    pub open spec fn spec_from_sensor(s: SensorId) -> CheckpointId {
        match s {
            SensorId::RfidReader1 => CheckpointId::Checkpoint1,
            SensorId::RfidReader2 => CheckpointId::Checkpoint2,
            SensorId::RfidReader3 => CheckpointId::Checkpoint3,
            SensorId::RfidReader4 => CheckpointId::Checkpoint4,
            SensorId::RfidReader5 => CheckpointId::Checkpoint5,
            SensorId::RfidReader6 => CheckpointId::Checkpoint6,
            SensorId::RfidReader7 => CheckpointId::Station1,
            SensorId::RfidReader8 => CheckpointId::Station2,
        }
    }
}

impl From<SensorId> for CheckpointId {
    fn from(s: SensorId) -> CheckpointId {
        match s {
            SensorId::RfidReader1 => CheckpointId::Checkpoint1,
            SensorId::RfidReader2 => CheckpointId::Checkpoint2,
            SensorId::RfidReader3 => CheckpointId::Checkpoint3,
            SensorId::RfidReader4 => CheckpointId::Checkpoint4,
            SensorId::RfidReader5 => CheckpointId::Checkpoint5,
            SensorId::RfidReader6 => CheckpointId::Checkpoint6,
            SensorId::RfidReader7 => CheckpointId::Station1,
            SensorId::RfidReader8 => CheckpointId::Station2,
        }
    }
}

impl vstd::std_specs::convert::FromSpecImpl<SensorId> for CheckpointId {
    open spec fn obeys_from_spec() -> bool {
        true
    }

    open spec fn from_spec(v: SensorId) -> CheckpointId {
        CheckpointId::spec_from_sensor(v)
    }
}

/// A stretch of track between two adjacent checkpoints.
#[derive(Copy, Clone, Debug, PartialEq, Eq, PartialOrd, Ord, Structural)]
pub enum SegmentId {
    Segment1,
    Segment2,
    Segment3,
    Segment4,
    Segment5,
    Segment6,
    Segment7,
    Segment8,
    Segment9,
    Segment10,
}

impl SegmentId {
    /// Position of the segment in declaration order.
    pub open spec fn spec_index(self) -> u8 {
        match self {
            SegmentId::Segment1 => 0,
            SegmentId::Segment2 => 1,
            SegmentId::Segment3 => 2,
            SegmentId::Segment4 => 3,
            SegmentId::Segment5 => 4,
            SegmentId::Segment6 => 5,
            SegmentId::Segment7 => 6,
            SegmentId::Segment8 => 7,
            SegmentId::Segment9 => 8,
            SegmentId::Segment10 => 9,
        }
    }

    pub fn index(&self) -> (r: usize)
        ensures
            r == self.spec_index(),
    {
        match self {
            SegmentId::Segment1 => 0,
            SegmentId::Segment2 => 1,
            SegmentId::Segment3 => 2,
            SegmentId::Segment4 => 3,
            SegmentId::Segment5 => 4,
            SegmentId::Segment6 => 5,
            SegmentId::Segment7 => 6,
            SegmentId::Segment8 => 7,
            SegmentId::Segment9 => 8,
            SegmentId::Segment10 => 9,
        }
    }
}

impl Direction {
    pub open spec fn spec_opposite(self) -> Direction {
        match self {
            Direction::Forward => Direction::Backward,
            Direction::Backward => Direction::Forward,
        }
    }
}

/// Neighbors of each checkpoint in the layout built by `RailNetwork::new`.
pub open spec fn baseline_neighbors(cp: CheckpointId, direction: Direction) -> Seq<CheckpointId> {
    match (cp, direction) {
        (CheckpointId::Checkpoint1, Direction::Forward) => seq![CheckpointId::Checkpoint2],
        (CheckpointId::Checkpoint1, Direction::Backward) => seq![CheckpointId::Checkpoint6],
        (CheckpointId::Checkpoint2, Direction::Forward) => seq![CheckpointId::Checkpoint3],
        (CheckpointId::Checkpoint2, Direction::Backward) => seq![CheckpointId::Checkpoint1, CheckpointId::Station1],
        (CheckpointId::Checkpoint3, Direction::Forward) => seq![CheckpointId::Checkpoint4, CheckpointId::Station2],
        (CheckpointId::Checkpoint3, Direction::Backward) => seq![CheckpointId::Checkpoint2],
        (CheckpointId::Checkpoint4, Direction::Forward) => seq![CheckpointId::Checkpoint5],
        (CheckpointId::Checkpoint4, Direction::Backward) => seq![CheckpointId::Checkpoint3],
        (CheckpointId::Checkpoint5, Direction::Forward) => seq![CheckpointId::Checkpoint6],
        (CheckpointId::Checkpoint5, Direction::Backward) => seq![CheckpointId::Checkpoint4, CheckpointId::Station2],
        (CheckpointId::Checkpoint6, Direction::Forward) => seq![CheckpointId::Checkpoint1, CheckpointId::Station1],
        (CheckpointId::Checkpoint6, Direction::Backward) => seq![CheckpointId::Checkpoint5],
        (CheckpointId::Station1, Direction::Forward) => seq![CheckpointId::Checkpoint2],
        (CheckpointId::Station1, Direction::Backward) => seq![CheckpointId::Checkpoint6],
        (CheckpointId::Station2, Direction::Forward) => seq![CheckpointId::Checkpoint5],
        (CheckpointId::Station2, Direction::Backward) => seq![CheckpointId::Checkpoint3],
    }
}

/// Track of each checkpoint in the layout built by `RailNetwork::new`.
pub open spec fn baseline_track(cp: CheckpointId) -> TrackId {
    match cp {
        CheckpointId::Checkpoint1 => TrackId::Track1,
        CheckpointId::Checkpoint2 => TrackId::Track1,
        CheckpointId::Checkpoint3 => TrackId::Track1,
        CheckpointId::Checkpoint4 => TrackId::Track1,
        CheckpointId::Checkpoint5 => TrackId::Track1,
        CheckpointId::Checkpoint6 => TrackId::Track1,
        CheckpointId::Station1 => TrackId::Station1,
        CheckpointId::Station2 => TrackId::Station2,
    }
}

/// Priority of each checkpoint in the layout built by `RailNetwork::new`.
pub open spec fn baseline_checkpoint_priority(cp: CheckpointId) -> SegmentPriority {
    match cp {
        CheckpointId::Checkpoint1 => SegmentPriority::Priority0,
        CheckpointId::Checkpoint2 => SegmentPriority::Priority0,
        CheckpointId::Checkpoint3 => SegmentPriority::Priority0,
        CheckpointId::Checkpoint4 => SegmentPriority::Priority0,
        CheckpointId::Checkpoint5 => SegmentPriority::Priority0,
        CheckpointId::Checkpoint6 => SegmentPriority::Priority0,
        CheckpointId::Station1 => SegmentPriority::Priority1,
        CheckpointId::Station2 => SegmentPriority::Priority1,
    }
}

/// Priority of each segment in the layout built by `RailNetwork::new`.
pub open spec fn baseline_segment_priority(s: SegmentId) -> SegmentPriority {
    match s {
        SegmentId::Segment1 => SegmentPriority::Priority0,
        SegmentId::Segment2 => SegmentPriority::Priority0,
        SegmentId::Segment3 => SegmentPriority::Priority0,
        SegmentId::Segment4 => SegmentPriority::Priority0,
        SegmentId::Segment5 => SegmentPriority::Priority0,
        SegmentId::Segment6 => SegmentPriority::Priority0,
        SegmentId::Segment7 => SegmentPriority::Priority1,
        SegmentId::Segment8 => SegmentPriority::Priority1,
        SegmentId::Segment9 => SegmentPriority::Priority1,
        SegmentId::Segment10 => SegmentPriority::Priority1,
    }
}

/// Switch positions each segment needs in the layout built by `RailNetwork::new`.
pub open spec fn baseline_switch_rails(s: SegmentId) -> Seq<SwitchRails> {
    match s {
        SegmentId::Segment1 => seq![SwitchRails { actuator_id: ActuatorId::SwitchRails2, state: SwitchRailsState::Direct }],
        SegmentId::Segment2 => seq![],
        SegmentId::Segment3 => seq![SwitchRails { actuator_id: ActuatorId::SwitchRails3, state: SwitchRailsState::Direct }],
        SegmentId::Segment4 => seq![SwitchRails { actuator_id: ActuatorId::SwitchRails4, state: SwitchRailsState::Direct }],
        SegmentId::Segment5 => seq![],
        SegmentId::Segment6 => seq![SwitchRails { actuator_id: ActuatorId::SwitchRails1, state: SwitchRailsState::Direct }],
        SegmentId::Segment7 => seq![SwitchRails { actuator_id: ActuatorId::SwitchRails1, state: SwitchRailsState::Diverted }],
        SegmentId::Segment8 => seq![SwitchRails { actuator_id: ActuatorId::SwitchRails2, state: SwitchRailsState::Diverted }],
        SegmentId::Segment9 => seq![SwitchRails { actuator_id: ActuatorId::SwitchRails3, state: SwitchRailsState::Diverted }],
        SegmentId::Segment10 => seq![SwitchRails { actuator_id: ActuatorId::SwitchRails4, state: SwitchRailsState::Diverted }],
    }
}

/// Conflicts of each segment in the layout built by `RailNetwork::new`.
pub open spec fn baseline_conflicts(s: SegmentId) -> Seq<SegmentId> {
    match s {
        SegmentId::Segment1 => seq![SegmentId::Segment8],
        SegmentId::Segment2 => seq![],
        SegmentId::Segment3 => seq![SegmentId::Segment9],
        SegmentId::Segment4 => seq![SegmentId::Segment10],
        SegmentId::Segment5 => seq![],
        SegmentId::Segment6 => seq![SegmentId::Segment7],
        SegmentId::Segment7 => seq![SegmentId::Segment6],
        SegmentId::Segment8 => seq![SegmentId::Segment1],
        SegmentId::Segment9 => seq![SegmentId::Segment3],
        SegmentId::Segment10 => seq![SegmentId::Segment4],
    }
}

/// The segment whose two ends are `a` and `b`, in either order.
pub open spec fn segment_between(a: CheckpointId, b: CheckpointId) -> Option<SegmentId> {
    match (a, b) {
        (CheckpointId::Checkpoint1, CheckpointId::Checkpoint2) => Some(SegmentId::Segment1),
        (CheckpointId::Checkpoint2, CheckpointId::Checkpoint1) => Some(SegmentId::Segment1),
        (CheckpointId::Checkpoint2, CheckpointId::Checkpoint3) => Some(SegmentId::Segment2),
        (CheckpointId::Checkpoint3, CheckpointId::Checkpoint2) => Some(SegmentId::Segment2),
        (CheckpointId::Checkpoint3, CheckpointId::Checkpoint4) => Some(SegmentId::Segment3),
        (CheckpointId::Checkpoint4, CheckpointId::Checkpoint3) => Some(SegmentId::Segment3),
        (CheckpointId::Checkpoint4, CheckpointId::Checkpoint5) => Some(SegmentId::Segment4),
        (CheckpointId::Checkpoint5, CheckpointId::Checkpoint4) => Some(SegmentId::Segment4),
        (CheckpointId::Checkpoint5, CheckpointId::Checkpoint6) => Some(SegmentId::Segment5),
        (CheckpointId::Checkpoint6, CheckpointId::Checkpoint5) => Some(SegmentId::Segment5),
        (CheckpointId::Checkpoint6, CheckpointId::Checkpoint1) => Some(SegmentId::Segment6),
        (CheckpointId::Checkpoint1, CheckpointId::Checkpoint6) => Some(SegmentId::Segment6),
        (CheckpointId::Checkpoint6, CheckpointId::Station1) => Some(SegmentId::Segment7),
        (CheckpointId::Station1, CheckpointId::Checkpoint6) => Some(SegmentId::Segment7),
        (CheckpointId::Station1, CheckpointId::Checkpoint2) => Some(SegmentId::Segment8),
        (CheckpointId::Checkpoint2, CheckpointId::Station1) => Some(SegmentId::Segment8),
        (CheckpointId::Checkpoint3, CheckpointId::Station2) => Some(SegmentId::Segment9),
        (CheckpointId::Station2, CheckpointId::Checkpoint3) => Some(SegmentId::Segment9),
        (CheckpointId::Checkpoint5, CheckpointId::Station2) => Some(SegmentId::Segment10),
        (CheckpointId::Station2, CheckpointId::Checkpoint5) => Some(SegmentId::Segment10),
        _ => None,
    }
}

/// The layout built by `RailNetwork::new` meets the invariant of a network.
proof fn lemma_baseline_wf(r: RailNetwork)
    requires
        r.shape_ok(),
        forall|cp: CheckpointId, d: Direction| #[trigger]
            r.neighbors(cp, d) == baseline_neighbors(cp, d),
        forall|s: SegmentId| #[trigger] r.switch_rails_of(s) == baseline_switch_rails(s),
        forall|s: SegmentId| #[trigger] r.conflicts_of(s) == baseline_conflicts(s),
    ensures
        r.wf(),
{
    assert forall|cp: CheckpointId, d: Direction, i: int|
        0 <= i < r.neighbors(cp, d).len() implies r.neighbors(
            #[trigger] r.neighbors(cp, d)[i],
            d.spec_opposite(),
        ).contains(cp) && segment_between(cp, r.neighbors(cp, d)[i]) is Some by {
        let n = r.neighbors(cp, d)[i];
        assert(r.neighbors(n, d.spec_opposite()) == baseline_neighbors(n, d.spec_opposite()));
        match cp {
            CheckpointId::Checkpoint1 => {},
            CheckpointId::Checkpoint2 => {},
            CheckpointId::Checkpoint3 => {},
            CheckpointId::Checkpoint4 => {},
            CheckpointId::Checkpoint5 => {},
            CheckpointId::Checkpoint6 => {},
            CheckpointId::Station1 => {},
            CheckpointId::Station2 => {},
        }
        let m = baseline_neighbors(n, d.spec_opposite());
        assert(m[0] == cp || (m.len() > 1 && m[1] == cp));
    }
    assert forall|s1: SegmentId, s2: SegmentId|
        #[trigger] r.conflicts_of(s1).contains(s2) implies r.conflicts_of(s2).contains(s1) by {
        assert(r.conflicts_of(s2) == baseline_conflicts(s2));
        let k = choose|k: int| 0 <= k < r.conflicts_of(s1).len() && r.conflicts_of(s1)[k] == s2;
        match s1 {
            SegmentId::Segment1 => { assert(baseline_conflicts(s2)[0] == s1); },
            SegmentId::Segment3 => { assert(baseline_conflicts(s2)[0] == s1); },
            SegmentId::Segment4 => { assert(baseline_conflicts(s2)[0] == s1); },
            SegmentId::Segment6 => { assert(baseline_conflicts(s2)[0] == s1); },
            SegmentId::Segment7 => { assert(baseline_conflicts(s2)[0] == s1); },
            SegmentId::Segment8 => { assert(baseline_conflicts(s2)[0] == s1); },
            SegmentId::Segment9 => { assert(baseline_conflicts(s2)[0] == s1); },
            SegmentId::Segment10 => { assert(baseline_conflicts(s2)[0] == s1); },
            _ => {},
        }
    }
    assert forall|s: SegmentId| !(#[trigger] r.conflicts_of(s)).contains(s) by {
        if r.conflicts_of(s).contains(s) {
            let k = choose|k: int| 0 <= k < r.conflicts_of(s).len() && r.conflicts_of(s)[k] == s;
        }
    }
    assert forall|s1: SegmentId, s2: SegmentId, i: int, j: int|
        0 <= i < r.switch_rails_of(s1).len() && 0 <= j < r.switch_rails_of(s2).len()
            && (#[trigger] r.switch_rails_of(s1)[i]).spec_actuator_id()
            == (#[trigger] r.switch_rails_of(s2)[j]).spec_actuator_id()
            && r.switch_rails_of(s1)[i].spec_state() != r.switch_rails_of(s2)[j].spec_state()
            implies r.conflicts_of(s1).contains(s2) by {
        assert(r.switch_rails_of(s2) == baseline_switch_rails(s2));
        assert(r.conflicts_of(s1)[0] == s2);
    }
    assert forall|s1: SegmentId, s2: SegmentId, i: int, j: int|
        0 <= i < r.switch_rails_of(s1).len() && 0 <= j < r.switch_rails_of(s2).len()
            && (s1 != s2 || i != j) implies #[trigger] r.switch_rails_of(s1)[i]
            != #[trigger] r.switch_rails_of(s2)[j] by {
        assert(r.switch_rails_of(s2) == baseline_switch_rails(s2));
    }
}

/// Distinct checkpoints have distinct positions.
pub proof fn lemma_index_injective(a: CheckpointId, b: CheckpointId)
    ensures
        a.spec_index() == b.spec_index() ==> a == b,
{
}

/// Segment lookup does not depend on the order of its two ends.
pub proof fn lemma_segment_between_symmetric(a: CheckpointId, b: CheckpointId)
    ensures
        segment_between(a, b) == segment_between(b, a),
{
}

impl TryFrom<(CheckpointId, CheckpointId)> for SegmentId {
    type Error = Error;

    fn try_from(ends: (CheckpointId, CheckpointId)) -> Result<SegmentId, Error> {
        match ends {
            (CheckpointId::Checkpoint1, CheckpointId::Checkpoint2) => Ok(SegmentId::Segment1),
            (CheckpointId::Checkpoint2, CheckpointId::Checkpoint1) => Ok(SegmentId::Segment1),
            (CheckpointId::Checkpoint2, CheckpointId::Checkpoint3) => Ok(SegmentId::Segment2),
            (CheckpointId::Checkpoint3, CheckpointId::Checkpoint2) => Ok(SegmentId::Segment2),
            (CheckpointId::Checkpoint3, CheckpointId::Checkpoint4) => Ok(SegmentId::Segment3),
            (CheckpointId::Checkpoint4, CheckpointId::Checkpoint3) => Ok(SegmentId::Segment3),
            (CheckpointId::Checkpoint4, CheckpointId::Checkpoint5) => Ok(SegmentId::Segment4),
            (CheckpointId::Checkpoint5, CheckpointId::Checkpoint4) => Ok(SegmentId::Segment4),
            (CheckpointId::Checkpoint5, CheckpointId::Checkpoint6) => Ok(SegmentId::Segment5),
            (CheckpointId::Checkpoint6, CheckpointId::Checkpoint5) => Ok(SegmentId::Segment5),
            (CheckpointId::Checkpoint6, CheckpointId::Checkpoint1) => Ok(SegmentId::Segment6),
            (CheckpointId::Checkpoint1, CheckpointId::Checkpoint6) => Ok(SegmentId::Segment6),
            (CheckpointId::Checkpoint6, CheckpointId::Station1) => Ok(SegmentId::Segment7),
            (CheckpointId::Station1, CheckpointId::Checkpoint6) => Ok(SegmentId::Segment7),
            (CheckpointId::Station1, CheckpointId::Checkpoint2) => Ok(SegmentId::Segment8),
            (CheckpointId::Checkpoint2, CheckpointId::Station1) => Ok(SegmentId::Segment8),
            (CheckpointId::Checkpoint3, CheckpointId::Station2) => Ok(SegmentId::Segment9),
            (CheckpointId::Station2, CheckpointId::Checkpoint3) => Ok(SegmentId::Segment9),
            (CheckpointId::Checkpoint5, CheckpointId::Station2) => Ok(SegmentId::Segment10),
            (CheckpointId::Station2, CheckpointId::Checkpoint5) => Ok(SegmentId::Segment10),
            _ => Err(Error::ConvertCheckpointsIntoSegmentId),
        }
    }
}

impl vstd::std_specs::convert::TryFromSpecImpl<(CheckpointId, CheckpointId)> for SegmentId {
    open spec fn obeys_try_from_spec() -> bool {
        true
    }

    open spec fn try_from_spec(ends: (CheckpointId, CheckpointId)) -> Result<SegmentId, Error> {
        match segment_between(ends.0, ends.1) {
            Some(s) => Ok(s),
            None => Err(Error::ConvertCheckpointsIntoSegmentId),
        }
    }
}

/// A switch and the position a segment needs it in.
#[derive(Copy, Clone, Debug, PartialEq, Eq, Structural)]
pub struct SwitchRails {
    pub actuator_id: ActuatorId,
    pub state: SwitchRailsState,
}

impl SwitchRails {
    pub open spec fn spec_actuator_id(self) -> ActuatorId {
        self.actuator_id
    }

    pub open spec fn spec_state(self) -> SwitchRailsState {
        self.state
    }

    pub fn actuator_id(&self) -> (r: ActuatorId)
        ensures
            r == self.spec_actuator_id(),
    {
        self.actuator_id
    }

    pub fn state(&self) -> (r: SwitchRailsState)
        ensures
            r == self.spec_state(),
    {
        self.state
    }
}

/// What a segment carries: its priority, the switch positions it needs and
/// the segments that cannot be busy together with it.
#[derive(Clone, Debug)]
pub struct Segment {
    priority: SegmentPriority,
    switch_rails: Vec<SwitchRails>,
    conflicts: Vec<SegmentId>,
}

impl Segment {
    pub closed spec fn spec_priority(self) -> SegmentPriority {
        self.priority
    }

    pub closed spec fn spec_switch_rails(self) -> Seq<SwitchRails> {
        self.switch_rails@
    }

    pub closed spec fn spec_conflicts(self) -> Seq<SegmentId> {
        self.conflicts@
    }

    pub fn priority(&self) -> (r: SegmentPriority)
        ensures
            r == self.spec_priority(),
    {
        self.priority
    }

    pub fn switch_rails(&self) -> (r: &[SwitchRails])
        ensures
            r@ == self.spec_switch_rails(),
    {
        self.switch_rails.as_slice()
    }

    pub fn conflicts(&self) -> (r: &[SegmentId])
        ensures
            r@ == self.spec_conflicts(),
    {
        self.conflicts.as_slice()
    }
}

/// A checkpoint: its neighbors in each direction, most preferred first, its
/// track and its priority.
struct Checkpoint {
    forward: Vec<CheckpointId>,
    backward: Vec<CheckpointId>,
    track_id: TrackId,
    priority: SegmentPriority,
}

impl Checkpoint {
    spec fn spec_checkpoint_ids(self, direction: Direction) -> Seq<CheckpointId> {
        match direction {
            Direction::Forward => self.forward@,
            Direction::Backward => self.backward@,
        }
    }

    fn checkpoint_ids(&self, direction: &Direction) -> (r: &Vec<CheckpointId>)
        ensures
            r@ == self.spec_checkpoint_ids(*direction),
    {
        match direction {
            Direction::Forward => &self.forward,
            Direction::Backward => &self.backward,
        }
    }
}

/// What a path search looks for.
#[derive(Copy, Clone, Debug, PartialEq, Eq, Structural)]
pub enum Destination {
    /// Any checkpoint of the track.
    Track(TrackId),
    /// Exactly this checkpoint.
    Checkpoint(CheckpointId),
}

/// The rail network: one entry per checkpoint and one per segment, in
/// declaration order, and the depth bound of path searches.
pub struct RailNetwork {
    checkpoints: Vec<Checkpoint>,
    segments: Vec<Segment>,
    longest_path: usize,
}

impl RailNetwork {
    /// Neighbors of `cp` in `direction`, most preferred first.
    pub closed spec fn neighbors(self, cp: CheckpointId, direction: Direction) -> Seq<CheckpointId> {
        self.checkpoints@[cp.spec_index() as int].spec_checkpoint_ids(direction)
    }

    pub closed spec fn track_of(self, cp: CheckpointId) -> TrackId {
        self.checkpoints@[cp.spec_index() as int].track_id
    }

    pub closed spec fn checkpoint_priority(self, cp: CheckpointId) -> SegmentPriority {
        self.checkpoints@[cp.spec_index() as int].priority
    }

    pub closed spec fn spec_segment(self, s: SegmentId) -> Segment {
        self.segments@[s.spec_index() as int]
    }

    pub closed spec fn spec_longest_path(self) -> usize {
        self.longest_path
    }

    pub open spec fn segment_priority(self, s: SegmentId) -> SegmentPriority {
        self.spec_segment(s).spec_priority()
    }

    pub open spec fn switch_rails_of(self, s: SegmentId) -> Seq<SwitchRails> {
        self.spec_segment(s).spec_switch_rails()
    }

    pub open spec fn conflicts_of(self, s: SegmentId) -> Seq<SegmentId> {
        self.spec_segment(s).spec_conflicts()
    }

    /// The network is the layout described by the `baseline_*` functions,
    /// searched to a depth of 6.
    pub open spec fn is_baseline(self) -> bool {
        &&& self.spec_longest_path() == 6
        &&& forall|cp: CheckpointId, d: Direction| #[trigger]
            self.neighbors(cp, d) == baseline_neighbors(cp, d)
        &&& forall|cp: CheckpointId| #[trigger] self.track_of(cp) == baseline_track(cp)
        &&& forall|cp: CheckpointId| #[trigger]
            self.checkpoint_priority(cp) == baseline_checkpoint_priority(cp)
        &&& forall|s: SegmentId| #[trigger] self.segment_priority(s) == baseline_segment_priority(s)
        &&& forall|s: SegmentId| #[trigger] self.switch_rails_of(s) == baseline_switch_rails(s)
        &&& forall|s: SegmentId| #[trigger] self.conflicts_of(s) == baseline_conflicts(s)
    }

    pub closed spec fn shape_ok(self) -> bool {
        &&& self.checkpoints@.len() == 8
        &&& self.segments@.len() == 10
    }

    /// The invariant of a network: every checkpoint has neighbors in both
    /// directions, adjacency is mutual and every adjacent pair has a segment;
    /// conflicts are irreflexive and symmetric, segments that need one switch
    /// in two positions conflict, and no switch position is listed twice,
    /// whether by one segment or by two.
    pub open spec fn wf(self) -> bool {
        &&& self.shape_ok()
        &&& forall|cp: CheckpointId, d: Direction| #[trigger]
            self.neighbors(cp, d).len() > 0
        &&& forall|cp: CheckpointId, d: Direction, i: int|
            0 <= i < self.neighbors(cp, d).len() ==> self.neighbors(
                #[trigger] self.neighbors(cp, d)[i],
                d.spec_opposite(),
            ).contains(cp)
        &&& forall|cp: CheckpointId, d: Direction, i: int|
            0 <= i < self.neighbors(cp, d).len() ==> segment_between(
                cp,
                #[trigger] self.neighbors(cp, d)[i],
            ) is Some
        &&& forall|s: SegmentId| !(#[trigger] self.conflicts_of(s)).contains(s)
        &&& forall|s1: SegmentId, s2: SegmentId| #[trigger]
            self.conflicts_of(s1).contains(s2) ==> self.conflicts_of(s2).contains(s1)
        &&& forall|s1: SegmentId, s2: SegmentId, i: int, j: int|
            0 <= i < self.switch_rails_of(s1).len() && 0 <= j < self.switch_rails_of(s2).len()
                && (#[trigger] self.switch_rails_of(s1)[i]).spec_actuator_id()
                == (#[trigger] self.switch_rails_of(s2)[j]).spec_actuator_id()
                && self.switch_rails_of(s1)[i].spec_state() != self.switch_rails_of(s2)[j].spec_state()
                ==> self.conflicts_of(s1).contains(s2)
        &&& forall|s1: SegmentId, s2: SegmentId, i: int, j: int|
            0 <= i < self.switch_rails_of(s1).len() && 0 <= j < self.switch_rails_of(s2).len()
                && (s1 != s2 || i != j) ==> #[trigger] self.switch_rails_of(s1)[i]
                != #[trigger] self.switch_rails_of(s2)[j]
    }

    pub fn new() -> (r: RailNetwork)
        ensures
            r.wf(),
            r.is_baseline(),
    {
        let checkpoints: Vec<Checkpoint> = vec![
            Checkpoint {
                forward: vec![CheckpointId::Checkpoint2],
                backward: vec![CheckpointId::Checkpoint6],
                track_id: TrackId::Track1,
                priority: SegmentPriority::Priority0,
            },
            Checkpoint {
                forward: vec![CheckpointId::Checkpoint3],
                backward: vec![CheckpointId::Checkpoint1, CheckpointId::Station1],
                track_id: TrackId::Track1,
                priority: SegmentPriority::Priority0,
            },
            Checkpoint {
                forward: vec![CheckpointId::Checkpoint4, CheckpointId::Station2],
                backward: vec![CheckpointId::Checkpoint2],
                track_id: TrackId::Track1,
                priority: SegmentPriority::Priority0,
            },
            Checkpoint {
                forward: vec![CheckpointId::Checkpoint5],
                backward: vec![CheckpointId::Checkpoint3],
                track_id: TrackId::Track1,
                priority: SegmentPriority::Priority0,
            },
            Checkpoint {
                forward: vec![CheckpointId::Checkpoint6],
                backward: vec![CheckpointId::Checkpoint4, CheckpointId::Station2],
                track_id: TrackId::Track1,
                priority: SegmentPriority::Priority0,
            },
            Checkpoint {
                forward: vec![CheckpointId::Checkpoint1, CheckpointId::Station1],
                backward: vec![CheckpointId::Checkpoint5],
                track_id: TrackId::Track1,
                priority: SegmentPriority::Priority0,
            },
            Checkpoint {
                forward: vec![CheckpointId::Checkpoint2],
                backward: vec![CheckpointId::Checkpoint6],
                track_id: TrackId::Station1,
                priority: SegmentPriority::Priority1,
            },
            Checkpoint {
                forward: vec![CheckpointId::Checkpoint5],
                backward: vec![CheckpointId::Checkpoint3],
                track_id: TrackId::Station2,
                priority: SegmentPriority::Priority1,
            },
        ];
        let segments: Vec<Segment> = vec![
            Segment {
                priority: SegmentPriority::Priority0,
                switch_rails: vec![SwitchRails { actuator_id: ActuatorId::SwitchRails2, state: SwitchRailsState::Direct }],
                conflicts: vec![SegmentId::Segment8],
            },
            Segment {
                priority: SegmentPriority::Priority0,
                switch_rails: vec![],
                conflicts: vec![],
            },
            Segment {
                priority: SegmentPriority::Priority0,
                switch_rails: vec![SwitchRails { actuator_id: ActuatorId::SwitchRails3, state: SwitchRailsState::Direct }],
                conflicts: vec![SegmentId::Segment9],
            },
            Segment {
                priority: SegmentPriority::Priority0,
                switch_rails: vec![SwitchRails { actuator_id: ActuatorId::SwitchRails4, state: SwitchRailsState::Direct }],
                conflicts: vec![SegmentId::Segment10],
            },
            Segment {
                priority: SegmentPriority::Priority0,
                switch_rails: vec![],
                conflicts: vec![],
            },
            Segment {
                priority: SegmentPriority::Priority0,
                switch_rails: vec![SwitchRails { actuator_id: ActuatorId::SwitchRails1, state: SwitchRailsState::Direct }],
                conflicts: vec![SegmentId::Segment7],
            },
            Segment {
                priority: SegmentPriority::Priority1,
                switch_rails: vec![SwitchRails { actuator_id: ActuatorId::SwitchRails1, state: SwitchRailsState::Diverted }],
                conflicts: vec![SegmentId::Segment6],
            },
            Segment {
                priority: SegmentPriority::Priority1,
                switch_rails: vec![SwitchRails { actuator_id: ActuatorId::SwitchRails2, state: SwitchRailsState::Diverted }],
                conflicts: vec![SegmentId::Segment1],
            },
            Segment {
                priority: SegmentPriority::Priority1,
                switch_rails: vec![SwitchRails { actuator_id: ActuatorId::SwitchRails3, state: SwitchRailsState::Diverted }],
                conflicts: vec![SegmentId::Segment3],
            },
            Segment {
                priority: SegmentPriority::Priority1,
                switch_rails: vec![SwitchRails { actuator_id: ActuatorId::SwitchRails4, state: SwitchRailsState::Diverted }],
                conflicts: vec![SegmentId::Segment4],
            },
        ];
        let r = RailNetwork { checkpoints, segments, longest_path: 6 };
        proof {
            assert forall|cp: CheckpointId, d: Direction| #[trigger]
                r.neighbors(cp, d) == baseline_neighbors(cp, d) by {
                assert(r.checkpoints@[cp.spec_index() as int] == checkpoints@[cp.spec_index() as int]);
            }
            assert forall|s: SegmentId| #[trigger]
                r.switch_rails_of(s) == baseline_switch_rails(s) by {
                assert(r.segments@[s.spec_index() as int] == segments@[s.spec_index() as int]);
            }
            assert forall|s: SegmentId| #[trigger]
                r.conflicts_of(s) == baseline_conflicts(s) by {
                assert(r.segments@[s.spec_index() as int] == segments@[s.spec_index() as int]);
            }
            lemma_baseline_wf(r);
        }
        r
    }

    /// The checkpoint with its invariant-guaranteed entry.
    fn checkpoint(&self, checkpoint_id: &CheckpointId) -> (r: &Checkpoint)
        requires
            self.wf(),
        ensures
            *r == self.checkpoints@[checkpoint_id.spec_index() as int],
    {
        &self.checkpoints[checkpoint_id.index()]
    }

    pub fn segment(&self, segment_id: &SegmentId) -> (r: &Segment)
        requires
            self.wf(),
        ensures
            *r == self.spec_segment(*segment_id),
    {
        &self.segments[segment_id.index()]
    }

    pub fn longest_path(&self) -> (r: usize)
        ensures
            r == self.spec_longest_path(),
    {
        self.longest_path
    }

    /// Whether checkpoint `n` fulfils `dest`.
    pub open spec fn reached(self, n: CheckpointId, dest: Destination) -> bool {
        match dest {
            Destination::Track(t) => self.track_of(n) == t,
            Destination::Checkpoint(c) => n == c,
        }
    }

    /// Some neighbor of `cp` in direction `d` fulfils `dest`.
    pub open spec fn has_direct(self, cp: CheckpointId, d: Direction, dest: Destination) -> bool {
        exists|i: int|
            0 <= i < self.neighbors(cp, d).len() && self.reached(
                #[trigger] self.neighbors(cp, d)[i],
                dest,
            )
    }

    /// Position `i` holds the first neighbor that fulfils `dest`.
    pub open spec fn is_first_direct(
        self,
        cp: CheckpointId,
        d: Direction,
        dest: Destination,
        i: int,
    ) -> bool {
        &&& 0 <= i < self.neighbors(cp, d).len()
        &&& self.reached(self.neighbors(cp, d)[i], dest)
        &&& forall|j: int| 0 <= j < i ==> !self.reached(#[trigger] self.neighbors(cp, d)[j], dest)
    }

    /// The first neighbor of `cp` in direction `d` that fulfils `dest`.
    pub open spec fn first_direct(self, cp: CheckpointId, d: Direction, dest: Destination) -> CheckpointId {
        self.neighbors(cp, d)[choose|i: int| self.is_first_direct(cp, d, dest, i)]
    }

    /// A search started at depth `depth` from `cp` towards `dest` succeeds:
    /// a neighbor fulfils `dest`, or, below the depth bound, the search from
    /// some neighbor at the next depth succeeds.
    pub open spec fn reaches(self, depth: int, cp: CheckpointId, d: Direction, dest: Destination) -> bool
        decreases self.spec_longest_path() - depth,
    {
        ||| self.has_direct(cp, d, dest)
        ||| (depth < self.spec_longest_path() && exists|i: int|
            0 <= i < self.neighbors(cp, d).len() && self.reaches(
                depth + 1,
                #[trigger] self.neighbors(cp, d)[i],
                d,
                dest,
            ))
    }

    /// `a` comes before `b` in search order: lower checkpoint priority first,
    /// then declaration order.
    pub open spec fn preferred(self, a: CheckpointId, b: CheckpointId) -> bool {
        ||| self.checkpoint_priority(a).spec_rank() < self.checkpoint_priority(b).spec_rank()
        ||| (self.checkpoint_priority(a).spec_rank() == self.checkpoint_priority(b).spec_rank()
            && a.spec_index() < b.spec_index())
    }

    /// `n` is the neighbor the search goes through: among the neighbors from
    /// which the search at the next depth succeeds, the first in search order.
    pub open spec fn is_best(
        self,
        depth: int,
        cp: CheckpointId,
        d: Direction,
        dest: Destination,
        n: CheckpointId,
    ) -> bool {
        &&& self.neighbors(cp, d).contains(n)
        &&& self.reaches(depth + 1, n, d, dest)
        &&& forall|m: CheckpointId|
            #![trigger self.preferred(m, n)]
            self.neighbors(cp, d).contains(m) && self.reaches(depth + 1, m, d, dest)
                ==> !self.preferred(m, n)
    }

    /// Next checkpoint on the way from `cp` in direction `d` towards `dest`,
    /// for a search started at depth `depth`: the first neighbor that
    /// fulfils `dest` if there is one, else the first neighbor in search
    /// order from which the search succeeds, else none.
    pub open spec fn next_checkpoint(
        self,
        depth: int,
        cp: CheckpointId,
        d: Direction,
        dest: Destination,
    ) -> Option<CheckpointId> {
        if self.has_direct(cp, d, dest) {
            Some(self.first_direct(cp, d, dest))
        } else if self.reaches(depth, cp, d, dest) {
            Some(choose|n: CheckpointId| self.is_best(depth, cp, d, dest, n))
        } else {
            None
        }
    }

    fn reached_exec(&self, n: &CheckpointId, dest: &Destination) -> (r: bool)
        requires
            self.wf(),
        ensures
            r == self.reached(*n, *dest),
    {
        match dest {
            Destination::Track(t) => self.checkpoint(n).track_id == *t,
            Destination::Checkpoint(c) => *n == *c,
        }
    }

    fn preferred_exec(&self, a: &CheckpointId, b: &CheckpointId) -> (r: bool)
        requires
            self.wf(),
        ensures
            r == self.preferred(*a, *b),
    {
        let ra = self.checkpoint(a).priority.rank();
        let rb = self.checkpoint(b).priority.rank();
        ra < rb || (ra == rb && a.index() < b.index())
    }

    /// Best-first search for the next checkpoint towards `dest`.
    pub fn next_checkpoint_id(
        &self,
        iteration: usize,
        cp_id: CheckpointId,
        direction: Direction,
        dest: Destination,
    ) -> (r: Option<CheckpointId>)
        requires
            self.wf(),
        ensures
            r == self.next_checkpoint(iteration as int, cp_id, direction, dest),
            r is Some == self.reaches(iteration as int, cp_id, direction, dest),
        decreases self.spec_longest_path() - iteration,
    {
        let next_cp_ids = self.checkpoint(&cp_id).checkpoint_ids(&direction);
        let ghost ns = self.neighbors(cp_id, direction);
        assert(next_cp_ids@ == ns);
        let mut i: usize = 0;
        while i < next_cp_ids.len()
            invariant
                self.wf(),
                next_cp_ids@ == ns,
                ns == self.neighbors(cp_id, direction),
                0 <= i <= ns.len(),
                forall|j: int| 0 <= j < i ==> !self.reached(#[trigger] ns[j], dest),
            decreases next_cp_ids.len() - i,
        {
            let n = next_cp_ids[i];
            if self.reached_exec(&n, &dest) {
                proof {
                    assert(self.is_first_direct(cp_id, direction, dest, i as int));
                    let k = choose|k: int| self.is_first_direct(cp_id, direction, dest, k);
                    assert(k == i as int) by {
                        if k < i as int {
                            assert(!self.reached(ns[k], dest));
                        }
                        if k > i as int {
                            assert(!self.reached(ns[i as int], dest));
                        }
                    }
                    assert(self.has_direct(cp_id, direction, dest));
                }
                return Some(n);
            }
            i += 1;
        }
        assert(!self.has_direct(cp_id, direction, dest));
        if iteration >= self.longest_path {
            return None;
        }
        let mut best: Option<CheckpointId> = None;
        let mut k: usize = 0;
        while k < next_cp_ids.len()
            invariant
                self.wf(),
                next_cp_ids@ == ns,
                ns == self.neighbors(cp_id, direction),
                !self.has_direct(cp_id, direction, dest),
                iteration < self.spec_longest_path(),
                0 <= k <= ns.len(),
                best is Some <==> exists|j: int|
                    0 <= j < k && self.reaches(iteration + 1, #[trigger] ns[j], direction, dest),
                best matches Some(b) ==> {
                    &&& ns.contains(b)
                    &&& self.reaches(iteration + 1, b, direction, dest)
                    &&& forall|j: int|
                        0 <= j < k && self.reaches(iteration + 1, #[trigger] ns[j], direction, dest)
                            ==> !self.preferred(ns[j], b)
                },
            decreases next_cp_ids.len() - k,
        {
            let n = next_cp_ids[k];
            let better = match best {
                None => true,
                Some(b) => self.preferred_exec(&n, &b),
            };
            if better {
                let sub = self.next_checkpoint_id(iteration + 1, n, direction, dest);
                if sub.is_some() {
                    proof {
                        if let Some(b) = best {
                            assert forall|j: int|
                                0 <= j < k + 1 && self.reaches(
                                    iteration + 1,
                                    #[trigger] ns[j],
                                    direction,
                                    dest,
                                ) implies !self.preferred(ns[j], n) by {
                                if j < k {
                                    assert(!self.preferred(ns[j], b));
                                }
                            }
                        }
                        assert(ns[k as int] == n);
                    }
                    best = Some(n);
                } else {
                    proof {
                        assert(ns[k as int] == n);
                    }
                }
            } else {
                proof {
                    assert(ns[k as int] == n);
                }
            }
            k += 1;
        }
        proof {
            if let Some(b) = best {
                assert(self.reaches(iteration as int, cp_id, direction, dest));
                assert(self.is_best(iteration as int, cp_id, direction, dest, b));
                let c = choose|n: CheckpointId| self.is_best(iteration as int, cp_id, direction, dest, n);
                assert(self.is_best(iteration as int, cp_id, direction, dest, c));
                let jc = choose|j: int| 0 <= j < ns.len() && ns[j] == c;
                assert(ns[jc] == c);
                assert(!self.preferred(c, b));
                assert(!self.preferred(b, c));
                lemma_index_injective(b, c);
            } else {
                assert(!self.reaches(iteration as int, cp_id, direction, dest));
            }
        }
        best
    }

    /// Next checkpoint on the way from `cp_id` in `direction` towards any
    /// checkpoint of `target_track_id`.
    pub fn next_checkpoint_id_for_track_id_target(
        &self,
        iteration: usize,
        cp_id: CheckpointId,
        direction: Direction,
        target_track_id: TrackId,
    ) -> (r: Option<CheckpointId>)
        requires
            self.wf(),
        ensures
            r == self.next_checkpoint(
                iteration as int,
                cp_id,
                direction,
                Destination::Track(target_track_id),
            ),
    {
        self.next_checkpoint_id(iteration, cp_id, direction, Destination::Track(target_track_id))
    }

    /// Next checkpoint on the way from `cp_id` in `direction` towards
    /// `target_cp_id`.
    pub fn next_checkpoint_id_for_checkpoint_id_target(
        &self,
        iteration: usize,
        cp_id: CheckpointId,
        direction: Direction,
        target_cp_id: CheckpointId,
    ) -> (r: Option<CheckpointId>)
        requires
            self.wf(),
        ensures
            r == self.next_checkpoint(
                iteration as int,
                cp_id,
                direction,
                Destination::Checkpoint(target_cp_id),
            ),
    {
        self.next_checkpoint_id(iteration, cp_id, direction, Destination::Checkpoint(target_cp_id))
    }

}

} // verus!
