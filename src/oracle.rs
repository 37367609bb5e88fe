//! The oracle: at each tick it turns the locomotives' positions and intents
//! into switch commands and speed commands, such that no two locomotives are
//! sent onto the same or conflicting segments.
use vstd::prelude::*;

use crate::backend::{Error as BackendError, LocoIntent, LocoStatus};
use crate::protocol::{ActuatorId, ActuatorType, Direction, LocoId, Speed};
use crate::rail_network::{
    segment_between, CheckpointId, Destination, Error as RailNetworkError, RailNetwork, SegmentId,
    SwitchRails,
};

verus! {

/// Errors that abort a tick.
#[derive(Copy, Clone, Debug, PartialEq, Eq, Structural)]
pub enum Error {
    ControlLoco(BackendError),
    ConvertCheckpointsIntoSegmentId(RailNetworkError),
    DriveActuator(BackendError),
    LocoStatus(BackendError),
    NextCheckpointNotFound,
}

/// A switch command: actuator, actuator kind and wire code of the state.
pub type ActuatorControl = (ActuatorId, ActuatorType, u8);

/// A speed command for a locomotive.
pub type LocoControl = (LocoId, Direction, Speed);

/// A connected locomotive as seen at the start of a tick.
#[derive(Copy, Clone, Debug, PartialEq, Eq, Structural)]
pub struct ActiveLoco {
    pub id: LocoId,
    pub speed: Speed,
    pub location: Option<CheckpointId>,
    pub intent: Option<LocoIntent>,
}

/// The segment a locomotive is about to enter in this tick, or none when it
/// has to wait or has arrived.
#[derive(Copy, Clone, Debug, PartialEq, Eq, Structural)]
pub struct ActiveSegment {
    pub id: Option<SegmentId>,
    pub direction: Direction,
    pub loco_id: LocoId,
}

/// Position of a locomotive in the table of last segments.
pub open spec fn slot(l: LocoId) -> int {
    l.spec_to_u8() as int - 1
}

fn loco_slot(l: LocoId) -> (r: usize)
    ensures
        r == slot(l),
        r < 2,
{
    match l {
        LocoId::Loco1 => 0,
        LocoId::Loco2 => 1,
    }
}

/// What a tick takes of a locomotive's status: a disconnected locomotive is
/// left out, any other failure aborts the tick.
pub open spec fn spec_active_loco(
    id: LocoId,
    status: Result<LocoStatus, BackendError>,
) -> Result<Option<ActiveLoco>, Error> {
    match status {
        Ok(st) => Ok(
            Some(
                ActiveLoco {
                    id,
                    speed: st.spec_speed(),
                    location: match st.spec_location() {
                        Some(s) => Some(CheckpointId::spec_from_sensor(s)),
                        None => None,
                    },
                    intent: st.spec_intent(),
                },
            ),
        ),
        Err(BackendError::LocoNotConnected(_)) => Ok(None),
        Err(e) => Err(Error::LocoStatus(e)),
    }
}

/// A checkpoint where a stopped locomotive stands.
pub open spec fn is_busy_checkpoint(locos: Seq<ActiveLoco>, cp: CheckpointId) -> bool {
    exists|i: int|
        0 <= i < locos.len() && (#[trigger] locos[i]).location == Some(cp) && locos[i].speed
            == Speed::Stop
}

/// Direction and destination of an intent.
pub open spec fn intent_goal(intent: LocoIntent) -> (Direction, Destination) {
    match intent {
        LocoIntent::Drive(d, t) => (d, Destination::Track(t)),
        LocoIntent::Stop(d, c) => (d, Destination::Checkpoint(c)),
    }
}

/// The intent is to stop at `cp`.
pub open spec fn arrived(intent: LocoIntent, cp: CheckpointId) -> bool {
    intent matches LocoIntent::Stop(_, c) && c == cp
}

/// What a locomotive asks for in this tick, among all `locos`: nothing
/// without a location or an intent; no segment once arrived or when the next
/// checkpoint is busy; else the segment to the next checkpoint.
pub open spec fn spec_active_segment(
    net: RailNetwork,
    locos: Seq<ActiveLoco>,
    l: ActiveLoco,
) -> Option<Result<ActiveSegment, Error>> {
    match (l.location, l.intent) {
        (Some(cp), Some(intent)) => {
            let d = intent_goal(intent).0;
            let waiting = ActiveSegment { id: None, direction: d, loco_id: l.id };
            Some(
                if arrived(intent, cp) {
                    Ok(waiting)
                } else {
                    match net.next_checkpoint(0, cp, d, intent_goal(intent).1) {
                        None => Err(Error::NextCheckpointNotFound),
                        Some(next) => if is_busy_checkpoint(locos, next) {
                            Ok(waiting)
                        } else {
                            match segment_between(cp, next) {
                                Some(s) => Ok(ActiveSegment { id: Some(s), direction: d, loco_id: l.id }),
                                None => Err(
                                    Error::ConvertCheckpointsIntoSegmentId(
                                        RailNetworkError::ConvertCheckpointsIntoSegmentId,
                                    ),
                                ),
                            }
                        },
                    }
                },
            )
        },
        _ => None,
    }
}

/// Active segments of the first `n` locomotives, in their order; the first
/// failure aborts.
pub open spec fn spec_active_segments(net: RailNetwork, locos: Seq<ActiveLoco>, n: nat) -> Result<
    Seq<ActiveSegment>,
    Error,
>
    decreases n,
{
    if n == 0 {
        Ok(seq![])
    } else {
        match spec_active_segments(net, locos, (n - 1) as nat) {
            Err(e) => Err(e),
            Ok(v) => match spec_active_segment(net, locos, locos[n - 1]) {
                None => Ok(v),
                Some(Err(e)) => Err(e),
                Some(Ok(a)) => Ok(v.push(a)),
            },
        }
    }
}

/// Position `i` is the first entry of `s` on segment `sid`.
pub open spec fn is_first_with_id(s: Seq<ActiveSegment>, sid: SegmentId, i: int) -> bool {
    &&& 0 <= i < s.len()
    &&& s[i].id == Some(sid)
    &&& forall|j: int| 0 <= j < i ==> (#[trigger] s[j]).id != Some(sid)
}

/// Adds `a` to `s`: before the first entry on the same segment when that
/// segment is the one its locomotive last moved onto, else at the end.
pub open spec fn promote_one(
    last: Seq<Option<SegmentId>>,
    s: Seq<ActiveSegment>,
    a: ActiveSegment,
) -> Seq<ActiveSegment> {
    if a.id is Some && last[slot(a.loco_id)] == a.id && exists|i: int|
        0 <= i < s.len() && (#[trigger] s[i]).id == a.id {
        s.insert(choose|i: int| is_first_with_id(s, a.id->0, i), a)
    } else {
        s.push(a)
    }
}

/// The first `n` entries of `s` after leader promotion.
pub open spec fn promoted(last: Seq<Option<SegmentId>>, s: Seq<ActiveSegment>, n: nat) -> Seq<
    ActiveSegment,
>
    decreases n,
{
    if n == 0 {
        seq![]
    } else {
        promote_one(last, promoted(last, s, (n - 1) as nat), s[n - 1])
    }
}

/// Sort key of an entry: its segment's priority rank, 2 without a segment.
pub open spec fn priority_key(net: RailNetwork, a: ActiveSegment) -> u8 {
    match a.id {
        Some(s) => net.segment_priority(s).spec_rank(),
        None => 2,
    }
}

/// The entries among the first `n` of `s` whose key is `k`, in order.
pub open spec fn with_rank(net: RailNetwork, s: Seq<ActiveSegment>, k: u8, n: nat) -> Seq<
    ActiveSegment,
>
    decreases n,
{
    if n == 0 {
        seq![]
    } else if priority_key(net, s[n - 1]) == k {
        with_rank(net, s, k, (n - 1) as nat).push(s[n - 1])
    } else {
        with_rank(net, s, k, (n - 1) as nat)
    }
}

/// The entries of `s` with key below `k`, by key, keeping their order
/// within a key.
pub open spec fn ranks_below(net: RailNetwork, s: Seq<ActiveSegment>, k: u8) -> Seq<ActiveSegment>
    decreases k,
{
    if k == 0 {
        seq![]
    } else {
        ranks_below(net, s, (k - 1) as u8) + with_rank(net, s, (k - 1) as u8, s.len())
    }
}

/// Leader promotion, then a stable sort by priority key.
pub open spec fn sorted_segments(
    net: RailNetwork,
    last: Seq<Option<SegmentId>>,
    s: Seq<ActiveSegment>,
) -> Seq<ActiveSegment> {
    ranks_below(net, promoted(last, s, s.len()), 3)
}

/// The command that puts a switch into the position a segment needs.
pub open spec fn switch_control(r: SwitchRails) -> ActuatorControl {
    (r.actuator_id, ActuatorType::SwitchRails, r.state.spec_to_u8())
}

pub open spec fn switch_controls(rs: Seq<SwitchRails>) -> Seq<ActuatorControl> {
    rs.map_values(|r: SwitchRails| switch_control(r))
}

/// Segment `s` is free: neither it nor any of its conflicts is busy.
pub open spec fn may_move(net: RailNetwork, busy: Seq<SegmentId>, s: SegmentId) -> bool {
    &&& !busy.contains(s)
    &&& forall|k: int|
        0 <= k < net.conflicts_of(s).len() ==> !busy.contains(#[trigger] net.conflicts_of(s)[k])
}

/// State of conflict resolution: busy segments, switch commands, speed
/// commands and the last segment of each locomotive.
pub type ControlState = (
    Seq<SegmentId>,
    Seq<ActuatorControl>,
    Seq<LocoControl>,
    Seq<Option<SegmentId>>,
);

/// One entry of conflict resolution: a locomotive whose segment is free
/// moves onto it, after the switches are set; any other one stops.
pub open spec fn control_step(net: RailNetwork, st: ControlState, a: ActiveSegment) -> ControlState {
    match a.id {
        Some(s) => if may_move(net, st.0, s) {
            (
                st.0.push(s),
                st.1 + switch_controls(net.switch_rails_of(s)),
                st.2.push((a.loco_id, a.direction, Speed::Normal)),
                st.3.update(slot(a.loco_id), Some(s)),
            )
        } else {
            (st.0, st.1, st.2.push((a.loco_id, a.direction, Speed::Stop)), st.3)
        },
        None => (st.0, st.1, st.2.push((a.loco_id, a.direction, Speed::Stop)), st.3),
    }
}

/// Conflict resolution over the first `n` entries of `s`.
pub open spec fn controls(
    net: RailNetwork,
    last: Seq<Option<SegmentId>>,
    s: Seq<ActiveSegment>,
    n: nat,
) -> ControlState
    decreases n,
{
    if n == 0 {
        (seq![], seq![], seq![], last)
    } else {
        control_step(net, controls(net, last, s, (n - 1) as nat), s[n - 1])
    }
}

/// A whole tick: active segments, ordering, conflict resolution.
pub open spec fn spec_tick(
    net: RailNetwork,
    last: Seq<Option<SegmentId>>,
    locos: Seq<ActiveLoco>,
) -> Result<ControlState, Error> {
    match spec_active_segments(net, locos, locos.len()) {
        Err(e) => Err(e),
        Ok(segs) => {
            let sorted = sorted_segments(net, last, segs);
            Ok(controls(net, last, sorted, sorted.len()))
        },
    }
}

fn contains_checkpoint(v: &Vec<CheckpointId>, x: CheckpointId) -> (r: bool)
    ensures
        r == v@.contains(x),
{
    let mut i: usize = 0;
    while i < v.len()
        invariant
            0 <= i <= v@.len(),
            forall|j: int| 0 <= j < i ==> v@[j] != x,
        decreases v.len() - i,
    {
        if v[i] == x {
            assert(v@[i as int] == x);
            return true;
        }
        i += 1;
    }
    false
}

fn contains_segment(v: &Vec<SegmentId>, x: SegmentId) -> (r: bool)
    ensures
        r == v@.contains(x),
{
    let mut i: usize = 0;
    while i < v.len()
        invariant
            0 <= i <= v@.len(),
            forall|j: int| 0 <= j < i ==> v@[j] != x,
        decreases v.len() - i,
    {
        if v[i] == x {
            assert(v@[i as int] == x);
            return true;
        }
        i += 1;
    }
    false
}

/// Whether one of `conflicts` is busy.
fn any_busy(busy: &Vec<SegmentId>, conflicts: &[SegmentId]) -> (r: bool)
    ensures
        r == exists|k: int| 0 <= k < conflicts@.len() && busy@.contains(#[trigger] conflicts@[k]),
{
    let mut k: usize = 0;
    while k < conflicts.len()
        invariant
            0 <= k <= conflicts@.len(),
            forall|j: int| 0 <= j < k ==> !busy@.contains(#[trigger] conflicts@[j]),
        decreases conflicts.len() - k,
    {
        if contains_segment(busy, conflicts[k]) {
            return true;
        }
        k += 1;
    }
    false
}

/// First entry of `v` on segment `sid`.
fn first_with_id(v: &Vec<ActiveSegment>, sid: SegmentId) -> (r: Option<usize>)
    ensures
        r matches Some(k) ==> is_first_with_id(v@, sid, k as int),
        r is None ==> forall|t: int| 0 <= t < v@.len() ==> (#[trigger] v@[t]).id != Some(sid),
{
    let mut i: usize = 0;
    while i < v.len()
        invariant
            0 <= i <= v@.len(),
            forall|t: int| 0 <= t < i ==> (#[trigger] v@[t]).id != Some(sid),
        decreases v.len() - i,
    {
        if v[i].id == Some(sid) {
            return Some(i);
        }
        i += 1;
    }
    None
}

/// The scheduler: the rail network it plans over and, for each locomotive,
/// the last segment it was sent onto.
pub struct Oracle {
    rail_network: RailNetwork,
    last_segment_id: Vec<Option<SegmentId>>,
}

impl Oracle {
    pub closed spec fn network(self) -> RailNetwork {
        self.rail_network
    }

    /// Last segment of each locomotive, by `slot`.
    pub closed spec fn last_segments(self) -> Seq<Option<SegmentId>> {
        self.last_segment_id@
    }

    pub open spec fn wf(self) -> bool {
        &&& self.network().wf()
        &&& self.last_segments().len() == 2
    }

    /// An oracle over the baseline network that has moved no locomotive yet.
    pub fn new() -> (r: Oracle)
        ensures
            r.wf(),
            r.network().is_baseline(),
            r.last_segments() == seq![None::<SegmentId>, None],
    {
        Oracle { rail_network: RailNetwork::new(), last_segment_id: vec![None, None] }
    }

    /// The locomotive a tick works with, from the result of asking for its
    /// status.
    pub fn active_loco(id: LocoId, status: Result<LocoStatus, BackendError>) -> (r: Result<
        Option<ActiveLoco>,
        Error,
    >)
        ensures
            r == spec_active_loco(id, status),
    {
        match status {
            Ok(st) => {
                let location = match st.location() {
                    Some(s) => Some(CheckpointId::from(s)),
                    None => None,
                };
                Ok(Some(ActiveLoco { id, speed: st.speed(), location, intent: st.intent() }))
            },
            Err(BackendError::LocoNotConnected(_)) => Ok(None),
            Err(e) => Err(Error::LocoStatus(e)),
        }
    }

    fn active_segment(&self, active_locos: &Vec<ActiveLoco>, busy: &Vec<CheckpointId>, l: ActiveLoco) -> (r: Option<Result<ActiveSegment, Error>>)
        requires
            self.wf(),
            forall|cp: CheckpointId| busy@.contains(cp) == is_busy_checkpoint(active_locos@, cp),
        ensures
            r == spec_active_segment(self.network(), active_locos@, l),
    {
        let (checkpoint_id, intent) = match (l.location, l.intent) {
            (Some(cp), Some(intent)) => (cp, intent),
            _ => {
                return None;
            },
        };
        let direction = match intent {
            LocoIntent::Drive(d, _) => d,
            LocoIntent::Stop(d, _) => d,
        };
        let next = match intent {
            LocoIntent::Drive(d, target_track_id) => {
                self.rail_network.next_checkpoint_id_for_track_id_target(
                    0,
                    checkpoint_id,
                    d,
                    target_track_id,
                )
            },
            LocoIntent::Stop(d, target_checkpoint_id) => {
                if target_checkpoint_id == checkpoint_id {
                    return Some(Ok(ActiveSegment { id: None, direction, loco_id: l.id }));
                }
                self.rail_network.next_checkpoint_id_for_checkpoint_id_target(
                    0,
                    checkpoint_id,
                    d,
                    target_checkpoint_id,
                )
            },
        };
        let next_checkpoint_id = match next {
            Some(n) => n,
            None => {
                return Some(Err(Error::NextCheckpointNotFound));
            },
        };
        if contains_checkpoint(busy, next_checkpoint_id) {
            return Some(Ok(ActiveSegment { id: None, direction, loco_id: l.id }));
        }
        match SegmentId::try_from((checkpoint_id, next_checkpoint_id)) {
            Ok(s) => Some(Ok(ActiveSegment { id: Some(s), direction, loco_id: l.id })),
            Err(e) => Some(Err(Error::ConvertCheckpointsIntoSegmentId(e))),
        }
    }

    /// The active segment of every locomotive with a location and an intent.
    pub fn determine_active_segments(&self, active_locos: &Vec<ActiveLoco>) -> (r: Result<
        Vec<ActiveSegment>,
        Error,
    >)
        requires
            self.wf(),
        ensures
            match r {
                Ok(v) => spec_active_segments(self.network(), active_locos@, active_locos@.len())
                    == Ok::<Seq<ActiveSegment>, Error>(v@),
                Err(e) => spec_active_segments(self.network(), active_locos@, active_locos@.len())
                    == Err::<Seq<ActiveSegment>, Error>(e),
            },
    {
        let mut busy_checkpoint_ids: Vec<CheckpointId> = Vec::new();
        let mut i: usize = 0;
        while i < active_locos.len()
            invariant
                0 <= i <= active_locos@.len(),
                forall|cp: CheckpointId|
                    busy_checkpoint_ids@.contains(cp) == exists|j: int|
                        0 <= j < i && (#[trigger] active_locos@[j]).location == Some(cp)
                            && active_locos@[j].speed == Speed::Stop,
            decreases active_locos.len() - i,
        {
            let l = active_locos[i];
            assert(active_locos@[i as int] == l);
            let ghost prev = busy_checkpoint_ids@;
            let stopped = l.speed == Speed::Stop;
            if let Some(location) = l.location {
                if stopped {
                    busy_checkpoint_ids.push(location);
                }
            }
            proof {
                assert forall|cp: CheckpointId|
                    busy_checkpoint_ids@.contains(cp) == exists|j: int|
                        0 <= j < i + 1 && (#[trigger] active_locos@[j]).location == Some(cp)
                            && active_locos@[j].speed == Speed::Stop by {
                    let here = l.location == Some(cp) && stopped;
                    if prev.contains(cp) {
                        let k = choose|k: int| 0 <= k < prev.len() && prev[k] == cp;
                        assert(busy_checkpoint_ids@[k] == cp);
                    }
                    if busy_checkpoint_ids@.contains(cp) {
                        let k = choose|k: int|
                            0 <= k < busy_checkpoint_ids@.len() && busy_checkpoint_ids@[k] == cp;
                        if k < prev.len() {
                            assert(prev[k] == cp);
                        }
                    }
                    if here {
                        assert(busy_checkpoint_ids@[prev.len() as int] == cp);
                    }
                    if exists|j: int|
                        0 <= j < i + 1 && (#[trigger] active_locos@[j]).location == Some(cp)
                            && active_locos@[j].speed == Speed::Stop {
                        let j = choose|j: int|
                            0 <= j < i + 1 && (#[trigger] active_locos@[j]).location == Some(cp)
                                && active_locos@[j].speed == Speed::Stop;
                        if j < i {
                            assert(prev.contains(cp));
                        }
                    }
                }
            }
            i += 1;
        }
        let mut active_segments: Vec<ActiveSegment> = Vec::new();
        let mut i: usize = 0;
        while i < active_locos.len()
            invariant
                self.wf(),
                0 <= i <= active_locos@.len(),
                forall|cp: CheckpointId| busy_checkpoint_ids@.contains(cp) == is_busy_checkpoint(active_locos@, cp),
                spec_active_segments(self.network(), active_locos@, i as nat)
                    == Ok::<Seq<ActiveSegment>, Error>(active_segments@),
            decreases active_locos.len() - i,
        {
            let l = active_locos[i];
            match self.active_segment(active_locos, &busy_checkpoint_ids, l) {
                None => {},
                Some(Err(e)) => {
                    proof {
                        lemma_active_segments_failure_sticks(
                            self.network(),
                            active_locos@,
                            (i + 1) as nat,
                            active_locos@.len(),
                        );
                    }
                    return Err(e);
                },
                Some(Ok(a)) => {
                    active_segments.push(a);
                },
            }
            i += 1;
        }
        Ok(active_segments)
    }

    fn priority_key(&self, a: &ActiveSegment) -> (r: u8)
        requires
            self.wf(),
        ensures
            r == priority_key(self.network(), *a),
    {
        match a.id {
            Some(s) => self.rail_network.segment(&s).priority().rank(),
            None => 2,
        }
    }

    /// Orders the active segments: leader promotion, then a stable sort by
    /// segment priority with waiting locomotives last.
    pub fn sort_active_segments(&self, active_segments: Vec<ActiveSegment>) -> (r: Vec<ActiveSegment>)
        requires
            self.wf(),
        ensures
            r@ == sorted_segments(self.network(), self.last_segments(), active_segments@),
    {
        let ghost last = self.last_segments();
        let mut sorted_active_segments: Vec<ActiveSegment> = Vec::new();
        let mut i: usize = 0;
        while i < active_segments.len()
            invariant
                self.wf(),
                last == self.last_segments(),
                0 <= i <= active_segments@.len(),
                sorted_active_segments@ == promoted(last, active_segments@, i as nat),
            decreases active_segments.len() - i,
        {
            let segment = active_segments[i];
            let ghost before = sorted_active_segments@;
            assert(promoted(last, active_segments@, (i + 1) as nat) == promote_one(last, before, segment));
            let mut placed = false;
            if let Some(sid) = segment.id {
                if self.last_segment_id[loco_slot(segment.loco_id)] == Some(sid) {
                    if let Some(k) = first_with_id(&sorted_active_segments, sid) {
                        proof {
                            assert(before[k as int].id == segment.id);
                            let c = choose|c: int| is_first_with_id(before, sid, c);
                            assert(is_first_with_id(before, sid, c));
                            assert(c == k as int) by {
                                if c < k as int {
                                    assert(before[c].id != Some(sid));
                                }
                                if c > k as int {
                                    assert(before[k as int].id != Some(sid));
                                }
                            }
                        }
                        sorted_active_segments.insert(k, segment);
                        placed = true;
                    }
                }
            }
            if !placed {
                sorted_active_segments.push(segment);
            }
            i += 1;
        }
        let ghost p = sorted_active_segments@;
        let mut result: Vec<ActiveSegment> = Vec::new();
        let mut rank: u8 = 0;
        while rank < 3
            invariant
                self.wf(),
                sorted_active_segments@ == p,
                rank <= 3,
                result@ == ranks_below(self.network(), p, rank),
            decreases 3 - rank,
        {
            let ghost start = result@;
            let mut k: usize = 0;
            while k < sorted_active_segments.len()
                invariant
                    self.wf(),
                    sorted_active_segments@ == p,
                    rank < 3,
                    0 <= k <= p.len(),
                    result@ == start + with_rank(self.network(), p, rank, k as nat),
                decreases sorted_active_segments.len() - k,
            {
                let a = sorted_active_segments[k];
                if self.priority_key(&a) == rank {
                    result.push(a);
                    assert(result@ =~= start + with_rank(self.network(), p, rank, (k + 1) as nat));
                }
                k += 1;
            }
            assert(ranks_below(self.network(), p, (rank + 1) as u8) == start + with_rank(
                self.network(),
                p,
                rank,
                p.len(),
            ));
            rank += 1;
        }
        result
    }

    /// Conflict resolution: in order, each locomotive whose segment is free
    /// gets its switches set and moves; any other one stops.
    pub fn determine_controls(&mut self, active_segments: Vec<ActiveSegment>) -> (r: (
        Vec<ActuatorControl>,
        Vec<LocoControl>,
    ))
        requires
            old(self).wf(),
        ensures
            final(self).wf(),
            final(self).network() == old(self).network(),
            ({
                let c = controls(
                    old(self).network(),
                    old(self).last_segments(),
                    active_segments@,
                    active_segments@.len(),
                );
                &&& r.0@ == c.1
                &&& r.1@ == c.2
                &&& final(self).last_segments() == c.3
            }),
    {
        let ghost net = self.network();
        let ghost last = self.last_segments();
        let mut actuator_controls: Vec<ActuatorControl> = Vec::new();
        let mut loco_controls: Vec<LocoControl> = Vec::new();
        let mut busy_segment_ids: Vec<SegmentId> = Vec::new();
        let mut i: usize = 0;
        while i < active_segments.len()
            invariant
                self.wf(),
                self.network() == net,
                0 <= i <= active_segments@.len(),
                controls(net, last, active_segments@, i as nat) == (
                    busy_segment_ids@,
                    actuator_controls@,
                    loco_controls@,
                    self.last_segments(),
                ),
            decreases active_segments.len() - i,
        {
            let active_segment = active_segments[i];
            assert(active_segments@[i as int] == active_segment);
            let ghost st = (
                busy_segment_ids@,
                actuator_controls@,
                loco_controls@,
                self.last_segments(),
            );
            let loco_id = active_segment.loco_id;
            let direction = active_segment.direction;
            let mut moved = false;
            if let Some(segment_id) = active_segment.id {
                let segment = self.rail_network.segment(&segment_id);
                if !contains_segment(&busy_segment_ids, segment_id) {
                    let conflict_found = any_busy(&busy_segment_ids, segment.conflicts());
                    if !conflict_found {
                        assert(may_move(net, busy_segment_ids@, segment_id));
                        let switch_rails = segment.switch_rails();
                        let ghost start = actuator_controls@;
                        let mut j: usize = 0;
                        while j < switch_rails.len()
                            invariant
                                0 <= j <= switch_rails@.len(),
                                switch_rails@ == net.switch_rails_of(segment_id),
                                actuator_controls@ == start + switch_controls(
                                    switch_rails@.take(j as int),
                                ),
                            decreases switch_rails.len() - j,
                        {
                            let sr = switch_rails[j];
                            actuator_controls.push(
                                (sr.actuator_id(), ActuatorType::SwitchRails, u8::from(sr.state())),
                            );
                            assert(switch_rails@.take(j as int + 1) =~= switch_rails@.take(
                                j as int,
                            ).push(sr));
                            assert(actuator_controls@ =~= start + switch_controls(
                                switch_rails@.take(j as int + 1),
                            ));
                            j += 1;
                        }
                        assert(switch_rails@.take(j as int) =~= switch_rails@);
                        loco_controls.push((loco_id, direction, Speed::Normal));
                        busy_segment_ids.push(segment_id);
                        self.last_segment_id.set(loco_slot(loco_id), Some(segment_id));
                        moved = true;
                    }
                }
            }
            if !moved {
                proof {
                    if let Some(sid) = active_segment.id {
                        if !busy_segment_ids@.contains(sid) {
                            let cs = net.conflicts_of(sid);
                            assert(!may_move(net, busy_segment_ids@, sid) <==> exists|k: int|
                                0 <= k < cs.len() && busy_segment_ids@.contains(#[trigger] cs[k]));
                        }
                    }
                }
                loco_controls.push((loco_id, direction, Speed::Stop));
            }
            assert((busy_segment_ids@, actuator_controls@, loco_controls@, self.last_segments())
                == control_step(net, st, active_segment));
            i += 1;
        }
        (actuator_controls, loco_controls)
    }

    /// One tick. With the oracle off nothing is commanded. Otherwise the
    /// switch commands and then the speed commands to send, in that order,
    /// for the locomotives connected at the start of the tick.
    pub fn process(&mut self, oracle_enabled: bool, active_locos: &Vec<ActiveLoco>) -> (r: Result<
        (Vec<ActuatorControl>, Vec<LocoControl>),
        Error,
    >)
        requires
            old(self).wf(),
        ensures
            final(self).wf(),
            final(self).network() == old(self).network(),
            !oracle_enabled ==> final(self).last_segments() == old(self).last_segments(),
            !oracle_enabled ==> (r matches Ok((a, l)) && a@.len() == 0 && l@.len() == 0),
            oracle_enabled ==> match spec_tick(
                old(self).network(),
                old(self).last_segments(),
                active_locos@,
            ) {
                Err(e) => r == Err::<(Vec<ActuatorControl>, Vec<LocoControl>), Error>(e)
                    && final(self).last_segments() == old(self).last_segments(),
                Ok(c) => final(self).last_segments() == c.3 && (r matches Ok((a, l)) && a@ == c.1
                    && l@ == c.2),
            },
    {
        if !oracle_enabled {
            return Ok((Vec::new(), Vec::new()));
        }
        let active_segments = match self.determine_active_segments(active_locos) {
            Ok(v) => v,
            Err(e) => {
                return Err(e);
            },
        };
        let sorted_active_segments = self.sort_active_segments(active_segments);
        let (actuator_controls, loco_controls) = self.determine_controls(sorted_active_segments);
        Ok((actuator_controls, loco_controls))
    }
}

/// Once a prefix of the locomotives fails, every longer prefix fails the
/// same way.
proof fn lemma_active_segments_failure_sticks(
    net: RailNetwork,
    locos: Seq<ActiveLoco>,
    k: nat,
    n: nat,
)
    requires
        k <= n,
        spec_active_segments(net, locos, k) is Err,
    ensures
        spec_active_segments(net, locos, n) == spec_active_segments(net, locos, k),
    decreases n - k,
{
    if k < n {
        lemma_active_segments_failure_sticks(net, locos, k, (n - 1) as nat);
    }
}

} // verus!
