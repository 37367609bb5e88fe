//! What every tick of the oracle guarantees, proved over its specification.
use vstd::prelude::*;

use crate::backend::LocoIntent;
use crate::oracle::{
    controls, spec_tick, spec_active_segments, spec_active_segment, sorted_segments, promoted,
    promote_one, with_rank, ranks_below, priority_key, is_first_with_id, ActiveLoco, switch_control, switch_controls, ActiveSegment,
    control_step, may_move,
};
use crate::protocol::{Direction, LocoId, Speed};
use crate::rail_network::{CheckpointId, RailNetwork, SegmentId};

verus! {

/// `x` occurs exactly once in `s`.
pub open spec fn appears_once<T>(s: Seq<T>, x: T) -> bool {
    exists|k: int|
        0 <= k < s.len() && s[k] == x && forall|k2: int|
            0 <= k2 < s.len() && s[k2] == x ==> k2 == k
}

/// `x` is the command for a switch position that the segment of a moving
/// locomotive, among the first `n`, needs.
pub open spec fn from_mover(
    net: RailNetwork,
    s: Seq<ActiveSegment>,
    moves: Seq<(LocoId, Direction, Speed)>,
    n: nat,
    x: (crate::protocol::ActuatorId, crate::protocol::ActuatorType, u8),
) -> bool {
    exists|k: int, r: int|
        #![trigger moves[k], net.switch_rails_of(s[k].id->0)[r]]
        0 <= k < n && moves[k].2 == Speed::Normal && 0 <= r < net.switch_rails_of(s[k].id->0).len()
            && x == switch_control(net.switch_rails_of(s[k].id->0)[r])
}

/// Facts that hold after conflict resolution over the first `n` entries.
pub open spec fn controls_invariant(
    net: RailNetwork,
    last: Seq<Option<SegmentId>>,
    s: Seq<ActiveSegment>,
    n: nat,
) -> bool {
    let c = controls(net, last, s, n);
    &&& c.2.len() == n
    &&& forall|k: int|
        0 <= k < n ==> (#[trigger] c.2[k]).0 == s[k].loco_id && c.2[k].1 == s[k].direction && (
        c.2[k].2 == Speed::Normal || c.2[k].2 == Speed::Stop)
    &&& forall|k: int|
        0 <= k < n && (#[trigger] c.2[k]).2 == Speed::Normal ==> s[k].id is Some && c.0.contains(
            s[k].id->0,
        )
    &&& forall|i: int, j: int|
        0 <= i < n && 0 <= j < n && i != j && (#[trigger] c.2[i]).2 == Speed::Normal && (
        #[trigger] c.2[j]).2 == Speed::Normal ==> {
            &&& s[i].id is Some
            &&& s[j].id is Some
            &&& s[i].id != s[j].id
            &&& !net.conflicts_of(s[i].id->0).contains(s[j].id->0)
        }
    &&& c.1.no_duplicates()
    &&& forall|k: int, r: int|
        #![trigger c.2[k], net.switch_rails_of(s[k].id->0)[r]]
        0 <= k < n && c.2[k].2 == Speed::Normal && 0 <= r < net.switch_rails_of(
            s[k].id->0,
        ).len() ==> c.1.contains(switch_control(net.switch_rails_of(s[k].id->0)[r]))
    &&& forall|t: int| 0 <= t < c.1.len() ==> from_mover(net, s, c.2, n, #[trigger] c.1[t])
}

proof fn lemma_switch_control_injective(net: RailNetwork, a: SegmentId, i: int, b: SegmentId, j: int)
    requires
        net.wf(),
        0 <= i < net.switch_rails_of(a).len(),
        0 <= j < net.switch_rails_of(b).len(),
        a != b || i != j,
    ensures
        switch_control(net.switch_rails_of(a)[i]) != switch_control(net.switch_rails_of(b)[j]),
{
    assert(net.switch_rails_of(a)[i] != net.switch_rails_of(b)[j]);
}

proof fn lemma_controls_invariant(
    net: RailNetwork,
    last: Seq<Option<SegmentId>>,
    s: Seq<ActiveSegment>,
    n: nat,
)
    requires
        net.wf(),
        n <= s.len(),
    ensures
        controls_invariant(net, last, s, n),
    decreases n,
{
    if n > 0 {
        let m = (n - 1) as nat;
        lemma_controls_invariant(net, last, s, m);
        let p = controls(net, last, s, m);
        let c = controls(net, last, s, n);
        let a = s[m as int];
        assert(c == control_step(net, p, a));
        assert forall|k: int| 0 <= k < m implies #[trigger] c.2[k] == p.2[k] by {}
        if a.id is Some && may_move(net, p.0, a.id->0) {
            let sid = a.id->0;
            let chunk = switch_controls(net.switch_rails_of(sid));
            assert(c.0 == p.0.push(sid));
            assert(c.1 == p.1 + chunk);
            assert(c.2[m as int].2 == Speed::Normal);
            // Earlier movers hold busy segments, which the new one avoids.
            assert forall|i: int, j: int|
                0 <= i < n && 0 <= j < n && i != j && (#[trigger] c.2[i]).2 == Speed::Normal && (
                #[trigger] c.2[j]).2 == Speed::Normal implies {
                &&& s[i].id is Some
                &&& s[j].id is Some
                &&& s[i].id != s[j].id
                &&& !net.conflicts_of(s[i].id->0).contains(s[j].id->0)
            } by {
                if i == m as int {
                    assert(p.0.contains(s[j].id->0));
                    if net.conflicts_of(sid).contains(s[j].id->0) {
                        let k = choose|k: int|
                            0 <= k < net.conflicts_of(sid).len() && net.conflicts_of(sid)[k]
                                == s[j].id->0;
                        assert(!p.0.contains(net.conflicts_of(sid)[k]));
                    }
                } else if j == m as int {
                    assert(p.0.contains(s[i].id->0));
                    if net.conflicts_of(s[i].id->0).contains(sid) {
                        assert(net.conflicts_of(sid).contains(s[i].id->0));
                        let k = choose|k: int|
                            0 <= k < net.conflicts_of(sid).len() && net.conflicts_of(sid)[k]
                                == s[i].id->0;
                        assert(!p.0.contains(net.conflicts_of(sid)[k]));
                    }
                }
            }
            assert forall|k: int|
                0 <= k < n && (#[trigger] c.2[k]).2 == Speed::Normal implies s[k].id is Some
                && c.0.contains(s[k].id->0) by {
                if k < m {
                    let t = choose|t: int| 0 <= t < p.0.len() && p.0[t] == s[k].id->0;
                    assert(c.0[t] == s[k].id->0);
                } else {
                    assert(c.0[p.0.len() as int] == sid);
                }
            }
            // The new switch commands are new and distinct.
            assert forall|x: int, y: int|
                0 <= x < c.1.len() && 0 <= y < c.1.len() && x != y implies c.1[x] != c.1[y] by {
                if x < p.1.len() && y < p.1.len() {
                } else if x >= p.1.len() && y >= p.1.len() {
                    lemma_switch_control_injective(
                        net,
                        sid,
                        x - p.1.len(),
                        sid,
                        y - p.1.len(),
                    );
                } else {
                    let (old_t, new_t) = if x < p.1.len() {
                        (x, y)
                    } else {
                        (y, x)
                    };
                    assert(p.1[old_t] == c.1[old_t]);
                    assert(from_mover(net, s, p.2, m, p.1[old_t]));
                    let (k, r) = choose|k: int, r: int|
                        #![trigger p.2[k], net.switch_rails_of(s[k].id->0)[r]]
                        0 <= k < m && p.2[k].2 == Speed::Normal && 0 <= r
                            < net.switch_rails_of(s[k].id->0).len() && p.1[old_t]
                            == switch_control(net.switch_rails_of(s[k].id->0)[r]);
                    assert(p.0.contains(s[k].id->0));
                    assert(s[k].id->0 != sid);
                    lemma_switch_control_injective(
                        net,
                        s[k].id->0,
                        r,
                        sid,
                        new_t - p.1.len(),
                    );
                }
            }
            assert forall|k: int, r: int|
                #![trigger c.2[k], net.switch_rails_of(s[k].id->0)[r]]
                0 <= k < n && c.2[k].2 == Speed::Normal && 0 <= r
                    < net.switch_rails_of(s[k].id->0).len() implies c.1.contains(
                switch_control(net.switch_rails_of(s[k].id->0)[r]),
            ) by {
                if k < m {
                    let x = switch_control(net.switch_rails_of(s[k].id->0)[r]);
                    let t = choose|t: int| 0 <= t < p.1.len() && p.1[t] == x;
                    assert(c.1[t] == x);
                } else {
                    assert(c.1[p.1.len() + r] == chunk[r]);
                }
            }
            assert forall|t: int| 0 <= t < c.1.len() implies from_mover(
                net,
                s,
                c.2,
                n,
                #[trigger] c.1[t],
            ) by {
                if t < p.1.len() {
                    assert(p.1[t] == c.1[t]);
                    assert(from_mover(net, s, p.2, m, p.1[t]));
                    let (k, r) = choose|k: int, r: int|
                        #![trigger p.2[k], net.switch_rails_of(s[k].id->0)[r]]
                        0 <= k < m && p.2[k].2 == Speed::Normal && 0 <= r
                            < net.switch_rails_of(s[k].id->0).len() && p.1[t] == switch_control(
                            net.switch_rails_of(s[k].id->0)[r],
                        );
                    assert(c.2[k] == p.2[k]);
                } else {
                    let r = t - p.1.len();
                    assert(c.1[t] == chunk[r]);
                    assert(c.2[m as int].2 == Speed::Normal);
                    assert(c.1[t] == switch_control(net.switch_rails_of(s[m as int].id->0)[r]));
                }
            }
        } else {
            assert(c.0 == p.0);
            assert(c.1 == p.1);
            assert(c.2[m as int].2 == Speed::Stop);
            assert forall|t: int| 0 <= t < c.1.len() implies from_mover(
                net,
                s,
                c.2,
                n,
                #[trigger] c.1[t],
            ) by {
                assert(p.1[t] == c.1[t]);
                assert(from_mover(net, s, p.2, m, p.1[t]));
                let (k, r) = choose|k: int, r: int|
                    #![trigger p.2[k], net.switch_rails_of(s[k].id->0)[r]]
                    0 <= k < m && p.2[k].2 == Speed::Normal && 0 <= r
                        < net.switch_rails_of(s[k].id->0).len() && p.1[t] == switch_control(
                        net.switch_rails_of(s[k].id->0)[r],
                    );
                assert(c.2[k] == p.2[k]);
            }
        }
    } else {
        let c = controls(net, last, s, n);
        assert(c.0 =~= seq![]);
        assert(c.1 =~= seq![]);
    }
}

/// Any two entries of `s` whose commands in `moves` are `Normal` are on two
/// distinct segments, neither of which lists the other among its conflicts.
pub open spec fn no_conflicting_moves(
    net: RailNetwork,
    s: Seq<ActiveSegment>,
    moves: Seq<(LocoId, Direction, Speed)>,
) -> bool {
    forall|i: int, j: int|
        0 <= i < s.len() && 0 <= j < s.len() && i != j && (#[trigger] moves[i]).2 == Speed::Normal
            && (#[trigger] moves[j]).2 == Speed::Normal ==> {
            &&& s[i].id is Some
            &&& s[j].id is Some
            &&& s[i].id != s[j].id
            &&& !net.conflicts_of(s[i].id->0).contains(s[j].id->0)
            &&& !net.conflicts_of(s[j].id->0).contains(s[i].id->0)
        }
}

/// In conflict resolution over any ordered list of active segments, two
/// locomotives that are both sent on at `Normal` speed are on two distinct
/// segments, neither of which lists the other among its conflicts. The
/// command at position `k` is the one for the locomotive of entry `k`.
pub proof fn lemma_moving_locos_never_conflict(
    net: RailNetwork,
    last: Seq<Option<SegmentId>>,
    s: Seq<ActiveSegment>,
)
    requires
        net.wf(),
    ensures
        ({
            let c = controls(net, last, s, s.len());
            &&& c.2.len() == s.len()
            &&& forall|k: int| 0 <= k < s.len() ==> (#[trigger] c.2[k]).0 == s[k].loco_id
            &&& no_conflicting_moves(net, s, c.2)
        }),
{
    lemma_controls_invariant(net, last, s, s.len());
    let c = controls(net, last, s, s.len());
    assert forall|i: int, j: int|
        0 <= i < s.len() && 0 <= j < s.len() && i != j && (#[trigger] c.2[i]).2 == Speed::Normal
            && (#[trigger] c.2[j]).2 == Speed::Normal implies !net.conflicts_of(s[j].id->0).contains(
        s[i].id->0,
    ) by {
        assert(!net.conflicts_of(s[j].id->0).contains(s[i].id->0));
    }
}

/// Every tick that gets through its planning sends locomotives only onto
/// distinct, mutually non-conflicting segments: the speed commands are those
/// of conflict resolution over the ordered active segments, one per entry.
pub proof fn lemma_tick_never_conflicts(
    net: RailNetwork,
    last: Seq<Option<SegmentId>>,
    locos: Seq<ActiveLoco>,
)
    requires
        net.wf(),
    ensures
        spec_active_segments(net, locos, locos.len()) matches Ok(segs) ==> ({
            let sorted = sorted_segments(net, last, segs);
            &&& spec_tick(net, last, locos) == Ok::<crate::oracle::ControlState, crate::oracle::Error>(
                controls(net, last, sorted, sorted.len()),
            )
            &&& no_conflicting_moves(net, sorted, controls(net, last, sorted, sorted.len()).2)
        }),
{
    if let Ok(segs) = spec_active_segments(net, locos, locos.len()) {
        lemma_moving_locos_never_conflict(net, last, sorted_segments(net, last, segs));
    }
}

/// For every segment onto which a tick sends a locomotive, each switch
/// position that the segment needs is commanded exactly once in that tick.
pub proof fn lemma_switch_commands_once(
    net: RailNetwork,
    last: Seq<Option<SegmentId>>,
    s: Seq<ActiveSegment>,
)
    requires
        net.wf(),
    ensures
        ({
            let c = controls(net, last, s, s.len());
            forall|k: int, r: int|
                #![trigger c.2[k], net.switch_rails_of(s[k].id->0)[r]]
                0 <= k < s.len() && c.2[k].2 == Speed::Normal && 0 <= r < net.switch_rails_of(
                    s[k].id->0,
                ).len() ==> s[k].id is Some && appears_once(
                    c.1,
                    switch_control(net.switch_rails_of(s[k].id->0)[r]),
                )
        }),
{
    lemma_controls_invariant(net, last, s, s.len());
    let c = controls(net, last, s, s.len());
    assert forall|k: int, r: int|
        #![trigger c.2[k], net.switch_rails_of(s[k].id->0)[r]]
        0 <= k < s.len() && c.2[k].2 == Speed::Normal && 0 <= r < net.switch_rails_of(
            s[k].id->0,
        ).len() implies s[k].id is Some && appears_once(
        c.1,
        switch_control(net.switch_rails_of(s[k].id->0)[r]),
    ) by {
        let x = switch_control(net.switch_rails_of(s[k].id->0)[r]);
        assert(c.1.contains(x));
        let t = choose|t: int| 0 <= t < c.1.len() && c.1[t] == x;
        assert forall|t2: int| 0 <= t2 < c.1.len() && c.1[t2] == x implies t2 == t by {
            if t2 != t {
                assert(c.1[t2] != c.1[t]);
            }
        }
    }
}

/// Number of entries of `s` for locomotive `l`.
pub open spec fn loco_count(s: Seq<ActiveSegment>, l: LocoId) -> nat
    decreases s.len(),
{
    if s.len() == 0 {
        0
    } else {
        loco_count(s.drop_last(), l) + if s.last().loco_id == l {
            1nat
        } else {
            0nat
        }
    }
}

/// Every entry of `s` for locomotive `l` is `x`.
pub open spec fn all_for_loco(s: Seq<ActiveSegment>, l: LocoId, x: ActiveSegment) -> bool {
    forall|t: int| 0 <= t < s.len() && (#[trigger] s[t]).loco_id == l ==> s[t] == x
}

proof fn lemma_count_concat(a: Seq<ActiveSegment>, b: Seq<ActiveSegment>, l: LocoId)
    ensures
        loco_count(a + b, l) == loco_count(a, l) + loco_count(b, l),
    decreases b.len(),
{
    if b.len() == 0 {
        assert(a + b =~= a);
    } else {
        assert((a + b).drop_last() =~= a + b.drop_last());
        lemma_count_concat(a, b.drop_last(), l);
    }
}

proof fn lemma_count_insert(s: Seq<ActiveSegment>, i: int, x: ActiveSegment, l: LocoId)
    requires
        0 <= i <= s.len(),
    ensures
        loco_count(s.insert(i, x), l) == loco_count(s, l) + if x.loco_id == l {
            1nat
        } else {
            0nat
        },
{
    assert(s.insert(i, x) =~= s.take(i) + seq![x] + s.skip(i));
    assert(s =~= s.take(i) + s.skip(i));
    lemma_count_concat(s.take(i) + seq![x], s.skip(i), l);
    lemma_count_concat(s.take(i), seq![x], l);
    lemma_count_concat(s.take(i), s.skip(i), l);
    let one = seq![x];
    assert(one.drop_last() =~= Seq::<ActiveSegment>::empty());
    assert(loco_count(Seq::<ActiveSegment>::empty(), l) == 0);
    assert(one.last() == x);
    assert(loco_count(one, l) == loco_count(one.drop_last(), l) + if x.loco_id == l {
        1nat
    } else {
        0nat
    });
}

proof fn lemma_promote_one_keeps(
    last: Seq<Option<SegmentId>>,
    s: Seq<ActiveSegment>,
    a: ActiveSegment,
    l: LocoId,
    x: ActiveSegment,
)
    requires
        all_for_loco(s, l, x),
        a.loco_id == l ==> a == x,
    ensures
        all_for_loco(promote_one(last, s, a), l, x),
        loco_count(promote_one(last, s, a), l) == loco_count(s, l) + if a.loco_id == l {
            1nat
        } else {
            0nat
        },
{
    let out = promote_one(last, s, a);
    if a.id is Some && last[crate::oracle::slot(a.loco_id)] == a.id && exists|i: int|
        0 <= i < s.len() && (#[trigger] s[i]).id == a.id {
        let i = choose|i: int| is_first_with_id(s, a.id->0, i);
        let w = choose|w: int| 0 <= w < s.len() && (#[trigger] s[w]).id == a.id;
        lemma_first_exists(s, a.id->0, w);
        assert(is_first_with_id(s, a.id->0, i));
        s.insert_ensures(i, a);
        lemma_count_insert(s, i, a, l);
        assert forall|t: int| 0 <= t < out.len() && (#[trigger] out[t]).loco_id == l implies out[t]
            == x by {
            if t < i {
                assert(out[t] == s[t]);
            } else if t > i {
                assert(out[t] == s[t - 1]);
            }
        }
    } else {
        assert(out == s.push(a));
        assert(out.drop_last() =~= s);
        assert forall|t: int| 0 <= t < out.len() && (#[trigger] out[t]).loco_id == l implies out[t]
            == x by {
            if t < s.len() {
                assert(out[t] == s[t]);
            }
        }
    }
}

/// Where some entry is on segment `sid`, a first such entry exists.
proof fn lemma_first_exists(s: Seq<ActiveSegment>, sid: SegmentId, w: int)
    requires
        0 <= w < s.len(),
        s[w].id == Some(sid),
    ensures
        exists|i: int| is_first_with_id(s, sid, i),
    decreases w,
{
    if forall|j: int| 0 <= j < w ==> (#[trigger] s[j]).id != Some(sid) {
        assert(is_first_with_id(s, sid, w));
    } else {
        let j = choose|j: int| 0 <= j < w && (#[trigger] s[j]).id == Some(sid);
        lemma_first_exists(s, sid, j);
    }
}

proof fn lemma_promoted_keeps(
    last: Seq<Option<SegmentId>>,
    s: Seq<ActiveSegment>,
    n: nat,
    l: LocoId,
    x: ActiveSegment,
)
    requires
        n <= s.len(),
        all_for_loco(s, l, x),
    ensures
        all_for_loco(promoted(last, s, n), l, x),
        loco_count(promoted(last, s, n), l) == loco_count(s.take(n as int), l),
    decreases n,
{
    if n == 0 {
        assert(s.take(0) =~= Seq::<ActiveSegment>::empty());
    } else {
        lemma_promoted_keeps(last, s, (n - 1) as nat, l, x);
        let a = s[n - 1];
        lemma_promote_one_keeps(last, promoted(last, s, (n - 1) as nat), a, l, x);
        assert(s.take(n as int).drop_last() =~= s.take(n - 1));
        assert(s.take(n as int).last() == a);
    }
}

proof fn lemma_with_rank_keeps(net: RailNetwork, s: Seq<ActiveSegment>, n: nat, l: LocoId, x: ActiveSegment)
    requires
        n <= s.len(),
        all_for_loco(s, l, x),
    ensures
        forall|k: u8| all_for_loco(#[trigger] with_rank(net, s, k, n), l, x),
        loco_count(with_rank(net, s, 0, n), l) + loco_count(with_rank(net, s, 1, n), l)
            + loco_count(with_rank(net, s, 2, n), l) == loco_count(s.take(n as int), l),
    decreases n,
{
    if n == 0 {
        assert(s.take(0) =~= Seq::<ActiveSegment>::empty());
    } else {
        lemma_with_rank_keeps(net, s, (n - 1) as nat, l, x);
        let a = s[n - 1];
        assert(s.take(n as int).drop_last() =~= s.take(n - 1));
        assert(s.take(n as int).last() == a);
        assert forall|k: u8| all_for_loco(#[trigger] with_rank(net, s, k, n), l, x) by {
            let prev = with_rank(net, s, k, (n - 1) as nat);
            if priority_key(net, a) == k {
                let out = prev.push(a);
                assert(with_rank(net, s, k, n) == out);
                assert forall|t: int| 0 <= t < out.len() && (#[trigger] out[t]).loco_id == l implies out[t]
                    == x by {
                    if t < prev.len() {
                        assert(out[t] == prev[t]);
                        assert(all_for_loco(prev, l, x));
                    }
                }
            } else {
                assert(all_for_loco(prev, l, x));
            }
        }
        let k = priority_key(net, a);
        assert(k <= 2) by {
            match a.id {
                Some(sid) => {
                    assert(net.segment_priority(sid).spec_rank() <= 2);
                },
                None => {},
            }
        }
        assert forall|j: u8| j == k implies with_rank(net, s, j, n).drop_last() == with_rank(
            net,
            s,
            j,
            (n - 1) as nat,
        ) && with_rank(net, s, j, n).last() == a by {
            assert(with_rank(net, s, j, n) == with_rank(net, s, j, (n - 1) as nat).push(a));
            assert(with_rank(net, s, j, (n - 1) as nat).push(a).drop_last() =~= with_rank(
                net,
                s,
                j,
                (n - 1) as nat,
            ));
        }
    }
}

proof fn lemma_sorted_keeps(
    net: RailNetwork,
    last: Seq<Option<SegmentId>>,
    s: Seq<ActiveSegment>,
    l: LocoId,
    x: ActiveSegment,
)
    requires
        all_for_loco(s, l, x),
    ensures
        all_for_loco(sorted_segments(net, last, s), l, x),
        loco_count(sorted_segments(net, last, s), l) == loco_count(s, l),
{
    let p = promoted(last, s, s.len());
    lemma_promoted_keeps(last, s, s.len(), l, x);
    assert(s.take(s.len() as int) =~= s);
    lemma_promoted_len(last, s, s.len());
    lemma_with_rank_keeps(net, p, p.len(), l, x);
    assert(p.take(p.len() as int) =~= p);
    let w0 = with_rank(net, p, 0, p.len());
    let w1 = with_rank(net, p, 1, p.len());
    let w2 = with_rank(net, p, 2, p.len());
    assert(ranks_below(net, p, 0) == Seq::<ActiveSegment>::empty());
    assert(ranks_below(net, p, 1) == Seq::<ActiveSegment>::empty() + w0);
    assert(ranks_below(net, p, 2) == ranks_below(net, p, 1) + w1);
    assert(ranks_below(net, p, 3) == ranks_below(net, p, 2) + w2);
    let out = sorted_segments(net, last, s);
    assert(out =~= w0 + w1 + w2);
    lemma_count_concat(w0, w1, l);
    lemma_count_concat(w0 + w1, w2, l);
    assert(all_for_loco(w0, l, x));
    assert(all_for_loco(w1, l, x));
    assert(all_for_loco(w2, l, x));
    assert forall|t: int| 0 <= t < out.len() && (#[trigger] out[t]).loco_id == l implies out[t] == x by {
        if t < w0.len() {
            assert(out[t] == w0[t]);
        } else if t < w0.len() + w1.len() {
            assert(out[t] == w1[t - w0.len()]);
        } else {
            assert(out[t] == w2[t - w0.len() - w1.len()]);
        }
    }
}

proof fn lemma_promoted_len(last: Seq<Option<SegmentId>>, s: Seq<ActiveSegment>, n: nat)
    requires
        n <= s.len(),
    ensures
        promoted(last, s, n).len() == n,
    decreases n,
{
    if n > 0 {
        lemma_promoted_len(last, s, (n - 1) as nat);
        let prev = promoted(last, s, (n - 1) as nat);
        let a = s[n - 1];
        if a.id is Some && last[crate::oracle::slot(a.loco_id)] == a.id && exists|i: int|
            0 <= i < prev.len() && (#[trigger] prev[i]).id == a.id {
            let w = choose|w: int| 0 <= w < prev.len() && (#[trigger] prev[w]).id == a.id;
            lemma_first_exists(prev, a.id->0, w);
            let i = choose|i: int| is_first_with_id(prev, a.id->0, i);
            prev.insert_ensures(i, a);
        }
    }
}

/// The active segments of the first `n` locomotives hold one entry for the
/// locomotive at position `p` once `p < n`, none before, and that entry is
/// the one computed for it.
proof fn lemma_active_segments_for(
    net: RailNetwork,
    locos: Seq<ActiveLoco>,
    n: nat,
    p: int,
    x: ActiveSegment,
)
    requires
        n <= locos.len(),
        0 <= p < locos.len(),
        forall|i: int, j: int|
            0 <= i < locos.len() && 0 <= j < locos.len() && i != j ==> #[trigger] locos[i].id
                != #[trigger] locos[j].id,
        spec_active_segment(net, locos, locos[p]) == Some(Ok::<ActiveSegment, crate::oracle::Error>(x)),
        x.loco_id == locos[p].id,
        spec_active_segments(net, locos, n) is Ok,
    ensures
        all_for_loco(spec_active_segments(net, locos, n)->Ok_0, locos[p].id, x),
        loco_count(spec_active_segments(net, locos, n)->Ok_0, locos[p].id) == if p < n {
            1nat
        } else {
            0nat
        },
    decreases n,
{
    if n > 0 {
        let m = (n - 1) as nat;
        assert(spec_active_segments(net, locos, m) is Ok);
        lemma_active_segments_for(net, locos, m, p, x);
        let v = spec_active_segments(net, locos, m)->Ok_0;
        let l = locos[m as int];
        let out = spec_active_segments(net, locos, n)->Ok_0;
        match spec_active_segment(net, locos, l) {
            None => {
                if m as int == p {
                    assert(false);
                }
            },
            Some(Err(_)) => {},
            Some(Ok(a)) => {
                assert(out == v.push(a));
                assert(out.drop_last() =~= v);
                assert(a.loco_id == l.id);
                if m as int != p {
                    assert(l.id != locos[p].id);
                }
                assert forall|t: int|
                    0 <= t < out.len() && (#[trigger] out[t]).loco_id == locos[p].id implies out[t]
                    == x by {
                    if t < v.len() {
                        assert(out[t] == v[t]);
                    }
                }
            },
        }
    }
}

proof fn lemma_count_one_unique(s: Seq<ActiveSegment>, l: LocoId)
    requires
        loco_count(s, l) == 1,
    ensures
        exists|k: int|
            0 <= k < s.len() && s[k].loco_id == l && forall|k2: int|
                0 <= k2 < s.len() && (#[trigger] s[k2]).loco_id == l ==> k2 == k,
    decreases s.len(),
{
    let d = s.drop_last();
    if s.last().loco_id == l {
        assert(loco_count(d, l) == 0);
        lemma_count_zero(d, l);
        let k = s.len() - 1;
        assert forall|k2: int| 0 <= k2 < s.len() && (#[trigger] s[k2]).loco_id == l implies k2 == k by {
            if k2 < k {
                assert(d[k2] == s[k2]);
            }
        }
    } else {
        lemma_count_one_unique(d, l);
        let k = choose|k: int|
            0 <= k < d.len() && d[k].loco_id == l && forall|k2: int|
                0 <= k2 < d.len() && (#[trigger] d[k2]).loco_id == l ==> k2 == k;
        assert(s[k] == d[k]);
        assert forall|k2: int| 0 <= k2 < s.len() && (#[trigger] s[k2]).loco_id == l implies k2 == k by {
            if k2 < d.len() {
                assert(d[k2] == s[k2]);
            }
        }
    }
}

proof fn lemma_count_zero(s: Seq<ActiveSegment>, l: LocoId)
    requires
        loco_count(s, l) == 0,
    ensures
        forall|k: int| 0 <= k < s.len() ==> (#[trigger] s[k]).loco_id != l,
    decreases s.len(),
{
    if s.len() > 0 {
        lemma_count_zero(s.drop_last(), l);
        assert forall|k: int| 0 <= k < s.len() implies (#[trigger] s[k]).loco_id != l by {
            if k < s.len() - 1 {
                assert(s.drop_last()[k] == s[k]);
            }
        }
    }
}

/// The commands hold exactly one for locomotive `l`, and it is to stop in
/// direction `d`.
pub open spec fn single_stop(moves: Seq<(LocoId, Direction, Speed)>, l: LocoId, d: Direction) -> bool {
    exists|k: int|
        #![trigger moves[k]]
        0 <= k < moves.len() && moves[k] == (l, d, Speed::Stop) && forall|k2: int|
            0 <= k2 < moves.len() && (#[trigger] moves[k2]).0 == l ==> k2 == k
}

/// The single entry of a locomotive without a segment becomes its single
/// command, a stop.
proof fn lemma_stopped_entry(
    net: RailNetwork,
    last: Seq<Option<SegmentId>>,
    sorted: Seq<ActiveSegment>,
    k: int,
    x: ActiveSegment,
)
    requires
        net.wf(),
        x.id is None,
        0 <= k < sorted.len(),
        sorted[k] == x,
        forall|k2: int|
            0 <= k2 < sorted.len() && (#[trigger] sorted[k2]).loco_id == x.loco_id ==> k2 == k,
    ensures
        ({
            let c = controls(net, last, sorted, sorted.len());
            single_stop(c.2, x.loco_id, x.direction)
        }),
{
    lemma_controls_invariant(net, last, sorted, sorted.len());
    let c = controls(net, last, sorted, sorted.len());
    assert(c.2[k].2 != Speed::Normal);
    assert(c.2[k] == (x.loco_id, x.direction, Speed::Stop));
    assert forall|k2: int| 0 <= k2 < c.2.len() && (#[trigger] c.2[k2]).0 == x.loco_id implies k2
        == k by {
        assert(sorted[k2].loco_id == x.loco_id);
    }
}

/// A locomotive whose intent is to stop at the checkpoint where it stands
/// gets exactly one command in a tick that completes, and that command is
/// to stop, in the direction of its intent. Locomotives are listed once each.
pub proof fn lemma_arrived_loco_stops(
    net: RailNetwork,
    last: Seq<Option<SegmentId>>,
    locos: Seq<ActiveLoco>,
    p: int,
    d: Direction,
    cp: CheckpointId,
)
    requires
        net.wf(),
        forall|i: int, j: int|
            0 <= i < locos.len() && 0 <= j < locos.len() && i != j ==> #[trigger] locos[i].id
                != #[trigger] locos[j].id,
        0 <= p < locos.len(),
        locos[p].location == Some(cp),
        locos[p].intent == Some(LocoIntent::Stop(d, cp)),
    ensures
        spec_tick(net, last, locos) matches Ok(c) ==> single_stop(c.2, locos[p].id, d),
{
    let l = locos[p].id;
    let x = ActiveSegment { id: None, direction: d, loco_id: l };
    if spec_active_segments(net, locos, locos.len()) is Ok {
        lemma_active_segments_for(net, locos, locos.len(), p, x);
        let segs = spec_active_segments(net, locos, locos.len())->Ok_0;
        lemma_sorted_keeps(net, last, segs, l, x);
        let sorted = sorted_segments(net, last, segs);
        lemma_count_one_unique(sorted, l);
        let k = choose|k: int|
            0 <= k < sorted.len() && sorted[k].loco_id == l && forall|k2: int|
                0 <= k2 < sorted.len() && (#[trigger] sorted[k2]).loco_id == l ==> k2 == k;
        lemma_stopped_entry(net, last, sorted, k, x);
    }
}

} // verus!
