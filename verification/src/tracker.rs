//! The sliding-window persistence tracker.
//!
//! A violation record is one tick's observation that a rule's threshold
//! condition held. Per rule evaluation the tracker appends the new record,
//! retains only this rule's records still inside the rule's window, and
//! fires when the span from the earliest retained record has reached the
//! window. The model of a record is the pair (rule name, timestamp).
//!
//! The tracker sees only sampled ticks, so a window is meaningful only
//! when it is at least as long as the sampling cadence: two observed-true
//! ticks spaced exactly one window apart already fire, whatever happened
//! between them, and a zero window fires on the first observed-true tick.

use vstd::prelude::*;

verus! {

/// One observed violation: which rule, and when.
#[derive(Debug)]
pub struct ViolationRecord {
    pub rule_name: String,
    pub timestamp_secs: i64,
}

/// Mathematical image of one record.
pub open spec fn rec_model(r: ViolationRecord) -> (Seq<char>, int) {
    (r.rule_name@, r.timestamp_secs as int)
}

/// Mathematical image of a record sequence.
pub open spec fn recs_model(s: Seq<ViolationRecord>) -> Seq<(Seq<char>, int)> {
    s.map_values(|r: ViolationRecord| rec_model(r))
}

/// The records of rule `name` no older than `cutoff`, in original order.
pub open spec fn prune(recs: Seq<(Seq<char>, int)>, name: Seq<char>, cutoff: int) -> Seq<
    (Seq<char>, int),
>
    decreases recs.len(),
{
    if recs.len() == 0 {
        Seq::empty()
    } else {
        let rest = prune(recs.drop_last(), name, cutoff);
        if recs.last().0 == name && recs.last().1 >= cutoff {
            rest.push(recs.last())
        } else {
            rest
        }
    }
}

/// The record sequence after one observed-true tick of rule `name` with
/// window `dur` at time `now`: append, then retain only this rule's records
/// still inside the window.
pub open spec fn track_step(
    recs: Seq<(Seq<char>, int)>,
    name: Seq<char>,
    dur: int,
    now: int,
) -> Seq<(Seq<char>, int)> {
    prune(recs.push((name, now)), name, now - dur)
}

/// Whether that tick fires: a record remains and the span from the earliest
/// remaining record to `now` has reached the window.
pub open spec fn track_fires(
    recs: Seq<(Seq<char>, int)>,
    name: Seq<char>,
    dur: int,
    now: int,
) -> bool {
    let after = track_step(recs, name, dur, now);
    after.len() > 0 && now - after.first().1 >= dur
}

/// Pruning past a record that survives appends it to the pruned prefix.
pub proof fn lemma_prune_push_keep(
    recs: Seq<(Seq<char>, int)>,
    x: (Seq<char>, int),
    name: Seq<char>,
    cutoff: int,
)
    requires
        x.0 == name,
        x.1 >= cutoff,
    ensures
        prune(recs.push(x), name, cutoff) == prune(recs, name, cutoff).push(x),
{
    assert(recs.push(x).drop_last() =~= recs);
}

/// Pruning past a record that does not survive leaves the pruned prefix.
pub proof fn lemma_prune_push_drop(
    recs: Seq<(Seq<char>, int)>,
    x: (Seq<char>, int),
    name: Seq<char>,
    cutoff: int,
)
    requires
        !(x.0 == name && x.1 >= cutoff),
    ensures
        prune(recs.push(x), name, cutoff) == prune(recs, name, cutoff),
{
    assert(recs.push(x).drop_last() =~= recs);
}

/// A sequence with no record of `name` prunes to nothing.
pub proof fn lemma_prune_no_match(recs: Seq<(Seq<char>, int)>, name: Seq<char>, cutoff: int)
    requires
        forall|j: int| 0 <= j < recs.len() ==> (#[trigger] recs[j]).0 != name,
    ensures
        prune(recs, name, cutoff) == Seq::<(Seq<char>, int)>::empty(),
    decreases recs.len(),
{
    if recs.len() > 0 {
        assert(recs.last() == recs[recs.len() - 1]);
        lemma_prune_no_match(recs.drop_last(), name, cutoff);
    }
}

/// One tracker step always retains the record it just appended, last.
pub proof fn lemma_track_step_shape(
    recs: Seq<(Seq<char>, int)>,
    name: Seq<char>,
    dur: int,
    now: int,
)
    requires
        dur >= 0,
    ensures
        track_step(recs, name, dur, now) == prune(recs, name, now - dur).push((name, now)),
{
    lemma_prune_push_keep(recs, (name, now), name, now - dur);
}

/// A rule with a zero window fires on the very first tick on which it is
/// observed true: with no earlier record of this rule, the step retains
/// exactly the new record and its span, zero, reaches the window.
pub proof fn lemma_zero_duration_fires(recs: Seq<(Seq<char>, int)>, name: Seq<char>, now: int)
    requires
        forall|j: int| 0 <= j < recs.len() ==> (#[trigger] recs[j]).0 != name,
    ensures
        track_fires(recs, name, 0, now),
{
    lemma_track_step_shape(recs, name, 0, now);
    lemma_prune_no_match(recs, name, now);
    assert(track_step(recs, name, 0, now) =~= seq![(name, now)]);
}

/// The records that do not belong to rule `name`, in original order: what
/// an observed-false tick of that rule leaves behind.
pub open spec fn clear_rule(recs: Seq<(Seq<char>, int)>, name: Seq<char>) -> Seq<
    (Seq<char>, int),
>
    decreases recs.len(),
{
    if recs.len() == 0 {
        Seq::empty()
    } else {
        let rest = clear_rule(recs.drop_last(), name);
        if recs.last().0 == name {
            rest
        } else {
            rest.push(recs.last())
        }
    }
}

/// Clearing keeps a record of another rule.
pub proof fn lemma_clear_push_keep(
    recs: Seq<(Seq<char>, int)>,
    x: (Seq<char>, int),
    name: Seq<char>,
)
    requires
        x.0 != name,
    ensures
        clear_rule(recs.push(x), name) == clear_rule(recs, name).push(x),
{
    assert(recs.push(x).drop_last() =~= recs);
}

/// Clearing drops a record of this rule.
pub proof fn lemma_clear_push_drop(
    recs: Seq<(Seq<char>, int)>,
    x: (Seq<char>, int),
    name: Seq<char>,
)
    requires
        x.0 == name,
    ensures
        clear_rule(recs.push(x), name) == clear_rule(recs, name),
{
    assert(recs.push(x).drop_last() =~= recs);
}

/// No record of the cleared rule survives a clear.
pub proof fn lemma_clear_rule_no_match(recs: Seq<(Seq<char>, int)>, name: Seq<char>)
    ensures
        forall|j: int|
            0 <= j < clear_rule(recs, name).len() ==> (#[trigger] clear_rule(recs, name)[j]).0
                != name,
    decreases recs.len(),
{
    if recs.len() > 0 {
        lemma_clear_rule_no_match(recs.drop_last(), name);
        let rest = clear_rule(recs.drop_last(), name);
        assert forall|j: int| 0 <= j < clear_rule(recs, name).len() implies (#[trigger] clear_rule(
            recs,
            name,
        )[j]).0 != name by {
            if recs.last().0 == name {
                assert(clear_rule(recs, name)[j] == rest[j]);
            } else {
                if j < rest.len() {
                    assert(clear_rule(recs, name)[j] == rest[j]);
                } else {
                    assert(clear_rule(recs, name)[j] == recs.last());
                }
            }
        };
    }
}

/// After an observed-false tick wipes this rule's records, the next
/// observed-true tick starts a fresh window: the tracker retains exactly
/// the new record, and fires only if the window is zero.
pub proof fn lemma_window_restarts_after_clear(
    recs: Seq<(Seq<char>, int)>,
    name: Seq<char>,
    dur: int,
    now: int,
)
    requires
        dur >= 0,
    ensures
        track_step(clear_rule(recs, name), name, dur, now) == seq![(name, now)],
        track_fires(clear_rule(recs, name), name, dur, now) == (dur <= 0),
{
    lemma_clear_rule_no_match(recs, name);
    lemma_track_step_shape(clear_rule(recs, name), name, dur, now);
    lemma_prune_no_match(clear_rule(recs, name), name, now - dur);
    assert(track_step(clear_rule(recs, name), name, dur, now) =~= seq![(name, now)]);
}

/// Executable clearing: the records whose rule is not `name`, in order.
pub fn clear_records(recs: &Vec<ViolationRecord>, name: &String) -> (kept: Vec<ViolationRecord>)
    ensures
        recs_model(kept@) == clear_rule(recs_model(recs@), name@),
{
    let mut kept: Vec<ViolationRecord> = Vec::new();
    let n = recs.len();
    let mut i: usize = 0;
    while i < n
        invariant
            i <= n,
            n == recs@.len(),
            recs_model(kept@) == clear_rule(recs_model(recs@.take(i as int)), name@),
        decreases n - i,
    {
        let r = &recs[i];
        let same_rule = r.rule_name == *name;
        let ghost s0 = recs_model(recs@.take(i as int));
        let ghost x: (Seq<char>, int) = rec_model(recs@[i as int]);
        proof {
            assert(recs@.take(i + 1).drop_last() =~= recs@.take(i as int));
            assert(recs_model(recs@.take(i + 1)) =~= s0.push(x));
        }
        if same_rule {
            proof {
                lemma_clear_push_drop(s0, x, name@);
            }
        } else {
            let ghost prev = kept@;
            kept.push(ViolationRecord { rule_name: r.rule_name.clone(), timestamp_secs: r.timestamp_secs });
            proof {
                lemma_clear_push_keep(s0, x, name@);
                assert(recs_model(kept@) =~= recs_model(prev).push(x));
            }
        }
        i = i + 1;
    }
    proof {
        assert(recs@.take(n as int) =~= recs@);
    }
    kept
}

/// Nondecreasing sequence of tick times.
pub open spec fn sorted(times: Seq<int>) -> bool {
    forall|i: int, j: int|
        0 <= i <= j < times.len() ==> #[trigger] times[i] <= #[trigger] times[j]
}

/// The tick times no older than `cutoff`, in original order.
pub open spec fn window(times: Seq<int>, cutoff: int) -> Seq<int>
    decreases times.len(),
{
    if times.len() == 0 {
        Seq::empty()
    } else {
        let rest = window(times.drop_last(), cutoff);
        if times.last() >= cutoff {
            rest.push(times.last())
        } else {
            rest
        }
    }
}

/// Tick times dressed up as records of one rule.
pub open spec fn named(times: Seq<int>, name: Seq<char>) -> Seq<(Seq<char>, int)> {
    times.map_values(|t: int| (name, t))
}

/// The tracker state after feeding, oldest first, one observed-true tick of
/// the same rule at each time in `times`.
pub open spec fn iter_track(times: Seq<int>, name: Seq<char>, dur: int) -> Seq<(Seq<char>, int)>
    decreases times.len(),
{
    if times.len() == 0 {
        Seq::empty()
    } else {
        track_step(iter_track(times.drop_last(), name, dur), name, dur, times.last())
    }
}

/// Narrowing a window twice is narrowing it once to the later cutoff.
pub proof fn lemma_window_window(times: Seq<int>, c1: int, c2: int)
    requires
        c1 <= c2,
    ensures
        window(window(times, c1), c2) == window(times, c2),
    decreases times.len(),
{
    if times.len() > 0 {
        lemma_window_window(times.drop_last(), c1, c2);
        if times.last() >= c1 {
            assert(window(times, c1).drop_last() =~= window(times.drop_last(), c1));
        }
    }
}

/// Pruning records of one rule is windowing their times.
pub proof fn lemma_prune_named(times: Seq<int>, name: Seq<char>, cutoff: int)
    ensures
        prune(named(times, name), name, cutoff) == named(window(times, cutoff), name),
    decreases times.len(),
{
    if times.len() == 0 {
        assert(named(times, name) =~= Seq::<(Seq<char>, int)>::empty());
        assert(named(window(times, cutoff), name) =~= Seq::<(Seq<char>, int)>::empty());
    } else {
        lemma_prune_named(times.drop_last(), name, cutoff);
        assert(named(times, name).drop_last() =~= named(times.drop_last(), name));
        assert(named(times, name).last() == (name, times.last()));
        if times.last() >= cutoff {
            assert(named(window(times, cutoff), name) =~= named(
                window(times.drop_last(), cutoff),
                name,
            ).push((name, times.last())));
        } else {
            assert(named(window(times, cutoff), name) =~= named(
                window(times.drop_last(), cutoff),
                name,
            ));
        }
    }
}

/// After a run of observed-true ticks at nondecreasing times, the tracker
/// holds exactly this rule's ticks inside the window of the last tick.
pub proof fn lemma_iter_track_window(times: Seq<int>, name: Seq<char>, dur: int)
    requires
        dur >= 0,
        times.len() > 0,
        sorted(times),
    ensures
        iter_track(times, name, dur) == named(window(times, times.last() - dur), name),
    decreases times.len(),
{
    let cutoff = times.last() - dur;
    if times.len() == 1 {
        lemma_track_step_shape(Seq::empty(), name, dur, times.last());
        assert(times.drop_last() =~= Seq::<int>::empty());
        assert(iter_track(times.drop_last(), name, dur) =~= Seq::<(Seq<char>, int)>::empty());
        assert(prune(Seq::<(Seq<char>, int)>::empty(), name, cutoff) =~= Seq::<
            (Seq<char>, int),
        >::empty());
        assert(iter_track(times, name, dur) =~= seq![(name, times.last())]);
        assert(window(times.drop_last(), cutoff) =~= Seq::<int>::empty());
        assert(window(times, cutoff) =~= seq![times.last()]);
        assert(named(window(times, cutoff), name) =~= seq![(name, times.last())]);
    } else {
        let prev = times.drop_last();
        assert(sorted(prev));
        lemma_iter_track_window(prev, name, dur);
        let c1 = prev.last() - dur;
        assert(prev.last() == times[times.len() - 2]);
        assert(prev.last() <= times.last());
        lemma_track_step_shape(iter_track(prev, name, dur), name, dur, times.last());
        lemma_prune_named(window(prev, c1), name, cutoff);
        lemma_window_window(prev, c1, cutoff);
        assert(window(times, cutoff).drop_last() =~= window(prev, cutoff));
        assert(window(times, cutoff) =~= window(prev, cutoff).push(times.last()));
        assert(iter_track(times, name, dur) =~= named(window(prev, cutoff), name).push(
            (name, times.last()),
        ));
        assert(named(window(times, cutoff), name) =~= named(window(prev, cutoff), name).push(
            (name, times.last()),
        ));
    }
}

/// With a condition continuously true at nondecreasing times, the tick at
/// `times[i]` fires exactly when the span from the earliest tick retained in
/// its window has reached the rule's window. Applied at every index this
/// says the first alert comes on the earliest tick whose span reaches the
/// window, and on no tick before it.
pub proof fn lemma_first_alert_tick(times: Seq<int>, name: Seq<char>, dur: int, i: int)
    requires
        dur >= 0,
        0 <= i < times.len(),
        sorted(times),
    ensures
        window(times.take(i + 1), times[i] - dur).len() > 0,
        track_fires(iter_track(times.take(i), name, dur), name, dur, times[i]) <==> times[i]
            - window(times.take(i + 1), times[i] - dur).first() >= dur,
{
    let upto = times.take(i + 1);
    assert(sorted(upto));
    assert(upto.len() == i + 1);
    assert(upto.last() == times[i]);
    assert(upto.drop_last() =~= times.take(i));
    lemma_iter_track_window(upto, name, dur);
    let w = window(upto, times[i] - dur);
    assert(iter_track(upto, name, dur) == named(w, name));
    assert(w.drop_last() =~= window(times.take(i), times[i] - dur));
    assert(w.len() > 0);
    let after = track_step(iter_track(times.take(i), name, dur), name, dur, times[i]);
    assert(after == iter_track(upto, name, dur));
    assert(after.first() == (name, w.first()));
}

/// Executable pruning: the records of `name` with `timestamp_secs` at least
/// `now - duration_secs`, in order.
pub fn prune_records(
    recs: &Vec<ViolationRecord>,
    name: &String,
    duration_secs: u64,
    now: i64,
) -> (kept: Vec<ViolationRecord>)
    ensures
        recs_model(kept@) == prune(recs_model(recs@), name@, now as int - duration_secs as int),
{
    let ghost cutoff: int = now as int - duration_secs as int;
    let mut kept: Vec<ViolationRecord> = Vec::new();
    let n = recs.len();
    let mut i: usize = 0;
    while i < n
        invariant
            i <= n,
            n == recs@.len(),
            cutoff == now as int - duration_secs as int,
            recs_model(kept@) == prune(recs_model(recs@.take(i as int)), name@, cutoff),
        decreases n - i,
    {
        let r = &recs[i];
        let in_window = r.timestamp_secs as i128 >= now as i128 - duration_secs as i128;
        let same_rule = r.rule_name == *name;
        let ghost s0 = recs_model(recs@.take(i as int));
        let ghost x: (Seq<char>, int) = rec_model(recs@[i as int]);
        proof {
            assert(recs@.take(i + 1).drop_last() =~= recs@.take(i as int));
            assert(recs_model(recs@.take(i + 1)) =~= s0.push(x));
        }
        if in_window && same_rule {
            let ghost prev = kept@;
            kept.push(ViolationRecord { rule_name: r.rule_name.clone(), timestamp_secs: r.timestamp_secs });
            proof {
                lemma_prune_push_keep(s0, x, name@, cutoff);
                assert(recs_model(kept@) =~= recs_model(prev).push(x));
            }
        } else {
            proof {
                lemma_prune_push_drop(s0, x, name@, cutoff);
            }
        }
        i = i + 1;
    }
    proof {
        assert(recs@.take(n as int) =~= recs@);
    }
    kept
}

} // verus!
