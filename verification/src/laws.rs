//! What holds of the timing arithmetic and of the tracker on every input.
use vstd::prelude::*;
use vstd::arithmetic::div_mod::lemma_fundamental_div_mod;
use vstd::arithmetic::div_mod::lemma_fundamental_div_mod_converse;
use vstd::arithmetic::div_mod::lemma_mod_bound;
use crate::config::BeatConfig;
use crate::tracker::MissedBeat;
use crate::tracker::PressAccept;
use crate::tracker::TrackerState;

verus! {

/// The timing error of any instant is at most half a period in magnitude,
/// and its magnitude is the distance that decides on-beat.
pub proof fn lemma_error_within_half_period(config: BeatConfig, elapsed: int)
    requires
        config.valid(),
    ensures
        0 <= config.spec_phase(elapsed) < config.spec_period(),
        0 <= config.spec_distance(elapsed) <= config.spec_period() / 2,
        -(config.spec_period() / 2) <= config.spec_error(elapsed) <= config.spec_period() / 2,
        config.spec_error(elapsed) == config.spec_distance(elapsed) || config.spec_error(elapsed)
            == -config.spec_distance(elapsed),
{
    let p = config.spec_period();
    lemma_mod_bound(config.grid_time(elapsed) + p / 2, p);
}

/// The beat index of an instant at or after grid time zero is the index of
/// the grid line nearest to it: the instant lies within half a period of
/// that line, a tie going to the later line.
pub proof fn lemma_beat_index_is_nearest(config: BeatConfig, elapsed: int)
    requires
        config.valid(),
        config.grid_time(elapsed) >= 0,
    ensures
        ({
            let k = config.spec_beat_index(elapsed);
            let p = config.spec_period();
            let x = config.grid_time(elapsed);
            &&& k >= 0
            &&& 2 * (k * p) - p <= 2 * x < 2 * (k * p) + p
        }),
{
    let p = config.spec_period();
    let x = config.grid_time(elapsed);
    let k = (2 * x + p) / (2 * p);
    let r = (2 * x + p) % (2 * p);
    lemma_fundamental_div_mod(2 * x + p, 2 * p);
    lemma_mod_bound(2 * x + p, 2 * p);
    config.lemma_index_bounds(elapsed);
    assert((2 * p) * k == 2 * (k * p)) by (nonlinear_arith);
}

/// The nominal time of beat `k` is judged as beat `k`. Its phase is the
/// middle of the window, so its distance to the window's edge is half a
/// period: it is on beat exactly when the leniency reaches half a period.
pub proof fn lemma_beat_time_round_trip(config: BeatConfig, k: int)
    requires
        config.valid(),
        k >= 0,
    ensures
        config.spec_beat_index(config.spec_beat_time(k)) == k,
        config.spec_phase(config.spec_beat_time(k)) == config.spec_period() / 2,
        config.spec_error(config.spec_beat_time(k)) == config.spec_period() / 2,
        config.spec_on_beat(config.spec_beat_time(k)) <==> config.spec_period() / 2
            <= config.leniency_seconds,
{
    let p = config.spec_period();
    let t = config.spec_beat_time(k);
    assert(config.grid_time(t) == k * p);
    assert(k * p >= 0) by (nonlinear_arith)
        requires
            k >= 0,
            p > 0,
    ;
    assert(2 * (k * p) + p == k * (2 * p) + p) by (nonlinear_arith);
    lemma_fundamental_div_mod_converse(2 * (k * p) + p, 2 * p, k, p);
    lemma_fundamental_div_mod_converse(k * p + p / 2, p, k, p / 2);
}

/// Where half a period rounds to zero, the nominal time of beat `k` is
/// judged as beat `k`, on beat, with no error.
pub proof fn lemma_beat_time_round_trip_exact(config: BeatConfig, k: int)
    requires
        config.valid(),
        config.spec_period() / 2 == 0,
        k >= 0,
    ensures
        config.spec_beat_index(config.spec_beat_time(k)) == k,
        config.spec_error(config.spec_beat_time(k)) == 0,
        config.spec_on_beat(config.spec_beat_time(k)),
{
    lemma_beat_time_round_trip(config, k);
}

/// An on-beat press on a resolved beat is a duplicate and leaves the state
/// as it was.
pub proof fn lemma_press_on_resolved_beat(state: TrackerState, elapsed: int)
    requires
        state.config.spec_judge(elapsed).on_beat,
        state.resolved.contains(state.config.spec_judge(elapsed).beat_index),
    ensures
        state.press_result(elapsed).accept == PressAccept::Duplicate,
        state.after_press(elapsed) == state,
{
}

/// An off-beat press is accepted and changes nothing: it resolves no beat,
/// however often it is repeated.
pub proof fn lemma_off_beat_press_resolves_nothing(state: TrackerState, elapsed: int)
    requires
        !state.config.spec_judge(elapsed).on_beat,
    ensures
        state.press_result(elapsed).accept == PressAccept::Accepted,
        state.after_press(elapsed) == state,
        state.after_press(elapsed).press_result(elapsed) == state.press_result(elapsed),
{
}

/// A press or a poll takes no beat out of the resolved set, moves the
/// cursor forward only, and keeps the configuration.
pub proof fn lemma_resolution_is_permanent(state: TrackerState, elapsed: i64, k: u64)
    requires
        state.wf(),
        state.resolved.contains(k),
    ensures
        state.after_press(elapsed as int).resolved.contains(k),
        state.after_press(elapsed as int).cursor == state.cursor,
        state.after_press(elapsed as int).config == state.config,
        state.after_poll(elapsed as int).resolved.contains(k),
        state.after_poll(elapsed as int).cursor >= state.cursor,
        state.after_poll(elapsed as int).config == state.config,
        state.after_poll(elapsed as int).wf(),
{
    lemma_scan_stop_bounds(state, elapsed);
}

/// A poll stops at or after the cursor, and within the range of beat
/// indices where the period is positive.
pub proof fn lemma_scan_stop_bounds(state: TrackerState, elapsed: i64)
    ensures
        state.cursor <= state.scan_stop(elapsed as int) <= u64::MAX + 1,
        state.config.valid() ==> state.scan_stop(elapsed as int) <= u64::MAX,
{
    if state.config.valid() {
        state.config.lemma_closed_beats(elapsed as int, 0);
    }
}

/// Under a positive period a poll stops at the first beat at or after the
/// cursor whose window is still open: every beat it passes has its window
/// closed.
pub proof fn lemma_scan_stops_at_first_open_window(state: TrackerState, elapsed: i64)
    requires
        state.config.valid(),
    ensures
        !state.config.window_closed(elapsed as int, state.scan_stop(elapsed as int)),
        forall|k: int|
            state.cursor <= k < state.scan_stop(elapsed as int)
                ==> #[trigger] state.config.window_closed(elapsed as int, k),
{
    state.config.lemma_closed_beats(elapsed as int, state.scan_stop(elapsed as int));
    assert forall|k: int|
        state.cursor <= k < state.scan_stop(elapsed as int) implies #[trigger] state.config.window_closed(
        elapsed as int,
        k,
    ) by {
        state.config.lemma_closed_beats(elapsed as int, k);
    }
}

/// The entries of `missed_upto`: each is an unresolved beat between the
/// cursor and `stop` with its exact lateness, they come by rising index,
/// and no unresolved beat of that range is left out.
pub proof fn lemma_missed_entries(state: TrackerState, elapsed: int, stop: int)
    requires
        state.cursor <= stop <= u64::MAX + 1,
    ensures
        forall|i: int|
            0 <= i < state.missed_upto(elapsed, stop).len() ==> {
                let m = #[trigger] state.missed_upto(elapsed, stop)[i];
                &&& state.cursor <= m.beat_index < stop
                &&& !state.resolved.contains(m.beat_index)
                &&& m.late_by_seconds == (elapsed - state.config.spec_beat_time(
                    m.beat_index as int,
                )) as u64
            },
        forall|i: int, j: int|
            0 <= i < j < state.missed_upto(elapsed, stop).len() ==> (
            #[trigger] state.missed_upto(elapsed, stop)[i]).beat_index < (
            #[trigger] state.missed_upto(elapsed, stop)[j]).beat_index,
        forall|k: u64|
            state.cursor <= k < stop && !state.resolved.contains(k) ==> exists|i: int|
                0 <= i < state.missed_upto(elapsed, stop).len() && (
                #[trigger] state.missed_upto(elapsed, stop)[i]).beat_index == k,
    decreases stop - state.cursor,
{
    if stop > state.cursor {
        lemma_missed_entries(state, elapsed, stop - 1);
        let before = state.missed_upto(elapsed, stop - 1);
        let all = state.missed_upto(elapsed, stop);
        let last = (stop - 1) as u64;
        assert forall|k: u64|
            state.cursor <= k < stop && !state.resolved.contains(k) implies exists|i: int|
            0 <= i < all.len() && (#[trigger] all[i]).beat_index == k by {
            if k < stop - 1 {
                let i = choose|i: int| 0 <= i < before.len() && (#[trigger] before[i]).beat_index == k;
                assert(all[i].beat_index == k);
            } else {
                assert(k == last);
                assert(all[before.len() as int].beat_index == k);
            }
        }
    }
}

/// A beat that is resolved when a poll starts is not in what the poll
/// reports: every reported beat was unresolved, had its window closed (for
/// a positive period), and is resolved afterwards.
pub proof fn lemma_resolved_beat_is_never_missed(state: TrackerState, elapsed: i64, i: int)
    requires
        state.wf(),
        0 <= i < state.missed(elapsed as int).len(),
    ensures
        !state.resolved.contains(state.missed(elapsed as int)[i].beat_index),
        state.after_poll(elapsed as int).resolved.contains(
            state.missed(elapsed as int)[i].beat_index,
        ),
        state.missed(elapsed as int)[i].beat_index >= state.config.grace_beats,
        state.config.valid() ==> state.config.window_closed(
            elapsed as int,
            state.missed(elapsed as int)[i].beat_index as int,
        ),
        state.config.valid() ==> state.missed(elapsed as int)[i].late_by_seconds == elapsed
            - state.config.spec_beat_time(state.missed(elapsed as int)[i].beat_index as int),
        state.config.valid() ==> state.missed(elapsed as int)[i].late_by_seconds
            > state.config.leniency_seconds,
{
    let stop = state.scan_stop(elapsed as int);
    lemma_scan_stop_bounds(state, elapsed);
    lemma_missed_entries(state, elapsed as int, stop);
    let m = state.missed(elapsed as int)[i];
    assert(state.scanned(stop).contains(m.beat_index));
    if state.config.valid() {
        let k = m.beat_index as int;
        let p = state.config.spec_period();
        state.config.lemma_closed_beats(elapsed as int, k);
        assert(k * p >= 0) by (nonlinear_arith)
            requires
                k >= 0,
                p > 0,
        ;
    }
}

/// No beat is reported twice: within one poll the reported indices rise
/// strictly, and a beat that one poll reported is in no later report.
pub proof fn lemma_missed_once(state: TrackerState, elapsed: i64, later: i64, i: int, j: int)
    requires
        state.wf(),
        0 <= i < state.missed(elapsed as int).len(),
        0 <= j < state.after_poll(elapsed as int).missed(later as int).len(),
    ensures
        forall|a: int, b: int|
            0 <= a < b < state.missed(elapsed as int).len() ==> (
            #[trigger] state.missed(elapsed as int)[a]).beat_index < (
            #[trigger] state.missed(elapsed as int)[b]).beat_index,
        state.after_poll(elapsed as int).missed(later as int)[j].beat_index != state.missed(
            elapsed as int,
        )[i].beat_index,
{
    lemma_scan_stop_bounds(state, elapsed);
    lemma_missed_entries(state, elapsed as int, state.scan_stop(elapsed as int));
    lemma_resolved_beat_is_never_missed(state, elapsed, i);
    assert(state.after_poll(elapsed as int).wf());
    lemma_resolved_beat_is_never_missed(state.after_poll(elapsed as int), later, j);
}

/// What a session feeds a tracker: a press or a poll, each with its
/// elapsed time.
pub enum Input {
    Press(i64),
    Poll(i64),
}

/// The state after one input.
pub open spec fn after_input(state: TrackerState, input: Input) -> TrackerState {
    match input {
        Input::Press(elapsed) => state.after_press(elapsed as int),
        Input::Poll(elapsed) => state.after_poll(elapsed as int),
    }
}

/// The state after a run of inputs, the first one first.
pub open spec fn after_inputs(state: TrackerState, inputs: Seq<Input>) -> TrackerState
    decreases inputs.len(),
{
    if inputs.len() == 0 {
        state
    } else {
        after_input(after_inputs(state, inputs.drop_last()), inputs.last())
    }
}

/// Whatever presses and polls follow, in whatever order, a resolved beat
/// stays resolved, the cursor does not go back, and the configuration
/// stays.
pub proof fn lemma_resolved_stays_resolved(state: TrackerState, inputs: Seq<Input>, k: u64)
    requires
        state.wf(),
        state.resolved.contains(k),
    ensures
        after_inputs(state, inputs).resolved.contains(k),
        after_inputs(state, inputs).cursor >= state.cursor,
        after_inputs(state, inputs).config == state.config,
        after_inputs(state, inputs).wf(),
    decreases inputs.len(),
{
    if inputs.len() > 0 {
        lemma_resolved_stays_resolved(state, inputs.drop_last(), k);
        let before = after_inputs(state, inputs.drop_last());
        match inputs.last() {
            Input::Press(elapsed) => lemma_resolution_is_permanent(before, elapsed, k),
            Input::Poll(elapsed) => lemma_resolution_is_permanent(before, elapsed, k),
        }
    }
}

/// After an accepted on-beat press, every later on-beat press on the same
/// beat index is a duplicate and leaves the state as it was, whatever
/// presses and polls came in between.
pub proof fn lemma_later_press_is_duplicate(
    state: TrackerState,
    first: i64,
    between: Seq<Input>,
    later: i64,
)
    requires
        state.wf(),
        state.config.spec_judge(first as int).on_beat,
        state.press_result(first as int).accept == PressAccept::Accepted,
        state.config.spec_judge(later as int).on_beat,
        state.config.spec_judge(later as int).beat_index == state.config.spec_judge(
            first as int,
        ).beat_index,
    ensures
        ({
            let reached = after_inputs(state.after_press(first as int), between);
            &&& reached.press_result(later as int).accept == PressAccept::Duplicate
            &&& reached.after_press(later as int) == reached
        }),
{
    let k = state.config.spec_judge(first as int).beat_index;
    lemma_resolved_stays_resolved(state.after_press(first as int), between, k);
}

/// A beat resolved by an on-beat press is in no report of any later poll,
/// whatever presses and polls came in between.
pub proof fn lemma_pressed_beat_is_never_missed(
    state: TrackerState,
    press: i64,
    between: Seq<Input>,
    poll: i64,
    i: int,
)
    requires
        state.wf(),
        state.config.spec_judge(press as int).on_beat,
        0 <= i < after_inputs(state.after_press(press as int), between).missed(poll as int).len(),
    ensures
        after_inputs(state.after_press(press as int), between).missed(poll as int)[i].beat_index
            != state.config.spec_judge(press as int).beat_index,
{
    let k = state.config.spec_judge(press as int).beat_index;
    lemma_resolved_stays_resolved(state.after_press(press as int), between, k);
    lemma_resolved_beat_is_never_missed(
        after_inputs(state.after_press(press as int), between),
        poll,
        i,
    );
}

/// Where no beat from the cursor up to `stop` is resolved, `missed_upto`
/// lists every one of them in order.
pub proof fn lemma_missed_when_none_resolved(state: TrackerState, elapsed: int, stop: int)
    requires
        state.cursor <= stop <= u64::MAX + 1,
        forall|k: u64| state.cursor <= k < stop ==> !state.resolved.contains(k),
    ensures
        state.missed_upto(elapsed, stop).len() == stop - state.cursor,
        forall|i: int|
            0 <= i < stop - state.cursor ==> #[trigger] state.missed_upto(elapsed, stop)[i] == (
            MissedBeat {
                beat_index: (state.cursor + i) as u64,
                late_by_seconds: (elapsed - state.config.spec_beat_time(state.cursor + i)) as u64,
            }),
    decreases stop - state.cursor,
{
    if stop > state.cursor {
        lemma_missed_when_none_resolved(state, elapsed, stop - 1);
        assert(!state.resolved.contains((stop - 1) as u64));
    }
}

/// After a poll under a positive period no beat from the warm-up count on
/// is left with a closed window and unresolved: each is resolved, by an
/// earlier press or poll or by this one.
pub proof fn lemma_every_closed_beat_is_resolved(state: TrackerState, elapsed: i64, k: u64)
    requires
        state.wf(),
        state.config.valid(),
        state.config.grace_beats <= k,
        state.config.window_closed(elapsed as int, k as int),
    ensures
        state.after_poll(elapsed as int).resolved.contains(k),
{
    state.config.lemma_closed_beats(elapsed as int, k as int);
    if k >= state.cursor {
        assert(state.scanned(state.scan_stop(elapsed as int)).contains(k));
    }
}

/// With no press at all, one poll of a fresh tracker resolves exactly the
/// beats from the warm-up count on whose window has closed: the run of
/// indices from the warm-up count up to `closed_beats`. It reports each of
/// them, in order, and leaves the cursor behind the last.
pub proof fn lemma_poll_covers_closed_beats(config: BeatConfig, elapsed: i64)
    requires
        config.valid(),
    ensures
        ({
            let fresh = TrackerState::fresh(config);
            let after = fresh.after_poll(elapsed as int);
            let stop = vstd::math::max(
                config.grace_beats as int,
                config.closed_beats(elapsed as int),
            );
            &&& after.cursor == stop
            &&& after.resolved =~= Set::new(|k: u64| config.grace_beats <= k < stop)
            &&& after.resolved =~= Set::new(
                |k: u64| config.grace_beats <= k && config.window_closed(elapsed as int, k as int),
            )
            &&& fresh.missed(elapsed as int).len() == stop - config.grace_beats
            &&& forall|i: int|
                0 <= i < stop - config.grace_beats ==> #[trigger] fresh.missed(elapsed as int)[i]
                    == (MissedBeat {
                    beat_index: (config.grace_beats + i) as u64,
                    late_by_seconds: (elapsed - config.spec_beat_time(config.grace_beats + i)) as u64,
                })
        }),
{
    let fresh = TrackerState::fresh(config);
    let stop = fresh.scan_stop(elapsed as int);
    lemma_scan_stop_bounds(fresh, elapsed);
    lemma_missed_when_none_resolved(fresh, elapsed as int, stop);
    assert forall|k: u64| config.grace_beats <= k implies (k < stop <==> config.window_closed(
        elapsed as int,
        k as int,
    )) by {
        config.lemma_closed_beats(elapsed as int, k as int);
    }
}

/// Polls alone keep the resolved set a run without gaps: if the resolved
/// beats are exactly those from the warm-up count up to the cursor, they
/// are so after a poll, and the cursor then stands at the first beat at or
/// after it whose window is open.
pub proof fn lemma_poll_keeps_coverage(state: TrackerState, elapsed: i64)
    requires
        state.wf(),
        state.config.valid(),
        state.resolved =~= Set::new(|k: u64| state.config.grace_beats <= k < state.cursor),
    ensures
        ({
            let after = state.after_poll(elapsed as int);
            &&& after.cursor == vstd::math::max(
                state.cursor as int,
                state.config.closed_beats(elapsed as int),
            )
            &&& !state.config.window_closed(elapsed as int, after.cursor as int)
            &&& after.resolved =~= Set::new(|k: u64| state.config.grace_beats <= k < after.cursor)
        }),
{
    lemma_scan_stop_bounds(state, elapsed);
    let after = state.after_poll(elapsed as int);
    state.config.lemma_closed_beats(elapsed as int, after.cursor as int);
}

} // verus!
