//! The tracker: which beats have been resolved, by a press or by a miss.
use std::collections::HashSet;
use vstd::prelude::*;
use crate::config::BeatConfig;
use crate::config::Judgment;

verus! {

broadcast use vstd::std_specs::hash::group_hash_axioms;

/// Whether a press was taken or came after its beat was resolved.
#[derive(Debug, Clone, Copy, PartialEq, Eq, Structural)]
pub enum PressAccept {
    Accepted,
    Duplicate,
}

/// The outcome of one press.
#[derive(Debug, Clone, Copy, PartialEq, Eq, Structural)]
pub struct PressResult {
    pub judgment: Judgment,
    pub accept: PressAccept,
    /// Whether the beat is past the warm-up and counts for scoring.
    pub counts: bool,
}

/// A beat whose window closed with no accepted press.
#[derive(Debug, Clone, Copy, PartialEq, Eq, Structural)]
pub struct MissedBeat {
    pub beat_index: u64,
    /// How far the poll came after the beat's nominal time, in seconds.
    pub late_by_seconds: u64,
}

/// The mathematical state of a tracker.
pub struct TrackerState {
    pub config: BeatConfig,
    /// The beat indices that are resolved.
    pub resolved: Set<u64>,
    /// The next beat index that a poll looks at.
    pub cursor: u64,
}

impl TrackerState {
    /// The cursor never lies below the warm-up count, and every beat from
    /// the warm-up count up to the cursor is resolved.
    pub open spec fn wf(self) -> bool {
        &&& self.cursor >= self.config.grace_beats
        &&& forall|k: u64| self.config.grace_beats <= k < self.cursor ==> self.resolved.contains(k)
    }

    /// The state at the start of a session.
    pub open spec fn fresh(config: BeatConfig) -> TrackerState {
        TrackerState { config, resolved: Set::empty(), cursor: config.grace_beats }
    }

    /// What a press at `elapsed` is answered with.
    pub open spec fn press_result(self, elapsed: int) -> PressResult {
        let judgment = self.config.spec_judge(elapsed);
        PressResult {
            judgment,
            accept: if judgment.on_beat && self.resolved.contains(judgment.beat_index) {
                PressAccept::Duplicate
            } else {
                PressAccept::Accepted
            },
            counts: judgment.beat_index >= self.config.grace_beats,
        }
    }

    /// The state after a press at `elapsed`: an on-beat press on an
    /// unresolved beat resolves it, any other press changes nothing.
    pub open spec fn after_press(self, elapsed: int) -> TrackerState {
        let judgment = self.config.spec_judge(elapsed);
        if judgment.on_beat && !self.resolved.contains(judgment.beat_index) {
            TrackerState { resolved: self.resolved.insert(judgment.beat_index), ..self }
        } else {
            self
        }
    }

    /// Where a poll at `elapsed` stops: the first index at or after the
    /// cursor whose window is still open. With a period that is not
    /// positive the poll looks at one beat at most.
    pub open spec fn scan_stop(self, elapsed: int) -> int {
        if self.config.spec_period() > 0 {
            vstd::math::max(self.cursor as int, self.config.closed_beats(elapsed))
        } else if self.config.window_closed(elapsed, self.cursor as int) {
            self.cursor + 1
        } else {
            self.cursor as int
        }
    }

    /// The beat indices from the cursor up to `stop`.
    pub open spec fn scanned(self, stop: int) -> Set<u64> {
        Set::new(|k: u64| self.cursor <= k < stop)
    }

    /// The unresolved beats from the cursor up to `stop`, by rising index,
    /// each with its lateness at `elapsed`.
    pub open spec fn missed_upto(self, elapsed: int, stop: int) -> Seq<MissedBeat>
        decreases stop - self.cursor,
    {
        if stop <= self.cursor {
            Seq::empty()
        } else {
            let k = stop - 1;
            let before = self.missed_upto(elapsed, k);
            if self.resolved.contains(k as u64) {
                before
            } else {
                before.push(
                    MissedBeat {
                        beat_index: k as u64,
                        late_by_seconds: (elapsed - self.config.spec_beat_time(k)) as u64,
                    },
                )
            }
        }
    }

    /// What a poll at `elapsed` reports.
    pub open spec fn missed(self, elapsed: int) -> Seq<MissedBeat> {
        self.missed_upto(elapsed, self.scan_stop(elapsed))
    }

    /// The state after a poll at `elapsed`: every scanned beat is resolved
    /// and the cursor stands where the scan stopped.
    pub open spec fn after_poll(self, elapsed: int) -> TrackerState {
        let stop = self.scan_stop(elapsed);
        TrackerState {
            config: self.config,
            resolved: self.resolved.union(self.scanned(stop)),
            cursor: if stop > u64::MAX {
                u64::MAX
            } else {
                stop as u64
            },
        }
    }
}

/// Tracks beat resolution over a session: judges presses, lets one on-beat
/// press through per beat, and reports the beats that went by unpressed.
#[derive(Debug)]
pub struct BeatTracker {
    config: BeatConfig,
    resolved_beats: HashSet<u64>,
    next_miss_check: u64,
}

impl View for BeatTracker {
    type V = TrackerState;

    closed spec fn view(&self) -> TrackerState {
        TrackerState {
            config: self.config,
            resolved: self.resolved_beats@,
            cursor: self.next_miss_check,
        }
    }
}

impl BeatTracker {
    /// A tracker at the start of a session.
    pub fn new(config: BeatConfig) -> (tracker: BeatTracker)
        ensures
            tracker@ == TrackerState::fresh(config),
            tracker@.wf(),
    {
        BeatTracker {
            config,
            resolved_beats: HashSet::new(),
            next_miss_check: config.grace_beats,
        }
    }

    /// The configuration in force.
    pub fn config(&self) -> (config: BeatConfig)
        ensures
            config == self@.config,
    {
        self.config
    }

    /// Starts a new session under `config`.
    pub fn reset(&mut self, config: BeatConfig)
        ensures
            final(self)@ == TrackerState::fresh(config),
            final(self)@.wf(),
    {
        self.config = config;
        self.resolved_beats.clear();
        self.next_miss_check = config.grace_beats;
    }

    /// Registers a press at `elapsed_seconds`.
    pub fn register_press(&mut self, elapsed_seconds: i64) -> (result: PressResult)
        requires
            old(self)@.wf(),
            old(self)@.config.valid(),
        ensures
            result == old(self)@.press_result(elapsed_seconds as int),
            final(self)@ == old(self)@.after_press(elapsed_seconds as int),
            final(self)@.wf(),
    {
        let judgment = self.config.judge(elapsed_seconds);
        let counts = judgment.beat_index >= self.config.grace_beats;
        let accept = if judgment.on_beat {
            if self.resolved_beats.contains(&judgment.beat_index) {
                PressAccept::Duplicate
            } else {
                self.resolved_beats.insert(judgment.beat_index);
                PressAccept::Accepted
            }
        } else {
            PressAccept::Accepted
        };
        PressResult { judgment, accept, counts }
    }

    /// Reports the beats whose window has closed by `elapsed_seconds` and
    /// that no press resolved, by rising index, and resolves them.
    pub fn poll_missed(&mut self, elapsed_seconds: i64) -> (missed: Vec<MissedBeat>)
        requires
            old(self)@.wf(),
        ensures
            missed@ == old(self)@.missed(elapsed_seconds as int),
            final(self)@ == old(self)@.after_poll(elapsed_seconds as int),
            final(self)@.wf(),
    {
        let mut missed: Vec<MissedBeat> = Vec::new();
        let period = self.config.beat_period_seconds();
        let leniency = self.config.leniency_seconds;
        let ghost start = self@;
        let ghost elapsed = elapsed_seconds as int;
        let ghost stop = start.scan_stop(elapsed);
        proof {
            if period > 0 {
                start.config.lemma_closed_beats(elapsed, 0);
            }
        }
        loop
            invariant_except_break
                self@.cursor <= stop,
                period == 0 ==> self@.cursor == start.cursor,
                self@.resolved == start.resolved.union(start.scanned(self@.cursor as int)),
                missed@ == start.missed_upto(elapsed, self@.cursor as int),
            invariant
                self@.config == start.config,
                start.wf(),
                period == start.config.spec_period(),
                leniency == start.config.leniency_seconds,
                elapsed == elapsed_seconds,
                stop == start.scan_stop(elapsed),
                stop <= u64::MAX || period == 0,
                start.cursor <= self@.cursor,
            ensures
                self@ == start.after_poll(elapsed),
                missed@ == start.missed(elapsed),
            decreases stop - self@.cursor,
        {
            let beat_index = self.next_miss_check;
            let beat_time = self.config.beat_time_seconds(beat_index);
            proof {
                if period > 0 {
                    start.config.lemma_closed_beats(elapsed, beat_index as int);
                }
            }
            if elapsed_seconds as i128 <= beat_time + leniency as i128 {
                break;
            }
            if !self.resolved_beats.contains(&beat_index) {
                self.resolved_beats.insert(beat_index);
                missed.push(
                    MissedBeat {
                        beat_index,
                        late_by_seconds: (elapsed_seconds as i128 - beat_time) as u64,
                    },
                );
            }
            let next = beat_index.saturating_add(1);
            self.next_miss_check = if next >= self.config.grace_beats {
                next
            } else {
                self.config.grace_beats
            };
            proof {
                assert(start.scanned(beat_index + 1) =~= start.scanned(beat_index as int).insert(
                    beat_index,
                ));
                assert(self@.resolved =~= start.resolved.union(start.scanned(beat_index + 1)));
            }
            if period == 0 {
                break;
            }
        }
        missed
    }
}

} // verus!
