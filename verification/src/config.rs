//! Timing configuration and the arithmetic that places an instant on the beat grid.
use vstd::prelude::*;
use vstd::arithmetic::div_mod::lemma_div_nonincreasing;
use vstd::arithmetic::div_mod::lemma_div_pos_is_pos;
use vstd::arithmetic::div_mod::lemma_fundamental_div_mod;
use vstd::arithmetic::div_mod::lemma_mod_bound;

verus! {

/// Sixty seconds times one beat per minute, both in fixed point: the
/// numerator of the beat period.
pub const PERIOD_NUMERATOR: u64 = 60_000_000_000_000;

/// The parameters of one session.
///
/// Every real quantity is held in fixed point with six decimal places: the
/// stored integer is the quantity times one million. A tempo of 120 beats per
/// minute is `120_000_000`, half a second is `500_000`. Quotients are rounded
/// towards zero to the sixth decimal place.
#[derive(Debug, Clone, Copy, PartialEq, Eq, Structural)]
pub struct BeatConfig {
    /// Tempo in beats per minute.
    pub bpm: u64,
    /// Phase offset in seconds, added to every instant before it is judged.
    pub offset_seconds: i64,
    /// Half-width of the on-beat window in seconds.
    pub leniency_seconds: u64,
    /// Number of leading beat indices that are judged but do not count.
    pub grace_beats: u64,
}

/// What the timing arithmetic says of one instant.
#[derive(Debug, Clone, Copy, PartialEq, Eq, Structural)]
pub struct Judgment {
    /// Index of the beat nearest to the instant.
    pub beat_index: u64,
    /// Whether the unsigned error is within the leniency.
    pub on_beat: bool,
    /// Signed timing error in seconds, at most half a period in magnitude.
    pub error_seconds: i64,
}

impl BeatConfig {
    /// Seconds per beat: sixty over the tempo. Zero stands for a period that
    /// is not a positive number: the tempo is zero, or so high that a beat
    /// is shorter than the clock's resolution.
    pub open spec fn spec_period(self) -> int {
        if self.bpm == 0 {
            0
        } else {
            PERIOD_NUMERATOR as int / self.bpm as int
        }
    }

    /// A configuration is valid when its period is positive. Tolerance and
    /// warm-up count cannot be negative by their types.
    pub open spec fn valid(self) -> bool {
        self.spec_period() > 0
    }

    /// Nominal time of beat `beat_index`.
    pub open spec fn spec_beat_time(self, beat_index: int) -> int {
        beat_index * self.spec_period() - self.offset_seconds
    }

    /// The instant on the beat grid: elapsed time plus phase offset.
    pub open spec fn grid_time(self, elapsed: int) -> int {
        elapsed + self.offset_seconds
    }

    /// Position of the instant inside a window of one period that starts
    /// half a period before a grid line.
    pub open spec fn spec_phase(self, elapsed: int) -> int {
        (self.grid_time(elapsed) + self.spec_period() / 2) % self.spec_period()
    }

    /// Distance from the phase to the nearer edge of its window.
    pub open spec fn spec_distance(self, elapsed: int) -> int {
        let phase = self.spec_phase(elapsed);
        if phase <= self.spec_period() - phase {
            phase
        } else {
            self.spec_period() - phase
        }
    }

    /// Whether the distance is within the leniency.
    pub open spec fn spec_on_beat(self, elapsed: int) -> bool {
        self.spec_distance(elapsed) <= self.leniency_seconds
    }

    /// The distance, negated in the upper half of the window.
    pub open spec fn spec_error(self, elapsed: int) -> int {
        if self.spec_phase(elapsed) > self.spec_period() / 2 {
            -self.spec_distance(elapsed)
        } else {
            self.spec_distance(elapsed)
        }
    }

    /// The grid time over the period, rounded to the nearest integer with
    /// ties away from zero, and never below zero.
    pub open spec fn spec_beat_index(self, elapsed: int) -> int {
        let x = self.grid_time(elapsed);
        if x < 0 {
            0
        } else {
            (2 * x + self.spec_period()) / (2 * self.spec_period())
        }
    }

    /// The judgment of an instant, field by field.
    pub open spec fn spec_judge(self, elapsed: int) -> Judgment {
        Judgment {
            beat_index: self.spec_beat_index(elapsed) as u64,
            on_beat: self.spec_on_beat(elapsed),
            error_seconds: self.spec_error(elapsed) as i64,
        }
    }

    /// Whether the on-beat window of beat `beat_index` lies wholly before
    /// `elapsed`.
    pub open spec fn window_closed(self, elapsed: int, beat_index: int) -> bool {
        elapsed > self.spec_beat_time(beat_index) + self.leniency_seconds
    }

    /// How many beat indices, counted from zero, have a closed window at
    /// `elapsed`, for a positive period.
    pub open spec fn closed_beats(self, elapsed: int) -> int {
        let d = self.grid_time(elapsed) - self.leniency_seconds;
        if d <= 0 {
            0
        } else {
            (d - 1) / self.spec_period() + 1
        }
    }

    /// The period is never negative and never above sixty seconds per
    /// millionth of a beat per minute.
    pub proof fn lemma_period_bounds(self)
        ensures
            0 <= self.spec_period() <= PERIOD_NUMERATOR,
            self.valid() <==> 0 < self.bpm <= PERIOD_NUMERATOR,
    {
        if self.bpm != 0 {
            lemma_div_nonincreasing(PERIOD_NUMERATOR as int, self.bpm as int);
            lemma_fundamental_div_mod(PERIOD_NUMERATOR as int, self.bpm as int);
            lemma_mod_bound(PERIOD_NUMERATOR as int, self.bpm as int);
            let q = PERIOD_NUMERATOR as int / self.bpm as int;
            let b = self.bpm as int;
            assert(0 <= q);
            if b <= PERIOD_NUMERATOR {
                assert(q > 0) by (nonlinear_arith)
                    requires
                        0 < b <= PERIOD_NUMERATOR,
                        PERIOD_NUMERATOR == b * q + (PERIOD_NUMERATOR as int % b),
                        0 <= PERIOD_NUMERATOR as int % b < b,
                ;
            } else {
                assert(q == 0) by (nonlinear_arith)
                    requires
                        b > PERIOD_NUMERATOR,
                        0 <= q,
                        PERIOD_NUMERATOR == b * q + (PERIOD_NUMERATOR as int % b),
                        0 <= PERIOD_NUMERATOR as int % b < b,
                ;
            }
        }
    }

    /// The window of a beat has closed exactly when its index is below
    /// `closed_beats`: the closed windows are those of an initial run of
    /// indices.
    pub proof fn lemma_closed_beats(self, elapsed: int, beat_index: int)
        requires
            self.valid(),
            0 <= beat_index,
        ensures
            0 <= self.closed_beats(elapsed),
            self.closed_beats(elapsed) <= vstd::math::max(
                0,
                self.grid_time(elapsed) - self.leniency_seconds,
            ),
            self.window_closed(elapsed, beat_index) <==> beat_index < self.closed_beats(elapsed),
    {
        let p = self.spec_period();
        let d = self.grid_time(elapsed) - self.leniency_seconds;
        let k = beat_index;
        if d <= 0 {
            assert(k * p >= 0) by (nonlinear_arith)
                requires
                    p > 0,
                    k >= 0,
            ;
        } else {
            let q = (d - 1) / p;
            let r = (d - 1) % p;
            lemma_fundamental_div_mod(d - 1, p);
            lemma_mod_bound(d - 1, p);
            lemma_div_nonincreasing(d - 1, p);
            lemma_div_pos_is_pos(d - 1, p);
            assert(k * p < d <==> k <= q) by (nonlinear_arith)
                requires
                    p > 0,
                    k >= 0,
                    d - 1 == p * q + r,
                    0 <= r < p,
            ;
        }
    }

    /// Whether the configuration is valid.
    pub fn is_valid(&self) -> (b: bool)
        ensures
            b == self.valid(),
    {
        proof {
            self.lemma_period_bounds();
        }
        0 < self.bpm && self.bpm <= PERIOD_NUMERATOR
    }

    /// Seconds per beat; zero where the period is not positive.
    pub fn beat_period_seconds(&self) -> (period: u64)
        ensures
            period == self.spec_period(),
            period <= PERIOD_NUMERATOR,
    {
        proof {
            self.lemma_period_bounds();
        }
        if self.bpm == 0 {
            0
        } else {
            PERIOD_NUMERATOR / self.bpm
        }
    }

    /// Nominal time of beat `beat_index`, in a type wide enough for every
    /// index.
    pub fn beat_time_seconds(&self, beat_index: u64) -> (time: i128)
        ensures
            time == self.spec_beat_time(beat_index as int),
            -self.offset_seconds <= time <= u64::MAX * PERIOD_NUMERATOR - self.offset_seconds,
    {
        let period: i128 = self.beat_period_seconds() as i128;
        let index: i128 = beat_index as i128;
        assert(0 <= index * period <= 0xffff_ffff_ffff_ffff * 60_000_000_000_000) by (nonlinear_arith)
            requires
                0 <= index <= 0xffff_ffff_ffff_ffff,
                0 <= period <= 60_000_000_000_000,
        ;
        index * period - self.offset_seconds as i128
    }

    /// Judges `elapsed_seconds` against the beat grid.
    pub fn judge(&self, elapsed_seconds: i64) -> (judgment: Judgment)
        requires
            self.valid(),
        ensures
            judgment == self.spec_judge(elapsed_seconds as int),
            judgment.beat_index == self.spec_beat_index(elapsed_seconds as int),
            judgment.on_beat == self.spec_on_beat(elapsed_seconds as int),
            judgment.error_seconds == self.spec_error(elapsed_seconds as int),
            -(self.spec_period() / 2) <= judgment.error_seconds <= self.spec_period() / 2,
    {
        let period: i128 = self.beat_period_seconds() as i128;
        let half: i128 = period / 2;
        let x: i128 = elapsed_seconds as i128 + self.offset_seconds as i128;
        proof {
            lemma_mod_bound(x + half, period as int);
            self.lemma_index_bounds(elapsed_seconds as int);
        }
        let phase: i128 = match (x + half).checked_rem_euclid(period) {
            Some(r) => r,
            None => 0,
        };
        let distance: i128 = if phase <= period - phase {
            phase
        } else {
            period - phase
        };
        let on_beat = distance <= self.leniency_seconds as i128;
        let error: i128 = if phase > half {
            -distance
        } else {
            distance
        };
        let beat_index: u64 = if x < 0 {
            0
        } else {
            ((2 * x + period) / (2 * period)) as u64
        };
        Judgment { beat_index, on_beat, error_seconds: error as i64 }
    }

    /// The beat index of an instant is at most its grid time, so it fits
    /// wherever the sum of two signed 64-bit numbers does.
    pub proof fn lemma_index_bounds(self, elapsed: int)
        requires
            self.valid(),
        ensures
            0 <= self.spec_beat_index(elapsed) <= vstd::math::max(0, self.grid_time(elapsed)),
    {
        let p = self.spec_period();
        let x = self.grid_time(elapsed);
        if x >= 0 {
            let q = (2 * x + p) / (2 * p);
            let r = (2 * x + p) % (2 * p);
            lemma_fundamental_div_mod(2 * x + p, 2 * p);
            lemma_mod_bound(2 * x + p, 2 * p);
            assert(0 <= q <= x) by (nonlinear_arith)
                requires
                    p > 0,
                    x >= 0,
                    2 * x + p == (2 * p) * q + r,
                    0 <= r < 2 * p,
            ;
        }
    }
}

} // verus!
