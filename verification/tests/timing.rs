use beat_timing::config::PERIOD_NUMERATOR;
use beat_timing::BeatConfig;
use beat_timing::Judgment;

fn config(offset_seconds: i64) -> BeatConfig {
    BeatConfig {
        bpm: 120_000_000,
        offset_seconds,
        leniency_seconds: 50_000,
        grace_beats: 0,
    }
}

#[test]
fn period_is_sixty_over_tempo() {
    assert_eq!(config(0).beat_period_seconds(), 500_000);
    let mut c = config(0);
    c.bpm = 132_000_000;
    assert_eq!(c.beat_period_seconds(), 454_545);
    c.bpm = 1;
    assert_eq!(c.beat_period_seconds(), PERIOD_NUMERATOR);
    c.bpm = PERIOD_NUMERATOR;
    assert_eq!(c.beat_period_seconds(), 1);
}

#[test]
fn period_is_zero_for_a_degenerate_tempo() {
    let mut c = config(0);
    c.bpm = 0;
    assert_eq!(c.beat_period_seconds(), 0);
    assert!(!c.is_valid());
    c.bpm = PERIOD_NUMERATOR + 1;
    assert_eq!(c.beat_period_seconds(), 0);
    assert!(!c.is_valid());
    assert!(config(0).is_valid());
}

#[test]
fn beat_time_is_index_times_period_less_offset() {
    assert_eq!(config(0).beat_time_seconds(0), 0);
    assert_eq!(config(0).beat_time_seconds(3), 1_500_000);
    assert_eq!(config(40_000).beat_time_seconds(2), 960_000);
    assert_eq!(config(-40_000).beat_time_seconds(0), 40_000);
    let far = config(0).beat_time_seconds(u64::MAX);
    assert_eq!(far, (u64::MAX as i128) * 500_000);
}

#[test]
fn judge_on_a_grid_line_is_half_a_period_from_the_window_edge() {
    let c = config(0);
    assert_eq!(
        c.judge(500_000),
        Judgment { beat_index: 1, on_beat: false, error_seconds: 250_000 }
    );
    assert_eq!(
        c.judge(520_000),
        Judgment { beat_index: 1, on_beat: false, error_seconds: -230_000 }
    );
    assert_eq!(
        c.judge(600_000),
        Judgment { beat_index: 1, on_beat: false, error_seconds: -150_000 }
    );
}

#[test]
fn judge_with_the_window_edge_on_the_instant() {
    let c = config(-250_000);
    assert_eq!(
        c.judge(500_000),
        Judgment { beat_index: 1, on_beat: true, error_seconds: 0 }
    );
    assert_eq!(
        c.judge(520_000),
        Judgment { beat_index: 1, on_beat: true, error_seconds: 20_000 }
    );
    assert_eq!(
        c.judge(600_000),
        Judgment { beat_index: 1, on_beat: false, error_seconds: 100_000 }
    );
}

#[test]
fn judge_at_the_leniency_boundary() {
    let c = config(0);
    assert!(c.judge(300_000).on_beat);
    assert_eq!(c.judge(300_000).error_seconds, 50_000);
    assert!(!c.judge(300_001).on_beat);
    assert!(c.judge(200_000).on_beat);
    assert_eq!(c.judge(200_000).error_seconds, -50_000);
    assert!(!c.judge(199_999).on_beat);
}

#[test]
fn judge_before_grid_time_zero() {
    let c = config(0);
    assert_eq!(
        c.judge(-100_000),
        Judgment { beat_index: 0, on_beat: false, error_seconds: 150_000 }
    );
    assert_eq!(
        c.judge(-300_000),
        Judgment { beat_index: 0, on_beat: true, error_seconds: -50_000 }
    );
    assert_eq!(c.judge(-5_000_000).beat_index, 0);
}

#[test]
fn beat_index_rounds_ties_to_the_later_beat() {
    let c = config(0);
    assert_eq!(c.judge(249_999).beat_index, 0);
    assert_eq!(c.judge(250_000).beat_index, 1);
    assert_eq!(c.judge(749_999).beat_index, 1);
    assert_eq!(c.judge(750_000).beat_index, 2);
}

#[test]
fn beat_index_with_an_odd_period() {
    let mut c = config(0);
    c.bpm = 132_000_000;
    assert_eq!(c.judge(227_272).beat_index, 0);
    assert_eq!(c.judge(227_273).beat_index, 1);
    assert_eq!(c.judge(227_272).error_seconds, -1);
    assert_eq!(c.judge(227_273).error_seconds, 0);
    assert_eq!(c.judge(227_274).error_seconds, 1);
}

#[test]
fn error_never_exceeds_half_a_period() {
    let c = config(17_000);
    let mut t: i64 = -3_000_000;
    while t < 3_000_000 {
        let j = c.judge(t);
        assert!(j.error_seconds >= -250_000 && j.error_seconds <= 250_000);
        t += 7_919;
    }
}

#[test]
fn nominal_time_of_a_beat_is_judged_as_that_beat() {
    for offset in [0i64, 40_000, -40_000] {
        let c = config(offset);
        for k in [0u64, 1, 2, 7, 1000, 123_456] {
            let t = c.beat_time_seconds(k) as i64;
            let j = c.judge(t);
            assert_eq!(j.beat_index, k);
            assert_eq!(j.error_seconds, 250_000);
            assert!(!j.on_beat);
        }
    }
}

#[test]
fn nominal_time_is_on_beat_where_half_a_period_is_nothing() {
    let c = BeatConfig {
        bpm: PERIOD_NUMERATOR,
        offset_seconds: 0,
        leniency_seconds: 0,
        grace_beats: 0,
    };
    for k in [0u64, 1, 99] {
        let j = c.judge(c.beat_time_seconds(k) as i64);
        assert_eq!(j, Judgment { beat_index: k, on_beat: true, error_seconds: 0 });
    }
}

#[test]
fn judge_at_the_ends_of_the_clock() {
    let c = config(i64::MAX);
    let j = c.judge(i64::MAX);
    assert_eq!(j.beat_index, 36_893_488_147_419);
    let c = config(i64::MIN);
    assert_eq!(c.judge(i64::MIN).beat_index, 0);
}
