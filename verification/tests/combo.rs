use beat_timing::combo::press_event;
use beat_timing::BeatConfig;
use beat_timing::BeatEvent;
use beat_timing::BeatTracker;
use beat_timing::CurrentCombo;
use beat_timing::Move;

const ALL: [Move; 9] = [
    Move::Qoogie,
    Move::Woogie,
    Move::Eoogie,
    Move::Roogie,
    Move::Aoogie,
    Move::Soogie,
    Move::Doogie,
    Move::Foogie,
    Move::Shruggie,
];

#[test]
fn each_move_lists_its_followers() {
    assert_eq!(
        Move::Qoogie.get_combos(),
        vec![Move::Woogie, Move::Eoogie, Move::Foogie, Move::Aoogie]
    );
    assert_eq!(Move::Woogie.get_combos(), vec![Move::Doogie]);
    assert_eq!(Move::Eoogie.get_combos(), vec![Move::Soogie, Move::Doogie]);
    assert_eq!(Move::Roogie.get_combos(), vec![Move::Aoogie]);
    assert_eq!(Move::Aoogie.get_combos(), vec![Move::Qoogie]);
    assert_eq!(Move::Soogie.get_combos(), vec![Move::Roogie]);
    assert_eq!(Move::Doogie.get_combos(), vec![Move::Eoogie]);
    assert_eq!(Move::Foogie.get_combos(), vec![Move::Woogie]);
    assert!(Move::Shruggie.get_combos().is_empty());
}

#[test]
fn continues_with_agrees_with_the_list() {
    for a in ALL {
        for b in ALL {
            assert_eq!(a.continues_with(b), a.get_combos().contains(&b));
        }
    }
}

#[test]
fn moves_are_named() {
    let names: Vec<&str> = ALL.iter().map(|m| m.name()).collect();
    assert_eq!(
        names,
        vec![
            "Qoogie", "Woogie", "Eoogie", "Roogie", "Aoogie", "Soogie", "Doogie", "Foogie",
            "Shruggie"
        ]
    );
}

#[test]
fn combo_grows_along_followers() {
    let mut combo = CurrentCombo::new();
    assert!(combo.handle(BeatEvent::On(Move::Qoogie)).is_none());
    assert!(combo.handle(BeatEvent::On(Move::Eoogie)).is_none());
    assert!(combo.handle(BeatEvent::On(Move::Doogie)).is_none());
    assert_eq!(combo.moves, vec![Move::Qoogie, Move::Eoogie, Move::Doogie]);
}

#[test]
fn combo_breaks_on_a_move_that_does_not_follow() {
    let mut combo = CurrentCombo::new();
    assert!(combo.handle(BeatEvent::On(Move::Woogie)).is_none());
    let broken = combo.handle(BeatEvent::On(Move::Qoogie));
    assert_eq!(broken, Some(vec![Move::Woogie]));
    assert!(combo.moves.is_empty());
    assert!(combo.handle(BeatEvent::On(Move::Shruggie)).is_none());
    assert_eq!(
        combo.handle(BeatEvent::On(Move::Shruggie)),
        Some(vec![Move::Shruggie])
    );
}

#[test]
fn combo_breaks_on_an_off_beat_move_and_on_a_miss() {
    let mut combo = CurrentCombo::default();
    assert_eq!(combo.handle(BeatEvent::Missed), Some(vec![]));
    assert!(combo.handle(BeatEvent::On(Move::Aoogie)).is_none());
    assert!(combo.handle(BeatEvent::On(Move::Qoogie)).is_none());
    assert_eq!(
        combo.handle(BeatEvent::Off(Move::Woogie)),
        Some(vec![Move::Aoogie, Move::Qoogie])
    );
    assert!(combo.moves.is_empty());
    assert!(combo.handle(BeatEvent::On(Move::Foogie)).is_none());
    assert_eq!(combo.handle(BeatEvent::Missed), Some(vec![Move::Foogie]));
}

#[test]
fn only_an_off_beat_press_raises_an_event() {
    let mut tracker = BeatTracker::new(BeatConfig {
        bpm: 120_000_000,
        offset_seconds: 0,
        leniency_seconds: 50_000,
        grace_beats: 0,
    });
    let on = tracker.register_press(250_000);
    assert_eq!(press_event(&on, Move::Qoogie), None);
    let duplicate = tracker.register_press(250_000);
    assert_eq!(press_event(&duplicate, Move::Qoogie), None);
    let off = tracker.register_press(400_000);
    assert_eq!(press_event(&off, Move::Woogie), Some(BeatEvent::Off(Move::Woogie)));
}
