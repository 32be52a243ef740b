//! Beat-timing judgment on a fixed-point clock.
//!
//! `config` holds the session parameters and the arithmetic that maps an
//! instant to its nearest beat and its timing error. `tracker` holds the
//! state machine that lets one on-beat press through per beat and reports
//! the beats that went by unpressed. `combo` holds the dance moves that the
//! judged presses stand for and the combo they build. `laws` states what
//! holds of all of it on every input.
use vstd::prelude::*;

pub mod combo;
pub mod config;
pub mod laws;
pub mod tracker;

pub use combo::BeatEvent;
pub use combo::CurrentCombo;
pub use combo::Move;
pub use config::BeatConfig;
pub use config::Judgment;
pub use tracker::BeatTracker;
pub use tracker::MissedBeat;
pub use tracker::PressAccept;
pub use tracker::PressResult;
pub use tracker::TrackerState;
