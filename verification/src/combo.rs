//! Dance moves and the combo that a run of on-beat moves builds.
use vstd::prelude::*;
use crate::tracker::PressResult;

verus! {

/// A dance move, one for each key of the game and one for every other key.
#[derive(Debug, Clone, Copy, PartialEq, Eq, Structural)]
pub enum Move {
    Qoogie,
    Woogie,
    Eoogie,
    Roogie,
    Aoogie,
    Soogie,
    Doogie,
    Foogie,
    Shruggie,
}

/// What a beat brought: a move on the beat, a move off it, or nothing.
#[derive(Debug, Clone, Copy, PartialEq, Eq, Structural)]
pub enum BeatEvent {
    On(Move),
    Off(Move),
    Missed,
}

impl Move {
    /// The moves that may follow this one in a combo.
    pub open spec fn spec_combos(self) -> Seq<Move> {
        match self {
            Move::Qoogie => seq![Move::Woogie, Move::Eoogie, Move::Foogie, Move::Aoogie],
            Move::Woogie => seq![Move::Doogie],
            Move::Eoogie => seq![Move::Soogie, Move::Doogie],
            Move::Roogie => seq![Move::Aoogie],
            Move::Aoogie => seq![Move::Qoogie],
            Move::Soogie => seq![Move::Roogie],
            Move::Doogie => seq![Move::Eoogie],
            Move::Foogie => seq![Move::Woogie],
            Move::Shruggie => seq![],
        }
    }

    /// Whether `next` may follow this move in a combo.
    pub open spec fn leads_to(self, next: Move) -> bool {
        self.spec_combos().contains(next)
    }

    /// The move's name.
    pub open spec fn spec_name(self) -> Seq<char> {
        match self {
            Move::Qoogie => "Qoogie"@,
            Move::Woogie => "Woogie"@,
            Move::Eoogie => "Eoogie"@,
            Move::Roogie => "Roogie"@,
            Move::Aoogie => "Aoogie"@,
            Move::Soogie => "Soogie"@,
            Move::Doogie => "Doogie"@,
            Move::Foogie => "Foogie"@,
            Move::Shruggie => "Shruggie"@,
        }
    }

    /// The moves that may follow this one in a combo.
    pub fn get_combos(&self) -> (combos: Vec<Move>)
        ensures
            combos@ == self.spec_combos(),
    {
        let combos = match self {
            Move::Qoogie => vec![Move::Woogie, Move::Eoogie, Move::Foogie, Move::Aoogie],
            Move::Woogie => vec![Move::Doogie],
            Move::Eoogie => vec![Move::Soogie, Move::Doogie],
            Move::Roogie => vec![Move::Aoogie],
            Move::Aoogie => vec![Move::Qoogie],
            Move::Soogie => vec![Move::Roogie],
            Move::Doogie => vec![Move::Eoogie],
            Move::Foogie => vec![Move::Woogie],
            Move::Shruggie => vec![],
        };
        assert(combos@ =~= self.spec_combos());
        combos
    }

    /// Whether `next` may follow this move in a combo.
    pub fn continues_with(&self, next: Move) -> (follows: bool)
        ensures
            follows == self.leads_to(next),
    {
        let combos = self.get_combos();
        let mut i: usize = 0;
        while i < combos.len()
            invariant
                i <= combos.len(),
                combos@ == self.spec_combos(),
                forall|j: int| 0 <= j < i ==> combos@[j] != next,
            decreases combos.len() - i,
        {
            if combos[i] == next {
                return true;
            }
            i += 1;
        }
        false
    }

    /// The move's name.
    pub fn name(&self) -> (name: &'static str)
        ensures
            name@ == self.spec_name(),
    {
        match self {
            Move::Qoogie => "Qoogie",
            Move::Woogie => "Woogie",
            Move::Eoogie => "Eoogie",
            Move::Roogie => "Roogie",
            Move::Aoogie => "Aoogie",
            Move::Soogie => "Soogie",
            Move::Doogie => "Doogie",
            Move::Foogie => "Foogie",
            Move::Shruggie => "Shruggie",
        }
    }
}

/// The event that a judged press of `mv` raises: a press off the beat
/// raises the off-beat event, a press on the beat raises none.
pub fn press_event(press: &PressResult, mv: Move) -> (event: Option<BeatEvent>)
    ensures
        event == if press.judgment.on_beat {
            None
        } else {
            Some(BeatEvent::Off(mv))
        },
{
    if !press.judgment.on_beat {
        Some(BeatEvent::Off(mv))
    } else {
        None
    }
}

/// The combo that is being built.
#[derive(Debug)]
pub struct CurrentCombo {
    pub moves: Vec<Move>,
}

impl CurrentCombo {
    /// Whether `event` breaks a combo of `moves`: every event does but an
    /// on-beat move that starts a combo or may follow its last move.
    pub open spec fn breaks(moves: Seq<Move>, event: BeatEvent) -> bool {
        match event {
            BeatEvent::On(mv) => moves.len() > 0 && !moves.last().leads_to(mv),
            _ => true,
        }
    }

    /// The combo after `event`: empty where the event breaks it, one move
    /// longer otherwise.
    pub open spec fn after(moves: Seq<Move>, event: BeatEvent) -> Seq<Move> {
        match event {
            BeatEvent::On(mv) => if Self::breaks(moves, event) {
                Seq::empty()
            } else {
                moves.push(mv)
            },
            _ => Seq::empty(),
        }
    }

    /// An empty combo.
    pub fn new() -> (combo: CurrentCombo)
        ensures
            combo.moves@ == Seq::<Move>::empty(),
    {
        CurrentCombo { moves: Vec::new() }
    }

    /// Takes `event` into the combo. Where the event breaks the combo, the
    /// moves made so far are handed back and the combo starts over.
    pub fn handle(&mut self, event: BeatEvent) -> (broken: Option<Vec<Move>>)
        ensures
            final(self).moves@ == Self::after(old(self).moves@, event),
            broken.is_some() == Self::breaks(old(self).moves@, event),
            broken matches Some(moves) ==> moves@ == old(self).moves@,
    {
        let extends = match event {
            BeatEvent::On(mv) => {
                let n = self.moves.len();
                n == 0 || self.moves[n - 1].continues_with(mv)
            },
            _ => false,
        };
        if extends {
            if let BeatEvent::On(mv) = event {
                self.moves.push(mv);
            }
            None
        } else {
            let mut broken: Vec<Move> = Vec::new();
            core::mem::swap(&mut self.moves, &mut broken);
            Some(broken)
        }
    }
}

impl Default for CurrentCombo {
    fn default() -> (combo: CurrentCombo)
        ensures
            combo.moves@ == Seq::<Move>::empty(),
    {
        CurrentCombo::new()
    }
}

} // verus!
