//! Gates: checkpoints across the track, each with a word to translate and a
//! side on which the player must pass.

use vstd::prelude::*;
use crate::vocab::Word;

verus! {

/// A lateral half of the track.
#[derive(Clone, Copy, Debug, PartialEq, Eq, Hash, Structural)]
pub enum Side {
    Left,
    Right,
}

impl Side {
    pub open spec fn opposite(self) -> Side {
        match self {
            Side::Left => Side::Right,
            Side::Right => Side::Left,
        }
    }

    /// The side taken by a coin flip: heads is left.
    pub fn from_coin(heads: bool) -> (r: Side)
        ensures
            r == (if heads { Side::Left } else { Side::Right }),
    {
        if heads {
            Side::Left
        } else {
            Side::Right
        }
    }

    /// The half of the track that a lateral position lies in: strictly
    /// positive positions are on the right, the rest on the left.
    pub fn of_lateral(lateral: i64) -> (r: Side)
        ensures
            r == side_of_lateral(lateral as int),
    {
        if lateral > 0 {
            Side::Right
        } else {
            Side::Left
        }
    }
}

pub open spec fn side_of_lateral(lateral: int) -> Side {
    if lateral > 0 {
        Side::Right
    } else {
        Side::Left
    }
}

/// Whether the player has crossed a gate yet. A gate goes from `Unpassed`
/// to `Passed` once and never back.
#[derive(Clone, Copy, Debug, PartialEq, Eq, Structural)]
pub enum GateState {
    Unpassed,
    Passed,
}

/// The three texts a gate shows: a translation on each side, and the word
/// itself in the middle.
pub struct SignTexts {
    pub left: String,
    pub center: String,
    pub right: String,
}

impl SignTexts {
    /// The text shown on the given side.
    pub open spec fn on(self, side: Side) -> Seq<char> {
        match side {
            Side::Left => self.left@,
            Side::Right => self.right@,
        }
    }
}

/// A gate at `position_x` along the track.
pub struct Gate {
    pub id: u64,
    pub position_x: u64,
    pub word: Word,
    pub correct_side: Side,
    pub state: GateState,
    pub signs: SignTexts,
}

impl Gate {
    /// What a gate shows: the word in the middle, its translation on the
    /// correct side, and the translation of `other` on the opposite side.
    pub open spec fn shows(self, main: Word, other: Word) -> bool {
        &&& self.signs.center@ == main.word@
        &&& self.signs.on(self.correct_side) == main.translation@
        &&& self.signs.on(self.correct_side.opposite()) == other.translation@
    }

    /// The sign on the correct side shows the translation of this gate's word,
    /// and the middle sign shows the word.
    pub open spec fn signs_agree(self) -> bool {
        &&& self.signs.center@ == self.word.word@
        &&& self.signs.on(self.correct_side) == self.word.translation@
    }

    /// A new, unpassed gate for the word `main`, with the translation of
    /// `other` as the wrong answer.
    pub fn new(id: u64, position_x: u64, main: &Word, other: &Word, correct_side: Side) -> (r: Gate)
        ensures
            r.id == id,
            r.position_x == position_x,
            r.word == *main,
            r.correct_side == correct_side,
            r.state == GateState::Unpassed,
            r.shows(*main, *other),
            r.signs_agree(),
    {
        let (left, right) = match correct_side {
            Side::Left => (main.translation.clone(), other.translation.clone()),
            Side::Right => (other.translation.clone(), main.translation.clone()),
        };
        let signs = SignTexts { left, center: main.word.clone(), right };
        let word = Word { word: main.word.clone(), translation: main.translation.clone() };
        Gate { id, position_x, word, correct_side, state: GateState::Unpassed, signs }
    }
}

} // verus!
