//! One run of the game: the vocabulary, the player's progress, the corridor
//! of gates and the score, advanced together one simulation step at a time.

use vstd::prelude::*;
use rand::rngs::StdRng;
use crate::corridor::{
    checked_gates, pass_outcomes, score_after, Corridor, PassOutcome, SPAWN_DISTANCE_AHEAD,
};
use crate::distance::{DistanceTracker, ADVANCE_AMOUNT_PER_STEP, TENTHS_PER_UNIT};
use crate::game_ui::UiInterface;
use crate::gate::{side_of_lateral, Gate, Side};
use crate::random::seeded_rng;
use crate::vocab::WordList;

verus! {

/// Width of the strip of track that the cursor steers across (8 units).
pub const MOTION_WIDTH: u64 = 8 * TENTHS_PER_UNIT;

/// The lateral position of the player for a cursor at `cursor_x` in a window
/// `window_width` wide: the window spans the strip, centred on the track.
pub fn lateral_from_cursor(cursor_x: u32, window_width: u32) -> (r: i64)
    requires
        window_width > 0,
    ensures
        r == (cursor_x as int * MOTION_WIDTH) / (window_width as int) - MOTION_WIDTH / 2,
{
    let scaled: u64 = (cursor_x as u64) * MOTION_WIDTH;
    let across: u64 = scaled / (window_width as u64);
    assert(across <= scaled) by (nonlinear_arith)
        requires
            across == scaled / (window_width as u64),
            window_width > 0,
    ;
    across as i64 - (MOTION_WIDTH / 2) as i64
}

/// Why a run cannot start.
#[derive(Clone, Copy, Debug, PartialEq, Eq, Structural)]
pub enum ConfigError {
    /// The vocabulary holds fewer than two words, so no gate can be made.
    TooFewWords { count: usize },
}

/// What one step changed, for the presentation to follow.
pub struct StepReport {
    /// The gates crossed in this step and whether each was passed correctly.
    pub passes: Vec<PassOutcome>,
    /// The gates removed in this step; as many new gates now stand at the end
    /// of the corridor.
    pub removed: Vec<Gate>,
}

/// The state of a run.
pub struct Game {
    pub words: WordList,
    pub tracker: DistanceTracker,
    pub corridor: Corridor,
    pub ui: UiInterface,
    pub rng: StdRng,
}

impl Game {
    pub open spec fn wf(&self) -> bool {
        &&& self.words.words@.len() >= 2
        &&& self.corridor.wf()
    }

    /// A step can be taken without any counter running out of range.
    pub open spec fn within_limits(&self) -> bool {
        &&& self.tracker.distance_traveled + ADVANCE_AMOUNT_PER_STEP + SPAWN_DISTANCE_AHEAD <= u64::MAX
        &&& self.corridor.next_id + self.corridor.gates@.len() <= u64::MAX
        &&& self.ui.streak + self.corridor.gates@.len() <= u32::MAX
    }

    /// Starts a run on `words`, with random draws from a generator seeded by
    /// `seed`. Fails when the vocabulary has fewer than two words.
    pub fn new(words: WordList, seed: u64) -> (r: Result<Game, ConfigError>)
        ensures
            r is Err <==> words.words@.len() < 2,
            r matches Err(e) ==> e == (ConfigError::TooFewWords { count: words.words@.len() as usize }),
            r matches Ok(g) ==> {
                &&& g.wf()
                &&& g.words == words
                &&& g.tracker.distance_traveled == 0
                &&& g.ui.text_output@ == "Hello"@
                &&& g.ui.streak == 0
                &&& g.corridor.gates@.len() == crate::corridor::NUMBER_OF_SIGNS - 1
            },
    {
        if words.len() < 2 {
            return Err(ConfigError::TooFewWords { count: words.len() });
        }
        let mut rng = seeded_rng(seed);
        let corridor = Corridor::start(&words, &mut rng);
        Ok(Game { words, tracker: DistanceTracker::new(), corridor, ui: UiInterface::new(), rng })
    }

    /// Whether the next step stays within the counters' range.
    pub fn can_step(&self) -> (r: bool)
        ensures
            r == self.within_limits(),
    {
        self.tracker.distance_traveled <= u64::MAX - ADVANCE_AMOUNT_PER_STEP - SPAWN_DISTANCE_AHEAD
            && self.corridor.gates.len() as u64 <= u64::MAX - self.corridor.next_id
            && self.corridor.gates.len() as u64 <= (u32::MAX - self.ui.streak) as u64
    }

    /// One simulation step with the player at `lateral`: the player moves
    /// forward, the gates it crosses are scored, and the gates it has left
    /// behind are replaced further ahead.
    pub fn step(&mut self, lateral: i64) -> (r: StepReport)
        requires
            old(self).wf(),
            old(self).within_limits(),
        ensures
            final(self).wf(),
            final(self).words == old(self).words,
            final(self).tracker.distance_traveled == old(self).tracker.distance_traveled + ADVANCE_AMOUNT_PER_STEP,
            final(self).ui@ == score_after(
                old(self).ui@,
                old(self).corridor.gates@,
                final(self).tracker.distance_traveled as int,
                side_of_lateral(lateral as int),
            ),
            r.passes@ == pass_outcomes(
                old(self).corridor.gates@,
                final(self).tracker.distance_traveled as int,
                side_of_lateral(lateral as int),
            ),
            final(self).corridor.recycled_from(
                checked_gates(old(self).corridor.gates@, final(self).tracker.distance_traveled as int),
                old(self).corridor.next_id as int,
                r.removed@,
                final(self).tracker.distance_traveled as int,
                old(self).words,
            ),
    {
        self.tracker.advance(ADVANCE_AMOUNT_PER_STEP);
        let distance = self.tracker.distance_traveled;
        let side = Side::of_lateral(lateral);
        let passes = self.corridor.gate_pass_checker(distance, side, &mut self.ui);
        let removed = self.corridor.sign_spawn_manager(distance, &self.words, &mut self.rng);
        StepReport { passes, removed }
    }
}

} // verus!
