//! The corridor of gates ahead of the player: which gates the player has
//! just crossed, and which have fallen behind and are replaced further ahead.

use vstd::prelude::*;
use rand::rngs::StdRng;
use crate::distance::TENTHS_PER_UNIT;
use crate::game_ui::{record_pass, ScoreView, UiInterface};
use crate::gate::{Gate, GateState, Side};
use crate::random::coin_flip;
use crate::vocab::{Word, WordList};

verus! {

/// Distance between consecutive gates (25 units).
pub const SIGN_SPACING_DISTANCE: u64 = 25 * TENTHS_PER_UNIT;

/// Size of the window of gates that the corridor keeps track of.
pub const NUMBER_OF_SIGNS: u64 = 4;

/// Position of the first gate at the start (25 units).
pub const FIRST_SIGN_DISTANCE: u64 = 25 * TENTHS_PER_UNIT;

/// How far the player must be past a gate before it is removed (10 units).
pub const DESPAWN_DISTANCE_BEHIND: u64 = 10 * TENTHS_PER_UNIT;

/// How far ahead of the player a replacement gate is placed: at the far edge
/// of the window.
pub const SPAWN_DISTANCE_AHEAD: u64 = SIGN_SPACING_DISTANCE * (NUMBER_OF_SIGNS - 1);

/// The outcome of crossing one gate.
#[derive(Clone, Copy, Debug, PartialEq, Eq, Structural)]
pub struct PassOutcome {
    pub gate_id: u64,
    pub correct: bool,
}

/// The player, at `distance`, is far enough past gate `g` for it to go.
pub open spec fn expired(g: Gate, distance: int) -> bool {
    distance - g.position_x > DESPAWN_DISTANCE_BEHIND
}

/// The gates that stay at `distance`, in their order.
pub open spec fn kept_gates(gates: Seq<Gate>, distance: int) -> Seq<Gate>
    decreases gates.len(),
{
    if gates.len() == 0 {
        seq![]
    } else {
        let rest = kept_gates(gates.drop_last(), distance);
        if expired(gates.last(), distance) {
            rest
        } else {
            rest.push(gates.last())
        }
    }
}

/// The gates that go at `distance`, in their order.
pub open spec fn expired_gates(gates: Seq<Gate>, distance: int) -> Seq<Gate>
    decreases gates.len(),
{
    if gates.len() == 0 {
        seq![]
    } else {
        let rest = expired_gates(gates.drop_last(), distance);
        if expired(gates.last(), distance) {
            rest.push(gates.last())
        } else {
            rest
        }
    }
}

/// The player, at `distance`, crosses this gate now: it has not been passed
/// and its position has been reached.
pub open spec fn crosses(g: Gate, distance: int) -> bool {
    g.state == GateState::Unpassed && distance >= g.position_x
}

/// Gate `g` after a check at `distance`.
pub open spec fn after_check(g: Gate, distance: int) -> Gate {
    if crosses(g, distance) {
        Gate { state: GateState::Passed, ..g }
    } else {
        g
    }
}

/// All gates after a check at `distance`.
pub open spec fn checked_gates(gates: Seq<Gate>, distance: int) -> Seq<Gate> {
    gates.map_values(|g: Gate| after_check(g, distance))
}

/// The score after a check at `distance` with the player on `side`: the
/// gates crossed now are recorded in their order.
pub open spec fn score_after(score: ScoreView, gates: Seq<Gate>, distance: int, side: Side) -> ScoreView
    decreases gates.len(),
{
    if gates.len() == 0 {
        score
    } else {
        let before = score_after(score, gates.drop_last(), distance, side);
        let g = gates.last();
        if crosses(g, distance) {
            record_pass(before, g.correct_side == side, g.word.word@, g.word.translation@)
        } else {
            before
        }
    }
}

/// The outcomes of a check at `distance` with the player on `side`, one for
/// each gate crossed now, in their order.
pub open spec fn pass_outcomes(gates: Seq<Gate>, distance: int, side: Side) -> Seq<PassOutcome>
    decreases gates.len(),
{
    if gates.len() == 0 {
        seq![]
    } else {
        let before = pass_outcomes(gates.drop_last(), distance, side);
        let g = gates.last();
        if crosses(g, distance) {
            before.push(PassOutcome { gate_id: g.id, correct: g.correct_side == side })
        } else {
            before
        }
    }
}

/// Gates in order of strictly increasing identifiers below `next_id`, each
/// showing its translation on its correct side.
pub open spec fn gates_wf(gates: Seq<Gate>, next_id: int) -> bool {
    &&& forall|i: int| 0 <= i < gates.len() ==> (#[trigger] gates[i]).signs_agree()
    &&& forall|i: int| 0 <= i < gates.len() ==> (#[trigger] gates[i]).id < next_id
    &&& forall|i: int, j: int| 0 <= i < j < gates.len() ==> (#[trigger] gates[i]).id < (#[trigger] gates[j]).id
}

/// Gate `g` was made from two words drawn from `words`.
pub open spec fn drawn_from(g: Gate, words: WordList) -> bool {
    exists|main: Word, other: Word|
        #[trigger] words.drawn_pair(main, other) && g.word == main && g.shows(main, other)
}

/// A gate placed by the spawn manager: fresh, unpassed, with words drawn from
/// the list.
pub open spec fn spawned(g: Gate, id: int, position_x: int, words: WordList) -> bool {
    &&& g.id == id
    &&& g.position_x == position_x
    &&& g.state == GateState::Unpassed
    &&& drawn_from(g, words)
}

/// The gates that the player has yet to reach or has not yet left behind.
pub struct Corridor {
    pub gates: Vec<Gate>,
    /// The identifier of the next gate to be placed.
    pub next_id: u64,
}

impl Corridor {
    pub open spec fn wf(&self) -> bool {
        gates_wf(self.gates@, self.next_id as int)
    }

    /// After the spawn manager ran at `distance`, starting from `gates` and
    /// `next_id`: the gates that stay keep their order and come first, and
    /// each removed gate has a replacement at the far edge of the window.
    pub open spec fn recycled_from(
        &self,
        gates: Seq<Gate>,
        next_id: int,
        removed: Seq<Gate>,
        distance: int,
        words: WordList,
    ) -> bool {
        let kept = kept_gates(gates, distance);
        &&& removed == expired_gates(gates, distance)
        &&& self.gates@.len() == gates.len()
        &&& self.gates@.subrange(0, kept.len() as int) == kept
        &&& forall|k: int|
            kept.len() <= k < gates.len() ==> spawned(
                #[trigger] self.gates@[k],
                next_id + k - kept.len(),
                distance + SPAWN_DISTANCE_AHEAD,
                words,
            )
        &&& self.next_id == next_id + removed.len()
    }

    /// A corridor with no gates.
    pub fn new() -> (r: Corridor)
        ensures
            r.gates@.len() == 0,
            r.next_id == 0,
            r.wf(),
    {
        Corridor { gates: Vec::new(), next_id: 0 }
    }

    /// Places a new gate at `position_x` for the word `main`, with `other` as
    /// the wrong answer; a coin flip picks its correct side.
    pub fn spawn_gate(&mut self, main: &Word, other: &Word, position_x: u64, rng: &mut StdRng)
        requires
            old(self).wf(),
            old(self).next_id < u64::MAX,
        ensures
            final(self).wf(),
            final(self).next_id == old(self).next_id + 1,
            final(self).gates@.len() == old(self).gates@.len() + 1,
            final(self).gates@.drop_last() == old(self).gates@,
            final(self).gates@.last().id == old(self).next_id,
            final(self).gates@.last().position_x == position_x,
            final(self).gates@.last().state == GateState::Unpassed,
            final(self).gates@.last().word == *main,
            final(self).gates@.last().shows(*main, *other),
    {
        let side = Side::from_coin(coin_flip(rng));
        let gate = Gate::new(self.next_id, position_x, main, other, side);
        self.gates.push(gate);
        self.next_id = self.next_id + 1;
        assert(self.gates@.drop_last() =~= old(self).gates@);
    }

    /// Checks every gate against the player's position: each gate that is
    /// crossed now is marked passed, and the outcome, correct when the player
    /// is on that gate's correct side, is recorded in `ui`. Gates already
    /// passed are left as they are.
    pub fn gate_pass_checker(&mut self, distance: u64, side: Side, ui: &mut UiInterface) -> (r: Vec<PassOutcome>)
        requires
            old(self).wf(),
            old(ui).streak + old(self).gates@.len() <= u32::MAX,
        ensures
            final(self).wf(),
            final(self).next_id == old(self).next_id,
            final(self).gates@ == checked_gates(old(self).gates@, distance as int),
            final(ui)@ == score_after(old(ui)@, old(self).gates@, distance as int, side),
            r@ == pass_outcomes(old(self).gates@, distance as int, side),
    {
        let ghost gates0 = self.gates@;
        let ghost score0 = ui@;
        let mut outcomes: Vec<PassOutcome> = Vec::new();
        let n = self.gates.len();
        let mut i: usize = 0;
        while i < n
            invariant
                0 <= i <= n,
                n == gates0.len(),
                self.next_id == old(self).next_id,
                gates_wf(gates0, self.next_id as int),
                self.gates@.len() == n,
                forall|k: int| 0 <= k < i ==> self.gates@[k] == after_check(#[trigger] gates0[k], distance as int),
                forall|k: int| i <= k < n ==> self.gates@[k] == gates0[k],
                ui@ == score_after(score0, gates0.take(i as int), distance as int, side),
                ui.streak <= score0.streak + i,
                score0.streak + n <= u32::MAX,
                outcomes@ == pass_outcomes(gates0.take(i as int), distance as int, side),
            decreases n - i,
        {
            proof {
                assert(gates0.take(i + 1).drop_last() =~= gates0.take(i as int));
            }
            let unpassed = match self.gates[i].state {
                GateState::Unpassed => true,
                GateState::Passed => false,
            };
            if unpassed && distance >= self.gates[i].position_x {
                let correct = self.gates[i].correct_side == side;
                ui.record_pass(correct, self.gates[i].word.word.as_str(), self.gates[i].word.translation.as_str());
                outcomes.push(PassOutcome { gate_id: self.gates[i].id, correct });
                self.gates[i].state = GateState::Passed;
            }
            i = i + 1;
        }
        proof {
            assert(gates0.take(n as int) =~= gates0);
            assert(self.gates@ =~= checked_gates(gates0, distance as int));
        }
        outcomes
    }

    /// Removes the gates that the player at `distance` has left more than
    /// `DESPAWN_DISTANCE_BEHIND` behind, and hands them back in their order.
    pub fn remove_expired(&mut self, distance: u64) -> (r: Vec<Gate>)
        requires
            old(self).wf(),
        ensures
            final(self).wf(),
            final(self).next_id == old(self).next_id,
            final(self).gates@ == kept_gates(old(self).gates@, distance as int),
            r@ == expired_gates(old(self).gates@, distance as int),
    {
        let ghost gates0 = self.gates@;
        let mut removed: Vec<Gate> = Vec::new();
        let mut i: usize = 0;
        let ghost mut j: int = 0;
        while i < self.gates.len()
            invariant
                0 <= j <= gates0.len(),
                self.next_id == old(self).next_id,
                gates_wf(gates0, self.next_id as int),
                self.gates@ == kept_gates(gates0.take(j), distance as int) + gates0.skip(j),
                i == kept_gates(gates0.take(j), distance as int).len(),
                removed@ == expired_gates(gates0.take(j), distance as int),
            decreases self.gates@.len() - i,
        {
            proof {
                assert(gates0.take(j + 1).drop_last() =~= gates0.take(j));
                assert(self.gates@[i as int] == gates0[j]);
            }
            let position_x = self.gates[i].position_x;
            if distance > position_x && distance - position_x > DESPAWN_DISTANCE_BEHIND {
                let gate = self.gates.remove(i);
                removed.push(gate);
                proof {
                    assert(self.gates@ =~= kept_gates(gates0.take(j + 1), distance as int) + gates0.skip(j + 1));
                }
            } else {
                i = i + 1;
                proof {
                    assert(self.gates@ =~= kept_gates(gates0.take(j + 1), distance as int) + gates0.skip(j + 1));
                }
            }
            proof {
                j = j + 1;
            }
        }
        proof {
            assert(gates0.take(j) =~= gates0);
            assert(self.gates@ =~= kept_gates(gates0, distance as int));
            lemma_kept_gates_wf(gates0, distance as int, self.next_id as int);
        }
        removed
    }

    /// Recycles the gates at `distance`: each gate left behind is removed and
    /// replaced by one new gate at the far edge of the window, on two words
    /// drawn from `words`. The removed gates are handed back in their order.
    /// Gates removed in the same step all get their replacement at the same
    /// position.
    pub fn sign_spawn_manager(&mut self, distance: u64, words: &WordList, rng: &mut StdRng) -> (r: Vec<Gate>)
        requires
            old(self).wf(),
            words.words@.len() >= 2,
            old(self).next_id + old(self).gates@.len() <= u64::MAX,
            distance + SPAWN_DISTANCE_AHEAD <= u64::MAX,
        ensures
            final(self).wf(),
            final(self).recycled_from(old(self).gates@, old(self).next_id as int, r@, distance as int, *words),
    {
        let ghost gates0 = self.gates@;
        let ghost next0 = self.next_id as int;
        let removed = self.remove_expired(distance);
        let ghost kept = self.gates@;
        proof {
            lemma_partition_len(gates0, distance as int);
        }
        let spawn_distance = distance + SPAWN_DISTANCE_AHEAD;
        let mut k: usize = 0;
        while k < removed.len()
            invariant
                self.wf(),
                words.words@.len() >= 2,
                0 <= k <= removed@.len(),
                kept.len() + removed@.len() == gates0.len(),
                next0 + gates0.len() <= u64::MAX,
                self.next_id == next0 + k,
                self.gates@.len() == kept.len() + k,
                self.gates@.subrange(0, kept.len() as int) == kept,
                forall|m: int|
                    kept.len() <= m < kept.len() + k ==> spawned(
                        #[trigger] self.gates@[m],
                        next0 + m - kept.len(),
                        spawn_distance as int,
                        *words,
                    ),
            decreases removed@.len() - k,
        {
            if let Some((main, other)) = words.random_pair(rng) {
                let ghost before = self.gates@;
                self.spawn_gate(main, other, spawn_distance, rng);
                proof {
                    assert(words.drawn_pair(*main, *other));
                    assert(self.gates@.subrange(0, kept.len() as int) =~= before.subrange(0, kept.len() as int));
                    assert forall|m: int| kept.len() <= m < kept.len() + k + 1 implies spawned(
                        #[trigger] self.gates@[m],
                        next0 + m - kept.len(),
                        spawn_distance as int,
                        *words,
                    ) by {
                        if m < kept.len() + k {
                            assert(self.gates@[m] == before[m]);
                        }
                    }
                }
            }
            k = k + 1;
        }
        removed
    }

    /// The corridor at the start of a run: `NUMBER_OF_SIGNS - 1` gates, the
    /// first at `FIRST_SIGN_DISTANCE` and the others `SIGN_SPACING_DISTANCE`
    /// apart, on words drawn from `words`.
    pub fn start(words: &WordList, rng: &mut StdRng) -> (r: Corridor)
        requires
            words.words@.len() >= 2,
        ensures
            r.wf(),
            r.gates@.len() == NUMBER_OF_SIGNS - 1,
            r.next_id == NUMBER_OF_SIGNS - 1,
            forall|k: int|
                0 <= k < r.gates@.len() ==> spawned(
                    #[trigger] r.gates@[k],
                    k,
                    FIRST_SIGN_DISTANCE + k * SIGN_SPACING_DISTANCE,
                    *words,
                ),
    {
        let mut corridor = Corridor::new();
        let mut i: u64 = 0;
        while i < NUMBER_OF_SIGNS - 1
            invariant
                corridor.wf(),
                words.words@.len() >= 2,
                0 <= i <= NUMBER_OF_SIGNS - 1,
                corridor.next_id == i,
                corridor.gates@.len() == i,
                forall|k: int|
                    0 <= k < i ==> spawned(
                        #[trigger] corridor.gates@[k],
                        k,
                        FIRST_SIGN_DISTANCE + k * SIGN_SPACING_DISTANCE,
                        *words,
                    ),
            decreases NUMBER_OF_SIGNS - 1 - i,
        {
            if let Some((main, other)) = words.random_pair(rng) {
                let ghost before = corridor.gates@;
                corridor.spawn_gate(main, other, FIRST_SIGN_DISTANCE + i * SIGN_SPACING_DISTANCE, rng);
                proof {
                    assert(words.drawn_pair(*main, *other));
                    assert forall|k: int| 0 <= k < i + 1 implies spawned(
                        #[trigger] corridor.gates@[k],
                        k,
                        FIRST_SIGN_DISTANCE + k * SIGN_SPACING_DISTANCE,
                        *words,
                    ) by {
                        if k < i {
                            assert(corridor.gates@[k] == before[k]);
                        }
                    }
                }
            }
            i = i + 1;
        }
        corridor
    }
}

/// Every gate either stays or goes.
proof fn lemma_partition_len(gates: Seq<Gate>, distance: int)
    ensures
        kept_gates(gates, distance).len() + expired_gates(gates, distance).len() == gates.len(),
    decreases gates.len(),
{
    if gates.len() > 0 {
        lemma_partition_len(gates.drop_last(), distance);
    }
}

/// Every gate that stays is one of the gates before.
proof fn lemma_kept_gates_in(gates: Seq<Gate>, distance: int)
    ensures
        forall|k: int| 0 <= k < kept_gates(gates, distance).len() ==>
            gates.contains(#[trigger] kept_gates(gates, distance)[k]),
    decreases gates.len(),
{
    if gates.len() > 0 {
        let rest = gates.drop_last();
        lemma_kept_gates_in(rest, distance);
        assert forall|k: int| 0 <= k < kept_gates(gates, distance).len() implies
            gates.contains(#[trigger] kept_gates(gates, distance)[k]) by {
            if k < kept_gates(rest, distance).len() {
                let x = kept_gates(rest, distance)[k];
                let m = choose|m: int| 0 <= m < rest.len() && rest[m] == x;
                assert(gates[m] == x);
            } else {
                assert(gates[gates.len() - 1] == gates.last());
            }
        }
    }
}

/// Removing gates keeps the corridor well formed.
proof fn lemma_kept_gates_wf(gates: Seq<Gate>, distance: int, next_id: int)
    requires
        gates_wf(gates, next_id),
    ensures
        gates_wf(kept_gates(gates, distance), next_id),
    decreases gates.len(),
{
    lemma_kept_gates_in(gates, distance);
    if gates.len() > 0 {
        let rest = gates.drop_last();
        lemma_kept_gates_wf(rest, distance, next_id);
        lemma_kept_gates_in(rest, distance);
        let kept = kept_gates(rest, distance);
        assert forall|k: int| 0 <= k < kept.len() implies (#[trigger] kept[k]).id < gates.last().id by {
            let m = choose|m: int| 0 <= m < rest.len() && rest[m] == kept[k];
            assert(gates[m] == kept[k]);
            assert(gates[gates.len() - 1] == gates.last());
        }
        assert(gates[gates.len() - 1] == gates.last());
    }
}

/// A check is idempotent: checking again at the same distance, wherever the
/// player now is, passes no gate, leaves the gates as they are, and changes
/// neither the streak nor the feedback.
pub proof fn lemma_check_is_idempotent(gates: Seq<Gate>, distance: int, side: Side, score: ScoreView)
    ensures
        checked_gates(checked_gates(gates, distance), distance) == checked_gates(gates, distance),
        score_after(score, checked_gates(gates, distance), distance, side) == score,
        pass_outcomes(checked_gates(gates, distance), distance, side) == Seq::<PassOutcome>::empty(),
{
    let once = checked_gates(gates, distance);
    assert forall|i: int| 0 <= i < once.len() implies !crosses(#[trigger] once[i], distance) by {}
    lemma_no_crossing_is_inert(once, distance, side, score);
}

/// Passing is one-way: a passed gate stays passed at every later check, and
/// gates that are all passed are never scored again, at any distance.
pub proof fn lemma_passed_gates_are_inert(gates: Seq<Gate>, distance: int, side: Side, score: ScoreView)
    requires
        forall|i: int| 0 <= i < gates.len() ==> (#[trigger] gates[i]).state == GateState::Passed,
    ensures
        checked_gates(gates, distance) == gates,
        score_after(score, gates, distance, side) == score,
        pass_outcomes(gates, distance, side) == Seq::<PassOutcome>::empty(),
{
    lemma_no_crossing_is_inert(gates, distance, side, score);
}

/// A check leaves no gate within reach unpassed.
pub proof fn lemma_check_passes_reached_gates(gates: Seq<Gate>, distance: int)
    ensures
        forall|i: int|
            0 <= i < gates.len() && (#[trigger] gates[i]).position_x <= distance
                ==> checked_gates(gates, distance)[i].state == GateState::Passed,
        forall|i: int|
            0 <= i < gates.len() && (#[trigger] gates[i]).state == GateState::Passed
                ==> checked_gates(gates, distance)[i] == gates[i],
{
}

proof fn lemma_no_crossing_is_inert(gates: Seq<Gate>, distance: int, side: Side, score: ScoreView)
    requires
        forall|i: int| 0 <= i < gates.len() ==> !crosses(#[trigger] gates[i], distance),
    ensures
        checked_gates(gates, distance) == gates,
        score_after(score, gates, distance, side) == score,
        pass_outcomes(gates, distance, side) == Seq::<PassOutcome>::empty(),
    decreases gates.len(),
{
    assert(checked_gates(gates, distance) =~= gates);
    if gates.len() > 0 {
        let rest = gates.drop_last();
        assert forall|i: int| 0 <= i < rest.len() implies !crosses(#[trigger] rest[i], distance) by {
            assert(rest[i] == gates[i]);
        }
        lemma_no_crossing_is_inert(rest, distance, side, score);
        assert(gates.last() == gates[gates.len() - 1]);
    }
}

/// Every gate of a well-formed corridor shows, on its correct side, the
/// translation of the very word that its pass is scored on, and shows that
/// word in the middle.
pub proof fn lemma_correct_side_shows_translation(corridor: Corridor, i: int)
    requires
        corridor.wf(),
        0 <= i < corridor.gates@.len(),
    ensures
        corridor.gates@[i].signs.on(corridor.gates@[i].correct_side) == corridor.gates@[i].word.translation@,
        corridor.gates@[i].signs.center@ == corridor.gates@[i].word.word@,
{
}

/// A gate placed by the spawn manager shows the translation of its word on
/// its correct side and the translation of a different word of the list on
/// the other side.
pub proof fn lemma_spawned_gate_shows_drawn_pair(g: Gate, id: int, position_x: int, words: WordList)
    requires
        spawned(g, id, position_x, words),
    ensures
        exists|other: Word|
            #[trigger] words.drawn_pair(g.word, other)
                && g.signs.on(g.correct_side) == g.word.translation@
                && g.signs.on(g.correct_side.opposite()) == other.translation@,
{
    let (main, other) = choose|main: Word, other: Word|
        #[trigger] words.drawn_pair(main, other) && g.word == main && g.shows(main, other);
    assert(words.drawn_pair(g.word, other));
}

} // verus!
