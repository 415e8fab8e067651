use rand::rngs::StdRng;
use rand::SeedableRng;
use word_runner::corridor::{Corridor, PassOutcome, SPAWN_DISTANCE_AHEAD};
use word_runner::game_ui::{feedback, UiInterface};
use word_runner::gate::{Gate, GateState, Side};
use word_runner::vocab::{Word, WordList};

fn word(w: &str, t: &str) -> Word {
    Word::new(w.to_string(), t.to_string())
}

fn one_gate(side: Side) -> Corridor {
    let main = word("あ", "a");
    let other = word("い", "i");
    Corridor { gates: vec![Gate::new(0, 250, &main, &other, side)], next_id: 1 }
}

#[test]
fn correct_pass_scores_once_and_never_again() {
    let mut corridor = one_gate(Side::Left);
    let mut ui = UiInterface::new();
    let out = corridor.gate_pass_checker(250, Side::of_lateral(-10), &mut ui);
    assert_eq!(out, vec![PassOutcome { gate_id: 0, correct: true }]);
    assert_eq!(ui.streak, 1);
    assert_eq!(ui.text_output, "Correct: \"あ\" => \"a\"");
    assert_eq!(corridor.gates[0].state, GateState::Passed);

    let again = corridor.gate_pass_checker(300, Side::of_lateral(-10), &mut ui);
    assert!(again.is_empty());
    assert_eq!(ui.streak, 1);
    assert_eq!(ui.text_output, "Correct: \"あ\" => \"a\"");
    assert_eq!(corridor.gates[0].state, GateState::Passed);

    let other_side = corridor.gate_pass_checker(300, Side::Right, &mut ui);
    assert!(other_side.is_empty());
    assert_eq!(ui.streak, 1);
}

#[test]
fn incorrect_pass_resets_streak_and_names_the_word() {
    let mut corridor = one_gate(Side::Right);
    let mut ui = UiInterface::new();
    ui.streak = 5;
    let out = corridor.gate_pass_checker(250, Side::of_lateral(-10), &mut ui);
    assert_eq!(out, vec![PassOutcome { gate_id: 0, correct: false }]);
    assert_eq!(ui.streak, 0);
    assert!(ui.text_output.contains("あ"));
    assert!(ui.text_output.contains("a"));
    assert_eq!(ui.text_output, "Incorrect: \"あ\" => \"a\"");
    assert_eq!(corridor.gates[0].state, GateState::Passed);
}

#[test]
fn gate_ahead_of_player_is_not_passed() {
    let mut corridor = one_gate(Side::Left);
    let mut ui = UiInterface::new();
    let out = corridor.gate_pass_checker(249, Side::Left, &mut ui);
    assert!(out.is_empty());
    assert_eq!(ui.streak, 0);
    assert_eq!(ui.text_output, "Hello");
    assert_eq!(corridor.gates[0].state, GateState::Unpassed);
}

#[test]
fn several_gates_crossed_in_one_check_are_scored_in_order() {
    let (a, b, c) = (word("a", "A"), word("b", "B"), word("c", "C"));
    let mut corridor = Corridor {
        gates: vec![
            Gate::new(0, 10, &a, &b, Side::Left),
            Gate::new(1, 20, &b, &c, Side::Left),
            Gate::new(2, 30, &c, &a, Side::Right),
        ],
        next_id: 3,
    };
    let mut ui = UiInterface::new();
    let out = corridor.gate_pass_checker(25, Side::Left, &mut ui);
    assert_eq!(
        out,
        vec![PassOutcome { gate_id: 0, correct: true }, PassOutcome { gate_id: 1, correct: true }]
    );
    assert_eq!(ui.streak, 2);
    assert_eq!(ui.text_output, "Correct: \"b\" => \"B\"");
    assert_eq!(corridor.gates[2].state, GateState::Unpassed);
}

#[test]
fn gate_signs_follow_the_correct_side() {
    let main = word("か", "ka");
    let other = word("き", "ki");
    let left = Gate::new(4, 100, &main, &other, Side::Left);
    assert_eq!(left.signs.left, "ka");
    assert_eq!(left.signs.center, "か");
    assert_eq!(left.signs.right, "ki");
    assert_eq!(left.word.translation, "ka");
    let right = Gate::new(5, 100, &main, &other, Side::Right);
    assert_eq!(right.signs.left, "ki");
    assert_eq!(right.signs.center, "か");
    assert_eq!(right.signs.right, "ka");
    assert_eq!(right.id, 5);
    assert_eq!(right.position_x, 100);
    assert_eq!(right.state, GateState::Unpassed);
}

fn four_words() -> WordList {
    WordList::new(vec![word("a", "A"), word("b", "B"), word("c", "C"), word("d", "D")])
}

#[test]
fn one_removal_keeps_four_gates_and_places_replacement_ahead() {
    let words = four_words();
    let mut rng = StdRng::seed_from_u64(1);
    let mut corridor = Corridor::new();
    for k in 0..4u64 {
        let main = &words.words[k as usize];
        let other = &words.words[((k + 1) % 4) as usize];
        corridor.spawn_gate(main, other, 250 + k * 250, &mut rng);
    }
    assert_eq!(corridor.gates.len(), 4);

    // 35.1 units: 10.1 past the first gate, which goes.
    let distance = 351;
    let removed = corridor.sign_spawn_manager(distance, &words, &mut rng);
    assert_eq!(removed.len(), 1);
    assert_eq!(removed[0].position_x, 250);
    assert_eq!(removed[0].id, 0);
    assert_eq!(corridor.gates.len(), 4);
    let positions: Vec<u64> = corridor.gates.iter().map(|g| g.position_x).collect();
    assert_eq!(positions, vec![500, 750, 1000, distance + 250 * 3]);
    assert_eq!(SPAWN_DISTANCE_AHEAD, 750);
    let new_gate = &corridor.gates[3];
    assert_eq!(new_gate.id, 4);
    assert_eq!(new_gate.state, GateState::Unpassed);
    assert_eq!(corridor.next_id, 5);
}

#[test]
fn gate_exactly_ten_units_behind_stays() {
    let words = four_words();
    let mut rng = StdRng::seed_from_u64(2);
    let mut corridor = one_gate(Side::Left);
    let removed = corridor.sign_spawn_manager(350, &words, &mut rng);
    assert!(removed.is_empty());
    assert_eq!(corridor.gates.len(), 1);
    assert_eq!(corridor.gates[0].position_x, 250);
}

#[test]
fn gates_removed_together_are_replaced_at_one_position() {
    let words = four_words();
    let mut rng = StdRng::seed_from_u64(4);
    let mut corridor = Corridor::new();
    corridor.spawn_gate(&words.words[0], &words.words[1], 10, &mut rng);
    corridor.spawn_gate(&words.words[1], &words.words[2], 20, &mut rng);
    corridor.spawn_gate(&words.words[2], &words.words[3], 1000, &mut rng);
    let removed = corridor.sign_spawn_manager(500, &words, &mut rng);
    let removed_ids: Vec<u64> = removed.iter().map(|g| g.id).collect();
    assert_eq!(removed_ids, vec![0, 1]);
    let positions: Vec<u64> = corridor.gates.iter().map(|g| g.position_x).collect();
    assert_eq!(positions, vec![1000, 1250, 1250]);
    let ids: Vec<u64> = corridor.gates.iter().map(|g| g.id).collect();
    assert_eq!(ids, vec![2, 3, 4]);
}

#[test]
fn remove_expired_hands_back_gates_left_behind() {
    let words = four_words();
    let mut rng = StdRng::seed_from_u64(6);
    let mut corridor = Corridor::new();
    corridor.spawn_gate(&words.words[0], &words.words[1], 100, &mut rng);
    corridor.spawn_gate(&words.words[1], &words.words[2], 300, &mut rng);
    let removed = corridor.remove_expired(201);
    assert_eq!(removed.len(), 1);
    assert_eq!(removed[0].position_x, 100);
    assert_eq!(corridor.gates.len(), 1);
    assert_eq!(corridor.gates[0].position_x, 300);
    assert_eq!(corridor.next_id, 2);
}

#[test]
fn spawned_gates_show_the_translation_on_their_correct_side() {
    let words = four_words();
    let mut rng = StdRng::seed_from_u64(8);
    let mut corridor = Corridor::start(&words, &mut rng);
    let mut sides = std::collections::HashSet::new();
    for step in 0..40u64 {
        let removed = corridor.sign_spawn_manager(1000 + step * 300, &words, &mut rng);
        let n = corridor.gates.len();
        for g in &corridor.gates[n - removed.len()..] {
            let (correct, wrong) = match g.correct_side {
                Side::Left => (&g.signs.left, &g.signs.right),
                Side::Right => (&g.signs.right, &g.signs.left),
            };
            assert_eq!(correct, &g.word.translation);
            assert_eq!(g.signs.center, g.word.word);
            assert_ne!(wrong, correct);
            assert!(words.words.iter().any(|w| &w.translation == wrong));
            sides.insert(g.correct_side);
        }
    }
    assert_eq!(sides.len(), 2);
}

#[test]
fn start_places_three_gates_twenty_five_units_apart() {
    let words = four_words();
    let mut rng = StdRng::seed_from_u64(10);
    let corridor = Corridor::start(&words, &mut rng);
    let positions: Vec<u64> = corridor.gates.iter().map(|g| g.position_x).collect();
    assert_eq!(positions, vec![250, 500, 750]);
    let ids: Vec<u64> = corridor.gates.iter().map(|g| g.id).collect();
    assert_eq!(ids, vec![0, 1, 2]);
    assert_eq!(corridor.next_id, 3);
    assert!(corridor.gates.iter().all(|g| g.state == GateState::Unpassed));
}

#[test]
fn feedback_texts_are_exact() {
    assert_eq!(feedback(true, "ね", "ne"), "Correct: \"ね\" => \"ne\"");
    assert_eq!(feedback(false, "ね", "ne"), "Incorrect: \"ね\" => \"ne\"");
    let ui = UiInterface::new();
    assert_eq!(ui.text_output, "Hello");
    assert_eq!(ui.streak, 0);
}

#[test]
fn record_pass_updates_streak() {
    let mut ui = UiInterface::new();
    ui.record_pass(true, "a", "A");
    ui.record_pass(true, "b", "B");
    assert_eq!(ui.streak, 2);
    assert_eq!(ui.text_output, "Correct: \"b\" => \"B\"");
    ui.record_pass(false, "c", "C");
    assert_eq!(ui.streak, 0);
    assert_eq!(ui.text_output, "Incorrect: \"c\" => \"C\"");
}
