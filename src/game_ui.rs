//! The score and feedback shown to the player.

use vstd::prelude::*;

verus! {

/// The feedback after passing a gate: whether the player chose right,
/// followed by the word and its translation.
pub open spec fn feedback_text(correct: bool, word: Seq<char>, translation: Seq<char>) -> Seq<char> {
    (if correct { "Correct: \""@ } else { "Incorrect: \""@ }) + word + "\" => \""@ + translation
        + "\""@
}

/// The score as a mathematical value.
pub struct ScoreView {
    pub text: Seq<char>,
    pub streak: int,
}

/// The score after one gate is passed: a correct pass extends the streak, an
/// incorrect one resets it, and either way the feedback names the word.
pub open spec fn record_pass(
    score: ScoreView,
    correct: bool,
    word: Seq<char>,
    translation: Seq<char>,
) -> ScoreView {
    ScoreView {
        text: feedback_text(correct, word, translation),
        streak: if correct { score.streak + 1 } else { 0 },
    }
}

/// What the interface displays: the last feedback and the current streak of
/// correct passes.
pub struct UiInterface {
    pub text_output: String,
    pub streak: u32,
}

impl View for UiInterface {
    type V = ScoreView;

    open spec fn view(&self) -> ScoreView {
        ScoreView { text: self.text_output@, streak: self.streak as int }
    }
}

impl UiInterface {
    /// The greeting shown before any gate is passed, with no streak.
    pub fn new() -> (r: UiInterface)
        ensures
            r.text_output@ == "Hello"@,
            r.streak == 0,
    {
        UiInterface { text_output: String::from_str("Hello"), streak: 0 }
    }

    /// Records that a gate for `word` was passed, on the right side or not.
    pub fn record_pass(&mut self, correct: bool, word: &str, translation: &str)
        requires
            old(self).streak < u32::MAX,
        ensures
            final(self)@ == record_pass(old(self)@, correct, word@, translation@),
    {
        self.text_output = feedback(correct, word, translation);
        if correct {
            self.streak = self.streak + 1;
        } else {
            self.streak = 0;
        }
    }
}

/// Builds the feedback text for a passed gate.
pub fn feedback(correct: bool, word: &str, translation: &str) -> (r: String)
    ensures
        r@ == feedback_text(correct, word@, translation@),
{
    let mut text = if correct {
        String::from_str("Correct: \"")
    } else {
        String::from_str("Incorrect: \"")
    };
    text.append(word);
    text.append("\" => \"");
    text.append(translation);
    text.append("\"");
    text
}

} // verus!
