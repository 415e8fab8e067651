//! Words and the list they are drawn from.

use vstd::prelude::*;
use rand::rngs::StdRng;
use crate::random::{random_distinct_indices, random_index};

verus! {

/// A word together with its translation.
pub struct Word {
    pub word: String,
    pub translation: String,
}

impl Word {
    pub fn new(word: String, translation: String) -> (r: Word)
        ensures
            r.word == word,
            r.translation == translation,
    {
        Word { word, translation }
    }
}

/// The vocabulary: a read-only list of words, loaded once.
pub struct WordList {
    pub words: Vec<Word>,
}

impl WordList {
    pub fn new(words: Vec<Word>) -> (r: WordList)
        ensures
            r.words@ == words@,
    {
        WordList { words }
    }

    pub fn len(&self) -> (r: usize)
        ensures
            r == self.words@.len(),
    {
        self.words.len()
    }

    /// One word drawn uniformly from the list; `None` when the list is empty.
    pub fn random_single<'a>(&'a self, rng: &mut StdRng) -> (r: Option<&'a Word>)
        ensures
            r is None <==> self.words@.len() == 0,
            r matches Some(w) ==> exists|i: int|
                0 <= i < self.words@.len() && *w == #[trigger] self.words@[i],
    {
        if self.words.len() == 0 {
            None
        } else {
            let i = random_index(rng, self.words.len());
            Some(&self.words[i])
        }
    }

    /// Two words drawn without replacement: they stand at different
    /// positions of the list. `None` when the list holds fewer than two.
    pub fn random_pair<'a>(&'a self, rng: &mut StdRng) -> (r: Option<(&'a Word, &'a Word)>)
        ensures
            r is None <==> self.words@.len() < 2,
            r matches Some(p) ==> self.drawn_pair(*p.0, *p.1),
    {
        if self.words.len() < 2 {
            None
        } else {
            let (i, j) = random_distinct_indices(rng, self.words.len());
            Some((&self.words[i], &self.words[j]))
        }
    }

    /// `a` and `b` are the words at two different positions of the list.
    pub open spec fn drawn_pair(&self, a: Word, b: Word) -> bool {
        exists|i: int, j: int|
            0 <= i < self.words@.len() && 0 <= j < self.words@.len() && i != j
                && a == #[trigger] self.words@[i] && b == #[trigger] self.words@[j]
    }
}

} // verus!
