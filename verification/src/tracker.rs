//! The letters a player has already attempted during the current round.

use vstd::prelude::*;

use crate::blanks::check_letter_in_word;

verus! {

/// The set of letters attempted so far this round. It only grows within a
/// round; a new round starts from an empty tracker.
pub struct GuessTracker {
    letters: Vec<char>,
}

impl View for GuessTracker {
    type V = Set<char>;

    closed spec fn view(&self) -> Set<char> {
        self.letters@.to_set()
    }
}

impl GuessTracker {
    /// An empty tracker for a fresh round.
    pub fn new() -> (t: GuessTracker)
        ensures
            t@ == Set::<char>::empty(),
    {
        let t = GuessTracker { letters: Vec::new() };
        proof {
            assert(t@ =~= Set::<char>::empty());
        }
        t
    }

    /// True iff `letter` was already attempted this round.
    pub fn has_guessed(&self, letter: char) -> (r: bool)
        ensures
            r == self@.contains(letter),
    {
        let len = self.letters.len();
        let mut i: usize = 0;
        while i < len
            invariant
                len == self.letters@.len(),
                i <= len,
                forall|j: int| 0 <= j < i ==> self.letters@[j] != letter,
            decreases len - i,
        {
            if self.letters[i] == letter {
                proof {
                    assert(self.letters@.contains(letter));
                }
                return true;
            }
            i += 1;
        }
        proof {
            assert(!self.letters@.contains(letter));
        }
        false
    }

    /// Record an attempt. Recording a letter a second time changes nothing.
    pub fn record(&mut self, letter: char)
        ensures
            final(self)@ == old(self)@.insert(letter),
    {
        let already = self.has_guessed(letter);
        if !already {
            let ghost before = self.letters@;
            self.letters.push(letter);
            proof {
                assert forall|c: char|
                    self.letters@.to_set().contains(c) <==> before.to_set().insert(
                        letter,
                    ).contains(c) by {
                    if c == letter {
                        assert(self.letters@[before.len() as int] == letter);
                    } else {
                        if before.contains(c) {
                            let j = choose|j: int| 0 <= j < before.len() && before[j] == c;
                            assert(self.letters@[j] == c);
                        }
                        if self.letters@.contains(c) {
                            let j = choose|j: int|
                                0 <= j < self.letters@.len() && self.letters@[j] == c;
                            assert(before[j] == c);
                        }
                    }
                }
                assert(self.letters@.to_set() =~= before.to_set().insert(letter));
            }
        } else {
            proof {
                assert(self@ =~= old(self)@.insert(letter));
            }
        }
    }

    /// The attempted letters in the order they were first tried, for display.
    pub fn letters(&self) -> (r: &Vec<char>)
        ensures
            r@.to_set() == self@,
    {
        &self.letters
    }

    /// Whether guessing `letter` would be correct for `word`: a membership
    /// test against the secret word alone, independent of the tracker.
    pub fn contains_correct(word: &str, letter: char) -> (r: bool)
        ensures
            r == word@.contains(letter),
    {
        check_letter_in_word(word, letter)
    }
}

/// True iff `letter` was already attempted according to `picked`.
pub fn check_if_letter_is_picked(picked: &GuessTracker, letter: char) -> (r: bool)
    ensures
        r == picked@.contains(letter),
{
    picked.has_guessed(letter)
}

} // verus!
