//! The round state machine: one play-through from a drawn word to a win or a
//! loss, applying guesses to the board, the tracker and the lives counter.

use vstd::prelude::*;

use crate::board::BlankBoard;
use crate::tracker::GuessTracker;

verus! {

/// Lives a round starts with. A wrong guess with no life left loses the
/// round; the life check happens before the decrement, so a player in fact
/// gets one more wrong guess than this counter shows.
pub const STARTING_LIVES: usize = 6;

/// Where the round stands.
#[derive(Clone, Copy, PartialEq, Eq, Structural, Debug)]
pub enum RoundState {
    InProgress,
    Won,
    Lost,
}

/// What one guess did to the round.
#[derive(Clone, Copy, PartialEq, Eq, Structural, Debug)]
pub enum GuessOutcome {
    /// The letter was attempted before; nothing changed.
    Duplicate,
    /// The letter occurs in the word and revealed cells; the round goes on.
    Correct,
    /// The letter revealed the last hidden cells; the round is won.
    Won,
    /// The letter does not occur in the word; one life was spent.
    Wrong,
    /// The letter does not occur and no life was left; the round is lost.
    Lost,
}

/// The terminal outcome of a round, carrying the secret word.
#[derive(Debug, PartialEq, Eq)]
pub enum RoundResult {
    Win(String),
    Loss(String),
}

/// One round of the game: the board, the attempted letters, and the lives
/// left, together with the terminal state once it is reached.
pub struct RoundEngine {
    board: BlankBoard,
    tracker: GuessTracker,
    lives: usize,
    state: RoundState,
}

impl RoundEngine {
    /// The board of this round.
    pub closed spec fn board_spec(&self) -> BlankBoard {
        self.board
    }

    /// The secret word of this round.
    pub open spec fn word(&self) -> Seq<char> {
        self.board_spec().word_view()
    }

    /// The letters attempted so far.
    pub closed spec fn guessed(&self) -> Set<char> {
        self.tracker@
    }

    /// The lives left.
    pub closed spec fn lives_view(&self) -> int {
        self.lives as int
    }

    /// Where the round stands.
    pub closed spec fn state_view(&self) -> RoundState {
        self.state
    }

    /// Well-formedness: the board is sound, the lives counter stays in range,
    /// a cell is revealed exactly when its letter has been attempted, and a
    /// won round has a solved board.
    pub open spec fn wf(&self) -> bool {
        &&& self.board_spec().wf()
        &&& 0 <= self.lives_view() <= STARTING_LIVES
        &&& forall|i: int|
            0 <= i < self.word().len() ==> (#[trigger] self.board_spec().revealed_at(i)
                <==> self.guessed().contains(self.word()[i]))
        &&& (self.state_view() is Won ==> self.board_spec().solved_spec())
    }

    /// A fresh round for `word`: every cell hidden, no letter attempted,
    /// all lives available.
    pub fn start(word: &str) -> (e: RoundEngine)
        ensures
            e.wf(),
            e.word() == word@,
            e.guessed() == Set::<char>::empty(),
            e.lives_view() == STARTING_LIVES as int,
            e.state_view() == RoundState::InProgress,
            forall|i: int| 0 <= i < e.word().len() ==> !(#[trigger] e.board_spec().revealed_at(i)),
    {
        let board = BlankBoard::new(word);
        let tracker = GuessTracker::new();
        let e = RoundEngine { board, tracker, lives: STARTING_LIVES, state: RoundState::InProgress };
        proof {
            assert forall|i: int| 0 <= i < e.word().len() implies !(#[trigger] e.board_spec()
                .revealed_at(i)) by {
                assert(e.board_spec().cells_view()[i] == crate::board::Cell::Hidden);
            }
        }
        e
    }

    /// Apply one guess to a round in progress.
    ///
    /// A letter already attempted is reported as a duplicate and changes
    /// nothing. A fresh letter is recorded; if it occurs in the word the
    /// matching cells are revealed and the round is won once no cell stays
    /// hidden, the lives untouched. If it does not occur, the round is lost
    /// when no life was left before this guess; otherwise one life is spent
    /// and the round goes on.
    pub fn guess(&mut self, g: char) -> (r: GuessOutcome)
        requires
            old(self).wf(),
            old(self).state_view() == RoundState::InProgress,
        ensures
            final(self).wf(),
            final(self).word() == old(self).word(),
            old(self).guessed().contains(g) ==> {
                &&& r == GuessOutcome::Duplicate
                &&& final(self).guessed() == old(self).guessed()
                &&& final(self).lives_view() == old(self).lives_view()
                &&& final(self).board_spec() == old(self).board_spec()
                &&& final(self).state_view() == old(self).state_view()
            },
            !old(self).guessed().contains(g) ==> final(self).guessed() == old(self).guessed().insert(g),
            (!old(self).guessed().contains(g) && old(self).word().contains(g)) ==> {
                &&& final(self).lives_view() == old(self).lives_view()
                &&& final(self).board_spec().cells_view() == BlankBoard::reveal_cells(
                    old(self).board_spec().cells_view(),
                    old(self).word(),
                    g,
                )
                &&& (final(self).board_spec().solved_spec() ==> r == GuessOutcome::Won && final(self).state_view() == RoundState::Won)
                &&& (!final(self).board_spec().solved_spec() ==> r == GuessOutcome::Correct
                    && final(self).state_view() == RoundState::InProgress)
            },
            (!old(self).guessed().contains(g) && !old(self).word().contains(g)) ==> {
                &&& final(self).board_spec().cells_view() == old(self).board_spec().cells_view()
                &&& (old(self).lives_view() == 0 ==> r == GuessOutcome::Lost && final(self).state_view() == RoundState::Lost && final(self).lives_view() == 0)
                &&& (old(self).lives_view() > 0 ==> r == GuessOutcome::Wrong && final(self).state_view() == RoundState::InProgress && final(self).lives_view() == old(self).lives_view() - 1)
            },
    {
        if self.tracker.has_guessed(g) {
            return GuessOutcome::Duplicate;
        }
        self.tracker.record(g);
        let count = self.board.reveal_letter(g);
        let r: GuessOutcome;
        if count > 0 {
            if self.board.is_solved() {
                self.state = RoundState::Won;
                r = GuessOutcome::Won;
            } else {
                r = GuessOutcome::Correct;
            }
        } else {
            if self.lives == 0 {
                self.state = RoundState::Lost;
                r = GuessOutcome::Lost;
            } else {
                self.lives = self.lives - 1;
                r = GuessOutcome::Wrong;
            }
        }
        proof {
            self.lemma_sync_after_reveal(old(self), g);
        }
        r
    }

    /// The lives left, for display.
    pub fn lives(&self) -> (r: usize)
        ensures
            r as int == self.lives_view(),
    {
        self.lives
    }

    /// Where the round stands.
    pub fn state(&self) -> (r: RoundState)
        ensures
            r == self.state_view(),
    {
        self.state
    }

    /// The board, for rendering.
    pub fn board(&self) -> (r: &BlankBoard)
        ensures
            *r == self.board_spec(),
    {
        &self.board
    }

    /// The terminal outcome: the won or lost word once the round has ended,
    /// nothing while it is in progress.
    pub fn result(&self) -> (r: Option<RoundResult>)
        ensures
            r is Some <==> !(self.state_view() is InProgress),
            self.state_view() is Won ==> (r matches Some(RoundResult::Win(w)) && w@
                == self.word()),
            self.state_view() is Lost ==> (r matches Some(RoundResult::Loss(w)) && w@
                == self.word()),
    {
        match self.state {
            RoundState::InProgress => None,
            RoundState::Won => Some(RoundResult::Win(self.board.word_string())),
            RoundState::Lost => Some(RoundResult::Loss(self.board.word_string())),
        }
    }

    /// The tracker of attempted letters, for display.
    pub fn picked(&self) -> (r: &GuessTracker)
        ensures
            r@ == self.guessed(),
    {
        &self.tracker
    }

    /// After a fresh letter is recorded and revealed, each cell is revealed
    /// exactly when its letter has been attempted.
    proof fn lemma_sync_after_reveal(&self, prev: &RoundEngine, g: char)
        requires
            prev.wf(),
            self.board_spec().wf(),
            self.word() == prev.word(),
            self.guessed() == prev.guessed().insert(g),
            self.board_spec().cells_view() == BlankBoard::reveal_cells(
                prev.board_spec().cells_view(),
                prev.word(),
                g,
            ),
        ensures
            forall|i: int|
                0 <= i < self.word().len() ==> (#[trigger] self.board_spec().revealed_at(i)
                    <==> self.guessed().contains(self.word()[i])),
    {
        assert forall|i: int| 0 <= i < self.word().len() implies (#[trigger] self.board_spec()
            .revealed_at(i) <==> self.guessed().contains(self.word()[i])) by {
            if self.word()[i] == g {
                assert(self.board_spec().cells_view()[i] == crate::board::Cell::Revealed(g));
            } else {
                assert(self.board_spec().cells_view()[i] == prev.board_spec().cells_view()[i]);
                assert(prev.board_spec().revealed_at(i) <==> prev.guessed().contains(
                    prev.word()[i],
                ));
            }
        }
    }
}

/// Law: the board of a well-formed round is solved exactly when every letter
/// of the secret word has been attempted — in whatever order the distinct
/// letters are guessed, the board becomes solved at the last of them and not
/// before.
pub proof fn lemma_solved_iff_all_letters_guessed(e: &RoundEngine)
    requires
        e.wf(),
    ensures
        e.board_spec().solved_spec() <==> (forall|i: int|
            0 <= i < e.word().len() ==> e.guessed().contains(#[trigger] e.word()[i])),
{
    if e.board_spec().solved_spec() {
        assert forall|i: int| 0 <= i < e.word().len() implies e.guessed().contains(
            #[trigger] e.word()[i],
        ) by {
            assert(e.board_spec().revealed_at(i));
        }
    }
    if forall|i: int| 0 <= i < e.word().len() ==> e.guessed().contains(#[trigger] e.word()[i]) {
        assert forall|i: int|
            0 <= i < e.board_spec().cells_view().len() implies #[trigger] e.board_spec()
            .revealed_at(i) by {
            assert(e.guessed().contains(e.word()[i]));
        }
    }
}

} // verus!
