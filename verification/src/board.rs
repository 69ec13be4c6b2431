//! The per-round board: one cell per character of the secret word, each cell
//! hidden until the matching letter is guessed.

use vstd::prelude::*;

use crate::text::char_to_string;

verus! {

/// One position of the board: still hidden, or revealed as the letter it holds.
#[derive(Clone, Copy, PartialEq, Eq, Structural, Debug)]
pub enum Cell {
    Hidden,
    Revealed(char),
}

/// How many positions of `s` hold the character `c`.
pub open spec fn count_matches(s: Seq<char>, c: char) -> nat
    decreases s.len(),
{
    if s.len() == 0 {
        0
    } else {
        count_matches(s.drop_last(), c) + if s.last() == c {
            1nat
        } else {
            0nat
        }
    }
}

/// No position of `s` holds `c` exactly when the match count is zero.
pub proof fn lemma_count_matches_zero(s: Seq<char>, c: char)
    ensures
        count_matches(s, c) == 0 <==> !s.contains(c),
    decreases s.len(),
{
    if s.len() > 0 {
        lemma_count_matches_zero(s.drop_last(), c);
        if s.contains(c) {
            let i = choose|i: int| 0 <= i < s.len() && s[i] == c;
            if i < s.len() - 1 {
                assert(s.drop_last().contains(c)) by {
                    assert(s.drop_last()[i] == c);
                }
            }
        } else {
            assert(!s.drop_last().contains(c)) by {
                if s.drop_last().contains(c) {
                    let i = choose|i: int| 0 <= i < s.len() - 1 && s.drop_last()[i] == c;
                    assert(s[i] == c);
                }
            }
        }
    }
}

/// The projection of the secret word into hidden and revealed cells.
pub struct BlankBoard {
    word: Vec<char>,
    cells: Vec<Cell>,
}

impl BlankBoard {
    /// The secret word, one character per cell.
    pub closed spec fn word_view(&self) -> Seq<char> {
        self.word@
    }

    /// The current row of cells.
    pub closed spec fn cells_view(&self) -> Seq<Cell> {
        self.cells@
    }

    /// The cell at position `i` has been revealed.
    pub open spec fn revealed_at(&self, i: int) -> bool {
        self.cells_view()[i] is Revealed
    }

    /// Well-formedness: one cell per character, and a revealed cell holds
    /// exactly the character of the word at its position.
    pub open spec fn wf(&self) -> bool {
        &&& self.cells_view().len() == self.word_view().len()
        &&& forall|i: int|
            0 <= i < self.cells_view().len() ==> (#[trigger] self.cells_view()[i] matches
                Cell::Revealed(c) ==> c == self.word_view()[i])
    }

    /// Every cell has been revealed. An empty board is solved outright.
    pub open spec fn solved_spec(&self) -> bool {
        forall|i: int| 0 <= i < self.cells_view().len() ==> #[trigger] self.revealed_at(i)
    }

    /// How one reveal of `letter` rewrites the cells: every position whose
    /// word character is `letter` becomes revealed, all others are unchanged.
    pub open spec fn reveal_cells(cells: Seq<Cell>, word: Seq<char>, letter: char) -> Seq<Cell> {
        Seq::new(
            cells.len(),
            |i: int|
                if word[i] == letter {
                    Cell::Revealed(letter)
                } else {
                    cells[i]
                },
        )
    }

    /// The display row: `'_'` for a hidden cell, the letter for a revealed one.
    pub open spec fn render_spec(&self) -> Seq<char> {
        Seq::new(
            self.cells_view().len(),
            |i: int|
                match self.cells_view()[i] {
                    Cell::Hidden => '_',
                    Cell::Revealed(c) => c,
                },
        )
    }

    /// A fresh board for `word`: every cell hidden. An empty word gives an
    /// empty board, which counts as solved before any guess.
    pub fn new(word: &str) -> (b: BlankBoard)
        ensures
            b.wf(),
            b.word_view() == word@,
            b.cells_view().len() == word@.len(),
            forall|i: int| 0 <= i < b.cells_view().len() ==> b.cells_view()[i] == Cell::Hidden,
    {
        let len = word.unicode_len();
        let mut chars: Vec<char> = Vec::new();
        let mut cells: Vec<Cell> = Vec::new();
        let mut i: usize = 0;
        while i < len
            invariant
                len == word@.len(),
                i <= len,
                chars@.len() == i,
                cells@.len() == i,
                forall|j: int| 0 <= j < i ==> chars@[j] == word@[j],
                forall|j: int| 0 <= j < i ==> cells@[j] == Cell::Hidden,
            decreases len - i,
        {
            chars.push(word.get_char(i));
            cells.push(Cell::Hidden);
            i += 1;
        }
        proof {
            assert(chars@ =~= word@);
        }
        BlankBoard { word: chars, cells }
    }

    /// Reveal every cell whose character is `letter` and report how many
    /// positions of the word hold that letter. A letter that does not occur
    /// reveals nothing and reports zero: the caller's signal of a wrong guess.
    pub fn reveal_letter(&mut self, letter: char) -> (count: usize)
        requires
            old(self).wf(),
        ensures
            final(self).wf(),
            final(self).word_view() == old(self).word_view(),
            final(self).cells_view() == Self::reveal_cells(
                old(self).cells_view(),
                old(self).word_view(),
                letter,
            ),
            count as nat == count_matches(old(self).word_view(), letter),
            count == 0 <==> !old(self).word_view().contains(letter),
            !old(self).word_view().contains(letter) ==> final(self).cells_view() == old(
                self,
            ).cells_view(),
            forall|i: int|
                0 <= i < old(self).cells_view().len() && old(self).revealed_at(i)
                    ==> final(self).revealed_at(i),
    {
        let ghost word0 = self.word@;
        let ghost cells0 = self.cells@;
        let len = self.word.len();
        let mut count: usize = 0;
        let mut i: usize = 0;
        while i < len
            invariant
                self.word@ == word0,
                self.wf(),
                len == word0.len(),
                i <= len,
                count <= i,
                count as nat == count_matches(word0.subrange(0, i as int), letter),
                self.cells@.len() == cells0.len(),
                forall|j: int|
                    0 <= j < len ==> #[trigger] self.cells@[j] == (if j < i && word0[j]
                        == letter {
                        Cell::Revealed(letter)
                    } else {
                        cells0[j]
                    }),
            decreases len - i,
        {
            proof {
                assert(word0.subrange(0, i + 1).drop_last() =~= word0.subrange(0, i as int));
                assert(word0.subrange(0, i + 1).last() == word0[i as int]);
            }
            let c = self.word[i];
            if c == letter {
                self.cells.set(i, Cell::Revealed(letter));
                count += 1;
            }
            i += 1;
        }
        proof {
            assert(word0.subrange(0, len as int) =~= word0);
            assert(self.cells@ =~= Self::reveal_cells(cells0, word0, letter));
            lemma_count_matches_zero(word0, letter);
            if !word0.contains(letter) {
                assert(self.cells@ =~= cells0);
            }
        }
        count
    }

    /// True iff no cell remains hidden.
    pub fn is_solved(&self) -> (r: bool)
        ensures
            r == self.solved_spec(),
    {
        let len = self.cells.len();
        let mut i: usize = 0;
        while i < len
            invariant
                len == self.cells@.len(),
                i <= len,
                forall|j: int| 0 <= j < i ==> #[trigger] self.revealed_at(j),
            decreases len - i,
        {
            if let Cell::Hidden = self.cells[i] {
                assert(!self.revealed_at(i as int));
                return false;
            }
            i += 1;
        }
        true
    }

    /// The display row as characters, in the order of the word.
    pub fn render(&self) -> (r: Vec<char>)
        ensures
            r@ == self.render_spec(),
    {
        let len = self.cells.len();
        let mut r: Vec<char> = Vec::new();
        let mut i: usize = 0;
        while i < len
            invariant
                len == self.cells@.len(),
                i <= len,
                r@.len() == i,
                forall|j: int| 0 <= j < i ==> r@[j] == self.render_spec()[j],
            decreases len - i,
        {
            match self.cells[i] {
                Cell::Hidden => r.push('_'),
                Cell::Revealed(c) => r.push(c),
            }
            i += 1;
        }
        proof {
            assert(r@ =~= self.render_spec());
        }
        r
    }

    /// The characters of the secret word, for display once the round ends.
    pub fn word_chars(&self) -> (r: &Vec<char>)
        ensures
            r@ == self.word_view(),
    {
        &self.word
    }

    /// The secret word as a string.
    pub fn word_string(&self) -> (r: String)
        ensures
            r@ == self.word_view(),
    {
        let len = self.word.len();
        let mut r = String::new();
        let mut i: usize = 0;
        while i < len
            invariant
                len == self.word@.len(),
                i <= len,
                r@ =~= self.word@.subrange(0, i as int),
            decreases len - i,
        {
            let cs = char_to_string(self.word[i]);
            r.append(cs.as_str());
            proof {
                assert(r@ =~= self.word@.subrange(0, i + 1));
            }
            i += 1;
        }
        proof {
            assert(self.word@.subrange(0, len as int) =~= self.word@);
        }
        r
    }
}

/// Law: rendering a fully revealed board reproduces the secret word exactly,
/// character for character.
pub proof fn lemma_render_solved(b: &BlankBoard)
    requires
        b.wf(),
        b.solved_spec(),
    ensures
        b.render_spec() == b.word_view(),
{
    assert forall|i: int| 0 <= i < b.render_spec().len() implies b.render_spec()[i]
        == b.word_view()[i] by {
        assert(b.revealed_at(i));
    }
    assert(b.render_spec() =~= b.word_view());
}

} // verus!
