//! Free functions over a word and its row of display blanks.
//!
//! A blank row mirrors the secret word one token per character: `"_"` while
//! the position is still hidden, the letter itself once it has been guessed.

use vstd::prelude::*;

use crate::text::char_to_string;
use crate::text::str_eq;

verus! {

/// True iff `letter` occurs somewhere in `word`.
pub fn check_letter_in_word(word: &str, letter: char) -> (r: bool)
    ensures
        r == word@.contains(letter),
{
    let len = word.unicode_len();
    let mut i: usize = 0;
    while i < len
        invariant
            len == word@.len(),
            i <= len,
            forall|j: int| 0 <= j < i ==> word@[j] != letter,
        decreases len - i,
    {
        if word.get_char(i) == letter {
            assert(word@.contains(letter));
            return true;
        }
        i += 1;
    }
    assert(!word@.contains(letter));
    false
}

/// A fresh blank row for `word`: one `"_"` token per character, none for the
/// empty word.
pub fn print_blanks(word: &str) -> (r: Vec<String>)
    ensures
        r@.len() == word@.len(),
        forall|j: int| 0 <= j < r@.len() ==> (#[trigger] r@[j])@ == seq!['_'],
{
    let len = word.unicode_len();
    let mut r: Vec<String> = Vec::new();
    let mut i: usize = 0;
    while i < len
        invariant
            len == word@.len(),
            i <= len,
            r@.len() == i,
            forall|j: int| 0 <= j < r@.len() ==> (#[trigger] r@[j])@ == seq!['_'],
        decreases len - i,
    {
        let token = String::from_str("_");
        proof {
            reveal_strlit("_");
            assert(token@ =~= seq!['_']);
        }
        r.push(token);
        i += 1;
    }
    r
}

/// The positions of `word` that hold `letter`, in increasing order; `None`
/// when the letter does not occur.
pub fn char_index(word: &str, letter: char) -> (r: Option<Vec<usize>>)
    ensures
        r is None <==> !word@.contains(letter),
        r matches Some(v) ==> v@.len() > 0,
        r matches Some(v) ==> forall|k: int|
            0 <= k < v@.len() ==> (#[trigger] v@[k]) < word@.len() && word@[v@[k] as int]
                == letter,
        r matches Some(v) ==> forall|k1: int, k2: int| 0 <= k1 < k2 < v@.len() ==> v@[k1] < v@[k2],
        r matches Some(v) ==> forall|p: int|
            0 <= p < word@.len() && word@[p] == letter ==> v@.contains(p as usize),
{
    let len = word.unicode_len();
    let mut v: Vec<usize> = Vec::new();
    let mut i: usize = 0;
    while i < len
        invariant
            len == word@.len(),
            i <= len,
            forall|k: int| 0 <= k < v@.len() ==> (#[trigger] v@[k]) < i,
            forall|k: int| 0 <= k < v@.len() ==> word@[(#[trigger] v@[k]) as int] == letter,
            forall|k1: int, k2: int| 0 <= k1 < k2 < v@.len() ==> v@[k1] < v@[k2],
            forall|j: int|
                0 <= j < i && word@[j] == letter ==> exists|k: int|
                    0 <= k < v@.len() && #[trigger] v@[k] == j,
            v@.len() == 0 ==> forall|j: int| 0 <= j < i ==> word@[j] != letter,
        decreases len - i,
    {
        if word.get_char(i) == letter {
            let ghost before = v@;
            v.push(i);
            proof {
                assert(v@[before.len() as int] == i);
                assert forall|j: int| 0 <= j < i + 1 && word@[j] == letter implies exists|k: int|
                    0 <= k < v@.len() && #[trigger] v@[k] == j by {
                    if j < i {
                        let k = choose|k: int| 0 <= k < before.len() && #[trigger] before[k] == j;
                        assert(v@[k] == j);
                    } else {
                        assert(v@[before.len() as int] == j);
                    }
                }
            }
        }
        i += 1;
    }
    if v.len() == 0 {
        proof {
            assert(!word@.contains(letter));
        }
        None
    } else {
        proof {
            let k0 = 0int;
            assert(word@[v@[k0] as int] == letter);
            assert(word@.contains(letter));
            assert forall|p: int| 0 <= p < word@.len() && word@[p] == letter implies v@.contains(
                p as usize,
            ) by {
                let k = choose|k: int| 0 <= k < v@.len() && #[trigger] v@[k] == p;
                assert(v@[k] == p as usize);
            }
        }
        Some(v)
    }
}

/// Write `letter` into the blank row at each of the given positions; a
/// position beyond the row and a missing position list change nothing.
pub fn update_blanks(blanks: &mut Vec<String>, letter: char, indexes: Option<Vec<usize>>)
    ensures
        final(blanks)@.len() == old(blanks)@.len(),
        indexes is None ==> final(blanks)@ == old(blanks)@,
        indexes matches Some(v) ==> forall|j: int|
            0 <= j < old(blanks)@.len() && v@.contains(j as usize)
                ==> (#[trigger] final(blanks)@[j])@ == seq![letter],
        indexes matches Some(v) ==> forall|j: int|
            0 <= j < old(blanks)@.len() && !v@.contains(j as usize)
                ==> #[trigger] final(blanks)@[j] == old(blanks)@[j],
{
    let ghost blanks0 = blanks@;
    if let Some(index_list) = indexes {
        let n = index_list.len();
        let mut k: usize = 0;
        while k < n
            invariant
                n == index_list@.len(),
                k <= n,
                blanks@.len() == blanks0.len(),
                forall|j: int|
                    0 <= j < blanks@.len() && !index_list@.subrange(0, k as int).contains(j as usize)
                        ==> #[trigger] blanks@[j] == blanks0[j],
                forall|j: int|
                    0 <= j < blanks@.len() && index_list@.subrange(0, k as int).contains(j as usize)
                        ==> (#[trigger] blanks@[j])@ == seq![letter],
            decreases n - k,
        {
            let idx = index_list[k];
            let ghost before = blanks@;
            if idx < blanks.len() {
                let token = char_to_string(letter);
                blanks.set(idx, token);
            }
            proof {
                let pre = index_list@.subrange(0, k as int);
                let cur = index_list@.subrange(0, k + 1);
                assert(cur.drop_last() =~= pre);
                assert(cur.last() == index_list@[k as int]);
                assert forall|u: usize| cur.contains(u) implies (pre.contains(u) || u
                    == index_list@[k as int]) by {
                    let x = choose|x: int| 0 <= x < cur.len() && cur[x] == u;
                    if x < pre.len() {
                        assert(pre[x] == u);
                    }
                }
                assert forall|u: usize| pre.contains(u) implies cur.contains(u) by {
                    let x = choose|x: int| 0 <= x < pre.len() && pre[x] == u;
                    assert(cur[x] == u);
                }
                assert(cur.contains(index_list@[k as int])) by {
                    assert(cur[k as int] == index_list@[k as int]);
                }
                assert forall|j: int|
                    0 <= j < blanks@.len() && !cur.contains(j as usize) implies #[trigger] blanks@[j]
                    == blanks0[j] by {
                    if j != idx as int {
                        assert(blanks@[j] == before[j]);
                    }
                }
                assert forall|j: int|
                    0 <= j < blanks@.len() && cur.contains(j as usize) implies (
                #[trigger] blanks@[j])@ == seq![letter] by {
                    if j != idx as int {
                        assert(blanks@[j] == before[j]);
                    }
                }
            }
            k += 1;
        }
        proof {
            assert(index_list@.subrange(0, n as int) =~= index_list@);
        }
    }
}

/// True iff no `"_"` token remains in the blank row.
pub fn check_win(blanks: &Vec<String>) -> (r: bool)
    ensures
        r == (forall|j: int| 0 <= j < blanks@.len() ==> (#[trigger] blanks@[j])@ != seq!['_']),
{
    let len = blanks.len();
    let mut i: usize = 0;
    while i < len
        invariant
            len == blanks@.len(),
            i <= len,
            forall|j: int| 0 <= j < i ==> (#[trigger] blanks@[j])@ != seq!['_'],
        decreases len - i,
    {
        proof {
            reveal_strlit("_");
        }
        if str_eq(blanks[i].as_str(), "_") {
            proof {
                assert(blanks@[i as int]@ =~= seq!['_']);
            }
            return false;
        }
        proof {
            assert(blanks@[i as int]@ != seq!['_']) by {
                if blanks@[i as int]@ == seq!['_'] {
                    assert(blanks@[i as int]@ =~= "_"@);
                }
            }
        }
        i += 1;
    }
    true
}

} // verus!
