//! The word bank: categories of candidate secret words, loaded once from a
//! headered, comma-delimited text resource and then only read.

use vstd::prelude::*;

use rand::RngExt;

use crate::text::first_index_of;
use crate::text::find_char;
use crate::text::lemma_first_index_of;
use crate::text::lower_seq;
use crate::text::str_eq;
use crate::text::to_lower;
use crate::text::trim;
use crate::text::trim_spec;

verus! {

/// A load failure: some non-header, non-blank line has no category separator.
#[derive(Clone, Copy, PartialEq, Eq, Structural, Debug)]
pub enum LoadError {
    MalformedLine,
}

/// A sampling failure: the requested category is not in the bank.
#[derive(Clone, Copy, PartialEq, Eq, Structural, Debug)]
pub enum SampleError {
    UnknownCategory,
}

/// One category with its words.
#[derive(Debug)]
struct Entry {
    name: String,
    words: Vec<String>,
}

/// A mapping from category name to a non-empty list of words, in the order
/// the categories first appeared in the resource.
#[derive(Debug)]
pub struct WordBank {
    entries: Vec<Entry>,
}

/// One parsed data line: the trimmed category and the trimmed, lowercased
/// word, split at the first comma; nothing when the line has no comma.
pub open spec fn split_line(l: Seq<char>) -> Option<(Seq<char>, Seq<char>)> {
    match first_index_of(l, ',') {
        Some(i) => Some(
            (trim_spec(l.subrange(0, i)), lower_seq(trim_spec(l.subrange(i + 1, l.len() as int)))),
        ),
        None => None,
    }
}

/// Insert one parsed pair into the bank model: append the word to its
/// category when the category exists, else append a fresh category.
pub open spec fn insert_word(
    m: Seq<(Seq<char>, Seq<Seq<char>>)>,
    c: Seq<char>,
    w: Seq<char>,
) -> Seq<(Seq<char>, Seq<Seq<char>>)> {
    if exists|i: int| 0 <= i < m.len() && (#[trigger] m[i]).0 == c {
        let i = choose|i: int| 0 <= i < m.len() && (#[trigger] m[i]).0 == c;
        m.update(i, (c, m[i].1.push(w)))
    } else {
        m.push((c, seq![w]))
    }
}

/// The bank model built from the lines starting at `k`, on top of `acc`:
/// blank lines are skipped, and a line without a comma fails the whole load.
pub open spec fn load_model_from(
    lines: Seq<Seq<char>>,
    k: int,
    acc: Seq<(Seq<char>, Seq<Seq<char>>)>,
) -> Option<Seq<(Seq<char>, Seq<Seq<char>>)>>
    decreases lines.len() - k,
{
    if k < 0 || k >= lines.len() {
        Some(acc)
    } else if trim_spec(lines[k]).len() == 0 {
        load_model_from(lines, k + 1, acc)
    } else {
        match split_line(lines[k]) {
            Some(cw) => load_model_from(lines, k + 1, insert_word(acc, cw.0, cw.1)),
            None => None,
        }
    }
}

/// The bank model of a whole resource: the first line is a discarded header,
/// whatever it holds.
pub open spec fn load_model(lines: Seq<Seq<char>>) -> Option<Seq<(Seq<char>, Seq<Seq<char>>)>> {
    load_model_from(lines, 1, Seq::empty())
}

impl WordBank {
    /// The bank as a sequence of (category, words) pairs, in first-appearance
    /// order.
    pub closed spec fn model(&self) -> Seq<(Seq<char>, Seq<Seq<char>>)> {
        self.entries@.map(|i: int, e: Entry| (e.name@, e.words.deep_view()))
    }

    /// Well-formedness: category names are unique and every category holds at
    /// least one word.
    pub open spec fn wf(&self) -> bool {
        &&& forall|i: int, j: int|
            0 <= i < j < self.model().len() ==> (#[trigger] self.model()[i]).0 != (
            #[trigger] self.model()[j]).0
        &&& forall|i: int| 0 <= i < self.model().len() ==> (#[trigger] self.model()[i]).1.len() > 0
    }

    /// The bank knows the category `c`.
    pub open spec fn has_category(&self, c: Seq<char>) -> bool {
        exists|i: int| 0 <= i < self.model().len() && (#[trigger] self.model()[i]).0 == c
    }

    /// The position of category `c` in the bank.
    pub open spec fn cat_idx(&self, c: Seq<char>) -> int {
        choose|i: int| 0 <= i < self.model().len() && (#[trigger] self.model()[i]).0 == c
    }

    /// The words registered under category `c`.
    pub open spec fn words_of(&self, c: Seq<char>) -> Seq<Seq<char>> {
        self.model()[self.cat_idx(c)].1
    }

    /// The position of the entry whose name is `name`, if any.
    fn find_category_index(&self, name: &str) -> (r: Option<usize>)
        ensures
            r matches Some(j) ==> j < self.model().len() && self.model()[j as int].0 == name@,
            r is None ==> forall|i: int|
                0 <= i < self.model().len() ==> (#[trigger] self.model()[i]).0 != name@,
    {
        let n = self.entries.len();
        let mut j: usize = 0;
        while j < n
            invariant
                n == self.entries@.len(),
                j <= n,
                forall|i: int| 0 <= i < j ==> (#[trigger] self.model()[i]).0 != name@,
            decreases n - j,
        {
            if str_eq(self.entries[j].name.as_str(), name) {
                proof {
                    assert(self.model()[j as int].0 == self.entries@[j as int].name@);
                }
                return Some(j);
            }
            j += 1;
        }
        None
    }

    /// Append `word` under `name`, creating the category if it is new.
    fn insert_entry(&mut self, name: String, word: String)
        requires
            old(self).wf(),
        ensures
            final(self).wf(),
            final(self).model() == insert_word(old(self).model(), name@, word@),
    {
        let ghost m0 = self.model();
        match self.find_category_index(name.as_str()) {
            Some(j) => {
                let mut entry = self.entries.remove(j);
                entry.words.push(word);
                self.entries.insert(j, entry);
                proof {
                    let i = choose|i: int| 0 <= i < m0.len() && (#[trigger] m0[i]).0 == name@;
                    assert(i == j as int);
                    assert(self.entries@ =~= old(self).entries@.update(j as int, entry));
                    assert(entry.words.deep_view() =~= m0[j as int].1.push(word@)) by {
                        assert(entry.words@.len() == old(self).entries@[j as int].words@.len() + 1);
                        assert forall|k: int| 0 <= k < entry.words.deep_view().len() implies
                            entry.words.deep_view()[k] == m0[j as int].1.push(word@)[k] by {
                            assert(entry.words.deep_view()[k] == entry.words@[k]@);
                        }
                    }
                    assert(self.model() =~= insert_word(m0, name@, word@));
                }
            },
            None => {
                let mut words: Vec<String> = Vec::new();
                words.push(word);
                self.entries.push(Entry { name, words });
                proof {
                    let last = self.entries@.len() - 1;
                    assert(self.entries@[last].words.deep_view() =~= seq![
                        self.entries@[last].words@[0]@,
                    ]);
                    assert(self.model() =~= insert_word(m0, self.entries@[last].name@, word@));
                    assert(self.model() =~= insert_word(m0, name@, word@));
                }
            },
        }
    }

    /// Load a bank from the lines of the resource. The first line is a
    /// header and is discarded; blank lines are skipped; every other line
    /// must be `category,word`, both fields trimmed and the word lowercased.
    /// Fails exactly when some data line has no comma.
    pub fn load(lines: &Vec<String>) -> (r: Result<WordBank, LoadError>)
        ensures
            r matches Ok(b) ==> b.wf() && Some(b.model()) == load_model(lines.deep_view()),
            r is Err ==> load_model(lines.deep_view()) is None,
            r is Err ==> r == Err::<WordBank, LoadError>(LoadError::MalformedLine),
    {
        let mut bank = WordBank { entries: Vec::new() };
        proof {
            assert(bank.model() =~= Seq::<(Seq<char>, Seq<Seq<char>>)>::empty());
        }
        let n = lines.len();
        let mut i: usize = 1;
        while i < n
            invariant
                n == lines@.len(),
                1 <= i,
                i <= n || i == 1,
                bank.wf(),
                load_model(lines.deep_view()) == load_model_from(
                    lines.deep_view(),
                    i as int,
                    bank.model(),
                ),
            decreases n - i,
        {
            let ghost lv = lines.deep_view();
            proof {
                assert(lv[i as int] == lines@[i as int]@);
            }
            let line = &lines[i];
            let t = trim(line.as_str());
            if t.unicode_len() > 0 {
                let llen = line.as_str().unicode_len();
                match find_char(line.as_str(), ',') {
                    Some(ix) => {
                        let cat = trim(line.as_str().substring_char(0, ix));
                        let rest = line.as_str().substring_char(ix + 1, llen);
                        let word = to_lower(trim(rest));
                        let cat_string = String::from_str(cat);
                        proof {
                            assert(split_line(lv[i as int]) == Some((cat_string@, word@)));
                        }
                        bank.insert_entry(cat_string, word);
                    },
                    None => {
                        proof {
                            lemma_first_index_of(line@, ',');
                            assert(split_line(lv[i as int]) is None);
                        }
                        return Err(LoadError::MalformedLine);
                    },
                }
            }
            i += 1;
        }
        Ok(bank)
    }

    /// The category names, in the stable order the bank keeps them.
    pub fn categories(&self) -> (r: Vec<String>)
        ensures
            r@.len() == self.model().len(),
            forall|i: int| 0 <= i < r@.len() ==> (#[trigger] r@[i])@ == self.model()[i].0,
    {
        let n = self.entries.len();
        let mut r: Vec<String> = Vec::new();
        let mut j: usize = 0;
        while j < n
            invariant
                n == self.entries@.len(),
                j <= n,
                r@.len() == j,
                forall|i: int| 0 <= i < j ==> (#[trigger] r@[i])@ == self.model()[i].0,
            decreases n - j,
        {
            r.push(self.entries[j].name.clone());
            j += 1;
        }
        r
    }

    /// The category named by a 1-based menu choice, or nothing when the
    /// choice is out of range.
    pub fn category_by_choice(&self, choice: usize) -> (r: Option<&String>)
        ensures
            r is Some <==> 1 <= choice <= self.model().len(),
            r matches Some(name) ==> name@ == self.model()[choice - 1].0,
    {
        if 1 <= choice && choice <= self.entries.len() {
            proof {
                assert(self.model()[choice - 1].0 == self.entries@[choice - 1].name@);
            }
            Some(&self.entries[choice - 1].name)
        } else {
            None
        }
    }

    /// Draw a word at random from the list registered under `category`; the
    /// result always comes from exactly that list. Fails exactly when the
    /// category is unknown.
    pub fn sample(&self, category: &str) -> (r: Result<String, SampleError>)
        requires
            self.wf(),
        ensures
            r is Ok <==> self.has_category(category@),
            r matches Ok(w) ==> self.words_of(category@).contains(w@),
            r is Err ==> r == Err::<String, SampleError>(SampleError::UnknownCategory),
    {
        match self.find_category_index(category) {
            Some(j) => {
                let words = &self.entries[j].words;
                proof {
                    assert(self.model()[j as int].1 == words.deep_view());
                    assert(words.deep_view().len() == words@.len());
                }
                let ridx = random_index_below(words.len());
                let w = words[ridx].clone();
                proof {
                    let c = category@;
                    assert(self.has_category(c));
                    let i = self.cat_idx(c);
                    assert(0 <= i < self.model().len() && self.model()[i].0 == c);
                    assert(i == j as int);
                    assert(w@ == words.deep_view()[ridx as int]);
                    assert(self.words_of(c).contains(w@));
                }
                Ok(w)
            },
            None => {
                proof {
                    assert(!self.has_category(category@));
                }
                Err(SampleError::UnknownCategory)
            },
        }
    }
}

/// Relies on `rand::rng` and `rand::RngExt::random_range` on the range
/// `0..len`: whatever value the generator yields, it lies below `len`; the
/// call panics on an empty range, so the range is required non-empty.
#[verifier::external_body]
fn random_index_below(len: usize) -> (r: usize)
    requires
        len > 0,
    ensures
        r < len,
{
    let mut rng = rand::rng();
    rng.random_range(0..len)
}

} // verus!
