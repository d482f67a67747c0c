//! The set of lines that were dispatched once already.

use crate::text::texts;
use vstd::prelude::*;

verus! {

/// Texts of the lines seen so far. The set only grows, and membership is by
/// exact text: two lines with the same characters are one line.
///
/// The texts are kept in a list that is searched from the front. A hash set
/// of strings would be quicker, but vstd models a hash set only for keys of
/// which it knows that equal keys hash alike, and it knows that of integers,
/// not of `String`: nothing could be proved of `contains` and `insert`.
pub struct SeenSet {
    lines: Vec<String>,
}

impl View for SeenSet {
    type V = Set<Seq<char>>;

    closed spec fn view(&self) -> Set<Seq<char>> {
        texts(self.lines@).to_set()
    }
}

impl SeenSet {
    /// No text is held twice.
    pub closed spec fn wf(&self) -> bool {
        texts(self.lines@).no_duplicates()
    }

    pub fn new() -> (seen: Self)
        ensures
            seen.wf(),
            seen@ == Set::<Seq<char>>::empty(),
    {
        let seen = SeenSet { lines: Vec::new() };
        assert(texts(seen.lines@) =~= Seq::<Seq<char>>::empty());
        assert(seen@ =~= Set::<Seq<char>>::empty());
        seen
    }

    /// Whether `line` was accepted before.
    pub fn contains(&self, line: &str) -> (found: bool)
        ensures
            found == self@.contains(line@),
    {
        let wanted = line.to_owned();
        let mut i: usize = 0;
        while i < self.lines.len()
            invariant
                i <= self.lines.len(),
                wanted@ == line@,
                forall|k: int| 0 <= k < i ==> texts(self.lines@)[k] != line@,
            decreases self.lines.len() - i,
        {
            if self.lines[i] == wanted {
                assert(texts(self.lines@)[i as int] == line@);
                return true;
            }
            i = i + 1;
        }
        false
    }

    /// Test and set in one step: `true` the first time `line` is offered,
    /// `false` every time after. The caller holds the set exclusively for the
    /// length of the call, so no two callers can both be told `true` for one
    /// text.
    pub fn accept(&mut self, line: &str) -> (fresh: bool)
        requires
            old(self).wf(),
        ensures
            final(self).wf(),
            fresh == !old(self)@.contains(line@),
            final(self)@ == old(self)@.insert(line@),
    {
        if self.contains(line) {
            assert(self@.insert(line@) =~= self@);
            false
        } else {
            let ghost before = texts(self.lines@);
            self.lines.push(line.to_owned());
            proof {
                assert(texts(self.lines@) =~= before.push(line@));
                assert(before.push(line@).to_set() =~= before.to_set().insert(line@)) by {
                    assert forall|t: Seq<char>| before.push(line@).to_set().contains(t)
                        == before.to_set().insert(line@).contains(t) by {
                        if before.push(line@).contains(t) {
                            let k = choose|k: int|
                                0 <= k < before.push(line@).len() && before.push(line@)[k] == t;
                            if k < before.len() {
                                assert(before[k] == t);
                            }
                        }
                        if before.contains(t) {
                            let k = choose|k: int| 0 <= k < before.len() && before[k] == t;
                            assert(before.push(line@)[k] == t);
                        }
                        if t == line@ {
                            assert(before.push(line@)[before.len() as int] == t);
                        }
                    }
                }
            }
            true
        }
    }

    /// Number of distinct lines seen.
    pub fn len(&self) -> (n: usize)
        requires
            self.wf(),
        ensures
            n == self@.len(),
    {
        proof {
            texts(self.lines@).unique_seq_to_set();
        }
        self.lines.len()
    }

    pub fn is_empty(&self) -> (empty: bool)
        requires
            self.wf(),
        ensures
            empty == (self@.len() == 0),
    {
        self.len() == 0
    }
}

/// Accepting one text twice in a row: the second offer is refused and leaves
/// the set as the first offer left it.
pub proof fn lemma_second_offer_is_refused(seen: Set<Seq<char>>, line: Seq<char>)
    ensures
        seen.insert(line).contains(line),
        seen.insert(line).insert(line) == seen.insert(line),
{
    assert(seen.insert(line).insert(line) =~= seen.insert(line));
}

} // verus!
