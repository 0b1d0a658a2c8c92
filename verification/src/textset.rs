//! A set of texts, held as a list that is searched from the front.

use vstd::prelude::*;
use crate::text::same_text;

verus! {

/// A finite set of texts.  Its model is the set of the character sequences
/// it holds.
#[derive(Debug)]
pub struct TextSet {
    items: Vec<String>,
}

impl View for TextSet {
    type V = Set<Seq<char>>;

    closed spec fn view(&self) -> Set<Seq<char>> {
        Set::new(|t: Seq<char>| exists|i: int| 0 <= i < self.items.len() && self.items[i]@ == t)
    }
}

/// Whether the list holds exactly the texts of the set.
pub open spec fn lists(set: Set<Seq<char>>, items: Seq<String>) -> bool {
    forall|t: Seq<char>|
        set.contains(t) <==> exists|i: int| 0 <= i < items.len() && (#[trigger] items[i])@ == t
}

/// The texts among the first `n` items of a list.
pub open spec fn texts_upto(items: Seq<String>, n: int) -> Set<Seq<char>>
    decreases n,
{
    if n <= 0 {
        Set::empty()
    } else {
        texts_upto(items, n - 1).insert(items[n - 1]@)
    }
}

/// What `texts_upto` holds.
pub proof fn lemma_texts_upto(items: Seq<String>, n: int, t: Seq<char>)
    requires
        0 <= n <= items.len(),
    ensures
        texts_upto(items, n).contains(t) <==> exists|k: int|
            0 <= k < n && (#[trigger] items[k])@ == t,
    decreases n,
{
    if n > 0 {
        lemma_texts_upto(items, n - 1, t);
        if texts_upto(items, n).contains(t) {
            if items[n - 1]@ == t {
            } else {
                let k = choose|k: int| 0 <= k < n - 1 && (#[trigger] items[k])@ == t;
                assert(items[k]@ == t);
            }
        }
        if exists|k: int| 0 <= k < n && (#[trigger] items[k])@ == t {
            let k = choose|k: int| 0 <= k < n && (#[trigger] items[k])@ == t;
            if k < n - 1 {
                assert(items[k]@ == t);
            }
        }
    }
}

impl TextSet {
    /// The empty set.
    pub fn new() -> (r: TextSet)
        ensures
            r@ == Set::<Seq<char>>::empty(),
    {
        let r = TextSet { items: Vec::new() };
        assert(r@ =~= Set::<Seq<char>>::empty());
        r
    }

    /// Whether the set holds the text.
    pub fn contains(&self, t: &str) -> (b: bool)
        ensures
            b == self@.contains(t@),
    {
        let mut i: usize = 0;
        while i < self.items.len()
            invariant
                i <= self.items.len(),
                forall|k: int| 0 <= k < i ==> self.items[k]@ != t@,
            decreases self.items.len() - i,
        {
            if same_text(self.items[i].as_str(), t) {
                return true;
            }
            i += 1;
        }
        false
    }

    /// Puts the text into the set.
    pub fn insert(&mut self, t: String)
        ensures
            final(self)@ == old(self)@.insert(t@),
    {
        if !self.contains(t.as_str()) {
            let ghost before = self.items@;
            self.items.push(t);
            assert forall|x: Seq<char>| self@.contains(x) <==> old(self)@.insert(t@).contains(x) by {
                if self@.contains(x) {
                    let i = choose|i: int| 0 <= i < self.items.len() && self.items[i]@ == x;
                    if i < before.len() {
                        assert(before[i]@ == x);
                    }
                }
                if old(self)@.contains(x) {
                    let i = choose|i: int| 0 <= i < before.len() && before[i]@ == x;
                    assert(self.items[i]@ == x);
                }
                if x == t@ {
                    assert(self.items[before.len() as int]@ == x);
                }
            }
            assert(self@ =~= old(self)@.insert(t@));
        } else {
            assert(self@ =~= old(self)@.insert(t@));
        }
    }

    /// Puts every text of `other` into the set.
    pub fn extend(&mut self, other: &TextSet)
        ensures
            final(self)@ == old(self)@.union(other@),
    {
        let items = other.items();
        let ghost base = self@;
        let mut i: usize = 0;
        assert(self@ =~= base.union(texts_upto(items@, 0)));
        while i < items.len()
            invariant
                i <= items.len(),
                self@ == base.union(texts_upto(items@, i as int)),
            decreases items.len() - i,
        {
            self.insert(items[i].clone());
            assert(self@ =~= base.union(texts_upto(items@, i + 1)));
            i += 1;
        }
        proof {
            assert forall|t: Seq<char>| texts_upto(items@, i as int).contains(t) <==> other@.contains(
                t,
            ) by {
                lemma_texts_upto(items@, i as int, t);
            }
            assert(self@ =~= base.union(other@));
        }
    }

    /// Whether the set holds nothing.
    pub fn is_empty(&self) -> (b: bool)
        ensures
            b == (self@ == Set::<Seq<char>>::empty()),
    {
        let b = self.items.len() == 0;
        proof {
            if b {
                assert(self@ =~= Set::<Seq<char>>::empty());
            } else {
                assert(self@.contains(self.items[0]@));
            }
        }
        b
    }

    /// The texts of the set, in the order in which they came.
    pub fn items(&self) -> (r: &Vec<String>)
        ensures
            lists(self@, r@),
    {
        &self.items
    }
}

} // verus!
