//! A finite set of strings, kept in the order in which they first came in.

use vstd::prelude::*;
use crate::text::str_eq;

verus! {

/// A finite set of strings.
pub struct StringSet {
    items: Vec<String>,
}

impl View for StringSet {
    type V = Set<Seq<char>>;

    /// The strings of the set.
    closed spec fn view(&self) -> Set<Seq<char>> {
        self.texts().to_set()
    }
}

impl StringSet {
    /// The strings of the set, in the order in which they first came in.
    pub closed spec fn texts(self) -> Seq<Seq<char>> {
        self.items.deep_view()
    }

    /// No string stands twice in the set.
    pub closed spec fn wf(self) -> bool {
        self.texts().no_duplicates()
    }

    /// How the set relates to the order of its strings.
    pub proof fn lemma_texts(self)
        requires
            self.wf(),
        ensures
            self.texts().no_duplicates(),
            self.texts().len() <= usize::MAX,
            self@ == self.texts().to_set(),
            self@.finite(),
            self@.len() == self.texts().len(),
    {
        assert(self.texts().len() == self.items.len());
        self.texts().unique_seq_to_set();
    }

    /// The empty set.
    pub fn new() -> (r: Self)
        ensures
            r.wf(),
            r@ == Set::<Seq<char>>::empty(),
    {
        let r = StringSet { items: Vec::new() };
        r
    }

    /// The number of strings in the set.
    pub fn len(&self) -> (n: usize)
        requires
            self.wf(),
        ensures
            n == self.texts().len(),
            n == self@.len(),
    {
        proof {
            self.lemma_texts();
        }
        self.items.len()
    }

    /// The string at place `i`.
    pub fn item_at(&self, i: usize) -> (s: &str)
        requires
            i < self.texts().len(),
        ensures
            s@ == self.texts()[i as int],
            self@.contains(s@),
    {
        self.items[i].as_str()
    }

    /// Whether the set holds the string.
    pub fn contains(&self, s: &str) -> (r: bool)
        ensures
            r == self@.contains(s@),
    {
        let n = self.items.len();
        let mut i: usize = 0;
        while i < n
            invariant
                i <= n,
                n == self.items@.len(),
                n == self.texts().len(),
                forall|j: int| 0 <= j < i ==> self.texts()[j] != s@,
            decreases n - i,
        {
            if str_eq(self.items[i].as_str(), s) {
                assert(self.texts()[i as int] == s@);
                return true;
            }
            i += 1;
        }
        false
    }

    /// Add a string to the set. The result tells whether it was new.
    pub fn insert(&mut self, s: String) -> (added: bool)
        requires
            old(self).wf(),
        ensures
            final(self).wf(),
            final(self)@ == old(self)@.insert(s@),
            added == !old(self)@.contains(s@),
    {
        let ghost before = *self;
        if self.contains(s.as_str()) {
            false
        } else {
            self.items.push(s);
            assert(self.texts() =~= before.texts().push(s@));
            assert(self@ =~= before@.insert(s@)) by {
                let now = self.texts();
                let then = before.texts();
                assert forall|t: Seq<char>| #[trigger] now.contains(t) implies now[now.index_of(t)]
                    == t by {}
                assert forall|t: Seq<char>| #[trigger] then.contains(t) implies now[then.index_of(
                    t,
                )] == t by {}
                assert(now[then.len() as int] == s@);
            }
            true
        }
    }

    /// The strings of the set, in the order in which they first came in.
    pub fn into_vec(self) -> (r: Vec<String>)
        requires
            self.wf(),
        ensures
            r.deep_view() == self.texts(),
            r.deep_view().no_duplicates(),
            r.deep_view().to_set() == self@,
    {
        self.items
    }
}

} // verus!
