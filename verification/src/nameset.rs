//! A finite set of identifier names.
use vstd::prelude::*;
use crate::text::str_eq;

verus! {

/// A set of names, viewed as the set of their character sequences.
pub struct NameSet {
    names: Vec<String>,
}

impl View for NameSet {
    type V = Set<Seq<char>>;

    closed spec fn view(&self) -> Set<Seq<char>> {
        Set::new(|n: Seq<char>| exists|i: int| 0 <= i < self.names@.len() && #[trigger] self.names@[i]@ == n)
    }
}

impl NameSet {
    /// The empty set.
    pub fn new() -> (s: NameSet)
        ensures
            s@ == Set::<Seq<char>>::empty(),
    {
        let s = NameSet { names: Vec::new() };
        assert(s@ =~= Set::<Seq<char>>::empty());
        s
    }

    /// Membership.
    pub fn contains(&self, name: &str) -> (r: bool)
        ensures
            r == self@.contains(name@),
    {
        let mut i: usize = 0;
        while i < self.names.len()
            invariant
                i <= self.names@.len(),
                forall|j: int| 0 <= j < i ==> self.names@[j]@ != name@,
            decreases self.names.len() - i,
        {
            if str_eq(self.names[i].as_str(), name) {
                assert(self.names@[i as int]@ == name@);
                return true;
            }
            i += 1;
        }
        false
    }

    /// Adds a name.
    pub fn insert(&mut self, name: &str)
        ensures
            final(self)@ == old(self)@.insert(name@),
    {
        if !self.contains(name) {
            let ghost before = self.names@;
            let owned = name.to_owned();
            self.names.push(owned);
            assert(self.names@[before.len() as int]@ == name@);
            assert forall|n: Seq<char>| #[trigger] self@.contains(n) == old(self)@.insert(name@).contains(n) by {
                if old(self)@.contains(n) {
                    let j = choose|j: int| 0 <= j < before.len() && before[j]@ == n;
                    assert(self.names@[j]@ == n);
                }
                if self@.contains(n) {
                    let j = choose|j: int| 0 <= j < self.names@.len() && self.names@[j]@ == n;
                    if j < before.len() {
                        assert(before[j]@ == n);
                    }
                }
            }
            assert(self@ =~= old(self)@.insert(name@));
        } else {
            assert(old(self)@.insert(name@) =~= old(self)@);
        }
    }

    /// Adds every name of `other`.
    pub fn extend(&mut self, other: &NameSet)
        ensures
            final(self)@ == old(self)@.union(other@),
    {
        let mut i: usize = 0;
        while i < other.names.len()
            invariant
                i <= other.names@.len(),
                forall|n: Seq<char>| #[trigger] self@.contains(n) <==> (old(self)@.contains(n) || exists|j: int|
                    0 <= j < i && #[trigger] other.names@[j]@ == n),
            decreases other.names.len() - i,
        {
            let ghost prev = self@;
            self.insert(other.names[i].as_str());
            assert forall|n: Seq<char>| #[trigger] self@.contains(n) <==> (old(self)@.contains(n) || exists|j: int|
                0 <= j < i + 1 && #[trigger] other.names@[j]@ == n) by {
                if exists|j: int| 0 <= j < i + 1 && #[trigger] other.names@[j]@ == n {
                    let j = choose|j: int| 0 <= j < i + 1 && #[trigger] other.names@[j]@ == n;
                    if j < i {
                        assert(prev.contains(n));
                    }
                }
                if n == other.names@[i as int]@ {
                    assert(exists|j: int| 0 <= j < i + 1 && #[trigger] other.names@[j]@ == n);
                }
            }
            i += 1;
        }
        assert(self@ =~= old(self)@.union(other@));
    }

    /// A copy of the set.
    pub fn copy(&self) -> (s: NameSet)
        ensures
            s@ == self@,
    {
        let mut s = NameSet::new();
        s.extend(self);
        assert(s@ =~= self@);
        s
    }

    /// The names, each once, in insertion order.
    pub fn to_vec(&self) -> (v: Vec<String>)
        ensures
            forall|n: Seq<char>| self@.contains(n) <==> exists|i: int| 0 <= i < v@.len() && #[trigger] v@[i]@ == n,
    {
        self.names.clone()
    }
}

} // verus!
