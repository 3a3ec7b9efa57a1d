//! A finite map from names to registers (module dependency namespaces,
//! self-import aliases), viewed as a mathematical map.
use vstd::prelude::*;
use crate::ctx::{first_slot, has_slot, slot_view};
use crate::text::str_eq;

verus! {

/// Names mapped to registers; a later `insert` of a name replaces its register.
pub struct RegMap {
    entries: Vec<(String, u32)>,
}

impl View for RegMap {
    type V = Map<Seq<char>, u32>;

    closed spec fn view(&self) -> Map<Seq<char>, u32> {
        first_map(slot_view(self.entries@))
    }
}

/// Each name mapped to the register of its first entry.
spec fn first_map(s: Seq<(Seq<char>, u32)>) -> Map<Seq<char>, u32> {
    Map::new(|n: Seq<char>| first_slot(s, n) is Some, |n: Seq<char>| first_slot(s, n).unwrap())
}

/// Replacing the register of the first entry named `n` changes the first
/// match of `n` only.
proof fn lemma_first_slot_update(s: Seq<(Seq<char>, u32)>, i: int, n: Seq<char>, v: u32)
    requires
        0 <= i < s.len(),
        s[i].0 == n,
        forall|j: int| 0 <= j < i ==> #[trigger] s[j].0 != n,
    ensures
        forall|m: Seq<char>| #[trigger] first_slot(s.update(i, (n, v)), m) == if m == n {
            Some(v)
        } else {
            first_slot(s, m)
        },
    decreases s.len(),
{
    let t = s.update(i, (n, v));
    if i > 0 {
        assert(s[0].0 != n);
        lemma_first_slot_update(s.drop_first(), i - 1, n, v);
        assert(t.drop_first() =~= s.drop_first().update(i - 1, (n, v)));
        assert(t[0] == s[0]);
        assert forall|m: Seq<char>| #[trigger] first_slot(t, m) == if m == n {
            Some(v)
        } else {
            first_slot(s, m)
        } by {
            if s[0].0 != m {
                assert(first_slot(t, m) == first_slot(t.drop_first(), m));
            }
        }
    } else {
        assert(t.drop_first() =~= s.drop_first());
        assert forall|m: Seq<char>| #[trigger] first_slot(t, m) == if m == n {
            Some(v)
        } else {
            first_slot(s, m)
        } by {
            if m != n {
                assert(first_slot(t, m) == first_slot(t.drop_first(), m));
                assert(first_slot(s, m) == first_slot(s.drop_first(), m));
            }
        }
    }
}

/// Appending an entry for a name that has none gives it that register and
/// leaves every other name alone.
proof fn lemma_first_slot_push(s: Seq<(Seq<char>, u32)>, n: Seq<char>, v: u32)
    requires
        !has_slot(s, n),
    ensures
        forall|m: Seq<char>| #[trigger] first_slot(s.push((n, v)), m) == if m == n {
            Some(v)
        } else {
            first_slot(s, m)
        },
    decreases s.len(),
{
    let t = s.push((n, v));
    if s.len() == 0 {
        assert(t.drop_first() =~= s);
        assert forall|m: Seq<char>| #[trigger] first_slot(t, m) == if m == n {
            Some(v)
        } else {
            first_slot(s, m)
        } by {
            if m != n {
                assert(first_slot(t, m) == first_slot(t.drop_first(), m));
            }
        }
    } else {
        assert(s[0].0 != n);
        if has_slot(s.drop_first(), n) {
            let k = choose|k: int| 0 <= k < s.drop_first().len() && #[trigger] s.drop_first()[k].0 == n;
            assert(s[k + 1].0 == n);
        }
        lemma_first_slot_push(s.drop_first(), n, v);
        assert(t.drop_first() =~= s.drop_first().push((n, v)));
        assert(t[0] == s[0]);
        assert forall|m: Seq<char>| #[trigger] first_slot(t, m) == if m == n {
            Some(v)
        } else {
            first_slot(s, m)
        } by {
            if s[0].0 != m {
                assert(first_slot(t, m) == first_slot(t.drop_first(), m));
            }
        }
    }
}

/// A map built from first matches, after a change that gives `n` the
/// register `v` and leaves every other first match alone, is the old map
/// with `n` mapped to `v`.
proof fn lemma_view_after(
    s: Seq<(Seq<char>, u32)>,
    t: Seq<(Seq<char>, u32)>,
    n: Seq<char>,
    v: u32,
)
    requires
        forall|m: Seq<char>| #[trigger] first_slot(t, m) == if m == n {
            Some(v)
        } else {
            first_slot(s, m)
        },
    ensures
        first_map(t) == first_map(s).insert(n, v),
{
    let before = first_map(s);
    let after = first_map(t);
    assert forall|k: Seq<char>| after.contains_key(k) == before.insert(n, v).contains_key(k) by {
        assert(first_slot(t, k) == if k == n { Some(v) } else { first_slot(s, k) });
    }
    assert forall|k: Seq<char>| after.contains_key(k) implies after[k] == before.insert(n, v)[k] by {
        assert(first_slot(t, k) == if k == n { Some(v) } else { first_slot(s, k) });
    }
    assert(after =~= before.insert(n, v));
}

impl RegMap {
    /// The empty map.
    pub fn new() -> (m: RegMap)
        ensures
            m@ == Map::<Seq<char>, u32>::empty(),
    {
        let m = RegMap { entries: Vec::new() };
        assert(m@ =~= Map::<Seq<char>, u32>::empty());
        m
    }

    /// The register of `name`, if it has one.
    pub fn get(&self, name: &str) -> (r: Option<u32>)
        ensures
            r == (if self@.contains_key(name@) {
                Some(self@[name@])
            } else {
                None
            }),
    {
        let ghost m = slot_view(self.entries@);
        let mut i: usize = 0;
        assert(m.skip(0) =~= m);
        while i < self.entries.len()
            invariant
                m == slot_view(self.entries@),
                i <= m.len(),
                first_slot(m, name@) == first_slot(m.skip(i as int), name@),
            decreases self.entries.len() - i,
        {
            assert(m.skip(i as int)[0] == m[i as int]);
            if str_eq(self.entries[i].0.as_str(), name) {
                return Some(self.entries[i].1);
            }
            assert(m.skip(i as int).drop_first() =~= m.skip(i + 1));
            i += 1;
        }
        None
    }

    /// Maps `name` to `reg`, replacing any register it had.
    pub fn insert(&mut self, name: &str, reg: u32)
        ensures
            final(self)@ == old(self)@.insert(name@, reg),
    {
        let ghost m = slot_view(self.entries@);
        let mut i: usize = 0;
        while i < self.entries.len()
            invariant
                m == slot_view(self.entries@),
                self.entries@ == old(self).entries@,
                i <= m.len(),
                forall|j: int| 0 <= j < i ==> #[trigger] m[j].0 != name@,
            decreases self.entries.len() - i,
        {
            if str_eq(self.entries[i].0.as_str(), name) {
                assert(m[i as int].0 == name@);
                self.entries.set(i, (name.to_owned(), reg));
                proof {
                    lemma_first_slot_update(m, i as int, name@, reg);
                    assert(slot_view(self.entries@) =~= m.update(i as int, (name@, reg)));
                    lemma_view_after(m, slot_view(self.entries@), name@, reg);
                }
                return;
            }
            i += 1;
        }
        assert(!has_slot(m, name@));
        self.entries.push((name.to_owned(), reg));
        proof {
            lemma_first_slot_push(m, name@, reg);
            assert(slot_view(self.entries@) =~= m.push((name@, reg)));
            lemma_view_after(m, slot_view(self.entries@), name@, reg);
        }
    }
}

} // verus!
