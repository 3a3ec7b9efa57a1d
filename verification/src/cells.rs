//! Cell slots for captured bindings: a name-ordered map from binding name to
//! cell index, and the sorted name lists it is built from.
use vstd::prelude::*;
use crate::text::{seq_lt, str_eq, str_lt, lemma_seq_lt_irreflexive, lemma_seq_lt_total, lemma_seq_lt_transitive};
use crate::nameset::NameSet;

verus! {

/// The character sequences of a list of strings.
pub open spec fn views(v: Seq<String>) -> Seq<Seq<char>> {
    Seq::new(v.len(), |i: int| v[i]@)
}

/// Every element sorts strictly before each later one (so none occurs twice).
pub open spec fn strictly_sorted(s: Seq<Seq<char>>) -> bool {
    forall|i: int, j: int| 0 <= i < j < s.len() ==> seq_lt(#[trigger] s[i], #[trigger] s[j])
}

/// Inserts `name` into a strictly sorted list at its place; a name already
/// present leaves the list unchanged.
fn insert_sorted(v: &mut Vec<String>, name: &str)
    requires
        strictly_sorted(views(old(v)@)),
    ensures
        strictly_sorted(views(final(v)@)),
        forall|n: Seq<char>| #[trigger] views(final(v)@).contains(n) <==> (views(old(v)@).contains(n) || n == name@),
{
    let mut i: usize = 0;
    while i < v.len() && str_lt(v[i].as_str(), name)
        invariant
            i <= v@.len(),
            v@ == old(v)@,
            forall|j: int| 0 <= j < i ==> seq_lt(#[trigger] v@[j]@, name@),
        decreases v.len() - i,
    {
        i += 1;
    }
    let ghost old_views = views(v@);
    if i < v.len() && str_eq(v[i].as_str(), name) {
        assert(old_views[i as int] == name@);
        assert forall|n: Seq<char>| #[trigger] old_views.contains(n) <==> (old_views.contains(n) || n == name@) by {
            if n == name@ {
                assert(old_views[i as int] == n);
            }
        }
        return;
    }
    proof {
        if i < old_views.len() {
            lemma_seq_lt_total(old_views[i as int], name@);
        }
    }
    v.insert(i, name.to_owned());
    let ghost new_views = views(v@);
    assert(new_views =~= old_views.insert(i as int, name@));
    assert forall|p: int, q: int| 0 <= p < q < new_views.len() implies seq_lt(
        #[trigger] new_views[p],
        #[trigger] new_views[q],
    ) by {
        if q < i {
            assert(old_views[p] == new_views[p] && old_views[q] == new_views[q]);
        } else if q == i {
            assert(new_views[p] == old_views[p]);
            assert(seq_lt(v@[p]@, name@));
        } else if p == i {
            assert(new_views[q] == old_views[q - 1]);
            if q - 1 > i {
                assert(seq_lt(old_views[i as int], old_views[q - 1]));
                lemma_seq_lt_transitive(name@, old_views[i as int], old_views[q - 1]);
            }
        } else if p < i {
            assert(new_views[p] == old_views[p] && new_views[q] == old_views[q - 1]);
        } else {
            assert(new_views[p] == old_views[p - 1] && new_views[q] == old_views[q - 1]);
        }
    }
    assert forall|n: Seq<char>| #[trigger] new_views.contains(n) <==> (old_views.contains(n) || n == name@) by {
        if new_views.contains(n) {
            let k = choose|k: int| 0 <= k < new_views.len() && new_views[k] == n;
            if k < i {
                assert(old_views[k] == n);
            } else if k > i {
                assert(old_views[k - 1] == n);
            }
        }
        if old_views.contains(n) {
            let k = choose|k: int| 0 <= k < old_views.len() && old_views[k] == n;
            if k < i {
                assert(new_views[k] == n);
            } else {
                assert(new_views[k + 1] == n);
            }
        }
        if n == name@ {
            assert(new_views[i as int] == n);
        }
    }
}

/// The names of a set, each once, in code-point order.
pub fn sorted_names(set: &NameSet) -> (v: Vec<String>)
    ensures
        strictly_sorted(views(v@)),
        forall|n: Seq<char>| #[trigger] views(v@).contains(n) <==> set@.contains(n),
{
    let all = set.to_vec();
    let mut v: Vec<String> = Vec::new();
    let mut i: usize = 0;
    assert(views(v@) =~= Seq::<Seq<char>>::empty());
    while i < all.len()
        invariant
            i <= all@.len(),
            strictly_sorted(views(v@)),
            forall|n: Seq<char>| #[trigger] views(v@).contains(n) <==> exists|j: int|
                0 <= j < i && #[trigger] all@[j]@ == n,
            forall|n: Seq<char>| set@.contains(n) <==> exists|i: int| 0 <= i < all@.len() && #[trigger] all@[i]@ == n,
        decreases all.len() - i,
    {
        insert_sorted(&mut v, all[i].as_str());
        assert forall|n: Seq<char>| #[trigger] views(v@).contains(n) <==> exists|j: int|
            0 <= j < i + 1 && #[trigger] all@[j]@ == n by {
            if exists|j: int| 0 <= j < i + 1 && #[trigger] all@[j]@ == n {
                let j = choose|j: int| 0 <= j < i + 1 && #[trigger] all@[j]@ == n;
                if j < i {
                }
            }
        }
        i += 1;
    }
    v
}

/// The keys of an entry list, in order.
pub open spec fn entry_keys(s: Seq<(Seq<char>, u8)>) -> Seq<Seq<char>> {
    Seq::new(s.len(), |i: int| s[i].0)
}

/// `n` is a key of the entry list.
pub open spec fn has_key(s: Seq<(Seq<char>, u8)>, n: Seq<char>) -> bool {
    exists|i: int| 0 <= i < s.len() && #[trigger] s[i].0 == n
}

/// The cell index recorded for `n`, if any.
pub open spec fn lookup(s: Seq<(Seq<char>, u8)>, n: Seq<char>) -> Option<u8> {
    if has_key(s, n) {
        Some(s[choose|i: int| 0 <= i < s.len() && #[trigger] s[i].0 == n].1)
    } else {
        None
    }
}

/// In a list with strictly sorted keys, a key sits at one position only.
pub proof fn lemma_key_unique(s: Seq<(Seq<char>, u8)>, i: int, j: int)
    requires
        strictly_sorted(entry_keys(s)),
        0 <= i < s.len(),
        0 <= j < s.len(),
        s[i].0 == s[j].0,
    ensures
        i == j,
{
    if i < j {
        assert(seq_lt(entry_keys(s)[i], entry_keys(s)[j]));
        lemma_seq_lt_irreflexive(s[i].0);
    } else if j < i {
        assert(seq_lt(entry_keys(s)[j], entry_keys(s)[i]));
        lemma_seq_lt_irreflexive(s[i].0);
    }
}

/// In a list with strictly sorted keys, the key at position `i` looks up
/// the value at position `i`.
pub proof fn lemma_lookup_at(s: Seq<(Seq<char>, u8)>, i: int)
    requires
        strictly_sorted(entry_keys(s)),
        0 <= i < s.len(),
    ensures
        lookup(s, s[i].0) == Some(s[i].1),
{
    assert(has_key(s, s[i].0));
    let j = choose|j: int| 0 <= j < s.len() && #[trigger] s[j].0 == s[i].0;
    lemma_key_unique(s, i, j);
}

/// A map from binding name to cell index, kept in code-point order of the
/// names (the order in which a `BTreeMap<String, u8>` walks its keys).
pub struct CellMap {
    entries: Vec<(String, u8)>,
}

impl View for CellMap {
    type V = Seq<(Seq<char>, u8)>;

    closed spec fn view(&self) -> Seq<(Seq<char>, u8)> {
        Seq::new(self.entries@.len(), |i: int| (self.entries@[i].0@, self.entries@[i].1))
    }
}

impl CellMap {
    /// The keys are strictly ascending.
    pub open spec fn wf(&self) -> bool {
        strictly_sorted(entry_keys(self@))
    }

    /// The empty map.
    pub fn new() -> (m: CellMap)
        ensures
            m.wf(),
            m@ == Seq::<(Seq<char>, u8)>::empty(),
    {
        let m = CellMap { entries: Vec::new() };
        assert(m@ =~= Seq::<(Seq<char>, u8)>::empty());
        m
    }

    /// Number of entries.
    pub fn len(&self) -> (r: usize)
        ensures
            r == self@.len(),
    {
        self.entries.len()
    }

    /// The name of the `i`-th entry in key order.
    pub fn name_at(&self, i: usize) -> (r: &str)
        requires
            i < self@.len(),
        ensures
            r@ == self@[i as int].0,
    {
        self.entries[i].0.as_str()
    }

    /// The cell index of the `i`-th entry in key order.
    pub fn cell_at(&self, i: usize) -> (r: u8)
        requires
            i < self@.len(),
        ensures
            r == self@[i as int].1,
    {
        self.entries[i].1
    }

    /// The cell index recorded for `name`.
    pub fn get(&self, name: &str) -> (r: Option<u8>)
        requires
            self.wf(),
        ensures
            r == lookup(self@, name@),
    {
        let mut i: usize = 0;
        while i < self.entries.len()
            invariant
                i <= self@.len(),
                self@.len() == self.entries@.len(),
                self.wf(),
                forall|j: int| 0 <= j < i ==> #[trigger] self@[j].0 != name@,
            decreases self.entries.len() - i,
        {
            if str_eq(self.entries[i].0.as_str(), name) {
                proof {
                    lemma_lookup_at(self@, i as int);
                }
                return Some(self.entries[i].1);
            }
            i += 1;
        }
        assert(!has_key(self@, name@));
        None
    }

    /// Records `cell` for `name`, replacing an earlier entry for it.
    pub fn insert(&mut self, name: &str, cell: u8)
        requires
            old(self).wf(),
        ensures
            final(self).wf(),
            lookup(final(self)@, name@) == Some(cell),
            forall|n: Seq<char>| n != name@ ==> #[trigger] lookup(final(self)@, n) == lookup(old(self)@, n),
    {
        let ghost s0 = self@;
        let mut i: usize = 0;
        while i < self.entries.len() && str_lt(self.entries[i].0.as_str(), name)
            invariant
                i <= s0.len(),
                self@ == s0,
                s0.len() == self.entries@.len(),
                forall|j: int| 0 <= j < i ==> seq_lt(#[trigger] s0[j].0, name@),
            decreases self.entries.len() - i,
        {
            i += 1;
        }
        if i < self.entries.len() && str_eq(self.entries[i].0.as_str(), name) {
            self.entries.set(i, (name.to_owned(), cell));
            let ghost s1 = self@;
            assert(s1 =~= s0.update(i as int, (name@, cell)));
            assert(entry_keys(s1) =~= entry_keys(s0));
            proof {
                lemma_lookup_at(s1, i as int);
                assert forall|n: Seq<char>| n != name@ implies #[trigger] lookup(s1, n) == lookup(s0, n) by {
                    if has_key(s0, n) {
                        let k = choose|k: int| 0 <= k < s0.len() && #[trigger] s0[k].0 == n;
                        assert(s1[k].0 == n);
                        lemma_lookup_at(s0, k);
                        lemma_lookup_at(s1, k);
                    }
                    if has_key(s1, n) {
                        let k = choose|k: int| 0 <= k < s1.len() && #[trigger] s1[k].0 == n;
                        assert(s0[k].0 == n);
                    }
                }
            }
            return;
        }
        proof {
            if i < s0.len() {
                lemma_seq_lt_total(s0[i as int].0, name@);
            }
        }
        self.entries.insert(i, (name.to_owned(), cell));
        let ghost s1 = self@;
        assert(s1 =~= s0.insert(i as int, (name@, cell)));
        let ghost k0 = entry_keys(s0);
        let ghost k1 = entry_keys(s1);
        assert(k1 =~= k0.insert(i as int, name@));
        assert forall|p: int, q: int| 0 <= p < q < k1.len() implies seq_lt(#[trigger] k1[p], #[trigger] k1[q]) by {
            if q < i {
                assert(k0[p] == k1[p] && k0[q] == k1[q]);
            } else if q == i {
                assert(k1[p] == k0[p]);
                assert(seq_lt(s0[p].0, name@));
            } else if p == i {
                assert(k1[q] == k0[q - 1]);
                if q - 1 > i {
                    assert(seq_lt(k0[i as int], k0[q - 1]));
                    lemma_seq_lt_transitive(name@, k0[i as int], k0[q - 1]);
                }
            } else if p < i {
                assert(k1[p] == k0[p] && k1[q] == k0[q - 1]);
            } else {
                assert(k1[p] == k0[p - 1] && k1[q] == k0[q - 1]);
            }
        }
        proof {
            lemma_lookup_at(s1, i as int);
            assert forall|n: Seq<char>| n != name@ implies #[trigger] lookup(s1, n) == lookup(s0, n) by {
                if has_key(s0, n) {
                    let k = choose|k: int| 0 <= k < s0.len() && #[trigger] s0[k].0 == n;
                    lemma_lookup_at(s0, k);
                    if k < i {
                        assert(s1[k] == s0[k]);
                        lemma_lookup_at(s1, k);
                    } else {
                        assert(s1[k + 1] == s0[k]);
                        lemma_lookup_at(s1, k + 1);
                    }
                }
                if has_key(s1, n) {
                    let k = choose|k: int| 0 <= k < s1.len() && #[trigger] s1[k].0 == n;
                    if k < i {
                        assert(s0[k].0 == n);
                    } else if k > i {
                        assert(s0[k - 1].0 == n);
                    }
                }
            }
        }
    }

    /// Builds the map in which the `i`-th of `names` (strictly ascending) gets
    /// cell `i` truncated to eight bits.
    pub fn numbered(names: &Vec<String>) -> (m: CellMap)
        requires
            strictly_sorted(views(names@)),
        ensures
            m.wf(),
            m@.len() == names@.len(),
            forall|i: int| 0 <= i < names@.len() ==> (#[trigger] m@[i]).0 == names@[i]@ && m@[i].1 == (i % 256) as u8,
    {
        let mut entries: Vec<(String, u8)> = Vec::new();
        let mut i: usize = 0;
        while i < names.len()
            invariant
                i <= names@.len(),
                entries@.len() == i,
                forall|j: int| 0 <= j < i ==> (#[trigger] entries@[j]).0@ == names@[j]@ && entries@[j].1 == (j % 256) as u8,
            decreases names.len() - i,
        {
            let cell: u8 = (i % 256) as u8;
            entries.push((names[i].clone(), cell));
            i += 1;
        }
        let m = CellMap { entries };
        assert(entry_keys(m@) =~= views(names@));
        m
    }
}

/// The entries of `s` whose names are not in `names`, in order.
pub open spec fn drop_names(s: Seq<(Seq<char>, u8)>, names: Set<Seq<char>>) -> Seq<(Seq<char>, u8)>
    decreases s.len(),
{
    if s.len() == 0 {
        Seq::empty()
    } else {
        let r = drop_names(s.drop_last(), names);
        if names.contains(s.last().0) {
            r
        } else {
            r.push(s.last())
        }
    }
}

/// Dropping names keeps the order and only removes entries.
pub proof fn lemma_drop_names(s: Seq<(Seq<char>, u8)>, names: Set<Seq<char>>)
    requires
        strictly_sorted(entry_keys(s)),
    ensures
        strictly_sorted(entry_keys(drop_names(s, names))),
        forall|i: int| 0 <= i < drop_names(s, names).len() ==> exists|j: int|
            0 <= j < s.len() && s[j] == #[trigger] drop_names(s, names)[i] && !names.contains(s[j].0),
        forall|j: int| 0 <= j < s.len() && !names.contains(#[trigger] s[j].0) ==> exists|i: int|
            0 <= i < drop_names(s, names).len() && drop_names(s, names)[i] == s[j],
    decreases s.len(),
{
    if s.len() > 0 {
        let p = s.drop_last();
        assert(strictly_sorted(entry_keys(p))) by {
            assert forall|a: int, b: int| 0 <= a < b < entry_keys(p).len() implies seq_lt(
                #[trigger] entry_keys(p)[a],
                #[trigger] entry_keys(p)[b],
            ) by {
                assert(entry_keys(p)[a] == entry_keys(s)[a] && entry_keys(p)[b] == entry_keys(s)[b]);
            }
        }
        lemma_drop_names(p, names);
        let r = drop_names(p, names);
        let last = s.last();
        if !names.contains(last.0) {
            let r2 = r.push(last);
            assert forall|a: int, b: int| 0 <= a < b < entry_keys(r2).len() implies seq_lt(
                #[trigger] entry_keys(r2)[a],
                #[trigger] entry_keys(r2)[b],
            ) by {
                if b == r.len() {
                    let j = choose|j: int| 0 <= j < p.len() && p[j] == #[trigger] r[a] && !names.contains(p[j].0);
                    assert(entry_keys(s)[j] == r[a].0);
                    assert(entry_keys(s)[s.len() - 1] == last.0);
                } else {
                    assert(entry_keys(r2)[a] == entry_keys(r)[a] && entry_keys(r2)[b] == entry_keys(r)[b]);
                }
            }
            assert forall|i: int| 0 <= i < r2.len() implies exists|j: int|
                0 <= j < s.len() && s[j] == #[trigger] r2[i] && !names.contains(s[j].0) by {
                if i < r.len() {
                    let j = choose|j: int| 0 <= j < p.len() && p[j] == #[trigger] r[i] && !names.contains(p[j].0);
                    assert(s[j] == r2[i]);
                } else {
                    assert(s[s.len() - 1] == r2[i]);
                }
            }
            assert forall|j: int| 0 <= j < s.len() && !names.contains(#[trigger] s[j].0) implies exists|i: int|
                0 <= i < r2.len() && r2[i] == s[j] by {
                if j < p.len() {
                    assert(p[j] == s[j]);
                    let i = choose|i: int| 0 <= i < r.len() && r[i] == p[j];
                    assert(r2[i] == s[j]);
                } else {
                    assert(r2[r.len() as int] == s[j]);
                }
            }
        } else {
            assert forall|i: int| 0 <= i < r.len() implies exists|j: int|
                0 <= j < s.len() && s[j] == #[trigger] r[i] && !names.contains(s[j].0) by {
                let j = choose|j: int| 0 <= j < p.len() && p[j] == #[trigger] r[i] && !names.contains(p[j].0);
                assert(s[j] == r[i]);
            }
            assert forall|j: int| 0 <= j < s.len() && !names.contains(#[trigger] s[j].0) implies exists|i: int|
                0 <= i < r.len() && r[i] == s[j] by {
                assert(j != s.len() - 1);
                assert(p[j] == s[j]);
            }
        }
    }
}

impl CellMap {
    /// Appends an entry whose name sorts after every present one.
    fn push_greatest(&mut self, name: &str, cell: u8)
        requires
            old(self).wf(),
            forall|k: int| 0 <= k < old(self)@.len() ==> seq_lt(#[trigger] old(self)@[k].0, name@),
        ensures
            final(self).wf(),
            final(self)@ == old(self)@.push((name@, cell)),
    {
        self.entries.push((name.to_owned(), cell));
        assert(self@ =~= old(self)@.push((name@, cell)));
        assert forall|a: int, b: int| 0 <= a < b < entry_keys(self@).len() implies seq_lt(
            #[trigger] entry_keys(self@)[a],
            #[trigger] entry_keys(self@)[b],
        ) by {
            if b == old(self)@.len() {
                assert(entry_keys(self@)[a] == old(self)@[a].0);
            } else {
                assert(entry_keys(self@)[a] == entry_keys(old(self)@)[a]);
                assert(entry_keys(self@)[b] == entry_keys(old(self)@)[b]);
            }
        }
    }

    /// The map without the entries named in `names`.
    pub fn without(&self, names: &NameSet) -> (m: CellMap)
        requires
            self.wf(),
        ensures
            m.wf(),
            m@ == drop_names(self@, names@),
    {
        let mut m = CellMap::new();
        let mut i: usize = 0;
        let ghost s = self@;
        assert(s.take(0) =~= Seq::<(Seq<char>, u8)>::empty());
        assert(drop_names(s.take(0), names@) =~= m@);
        while i < self.len()
            invariant
                s == self@,
                i <= s.len(),
                m.wf(),
                m@ == drop_names(s.take(i as int), names@),
                strictly_sorted(entry_keys(s)),
            decreases s.len() - i,
        {
            proof {
                assert(s.take(i + 1).drop_last() =~= s.take(i as int));
                assert(s.take(i + 1).last() == s[i as int]);
                assert(strictly_sorted(entry_keys(s.take(i as int)))) by {
                    assert forall|a: int, b: int| 0 <= a < b < entry_keys(s.take(i as int)).len() implies seq_lt(
                        #[trigger] entry_keys(s.take(i as int))[a],
                        #[trigger] entry_keys(s.take(i as int))[b],
                    ) by {
                        assert(entry_keys(s.take(i as int))[a] == entry_keys(s)[a]);
                        assert(entry_keys(s.take(i as int))[b] == entry_keys(s)[b]);
                    }
                }
                lemma_drop_names(s.take(i as int), names@);
            }
            let name = self.name_at(i);
            if !names.contains(name) {
                proof {
                    assert forall|k: int| 0 <= k < m@.len() implies seq_lt(#[trigger] m@[k].0, name@) by {
                        let j = choose|j: int|
                            0 <= j < s.take(i as int).len() && s.take(i as int)[j] == #[trigger] drop_names(
                                s.take(i as int),
                                names@,
                            )[k] && !names@.contains(s.take(i as int)[j].0);
                        assert(seq_lt(entry_keys(s)[j], entry_keys(s)[i as int]));
                    }
                }
                m.push_greatest(name, self.cell_at(i));
            }
            i += 1;
        }
        assert(s.take(s.len() as int) =~= s);
        m
    }
}

/// `x` is the largest cell index of the entries.
pub open spec fn is_max_cell(s: Seq<(Seq<char>, u8)>, x: u8) -> bool {
    &&& exists|i: int| 0 <= i < s.len() && #[trigger] s[i].1 == x
    &&& forall|i: int| 0 <= i < s.len() ==> #[trigger] s[i].1 <= x
}

/// The next free cell index: one past the largest (saturating at 255), 0
/// when there is none.
pub open spec fn next_cell(s: Seq<(Seq<char>, u8)>) -> u8 {
    if s.len() == 0 {
        0
    } else {
        let m = choose|x: u8| is_max_cell(s, x);
        if m == 255 {
            255
        } else {
            (m + 1) as u8
        }
    }
}

/// The cell index after `c` (saturating at 255).
pub open spec fn bump_cell(c: u8) -> u8 {
    if c == 255 {
        255
    } else {
        (c + 1) as u8
    }
}

/// A non-empty entry list has a largest cell index.
proof fn lemma_max_cell_exists(s: Seq<(Seq<char>, u8)>)
    requires
        s.len() > 0,
    ensures
        exists|x: u8| is_max_cell(s, x),
    decreases s.len(),
{
    if s.len() == 1 {
        assert(is_max_cell(s, s[0].1));
    } else {
        let t = s.drop_last();
        lemma_max_cell_exists(t);
        let m = choose|x: u8| is_max_cell(t, x);
        let i = choose|i: int| 0 <= i < t.len() && #[trigger] t[i].1 == m;
        assert(s[i].1 == m);
        if s.last().1 > m {
            assert forall|k: int| 0 <= k < s.len() implies #[trigger] s[k].1 <= s.last().1 by {
                if k < t.len() {
                    assert(t[k].1 <= m);
                }
            }
            assert(is_max_cell(s, s.last().1));
        } else {
            assert forall|k: int| 0 <= k < s.len() implies #[trigger] s[k].1 <= m by {
                if k < t.len() {
                    assert(t[k].1 <= m);
                }
            }
            assert(is_max_cell(s, m));
        }
    }
}

/// The largest cell index is unique.
proof fn lemma_max_cell_unique(s: Seq<(Seq<char>, u8)>, x: u8, y: u8)
    requires
        is_max_cell(s, x),
        is_max_cell(s, y),
    ensures
        x == y,
{
    let i = choose|i: int| 0 <= i < s.len() && #[trigger] s[i].1 == x;
    let j = choose|j: int| 0 <= j < s.len() && #[trigger] s[j].1 == y;
    assert(s[i].1 <= y);
    assert(s[j].1 <= x);
}

/// After recording the next free cell for a name, the next free cell is the
/// one after it: every other entry keeps a cell it had before, which lies
/// below (or, saturated, at) the recorded one.
pub proof fn lemma_next_cell_after_insert(before: Seq<(Seq<char>, u8)>, after: Seq<(Seq<char>, u8)>, name: Seq<char>)
    requires
        strictly_sorted(entry_keys(before)),
        strictly_sorted(entry_keys(after)),
        lookup(after, name) == Some(next_cell(before)),
        forall|n: Seq<char>| n != name ==> #[trigger] lookup(after, n) == lookup(before, n),
    ensures
        next_cell(after) == bump_cell(next_cell(before)),
{
    let c = next_cell(before);
    if before.len() > 0 {
        lemma_max_cell_exists(before);
    }
    assert forall|j: int| 0 <= j < before.len() implies #[trigger] before[j].1 <= c by {
        let m = choose|x: u8| is_max_cell(before, x);
        assert(before[j].1 <= m);
    }
    assert(has_key(after, name));
    let w = choose|w: int| 0 <= w < after.len() && #[trigger] after[w].0 == name;
    lemma_lookup_at(after, w);
    assert(after[w].1 == c);
    assert forall|k: int| 0 <= k < after.len() implies #[trigger] after[k].1 <= c by {
        lemma_lookup_at(after, k);
        if after[k].0 != name {
            assert(lookup(before, after[k].0) == Some(after[k].1));
            assert(has_key(before, after[k].0));
            let j = choose|j: int| 0 <= j < before.len() && #[trigger] before[j].0 == after[k].0;
            lemma_lookup_at(before, j);
            assert(before[j].1 == after[k].1);
        }
    }
    assert(is_max_cell(after, c));
    let m2 = choose|x: u8| is_max_cell(after, x);
    lemma_max_cell_unique(after, c, m2);
}

/// The next free cell index is used by no entry, unless the indices have
/// reached the byte limit (255).
pub proof fn lemma_next_cell_fresh(s: Seq<(Seq<char>, u8)>)
    ensures
        next_cell(s) == 255 || forall|i: int| 0 <= i < s.len() ==> #[trigger] s[i].1 < next_cell(s),
{
    if s.len() > 0 {
        lemma_max_cell_exists(s);
        let m = choose|x: u8| is_max_cell(s, x);
        assert forall|i: int| 0 <= i < s.len() implies #[trigger] s[i].1 <= m by {}
    }
}

impl CellMap {
    /// The next free cell index (one past the largest, saturating; 0 for
    /// an empty map).
    pub fn next_cell(&self) -> (r: u8)
        ensures
            r == next_cell(self@),
    {
        if self.entries.len() == 0 {
            return 0;
        }
        let mut m: u8 = self.entries[0].1;
        let mut i: usize = 1;
        assert(self@[0].1 == m);
        while i < self.entries.len()
            invariant
                1 <= i <= self@.len(),
                self@.len() == self.entries@.len(),
                exists|k: int| 0 <= k < i && #[trigger] self@[k].1 == m,
                forall|k: int| 0 <= k < i ==> #[trigger] self@[k].1 <= m,
            decreases self.entries.len() - i,
        {
            assert(self@[i as int].1 == self.entries@[i as int].1);
            if self.entries[i].1 > m {
                m = self.entries[i].1;
            }
            i += 1;
        }
        proof {
            assert(is_max_cell(self@, m));
            let x = choose|x: u8| is_max_cell(self@, x);
            lemma_max_cell_unique(self@, m, x);
        }
        if m == 255 {
            255
        } else {
            m + 1
        }
    }
}

} // verus!
