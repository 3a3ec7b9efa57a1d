//! What a class definition settles before any of its code is emitted: its
//! constructor, its instance fields, its private names and their ids, the
//! slots of its computed keys, and the synthetic cells its element
//! functions capture (the class name, the computed field keys, the brand).
use vstd::prelude::*;
use vstd::string::StringExecFns;
use crate::ast::{ClassElement, MethodDefinitionKind, PropertyKey};
use crate::cells::{bump_cell, lemma_next_cell_after_insert, lookup, next_cell, CellMap};
use crate::params::{append_decimal, decimal};
use crate::text::str_eq;

verus! {

/// A private name of a class: its name, its id, the kind of method that
/// declares it (none for a field), and whether it is static.
pub struct PrivateDecl {
    pub name: String,
    pub id: u32,
    pub kind: Option<MethodDefinitionKind>,
    pub is_static: bool,
}

/// A private name as a mathematical value.
pub struct PrivateDeclView {
    pub name: Seq<char>,
    pub id: u32,
    pub kind: Option<MethodDefinitionKind>,
    pub is_static: bool,
}

/// The private names as mathematical values.
pub open spec fn private_views(v: Seq<PrivateDecl>) -> Seq<PrivateDeclView> {
    Seq::new(v.len(), |i: int| PrivateDeclView { name: v[i].name@, id: v[i].id, kind: v[i].kind, is_static: v[i].is_static })
}

/// The outcome of scanning a class body's elements: the position of the
/// constructor, the positions of the instance fields (public and private,
/// in order), the private names, and the next private name id.
pub struct ClassElementsPlan {
    pub constructor: Option<usize>,
    pub instance_fields: Vec<usize>,
    pub private_names: Vec<PrivateDecl>,
    pub next_private_name_id: u32,
}

/// The scan's outcome as a mathematical value.
pub struct PlanView {
    pub constructor: Option<int>,
    pub fields: Seq<int>,
    pub privates: Seq<PrivateDeclView>,
    pub next_id: u32,
}

impl ClassElementsPlan {
    /// The plan as a mathematical value.
    pub open spec fn view_of(&self) -> PlanView {
        PlanView {
            constructor: match self.constructor {
                Some(c) => Some(c as int),
                None => None,
            },
            fields: Seq::new(self.instance_fields@.len(), |i: int| self.instance_fields@[i] as int),
            privates: private_views(self.private_names@),
            next_id: self.next_private_name_id,
        }
    }
}

/// `id + 1`, saturating.
pub open spec fn bump_id(id: u32) -> u32 {
    if id == u32::MAX {
        u32::MAX
    } else {
        (id + 1) as u32
    }
}

/// The first private name called `n`.
pub open spec fn find_private(ps: Seq<PrivateDeclView>, n: Seq<char>) -> Option<PrivateDeclView>
    decreases ps.len(),
{
    if ps.len() == 0 {
        None
    } else if ps[0].name == n {
        Some(ps[0])
    } else {
        find_private(ps.drop_first(), n)
    }
}

/// The message for a private name declared twice.
pub open spec fn duplicate_private_message(n: Seq<char>) -> Seq<char> {
    "duplicate private name #"@ + n
}

/// The message for a second constructor.
pub open spec fn duplicate_constructor_message() -> Seq<char> {
    "duplicate class constructor"@
}

/// The message for an auto-accessor property.
pub open spec fn accessor_message() -> Seq<char> {
    "class accessor properties not yet supported"@
}

/// A getter and a setter of the same private name form one accessor pair.
pub open spec fn accessor_pair(existing: Option<MethodDefinitionKind>, kind: MethodDefinitionKind) -> bool {
    (existing == Some(MethodDefinitionKind::Getter) && kind == MethodDefinitionKind::Setter) || (existing == Some(
        MethodDefinitionKind::Setter,
    ) && kind == MethodDefinitionKind::Getter)
}

/// The plan after adding the private name `n` (a fresh id is handed out).
pub open spec fn add_private(p: PlanView, n: Seq<char>, kind: Option<MethodDefinitionKind>, is_static: bool) -> PlanView {
    PlanView {
        privates: p.privates.push(PrivateDeclView { name: n, id: p.next_id, kind, is_static }),
        next_id: bump_id(p.next_id),
        ..p
    }
}

/// Scanning element `idx`, `e`, with plan `p` so far.
pub open spec fn plan_step(p: PlanView, idx: int, e: ClassElement) -> Result<PlanView, Seq<char>> {
    match e {
        ClassElement::Method { key, kind, is_static, .. } => {
            let after_private: Result<PlanView, Seq<char>> = match key {
                PropertyKey::PrivateIdentifier(n) => match find_private(p.privates, n@) {
                    Some(d) => if accessor_pair(d.kind, kind) {
                        Ok(p)
                    } else {
                        Err(duplicate_private_message(n@))
                    },
                    None => Ok(add_private(p, n@, Some(kind), is_static)),
                },
                _ => Ok(p),
            };
            match after_private {
                Err(m) => Err(m),
                Ok(p1) => if kind == MethodDefinitionKind::Constructor {
                    if p1.constructor is Some {
                        Err(duplicate_constructor_message())
                    } else {
                        Ok(PlanView { constructor: Some(idx), ..p1 })
                    }
                } else {
                    Ok(p1)
                },
            }
        },
        ClassElement::Property { key, is_static, .. } => {
            let after_private: Result<PlanView, Seq<char>> = match key {
                PropertyKey::PrivateIdentifier(n) => if find_private(p.privates, n@) is Some {
                    Err(duplicate_private_message(n@))
                } else {
                    Ok(add_private(p, n@, None, is_static))
                },
                _ => Ok(p),
            };
            match after_private {
                Err(m) => Err(m),
                Ok(p1) => if !is_static {
                    Ok(PlanView { fields: p1.fields.push(idx), ..p1 })
                } else {
                    Ok(p1)
                },
            }
        },
        ClassElement::Accessor => Err(accessor_message()),
        ClassElement::StaticBlock(_) => Ok(p),
        ClassElement::Other => Ok(p),
    }
}

/// Scanning `es` in order, private ids starting at `next_id`; the first
/// error ends the scan.
pub open spec fn plan_elements(es: Seq<ClassElement>, next_id: u32) -> Result<PlanView, Seq<char>>
    decreases es.len(),
{
    if es.len() == 0 {
        Ok(PlanView { constructor: None, fields: Seq::empty(), privates: Seq::empty(), next_id })
    } else {
        match plan_elements(es.drop_last(), next_id) {
            Err(m) => Err(m),
            Ok(p) => plan_step(p, es.len() - 1, es.last()),
        }
    }
}

/// Once a prefix fails, the whole scan fails with the same error.
proof fn lemma_plan_error_sticks(es: Seq<ClassElement>, i: int, next_id: u32, m: Seq<char>)
    requires
        0 <= i <= es.len(),
        plan_elements(es.take(i), next_id) == Err::<PlanView, Seq<char>>(m),
    ensures
        plan_elements(es, next_id) == Err::<PlanView, Seq<char>>(m),
    decreases es.len(),
{
    if i == es.len() {
        assert(es.take(i) =~= es);
    } else {
        assert(es.drop_last().take(i) =~= es.take(i));
        lemma_plan_error_sticks(es.drop_last(), i, next_id, m);
    }
}

/// No private name is found exactly when none has that name.
proof fn lemma_find_private_none(ps: Seq<PrivateDeclView>, n: Seq<char>)
    ensures
        (find_private(ps, n) is None) <==> forall|k: int| 0 <= k < ps.len() ==> #[trigger] ps[k].name != n,
    decreases ps.len(),
{
    if ps.len() > 0 {
        lemma_find_private_none(ps.drop_first(), n);
        assert forall|k: int| 0 < k < ps.len() implies #[trigger] ps[k].name == ps.drop_first()[k - 1].name by {}
        if forall|k: int| 0 <= k < ps.len() ==> #[trigger] ps[k].name != n {
            assert forall|k: int| 0 <= k < ps.drop_first().len() implies #[trigger] ps.drop_first()[k].name != n by {
                assert(ps[k + 1].name != n);
            }
        }
    }
}

/// The private names a class body declares are distinct (a getter and a
/// setter of one name share a single entry), and their ids are handed out
/// consecutively from `next_id` in declaration order (while they fit).
pub proof fn lemma_class_private_ids(es: Seq<ClassElement>, next_id: u32)
    requires
        plan_elements(es, next_id) is Ok,
        next_id + es.len() <= u32::MAX,
    ensures
        ({
            let p = plan_elements(es, next_id)->Ok_0;
            &&& forall|i: int, j: int| 0 <= i < j < p.privates.len() ==> #[trigger] p.privates[i].name != #[trigger] p.privates[j].name
            &&& forall|i: int| 0 <= i < p.privates.len() ==> #[trigger] p.privates[i].id == next_id + i
            &&& p.next_id == next_id + p.privates.len()
            &&& p.privates.len() <= es.len()
        }),
    decreases es.len(),
{
    if es.len() > 0 {
        let prev = es.drop_last();
        assert(plan_elements(prev, next_id) is Ok);
        lemma_class_private_ids(prev, next_id);
        let p = plan_elements(prev, next_id)->Ok_0;
        match es.last() {
            ClassElement::Method { key, .. } => {
                if let PropertyKey::PrivateIdentifier(n) = key {
                    lemma_find_private_none(p.privates, n@);
                }
            },
            ClassElement::Property { key, .. } => {
                if let PropertyKey::PrivateIdentifier(n) = key {
                    lemma_find_private_none(p.privates, n@);
                }
            },
            _ => {},
        }
    }
}

/// The private name element `e` declares and the kind of method declaring
/// it (none for a field), if it declares one.
pub open spec fn element_private(e: ClassElement) -> Option<(Seq<char>, Option<MethodDefinitionKind>)> {
    match e {
        ClassElement::Method { key: PropertyKey::PrivateIdentifier(n), kind, .. } => Some((n@, Some(kind))),
        ClassElement::Property { key: PropertyKey::PrivateIdentifier(n), .. } => Some((n@, None)),
        _ => None,
    }
}

/// The declaring kind of the first of `es` to declare private name `n`.
pub open spec fn first_private_kind(es: Seq<ClassElement>, n: Seq<char>) -> Option<Option<MethodDefinitionKind>>
    decreases es.len(),
{
    if es.len() == 0 {
        None
    } else {
        match first_private_kind(es.drop_last(), n) {
            Some(k) => Some(k),
            None => match element_private(es.last()) {
                Some(d) => if d.0 == n {
                    Some(d.1)
                } else {
                    None
                },
                None => None,
            },
        }
    }
}

/// `e` is a constructor.
pub open spec fn is_constructor(e: ClassElement) -> bool {
    e matches ClassElement::Method { kind: MethodDefinitionKind::Constructor, .. }
}

/// Some element of `es` is a constructor.
pub open spec fn has_constructor(es: Seq<ClassElement>) -> bool {
    exists|j: int| 0 <= j < es.len() && is_constructor(#[trigger] es[j])
}

/// Element `e`, after the elements `prev`, is refused: an auto-accessor
/// property; a private name declared before, unless `e` completes a getter
/// and setter pair with its first declaration; a second constructor.
pub open spec fn element_conflict(prev: Seq<ClassElement>, e: ClassElement) -> bool {
    ||| e is Accessor
    ||| match element_private(e) {
        Some(d) => match first_private_kind(prev, d.0) {
            Some(k) => !(d.1 is Some && accessor_pair(k, d.1->0)),
            None => false,
        },
        None => false,
    }
    ||| is_constructor(e) && has_constructor(prev)
}

/// A private name pushed after the others is found only where none of them
/// has its name.
proof fn lemma_find_private_push(ps: Seq<PrivateDeclView>, x: PrivateDeclView, n: Seq<char>)
    ensures
        find_private(ps.push(x), n) == match find_private(ps, n) {
            Some(d) => Some(d),
            None => if x.name == n {
                Some(x)
            } else {
                None
            },
        },
    decreases ps.len(),
{
    if ps.len() > 0 {
        assert(ps.push(x)[0] == ps[0]);
        assert(ps.push(x).drop_first() =~= ps.drop_first().push(x));
        lemma_find_private_push(ps.drop_first(), x, n);
    } else {
        assert(ps.push(x)[0] == x);
        assert(ps.push(x).drop_first() =~= Seq::<PrivateDeclView>::empty());
        assert(find_private(Seq::<PrivateDeclView>::empty(), n) is None);
    }
}

/// A successful scan records each private name with the kind of its first
/// declaration, and a constructor exactly when the body has one.
proof fn lemma_plan_tracks_elements(es: Seq<ClassElement>, next_id: u32)
    requires
        plan_elements(es, next_id) is Ok,
    ensures
        ({
            let p = plan_elements(es, next_id)->Ok_0;
            &&& forall|n: Seq<char>| #![trigger find_private(p.privates, n)]
                match find_private(p.privates, n) {
                    Some(d) => first_private_kind(es, n) == Some(d.kind),
                    None => first_private_kind(es, n) is None,
                }
            &&& (p.constructor is Some) == has_constructor(es)
        }),
    decreases es.len(),
{
    if es.len() > 0 {
        let prev = es.drop_last();
        lemma_plan_tracks_elements(prev, next_id);
        let p = plan_elements(prev, next_id)->Ok_0;
        let q = plan_elements(es, next_id)->Ok_0;
        let e = es.last();
        assert forall|n: Seq<char>| #![trigger find_private(q.privates, n)]
            match find_private(q.privates, n) {
                Some(d) => first_private_kind(es, n) == Some(d.kind),
                None => first_private_kind(es, n) is None,
            } by {
            assert(find_private(p.privates, n) is Some || find_private(p.privates, n) is None);
            match e {
                ClassElement::Method { key, kind, is_static, .. } => {
                    if let PropertyKey::PrivateIdentifier(m) = key {
                        if find_private(p.privates, m@) is None {
                            lemma_find_private_push(p.privates, PrivateDeclView { name: m@, id: p.next_id, kind: Some(kind), is_static }, n);
                        }
                    }
                },
                ClassElement::Property { key, is_static, .. } => {
                    if let PropertyKey::PrivateIdentifier(m) = key {
                        if find_private(p.privates, m@) is None {
                            lemma_find_private_push(p.privates, PrivateDeclView { name: m@, id: p.next_id, kind: None, is_static }, n);
                        }
                    }
                },
                _ => {},
            }
        }
        assert(has_constructor(es) == (has_constructor(prev) || is_constructor(e))) by {
            if has_constructor(prev) {
                let j = choose|j: int| 0 <= j < prev.len() && is_constructor(#[trigger] prev[j]);
                assert(es[j] == prev[j]);
            }
            if has_constructor(es) {
                let j = choose|j: int| 0 <= j < es.len() && is_constructor(#[trigger] es[j]);
                if j < es.len() - 1 {
                    assert(prev[j] == es[j]);
                }
            }
            if is_constructor(e) {
                assert(es[es.len() - 1] == e);
            }
        }
    } else {
        assert forall|j: int| 0 <= j < es.len() implies !is_constructor(#[trigger] es[j]) by {}
    }
}

/// A class body is refused exactly when one of its elements conflicts with
/// those before it: an auto-accessor property, a private name declared
/// twice (other than as a getter and a setter), or a second constructor.
pub proof fn lemma_class_plan_errors(es: Seq<ClassElement>, next_id: u32)
    ensures
        (plan_elements(es, next_id) is Err) <==> exists|i: int| 0 <= i < es.len() && #[trigger] element_conflict(es.take(i), es[i]),
    decreases es.len(),
{
    if es.len() > 0 {
        let prev = es.drop_last();
        let last = es.len() - 1;
        lemma_class_plan_errors(prev, next_id);
        assert(es.take(last) =~= prev);
        assert forall|i: int| 0 <= i < last implies (#[trigger] element_conflict(es.take(i), es[i])) == element_conflict(
            prev.take(i),
            prev[i],
        ) by {
            assert(es.take(i) =~= prev.take(i));
        }
        if plan_elements(prev, next_id) is Err {
            let i = choose|i: int| 0 <= i < prev.len() && #[trigger] element_conflict(prev.take(i), prev[i]);
            assert(element_conflict(es.take(i), es[i]));
        } else {
            lemma_plan_tracks_elements(prev, next_id);
            let p = plan_elements(prev, next_id)->Ok_0;
            let e = es.last();
            assert(es[last] == e);
            match e {
                ClassElement::Method { key, .. } => {
                    if let PropertyKey::PrivateIdentifier(m) = key {
                        assert(find_private(p.privates, m@) is Some || find_private(p.privates, m@) is None);
                    }
                },
                ClassElement::Property { key, .. } => {
                    if let PropertyKey::PrivateIdentifier(m) = key {
                        assert(find_private(p.privates, m@) is Some || find_private(p.privates, m@) is None);
                    }
                },
                _ => {},
            }
            assert((plan_elements(es, next_id) is Err) == element_conflict(es.take(last), es[last]));
            if exists|i: int| 0 <= i < es.len() && #[trigger] element_conflict(es.take(i), es[i]) {
                let i = choose|i: int| 0 <= i < es.len() && #[trigger] element_conflict(es.take(i), es[i]);
                if i < last {
                    assert(element_conflict(prev.take(i), prev[i]));
                }
            }
        }
    }
}

/// The first private name called `name`, searching the declarations in order.
fn find_private_decl(ps: &Vec<PrivateDecl>, name: &str) -> (r: Option<Option<MethodDefinitionKind>>)
    ensures
        match find_private(private_views(ps@), name@) {
            Some(d) => r == Some(d.kind),
            None => r is None,
        },
{
    let ghost v = private_views(ps@);
    let mut i: usize = 0;
    assert(v.skip(0) =~= v);
    while i < ps.len()
        invariant
            i <= ps@.len(),
            v == private_views(ps@),
            find_private(v, name@) == find_private(v.skip(i as int), name@),
        decreases ps.len() - i,
    {
        assert(v.skip(i as int)[0] == v[i as int]);
        if str_eq(ps[i].name.as_str(), name) {
            return Some(ps[i].kind);
        }
        assert(v.skip(i as int).drop_first() =~= v.skip(i + 1));
        i += 1;
    }
    assert(v.skip(i as int).len() == 0);
    None
}

/// Builds the duplicate-private-name message.
fn duplicate_private(name: &str) -> (m: String)
    ensures
        m@ == duplicate_private_message(name@),
{
    let mut m = String::from_str("duplicate private name #");
    m.append(name);
    m
}

/// Scans a class body: finds its constructor (a second one is an error),
/// its instance fields, and its private names, handing out private ids from
/// `next_private_name_id` in order (a getter and a setter of one name share
/// one; any other repeated private name is an error). Auto-accessor
/// properties are not supported.
pub fn plan_class_elements(elements: &Vec<ClassElement>, next_private_name_id: u32) -> (r: Result<ClassElementsPlan, String>)
    ensures
        match plan_elements(elements@, next_private_name_id) {
            Ok(v) => r matches Ok(plan) && plan.view_of() == v,
            Err(m) => r matches Err(e) && e@ == m,
        },
{
    let mut plan = ClassElementsPlan {
        constructor: None,
        instance_fields: Vec::new(),
        private_names: Vec::new(),
        next_private_name_id,
    };
    let mut i: usize = 0;
    assert(elements@.take(0) =~= Seq::<ClassElement>::empty());
    assert(plan.view_of() == PlanView { constructor: None, fields: Seq::empty(), privates: Seq::empty(), next_id: next_private_name_id }) by {
        assert(plan.view_of().fields =~= Seq::<int>::empty());
        assert(plan.view_of().privates =~= Seq::<PrivateDeclView>::empty());
    }
    while i < elements.len()
        invariant
            i <= elements@.len(),
            plan_elements(elements@.take(i as int), next_private_name_id) == Ok::<PlanView, Seq<char>>(plan.view_of()),
            forall|k: int| 0 <= k < plan.instance_fields@.len() ==> plan.instance_fields@[k] < i,
        decreases elements.len() - i,
    {
        let ghost p = plan.view_of();
        proof {
            assert(elements@.take(i + 1).drop_last() =~= elements@.take(i as int));
            assert(elements@.take(i + 1).last() == elements@[i as int]);
        }
        let ghost step = plan_step(p, i as int, elements@[i as int]);
        assert(plan_elements(elements@.take(i + 1), next_private_name_id) == step);
        match &elements[i] {
            ClassElement::Method { key, kind, is_static, .. } => {
                if let PropertyKey::PrivateIdentifier(n) = key {
                    match find_private_decl(&plan.private_names, n.as_str()) {
                        Some(existing) => {
                            let pair = match existing {
                                Some(MethodDefinitionKind::Getter) => *kind == MethodDefinitionKind::Setter,
                                Some(MethodDefinitionKind::Setter) => *kind == MethodDefinitionKind::Getter,
                                _ => false,
                            };
                            if !pair {
                                let m = duplicate_private(n.as_str());
                                proof {
                                    lemma_plan_error_sticks(elements@, i + 1, next_private_name_id, m@);
                                }
                                return Err(m);
                            }
                        },
                        None => {
                            let id = plan.next_private_name_id;
                            plan.next_private_name_id = plan.next_private_name_id.saturating_add(1);
                            plan.private_names.push(
                                PrivateDecl { name: n.clone(), id, kind: Some(*kind), is_static: *is_static },
                            );
                            assert(plan.view_of().privates =~= p.privates.push(
                                PrivateDeclView { name: n@, id, kind: Some(*kind), is_static: *is_static },
                            ));
                        },
                    }
                }
                if *kind == MethodDefinitionKind::Constructor {
                    if plan.constructor.is_some() {
                        let m = String::from_str("duplicate class constructor");
                        proof {
                            lemma_plan_error_sticks(elements@, i + 1, next_private_name_id, m@);
                        }
                        return Err(m);
                    }
                    plan.constructor = Some(i);
                }
            },
            ClassElement::Property { key, is_static, .. } => {
                if let PropertyKey::PrivateIdentifier(n) = key {
                    if find_private_decl(&plan.private_names, n.as_str()).is_some() {
                        let m = duplicate_private(n.as_str());
                        proof {
                            lemma_plan_error_sticks(elements@, i + 1, next_private_name_id, m@);
                        }
                        return Err(m);
                    }
                    let id = plan.next_private_name_id;
                    plan.next_private_name_id = plan.next_private_name_id.saturating_add(1);
                    plan.private_names.push(PrivateDecl { name: n.clone(), id, kind: None, is_static: *is_static });
                    assert(plan.view_of().privates =~= p.privates.push(
                        PrivateDeclView { name: n@, id, kind: None, is_static: *is_static },
                    ));
                }
                if !*is_static {
                    let ghost before = plan.view_of();
                    plan.instance_fields.push(i);
                    assert(plan.view_of().fields =~= before.fields.push(i as int));
                }
            },
            ClassElement::Accessor => {
                let m = String::from_str("class accessor properties not yet supported");
                proof {
                    lemma_plan_error_sticks(elements@, i + 1, next_private_name_id, m@);
                }
                return Err(m);
            },
            ClassElement::StaticBlock(_) => {},
            ClassElement::Other => {},
        }
        assert(step == Ok::<PlanView, Seq<char>>(plan.view_of()));
        i += 1;
    }
    assert(elements@.take(elements@.len() as int) =~= elements@);
    Ok(plan)
}

/// The element's key is computed (`[expr]`).
pub open spec fn computed_key(e: ClassElement) -> bool {
    match e {
        ClassElement::Method { key, .. } => key is Computed,
        ClassElement::Property { key, .. } => key is Computed,
        _ => false,
    }
}

/// The number of elements with computed keys.
pub open spec fn computed_count(es: Seq<ClassElement>) -> nat
    decreases es.len(),
{
    if es.len() == 0 {
        0
    } else {
        computed_count(es.drop_last()) + if computed_key(es.last()) {
            1nat
        } else {
            0nat
        }
    }
}

/// A prefix has no more computed keys than the whole.
proof fn lemma_computed_count_prefix(es: Seq<ClassElement>, i: int)
    requires
        0 <= i <= es.len(),
    ensures
        computed_count(es.take(i)) <= computed_count(es),
    decreases es.len(),
{
    if i < es.len() {
        assert(es.drop_last().take(i) =~= es.take(i));
        lemma_computed_count_prefix(es.drop_last(), i);
    } else {
        assert(es.take(i) =~= es);
    }
}

/// The slots of a class's computed keys: each element with a computed key
/// gets the next slot, in source order (methods and fields alike; private
/// names are never computed); the second result is the number of slots.
/// Slots are bytes, so at most 255 computed keys are taken.
pub fn class_key_slots(elements: &Vec<ClassElement>) -> (r: (Vec<Option<u8>>, u8))
    requires
        computed_count(elements@) <= 255,
    ensures
        r.0@.len() == elements@.len(),
        forall|i: int| 0 <= i < elements@.len() ==> #[trigger] r.0@[i] == if computed_key(elements@[i]) {
            Some(computed_count(elements@.take(i)) as u8)
        } else {
            None
        },
        r.1 == computed_count(elements@),
{
    let mut slots: Vec<Option<u8>> = Vec::new();
    let mut count: u8 = 0;
    let mut i: usize = 0;
    assert(elements@.take(0) =~= Seq::<ClassElement>::empty());
    while i < elements.len()
        invariant
            i <= elements@.len(),
            computed_count(elements@) <= 255,
            slots@.len() == i,
            count == computed_count(elements@.take(i as int)),
            forall|k: int| 0 <= k < i ==> #[trigger] slots@[k] == if computed_key(elements@[k]) {
                Some(computed_count(elements@.take(k)) as u8)
            } else {
                None
            },
        decreases elements.len() - i,
    {
        proof {
            assert(elements@.take(i + 1).drop_last() =~= elements@.take(i as int));
            assert(elements@.take(i + 1).last() == elements@[i as int]);
            lemma_computed_count_prefix(elements@, i + 1);
        }
        let computed = match &elements[i] {
            ClassElement::Method { key, .. } => matches!(key, PropertyKey::Computed(_)),
            ClassElement::Property { key, .. } => matches!(key, PropertyKey::Computed(_)),
            _ => false,
        };
        if computed {
            slots.push(Some(count));
            count = count + 1;
        } else {
            slots.push(None);
        }
        i += 1;
    }
    assert(elements@.take(elements@.len() as int) =~= elements@);
    (slots, count)
}

/// Some instance field has a computed key (its key is evaluated when the
/// class is defined and kept for the constructor).
pub open spec fn computed_instance_keys(es: Seq<ClassElement>) -> bool {
    exists|i: int| 0 <= i < es.len() && (#[trigger] es[i] matches ClassElement::Property { key, is_static, .. } && key is Computed
        && !is_static)
}

/// Whether some instance field has a computed key.
pub fn has_computed_instance_keys(elements: &Vec<ClassElement>) -> (r: bool)
    ensures
        r == computed_instance_keys(elements@),
{
    let mut i: usize = 0;
    while i < elements.len()
        invariant
            i <= elements@.len(),
            forall|k: int| 0 <= k < i ==> !(#[trigger] elements@[k] matches ClassElement::Property { key, is_static, .. }
                && key is Computed && !is_static),
        decreases elements.len() - i,
    {
        if let ClassElement::Property { key, is_static, .. } = &elements[i] {
            if !*is_static && matches!(key, PropertyKey::Computed(_)) {
                return true;
            }
        }
        i += 1;
    }
    false
}

impl ClassElementsPlan {
    /// Hands out the class's brand id when it has private names (its
    /// private methods, accessors and static fields are checked against the
    /// brand); a class without private names gets none.
    pub fn assign_brand_id(&mut self) -> (r: Option<u32>)
        ensures
            old(self).private_names@.len() > 0 ==> r == Some(old(self).next_private_name_id)
                && final(self).next_private_name_id == bump_id(old(self).next_private_name_id),
            old(self).private_names@.len() == 0 ==> r is None && final(self).next_private_name_id == old(
                self,
            ).next_private_name_id,
            final(self).constructor == old(self).constructor,
            final(self).instance_fields@ == old(self).instance_fields@,
            final(self).private_names@ == old(self).private_names@,
    {
        if self.private_names.len() > 0 {
            let id = self.next_private_name_id;
            self.next_private_name_id = self.next_private_name_id.saturating_add(1);
            Some(id)
        } else {
            None
        }
    }
}

/// The synthetic name of the class-name cell with index `c`.
pub open spec fn class_self_name(c: u8) -> Seq<char> {
    "@@class_self_"@ + decimal(c as nat)
}

/// Records `name` with the next free cell index and returns that index.
fn allocate_cell(captured: &mut CellMap, name: &str) -> (c: u8)
    requires
        old(captured).wf(),
    ensures
        final(captured).wf(),
        c == next_cell(old(captured)@),
        next_cell(final(captured)@) == bump_cell(c),
        lookup(final(captured)@, name@) == Some(c),
        forall|n: Seq<char>| n != name@ ==> #[trigger] lookup(final(captured)@, n) == lookup(old(captured)@, n),
{
    let c = captured.next_cell();
    captured.insert(name, c);
    proof {
        lemma_next_cell_after_insert(old(captured)@, captured@, name@);
    }
    c
}

/// The synthetic cell names are distinct.
proof fn lemma_synthetic_names_differ(c: u8)
    ensures
        class_self_name(c) != "@@field_keys"@,
        class_self_name(c) != "@@class_brand"@,
        "@@field_keys"@ != "@@class_brand"@,
{
    reveal_strlit("@@class_self_");
    reveal_strlit("@@field_keys");
    reveal_strlit("@@class_brand");
    assert(class_self_name(c)[2] == 'c');
    assert(class_self_name(c)[8] == 's');
    assert("@@field_keys"@[2] == 'f');
    assert("@@class_brand"@[8] == 'b');
}

/// Allocates the synthetic cells of a class in `captured`, each the next
/// free index in turn: the class-name cell `@@class_self_<index>` (a named
/// class), `@@field_keys` (computed instance field keys) and
/// `@@class_brand` (private names).
pub fn allocate_class_cells(captured: &mut CellMap, named: bool, computed_instance: bool, branded: bool) -> (r: (
    Option<u8>,
    Option<u8>,
    Option<u8>,
))
    requires
        old(captured).wf(),
    ensures
        final(captured).wf(),
        ({
            let c0 = next_cell(old(captured)@);
            let c1 = if named {
                bump_cell(c0)
            } else {
                c0
            };
            let c2 = if computed_instance {
                bump_cell(c1)
            } else {
                c1
            };
            &&& r.0 == if named {
                Some(c0)
            } else {
                None::<u8>
            }
            &&& r.1 == if computed_instance {
                Some(c1)
            } else {
                None::<u8>
            }
            &&& r.2 == if branded {
                Some(c2)
            } else {
                None::<u8>
            }
            &&& named ==> lookup(final(captured)@, class_self_name(c0)) == Some(c0)
            &&& computed_instance ==> lookup(final(captured)@, "@@field_keys"@) == Some(c1)
            &&& branded ==> lookup(final(captured)@, "@@class_brand"@) == Some(c2)
            &&& forall|n: Seq<char>|
                !(named && n == class_self_name(c0)) && !(computed_instance && n == "@@field_keys"@) && !(branded && n
                    == "@@class_brand"@) ==> #[trigger] lookup(final(captured)@, n) == lookup(old(captured)@, n)
        }),
{
    proof {
        lemma_synthetic_names_differ(next_cell(old(captured)@));
    }
    let self_cell = if named {
        let c = captured.next_cell();
        let mut name = String::from_str("@@class_self_");
        append_decimal(&mut name, c as usize);
        let got = allocate_cell(captured, name.as_str());
        assert(name@ == class_self_name(c));
        assert(got == c);
        Some(c)
    } else {
        None
    };
    let field_cell = if computed_instance {
        Some(allocate_cell(captured, "@@field_keys"))
    } else {
        None
    };
    let brand_cell = if branded {
        Some(allocate_cell(captured, "@@class_brand"))
    } else {
        None
    };
    (self_cell, field_cell, brand_cell)
}

/// The synthetic upvalues a class constructor captures besides its free
/// names: the computed field keys, the brand, and the class name bound to
/// its own cell.
pub fn class_extra_upvalues<'a>(field_key_cell: Option<u8>, brand_cell: Option<u8>, ctor_name: Option<&'a str>, self_cell: Option<u8>) -> (r: Vec<(&'a str, u8)>)
    ensures
        r@ == (match field_key_cell {
            Some(c) => seq![("@@field_keys", c)],
            None => Seq::<(&str, u8)>::empty(),
        }) + (match brand_cell {
            Some(c) => seq![("@@class_brand", c)],
            None => Seq::<(&str, u8)>::empty(),
        }) + (match (ctor_name, self_cell) {
            (Some(n), Some(c)) => seq![(n, c)],
            _ => Seq::<(&str, u8)>::empty(),
        }),
{
    let mut r: Vec<(&'a str, u8)> = Vec::new();
    if let Some(c) = field_key_cell {
        r.push(("@@field_keys", c));
    }
    if let Some(c) = brand_cell {
        r.push(("@@class_brand", c));
    }
    if let (Some(n), Some(c)) = (ctor_name, self_cell) {
        r.push((n, c));
    }
    assert(r@ =~= (match field_key_cell {
        Some(c) => seq![("@@field_keys", c)],
        None => Seq::<(&str, u8)>::empty(),
    }) + (match brand_cell {
        Some(c) => seq![("@@class_brand", c)],
        None => Seq::<(&str, u8)>::empty(),
    }) + (match (ctor_name, self_cell) {
        (Some(n), Some(c)) => seq![(n, c)],
        _ => Seq::<(&str, u8)>::empty(),
    }));
    r
}

} // verus!
