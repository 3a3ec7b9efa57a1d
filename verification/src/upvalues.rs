//! Cell numbering of a function's captured bindings, and the upvalue list of
//! a nested function, aligned with its parent's cells.
use vstd::prelude::*;
use crate::ast::{Expression, Statement};
use crate::capture::{collect_capture_names_expr, collect_capture_names_shadowed, expr_refs, stmts_refs};
use crate::captured::{collect_captured_expr, collect_captured_stmts, expr_captured, stmts_captured};
use crate::cells::{has_key, lookup, sorted_names, strictly_sorted, views, CellMap};
use crate::nameset::NameSet;
use crate::text::str_eq;

verus! {

/// `n` is a binding of `own` captured by a nested function in `stmts` or in
/// one of the parameter default expressions `extra`.
pub open spec fn binding_captured(stmts: Seq<Statement>, extra: Seq<&Expression>, own: Set<Seq<char>>, n: Seq<char>) -> bool {
    stmts_captured(stmts, own, n) || exists|i: int| 0 <= i < extra.len() && expr_captured(*#[trigger] extra[i], own, n)
}

/// Assigns cells to the bindings of `own` that nested functions capture:
/// the captured names in code-point order get cells 0, 1, 2, ... (truncated
/// to eight bits), so that a recompilation of the same program numbers them
/// the same way.
#[verifier::loop_isolation(false)]
pub fn collect_captured_bindings(stmts: &Vec<Statement>, extra_exprs: &[&Expression], own: &NameSet) -> (m: CellMap)
    ensures
        m.wf(),
        forall|n: Seq<char>| #[trigger] has_key(m@, n) <==> binding_captured(stmts@, extra_exprs@, own@, n),
        forall|i: int| 0 <= i < m@.len() ==> (#[trigger] m@[i]).1 == (i % 256) as u8,
{
    let mut names = NameSet::new();
    collect_captured_stmts(stmts, own, &mut names);
    let mut i: usize = 0;
    while i < extra_exprs.len()
        invariant
            i <= extra_exprs@.len(),
            forall|n: Seq<char>| #[trigger] names@.contains(n) == (stmts_captured(stmts@, own@, n) || exists|j: int|
                0 <= j < i && expr_captured(*#[trigger] extra_exprs@[j], own@, n)),
        decreases extra_exprs.len() - i,
    {
        collect_captured_expr(extra_exprs[i], own, &mut names);
        assert forall|n: Seq<char>| #[trigger] names@.contains(n) == (stmts_captured(stmts@, own@, n) || exists|j: int|
            0 <= j < i + 1 && expr_captured(*#[trigger] extra_exprs@[j], own@, n)) by {
            if exists|j: int| 0 <= j < i + 1 && expr_captured(*#[trigger] extra_exprs@[j], own@, n) {
                let j = choose|j: int| 0 <= j < i + 1 && expr_captured(*#[trigger] extra_exprs@[j], own@, n);
                if j < i {
                }
            }
        }
        i += 1;
    }
    let sorted = sorted_names(&names);
    let m = CellMap::numbered(&sorted);
    assert forall|n: Seq<char>| #[trigger] has_key(m@, n) <==> binding_captured(stmts@, extra_exprs@, own@, n) by {
        if has_key(m@, n) {
            let k = choose|k: int| 0 <= k < m@.len() && #[trigger] m@[k].0 == n;
            assert(views(sorted@)[k] == n);
            assert(views(sorted@).contains(n));
            assert(names@.contains(n));
        }
        if binding_captured(stmts@, extra_exprs@, own@, n) {
            assert(names@.contains(n));
            assert(views(sorted@).contains(n));
            let k = choose|k: int| 0 <= k < views(sorted@).len() && views(sorted@)[k] == n;
            assert(m@[k].0 == n);
        }
    }
    m
}

/// One upvalue of a nested function: the parent binding it refers to, the
/// register holding it in the parent (filled in once the parent is emitted),
/// the parent's cell for it, and, when the parent itself took the binding
/// from further out, the position of that upvalue in the parent's list.
pub struct UpvalueCapture {
    pub name: String,
    pub enclosing_reg: u32,
    pub cell_idx: u8,
    pub parent_uv_idx: Option<u8>,
}

/// The names of a list of upvalues, in order.
pub open spec fn upvalue_names(us: Seq<UpvalueCapture>) -> Seq<Seq<char>> {
    Seq::new(us.len(), |i: int| us[i].name@)
}

/// The names a nested function may take from its parent: the parent's
/// celled bindings and the parent's own upvalues.
pub open spec fn parent_names(captured: Seq<(Seq<char>, u8)>, upvalues: Seq<UpvalueCapture>) -> Set<Seq<char>> {
    Set::new(|n: Seq<char>| has_key(captured, n) || upvalue_names(upvalues).contains(n))
}

/// `n` is a parent name that the nested function with body `body` and
/// parameter defaults `extra` refers to, with its own bindings `own` shadowing.
pub open spec fn upvalue_referenced(
    body: Seq<Statement>,
    extra: Seq<&Expression>,
    parents: Set<Seq<char>>,
    own: Set<Seq<char>>,
    n: Seq<char>,
) -> bool {
    stmts_refs(body, parents, own, n) || exists|i: int| 0 <= i < extra.len() && expr_refs(*#[trigger] extra[i], parents, own, n)
}

/// Position of the first upvalue named `n`, truncated to eight bits.
pub open spec fn first_upvalue_index(us: Seq<UpvalueCapture>, n: Seq<char>, r: Option<u8>) -> bool {
    match r {
        Some(x) => exists|j: int|
            0 <= j < us.len() && #[trigger] us[j].name@ == n && x == (j % 256) as u8 && forall|k: int|
                0 <= k < j ==> us[k].name@ != n,
        None => forall|j: int| 0 <= j < us.len() ==> #[trigger] us[j].name@ != n,
    }
}

/// Position of the first upvalue named `name`.
pub fn position_of_upvalue(us: &[UpvalueCapture], name: &str) -> (r: Option<u8>)
    ensures
        first_upvalue_index(us@, name@, r),
{
    let mut j: usize = 0;
    while j < us.len()
        invariant
            j <= us@.len(),
            forall|k: int| 0 <= k < j ==> #[trigger] us@[k].name@ != name@,
        decreases us.len() - j,
    {
        if str_eq(us[j].name.as_str(), name) {
            let x: u8 = (j % 256) as u8;
            return Some(x);
        }
        j += 1;
    }
    None
}

/// The upvalues of a nested function: the parent names (celled bindings and
/// the parent's own upvalues) that its body or parameter defaults refer to,
/// in code-point order so that they line up with the parent's cell order.
/// Each records the parent's cell for the name (0 when the parent has none)
/// and the position of the parent's own upvalue for it, if any; the
/// enclosing register is left 0 for the parent to fill in.
#[verifier::loop_isolation(false)]
pub fn collect_upvalue_names(
    body_stmts: &Vec<Statement>,
    extra_exprs: &[&Expression],
    parent_captured: &CellMap,
    parent_upvalues: &[UpvalueCapture],
    sub_own: &NameSet,
) -> (r: Vec<UpvalueCapture>)
    requires
        parent_captured.wf(),
    ensures
        strictly_sorted(upvalue_names(r@)),
        forall|n: Seq<char>| #[trigger] upvalue_names(r@).contains(n) <==> upvalue_referenced(
            body_stmts@,
            extra_exprs@,
            parent_names(parent_captured@, parent_upvalues@),
            sub_own@,
            n,
        ),
        forall|i: int| 0 <= i < r@.len() ==> (#[trigger] r@[i]).enclosing_reg == 0,
        forall|i: int| 0 <= i < r@.len() ==> (#[trigger] r@[i]).cell_idx == match lookup(parent_captured@, r@[i].name@) {
            Some(c) => c,
            None => 0u8,
        },
        forall|i: int| 0 <= i < r@.len() ==> first_upvalue_index(parent_upvalues@, #[trigger] r@[i].name@, r@[i].parent_uv_idx),
{
    let ghost parents = parent_names(parent_captured@, parent_upvalues@);
    let mut pnames = NameSet::new();
    let mut k: usize = 0;
    while k < parent_captured.len()
        invariant
            k <= parent_captured@.len(),
            forall|n: Seq<char>| #[trigger] pnames@.contains(n) <==> exists|j: int| 0 <= j < k && #[trigger] parent_captured@[j].0 == n,
        decreases parent_captured@.len() - k,
    {
        pnames.insert(parent_captured.name_at(k));
        assert forall|n: Seq<char>| #[trigger] pnames@.contains(n) <==> exists|j: int| 0 <= j < k + 1 && #[trigger] parent_captured@[j].0 == n by {
            if exists|j: int| 0 <= j < k + 1 && #[trigger] parent_captured@[j].0 == n {
                let j = choose|j: int| 0 <= j < k + 1 && #[trigger] parent_captured@[j].0 == n;
                if j < k {
                }
            }
        }
        k += 1;
    }
    let mut u: usize = 0;
    while u < parent_upvalues.len()
        invariant
            u <= parent_upvalues@.len(),
            forall|n: Seq<char>| #[trigger] pnames@.contains(n) <==> (has_key(parent_captured@, n) || exists|j: int|
                0 <= j < u && #[trigger] parent_upvalues@[j].name@ == n),
        decreases parent_upvalues.len() - u,
    {
        pnames.insert(parent_upvalues[u].name.as_str());
        assert forall|n: Seq<char>| #[trigger] pnames@.contains(n) <==> (has_key(parent_captured@, n) || exists|j: int|
            0 <= j < u + 1 && #[trigger] parent_upvalues@[j].name@ == n) by {
            if exists|j: int| 0 <= j < u + 1 && #[trigger] parent_upvalues@[j].name@ == n {
                let j = choose|j: int| 0 <= j < u + 1 && #[trigger] parent_upvalues@[j].name@ == n;
                if j < u {
                }
            }
        }
        u += 1;
    }
    assert forall|n: Seq<char>| #[trigger] pnames@.contains(n) <==> parents.contains(n) by {
        if upvalue_names(parent_upvalues@).contains(n) {
            let j = choose|j: int| 0 <= j < upvalue_names(parent_upvalues@).len() && upvalue_names(parent_upvalues@)[j] == n;
            assert(parent_upvalues@[j].name@ == n);
        }
        if exists|j: int| 0 <= j < parent_upvalues@.len() && #[trigger] parent_upvalues@[j].name@ == n {
            let j = choose|j: int| 0 <= j < parent_upvalues@.len() && #[trigger] parent_upvalues@[j].name@ == n;
            assert(upvalue_names(parent_upvalues@)[j] == n);
        }
    }
    assert(pnames@ =~= parents);

    let mut names = NameSet::new();
    collect_capture_names_shadowed(body_stmts, &pnames, sub_own, &mut names);
    let mut i: usize = 0;
    while i < extra_exprs.len()
        invariant
            i <= extra_exprs@.len(),
            pnames@ == parents,
            forall|n: Seq<char>| #[trigger] names@.contains(n) == (stmts_refs(body_stmts@, parents, sub_own@, n) || exists|j: int|
                0 <= j < i && expr_refs(*#[trigger] extra_exprs@[j], parents, sub_own@, n)),
        decreases extra_exprs.len() - i,
    {
        collect_capture_names_expr(extra_exprs[i], &pnames, sub_own, &mut names);
        assert forall|n: Seq<char>| #[trigger] names@.contains(n) == (stmts_refs(body_stmts@, parents, sub_own@, n) || exists|j: int|
            0 <= j < i + 1 && expr_refs(*#[trigger] extra_exprs@[j], parents, sub_own@, n)) by {
            if exists|j: int| 0 <= j < i + 1 && expr_refs(*#[trigger] extra_exprs@[j], parents, sub_own@, n) {
                let j = choose|j: int| 0 <= j < i + 1 && expr_refs(*#[trigger] extra_exprs@[j], parents, sub_own@, n);
                if j < i {
                }
            }
        }
        i += 1;
    }
    let sorted = sorted_names(&names);
    let mut r: Vec<UpvalueCapture> = Vec::new();
    let mut t: usize = 0;
    while t < sorted.len()
        invariant
            t <= sorted@.len(),
            r@.len() == t,
            forall|q: int| 0 <= q < t ==> (#[trigger] r@[q]).name@ == sorted@[q]@,
            forall|q: int| 0 <= q < t ==> (#[trigger] r@[q]).enclosing_reg == 0,
            forall|q: int| 0 <= q < t ==> (#[trigger] r@[q]).cell_idx == match lookup(parent_captured@, r@[q].name@) {
                Some(c) => c,
                None => 0u8,
            },
            forall|q: int| 0 <= q < t ==> first_upvalue_index(parent_upvalues@, #[trigger] r@[q].name@, r@[q].parent_uv_idx),
        decreases sorted.len() - t,
    {
        let name = sorted[t].as_str();
        let parent_uv_idx = position_of_upvalue(parent_upvalues, name);
        let cell_idx = match parent_captured.get(name) {
            Some(c) => c,
            None => 0u8,
        };
        r.push(UpvalueCapture { name: name.to_owned(), enclosing_reg: 0, cell_idx, parent_uv_idx });
        t += 1;
    }
    assert(upvalue_names(r@) =~= views(sorted@));
    r
}

} // verus!
