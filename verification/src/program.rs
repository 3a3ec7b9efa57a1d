//! The name sets a script's top level settles before any code is emitted:
//! block-level functions that get an outer `var` binding, the names whose
//! only storage is the global object, the captured bindings that keep a
//! cell, and the names of the global declaration prologue.
use vstd::prelude::*;
use vstd::string::StringExecFns;
use crate::ast::Statement;
use crate::block_fn::{
    collect_block_fn_suppressed_names, collect_block_function_names, dedup_from, lemma_dedup_from_contents,
    stmts_block_fns, stmts_lexical,
};
use crate::builtins::{is_non_writable_name, non_writable_global_builtins, table_contains};
use crate::cells::{drop_names, has_key, lemma_drop_names, sorted_names, strictly_sorted, views, CellMap};
use crate::names::{
    collect_own_binding_names, collect_top_level_function_names, collect_top_level_function_names_ordered,
    collect_var_binding_names, stmts_declare, stmts_var_bind, top_level_function_sequence,
};
use crate::nameset::NameSet;
use crate::text::{lemma_seq_lt_irreflexive, lemma_seq_lt_transitive, seq_lt, str_lt};
use crate::upvalues::{binding_captured, collect_captured_bindings};
use crate::builtins::is_builtin_name;
use crate::ctx::{st_builtin, st_builtin_reg, st_const, st_const_idx, st_inst, CompileCtx, ConstKey, Constant, EmitState};
use crate::emit_ops::{
    emitted, gdi_check_names, gdi_checks_state, keyed_define_state, load_const_state, session_define_state,
    throw_error_state,
};
use crate::inst::{Inst, OpCode, Operand};
use crate::emitter::Emitter;

verus! {

/// `s` lists the names of `p` in code-point order, each once.
pub open spec fn sorted_list_of(s: Seq<Seq<char>>, p: Set<Seq<char>>) -> bool {
    strictly_sorted(s) && forall|n: Seq<char>| #[trigger] s.contains(n) <==> p.contains(n)
}

/// A strictly sorted list is determined by its elements.
pub proof fn lemma_sorted_list_unique(a: Seq<Seq<char>>, b: Seq<Seq<char>>)
    requires
        strictly_sorted(a),
        strictly_sorted(b),
        forall|n: Seq<char>| #[trigger] a.contains(n) <==> b.contains(n),
    ensures
        a == b,
    decreases a.len(),
{
    if a.len() == 0 {
        if b.len() > 0 {
            assert(b.contains(b[0]));
            assert(a.contains(b[0]));
            assert(false);
        }
        assert(a =~= b);
    } else {
        assert(a.contains(a[0]));
        assert(b.contains(a[0]));
        assert(b.len() > 0);
        assert(b.contains(b[0]));
        assert(a.contains(b[0]));
        let j = choose|j: int| 0 <= j < b.len() && b[j] == a[0];
        let k = choose|k: int| 0 <= k < a.len() && a[k] == b[0];
        if j > 0 {
            assert(seq_lt(b[0], b[j]));
            if k > 0 {
                assert(seq_lt(a[0], a[k]));
                lemma_seq_lt_transitive(a[0], b[0], a[0]);
                lemma_seq_lt_irreflexive(a[0]);
            } else {
                lemma_seq_lt_irreflexive(a[0]);
            }
        }
        assert(b[0] == a[0]);
        let ta = a.drop_first();
        let tb = b.drop_first();
        assert(strictly_sorted(ta)) by {
            assert forall|x: int, y: int| 0 <= x < y < ta.len() implies seq_lt(#[trigger] ta[x], #[trigger] ta[y]) by {
                assert(ta[x] == a[x + 1] && ta[y] == a[y + 1]);
            }
        }
        assert(strictly_sorted(tb)) by {
            assert forall|x: int, y: int| 0 <= x < y < tb.len() implies seq_lt(#[trigger] tb[x], #[trigger] tb[y]) by {
                assert(tb[x] == b[x + 1] && tb[y] == b[y + 1]);
            }
        }
        assert forall|n: Seq<char>| #[trigger] ta.contains(n) <==> tb.contains(n) by {
            if ta.contains(n) {
                let x = choose|x: int| 0 <= x < ta.len() && ta[x] == n;
                assert(a[x + 1] == n);
                assert(a.contains(n));
                assert(b.contains(n));
                let y = choose|y: int| 0 <= y < b.len() && b[y] == n;
                if y == 0 {
                    assert(seq_lt(a[0], a[x + 1]));
                    lemma_seq_lt_irreflexive(n);
                }
                assert(tb[y - 1] == n);
            }
            if tb.contains(n) {
                let x = choose|x: int| 0 <= x < tb.len() && tb[x] == n;
                assert(b[x + 1] == n);
                assert(b.contains(n));
                assert(a.contains(n));
                let y = choose|y: int| 0 <= y < a.len() && a[y] == n;
                if y == 0 {
                    assert(seq_lt(b[0], b[x + 1]));
                    lemma_seq_lt_irreflexive(n);
                }
                assert(ta[y - 1] == n);
            }
        }
        lemma_sorted_list_unique(ta, tb);
        assert(a =~= seq![a[0]] + ta);
        assert(b =~= seq![b[0]] + tb);
    }
}

/// The merge of two sorted lists: their elements together, in order, a name
/// present in both occurring twice.
pub open spec fn merge(a: Seq<Seq<char>>, b: Seq<Seq<char>>) -> Seq<Seq<char>>
    decreases a.len() + b.len(),
{
    if a.len() == 0 {
        b
    } else if b.len() == 0 {
        a
    } else if seq_lt(b[0], a[0]) {
        seq![b[0]] + merge(a, b.drop_first())
    } else {
        seq![a[0]] + merge(a.drop_first(), b)
    }
}

/// Merges two lists sorted in code-point order.
pub fn merge_sorted(a: &Vec<String>, b: &Vec<String>) -> (r: Vec<String>)
    ensures
        views(r@) == merge(views(a@), views(b@)),
{
    let ghost va = views(a@);
    let ghost vb = views(b@);
    let mut r: Vec<String> = Vec::new();
    let mut i: usize = 0;
    let mut j: usize = 0;
    assert(va.skip(0) =~= va);
    assert(vb.skip(0) =~= vb);
    assert(views(r@) + merge(va.skip(0), vb.skip(0)) =~= merge(va, vb));
    while i < a.len() || j < b.len()
        invariant
            i <= a@.len(),
            j <= b@.len(),
            va == views(a@),
            vb == views(b@),
            views(r@) + merge(va.skip(i as int), vb.skip(j as int)) == merge(va, vb),
        decreases a@.len() + b@.len() - i - j,
    {
        let ghost sa = va.skip(i as int);
        let ghost sb = vb.skip(j as int);
        let ghost before = views(r@);
        let take_b = if i == a.len() {
            true
        } else if j == b.len() {
            false
        } else {
            str_lt(b[j].as_str(), a[i].as_str())
        };
        if take_b {
            proof {
                assert(sb[0] == vb[j as int]);
                assert(sb.drop_first() =~= vb.skip(j + 1));
                if sa.len() == 0 {
                    assert(sb =~= seq![sb[0]] + sb.drop_first());
                    assert(sb.drop_first() == merge(sa, sb.drop_first()));
                }
                assert(merge(sa, sb) == seq![sb[0]] + merge(sa, vb.skip(j + 1)));
            }
            r.push(b[j].clone());
            assert(views(r@) =~= before.push(vb[j as int]));
            assert(views(r@) + merge(sa, vb.skip(j + 1)) =~= before + merge(sa, sb));
            j += 1;
        } else {
            proof {
                assert(sa[0] == va[i as int]);
                assert(sa.drop_first() =~= va.skip(i + 1));
                if sb.len() == 0 {
                    assert(sa =~= seq![sa[0]] + sa.drop_first());
                    assert(sa.drop_first() == merge(sa.drop_first(), sb));
                }
                assert(merge(sa, sb) == seq![sa[0]] + merge(va.skip(i + 1), sb));
            }
            r.push(a[i].clone());
            assert(views(r@) =~= before.push(va[i as int]));
            assert(views(r@) + merge(va.skip(i + 1), sb) =~= before + merge(sa, sb));
            i += 1;
        }
    }
    assert(va.skip(i as int) =~= Seq::<Seq<char>>::empty());
    assert(vb.skip(j as int) =~= Seq::<Seq<char>>::empty());
    assert(views(r@) + merge(Seq::<Seq<char>>::empty(), Seq::<Seq<char>>::empty()) =~= views(r@));
    r
}

/// The first name of `s` that is a read-only global.
pub open spec fn first_read_only(s: Seq<Seq<char>>) -> Option<Seq<char>>
    decreases s.len(),
{
    if s.len() == 0 {
        None
    } else if is_non_writable_name(s[0]) {
        Some(s[0])
    } else {
        first_read_only(s.drop_first())
    }
}

/// The message for a top-level function declaration that cannot create its
/// global binding.
pub open spec fn function_conflict_message(name: Seq<char>) -> Seq<char> {
    "Cannot declare function '"@ + name + "': global property is not configurable"@
}

/// In sloppy eval code, the first top-level function declaration named
/// after a read-only global (`undefined`, `NaN`, `Infinity`): its global
/// binding cannot be created, so the program begins with a TypeError throw
/// carrying the returned message.
pub fn eval_function_declaration_conflict(body: &Vec<Statement>) -> (r: Option<String>)
    ensures
        match first_read_only(top_level_function_sequence(body@)) {
            Some(n) => r matches Some(m) && m@ == function_conflict_message(n),
            None => r is None,
        },
{
    let names = collect_top_level_function_names_ordered(body);
    let ghost all = views(names@);
    assert(all =~= names@.map_values(|s: String| s@));
    let read_only = non_writable_global_builtins();
    let mut i: usize = 0;
    assert(all.skip(0) =~= all);
    while i < names.len()
        invariant
            i <= names@.len(),
            all == views(names@),
            all == top_level_function_sequence(body@),
            first_read_only(all) == first_read_only(all.skip(i as int)),
            crate::builtins::name_views(read_only@) == crate::builtins::non_writable_builtin_table(),
        decreases names.len() - i,
    {
        assert(all.skip(i as int)[0] == names@[i as int]@);
        if table_contains(&read_only, names[i].as_str()) {
            let mut m = String::from_str("Cannot declare function '");
            m.append(names[i].as_str());
            m.append("': global property is not configurable");
            return Some(m);
        }
        assert(all.skip(i as int).drop_first() =~= all.skip(i + 1));
        i += 1;
    }
    None
}

/// `n` is a block-level function of the script that gets an outer `var`
/// binding: sloppy code only, not suppressed by a parameter or lexical
/// declaration, and not a read-only global.
pub open spec fn outer_block_fn(body: Seq<Statement>, is_strict: bool, params: Set<Seq<char>>, n: Seq<char>) -> bool {
    &&& !is_strict
    &&& stmts_block_fns(body, false).contains(n)
    &&& !(params.contains(n) || stmts_lexical(body, n))
    &&& !is_non_writable_name(n)
}

/// `n` is stored only on the global object: a top-level `var`, a top-level
/// function declaration, or an outer block-level function.
pub open spec fn global_tier(body: Seq<Statement>, is_strict: bool, params: Set<Seq<char>>, n: Seq<char>) -> bool {
    stmts_var_bind(body, n) || top_level_function_sequence(body).contains(n) || outer_block_fn(
        body,
        is_strict,
        params,
        n,
    )
}

/// The name sets of a script's top level.
pub struct ProgramNames {
    /// The block-level function names in source order (none in strict code).
    pub block_fn_names: Vec<String>,
    /// The names suppressing an outer binding for block-level functions
    /// (none in strict code).
    pub block_fn_suppressed: NameSet,
    /// The names bound at the top level.
    pub own_bindings: NameSet,
    /// The names whose only storage is the global object.
    pub global_tier_names: NameSet,
    /// The captured bindings that keep a cell (global-object names excluded).
    pub captured_bindings: CellMap,
    /// The captured top-level `var` names, in order (these get an entry cell).
    pub var_cell_names: Vec<String>,
    /// The names of the declaration prologue, in order: the top-level `var`
    /// names and the outer block-level functions (a name in both occurs twice).
    pub gdi_var_names: Vec<String>,
}

/// The outer block-level functions among `names`, in order.
fn outer_block_functions(names: &Vec<String>, suppressed: &NameSet) -> (r: NameSet)
    ensures
        forall|n: Seq<char>| #[trigger] r@.contains(n) <==> (views(names@).contains(n) && !suppressed@.contains(n)
            && !is_non_writable_name(n)),
{
    let read_only = non_writable_global_builtins();
    let mut r = NameSet::new();
    let mut i: usize = 0;
    while i < names.len()
        invariant
            i <= names@.len(),
            crate::builtins::name_views(read_only@) == crate::builtins::non_writable_builtin_table(),
            forall|n: Seq<char>| #[trigger] r@.contains(n) <==> (exists|k: int| 0 <= k < i && names@[k]@ == n)
                && !suppressed@.contains(n) && !is_non_writable_name(n),
        decreases names.len() - i,
    {
        let name = names[i].as_str();
        if !suppressed.contains(name) && !table_contains(&read_only, name) {
            r.insert(name);
        }
        assert forall|n: Seq<char>| #[trigger] r@.contains(n) <==> (exists|k: int| 0 <= k < i + 1 && names@[k]@ == n)
            && !suppressed@.contains(n) && !is_non_writable_name(n) by {
            if exists|k: int| 0 <= k < i + 1 && names@[k]@ == n {
                let k = choose|k: int| 0 <= k < i + 1 && names@[k]@ == n;
                if k < i {
                }
            }
        }
        i += 1;
    }
    assert forall|n: Seq<char>| #[trigger] r@.contains(n) <==> (views(names@).contains(n) && !suppressed@.contains(n)
        && !is_non_writable_name(n)) by {
        if views(names@).contains(n) {
            let k = choose|k: int| 0 <= k < views(names@).len() && views(names@)[k] == n;
            assert(names@[k]@ == n);
        }
        if exists|k: int| 0 <= k < names@.len() && names@[k]@ == n {
            let k = choose|k: int| 0 <= k < names@.len() && names@[k]@ == n;
            assert(views(names@)[k] == n);
        }
    }
    r
}

/// Works out the name sets of a script's top level (`param_names` are the
/// context's parameter names, none at the top level of a script).
#[verifier::rlimit(50)]
pub fn plan_program_names(body: &Vec<Statement>, is_strict: bool, param_names: &NameSet) -> (p: ProgramNames)
    ensures
        views(p.block_fn_names@) == if is_strict {
            Seq::empty()
        } else {
            dedup_from(Seq::empty(), stmts_block_fns(body@, false))
        },
        forall|n: Seq<char>| #[trigger] p.block_fn_suppressed@.contains(n) == (!is_strict && (param_names@.contains(n)
            || stmts_lexical(body@, n))),
        forall|n: Seq<char>| #[trigger] p.own_bindings@.contains(n) == stmts_declare(body@, n),
        forall|n: Seq<char>| #[trigger] p.global_tier_names@.contains(n) == global_tier(body@, is_strict, param_names@, n),
        p.captured_bindings.wf(),
        exists|all: Seq<(Seq<char>, u8)>|
            {
                &&& strictly_sorted(crate::cells::entry_keys(all))
                &&& (forall|n: Seq<char>| #[trigger] has_key(all, n) <==> binding_captured(body@, Seq::empty(), p.own_bindings@, n))
                &&& (forall|i: int| 0 <= i < all.len() ==> (#[trigger] all[i]).1 == (i % 256) as u8)
                &&& p.captured_bindings@ == #[trigger] drop_names(all, p.global_tier_names@)
            },
        sorted_list_of(views(p.var_cell_names@), Set::new(|n: Seq<char>| stmts_var_bind(body@, n) && has_key(p.captured_bindings@, n))),
        p.var_cell_names@.len() == 0,
        exists|vars: Seq<Seq<char>>, outer: Seq<Seq<char>>|
            {
                &&& sorted_list_of(vars, Set::new(|n: Seq<char>| stmts_var_bind(body@, n)))
                &&& sorted_list_of(outer, Set::new(|n: Seq<char>| outer_block_fn(body@, is_strict, param_names@, n)))
                &&& views(p.gdi_var_names@) == #[trigger] merge(vars, outer)
            },
{
    let mut block_fn_names: Vec<String> = Vec::new();
    let mut block_fn_suppressed = NameSet::new();
    if !is_strict {
        block_fn_suppressed = collect_block_fn_suppressed_names(body, param_names);
        block_fn_names = collect_block_function_names(body);
    }
    assert(views(block_fn_names@) =~= (if is_strict {
        Seq::empty()
    } else {
        dedup_from(Seq::empty(), stmts_block_fns(body@, false))
    }));
    proof {
        lemma_dedup_from_contents(Seq::empty(), stmts_block_fns(body@, false));
    }
    let own_bindings = collect_own_binding_names(&[], body);
    assert forall|n: Seq<char>| #[trigger] own_bindings@.contains(n) == stmts_declare(body@, n) by {
        let e: Seq<&str> = Seq::empty();
        assert(!(exists|k: int| 0 <= k < e.len() && #[trigger] e[k]@ == n));
    }
    let var_names = collect_var_binding_names(body);
    let outer = outer_block_functions(&block_fn_names, &block_fn_suppressed);
    let mut tier = var_names.copy();
    let fns = collect_top_level_function_names(body);
    tier.extend(&fns);
    tier.extend(&outer);
    assert forall|n: Seq<char>| #[trigger] outer@.contains(n) == outer_block_fn(body@, is_strict, param_names@, n) by {
        if !is_strict {
            assert(views(block_fn_names@).contains(n) == stmts_block_fns(body@, false).contains(n));
        } else {
            assert(!views(block_fn_names@).contains(n));
        }
    }
    assert forall|n: Seq<char>| #[trigger] tier@.contains(n) == global_tier(body@, is_strict, param_names@, n) by {
        assert(outer@.contains(n) == outer_block_fn(body@, is_strict, param_names@, n));
    }
    let no_exprs: Vec<&crate::ast::Expression> = Vec::new();
    let all = collect_captured_bindings(body, no_exprs.as_slice(), &own_bindings);
    assert(no_exprs@ =~= Seq::<&crate::ast::Expression>::empty());
    let captured_bindings = all.without(&tier);
    let mut var_cell_set = NameSet::new();
    let var_list = sorted_names(&var_names);
    let mut k: usize = 0;
    while k < var_list.len()
        invariant
            k <= var_list@.len(),
            captured_bindings.wf(),
            forall|n: Seq<char>| #[trigger] var_cell_set@.contains(n) <==> (exists|q: int| 0 <= q < k && var_list@[q]@ == n)
                && has_key(captured_bindings@, n),
        decreases var_list.len() - k,
    {
        if captured_bindings.get(var_list[k].as_str()).is_some() {
            var_cell_set.insert(var_list[k].as_str());
        }
        proof {
            assert forall|n: Seq<char>| #[trigger] var_cell_set@.contains(n) <==> (exists|q: int|
                0 <= q < k + 1 && var_list@[q]@ == n) && has_key(captured_bindings@, n) by {
                if exists|q: int| 0 <= q < k + 1 && var_list@[q]@ == n {
                    let q = choose|q: int| 0 <= q < k + 1 && var_list@[q]@ == n;
                    if q < k {
                    }
                }
                if n == var_list@[k as int]@ {
                    if has_key(captured_bindings@, n) {
                        let w = choose|w: int| 0 <= w < captured_bindings@.len() && #[trigger] captured_bindings@[w].0 == n;
                        crate::cells::lemma_lookup_at(captured_bindings@, w);
                    }
                }
            }
        }
        k += 1;
    }
    let var_cell_names = sorted_names(&var_cell_set);
    proof {
        lemma_drop_names(all@, tier@);
        assert forall|n: Seq<char>| #[trigger] var_cell_set@.contains(n) <==> (stmts_var_bind(body@, n) && has_key(
            captured_bindings@,
            n,
        )) by {
            if exists|q: int| 0 <= q < var_list@.len() && var_list@[q]@ == n {
                let q = choose|q: int| 0 <= q < var_list@.len() && var_list@[q]@ == n;
                assert(views(var_list@)[q] == n);
                assert(views(var_list@).contains(n));
                assert(var_names@.contains(n));
            }
            if stmts_var_bind(body@, n) {
                assert(var_names@.contains(n));
                assert(views(var_list@).contains(n));
                let q = choose|q: int| 0 <= q < views(var_list@).len() && views(var_list@)[q] == n;
                assert(var_list@[q]@ == n);
            }
        }
        assert(views(var_cell_names@).len() == 0) by {
            if views(var_cell_names@).len() > 0 {
                let n = views(var_cell_names@)[0];
                assert(views(var_cell_names@).contains(n));
                assert(has_key(captured_bindings@, n));
                let w = choose|w: int| 0 <= w < captured_bindings@.len() && #[trigger] captured_bindings@[w].0 == n;
                let j = choose|j: int| 0 <= j < all@.len() && all@[j] == #[trigger] captured_bindings@[w] && !tier@.contains(all@[j].0);
                assert(tier@.contains(n));
            }
        }
        assert(Set::new(|n: Seq<char>| stmts_var_bind(body@, n) && has_key(captured_bindings@, n)) =~= var_cell_set@);
    }
    let outer_list = sorted_names(&outer);
    let gdi_var_names = merge_sorted(&var_list, &outer_list);
    proof {
        assert(sorted_list_of(views(var_list@), Set::new(|n: Seq<char>| stmts_var_bind(body@, n))));
        assert(sorted_list_of(views(outer_list@), Set::new(|n: Seq<char>| outer_block_fn(body@, is_strict, param_names@, n))));
    }
    proof {
        assert(no_exprs@ == Seq::<&crate::ast::Expression>::empty());
        assert(strictly_sorted(crate::cells::entry_keys(all@)));
        assert(forall|n: Seq<char>| #[trigger] has_key(all@, n) <==> binding_captured(body@, Seq::empty(), own_bindings@, n));
        assert(forall|i: int| 0 <= i < all@.len() ==> (#[trigger] all@[i]).1 == (i % 256) as u8);
        assert(captured_bindings@ == drop_names(all@, tier@));
    }
    let p = ProgramNames {
        block_fn_names,
        block_fn_suppressed,
        own_bindings,
        global_tier_names: tier,
        captured_bindings,
        var_cell_names,
        gdi_var_names,
    };
    proof {
        let w = all@;
        assert(p.captured_bindings@ == drop_names(w, p.global_tier_names@));
        assert(views(p.gdi_var_names@) == merge(views(var_list@), views(outer_list@)));
    }
    p
}

/// One write of the declaration prologue for `n`: a builtin name takes
/// its value from its mirror slot (registered on first use, preloaded with
/// the global's value), any other name takes `undef`; the property is
/// created only where it is missing.
pub open spec fn gdi_write_state(s: EmitState, n: Seq<char>, undef: u32, eval_script: bool) -> EmitState {
    let (s1, v) = if is_builtin_name(n) {
        (st_builtin(s, n), st_builtin_reg(s, n))
    } else {
        (s, undef)
    };
    if eval_script {
        session_define_state(s1, n, v, true)
    } else {
        keyed_define_state(s1, n, v, 1)
    }
}

/// The prologue writes of `names`, in order.
pub open spec fn gdi_writes_state(s: EmitState, names: Seq<Seq<char>>, undef: u32, eval_script: bool) -> EmitState
    decreases names.len(),
{
    if names.len() == 0 {
        s
    } else {
        gdi_write_state(gdi_writes_state(s, names.drop_last(), undef, eval_script), names.last(), undef, eval_script)
    }
}

/// The declaration prologue of `names`: nothing for none; otherwise
/// `undefined` is loaded once and each name written in order.
pub open spec fn gdi_prologue_state(s: EmitState, names: Seq<Seq<char>>, eval_script: bool) -> EmitState {
    if names.len() == 0 {
        s
    } else {
        let (s1, undef) = load_const_state(s, ConstKey::Undefined);
        gdi_writes_state(s1, names, undef, eval_script)
    }
}

/// Each prologue write takes at most two registers.
proof fn lemma_gdi_writes_regs(s: EmitState, names: Seq<Seq<char>>, undef: u32, eval_script: bool)
    ensures
        s.next_reg <= gdi_writes_state(s, names, undef, eval_script).next_reg <= s.next_reg + 2 * names.len(),
    decreases names.len(),
{
    if names.len() > 0 {
        lemma_gdi_writes_regs(s, names.drop_last(), undef, eval_script);
    }
}

impl Emitter {
    /// One write of the declaration prologue.
    fn emit_gdi_var_write(&self, name: &str, undef: u32, ctx: &mut CompileCtx)
        requires
            old(ctx).wf(),
            old(ctx).next_reg + 3 < u32::MAX,
        ensures
            emitted(*old(ctx), *final(ctx)),
            final(ctx).emit_state() == gdi_write_state(old(ctx).emit_state(), name@, undef, old(ctx).is_eval_script),
    {
        let value_reg = if CompileCtx::is_known_builtin(name) {
            ctx.global_slot(name)
        } else {
            undef
        };
        self.emit_global_prop_write_if_absent(name, value_reg, ctx);
    }

    /// The global declaration instantiation prologue of a script: before
    /// the script runs, a global property (value `undefined`, or a builtin
    /// name's preloaded value) is created for each name of `names` (the
    /// prologue names of the script's top level) where it is missing; an
    /// existing property keeps its value.
    pub fn emit_gdi_var_prologue(&self, names: &Vec<String>, ctx: &mut CompileCtx)
        requires
            old(ctx).wf(),
            old(ctx).next_reg + 2 * names@.len() + 3 < u32::MAX,
        ensures
            emitted(*old(ctx), *final(ctx)),
            final(ctx).emit_state() == gdi_prologue_state(old(ctx).emit_state(), views(names@), old(ctx).is_eval_script),
    {
        if names.len() == 0 {
            assert(views(names@).len() == 0);
            return;
        }
        let undef = self.emit_undefined(ctx);
        let ghost s1 = ctx.emit_state();
        let ghost eval_script = ctx.is_eval_script;
        let mut i: usize = 0;
        assert(views(names@).take(0) =~= Seq::<Seq<char>>::empty());
        while i < names.len()
            invariant
                i <= names@.len(),
                eval_script == old(ctx).is_eval_script,
                s1.next_reg == old(ctx).next_reg + 1,
                old(ctx).next_reg + 2 * names@.len() + 3 < u32::MAX,
                emitted(*old(ctx), *ctx),
                ctx.emit_state() == gdi_writes_state(s1, views(names@).take(i as int), undef, eval_script),
            decreases names.len() - i,
        {
            proof {
                assert(views(names@).take(i + 1).drop_last() =~= views(names@).take(i as int));
                assert(views(names@).take(i + 1).last() == names@[i as int]@);
                lemma_gdi_writes_regs(s1, views(names@).take(i as int), undef, eval_script);
            }
            self.emit_gdi_var_write(names[i].as_str(), undef, ctx);
            i += 1;
        }
        assert(views(names@).take(names@.len() as int) =~= views(names@));
    }
}

/// The checks a script makes before any binding is created: in sloppy eval
/// code, a top-level function named after a read-only global throws a
/// TypeError at once; in a script (not eval code) each top-level function
/// name is checked at run time.
pub open spec fn declaration_checks_state(s: EmitState, body: Seq<Statement>, is_eval_script: bool, is_strict: bool) -> EmitState {
    let s1 = if is_eval_script && !is_strict {
        match first_read_only(top_level_function_sequence(body)) {
            Some(n) => throw_error_state(s, "TypeError"@, function_conflict_message(n)).0,
            None => s,
        }
    } else {
        s
    };
    if !is_eval_script {
        gdi_checks_state(s1, gdi_check_names(body))
    } else {
        s1
    }
}

/// The end of a script: its completion value (the last non-empty statement
/// value, or `undefined`) is loaded as the result, then evaluation halts.
pub open spec fn completion_state(s: EmitState, last: Option<u32>) -> EmitState {
    let s1 = match last {
        Some(r) => st_inst(s, Inst::Op { op: OpCode::LoadVar, a: Operand::Unused, b: Operand::Reg(r), c: Operand::Unused }),
        None => {
            let idx = st_const_idx(s, ConstKey::Undefined);
            st_inst(st_const(s, ConstKey::Undefined), Inst::LoadConst { dst: Operand::Unused, idx })
        },
    };
    st_inst(s1, Inst::Op { op: OpCode::Halt, a: Operand::Unused, b: Operand::Unused, c: Operand::Unused })
}

impl Emitter {
    /// The context of a script's top level: its `var` and function
    /// declarations live on the global object; `repl_persist` keeps
    /// bindings across evaluations, `is_eval_script` marks eval code (which
    /// nested functions inherit as their origin), and strictness follows
    /// the script's `"use strict"` directive.
    pub fn program_context(&self, repl_persist: bool, is_eval_script: bool, is_strict: bool) -> (ctx: CompileCtx)
        ensures
            ctx.wf(),
            ctx.emit_state() == crate::linking::fresh_state(),
            ctx.is_global_scope,
            ctx.repl_persist == repl_persist,
            ctx.is_eval_script == is_eval_script,
            ctx.is_eval_origin == is_eval_script,
            ctx.source_encoded == self.source_encoded,
            ctx.is_strict == is_strict,
            !ctx.is_generator && !ctx.is_async,
            ctx.module_ns_reg is None,
            ctx.labels@.label_counter == 0,
            ctx.open_try_handlers@.len() == 0,
            ctx.implicit_global_writes@.len() == 0,
    {
        let mut ctx = CompileCtx::new();
        ctx.is_global_scope = true;
        ctx.repl_persist = repl_persist;
        ctx.is_eval_script = is_eval_script;
        ctx.is_eval_origin = is_eval_script;
        ctx.source_encoded = self.source_encoded;
        ctx.is_strict = is_strict;
        proof {
            assert(crate::ctx::pool_keys(ctx.constants@) =~= Seq::<ConstKey>::empty());
            assert(crate::ctx::slot_view(ctx.builtin_reg_map@) =~= Seq::<(Seq<char>, u32)>::empty());
            assert(ctx.insts@ =~= Seq::<Inst>::empty());
            assert(ctx.implicit_global_reads@ =~= Seq::<u32>::empty());
        }
        ctx
    }

    /// Emits the checks a script makes before any binding is created (see
    /// `declaration_checks_state`).
    pub fn emit_declaration_checks(&self, body: &Vec<Statement>, ctx: &mut CompileCtx)
        requires
            old(ctx).wf(),
            old(ctx).next_reg + body@.len() + 7 < u32::MAX,
        ensures
            emitted(*old(ctx), *final(ctx)),
            final(ctx).emit_state() == declaration_checks_state(
                old(ctx).emit_state(),
                body@,
                old(ctx).is_eval_script,
                old(ctx).is_strict,
            ),
    {
        if ctx.is_eval_script && !ctx.is_strict {
            if let Some(m) = eval_function_declaration_conflict(body) {
                let _ = self.emit_throw_error("TypeError", m.as_str(), ctx);
            }
        }
        if !ctx.is_eval_script {
            self.emit_gdi_func_decl_checks(body, ctx);
        }
    }

    /// Emits the end of a script (see `completion_state`).
    pub fn emit_completion(&self, last: Option<u32>, ctx: &mut CompileCtx)
        requires
            old(ctx).wf(),
        ensures
            emitted(*old(ctx), *final(ctx)),
            final(ctx).emit_state() == completion_state(old(ctx).emit_state(), last),
    {
        match last {
            Some(r) => {
                ctx.inst(Inst::Op { op: OpCode::LoadVar, a: Operand::Unused, b: Operand::Reg(r), c: Operand::Unused });
            },
            None => {
                let idx = ctx.add_constant(Constant::Undefined);
                ctx.inst(Inst::LoadConst { dst: Operand::Unused, idx });
            },
        }
        ctx.inst(Inst::Op { op: OpCode::Halt, a: Operand::Unused, b: Operand::Unused, c: Operand::Unused });
    }
}

} // verus!
