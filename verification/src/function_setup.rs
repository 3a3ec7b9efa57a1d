//! Setting up the context of a nested function body from its parent's, and
//! the name lists its prologue works out: `length`, the fixed parameter
//! count, the parameter name set, extra upvalues, and the names whose
//! `var` bindings are instantiated at entry.
use vstd::prelude::*;
use crate::ast::{MethodDefinitionKind, Statement};
use crate::block_fn::{collect_block_fn_suppressed_names, collect_block_function_names, lemma_dedup_from_contents, stmts_block_fns, stmts_lexical};
use crate::cells::{has_key, lookup, sorted_names, strictly_sorted, views, CellMap};
use crate::ctx::{slot_floor, slot_view, st_inst, CompileCtx, ConstKey, EmitState};
use crate::emit_ops::{emitted, load_const_state};
use crate::inst::{Inst, OpCode, Operand};
use crate::emitter::{Emitter, FunctionBodyContext};
use crate::names::{collect_binding_pattern_names, collect_var_binding_names, pattern_binds, pattern_names, stmts_var_bind};
use crate::nameset::NameSet;
use crate::params::{param_register_name, ParamSpec};
use crate::syntax::{arguments_name, labeled_function, labeled_function_decl};
use crate::text::{seq_lt, str_eq};
use crate::upvalues::UpvalueCapture;

verus! {

/// The parameter has no default value (a rest parameter counts as having one:
/// it ends the count).
pub open spec fn counts_for_length(p: ParamSpec) -> bool {
    match p {
        ParamSpec::Identifier { initializer, .. } => initializer is None,
        ParamSpec::Pattern { initializer, .. } => initializer is None,
        ParamSpec::Rest { .. } => false,
    }
}

/// The function's `length`: the number of parameters before the first one
/// with a default value or the rest parameter.
pub open spec fn spec_function_length(ps: Seq<ParamSpec>) -> nat
    decreases ps.len(),
{
    if ps.len() == 0 || !counts_for_length(ps[0]) {
        0
    } else {
        1 + spec_function_length(ps.drop_first())
    }
}

/// The function's `length` counts the parameters before the first one that
/// has a default value (an identifier's or a destructuring pattern's) or is
/// the rest parameter: every parameter it counts has neither, and the
/// parameter right after them, if any, has one or is the rest parameter.
pub proof fn lemma_function_length(ps: Seq<ParamSpec>)
    ensures
        spec_function_length(ps) <= ps.len(),
        forall|i: int|
            0 <= i < spec_function_length(ps) ==> match #[trigger] ps[i] {
                ParamSpec::Identifier { initializer, .. } => initializer is None,
                ParamSpec::Pattern { initializer, .. } => initializer is None,
                ParamSpec::Rest { .. } => false,
            },
        spec_function_length(ps) < ps.len() ==> match ps[spec_function_length(ps) as int] {
            ParamSpec::Identifier { initializer, .. } => initializer is Some,
            ParamSpec::Pattern { initializer, .. } => initializer is Some,
            ParamSpec::Rest { .. } => true,
        },
    decreases ps.len(),
{
    if ps.len() > 0 && counts_for_length(ps[0]) {
        lemma_function_length(ps.drop_first());
        assert forall|i: int|
            0 <= i < spec_function_length(ps) implies match #[trigger] ps[i] {
                ParamSpec::Identifier { initializer, .. } => initializer is None,
                ParamSpec::Pattern { initializer, .. } => initializer is None,
                ParamSpec::Rest { .. } => false,
            } by {
            if i > 0 {
                assert(ps[i] == ps.drop_first()[i - 1]);
            }
        }
        if spec_function_length(ps) < ps.len() {
            assert(ps[spec_function_length(ps) as int] == ps.drop_first()[spec_function_length(ps.drop_first()) as int]);
        }
    }
}

/// Computes the function's `length` property.
pub fn function_length(param_specs: &[ParamSpec]) -> (n: u32)
    requires
        param_specs@.len() <= u32::MAX,
    ensures
        n == spec_function_length(param_specs@),
{
    let mut i: usize = 0;
    assert(param_specs@.skip(0) =~= param_specs@);
    while i < param_specs.len()
        invariant
            i <= param_specs@.len(),
            param_specs@.len() <= u32::MAX,
            spec_function_length(param_specs@) == i + spec_function_length(param_specs@.skip(i as int)),
            forall|k: int| 0 <= k < i ==> counts_for_length(#[trigger] param_specs@[k]),
        decreases param_specs.len() - i,
    {
        let counts = match &param_specs[i] {
            ParamSpec::Identifier { initializer, .. } => initializer.is_none(),
            ParamSpec::Pattern { initializer, .. } => initializer.is_none(),
            ParamSpec::Rest { .. } => false,
        };
        assert(param_specs@.skip(i as int)[0] == param_specs@[i as int]);
        if !counts {
            return i as u32;
        }
        assert(param_specs@.skip(i as int).drop_first() =~= param_specs@.skip(i + 1));
        i += 1;
    }
    assert(param_specs@.skip(i as int).len() == 0);
    i as u32
}

/// The number of parameters other than the rest parameter.
pub open spec fn spec_fixed_count(ps: Seq<ParamSpec>) -> nat
    decreases ps.len(),
{
    if ps.len() == 0 {
        0
    } else {
        spec_fixed_count(ps.drop_last()) + if ps.last() is Rest {
            0nat
        } else {
            1nat
        }
    }
}

/// The number of fixed parameters (the call's argument area; a rest
/// parameter is an ordinary variable of the body).
pub fn fixed_param_count(param_specs: &[ParamSpec]) -> (n: u32)
    requires
        param_specs@.len() <= u32::MAX,
    ensures
        n == spec_fixed_count(param_specs@),
{
    let mut n: u32 = 0;
    let mut i: usize = 0;
    assert(param_specs@.take(0) =~= Seq::<ParamSpec>::empty());
    while i < param_specs.len()
        invariant
            i <= param_specs@.len(),
            param_specs@.len() <= u32::MAX,
            n == spec_fixed_count(param_specs@.take(i as int)),
            n <= i,
        decreases param_specs.len() - i,
    {
        assert(param_specs@.take(i + 1).drop_last() =~= param_specs@.take(i as int));
        match &param_specs[i] {
            ParamSpec::Rest { .. } => {},
            _ => {
                n += 1;
            },
        }
        i += 1;
    }
    assert(param_specs@.take(param_specs@.len() as int) =~= param_specs@);
    n
}

/// `n` names a parameter: a register name, or a leaf of a destructuring parameter.
pub open spec fn names_param(ps: Seq<ParamSpec>, n: Seq<char>) -> bool {
    exists|i: int|
        0 <= i < ps.len() && (param_register_name(#[trigger] ps[i]) == n || (ps[i] matches ParamSpec::Pattern {
            pattern,
            ..
        } && pattern_binds(*pattern, n)))
}

/// The parameter names of a function (register names, destructuring leaves
/// and the rest parameter), against which block-level function names are checked.
pub fn collect_param_names(param_specs: &[ParamSpec]) -> (names: NameSet)
    ensures
        forall|n: Seq<char>| #[trigger] names@.contains(n) == names_param(param_specs@, n),
{
    let mut names = NameSet::new();
    let mut i: usize = 0;
    while i < param_specs.len()
        invariant
            i <= param_specs@.len(),
            forall|n: Seq<char>| #[trigger] names@.contains(n) == names_param(param_specs@.take(i as int), n),
        decreases param_specs.len() - i,
    {
        let ghost before = names@;
        names.insert(param_specs[i].register_name());
        if let ParamSpec::Pattern { pattern, .. } = &param_specs[i] {
            collect_binding_pattern_names(pattern, &mut names);
        }
        assert forall|n: Seq<char>| #[trigger] names@.contains(n) == names_param(param_specs@.take(i + 1), n) by {
            let t = param_specs@.take(i + 1);
            if names_param(t, n) {
                let k = choose|k: int|
                    0 <= k < t.len() && (param_register_name(#[trigger] t[k]) == n || (t[k] matches ParamSpec::Pattern {
                        pattern,
                        ..
                    } && pattern_binds(*pattern, n)));
                if k < i {
                    assert(param_specs@.take(i as int)[k] == t[k]);
                    assert(names_param(param_specs@.take(i as int), n));
                } else {
                    if let ParamSpec::Pattern { pattern, .. } = param_specs@[i as int] {
                        assert(pattern_names(*pattern).contains(n) == pattern_binds(*pattern, n));
                    }
                }
            }
            if names@.contains(n) {
                if before.contains(n) {
                    let k = choose|k: int|
                        0 <= k < param_specs@.take(i as int).len() && (param_register_name(
                            #[trigger] param_specs@.take(i as int)[k],
                        ) == n || (param_specs@.take(i as int)[k] matches ParamSpec::Pattern { pattern, .. }
                            && pattern_binds(*pattern, n)));
                    assert(t[k] == param_specs@.take(i as int)[k]);
                } else {
                    assert(t[i as int] == param_specs@[i as int]);
                    if let ParamSpec::Pattern { pattern, .. } = param_specs@[i as int] {
                        assert(pattern_names(*pattern).contains(n) == pattern_binds(*pattern, n));
                    }
                }
            }
        }
        i += 1;
    }
    assert(param_specs@.take(param_specs@.len() as int) =~= param_specs@);
    names
}

/// The largest of `floor` and each register in `regs` plus one (saturating).
pub open spec fn reg_start(floor: u32, regs: Seq<u32>) -> u32
    decreases regs.len(),
{
    if regs.len() == 0 {
        floor
    } else {
        let r = regs.last();
        let here: u32 = if r == u32::MAX {
            u32::MAX
        } else {
            (r + 1) as u32
        };
        let rest = reg_start(floor, regs.drop_last());
        if here > rest {
            here
        } else {
            rest
        }
    }
}

/// The context of a nested function body, derived from its parent's before
/// any parameter is declared. `inherited_regs` are the registers of the
/// bindings inherited into the body's global scope (the parent's global
/// bindings and any extra bindings); allocation starts above them, above
/// the builtin slots and above register 0.
pub fn child_context(
    param_specs: &[ParamSpec],
    parent: &CompileCtx,
    body_context: FunctionBodyContext,
    is_generator: bool,
    is_async: bool,
    own_strict: bool,
    inherited_regs: &[u32],
) -> (ctx: CompileCtx)
    requires
        param_specs@.len() <= u32::MAX,
    ensures
        ctx.wf(),
        ctx.constants@.len() == 0,
        ctx.insts@.len() == 0,
        ctx.is_generator == is_generator,
        ctx.is_async == is_async,
        ctx.is_strict == (own_strict || body_context is ClassElement || parent.is_strict),
        forall|n: Seq<char>| #[trigger] ctx.param_names@.contains(n) == names_param(param_specs@, n),
        ctx.function_length == spec_function_length(param_specs@),
        slot_view(ctx.builtin_reg_map@) == slot_view(parent.builtin_reg_map@),
        slot_view(ctx.private_name_map@) == slot_view(parent.private_name_map@),
        private_kind_views(ctx.private_element_kinds@) == private_kind_views(parent.private_element_kinds@),
        ctx.private_brand_id == parent.private_brand_id,
        ctx.next_private_name_id == parent.next_private_name_id,
        ctx.next_template_site == parent.next_template_site,
        ctx.enclosing_this_reg == parent.enclosing_this_reg,
        ctx.source_encoded == parent.source_encoded,
        (body_context is Arrow || body_context is ClassElement) ==> ctx.in_derived_constructor
            == parent.in_derived_constructor && ctx.in_instance_method == parent.in_instance_method
            && ctx.in_static_method == parent.in_static_method,
        (body_context is Ordinary) ==> !ctx.in_derived_constructor && !ctx.in_instance_method
            && !ctx.in_static_method,
        ctx.implicit_global_writes@ == parent.implicit_global_writes@,
        ctx.implicit_global_reads@ == parent.implicit_global_reads@,
        ctx.global_tier_names@ == parent.global_tier_names@,
        ctx.is_eval_origin == parent.is_eval_origin,
        ctx.reserved_reg_start == reg_start(
            if slot_floor(parent.builtin_reg_map@) > 1 {
                slot_floor(parent.builtin_reg_map@)
            } else {
                1u32
            },
            inherited_regs@,
        ),
        ctx.next_reg == ctx.reserved_reg_start,
        ctx.labels@.label_counter == 0,
{
    let mut ctx = CompileCtx::new();
    ctx.is_generator = is_generator;
    ctx.is_async = is_async;
    ctx.is_strict = own_strict || matches!(body_context, FunctionBodyContext::ClassElement) || parent.is_strict;
    ctx.param_names = collect_param_names(param_specs);
    ctx.function_length = function_length(param_specs);
    ctx.builtin_reg_map = clone_slots(&parent.builtin_reg_map);
    ctx.private_name_map = clone_slots(&parent.private_name_map);
    ctx.private_element_kinds = clone_private_kinds(&parent.private_element_kinds);
    ctx.private_brand_id = parent.private_brand_id;
    ctx.next_private_name_id = parent.next_private_name_id;
    proof {
        lemma_slot_floor_same(ctx.builtin_reg_map@, parent.builtin_reg_map@);
        assert(slot_view(ctx.builtin_reg_map@) =~= slot_view(parent.builtin_reg_map@));
        assert(slot_view(ctx.private_name_map@) =~= slot_view(parent.private_name_map@));
    }
    ctx.next_template_site = parent.next_template_site;
    ctx.enclosing_this_reg = parent.enclosing_this_reg;
    ctx.source_encoded = parent.source_encoded;
    match body_context {
        FunctionBodyContext::Arrow | FunctionBodyContext::ClassElement => {
            ctx.in_derived_constructor = parent.in_derived_constructor;
            ctx.in_instance_method = parent.in_instance_method;
            ctx.in_static_method = parent.in_static_method;
        },
        FunctionBodyContext::Ordinary => {
            ctx.in_derived_constructor = false;
            ctx.in_instance_method = false;
            ctx.in_static_method = false;
        },
    }
    let floor = ctx.builtin_reg_floor();
    let mut start: u32 = if floor > 1 {
        floor
    } else {
        1
    };
    let mut i: usize = 0;
    let ghost base = start;
    assert(inherited_regs@.take(0) =~= Seq::<u32>::empty());
    while i < inherited_regs.len()
        invariant
            i <= inherited_regs@.len(),
            start == reg_start(base, inherited_regs@.take(i as int)),
        decreases inherited_regs.len() - i,
    {
        assert(inherited_regs@.take(i + 1).drop_last() =~= inherited_regs@.take(i as int));
        let here = inherited_regs[i].saturating_add(1);
        if here > start {
            start = here;
        }
        i += 1;
    }
    assert(inherited_regs@.take(inherited_regs@.len() as int) =~= inherited_regs@);
    ctx.implicit_global_writes = copy_regs(&parent.implicit_global_writes);
    ctx.implicit_global_reads = copy_regs(&parent.implicit_global_reads);
    ctx.global_tier_names = parent.global_tier_names.copy();
    ctx.is_eval_origin = parent.is_eval_origin;
    ctx.reserved_reg_start = if start > 1 {
        start
    } else {
        1
    };
    proof {
        lemma_reg_start_at_least(base, inherited_regs@);
    }
    ctx.reset_regs();
    ctx
}

/// Slot tables with the same registers have the same floor.
proof fn lemma_slot_floor_same(a: Seq<(String, u32)>, b: Seq<(String, u32)>)
    requires
        a.len() == b.len(),
        forall|i: int| 0 <= i < a.len() ==> (#[trigger] a[i]).1 == b[i].1,
    ensures
        slot_floor(a) == slot_floor(b),
    decreases a.len(),
{
    if a.len() > 0 {
        lemma_slot_floor_same(a.drop_last(), b.drop_last());
    }
}

/// `reg_start` never falls below its floor.
proof fn lemma_reg_start_at_least(floor: u32, regs: Seq<u32>)
    ensures
        reg_start(floor, regs) >= floor,
    decreases regs.len(),
{
    if regs.len() > 0 {
        lemma_reg_start_at_least(floor, regs.drop_last());
    }
}

/// A copy of a slot table.
fn clone_slots(m: &Vec<(String, u32)>) -> (r: Vec<(String, u32)>)
    ensures
        r@.len() == m@.len(),
        forall|i: int| 0 <= i < m@.len() ==> (#[trigger] r@[i]).0@ == m@[i].0@ && r@[i].1 == m@[i].1,
{
    let mut r: Vec<(String, u32)> = Vec::new();
    let mut i: usize = 0;
    while i < m.len()
        invariant
            i <= m@.len(),
            r@.len() == i,
            forall|k: int| 0 <= k < i ==> (#[trigger] r@[k]).0@ == m@[k].0@ && r@[k].1 == m@[k].1,
        decreases m.len() - i,
    {
        r.push((m[i].0.clone(), m[i].1));
        i += 1;
    }
    r
}

/// The private element table as mathematical values.
pub open spec fn private_kind_views(m: Seq<(String, Option<MethodDefinitionKind>, bool)>) -> Seq<(Seq<char>, Option<MethodDefinitionKind>, bool)> {
    Seq::new(m.len(), |i: int| (m[i].0@, m[i].1, m[i].2))
}

/// A copy of a private element table.
fn clone_private_kinds(m: &Vec<(String, Option<MethodDefinitionKind>, bool)>) -> (r: Vec<(String, Option<MethodDefinitionKind>, bool)>)
    ensures
        private_kind_views(r@) == private_kind_views(m@),
{
    let mut r: Vec<(String, Option<MethodDefinitionKind>, bool)> = Vec::new();
    let mut i: usize = 0;
    while i < m.len()
        invariant
            i <= m@.len(),
            r@.len() == i,
            forall|k: int| 0 <= k < i ==> (#[trigger] r@[k]).0@ == m@[k].0@ && r@[k].1 == m@[k].1 && r@[k].2 == m@[k].2,
        decreases m.len() - i,
    {
        let name = m[i].0.clone();
        r.push((name, m[i].1, m[i].2));
        i += 1;
    }
    assert(private_kind_views(r@) =~= private_kind_views(m@));
    r
}

/// A copy of a register list.
fn copy_regs(v: &Vec<u32>) -> (r: Vec<u32>)
    ensures
        r@ == v@,
{
    let mut r: Vec<u32> = Vec::new();
    let mut i: usize = 0;
    while i < v.len()
        invariant
            i <= v@.len(),
            r@ == v@.take(i as int),
        decreases v.len() - i,
    {
        r.push(v[i]);
        assert(v@.take(i + 1) =~= v@.take(i as int).push(v@[i as int]));
        i += 1;
    }
    assert(v@.take(v@.len() as int) =~= v@);
    r
}

/// An upvalue as a mathematical value.
pub struct UpvalueView {
    pub name: Seq<char>,
    pub enclosing_reg: u32,
    pub cell_idx: u8,
    pub parent_uv_idx: Option<u8>,
}

/// The upvalues as mathematical values.
pub open spec fn upvalue_views(us: Seq<UpvalueCapture>) -> Seq<UpvalueView> {
    Seq::new(
        us.len(),
        |i: int| UpvalueView { name: us[i].name@, enclosing_reg: us[i].enclosing_reg, cell_idx: us[i].cell_idx, parent_uv_idx: us[i].parent_uv_idx },
    )
}

/// Some upvalue of `vs` is named `n`.
pub open spec fn has_upvalue(vs: Seq<UpvalueView>, n: Seq<char>) -> bool {
    exists|i: int| 0 <= i < vs.len() && #[trigger] vs[i].name == n
}

/// The upvalues after appending the synthesized captures `extra` (name and
/// the parent's cell) that are neither own bindings nor already present.
pub open spec fn with_extra_upvalues(vs: Seq<UpvalueView>, extra: Seq<(&str, u8)>, own: Set<Seq<char>>) -> Seq<UpvalueView>
    decreases extra.len(),
{
    if extra.len() == 0 {
        vs
    } else {
        let prev = with_extra_upvalues(vs, extra.drop_last(), own);
        let (n, c) = extra.last();
        if own.contains(n@) || has_upvalue(prev, n@) {
            prev
        } else {
            prev.push(UpvalueView { name: n@, enclosing_reg: 0, cell_idx: c, parent_uv_idx: None })
        }
    }
}

/// Appends synthesized captures (such as a class's computed field keys)
/// whose cells the parent allocated, skipping own bindings and names already
/// captured.
pub fn append_extra_upvalues(upvalues: &mut Vec<UpvalueCapture>, extra: &[(&str, u8)], own: &NameSet)
    ensures
        upvalue_views(final(upvalues)@) == with_extra_upvalues(upvalue_views(old(upvalues)@), extra@, own@),
{
    let mut i: usize = 0;
    assert(extra@.take(0) =~= Seq::<(&str, u8)>::empty());
    while i < extra.len()
        invariant
            i <= extra@.len(),
            upvalue_views(upvalues@) == with_extra_upvalues(upvalue_views(old(upvalues)@), extra@.take(i as int), own@),
        decreases extra.len() - i,
    {
        proof {
            assert(extra@.take(i + 1).drop_last() =~= extra@.take(i as int));
            assert(extra@.take(i + 1).last() == extra@[i as int]);
        }
        let (name, cell) = extra[i];
        let mut present = false;
        let mut k: usize = 0;
        while k < upvalues.len()
            invariant
                k <= upvalues@.len(),
                present == exists|q: int| 0 <= q < k && #[trigger] upvalues@[q].name@ == name@,
            decreases upvalues.len() - k,
        {
            if str_eq(upvalues[k].name.as_str(), name) {
                present = true;
            }
            k += 1;
        }
        let ghost before = upvalue_views(upvalues@);
        assert(present == has_upvalue(before, name@)) by {
            if present {
                let q = choose|q: int| 0 <= q < upvalues@.len() && #[trigger] upvalues@[q].name@ == name@;
                assert(before[q].name == name@);
            }
            if has_upvalue(before, name@) {
                let q = choose|q: int| 0 <= q < before.len() && #[trigger] before[q].name == name@;
                assert(upvalues@[q].name@ == name@);
            }
        }
        if !own.contains(name) && !present {
            upvalues.push(UpvalueCapture { name: name.to_owned(), enclosing_reg: 0, cell_idx: cell, parent_uv_idx: None });
            assert(upvalue_views(upvalues@) =~= before.push(
                UpvalueView { name: name@, enclosing_reg: 0, cell_idx: cell, parent_uv_idx: None },
            ));
        }
        i += 1;
    }
    assert(extra@.take(extra@.len() as int) =~= extra@);
}

/// The names of the strictly sorted `all` that are not in `exclude`, not
/// `arguments`, and captured (or not, as `keep_captured` says), in order.
fn filter_sorted(all: &Vec<String>, exclude: &NameSet, captured: &CellMap, keep_captured: bool) -> (out: Vec<String>)
    requires
        strictly_sorted(views(all@)),
        captured.wf(),
    ensures
        strictly_sorted(views(out@)),
        forall|n: Seq<char>| #[trigger] views(out@).contains(n) <==> (views(all@).contains(n) && !exclude@.contains(n)
            && n != arguments_name() && has_key(captured@, n) == keep_captured),
{
    let ghost va = views(all@);
    let mut out: Vec<String> = Vec::new();
    let mut k: usize = 0;
    assert(views(out@) =~= Seq::<Seq<char>>::empty());
    while k < all.len()
        invariant
            captured.wf(),
            k <= all@.len(),
            va == views(all@),
            strictly_sorted(va),
            strictly_sorted(views(out@)),
            forall|n: Seq<char>| #[trigger] views(out@).contains(n) <==> ((exists|q: int| 0 <= q < k && va[q] == n)
                && !exclude@.contains(n) && n != arguments_name() && has_key(captured@, n) == keep_captured),
            forall|i: int, q: int|
                0 <= i < views(out@).len() && k <= q < va.len() ==> seq_lt(#[trigger] views(out@)[i], #[trigger] va[q]),
        decreases all.len() - k,
    {
        let name = all[k].as_str();
        let keep = !exclude.contains(name) && !str_eq(name, "arguments") && captured.get(name).is_some() == keep_captured;
        proof {
            if has_key(captured@, name@) {
                let w = choose|w: int| 0 <= w < captured@.len() && #[trigger] captured@[w].0 == name@;
                crate::cells::lemma_lookup_at(captured@, w);
            }
        }
        let ghost before = views(out@);
        if keep {
            out.push(name.to_owned());
            assert(views(out@) =~= before.push(name@));
            assert forall|x: int, y: int| 0 <= x < y < views(out@).len() implies seq_lt(
                #[trigger] views(out@)[x],
                #[trigger] views(out@)[y],
            ) by {
                if y == before.len() {
                    assert(seq_lt(before[x], va[k as int]));
                } else {
                    assert(views(out@)[x] == before[x] && views(out@)[y] == before[y]);
                }
            }
            assert forall|i: int, q: int|
                0 <= i < views(out@).len() && k + 1 <= q < va.len() implies seq_lt(
                #[trigger] views(out@)[i],
                #[trigger] va[q],
            ) by {
                if i < before.len() {
                    assert(seq_lt(before[i], va[q]));
                } else {
                    assert(seq_lt(va[k as int], va[q]));
                }
            }
        }
        assert forall|n: Seq<char>| #[trigger] views(out@).contains(n) <==> ((exists|q: int| 0 <= q < k + 1 && va[q] == n)
            && !exclude@.contains(n) && n != arguments_name() && has_key(captured@, n) == keep_captured) by {
            if views(out@).contains(n) && !before.contains(n) {
                let i = choose|i: int| 0 <= i < views(out@).len() && views(out@)[i] == n;
                assert(i == before.len());
                assert(va[k as int] == n);
            }
            if (exists|q: int| 0 <= q < k + 1 && va[q] == n) && !exclude@.contains(n) && n != arguments_name()
                && has_key(captured@, n) == keep_captured {
                let q = choose|q: int| 0 <= q < k + 1 && va[q] == n;
                if q == k {
                    assert(keep);
                    assert(views(out@)[before.len() as int] == n);
                } else {
                    assert(before.contains(n));
                    let i = choose|i: int| 0 <= i < before.len() && before[i] == n;
                    assert(views(out@)[i] == n);
                }
            }
            if before.contains(n) {
                let i = choose|i: int| 0 <= i < before.len() && before[i] == n;
                if keep {
                    assert(views(out@)[i] == n);
                }
            }
        }
        k += 1;
    }
    assert forall|n: Seq<char>| #[trigger] views(out@).contains(n) <==> (views(all@).contains(n) && !exclude@.contains(n)
        && n != arguments_name() && has_key(captured@, n) == keep_captured) by {
        if views(all@).contains(n) {
            let q = choose|q: int| 0 <= q < va.len() && va[q] == n;
        }
        if exists|q: int| 0 <= q < all@.len() && va[q] == n {
            let q = choose|q: int| 0 <= q < all@.len() && va[q] == n;
            assert(va.contains(n));
        }
    }
    out
}

/// `n` is the name of a function declaration under labels among the direct
/// children of `body` (materialised at entry on its own).
pub open spec fn labeled_hoisted(body: Seq<Statement>, n: Seq<char>) -> bool {
    exists|i: int| 0 <= i < body.len() && (labeled_function(#[trigger] body[i]) matches Some(f) && crate::names::id_is(f.id, n))
}

/// `n` has its `var` binding instantiated to `undefined` at function entry:
/// a `var` name, or (in sloppy code) an outer block-level function that is
/// neither suppressed nor a labelled declaration, but not a parameter,
/// `arguments`, or a captured name (captured names get their cell instead).
pub open spec fn instantiated_at_entry(
    body: Seq<Statement>,
    is_strict: bool,
    suppressed: Set<Seq<char>>,
    params: Set<Seq<char>>,
    captured: Seq<(Seq<char>, u8)>,
    n: Seq<char>,
) -> bool {
    &&& (stmts_var_bind(body, n) || (!is_strict && stmts_block_fns(body, false).contains(n) && !suppressed.contains(n)
        && !labeled_hoisted(body, n)))
    &&& !params.contains(n)
    &&& n != arguments_name()
    &&& !has_key(captured, n)
}

/// The names whose `var` bindings a function body instantiates at entry, in
/// code-point order (so the emitted stores do not depend on hashing).
#[verifier::loop_isolation(false)]
pub fn var_instantiation_names(
    body: &Vec<Statement>,
    is_strict: bool,
    block_fn_suppressed: &NameSet,
    param_names: &NameSet,
    captured: &CellMap,
) -> (names: Vec<String>)
    requires
        captured.wf(),
    ensures
        crate::program::sorted_list_of(
            views(names@),
            Set::new(|n: Seq<char>| instantiated_at_entry(body@, is_strict, block_fn_suppressed@, param_names@, captured@, n)),
        ),
{
    let mut candidates = collect_var_binding_names(body);
    if !is_strict {
        let mut labeled = NameSet::new();
        let mut i: usize = 0;
        while i < body.len()
            invariant
                i <= body@.len(),
                forall|n: Seq<char>| #[trigger] labeled@.contains(n) == exists|k: int|
                    0 <= k < i && (labeled_function(#[trigger] body@[k]) matches Some(f) && crate::names::id_is(f.id, n)),
            decreases body.len() - i,
        {
            if let Some(f) = labeled_function_decl(&body[i]) {
                if let Some(id) = &f.id {
                    labeled.insert(id.as_str());
                }
            }
            assert forall|n: Seq<char>| #[trigger] labeled@.contains(n) == exists|k: int|
                0 <= k < i + 1 && (labeled_function(#[trigger] body@[k]) matches Some(f) && crate::names::id_is(f.id, n)) by {
                if exists|k: int|
                    0 <= k < i + 1 && (labeled_function(#[trigger] body@[k]) matches Some(f) && crate::names::id_is(f.id, n)) {
                    let k = choose|k: int|
                        0 <= k < i + 1 && (labeled_function(#[trigger] body@[k]) matches Some(f) && crate::names::id_is(
                            f.id,
                            n,
                        ));
                    if k < i {
                    }
                }
            }
            i += 1;
        }
        let block_names = collect_block_function_names(body);
        let mut j: usize = 0;
        let ghost base = candidates@;
        while j < block_names.len()
            invariant
                j <= block_names@.len(),
                forall|n: Seq<char>| #[trigger] labeled@.contains(n) == labeled_hoisted(body@, n),
                forall|n: Seq<char>| #[trigger] candidates@.contains(n) == (base.contains(n) || exists|k: int|
                    0 <= k < j && block_names@[k]@ == n && !block_fn_suppressed@.contains(n) && !labeled_hoisted(body@, n)),
            decreases block_names.len() - j,
        {
            let name = block_names[j].as_str();
            if !block_fn_suppressed.contains(name) && !labeled.contains(name) {
                candidates.insert(name);
            }
            assert forall|n: Seq<char>| #[trigger] candidates@.contains(n) == (base.contains(n) || exists|k: int|
                0 <= k < j + 1 && block_names@[k]@ == n && !block_fn_suppressed@.contains(n) && !labeled_hoisted(body@, n)) by {
                if exists|k: int|
                    0 <= k < j + 1 && block_names@[k]@ == n && !block_fn_suppressed@.contains(n) && !labeled_hoisted(body@, n) {
                    let k = choose|k: int|
                        0 <= k < j + 1 && block_names@[k]@ == n && !block_fn_suppressed@.contains(n) && !labeled_hoisted(
                            body@,
                            n,
                        );
                    if k < j {
                    }
                }
            }
            j += 1;
        }
        proof {
            lemma_dedup_from_contents(Seq::empty(), stmts_block_fns(body@, false));
            assert forall|n: Seq<char>| (exists|k: int|
                0 <= k < block_names@.len() && block_names@[k]@ == n) == stmts_block_fns(body@, false).contains(n) by {
                if exists|k: int| 0 <= k < block_names@.len() && block_names@[k]@ == n {
                    let k = choose|k: int| 0 <= k < block_names@.len() && block_names@[k]@ == n;
                    assert(views(block_names@)[k] == n);
                    assert(views(block_names@).contains(n));
                }
                if stmts_block_fns(body@, false).contains(n) {
                    assert(views(block_names@).contains(n));
                    let k = choose|k: int| 0 <= k < views(block_names@).len() && views(block_names@)[k] == n;
                    assert(block_names@[k]@ == n);
                }
            }
        }
    }
    let all = sorted_names(&candidates);
    let ghost va = views(all@);
    let out = filter_sorted(&all, param_names, captured, false);
    assert forall|n: Seq<char>| #[trigger] views(out@).contains(n) <==> instantiated_at_entry(
        body@,
        is_strict,
        block_fn_suppressed@,
        param_names@,
        captured@,
        n,
    ) by {
        assert(va.contains(n) == candidates@.contains(n));
        if exists|q: int| 0 <= q < all@.len() && va[q] == n {
            let q = choose|q: int| 0 <= q < all@.len() && va[q] == n;
            assert(va.contains(n));
        }
        if va.contains(n) {
            let q = choose|q: int| 0 <= q < va.len() && va[q] == n;
        }
    }
    out
}

/// `n` gets a cell holding `undefined` at function entry, so that closures
/// created before its declaration runs read `undefined`: a captured `var`
/// name or (in sloppy code) a captured outer binding of a block-level
/// function (not suppressed by a parameter name of `params` or a lexical
/// declaration), but neither a parameter register name (`registers`) nor
/// `arguments`, which hold their values already.
pub open spec fn entry_cell(
    body: Seq<Statement>,
    is_strict: bool,
    registers: Set<Seq<char>>,
    params: Set<Seq<char>>,
    captured: Seq<(Seq<char>, u8)>,
    n: Seq<char>,
) -> bool {
    &&& (stmts_var_bind(body, n) || (!is_strict && stmts_block_fns(body, false).contains(n) && !(params.contains(n)
        || stmts_lexical(body, n))))
    &&& !registers.contains(n)
    &&& n != arguments_name()
    &&& has_key(captured, n)
}

/// The names that get a cell holding `undefined` at function entry (see
/// `entry_cell`), in code-point order.
pub fn captured_entry_names(
    body: &Vec<Statement>,
    is_strict: bool,
    register_names: &NameSet,
    param_names: &NameSet,
    captured: &CellMap,
) -> (names: Vec<String>)
    requires
        captured.wf(),
    ensures
        crate::program::sorted_list_of(
            views(names@),
            Set::new(|n: Seq<char>| entry_cell(body@, is_strict, register_names@, param_names@, captured@, n)),
        ),
{
    let mut candidates = collect_var_binding_names(body);
    let ghost base = candidates@;
    if !is_strict {
        let suppressed = collect_block_fn_suppressed_names(body, param_names);
        let block_names = collect_block_function_names(body);
        let mut j: usize = 0;
        while j < block_names.len()
            invariant
                j <= block_names@.len(),
                forall|n: Seq<char>| #[trigger] suppressed@.contains(n) == (param_names@.contains(n) || stmts_lexical(body@, n)),
                forall|n: Seq<char>| #[trigger] candidates@.contains(n) == (base.contains(n) || exists|k: int|
                    0 <= k < j && block_names@[k]@ == n && !suppressed@.contains(n)),
            decreases block_names.len() - j,
        {
            let name = block_names[j].as_str();
            if !suppressed.contains(name) {
                candidates.insert(name);
            }
            assert forall|n: Seq<char>| #[trigger] candidates@.contains(n) == (base.contains(n) || exists|k: int|
                0 <= k < j + 1 && block_names@[k]@ == n && !suppressed@.contains(n)) by {
                if exists|k: int| 0 <= k < j + 1 && block_names@[k]@ == n && !suppressed@.contains(n) {
                    let k = choose|k: int| 0 <= k < j + 1 && block_names@[k]@ == n && !suppressed@.contains(n);
                    if k < j {
                    }
                }
            }
            j += 1;
        }
        proof {
            lemma_dedup_from_contents(Seq::empty(), stmts_block_fns(body@, false));
            assert forall|n: Seq<char>| (exists|k: int|
                0 <= k < block_names@.len() && block_names@[k]@ == n) == stmts_block_fns(body@, false).contains(n) by {
                if exists|k: int| 0 <= k < block_names@.len() && block_names@[k]@ == n {
                    let k = choose|k: int| 0 <= k < block_names@.len() && block_names@[k]@ == n;
                    assert(views(block_names@)[k] == n);
                    assert(views(block_names@).contains(n));
                }
                if stmts_block_fns(body@, false).contains(n) {
                    assert(views(block_names@).contains(n));
                    let k = choose|k: int| 0 <= k < views(block_names@).len() && views(block_names@)[k] == n;
                    assert(block_names@[k]@ == n);
                }
            }
        }
    }
    let all = sorted_names(&candidates);
    let out = filter_sorted(&all, register_names, captured, true);
    assert forall|n: Seq<char>| #[trigger] views(out@).contains(n) <==> entry_cell(
        body@,
        is_strict,
        register_names@,
        param_names@,
        captured@,
        n,
    ) by {
        assert(views(all@).contains(n) == candidates@.contains(n));
    }
    out
}

/// The cells recorded for `names`, in order (a name without one is skipped).
pub open spec fn cells_of(names: Seq<Seq<char>>, captured: Seq<(Seq<char>, u8)>) -> Seq<u8>
    decreases names.len(),
{
    if names.len() == 0 {
        Seq::empty()
    } else {
        let prev = cells_of(names.drop_last(), captured);
        match lookup(captured, names.last()) {
            Some(c) => prev.push(c),
            None => prev,
        }
    }
}

/// The cells recorded for `names`, in order.
pub fn lookup_cells(names: &Vec<String>, captured: &CellMap) -> (cells: Vec<u8>)
    requires
        captured.wf(),
    ensures
        cells@ == cells_of(views(names@), captured@),
{
    let mut cells: Vec<u8> = Vec::new();
    let mut i: usize = 0;
    assert(views(names@).take(0) =~= Seq::<Seq<char>>::empty());
    while i < names.len()
        invariant
            i <= names@.len(),
            captured.wf(),
            cells@ == cells_of(views(names@).take(i as int), captured@),
        decreases names.len() - i,
    {
        assert(views(names@).take(i + 1).drop_last() =~= views(names@).take(i as int));
        assert(views(names@).take(i + 1).last() == names@[i as int]@);
        if let Some(c) = captured.get(names[i].as_str()) {
            cells.push(c);
        }
        i += 1;
    }
    assert(views(names@).take(names@.len() as int) =~= views(names@));
    cells
}

/// Storing `undefined` in each of `cells`, in order; `uninitialized` marks
/// the cells as in their temporal dead zone (flag folded into the high byte
/// of the immediate).
pub open spec fn entry_cells_state(s: EmitState, cells: Seq<u8>, uninitialized: bool) -> EmitState {
    if cells.len() == 0 {
        s
    } else {
        let (s1, undef) = load_const_state(s, ConstKey::Undefined);
        EmitState {
            insts: s1.insts + Seq::new(
                cells.len(),
                |i: int| Inst::Op {
                    op: OpCode::MakeCell,
                    a: Operand::Reg(undef),
                    b: Operand::Imm(
                        if uninitialized {
                            (cells[i] as u16 | 0x100u16) as u16
                        } else {
                            cells[i] as u16
                        },
                    ),
                    c: Operand::Unused,
                },
            ),
            ..s1
        }
    }
}

/// The implicit return at the end of a function body: an expression body
/// returns the value of its expression; a statement body (or an expression
/// body without a value) returns `undefined`.
pub open spec fn function_tail_state(s: EmitState, is_expression_body: bool, last: Option<u32>) -> EmitState {
    match last {
        Some(r) if is_expression_body => st_inst(s, Inst::Return { value: Operand::Reg(r) }),
        _ => {
            let (s1, u) = load_const_state(s, ConstKey::Undefined);
            st_inst(s1, Inst::Return { value: Operand::Reg(u) })
        },
    }
}

impl Emitter {
    /// Emits the implicit return that ends a function body (see
    /// `function_tail_state`).
    pub fn emit_function_tail(&self, is_expression_body: bool, last_result: Option<u32>, ctx: &mut CompileCtx)
        requires
            old(ctx).wf(),
            old(ctx).next_reg + 1 < u32::MAX,
        ensures
            emitted(*old(ctx), *final(ctx)),
            final(ctx).emit_state() == function_tail_state(old(ctx).emit_state(), is_expression_body, last_result),
    {
        match last_result {
            Some(r) if is_expression_body => {
                ctx.inst(Inst::Return { value: Operand::Reg(r) });
            },
            _ => {
                let u = self.emit_undefined(ctx);
                ctx.inst(Inst::Return { value: Operand::Reg(u) });
            },
        }
    }
}

/// The entry stores of `undefined` into the registers of the instantiated
/// `var` bindings (a name without a register is skipped), in order.
pub open spec fn undefined_stores(s: EmitState, regs: Seq<Option<u32>>, undef: u32) -> EmitState
    decreases regs.len(),
{
    if regs.len() == 0 {
        s
    } else {
        let prev = undefined_stores(s, regs.drop_last(), undef);
        match regs.last() {
            Some(r) => st_inst(
                prev,
                Inst::Op { op: OpCode::StoreVar, a: Operand::Reg(r), b: Operand::Reg(undef), c: Operand::Imm(0) },
            ),
            None => prev,
        }
    }
}

/// The entry instantiation of `var` bindings: nothing for no names;
/// otherwise `undefined` is loaded once and stored into each register.
pub open spec fn var_instantiation_state(s: EmitState, regs: Seq<Option<u32>>) -> EmitState {
    if regs.len() == 0 {
        s
    } else {
        let (s1, undef) = load_const_state(s, ConstKey::Undefined);
        undefined_stores(s1, regs, undef)
    }
}

impl Emitter {
    /// Instantiates the `var` bindings of a function body at entry:
    /// `regs` holds, for each name of `var_instantiation_names` in order,
    /// the register its binding resolves to (none when it has no binding).
    pub fn emit_var_instantiation(&self, regs: &[Option<u32>], ctx: &mut CompileCtx)
        requires
            old(ctx).wf(),
            old(ctx).next_reg + 1 < u32::MAX,
        ensures
            emitted(*old(ctx), *final(ctx)),
            final(ctx).emit_state() == var_instantiation_state(old(ctx).emit_state(), regs@),
    {
        if regs.len() == 0 {
            return;
        }
        let undef = self.emit_undefined(ctx);
        let ghost s1 = ctx.emit_state();
        let mut i: usize = 0;
        assert(regs@.take(0) =~= Seq::<Option<u32>>::empty());
        while i < regs.len()
            invariant
                i <= regs@.len(),
                emitted(*old(ctx), *ctx),
                ctx.emit_state() == undefined_stores(s1, regs@.take(i as int), undef),
            decreases regs.len() - i,
        {
            assert(regs@.take(i + 1).drop_last() =~= regs@.take(i as int));
            assert(regs@.take(i + 1).last() == regs@[i as int]);
            if let Some(r) = regs[i] {
                ctx.inst(Inst::Op { op: OpCode::StoreVar, a: Operand::Reg(r), b: Operand::Reg(undef), c: Operand::Imm(0) });
            }
            i += 1;
        }
        assert(regs@.take(regs@.len() as int) =~= regs@);
    }
}

impl Emitter {
    /// Creates the entry cells `cells` holding `undefined` (see
    /// `entry_cells_state`): the captured bindings that closures may read
    /// before their declarations run.
    pub fn emit_entry_cells(&self, cells: &[u8], uninitialized: bool, ctx: &mut CompileCtx)
        requires
            old(ctx).wf(),
            old(ctx).next_reg + 1 < u32::MAX,
        ensures
            emitted(*old(ctx), *final(ctx)),
            final(ctx).emit_state() == entry_cells_state(old(ctx).emit_state(), cells@, uninitialized),
    {
        if cells.len() == 0 {
            return;
        }
        let undef = self.emit_undefined(ctx);
        let ghost s1 = ctx.emit_state();
        let mut i: usize = 0;
        while i < cells.len()
            invariant
                i <= cells@.len(),
                emitted(*old(ctx), *ctx),
                ctx.emit_state() == (EmitState {
                    insts: s1.insts + Seq::new(
                        i as nat,
                        |k: int| Inst::Op {
                            op: OpCode::MakeCell,
                            a: Operand::Reg(undef),
                            b: Operand::Imm(
                                if uninitialized {
                                    (cells@[k] as u16 | 0x100u16) as u16
                                } else {
                                    cells@[k] as u16
                                },
                            ),
                            c: Operand::Unused,
                        },
                    ),
                    ..s1
                }),
            decreases cells.len() - i,
        {
            let imm: u16 = if uninitialized {
                cells[i] as u16 | 0x100
            } else {
                cells[i] as u16
            };
            let ghost before = ctx.emit_state();
            ctx.inst(Inst::Op { op: OpCode::MakeCell, a: Operand::Reg(undef), b: Operand::Imm(imm), c: Operand::Unused });
            proof {
                let mk = |k: int|
                    Inst::Op {
                        op: OpCode::MakeCell,
                        a: Operand::Reg(undef),
                        b: Operand::Imm(
                            if uninitialized {
                                (cells@[k] as u16 | 0x100u16) as u16
                            } else {
                                cells@[k] as u16
                            },
                        ),
                        c: Operand::Unused,
                    };
                assert(Seq::new((i + 1) as nat, mk) =~= Seq::new(i as nat, mk).push(mk(i as int)));
                assert(ctx.emit_state().insts =~= s1.insts + Seq::new((i + 1) as nat, mk));
            }
            i += 1;
        }
    }
}

} // verus!
