//! Parent-level capture analysis: which of the current function's own
//! bindings some nested function (at any depth) refers to. Only nested
//! function and class bodies count; the current function's direct
//! references do not.
use vstd::prelude::*;
use crate::ast::{
    Argument, ArrayElement, BindingPattern, ChainElement, Class, Declaration, ExportDefaultKind, Expression, ForInit,
    ForLeft, FormalParameters, Function, ObjectPropertyKind, PropertyKey, Statement, VariableDeclaration,
};
use crate::capture::{
    class_refs, class_shadow, collect_capture_names_expr, collect_capture_names_shadowed, collect_class_capture_names,
    expr_refs, fn_default_refs, fn_refs, fn_shadow, pattern_runtime_refs, scope_operands,
};
use crate::names::{collect_fn_param_names, collect_own_binding_names, param_names, params_bind};
use crate::nameset::NameSet;

verus! {

/// Names of `own` captured through the run-time parts of a pattern at the
/// current level: nested functions inside computed keys and default values.
pub open spec fn pattern_captured(p: BindingPattern, own: Set<Seq<char>>, n: Seq<char>) -> bool
    decreases p,
{
    match p {
        BindingPattern::Identifier(_) => false,
        BindingPattern::Array { elements, rest } => (exists|i: int|
            0 <= i < elements.len() && (#[trigger] elements@[i] matches Some(e) && pattern_captured(e, own, n)))
            || (rest matches Some(r) && pattern_captured(*r, own, n)),
        BindingPattern::Object { properties, rest } => (exists|i: int|
            0 <= i < properties.len() && (
                (#[trigger] properties@[i].key matches PropertyKey::Computed(k) && expr_captured(*k, own, n))
                || pattern_captured(properties@[i].value, own, n)))
            || (rest matches Some(r) && pattern_captured(*r, own, n)),
        BindingPattern::Assignment { left, right } => expr_captured(*right, own, n) || pattern_captured(*left, own, n),
    }
}

/// Names of `own` that a nested function or class within `e` refers to.
pub open spec fn expr_captured(e: Expression, own: Set<Seq<char>>, n: Seq<char>) -> bool
    decreases e,
{
    match e {
        Expression::Function(f) => fn_refs(*f, own, Set::empty(), n),
        Expression::ArrowFunction(f) => fn_refs(*f, own, Set::empty(), n),
        Expression::Class(c) => class_refs(*c, own, class_shadow(Set::empty(), c.id), n),
        Expression::Call { callee, arguments } => expr_captured(*callee, own, n)
            || exists|i: int| 0 <= i < arguments.len() && arg_captured(#[trigger] arguments@[i], own, n),
        Expression::Binary { left, right, .. } => expr_captured(*left, own, n) || expr_captured(*right, own, n),
        Expression::Unary { argument, .. } => expr_captured(*argument, own, n),
        Expression::Logical { left, right, .. } => expr_captured(*left, own, n) || expr_captured(*right, own, n),
        Expression::Conditional { test, consequent, alternate } => expr_captured(*test, own, n)
            || expr_captured(*consequent, own, n) || expr_captured(*alternate, own, n),
        Expression::Sequence(es) => exists|i: int| 0 <= i < es.len() && expr_captured(#[trigger] es@[i], own, n),
        Expression::Assignment { right, .. } => expr_captured(*right, own, n),
        Expression::Array(els) => exists|i: int|
            0 <= i < els.len() && (#[trigger] els@[i] matches ArrayElement::Expression(x) && expr_captured(x, own, n)),
        Expression::Object(props) => exists|i: int| 0 <= i < props.len() && object_property_captured(#[trigger] props@[i], own, n),
        Expression::New { callee, arguments } => expr_captured(*callee, own, n)
            || exists|i: int| 0 <= i < arguments.len() && arg_captured(#[trigger] arguments@[i], own, n),
        Expression::ComputedMember { object, expression } => expr_captured(*object, own, n) || expr_captured(*expression, own, n),
        Expression::StaticMember { object, .. } => expr_captured(*object, own, n),
        Expression::PrivateField { object, .. } => expr_captured(*object, own, n),
        Expression::TemplateLiteral(tl) => exists|i: int|
            0 <= i < tl.expressions.len() && expr_captured(#[trigger] tl.expressions@[i], own, n),
        Expression::TaggedTemplate { tag, quasi } => expr_captured(*tag, own, n) || exists|i: int|
            0 <= i < quasi.expressions.len() && expr_captured(#[trigger] quasi.expressions@[i], own, n),
        Expression::Parenthesized(x) => expr_captured(*x, own, n),
        Expression::Yield(a) => a matches Some(x) && expr_captured(*x, own, n),
        Expression::Await(x) => expr_captured(*x, own, n),
        Expression::Chain(c) => chain_captured(*c, own, n),
        _ => false,
    }
}

/// A binding captured by a closure inside any operand of an expression (each
/// operand of an operator, all three parts of a conditional, every element
/// of a sequence, ...) is captured by the expression: every such binding
/// gets a cell.
pub proof fn lemma_operand_captured(e: Expression, own: Set<Seq<char>>, n: Seq<char>)
    ensures
        forall|i: int|
            0 <= i < scope_operands(e).len() && expr_captured(#[trigger] scope_operands(e)[i], own, n) ==> expr_captured(
                e,
                own,
                n,
            ),
{
    assert forall|i: int|
        0 <= i < scope_operands(e).len() && expr_captured(#[trigger] scope_operands(e)[i], own, n) implies expr_captured(
            e,
            own,
            n,
        ) by {
        match e {
            Expression::Sequence(es) => {
                assert(expr_captured(es@[i], own, n));
            },
            Expression::TemplateLiteral(tl) => {
                assert(expr_captured(tl.expressions@[i], own, n));
            },
            Expression::TaggedTemplate { tag, quasi } => {
                if i > 0 {
                    assert(scope_operands(e)[i] == quasi.expressions@[i - 1]);
                    assert(expr_captured(quasi.expressions@[i - 1], own, n));
                }
            },
            _ => {},
        }
    }
}

/// Captures within a member of an object literal.
pub open spec fn object_property_captured(p: ObjectPropertyKind, own: Set<Seq<char>>, n: Seq<char>) -> bool
    decreases p,
{
    match p {
        ObjectPropertyKind::Property { key, value } => (key matches PropertyKey::Computed(k) && expr_captured(*k, own, n))
            || expr_captured(value, own, n),
        ObjectPropertyKind::Spread(e) => expr_captured(e, own, n),
    }
}

/// Captures within a call argument.
pub open spec fn arg_captured(a: Argument, own: Set<Seq<char>>, n: Seq<char>) -> bool
    decreases a,
{
    match a {
        Argument::Expression(e) => expr_captured(e, own, n),
        Argument::Spread(e) => expr_captured(e, own, n),
    }
}

/// Captures within an element of an optional chain.
pub open spec fn chain_captured(c: ChainElement, own: Set<Seq<char>>, n: Seq<char>) -> bool
    decreases c,
{
    match c {
        ChainElement::StaticMember { object, .. } => expr_captured(object, own, n),
        ChainElement::ComputedMember { object, expression } => expr_captured(object, own, n) || expr_captured(expression, own, n),
        ChainElement::PrivateField { object, .. } => expr_captured(object, own, n),
        ChainElement::Call { callee, arguments } => expr_captured(callee, own, n)
            || exists|i: int| 0 <= i < arguments.len() && arg_captured(#[trigger] arguments@[i], own, n),
        ChainElement::Other => false,
    }
}

/// Captures within a variable declaration's patterns and initializers.
pub open spec fn declaration_captured(vd: VariableDeclaration, own: Set<Seq<char>>, n: Seq<char>) -> bool
    decreases vd,
{
    exists|i: int| 0 <= i < vd.declarations.len() && (
        pattern_captured(#[trigger] vd.declarations@[i].id, own, n)
        || (vd.declarations@[i].init matches Some(init) && expr_captured(init, own, n)))
}

/// Captures within a list of statements.
pub open spec fn stmts_captured(ss: Seq<Statement>, own: Set<Seq<char>>, n: Seq<char>) -> bool
    decreases ss,
{
    exists|i: int| 0 <= i < ss.len() && stmt_captured(#[trigger] ss[i], own, n)
}

/// Captures within a statement: a nested function or class declared by it,
/// or a nested function inside one of its expressions.
pub open spec fn stmt_captured(s: Statement, own: Set<Seq<char>>, n: Seq<char>) -> bool
    decreases s,
{
    match s {
        Statement::Function(f) => fn_refs(f, own, Set::empty(), n),
        Statement::Class(c) => class_refs(c, own, class_shadow(Set::empty(), c.id), n),
        Statement::ExportNamed(exp) => match exp.declaration {
            Some(Declaration::Variable(vd)) => declaration_captured(vd, own, n),
            Some(Declaration::Function(f)) => fn_refs(f, own, Set::empty(), n),
            Some(Declaration::Class(c)) => class_refs(c, own, class_shadow(Set::empty(), c.id), n),
            _ => false,
        },
        Statement::ExportDefault(kind) => match kind {
            ExportDefaultKind::Function(f) => fn_refs(f, own, Set::empty(), n),
            ExportDefaultKind::Class(c) => class_refs(c, own, class_shadow(Set::empty(), c.id), n),
            ExportDefaultKind::Expression(x) => expr_captured(x, own, n),
        },
        Statement::Expression(e) => expr_captured(e, own, n),
        Statement::Return(a) => a matches Some(x) && expr_captured(x, own, n),
        Statement::Variable(vd) => declaration_captured(vd, own, n),
        Statement::If { test, consequent, alternate } => expr_captured(test, own, n) || stmt_captured(*consequent, own, n)
            || (alternate matches Some(a) && stmt_captured(*a, own, n)),
        Statement::For { init, test, update, body } => (match init {
            Some(ForInit::Expression(x)) => expr_captured(x, own, n),
            Some(ForInit::Variable(vd)) => declaration_captured(vd, own, n),
            None => false,
        }) || (test matches Some(t) && expr_captured(t, own, n)) || (update matches Some(u) && expr_captured(u, own, n))
            || stmt_captured(*body, own, n),
        Statement::While { test, body } => expr_captured(test, own, n) || stmt_captured(*body, own, n),
        Statement::DoWhile { body, test } => stmt_captured(*body, own, n) || expr_captured(test, own, n),
        Statement::ForIn { left, right, body } => expr_captured(right, own, n) || for_left_captured(left, own, n)
            || stmt_captured(*body, own, n),
        Statement::ForOf { left, right, body, .. } => expr_captured(right, own, n) || for_left_captured(left, own, n)
            || stmt_captured(*body, own, n),
        Statement::Block(body) => stmts_captured(body@, own, n),
        Statement::Try { block, handler, finalizer } => stmts_captured(block@, own, n)
            || (handler matches Some(h) && ((h.param matches Some(p) && pattern_captured(p, own, n))
                || stmts_captured(h.body@, own, n)))
            || (finalizer matches Some(f) && stmts_captured(f@, own, n)),
        Statement::Throw(x) => expr_captured(x, own, n),
        Statement::Switch { discriminant, cases } => expr_captured(discriminant, own, n) || exists|c: int|
            0 <= c < cases.len() && stmts_captured(#[trigger] cases@[c].consequent@, own, n),
        Statement::Labeled { body, .. } => stmt_captured(*body, own, n),
        Statement::With { object, body } => expr_captured(object, own, n) || stmt_captured(*body, own, n),
        _ => false,
    }
}

/// Captures within the patterns of a `for-in`/`for-of` head.
pub open spec fn for_left_captured(left: ForLeft, own: Set<Seq<char>>, n: Seq<char>) -> bool
    decreases left,
{
    match left {
        ForLeft::Variable(vd) => exists|i: int|
            0 <= i < vd.declarations.len() && pattern_captured(#[trigger] vd.declarations@[i].id, own, n),
        ForLeft::Target(_) => false,
    }
}


/// Adds to `out` the names of `own` that the parameter defaults of a nested
/// function refer to (including the run-time parts of its parameter patterns).
#[verifier::loop_isolation(false)]
pub fn collect_fn_default_captured(params: &FormalParameters, own: &NameSet, out: &mut NameSet)
    ensures
        forall|n: Seq<char>| #[trigger] final(out)@.contains(n) == (old(out)@.contains(n) || fn_default_refs(*params, own@, Set::empty(), n)),
{
    let empty_shadow = NameSet::new();
    let mut i: usize = 0;
    while i < params.items.len()
        invariant
            i <= params.items@.len(),
            forall|n: Seq<char>| #[trigger] out@.contains(n) == (old(out)@.contains(n) || exists|j: int|
                0 <= j < i && ((#[trigger] params.items@[j].initializer matches Some(init) && expr_refs(init, own@, Set::empty(), n)) || pattern_runtime_refs(params.items@[j].pattern, own@, Set::empty(), n))),
        decreases params.items.len() - i,
    {
        if let Some(init) = &params.items[i].initializer {
            collect_capture_names_expr(init, own, &empty_shadow, out);
        }
        collect_captured_pattern_runtime_exprs(&params.items[i].pattern, own, out);
        assert forall|n: Seq<char>| #[trigger] out@.contains(n) == (old(out)@.contains(n) || exists|j: int|
            0 <= j < i + 1 && ((#[trigger] params.items@[j].initializer matches Some(init) && expr_refs(init, own@, Set::empty(), n)) || pattern_runtime_refs(params.items@[j].pattern, own@, Set::empty(), n))) by {
            if exists|j: int| 0 <= j < i + 1 && ((#[trigger] params.items@[j].initializer matches Some(init) && expr_refs(init, own@, Set::empty(), n)) || pattern_runtime_refs(params.items@[j].pattern, own@, Set::empty(), n)) {
                let j = choose|j: int| 0 <= j < i + 1 && ((#[trigger] params.items@[j].initializer matches Some(init) && expr_refs(init, own@, Set::empty(), n)) || pattern_runtime_refs(params.items@[j].pattern, own@, Set::empty(), n));
                if j < i {
                }
            }
        }
        i += 1;
    }
}

/// Adds to `out` the names of `own` referred to by the run-time parts of a
/// parameter pattern of a nested function (computed keys, default values).
#[verifier::loop_isolation(false)]
pub fn collect_captured_pattern_runtime_exprs(pattern: &BindingPattern, own: &NameSet, out: &mut NameSet)
    ensures
        forall|n: Seq<char>| #[trigger] final(out)@.contains(n) == (old(out)@.contains(n) || pattern_runtime_refs(*pattern, own@, Set::empty(), n)),
    decreases pattern,
{
    let empty_shadow = NameSet::new();
    match pattern {
        BindingPattern::Identifier(_) => {},
        BindingPattern::Array { elements, rest } => {
            let mut i: usize = 0;
            while i < elements.len()
                invariant
                    i <= elements@.len(),
                    forall|n: Seq<char>| #[trigger] out@.contains(n) == (old(out)@.contains(n) || exists|j: int|
                        0 <= j < i && (#[trigger] elements@[j] matches Some(e) && pattern_runtime_refs(e, own@, Set::empty(), n))),
                decreases elements.len() - i,
            {
                if let Some(e) = &elements[i] {
                    collect_captured_pattern_runtime_exprs(e, own, out);
                }
                assert forall|n: Seq<char>| #[trigger] out@.contains(n) == (old(out)@.contains(n) || exists|j: int|
                    0 <= j < i + 1 && (#[trigger] elements@[j] matches Some(e) && pattern_runtime_refs(e, own@, Set::empty(), n))) by {
                    if exists|j: int| 0 <= j < i + 1 && (#[trigger] elements@[j] matches Some(e) && pattern_runtime_refs(e, own@, Set::empty(), n)) {
                        let j = choose|j: int| 0 <= j < i + 1 && (#[trigger] elements@[j] matches Some(e) && pattern_runtime_refs(e, own@, Set::empty(), n));
                        if j < i {
                        }
                    }
                }
                i += 1;
            }
            if let Some(r) = rest {
                collect_captured_pattern_runtime_exprs(r, own, out);
            }
        },
        BindingPattern::Object { properties, rest } => {
            let mut i: usize = 0;
            while i < properties.len()
                invariant
                    i <= properties@.len(),
                    forall|n: Seq<char>| #[trigger] out@.contains(n) == (old(out)@.contains(n) || exists|j: int|
                        0 <= j < i && ((#[trigger] properties@[j].key matches PropertyKey::Computed(k) && expr_refs(*k, own@, Set::empty(), n)) || pattern_runtime_refs(properties@[j].value, own@, Set::empty(), n))),
                decreases properties.len() - i,
            {
                if let PropertyKey::Computed(k) = &properties[i].key {
                    collect_capture_names_expr(k, own, &empty_shadow, out);
                }
                collect_captured_pattern_runtime_exprs(&properties[i].value, own, out);
                assert forall|n: Seq<char>| #[trigger] out@.contains(n) == (old(out)@.contains(n) || exists|j: int|
                    0 <= j < i + 1 && ((#[trigger] properties@[j].key matches PropertyKey::Computed(k) && expr_refs(*k, own@, Set::empty(), n)) || pattern_runtime_refs(properties@[j].value, own@, Set::empty(), n))) by {
                    if exists|j: int| 0 <= j < i + 1 && ((#[trigger] properties@[j].key matches PropertyKey::Computed(k) && expr_refs(*k, own@, Set::empty(), n)) || pattern_runtime_refs(properties@[j].value, own@, Set::empty(), n)) {
                        let j = choose|j: int| 0 <= j < i + 1 && ((#[trigger] properties@[j].key matches PropertyKey::Computed(k) && expr_refs(*k, own@, Set::empty(), n)) || pattern_runtime_refs(properties@[j].value, own@, Set::empty(), n));
                        if j < i {
                        }
                    }
                }
                i += 1;
            }
            if let Some(r) = rest {
                collect_captured_pattern_runtime_exprs(r, own, out);
            }
        },
        BindingPattern::Assignment { left, right } => {
            collect_capture_names_expr(right, own, &empty_shadow, out);
            collect_captured_pattern_runtime_exprs(left, own, out);
        },
    }
}

/// Adds to `out` the names of `own` that the nested function `f` refers to:
/// its parameter defaults, and its body with its parameters and declarations shadowing.
#[verifier::loop_isolation(false)]
fn collect_fn_captured(f: &Function, own: &NameSet, out: &mut NameSet)
    ensures
        forall|n: Seq<char>| #[trigger] final(out)@.contains(n) == (old(out)@.contains(n) || fn_refs(*f, own@, Set::empty(), n)),
{
    collect_fn_default_captured(&f.params, own, out);
    let mut fn_shadow_set = NameSet::new();
    let params = collect_fn_param_names(&f.params);
    fn_shadow_set.extend(&params);
    let empty: Vec<&str> = Vec::new();
    if let Some(body) = &f.body {
        let own_body = collect_own_binding_names(empty.as_slice(), body);
        fn_shadow_set.extend(&own_body);
        assert forall|m: Seq<char>| #[trigger] fn_shadow_set@.contains(m) == fn_shadow(Set::empty(), *f).contains(m) by {
            assert(param_names(f.params).contains(m) == params_bind(f.params, m));
        }
        assert(fn_shadow_set@ =~= fn_shadow(Set::empty(), *f));
        collect_capture_names_shadowed(body, own, &fn_shadow_set, out);
    }
}

/// Adds to `out` the names of `own` that a nested class refers to.
fn collect_class_captured(c: &Class, own: &NameSet, out: &mut NameSet)
    ensures
        forall|n: Seq<char>| #[trigger] final(out)@.contains(n) == (old(out)@.contains(n) || class_refs(*c, own@, class_shadow(Set::empty(), c.id), n)),
{
    let mut cs = NameSet::new();
    if let Some(id) = &c.id {
        cs.insert(id.as_str());
    }
    assert(cs@ =~= class_shadow(Set::empty(), c.id));
    collect_class_capture_names(c, own, &cs, out);
}

/// Adds to `out` the names of `own` captured through the run-time parts of a
/// `catch` parameter's pattern.
#[verifier::loop_isolation(false)]
pub fn collect_captured_binding_pattern(pattern: &BindingPattern, own: &NameSet, out: &mut NameSet)
    ensures
        forall|n: Seq<char>| #[trigger] final(out)@.contains(n) == (old(out)@.contains(n) || pattern_captured(*pattern, own@, n)),
    decreases pattern,
{
    match pattern {
        BindingPattern::Identifier(_) => {},
        BindingPattern::Array { elements, rest } => {
            let mut i: usize = 0;
            while i < elements.len()
                invariant
                    i <= elements@.len(),
                    forall|n: Seq<char>| #[trigger] out@.contains(n) == (old(out)@.contains(n) || exists|j: int|
                        0 <= j < i && (#[trigger] elements@[j] matches Some(e) && pattern_captured(e, own@, n))),
                decreases elements.len() - i,
            {
                if let Some(e) = &elements[i] {
                    collect_captured_binding_pattern(e, own, out);
                }
                assert forall|n: Seq<char>| #[trigger] out@.contains(n) == (old(out)@.contains(n) || exists|j: int|
                    0 <= j < i + 1 && (#[trigger] elements@[j] matches Some(e) && pattern_captured(e, own@, n))) by {
                    if exists|j: int| 0 <= j < i + 1 && (#[trigger] elements@[j] matches Some(e) && pattern_captured(e, own@, n)) {
                        let j = choose|j: int| 0 <= j < i + 1 && (#[trigger] elements@[j] matches Some(e) && pattern_captured(e, own@, n));
                        if j < i {
                        }
                    }
                }
                i += 1;
            }
            if let Some(r) = rest {
                collect_captured_binding_pattern(r, own, out);
            }
        },
        BindingPattern::Object { properties, rest } => {
            let mut i: usize = 0;
            while i < properties.len()
                invariant
                    i <= properties@.len(),
                    forall|n: Seq<char>| #[trigger] out@.contains(n) == (old(out)@.contains(n) || exists|j: int|
                        0 <= j < i && ((#[trigger] properties@[j].key matches PropertyKey::Computed(k) && expr_captured(*k, own@, n)) || pattern_captured(properties@[j].value, own@, n))),
                decreases properties.len() - i,
            {
                if let PropertyKey::Computed(k) = &properties[i].key {
                    collect_captured_expr(k, own, out);
                }
                collect_captured_binding_pattern(&properties[i].value, own, out);
                assert forall|n: Seq<char>| #[trigger] out@.contains(n) == (old(out)@.contains(n) || exists|j: int|
                    0 <= j < i + 1 && ((#[trigger] properties@[j].key matches PropertyKey::Computed(k) && expr_captured(*k, own@, n)) || pattern_captured(properties@[j].value, own@, n))) by {
                    if exists|j: int| 0 <= j < i + 1 && ((#[trigger] properties@[j].key matches PropertyKey::Computed(k) && expr_captured(*k, own@, n)) || pattern_captured(properties@[j].value, own@, n)) {
                        let j = choose|j: int| 0 <= j < i + 1 && ((#[trigger] properties@[j].key matches PropertyKey::Computed(k) && expr_captured(*k, own@, n)) || pattern_captured(properties@[j].value, own@, n));
                        if j < i {
                        }
                    }
                }
                i += 1;
            }
            if let Some(r) = rest {
                collect_captured_binding_pattern(r, own, out);
            }
        },
        BindingPattern::Assignment { left, right } => {
            collect_captured_expr(right, own, out);
            collect_captured_binding_pattern(left, own, out);
        },
    }
}

/// Adds to `out` the names of `own` captured through the run-time parts of a
/// declaration's or `for` head's pattern.
#[verifier::loop_isolation(false)]
pub fn collect_captured_binding_keys(pattern: &BindingPattern, own: &NameSet, out: &mut NameSet)
    ensures
        forall|n: Seq<char>| #[trigger] final(out)@.contains(n) == (old(out)@.contains(n) || pattern_captured(*pattern, own@, n)),
    decreases pattern,
{
    match pattern {
        BindingPattern::Identifier(_) => {},
        BindingPattern::Array { elements, rest } => {
            let mut i: usize = 0;
            while i < elements.len()
                invariant
                    i <= elements@.len(),
                    forall|n: Seq<char>| #[trigger] out@.contains(n) == (old(out)@.contains(n) || exists|j: int|
                        0 <= j < i && (#[trigger] elements@[j] matches Some(e) && pattern_captured(e, own@, n))),
                decreases elements.len() - i,
            {
                if let Some(e) = &elements[i] {
                    collect_captured_binding_keys(e, own, out);
                }
                assert forall|n: Seq<char>| #[trigger] out@.contains(n) == (old(out)@.contains(n) || exists|j: int|
                    0 <= j < i + 1 && (#[trigger] elements@[j] matches Some(e) && pattern_captured(e, own@, n))) by {
                    if exists|j: int| 0 <= j < i + 1 && (#[trigger] elements@[j] matches Some(e) && pattern_captured(e, own@, n)) {
                        let j = choose|j: int| 0 <= j < i + 1 && (#[trigger] elements@[j] matches Some(e) && pattern_captured(e, own@, n));
                        if j < i {
                        }
                    }
                }
                i += 1;
            }
            if let Some(r) = rest {
                collect_captured_binding_keys(r, own, out);
            }
        },
        BindingPattern::Object { properties, rest } => {
            let mut i: usize = 0;
            while i < properties.len()
                invariant
                    i <= properties@.len(),
                    forall|n: Seq<char>| #[trigger] out@.contains(n) == (old(out)@.contains(n) || exists|j: int|
                        0 <= j < i && ((#[trigger] properties@[j].key matches PropertyKey::Computed(k) && expr_captured(*k, own@, n)) || pattern_captured(properties@[j].value, own@, n))),
                decreases properties.len() - i,
            {
                if let PropertyKey::Computed(k) = &properties[i].key {
                    collect_captured_expr(k, own, out);
                }
                collect_captured_binding_keys(&properties[i].value, own, out);
                assert forall|n: Seq<char>| #[trigger] out@.contains(n) == (old(out)@.contains(n) || exists|j: int|
                    0 <= j < i + 1 && ((#[trigger] properties@[j].key matches PropertyKey::Computed(k) && expr_captured(*k, own@, n)) || pattern_captured(properties@[j].value, own@, n))) by {
                    if exists|j: int| 0 <= j < i + 1 && ((#[trigger] properties@[j].key matches PropertyKey::Computed(k) && expr_captured(*k, own@, n)) || pattern_captured(properties@[j].value, own@, n)) {
                        let j = choose|j: int| 0 <= j < i + 1 && ((#[trigger] properties@[j].key matches PropertyKey::Computed(k) && expr_captured(*k, own@, n)) || pattern_captured(properties@[j].value, own@, n));
                        if j < i {
                        }
                    }
                }
                i += 1;
            }
            if let Some(r) = rest {
                collect_captured_binding_keys(r, own, out);
            }
        },
        BindingPattern::Assignment { left, right } => {
            collect_captured_expr(right, own, out);
            collect_captured_binding_keys(left, own, out);
        },
    }
}

/// Adds to `out` the captures within a list of call arguments.
#[verifier::loop_isolation(false)]
fn collect_captured_args(args: &Vec<Argument>, own: &NameSet, out: &mut NameSet)
    ensures
        forall|n: Seq<char>| #[trigger] final(out)@.contains(n) == (old(out)@.contains(n) || exists|i: int| 0 <= i < args@.len() && arg_captured(#[trigger] args@[i], own@, n)),
    decreases args@,
{
    let mut i: usize = 0;
    while i < args.len()
        invariant
            i <= args@.len(),
            forall|n: Seq<char>| #[trigger] out@.contains(n) == (old(out)@.contains(n) || exists|j: int|
                0 <= j < i && arg_captured(#[trigger] args@[j], own@, n)),
        decreases args.len() - i,
    {
        collect_captured_arg(&args[i], own, out);
        assert forall|n: Seq<char>| #[trigger] out@.contains(n) == (old(out)@.contains(n) || exists|j: int|
            0 <= j < i + 1 && arg_captured(#[trigger] args@[j], own@, n)) by {
            if exists|j: int| 0 <= j < i + 1 && arg_captured(#[trigger] args@[j], own@, n) {
                let j = choose|j: int| 0 <= j < i + 1 && arg_captured(#[trigger] args@[j], own@, n);
                if j < i {
                }
            }
        }
        i += 1;
    }
}

/// Adds to `out` the names of `own` that nested functions and classes inside
/// `expr` refer to.
#[verifier::loop_isolation(false)]
pub fn collect_captured_expr(expr: &Expression, own: &NameSet, out: &mut NameSet)
    ensures
        forall|n: Seq<char>| #[trigger] final(out)@.contains(n) == (old(out)@.contains(n) || expr_captured(*expr, own@, n)),
    decreases expr,
{
    match expr {
        Expression::Function(f) => collect_fn_captured(f, own, out),
        Expression::ArrowFunction(f) => collect_fn_captured(f, own, out),
        Expression::Class(c) => collect_class_captured(c, own, out),
        Expression::Call { callee, arguments } => {
            collect_captured_expr(callee, own, out);
            collect_captured_args(arguments, own, out);
        },
        Expression::Binary { left, right, .. } => {
            collect_captured_expr(left, own, out);
            collect_captured_expr(right, own, out);
        },
        Expression::Unary { argument, .. } => collect_captured_expr(argument, own, out),
        Expression::Logical { left, right, .. } => {
            collect_captured_expr(left, own, out);
            collect_captured_expr(right, own, out);
        },
        Expression::Conditional { test, consequent, alternate } => {
            collect_captured_expr(test, own, out);
            collect_captured_expr(consequent, own, out);
            collect_captured_expr(alternate, own, out);
        },
        Expression::Sequence(es) => {
            let mut i: usize = 0;
            while i < es.len()
                invariant
                    i <= es@.len(),
                    forall|n: Seq<char>| #[trigger] out@.contains(n) == (old(out)@.contains(n) || exists|j: int|
                        0 <= j < i && expr_captured(#[trigger] es@[j], own@, n)),
                decreases es.len() - i,
            {
                collect_captured_expr(&es[i], own, out);
                assert forall|n: Seq<char>| #[trigger] out@.contains(n) == (old(out)@.contains(n) || exists|j: int|
                    0 <= j < i + 1 && expr_captured(#[trigger] es@[j], own@, n)) by {
                    if exists|j: int| 0 <= j < i + 1 && expr_captured(#[trigger] es@[j], own@, n) {
                        let j = choose|j: int| 0 <= j < i + 1 && expr_captured(#[trigger] es@[j], own@, n);
                        if j < i {
                        }
                    }
                }
                i += 1;
            }
        },
        Expression::Assignment { right, .. } => collect_captured_expr(right, own, out),
        Expression::Update { .. } => {},
        Expression::Array(els) => {
            let mut i: usize = 0;
            while i < els.len()
                invariant
                    i <= els@.len(),
                    forall|n: Seq<char>| #[trigger] out@.contains(n) == (old(out)@.contains(n) || exists|j: int|
                        0 <= j < i && (#[trigger] els@[j] matches ArrayElement::Expression(x) && expr_captured(x, own@, n))),
                decreases els.len() - i,
            {
                if let ArrayElement::Expression(x) = &els[i] {
                    collect_captured_expr(x, own, out);
                }
                assert forall|n: Seq<char>| #[trigger] out@.contains(n) == (old(out)@.contains(n) || exists|j: int|
                    0 <= j < i + 1 && (#[trigger] els@[j] matches ArrayElement::Expression(x) && expr_captured(x, own@, n))) by {
                    if exists|j: int| 0 <= j < i + 1 && (#[trigger] els@[j] matches ArrayElement::Expression(x) && expr_captured(x, own@, n)) {
                        let j = choose|j: int| 0 <= j < i + 1 && (#[trigger] els@[j] matches ArrayElement::Expression(x) && expr_captured(x, own@, n));
                        if j < i {
                        }
                    }
                }
                i += 1;
            }
        },
        Expression::Object(props) => {
            let mut i: usize = 0;
            while i < props.len()
                invariant
                    i <= props@.len(),
                    forall|n: Seq<char>| #[trigger] out@.contains(n) == (old(out)@.contains(n) || exists|j: int|
                        0 <= j < i && object_property_captured(#[trigger] props@[j], own@, n)),
                decreases props.len() - i,
            {
                match &props[i] {
                    ObjectPropertyKind::Property { key, value } => {
                        if let PropertyKey::Computed(k) = key {
                            collect_captured_expr(k, own, out);
                        }
                        collect_captured_expr(value, own, out);
                    },
                    ObjectPropertyKind::Spread(x) => collect_captured_expr(x, own, out),
                }
                assert forall|n: Seq<char>| #[trigger] out@.contains(n) == (old(out)@.contains(n) || exists|j: int|
                    0 <= j < i + 1 && object_property_captured(#[trigger] props@[j], own@, n)) by {
                    if exists|j: int| 0 <= j < i + 1 && object_property_captured(#[trigger] props@[j], own@, n) {
                        let j = choose|j: int| 0 <= j < i + 1 && object_property_captured(#[trigger] props@[j], own@, n);
                        if j < i {
                        }
                    }
                }
                i += 1;
            }
        },
        Expression::New { callee, arguments } => {
            collect_captured_expr(callee, own, out);
            collect_captured_args(arguments, own, out);
        },
        Expression::ComputedMember { object, expression } => {
            collect_captured_expr(object, own, out);
            collect_captured_expr(expression, own, out);
        },
        Expression::StaticMember { object, .. } => collect_captured_expr(object, own, out),
        Expression::PrivateField { object, .. } => collect_captured_expr(object, own, out),
        Expression::TemplateLiteral(tl) => {
            let mut i: usize = 0;
            while i < tl.expressions.len()
                invariant
                    i <= tl.expressions@.len(),
                    forall|n: Seq<char>| #[trigger] out@.contains(n) == (old(out)@.contains(n) || exists|j: int|
                        0 <= j < i && expr_captured(#[trigger] tl.expressions@[j], own@, n)),
                decreases tl.expressions.len() - i,
            {
                collect_captured_expr(&tl.expressions[i], own, out);
                assert forall|n: Seq<char>| #[trigger] out@.contains(n) == (old(out)@.contains(n) || exists|j: int|
                    0 <= j < i + 1 && expr_captured(#[trigger] tl.expressions@[j], own@, n)) by {
                    if exists|j: int| 0 <= j < i + 1 && expr_captured(#[trigger] tl.expressions@[j], own@, n) {
                        let j = choose|j: int| 0 <= j < i + 1 && expr_captured(#[trigger] tl.expressions@[j], own@, n);
                        if j < i {
                        }
                    }
                }
                i += 1;
            }
        },
        Expression::TaggedTemplate { tag, quasi } => {
            collect_captured_expr(tag, own, out);
            let ghost tag_out = out@;
            let mut i: usize = 0;
            while i < quasi.expressions.len()
                invariant
                    i <= quasi.expressions@.len(),
                    forall|n: Seq<char>| #[trigger] out@.contains(n) == (tag_out.contains(n) || exists|j: int|
                        0 <= j < i && expr_captured(#[trigger] quasi.expressions@[j], own@, n)),
                decreases quasi.expressions.len() - i,
            {
                collect_captured_expr(&quasi.expressions[i], own, out);
                assert forall|n: Seq<char>| #[trigger] out@.contains(n) == (tag_out.contains(n) || exists|j: int|
                    0 <= j < i + 1 && expr_captured(#[trigger] quasi.expressions@[j], own@, n)) by {
                    if exists|j: int| 0 <= j < i + 1 && expr_captured(#[trigger] quasi.expressions@[j], own@, n) {
                        let j = choose|j: int| 0 <= j < i + 1 && expr_captured(#[trigger] quasi.expressions@[j], own@, n);
                        if j < i {
                        }
                    }
                }
                i += 1;
            }
        },
        Expression::Parenthesized(x) => collect_captured_expr(x, own, out),
        Expression::Yield(a) => {
            if let Some(x) = a {
                collect_captured_expr(x, own, out);
            }
        },
        Expression::Await(x) => collect_captured_expr(x, own, out),
        Expression::Chain(c) => collect_captured_chain(c, own, out),
        _ => {},
    }
}

/// Adds to `out` the captures within an element of an optional chain.
pub fn collect_captured_chain(element: &ChainElement, own: &NameSet, out: &mut NameSet)
    ensures
        forall|n: Seq<char>| #[trigger] final(out)@.contains(n) == (old(out)@.contains(n) || chain_captured(*element, own@, n)),
    decreases element,
{
    match element {
        ChainElement::StaticMember { object, .. } => collect_captured_expr(object, own, out),
        ChainElement::ComputedMember { object, expression } => {
            collect_captured_expr(object, own, out);
            collect_captured_expr(expression, own, out);
        },
        ChainElement::PrivateField { object, .. } => collect_captured_expr(object, own, out),
        ChainElement::Call { callee, arguments } => {
            collect_captured_expr(callee, own, out);
            collect_captured_args(arguments, own, out);
        },
        ChainElement::Other => {},
    }
}

/// Adds to `out` the captures within a call argument.
pub fn collect_captured_arg(arg: &Argument, own: &NameSet, out: &mut NameSet)
    ensures
        forall|n: Seq<char>| #[trigger] final(out)@.contains(n) == (old(out)@.contains(n) || arg_captured(*arg, own@, n)),
    decreases arg,
{
    match arg {
        Argument::Expression(e) => collect_captured_expr(e, own, out),
        Argument::Spread(e) => collect_captured_expr(e, own, out),
    }
}

/// Adds to `out` the captures within a variable declaration.
#[verifier::loop_isolation(false)]
fn collect_captured_declaration(vd: &VariableDeclaration, own: &NameSet, out: &mut NameSet)
    ensures
        forall|n: Seq<char>| #[trigger] final(out)@.contains(n) == (old(out)@.contains(n) || declaration_captured(*vd, own@, n)),
    decreases vd,
{
    let mut i: usize = 0;
    while i < vd.declarations.len()
        invariant
            i <= vd.declarations@.len(),
            forall|n: Seq<char>| #[trigger] out@.contains(n) == (old(out)@.contains(n) || exists|j: int|
                0 <= j < i && (pattern_captured(#[trigger] vd.declarations@[j].id, own@, n) || (vd.declarations@[j].init matches Some(init) && expr_captured(init, own@, n)))),
        decreases vd.declarations.len() - i,
    {
        collect_captured_binding_keys(&vd.declarations[i].id, own, out);
        if let Some(init) = &vd.declarations[i].init {
            collect_captured_expr(init, own, out);
        }
        assert forall|n: Seq<char>| #[trigger] out@.contains(n) == (old(out)@.contains(n) || exists|j: int|
            0 <= j < i + 1 && (pattern_captured(#[trigger] vd.declarations@[j].id, own@, n) || (vd.declarations@[j].init matches Some(init) && expr_captured(init, own@, n)))) by {
            if exists|j: int| 0 <= j < i + 1 && (pattern_captured(#[trigger] vd.declarations@[j].id, own@, n) || (vd.declarations@[j].init matches Some(init) && expr_captured(init, own@, n))) {
                let j = choose|j: int| 0 <= j < i + 1 && (pattern_captured(#[trigger] vd.declarations@[j].id, own@, n) || (vd.declarations@[j].init matches Some(init) && expr_captured(init, own@, n)));
                if j < i {
                }
            }
        }
        i += 1;
    }
}

/// Adds to `out` the captures within the patterns of a `for-in`/`for-of` head.
#[verifier::loop_isolation(false)]
fn collect_captured_for_left(left: &ForLeft, own: &NameSet, out: &mut NameSet)
    ensures
        forall|n: Seq<char>| #[trigger] final(out)@.contains(n) == (old(out)@.contains(n) || for_left_captured(*left, own@, n)),
    decreases left,
{
    if let ForLeft::Variable(vd) = left {
        let mut i: usize = 0;
        while i < vd.declarations.len()
            invariant
                i <= vd.declarations@.len(),
                forall|n: Seq<char>| #[trigger] out@.contains(n) == (old(out)@.contains(n) || exists|j: int|
                    0 <= j < i && pattern_captured(#[trigger] vd.declarations@[j].id, own@, n)),
            decreases vd.declarations.len() - i,
        {
            collect_captured_binding_keys(&vd.declarations[i].id, own, out);
            assert forall|n: Seq<char>| #[trigger] out@.contains(n) == (old(out)@.contains(n) || exists|j: int|
                0 <= j < i + 1 && pattern_captured(#[trigger] vd.declarations@[j].id, own@, n)) by {
                if exists|j: int| 0 <= j < i + 1 && pattern_captured(#[trigger] vd.declarations@[j].id, own@, n) {
                    let j = choose|j: int| 0 <= j < i + 1 && pattern_captured(#[trigger] vd.declarations@[j].id, own@, n);
                    if j < i {
                    }
                }
            }
            i += 1;
        }
    }
}

/// Adds to `out` the captures within a list of statements.
#[verifier::loop_isolation(false)]
pub fn collect_captured_stmts(stmts: &Vec<Statement>, own: &NameSet, out: &mut NameSet)
    ensures
        forall|n: Seq<char>| #[trigger] final(out)@.contains(n) == (old(out)@.contains(n) || stmts_captured(stmts@, own@, n)),
    decreases stmts@,
{
    let mut i: usize = 0;
    while i < stmts.len()
        invariant
            i <= stmts@.len(),
            forall|n: Seq<char>| #[trigger] out@.contains(n) == (old(out)@.contains(n) || exists|j: int|
                0 <= j < i && stmt_captured(#[trigger] stmts@[j], own@, n)),
        decreases stmts.len() - i,
    {
        collect_captured_stmt(&stmts[i], own, out);
        assert forall|n: Seq<char>| #[trigger] out@.contains(n) == (old(out)@.contains(n) || exists|j: int|
            0 <= j < i + 1 && stmt_captured(#[trigger] stmts@[j], own@, n)) by {
            if exists|j: int| 0 <= j < i + 1 && stmt_captured(#[trigger] stmts@[j], own@, n) {
                let j = choose|j: int| 0 <= j < i + 1 && stmt_captured(#[trigger] stmts@[j], own@, n);
                if j < i {
                }
            }
        }
        i += 1;
    }
}

/// Adds to `out` the names of `own` that nested functions and classes within
/// `stmt` refer to. Only nested function bodies count; direct references do not.
#[verifier::loop_isolation(false)]
pub fn collect_captured_stmt(stmt: &Statement, own: &NameSet, out: &mut NameSet)
    ensures
        forall|n: Seq<char>| #[trigger] final(out)@.contains(n) == (old(out)@.contains(n) || stmt_captured(*stmt, own@, n)),
    decreases stmt,
{
    match stmt {
        Statement::Function(f) => collect_fn_captured(f, own, out),
        Statement::Class(c) => collect_class_captured(c, own, out),
        Statement::ExportNamed(exp) => {
            match &exp.declaration {
                Some(Declaration::Variable(vd)) => collect_captured_declaration(vd, own, out),
                Some(Declaration::Function(f)) => collect_fn_captured(f, own, out),
                Some(Declaration::Class(c)) => collect_class_captured(c, own, out),
                _ => {},
            }
        },
        Statement::ExportDefault(kind) => {
            match kind {
                ExportDefaultKind::Function(f) => collect_fn_captured(f, own, out),
                ExportDefaultKind::Class(c) => collect_class_captured(c, own, out),
                ExportDefaultKind::Expression(x) => collect_captured_expr(x, own, out),
            }
        },
        Statement::Expression(e) => collect_captured_expr(e, own, out),
        Statement::Return(a) => {
            if let Some(x) = a {
                collect_captured_expr(x, own, out);
            }
        },
        Statement::Variable(vd) => collect_captured_declaration(vd, own, out),
        Statement::If { test, consequent, alternate } => {
            collect_captured_expr(test, own, out);
            collect_captured_stmt(consequent, own, out);
            if let Some(a) = alternate {
                collect_captured_stmt(a, own, out);
            }
        },
        Statement::For { init, test, update, body } => {
            match init {
                Some(ForInit::Expression(x)) => collect_captured_expr(x, own, out),
                Some(ForInit::Variable(vd)) => collect_captured_declaration(vd, own, out),
                None => {},
            }
            if let Some(t) = test {
                collect_captured_expr(t, own, out);
            }
            if let Some(u) = update {
                collect_captured_expr(u, own, out);
            }
            collect_captured_stmt(body, own, out);
        },
        Statement::While { test, body } => {
            collect_captured_expr(test, own, out);
            collect_captured_stmt(body, own, out);
        },
        Statement::DoWhile { body, test } => {
            collect_captured_stmt(body, own, out);
            collect_captured_expr(test, own, out);
        },
        Statement::ForIn { left, right, body } => {
            collect_captured_expr(right, own, out);
            collect_captured_for_left(left, own, out);
            collect_captured_stmt(body, own, out);
        },
        Statement::ForOf { left, right, body, .. } => {
            collect_captured_expr(right, own, out);
            collect_captured_for_left(left, own, out);
            collect_captured_stmt(body, own, out);
        },
        Statement::Block(body) => collect_captured_stmts(body, own, out),
        Statement::Try { block, handler, finalizer } => {
            collect_captured_stmts(block, own, out);
            if let Some(h) = handler {
                if let Some(p) = &h.param {
                    collect_captured_binding_pattern(p, own, out);
                }
                collect_captured_stmts(&h.body, own, out);
            }
            if let Some(f) = finalizer {
                collect_captured_stmts(f, own, out);
            }
        },
        Statement::Throw(x) => collect_captured_expr(x, own, out),
        Statement::Switch { discriminant, cases } => {
            collect_captured_expr(discriminant, own, out);
            let ghost disc_out = out@;
            let mut c: usize = 0;
            while c < cases.len()
                invariant
                    c <= cases@.len(),
                    forall|n: Seq<char>| #[trigger] out@.contains(n) == (disc_out.contains(n) || exists|j: int|
                        0 <= j < c && stmts_captured(#[trigger] cases@[j].consequent@, own@, n)),
                decreases cases.len() - c,
            {
                collect_captured_stmts(&cases[c].consequent, own, out);
                assert forall|n: Seq<char>| #[trigger] out@.contains(n) == (disc_out.contains(n) || exists|j: int|
                    0 <= j < c + 1 && stmts_captured(#[trigger] cases@[j].consequent@, own@, n)) by {
                    if exists|j: int| 0 <= j < c + 1 && stmts_captured(#[trigger] cases@[j].consequent@, own@, n) {
                        let j = choose|j: int| 0 <= j < c + 1 && stmts_captured(#[trigger] cases@[j].consequent@, own@, n);
                        if j < c {
                        }
                    }
                }
                c += 1;
            }
        },
        Statement::Labeled { body, .. } => collect_captured_stmt(body, own, out),
        Statement::With { object, body } => {
            collect_captured_expr(object, own, out);
            collect_captured_stmt(body, own, out);
        },
        _ => {},
    }
}

} // verus!
