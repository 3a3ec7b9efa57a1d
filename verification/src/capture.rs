//! Closure-capture analysis.
//!
//! A name is *captured* when a function nested (to any depth) inside the
//! current one refers to it and no scope in between rebinds it. The analysis
//! runs over the syntax tree before any instruction is emitted: the current
//! function's captured bindings get cells, numbered in name order, and a
//! nested function's upvalues point at those cells.
//!
//! The `*_refs` predicates below say which names of a set `rs` a piece of
//! syntax refers to while the names of `sh` are shadowed; they follow the
//! scanner's traversal, which enters nested functions and classes with the
//! shadow set widened by their parameters and declarations.
use vstd::prelude::*;
use crate::ast::{
    Argument, ArrayElement, AssignmentTarget, AssignmentTargetProperty, BindingPattern, ChainElement, Class,
    ClassElement, Declaration, ExportDefaultKind, Expression, ForInit, ForLeft, FormalParameters, Function,
    MaybeDefaultTarget, ObjectPropertyKind, PropertyKey, Statement, VariableDeclaration,
};
use crate::names::{
    collect_fn_param_names, collect_for_left_decl_names, collect_own_binding_names,
    for_left_binds, param_names, params_bind, pattern_binds, pattern_names, stmts_declare,
};
use crate::nameset::NameSet;

verus! {

/// An identifier occurrence of `s` counts as a reference to `n`.
pub open spec fn ident_refs(s: Seq<char>, rs: Set<Seq<char>>, sh: Set<Seq<char>>, n: Seq<char>) -> bool {
    s == n && rs.contains(n) && !sh.contains(n)
}

/// The shadow set inside a function: the outer shadow set, the function's
/// parameter names and the names its body declares.
pub open spec fn fn_shadow(sh: Set<Seq<char>>, f: Function) -> Set<Seq<char>> {
    Set::new(|m: Seq<char>| sh.contains(m) || params_bind(f.params, m) || (f.body matches Some(b) && stmts_declare(b@, m)))
}

/// The shadow set inside a class: the outer set and the class's own name.
pub open spec fn class_shadow(sh: Set<Seq<char>>, id: Option<String>) -> Set<Seq<char>> {
    match id {
        Some(s) => sh.insert(s@),
        None => sh,
    }
}

/// References in a function: its parameter defaults (under the outer shadow
/// set) and its body (under the function's shadow set).
pub open spec fn fn_refs(f: Function, rs: Set<Seq<char>>, sh: Set<Seq<char>>, n: Seq<char>) -> bool
    decreases f,
{
    fn_default_refs(f.params, rs, sh, n) || (f.body matches Some(b) && stmts_refs(b@, rs, fn_shadow(sh, f), n))
}

/// References in the parameter defaults and the run-time parts of the
/// parameter patterns.
pub open spec fn fn_default_refs(ps: FormalParameters, rs: Set<Seq<char>>, sh: Set<Seq<char>>, n: Seq<char>) -> bool
    decreases ps,
{
    exists|i: int| 0 <= i < ps.items.len() && (
        (#[trigger] ps.items@[i].initializer matches Some(init) && expr_refs(init, rs, sh, n))
        || pattern_runtime_refs(ps.items@[i].pattern, rs, sh, n))
}

/// References in the parts of a binding pattern evaluated at run time:
/// computed keys and default values.
pub open spec fn pattern_runtime_refs(p: BindingPattern, rs: Set<Seq<char>>, sh: Set<Seq<char>>, n: Seq<char>) -> bool
    decreases p,
{
    match p {
        BindingPattern::Identifier(_) => false,
        BindingPattern::Array { elements, rest } => (exists|i: int|
            0 <= i < elements.len() && (#[trigger] elements@[i] matches Some(e) && pattern_runtime_refs(e, rs, sh, n)))
            || (rest matches Some(r) && pattern_runtime_refs(*r, rs, sh, n)),
        BindingPattern::Object { properties, rest } => (exists|i: int|
            0 <= i < properties.len() && (
                (#[trigger] properties@[i].key matches PropertyKey::Computed(k) && expr_refs(*k, rs, sh, n))
                || pattern_runtime_refs(properties@[i].value, rs, sh, n)))
            || (rest matches Some(r) && pattern_runtime_refs(*r, rs, sh, n)),
        BindingPattern::Assignment { left, right } => expr_refs(*right, rs, sh, n)
            || pattern_runtime_refs(*left, rs, sh, n),
    }
}

/// References in a class body: methods (as functions under the class shadow
/// set), field keys and values, and static blocks.
pub open spec fn class_refs(c: Class, rs: Set<Seq<char>>, csh: Set<Seq<char>>, n: Seq<char>) -> bool
    decreases c,
{
    exists|i: int| 0 <= i < c.body.len() && class_element_refs(#[trigger] c.body@[i], rs, csh, n)
}

/// References in one class element.
pub open spec fn class_element_refs(el: ClassElement, rs: Set<Seq<char>>, csh: Set<Seq<char>>, n: Seq<char>) -> bool
    decreases el,
{
    match el {
        ClassElement::Method { value, .. } => fn_refs(value, rs, csh, n),
        ClassElement::Property { key, value, .. } => (key matches PropertyKey::Computed(k) && expr_refs(*k, rs, csh, n))
            || (value matches Some(v) && expr_refs(v, rs, csh, n)),
        ClassElement::StaticBlock(body) => stmts_refs(body@, rs, csh, n),
        ClassElement::Accessor | ClassElement::Other => false,
    }
}

/// References in an assignment target.
pub open spec fn target_refs(t: AssignmentTarget, rs: Set<Seq<char>>, sh: Set<Seq<char>>, n: Seq<char>) -> bool
    decreases t,
{
    match t {
        AssignmentTarget::Identifier(s) => ident_refs(s@, rs, sh, n),
        AssignmentTarget::StaticMember { object, .. } => expr_refs(object, rs, sh, n),
        AssignmentTarget::ComputedMember { object, expression } => expr_refs(object, rs, sh, n)
            || expr_refs(expression, rs, sh, n),
        AssignmentTarget::Array { elements, rest } => (exists|i: int|
            0 <= i < elements.len() && (#[trigger] elements@[i] matches Some(e) && maybe_default_refs(e, rs, sh, n)))
            || (rest matches Some(r) && target_refs(*r, rs, sh, n)),
        AssignmentTarget::Object { properties, rest } => (exists|i: int|
            0 <= i < properties.len() && target_property_refs(#[trigger] properties@[i], rs, sh, n))
            || (rest matches Some(r) && target_refs(*r, rs, sh, n)),
        _ => false,
    }
}

/// References in a property of an object destructuring assignment.
pub open spec fn target_property_refs(p: AssignmentTargetProperty, rs: Set<Seq<char>>, sh: Set<Seq<char>>, n: Seq<char>) -> bool
    decreases p,
{
    match p {
        AssignmentTargetProperty::Identifier { name, init } => ident_refs(name@, rs, sh, n)
            || (init matches Some(i) && expr_refs(i, rs, sh, n)),
        AssignmentTargetProperty::Property { name, binding } => (name matches PropertyKey::Computed(k) && expr_refs(*k, rs, sh, n))
            || maybe_default_refs(binding, rs, sh, n),
    }
}

/// References in an element of a destructuring assignment. A nested array or
/// object target is scanned element by element, without its rest element.
pub open spec fn maybe_default_refs(m: MaybeDefaultTarget, rs: Set<Seq<char>>, sh: Set<Seq<char>>, n: Seq<char>) -> bool
    decreases m,
{
    match m {
        MaybeDefaultTarget::WithDefault { binding, init } => expr_refs(init, rs, sh, n) || target_refs(binding, rs, sh, n),
        MaybeDefaultTarget::Plain(t) => match t {
            AssignmentTarget::Identifier(s) => ident_refs(s@, rs, sh, n),
            AssignmentTarget::StaticMember { object, .. } => expr_refs(object, rs, sh, n),
            AssignmentTarget::ComputedMember { object, expression } => expr_refs(object, rs, sh, n)
                || expr_refs(expression, rs, sh, n),
            AssignmentTarget::Array { elements, .. } => exists|i: int|
                0 <= i < elements.len() && (#[trigger] elements@[i] matches Some(e) && maybe_default_refs(e, rs, sh, n)),
            AssignmentTarget::Object { properties, .. } => exists|i: int|
                0 <= i < properties.len() && target_property_refs(#[trigger] properties@[i], rs, sh, n),
            _ => false,
        },
    }
}

/// References in the target of `++`/`--`.
pub open spec fn simple_target_refs(t: AssignmentTarget, rs: Set<Seq<char>>, sh: Set<Seq<char>>, n: Seq<char>) -> bool
    decreases t,
{
    match t {
        AssignmentTarget::Identifier(s) => ident_refs(s@, rs, sh, n),
        AssignmentTarget::StaticMember { object, .. } => expr_refs(object, rs, sh, n),
        AssignmentTarget::ComputedMember { object, expression } => expr_refs(object, rs, sh, n)
            || expr_refs(expression, rs, sh, n),
        _ => false,
    }
}

/// References in a call argument.
pub open spec fn arg_refs(a: Argument, rs: Set<Seq<char>>, sh: Set<Seq<char>>, n: Seq<char>) -> bool
    decreases a,
{
    match a {
        Argument::Expression(e) => expr_refs(e, rs, sh, n),
        Argument::Spread(e) => expr_refs(e, rs, sh, n),
    }
}

/// References in an element of an optional chain.
pub open spec fn chain_refs(c: ChainElement, rs: Set<Seq<char>>, sh: Set<Seq<char>>, n: Seq<char>) -> bool
    decreases c,
{
    match c {
        ChainElement::StaticMember { object, .. } => expr_refs(object, rs, sh, n),
        ChainElement::ComputedMember { object, expression } => expr_refs(object, rs, sh, n) || expr_refs(expression, rs, sh, n),
        ChainElement::PrivateField { object, .. } => expr_refs(object, rs, sh, n),
        ChainElement::Call { callee, arguments } => expr_refs(callee, rs, sh, n)
            || exists|i: int| 0 <= i < arguments.len() && arg_refs(#[trigger] arguments@[i], rs, sh, n),
        ChainElement::Other => false,
    }
}

/// References in a member of an object literal.
pub open spec fn object_property_refs(p: ObjectPropertyKind, rs: Set<Seq<char>>, sh: Set<Seq<char>>, n: Seq<char>) -> bool
    decreases p,
{
    match p {
        ObjectPropertyKind::Property { key, value } => (key matches PropertyKey::Computed(k) && expr_refs(*k, rs, sh, n))
            || expr_refs(value, rs, sh, n),
        ObjectPropertyKind::Spread(e) => expr_refs(e, rs, sh, n),
    }
}

/// References in an expression.
pub open spec fn expr_refs(e: Expression, rs: Set<Seq<char>>, sh: Set<Seq<char>>, n: Seq<char>) -> bool
    decreases e,
{
    match e {
        Expression::Identifier(s) => ident_refs(s@, rs, sh, n),
        Expression::Assignment { left, right, .. } => target_refs(*left, rs, sh, n) || expr_refs(*right, rs, sh, n),
        Expression::Update { argument, .. } => simple_target_refs(*argument, rs, sh, n),
        Expression::Function(f) => fn_refs(*f, rs, sh, n),
        Expression::ArrowFunction(f) => fn_refs(*f, rs, sh, n),
        Expression::Class(c) => class_refs(*c, rs, class_shadow(sh, c.id), n),
        Expression::Binary { left, right, .. } => expr_refs(*left, rs, sh, n) || expr_refs(*right, rs, sh, n),
        Expression::Logical { left, right, .. } => expr_refs(*left, rs, sh, n) || expr_refs(*right, rs, sh, n),
        Expression::Unary { argument, .. } => expr_refs(*argument, rs, sh, n),
        Expression::Call { callee, arguments } => expr_refs(*callee, rs, sh, n)
            || exists|i: int| 0 <= i < arguments.len() && arg_refs(#[trigger] arguments@[i], rs, sh, n),
        Expression::New { callee, arguments } => expr_refs(*callee, rs, sh, n)
            || exists|i: int| 0 <= i < arguments.len() && arg_refs(#[trigger] arguments@[i], rs, sh, n),
        Expression::Sequence(es) => exists|i: int| 0 <= i < es.len() && expr_refs(#[trigger] es@[i], rs, sh, n),
        Expression::Conditional { test, consequent, alternate } => expr_refs(*test, rs, sh, n)
            || expr_refs(*consequent, rs, sh, n) || expr_refs(*alternate, rs, sh, n),
        Expression::Array(els) => exists|i: int|
            0 <= i < els.len() && (#[trigger] els@[i] matches ArrayElement::Expression(x) && expr_refs(x, rs, sh, n)),
        Expression::ComputedMember { object, expression } => expr_refs(*object, rs, sh, n)
            || expr_refs(*expression, rs, sh, n),
        Expression::StaticMember { object, .. } => expr_refs(*object, rs, sh, n),
        Expression::PrivateField { object, .. } => expr_refs(*object, rs, sh, n),
        Expression::Parenthesized(x) => expr_refs(*x, rs, sh, n),
        Expression::TemplateLiteral(tl) => exists|i: int|
            0 <= i < tl.expressions.len() && expr_refs(#[trigger] tl.expressions@[i], rs, sh, n),
        Expression::TaggedTemplate { tag, quasi } => expr_refs(*tag, rs, sh, n) || exists|i: int|
            0 <= i < quasi.expressions.len() && expr_refs(#[trigger] quasi.expressions@[i], rs, sh, n),
        Expression::Object(props) => exists|i: int|
            0 <= i < props.len() && object_property_refs(#[trigger] props@[i], rs, sh, n),
        Expression::Yield(a) => a matches Some(x) && expr_refs(*x, rs, sh, n),
        Expression::Await(x) => expr_refs(*x, rs, sh, n),
        Expression::Chain(c) => chain_refs(*c, rs, sh, n),
        _ => false,
    }
}

/// The operands of an expression that are evaluated in the scope the
/// expression stands in (nested functions and classes, whose bodies open
/// scopes of their own, have none here).
pub open spec fn scope_operands(e: Expression) -> Seq<Expression> {
    match e {
        Expression::Binary { left, right, .. } => seq![*left, *right],
        Expression::Logical { left, right, .. } => seq![*left, *right],
        Expression::Unary { argument, .. } => seq![*argument],
        Expression::Conditional { test, consequent, alternate } => seq![*test, *consequent, *alternate],
        Expression::Sequence(es) => es@,
        Expression::ComputedMember { object, expression } => seq![*object, *expression],
        Expression::StaticMember { object, .. } => seq![*object],
        Expression::PrivateField { object, .. } => seq![*object],
        Expression::Parenthesized(x) => seq![*x],
        Expression::Await(x) => seq![*x],
        Expression::Yield(Some(x)) => seq![*x],
        Expression::TemplateLiteral(tl) => tl.expressions@,
        Expression::TaggedTemplate { tag, quasi } => seq![*tag] + quasi.expressions@,
        Expression::Call { callee, .. } => seq![*callee],
        Expression::New { callee, .. } => seq![*callee],
        Expression::Assignment { right, .. } => seq![*right],
        _ => Seq::empty(),
    }
}

/// A name read by an identifier is a reference exactly when it is in the
/// reference set and not shadowed; and every reference made by an operand
/// of an expression (each operand of an operator, all three parts of a
/// conditional, every element of a sequence, ...) is a reference of the
/// expression: capture analysis misses no name that any operand reads.
pub proof fn lemma_operand_refs(e: Expression, rs: Set<Seq<char>>, sh: Set<Seq<char>>, n: Seq<char>)
    ensures
        e matches Expression::Identifier(s) ==> (expr_refs(e, rs, sh, n) <==> (s@ == n && rs.contains(n)
            && !sh.contains(n))),
        forall|i: int|
            0 <= i < scope_operands(e).len() && expr_refs(#[trigger] scope_operands(e)[i], rs, sh, n) ==> expr_refs(
                e,
                rs,
                sh,
                n,
            ),
{
    assert forall|i: int|
        0 <= i < scope_operands(e).len() && expr_refs(#[trigger] scope_operands(e)[i], rs, sh, n) implies expr_refs(
            e,
            rs,
            sh,
            n,
        ) by {
        match e {
            Expression::Sequence(es) => {
                assert(expr_refs(es@[i], rs, sh, n));
            },
            Expression::TemplateLiteral(tl) => {
                assert(expr_refs(tl.expressions@[i], rs, sh, n));
            },
            Expression::TaggedTemplate { tag, quasi } => {
                if i > 0 {
                    assert(scope_operands(e)[i] == quasi.expressions@[i - 1]);
                    assert(expr_refs(quasi.expressions@[i - 1], rs, sh, n));
                }
            },
            _ => {},
        }
    }
}

/// References in a variable declaration: the run-time parts of each pattern
/// and each initializer.
pub open spec fn declaration_refs(vd: VariableDeclaration, rs: Set<Seq<char>>, sh: Set<Seq<char>>, n: Seq<char>) -> bool
    decreases vd,
{
    exists|i: int| 0 <= i < vd.declarations.len() && (
        pattern_runtime_refs(#[trigger] vd.declarations@[i].id, rs, sh, n)
        || (vd.declarations@[i].init matches Some(init) && expr_refs(init, rs, sh, n)))
}

/// References in the run-time parts of the patterns of a `for-in`/`for-of` head.
pub open spec fn for_left_refs(left: ForLeft, rs: Set<Seq<char>>, sh: Set<Seq<char>>, n: Seq<char>) -> bool
    decreases left,
{
    match left {
        ForLeft::Variable(vd) => exists|i: int|
            0 <= i < vd.declarations.len() && pattern_runtime_refs(#[trigger] vd.declarations@[i].id, rs, sh, n),
        ForLeft::Target(_) => false,
    }
}

/// The shadow set inside a `for-in`/`for-of` body.
pub open spec fn for_shadow(sh: Set<Seq<char>>, left: ForLeft) -> Set<Seq<char>> {
    Set::new(|m: Seq<char>| sh.contains(m) || for_left_binds(left, m))
}

/// The shadow set inside a `catch` body.
pub open spec fn catch_shadow(sh: Set<Seq<char>>, param: Option<BindingPattern>) -> Set<Seq<char>> {
    match param {
        Some(p) => sh.union(pattern_names(p)),
        None => sh,
    }
}

/// References in a list of statements.
pub open spec fn stmts_refs(ss: Seq<Statement>, rs: Set<Seq<char>>, sh: Set<Seq<char>>, n: Seq<char>) -> bool
    decreases ss,
{
    exists|i: int| 0 <= i < ss.len() && stmt_refs(#[trigger] ss[i], rs, sh, n)
}

/// References in a statement.
pub open spec fn stmt_refs(s: Statement, rs: Set<Seq<char>>, sh: Set<Seq<char>>, n: Seq<char>) -> bool
    decreases s,
{
    match s {
        Statement::Expression(e) => expr_refs(e, rs, sh, n),
        Statement::Return(a) => a matches Some(x) && expr_refs(x, rs, sh, n),
        Statement::Variable(vd) => declaration_refs(vd, rs, sh, n),
        Statement::Function(f) => fn_refs(f, rs, sh, n),
        Statement::Class(c) => class_refs(c, rs, class_shadow(sh, c.id), n),
        Statement::If { test, consequent, alternate } => expr_refs(test, rs, sh, n) || stmt_refs(*consequent, rs, sh, n)
            || (alternate matches Some(a) && stmt_refs(*a, rs, sh, n)),
        Statement::For { init, test, update, body } => (match init {
            Some(ForInit::Expression(x)) => expr_refs(x, rs, sh, n),
            Some(ForInit::Variable(vd)) => declaration_refs(vd, rs, sh, n),
            None => false,
        }) || (test matches Some(t) && expr_refs(t, rs, sh, n)) || (update matches Some(u) && expr_refs(u, rs, sh, n))
            || stmt_refs(*body, rs, sh, n),
        Statement::While { test, body } => expr_refs(test, rs, sh, n) || stmt_refs(*body, rs, sh, n),
        Statement::DoWhile { body, test } => stmt_refs(*body, rs, sh, n) || expr_refs(test, rs, sh, n),
        Statement::ForIn { left, right, body } => expr_refs(right, rs, sh, n) || for_left_refs(left, rs, sh, n)
            || stmt_refs(*body, rs, for_shadow(sh, left), n),
        Statement::ForOf { left, right, body, .. } => expr_refs(right, rs, sh, n) || for_left_refs(left, rs, sh, n)
            || stmt_refs(*body, rs, for_shadow(sh, left), n),
        Statement::Block(body) => stmts_refs(body@, rs, sh, n),
        Statement::Try { block, handler, finalizer } => stmts_refs(block@, rs, sh, n)
            || (handler matches Some(h) && ((h.param matches Some(p) && pattern_runtime_refs(p, rs, sh, n))
                || stmts_refs(h.body@, rs, catch_shadow(sh, h.param), n)))
            || (finalizer matches Some(f) && stmts_refs(f@, rs, sh, n)),
        Statement::ExportNamed(exp) => match exp.declaration {
            Some(Declaration::Variable(vd)) => declaration_refs(vd, rs, sh, n),
            Some(Declaration::Function(f)) => fn_refs(f, rs, sh, n),
            Some(Declaration::Class(c)) => class_refs(c, rs, class_shadow(sh, c.id), n),
            _ => false,
        },
        Statement::ExportDefault(kind) => match kind {
            ExportDefaultKind::Function(f) => fn_refs(f, rs, sh, n),
            ExportDefaultKind::Class(c) => class_refs(c, rs, class_shadow(sh, c.id), n),
            ExportDefaultKind::Expression(x) => expr_refs(x, rs, sh, n),
        },
        Statement::Throw(x) => expr_refs(x, rs, sh, n),
        Statement::Switch { discriminant, cases } => expr_refs(discriminant, rs, sh, n) || exists|c: int|
            0 <= c < cases.len() && stmts_refs(#[trigger] cases@[c].consequent@, rs, sh, n),
        Statement::Labeled { body, .. } => stmt_refs(*body, rs, sh, n),
        Statement::With { object, body } => expr_refs(object, rs, sh, n) || stmt_refs(*body, rs, sh, n),
        _ => false,
    }
}


/// Adds to `out` the names of `ref_set` that `stmts` refer to from nested
/// functions and classes, with the names of `shadow` shadowed.
#[verifier::loop_isolation(false)]
pub fn collect_capture_names_shadowed(stmts: &Vec<Statement>, ref_set: &NameSet, shadow: &NameSet, out: &mut NameSet)
    ensures
        forall|n: Seq<char>| #[trigger] final(out)@.contains(n) == (old(out)@.contains(n) || stmts_refs(stmts@, ref_set@, shadow@, n)),
    decreases stmts@,
{
    let mut i: usize = 0;
    while i < stmts.len()
        invariant
            i <= stmts@.len(),
            forall|n: Seq<char>| #[trigger] out@.contains(n) == (old(out)@.contains(n) || exists|j: int|
                0 <= j < i && stmt_refs(#[trigger] stmts@[j], ref_set@, shadow@, n)),
        decreases stmts.len() - i,
    {
        collect_capture_names_stmt(&stmts[i], ref_set, shadow, out);
        assert forall|n: Seq<char>| #[trigger] out@.contains(n) == (old(out)@.contains(n) || exists|j: int|
            0 <= j < i + 1 && stmt_refs(#[trigger] stmts@[j], ref_set@, shadow@, n)) by {
            if exists|j: int| 0 <= j < i + 1 && stmt_refs(#[trigger] stmts@[j], ref_set@, shadow@, n) {
                let j = choose|j: int| 0 <= j < i + 1 && stmt_refs(#[trigger] stmts@[j], ref_set@, shadow@, n);
                if j < i {
                }
            }
        }
        i += 1;
    }
}

/// Adds to `out` the references of a function: its parameter defaults under
/// `shadow`, its body under `shadow` widened by its parameters and declarations.
#[verifier::loop_isolation(false)]
fn collect_fn_capture_names(f: &Function, ref_set: &NameSet, shadow: &NameSet, out: &mut NameSet)
    ensures
        forall|n: Seq<char>| #[trigger] final(out)@.contains(n) == (old(out)@.contains(n) || fn_refs(*f, ref_set@, shadow@, n)),
    decreases f,
{
    let mut inner = shadow.copy();
    let params = collect_fn_param_names(&f.params);
    inner.extend(&params);
    let empty: Vec<&str> = Vec::new();
    if let Some(body) = &f.body {
        let own = collect_own_binding_names(empty.as_slice(), body);
        inner.extend(&own);
    }
    assert(inner@ =~= fn_shadow(shadow@, *f)) by {
        if let Some(body) = f.body {
            assert forall|m: Seq<char>| #[trigger] inner@.contains(m) == fn_shadow(shadow@, *f).contains(m) by {
                assert(param_names(f.params).contains(m) == params_bind(f.params, m));
            }
        } else {
            assert forall|m: Seq<char>| #[trigger] inner@.contains(m) == fn_shadow(shadow@, *f).contains(m) by {
                assert(param_names(f.params).contains(m) == params_bind(f.params, m));
            }
        }
    }
    collect_fn_default_names(&f.params, ref_set, shadow, out);
    if let Some(body) = &f.body {
        collect_capture_names_shadowed(body, ref_set, &inner, out);
    }
}

/// Adds to `out` the references in a class body; `class_shadow` already holds
/// the class's own name.
#[verifier::loop_isolation(false)]
pub fn collect_class_capture_names(class: &Class, ref_set: &NameSet, class_shadow: &NameSet, out: &mut NameSet)
    ensures
        forall|n: Seq<char>| #[trigger] final(out)@.contains(n) == (old(out)@.contains(n) || class_refs(*class, ref_set@, class_shadow@, n)),
    decreases class,
{
    let mut i: usize = 0;
    while i < class.body.len()
        invariant
            i <= class.body@.len(),
            forall|n: Seq<char>| #[trigger] out@.contains(n) == (old(out)@.contains(n) || exists|j: int|
                0 <= j < i && class_element_refs(#[trigger] class.body@[j], ref_set@, class_shadow@, n)),
        decreases class.body.len() - i,
    {
        match &class.body[i] {
            ClassElement::Method { value, .. } => collect_fn_capture_names(value, ref_set, class_shadow, out),
            ClassElement::Property { key, value, .. } => {
                if let PropertyKey::Computed(k) = key {
                    collect_capture_names_expr(k, ref_set, class_shadow, out);
                }
                if let Some(v) = value {
                    collect_capture_names_expr(v, ref_set, class_shadow, out);
                }
            },
            ClassElement::StaticBlock(body) => collect_capture_names_shadowed(body, ref_set, class_shadow, out),
            ClassElement::Accessor | ClassElement::Other => {},
        }
        assert forall|n: Seq<char>| #[trigger] out@.contains(n) == (old(out)@.contains(n) || exists|j: int|
            0 <= j < i + 1 && class_element_refs(#[trigger] class.body@[j], ref_set@, class_shadow@, n)) by {
            if exists|j: int| 0 <= j < i + 1 && class_element_refs(#[trigger] class.body@[j], ref_set@, class_shadow@, n) {
                let j = choose|j: int| 0 <= j < i + 1 && class_element_refs(#[trigger] class.body@[j], ref_set@, class_shadow@, n);
                if j < i {
                }
            }
        }
        i += 1;
    }
}

/// The shadow set `shadow` widened by the class's own name.
fn class_shadow_set(shadow: &NameSet, id: &Option<String>) -> (s: NameSet)
    ensures
        s@ == class_shadow(shadow@, *id),
{
    let mut s = shadow.copy();
    if let Some(name) = id {
        s.insert(name.as_str());
    }
    s
}

/// Adds to `out` the references in the run-time parts of a `catch`
/// parameter's pattern (scanned under `shadow`), and adds the names the
/// pattern binds to `catch_shadow`.
#[verifier::loop_isolation(false)]
pub fn collect_capture_names_binding_pattern(
    pattern: &BindingPattern,
    ref_set: &NameSet,
    shadow: &NameSet,
    out: &mut NameSet,
    catch_shadow: &mut NameSet,
)
    ensures
        forall|n: Seq<char>| #[trigger] final(out)@.contains(n) == (old(out)@.contains(n) || pattern_runtime_refs(*pattern, ref_set@, shadow@, n)),
        final(catch_shadow)@ == old(catch_shadow)@.union(pattern_names(*pattern)),
    decreases pattern,
{
    match pattern {
        BindingPattern::Identifier(s) => {
            catch_shadow.insert(s.as_str());
            assert(catch_shadow@ =~= old(catch_shadow)@.union(pattern_names(*pattern)));
        },
        BindingPattern::Array { elements, rest } => {
            let mut i: usize = 0;
            while i < elements.len()
                invariant
                    i <= elements@.len(),
                    forall|n: Seq<char>| #[trigger] out@.contains(n) == (old(out)@.contains(n) || exists|j: int|
                        0 <= j < i && (#[trigger] elements@[j] matches Some(e) && pattern_runtime_refs(e, ref_set@, shadow@, n))),
                    forall|n: Seq<char>| #[trigger] catch_shadow@.contains(n) == (old(catch_shadow)@.contains(n) || exists|j: int|
                        0 <= j < i && (#[trigger] elements@[j] matches Some(e) && pattern_binds(e, n))),
                decreases elements.len() - i,
            {
                if let Some(e) = &elements[i] {
                    collect_capture_names_binding_pattern(e, ref_set, shadow, out, catch_shadow);
                }
                assert forall|n: Seq<char>| #[trigger] out@.contains(n) == (old(out)@.contains(n) || exists|j: int|
                    0 <= j < i + 1 && (#[trigger] elements@[j] matches Some(e) && pattern_runtime_refs(e, ref_set@, shadow@, n))) by {
                    if exists|j: int| 0 <= j < i + 1 && (#[trigger] elements@[j] matches Some(e) && pattern_runtime_refs(e, ref_set@, shadow@, n)) {
                        let j = choose|j: int| 0 <= j < i + 1 && (#[trigger] elements@[j] matches Some(e) && pattern_runtime_refs(e, ref_set@, shadow@, n));
                        if j < i {
                        }
                    }
                }
                assert forall|n: Seq<char>| #[trigger] catch_shadow@.contains(n) == (old(catch_shadow)@.contains(n) || exists|j: int|
                    0 <= j < i + 1 && (#[trigger] elements@[j] matches Some(e) && pattern_binds(e, n))) by {
                    if exists|j: int| 0 <= j < i + 1 && (#[trigger] elements@[j] matches Some(e) && pattern_binds(e, n)) {
                        let j = choose|j: int| 0 <= j < i + 1 && (#[trigger] elements@[j] matches Some(e) && pattern_binds(e, n));
                        if j < i {
                        }
                    }
                    if let Some(e) = elements@[i as int] {
                        assert(pattern_names(e).contains(n) == pattern_binds(e, n));
                    }
                }
                i += 1;
            }
            if let Some(r) = rest {
                collect_capture_names_binding_pattern(r, ref_set, shadow, out, catch_shadow);
            }
            assert(catch_shadow@ =~= old(catch_shadow)@.union(pattern_names(*pattern)));
        },
        BindingPattern::Object { properties, rest } => {
            let mut i: usize = 0;
            while i < properties.len()
                invariant
                    i <= properties@.len(),
                    forall|n: Seq<char>| #[trigger] out@.contains(n) == (old(out)@.contains(n) || exists|j: int|
                        0 <= j < i && ((#[trigger] properties@[j].key matches PropertyKey::Computed(k) && expr_refs(*k, ref_set@, shadow@, n)) || pattern_runtime_refs(properties@[j].value, ref_set@, shadow@, n))),
                    forall|n: Seq<char>| #[trigger] catch_shadow@.contains(n) == (old(catch_shadow)@.contains(n) || exists|j: int|
                        0 <= j < i && pattern_binds(#[trigger] properties@[j].value, n)),
                decreases properties.len() - i,
            {
                if let PropertyKey::Computed(k) = &properties[i].key {
                    collect_capture_names_expr(k, ref_set, shadow, out);
                }
                collect_capture_names_binding_pattern(&properties[i].value, ref_set, shadow, out, catch_shadow);
                assert forall|n: Seq<char>| #[trigger] out@.contains(n) == (old(out)@.contains(n) || exists|j: int|
                    0 <= j < i + 1 && ((#[trigger] properties@[j].key matches PropertyKey::Computed(k) && expr_refs(*k, ref_set@, shadow@, n)) || pattern_runtime_refs(properties@[j].value, ref_set@, shadow@, n))) by {
                    if exists|j: int| 0 <= j < i + 1 && ((#[trigger] properties@[j].key matches PropertyKey::Computed(k) && expr_refs(*k, ref_set@, shadow@, n)) || pattern_runtime_refs(properties@[j].value, ref_set@, shadow@, n)) {
                        let j = choose|j: int| 0 <= j < i + 1 && ((#[trigger] properties@[j].key matches PropertyKey::Computed(k) && expr_refs(*k, ref_set@, shadow@, n)) || pattern_runtime_refs(properties@[j].value, ref_set@, shadow@, n));
                        if j < i {
                        }
                    }
                }
                assert forall|n: Seq<char>| #[trigger] catch_shadow@.contains(n) == (old(catch_shadow)@.contains(n) || exists|j: int|
                    0 <= j < i + 1 && pattern_binds(#[trigger] properties@[j].value, n)) by {
                    if exists|j: int| 0 <= j < i + 1 && pattern_binds(#[trigger] properties@[j].value, n) {
                        let j = choose|j: int| 0 <= j < i + 1 && pattern_binds(#[trigger] properties@[j].value, n);
                        if j < i {
                        }
                    }
                    assert(pattern_names(properties@[i as int].value).contains(n) == pattern_binds(properties@[i as int].value, n));
                }
                i += 1;
            }
            if let Some(r) = rest {
                collect_capture_names_binding_pattern(r, ref_set, shadow, out, catch_shadow);
            }
            assert(catch_shadow@ =~= old(catch_shadow)@.union(pattern_names(*pattern)));
        },
        BindingPattern::Assignment { left, right } => {
            collect_capture_names_expr(right, ref_set, shadow, out);
            collect_capture_names_binding_pattern(left, ref_set, shadow, out, catch_shadow);
            assert(catch_shadow@ =~= old(catch_shadow)@.union(pattern_names(*pattern)));
        },
    }
}

/// Adds to `out` the references in the run-time parts of a binding pattern:
/// computed keys and default values.
#[verifier::loop_isolation(false)]
pub fn collect_capture_names_binding_keys(pattern: &BindingPattern, ref_set: &NameSet, shadow: &NameSet, out: &mut NameSet)
    ensures
        forall|n: Seq<char>| #[trigger] final(out)@.contains(n) == (old(out)@.contains(n) || pattern_runtime_refs(*pattern, ref_set@, shadow@, n)),
    decreases pattern,
{
    match pattern {
        BindingPattern::Identifier(_) => {},
        BindingPattern::Array { elements, rest } => {
            let mut i: usize = 0;
            while i < elements.len()
                invariant
                    i <= elements@.len(),
                    forall|n: Seq<char>| #[trigger] out@.contains(n) == (old(out)@.contains(n) || exists|j: int|
                        0 <= j < i && (#[trigger] elements@[j] matches Some(e) && pattern_runtime_refs(e, ref_set@, shadow@, n))),
                decreases elements.len() - i,
            {
                if let Some(e) = &elements[i] {
                    collect_capture_names_binding_keys(e, ref_set, shadow, out);
                }
                assert forall|n: Seq<char>| #[trigger] out@.contains(n) == (old(out)@.contains(n) || exists|j: int|
                    0 <= j < i + 1 && (#[trigger] elements@[j] matches Some(e) && pattern_runtime_refs(e, ref_set@, shadow@, n))) by {
                    if exists|j: int| 0 <= j < i + 1 && (#[trigger] elements@[j] matches Some(e) && pattern_runtime_refs(e, ref_set@, shadow@, n)) {
                        let j = choose|j: int| 0 <= j < i + 1 && (#[trigger] elements@[j] matches Some(e) && pattern_runtime_refs(e, ref_set@, shadow@, n));
                        if j < i {
                        }
                    }
                }
                i += 1;
            }
            if let Some(r) = rest {
                collect_capture_names_binding_keys(r, ref_set, shadow, out);
            }
        },
        BindingPattern::Object { properties, rest } => {
            let mut i: usize = 0;
            while i < properties.len()
                invariant
                    i <= properties@.len(),
                    forall|n: Seq<char>| #[trigger] out@.contains(n) == (old(out)@.contains(n) || exists|j: int|
                        0 <= j < i && ((#[trigger] properties@[j].key matches PropertyKey::Computed(k) && expr_refs(*k, ref_set@, shadow@, n)) || pattern_runtime_refs(properties@[j].value, ref_set@, shadow@, n))),
                decreases properties.len() - i,
            {
                if let PropertyKey::Computed(k) = &properties[i].key {
                    collect_capture_names_expr(k, ref_set, shadow, out);
                }
                collect_capture_names_binding_keys(&properties[i].value, ref_set, shadow, out);
                assert forall|n: Seq<char>| #[trigger] out@.contains(n) == (old(out)@.contains(n) || exists|j: int|
                    0 <= j < i + 1 && ((#[trigger] properties@[j].key matches PropertyKey::Computed(k) && expr_refs(*k, ref_set@, shadow@, n)) || pattern_runtime_refs(properties@[j].value, ref_set@, shadow@, n))) by {
                    if exists|j: int| 0 <= j < i + 1 && ((#[trigger] properties@[j].key matches PropertyKey::Computed(k) && expr_refs(*k, ref_set@, shadow@, n)) || pattern_runtime_refs(properties@[j].value, ref_set@, shadow@, n)) {
                        let j = choose|j: int| 0 <= j < i + 1 && ((#[trigger] properties@[j].key matches PropertyKey::Computed(k) && expr_refs(*k, ref_set@, shadow@, n)) || pattern_runtime_refs(properties@[j].value, ref_set@, shadow@, n));
                        if j < i {
                        }
                    }
                }
                i += 1;
            }
            if let Some(r) = rest {
                collect_capture_names_binding_keys(r, ref_set, shadow, out);
            }
        },
        BindingPattern::Assignment { left, right } => {
            collect_capture_names_expr(right, ref_set, shadow, out);
            collect_capture_names_binding_keys(left, ref_set, shadow, out);
        },
    }
}

/// Inserts `name` when it is a reference to a name of `ref_set` not in `shadow`.
fn insert_if_ref(name: &String, ref_set: &NameSet, shadow: &NameSet, out: &mut NameSet)
    ensures
        forall|n: Seq<char>| #[trigger] final(out)@.contains(n) == (old(out)@.contains(n) || ident_refs(name@, ref_set@, shadow@, n)),
{
    if ref_set.contains(name.as_str()) && !shadow.contains(name.as_str()) {
        out.insert(name.as_str());
    }
}

/// Adds to `out` the references in an assignment target: the written name of
/// an identifier target, the object and key of a member target, the elements
/// of a destructuring target.
#[verifier::loop_isolation(false)]
pub fn collect_capture_names_assign_target(target: &AssignmentTarget, ref_set: &NameSet, shadow: &NameSet, out: &mut NameSet)
    ensures
        forall|n: Seq<char>| #[trigger] final(out)@.contains(n) == (old(out)@.contains(n) || target_refs(*target, ref_set@, shadow@, n)),
    decreases target,
{
    match target {
        AssignmentTarget::Identifier(s) => insert_if_ref(s, ref_set, shadow, out),
        AssignmentTarget::StaticMember { object, .. } => collect_capture_names_expr(object, ref_set, shadow, out),
        AssignmentTarget::ComputedMember { object, expression } => {
            collect_capture_names_expr(object, ref_set, shadow, out);
            collect_capture_names_expr(expression, ref_set, shadow, out);
        },
        AssignmentTarget::Array { elements, rest } => {
            let mut i: usize = 0;
            while i < elements.len()
                invariant
                    i <= elements@.len(),
                    forall|n: Seq<char>| #[trigger] out@.contains(n) == (old(out)@.contains(n) || exists|j: int|
                        0 <= j < i && (#[trigger] elements@[j] matches Some(e) && maybe_default_refs(e, ref_set@, shadow@, n))),
                decreases elements.len() - i,
            {
                if let Some(e) = &elements[i] {
                    collect_capture_names_maybe_default_target(e, ref_set, shadow, out);
                }
                assert forall|n: Seq<char>| #[trigger] out@.contains(n) == (old(out)@.contains(n) || exists|j: int|
                    0 <= j < i + 1 && (#[trigger] elements@[j] matches Some(e) && maybe_default_refs(e, ref_set@, shadow@, n))) by {
                    if exists|j: int| 0 <= j < i + 1 && (#[trigger] elements@[j] matches Some(e) && maybe_default_refs(e, ref_set@, shadow@, n)) {
                        let j = choose|j: int| 0 <= j < i + 1 && (#[trigger] elements@[j] matches Some(e) && maybe_default_refs(e, ref_set@, shadow@, n));
                        if j < i {
                        }
                    }
                }
                i += 1;
            }
            if let Some(r) = rest {
                collect_capture_names_assign_target(r, ref_set, shadow, out);
            }
        },
        AssignmentTarget::Object { properties, rest } => {
            let mut i: usize = 0;
            while i < properties.len()
                invariant
                    i <= properties@.len(),
                    forall|n: Seq<char>| #[trigger] out@.contains(n) == (old(out)@.contains(n) || exists|j: int|
                        0 <= j < i && target_property_refs(#[trigger] properties@[j], ref_set@, shadow@, n)),
                decreases properties.len() - i,
            {
                collect_capture_names_target_property(&properties[i], ref_set, shadow, out);
                assert forall|n: Seq<char>| #[trigger] out@.contains(n) == (old(out)@.contains(n) || exists|j: int|
                    0 <= j < i + 1 && target_property_refs(#[trigger] properties@[j], ref_set@, shadow@, n)) by {
                    if exists|j: int| 0 <= j < i + 1 && target_property_refs(#[trigger] properties@[j], ref_set@, shadow@, n) {
                        let j = choose|j: int| 0 <= j < i + 1 && target_property_refs(#[trigger] properties@[j], ref_set@, shadow@, n);
                        if j < i {
                        }
                    }
                }
                i += 1;
            }
            if let Some(r) = rest {
                collect_capture_names_assign_target(r, ref_set, shadow, out);
            }
        },
        _ => {},
    }
}

/// Adds to `out` the references in a property of an object destructuring assignment.
fn collect_capture_names_target_property(
    p: &AssignmentTargetProperty,
    ref_set: &NameSet,
    shadow: &NameSet,
    out: &mut NameSet,
)
    ensures
        forall|n: Seq<char>| #[trigger] final(out)@.contains(n) == (old(out)@.contains(n) || target_property_refs(*p, ref_set@, shadow@, n)),
    decreases p,
{
    match p {
        AssignmentTargetProperty::Identifier { name, init } => {
            insert_if_ref(name, ref_set, shadow, out);
            if let Some(i) = init {
                collect_capture_names_expr(i, ref_set, shadow, out);
            }
        },
        AssignmentTargetProperty::Property { name, binding } => {
            if let PropertyKey::Computed(k) = name {
                collect_capture_names_expr(k, ref_set, shadow, out);
            }
            collect_capture_names_maybe_default_target(binding, ref_set, shadow, out);
        },
    }
}

/// Adds to `out` the references in an element of a destructuring assignment;
/// a nested array or object target is scanned without its rest element.
#[verifier::loop_isolation(false)]
pub fn collect_capture_names_maybe_default_target(
    target: &MaybeDefaultTarget,
    ref_set: &NameSet,
    shadow: &NameSet,
    out: &mut NameSet,
)
    ensures
        forall|n: Seq<char>| #[trigger] final(out)@.contains(n) == (old(out)@.contains(n) || maybe_default_refs(*target, ref_set@, shadow@, n)),
    decreases target,
{
    match target {
        MaybeDefaultTarget::WithDefault { binding, init } => {
            collect_capture_names_expr(init, ref_set, shadow, out);
            collect_capture_names_assign_target(binding, ref_set, shadow, out);
        },
        MaybeDefaultTarget::Plain(t) => match t {
            AssignmentTarget::Identifier(s) => insert_if_ref(s, ref_set, shadow, out),
            AssignmentTarget::StaticMember { object, .. } => collect_capture_names_expr(object, ref_set, shadow, out),
            AssignmentTarget::ComputedMember { object, expression } => {
                collect_capture_names_expr(object, ref_set, shadow, out);
                collect_capture_names_expr(expression, ref_set, shadow, out);
            },
            AssignmentTarget::Array { elements, .. } => {
                let mut i: usize = 0;
                while i < elements.len()
                    invariant
                        i <= elements@.len(),
                        forall|n: Seq<char>| #[trigger] out@.contains(n) == (old(out)@.contains(n) || exists|j: int|
                            0 <= j < i && (#[trigger] elements@[j] matches Some(e) && maybe_default_refs(e, ref_set@, shadow@, n))),
                    decreases elements.len() - i,
                {
                    if let Some(e) = &elements[i] {
                        collect_capture_names_maybe_default_target(e, ref_set, shadow, out);
                    }
                    assert forall|n: Seq<char>| #[trigger] out@.contains(n) == (old(out)@.contains(n) || exists|j: int|
                        0 <= j < i + 1 && (#[trigger] elements@[j] matches Some(e) && maybe_default_refs(e, ref_set@, shadow@, n))) by {
                        if exists|j: int| 0 <= j < i + 1 && (#[trigger] elements@[j] matches Some(e) && maybe_default_refs(e, ref_set@, shadow@, n)) {
                            let j = choose|j: int| 0 <= j < i + 1 && (#[trigger] elements@[j] matches Some(e) && maybe_default_refs(e, ref_set@, shadow@, n));
                            if j < i {
                            }
                        }
                    }
                    i += 1;
                }
            },
            AssignmentTarget::Object { properties, .. } => {
                let mut i: usize = 0;
                while i < properties.len()
                    invariant
                        i <= properties@.len(),
                        forall|n: Seq<char>| #[trigger] out@.contains(n) == (old(out)@.contains(n) || exists|j: int|
                            0 <= j < i && target_property_refs(#[trigger] properties@[j], ref_set@, shadow@, n)),
                    decreases properties.len() - i,
                {
                    collect_capture_names_target_property(&properties[i], ref_set, shadow, out);
                    assert forall|n: Seq<char>| #[trigger] out@.contains(n) == (old(out)@.contains(n) || exists|j: int|
                        0 <= j < i + 1 && target_property_refs(#[trigger] properties@[j], ref_set@, shadow@, n)) by {
                        if exists|j: int| 0 <= j < i + 1 && target_property_refs(#[trigger] properties@[j], ref_set@, shadow@, n) {
                            let j = choose|j: int| 0 <= j < i + 1 && target_property_refs(#[trigger] properties@[j], ref_set@, shadow@, n);
                            if j < i {
                            }
                        }
                    }
                    i += 1;
                }
            },
            _ => {},
        },
    }
}

/// Adds to `out` the references in the target of `++`/`--`.
pub fn collect_capture_names_simple_target(target: &AssignmentTarget, ref_set: &NameSet, shadow: &NameSet, out: &mut NameSet)
    ensures
        forall|n: Seq<char>| #[trigger] final(out)@.contains(n) == (old(out)@.contains(n) || simple_target_refs(*target, ref_set@, shadow@, n)),
    decreases target,
{
    match target {
        AssignmentTarget::Identifier(s) => insert_if_ref(s, ref_set, shadow, out),
        AssignmentTarget::StaticMember { object, .. } => collect_capture_names_expr(object, ref_set, shadow, out),
        AssignmentTarget::ComputedMember { object, expression } => {
            collect_capture_names_expr(object, ref_set, shadow, out);
            collect_capture_names_expr(expression, ref_set, shadow, out);
        },
        _ => {},
    }
}

/// Adds to `out` the references in parameter defaults and in the run-time
/// parts of the parameter patterns.
#[verifier::loop_isolation(false)]
pub fn collect_fn_default_names(params: &FormalParameters, ref_set: &NameSet, shadow: &NameSet, out: &mut NameSet)
    ensures
        forall|n: Seq<char>| #[trigger] final(out)@.contains(n) == (old(out)@.contains(n) || fn_default_refs(*params, ref_set@, shadow@, n)),
    decreases params,
{
    let mut i: usize = 0;
    while i < params.items.len()
        invariant
            i <= params.items@.len(),
            forall|n: Seq<char>| #[trigger] out@.contains(n) == (old(out)@.contains(n) || exists|j: int|
                0 <= j < i && ((#[trigger] params.items@[j].initializer matches Some(init) && expr_refs(init, ref_set@, shadow@, n)) || pattern_runtime_refs(params.items@[j].pattern, ref_set@, shadow@, n))),
        decreases params.items.len() - i,
    {
        if let Some(init) = &params.items[i].initializer {
            collect_capture_names_expr(init, ref_set, shadow, out);
        }
        let mut param_shadow = shadow.copy();
        collect_capture_names_binding_pattern(&params.items[i].pattern, ref_set, shadow, out, &mut param_shadow);
        assert forall|n: Seq<char>| #[trigger] out@.contains(n) == (old(out)@.contains(n) || exists|j: int|
            0 <= j < i + 1 && ((#[trigger] params.items@[j].initializer matches Some(init) && expr_refs(init, ref_set@, shadow@, n)) || pattern_runtime_refs(params.items@[j].pattern, ref_set@, shadow@, n))) by {
            if exists|j: int| 0 <= j < i + 1 && ((#[trigger] params.items@[j].initializer matches Some(init) && expr_refs(init, ref_set@, shadow@, n)) || pattern_runtime_refs(params.items@[j].pattern, ref_set@, shadow@, n)) {
                let j = choose|j: int| 0 <= j < i + 1 && ((#[trigger] params.items@[j].initializer matches Some(init) && expr_refs(init, ref_set@, shadow@, n)) || pattern_runtime_refs(params.items@[j].pattern, ref_set@, shadow@, n));
                if j < i {
                }
            }
        }
        i += 1;
    }
}

/// Adds to `out` the references in a list of call arguments.
#[verifier::loop_isolation(false)]
fn collect_capture_names_args(args: &Vec<Argument>, ref_set: &NameSet, shadow: &NameSet, out: &mut NameSet)
    ensures
        forall|n: Seq<char>| #[trigger] final(out)@.contains(n) == (old(out)@.contains(n) || exists|i: int| 0 <= i < args@.len() && arg_refs(#[trigger] args@[i], ref_set@, shadow@, n)),
    decreases args@,
{
    let mut i: usize = 0;
    while i < args.len()
        invariant
            i <= args@.len(),
            forall|n: Seq<char>| #[trigger] out@.contains(n) == (old(out)@.contains(n) || exists|j: int|
                0 <= j < i && arg_refs(#[trigger] args@[j], ref_set@, shadow@, n)),
        decreases args.len() - i,
    {
        collect_capture_names_arg(&args[i], ref_set, shadow, out);
        assert forall|n: Seq<char>| #[trigger] out@.contains(n) == (old(out)@.contains(n) || exists|j: int|
            0 <= j < i + 1 && arg_refs(#[trigger] args@[j], ref_set@, shadow@, n)) by {
            if exists|j: int| 0 <= j < i + 1 && arg_refs(#[trigger] args@[j], ref_set@, shadow@, n) {
                let j = choose|j: int| 0 <= j < i + 1 && arg_refs(#[trigger] args@[j], ref_set@, shadow@, n);
                if j < i {
                }
            }
        }
        i += 1;
    }
}

/// Adds to `out` the references in an expression; nested functions and
/// classes are entered with the shadow set widened.
#[verifier::loop_isolation(false)]
pub fn collect_capture_names_expr(expr: &Expression, ref_set: &NameSet, shadow: &NameSet, out: &mut NameSet)
    ensures
        forall|n: Seq<char>| #[trigger] final(out)@.contains(n) == (old(out)@.contains(n) || expr_refs(*expr, ref_set@, shadow@, n)),
    decreases expr,
{
    match expr {
        Expression::Identifier(s) => insert_if_ref(s, ref_set, shadow, out),
        Expression::Assignment { left, right, .. } => {
            collect_capture_names_assign_target(left, ref_set, shadow, out);
            collect_capture_names_expr(right, ref_set, shadow, out);
        },
        Expression::Update { argument, .. } => collect_capture_names_simple_target(argument, ref_set, shadow, out),
        Expression::Function(f) => collect_fn_capture_names(f, ref_set, shadow, out),
        Expression::ArrowFunction(f) => collect_fn_capture_names(f, ref_set, shadow, out),
        Expression::Class(c) => {
            let cs = class_shadow_set(shadow, &c.id);
            collect_class_capture_names(c, ref_set, &cs, out);
        },
        Expression::Binary { left, right, .. } => {
            collect_capture_names_expr(left, ref_set, shadow, out);
            collect_capture_names_expr(right, ref_set, shadow, out);
        },
        Expression::Unary { argument, .. } => collect_capture_names_expr(argument, ref_set, shadow, out),
        Expression::Call { callee, arguments } => {
            collect_capture_names_expr(callee, ref_set, shadow, out);
            collect_capture_names_args(arguments, ref_set, shadow, out);
        },
        Expression::New { callee, arguments } => {
            collect_capture_names_expr(callee, ref_set, shadow, out);
            collect_capture_names_args(arguments, ref_set, shadow, out);
        },
        Expression::Sequence(es) => {
            let mut i: usize = 0;
            while i < es.len()
                invariant
                    i <= es@.len(),
                    forall|n: Seq<char>| #[trigger] out@.contains(n) == (old(out)@.contains(n) || exists|j: int|
                        0 <= j < i && expr_refs(#[trigger] es@[j], ref_set@, shadow@, n)),
                decreases es.len() - i,
            {
                collect_capture_names_expr(&es[i], ref_set, shadow, out);
                assert forall|n: Seq<char>| #[trigger] out@.contains(n) == (old(out)@.contains(n) || exists|j: int|
                    0 <= j < i + 1 && expr_refs(#[trigger] es@[j], ref_set@, shadow@, n)) by {
                    if exists|j: int| 0 <= j < i + 1 && expr_refs(#[trigger] es@[j], ref_set@, shadow@, n) {
                        let j = choose|j: int| 0 <= j < i + 1 && expr_refs(#[trigger] es@[j], ref_set@, shadow@, n);
                        if j < i {
                        }
                    }
                }
                i += 1;
            }
        },
        Expression::Conditional { test, consequent, alternate } => {
            collect_capture_names_expr(test, ref_set, shadow, out);
            collect_capture_names_expr(consequent, ref_set, shadow, out);
            collect_capture_names_expr(alternate, ref_set, shadow, out);
        },
        Expression::Array(els) => {
            let mut i: usize = 0;
            while i < els.len()
                invariant
                    i <= els@.len(),
                    forall|n: Seq<char>| #[trigger] out@.contains(n) == (old(out)@.contains(n) || exists|j: int|
                        0 <= j < i && (#[trigger] els@[j] matches ArrayElement::Expression(x) && expr_refs(x, ref_set@, shadow@, n))),
                decreases els.len() - i,
            {
                if let ArrayElement::Expression(x) = &els[i] {
                    collect_capture_names_expr(x, ref_set, shadow, out);
                }
                assert forall|n: Seq<char>| #[trigger] out@.contains(n) == (old(out)@.contains(n) || exists|j: int|
                    0 <= j < i + 1 && (#[trigger] els@[j] matches ArrayElement::Expression(x) && expr_refs(x, ref_set@, shadow@, n))) by {
                    if exists|j: int| 0 <= j < i + 1 && (#[trigger] els@[j] matches ArrayElement::Expression(x) && expr_refs(x, ref_set@, shadow@, n)) {
                        let j = choose|j: int| 0 <= j < i + 1 && (#[trigger] els@[j] matches ArrayElement::Expression(x) && expr_refs(x, ref_set@, shadow@, n));
                        if j < i {
                        }
                    }
                }
                i += 1;
            }
        },
        Expression::Logical { left, right, .. } => {
            collect_capture_names_expr(left, ref_set, shadow, out);
            collect_capture_names_expr(right, ref_set, shadow, out);
        },
        Expression::ComputedMember { object, expression } => {
            collect_capture_names_expr(object, ref_set, shadow, out);
            collect_capture_names_expr(expression, ref_set, shadow, out);
        },
        Expression::StaticMember { object, .. } => collect_capture_names_expr(object, ref_set, shadow, out),
        Expression::PrivateField { object, .. } => collect_capture_names_expr(object, ref_set, shadow, out),
        Expression::Parenthesized(x) => collect_capture_names_expr(x, ref_set, shadow, out),
        Expression::TemplateLiteral(tl) => {
            let mut i: usize = 0;
            while i < tl.expressions.len()
                invariant
                    i <= tl.expressions@.len(),
                    forall|n: Seq<char>| #[trigger] out@.contains(n) == (old(out)@.contains(n) || exists|j: int|
                        0 <= j < i && expr_refs(#[trigger] tl.expressions@[j], ref_set@, shadow@, n)),
                decreases tl.expressions.len() - i,
            {
                collect_capture_names_expr(&tl.expressions[i], ref_set, shadow, out);
                assert forall|n: Seq<char>| #[trigger] out@.contains(n) == (old(out)@.contains(n) || exists|j: int|
                    0 <= j < i + 1 && expr_refs(#[trigger] tl.expressions@[j], ref_set@, shadow@, n)) by {
                    if exists|j: int| 0 <= j < i + 1 && expr_refs(#[trigger] tl.expressions@[j], ref_set@, shadow@, n) {
                        let j = choose|j: int| 0 <= j < i + 1 && expr_refs(#[trigger] tl.expressions@[j], ref_set@, shadow@, n);
                        if j < i {
                        }
                    }
                }
                i += 1;
            }
        },
        Expression::TaggedTemplate { tag, quasi } => {
            collect_capture_names_expr(tag, ref_set, shadow, out);
            let ghost mid = out@;
            let ghost tag_out = out@;
            let mut i: usize = 0;
            while i < quasi.expressions.len()
                invariant
                    i <= quasi.expressions@.len(),
                    forall|n: Seq<char>| #[trigger] out@.contains(n) == (tag_out.contains(n) || exists|j: int|
                        0 <= j < i && expr_refs(#[trigger] quasi.expressions@[j], ref_set@, shadow@, n)),
                decreases quasi.expressions.len() - i,
            {
                collect_capture_names_expr(&quasi.expressions[i], ref_set, shadow, out);
                assert forall|n: Seq<char>| #[trigger] out@.contains(n) == (tag_out.contains(n) || exists|j: int|
                    0 <= j < i + 1 && expr_refs(#[trigger] quasi.expressions@[j], ref_set@, shadow@, n)) by {
                    if exists|j: int| 0 <= j < i + 1 && expr_refs(#[trigger] quasi.expressions@[j], ref_set@, shadow@, n) {
                        let j = choose|j: int| 0 <= j < i + 1 && expr_refs(#[trigger] quasi.expressions@[j], ref_set@, shadow@, n);
                        if j < i {
                        }
                    }
                }
                i += 1;
            }
        },
        Expression::Object(props) => {
            let mut i: usize = 0;
            while i < props.len()
                invariant
                    i <= props@.len(),
                    forall|n: Seq<char>| #[trigger] out@.contains(n) == (old(out)@.contains(n) || exists|j: int|
                        0 <= j < i && object_property_refs(#[trigger] props@[j], ref_set@, shadow@, n)),
                decreases props.len() - i,
            {
                match &props[i] {
                    ObjectPropertyKind::Property { key, value } => {
                        if let PropertyKey::Computed(k) = key {
                            collect_capture_names_expr(k, ref_set, shadow, out);
                        }
                        collect_capture_names_expr(value, ref_set, shadow, out);
                    },
                    ObjectPropertyKind::Spread(x) => collect_capture_names_expr(x, ref_set, shadow, out),
                }
                assert forall|n: Seq<char>| #[trigger] out@.contains(n) == (old(out)@.contains(n) || exists|j: int|
                    0 <= j < i + 1 && object_property_refs(#[trigger] props@[j], ref_set@, shadow@, n)) by {
                    if exists|j: int| 0 <= j < i + 1 && object_property_refs(#[trigger] props@[j], ref_set@, shadow@, n) {
                        let j = choose|j: int| 0 <= j < i + 1 && object_property_refs(#[trigger] props@[j], ref_set@, shadow@, n);
                        if j < i {
                        }
                    }
                }
                i += 1;
            }
        },
        Expression::Yield(a) => {
            if let Some(x) = a {
                collect_capture_names_expr(x, ref_set, shadow, out);
            }
        },
        Expression::Await(x) => collect_capture_names_expr(x, ref_set, shadow, out),
        Expression::Chain(c) => collect_capture_names_chain(c, ref_set, shadow, out),
        _ => {},
    }
}

/// Adds to `out` the references in an element of an optional chain.
pub fn collect_capture_names_chain(element: &ChainElement, ref_set: &NameSet, shadow: &NameSet, out: &mut NameSet)
    ensures
        forall|n: Seq<char>| #[trigger] final(out)@.contains(n) == (old(out)@.contains(n) || chain_refs(*element, ref_set@, shadow@, n)),
    decreases element,
{
    match element {
        ChainElement::StaticMember { object, .. } => collect_capture_names_expr(object, ref_set, shadow, out),
        ChainElement::ComputedMember { object, expression } => {
            collect_capture_names_expr(object, ref_set, shadow, out);
            collect_capture_names_expr(expression, ref_set, shadow, out);
        },
        ChainElement::PrivateField { object, .. } => collect_capture_names_expr(object, ref_set, shadow, out),
        ChainElement::Call { callee, arguments } => {
            collect_capture_names_expr(callee, ref_set, shadow, out);
            collect_capture_names_args(arguments, ref_set, shadow, out);
        },
        ChainElement::Other => {},
    }
}

/// Adds to `out` the references in a call argument (a spread's operand included).
pub fn collect_capture_names_arg(arg: &Argument, ref_set: &NameSet, shadow: &NameSet, out: &mut NameSet)
    ensures
        forall|n: Seq<char>| #[trigger] final(out)@.contains(n) == (old(out)@.contains(n) || arg_refs(*arg, ref_set@, shadow@, n)),
    decreases arg,
{
    match arg {
        Argument::Expression(e) => collect_capture_names_expr(e, ref_set, shadow, out),
        Argument::Spread(e) => collect_capture_names_expr(e, ref_set, shadow, out),
    }
}

/// Adds to `out` the references in a variable declaration.
#[verifier::loop_isolation(false)]
fn collect_capture_names_declaration(vd: &VariableDeclaration, ref_set: &NameSet, shadow: &NameSet, out: &mut NameSet)
    ensures
        forall|n: Seq<char>| #[trigger] final(out)@.contains(n) == (old(out)@.contains(n) || declaration_refs(*vd, ref_set@, shadow@, n)),
    decreases vd,
{
    let mut i: usize = 0;
    while i < vd.declarations.len()
        invariant
            i <= vd.declarations@.len(),
            forall|n: Seq<char>| #[trigger] out@.contains(n) == (old(out)@.contains(n) || exists|j: int|
                0 <= j < i && (pattern_runtime_refs(#[trigger] vd.declarations@[j].id, ref_set@, shadow@, n) || (vd.declarations@[j].init matches Some(init) && expr_refs(init, ref_set@, shadow@, n)))),
        decreases vd.declarations.len() - i,
    {
        collect_capture_names_binding_keys(&vd.declarations[i].id, ref_set, shadow, out);
        if let Some(init) = &vd.declarations[i].init {
            collect_capture_names_expr(init, ref_set, shadow, out);
        }
        assert forall|n: Seq<char>| #[trigger] out@.contains(n) == (old(out)@.contains(n) || exists|j: int|
            0 <= j < i + 1 && (pattern_runtime_refs(#[trigger] vd.declarations@[j].id, ref_set@, shadow@, n) || (vd.declarations@[j].init matches Some(init) && expr_refs(init, ref_set@, shadow@, n)))) by {
            if exists|j: int| 0 <= j < i + 1 && (pattern_runtime_refs(#[trigger] vd.declarations@[j].id, ref_set@, shadow@, n) || (vd.declarations@[j].init matches Some(init) && expr_refs(init, ref_set@, shadow@, n))) {
                let j = choose|j: int| 0 <= j < i + 1 && (pattern_runtime_refs(#[trigger] vd.declarations@[j].id, ref_set@, shadow@, n) || (vd.declarations@[j].init matches Some(init) && expr_refs(init, ref_set@, shadow@, n)));
                if j < i {
                }
            }
        }
        i += 1;
    }
}

/// Adds to `out` the references in the run-time parts of a `for-in`/`for-of` head.
#[verifier::loop_isolation(false)]
fn collect_capture_names_for_left(left: &ForLeft, ref_set: &NameSet, shadow: &NameSet, out: &mut NameSet)
    ensures
        forall|n: Seq<char>| #[trigger] final(out)@.contains(n) == (old(out)@.contains(n) || for_left_refs(*left, ref_set@, shadow@, n)),
    decreases left,
{
    if let ForLeft::Variable(vd) = left {
        let mut i: usize = 0;
        while i < vd.declarations.len()
            invariant
                i <= vd.declarations@.len(),
                forall|n: Seq<char>| #[trigger] out@.contains(n) == (old(out)@.contains(n) || exists|j: int|
                    0 <= j < i && pattern_runtime_refs(#[trigger] vd.declarations@[j].id, ref_set@, shadow@, n)),
            decreases vd.declarations.len() - i,
        {
            collect_capture_names_binding_keys(&vd.declarations[i].id, ref_set, shadow, out);
            assert forall|n: Seq<char>| #[trigger] out@.contains(n) == (old(out)@.contains(n) || exists|j: int|
                0 <= j < i + 1 && pattern_runtime_refs(#[trigger] vd.declarations@[j].id, ref_set@, shadow@, n)) by {
                if exists|j: int| 0 <= j < i + 1 && pattern_runtime_refs(#[trigger] vd.declarations@[j].id, ref_set@, shadow@, n) {
                    let j = choose|j: int| 0 <= j < i + 1 && pattern_runtime_refs(#[trigger] vd.declarations@[j].id, ref_set@, shadow@, n);
                    if j < i {
                    }
                }
            }
            i += 1;
        }
    }
}

/// The shadow set inside a `for-in`/`for-of` body.
fn for_shadow_set(shadow: &NameSet, left: &ForLeft) -> (s: NameSet)
    ensures
        s@ == for_shadow(shadow@, *left),
{
    let mut s = shadow.copy();
    collect_for_left_decl_names(left, &mut s);
    assert(s@ =~= for_shadow(shadow@, *left));
    s
}

/// Adds to `out` the references in a statement; nested functions, classes,
/// `for-in`/`for-of` heads and `catch` parameters widen the shadow set.
#[verifier::loop_isolation(false)]
pub fn collect_capture_names_stmt(stmt: &Statement, ref_set: &NameSet, shadow: &NameSet, out: &mut NameSet)
    ensures
        forall|n: Seq<char>| #[trigger] final(out)@.contains(n) == (old(out)@.contains(n) || stmt_refs(*stmt, ref_set@, shadow@, n)),
    decreases stmt,
{
    match stmt {
        Statement::Expression(e) => collect_capture_names_expr(e, ref_set, shadow, out),
        Statement::Return(a) => {
            if let Some(x) = a {
                collect_capture_names_expr(x, ref_set, shadow, out);
            }
        },
        Statement::Variable(vd) => collect_capture_names_declaration(vd, ref_set, shadow, out),
        Statement::Function(f) => collect_fn_capture_names(f, ref_set, shadow, out),
        Statement::Class(c) => {
            let cs = class_shadow_set(shadow, &c.id);
            collect_class_capture_names(c, ref_set, &cs, out);
        },
        Statement::If { test, consequent, alternate } => {
            collect_capture_names_expr(test, ref_set, shadow, out);
            collect_capture_names_stmt(consequent, ref_set, shadow, out);
            if let Some(a) = alternate {
                collect_capture_names_stmt(a, ref_set, shadow, out);
            }
        },
        Statement::For { init, test, update, body } => {
            match init {
                Some(ForInit::Expression(x)) => collect_capture_names_expr(x, ref_set, shadow, out),
                Some(ForInit::Variable(vd)) => collect_capture_names_declaration(vd, ref_set, shadow, out),
                None => {},
            }
            if let Some(t) = test {
                collect_capture_names_expr(t, ref_set, shadow, out);
            }
            if let Some(u) = update {
                collect_capture_names_expr(u, ref_set, shadow, out);
            }
            collect_capture_names_stmt(body, ref_set, shadow, out);
        },
        Statement::While { test, body } => {
            collect_capture_names_expr(test, ref_set, shadow, out);
            collect_capture_names_stmt(body, ref_set, shadow, out);
        },
        Statement::DoWhile { body, test } => {
            collect_capture_names_stmt(body, ref_set, shadow, out);
            collect_capture_names_expr(test, ref_set, shadow, out);
        },
        Statement::ForIn { left, right, body } => {
            collect_capture_names_expr(right, ref_set, shadow, out);
            let fs = for_shadow_set(shadow, left);
            collect_capture_names_for_left(left, ref_set, shadow, out);
            collect_capture_names_stmt(body, ref_set, &fs, out);
        },
        Statement::ForOf { left, right, body, .. } => {
            collect_capture_names_expr(right, ref_set, shadow, out);
            let fs = for_shadow_set(shadow, left);
            collect_capture_names_for_left(left, ref_set, shadow, out);
            collect_capture_names_stmt(body, ref_set, &fs, out);
        },
        Statement::Block(body) => collect_capture_names_shadowed(body, ref_set, shadow, out),
        Statement::Try { block, handler, finalizer } => {
            collect_capture_names_shadowed(block, ref_set, shadow, out);
            if let Some(h) = handler {
                let mut cs = shadow.copy();
                if let Some(p) = &h.param {
                    collect_capture_names_binding_pattern(p, ref_set, shadow, out, &mut cs);
                }
                assert(cs@ =~= catch_shadow(shadow@, h.param));
                collect_capture_names_shadowed(&h.body, ref_set, &cs, out);
            }
            if let Some(f) = finalizer {
                collect_capture_names_shadowed(f, ref_set, shadow, out);
            }
        },
        Statement::ExportNamed(exp) => {
            match &exp.declaration {
                Some(Declaration::Variable(vd)) => collect_capture_names_declaration(vd, ref_set, shadow, out),
                Some(Declaration::Function(f)) => collect_fn_capture_names(f, ref_set, shadow, out),
                Some(Declaration::Class(c)) => {
                    let cs = class_shadow_set(shadow, &c.id);
                    collect_class_capture_names(c, ref_set, &cs, out);
                },
                _ => {},
            }
        },
        Statement::ExportDefault(kind) => {
            match kind {
                ExportDefaultKind::Function(f) => collect_fn_capture_names(f, ref_set, shadow, out),
                ExportDefaultKind::Class(c) => {
                    let cs = class_shadow_set(shadow, &c.id);
                    collect_class_capture_names(c, ref_set, &cs, out);
                },
                ExportDefaultKind::Expression(x) => collect_capture_names_expr(x, ref_set, shadow, out),
            }
        },
        Statement::Throw(x) => collect_capture_names_expr(x, ref_set, shadow, out),
        Statement::Switch { discriminant, cases } => {
            collect_capture_names_expr(discriminant, ref_set, shadow, out);
            let ghost disc_out = out@;
            let mut c: usize = 0;
            while c < cases.len()
                invariant
                    c <= cases@.len(),
                    forall|n: Seq<char>| #[trigger] out@.contains(n) == (disc_out.contains(n) || exists|j: int|
                        0 <= j < c && stmts_refs(#[trigger] cases@[j].consequent@, ref_set@, shadow@, n)),
                decreases cases.len() - c,
            {
                collect_capture_names_shadowed(&cases[c].consequent, ref_set, shadow, out);
                assert forall|n: Seq<char>| #[trigger] out@.contains(n) == (disc_out.contains(n) || exists|j: int|
                    0 <= j < c + 1 && stmts_refs(#[trigger] cases@[j].consequent@, ref_set@, shadow@, n)) by {
                    if exists|j: int| 0 <= j < c + 1 && stmts_refs(#[trigger] cases@[j].consequent@, ref_set@, shadow@, n) {
                        let j = choose|j: int| 0 <= j < c + 1 && stmts_refs(#[trigger] cases@[j].consequent@, ref_set@, shadow@, n);
                        if j < c {
                        }
                    }
                }
                c += 1;
            }
        },
        Statement::Labeled { body, .. } => collect_capture_names_stmt(body, ref_set, shadow, out),
        Statement::With { object, body } => {
            collect_capture_names_expr(object, ref_set, shadow, out);
            collect_capture_names_stmt(body, ref_set, shadow, out);
        },
        _ => {},
    }
}

} // verus!
