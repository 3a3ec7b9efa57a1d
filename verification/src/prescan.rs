//! Builtin pre-registration: before temporary registers are handed out, the
//! syntax tree is walked once and every reference to a builtin global gets
//! a fixed register slot, in order of first occurrence, so that builtin
//! slots and temporaries never collide and slot numbering is stable.
//!
//! Nested function and class bodies are not entered (they are compiled on
//! their own); a class declaration contributes its `extends` expression.
use vstd::prelude::*;
use crate::ast::{
    Argument, ArrayElement, AssignmentTarget, BindingPattern, BindingProperty, ChainElement, Declaration,
    ExportDefaultKind, Expression, ForInit, ForLeft, ObjectPropertyKind, PropertyKey, Statement, SwitchCase,
    VariableDeclarator,
};
use crate::builtins::is_builtin_name;
use crate::ctx::{
    lemma_register_all_bound, lemma_register_all_concat, register_all, same_except_registers, CompileCtx, ScopeLookup,
};

verus! {

/// `s` as a builtin reference: itself if it names a builtin global, else nothing.
pub open spec fn builtin_ref(s: Seq<char>) -> Seq<Seq<char>> {
    if is_builtin_name(s) {
        seq![s]
    } else {
        Seq::empty()
    }
}

/// The builtin references of an expression, in evaluation order.
pub open spec fn expr_builtins(e: Expression) -> Seq<Seq<char>>
    decreases e,
{
    match e {
        Expression::Identifier(s) => builtin_ref(s@),
        Expression::Binary { left, right, .. } => expr_builtins(*left) + expr_builtins(*right),
        Expression::Logical { left, right, .. } => expr_builtins(*left) + expr_builtins(*right),
        Expression::Unary { argument, .. } => expr_builtins(*argument),
        Expression::Call { callee, arguments } => expr_builtins(*callee) + args_builtins(arguments@),
        Expression::New { callee, arguments } => expr_builtins(*callee) + args_builtins(arguments@),
        Expression::Conditional { test, consequent, alternate } => expr_builtins(*test) + expr_builtins(*consequent)
            + expr_builtins(*alternate),
        Expression::PrivateIn { right, .. } => expr_builtins(*right),
        Expression::Sequence(es) => exprs_builtins(es@),
        Expression::Assignment { left, right, .. } => target_builtins(*left) + expr_builtins(*right),
        Expression::Update { argument, .. } => target_builtins(*argument),
        Expression::TemplateLiteral(tl) => exprs_builtins(tl.expressions@),
        Expression::TaggedTemplate { tag, quasi } => expr_builtins(*tag) + exprs_builtins(quasi.expressions@),
        Expression::Object(props) => props_builtins(props@),
        Expression::Array(els) => elements_builtins(els@),
        Expression::PrivateField { object, .. } => expr_builtins(*object),
        Expression::StaticMember { object, .. } => expr_builtins(*object),
        Expression::ComputedMember { object, expression } => expr_builtins(*object) + expr_builtins(*expression),
        Expression::Chain(c) => chain_builtins(*c),
        Expression::Parenthesized(x) => expr_builtins(*x),
        Expression::Yield(a) => match a {
            Some(x) => expr_builtins(*x),
            None => Seq::empty(),
        },
        Expression::Await(x) => expr_builtins(*x),
        _ => Seq::empty(),
    }
}

/// The builtin references of a list of expressions.
pub open spec fn exprs_builtins(es: Seq<Expression>) -> Seq<Seq<char>>
    decreases es,
{
    if es.len() == 0 {
        Seq::empty()
    } else {
        expr_builtins(es[0]) + exprs_builtins(es.subrange(1, es.len() as int))
    }
}

/// The builtin references of call arguments (spread arguments included).
pub open spec fn args_builtins(args: Seq<Argument>) -> Seq<Seq<char>>
    decreases args,
{
    if args.len() == 0 {
        Seq::empty()
    } else {
        (match args[0] {
            Argument::Expression(x) => expr_builtins(x),
            Argument::Spread(x) => expr_builtins(x),
        }) + args_builtins(args.subrange(1, args.len() as int))
    }
}

/// The builtin references of array literal elements (spreads and holes skipped).
pub open spec fn elements_builtins(els: Seq<ArrayElement>) -> Seq<Seq<char>>
    decreases els,
{
    if els.len() == 0 {
        Seq::empty()
    } else {
        (match els[0] {
            ArrayElement::Expression(x) => expr_builtins(x),
            _ => Seq::empty(),
        }) + elements_builtins(els.subrange(1, els.len() as int))
    }
}

/// The builtin references of a property key: those of a computed key's expression.
pub open spec fn key_builtins(k: PropertyKey) -> Seq<Seq<char>>
    decreases k,
{
    match k {
        PropertyKey::Computed(x) => expr_builtins(*x),
        _ => Seq::empty(),
    }
}

/// The builtin references of object literal members.
pub open spec fn props_builtins(ps: Seq<ObjectPropertyKind>) -> Seq<Seq<char>>
    decreases ps,
{
    if ps.len() == 0 {
        Seq::empty()
    } else {
        (match ps[0] {
            ObjectPropertyKind::Property { key, value } => key_builtins(key) + expr_builtins(value),
            ObjectPropertyKind::Spread(x) => expr_builtins(x),
        }) + props_builtins(ps.subrange(1, ps.len() as int))
    }
}

/// The builtin references of an optional-chain element.
pub open spec fn chain_builtins(c: ChainElement) -> Seq<Seq<char>>
    decreases c,
{
    match c {
        ChainElement::StaticMember { object, .. } => expr_builtins(object),
        ChainElement::ComputedMember { object, expression } => expr_builtins(object) + expr_builtins(expression),
        ChainElement::PrivateField { object, .. } => expr_builtins(object),
        ChainElement::Call { callee, arguments } => expr_builtins(callee) + args_builtins(arguments@),
        ChainElement::Other => Seq::empty(),
    }
}

/// The builtin references of a simple assignment target: the identifier
/// itself, or the object and computed key of a member; destructuring
/// targets contribute nothing.
pub open spec fn target_builtins(t: AssignmentTarget) -> Seq<Seq<char>>
    decreases t,
{
    match t {
        AssignmentTarget::Identifier(s) => builtin_ref(s@),
        AssignmentTarget::StaticMember { object, .. } => expr_builtins(object),
        AssignmentTarget::ComputedMember { object, expression } => expr_builtins(object) + expr_builtins(expression),
        AssignmentTarget::PrivateField { object, .. } => expr_builtins(object),
        _ => Seq::empty(),
    }
}

/// The builtin references of a binding pattern: those of its computed keys
/// (default values are not scanned).
pub open spec fn pattern_builtins(p: BindingPattern) -> Seq<Seq<char>>
    decreases p,
{
    match p {
        BindingPattern::Identifier(_) => Seq::empty(),
        BindingPattern::Array { elements, rest } => pelements_builtins(elements@) + (match rest {
            Some(r) => pattern_builtins(*r),
            None => Seq::empty(),
        }),
        BindingPattern::Object { properties, rest } => bprops_builtins(properties@) + (match rest {
            Some(r) => pattern_builtins(*r),
            None => Seq::empty(),
        }),
        BindingPattern::Assignment { left, .. } => pattern_builtins(*left),
    }
}

/// The builtin references of array pattern elements.
pub open spec fn pelements_builtins(es: Seq<Option<BindingPattern>>) -> Seq<Seq<char>>
    decreases es,
{
    if es.len() == 0 {
        Seq::empty()
    } else {
        (match es[0] {
            Some(p) => pattern_builtins(p),
            None => Seq::empty(),
        }) + pelements_builtins(es.subrange(1, es.len() as int))
    }
}

/// The builtin references of object pattern properties.
pub open spec fn bprops_builtins(ps: Seq<BindingProperty>) -> Seq<Seq<char>>
    decreases ps,
{
    if ps.len() == 0 {
        Seq::empty()
    } else {
        key_builtins(ps[0].key) + pattern_builtins(ps[0].value) + bprops_builtins(ps.subrange(1, ps.len() as int))
    }
}

/// The builtin references of declarators: each pattern, then (when
/// `with_init`) its initializer.
pub open spec fn declarators_builtins(ds: Seq<VariableDeclarator>, with_init: bool) -> Seq<Seq<char>>
    decreases ds,
{
    if ds.len() == 0 {
        Seq::empty()
    } else {
        pattern_builtins(ds[0].id) + (match ds[0].init {
            Some(x) => if with_init {
                expr_builtins(x)
            } else {
                Seq::empty()
            },
            None => Seq::empty(),
        }) + declarators_builtins(ds.subrange(1, ds.len() as int), with_init)
    }
}

/// The builtin references of a statement, in source order.
pub open spec fn stmt_builtins(s: Statement) -> Seq<Seq<char>>
    decreases s,
{
    match s {
        Statement::Expression(x) => expr_builtins(x),
        Statement::Variable(vd) => declarators_builtins(vd.declarations@, true),
        Statement::Return(a) => match a {
            Some(x) => expr_builtins(x),
            None => Seq::empty(),
        },
        Statement::If { test, consequent, alternate } => expr_builtins(test) + stmt_builtins(*consequent) + (match alternate {
            Some(a) => stmt_builtins(*a),
            None => Seq::empty(),
        }),
        Statement::While { test, body } => expr_builtins(test) + stmt_builtins(*body),
        Statement::DoWhile { body, test } => stmt_builtins(*body) + expr_builtins(test),
        Statement::For { init, test, update, body } => (match init {
            Some(ForInit::Expression(x)) => expr_builtins(x),
            Some(ForInit::Variable(vd)) => declarators_builtins(vd.declarations@, true),
            None => Seq::empty(),
        }) + (match test {
            Some(x) => expr_builtins(x),
            None => Seq::empty(),
        }) + (match update {
            Some(x) => expr_builtins(x),
            None => Seq::empty(),
        }) + stmt_builtins(*body),
        Statement::ForIn { left, right, body } => (match left {
            ForLeft::Variable(vd) => declarators_builtins(vd.declarations@, false),
            ForLeft::Target(_) => Seq::empty(),
        }) + expr_builtins(right) + stmt_builtins(*body),
        Statement::ForOf { left, right, body, .. } => (match left {
            ForLeft::Variable(vd) => declarators_builtins(vd.declarations@, false),
            ForLeft::Target(_) => Seq::empty(),
        }) + expr_builtins(right) + stmt_builtins(*body),
        Statement::Switch { discriminant, cases } => expr_builtins(discriminant) + cases_builtins(cases@),
        Statement::Throw(x) => expr_builtins(x),
        Statement::Try { block, handler, finalizer } => stmts_builtins(block@) + handler_builtins(handler) + (match finalizer {
            Some(f) => stmts_builtins(f@),
            None => Seq::empty(),
        }),
        Statement::Block(body) => stmts_builtins(body@),
        Statement::Labeled { body, .. } => stmt_builtins(*body),
        Statement::With { object, body } => expr_builtins(object) + stmt_builtins(*body),
        Statement::Class(c) => match c.super_class {
            Some(x) => expr_builtins(*x),
            None => Seq::empty(),
        },
        Statement::ExportNamed(exp) => match exp.declaration {
            Some(Declaration::Variable(vd)) => declarators_builtins(vd.declarations@, true),
            _ => Seq::empty(),
        },
        Statement::ExportDefault(kind) => match kind {
            ExportDefaultKind::Expression(x) => expr_builtins(x),
            _ => Seq::empty(),
        },
        _ => Seq::empty(),
    }
}

/// The builtin references of an optional binding pattern.
pub open spec fn opt_pattern_builtins(p: Option<BindingPattern>) -> Seq<Seq<char>> {
    match p {
        Some(x) => pattern_builtins(x),
        None => Seq::empty(),
    }
}

/// The builtin references of an optional `catch` clause: its parameter's
/// pattern, then its body.
pub open spec fn handler_builtins(h: Option<crate::ast::CatchClause>) -> Seq<Seq<char>>
    decreases h,
{
    match h {
        Some(c) => opt_pattern_builtins(c.param) + stmts_builtins(c.body@),
        None => Seq::empty(),
    }
}

/// The builtin references of `switch` cases: each test, then its statements.
pub open spec fn cases_builtins(cs: Seq<SwitchCase>) -> Seq<Seq<char>>
    decreases cs,
{
    if cs.len() == 0 {
        Seq::empty()
    } else {
        (match cs[0].test {
            Some(x) => expr_builtins(x),
            None => Seq::empty(),
        }) + stmts_builtins(cs[0].consequent@) + cases_builtins(cs.subrange(1, cs.len() as int))
    }
}

/// The builtin references of a statement list.
pub open spec fn stmts_builtins(ss: Seq<Statement>) -> Seq<Seq<char>>
    decreases ss,
{
    if ss.len() == 0 {
        Seq::empty()
    } else {
        stmt_builtins(ss[0]) + stmts_builtins(ss.subrange(1, ss.len() as int))
    }
}

/// `b` is `a` after registering the builtin names `names` in order.
pub open spec fn prescanned(a: CompileCtx, b: CompileCtx, names: Seq<Seq<char>>) -> bool {
    &&& b.slot_state() == register_all(a.slot_state(), names)
    &&& same_except_registers(a, b)
    &&& b.implicit_global_reads@ == a.implicit_global_reads@
}

/// Registering nothing changes nothing.
pub proof fn lemma_prescanned_refl(a: CompileCtx)
    ensures
        prescanned(a, a, Seq::empty()),
{
}

/// Two registrations in a row are one registration of both name lists.
pub proof fn lemma_prescanned_trans(a: CompileCtx, b: CompileCtx, c: CompileCtx, x: Seq<Seq<char>>, y: Seq<Seq<char>>)
    requires
        prescanned(a, b, x),
        prescanned(b, c, y),
    ensures
        prescanned(a, c, x + y),
{
    lemma_register_all_concat(a.slot_state(), x, y);
}

/// A registration uses at most one register per name.
pub proof fn lemma_prescanned_bound(a: CompileCtx, b: CompileCtx, x: Seq<Seq<char>>)
    requires
        prescanned(a, b, x),
    ensures
        a.next_reg <= b.next_reg <= a.next_reg + x.len(),
{
    lemma_register_all_bound(a.slot_state(), x);
}

/// Registers `name` if it is a builtin global.
fn prescan_name(name: &str, ctx: &mut CompileCtx)
    requires
        old(ctx).next_reg + builtin_ref(name@).len() < u32::MAX,
    ensures
        prescanned(*old(ctx), *final(ctx), builtin_ref(name@)),
{
    if CompileCtx::is_known_builtin(name) {
        proof {
            assert(seq![name@].drop_last() =~= Seq::<Seq<char>>::empty());
            assert(register_all(old(ctx).slot_state(), seq![name@].drop_last()) == old(ctx).slot_state());
            assert(seq![name@].last() == name@);
        }
        // The scan runs before any declaration, on an empty scope chain.
        let _ = ctx.lookup_or_builtin(name, ScopeLookup::Undeclared);
    }
}

/// Registers the builtin references of an optional expression.
fn prescan_opt_expr(e: &Option<Expression>, ctx: &mut CompileCtx)
    requires
        old(ctx).next_reg + (match *e {
            Some(x) => expr_builtins(x),
            None => Seq::<Seq<char>>::empty(),
        }).len() < u32::MAX,
    ensures
        prescanned(
            *old(ctx),
            *final(ctx),
            match *e {
                Some(x) => expr_builtins(x),
                None => Seq::empty(),
            },
        ),
{
    if let Some(x) = e {
        prescan_expr(x, ctx);
    }
}

/// Registers the builtin references of an expression.
pub fn prescan_expr(expr: &Expression, ctx: &mut CompileCtx)
    requires
        old(ctx).next_reg + expr_builtins(*expr).len() < u32::MAX,
    ensures
        prescanned(*old(ctx), *final(ctx), expr_builtins(*expr)),
    decreases expr,
{
    let ghost c0 = *ctx;
    match expr {
        Expression::Identifier(s) => prescan_name(s.as_str(), ctx),
        Expression::Binary { left, right, .. } | Expression::Logical { left, right, .. } => {
            prescan_expr(left, ctx);
            let ghost c1 = *ctx;
            proof {
                lemma_prescanned_bound(c0, c1, expr_builtins(**left));
            }
            prescan_expr(right, ctx);
            proof {
                lemma_prescanned_trans(c0, c1, *ctx, expr_builtins(**left), expr_builtins(**right));
            }
        },
        Expression::Unary { argument, .. } => prescan_expr(argument, ctx),
        Expression::Call { callee, arguments } | Expression::New { callee, arguments } => {
            prescan_expr(callee, ctx);
            let ghost c1 = *ctx;
            proof {
                lemma_prescanned_bound(c0, c1, expr_builtins(**callee));
            }
            prescan_args(arguments, ctx);
            proof {
                lemma_prescanned_trans(c0, c1, *ctx, expr_builtins(**callee), args_builtins(arguments@));
            }
        },
        Expression::Conditional { test, consequent, alternate } => {
            prescan_expr(test, ctx);
            let ghost c1 = *ctx;
            proof {
                lemma_prescanned_bound(c0, c1, expr_builtins(**test));
            }
            prescan_expr(consequent, ctx);
            let ghost c2 = *ctx;
            proof {
                lemma_prescanned_trans(c0, c1, c2, expr_builtins(**test), expr_builtins(**consequent));
                lemma_prescanned_bound(c0, c2, expr_builtins(**test) + expr_builtins(**consequent));
            }
            prescan_expr(alternate, ctx);
            proof {
                lemma_prescanned_trans(
                    c0,
                    c2,
                    *ctx,
                    expr_builtins(**test) + expr_builtins(**consequent),
                    expr_builtins(**alternate),
                );
            }
        },
        Expression::PrivateIn { right, .. } => prescan_expr(right, ctx),
        Expression::Sequence(es) => prescan_exprs(es, ctx),
        Expression::Assignment { left, right, .. } => {
            prescan_target(left, ctx);
            let ghost c1 = *ctx;
            proof {
                lemma_prescanned_bound(c0, c1, target_builtins(**left));
            }
            prescan_expr(right, ctx);
            proof {
                lemma_prescanned_trans(c0, c1, *ctx, target_builtins(**left), expr_builtins(**right));
            }
        },
        Expression::Update { argument, .. } => prescan_target(argument, ctx),
        Expression::TemplateLiteral(tl) => prescan_exprs(&tl.expressions, ctx),
        Expression::TaggedTemplate { tag, quasi } => {
            prescan_expr(tag, ctx);
            let ghost c1 = *ctx;
            proof {
                lemma_prescanned_bound(c0, c1, expr_builtins(**tag));
            }
            prescan_exprs(&quasi.expressions, ctx);
            proof {
                lemma_prescanned_trans(c0, c1, *ctx, expr_builtins(**tag), exprs_builtins(quasi.expressions@));
            }
        },
        Expression::Object(props) => prescan_props(props, ctx),
        Expression::Array(els) => prescan_elements(els, ctx),
        Expression::PrivateField { object, .. } => prescan_expr(object, ctx),
        Expression::StaticMember { object, .. } => prescan_expr(object, ctx),
        Expression::ComputedMember { object, expression } => {
            prescan_expr(object, ctx);
            let ghost c1 = *ctx;
            proof {
                lemma_prescanned_bound(c0, c1, expr_builtins(**object));
            }
            prescan_expr(expression, ctx);
            proof {
                lemma_prescanned_trans(c0, c1, *ctx, expr_builtins(**object), expr_builtins(**expression));
            }
        },
        Expression::Chain(c) => prescan_chain(c, ctx),
        Expression::Parenthesized(x) => prescan_expr(x, ctx),
        Expression::Yield(a) => {
            if let Some(x) = a {
                prescan_expr(x, ctx);
            }
        },
        Expression::Await(x) => prescan_expr(x, ctx),
        _ => {},
    }
}

/// Registers the builtin references of a list of expressions.
pub fn prescan_exprs(es: &Vec<Expression>, ctx: &mut CompileCtx)
    requires
        old(ctx).next_reg + exprs_builtins(es@).len() < u32::MAX,
    ensures
        prescanned(*old(ctx), *final(ctx), exprs_builtins(es@)),
    decreases es@,
{
    let ghost c0 = *ctx;
    let ghost mut done: Seq<Seq<char>> = Seq::empty();
    let mut i: usize = 0;
    assert(es@.skip(0) =~= es@);
    assert(done + exprs_builtins(es@.skip(0)) =~= exprs_builtins(es@));
    while i < es.len()
        invariant
            i <= es@.len(),
            done + exprs_builtins(es@.skip(i as int)) == exprs_builtins(es@),
            prescanned(c0, *ctx, done),
            c0.next_reg + exprs_builtins(es@).len() < u32::MAX,
        decreases es.len() - i,
    {
        proof {
            assert(es@.skip(i as int)[0] == es@[i as int]);
            assert(es@.skip(i as int).subrange(1, es@.skip(i as int).len() as int) =~= es@.skip(i + 1));
            assert(decreases_to!(es@ => es@[i as int]));
            lemma_prescanned_bound(c0, *ctx, done);
        }
        let ghost c1 = *ctx;
        prescan_expr(&es[i], ctx);
        proof {
            lemma_prescanned_trans(c0, c1, *ctx, done, expr_builtins(es@[i as int]));
            assert(done + expr_builtins(es@[i as int]) + exprs_builtins(es@.skip(i + 1)) =~= exprs_builtins(es@));
            done = done + expr_builtins(es@[i as int]);
        }
        i += 1;
    }
    assert(es@.skip(es@.len() as int) =~= Seq::<Expression>::empty());
    assert(done + Seq::<Seq<char>>::empty() =~= done);
}

/// Registers the builtin references of call arguments.
pub fn prescan_args(args: &Vec<Argument>, ctx: &mut CompileCtx)
    requires
        old(ctx).next_reg + args_builtins(args@).len() < u32::MAX,
    ensures
        prescanned(*old(ctx), *final(ctx), args_builtins(args@)),
    decreases args@,
{
    let ghost c0 = *ctx;
    let ghost mut done: Seq<Seq<char>> = Seq::empty();
    let mut i: usize = 0;
    assert(args@.skip(0) =~= args@);
    assert(done + args_builtins(args@.skip(0)) =~= args_builtins(args@));
    while i < args.len()
        invariant
            i <= args@.len(),
            done + args_builtins(args@.skip(i as int)) == args_builtins(args@),
            prescanned(c0, *ctx, done),
            c0.next_reg + args_builtins(args@).len() < u32::MAX,
        decreases args.len() - i,
    {
        let ghost here = match args@[i as int] {
            Argument::Expression(x) => expr_builtins(x),
            Argument::Spread(x) => expr_builtins(x),
        };
        proof {
            assert(args@.skip(i as int)[0] == args@[i as int]);
            assert(args@.skip(i as int).subrange(1, args@.skip(i as int).len() as int) =~= args@.skip(i + 1));
            lemma_prescanned_bound(c0, *ctx, done);
        }
        let ghost c1 = *ctx;
        match &args[i] {
            Argument::Expression(x) => {
                proof {
                    assert(decreases_to!(args@ => args@[i as int]));
                }
                prescan_expr(x, ctx);
            },
            Argument::Spread(x) => {
                proof {
                    assert(decreases_to!(args@ => args@[i as int]));
                }
                prescan_expr(x, ctx);
            },
        }
        proof {
            lemma_prescanned_trans(c0, c1, *ctx, done, here);
            assert(done + here + args_builtins(args@.skip(i + 1)) =~= args_builtins(args@));
            done = done + here;
        }
        i += 1;
    }
    assert(args@.skip(args@.len() as int) =~= Seq::<Argument>::empty());
    assert(done + Seq::<Seq<char>>::empty() =~= done);
}

/// Registers the builtin references of array literal elements.
pub fn prescan_elements(els: &Vec<ArrayElement>, ctx: &mut CompileCtx)
    requires
        old(ctx).next_reg + elements_builtins(els@).len() < u32::MAX,
    ensures
        prescanned(*old(ctx), *final(ctx), elements_builtins(els@)),
    decreases els@,
{
    let ghost c0 = *ctx;
    let ghost mut done: Seq<Seq<char>> = Seq::empty();
    let mut i: usize = 0;
    assert(els@.skip(0) =~= els@);
    assert(done + elements_builtins(els@.skip(0)) =~= elements_builtins(els@));
    while i < els.len()
        invariant
            i <= els@.len(),
            done + elements_builtins(els@.skip(i as int)) == elements_builtins(els@),
            prescanned(c0, *ctx, done),
            c0.next_reg + elements_builtins(els@).len() < u32::MAX,
        decreases els.len() - i,
    {
        let ghost here = match els@[i as int] {
            ArrayElement::Expression(x) => expr_builtins(x),
            _ => Seq::empty(),
        };
        proof {
            assert(els@.skip(i as int)[0] == els@[i as int]);
            assert(els@.skip(i as int).subrange(1, els@.skip(i as int).len() as int) =~= els@.skip(i + 1));
            lemma_prescanned_bound(c0, *ctx, done);
        }
        let ghost c1 = *ctx;
        match &els[i] {
            ArrayElement::Expression(x) => {
                proof {
                    assert(decreases_to!(els@ => els@[i as int]));
                }
                prescan_expr(x, ctx);
            },
            _ => {},
        }
        proof {
            lemma_prescanned_trans(c0, c1, *ctx, done, here);
            assert(done + here + elements_builtins(els@.skip(i + 1)) =~= elements_builtins(els@));
            done = done + here;
        }
        i += 1;
    }
    assert(els@.skip(els@.len() as int) =~= Seq::<ArrayElement>::empty());
    assert(done + Seq::<Seq<char>>::empty() =~= done);
}

/// Registers the builtin references of a property key.
fn prescan_key(key: &PropertyKey, ctx: &mut CompileCtx)
    requires
        old(ctx).next_reg + key_builtins(*key).len() < u32::MAX,
    ensures
        prescanned(*old(ctx), *final(ctx), key_builtins(*key)),
    decreases key,
{
    if let PropertyKey::Computed(x) = key {
        prescan_expr(x, ctx);
    }
}

/// Registers the builtin references of object literal members.
pub fn prescan_props(ps: &Vec<ObjectPropertyKind>, ctx: &mut CompileCtx)
    requires
        old(ctx).next_reg + props_builtins(ps@).len() < u32::MAX,
    ensures
        prescanned(*old(ctx), *final(ctx), props_builtins(ps@)),
    decreases ps@,
{
    let ghost c0 = *ctx;
    let ghost mut done: Seq<Seq<char>> = Seq::empty();
    let mut i: usize = 0;
    assert(ps@.skip(0) =~= ps@);
    assert(done + props_builtins(ps@.skip(0)) =~= props_builtins(ps@));
    while i < ps.len()
        invariant
            i <= ps@.len(),
            done + props_builtins(ps@.skip(i as int)) == props_builtins(ps@),
            prescanned(c0, *ctx, done),
            c0.next_reg + props_builtins(ps@).len() < u32::MAX,
        decreases ps.len() - i,
    {
        let ghost here = match ps@[i as int] {
            ObjectPropertyKind::Property { key, value } => key_builtins(key) + expr_builtins(value),
            ObjectPropertyKind::Spread(x) => expr_builtins(x),
        };
        proof {
            assert(ps@.skip(i as int)[0] == ps@[i as int]);
            assert(ps@.skip(i as int).subrange(1, ps@.skip(i as int).len() as int) =~= ps@.skip(i + 1));
            lemma_prescanned_bound(c0, *ctx, done);
        }
        let ghost c1 = *ctx;
        match &ps[i] {
            ObjectPropertyKind::Property { key, value } => {
                proof {
                    assert(decreases_to!(ps@ => ps@[i as int]));
                }
                prescan_key(key, ctx);
                let ghost c2 = *ctx;
                proof {
                    lemma_prescanned_bound(c1, c2, key_builtins(*key));
                }
                prescan_expr(value, ctx);
                proof {
                    lemma_prescanned_trans(c1, c2, *ctx, key_builtins(*key), expr_builtins(*value));
                }
            },
            ObjectPropertyKind::Spread(x) => {
                proof {
                    assert(decreases_to!(ps@ => ps@[i as int]));
                }
                prescan_expr(x, ctx);
            },
        }
        proof {
            lemma_prescanned_trans(c0, c1, *ctx, done, here);
            assert(done + here + props_builtins(ps@.skip(i + 1)) =~= props_builtins(ps@));
            done = done + here;
        }
        i += 1;
    }
    assert(ps@.skip(ps@.len() as int) =~= Seq::<ObjectPropertyKind>::empty());
    assert(done + Seq::<Seq<char>>::empty() =~= done);
}

/// Registers the builtin references of an optional-chain element.
pub fn prescan_chain(element: &ChainElement, ctx: &mut CompileCtx)
    requires
        old(ctx).next_reg + chain_builtins(*element).len() < u32::MAX,
    ensures
        prescanned(*old(ctx), *final(ctx), chain_builtins(*element)),
    decreases element,
{
    let ghost c0 = *ctx;
    match element {
        ChainElement::StaticMember { object, .. } => prescan_expr(object, ctx),
        ChainElement::ComputedMember { object, expression } => {
            prescan_expr(object, ctx);
            let ghost c1 = *ctx;
            proof {
                lemma_prescanned_bound(c0, c1, expr_builtins(*object));
            }
            prescan_expr(expression, ctx);
            proof {
                lemma_prescanned_trans(c0, c1, *ctx, expr_builtins(*object), expr_builtins(*expression));
            }
        },
        ChainElement::PrivateField { object, .. } => prescan_expr(object, ctx),
        ChainElement::Call { callee, arguments } => {
            prescan_expr(callee, ctx);
            let ghost c1 = *ctx;
            proof {
                lemma_prescanned_bound(c0, c1, expr_builtins(*callee));
            }
            prescan_args(arguments, ctx);
            proof {
                lemma_prescanned_trans(c0, c1, *ctx, expr_builtins(*callee), args_builtins(arguments@));
            }
        },
        ChainElement::Other => {},
    }
}

/// Registers the builtin references of a simple assignment target.
pub fn prescan_target(target: &AssignmentTarget, ctx: &mut CompileCtx)
    requires
        old(ctx).next_reg + target_builtins(*target).len() < u32::MAX,
    ensures
        prescanned(*old(ctx), *final(ctx), target_builtins(*target)),
    decreases target,
{
    let ghost c0 = *ctx;
    match target {
        AssignmentTarget::Identifier(s) => prescan_name(s.as_str(), ctx),
        AssignmentTarget::StaticMember { object, .. } => prescan_expr(object, ctx),
        AssignmentTarget::ComputedMember { object, expression } => {
            prescan_expr(object, ctx);
            let ghost c1 = *ctx;
            proof {
                lemma_prescanned_bound(c0, c1, expr_builtins(*object));
            }
            prescan_expr(expression, ctx);
            proof {
                lemma_prescanned_trans(c0, c1, *ctx, expr_builtins(*object), expr_builtins(*expression));
            }
        },
        AssignmentTarget::PrivateField { object, .. } => prescan_expr(object, ctx),
        _ => {},
    }
}

/// Registers the builtin references in the computed keys of a binding pattern.
pub fn prescan_pattern(pattern: &BindingPattern, ctx: &mut CompileCtx)
    requires
        old(ctx).next_reg + pattern_builtins(*pattern).len() < u32::MAX,
    ensures
        prescanned(*old(ctx), *final(ctx), pattern_builtins(*pattern)),
    decreases pattern,
{
    let ghost c0 = *ctx;
    match pattern {
        BindingPattern::Identifier(_) => {},
        BindingPattern::Array { elements, rest } => {
            prescan_pelements(elements, ctx);
            let ghost c1 = *ctx;
            proof {
                lemma_prescanned_bound(c0, c1, pelements_builtins(elements@));
            }
            let ghost tail = match rest {
                Some(r) => pattern_builtins(**r),
                None => Seq::empty(),
            };
            if let Some(r) = rest {
                prescan_pattern(r, ctx);
            }
            proof {
                lemma_prescanned_trans(c0, c1, *ctx, pelements_builtins(elements@), tail);
            }
        },
        BindingPattern::Object { properties, rest } => {
            prescan_bprops(properties, ctx);
            let ghost c1 = *ctx;
            proof {
                lemma_prescanned_bound(c0, c1, bprops_builtins(properties@));
            }
            let ghost tail = match rest {
                Some(r) => pattern_builtins(**r),
                None => Seq::empty(),
            };
            if let Some(r) = rest {
                prescan_pattern(r, ctx);
            }
            proof {
                lemma_prescanned_trans(c0, c1, *ctx, bprops_builtins(properties@), tail);
            }
        },
        BindingPattern::Assignment { left, .. } => prescan_pattern(left, ctx),
    }
}

/// Registers the builtin references of array pattern elements.
pub fn prescan_pelements(es: &Vec<Option<BindingPattern>>, ctx: &mut CompileCtx)
    requires
        old(ctx).next_reg + pelements_builtins(es@).len() < u32::MAX,
    ensures
        prescanned(*old(ctx), *final(ctx), pelements_builtins(es@)),
    decreases es@,
{
    let ghost c0 = *ctx;
    let ghost mut done: Seq<Seq<char>> = Seq::empty();
    let mut i: usize = 0;
    assert(es@.skip(0) =~= es@);
    assert(done + pelements_builtins(es@.skip(0)) =~= pelements_builtins(es@));
    while i < es.len()
        invariant
            i <= es@.len(),
            done + pelements_builtins(es@.skip(i as int)) == pelements_builtins(es@),
            prescanned(c0, *ctx, done),
            c0.next_reg + pelements_builtins(es@).len() < u32::MAX,
        decreases es.len() - i,
    {
        let ghost here = match es@[i as int] {
            Some(p) => pattern_builtins(p),
            None => Seq::empty(),
        };
        proof {
            assert(es@.skip(i as int)[0] == es@[i as int]);
            assert(es@.skip(i as int).subrange(1, es@.skip(i as int).len() as int) =~= es@.skip(i + 1));
            lemma_prescanned_bound(c0, *ctx, done);
        }
        let ghost c1 = *ctx;
        if let Some(p) = &es[i] {
            proof {
                assert(decreases_to!(es@ => es@[i as int]));
            }
            prescan_pattern(p, ctx);
        }
        proof {
            lemma_prescanned_trans(c0, c1, *ctx, done, here);
            assert(done + here + pelements_builtins(es@.skip(i + 1)) =~= pelements_builtins(es@));
            done = done + here;
        }
        i += 1;
    }
    assert(es@.skip(es@.len() as int) =~= Seq::<Option<BindingPattern>>::empty());
    assert(done + Seq::<Seq<char>>::empty() =~= done);
}

/// Registers the builtin references of object pattern properties.
pub fn prescan_bprops(ps: &Vec<BindingProperty>, ctx: &mut CompileCtx)
    requires
        old(ctx).next_reg + bprops_builtins(ps@).len() < u32::MAX,
    ensures
        prescanned(*old(ctx), *final(ctx), bprops_builtins(ps@)),
    decreases ps@,
{
    let ghost c0 = *ctx;
    let ghost mut done: Seq<Seq<char>> = Seq::empty();
    let mut i: usize = 0;
    assert(ps@.skip(0) =~= ps@);
    assert(done + bprops_builtins(ps@.skip(0)) =~= bprops_builtins(ps@));
    while i < ps.len()
        invariant
            i <= ps@.len(),
            done + bprops_builtins(ps@.skip(i as int)) == bprops_builtins(ps@),
            prescanned(c0, *ctx, done),
            c0.next_reg + bprops_builtins(ps@).len() < u32::MAX,
        decreases ps.len() - i,
    {
        let ghost here = key_builtins(ps@[i as int].key) + pattern_builtins(ps@[i as int].value);
        proof {
            assert(ps@.skip(i as int)[0] == ps@[i as int]);
            assert(ps@.skip(i as int).subrange(1, ps@.skip(i as int).len() as int) =~= ps@.skip(i + 1));
            assert(done + here + bprops_builtins(ps@.skip(i + 1)) =~= bprops_builtins(ps@));
            lemma_prescanned_bound(c0, *ctx, done);
            assert(decreases_to!(ps@ => ps@[i as int]));
        }
        let ghost c1 = *ctx;
        prescan_key(&ps[i].key, ctx);
        let ghost c2 = *ctx;
        proof {
            lemma_prescanned_bound(c1, c2, key_builtins(ps@[i as int].key));
        }
        prescan_pattern(&ps[i].value, ctx);
        proof {
            lemma_prescanned_trans(c1, c2, *ctx, key_builtins(ps@[i as int].key), pattern_builtins(ps@[i as int].value));
            lemma_prescanned_trans(c0, c1, *ctx, done, here);
            done = done + here;
        }
        i += 1;
    }
    assert(ps@.skip(ps@.len() as int) =~= Seq::<BindingProperty>::empty());
    assert(done + Seq::<Seq<char>>::empty() =~= done);
}

/// Registers the builtin references of declarators: each pattern, then, when
/// `with_init`, its initializer.
pub fn prescan_declarators(ds: &Vec<VariableDeclarator>, with_init: bool, ctx: &mut CompileCtx)
    requires
        old(ctx).next_reg + declarators_builtins(ds@, with_init).len() < u32::MAX,
    ensures
        prescanned(*old(ctx), *final(ctx), declarators_builtins(ds@, with_init)),
    decreases ds@,
{
    let ghost c0 = *ctx;
    let ghost mut done: Seq<Seq<char>> = Seq::empty();
    let mut i: usize = 0;
    assert(ds@.skip(0) =~= ds@);
    assert(done + declarators_builtins(ds@.skip(0), with_init) =~= declarators_builtins(ds@, with_init));
    while i < ds.len()
        invariant
            i <= ds@.len(),
            done + declarators_builtins(ds@.skip(i as int), with_init) == declarators_builtins(ds@, with_init),
            prescanned(c0, *ctx, done),
            c0.next_reg + declarators_builtins(ds@, with_init).len() < u32::MAX,
        decreases ds.len() - i,
    {
        let ghost init_b = match ds@[i as int].init {
            Some(x) => if with_init {
                expr_builtins(x)
            } else {
                Seq::empty()
            },
            None => Seq::empty(),
        };
        let ghost here = pattern_builtins(ds@[i as int].id) + init_b;
        proof {
            assert(ds@.skip(i as int)[0] == ds@[i as int]);
            assert(ds@.skip(i as int).subrange(1, ds@.skip(i as int).len() as int) =~= ds@.skip(i + 1));
            assert(done + here + declarators_builtins(ds@.skip(i + 1), with_init) =~= declarators_builtins(ds@, with_init));
            lemma_prescanned_bound(c0, *ctx, done);
            assert(decreases_to!(ds@ => ds@[i as int]));
        }
        let ghost c1 = *ctx;
        prescan_pattern(&ds[i].id, ctx);
        let ghost c2 = *ctx;
        proof {
            lemma_prescanned_bound(c1, c2, pattern_builtins(ds@[i as int].id));
        }
        if with_init {
            prescan_opt_expr(&ds[i].init, ctx);
        }
        proof {
            lemma_prescanned_trans(c1, c2, *ctx, pattern_builtins(ds@[i as int].id), init_b);
            lemma_prescanned_trans(c0, c1, *ctx, done, here);
            done = done + here;
        }
        i += 1;
    }
    assert(ds@.skip(ds@.len() as int) =~= Seq::<VariableDeclarator>::empty());
    assert(done + Seq::<Seq<char>>::empty() =~= done);
}

/// Registers the builtin references of `switch` cases.
pub fn prescan_cases(cs: &Vec<SwitchCase>, ctx: &mut CompileCtx)
    requires
        old(ctx).next_reg + cases_builtins(cs@).len() < u32::MAX,
    ensures
        prescanned(*old(ctx), *final(ctx), cases_builtins(cs@)),
    decreases cs@,
{
    let ghost c0 = *ctx;
    let ghost mut done: Seq<Seq<char>> = Seq::empty();
    let mut i: usize = 0;
    assert(cs@.skip(0) =~= cs@);
    assert(done + cases_builtins(cs@.skip(0)) =~= cases_builtins(cs@));
    while i < cs.len()
        invariant
            i <= cs@.len(),
            done + cases_builtins(cs@.skip(i as int)) == cases_builtins(cs@),
            prescanned(c0, *ctx, done),
            c0.next_reg + cases_builtins(cs@).len() < u32::MAX,
        decreases cs.len() - i,
    {
        let ghost test_b = match cs@[i as int].test {
            Some(x) => expr_builtins(x),
            None => Seq::empty(),
        };
        let ghost here = test_b + stmts_builtins(cs@[i as int].consequent@);
        proof {
            assert(cs@.skip(i as int)[0] == cs@[i as int]);
            assert(cs@.skip(i as int).subrange(1, cs@.skip(i as int).len() as int) =~= cs@.skip(i + 1));
            assert(done + here + cases_builtins(cs@.skip(i + 1)) =~= cases_builtins(cs@));
            lemma_prescanned_bound(c0, *ctx, done);
            assert(decreases_to!(cs@ => cs@[i as int]));
        }
        let ghost c1 = *ctx;
        prescan_opt_expr(&cs[i].test, ctx);
        let ghost c2 = *ctx;
        proof {
            lemma_prescanned_bound(c1, c2, test_b);
        }
        prescan_stmts(&cs[i].consequent, ctx);
        proof {
            lemma_prescanned_trans(c1, c2, *ctx, test_b, stmts_builtins(cs@[i as int].consequent@));
            lemma_prescanned_trans(c0, c1, *ctx, done, here);
            done = done + here;
        }
        i += 1;
    }
    assert(cs@.skip(cs@.len() as int) =~= Seq::<SwitchCase>::empty());
    assert(done + Seq::<Seq<char>>::empty() =~= done);
}

/// Registers the builtin references of a statement list.
pub fn prescan_stmts(ss: &Vec<Statement>, ctx: &mut CompileCtx)
    requires
        old(ctx).next_reg + stmts_builtins(ss@).len() < u32::MAX,
    ensures
        prescanned(*old(ctx), *final(ctx), stmts_builtins(ss@)),
    decreases ss@,
{
    let ghost c0 = *ctx;
    let ghost mut done: Seq<Seq<char>> = Seq::empty();
    let mut i: usize = 0;
    assert(ss@.skip(0) =~= ss@);
    assert(done + stmts_builtins(ss@.skip(0)) =~= stmts_builtins(ss@));
    while i < ss.len()
        invariant
            i <= ss@.len(),
            done + stmts_builtins(ss@.skip(i as int)) == stmts_builtins(ss@),
            prescanned(c0, *ctx, done),
            c0.next_reg + stmts_builtins(ss@).len() < u32::MAX,
        decreases ss.len() - i,
    {
        proof {
            assert(ss@.skip(i as int)[0] == ss@[i as int]);
            assert(ss@.skip(i as int).subrange(1, ss@.skip(i as int).len() as int) =~= ss@.skip(i + 1));
            assert(done + stmt_builtins(ss@[i as int]) + stmts_builtins(ss@.skip(i + 1)) =~= stmts_builtins(ss@));
            lemma_prescanned_bound(c0, *ctx, done);
            assert(decreases_to!(ss@ => ss@[i as int]));
        }
        let ghost c1 = *ctx;
        prescan_stmt(&ss[i], ctx);
        proof {
            lemma_prescanned_trans(c0, c1, *ctx, done, stmt_builtins(ss@[i as int]));
            done = done + stmt_builtins(ss@[i as int]);
        }
        i += 1;
    }
    assert(ss@.skip(ss@.len() as int) =~= Seq::<Statement>::empty());
    assert(done + Seq::<Seq<char>>::empty() =~= done);
}

/// Registers the builtin references of a statement.
pub fn prescan_stmt(stmt: &Statement, ctx: &mut CompileCtx)
    requires
        old(ctx).next_reg + stmt_builtins(*stmt).len() < u32::MAX,
    ensures
        prescanned(*old(ctx), *final(ctx), stmt_builtins(*stmt)),
    decreases stmt,
{
    let ghost c0 = *ctx;
    match stmt {
        Statement::Expression(x) => prescan_expr(x, ctx),
        Statement::Variable(vd) => prescan_declarators(&vd.declarations, true, ctx),
        Statement::Return(a) => prescan_opt_expr(a, ctx),
        Statement::If { test, consequent, alternate } => {
            prescan_expr(test, ctx);
            let ghost c1 = *ctx;
            proof {
                lemma_prescanned_bound(c0, c1, expr_builtins(*test));
            }
            prescan_stmt(consequent, ctx);
            let ghost c2 = *ctx;
            let ghost x = expr_builtins(*test) + stmt_builtins(**consequent);
            proof {
                lemma_prescanned_trans(c0, c1, c2, expr_builtins(*test), stmt_builtins(**consequent));
                lemma_prescanned_bound(c0, c2, x);
            }
            let ghost tail = match alternate {
                Some(a) => stmt_builtins(**a),
                None => Seq::empty(),
            };
            if let Some(a) = alternate {
                prescan_stmt(a, ctx);
            }
            proof {
                lemma_prescanned_trans(c0, c2, *ctx, x, tail);
            }
        },
        Statement::While { test, body } => {
            prescan_expr(test, ctx);
            let ghost c1 = *ctx;
            proof {
                lemma_prescanned_bound(c0, c1, expr_builtins(*test));
            }
            prescan_stmt(body, ctx);
            proof {
                lemma_prescanned_trans(c0, c1, *ctx, expr_builtins(*test), stmt_builtins(**body));
            }
        },
        Statement::DoWhile { body, test } => {
            prescan_stmt(body, ctx);
            let ghost c1 = *ctx;
            proof {
                lemma_prescanned_bound(c0, c1, stmt_builtins(**body));
            }
            prescan_expr(test, ctx);
            proof {
                lemma_prescanned_trans(c0, c1, *ctx, stmt_builtins(**body), expr_builtins(*test));
            }
        },
        Statement::For { init, test, update, body } => {
            let ghost ib = match init {
                Some(ForInit::Expression(x)) => expr_builtins(*x),
                Some(ForInit::Variable(vd)) => declarators_builtins(vd.declarations@, true),
                None => Seq::empty(),
            };
            let ghost tb = match test {
                Some(x) => expr_builtins(*x),
                None => Seq::empty(),
            };
            let ghost ub = match update {
                Some(x) => expr_builtins(*x),
                None => Seq::empty(),
            };
            match init {
                Some(ForInit::Expression(x)) => prescan_expr(x, ctx),
                Some(ForInit::Variable(vd)) => prescan_declarators(&vd.declarations, true, ctx),
                None => {},
            }
            let ghost c1 = *ctx;
            proof {
                lemma_prescanned_bound(c0, c1, ib);
            }
            prescan_opt_expr(test, ctx);
            let ghost c2 = *ctx;
            proof {
                lemma_prescanned_trans(c0, c1, c2, ib, tb);
                lemma_prescanned_bound(c0, c2, ib + tb);
            }
            prescan_opt_expr(update, ctx);
            let ghost c3 = *ctx;
            proof {
                lemma_prescanned_trans(c0, c2, c3, ib + tb, ub);
                lemma_prescanned_bound(c0, c3, ib + tb + ub);
            }
            prescan_stmt(body, ctx);
            proof {
                lemma_prescanned_trans(c0, c3, *ctx, ib + tb + ub, stmt_builtins(**body));
            }
        },
        Statement::ForIn { left, right, body } | Statement::ForOf { left, right, body, .. } => {
            let ghost lb = match left {
                ForLeft::Variable(vd) => declarators_builtins(vd.declarations@, false),
                ForLeft::Target(_) => Seq::empty(),
            };
            match left {
                ForLeft::Variable(vd) => prescan_declarators(&vd.declarations, false, ctx),
                ForLeft::Target(_) => {},
            }
            let ghost c1 = *ctx;
            proof {
                lemma_prescanned_bound(c0, c1, lb);
            }
            prescan_expr(right, ctx);
            let ghost c2 = *ctx;
            proof {
                lemma_prescanned_trans(c0, c1, c2, lb, expr_builtins(*right));
                lemma_prescanned_bound(c0, c2, lb + expr_builtins(*right));
            }
            prescan_stmt(body, ctx);
            proof {
                lemma_prescanned_trans(c0, c2, *ctx, lb + expr_builtins(*right), stmt_builtins(**body));
            }
        },
        Statement::Switch { discriminant, cases } => {
            prescan_expr(discriminant, ctx);
            let ghost c1 = *ctx;
            proof {
                lemma_prescanned_bound(c0, c1, expr_builtins(*discriminant));
            }
            prescan_cases(cases, ctx);
            proof {
                lemma_prescanned_trans(c0, c1, *ctx, expr_builtins(*discriminant), cases_builtins(cases@));
            }
        },
        Statement::Throw(x) => prescan_expr(x, ctx),
        Statement::Try { block, handler, finalizer } => {
            prescan_stmts(block, ctx);
            let ghost c1 = *ctx;
            proof {
                lemma_prescanned_bound(c0, c1, stmts_builtins(block@));
            }
            let ghost hb = handler_builtins(*handler);
            let ghost fb = match finalizer {
                Some(f) => stmts_builtins(f@),
                None => Seq::empty(),
            };
            if let Some(h) = handler {
                let ghost pb = opt_pattern_builtins(h.param);
                if let Some(p) = &h.param {
                    prescan_pattern(p, ctx);
                }
                let ghost c1b = *ctx;
                proof {
                    lemma_prescanned_bound(c1, c1b, pb);
                }
                prescan_stmts(&h.body, ctx);
                proof {
                    lemma_prescanned_trans(c1, c1b, *ctx, pb, stmts_builtins(h.body@));
                }
            }
            let ghost c2 = *ctx;
            proof {
                lemma_prescanned_trans(c0, c1, c2, stmts_builtins(block@), hb);
                lemma_prescanned_bound(c0, c2, stmts_builtins(block@) + hb);
            }
            if let Some(f) = finalizer {
                prescan_stmts(f, ctx);
            }
            proof {
                lemma_prescanned_trans(c0, c2, *ctx, stmts_builtins(block@) + hb, fb);
            }
        },
        Statement::Block(body) => prescan_stmts(body, ctx),
        Statement::Labeled { body, .. } => prescan_stmt(body, ctx),
        Statement::With { object, body } => {
            prescan_expr(object, ctx);
            let ghost c1 = *ctx;
            proof {
                lemma_prescanned_bound(c0, c1, expr_builtins(*object));
            }
            prescan_stmt(body, ctx);
            proof {
                lemma_prescanned_trans(c0, c1, *ctx, expr_builtins(*object), stmt_builtins(**body));
            }
        },
        Statement::Class(c) => {
            if let Some(x) = &c.super_class {
                prescan_expr(x, ctx);
            }
        },
        Statement::ExportNamed(exp) => {
            if let Some(Declaration::Variable(vd)) = &exp.declaration {
                prescan_declarators(&vd.declarations, true, ctx);
            }
        },
        Statement::ExportDefault(kind) => {
            if let ExportDefaultKind::Expression(x) = kind {
                prescan_expr(x, ctx);
            }
        },
        _ => {},
    }
}

/// Walks a program or function body and gives every builtin global it
/// references a fixed register slot, in order of first reference.
pub fn pre_register_builtin_references(stmts: &Vec<Statement>, ctx: &mut CompileCtx)
    requires
        old(ctx).next_reg + stmts_builtins(stmts@).len() < u32::MAX,
    ensures
        prescanned(*old(ctx), *final(ctx), stmts_builtins(stmts@)),
{
    prescan_stmts(stmts, ctx);
}

} // verus!
