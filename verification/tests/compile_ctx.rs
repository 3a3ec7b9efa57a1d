use oxide_emit::ast::{
    BinaryOperator,
    Argument, Class, Expression, FormalParameters, Function, Statement, VariableDeclaration, VariableDeclarationKind,
    VariableDeclarator, BindingPattern,
};
use oxide_emit::ctx::{CompileCtx, Constant, ScopeLookup};
use oxide_emit::labels::{new_label_ctx, LoopKind};
use oxide_emit::prescan::pre_register_builtin_references;

fn ident(n: &str) -> Expression {
    Expression::Identifier(n.to_string())
}

#[test]
fn loop_kinds() {
    assert!(LoopKind::ForOf.is_for_of());
    assert!(!LoopKind::ForAwaitOf.is_for_of());
    assert!(!LoopKind::Plain.is_for_of());
    assert!(LoopKind::ForIn.is_for_in());
    assert!(!LoopKind::ForOf.is_for_in());
}

#[test]
fn registers_allocate_from_one_and_track_the_high_water_mark() {
    let mut ctx = CompileCtx::new();
    assert_eq!(ctx.alloc_reg(), 1);
    assert_eq!(ctx.alloc_reg(), 2);
    assert_eq!(ctx.next_reg, 3);
    assert_eq!(ctx.max_regs, 3);
    ctx.reserve_reg(10);
    assert_eq!(ctx.next_reg, 11);
    assert_eq!(ctx.max_regs, 11);
    ctx.reserve_reg(4);
    assert_eq!(ctx.next_reg, 11);
    ctx.reset_regs();
    assert_eq!(ctx.next_reg, 1);
    assert_eq!(ctx.max_regs, 11);
    ctx.reserve_reg(u32::MAX);
    assert_eq!(ctx.next_reg, 0);
}

#[test]
fn reset_regs_starts_above_builtin_slots() {
    let mut ctx = CompileCtx::new();
    let r = ctx.lookup_or_builtin("Math", ScopeLookup::Undeclared);
    assert_eq!(r, Ok(1));
    let _ = ctx.alloc_reg();
    let _ = ctx.alloc_reg();
    ctx.reset_regs();
    assert_eq!(ctx.builtin_reg_floor(), 2);
    assert_eq!(ctx.next_reg, 2);
}

#[test]
fn constants_are_pooled_once() {
    let mut ctx = CompileCtx::new();
    assert_eq!(ctx.add_constant(Constant::String("a".to_string())), 0);
    assert_eq!(ctx.add_constant(Constant::Int(1)), 1);
    assert_eq!(ctx.add_constant(Constant::String("a".to_string())), 0);
    assert_eq!(ctx.add_constant(Constant::Undefined), 2);
    assert_eq!(ctx.add_constant(Constant::Number(0)), 3);
    assert_eq!(ctx.add_constant(Constant::Number(1u64 << 63)), 4);
    assert_eq!(ctx.add_constant(Constant::BigInt("1".to_string())), 5);
    assert_eq!(ctx.add_constant(Constant::String("1".to_string())), 6);
    assert_eq!(ctx.add_constant(Constant::Int(1)), 1);
    assert_eq!(ctx.constants.len(), 7);
    assert!(!ctx.const_overflow);
}

#[test]
fn constant_pool_overflow_is_flagged() {
    let mut ctx = CompileCtx::new();
    for i in 0..65534i32 {
        ctx.constants.push(Constant::Int(i));
    }
    assert_eq!(ctx.add_constant(Constant::Int(65534)), 65534);
    assert!(!ctx.const_overflow);
    assert_eq!(ctx.add_constant(Constant::Int(7)), 7);
    assert_eq!(ctx.add_constant(Constant::Int(70000)), u16::MAX);
    assert!(ctx.const_overflow);
    assert_eq!(ctx.constants.len(), 65535);
}

#[test]
fn try_handler_stack_counts_top_catches() {
    let mut ctx = CompileCtx::new();
    assert_eq!(ctx.top_open_catch_handlers(), 0);
    ctx.push_open_catch_handler();
    ctx.push_open_finally_handler();
    ctx.push_open_catch_handler();
    ctx.push_open_catch_handler();
    assert_eq!(ctx.top_open_catch_handlers(), 2);
    ctx.pop_open_try_handler();
    ctx.pop_open_try_handler();
    assert_eq!(ctx.top_open_catch_handlers(), 0);
    ctx.pop_open_try_handler();
    assert_eq!(ctx.top_open_catch_handlers(), 1);
}

#[test]
fn loops_snapshot_depths_and_pop_restores_them() {
    let mut l = new_label_ctx();
    l.push_finally_domain();
    l.push_loop(1, 2, LoopKind::ForOf);
    let e = *l.current_loop().unwrap();
    assert_eq!(e.for_of_depth_at_open, 1);
    assert_eq!(e.finally_depth_at_open, 1);
    l.push_loop(3, 4, LoopKind::ForIn);
    assert_eq!(l.for_in_depth, 1);
    assert_eq!(l.current_loop().unwrap().for_of_depth_at_open, 1);
    l.pop_loop();
    assert_eq!(l.for_in_depth, 0);
    l.pop_loop();
    assert_eq!(l.for_of_depth, 0);
    assert!(l.current_loop().is_none());
    l.pop_finally_domain();
    assert_eq!(l.finally_depth, 0);
}

#[test]
fn switches_snapshot_depths() {
    let mut l = new_label_ctx();
    l.push_loop(1, 2, LoopKind::ForOf);
    l.push_switch(9);
    let s = *l.current_switch().unwrap();
    assert_eq!(s.break_label, 9);
    assert_eq!(s.for_of_depth_at_open, 1);
    l.pop_switch();
    assert!(l.current_switch().is_none());
}

#[test]
fn duplicate_labels_are_syntax_errors() {
    let mut l = new_label_ctx();
    assert_eq!(l.push_label_scope("outer", 1, None), Ok(()));
    assert_eq!(
        l.push_label_scope("outer", 2, None),
        Err("SyntaxError: Label 'outer' has already been declared".to_string())
    );
    assert_eq!(l.queue_loop_label("next"), Ok(()));
    assert_eq!(
        l.queue_loop_label("next"),
        Err("SyntaxError: Label 'next' has already been declared".to_string())
    );
    assert_eq!(
        l.queue_loop_label("outer"),
        Err("SyntaxError: Label 'outer' has already been declared".to_string())
    );
    let n = l.take_pending_loop_labels(5, 6);
    assert_eq!(n, 1);
    assert!(l.pending_loop_labels.is_empty());
    let found = l.find_label("next").unwrap();
    assert_eq!(found.break_label, 5);
    assert_eq!(found.continue_label, Some(6));
    assert!(l.find_label("missing").is_none());
    l.pop_label_scopes(2);
    assert!(l.label_scopes.is_empty());
}

#[test]
fn label_positions_grow_with_undefined_entries() {
    let mut l = new_label_ctx();
    assert_eq!(l.next_label_id(), 0);
    assert_eq!(l.next_label_id(), 1);
    l.set_label_pos(3, 17);
    assert_eq!(l.label_pos, vec![None, None, None, Some(17)]);
    l.set_label_pos(1, 4);
    assert_eq!(l.label_pos, vec![None, Some(4), None, Some(17)]);
}

#[test]
fn builtin_slots_registered_in_first_reference_order() {
    let mut ctx = CompileCtx::new();
    let stmts = vec![
        Statement::Expression(Expression::Call {
            callee: Box::new(ident("parseInt")),
            arguments: vec![Argument::Expression(ident("x")), Argument::Spread(ident("Math"))],
        }),
        Statement::Variable(VariableDeclaration {
            kind: VariableDeclarationKind::Let,
            declarations: vec![VariableDeclarator {
                id: BindingPattern::Identifier("y".to_string()),
                init: Some(Expression::Binary { operator: BinaryOperator::Addition, left: Box::new(ident("Math")), right: Box::new(ident("JSON")) }),
            }],
        }),
        Statement::Function(Function {
            id: Some("f".to_string()),
            params: FormalParameters { items: vec![], rest: None },
            body: Some(vec![Statement::Expression(ident("Array"))]),
            is_generator: false,
            is_async: false,
        }),
        Statement::Class(Class { id: Some("C".to_string()), super_class: Some(Box::new(ident("Error"))), body: vec![] }),
    ];
    pre_register_builtin_references(&stmts, &mut ctx);
    let names: Vec<&str> = ctx.builtin_reg_map.iter().map(|(n, _)| n.as_str()).collect();
    assert_eq!(names, vec!["parseInt", "Math", "JSON", "Error"]);
    let regs: Vec<u32> = ctx.builtin_reg_map.iter().map(|(_, r)| *r).collect();
    assert_eq!(regs, vec![1, 2, 3, 4]);
    assert_eq!(ctx.next_reg, 5);
    assert!(ctx.implicit_global_reads.is_empty());
    assert_eq!(ctx.builtin_slot("JSON"), Some(3));
    assert!(ctx.is_builtin("Math"));
    assert!(!ctx.is_builtin("Array"));
}

#[test]
fn undeclared_lookups_are_recorded_as_implicit_reads() {
    let mut ctx = CompileCtx::new();
    let r = ctx.lookup_or_builtin("someGlobal", ScopeLookup::Undeclared).unwrap();
    assert_eq!(ctx.implicit_global_reads, vec![r]);
    assert!(ctx.is_implicit_global_reg(r));
    assert!(!ctx.is_implicit_global_reg(r + 1));
    assert_eq!(ctx.lookup_or_builtin("someGlobal", ScopeLookup::Undeclared), Ok(r));
    assert_eq!(ctx.builtin_reg_map.len(), 1);
    let m = ctx.global_slot("Math");
    assert!(!ctx.implicit_global_reads.contains(&m));
    assert_eq!(ctx.global_builtin_delete_slot("Math"), Some(m));
    assert_eq!(ctx.global_builtin_delete_slot("NaN"), None);
}

#[test]
fn bound_and_failed_lookups_register_nothing() {
    let mut ctx = CompileCtx::new();
    assert_eq!(ctx.lookup_or_builtin("x", ScopeLookup::Bound(7)), Ok(7));
    let msg = "Cannot access 'x' before initialization".to_string();
    assert_eq!(ctx.lookup_or_builtin("x", ScopeLookup::Failed(msg.clone())), Err(msg));
    assert!(ctx.builtin_reg_map.is_empty());
    assert_eq!(ctx.next_reg, 1);
}

#[test]
fn private_name_ids_start_at_one() {
    assert_eq!(CompileCtx::new().next_private_name_id, 1);
}
