use oxide_emit::ast::{Expression, StringLiteral};
use oxide_emit::ctx::{CompileCtx, Constant};
use oxide_emit::delete::{DeleteTarget, NameScope};
use oxide_emit::emitter::Emitter;
use oxide_emit::inst::{Inst, OpCode, Operand};
use oxide_emit::update::{GlobalStore, UpdateBinding, UpdateSite};

fn site(binding: UpdateBinding) -> UpdateSite {
    UpdateSite { binding, uninitialized: false, constant: false }
}

fn has_string(ctx: &CompileCtx, text: &str) -> bool {
    ctx.constants.iter().any(|c| matches!(c, Constant::String(s) if s == text))
}

fn op(op: OpCode, a: Operand, b: Operand, c: Operand) -> Inst {
    Inst::Op { op, a, b, c }
}

#[test]
fn upvalue_postfix_increment_returns_old_value() {
    let e = Emitter::new();
    let mut ctx = CompileCtx::new();
    let r = e.emit_identifier_update_static("x", site(UpdateBinding::Upvalue { index: 3, is_const: false }), true, false, &mut ctx);
    assert_eq!(r, 1);
    assert_eq!(ctx.constants.len(), 1);
    assert!(matches!(ctx.constants[0], Constant::Int(1)));
    assert_eq!(
        ctx.insts,
        vec![
            op(OpCode::LoadUpvalue, Operand::Reg(1), Operand::Imm(3), Operand::Unused),
            Inst::LoadConst { dst: Operand::Reg(2), idx: 0 },
            op(OpCode::Add, Operand::Reg(3), Operand::Reg(1), Operand::Reg(2)),
            op(OpCode::StoreUpvalue, Operand::Imm(0), Operand::Reg(3), Operand::Imm(3)),
        ]
    );
}

#[test]
fn cell_prefix_decrement_returns_new_value() {
    let e = Emitter::new();
    let mut ctx = CompileCtx::new();
    let r = e.emit_identifier_update_static("c", site(UpdateBinding::Cell { cell: 2, binding: Some(9) }), false, true, &mut ctx);
    assert_eq!(r, 3);
    assert_eq!(
        ctx.insts,
        vec![
            op(OpCode::CellGet, Operand::Reg(1), Operand::Reg(9), Operand::Imm(2)),
            Inst::LoadConst { dst: Operand::Reg(2), idx: 0 },
            op(OpCode::Sub, Operand::Reg(3), Operand::Reg(1), Operand::Reg(2)),
            op(OpCode::CellSet, Operand::Unused, Operand::Reg(3), Operand::Imm(2)),
        ]
    );
}

#[test]
fn register_update_in_place() {
    let e = Emitter::new();
    let mut ctx = CompileCtx::new();
    let r = e.emit_identifier_update_static(
        "i",
        site(UpdateBinding::Register { reg: 7, global: GlobalStore::Local }),
        true,
        true,
        &mut ctx,
    );
    assert_eq!(r, 1);
    assert_eq!(ctx.insts, vec![op(OpCode::IncPre, Operand::Reg(7), Operand::Reg(1), Operand::Reg(1))]);
}

#[test]
fn implicit_global_update_reads_and_writes_the_global_object() {
    let e = Emitter::new();
    let mut ctx = CompileCtx::new();
    let r = e.emit_identifier_update_static(
        "g",
        site(UpdateBinding::Register { reg: 5, global: GlobalStore::Implicit }),
        false,
        false,
        &mut ctx,
    );
    assert_eq!(r, 1);
    assert_eq!(ctx.constants.len(), 1);
    assert!(has_string(&ctx, "g"));
    assert_eq!(
        ctx.insts,
        vec![
            op(OpCode::LoadGlobalTypeof, Operand::Reg(5), Operand::Const(0), Operand::Unused),
            op(OpCode::DecPost, Operand::Reg(5), Operand::Reg(1), Operand::Reg(1)),
            Inst::DefineGlobalPropC { value: Operand::Reg(5), idx: 0 },
        ]
    );
}

#[test]
fn strict_implicit_update_throws_reference_error() {
    let e = Emitter::new();
    let mut ctx = CompileCtx::new();
    ctx.is_strict = true;
    let _ = e.emit_identifier_update_static(
        "g",
        site(UpdateBinding::Register { reg: 5, global: GlobalStore::Implicit }),
        true,
        false,
        &mut ctx,
    );
    assert!(has_string(&ctx, "g is not defined"));
    assert!(ctx.insts.iter().any(|i| matches!(i, Inst::Op { op: OpCode::Throw, .. })));
    assert!(!ctx.insts.iter().any(|i| matches!(i, Inst::Op { op: OpCode::IncPost, .. })));
}

#[test]
fn readonly_global_update_skips_the_write() {
    let e = Emitter::new();
    let mut ctx = CompileCtx::new();
    let r = e.emit_identifier_update_static("NaN", site(UpdateBinding::ReadOnlyGlobal { reg: 4 }), true, false, &mut ctx);
    assert_eq!(r, 2);
    assert_eq!(
        ctx.insts,
        vec![
            op(OpCode::LoadVar, Operand::Reg(1), Operand::Reg(4), Operand::Unused),
            op(OpCode::IncPost, Operand::Reg(1), Operand::Reg(2), Operand::Reg(2)),
        ]
    );
    let mut strict = CompileCtx::new();
    strict.is_strict = true;
    let _ = e.emit_identifier_update_static("NaN", site(UpdateBinding::ReadOnlyGlobal { reg: 4 }), true, false, &mut strict);
    assert!(has_string(&strict, "cannot assign to read-only property"));
}

#[test]
fn constant_update_throws_type_error_first() {
    let e = Emitter::new();
    let mut ctx = CompileCtx::new();
    let s = UpdateSite { binding: UpdateBinding::Register { reg: 7, global: GlobalStore::Local }, uninitialized: true, constant: true };
    let _ = e.emit_identifier_update_static("k", s, true, true, &mut ctx);
    assert!(has_string(&ctx, "Cannot access 'k' before initialization"));
    assert!(has_string(&ctx, "Assignment to constant variable"));
    assert!(matches!(ctx.insts.last(), Some(Inst::Op { op: OpCode::IncPre, .. })));
}

#[test]
fn delete_of_a_value_loads_true_after_its_code() {
    let e = Emitter::new();
    let mut ctx = CompileCtx::new();
    let before = e.emit_undefined(&mut ctx);
    let r = e.emit_delete_operand(&DeleteTarget::Evaluated { value_reg: before }, &mut ctx).unwrap();
    assert_eq!((before, r), (1, 2));
    assert_eq!(ctx.constants.len(), 2);
    assert!(matches!(ctx.constants[1], Constant::Boolean(true)));
    assert_eq!(ctx.insts.last(), Some(&Inst::LoadConst { dst: Operand::Reg(2), idx: 1 }));
}

#[test]
fn delete_of_names_by_binding() {
    let e = Emitter::new();
    let mut ctx = CompileCtx::new();
    let r = e.emit_delete_operand(&DeleteTarget::Name { name: "x".to_string(), scope: NameScope::Local }, &mut ctx).unwrap();
    assert_eq!(ctx.constants.len(), 1);
    assert!(matches!(ctx.constants[0], Constant::Boolean(false)));
    assert_eq!(ctx.insts, vec![Inst::LoadConst { dst: Operand::Reg(r), idx: 0 }]);

    let mut ctx = CompileCtx::new();
    let r = e.emit_delete_operand(&DeleteTarget::Name { name: "u".to_string(), scope: NameScope::Undeclared }, &mut ctx).unwrap();
    assert_eq!(ctx.insts, vec![Inst::DeleteGlobalPropC { dst: Operand::Reg(r), slot: Operand::Unused, idx: 0 }]);

    let mut ctx = CompileCtx::new();
    let g = ctx.alloc_reg();
    ctx.implicit_global_writes.push(g);
    let _ = e.emit_delete_operand(&DeleteTarget::Name { name: "w".to_string(), scope: NameScope::Global { reg: g } }, &mut ctx);
    assert_eq!(ctx.implicit_global_reads, vec![g]);

    let mut ctx = CompileCtx::new();
    let _ = e.emit_delete_operand(&DeleteTarget::Name { name: "v".to_string(), scope: NameScope::Global { reg: 3 } }, &mut ctx);
    assert_eq!(ctx.constants.len(), 1);
    assert!(matches!(ctx.constants[0], Constant::Boolean(false)));
    ctx.is_eval_script = true;
    let _ = e.emit_delete_operand(&DeleteTarget::Name { name: "v".to_string(), scope: NameScope::Global { reg: 3 } }, &mut ctx);
    assert!(matches!(ctx.insts.last(), Some(Inst::DeleteGlobalPropC { slot: Operand::Unused, .. })));
}

#[test]
fn delete_of_a_deletable_builtin_clears_its_slot() {
    let e = Emitter::new();
    let mut ctx = CompileCtx::new();
    let slot = ctx.global_slot("Math");
    let r = e.emit_delete_operand(&DeleteTarget::Name { name: "Math".to_string(), scope: NameScope::Global { reg: slot } }, &mut ctx).unwrap();
    assert_eq!(ctx.insts, vec![Inst::DeleteGlobalPropC { dst: Operand::Reg(r), slot: Operand::Reg(slot), idx: 0 }]);
}

#[test]
fn delete_of_members() {
    let e = Emitter::new();
    let mut ctx = CompileCtx::new();
    let r = e.emit_delete_operand(&DeleteTarget::StaticMember { obj_reg: 4, property: "p".to_string() }, &mut ctx).unwrap();
    assert_eq!(r, 4);
    assert_eq!(ctx.insts, vec![Inst::DeletePropStatic { obj: Operand::Reg(4), idx: 0 }]);
    let r = e.emit_delete_operand(&DeleteTarget::ComputedMember { obj_reg: 4, key_reg: 6 }, &mut ctx).unwrap();
    assert_eq!(r, 4);
    assert_eq!(ctx.insts[1], op(OpCode::DeletePropDynamic, Operand::Reg(4), Operand::Reg(4), Operand::Reg(6)));
}

#[test]
fn delete_inside_with_tests_the_object_first() {
    let e = Emitter::new();
    let mut ctx = CompileCtx::new();
    let r = e.emit_delete_operand(&DeleteTarget::WithName { name: "p".to_string(), obj_reg: 9 }, &mut ctx).unwrap();
    assert_eq!(r, 4);
    assert_eq!(
        ctx.insts,
        vec![
            Inst::LoadConst { dst: Operand::Reg(1), idx: 0 },
            op(OpCode::In, Operand::Reg(2), Operand::Reg(1), Operand::Reg(9)),
            Inst::JmpIfFalse { cond: Operand::Reg(2), label: 0 },
            op(OpCode::LoadVar, Operand::Reg(3), Operand::Reg(9), Operand::Unused),
            op(OpCode::DeletePropDynamic, Operand::Reg(3), Operand::Reg(3), Operand::Reg(1)),
            op(OpCode::LoadVar, Operand::Reg(4), Operand::Reg(3), Operand::Unused),
            Inst::Jmp { label: 1 },
            Inst::LoadConst { dst: Operand::Reg(4), idx: 1 },
        ]
    );
    assert_eq!(ctx.labels.label_pos, vec![Some(7), Some(8)]);
    assert_eq!(ctx.labels.label_counter, 2);
}

#[test]
fn delete_of_a_literal_evaluates_it_first() {
    let e = Emitter::new();
    let mut ctx = CompileCtx::new();
    let lit = Expression::StringLiteral(StringLiteral { value: "s".to_string(), lone_surrogates: false });
    let r = e.emit_delete_operand(&DeleteTarget::Literal(lit), &mut ctx).unwrap();
    assert_eq!(r, 2);
    assert!(has_string(&ctx, "s"));
    assert!(matches!(ctx.constants[1], Constant::Boolean(true)));
    assert_eq!(
        ctx.insts,
        vec![Inst::LoadConst { dst: Operand::Reg(1), idx: 0 }, Inst::LoadConst { dst: Operand::Reg(2), idx: 1 }]
    );
    let mut bad = CompileCtx::new();
    let big = Expression::BigIntLiteral("12x".to_string());
    assert!(e.emit_delete_operand(&DeleteTarget::Literal(big), &mut bad).is_err());
    assert!(bad.insts.is_empty());
}
