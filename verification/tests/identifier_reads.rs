use oxide_emit::ctx::{CompileCtx, Constant, ScopeLookup};
use oxide_emit::emitter::Emitter;
use oxide_emit::inst::{Inst, OpCode, Operand};
use oxide_emit::read::{ReadSite, WithFallback};

fn op(op: OpCode, a: Operand, b: Operand, c: Operand) -> Inst {
    Inst::Op { op, a, b, c }
}

#[test]
fn upvalue_and_cell_reads() {
    let e = Emitter::new();
    let mut ctx = CompileCtx::new();
    assert_eq!(e.emit_static_identifier_read("x", ReadSite::Upvalue { index: 2 }, &mut ctx), Ok(1));
    assert_eq!(e.emit_static_identifier_read("y", ReadSite::Cell { cell: 5, binding: 9 }, &mut ctx), Ok(2));
    assert_eq!(
        ctx.insts,
        vec![
            op(OpCode::LoadUpvalue, Operand::Reg(1), Operand::Imm(2), Operand::Unused),
            op(OpCode::CellGet, Operand::Reg(2), Operand::Reg(9), Operand::Imm(5)),
        ]
    );
}

#[test]
fn bound_read_uses_the_register() {
    let e = Emitter::new();
    let mut ctx = CompileCtx::new();
    let site = ReadSite::Scope { lookup: ScopeLookup::Bound(7), global_tier: false };
    assert_eq!(e.emit_static_identifier_read("v", site, &mut ctx), Ok(1));
    assert_eq!(ctx.insts, vec![op(OpCode::LoadVar, Operand::Reg(1), Operand::Reg(7), Operand::Unused)]);
}

#[test]
fn top_level_var_and_undeclared_reads_go_through_the_global_object() {
    let e = Emitter::new();
    let mut ctx = CompileCtx::new();
    let site = ReadSite::Scope { lookup: ScopeLookup::Bound(7), global_tier: true };
    assert_eq!(e.emit_static_identifier_read("v", site, &mut ctx), Ok(1));
    assert_eq!(ctx.insts, vec![op(OpCode::LoadGlobal, Operand::Reg(1), Operand::Const(0), Operand::Unused)]);

    let mut ctx = CompileCtx::new();
    let site = ReadSite::Scope { lookup: ScopeLookup::Undeclared, global_tier: false };
    assert_eq!(e.emit_static_identifier_read("nope", site, &mut ctx), Ok(2));
    assert_eq!(ctx.implicit_global_reads, vec![1]);
    assert_eq!(ctx.insts, vec![op(OpCode::LoadGlobal, Operand::Reg(2), Operand::Const(0), Operand::Unused)]);

    let mut ctx = CompileCtx::new();
    let site = ReadSite::Scope { lookup: ScopeLookup::Undeclared, global_tier: false };
    assert_eq!(e.emit_static_identifier_read("Math", site, &mut ctx), Ok(2));
    assert_eq!(ctx.insts, vec![op(OpCode::LoadVar, Operand::Reg(2), Operand::Reg(1), Operand::Unused)]);
}

#[test]
fn uninitialized_read_throws_and_failed_lookup_errs() {
    let e = Emitter::new();
    let mut ctx = CompileCtx::new();
    let msg = "Cannot access 'z' before initialization".to_string();
    let site = ReadSite::Scope { lookup: ScopeLookup::Uninitialized(msg.clone()), global_tier: false };
    assert!(e.emit_static_identifier_read("z", site, &mut ctx).is_ok());
    assert!(ctx.constants.iter().any(|c| matches!(c, Constant::String(s) if *s == msg)));
    assert!(ctx.insts.iter().any(|i| matches!(i, Inst::Op { op: OpCode::Throw, .. })));

    let mut ctx = CompileCtx::new();
    let site = ReadSite::Scope { lookup: ScopeLookup::Failed("bad".to_string()), global_tier: false };
    assert_eq!(e.emit_static_identifier_read("z", site, &mut ctx), Err("bad".to_string()));
    assert!(ctx.insts.is_empty());
}

#[test]
fn live_import_reads_the_namespace() {
    let e = Emitter::new();
    let mut ctx = CompileCtx::new();
    let r = e.emit_static_identifier_read("x", ReadSite::LiveImport { dep_ns: 5, exported: "y".to_string() }, &mut ctx).unwrap();
    assert!(matches!(ctx.insts.last(), Some(Inst::Op { op: OpCode::LoadVar, a: Operand::Reg(rr), .. }) if *rr == r));
    assert!(ctx.insts.iter().any(|i| matches!(i, Inst::CallNative { argc: 2, .. })));
    assert!(ctx.builtin_slot("__moduleGet").is_some());
}

#[test]
fn with_read_tests_the_object_then_falls_back() {
    let e = Emitter::new();
    let mut ctx = CompileCtx::new();
    let r = e.emit_with_dynamic_read("p", 9, WithFallback::Register { reg: 6 }, &mut ctx);
    assert_eq!(r, 3);
    assert_eq!(
        ctx.insts,
        vec![
            Inst::LoadConst { dst: Operand::Reg(1), idx: 0 },
            op(OpCode::In, Operand::Reg(2), Operand::Reg(1), Operand::Reg(9)),
            Inst::JmpIfFalse { cond: Operand::Reg(2), label: 0 },
            op(OpCode::GetPropDynamic, Operand::Reg(9), Operand::Reg(1), Operand::Reg(3)),
            Inst::Jmp { label: 1 },
            op(OpCode::LoadVar, Operand::Reg(3), Operand::Reg(6), Operand::Unused),
        ]
    );
    assert_eq!(ctx.labels.label_pos, vec![Some(5), Some(6)]);

    let mut ctx = CompileCtx::new();
    let _ = e.emit_with_dynamic_read("q", 9, WithFallback::Undefined, &mut ctx);
    assert!(matches!(ctx.constants[1], Constant::Undefined));
    let mut ctx = CompileCtx::new();
    let _ = e.emit_with_dynamic_read("q", 9, WithFallback::GlobalTier, &mut ctx);
    assert_eq!(ctx.constants.len(), 1);
    assert_eq!(ctx.insts[5], op(OpCode::LoadGlobal, Operand::Reg(3), Operand::Const(0), Operand::Unused));
}
