use oxide_emit::assign::{compound_operation, logical_operator};
use oxide_emit::ast::{AssignmentOperator, LogicalOperator};
use oxide_emit::ctx::CompileCtx;
use oxide_emit::emitter::Emitter;
use oxide_emit::inst::{Inst, OpCode, Operand};

#[test]
fn operator_kinds() {
    assert_eq!(compound_operation(AssignmentOperator::Exponential), Some(OpCode::Exp));
    assert_eq!(compound_operation(AssignmentOperator::ShiftRightZeroFill), Some(OpCode::Ushr));
    assert_eq!(compound_operation(AssignmentOperator::Assign), None);
    assert_eq!(logical_operator(AssignmentOperator::LogicalNullish), Some(LogicalOperator::Coalesce));
    assert_eq!(logical_operator(AssignmentOperator::Addition), None);
}

#[test]
fn member_stores() {
    let e = Emitter::new();
    let mut ctx = CompileCtx::new();
    assert_eq!(e.emit_static_member_store(AssignmentOperator::Assign, 5, 6, "p", &mut ctx), 6);
    assert_eq!(e.emit_static_member_store(AssignmentOperator::Subtraction, 5, 7, "p", &mut ctx), 7);
    assert_eq!(
        ctx.insts,
        vec![
            Inst::LoadConst { dst: Operand::Reg(1), idx: 0 },
            Inst::IcSet { obj: Operand::Reg(5), value: Operand::Reg(6), key: Operand::Reg(1) },
            Inst::LoadConst { dst: Operand::Reg(2), idx: 0 },
            Inst::CompoundMember { op: OpCode::Sub, obj: Operand::Reg(5), value: Operand::Reg(7), key: Operand::Reg(2) },
        ]
    );
}

#[test]
fn logical_member_assignment() {
    let e = Emitter::new();
    let mut ctx = CompileCtx::new();
    let store = ctx.labels.next_label_id();
    let end = ctx.labels.next_label_id();
    let (result, key) = e.begin_member_logical_assign(LogicalOperator::Coalesce, 9, "p", store, end, &mut ctx);
    assert_eq!((result, key), (2, 1));
    e.end_member_logical_assign(9, key, result, 4, end, &mut ctx);
    assert_eq!(
        ctx.insts,
        vec![
            Inst::LoadConst { dst: Operand::Reg(1), idx: 0 },
            Inst::Op { op: OpCode::LoadVar, a: Operand::Reg(2), b: Operand::Reg(9), c: Operand::Unused },
            Inst::IcGet { obj: Operand::Reg(2), key: Operand::Reg(1) },
            Inst::JmpIfNullish { cond: Operand::Reg(2), label: 0 },
            Inst::Jmp { label: 1 },
            Inst::IcSet { obj: Operand::Reg(9), value: Operand::Reg(4), key: Operand::Reg(1) },
            Inst::Op { op: OpCode::LoadVar, a: Operand::Reg(2), b: Operand::Reg(4), c: Operand::Unused },
        ]
    );
    assert_eq!(ctx.labels.label_pos, vec![Some(5), Some(7)]);

    let mut and = CompileCtx::new();
    e.emit_logical_assign_test(LogicalOperator::And, 3, 0, 1, &mut and);
    assert_eq!(and.insts, vec![Inst::JmpIfFalse { cond: Operand::Reg(3), label: 1 }]);
}

#[test]
fn keyed_compound_reads_before_the_right_side() {
    let e = Emitter::new();
    let mut ctx = CompileCtx::new();
    let (v, k) = e.begin_keyed_compound(8, "k", &mut ctx);
    assert_eq!((v, k), (2, 1));
    assert_eq!(e.end_keyed_compound(AssignmentOperator::Exponential, 8, k, v, 5, &mut ctx), 2);
    assert_eq!(e.end_keyed_compound(AssignmentOperator::Addition, 8, k, v, 5, &mut ctx), 2);
    assert_eq!(
        ctx.insts[1..].to_vec(),
        vec![
            Inst::Op { op: OpCode::LoadVar, a: Operand::Reg(2), b: Operand::Reg(8), c: Operand::Unused },
            Inst::IcGet { obj: Operand::Reg(2), key: Operand::Reg(1) },
            Inst::Op { op: OpCode::CompoundExp, a: Operand::Reg(2), b: Operand::Reg(5), c: Operand::Unused },
            Inst::IcSet { obj: Operand::Reg(8), value: Operand::Reg(2), key: Operand::Reg(1) },
            Inst::Op { op: OpCode::Add, a: Operand::Reg(2), b: Operand::Reg(2), c: Operand::Reg(5) },
            Inst::IcSet { obj: Operand::Reg(8), value: Operand::Reg(2), key: Operand::Reg(1) },
        ]
    );
}
