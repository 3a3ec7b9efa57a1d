//! The parts of an assignment that follow the evaluation of its operands:
//! the operator's instruction, the store to a named property, and the
//! short-circuit test of a logical assignment.
use vstd::prelude::*;
use crate::ast::{AssignmentOperator, BinaryOperator, LogicalOperator};
use crate::ctx::{st_alloc, st_inst, CompileCtx, ConstKey, EmitState};
use crate::labels::{placed, LabelState};
use crate::emit_ops::{emitted, load_const_state};
use crate::emitter::Emitter;
use crate::inst::{Inst, OpCode, Operand};

verus! {

/// The short-circuit operator of a logical assignment (`||=`, `&&=`, `??=`).
pub open spec fn logical_of(op: AssignmentOperator) -> Option<LogicalOperator> {
    match op {
        AssignmentOperator::LogicalOr => Some(LogicalOperator::Or),
        AssignmentOperator::LogicalAnd => Some(LogicalOperator::And),
        AssignmentOperator::LogicalNullish => Some(LogicalOperator::Coalesce),
        _ => None,
    }
}

/// The binary operation of a compound assignment (`+=` and the like).
pub open spec fn compound_of(op: AssignmentOperator) -> Option<OpCode> {
    match op {
        AssignmentOperator::Addition => Some(OpCode::Add),
        AssignmentOperator::Subtraction => Some(OpCode::Sub),
        AssignmentOperator::Multiplication => Some(OpCode::Mul),
        AssignmentOperator::Division => Some(OpCode::Div),
        AssignmentOperator::Remainder => Some(OpCode::Mod),
        AssignmentOperator::Exponential => Some(OpCode::Exp),
        AssignmentOperator::BitwiseAnd => Some(OpCode::BitAnd),
        AssignmentOperator::BitwiseOR => Some(OpCode::BitOr),
        AssignmentOperator::BitwiseXOR => Some(OpCode::BitXor),
        AssignmentOperator::ShiftLeft => Some(OpCode::Shl),
        AssignmentOperator::ShiftRight => Some(OpCode::Shr),
        AssignmentOperator::ShiftRightZeroFill => Some(OpCode::Ushr),
        _ => None,
    }
}

/// The short-circuit operator of a logical assignment operator.
pub fn logical_operator(op: AssignmentOperator) -> (r: Option<LogicalOperator>)
    ensures
        r == logical_of(op),
{
    match op {
        AssignmentOperator::LogicalOr => Some(LogicalOperator::Or),
        AssignmentOperator::LogicalAnd => Some(LogicalOperator::And),
        AssignmentOperator::LogicalNullish => Some(LogicalOperator::Coalesce),
        _ => None,
    }
}

/// The operation of a binary operator.
pub open spec fn binary_op_code(op: BinaryOperator) -> OpCode {
    match op {
        BinaryOperator::Addition => OpCode::Add,
        BinaryOperator::Subtraction => OpCode::Sub,
        BinaryOperator::Multiplication => OpCode::Mul,
        BinaryOperator::Division => OpCode::Div,
        BinaryOperator::Remainder => OpCode::Mod,
        BinaryOperator::Exponential => OpCode::Exp,
        BinaryOperator::BitwiseAnd => OpCode::BitAnd,
        BinaryOperator::BitwiseOR => OpCode::BitOr,
        BinaryOperator::BitwiseXOR => OpCode::BitXor,
        BinaryOperator::ShiftLeft => OpCode::Shl,
        BinaryOperator::ShiftRight => OpCode::Shr,
        BinaryOperator::ShiftRightZeroFill => OpCode::Ushr,
        BinaryOperator::Equality => OpCode::Eq,
        BinaryOperator::Inequality => OpCode::Neq,
        BinaryOperator::LessThan => OpCode::Lt,
        BinaryOperator::GreaterThan => OpCode::Gt,
        BinaryOperator::LessEqualThan => OpCode::Lte,
        BinaryOperator::GreaterEqualThan => OpCode::Gte,
        BinaryOperator::In => OpCode::In,
        BinaryOperator::Instanceof => OpCode::Instanceof,
        BinaryOperator::StrictEquality => OpCode::StrictEq,
        BinaryOperator::StrictInequality => OpCode::StrictNeq,
    }
}

/// The operation a binary expression with operator `op` computes.
pub fn binary_opcode(op: BinaryOperator) -> (r: OpCode)
    ensures
        r == binary_op_code(op),
{
    match op {
        BinaryOperator::Addition => OpCode::Add,
        BinaryOperator::Subtraction => OpCode::Sub,
        BinaryOperator::Multiplication => OpCode::Mul,
        BinaryOperator::Division => OpCode::Div,
        BinaryOperator::Remainder => OpCode::Mod,
        BinaryOperator::Exponential => OpCode::Exp,
        BinaryOperator::BitwiseAnd => OpCode::BitAnd,
        BinaryOperator::BitwiseOR => OpCode::BitOr,
        BinaryOperator::BitwiseXOR => OpCode::BitXor,
        BinaryOperator::ShiftLeft => OpCode::Shl,
        BinaryOperator::ShiftRight => OpCode::Shr,
        BinaryOperator::ShiftRightZeroFill => OpCode::Ushr,
        BinaryOperator::Equality => OpCode::Eq,
        BinaryOperator::Inequality => OpCode::Neq,
        BinaryOperator::LessThan => OpCode::Lt,
        BinaryOperator::GreaterThan => OpCode::Gt,
        BinaryOperator::LessEqualThan => OpCode::Lte,
        BinaryOperator::GreaterEqualThan => OpCode::Gte,
        BinaryOperator::In => OpCode::In,
        BinaryOperator::Instanceof => OpCode::Instanceof,
        BinaryOperator::StrictEquality => OpCode::StrictEq,
        BinaryOperator::StrictInequality => OpCode::StrictNeq,
    }
}

/// The binary operator whose symbol a compound assignment operator carries
/// (`%=` carries `%`).
pub open spec fn assignment_symbol(op: AssignmentOperator) -> Option<BinaryOperator> {
    match op {
        AssignmentOperator::Addition => Some(BinaryOperator::Addition),
        AssignmentOperator::Subtraction => Some(BinaryOperator::Subtraction),
        AssignmentOperator::Multiplication => Some(BinaryOperator::Multiplication),
        AssignmentOperator::Division => Some(BinaryOperator::Division),
        AssignmentOperator::Remainder => Some(BinaryOperator::Remainder),
        AssignmentOperator::Exponential => Some(BinaryOperator::Exponential),
        AssignmentOperator::ShiftLeft => Some(BinaryOperator::ShiftLeft),
        AssignmentOperator::ShiftRight => Some(BinaryOperator::ShiftRight),
        AssignmentOperator::ShiftRightZeroFill => Some(BinaryOperator::ShiftRightZeroFill),
        AssignmentOperator::BitwiseOR => Some(BinaryOperator::BitwiseOR),
        AssignmentOperator::BitwiseXOR => Some(BinaryOperator::BitwiseXOR),
        AssignmentOperator::BitwiseAnd => Some(BinaryOperator::BitwiseAnd),
        _ => None,
    }
}

/// A compound assignment `x op= y` computes what the binary expression
/// `x op y` computes: its operation is the binary operator's of the same
/// symbol; a plain or logical assignment has none.
pub proof fn lemma_compound_is_binary(op: AssignmentOperator)
    ensures
        compound_of(op) == match assignment_symbol(op) {
            Some(b) => Some(binary_op_code(b)),
            None => None,
        },
        logical_of(op) is Some ==> compound_of(op) is None,
{
}

/// A logical assignment short-circuits with the logical operator of its own
/// symbol: `||=` with `||`, `&&=` with `&&`, `??=` with `??`; no other
/// assignment operator short-circuits.
pub proof fn lemma_logical_assignment(op: AssignmentOperator)
    ensures
        (logical_of(op) == Some(LogicalOperator::Or)) == (op == AssignmentOperator::LogicalOr),
        (logical_of(op) == Some(LogicalOperator::And)) == (op == AssignmentOperator::LogicalAnd),
        (logical_of(op) == Some(LogicalOperator::Coalesce)) == (op == AssignmentOperator::LogicalNullish),
{
}

/// The binary operation of a compound assignment operator.
pub fn compound_operation(op: AssignmentOperator) -> (r: Option<OpCode>)
    ensures
        r == compound_of(op),
{
    match op {
        AssignmentOperator::Addition => Some(OpCode::Add),
        AssignmentOperator::Subtraction => Some(OpCode::Sub),
        AssignmentOperator::Multiplication => Some(OpCode::Mul),
        AssignmentOperator::Division => Some(OpCode::Div),
        AssignmentOperator::Remainder => Some(OpCode::Mod),
        AssignmentOperator::Exponential => Some(OpCode::Exp),
        AssignmentOperator::BitwiseAnd => Some(OpCode::BitAnd),
        AssignmentOperator::BitwiseOR => Some(OpCode::BitOr),
        AssignmentOperator::BitwiseXOR => Some(OpCode::BitXor),
        AssignmentOperator::ShiftLeft => Some(OpCode::Shl),
        AssignmentOperator::ShiftRight => Some(OpCode::Shr),
        AssignmentOperator::ShiftRightZeroFill => Some(OpCode::Ushr),
        _ => None,
    }
}

/// `obj.property op= value` (or `obj.property = value`) with the object and
/// the value evaluated into `obj_reg` and `val_reg`: the property name is
/// loaded, then the store (or the in-place compound update) is emitted; the
/// expression's value is in `val_reg`.
pub open spec fn member_store_state(s: EmitState, op: AssignmentOperator, obj_reg: u32, val_reg: u32, property: Seq<char>) -> EmitState {
    let (s1, key) = load_const_state(s, ConstKey::String(property));
    st_inst(
        s1,
        match compound_of(op) {
            Some(c) => Inst::CompoundMember { op: c, obj: Operand::Reg(obj_reg), value: Operand::Reg(val_reg), key: Operand::Reg(key) },
            None => Inst::IcSet { obj: Operand::Reg(obj_reg), value: Operand::Reg(val_reg), key: Operand::Reg(key) },
        },
    )
}

/// The short-circuit test of a logical assignment on the value in
/// `test_reg`: `&&=` skips to `end_label` when it is falsy, `||=` when it is
/// truthy; `??=` goes to `store_label` when it is nullish and skips to
/// `end_label` otherwise.
pub open spec fn logical_test_insts(op: LogicalOperator, test_reg: u32, store_label: u32, end_label: u32) -> Seq<Inst> {
    match op {
        LogicalOperator::And => seq![Inst::JmpIfFalse { cond: Operand::Reg(test_reg), label: end_label }],
        LogicalOperator::Or => seq![Inst::JmpIfTrue { cond: Operand::Reg(test_reg), label: end_label }],
        LogicalOperator::Coalesce => seq![
            Inst::JmpIfNullish { cond: Operand::Reg(test_reg), label: store_label },
            Inst::Jmp { label: end_label },
        ],
    }
}

/// The start of a logical assignment to `obj.property` (object in
/// `obj_reg`): the name is loaded, the current value read into a fresh
/// result register, and the short-circuit test emitted; the store label is
/// placed after it. Gives the state, the result register and the key
/// register.
pub open spec fn member_logical_begin_state(
    s: EmitState,
    op: LogicalOperator,
    obj_reg: u32,
    property: Seq<char>,
    store_label: u32,
    end_label: u32,
) -> (EmitState, u32, u32) {
    let (s1, key) = load_const_state(s, ConstKey::String(property));
    let result = s1.next_reg as u32;
    let s2 = st_inst(st_alloc(s1), Inst::Op { op: OpCode::LoadVar, a: Operand::Reg(result), b: Operand::Reg(obj_reg), c: Operand::Unused });
    let s3 = st_inst(s2, Inst::IcGet { obj: Operand::Reg(result), key: Operand::Reg(key) });
    (EmitState { insts: s3.insts + logical_test_insts(op, result, store_label, end_label), ..s3 }, result, key)
}

/// The end of a logical assignment, the right side evaluated into
/// `val_reg`: the value is stored and becomes the result.
pub open spec fn member_logical_end_insts(obj_reg: u32, key_reg: u32, result_reg: u32, val_reg: u32) -> Seq<Inst> {
    seq![
        Inst::IcSet { obj: Operand::Reg(obj_reg), value: Operand::Reg(val_reg), key: Operand::Reg(key_reg) },
        Inst::Op { op: OpCode::LoadVar, a: Operand::Reg(result_reg), b: Operand::Reg(val_reg), c: Operand::Unused },
    ]
}

/// The start of `obj[key] op= value` for a constant string key (object in
/// `obj_reg`): the key is loaded and the current value read into a fresh
/// register, before the right side is evaluated (which may change the
/// property). Gives the state, the value register and the key register.
pub open spec fn keyed_compound_begin_state(s: EmitState, obj_reg: u32, key: Seq<char>) -> (EmitState, u32, u32) {
    let (s1, k) = load_const_state(s, ConstKey::String(key));
    let v = s1.next_reg as u32;
    let s2 = st_inst(st_alloc(s1), Inst::Op { op: OpCode::LoadVar, a: Operand::Reg(v), b: Operand::Reg(obj_reg), c: Operand::Unused });
    (st_inst(s2, Inst::IcGet { obj: Operand::Reg(v), key: Operand::Reg(k) }), v, k)
}

/// The end of a keyed compound assignment, the right side in `rhs`: the
/// operation updates the value register (`**` through its in-place form),
/// which is stored back.
pub open spec fn keyed_compound_end_insts(c: OpCode, obj_reg: u32, key_reg: u32, val_reg: u32, rhs: u32) -> Seq<Inst> {
    seq![
        if c == OpCode::Exp {
            Inst::Op { op: OpCode::CompoundExp, a: Operand::Reg(val_reg), b: Operand::Reg(rhs), c: Operand::Unused }
        } else {
            Inst::Op { op: c, a: Operand::Reg(val_reg), b: Operand::Reg(val_reg), c: Operand::Reg(rhs) }
        },
        Inst::IcSet { obj: Operand::Reg(obj_reg), value: Operand::Reg(val_reg), key: Operand::Reg(key_reg) },
    ]
}

impl Emitter {
    /// Starts `obj[key] op= value` for a constant string key: loads the key
    /// and reads the current value (see `keyed_compound_begin_state`).
    /// Returns the value and key registers.
    pub fn begin_keyed_compound(&self, obj_reg: u32, key: &str, ctx: &mut CompileCtx) -> (r: (u32, u32))
        requires
            old(ctx).wf(),
            old(ctx).next_reg + 2 < u32::MAX,
        ensures
            emitted(*old(ctx), *final(ctx)),
            ({
                let (s, v, k) = keyed_compound_begin_state(old(ctx).emit_state(), obj_reg, key@);
                final(ctx).emit_state() == s && r == (v, k)
            }),
    {
        let key_reg = self.load_string_const(key, ctx);
        let val_reg = ctx.alloc_reg();
        ctx.inst(Inst::Op { op: OpCode::LoadVar, a: Operand::Reg(val_reg), b: Operand::Reg(obj_reg), c: Operand::Unused });
        ctx.inst(Inst::IcGet { obj: Operand::Reg(val_reg), key: Operand::Reg(key_reg) });
        (val_reg, key_reg)
    }

    /// Completes a keyed compound assignment, the right side evaluated into
    /// `rhs`: applies the operation to the value register and stores it
    /// back; the value register holds the expression's value.
    pub fn end_keyed_compound(
        &self,
        op: AssignmentOperator,
        obj_reg: u32,
        key_reg: u32,
        val_reg: u32,
        rhs: u32,
        ctx: &mut CompileCtx,
    ) -> (r: u32)
        requires
            old(ctx).wf(),
            compound_of(op) is Some,
        ensures
            emitted(*old(ctx), *final(ctx)),
            r == val_reg,
            final(ctx).emit_state() == (EmitState {
                insts: old(ctx).insts@ + keyed_compound_end_insts(compound_of(op)->0, obj_reg, key_reg, val_reg, rhs),
                ..old(ctx).emit_state()
            }),
    {
        if let Some(c) = compound_operation(op) {
            if c == OpCode::Exp {
                ctx.inst(Inst::Op { op: OpCode::CompoundExp, a: Operand::Reg(val_reg), b: Operand::Reg(rhs), c: Operand::Unused });
            } else {
                ctx.inst(Inst::Op { op: c, a: Operand::Reg(val_reg), b: Operand::Reg(val_reg), c: Operand::Reg(rhs) });
            }
        }
        ctx.inst(Inst::IcSet { obj: Operand::Reg(obj_reg), value: Operand::Reg(val_reg), key: Operand::Reg(key_reg) });
        assert(ctx.insts@ =~= old(ctx).insts@ + keyed_compound_end_insts(compound_of(op)->0, obj_reg, key_reg, val_reg, rhs));
        val_reg
    }

    /// Starts a logical assignment to `obj.property` (`store_label` and
    /// `end_label` were taken before the object was evaluated into
    /// `obj_reg`): reads the current value and tests it (see
    /// `member_logical_begin_state`), placing the store label after the
    /// test. The right side is evaluated next, then
    /// `end_member_logical_assign` completes it. Returns the result and key
    /// registers.
    pub fn begin_member_logical_assign(
        &self,
        op: LogicalOperator,
        obj_reg: u32,
        property: &str,
        store_label: u32,
        end_label: u32,
        ctx: &mut CompileCtx,
    ) -> (r: (u32, u32))
        requires
            old(ctx).wf(),
            old(ctx).next_reg + 2 < u32::MAX,
            store_label < usize::MAX,
        ensures
            emitted(*old(ctx), CompileCtx { labels: old(ctx).labels, ..*final(ctx) }),
            ({
                let (s, result, key) = member_logical_begin_state(old(ctx).emit_state(), op, obj_reg, property@, store_label, end_label);
                &&& final(ctx).emit_state() == s
                &&& r == (result, key)
                &&& final(ctx).labels@ == (LabelState {
                    label_pos: placed(old(ctx).labels@.label_pos, store_label as int, s.insts.len() as usize),
                    ..old(ctx).labels@
                })
            }),
    {
        let key_reg = self.load_string_const(property, ctx);
        let result_reg = ctx.alloc_reg();
        ctx.inst(Inst::Op { op: OpCode::LoadVar, a: Operand::Reg(result_reg), b: Operand::Reg(obj_reg), c: Operand::Unused });
        ctx.inst(Inst::IcGet { obj: Operand::Reg(result_reg), key: Operand::Reg(key_reg) });
        self.emit_logical_assign_test(op, result_reg, store_label, end_label, ctx);
        let pos = ctx.insts.len();
        ctx.labels.set_label_pos(store_label, pos);
        (result_reg, key_reg)
    }

    /// Completes a logical assignment to a named property, the right side
    /// evaluated into `val_reg`: stores it, makes it the result, and places
    /// the end label after.
    pub fn end_member_logical_assign(
        &self,
        obj_reg: u32,
        key_reg: u32,
        result_reg: u32,
        val_reg: u32,
        end_label: u32,
        ctx: &mut CompileCtx,
    )
        requires
            old(ctx).wf(),
            end_label < usize::MAX,
            old(ctx).insts@.len() + 2 < usize::MAX,
        ensures
            emitted(*old(ctx), CompileCtx { labels: old(ctx).labels, ..*final(ctx) }),
            final(ctx).emit_state() == (EmitState {
                insts: old(ctx).insts@ + member_logical_end_insts(obj_reg, key_reg, result_reg, val_reg),
                ..old(ctx).emit_state()
            }),
            final(ctx).labels@ == (LabelState {
                label_pos: placed(old(ctx).labels@.label_pos, end_label as int, (old(ctx).insts@.len() + 2) as usize),
                ..old(ctx).labels@
            }),
    {
        ctx.inst(Inst::IcSet { obj: Operand::Reg(obj_reg), value: Operand::Reg(val_reg), key: Operand::Reg(key_reg) });
        ctx.inst(Inst::Op { op: OpCode::LoadVar, a: Operand::Reg(result_reg), b: Operand::Reg(val_reg), c: Operand::Unused });
        assert(ctx.insts@ =~= old(ctx).insts@ + member_logical_end_insts(obj_reg, key_reg, result_reg, val_reg));
        let pos = ctx.insts.len();
        ctx.labels.set_label_pos(end_label, pos);
    }

    /// Emits the store of `obj.property op= value` after the object and the
    /// value have been evaluated (in that order) into `obj_reg` and
    /// `val_reg`, and returns the register holding the expression's value:
    /// a plain assignment writes the property through the inline cache; a
    /// compound one updates it in place with its binary operation.
    pub fn emit_static_member_store(
        &self,
        op: AssignmentOperator,
        obj_reg: u32,
        val_reg: u32,
        property: &str,
        ctx: &mut CompileCtx,
    ) -> (r: u32)
        requires
            old(ctx).wf(),
            old(ctx).next_reg + 1 < u32::MAX,
            logical_of(op) is None,
        ensures
            emitted(*old(ctx), *final(ctx)),
            r == val_reg,
            final(ctx).emit_state() == member_store_state(old(ctx).emit_state(), op, obj_reg, val_reg, property@),
    {
        let key_reg = self.load_string_const(property, ctx);
        match compound_operation(op) {
            Some(c) => ctx.inst(
                Inst::CompoundMember { op: c, obj: Operand::Reg(obj_reg), value: Operand::Reg(val_reg), key: Operand::Reg(key_reg) },
            ),
            None => ctx.inst(Inst::IcSet { obj: Operand::Reg(obj_reg), value: Operand::Reg(val_reg), key: Operand::Reg(key_reg) }),
        }
        val_reg
    }

    /// Emits the short-circuit test of a logical assignment (see
    /// `logical_test_insts`).
    pub fn emit_logical_assign_test(
        &self,
        op: LogicalOperator,
        test_reg: u32,
        store_label: u32,
        end_label: u32,
        ctx: &mut CompileCtx,
    )
        requires
            old(ctx).wf(),
        ensures
            emitted(*old(ctx), *final(ctx)),
            final(ctx).emit_state() == (EmitState {
                insts: old(ctx).insts@ + logical_test_insts(op, test_reg, store_label, end_label),
                ..old(ctx).emit_state()
            }),
    {
        match op {
            LogicalOperator::And => ctx.inst(Inst::JmpIfFalse { cond: Operand::Reg(test_reg), label: end_label }),
            LogicalOperator::Or => ctx.inst(Inst::JmpIfTrue { cond: Operand::Reg(test_reg), label: end_label }),
            LogicalOperator::Coalesce => {
                ctx.inst(Inst::JmpIfNullish { cond: Operand::Reg(test_reg), label: store_label });
                ctx.inst(Inst::Jmp { label: end_label });
            },
        }
        assert(ctx.insts@ =~= old(ctx).insts@ + logical_test_insts(op, test_reg, store_label, end_label));
    }
}

} // verus!
