//! `delete` of a classified operand: an identifier by the kind of its
//! binding, a member of an evaluated object, or a value that is not a
//! reference.
use vstd::prelude::*;
use crate::builtins::is_deletable_builtin_name;
use crate::ctx::{first_slot, st_alloc, st_const, st_const_idx, st_inst, CompileCtx, ConstKey, Constant, EmitState};
use crate::ast::Expression;
use crate::emit_ops::{emitted, load_const_state};
use crate::keys::marker_key;
use crate::literal::{bigint_decimal, bigint_error_message};
use crate::emitter::Emitter;
use crate::inst::{Inst, OpCode, Operand};
use crate::labels::{placed, LabelState};

verus! {

/// What a deleted identifier is bound to.
#[derive(Clone, Copy, PartialEq, Eq, Structural, Debug)]
#[allow(inconsistent_fields)]
pub enum NameScope {
    /// A local binding: a captured cell, an upvalue, or a binding of a
    /// function or block scope.
    Local,
    /// A binding of the global scope, in register `reg` (a top-level
    /// declaration, or the slot of an undeclared name).
    Global { reg: u32 },
    /// No binding: the reference is unresolvable.
    Undeclared,
}

/// The operand of a `delete`, classified (parentheses removed).
#[allow(inconsistent_fields)]
pub enum DeleteTarget {
    /// A free identifier inside a `with` body, the innermost `with` object
    /// in `obj_reg`.
    WithName { name: String, obj_reg: u32 },
    /// An identifier resolved statically.
    Name { name: String, scope: NameScope },
    /// `obj.property`, the object evaluated into `obj_reg`.
    StaticMember { obj_reg: u32, property: String },
    /// `obj[key]`, the object and the key evaluated into `obj_reg` and `key_reg`.
    ComputedMember { obj_reg: u32, key_reg: u32 },
    /// A literal operand (a string, boolean, `null` or BigInt literal): it is
    /// evaluated here, and an error in it (a BigInt out of range) is the
    /// error of the `delete`.
    Literal(Expression),
    /// Another operand that is not a reference: the expression emitter has
    /// already emitted its code (its side effects and errors are kept) and
    /// left its value in `value_reg`; the result is `true` regardless.
    Evaluated { value_reg: u32 },
}

/// `e` is a literal that `delete` evaluates itself.
pub open spec fn delete_literal(e: Expression) -> bool {
    e is StringLiteral || e is BooleanLiteral || e is NullLiteral || e is BigIntLiteral
}

/// Evaluating literal operand `e`: the state and the register of its value,
/// or its error.
pub open spec fn literal_operand_state(s: EmitState, e: Expression) -> Result<(EmitState, u32), Seq<char>> {
    match e {
        Expression::StringLiteral(l) => Ok(load_const_state(s, ConstKey::String(marker_key(l.value@, l.lone_surrogates)))),
        Expression::BooleanLiteral(b) => Ok(load_const_state(s, ConstKey::Boolean(b))),
        Expression::NullLiteral => Ok(load_const_state(s, ConstKey::Null)),
        Expression::BigIntLiteral(t) => match bigint_decimal(t@) {
            Some(d) => Ok(load_const_state(s, ConstKey::BigInt(d))),
            None => Err(bigint_error_message(t@)),
        },
        _ => Err(Seq::empty()),
    }
}

/// `delete` of literal operand `e`: the operand's code, then `true` loaded
/// into a fresh register; or the operand's error, with nothing emitted.
pub open spec fn delete_literal_state(s: EmitState, e: Expression) -> Result<(EmitState, u32), Seq<char>> {
    match literal_operand_state(s, e) {
        Ok((s1, _)) => Ok(load_const_state(s1, ConstKey::Boolean(true))),
        Err(m) => Err(m),
    }
}

/// The run-time delete of global property `name`, clearing builtin slot
/// `slot` when given, into a fresh register.
pub open spec fn delete_global_state(s: EmitState, name: Seq<char>, slot: Operand) -> (EmitState, u32) {
    let idx = st_const_idx(s, ConstKey::String(name));
    let s1 = st_const(s, ConstKey::String(name));
    let reg = s1.next_reg as u32;
    (st_inst(st_alloc(s1), Inst::DeleteGlobalPropC { dst: Operand::Reg(reg), slot, idx }), reg)
}

/// Whether `delete name` is decided at run time by the global object: for an
/// unresolvable name, the slot of an undeclared name, or a top-level name of
/// an eval script; a local binding and a script's own top-level declaration
/// give `false`.
pub open spec fn delete_probes(scope: NameScope, implicit: bool, eval_script: bool) -> bool {
    match scope {
        NameScope::Local => false,
        NameScope::Global { .. } => implicit || eval_script,
        NameScope::Undeclared => true,
    }
}

/// `delete name`: a deletable builtin's global property is deleted (its slot
/// cleared on success); a probed name's global property is deleted, and the
/// slot of an undeclared name is from then on read through the global
/// object; any other name gives `false`. `implicit` says whether a global
/// binding's register is the slot of an undeclared name.
#[verifier::opaque]
pub open spec fn delete_name_state(
    s: EmitState,
    name: Seq<char>,
    scope: NameScope,
    implicit: bool,
    eval_script: bool,
) -> (EmitState, u32) {
    let slot = if is_deletable_builtin_name(name) {
        first_slot(s.slots, name)
    } else {
        None
    };
    match slot {
        Some(r) => delete_global_state(s, name, Operand::Reg(r)),
        None => delete_binding_state(s, name, scope, implicit, eval_script),
    }
}

/// `delete name` for a name that is not a deletable builtin.
pub open spec fn delete_binding_state(
    s: EmitState,
    name: Seq<char>,
    scope: NameScope,
    implicit: bool,
    eval_script: bool,
) -> (EmitState, u32) {
    if delete_probes(scope, implicit, eval_script) {
        let (s1, reg) = delete_global_state(s, name, Operand::Unused);
        let reads = match scope {
            NameScope::Global { reg: g } => if implicit && !s1.reads.contains(g) {
                s1.reads.push(g)
            } else {
                s1.reads
            },
            _ => s1.reads,
        };
        (EmitState { reads, ..s1 }, reg)
    } else {
        load_const_state(s, ConstKey::Boolean(false))
    }
}

/// `delete obj.property`: the property deleted, the result in the object's
/// register.
pub open spec fn delete_static_member_state(s: EmitState, obj_reg: u32, property: Seq<char>) -> EmitState {
    let idx = st_const_idx(s, ConstKey::String(property));
    st_inst(st_const(s, ConstKey::String(property)), Inst::DeletePropStatic { obj: Operand::Reg(obj_reg), idx: idx as u32 })
}

/// `delete obj[key]`: the property deleted, the result in the object's
/// register.
pub open spec fn delete_computed_member_state(s: EmitState, obj_reg: u32, key_reg: u32) -> EmitState {
    st_inst(
        s,
        Inst::Op { op: OpCode::DeletePropDynamic, a: Operand::Reg(obj_reg), b: Operand::Reg(obj_reg), c: Operand::Reg(key_reg) },
    )
}

/// `delete name` inside a `with` body, with `fallback` and `fallback + 1`
/// the fresh labels: when the `with` object has the property (by `in`), the
/// property is deleted from a copy of the object's register (so that the
/// object itself is kept) and the result moved to the result register;
/// otherwise the result is `true`. Gives the state, the result register and
/// the positions of the two labels.
pub open spec fn with_delete_state(s: EmitState, name: Seq<char>, obj_reg: u32, fallback: u32) -> (EmitState, u32, usize, usize) {
    let (s1, key) = load_const_state(s, ConstKey::String(name));
    let has = s1.next_reg as u32;
    let s2 = st_inst(st_alloc(s1), Inst::Op { op: OpCode::In, a: Operand::Reg(has), b: Operand::Reg(key), c: Operand::Reg(obj_reg) });
    let s3 = st_inst(s2, Inst::JmpIfFalse { cond: Operand::Reg(has), label: fallback });
    let tmp = s3.next_reg as u32;
    let s4 = st_inst(st_alloc(s3), Inst::Op { op: OpCode::LoadVar, a: Operand::Reg(tmp), b: Operand::Reg(obj_reg), c: Operand::Unused });
    let s5 = st_inst(s4, Inst::Op { op: OpCode::DeletePropDynamic, a: Operand::Reg(tmp), b: Operand::Reg(tmp), c: Operand::Reg(key) });
    let result = s5.next_reg as u32;
    let s6 = st_inst(st_alloc(s5), Inst::Op { op: OpCode::LoadVar, a: Operand::Reg(result), b: Operand::Reg(tmp), c: Operand::Unused });
    let s7 = st_inst(s6, Inst::Jmp { label: (fallback + 1) as u32 });
    let p1 = s7.insts.len() as usize;
    let idx = st_const_idx(s7, ConstKey::Boolean(true));
    let s8 = st_inst(st_const(s7, ConstKey::Boolean(true)), Inst::LoadConst { dst: Operand::Reg(result), idx });
    (s8, result, p1, s8.insts.len() as usize)
}

/// The label state after two fresh labels are taken and placed at `p1` and
/// `p2` (as a `with` body's dynamic accesses do).
pub open spec fn two_labels_placed(l: LabelState, p1: usize, p2: usize) -> LabelState {
    LabelState {
        label_counter: l.label_counter + 2,
        label_pos: placed(placed(l.label_pos, l.label_counter, p1), l.label_counter + 1, p2),
        ..l
    }
}

impl CompileCtx {
    /// Records `reg` as the slot of an undeclared name read through the
    /// global object (once).
    pub fn note_implicit_read(&mut self, reg: u32)
        ensures
            final(self).implicit_global_reads@ == if old(self).implicit_global_reads@.contains(reg) {
                old(self).implicit_global_reads@
            } else {
                old(self).implicit_global_reads@.push(reg)
            },
            *final(self) == (CompileCtx { implicit_global_reads: final(self).implicit_global_reads, ..*old(self) }),
    {
        let mut i: usize = 0;
        while i < self.implicit_global_reads.len()
            invariant
                i <= self.implicit_global_reads@.len(),
                forall|j: int| 0 <= j < i ==> #[trigger] self.implicit_global_reads@[j] != reg,
            decreases self.implicit_global_reads.len() - i,
        {
            if self.implicit_global_reads[i] == reg {
                assert(self.implicit_global_reads@[i as int] == reg);
                return;
            }
            i += 1;
        }
        self.implicit_global_reads.push(reg);
    }
}

impl Emitter {
    /// Deletes global property `name` at run time into a fresh register.
    fn emit_delete_global(&self, name: &str, slot: Operand, ctx: &mut CompileCtx) -> (reg: u32)
        requires
            old(ctx).wf(),
            old(ctx).next_reg + 1 < u32::MAX,
        ensures
            emitted(*old(ctx), *final(ctx)),
            (final(ctx).emit_state(), reg) == delete_global_state(old(ctx).emit_state(), name@, slot),
    {
        let idx = ctx.add_constant(Constant::String(name.to_owned()));
        let reg = ctx.alloc_reg();
        ctx.inst(Inst::DeleteGlobalPropC { dst: Operand::Reg(reg), slot, idx });
        reg
    }

    /// `delete name` for a name that is not a deletable builtin.
    fn emit_delete_binding(&self, name: &str, scope: NameScope, ctx: &mut CompileCtx) -> (reg: u32)
        requires
            old(ctx).wf(),
            old(ctx).next_reg + 1 < u32::MAX,
        ensures
            emitted(*old(ctx), *final(ctx)),
            (final(ctx).emit_state(), reg) == delete_binding_state(
                old(ctx).emit_state(),
                name@,
                scope,
                match scope {
                    NameScope::Global { reg } => old(ctx).implicit_global_writes@.contains(reg)
                        || old(ctx).implicit_global_reads@.contains(reg),
                    _ => false,
                },
                old(ctx).is_eval_script,
            ),
    {
        let implicit = match scope {
            NameScope::Global { reg } => ctx.is_implicit_global_reg(reg),
            _ => false,
        };
        let probe = match scope {
            NameScope::Local => false,
            NameScope::Global { .. } => implicit || ctx.is_eval_script,
            NameScope::Undeclared => true,
        };
        if probe {
            let reg = self.emit_delete_global(name, Operand::Unused, ctx);
            if let NameScope::Global { reg: g } = scope {
                if implicit {
                    ctx.note_implicit_read(g);
                }
            }
            return reg;
        }
        let idx = ctx.add_constant(Constant::Boolean(false));
        let reg = ctx.alloc_reg();
        ctx.inst(Inst::LoadConst { dst: Operand::Reg(reg), idx });
        reg
    }

    /// `delete name` for an identifier bound as `scope`.
    fn emit_delete_name(&self, name: &str, scope: NameScope, ctx: &mut CompileCtx) -> (reg: u32)
        requires
            old(ctx).wf(),
            old(ctx).next_reg + 1 < u32::MAX,
        ensures
            emitted(*old(ctx), *final(ctx)),
            (final(ctx).emit_state(), reg) == delete_name_state(
                old(ctx).emit_state(),
                name@,
                scope,
                match scope {
                    NameScope::Global { reg } => old(ctx).implicit_global_writes@.contains(reg)
                        || old(ctx).implicit_global_reads@.contains(reg),
                    _ => false,
                },
                old(ctx).is_eval_script,
            ),
    {
        reveal(delete_name_state);
        if let Some(slot_reg) = ctx.global_builtin_delete_slot(name) {
            return self.emit_delete_global(name, Operand::Reg(slot_reg), ctx);
        }
        self.emit_delete_binding(name, scope, ctx)
    }

    /// `delete name` inside a `with` body.
    #[verifier::rlimit(30)]
    fn emit_with_delete(&self, name: &str, obj_reg: u32, ctx: &mut CompileCtx) -> (reg: u32)
        requires
            old(ctx).wf(),
            old(ctx).next_reg + 4 < u32::MAX,
            old(ctx).labels@.label_counter + 2 < u32::MAX,
            old(ctx).insts@.len() + 10 < usize::MAX,
        ensures
            emitted(*old(ctx), CompileCtx { labels: old(ctx).labels, ..*final(ctx) }),
            ({
                let (s, r, p1, p2) = with_delete_state(old(ctx).emit_state(), name@, obj_reg, old(ctx).labels.label_counter);
                &&& final(ctx).emit_state() == s
                &&& reg == r
                &&& final(ctx).labels@ == two_labels_placed(old(ctx).labels@, p1, p2)
            }),
    {
        let key_reg = self.load_string_const(name, ctx);
        let has_reg = ctx.alloc_reg();
        ctx.inst(Inst::Op { op: OpCode::In, a: Operand::Reg(has_reg), b: Operand::Reg(key_reg), c: Operand::Reg(obj_reg) });
        let fallback = ctx.labels.next_label_id();
        let end = ctx.labels.next_label_id();
        ctx.inst(Inst::JmpIfFalse { cond: Operand::Reg(has_reg), label: fallback });
        let tmp_reg = ctx.alloc_reg();
        ctx.inst(Inst::Op { op: OpCode::LoadVar, a: Operand::Reg(tmp_reg), b: Operand::Reg(obj_reg), c: Operand::Unused });
        ctx.inst(
            Inst::Op { op: OpCode::DeletePropDynamic, a: Operand::Reg(tmp_reg), b: Operand::Reg(tmp_reg), c: Operand::Reg(key_reg) },
        );
        let result_reg = ctx.alloc_reg();
        ctx.inst(Inst::Op { op: OpCode::LoadVar, a: Operand::Reg(result_reg), b: Operand::Reg(tmp_reg), c: Operand::Unused });
        ctx.inst(Inst::Jmp { label: end });
        let p1 = ctx.insts.len();
        ctx.labels.set_label_pos(fallback, p1);
        let idx = ctx.add_constant(Constant::Boolean(true));
        ctx.inst(Inst::LoadConst { dst: Operand::Reg(result_reg), idx });
        let p2 = ctx.insts.len();
        ctx.labels.set_label_pos(end, p2);
        result_reg
    }

    /// `delete obj.property` of the object in `obj_reg`.
    fn emit_delete_static_member(&self, obj_reg: u32, property: &str, ctx: &mut CompileCtx)
        requires
            old(ctx).wf(),
        ensures
            emitted(*old(ctx), *final(ctx)),
            final(ctx).emit_state() == delete_static_member_state(old(ctx).emit_state(), obj_reg, property@),
    {
        let idx = ctx.add_constant(Constant::String(property.to_owned()));
        ctx.inst(Inst::DeletePropStatic { obj: Operand::Reg(obj_reg), idx: idx as u32 });
    }

    /// `delete` of a literal operand: the operand is evaluated, then `true`
    /// loaded.
    fn emit_delete_literal(&self, e: &Expression, ctx: &mut CompileCtx) -> (r: Result<u32, String>)
        requires
            old(ctx).wf(),
            old(ctx).next_reg + 2 < u32::MAX,
            delete_literal(*e),
        ensures
            emitted(*old(ctx), *final(ctx)),
            match delete_literal_state(old(ctx).emit_state(), *e) {
                Ok((s, reg)) => r == Ok::<u32, String>(reg) && final(ctx).emit_state() == s,
                Err(m) => r matches Err(x) && x@ == m && final(ctx).emit_state() == old(ctx).emit_state(),
            },
    {
        let _ = self.emit_literal_operand(e, ctx)?;
        Ok(self.emit_delete_value(ctx))
    }

    /// Evaluates literal operand `e` into a fresh register.
    fn emit_literal_operand(&self, e: &Expression, ctx: &mut CompileCtx) -> (r: Result<u32, String>)
        requires
            old(ctx).wf(),
            old(ctx).next_reg + 2 < u32::MAX,
            delete_literal(*e),
        ensures
            emitted(*old(ctx), *final(ctx)),
            match literal_operand_state(old(ctx).emit_state(), *e) {
                Ok((s, reg)) => r == Ok::<u32, String>(reg) && final(ctx).emit_state() == s,
                Err(m) => r matches Err(x) && x@ == m && final(ctx).emit_state() == old(ctx).emit_state(),
            },
    {
        match e {
            Expression::StringLiteral(l) => Ok(self.emit_string_literal_expression(l, ctx)),
            Expression::BooleanLiteral(b) => Ok(self.emit_boolean_literal_expression(*b, ctx)),
            Expression::NullLiteral => Ok(self.emit_null_literal_expression(ctx)),
            Expression::BigIntLiteral(t) => self.emit_bigint_literal_expression(t.as_str(), ctx),
            _ => Ok(0),
        }
    }

    /// The result of deleting a value that is not a reference: `true`.
    fn emit_delete_value(&self, ctx: &mut CompileCtx) -> (reg: u32)
        requires
            old(ctx).wf(),
            old(ctx).next_reg + 1 < u32::MAX,
        ensures
            emitted(*old(ctx), *final(ctx)),
            (final(ctx).emit_state(), reg) == load_const_state(old(ctx).emit_state(), ConstKey::Boolean(true)),
    {
        let idx = ctx.add_constant(Constant::Boolean(true));
        let reg = ctx.alloc_reg();
        ctx.inst(Inst::LoadConst { dst: Operand::Reg(reg), idx });
        reg
    }

    /// Emits `delete` of the classified operand `target` and returns the
    /// register holding the result.
    ///
    /// A free identifier in a `with` body is deleted from the `with` object
    /// when it has the property, and gives `true` otherwise. An identifier
    /// resolved statically: a deletable builtin global (writable, but not the host
    /// name `$262`) has its global property deleted at run time, its slot
    /// cleared on success; an unresolvable name, the slot of an undeclared
    /// name and a top-level name of an eval script are deleted from the
    /// global object at run time (the undeclared name's slot is read through
    /// the global object from then on); a local binding, and a script's own
    /// top-level declaration, give the constant `false`. A member has its
    /// property deleted from the evaluated object, the result in the
    /// object's register. An operand that is not a reference gives the
    /// constant `true` after it is evaluated (a literal here, any other
    /// operand by the expression emitter before the call), its side effects
    /// and errors kept.
    pub fn emit_delete_operand(&self, target: &DeleteTarget, ctx: &mut CompileCtx) -> (r: Result<u32, String>)
        requires
            old(ctx).wf(),
            *target matches DeleteTarget::Literal(e) ==> delete_literal(e),
            old(ctx).next_reg + 4 < u32::MAX,
            old(ctx).labels@.label_counter + 2 < u32::MAX,
            old(ctx).insts@.len() + 10 < usize::MAX,
        ensures
            emitted(*old(ctx), CompileCtx { labels: old(ctx).labels, ..*final(ctx) }),
            !(*target is WithName) ==> final(ctx).labels@ == old(ctx).labels@,
            !(*target is Literal) ==> r is Ok,
            match *target {
                DeleteTarget::WithName { name, obj_reg } => {
                    let (s, reg, p1, p2) = with_delete_state(
                        old(ctx).emit_state(),
                        name@,
                        obj_reg,
                        old(ctx).labels.label_counter,
                    );
                    &&& final(ctx).emit_state() == s
                    &&& r == Ok::<u32, String>(reg)
                    &&& final(ctx).labels@ == two_labels_placed(old(ctx).labels@, p1, p2)
                },
                DeleteTarget::Name { name, scope } => r is Ok && (final(ctx).emit_state(), r->Ok_0) == delete_name_state(
                    old(ctx).emit_state(),
                    name@,
                    scope,
                    match scope {
                        NameScope::Global { reg } => old(ctx).implicit_global_writes@.contains(reg)
                            || old(ctx).implicit_global_reads@.contains(reg),
                        _ => false,
                    },
                    old(ctx).is_eval_script,
                ),
                DeleteTarget::StaticMember { obj_reg, property } => r == Ok::<u32, String>(obj_reg) && final(ctx).emit_state()
                    == delete_static_member_state(old(ctx).emit_state(), obj_reg, property@),
                DeleteTarget::ComputedMember { obj_reg, key_reg } => r == Ok::<u32, String>(obj_reg) && final(ctx).emit_state()
                    == delete_computed_member_state(old(ctx).emit_state(), obj_reg, key_reg),
                DeleteTarget::Literal(e) => match delete_literal_state(old(ctx).emit_state(), e) {
                    Ok((s, reg)) => r == Ok::<u32, String>(reg) && final(ctx).emit_state() == s,
                    Err(m) => r matches Err(x) && x@ == m && final(ctx).emit_state() == old(ctx).emit_state(),
                },
                DeleteTarget::Evaluated { .. } => r is Ok && (final(ctx).emit_state(), r->Ok_0) == load_const_state(
                    old(ctx).emit_state(),
                    ConstKey::Boolean(true),
                ),
            },
    {
        match target {
            DeleteTarget::WithName { name, obj_reg } => Ok(self.emit_with_delete(name.as_str(), *obj_reg, ctx)),
            DeleteTarget::Name { name, scope } => Ok(self.emit_delete_name(name.as_str(), *scope, ctx)),
            DeleteTarget::StaticMember { obj_reg, property } => {
                self.emit_delete_static_member(*obj_reg, property.as_str(), ctx);
                Ok(*obj_reg)
            },
            DeleteTarget::ComputedMember { obj_reg, key_reg } => {
                ctx.inst(
                    Inst::Op {
                        op: OpCode::DeletePropDynamic,
                        a: Operand::Reg(*obj_reg),
                        b: Operand::Reg(*obj_reg),
                        c: Operand::Reg(*key_reg),
                    },
                );
                Ok(*obj_reg)
            },
            DeleteTarget::Literal(e) => self.emit_delete_literal(e, ctx),
            DeleteTarget::Evaluated { .. } => Ok(self.emit_delete_value(ctx)),
        }
    }
}

} // verus!
