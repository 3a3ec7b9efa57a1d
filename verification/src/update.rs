//! `++` and `--` on an identifier whose binding has been resolved: the
//! read-modify-write through an upvalue, a captured cell or a register, and
//! the global object writes that keep top-level and undeclared names in step.
use vstd::prelude::*;
use vstd::string::StringExecFns;
use crate::ctx::{st_alloc, st_const, st_const_idx, st_inst, CompileCtx, ConstKey, Constant, EmitState};
use crate::emit_ops::{emitted, keyed_define_state, load_const_state, session_define_state, throw_error_state};
use crate::emitter::Emitter;
use crate::inst::{Inst, OpCode, Operand};

verus! {

/// Where the global object mirrors a register binding, and so where an
/// update's new value is also written.
#[derive(Clone, Copy, PartialEq, Eq, Structural, Debug)]
#[allow(inconsistent_fields)]
pub enum GlobalStore {
    /// A local binding: the register alone.
    Local,
    /// A top-level declared `var`, whose only storage is the global object.
    Tier,
    /// The slot of an undeclared name.
    Implicit,
    /// The slot of a writable builtin global.
    WritableBuiltin,
}

/// The resolved binding of an updated identifier.
#[derive(Clone, Copy, PartialEq, Eq, Structural, Debug)]
#[allow(inconsistent_fields)]
pub enum UpdateBinding {
    /// Upvalue `index` of the current function; `is_const` when it captures
    /// a constant.
    Upvalue { index: u8, is_const: bool },
    /// Captured cell `cell`, held by the binding in register `binding` (none
    /// when the name has no binding in scope).
    Cell { cell: u8, binding: Option<u32> },
    /// A register binding, with the global store it mirrors.
    Register { reg: u32, global: GlobalStore },
    /// The slot `reg` of a read-only global builtin (`undefined`, `NaN`,
    /// `Infinity`).
    ReadOnlyGlobal { reg: u32 },
}

/// An updated identifier: its binding and the checks that precede the
/// update.
#[derive(Clone, Copy, PartialEq, Eq, Structural, Debug)]
pub struct UpdateSite {
    pub binding: UpdateBinding,
    /// The binding is known to be uninitialised (not an upvalue, whose
    /// initialisation is checked at run time): a ReferenceError is thrown first.
    pub uninitialized: bool,
    /// The binding is a constant (and not a per-iteration loop variable): a
    /// TypeError is thrown first.
    pub constant: bool,
}

/// The in-place read-modify-write opcode of `++`/`--`, prefix or postfix.
pub open spec fn rmw_op(increment: bool, prefix: bool) -> OpCode {
    if increment {
        if prefix {
            OpCode::IncPre
        } else {
            OpCode::IncPost
        }
    } else if prefix {
        OpCode::DecPre
    } else {
        OpCode::DecPost
    }
}

/// Loading the integer 1 and adding it to (or subtracting it from) the value
/// in `old_reg` into a fresh register, which is returned.
pub open spec fn add_one_state(s: EmitState, old_reg: u32, increment: bool) -> (EmitState, u32) {
    let (s1, one) = load_const_state(s, ConstKey::Int(1));
    let new_reg = s1.next_reg as u32;
    let op = if increment {
        OpCode::Add
    } else {
        OpCode::Sub
    };
    (st_inst(st_alloc(s1), Inst::Op { op, a: Operand::Reg(new_reg), b: Operand::Reg(old_reg), c: Operand::Reg(one) }), new_reg)
}

/// The message of a read of `name` before its initialisation.
pub open spec fn tdz_message(name: Seq<char>) -> Seq<char> {
    "Cannot access '"@ + name + "' before initialization"@
}

/// The throws that precede an update: before initialisation, then of a
/// constant.
#[verifier::opaque]
pub open spec fn update_guard_state(s: EmitState, name: Seq<char>, site: UpdateSite) -> EmitState {
    let s1 = if site.uninitialized {
        throw_error_state(s, "ReferenceError"@, tdz_message(name)).0
    } else {
        s
    };
    if site.constant {
        throw_error_state(s1, "TypeError"@, "Assignment to constant variable"@).0
    } else {
        s1
    }
}

/// The read-modify-write through an upvalue or a captured cell: the old
/// value is read into a fresh register, 1 added or subtracted, and the new
/// value written back.
pub open spec fn closure_update_state(s: EmitState, binding: UpdateBinding, increment: bool, prefix: bool) -> (EmitState, u32) {
    let old = s.next_reg as u32;
    let read = match binding {
        UpdateBinding::Upvalue { index, .. } => Inst::Op {
            op: OpCode::LoadUpvalue,
            a: Operand::Reg(old),
            b: Operand::Imm(index as u16),
            c: Operand::Unused,
        },
        UpdateBinding::Cell { cell, binding } => Inst::Op {
            op: OpCode::CellGet,
            a: Operand::Reg(old),
            b: match binding {
                Some(r) => Operand::Reg(r),
                None => Operand::Unused,
            },
            c: Operand::Imm(cell as u16),
        },
        _ => Inst::Op { op: OpCode::LoadVar, a: Operand::Unused, b: Operand::Unused, c: Operand::Unused },
    };
    let s1 = st_inst(st_alloc(s), read);
    let (s2, new) = add_one_state(s1, old, increment);
    let write = match binding {
        UpdateBinding::Upvalue { index, is_const } => Inst::Op {
            op: OpCode::StoreUpvalue,
            a: Operand::Imm(if is_const { 1 } else { 0 }),
            b: Operand::Reg(new),
            c: Operand::Imm(index as u16),
        },
        UpdateBinding::Cell { cell, .. } => Inst::Op {
            op: OpCode::CellSet,
            a: Operand::Unused,
            b: Operand::Reg(new),
            c: Operand::Imm(cell as u16),
        },
        _ => Inst::Op { op: OpCode::LoadVar, a: Operand::Unused, b: Operand::Unused, c: Operand::Unused },
    };
    (st_inst(s2, write), if prefix { new } else { old })
}

/// The update of read-only global slot `reg`: in strict code a TypeError
/// throw; otherwise the value is copied and updated in the copy, leaving the
/// slot as it was.
pub open spec fn readonly_update_state(s: EmitState, reg: u32, increment: bool, prefix: bool, strict: bool) -> (EmitState, u32) {
    if strict {
        throw_error_state(s, "TypeError"@, "cannot assign to read-only property"@)
    } else {
        let tmp = s.next_reg as u32;
        let s1 = st_inst(st_alloc(s), Inst::Op { op: OpCode::LoadVar, a: Operand::Reg(tmp), b: Operand::Reg(reg), c: Operand::Unused });
        let result = s1.next_reg as u32;
        (
            st_inst(
                st_alloc(s1),
                Inst::Op { op: rmw_op(increment, prefix), a: Operand::Reg(tmp), b: Operand::Reg(result), c: Operand::Reg(result) },
            ),
            result,
        )
    }
}

/// The write of a register binding's new value to the global object that
/// mirrors it.
pub open spec fn global_store_state(s: EmitState, name: Seq<char>, reg: u32, global: GlobalStore, top_level_script: bool) -> EmitState {
    match global {
        GlobalStore::Local => s,
        GlobalStore::Tier => if top_level_script {
            keyed_define_state(s, name, reg, 0)
        } else {
            session_define_state(s, name, reg, false)
        },
        GlobalStore::Implicit => session_define_state(s, name, reg, false),
        GlobalStore::WritableBuiltin => session_define_state(s, name, reg, false),
    }
}

/// Before the update of a top-level `var` or undeclared name, its current
/// value is read from the global object (`undefined` when missing).
pub open spec fn global_read_state(s: EmitState, name: Seq<char>, reg: u32, global: GlobalStore) -> EmitState {
    if global == GlobalStore::Tier || global == GlobalStore::Implicit {
        let idx = st_const_idx(s, ConstKey::String(name));
        st_inst(
            st_const(s, ConstKey::String(name)),
            Inst::Op { op: OpCode::LoadGlobalTypeof, a: Operand::Reg(reg), b: Operand::Const(idx), c: Operand::Unused },
        )
    } else {
        s
    }
}

/// The in-place update of register binding `reg`: a strict update of an
/// undeclared name throws a ReferenceError; a top-level `var` or undeclared
/// name is first read from the global object; the new value is written back
/// to the global object that mirrors the binding.
pub open spec fn register_update_state(
    s: EmitState,
    name: Seq<char>,
    reg: u32,
    global: GlobalStore,
    increment: bool,
    prefix: bool,
    strict: bool,
    top_level_script: bool,
) -> (EmitState, u32) {
    if global == GlobalStore::Implicit && strict {
        throw_error_state(s, "ReferenceError"@, name + " is not defined"@)
    } else {
        let s1 = global_read_state(s, name, reg, global);
        let result = s1.next_reg as u32;
        let s2 = st_inst(
            st_alloc(s1),
            Inst::Op { op: rmw_op(increment, prefix), a: Operand::Reg(reg), b: Operand::Reg(result), c: Operand::Reg(result) },
        );
        (global_store_state(s2, name, reg, global, top_level_script), result)
    }
}

/// The update itself, after the guards: the state and the register holding
/// the expression's value (the new value for a prefix update, the old one
/// for a postfix update).
#[verifier::opaque]
pub open spec fn update_body_state(
    s: EmitState,
    name: Seq<char>,
    binding: UpdateBinding,
    increment: bool,
    prefix: bool,
    strict: bool,
    top_level_script: bool,
) -> (EmitState, u32) {
    match binding {
        UpdateBinding::Upvalue { .. } => closure_update_state(s, binding, increment, prefix),
        UpdateBinding::Cell { .. } => closure_update_state(s, binding, increment, prefix),
        UpdateBinding::ReadOnlyGlobal { reg } => readonly_update_state(s, reg, increment, prefix, strict),
        UpdateBinding::Register { reg, global } => register_update_state(
            s,
            name,
            reg,
            global,
            increment,
            prefix,
            strict,
            top_level_script,
        ),
    }
}

/// The whole update of `name` at `site`: the guards, then the update.
pub open spec fn update_static_state(
    s: EmitState,
    name: Seq<char>,
    site: UpdateSite,
    increment: bool,
    prefix: bool,
    strict: bool,
    top_level_script: bool,
) -> (EmitState, u32) {
    update_body_state(update_guard_state(s, name, site), name, site.binding, increment, prefix, strict, top_level_script)
}

/// The value of `++`/`--` is the new value for the prefix form and the old
/// value for the postfix form, whatever the binding. Through an upvalue or
/// a cell, the prefix result is the register written by the addition (for
/// `++`) or subtraction (for `--`) among the emitted instructions, and the
/// postfix result the register the binding was read into; through a
/// register or a read-only slot (outside strict code, where a read-only
/// slot throws), the result is the one the in-place update leaves, the
/// update being a prefix one exactly for a prefix expression and an
/// increment exactly for `++`.
pub proof fn lemma_update_result(
    s: EmitState,
    name: Seq<char>,
    binding: UpdateBinding,
    increment: bool,
    prefix: bool,
    strict: bool,
    top_level_script: bool,
)
    requires
        !(strict && (binding is ReadOnlyGlobal || binding matches UpdateBinding::Register { global: GlobalStore::Implicit, .. })),
    ensures
        ({
            let (s2, r) = update_body_state(s, name, binding, increment, prefix, strict, top_level_script);
            &&& (binding is Upvalue || binding is Cell) ==> (prefix ==> exists|k: int|
                s.insts.len() <= k < s2.insts.len() && (#[trigger] s2.insts[k] matches Inst::Op { op, a: Operand::Reg(x), .. }
                    && op == (if increment { OpCode::Add } else { OpCode::Sub }) && x == r))
            &&& (binding is Upvalue || binding is Cell) ==> (!prefix ==> exists|k: int|
                s.insts.len() <= k < s2.insts.len() && (#[trigger] s2.insts[k] matches Inst::Op { op, a: Operand::Reg(x), .. }
                    && (op == OpCode::LoadUpvalue || op == OpCode::CellGet) && x == r))
            &&& (binding is Register || binding is ReadOnlyGlobal) ==> exists|k: int|
                s.insts.len() <= k < s2.insts.len() && (#[trigger] s2.insts[k] matches Inst::Op { op, b: Operand::Reg(x), .. }
                    && ((op == OpCode::IncPre || op == OpCode::DecPre) == prefix) && ((op == OpCode::IncPre || op
                    == OpCode::IncPost) == increment) && (op == OpCode::IncPre || op == OpCode::IncPost || op == OpCode::DecPre
                    || op == OpCode::DecPost) && x == r)
        }),
{
    reveal(update_body_state);
    let base = s.insts.len() as int;
    match binding {
        UpdateBinding::Upvalue { .. } => {
            lemma_closure_update_result(s, name, binding, increment, prefix, strict, top_level_script);
        },
        UpdateBinding::Cell { .. } => {
            lemma_closure_update_result(s, name, binding, increment, prefix, strict, top_level_script);
        },
        UpdateBinding::ReadOnlyGlobal { reg } => {
            let (s2, r) = readonly_update_state(s, reg, increment, prefix, strict);
            assert(s2.insts[base + 1] matches Inst::Op { op, b: Operand::Reg(x), .. } && x == r && op == rmw_op(
                increment,
                prefix,
            ));
        },
        UpdateBinding::Register { reg, global } => {
            let s1 = global_read_state(s, name, reg, global);
            let k = s1.insts.len();
            let (s3, r) = register_update_state(s, name, reg, global, increment, prefix, strict, top_level_script);
            lemma_global_store_keeps(st_inst(st_alloc(s1), Inst::Op { op: rmw_op(increment, prefix), a: Operand::Reg(reg), b: Operand::Reg(s1.next_reg as u32), c: Operand::Reg(s1.next_reg as u32) }), name, reg, global, top_level_script);
            assert(s3.insts[k as int] matches Inst::Op { op, b: Operand::Reg(x), .. } && x == r && op == rmw_op(
                increment,
                prefix,
            ));
        },
    }
}

/// The result of an update through an upvalue or a cell.
proof fn lemma_closure_update_result(
    s: EmitState,
    name: Seq<char>,
    binding: UpdateBinding,
    increment: bool,
    prefix: bool,
    strict: bool,
    top_level_script: bool,
)
    requires
        binding is Upvalue || binding is Cell,
    ensures
        ({
            let (s2, r) = update_body_state(s, name, binding, increment, prefix, strict, top_level_script);
            &&& prefix ==> exists|k: int|
                s.insts.len() <= k < s2.insts.len() && (#[trigger] s2.insts[k] matches Inst::Op { op, a: Operand::Reg(x), .. }
                    && op == (if increment { OpCode::Add } else { OpCode::Sub }) && x == r)
            &&& !prefix ==> exists|k: int|
                s.insts.len() <= k < s2.insts.len() && (#[trigger] s2.insts[k] matches Inst::Op { op, a: Operand::Reg(x), .. }
                    && (op == OpCode::LoadUpvalue || op == OpCode::CellGet) && x == r)
        }),
{
    reveal(update_body_state);
    let base = s.insts.len() as int;
    let (s2, r) = update_body_state(s, name, binding, increment, prefix, strict, top_level_script);
    assert((s2, r) == closure_update_state(s, binding, increment, prefix));
    let old = s.next_reg as u32;
    assert(s2.insts.len() == base + 4);
    if prefix {
        let k = base + 2;
        assert(s2.insts[k] matches Inst::Op { op, a: Operand::Reg(x), .. } && op == (if increment {
            OpCode::Add
        } else {
            OpCode::Sub
        }) && x == r);
    } else {
        let k = base;
        assert(r == old);
        assert(s2.insts[k] matches Inst::Op { op, a: Operand::Reg(x), .. } && (op == OpCode::LoadUpvalue
            || op == OpCode::CellGet) && x == r);
    }
}

/// The global object write after an update only appends instructions.
proof fn lemma_global_store_keeps(s: EmitState, name: Seq<char>, reg: u32, global: GlobalStore, top_level_script: bool)
    ensures
        global_store_state(s, name, reg, global, top_level_script).insts.len() >= s.insts.len(),
        forall|i: int| 0 <= i < s.insts.len() ==> #[trigger] global_store_state(s, name, reg, global, top_level_script).insts[i] == s.insts[i],
{
}

impl Emitter {
    /// Loads 1 and adds it to, or subtracts it from, `old_reg`.
    fn emit_add_one(&self, old_reg: u32, increment: bool, ctx: &mut CompileCtx) -> (new_reg: u32)
        requires
            old(ctx).wf(),
            old(ctx).next_reg + 2 < u32::MAX,
        ensures
            emitted(*old(ctx), *final(ctx)),
            (final(ctx).emit_state(), new_reg) == add_one_state(old(ctx).emit_state(), old_reg, increment),
    {
        let idx = ctx.add_constant(Constant::Int(1));
        let one_reg = ctx.alloc_reg();
        ctx.inst(Inst::LoadConst { dst: Operand::Reg(one_reg), idx });
        let new_reg = ctx.alloc_reg();
        let op = if increment {
            OpCode::Add
        } else {
            OpCode::Sub
        };
        ctx.inst(Inst::Op { op, a: Operand::Reg(new_reg), b: Operand::Reg(old_reg), c: Operand::Reg(one_reg) });
        new_reg
    }

    /// The in-place read-modify-write opcode of `++`/`--`.
    fn rmw_opcode(increment: bool, prefix: bool) -> (op: OpCode)
        ensures
            op == rmw_op(increment, prefix),
    {
        if increment {
            if prefix {
                OpCode::IncPre
            } else {
                OpCode::IncPost
            }
        } else if prefix {
            OpCode::DecPre
        } else {
            OpCode::DecPost
        }
    }

    /// The throws that precede an update.
    fn emit_update_guards(&self, name: &str, site: UpdateSite, ctx: &mut CompileCtx)
        requires
            old(ctx).wf(),
            old(ctx).next_reg + 16 < u32::MAX,
        ensures
            emitted(*old(ctx), *final(ctx)),
            final(ctx).emit_state() == update_guard_state(old(ctx).emit_state(), name@, site),
            final(ctx).next_reg <= old(ctx).next_reg + 10,
    {
        reveal(update_guard_state);
        let ghost s0 = ctx.emit_state();
        if site.uninitialized {
            let mut msg = String::from_str("Cannot access '");
            msg.append(name);
            msg.append("' before initialization");
            proof {
                reveal_strlit("Cannot access '");
                reveal_strlit("' before initialization");
                lemma_throw_regs(s0, "ReferenceError"@, msg@);
            }
            let _ = self.emit_tdz_throw(msg.as_str(), ctx);
        }
        let ghost s1 = ctx.emit_state();
        if site.constant {
            proof {
                lemma_throw_regs(s1, "TypeError"@, "Assignment to constant variable"@);
            }
            let _ = self.emit_throw_error("TypeError", "Assignment to constant variable", ctx);
        }
    }

    /// The read-modify-write through an upvalue or a captured cell.
    fn emit_closure_update(&self, binding: UpdateBinding, increment: bool, prefix: bool, ctx: &mut CompileCtx) -> (r: u32)
        requires
            old(ctx).wf(),
            old(ctx).next_reg + 6 < u32::MAX,
            binding is Upvalue || binding is Cell,
        ensures
            emitted(*old(ctx), *final(ctx)),
            (final(ctx).emit_state(), r) == closure_update_state(old(ctx).emit_state(), binding, increment, prefix),
    {
        match binding {
            UpdateBinding::Upvalue { index, is_const } => {
                let old_reg = ctx.alloc_reg();
                ctx.inst(
                    Inst::Op {
                        op: OpCode::LoadUpvalue,
                        a: Operand::Reg(old_reg),
                        b: Operand::Imm(index as u16),
                        c: Operand::Unused,
                    },
                );
                let new_reg = self.emit_add_one(old_reg, increment, ctx);
                let flag: u16 = if is_const {
                    1
                } else {
                    0
                };
                ctx.inst(
                    Inst::Op {
                        op: OpCode::StoreUpvalue,
                        a: Operand::Imm(flag),
                        b: Operand::Reg(new_reg),
                        c: Operand::Imm(index as u16),
                    },
                );
                if prefix {
                    new_reg
                } else {
                    old_reg
                }
            },
            UpdateBinding::Cell { cell, binding } => {
                let old_reg = ctx.alloc_reg();
                let holder = match binding {
                    Some(b) => Operand::Reg(b),
                    None => Operand::Unused,
                };
                ctx.inst(Inst::Op { op: OpCode::CellGet, a: Operand::Reg(old_reg), b: holder, c: Operand::Imm(cell as u16) });
                let new_reg = self.emit_add_one(old_reg, increment, ctx);
                ctx.inst(
                    Inst::Op { op: OpCode::CellSet, a: Operand::Unused, b: Operand::Reg(new_reg), c: Operand::Imm(cell as u16) },
                );
                if prefix {
                    new_reg
                } else {
                    old_reg
                }
            },
            _ => 0,
        }
    }

    /// The update of read-only global slot `reg`.
    fn emit_readonly_update(&self, reg: u32, increment: bool, prefix: bool, ctx: &mut CompileCtx) -> (r: u32)
        requires
            old(ctx).wf(),
            old(ctx).next_reg + 6 < u32::MAX,
        ensures
            emitted(*old(ctx), *final(ctx)),
            (final(ctx).emit_state(), r) == readonly_update_state(old(ctx).emit_state(), reg, increment, prefix, old(ctx).is_strict),
    {
        if ctx.is_strict {
            self.emit_throw_error("TypeError", "cannot assign to read-only property", ctx)
        } else {
            let tmp_reg = ctx.alloc_reg();
            ctx.inst(Inst::Op { op: OpCode::LoadVar, a: Operand::Reg(tmp_reg), b: Operand::Reg(reg), c: Operand::Unused });
            let result_reg = ctx.alloc_reg();
            let op = Self::rmw_opcode(increment, prefix);
            ctx.inst(Inst::Op { op, a: Operand::Reg(tmp_reg), b: Operand::Reg(result_reg), c: Operand::Reg(result_reg) });
            result_reg
        }
    }

    /// Writes a register binding's new value to the global object that
    /// mirrors it.
    fn emit_global_store(&self, name: &str, reg: u32, global: GlobalStore, ctx: &mut CompileCtx)
        requires
            old(ctx).wf(),
            old(ctx).next_reg + 1 < u32::MAX,
        ensures
            emitted(*old(ctx), *final(ctx)),
            final(ctx).emit_state() == global_store_state(
                old(ctx).emit_state(),
                name@,
                reg,
                global,
                old(ctx).is_global_scope && !old(ctx).is_eval_script,
            ),
    {
        match global {
            GlobalStore::Local => {},
            GlobalStore::Tier => self.emit_tier_global_write(name, reg, ctx),
            GlobalStore::Implicit => self.emit_implicit_global_write(name, reg, ctx),
            GlobalStore::WritableBuiltin => self.emit_global_put_write(name, reg, ctx),
        }
    }

    /// Reads a top-level `var` or undeclared name's value from the global
    /// object into its register.
    fn emit_global_read(&self, name: &str, reg: u32, global: GlobalStore, ctx: &mut CompileCtx)
        requires
            old(ctx).wf(),
        ensures
            emitted(*old(ctx), *final(ctx)),
            final(ctx).emit_state() == global_read_state(old(ctx).emit_state(), name@, reg, global),
    {
        if global == GlobalStore::Tier || global == GlobalStore::Implicit {
            let key_idx = ctx.add_constant(Constant::String(name.to_owned()));
            ctx.inst(
                Inst::Op { op: OpCode::LoadGlobalTypeof, a: Operand::Reg(reg), b: Operand::Const(key_idx), c: Operand::Unused },
            );
        }
    }

    /// The in-place update of register binding `reg`.
    #[verifier::rlimit(40)]
    fn emit_register_update(
        &self,
        name: &str,
        reg: u32,
        global: GlobalStore,
        increment: bool,
        prefix: bool,
        ctx: &mut CompileCtx,
    ) -> (r: u32)
        requires
            old(ctx).wf(),
            old(ctx).next_reg + 6 < u32::MAX,
        ensures
            emitted(*old(ctx), *final(ctx)),
            (final(ctx).emit_state(), r) == register_update_state(
                old(ctx).emit_state(),
                name@,
                reg,
                global,
                increment,
                prefix,
                old(ctx).is_strict,
                old(ctx).is_global_scope && !old(ctx).is_eval_script,
            ),
    {
        if global == GlobalStore::Implicit && ctx.is_strict {
            return self.emit_strict_undeclared_write(name, ctx);
        }
        self.emit_global_read(name, reg, global, ctx);
        let result_reg = ctx.alloc_reg();
        let op = Self::rmw_opcode(increment, prefix);
        ctx.inst(Inst::Op { op, a: Operand::Reg(reg), b: Operand::Reg(result_reg), c: Operand::Reg(result_reg) });
        self.emit_global_store(name, reg, global, ctx);
        result_reg
    }

    /// Emits `++name`, `name++`, `--name` or `name--` for the resolved
    /// `site`, and returns the register holding the expression's value.
    ///
    /// An uninitialised binding throws a ReferenceError and a constant a
    /// TypeError first. An upvalue or a captured cell is read, the integer 1
    /// added or subtracted, and the result written back; the prefix form
    /// yields the new value, the postfix form the old one. A register
    /// binding is updated in place; a top-level `var` or an undeclared name
    /// is first read from the global object and the new value written back
    /// to it, as is a writable builtin's. A read-only global computes the
    /// value but skips the write, and throws a TypeError in strict code; a
    /// strict update of an undeclared name throws a ReferenceError.
    #[verifier::rlimit(40)]
    pub fn emit_identifier_update_static(
        &self,
        name: &str,
        site: UpdateSite,
        increment: bool,
        prefix: bool,
        ctx: &mut CompileCtx,
    ) -> (r: u32)
        requires
            old(ctx).wf(),
            old(ctx).next_reg + 16 < u32::MAX,
        ensures
            emitted(*old(ctx), *final(ctx)),
            (final(ctx).emit_state(), r) == update_static_state(
                old(ctx).emit_state(),
                name@,
                site,
                increment,
                prefix,
                old(ctx).is_strict,
                old(ctx).is_global_scope && !old(ctx).is_eval_script,
            ),
    {
        self.emit_update_guards(name, site, ctx);
        proof {
            reveal(update_body_state);
        }
        match site.binding {
            UpdateBinding::Upvalue { .. } | UpdateBinding::Cell { .. } => self.emit_closure_update(
                site.binding,
                increment,
                prefix,
                ctx,
            ),
            UpdateBinding::ReadOnlyGlobal { reg } => self.emit_readonly_update(reg, increment, prefix, ctx),
            UpdateBinding::Register { reg, global } => self.emit_register_update(name, reg, global, increment, prefix, ctx),
        }
    }
}

/// A thrown error takes between one and five registers.
proof fn lemma_throw_regs(s: EmitState, kind: Seq<char>, msg: Seq<char>)
    ensures
        s.next_reg < throw_error_state(s, kind, msg).0.next_reg <= s.next_reg + 5,
{
}

} // verus!
