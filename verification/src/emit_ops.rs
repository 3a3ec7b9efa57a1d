//! Instruction sequences that need no name resolution: constant loads,
//! run-time error throws, global object property writes of top-level
//! declarations, the global function declaration checks, native module
//! calls, and private-name and class-key loads.
use vstd::prelude::*;
use vstd::string::StringExecFns;
use crate::ast::Statement;
use crate::block_fn::{dedup_from, push_unique};
use crate::cells::views;
use crate::ctx::{
    same_except_emission, st_alloc, st_builtin, st_builtin_reg, st_const, st_const_idx, st_inst, CompileCtx, ConstKey,
    Constant, EmitState,
};
use crate::emitter::Emitter;
use crate::inst::{Inst, OpCode, Operand};
use crate::names::{collect_top_level_function_names_ordered, top_level_function_sequence};
use crate::text::str_eq;

verus! {

/// Adding constant `c`, allocating a register and loading the constant into it.
pub open spec fn load_const_state(s: EmitState, c: ConstKey) -> (EmitState, u32) {
    let idx = st_const_idx(s, c);
    let s1 = st_const(s, c);
    let reg = s1.next_reg as u32;
    (st_inst(st_alloc(s1), Inst::LoadConst { dst: Operand::Reg(reg), idx }), reg)
}

/// The run-time throw of `new kind(msg)`: the constructor's builtin slot is
/// registered, the constructor read from the global object, the message
/// loaded, the error constructed and thrown, and a dummy register loaded
/// with `undefined` so that code after the throw reads a defined register.
pub open spec fn throw_error_state(s: EmitState, kind: Seq<char>, msg: Seq<char>) -> (EmitState, u32) {
    let s1 = st_builtin(s, kind);
    let ctor = s1.next_reg as u32;
    let s2 = st_alloc(s1);
    let key_idx = st_const_idx(s2, ConstKey::String(kind));
    let s3 = st_const(s2, ConstKey::String(kind));
    let s4 = st_inst(s3, Inst::Op { op: OpCode::LoadGlobal, a: Operand::Reg(ctor), b: Operand::Const(key_idx), c: Operand::Unused });
    let (s5, msg_reg) = load_const_state(s4, ConstKey::String(msg));
    let exc = s5.next_reg as u32;
    let s6 = st_alloc(s5);
    let s7 = st_inst(
        s6,
        Inst::NewExpression { dst: Operand::Reg(exc), callee: Operand::Reg(ctor), arg: Operand::Reg(msg_reg), argc: 1 },
    );
    let s8 = st_inst(s7, Inst::Op { op: OpCode::Throw, a: Operand::Reg(exc), b: Operand::Unused, c: Operand::Unused });
    load_const_state(s8, ConstKey::Undefined)
}

/// The state after writing `val_reg` to global property `name` through the
/// top-level `this` with instruction form `define` (key loaded into a fresh
/// register first).
pub open spec fn keyed_define_state(s: EmitState, name: Seq<char>, val_reg: u32, define: int) -> EmitState {
    let (s1, key) = load_const_state(s, ConstKey::String(name));
    let i = if define == 0 {
        Inst::DefineGlobalProp { obj: Operand::This, value: Operand::Reg(val_reg), key: Operand::Reg(key) }
    } else if define == 1 {
        Inst::DefineGlobalPropIfAbsent { obj: Operand::This, value: Operand::Reg(val_reg), key: Operand::Reg(key) }
    } else {
        Inst::DefineGlobalFuncBind { obj: Operand::This, value: Operand::Reg(val_reg), key: Operand::Reg(key) }
    };
    st_inst(s1, i)
}

/// The state after a configurable global property write of `val_reg` to
/// `name` on the session's global object.
pub open spec fn session_define_state(s: EmitState, name: Seq<char>, val_reg: u32, if_absent: bool) -> EmitState {
    let idx = st_const_idx(s, ConstKey::String(name));
    let s1 = st_const(s, ConstKey::String(name));
    st_inst(
        s1,
        if if_absent {
            Inst::DefineGlobalPropCIfAbsent { value: Operand::Reg(val_reg), idx }
        } else {
            Inst::DefineGlobalPropC { value: Operand::Reg(val_reg), idx }
        },
    )
}

/// The instructions of the global function declaration checks for `names`.
pub open spec fn gdi_checks_state(s: EmitState, names: Seq<Seq<char>>) -> EmitState
    decreases names.len(),
{
    if names.len() == 0 {
        s
    } else {
        let (s1, key) = load_const_state(gdi_checks_state(s, names.drop_last()), ConstKey::String(names.last()));
        st_inst(s1, Inst::CanDeclareGlobalFunc { obj: Operand::This, key: Operand::Reg(key) })
    }
}

/// The names checked by the global function declaration checks: the
/// top-level function declaration names from last to first, each once (the
/// last declaration of a name is the one that counts).
pub open spec fn gdi_check_names(stmts: Seq<Statement>) -> Seq<Seq<char>> {
    dedup_from(Seq::empty(), top_level_function_sequence(stmts).reverse())
}

/// The checks use at most one register per name.
proof fn lemma_gdi_checks_bound(s: EmitState, names: Seq<Seq<char>>)
    ensures
        gdi_checks_state(s, names).next_reg <= s.next_reg + names.len(),
        gdi_checks_state(s, names).next_reg >= s.next_reg,
    decreases names.len(),
{
    if names.len() > 0 {
        lemma_gdi_checks_bound(s, names.drop_last());
    }
}

/// Deduplication keeps at most as many elements as it is given.
proof fn lemma_dedup_len(d: Seq<Seq<char>>, s: Seq<Seq<char>>)
    ensures
        dedup_from(d, s).len() <= d.len() + s.len(),
    decreases s.len(),
{
    if s.len() > 0 {
        lemma_dedup_len(d, s.drop_last());
    }
}

/// A statement list has at most one top-level function name per statement.
proof fn lemma_top_level_len(ss: Seq<Statement>)
    ensures
        top_level_function_sequence(ss).len() <= ss.len(),
    decreases ss.len(),
{
    if ss.len() > 0 {
        lemma_top_level_len(ss.drop_last());
    }
}

/// Emission keeps the pool well-formed and everything else unchanged.
pub open spec fn emitted(a: CompileCtx, b: CompileCtx) -> bool {
    &&& b.wf()
    &&& same_except_emission(a, b)
}

impl Emitter {
    /// Loads `undefined` into a fresh register.
    pub fn emit_undefined(&self, ctx: &mut CompileCtx) -> (reg: u32)
        requires
            old(ctx).wf(),
            old(ctx).next_reg + 1 < u32::MAX,
        ensures
            emitted(*old(ctx), *final(ctx)),
            (final(ctx).emit_state(), reg) == load_const_state(old(ctx).emit_state(), ConstKey::Undefined),
    {
        let idx = ctx.add_constant(Constant::Undefined);
        let reg = ctx.alloc_reg();
        ctx.inst(Inst::LoadConst { dst: Operand::Reg(reg), idx });
        reg
    }

    /// Loads string constant `s` into a fresh register.
    pub fn load_string_const(&self, s: &str, ctx: &mut CompileCtx) -> (reg: u32)
        requires
            old(ctx).wf(),
            old(ctx).next_reg + 1 < u32::MAX,
        ensures
            emitted(*old(ctx), *final(ctx)),
            (final(ctx).emit_state(), reg) == load_const_state(old(ctx).emit_state(), ConstKey::String(s@)),
    {
        let idx = ctx.add_constant(Constant::String(s.to_owned()));
        let reg = ctx.alloc_reg();
        ctx.inst(Inst::LoadConst { dst: Operand::Reg(reg), idx });
        reg
    }

    /// Emits a run-time throw of `new kind(msg)` (`kind` names a global error
    /// constructor) and returns a register holding `undefined` for the code
    /// that follows.
    pub fn emit_throw_error(&self, kind: &str, msg: &str, ctx: &mut CompileCtx) -> (reg: u32)
        requires
            old(ctx).wf(),
            old(ctx).next_reg + 5 < u32::MAX,
        ensures
            emitted(*old(ctx), *final(ctx)),
            (final(ctx).emit_state(), reg) == throw_error_state(old(ctx).emit_state(), kind@, msg@),
    {
        let _ = ctx.global_slot(kind);
        let ctor = ctx.alloc_reg();
        let key_idx = ctx.add_constant(Constant::String(kind.to_owned()));
        ctx.inst(Inst::Op { op: OpCode::LoadGlobal, a: Operand::Reg(ctor), b: Operand::Const(key_idx), c: Operand::Unused });
        let msg_reg = self.load_string_const(msg, ctx);
        let exc_reg = ctx.alloc_reg();
        ctx.inst(
            Inst::NewExpression {
                dst: Operand::Reg(exc_reg),
                callee: Operand::Reg(ctor),
                arg: Operand::Reg(msg_reg),
                argc: 1,
            },
        );
        ctx.inst(Inst::Op { op: OpCode::Throw, a: Operand::Reg(exc_reg), b: Operand::Unused, c: Operand::Unused });
        self.emit_undefined(ctx)
    }

    /// Emits the ReferenceError throw of an access in the temporal dead zone.
    pub fn emit_tdz_throw(&self, msg: &str, ctx: &mut CompileCtx) -> (reg: u32)
        requires
            old(ctx).wf(),
            old(ctx).next_reg + 5 < u32::MAX,
        ensures
            emitted(*old(ctx), *final(ctx)),
            (final(ctx).emit_state(), reg) == throw_error_state(old(ctx).emit_state(), "ReferenceError"@, msg@),
    {
        self.emit_throw_error("ReferenceError", msg, ctx)
    }

    /// A strict-mode write to an undeclared name: the ReferenceError throw
    /// `<name> is not defined`, as a read reports it.
    pub fn emit_strict_undeclared_write(&self, name: &str, ctx: &mut CompileCtx) -> (reg: u32)
        requires
            old(ctx).wf(),
            old(ctx).next_reg + 5 < u32::MAX,
        ensures
            emitted(*old(ctx), *final(ctx)),
            (final(ctx).emit_state(), reg) == throw_error_state(
                old(ctx).emit_state(),
                "ReferenceError"@,
                name@ + " is not defined"@,
            ),
    {
        let mut msg = String::from_str(name);
        msg.append(" is not defined");
        self.emit_throw_error("ReferenceError", msg.as_str(), ctx)
    }

    /// A sloppy write to an undeclared name: defines a writable, enumerable,
    /// configurable property of the global object.
    pub fn emit_implicit_global_write(&self, name: &str, val_reg: u32, ctx: &mut CompileCtx)
        requires
            old(ctx).wf(),
        ensures
            emitted(*old(ctx), *final(ctx)),
            final(ctx).emit_state() == session_define_state(old(ctx).emit_state(), name@, val_reg, false),
    {
        let idx = ctx.add_constant(Constant::String(name.to_owned()));
        ctx.inst(Inst::DefineGlobalPropC { value: Operand::Reg(val_reg), idx });
    }

    /// Mirrors a top-level `var`/function binding's value into the global
    /// object: through the top-level `this` (non-configurable) in a script,
    /// configurable on the session's global object in an eval script.
    pub fn emit_global_prop_write(&self, name: &str, val_reg: u32, ctx: &mut CompileCtx)
        requires
            old(ctx).wf(),
            old(ctx).next_reg + 1 < u32::MAX,
        ensures
            emitted(*old(ctx), *final(ctx)),
            final(ctx).emit_state() == if old(ctx).is_eval_script {
                session_define_state(old(ctx).emit_state(), name@, val_reg, false)
            } else {
                keyed_define_state(old(ctx).emit_state(), name@, val_reg, 0)
            },
    {
        if ctx.is_eval_script {
            let idx = ctx.add_constant(Constant::String(name.to_owned()));
            ctx.inst(Inst::DefineGlobalPropC { value: Operand::Reg(val_reg), idx });
        } else {
            let key_reg = self.load_string_const(name, ctx);
            ctx.inst(Inst::DefineGlobalProp { obj: Operand::This, value: Operand::Reg(val_reg), key: Operand::Reg(key_reg) });
        }
    }

    /// The global binding write of a top-level function declaration: the
    /// function-binding define through `this` in a script (its checks were
    /// done up front), the eval-script property write otherwise.
    pub fn emit_global_func_bind_write(&self, name: &str, val_reg: u32, ctx: &mut CompileCtx)
        requires
            old(ctx).wf(),
            old(ctx).next_reg + 1 < u32::MAX,
        ensures
            emitted(*old(ctx), *final(ctx)),
            final(ctx).emit_state() == if old(ctx).is_eval_script {
                session_define_state(old(ctx).emit_state(), name@, val_reg, false)
            } else {
                keyed_define_state(old(ctx).emit_state(), name@, val_reg, 2)
            },
    {
        if ctx.is_eval_script {
            self.emit_global_prop_write(name, val_reg, ctx);
            return;
        }
        let key_reg = self.load_string_const(name, ctx);
        ctx.inst(Inst::DefineGlobalFuncBind { obj: Operand::This, value: Operand::Reg(val_reg), key: Operand::Reg(key_reg) });
    }

    /// The global property update of a top-level `var` with an initializer
    /// (a put: fails on a read-only property as a put does).
    pub fn emit_global_put_write(&self, name: &str, val_reg: u32, ctx: &mut CompileCtx)
        requires
            old(ctx).wf(),
        ensures
            emitted(*old(ctx), *final(ctx)),
            final(ctx).emit_state() == session_define_state(old(ctx).emit_state(), name@, val_reg, false),
    {
        let idx = ctx.add_constant(Constant::String(name.to_owned()));
        ctx.inst(Inst::DefineGlobalPropC { value: Operand::Reg(val_reg), idx });
    }

    /// A bare write to a top-level declared `var`, whose only storage is the
    /// global object: through `this` in a top-level script, on the session's
    /// global object elsewhere (eval, nested functions).
    pub fn emit_tier_global_write(&self, name: &str, val_reg: u32, ctx: &mut CompileCtx)
        requires
            old(ctx).wf(),
            old(ctx).next_reg + 1 < u32::MAX,
        ensures
            emitted(*old(ctx), *final(ctx)),
            final(ctx).emit_state() == if old(ctx).is_global_scope && !old(ctx).is_eval_script {
                keyed_define_state(old(ctx).emit_state(), name@, val_reg, 0)
            } else {
                session_define_state(old(ctx).emit_state(), name@, val_reg, false)
            },
    {
        if ctx.is_global_scope && !ctx.is_eval_script {
            let key_reg = self.load_string_const(name, ctx);
            ctx.inst(Inst::DefineGlobalProp { obj: Operand::This, value: Operand::Reg(val_reg), key: Operand::Reg(key_reg) });
        } else {
            let idx = ctx.add_constant(Constant::String(name.to_owned()));
            ctx.inst(Inst::DefineGlobalPropC { value: Operand::Reg(val_reg), idx });
        }
    }

    /// The declaration-instantiation prologue write of a top-level `var`:
    /// the property is created only where it is missing.
    pub fn emit_global_prop_write_if_absent(&self, name: &str, val_reg: u32, ctx: &mut CompileCtx)
        requires
            old(ctx).wf(),
            old(ctx).next_reg + 1 < u32::MAX,
        ensures
            emitted(*old(ctx), *final(ctx)),
            final(ctx).emit_state() == if old(ctx).is_eval_script {
                session_define_state(old(ctx).emit_state(), name@, val_reg, true)
            } else {
                keyed_define_state(old(ctx).emit_state(), name@, val_reg, 1)
            },
    {
        if ctx.is_eval_script {
            let idx = ctx.add_constant(Constant::String(name.to_owned()));
            ctx.inst(Inst::DefineGlobalPropCIfAbsent { value: Operand::Reg(val_reg), idx });
        } else {
            let key_reg = self.load_string_const(name, ctx);
            ctx.inst(
                Inst::DefineGlobalPropIfAbsent { obj: Operand::This, value: Operand::Reg(val_reg), key: Operand::Reg(key_reg) },
            );
        }
    }

    /// The check phase of global declaration instantiation for functions:
    /// one run-time `CanDeclareGlobalFunction` check per top-level function
    /// name, from the last declaration to the first, each name once. It
    /// precedes every binding so that a failed check instantiates nothing.
    #[verifier::loop_isolation(false)]
    pub fn emit_gdi_func_decl_checks(&self, stmts: &Vec<Statement>, ctx: &mut CompileCtx)
        requires
            old(ctx).wf(),
            old(ctx).next_reg + stmts@.len() + 1 < u32::MAX,
        ensures
            emitted(*old(ctx), *final(ctx)),
            final(ctx).emit_state() == gdi_checks_state(old(ctx).emit_state(), gdi_check_names(stmts@)),
    {
        let names = collect_top_level_function_names_ordered(stmts);
        let ghost all = top_level_function_sequence(stmts@);
        let ghost rev = all.reverse();
        proof {
            lemma_top_level_len(stmts@);
            assert(views(names@) =~= all);
        }
        let mut seen: Vec<String> = Vec::new();
        let mut j: usize = 0;
        assert(rev.take(0) =~= Seq::<Seq<char>>::empty());
        assert(views(seen@) =~= Seq::<Seq<char>>::empty());
        while j < names.len()
            invariant
                j <= names@.len(),
                views(names@) == all,
                rev == all.reverse(),
                views(seen@) == dedup_from(Seq::empty(), rev.take(j as int)),
                emitted(*old(ctx), *ctx),
                ctx.emit_state() == gdi_checks_state(old(ctx).emit_state(), views(seen@)),
                old(ctx).next_reg + all.len() + 1 < u32::MAX,
                views(seen@).len() <= j,
            decreases names.len() - j,
        {
            let k = names.len() - 1 - j;
            let name = names[k].as_str();
            proof {
                assert(rev[j as int] == all[k as int]);
                assert(all[k as int] == name@);
                assert(rev.take(j + 1).drop_last() =~= rev.take(j as int));
                assert(rev.take(j + 1).last() == name@);
            }
            let before = seen.len();
            let ghost seen_before = views(seen@);
            push_unique(&mut seen, name);
            proof {
                assert(seq![name@].drop_last() =~= Seq::<Seq<char>>::empty());
                assert(dedup_from(seen_before, seq![name@].drop_last()) == seen_before);
            }
            if seen.len() > before {
                proof {
                    lemma_gdi_checks_bound(old(ctx).emit_state(), seen_before);
                    assert(views(seen@) == seen_before.push(name@));
                    assert(views(seen@).drop_last() =~= seen_before);
                }
                let key_reg = self.load_string_const(name, ctx);
                ctx.inst(Inst::CanDeclareGlobalFunc { obj: Operand::This, key: Operand::Reg(key_reg) });
            } else {
                assert(views(seen@) == seen_before);
            }
            j += 1;
        }
        assert(rev.take(names@.len() as int) =~= rev);
    }
}

/// `regs` are consecutive: each is one more than the one before.
pub open spec fn consecutive(regs: Seq<u32>) -> bool {
    forall|i: int| 0 <= i < regs.len() - 1 ==> #[trigger] regs[i + 1] == regs[i] + 1
}

/// Whether `regs` are consecutive.
fn regs_consecutive(regs: &[u32]) -> (r: bool)
    requires
        regs@.len() > 0,
        forall|i: int| 0 <= i < regs@.len() - 1 ==> #[trigger] regs@[i] < u32::MAX,
    ensures
        r == consecutive(regs@),
{
    let mut w: usize = 1;
    while w < regs.len()
        invariant
            1 <= w <= regs@.len(),
            forall|i: int| 0 <= i < regs@.len() - 1 ==> #[trigger] regs@[i] < u32::MAX,
            forall|i: int| 0 <= i < w - 1 ==> #[trigger] regs@[i + 1] == regs@[i] + 1,
        decreases regs.len() - w,
    {
        assert(regs@[w - 1] < u32::MAX);
        if regs[w] != regs[w - 1] + 1 {
            assert(!consecutive(regs@)) by {
                assert(regs@[(w - 1) + 1] != regs@[w - 1] + 1);
            }
            return false;
        }
        w += 1;
    }
    true
}

/// The state after allocating `n` consecutive registers.
pub open spec fn alloc_block_state(s: EmitState, n: int) -> EmitState {
    EmitState {
        next_reg: s.next_reg + n,
        max_regs: if s.next_reg + n > s.max_regs {
            s.next_reg + n
        } else {
            s.max_regs
        },
        ..s
    }
}

/// The moves copying `regs` into the block starting at `base`.
pub open spec fn block_moves(base: int, regs: Seq<u32>) -> Seq<Inst> {
    Seq::new(regs.len(), |i: int| Inst::Mov { dst: Operand::Reg((base + i) as u32), src: Operand::Reg(regs[i]) })
}

/// Allocates `n` consecutive registers and returns the first.
fn alloc_block(ctx: &mut CompileCtx, n: usize) -> (base: u32)
    requires
        old(ctx).wf(),
        n > 0,
        old(ctx).next_reg + n < u32::MAX,
    ensures
        emitted(*old(ctx), *final(ctx)),
        base == old(ctx).next_reg,
        final(ctx).emit_state() == alloc_block_state(old(ctx).emit_state(), n as int),
{
    let base = ctx.alloc_reg();
    let mut k: usize = 1;
    while k < n
        invariant
            1 <= k <= n,
            old(ctx).next_reg + n < u32::MAX,
            emitted(*old(ctx), *ctx),
            ctx.emit_state() == alloc_block_state(old(ctx).emit_state(), k as int),
        decreases n - k,
    {
        ctx.alloc_reg();
        k += 1;
    }
    base
}

/// Copies `regs` into the block of registers starting at `base`.
fn emit_block_moves(ctx: &mut CompileCtx, base: u32, regs: &[u32])
    requires
        old(ctx).wf(),
        base + regs@.len() <= u32::MAX,
    ensures
        emitted(*old(ctx), *final(ctx)),
        final(ctx).emit_state() == (EmitState {
            insts: old(ctx).emit_state().insts + block_moves(base as int, regs@),
            ..old(ctx).emit_state()
        }),
{
    let mut i: usize = 0;
    while i < regs.len()
        invariant
            i <= regs@.len(),
            base + regs@.len() <= u32::MAX,
            emitted(*old(ctx), *ctx),
            ctx.emit_state() == (EmitState {
                insts: old(ctx).emit_state().insts + block_moves(base as int, regs@.take(i as int)),
                ..old(ctx).emit_state()
            }),
        decreases regs.len() - i,
    {
        let dst = base + i as u32;
        ctx.inst(Inst::Mov { dst: Operand::Reg(dst), src: Operand::Reg(regs[i]) });
        assert(block_moves(base as int, regs@.take(i + 1)) =~= block_moves(base as int, regs@.take(i as int)).push(
            Inst::Mov { dst: Operand::Reg(dst), src: Operand::Reg(regs@[i as int]) },
        ));
        i += 1;
    }
    assert(regs@.take(regs@.len() as int) =~= regs@);
}

/// Makes the argument registers of a native call consecutive: registers
/// already consecutive are used as they are; otherwise a fresh block is
/// allocated and each argument copied into it. Returns the first register;
/// with no arguments, 0 and nothing emitted.
pub fn pack_arg_regs(arg_regs: &[u32], ctx: &mut CompileCtx) -> (first: u32)
    requires
        old(ctx).wf(),
        forall|i: int| 0 <= i < arg_regs@.len() - 1 ==> #[trigger] arg_regs@[i] < u32::MAX,
        old(ctx).next_reg + arg_regs@.len() < u32::MAX,
    ensures
        emitted(*old(ctx), *final(ctx)),
        arg_regs@.len() == 0 ==> first == 0 && *final(ctx) == *old(ctx),
        arg_regs@.len() > 0 && consecutive(arg_regs@) ==> first == arg_regs@[0] && final(ctx).emit_state() == old(
            ctx,
        ).emit_state(),
        !consecutive(arg_regs@) ==> first == old(ctx).next_reg && final(ctx).emit_state() == (EmitState {
            insts: old(ctx).emit_state().insts + block_moves(old(ctx).next_reg as int, arg_regs@),
            ..alloc_block_state(old(ctx).emit_state(), arg_regs@.len() as int)
        }),
{
    if arg_regs.len() == 0 {
        return 0;
    }
    if regs_consecutive(arg_regs) {
        return arg_regs[0];
    }
    let base = alloc_block(ctx, arg_regs.len());
    emit_block_moves(ctx, base, arg_regs);
    base
}

/// The state after packing the arguments `regs` of a native call, and the
/// first argument register (`this_reg` when there are none).
pub open spec fn pack_args_state(s: EmitState, regs: Seq<u32>, this_reg: u32) -> (EmitState, u32) {
    if regs.len() == 0 {
        (s, this_reg)
    } else if consecutive(regs) {
        (s, regs[0])
    } else {
        (EmitState { insts: s.insts + block_moves(s.next_reg, regs), ..alloc_block_state(s, regs.len() as int) }, s.next_reg as u32)
    }
}

/// A call of the native global `name` with arguments `regs` and an
/// `undefined` receiver, and the register its result is read into.
pub open spec fn module_call_state(s: EmitState, name: Seq<char>, regs: Seq<u32>) -> (EmitState, u32) {
    let s1 = st_builtin(s, name);
    let callee = st_builtin_reg(s, name);
    let (s2, this_reg) = load_const_state(s1, ConstKey::Undefined);
    let (s3, first) = pack_args_state(s2, regs, this_reg);
    let s4 = st_inst(
        s3,
        Inst::CallNative {
            callee: Operand::Reg(callee),
            this: Operand::Reg(this_reg),
            first_arg: Operand::Reg(first),
            argc: regs.len() as u8,
        },
    );
    let result = s4.next_reg as u32;
    (st_inst(st_alloc(s4), Inst::Op { op: OpCode::LoadVar, a: Operand::Reg(result), b: Operand::Unused, c: Operand::Unused }), result)
}

/// The message for an undefined private name.
pub open spec fn undefined_private_message(name: Seq<char>) -> Seq<char> {
    "private name #"@ + name + " is not defined"@
}

/// The id of the first private name entry named `n`.
pub open spec fn first_private(m: Seq<(String, u32)>, n: Seq<char>) -> Option<u32>
    decreases m.len(),
{
    if m.len() == 0 {
        None
    } else if m[0].0@ == n {
        Some(m[0].1)
    } else {
        first_private(m.drop_first(), n)
    }
}

impl Emitter {
    /// Calls the native global `name` (a module helper) with the argument
    /// registers `arg_regs`, packed into consecutive registers as the call
    /// reads them, and returns the register the result is read into.
    #[verifier::rlimit(80)]
    pub fn emit_module_call(&self, ctx: &mut CompileCtx, name: &str, arg_regs: &[u32]) -> (reg: u32)
        requires
            old(ctx).wf(),
            forall|i: int| 0 <= i < arg_regs@.len() - 1 ==> #[trigger] arg_regs@[i] < u32::MAX,
            old(ctx).next_reg + arg_regs@.len() + 3 < u32::MAX,
        ensures
            emitted(*old(ctx), *final(ctx)),
            (final(ctx).emit_state(), reg) == module_call_state(old(ctx).emit_state(), name@, arg_regs@),
    {
        let ghost s0 = ctx.emit_state();
        let callee_reg = ctx.global_slot(name);
        let ghost s1 = ctx.emit_state();
        let this_reg = self.emit_undefined(ctx);
        let ghost s2 = ctx.emit_state();
        assert((s2, this_reg) == load_const_state(s1, ConstKey::Undefined));
        let first_arg_reg = if arg_regs.len() == 0 {
            this_reg
        } else {
            pack_arg_regs(arg_regs, ctx)
        };
        let ghost s3 = ctx.emit_state();
        assert((s3, first_arg_reg) == pack_args_state(s2, arg_regs@, this_reg));
        let len = arg_regs.len();
        let argc: u8 = (len % 256) as u8;
        assert(argc == len as u8) by (bit_vector)
            requires
                argc == (len % 256) as u8,
        ;
        ctx.inst(
            Inst::CallNative {
                callee: Operand::Reg(callee_reg),
                this: Operand::Reg(this_reg),
                first_arg: Operand::Reg(first_arg_reg),
                argc,
            },
        );
        let result_reg = ctx.alloc_reg();
        ctx.inst(Inst::Op { op: OpCode::LoadVar, a: Operand::Reg(result_reg), b: Operand::Unused, c: Operand::Unused });
        result_reg
    }

    /// Registers `value_reg` under export `name` in the module namespace
    /// object `ns_reg`.
    pub fn emit_module_set(&self, ctx: &mut CompileCtx, ns_reg: u32, name: &str, value_reg: u32)
        requires
            old(ctx).wf(),
            ns_reg < u32::MAX,
            old(ctx).next_reg + 8 < u32::MAX,
        ensures
            emitted(*old(ctx), *final(ctx)),
            ({
                let (s1, name_reg) = load_const_state(old(ctx).emit_state(), ConstKey::String(name@));
                final(ctx).emit_state() == module_call_state(s1, "__moduleSet"@, seq![ns_reg, name_reg, value_reg]).0
            }),
    {
        let name_reg = self.load_string_const(name, ctx);
        let args = [ns_reg, name_reg, value_reg];
        assert(args@ =~= seq![ns_reg, name_reg, value_reg]);
        let _ = self.emit_module_call(ctx, "__moduleSet", &args);
    }

    /// The id of private name `#name`.
    pub fn private_name_id(&self, name: &str, ctx: &CompileCtx) -> (r: Result<u32, String>)
        ensures
            match first_private(ctx.private_name_map@, name@) {
                Some(id) => r == Ok::<u32, String>(id),
                None => r matches Err(e) && e@ == undefined_private_message(name@),
            },
    {
        let ghost m = ctx.private_name_map@;
        let mut i: usize = 0;
        assert(m.skip(0) =~= m);
        while i < ctx.private_name_map.len()
            invariant
                m == ctx.private_name_map@,
                i <= m.len(),
                first_private(m, name@) == first_private(m.skip(i as int), name@),
            decreases ctx.private_name_map.len() - i,
        {
            assert(m.skip(i as int)[0] == m[i as int]);
            if str_eq(ctx.private_name_map[i].0.as_str(), name) {
                return Ok(ctx.private_name_map[i].1);
            }
            assert(m.skip(i as int).drop_first() =~= m.skip(i + 1));
            i += 1;
        }
        let mut msg = String::from_str("private name #");
        msg.append(name);
        msg.append(" is not defined");
        Err(msg)
    }

    /// Loads the id of private name `#name` into a fresh register.
    pub fn emit_private_id_reg(&self, name: &str, ctx: &mut CompileCtx) -> (r: Result<u32, String>)
        requires
            old(ctx).wf(),
            old(ctx).next_reg + 1 < u32::MAX,
        ensures
            emitted(*old(ctx), *final(ctx)),
            match first_private(old(ctx).private_name_map@, name@) {
                Some(id) => r matches Ok(reg) && (final(ctx).emit_state(), reg) == load_const_state(
                    old(ctx).emit_state(),
                    ConstKey::Int(id as i32),
                ),
                None => r matches Err(e) && e@ == undefined_private_message(name@) && final(ctx).emit_state()
                    == old(ctx).emit_state(),
            },
    {
        let id = match self.private_name_id(name, ctx) {
            Ok(id) => id,
            Err(e) => {
                return Err(e);
            },
        };
        let idx = ctx.add_constant(Constant::Int(id as i32));
        let reg = ctx.alloc_reg();
        ctx.inst(Inst::LoadConst { dst: Operand::Reg(reg), idx });
        Ok(reg)
    }

    /// Reads computed key `slot` of the class being defined from its keys
    /// array, returning the register holding the key.
    pub fn emit_class_array_key_reg(&self, slot: u8, ctx: &mut CompileCtx) -> (reg: u32)
        requires
            old(ctx).wf(),
            old(ctx).class_keys_reg is Some,
            old(ctx).next_reg + 2 < u32::MAX,
        ensures
            emitted(*old(ctx), *final(ctx)),
            ({
                let (s1, idx_reg) = load_const_state(old(ctx).emit_state(), ConstKey::Int(slot as i32));
                let key = s1.next_reg as u32;
                &&& reg == key
                &&& final(ctx).emit_state() == st_inst(
                    st_alloc(s1),
                    Inst::Op {
                        op: OpCode::GetPropDynamic,
                        a: Operand::Reg(old(ctx).class_keys_reg->0),
                        b: Operand::Reg(idx_reg),
                        c: Operand::Reg(key),
                    },
                )
            }),
    {
        let arr_reg = match ctx.class_keys_reg {
            Some(r) => r,
            None => 0,
        };
        let idx = ctx.add_constant(Constant::Int(slot as i32));
        let idx_reg = ctx.alloc_reg();
        ctx.inst(Inst::LoadConst { dst: Operand::Reg(idx_reg), idx });
        let key_reg = ctx.alloc_reg();
        ctx.inst(Inst::Op { op: OpCode::GetPropDynamic, a: Operand::Reg(arr_reg), b: Operand::Reg(idx_reg), c: Operand::Reg(key_reg) });
        key_reg
    }
}

} // verus!
