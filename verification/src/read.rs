//! A static read of an identifier whose binding has been resolved: a live
//! import, an upvalue, a captured cell, or a binding found (or not) on the
//! scope chain.
use vstd::prelude::*;
use crate::ctx::{
    global_slot_post, st_alloc, st_builtin, st_builtin_reg, st_const, st_const_idx, st_inst, CompileCtx, ConstKey, Constant,
    EmitState, ScopeLookup,
};
use crate::emit_ops::{emitted, load_const_state, module_call_state, throw_error_state};
use crate::emitter::Emitter;
use crate::delete::two_labels_placed;
use crate::inst::{Inst, OpCode, Operand};

verus! {

/// The resolved binding of a read identifier.
#[allow(inconsistent_fields)]
pub enum ReadSite {
    /// A named or default import of a dependency that may reassign it: read
    /// from the dependency's namespace (in `dep_ns`) under `exported` at
    /// each read.
    LiveImport { dep_ns: u32, exported: String },
    /// Upvalue `index` of the current function.
    Upvalue { index: u8 },
    /// Captured cell `cell` of a binding visible in scope, held in `binding`.
    Cell { cell: u8, binding: u32 },
    /// What the scope chain answered; `global_tier` when the name is a
    /// top-level declared `var` bound in the global scope.
    Scope { lookup: ScopeLookup, global_tier: bool },
}

/// Reading binding register `v` (of `name`) into a fresh register: through
/// the global object for a top-level `var` or the slot of an undeclared
/// name (a missing property throws a ReferenceError), from the register
/// otherwise.
pub open spec fn register_read_state(s: EmitState, name: Seq<char>, v: u32, through_global: bool) -> (EmitState, u32) {
    let r = s.next_reg as u32;
    let s1 = st_alloc(s);
    if through_global {
        let idx = st_const_idx(s1, ConstKey::String(name));
        (st_inst(st_const(s1, ConstKey::String(name)), Inst::Op { op: OpCode::LoadGlobal, a: Operand::Reg(r), b: Operand::Const(idx), c: Operand::Unused }), r)
    } else {
        (st_inst(s1, Inst::Op { op: OpCode::LoadVar, a: Operand::Reg(r), b: Operand::Reg(v), c: Operand::Unused }), r)
    }
}

/// A read resolved through the scope chain, given the context's registers
/// of undeclared names first met in a write (`writes`): a failed lookup is
/// an error; a read before initialisation throws a ReferenceError at run
/// time; an undeclared name is read through its global slot (registered on
/// first use).
#[verifier::opaque]
pub open spec fn scope_read_state(
    s: EmitState,
    writes: Seq<u32>,
    name: Seq<char>,
    lookup: ScopeLookup,
    global_tier: bool,
) -> Result<(EmitState, u32), Seq<char>> {
    match lookup {
        ScopeLookup::Failed(e) => Err(e@),
        ScopeLookup::Uninitialized(m) => Ok(throw_error_state(s, "ReferenceError"@, m@)),
        ScopeLookup::Bound(v) => Ok(register_read_state(s, name, v, global_tier || writes.contains(v) || s.reads.contains(v))),
        ScopeLookup::Undeclared => {
            let s1 = st_builtin(s, name);
            let v = st_builtin_reg(s, name);
            Ok(register_read_state(s1, name, v, global_tier || writes.contains(v) || s1.reads.contains(v)))
        },
    }
}

/// The read of a live import: the dependency namespace's current value of
/// `exported`.
pub open spec fn live_import_state(s: EmitState, dep_ns: u32, exported: Seq<char>) -> (EmitState, u32) {
    let (s1, name_reg) = load_const_state(s, ConstKey::String(exported));
    module_call_state(s1, "__moduleGet"@, seq![dep_ns, name_reg])
}

/// The read of `name` at `site`.
pub open spec fn static_read_state(s: EmitState, writes: Seq<u32>, name: Seq<char>, site: ReadSite) -> Result<(EmitState, u32), Seq<char>> {
    match site {
        ReadSite::LiveImport { dep_ns, exported } => Ok(live_import_state(s, dep_ns, exported@)),
        ReadSite::Upvalue { index } => {
            let r = s.next_reg as u32;
            Ok((st_inst(st_alloc(s), Inst::Op { op: OpCode::LoadUpvalue, a: Operand::Reg(r), b: Operand::Imm(index as u16), c: Operand::Unused }), r))
        },
        ReadSite::Cell { cell, binding } => {
            let r = s.next_reg as u32;
            Ok((st_inst(st_alloc(s), Inst::Op { op: OpCode::CellGet, a: Operand::Reg(r), b: Operand::Reg(binding), c: Operand::Imm(cell as u16) }), r))
        },
        ReadSite::Scope { lookup, global_tier } => scope_read_state(s, writes, name, lookup, global_tier),
    }
}

/// Where a free identifier inside a `with` body is read from when the
/// `with` object lacks the property (the static resolution, with a missing
/// binding read as `undefined` rather than thrown on).
#[derive(Clone, Copy, PartialEq, Eq, Structural, Debug)]
#[allow(inconsistent_fields)]
pub enum WithFallback {
    /// Upvalue `index` of the current function.
    Upvalue { index: u8 },
    /// Captured cell `cell` of a binding visible in scope, held in `binding`.
    Cell { cell: u8, binding: u32 },
    /// A top-level declared `var`: the global object property.
    GlobalTier,
    /// A binding in register `reg`.
    Register { reg: u32 },
    /// No binding: `undefined`.
    Undefined,
}

/// The fallback read of `name` into `result`.
pub open spec fn with_fallback_state(s: EmitState, name: Seq<char>, result: u32, fb: WithFallback) -> EmitState {
    match fb {
        WithFallback::Upvalue { index } => st_inst(
            s,
            Inst::Op { op: OpCode::LoadUpvalue, a: Operand::Reg(result), b: Operand::Imm(index as u16), c: Operand::Unused },
        ),
        WithFallback::Cell { cell, binding } => st_inst(
            s,
            Inst::Op { op: OpCode::CellGet, a: Operand::Reg(result), b: Operand::Reg(binding), c: Operand::Imm(cell as u16) },
        ),
        WithFallback::GlobalTier => {
            let idx = st_const_idx(s, ConstKey::String(name));
            st_inst(
                st_const(s, ConstKey::String(name)),
                Inst::Op { op: OpCode::LoadGlobal, a: Operand::Reg(result), b: Operand::Const(idx), c: Operand::Unused },
            )
        },
        WithFallback::Register { reg } => st_inst(
            s,
            Inst::Op { op: OpCode::LoadVar, a: Operand::Reg(result), b: Operand::Reg(reg), c: Operand::Unused },
        ),
        WithFallback::Undefined => {
            let idx = st_const_idx(s, ConstKey::Undefined);
            st_inst(st_const(s, ConstKey::Undefined), Inst::LoadConst { dst: Operand::Reg(result), idx })
        },
    }
}

/// A read of `name` inside a `with` body, the `with` object in `obj_reg`,
/// with `fallback` and `fallback + 1` the fresh labels: when the object has
/// the property (by `in`, the prototype chain included) its value is read,
/// otherwise the name is read as `fb` says. Gives the state, the result
/// register and the positions of the two labels.
pub open spec fn with_read_state(s: EmitState, name: Seq<char>, obj_reg: u32, fallback: u32, fb: WithFallback) -> (EmitState, u32, usize, usize) {
    let (s1, key) = load_const_state(s, ConstKey::String(name));
    let has = s1.next_reg as u32;
    let s2 = st_inst(st_alloc(s1), Inst::Op { op: OpCode::In, a: Operand::Reg(has), b: Operand::Reg(key), c: Operand::Reg(obj_reg) });
    let s3 = st_inst(s2, Inst::JmpIfFalse { cond: Operand::Reg(has), label: fallback });
    let result = s3.next_reg as u32;
    let s4 = st_inst(st_alloc(s3), Inst::Op { op: OpCode::GetPropDynamic, a: Operand::Reg(obj_reg), b: Operand::Reg(key), c: Operand::Reg(result) });
    let s5 = st_inst(s4, Inst::Jmp { label: (fallback + 1) as u32 });
    let p1 = s5.insts.len() as usize;
    let s6 = with_fallback_state(s5, name, result, fb);
    (s6, result, p1, s6.insts.len() as usize)
}

impl Emitter {
    /// Reads `name` into `result` as the fallback `fb` says.
    fn emit_with_fallback(&self, name: &str, result: u32, fb: WithFallback, ctx: &mut CompileCtx)
        requires
            old(ctx).wf(),
        ensures
            emitted(*old(ctx), *final(ctx)),
            final(ctx).emit_state() == with_fallback_state(old(ctx).emit_state(), name@, result, fb),
    {
        match fb {
            WithFallback::Upvalue { index } => ctx.inst(
                Inst::Op { op: OpCode::LoadUpvalue, a: Operand::Reg(result), b: Operand::Imm(index as u16), c: Operand::Unused },
            ),
            WithFallback::Cell { cell, binding } => ctx.inst(
                Inst::Op { op: OpCode::CellGet, a: Operand::Reg(result), b: Operand::Reg(binding), c: Operand::Imm(cell as u16) },
            ),
            WithFallback::GlobalTier => {
                let idx = ctx.add_constant(Constant::String(name.to_owned()));
                ctx.inst(Inst::Op { op: OpCode::LoadGlobal, a: Operand::Reg(result), b: Operand::Const(idx), c: Operand::Unused });
            },
            WithFallback::Register { reg } => ctx.inst(
                Inst::Op { op: OpCode::LoadVar, a: Operand::Reg(result), b: Operand::Reg(reg), c: Operand::Unused },
            ),
            WithFallback::Undefined => {
                let idx = ctx.add_constant(Constant::Undefined);
                ctx.inst(Inst::LoadConst { dst: Operand::Reg(result), idx });
            },
        }
    }

    /// Emits the read of free identifier `name` inside a `with` body, the
    /// innermost `with` object in `obj_reg`: the object's property when the
    /// object has it (`in`, prototype chain included, as the object
    /// environment's HasBinding), otherwise the fallback `fb` (the static
    /// resolution, reading `undefined` where nothing binds the name).
    #[verifier::rlimit(30)]
    pub fn emit_with_dynamic_read(&self, name: &str, obj_reg: u32, fb: WithFallback, ctx: &mut CompileCtx) -> (r: u32)
        requires
            old(ctx).wf(),
            old(ctx).next_reg + 4 < u32::MAX,
            old(ctx).labels@.label_counter + 2 < u32::MAX,
            old(ctx).insts@.len() + 10 < usize::MAX,
        ensures
            emitted(*old(ctx), CompileCtx { labels: old(ctx).labels, ..*final(ctx) }),
            ({
                let (s, res, p1, p2) = with_read_state(old(ctx).emit_state(), name@, obj_reg, old(ctx).labels.label_counter, fb);
                &&& final(ctx).emit_state() == s
                &&& r == res
                &&& final(ctx).labels@ == two_labels_placed(old(ctx).labels@, p1, p2)
            }),
    {
        let key_reg = self.load_string_const(name, ctx);
        let has_reg = ctx.alloc_reg();
        ctx.inst(Inst::Op { op: OpCode::In, a: Operand::Reg(has_reg), b: Operand::Reg(key_reg), c: Operand::Reg(obj_reg) });
        let fallback = ctx.labels.next_label_id();
        let end = ctx.labels.next_label_id();
        ctx.inst(Inst::JmpIfFalse { cond: Operand::Reg(has_reg), label: fallback });
        let result_reg = ctx.alloc_reg();
        ctx.inst(
            Inst::Op { op: OpCode::GetPropDynamic, a: Operand::Reg(obj_reg), b: Operand::Reg(key_reg), c: Operand::Reg(result_reg) },
        );
        ctx.inst(Inst::Jmp { label: end });
        let p1 = ctx.insts.len();
        ctx.labels.set_label_pos(fallback, p1);
        self.emit_with_fallback(name, result_reg, fb, ctx);
        let p2 = ctx.insts.len();
        ctx.labels.set_label_pos(end, p2);
        result_reg
    }

    /// Reads binding register `v` of `name` into a fresh register.
    fn emit_register_read(&self, name: &str, v: u32, through_global: bool, ctx: &mut CompileCtx) -> (r: u32)
        requires
            old(ctx).wf(),
            old(ctx).next_reg + 1 < u32::MAX,
        ensures
            emitted(*old(ctx), *final(ctx)),
            (final(ctx).emit_state(), r) == register_read_state(old(ctx).emit_state(), name@, v, through_global),
    {
        let r = ctx.alloc_reg();
        if through_global {
            let key_idx = ctx.add_constant(Constant::String(name.to_owned()));
            ctx.inst(Inst::Op { op: OpCode::LoadGlobal, a: Operand::Reg(r), b: Operand::Const(key_idx), c: Operand::Unused });
        } else {
            ctx.inst(Inst::Op { op: OpCode::LoadVar, a: Operand::Reg(r), b: Operand::Reg(v), c: Operand::Unused });
        }
        r
    }

    /// Reads into a fresh register with `read`, an instruction whose first
    /// operand is the destination.
    fn emit_direct_read(&self, read: Inst, ctx: &mut CompileCtx) -> (r: u32)
        requires
            old(ctx).wf(),
            old(ctx).next_reg + 1 < u32::MAX,
            read is Op,
        ensures
            emitted(*old(ctx), *final(ctx)),
            r == old(ctx).next_reg,
            final(ctx).emit_state() == st_inst(
                st_alloc(old(ctx).emit_state()),
                match read {
                    Inst::Op { op, b, c, .. } => Inst::Op { op, a: Operand::Reg(r), b, c },
                    _ => read,
                },
            ),
    {
        let r = ctx.alloc_reg();
        match read {
            Inst::Op { op, b, c, .. } => ctx.inst(Inst::Op { op, a: Operand::Reg(r), b, c }),
            _ => ctx.inst(read),
        }
        r
    }

    /// Reads live import `exported` from the dependency namespace in `dep_ns`.
    fn emit_live_import_read(&self, dep_ns: u32, exported: &str, ctx: &mut CompileCtx) -> (r: u32)
        requires
            old(ctx).wf(),
            dep_ns < u32::MAX,
            old(ctx).next_reg + 8 < u32::MAX,
        ensures
            emitted(*old(ctx), *final(ctx)),
            (final(ctx).emit_state(), r) == live_import_state(old(ctx).emit_state(), dep_ns, exported@),
    {
        let name_reg = self.load_string_const(exported, ctx);
        let args = [dep_ns, name_reg];
        proof {
            reveal_strlit("__moduleGet");
            assert(args@ =~= seq![dep_ns, name_reg]);
        }
        self.emit_module_call(ctx, "__moduleGet", &args)
    }

    /// A read resolved through the scope chain.
    #[verifier::rlimit(30)]
    fn emit_scope_read(&self, name: &str, lookup: ScopeLookup, global_tier: bool, ctx: &mut CompileCtx) -> (r: Result<u32, String>)
        requires
            old(ctx).wf(),
            old(ctx).next_reg + 8 < u32::MAX,
        ensures
            emitted(*old(ctx), *final(ctx)),
            match scope_read_state(old(ctx).emit_state(), old(ctx).implicit_global_writes@, name@, lookup, global_tier) {
                Ok((s, reg)) => r == Ok::<u32, String>(reg) && final(ctx).emit_state() == s,
                Err(e) => r matches Err(m) && m@ == e && final(ctx).emit_state() == old(ctx).emit_state(),
            },
    {
        reveal(scope_read_state);
        match lookup {
            ScopeLookup::Failed(e) => Err(e),
            ScopeLookup::Uninitialized(m) => Ok(self.emit_tdz_throw(m.as_str(), ctx)),
            ScopeLookup::Bound(v) => {
                let through = global_tier || ctx.is_implicit_global_reg(v);
                Ok(self.emit_register_read(name, v, through, ctx))
            },
            ScopeLookup::Undeclared => {
                let v = ctx.global_slot(name);
                let through = global_tier || ctx.is_implicit_global_reg(v);
                Ok(self.emit_register_read(name, v, through, ctx))
            },
        }
    }

    /// Emits the static read of identifier `name`, resolved at `site`, into
    /// a fresh register: a live import reads the dependency namespace's
    /// current value (following reassignments in the source module); an
    /// upvalue or a captured cell is read directly; a scope binding is read
    /// from its register, except that a top-level `var` or an undeclared
    /// name is read through the global object (missing: ReferenceError); a
    /// read before initialisation throws a ReferenceError at run time; a
    /// failed scope lookup is returned as the error.
    #[verifier::rlimit(30)]
    pub fn emit_static_identifier_read(&self, name: &str, site: ReadSite, ctx: &mut CompileCtx) -> (r: Result<u32, String>)
        requires
            old(ctx).wf(),
            site matches ReadSite::LiveImport { dep_ns, .. } ==> dep_ns < u32::MAX,
            old(ctx).next_reg + 8 < u32::MAX,
        ensures
            emitted(*old(ctx), *final(ctx)),
            match static_read_state(old(ctx).emit_state(), old(ctx).implicit_global_writes@, name@, site) {
                Ok((s, reg)) => r == Ok::<u32, String>(reg) && final(ctx).emit_state() == s,
                Err(e) => r matches Err(m) && m@ == e && final(ctx).emit_state() == old(ctx).emit_state(),
            },
    {
        match site {
            ReadSite::LiveImport { dep_ns, exported } => Ok(self.emit_live_import_read(dep_ns, exported.as_str(), ctx)),
            ReadSite::Upvalue { index } => Ok(self.emit_direct_read(
                Inst::Op { op: OpCode::LoadUpvalue, a: Operand::Unused, b: Operand::Imm(index as u16), c: Operand::Unused },
                ctx,
            )),
            ReadSite::Cell { cell, binding } => Ok(self.emit_direct_read(
                Inst::Op { op: OpCode::CellGet, a: Operand::Unused, b: Operand::Reg(binding), c: Operand::Imm(cell as u16) },
                ctx,
            )),
            ReadSite::Scope { lookup, global_tier } => self.emit_scope_read(name, lookup, global_tier, ctx),
        }
    }
}

} // verus!
