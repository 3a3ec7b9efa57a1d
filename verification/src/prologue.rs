//! The instructions of a function's parameter prologue that need no
//! expression emission: the parameter registers, the `arguments` object,
//! the rest array, and the cells of captured parameters (made after the
//! defaults, which read the parameter registers).
use vstd::prelude::*;
use crate::ast::{Expression, Statement};
use crate::cells::{has_key, lookup, strictly_sorted, CellMap};
use crate::ctx::{st_alloc, st_inst, CompileCtx, EmitState};
use crate::emit_ops::emitted;
use crate::emitter::{Emitter, FunctionBodyContext};
use crate::function_setup::{append_extra_upvalues, fixed_param_count, spec_fixed_count, upvalue_views, with_extra_upvalues};
use crate::inst::{Inst, OpCode, Operand};
use crate::nameset::NameSet;
use crate::params::{analyze_prologue, deref_all, param_register_name, params_defaults, prologue_binds, ParamSpec};
use crate::syntax::{arguments_name, suppresses_arguments};
use crate::upvalues::{
    binding_captured, collect_upvalue_names, first_upvalue_index, parent_names, upvalue_names, upvalue_referenced, UpvalueCapture,
};

verus! {

/// The register names of parameters `ps`, in order.
pub open spec fn param_names_of(ps: Seq<ParamSpec>) -> Seq<Seq<char>> {
    Seq::new(ps.len(), |i: int| param_register_name(ps[i]))
}

/// The cell of a binding held in register `reg`.
pub open spec fn make_cell(reg: u32, cell: u8) -> Inst {
    Inst::Op { op: OpCode::MakeCell, a: Operand::Reg(reg), b: Operand::Imm(cell as u16), c: Operand::Unused }
}

/// The cell instructions of the captured ones among parameters `names`
/// (held in `regs`), in parameter order; `captured` gives the cells.
pub open spec fn param_cell_insts(names: Seq<Seq<char>>, regs: Seq<u32>, captured: Seq<(Seq<char>, u8)>) -> Seq<Inst>
    decreases names.len(),
{
    if names.len() == 0 {
        Seq::empty()
    } else {
        param_cell_insts(names.drop_last(), regs, captured) + match lookup(captured, names.last()) {
            Some(c) => seq![make_cell(regs[names.len() - 1], c)],
            None => Seq::empty(),
        }
    }
}

/// The cell instruction of the `arguments` object in `arguments_reg`, when
/// it is captured.
pub open spec fn arguments_cell_insts(arguments_reg: Option<u32>, captured: Seq<(Seq<char>, u8)>) -> Seq<Inst> {
    match arguments_reg {
        Some(r) => match lookup(captured, arguments_name()) {
            Some(c) => seq![make_cell(r, c)],
            None => Seq::empty(),
        },
        None => Seq::empty(),
    }
}

/// After allocating `n` registers.
pub open spec fn st_alloc_n(s: EmitState, n: nat) -> EmitState
    decreases n,
{
    if n == 0 {
        s
    } else {
        st_alloc(st_alloc_n(s, (n - 1) as nat))
    }
}

/// Whether a function gets the automatic `arguments` object: never an
/// arrow function, nor one with a parameter named `arguments`, nor one whose
/// body declares or suppresses it.
pub open spec fn arguments_needed(
    param_specs: Seq<ParamSpec>,
    body: Seq<Statement>,
    body_context: FunctionBodyContext,
    param_names: Set<Seq<char>>,
) -> bool {
    !(body_context is Arrow) && !param_names.contains(arguments_name()) && forall|i: int|
        0 <= i < body.len() ==> !suppresses_arguments(#[trigger] body[i], params_defaults(param_specs).len() > 0)
}

/// What the first part of a parameter prologue settled.
pub struct ParamPrologue<'a> {
    /// The first parameter register.
    pub base: u32,
    /// The parameters' registers, in order.
    pub regs: Vec<u32>,
    /// The register of the automatic `arguments` object, when there is one.
    pub arguments_reg: Option<u32>,
    /// The parameter defaults and the defaults inside parameter patterns,
    /// in order.
    pub param_defaults: Vec<&'a Expression>,
}

/// `c` is what the upvalue analysis gives for a function with body `body`,
/// expressions `exprs` analysed beside it, own bindings `own`, and parent
/// cells `parent_captured` and upvalues `parent_upvalues`.
pub open spec fn collected_upvalues(
    c: Seq<UpvalueCapture>,
    body: Seq<Statement>,
    exprs: Seq<&Expression>,
    parent_captured: Seq<(Seq<char>, u8)>,
    parent_upvalues: Seq<UpvalueCapture>,
    own: Set<Seq<char>>,
) -> bool {
    &&& strictly_sorted(upvalue_names(c))
    &&& forall|n: Seq<char>| #[trigger] upvalue_names(c).contains(n) <==> upvalue_referenced(
        body,
        exprs,
        parent_names(parent_captured, parent_upvalues),
        own,
        n,
    )
    &&& forall|i: int| 0 <= i < c.len() ==> (#[trigger] c[i]).enclosing_reg == 0
    &&& forall|i: int| 0 <= i < c.len() ==> (#[trigger] c[i]).cell_idx == match lookup(parent_captured, c[i].name@) {
        Some(x) => x,
        None => 0u8,
    }
    &&& forall|i: int| 0 <= i < c.len() ==> first_upvalue_index(parent_upvalues, #[trigger] c[i].name@, c[i].parent_uv_idx)
}

/// The upvalues `caps` and the constant upvalue names `flags` of a function:
/// the analysed upvalues, followed by the synthesized ones `extra`; a name
/// is flagged when it is taken from the parent's own bindings (not an
/// upvalue of the parent) and the parent binds it as a constant.
pub open spec fn prologue_upvalues(
    caps: Seq<UpvalueCapture>,
    flags: Set<Seq<char>>,
    body: Seq<Statement>,
    exprs: Seq<&Expression>,
    parent_captured: Seq<(Seq<char>, u8)>,
    parent_upvalues: Seq<UpvalueCapture>,
    own: Set<Seq<char>>,
    extra: Seq<(&str, u8)>,
    parent_consts: Set<Seq<char>>,
) -> bool {
    exists|c: Seq<UpvalueCapture>|
        #![trigger upvalue_views(c)]
        collected_upvalues(c, body, exprs, parent_captured, parent_upvalues, own) && upvalue_views(caps)
            == with_extra_upvalues(upvalue_views(c), extra, own) && forall|n: Seq<char>| #[trigger]
            flags.contains(n) <==> (parent_consts.contains(n) && exists|i: int|
                0 <= i < c.len() && #[trigger] c[i].name@ == n && c[i].parent_uv_idx is None)
}

/// The constant names among the upvalues `c` taken from the parent's own
/// bindings.
fn const_upvalue_names(c: &Vec<UpvalueCapture>, parent_consts: &NameSet) -> (flags: NameSet)
    ensures
        forall|n: Seq<char>| #[trigger] flags@.contains(n) <==> (parent_consts@.contains(n) && exists|i: int|
            0 <= i < c@.len() && #[trigger] c@[i].name@ == n && c@[i].parent_uv_idx is None),
{
    let mut flags = NameSet::new();
    let mut i: usize = 0;
    while i < c.len()
        invariant
            i <= c@.len(),
            forall|n: Seq<char>| #[trigger] flags@.contains(n) <==> (parent_consts@.contains(n) && exists|k: int|
                0 <= k < i && #[trigger] c@[k].name@ == n && c@[k].parent_uv_idx is None),
        decreases c.len() - i,
    {
        let u = &c[i];
        if u.parent_uv_idx.is_none() && parent_consts.contains(u.name.as_str()) {
            flags.insert(u.name.as_str());
        }
        proof {
            assert forall|n: Seq<char>| #[trigger] flags@.contains(n) <==> (parent_consts@.contains(n) && exists|k: int|
                0 <= k < i + 1 && #[trigger] c@[k].name@ == n && c@[k].parent_uv_idx is None) by {
                if parent_consts@.contains(n) && exists|k: int| 0 <= k < i + 1 && #[trigger] c@[k].name@ == n && c@[k].parent_uv_idx is None {
                    let k = choose|k: int| 0 <= k < i + 1 && #[trigger] c@[k].name@ == n && c@[k].parent_uv_idx is None;
                    if k < i {
                        assert(c@[k].name@ == n);
                    }
                }
            }
        }
        i += 1;
    }
    flags
}

impl Emitter {
    /// The first part of a function's parameter prologue, up to the
    /// parameter defaults: one register per parameter from the first free
    /// one; the capture analysis (own bindings, captured bindings, whether
    /// an `arguments` object is created, see `analyze_prologue`); the
    /// `arguments` register after the parameters'; the upvalues taken from
    /// the parent (`parent_captured`: the parent's cells of bindings visible
    /// where the function is created; `parent_upvalues`; the synthesized
    /// `extra_upvalues`) and which of them are constants
    /// (`parent_consts`: the parent's constant bindings); and the creation
    /// of the `arguments` object, before any default may read it. The
    /// defaults and patterns are then evaluated by the caller, and
    /// `finish_params_prologue` ends the prologue.
    #[verifier::rlimit(40)]
    pub fn emit_params_prologue<'a>(
        &self,
        param_specs: &[ParamSpec<'a>],
        body: &Vec<Statement>,
        body_context: FunctionBodyContext,
        extra_capture_exprs: &[&'a Expression],
        extra_upvalues: &[(&str, u8)],
        parent_captured: &CellMap,
        parent_upvalues: &[UpvalueCapture],
        parent_consts: &NameSet,
        ctx: &mut CompileCtx,
    ) -> (p: ParamPrologue<'a>)
        requires
            old(ctx).wf(),
            old(ctx).next_reg + param_specs@.len() + 2 < u32::MAX,
            parent_captured.wf(),
        ensures
            p.base == old(ctx).next_reg,
            p.regs@ == Seq::new(param_specs@.len(), |i: int| (old(ctx).next_reg + i) as u32),
            deref_all(p.param_defaults@) == params_defaults(param_specs@),
            p.arguments_reg == if arguments_needed(param_specs@, body@, body_context, old(ctx).param_names@) {
                Some((old(ctx).next_reg + param_specs@.len()) as u32)
            } else {
                None::<u32>
            },
            final(ctx).emit_state() == if arguments_needed(param_specs@, body@, body_context, old(ctx).param_names@) {
                st_inst(
                    st_alloc(st_alloc_n(old(ctx).emit_state(), param_specs@.len())),
                    Inst::CreateArguments { dst: Operand::Reg((old(ctx).next_reg + param_specs@.len()) as u32) },
                )
            } else {
                st_alloc_n(old(ctx).emit_state(), param_specs@.len())
            },
            forall|n: Seq<char>| #[trigger] final(ctx).own_bindings@.contains(n) == (prologue_binds(param_specs@, body@, n) || (
            arguments_needed(param_specs@, body@, body_context, old(ctx).param_names@) && n == arguments_name())),
            final(ctx).captured_bindings.wf(),
            forall|n: Seq<char>| #[trigger] has_key(final(ctx).captured_bindings@, n) <==> binding_captured(
                body@,
                p.param_defaults@ + extra_capture_exprs@,
                final(ctx).own_bindings@,
                n,
            ),
            prologue_upvalues(
                final(ctx).current_upvalue_captures@,
                final(ctx).upvalue_const_flags@,
                body@,
                p.param_defaults@ + extra_capture_exprs@,
                parent_captured@,
                parent_upvalues@,
                final(ctx).own_bindings@,
                extra_upvalues@,
                parent_consts@,
            ),
            emitted(
                *old(ctx),
                CompileCtx {
                    own_bindings: old(ctx).own_bindings,
                    captured_bindings: old(ctx).captured_bindings,
                    current_upvalue_captures: old(ctx).current_upvalue_captures,
                    upvalue_const_flags: old(ctx).upvalue_const_flags,
                    ..*final(ctx)
                },
            ),
    {
        let base = ctx.next_reg;
        let regs = self.alloc_param_regs(param_specs.len(), ctx);
        let a = analyze_prologue(param_specs, body, &ctx.param_names, body_context, extra_capture_exprs);
        let arguments_reg = if a.arguments_needed {
            Some(ctx.alloc_reg())
        } else {
            None
        };
        let mut ups = collect_upvalue_names(body, a.capture_exprs.as_slice(), parent_captured, parent_upvalues, &a.own_bindings);
        let ghost collected = ups@;
        let flags = const_upvalue_names(&ups, parent_consts);
        append_extra_upvalues(&mut ups, extra_upvalues, &a.own_bindings);
        assert(collected_upvalues(collected, body@, a.capture_exprs@, parent_captured@, parent_upvalues@, a.own_bindings@));
        ctx.own_bindings = a.own_bindings;
        ctx.captured_bindings = a.captured_bindings;
        ctx.current_upvalue_captures = ups;
        ctx.upvalue_const_flags = flags;
        if let Some(r) = arguments_reg {
            self.emit_arguments_object(r, ctx);
        }
        ParamPrologue { base, regs, arguments_reg, param_defaults: a.param_defaults }
    }

    /// The end of a parameter prologue, after the defaults and patterns:
    /// the rest array (when the last parameter is a rest parameter, in its
    /// register), then the cells of the captured parameters and of a
    /// captured `arguments` object.
    pub fn finish_params_prologue(&self, param_specs: &[ParamSpec], p: &ParamPrologue, ctx: &mut CompileCtx)
        requires
            old(ctx).wf(),
            old(ctx).captured_bindings.wf(),
            p.regs@.len() == param_specs@.len(),
            param_specs@.len() <= u32::MAX,
        ensures
            emitted(*old(ctx), *final(ctx)),
            final(ctx).emit_state() == (EmitState {
                insts: old(ctx).insts@ + (if param_specs@.len() > 0 && param_specs@.last() is Rest {
                    seq![
                        Inst::CreateRestArray {
                            dst: Operand::Reg(p.regs@.last()),
                            fixed: spec_fixed_count(param_specs@) as u32,
                        },
                    ]
                } else {
                    Seq::<Inst>::empty()
                }) + param_cell_insts(param_names_of(param_specs@), p.regs@, old(ctx).captured_bindings@)
                    + arguments_cell_insts(p.arguments_reg, old(ctx).captured_bindings@),
                ..old(ctx).emit_state()
            }),
    {
        let n = param_specs.len();
        let ghost s0 = ctx.insts@;
        let ghost rest = if param_specs@.len() > 0 && param_specs@.last() is Rest {
            seq![
                Inst::CreateRestArray {
                    dst: Operand::Reg(p.regs@.last()),
                    fixed: spec_fixed_count(param_specs@) as u32,
                },
            ]
        } else {
            Seq::<Inst>::empty()
        };
        if n > 0 {
            if let ParamSpec::Rest { .. } = &param_specs[n - 1] {
                self.emit_rest_array(param_specs, p.regs[n - 1], ctx);
            }
        }
        assert(ctx.insts@ =~= s0 + rest);
        let ghost s1 = ctx.insts@;
        self.emit_param_cells(param_specs, p.regs.as_slice(), p.arguments_reg, ctx);
        assert(ctx.insts@ =~= s0 + rest + param_cell_insts(param_names_of(param_specs@), p.regs@, old(ctx).captured_bindings@)
                    + arguments_cell_insts(p.arguments_reg, old(ctx).captured_bindings@));
    }

    /// Allocates one register per parameter, in order (each parameter is
    /// declared in its register).
    pub fn alloc_param_regs(&self, count: usize, ctx: &mut CompileCtx) -> (regs: Vec<u32>)
        requires
            old(ctx).wf(),
            old(ctx).next_reg + count < u32::MAX,
        ensures
            emitted(*old(ctx), *final(ctx)),
            regs@ == Seq::new(count as nat, |i: int| (old(ctx).next_reg + i) as u32),
            final(ctx).emit_state() == st_alloc_n(old(ctx).emit_state(), count as nat),
            final(ctx).next_reg == old(ctx).next_reg + count,
    {
        let mut regs: Vec<u32> = Vec::new();
        let mut i: usize = 0;
        while i < count
            invariant
                i <= count,
                old(ctx).next_reg + count < u32::MAX,
                emitted(*old(ctx), *ctx),
                ctx.next_reg == old(ctx).next_reg + i,
                regs@ == Seq::new(i as nat, |k: int| (old(ctx).next_reg + k) as u32),
                ctx.emit_state() == st_alloc_n(old(ctx).emit_state(), i as nat),
            decreases count - i,
        {
            let r = ctx.alloc_reg();
            regs.push(r);
            i += 1;
        }
        regs
    }

    /// Creates the `arguments` object into `reg` (before any parameter
    /// default, which may read it).
    pub fn emit_arguments_object(&self, reg: u32, ctx: &mut CompileCtx)
        requires
            old(ctx).wf(),
        ensures
            emitted(*old(ctx), *final(ctx)),
            final(ctx).emit_state() == st_inst(old(ctx).emit_state(), Inst::CreateArguments { dst: Operand::Reg(reg) }),
    {
        ctx.inst(Inst::CreateArguments { dst: Operand::Reg(reg) });
    }

    /// Collects the arguments after the fixed parameters of `param_specs`
    /// into the rest parameter's register `reg`.
    pub fn emit_rest_array(&self, param_specs: &[ParamSpec], reg: u32, ctx: &mut CompileCtx)
        requires
            old(ctx).wf(),
            param_specs@.len() <= u32::MAX,
        ensures
            emitted(*old(ctx), *final(ctx)),
            final(ctx).emit_state() == st_inst(
                old(ctx).emit_state(),
                Inst::CreateRestArray { dst: Operand::Reg(reg), fixed: spec_fixed_count(param_specs@) as u32 },
            ),
    {
        let fixed = fixed_param_count(param_specs);
        ctx.inst(Inst::CreateRestArray { dst: Operand::Reg(reg), fixed });
    }

    /// Makes the cell of the binding `name` held in `reg`, when it is captured.
    fn emit_cell_if_captured(&self, name: &str, reg: u32, ctx: &mut CompileCtx)
        requires
            old(ctx).wf(),
            old(ctx).captured_bindings.wf(),
        ensures
            emitted(*old(ctx), *final(ctx)),
            final(ctx).emit_state() == (EmitState {
                insts: old(ctx).insts@ + match lookup(old(ctx).captured_bindings@, name@) {
                    Some(c) => seq![make_cell(reg, c)],
                    None => Seq::<Inst>::empty(),
                },
                ..old(ctx).emit_state()
            }),
    {
        if let Some(cell) = ctx.captured_bindings.get(name) {
            ctx.inst(Inst::Op { op: OpCode::MakeCell, a: Operand::Reg(reg), b: Operand::Imm(cell as u16), c: Operand::Unused });
            assert(ctx.insts@ =~= old(ctx).insts@ + seq![make_cell(reg, cell)]);
        } else {
            assert(ctx.insts@ =~= old(ctx).insts@ + Seq::<Inst>::empty());
        }
    }

    /// Makes the cells of the captured parameters (held in `regs`, one per
    /// parameter) and of a captured `arguments` object, after the defaults
    /// have been evaluated: without them a closure would read the caller's
    /// registers.
    #[verifier::rlimit(40)]
    pub fn emit_param_cells(&self, param_specs: &[ParamSpec], regs: &[u32], arguments_reg: Option<u32>, ctx: &mut CompileCtx)
        requires
            old(ctx).wf(),
            old(ctx).captured_bindings.wf(),
            regs@.len() == param_specs@.len(),
        ensures
            emitted(*old(ctx), *final(ctx)),
            final(ctx).emit_state() == (EmitState {
                insts: old(ctx).insts@ + param_cell_insts(param_names_of(param_specs@), regs@, old(ctx).captured_bindings@)
                    + arguments_cell_insts(arguments_reg, old(ctx).captured_bindings@),
                ..old(ctx).emit_state()
            }),
    {
        let ghost names = param_names_of(param_specs@);
        let ghost cap = ctx.captured_bindings@;
        let ghost s0 = ctx.emit_state();
        let mut i: usize = 0;
        assert(names.take(0) =~= Seq::<Seq<char>>::empty());
        assert(s0.insts + param_cell_insts(names.take(0), regs@, cap) =~= s0.insts);
        while i < param_specs.len()
            invariant
                i <= param_specs@.len(),
                regs@.len() == param_specs@.len(),
                names == param_names_of(param_specs@),
                cap == ctx.captured_bindings@,
                ctx.captured_bindings.wf(),
                emitted(*old(ctx), *ctx),
                ctx.emit_state() == (EmitState { insts: s0.insts + param_cell_insts(names.take(i as int), regs@, cap), ..s0 }),
            decreases param_specs.len() - i,
        {
            let name = param_specs[i].register_name();
            proof {
                assert(names.take(i + 1).drop_last() =~= names.take(i as int));
                assert(names.take(i + 1).last() == name@);
            }
            self.emit_cell_if_captured(name, regs[i], ctx);
            proof {
                assert(ctx.insts@ =~= s0.insts + param_cell_insts(names.take(i + 1), regs@, cap));
            }
            i += 1;
        }
        proof {
            assert(names.take(i as int) =~= names);
        }
        let ghost s1 = ctx.insts@;
        if let Some(r) = arguments_reg {
            proof {
                reveal_strlit("arguments");
            }
            self.emit_cell_if_captured("arguments", r, ctx);
        } else {
            assert(ctx.insts@ =~= s1 + Seq::<Inst>::empty());
        }
    }
}

} // verus!
