//! The two ends of compiling a nested function body: its context and
//! parameter prologue at the start, and at the end the implicit return and
//! the record of the compiled function (its code, constants, registers,
//! parameter layout, upvalues and flags).
use vstd::prelude::*;
use crate::ast::{Expression, Statement};
use crate::cells::CellMap;
use crate::ctx::{pool_keys, slot_floor, slot_view, CompileCtx, Constant};
use crate::emitter::{Emitter, FunctionBodyContext};
use crate::function_setup::{
    child_context, fixed_param_count, function_tail_state, reg_start, spec_fixed_count, spec_function_length,
};
use crate::inst::Inst;
use crate::nameset::NameSet;
use crate::params::ParamSpec;
use crate::prologue::ParamPrologue;
use crate::regmap::RegMap;
use crate::upvalues::UpvalueCapture;

verus! {

/// A compiled function.
pub struct FunctionRecord {
    pub insts: Vec<Inst>,
    pub label_pos: Vec<Option<usize>>,
    pub label_count: u32,
    pub constants: Vec<Constant>,
    /// The first parameter register.
    pub param_base: u32,
    /// The number of fixed parameters (the call's argument area).
    pub param_count: u32,
    pub builtin_reg_map: Vec<(String, u32)>,
    /// The upvalues, each with the parent's register of the binding.
    pub upvalue_captures: Vec<UpvalueCapture>,
    /// The number of cells the function makes.
    pub cells_needed: u8,
    pub n_registers: u32,
    pub is_generator: bool,
    pub is_async: bool,
    pub is_strict: bool,
    pub function_length: u32,
    /// Whether this is a top-level script (never for a nested function).
    pub is_top_level: bool,
    pub const_overflow: bool,
}

/// Upvalue `u` with the parent's register of its binding (0 when the parent
/// has none), as recorded for the compiled function.
pub open spec fn recorded_upvalue(u: UpvalueCapture, v: UpvalueCapture, parent_regs: Map<Seq<char>, u32>) -> bool {
    &&& v.name@ == u.name@
    &&& v.cell_idx == u.cell_idx
    &&& v.parent_uv_idx == u.parent_uv_idx
    &&& v.enclosing_reg == if parent_regs.contains_key(u.name@) {
        parent_regs[u.name@]
    } else {
        0
    }
}

/// Records the upvalues with the parent's registers of their bindings.
fn record_upvalues(us: &Vec<UpvalueCapture>, parent_regs: &RegMap) -> (r: Vec<UpvalueCapture>)
    ensures
        r@.len() == us@.len(),
        forall|i: int| 0 <= i < us@.len() ==> recorded_upvalue(us@[i], #[trigger] r@[i], parent_regs@),
{
    let mut r: Vec<UpvalueCapture> = Vec::new();
    let mut i: usize = 0;
    while i < us.len()
        invariant
            i <= us@.len(),
            r@.len() == i,
            forall|k: int| 0 <= k < i ==> recorded_upvalue(us@[k], #[trigger] r@[k], parent_regs@),
        decreases us.len() - i,
    {
        let u = &us[i];
        let enclosing_reg = match parent_regs.get(u.name.as_str()) {
            Some(reg) => reg,
            None => 0,
        };
        r.push(
            UpvalueCapture {
                name: u.name.as_str().to_owned(),
                enclosing_reg,
                cell_idx: u.cell_idx,
                parent_uv_idx: u.parent_uv_idx,
            },
        );
        i += 1;
    }
    r
}

impl Emitter {
    /// Starts compiling a nested function body: its context, derived from
    /// the parent's (see `child_context`), and the first part of its
    /// parameter prologue (see `emit_params_prologue`). The parameter
    /// defaults and patterns and the body's statements are compiled next,
    /// and `finish_function_body` ends the function.
    pub fn begin_function_body<'a>(
        &self,
        param_specs: &[ParamSpec<'a>],
        body: &Vec<Statement>,
        parent: &CompileCtx,
        body_context: FunctionBodyContext,
        is_generator: bool,
        is_async: bool,
        own_strict: bool,
        inherited_regs: &[u32],
        extra_capture_exprs: &[&'a Expression],
        extra_upvalues: &[(&str, u8)],
        parent_captured: &CellMap,
        parent_consts: &NameSet,
    ) -> (r: (CompileCtx, ParamPrologue<'a>))
        requires
            reg_start(
                if slot_floor(parent.builtin_reg_map@) > 1 {
                    slot_floor(parent.builtin_reg_map@)
                } else {
                    1u32
                },
                inherited_regs@,
            ) + param_specs@.len() + 3 < u32::MAX,
            parent_captured.wf(),
        ensures
            r.0.wf(),
            r.0.is_strict == (own_strict || body_context is ClassElement || parent.is_strict),
            r.0.function_length == spec_function_length(param_specs@),
            r.0.is_generator == is_generator,
            r.0.is_async == is_async,
            r.1.regs@.len() == param_specs@.len(),
            r.1.base == r.0.reserved_reg_start,
            forall|i: int| 0 <= i < param_specs@.len() ==> #[trigger] r.1.regs@[i] == r.1.base + i,
    {
        let mut ctx = child_context(param_specs, parent, body_context, is_generator, is_async, own_strict, inherited_regs);
        let p = self.emit_params_prologue(
            param_specs,
            body,
            body_context,
            extra_capture_exprs,
            extra_upvalues,
            parent_captured,
            &parent.current_upvalue_captures,
            parent_consts,
            &mut ctx,
        );
        (ctx, p)
    }

    /// Ends compiling a function body: emits the implicit return (see
    /// `function_tail_state`) and records the compiled function. Its
    /// parameter layout is the prologue's first register and the number of
    /// fixed parameters (a rest parameter is a variable of the body); each
    /// upvalue carries the parent's register of its binding (from
    /// `parent_regs`); a nested function is never top-level.
    pub fn finish_function_body(
        &self,
        ctx: CompileCtx,
        param_specs: &[ParamSpec],
        param_base: u32,
        is_expression_body: bool,
        last_result: Option<u32>,
        parent_regs: &RegMap,
    ) -> (f: FunctionRecord)
        requires
            ctx.wf(),
            ctx.next_reg + 1 < u32::MAX,
            param_specs@.len() <= u32::MAX,
        ensures
            ({
                let s = function_tail_state(ctx.emit_state(), is_expression_body, last_result);
                &&& f.insts@ == s.insts
                &&& pool_keys(f.constants@) == s.pool
                &&& f.const_overflow == s.overflow
                &&& f.n_registers == s.max_regs
                &&& slot_view(f.builtin_reg_map@) == s.slots
            }),
            f.label_pos@ == ctx.labels@.label_pos,
            f.label_count == ctx.labels@.label_counter,
            f.param_base == param_base,
            f.param_count == spec_fixed_count(param_specs@),
            f.upvalue_captures@.len() == ctx.current_upvalue_captures@.len(),
            forall|i: int|
                0 <= i < ctx.current_upvalue_captures@.len() ==> recorded_upvalue(
                    ctx.current_upvalue_captures@[i],
                    #[trigger] f.upvalue_captures@[i],
                    parent_regs@,
                ),
            f.cells_needed == ctx.captured_bindings@.len() as u8,
            f.is_generator == ctx.is_generator,
            f.is_async == ctx.is_async,
            f.is_strict == ctx.is_strict,
            f.function_length == ctx.function_length,
            !f.is_top_level,
    {
        let mut ctx = ctx;
        self.emit_function_tail(is_expression_body, last_result, &mut ctx);
        let param_count = fixed_param_count(param_specs);
        let upvalue_captures = record_upvalues(&ctx.current_upvalue_captures, parent_regs);
        let cells_needed = ctx.captured_bindings.len() as u8;
        FunctionRecord {
            insts: ctx.insts,
            label_pos: ctx.labels.label_pos,
            label_count: ctx.labels.label_counter,
            constants: ctx.constants,
            param_base,
            param_count,
            builtin_reg_map: ctx.builtin_reg_map,
            upvalue_captures,
            cells_needed,
            n_registers: ctx.max_regs,
            is_generator: ctx.is_generator,
            is_async: ctx.is_async,
            is_strict: ctx.is_strict,
            function_length: ctx.function_length,
            is_top_level: false,
            const_overflow: ctx.const_overflow,
        }
    }
}

} // verus!
