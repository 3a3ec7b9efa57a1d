use oxide_emit::ctx::CompileCtx;
use oxide_emit::emitter::Emitter;
use oxide_emit::inst::{Inst, OpCode, Operand};
use oxide_emit::cells::CellMap;
use oxide_emit::emitter::FunctionBodyContext;
use oxide_emit::nameset::NameSet;
use oxide_emit::params::ParamSpec;

fn cell(reg: u32, c: u16) -> Inst {
    Inst::Op { op: OpCode::MakeCell, a: Operand::Reg(reg), b: Operand::Imm(c), c: Operand::Unused }
}

#[test]
fn parameter_registers_are_consecutive() {
    let e = Emitter::new();
    let mut ctx = CompileCtx::new();
    let regs = e.alloc_param_regs(3, &mut ctx);
    assert_eq!(regs, vec![1, 2, 3]);
    assert_eq!(ctx.next_reg, 4);
    assert!(ctx.insts.is_empty());
}

#[test]
fn arguments_object_and_rest_array() {
    let e = Emitter::new();
    let mut ctx = CompileCtx::new();
    let specs = vec![
        ParamSpec::Identifier { name: "a".to_string(), initializer: None },
        ParamSpec::Identifier { name: "b".to_string(), initializer: None },
        ParamSpec::Rest { name: "r".to_string() },
    ];
    e.emit_arguments_object(4, &mut ctx);
    e.emit_rest_array(&specs, 3, &mut ctx);
    assert_eq!(
        ctx.insts,
        vec![Inst::CreateArguments { dst: Operand::Reg(4) }, Inst::CreateRestArray { dst: Operand::Reg(3), fixed: 2 }]
    );
}

#[test]
fn captured_parameters_get_cells_in_order() {
    let e = Emitter::new();
    let mut ctx = CompileCtx::new();
    ctx.captured_bindings.insert("c", 0);
    ctx.captured_bindings.insert("a", 1);
    ctx.captured_bindings.insert("arguments", 2);
    let specs = vec![
        ParamSpec::Identifier { name: "a".to_string(), initializer: None },
        ParamSpec::Identifier { name: "b".to_string(), initializer: None },
        ParamSpec::Identifier { name: "c".to_string(), initializer: None },
    ];
    e.emit_param_cells(&specs, &[1, 2, 3], Some(4), &mut ctx);
    assert_eq!(ctx.insts, vec![cell(1, 1), cell(3, 0), cell(4, 2)]);
    let mut plain = CompileCtx::new();
    e.emit_param_cells(&specs, &[1, 2, 3], None, &mut plain);
    assert!(plain.insts.is_empty());
}

#[test]
fn prologue_allocates_parameters_then_arguments() {
    let e = Emitter::new();
    let mut ctx = CompileCtx::new();
    let specs = vec![
        ParamSpec::Identifier { name: "a".to_string(), initializer: None },
        ParamSpec::Rest { name: "r".to_string() },
    ];
    let body = vec![];
    let p = e.emit_params_prologue(
        &specs,
        &body,
        FunctionBodyContext::Ordinary,
        &[],
        &[("@@field_keys", 4)],
        &CellMap::new(),
        &[],
        &NameSet::new(),
        &mut ctx,
    );
    assert_eq!(p.base, 1);
    assert_eq!(p.regs, vec![1, 2]);
    assert_eq!(p.arguments_reg, Some(3));
    assert_eq!(ctx.insts, vec![Inst::CreateArguments { dst: Operand::Reg(3) }]);
    assert!(ctx.own_bindings.contains("arguments"));
    assert_eq!(ctx.current_upvalue_captures.len(), 1);
    assert_eq!(ctx.current_upvalue_captures[0].cell_idx, 4);
    e.finish_params_prologue(&specs, &p, &mut ctx);
    assert_eq!(ctx.insts[1], Inst::CreateRestArray { dst: Operand::Reg(2), fixed: 1 });

    let mut arrow = CompileCtx::new();
    let p = e.emit_params_prologue(
        &specs,
        &body,
        FunctionBodyContext::Arrow,
        &[],
        &[],
        &CellMap::new(),
        &[],
        &NameSet::new(),
        &mut arrow,
    );
    assert_eq!(p.arguments_reg, None);
    assert!(arrow.insts.is_empty());
}
