use oxide_emit::cells::CellMap;
use oxide_emit::ctx::CompileCtx;
use oxide_emit::emitter::{Emitter, FunctionBodyContext};
use oxide_emit::inst::{Inst, Operand};
use oxide_emit::nameset::NameSet;
use oxide_emit::params::ParamSpec;
use oxide_emit::regmap::RegMap;

#[test]
fn a_function_body_from_start_to_record() {
    let e = Emitter::new();
    let mut parent = CompileCtx::new();
    parent.is_strict = true;
    let specs = vec![
        ParamSpec::Identifier { name: "a".to_string(), initializer: None },
        ParamSpec::Identifier { name: "b".to_string(), initializer: None },
        ParamSpec::Rest { name: "r".to_string() },
    ];
    let body = vec![];
    let (ctx, p) = e.begin_function_body(
        &specs,
        &body,
        &parent,
        FunctionBodyContext::Arrow,
        false,
        true,
        false,
        &[],
        &[],
        &[],
        &CellMap::new(),
        &NameSet::new(),
    );
    assert!(ctx.is_strict);
    assert_eq!(ctx.function_length, 2);
    assert_eq!(p.regs, vec![p.base, p.base + 1, p.base + 2]);
    let base = p.base;
    let mut regs = RegMap::new();
    regs.insert("x", 9);
    let f = e.finish_function_body(ctx, &specs, base, false, None, &regs);
    assert_eq!(f.param_base, base);
    assert_eq!(f.param_count, 2);
    assert_eq!(f.function_length, 2);
    assert!(f.is_strict && f.is_async && !f.is_generator && !f.is_top_level);
    assert!(matches!(f.insts.last(), Some(Inst::Return { value: Operand::Reg(_) })));
    assert_eq!(f.cells_needed, 0);
}

#[test]
fn an_expression_body_returns_its_value() {
    let e = Emitter::new();
    let ctx = CompileCtx::new();
    let f = e.finish_function_body(ctx, &[], 1, true, Some(5), &RegMap::new());
    assert_eq!(f.insts, vec![Inst::Return { value: Operand::Reg(5) }]);
    assert_eq!(f.param_count, 0);
    assert!(f.constants.is_empty());
}
