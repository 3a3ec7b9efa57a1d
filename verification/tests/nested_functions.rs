use oxide_emit::ast::{
    BindingPattern, BindingProperty, Expression, FormalParameters, Function, PropertyKey, Statement,
    VariableDeclaration, VariableDeclarationKind, VariableDeclarator,
};
use oxide_emit::cells::CellMap;
use oxide_emit::ctx::CompileCtx;
use oxide_emit::emitter::Emitter;
use oxide_emit::inst::{Inst, OpCode, Operand};
use oxide_emit::emitter::FunctionBodyContext;
use oxide_emit::function_setup::{
    append_extra_upvalues, captured_entry_names, child_context, collect_param_names, fixed_param_count,
    function_length, lookup_cells, var_instantiation_names,
};
use oxide_emit::nameset::NameSet;
use oxide_emit::params::ParamSpec;
use oxide_emit::upvalues::{position_of_upvalue, UpvalueCapture};

fn ident(name: &str) -> BindingPattern {
    BindingPattern::Identifier(name.to_string())
}

fn one() -> Expression {
    Expression::NumericLiteral("1".to_string())
}

fn var(name: &str) -> Statement {
    Statement::Variable(VariableDeclaration {
        kind: VariableDeclarationKind::Var,
        declarations: vec![VariableDeclarator { id: ident(name), init: None }],
    })
}

fn func(id: &str) -> Function {
    Function {
        id: Some(id.to_string()),
        params: FormalParameters { items: vec![], rest: None },
        body: Some(vec![]),
        is_generator: false,
        is_async: false,
    }
}

fn upvalue(name: &str, cell: u8) -> UpvalueCapture {
    UpvalueCapture { name: name.to_string(), enclosing_reg: 0, cell_idx: cell, parent_uv_idx: None }
}

#[test]
fn length_stops_at_the_first_default_or_rest() {
    let d = one();
    let specs = vec![
        ParamSpec::Identifier { name: "a".to_string(), initializer: None },
        ParamSpec::Identifier { name: "b".to_string(), initializer: Some(&d) },
        ParamSpec::Identifier { name: "c".to_string(), initializer: None },
    ];
    assert_eq!(function_length(&specs), 1);
    let pat = BindingPattern::Object { properties: vec![], rest: None };
    let specs = vec![
        ParamSpec::Pattern { synthetic_name: "@@param_0".to_string(), pattern: &pat, initializer: None },
        ParamSpec::Identifier { name: "a".to_string(), initializer: None },
        ParamSpec::Rest { name: "r".to_string() },
    ];
    assert_eq!(function_length(&specs), 2);
    assert_eq!(function_length(&[]), 0);
}

#[test]
fn fixed_count_leaves_out_the_rest_parameter() {
    let d = one();
    let specs = vec![
        ParamSpec::Identifier { name: "a".to_string(), initializer: None },
        ParamSpec::Identifier { name: "b".to_string(), initializer: Some(&d) },
        ParamSpec::Rest { name: "r".to_string() },
    ];
    assert_eq!(fixed_param_count(&specs), 2);
    assert_eq!(fixed_param_count(&[]), 0);
}

#[test]
fn parameter_names_include_destructured_leaves() {
    let pat = BindingPattern::Object {
        properties: vec![
            BindingProperty { key: PropertyKey::StaticIdentifier("x".to_string()), value: ident("x") },
            BindingProperty {
                key: PropertyKey::StaticIdentifier("y".to_string()),
                value: BindingPattern::Array { elements: vec![Some(ident("z"))], rest: None },
            },
        ],
        rest: None,
    };
    let specs = vec![
        ParamSpec::Identifier { name: "a".to_string(), initializer: None },
        ParamSpec::Pattern { synthetic_name: "@@param_1".to_string(), pattern: &pat, initializer: None },
        ParamSpec::Rest { name: "r".to_string() },
    ];
    let names = collect_param_names(&specs);
    for n in ["a", "@@param_1", "x", "z", "r"] {
        assert!(names.contains(n), "missing {}", n);
    }
    assert!(!names.contains("y"));
}

#[test]
fn child_context_starts_above_builtins_and_inherited_registers() {
    let mut parent = CompileCtx::new();
    parent.builtin_reg_map.push(("Math".to_string(), 1));
    parent.builtin_reg_map.push(("JSON".to_string(), 2));
    parent.is_strict = true;
    parent.in_instance_method = true;
    parent.next_template_site = 4;
    parent.implicit_global_writes.push(7);
    let specs = vec![ParamSpec::Identifier { name: "a".to_string(), initializer: None }];

    let ctx = child_context(&specs, &parent, FunctionBodyContext::Arrow, false, true, false, &[5, 2]);
    assert_eq!(ctx.reserved_reg_start, 6);
    assert_eq!(ctx.next_reg, 6);
    assert!(ctx.is_strict);
    assert!(ctx.is_async && !ctx.is_generator);
    assert!(ctx.in_instance_method);
    assert_eq!(ctx.next_template_site, 4);
    assert_eq!(ctx.implicit_global_writes, vec![7]);
    assert_eq!(ctx.function_length, 1);
    assert!(ctx.param_names.contains("a"));
    assert_eq!(ctx.builtin_reg_map, parent.builtin_reg_map);
    assert!(ctx.insts.is_empty() && ctx.constants.is_empty());

    let ordinary = child_context(&specs, &parent, FunctionBodyContext::Ordinary, false, false, false, &[]);
    assert_eq!(ordinary.reserved_reg_start, 3);
    assert!(!ordinary.in_instance_method);

    let bare = CompileCtx::new();
    let top = child_context(&[], &bare, FunctionBodyContext::Ordinary, false, false, false, &[]);
    assert_eq!(top.reserved_reg_start, 1);
    assert!(!top.is_strict);
    let method = child_context(&[], &bare, FunctionBodyContext::ClassElement, false, false, false, &[]);
    assert!(method.is_strict);
}

#[test]
fn extra_upvalues_skip_own_and_present_names() {
    let mut ups = vec![upvalue("a", 0)];
    let mut own = NameSet::new();
    own.insert("mine");
    append_extra_upvalues(&mut ups, &[("@@field_keys", 3), ("a", 9), ("mine", 4), ("@@field_keys", 5)], &own);
    let names: Vec<&str> = ups.iter().map(|u| u.name.as_str()).collect();
    assert_eq!(names, vec!["a", "@@field_keys"]);
    assert_eq!(ups[1].cell_idx, 3);
    assert_eq!(ups[0].cell_idx, 0);
    assert_eq!(position_of_upvalue(&ups, "@@field_keys"), Some(1));
    assert_eq!(position_of_upvalue(&ups, "b"), None);
}

#[test]
fn var_names_instantiated_at_entry_are_sorted_and_filtered() {
    let body = vec![
        var("zeta"),
        var("alpha"),
        var("p"),
        var("arguments"),
        var("kept"),
        Statement::Block(vec![Statement::Function(func("inner"))]),
        Statement::Block(vec![Statement::Function(func("hidden"))]),
        Statement::Labeled { label: "L".to_string(), body: Box::new(Statement::Function(func("lab"))) },
    ];
    let mut suppressed = NameSet::new();
    suppressed.insert("hidden");
    let mut params = NameSet::new();
    params.insert("p");
    let mut captured = CellMap::new();
    captured.insert("kept", 0);

    let sloppy = var_instantiation_names(&body, false, &suppressed, &params, &captured);
    assert_eq!(sloppy, vec!["alpha".to_string(), "inner".to_string(), "zeta".to_string()]);
    let strict = var_instantiation_names(&body, true, &suppressed, &params, &captured);
    assert_eq!(strict, vec!["alpha".to_string(), "zeta".to_string()]);
}

#[test]
fn function_tails_return_the_expression_or_undefined() {
    let e = Emitter::new();
    let mut expr_body = CompileCtx::new();
    e.emit_function_tail(true, Some(5), &mut expr_body);
    assert_eq!(expr_body.insts, vec![Inst::Return { value: Operand::Reg(5) }]);
    let mut stmt_body = CompileCtx::new();
    e.emit_function_tail(false, Some(5), &mut stmt_body);
    assert_eq!(
        stmt_body.insts,
        vec![
            Inst::LoadConst { dst: Operand::Reg(1), idx: 0 },
            Inst::Return { value: Operand::Reg(1) },
        ]
    );
    let mut empty_expr = CompileCtx::new();
    e.emit_function_tail(true, None, &mut empty_expr);
    assert_eq!(empty_expr.insts.len(), 2);
}

#[test]
fn var_bindings_start_undefined() {
    let e = Emitter::new();
    let mut none = CompileCtx::new();
    e.emit_var_instantiation(&[], &mut none);
    assert!(none.insts.is_empty());
    let mut ctx = CompileCtx::new();
    ctx.reserve_reg(9);
    e.emit_var_instantiation(&[Some(4), None, Some(7)], &mut ctx);
    assert_eq!(
        ctx.insts,
        vec![
            Inst::LoadConst { dst: Operand::Reg(10), idx: 0 },
            Inst::Op { op: OpCode::StoreVar, a: Operand::Reg(4), b: Operand::Reg(10), c: Operand::Imm(0) },
            Inst::Op { op: OpCode::StoreVar, a: Operand::Reg(7), b: Operand::Reg(10), c: Operand::Imm(0) },
        ]
    );
}

#[test]
fn captured_entry_cells() {
    let body = vec![
        var("zeta"),
        var("alpha"),
        var("plain"),
        var("arguments"),
        var("p"),
        Statement::Block(vec![Statement::Function(func("inner"))]),
        Statement::Block(vec![Statement::Function(func("shadowed"))]),
    ];
    let mut captured = CellMap::new();
    for (n, c) in [("zeta", 0), ("alpha", 1), ("arguments", 2), ("p", 3), ("inner", 4), ("shadowed", 5)] {
        captured.insert(n, c);
    }
    let mut registers = NameSet::new();
    registers.insert("p");
    let mut params = NameSet::new();
    params.insert("shadowed");
    let sloppy = captured_entry_names(&body, false, &registers, &params, &captured);
    assert_eq!(sloppy, vec!["alpha".to_string(), "inner".to_string(), "zeta".to_string()]);
    let strict = captured_entry_names(&body, true, &registers, &params, &captured);
    assert_eq!(strict, vec!["alpha".to_string(), "zeta".to_string()]);
    let cells = lookup_cells(&sloppy, &captured);
    assert_eq!(cells, vec![1, 4, 0]);

    let e = Emitter::new();
    let mut ctx = CompileCtx::new();
    e.emit_entry_cells(&cells, false, &mut ctx);
    e.emit_entry_cells(&[7], true, &mut ctx);
    e.emit_entry_cells(&[], true, &mut ctx);
    assert_eq!(
        ctx.insts,
        vec![
            Inst::LoadConst { dst: Operand::Reg(1), idx: 0 },
            Inst::Op { op: OpCode::MakeCell, a: Operand::Reg(1), b: Operand::Imm(1), c: Operand::Unused },
            Inst::Op { op: OpCode::MakeCell, a: Operand::Reg(1), b: Operand::Imm(4), c: Operand::Unused },
            Inst::Op { op: OpCode::MakeCell, a: Operand::Reg(1), b: Operand::Imm(0), c: Operand::Unused },
            Inst::LoadConst { dst: Operand::Reg(2), idx: 0 },
            Inst::Op { op: OpCode::MakeCell, a: Operand::Reg(2), b: Operand::Imm(0x107), c: Operand::Unused },
        ]
    );
}
