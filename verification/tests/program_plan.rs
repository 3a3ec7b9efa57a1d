use oxide_emit::ast::{
    BindingPattern, Expression, FormalParameters, Function, Statement, VariableDeclaration, VariableDeclarationKind,
    VariableDeclarator,
};
use oxide_emit::cells::sorted_names;
use oxide_emit::ctx::Constant;
use oxide_emit::emitter::Emitter;
use oxide_emit::inst::{Inst, OpCode, Operand};
use oxide_emit::nameset::NameSet;
use oxide_emit::program::{eval_function_declaration_conflict, merge_sorted, plan_program_names};

fn func(id: &str, body: Vec<Statement>) -> Function {
    Function {
        id: Some(id.to_string()),
        params: FormalParameters { items: vec![], rest: None },
        body: Some(body),
        is_generator: false,
        is_async: false,
    }
}

fn decl(kind: VariableDeclarationKind, name: &str) -> Statement {
    Statement::Variable(VariableDeclaration {
        kind,
        declarations: vec![VariableDeclarator { id: BindingPattern::Identifier(name.to_string()), init: None }],
    })
}

fn reads(names: &[&str]) -> Statement {
    Statement::Expression(Expression::Sequence(names.iter().map(|n| Expression::Identifier(n.to_string())).collect()))
}

fn script() -> Vec<Statement> {
    vec![
        decl(VariableDeclarationKind::Var, "v"),
        decl(VariableDeclarationKind::Let, "l"),
        Statement::Function(func("top", vec![reads(&["v", "l", "top", "blk"])])),
        Statement::Block(vec![Statement::Function(func("blk", vec![])), Statement::Function(func("NaN", vec![]))]),
        Statement::Block(vec![Statement::Function(func("v", vec![]))]),
    ]
}

#[test]
fn sloppy_script_names() {
    let p = plan_program_names(&script(), false, &NameSet::new());
    assert_eq!(p.block_fn_names, vec!["blk", "NaN", "v"]);
    assert_eq!(sorted_names(&p.block_fn_suppressed), vec!["l"]);
    assert_eq!(sorted_names(&p.own_bindings), vec!["NaN", "blk", "l", "top", "v"]);
    assert_eq!(sorted_names(&p.global_tier_names), vec!["blk", "top", "v"]);
    // Only the lexical `l` keeps a cell: global-object names are not celled.
    assert_eq!(p.captured_bindings.len(), 1);
    assert_eq!(p.captured_bindings.name_at(0), "l");
    assert!(p.var_cell_names.is_empty());
    // `v` is both a var and an outer block function: it appears twice.
    assert_eq!(p.gdi_var_names, vec!["blk", "v", "v"]);
}

#[test]
fn strict_script_has_no_block_function_bindings() {
    let p = plan_program_names(&script(), true, &NameSet::new());
    assert!(p.block_fn_names.is_empty());
    assert_eq!(sorted_names(&p.block_fn_suppressed), Vec::<String>::new());
    assert_eq!(sorted_names(&p.global_tier_names), vec!["top", "v"]);
    assert_eq!(p.gdi_var_names, vec!["v"]);
}

#[test]
fn merging_keeps_order_and_multiplicity() {
    let a = vec!["a".to_string(), "c".to_string(), "e".to_string()];
    let b = vec!["b".to_string(), "c".to_string(), "f".to_string()];
    assert_eq!(merge_sorted(&a, &b), vec!["a", "b", "c", "c", "e", "f"]);
    assert_eq!(merge_sorted(&vec![], &b), b);
}

#[test]
fn eval_declarations_of_read_only_globals() {
    let body = vec![Statement::Function(func("f", vec![])), Statement::Function(func("Infinity", vec![]))];
    assert_eq!(
        eval_function_declaration_conflict(&body),
        Some("Cannot declare function 'Infinity': global property is not configurable".to_string())
    );
    let fine = vec![Statement::Function(func("Math", vec![]))];
    assert_eq!(eval_function_declaration_conflict(&fine), None);
}

fn strings(ctx: &oxide_emit::ctx::CompileCtx) -> Vec<String> {
    ctx.constants
        .iter()
        .filter_map(|c| match c {
            Constant::String(s) => Some(s.clone()),
            _ => None,
        })
        .collect()
}

#[test]
fn declaration_checks_depend_on_the_program_kind() {
    let e = Emitter::new();
    let body = vec![Statement::Function(func("f", vec![])), Statement::Function(func("NaN", vec![]))];
    // sloppy eval code: a TypeError throw, no run-time checks
    let mut eval = e.program_context(false, true, false);
    e.emit_declaration_checks(&body, &mut eval);
    assert!(eval.insts.iter().any(|i| matches!(i, Inst::Op { op: OpCode::Throw, .. })));
    assert!(strings(&eval).contains(&"Cannot declare function 'NaN': global property is not configurable".to_string()));
    assert!(!eval.insts.iter().any(|i| matches!(i, Inst::CanDeclareGlobalFunc { .. })));
    // strict eval code: nothing
    let mut strict_eval = e.program_context(false, true, true);
    e.emit_declaration_checks(&body, &mut strict_eval);
    assert!(strict_eval.insts.is_empty());
    // a script: one run-time check per name, last declaration first
    let mut script = e.program_context(false, false, false);
    e.emit_declaration_checks(&body, &mut script);
    assert_eq!(strings(&script), vec!["NaN".to_string(), "f".to_string()]);
    assert_eq!(script.insts.len(), 4);
}

#[test]
fn declaration_prologue_defines_missing_globals() {
    let e = Emitter::new();
    let mut script = e.program_context(false, false, false);
    e.emit_gdi_var_prologue(&vec!["Math".to_string(), "v".to_string()], &mut script);
    // undefined in 1, `Math` gets its mirror slot 2, keys in 3 and 4
    assert_eq!(script.builtin_reg_map, vec![("Math".to_string(), 2)]);
    assert_eq!(
        script.insts,
        vec![
            Inst::LoadConst { dst: Operand::Reg(1), idx: 0 },
            Inst::LoadConst { dst: Operand::Reg(3), idx: 1 },
            Inst::DefineGlobalPropIfAbsent { obj: Operand::This, value: Operand::Reg(2), key: Operand::Reg(3) },
            Inst::LoadConst { dst: Operand::Reg(4), idx: 2 },
            Inst::DefineGlobalPropIfAbsent { obj: Operand::This, value: Operand::Reg(1), key: Operand::Reg(4) },
        ]
    );
    let mut eval = e.program_context(false, true, false);
    e.emit_gdi_var_prologue(&vec!["v".to_string()], &mut eval);
    assert_eq!(eval.insts[1], Inst::DefineGlobalPropCIfAbsent { value: Operand::Reg(1), idx: 1 });
    let mut none = e.program_context(false, false, false);
    e.emit_gdi_var_prologue(&vec![], &mut none);
    assert!(none.insts.is_empty());
}

#[test]
fn completion_value_then_halt() {
    let e = Emitter::new();
    let mut with_value = e.program_context(false, false, false);
    e.emit_completion(Some(7), &mut with_value);
    assert_eq!(
        with_value.insts,
        vec![
            Inst::Op { op: OpCode::LoadVar, a: Operand::Unused, b: Operand::Reg(7), c: Operand::Unused },
            Inst::Op { op: OpCode::Halt, a: Operand::Unused, b: Operand::Unused, c: Operand::Unused },
        ]
    );
    let mut empty = e.program_context(false, false, false);
    e.emit_completion(None, &mut empty);
    assert_eq!(empty.insts[0], Inst::LoadConst { dst: Operand::Unused, idx: 0 });
    assert!(matches!(empty.constants[0], Constant::Undefined));
}
