use oxide_emit::ast::{
    BinaryOperator,
    Argument, BindingPattern, Class, ClassElement, Expression, PropertyKey, FormalParameter, FormalParameters, Function, Statement,
    VariableDeclaration, VariableDeclarationKind, VariableDeclarator,
};
use oxide_emit::capture::{collect_capture_names_expr, collect_capture_names_shadowed};
use oxide_emit::captured::collect_captured_stmts;
use oxide_emit::cells::{sorted_names, CellMap};
use oxide_emit::names::{collect_own_binding_names, collect_var_binding_names};
use oxide_emit::nameset::NameSet;
use oxide_emit::upvalues::{collect_captured_bindings, collect_upvalue_names, UpvalueCapture};

fn ident(n: &str) -> Expression {
    Expression::Identifier(n.to_string())
}

fn params(names: &[&str]) -> FormalParameters {
    FormalParameters {
        items: names
            .iter()
            .map(|n| FormalParameter { pattern: BindingPattern::Identifier(n.to_string()), initializer: None })
            .collect(),
        rest: None,
    }
}

fn func(id: Option<&str>, ps: &[&str], body: Vec<Statement>) -> Function {
    Function {
        id: id.map(|s| s.to_string()),
        params: params(ps),
        body: Some(body),
        is_generator: false,
        is_async: false,
    }
}

fn var_decl(kind: VariableDeclarationKind, name: &str, init: Option<Expression>) -> Statement {
    Statement::Variable(VariableDeclaration {
        kind,
        declarations: vec![VariableDeclarator { id: BindingPattern::Identifier(name.to_string()), init }],
    })
}

fn set_of(names: &[&str]) -> NameSet {
    let mut s = NameSet::new();
    for n in names {
        s.insert(n);
    }
    s
}

fn sorted(s: &NameSet) -> Vec<String> {
    sorted_names(s)
}

/// function outer() { let a; var b; let c; function inner(c) { return a + c; } }
fn outer_body() -> Vec<Statement> {
    vec![
        var_decl(VariableDeclarationKind::Let, "a", None),
        var_decl(VariableDeclarationKind::Var, "b", None),
        var_decl(VariableDeclarationKind::Let, "c", None),
        Statement::Function(func(
            Some("inner"),
            &["c"],
            vec![Statement::Return(Some(Expression::Binary { operator: BinaryOperator::Addition,
                left: Box::new(ident("a")),
                right: Box::new(ident("c")),
            }))],
        )),
    ]
}

#[test]
fn own_bindings_cover_params_and_declarations() {
    let body = outer_body();
    let own = collect_own_binding_names(&["p"], &body);
    assert_eq!(sorted(&own), vec!["a", "b", "c", "inner", "p"]);
}

#[test]
fn nested_function_captures_only_unshadowed_names() {
    let body = outer_body();
    let own = collect_own_binding_names(&[], &body);
    let mut captured = NameSet::new();
    collect_captured_stmts(&body, &own, &mut captured);
    // `c` is the inner function's own parameter, so only `a` is captured.
    assert_eq!(sorted(&captured), vec!["a"]);
}

#[test]
fn direct_references_are_not_captures() {
    let body = vec![
        var_decl(VariableDeclarationKind::Let, "x", None),
        Statement::Expression(ident("x")),
    ];
    let own = collect_own_binding_names(&[], &body);
    let m = collect_captured_bindings(&body, &[], &own);
    assert_eq!(m.len(), 0);
}

#[test]
fn captured_cells_are_numbered_in_name_order() {
    let body = vec![
        var_decl(VariableDeclarationKind::Let, "zeta", None),
        var_decl(VariableDeclarationKind::Let, "alpha", None),
        var_decl(VariableDeclarationKind::Let, "mid", None),
        Statement::Expression(Expression::ArrowFunction(Box::new(func(
            None,
            &[],
            vec![Statement::Expression(Expression::Sequence(vec![ident("zeta"), ident("alpha"), ident("mid")]))],
        )))),
    ];
    let own = collect_own_binding_names(&[], &body);
    let m = collect_captured_bindings(&body, &[], &own);
    assert_eq!(m.len(), 3);
    assert_eq!(m.name_at(0), "alpha");
    assert_eq!(m.name_at(1), "mid");
    assert_eq!(m.name_at(2), "zeta");
    assert_eq!(m.get("alpha"), Some(0));
    assert_eq!(m.get("mid"), Some(1));
    assert_eq!(m.get("zeta"), Some(2));
    assert_eq!(m.get("other"), None);
}

#[test]
fn parameter_default_expressions_take_part_in_capture() {
    let body = vec![var_decl(VariableDeclarationKind::Let, "v", None)];
    let own = collect_own_binding_names(&[], &body);
    let closure = Expression::ArrowFunction(Box::new(func(None, &[], vec![Statement::Expression(ident("v"))])));
    let extra = [&closure];
    let m = collect_captured_bindings(&body, &extra, &own);
    assert_eq!(m.len(), 1);
    assert_eq!(m.get("v"), Some(0));
}

#[test]
fn class_bodies_capture_enclosing_bindings() {
    let body = vec![
        var_decl(VariableDeclarationKind::Const, "k", None),
        Statement::Class(Class {
            id: Some("C".to_string()),
            super_class: Some(Box::new(ident("j"))),
            body: vec![ClassElement::Property {
                key: PropertyKey::StaticIdentifier("p".to_string()),
                value: Some(ident("k")),
                is_static: false,
            }],
        }),
        var_decl(VariableDeclarationKind::Const, "j", None),
    ];
    let own = collect_own_binding_names(&[], &body);
    let mut captured = NameSet::new();
    collect_captured_stmts(&body, &own, &mut captured);
    // A field initializer runs later, in the class's scope: `k` is captured.
    // The `extends` expression is evaluated in place: `j` is not.
    assert!(captured.contains("k"));
    assert!(!captured.contains("j"));
}

#[test]
fn cell_map_insert_keeps_name_order_and_replaces() {
    let mut m = CellMap::new();
    m.insert("b", 7);
    m.insert("a", 3);
    m.insert("c", 9);
    m.insert("b", 1);
    assert_eq!(m.len(), 3);
    assert_eq!(m.name_at(0), "a");
    assert_eq!(m.name_at(1), "b");
    assert_eq!(m.name_at(2), "c");
    assert_eq!(m.get("b"), Some(1));
    assert_eq!(m.cell_at(0), 3);
}

#[test]
fn cell_numbers_wrap_at_eight_bits() {
    let mut names: Vec<String> = (0..300).map(|i| format!("n{:04}", i)).collect();
    names.sort();
    let m = CellMap::numbered(&names);
    assert_eq!(m.len(), 300);
    assert_eq!(m.cell_at(255), 255);
    assert_eq!(m.cell_at(256), 0);
    assert_eq!(m.cell_at(299), 43);
}

#[test]
fn upvalues_line_up_with_parent_cells() {
    let mut parent = CellMap::new();
    parent.insert("a", 0);
    parent.insert("b", 1);
    let parent_upvalues = vec![UpvalueCapture { name: "g".to_string(), enclosing_reg: 5, cell_idx: 4, parent_uv_idx: None }];
    let body = vec![Statement::Expression(Expression::Sequence(vec![ident("b"), ident("g"), ident("z")]))];
    // The nested function reads `b` and `g` inside a closure of its own.
    let inner = vec![Statement::Expression(Expression::ArrowFunction(Box::new(func(None, &[], body))))];
    let own = NameSet::new();
    let ups = collect_upvalue_names(&inner, &[], &parent, &parent_upvalues, &own);
    assert_eq!(ups.len(), 2);
    assert_eq!(ups[0].name, "b");
    assert_eq!(ups[0].cell_idx, 1);
    assert_eq!(ups[0].parent_uv_idx, None);
    assert_eq!(ups[0].enclosing_reg, 0);
    assert_eq!(ups[1].name, "g");
    assert_eq!(ups[1].cell_idx, 0);
    assert_eq!(ups[1].parent_uv_idx, Some(0));
}

#[test]
fn upvalue_names_respect_nested_shadowing() {
    let parent = {
        let mut m = CellMap::new();
        m.insert("x", 0);
        m
    };
    // function(x) { return x; } inside the nested body shadows the parent's `x`.
    let inner = vec![Statement::Expression(Expression::Function(Box::new(func(
        None,
        &["x"],
        vec![Statement::Return(Some(ident("x")))],
    ))))];
    let ups = collect_upvalue_names(&inner, &[], &parent, &[], &NameSet::new());
    assert!(ups.is_empty());
}

#[test]
fn scanner_collects_referenced_names_outside_shadow() {
    let refs = set_of(&["a", "b"]);
    let shadow = set_of(&["b"]);
    let stmts = vec![Statement::Expression(Expression::Call {
        callee: Box::new(ident("a")),
        arguments: vec![Argument::Expression(ident("b"))],
    })];
    let mut out = NameSet::new();
    collect_capture_names_shadowed(&stmts, &refs, &shadow, &mut out);
    assert_eq!(sorted(&out), vec!["a"]);
    let mut out2 = NameSet::new();
    collect_capture_names_expr(&ident("a"), &refs, &NameSet::new(), &mut out2);
    assert!(out2.contains("a"));
}

#[test]
fn var_binding_names_are_function_scoped() {
    let body = vec![
        var_decl(VariableDeclarationKind::Var, "v1", None),
        var_decl(VariableDeclarationKind::Let, "l1", None),
        Statement::Block(vec![var_decl(VariableDeclarationKind::Var, "v2", None)]),
    ];
    let vars = collect_var_binding_names(&body);
    assert_eq!(sorted(&vars), vec!["v1", "v2"]);
}
