use oxide_emit::ast::{
    BindingPattern, CatchClause, Class, Expression, FormalParameters, Function, Statement, SwitchCase,
    VariableDeclaration, VariableDeclarationKind, VariableDeclarator,
};
use oxide_emit::block_fn::{collect_block_fn_suppressed_names, collect_block_function_names};
use oxide_emit::cells::sorted_names;
use oxide_emit::nameset::NameSet;

fn fdecl(name: &str) -> Statement {
    Statement::Function(Function {
        id: Some(name.to_string()),
        params: FormalParameters { items: vec![], rest: None },
        body: Some(vec![]),
        is_generator: false,
        is_async: false,
    })
}

fn fdecl_with_body(name: &str, body: Vec<Statement>) -> Statement {
    Statement::Function(Function {
        id: Some(name.to_string()),
        params: FormalParameters { items: vec![], rest: None },
        body: Some(body),
        is_generator: false,
        is_async: false,
    })
}

fn lexical(kind: VariableDeclarationKind, name: &str) -> Statement {
    Statement::Variable(VariableDeclaration {
        kind,
        declarations: vec![VariableDeclarator { id: BindingPattern::Identifier(name.to_string()), init: None }],
    })
}

fn truthy() -> Expression {
    Expression::BooleanLiteral(true)
}

#[test]
fn block_function_names_in_source_order_without_duplicates() {
    let stmts = vec![
        fdecl("top"),
        Statement::Block(vec![fdecl("b1"), fdecl("b2")]),
        Statement::If {
            test: truthy(),
            consequent: Box::new(fdecl("b3")),
            alternate: Some(Box::new(Statement::Block(vec![fdecl("b1")]))),
        },
        Statement::Switch {
            discriminant: truthy(),
            cases: vec![SwitchCase { test: None, consequent: vec![fdecl("s1")] }],
        },
        Statement::Try {
            block: vec![fdecl("t1")],
            handler: Some(CatchClause { param: None, body: vec![fdecl("c1")] }),
            finalizer: Some(vec![fdecl("f1")]),
        },
    ];
    let names = collect_block_function_names(&stmts);
    assert_eq!(names, vec!["b1", "b2", "b3", "s1", "t1", "c1", "f1"]);
}

#[test]
fn block_function_names_skip_nested_function_bodies() {
    let stmts = vec![fdecl_with_body("outer", vec![Statement::Block(vec![fdecl("hidden")])])];
    assert!(collect_block_function_names(&stmts).is_empty());
}

#[test]
fn suppression_set_holds_params_and_lexical_names() {
    let mut params = NameSet::new();
    params.insert("p");
    let stmts = vec![
        lexical(VariableDeclarationKind::Let, "l"),
        lexical(VariableDeclarationKind::Var, "v"),
        Statement::Block(vec![lexical(VariableDeclarationKind::Const, "k")]),
        Statement::Class(Class { id: Some("C".to_string()), super_class: None, body: vec![] }),
        Statement::Try {
            block: vec![],
            handler: Some(CatchClause { param: Some(BindingPattern::Identifier("e".to_string())), body: vec![] }),
            finalizer: None,
        },
        fdecl_with_body("f", vec![lexical(VariableDeclarationKind::Let, "inner")]),
    ];
    let s = collect_block_fn_suppressed_names(&stmts, &params);
    assert_eq!(sorted_names(&s), vec!["C", "e", "k", "l", "p"]);
}
