use oxide_emit::ast::{
    BinaryOperator,
    BindingPattern, BindingProperty, Declaration, ExportAllDeclaration, ExportDefaultKind, ExportNamedDeclaration,
    ExportSpecifier, Expression, FormalParameter, FormalParameters, Function, ImportAttribute, PropertyKey, Statement,
    StringLiteral, VariableDeclaration, VariableDeclarationKind, VariableDeclarator,
};
use oxide_emit::ctx::Constant;
use oxide_emit::emitter::FunctionBodyContext;
use oxide_emit::literal::{bigint_constant_from, bigint_literal_constant, regexp_literal_source, regexp_verdict, string_literal_constant};
use oxide_emit::module::{
    is_hoisted_function_decl, module_attributes, module_own_export_names, strip_parens, ModuleKind, ResolvedModule,
    DEFAULT_EXPORT_NAME,
};
use oxide_emit::cells::sorted_names;
use oxide_emit::nameset::NameSet;
use oxide_emit::params::{
    analyze_prologue, collect_pattern_default_exprs, extract_function_parts, param_default_exprs, push_rest_param,
    synthetic_param, ParamSpec,
};
use oxide_emit::syntax::{
    arguments_obj_needed, is_anonymous_function_definition, is_body_hoisted_function_decl, is_side_effect_free,
    labeled_function_decl,
};

fn num(t: &str) -> Expression {
    Expression::NumericLiteral(t.to_string())
}

fn ident(n: &str) -> Expression {
    Expression::Identifier(n.to_string())
}

fn function(id: Option<&str>, items: Vec<FormalParameter>, rest: Option<BindingPattern>, body: Vec<Statement>) -> Function {
    Function {
        id: id.map(|s| s.to_string()),
        params: FormalParameters { items, rest },
        body: Some(body),
        is_generator: false,
        is_async: false,
    }
}

#[test]
fn bigint_literals() {
    match bigint_literal_constant("123").unwrap() {
        Constant::BigInt(d) => assert_eq!(d, "123"),
        _ => panic!("expected a BigInt constant"),
    }
    match bigint_literal_constant("000123456789012345678901234567890123456789").unwrap() {
        Constant::BigInt(d) => assert_eq!(d, "123456789012345678901234567890123456789"),
        _ => panic!("expected a BigInt constant"),
    }
    assert_eq!(bigint_literal_constant("12x").err(), Some("BigInt literal out of range: 12x".to_string()));
    assert!(matches!(bigint_constant_from("5", Some("5".to_string())), Ok(Constant::BigInt(ref d)) if d == "5"));
}

#[test]
fn string_literal_constants_use_pool_keys() {
    let c = string_literal_constant(&StringLiteral { value: "a\u{FFFD}".to_string(), lone_surrogates: false });
    assert!(matches!(c, Constant::String(ref s) if s == "a\u{FFFD}fffd"));
}

#[test]
fn regexp_literals() {
    assert_eq!(
        regexp_literal_source(&Some("/a+b/gi".to_string())),
        Ok(("a+b".to_string(), "gi".to_string()))
    );
    assert_eq!(
        regexp_literal_source(&Some("/a\\/b/".to_string())),
        Ok(("a\\/b".to_string(), String::new()))
    );
    assert_eq!(
        regexp_literal_source(&Some("/(/".to_string())),
        Err("SyntaxError: Invalid regular expression: /(/".to_string())
    );
    assert_eq!(
        regexp_literal_source(&Some("/[b-a]/".to_string())),
        Err("SyntaxError: Invalid regular expression: /[b-a]/".to_string())
    );
    assert_eq!(regexp_literal_source(&None), Err("unsupported regexp literal".to_string()));
    assert_eq!(regexp_literal_source(&Some("x".to_string())), Err("unsupported regexp literal: x".to_string()));
}

#[test]
fn parameters_are_presented_by_kind() {
    let f = function(
        None,
        vec![
            FormalParameter { pattern: BindingPattern::Identifier("a".to_string()), initializer: Some(num("1")) },
            FormalParameter {
                pattern: BindingPattern::Array { elements: vec![], rest: None },
                initializer: None,
            },
        ],
        Some(BindingPattern::Identifier("r".to_string())),
        vec![Statement::Empty],
    );
    let (specs, body) = extract_function_parts(&f).unwrap();
    assert_eq!(specs.len(), 3);
    assert_eq!(specs[0].register_name(), "a");
    assert_eq!(specs[1].register_name(), "@@param_1");
    assert_eq!(specs[2].register_name(), "r");
    assert!(matches!(specs[2], ParamSpec::Rest { .. }));
    assert_eq!(body.len(), 1);
    let bad = function(None, vec![], Some(BindingPattern::Array { elements: vec![], rest: None }), vec![]);
    assert_eq!(
        extract_function_parts(&bad).err(),
        Some("rest parameters with destructuring patterns not yet supported".to_string())
    );
    assert_eq!(synthetic_param(0), "@@param_0");
    assert_eq!(synthetic_param(1234), "@@param_1234");
    let pat = BindingPattern::Identifier("q".to_string());
    let mut out = Vec::new();
    assert!(push_rest_param(&pat, &mut out).is_ok());
    assert_eq!(out.len(), 1);
}

#[test]
fn pattern_defaults_and_computed_keys_in_source_order() {
    let pattern = BindingPattern::Object {
        properties: vec![
            BindingProperty {
                key: PropertyKey::Computed(Box::new(ident("k"))),
                value: BindingPattern::Assignment {
                    left: Box::new(BindingPattern::Identifier("x".to_string())),
                    right: Box::new(num("2")),
                },
            },
        ],
        rest: None,
    };
    let mut out = Vec::new();
    collect_pattern_default_exprs(&pattern, &mut out);
    assert_eq!(out.len(), 2);
    assert!(matches!(out[0], Expression::Identifier(n) if n == "k"));
    assert!(matches!(out[1], Expression::NumericLiteral(t) if t == "2"));
    let init = num("9");
    let specs = vec![ParamSpec::Pattern { synthetic_name: "@@param_0".to_string(), pattern: &pattern, initializer: Some(&init) }];
    let all = param_default_exprs(&specs);
    assert_eq!(all.len(), 3);
    assert!(matches!(all[0], Expression::NumericLiteral(t) if t == "9"));
}

#[test]
fn arguments_object_decisions() {
    let params = NameSet::new();
    let let_args = Statement::Variable(VariableDeclaration {
        kind: VariableDeclarationKind::Let,
        declarations: vec![VariableDeclarator { id: BindingPattern::Identifier("arguments".to_string()), init: None }],
    });
    let var_args = Statement::Variable(VariableDeclaration {
        kind: VariableDeclarationKind::Var,
        declarations: vec![VariableDeclarator { id: BindingPattern::Identifier("arguments".to_string()), init: None }],
    });
    let fn_args = Statement::Function(function(Some("arguments"), vec![], None, vec![]));
    let labeled = Statement::Labeled { label: "l".to_string(), body: Box::new(Statement::Function(function(Some("arguments"), vec![], None, vec![]))) };
    assert!(!arguments_obj_needed(&vec![let_args], &params, false));
    assert!(arguments_obj_needed(&vec![var_args], &params, false));
    assert!(!arguments_obj_needed(&vec![fn_args], &params, false));
    let fn_args2 = Statement::Function(function(Some("arguments"), vec![], None, vec![]));
    assert!(arguments_obj_needed(&vec![fn_args2], &params, true));
    assert!(!arguments_obj_needed(&vec![labeled], &params, false));
    let nested = Statement::Block(vec![Statement::Function(function(Some("arguments"), vec![], None, vec![]))]);
    assert!(arguments_obj_needed(&vec![nested], &params, false));
    let mut p = NameSet::new();
    p.insert("arguments");
    assert!(!arguments_obj_needed(&vec![], &p, false));
}

#[test]
fn prologue_analysis() {
    let closure = Expression::ArrowFunction(Box::new(function(None, vec![], None, vec![Statement::Expression(ident("a"))])));
    let f = function(
        None,
        vec![FormalParameter { pattern: BindingPattern::Identifier("a".to_string()), initializer: Some(closure) }],
        None,
        vec![],
    );
    let (specs, _) = extract_function_parts(&f).unwrap();
    let body_vec = f.body.as_ref().unwrap();
    let a = analyze_prologue(&specs, body_vec, &NameSet::new(), FunctionBodyContext::Ordinary, &[]);
    assert_eq!(a.param_defaults.len(), 1);
    assert!(a.arguments_needed);
    assert_eq!(sorted_names(&a.own_bindings), vec!["a", "arguments"]);
    assert_eq!(a.captured_bindings.len(), 1);
    assert_eq!(a.captured_bindings.get("a"), Some(0));
    let arrow = analyze_prologue(&specs, body_vec, &NameSet::new(), FunctionBodyContext::Arrow, &[]);
    assert!(!arrow.arguments_needed);
    assert_eq!(sorted_names(&arrow.own_bindings), vec!["a"]);
}

#[test]
fn syntax_predicates() {
    let paren = |e: Expression| Expression::Parenthesized(Box::new(e));
    let arrow = Expression::ArrowFunction(Box::new(function(None, vec![], None, vec![])));
    assert!(is_anonymous_function_definition(&paren(paren(arrow))));
    assert!(!is_anonymous_function_definition(&ident("f")));
    assert!(is_side_effect_free(&paren(num("1"))));
    assert!(is_side_effect_free(&Expression::This));
    assert!(!is_side_effect_free(&Expression::Binary { operator: BinaryOperator::Addition, left: Box::new(num("1")), right: Box::new(ident("a")) }));
    let labeled = Statement::Labeled {
        label: "a".to_string(),
        body: Box::new(Statement::Labeled {
            label: "b".to_string(),
            body: Box::new(Statement::Function(function(Some("g"), vec![], None, vec![]))),
        }),
    };
    assert_eq!(labeled_function_decl(&labeled).and_then(|f| f.id.clone()), Some("g".to_string()));
    assert!(labeled_function_decl(&Statement::Function(function(Some("g"), vec![], None, vec![]))).is_none());
    assert!(is_body_hoisted_function_decl(&labeled));
    assert!(!is_body_hoisted_function_decl(&Statement::Empty));
    assert!(matches!(strip_parens(&paren(paren(num("3")))), Expression::NumericLiteral(t) if t == "3"));
}

#[test]
fn module_export_names() {
    let body = vec![
        Statement::ExportNamed(ExportNamedDeclaration {
            declaration: Some(Declaration::Variable(VariableDeclaration {
                kind: VariableDeclarationKind::Const,
                declarations: vec![
                    VariableDeclarator { id: BindingPattern::Identifier("x".to_string()), init: None },
                    VariableDeclarator { id: BindingPattern::Array { elements: vec![], rest: None }, init: None },
                ],
            })),
            specifiers: vec![],
            source: None,
            attributes: vec![],
        }),
        Statement::ExportNamed(ExportNamedDeclaration {
            declaration: None,
            specifiers: vec![ExportSpecifier { local: "y".to_string(), exported: "str name".to_string() }],
            source: None,
            attributes: vec![],
        }),
        Statement::ExportDefault(ExportDefaultKind::Expression(num("1"))),
        Statement::ExportAll(ExportAllDeclaration { exported: Some("ns".to_string()), source: "./m.js".to_string(), attributes: vec![] }),
        Statement::ExportAll(ExportAllDeclaration { exported: None, source: "./n.js".to_string(), attributes: vec![] }),
    ];
    let names = module_own_export_names(&body);
    assert_eq!(sorted_names(&names), vec!["default", "ns", "str name", "x"]);
    assert_eq!(DEFAULT_EXPORT_NAME, "default");
    let hoisted = Statement::ExportNamed(ExportNamedDeclaration {
        declaration: Some(Declaration::Function(function(Some("f"), vec![], None, vec![]))),
        specifiers: vec![],
        source: None,
        attributes: vec![],
    });
    assert!(is_hoisted_function_decl(&hoisted));
    assert!(!is_hoisted_function_decl(&Statement::Empty));
    let attrs = vec![ImportAttribute { key: "type".to_string(), value: "json".to_string() }];
    assert_eq!(module_attributes(&attrs), vec![("type".to_string(), "json".to_string())]);
    let m = ResolvedModule { source: "{}".to_string(), path: "/m.json".to_string(), kind: ModuleKind::Json };
    assert!(m.kind == ModuleKind::Json);
}

#[test]
fn regexp_verdicts() {
    assert_eq!(regexp_verdict("a+", "g", true), Ok(("a+".to_string(), "g".to_string())));
    assert_eq!(
        regexp_verdict("(", "", false),
        Err("SyntaxError: Invalid regular expression: /(/".to_string())
    );
}

#[test]
fn bigint_grammar_and_canonical_text() {
    let digits = |t: &str| match bigint_literal_constant(t) {
        Ok(Constant::BigInt(d)) => Some(d),
        _ => None,
    };
    assert_eq!(digits("-0"), Some("0".to_string()));
    assert_eq!(digits("+1_000"), Some("1000".to_string()));
    assert_eq!(digits("-0042"), Some("-42".to_string()));
    assert_eq!(digits("1__"), Some("1".to_string()));
    assert_eq!(digits("_1"), None);
    assert_eq!(digits("-+1"), None);
    assert_eq!(digits("+-1"), None);
    assert_eq!(digits("--1"), None);
    assert_eq!(digits("-"), None);
    assert_eq!(digits(""), None);
}
