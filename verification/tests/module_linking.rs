use oxide_emit::ast::{
    ExportAllDeclaration, ExportNamedDeclaration, ExportSpecifier, ImportAttribute, ImportDeclaration,
    ImportSpecifier, Statement,
};
use oxide_emit::ctx::{CompileCtx, Constant};
use oxide_emit::emitter::Emitter;
use oxide_emit::inst::{Inst, OpCode, Operand};
use oxide_emit::linking::{has_unnamed_star, module_dependencies, plan_dependency, DepAction};
use oxide_emit::module::{ModuleKind, ResolvedModule};
use oxide_emit::nameset::NameSet;

fn import(source: &str, attributes: Vec<ImportAttribute>) -> Statement {
    Statement::Import(ImportDeclaration {
        specifiers: Some(vec![ImportSpecifier::Default { local: "d".to_string() }]),
        source: source.to_string(),
        attributes,
    })
}

fn spec(local: &str, exported: &str) -> ExportSpecifier {
    ExportSpecifier { local: local.to_string(), exported: exported.to_string() }
}

fn export_from(source: Option<&str>, specifiers: Vec<ExportSpecifier>) -> ExportNamedDeclaration {
    ExportNamedDeclaration {
        declaration: None,
        specifiers,
        source: source.map(|s| s.to_string()),
        attributes: vec![],
    }
}

fn export_all(source: &str, exported: Option<&str>) -> ExportAllDeclaration {
    ExportAllDeclaration { exported: exported.map(|s| s.to_string()), source: source.to_string(), attributes: vec![] }
}

fn resolved(path: &str, kind: ModuleKind) -> ResolvedModule {
    ResolvedModule { source: String::new(), path: path.to_string(), kind }
}

fn count_calls(insts: &[Inst]) -> usize {
    insts.iter().filter(|i| matches!(i, Inst::CallNative { .. })).count()
}

fn module_ctx() -> CompileCtx {
    let mut ctx = CompileCtx::new();
    ctx.module_ns_reg = Some(40);
    ctx.record_dependency("./dep.js", 41, false);
    ctx.record_dependency("./me.js", 40, true);
    ctx
}

#[test]
fn dependencies_are_listed_once_in_first_mention_order() {
    let json = vec![ImportAttribute { key: "type".to_string(), value: "json".to_string() }];
    let body = vec![
        import("./a.json", json),
        Statement::ExportNamed(export_from(Some("./b.js"), vec![spec("x", "y")])),
        import("./a.json", vec![]),
        Statement::ExportAll(export_all("./c.js", None)),
        Statement::ExportNamed(export_from(None, vec![spec("z", "z")])),
        Statement::Empty,
    ];
    let deps = module_dependencies(&body);
    let names: Vec<&str> = deps.iter().map(|d| d.0.as_str()).collect();
    assert_eq!(names, vec!["./a.json", "./b.js", "./c.js"]);
    assert_eq!(deps[0].1, vec![("type".to_string(), "json".to_string())]);
    assert!(deps[1].1.is_empty() && deps[2].1.is_empty());
    assert!(has_unnamed_star(&body));
    assert!(!has_unnamed_star(&vec![Statement::ExportAll(export_all("./c.js", Some("ns")))]));
    assert!(module_dependencies(&vec![]).is_empty());
}

#[test]
fn dependency_plans() {
    let stack = vec!["/m/main.js".to_string(), "/m/mid.js".to_string()];
    assert_eq!(plan_dependency(&resolved("/m/mid.js", ModuleKind::Js), "/m/mid.js", &stack), Ok(DepAction::SelfImport));
    assert_eq!(
        plan_dependency(&resolved("/m/main.js", ModuleKind::Js), "/m/mid.js", &stack),
        Err("circular module import not supported: /m/main.js".to_string())
    );
    assert_eq!(plan_dependency(&resolved("/m/x.js", ModuleKind::Js), "/m/mid.js", &stack), Ok(DepAction::CompileJs));
    assert_eq!(plan_dependency(&resolved("/m/x.json", ModuleKind::Json), "/m/mid.js", &stack), Ok(DepAction::Json));
    assert_eq!(plan_dependency(&resolved("/m/x.txt", ModuleKind::Text), "/m/mid.js", &stack), Ok(DepAction::Text));
    assert_eq!(
        plan_dependency(&resolved("/m/x.bin", ModuleKind::Bytes), "/m/mid.js", &stack),
        Err("bytes module not supported".to_string())
    );
}

#[test]
fn recorded_dependencies_are_found_again() {
    let ctx = module_ctx();
    assert_eq!(ctx.dependency_reg("./dep.js"), Ok(41));
    assert_eq!(ctx.dependency_reg("./nope.js"), Err("module dependency missing: ./nope.js".to_string()));
    assert!(ctx.module_self_import_specs.contains("./me.js"));
    assert!(!ctx.module_self_import_specs.contains("./dep.js"));
    let mut again = module_ctx();
    again.record_dependency("./dep.js", 50, false);
    assert_eq!(again.dependency_reg("./dep.js"), Ok(50));
}

#[test]
fn import_values() {
    let e = Emitter::new();
    let mut own = NameSet::new();
    own.insert("present");
    let named = |n: &str| ImportSpecifier::Named { imported: n.to_string(), local: "l".to_string() };
    let default = ImportSpecifier::Default { local: "l".to_string() };
    let namespace = ImportSpecifier::Namespace { local: "ns".to_string() };

    let mut ctx = CompileCtx::new();
    assert_eq!(e.emit_import_value(&namespace, 9, false, &own, false, &mut ctx), Ok(9));
    assert!(ctx.insts.is_empty());
    assert_eq!(
        e.emit_import_value(&named("absent"), 9, true, &own, false, &mut ctx),
        Err("requested module export is not exported: absent".to_string())
    );
    assert_eq!(
        e.emit_import_value(&default, 9, true, &own, true, &mut ctx),
        Err("requested module export is not exported: default".to_string())
    );
    assert!(ctx.insts.is_empty() && ctx.constants.is_empty());

    let r = e.emit_import_value(&named("absent"), 9, true, &own, true, &mut ctx).unwrap();
    assert_eq!(ctx.insts, vec![Inst::LoadConst { dst: Operand::Reg(r), idx: 0 }]);
    assert!(matches!(ctx.constants[0], Constant::Undefined));

    let mut ctx = CompileCtx::new();
    let v = e.emit_import_value(&named("x"), 9, false, &own, false, &mut ctx).unwrap();
    assert!(matches!(&ctx.constants[0], Constant::String(s) if s == "x"));
    assert_eq!(ctx.builtin_reg_map[0].0, "__moduleLinkGet");
    assert_eq!(count_calls(&ctx.insts), 1);
    assert_eq!(ctx.insts.last(), Some(&Inst::Op { op: OpCode::LoadVar, a: Operand::Reg(v), b: Operand::Unused, c: Operand::Unused }));
    let _ = e.emit_import_value(&default, 9, false, &own, false, &mut ctx).unwrap();
    assert!(ctx.constants.iter().any(|c| matches!(c, Constant::String(s) if s == "default")));
}

#[test]
fn reexport_link_checks_cover_linked_foreign_sources_only() {
    let e = Emitter::new();
    let mut ctx = module_ctx();
    let body = vec![
        Statement::ExportNamed(export_from(Some("./dep.js"), vec![spec("a", "b"), spec("c", "c")])),
        Statement::ExportNamed(export_from(Some("./me.js"), vec![spec("self", "self")])),
        Statement::ExportNamed(export_from(Some("./unknown.js"), vec![spec("u", "u")])),
        Statement::ExportNamed(export_from(None, vec![spec("loc", "loc")])),
    ];
    e.emit_reexport_link_checks(&body, &mut ctx);
    assert_eq!(count_calls(&ctx.insts), 2);
    let names: Vec<&str> = ctx
        .constants
        .iter()
        .filter_map(|c| match c {
            Constant::String(s) => Some(s.as_str()),
            _ => None,
        })
        .collect();
    assert_eq!(names, vec!["a", "c"]);
}

#[test]
fn export_from_reads_and_registers_each_name() {
    let e = Emitter::new();
    let mut outside = CompileCtx::new();
    assert_eq!(
        e.emit_export_from(&export_from(Some("./dep.js"), vec![spec("a", "b")]), &mut outside),
        Err("export outside module context".to_string())
    );
    let mut ctx = module_ctx();
    assert_eq!(
        e.emit_export_from(&export_from(Some("./x.js"), vec![spec("a", "b")]), &mut ctx),
        Err("export from unknown module: ./x.js".to_string())
    );
    assert_eq!(e.emit_export_from(&export_from(Some("./x.js"), vec![]), &mut ctx), Ok(()));
    assert!(ctx.insts.is_empty());
    assert_eq!(e.emit_export_from(&export_from(Some("./dep.js"), vec![spec("a", "b"), spec("c", "d")]), &mut ctx), Ok(()));
    // each name: one read through __moduleLinkGet and one __moduleSet
    assert_eq!(count_calls(&ctx.insts), 4);
    let slots: Vec<&str> = ctx.builtin_reg_map.iter().map(|s| s.0.as_str()).collect();
    assert_eq!(slots, vec!["__moduleLinkGet", "__moduleSet"]);
}

#[test]
fn export_all_forms() {
    let e = Emitter::new();
    let mut ctx = module_ctx();
    assert_eq!(
        e.emit_export_all(&export_all("./x.js", None), &mut ctx),
        Err("export * from unknown module: ./x.js".to_string())
    );
    assert!(ctx.insts.is_empty());
    assert_eq!(e.emit_export_all(&export_all("./dep.js", None), &mut ctx), Ok(()));
    assert_eq!(ctx.builtin_reg_map[0].0, "__moduleStar");
    let star = ctx.insts.iter().find(|i| matches!(i, Inst::CallNative { .. })).cloned().unwrap();
    assert!(matches!(star, Inst::CallNative { argc: 2, .. }));
    assert_eq!(e.emit_export_all(&export_all("./dep.js", Some("ns")), &mut ctx), Ok(()));
    assert!(ctx.constants.iter().any(|c| matches!(c, Constant::String(s) if s == "ns")));
    assert_eq!(ctx.builtin_reg_map[1].0, "__moduleSet");
}

#[test]
fn self_alias_write_back() {
    let e = Emitter::new();
    let mut ctx = module_ctx();
    e.emit_self_alias_write(&mut ctx, "x", 7);
    assert!(ctx.insts.is_empty());
    ctx.module_self_aliases.insert("x", 12);
    e.emit_self_alias_write(&mut ctx, "x", 7);
    assert_eq!(
        ctx.insts,
        vec![Inst::Op { op: OpCode::StoreVar, a: Operand::Reg(12), b: Operand::Reg(7), c: Operand::Unused }]
    );
    assert_eq!(ctx.module_self_aliases.get("x"), Some(12));
    assert_eq!(ctx.module_self_aliases.get("y"), None);
}

#[test]
fn module_body_opening_and_closing() {
    let e = Emitter::new();
    let mut ctx = CompileCtx::new();
    let ns = e.emit_module_namespace(&mut ctx);
    assert_eq!(ctx.module_ns_reg, Some(ns));
    assert_eq!(ctx.builtin_reg_map[0].0, "__moduleObject");
    e.emit_module_finish(&mut ctx, ns, false);
    assert_eq!(ctx.insts.last(), Some(&Inst::Return { value: Operand::Reg(ns) }));
    let mut top = CompileCtx::new();
    let ns = e.emit_module_namespace(&mut top);
    e.emit_module_finish(&mut top, ns, true);
    let n = top.insts.len();
    match (&top.insts[n - 2], &top.insts[n - 1]) {
        (Inst::LoadConst { dst: Operand::Reg(r), .. }, Inst::Return { value: Operand::Reg(v) }) => assert_eq!(r, v),
        other => panic!("unexpected tail {:?}", other),
    }
    assert_eq!(top.builtin_reg_map[1].0, "__moduleSeal");
}

#[test]
fn data_module_body() {
    let e = Emitter::new();
    let ctx = e.compile_data_dep("json", "{\"a\":1}");
    assert!(matches!(&ctx.constants[0], Constant::String(s) if s == "json"));
    assert!(matches!(&ctx.constants[1], Constant::String(s) if s == "{\"a\":1}"));
    assert!(matches!(ctx.constants[2], Constant::Undefined));
    assert_eq!(
        ctx.insts,
        vec![
            Inst::LoadConst { dst: Operand::Reg(1), idx: 0 },
            Inst::LoadConst { dst: Operand::Reg(2), idx: 1 },
            Inst::LoadConst { dst: Operand::Reg(4), idx: 2 },
            Inst::CallNative { callee: Operand::Reg(3), this: Operand::Reg(4), first_arg: Operand::Reg(1), argc: 2 },
            Inst::Op { op: OpCode::LoadVar, a: Operand::Reg(5), b: Operand::Unused, c: Operand::Unused },
            Inst::Return { value: Operand::Reg(5) },
        ]
    );
}

#[test]
fn module_bodies_are_strict_and_module_scoped() {
    let e = Emitter::new();
    let ctx = e.module_context();
    assert!(ctx.is_strict && !ctx.is_global_scope);
    assert!(ctx.insts.is_empty() && ctx.module_ns_reg.is_none());
    let script = e.program_context(false, true, false);
    assert!(script.is_global_scope && script.is_eval_script && script.is_eval_origin && !script.is_strict);
}
