use oxide_emit::ast::{ImportAttribute, ImportDeclaration, ImportSpecifier, Statement};
use oxide_emit::ctx::CompileCtx;
use oxide_emit::emitter::Emitter;
use oxide_emit::inst::Inst;
use oxide_emit::link_step::{LinkAction, LinkEvent};
use oxide_emit::module::{ModuleKind, ResolvedModule};

fn import(source: &str, attributes: Vec<ImportAttribute>) -> Statement {
    Statement::Import(ImportDeclaration {
        specifiers: Some(vec![ImportSpecifier::Default { local: "d".to_string() }]),
        source: source.to_string(),
        attributes,
    })
}

fn resolved(path: &str, kind: ModuleKind, source: &str) -> ResolvedModule {
    ResolvedModule { source: source.to_string(), path: path.to_string(), kind }
}

#[test]
fn linking_walks_the_dependencies_in_order() {
    let e = Emitter::new();
    let mut ctx = CompileCtx::new();
    let json = vec![ImportAttribute { key: "type".to_string(), value: "json".to_string() }];
    let body = vec![import("./a.js", vec![]), import("./d.json", json), import("./me.js", vec![]), import("./a.js", vec![])];
    let mut st = e.begin_module_link(&body, "/m/me.js", vec!["/m/me.js".to_string()], &mut ctx);
    assert_eq!(ctx.module_ns_reg, Some(st.ns_reg));
    assert_eq!(st.deps.len(), 3);

    match e.module_link_step(&mut st, LinkEvent::Start, &mut ctx) {
        Ok(LinkAction::Resolve { spec, attrs }) => {
            assert_eq!(spec, "./a.js");
            assert!(attrs.is_empty());
        },
        _ => panic!("expected a resolve request"),
    }
    match e.module_link_step(&mut st, LinkEvent::Resolved(resolved("/m/a.js", ModuleKind::Js, "export default 1")), &mut ctx) {
        Ok(LinkAction::CompileJs { path, source }) => {
            assert_eq!(path, "/m/a.js");
            assert_eq!(source, "export default 1");
        },
        _ => panic!("expected a compile request"),
    }
    assert_eq!(st.path_stack, vec!["/m/me.js".to_string(), "/m/a.js".to_string()]);
    let before = ctx.insts.len();
    match e.module_link_step(&mut st, LinkEvent::Compiled { index: 1 }, &mut ctx) {
        Ok(LinkAction::Resolve { spec, attrs }) => {
            assert_eq!(spec, "./d.json");
            assert_eq!(attrs, vec![("type".to_string(), "json".to_string())]);
        },
        _ => panic!("expected the next resolve request"),
    }
    assert_eq!(st.path_stack, vec!["/m/me.js".to_string()]);
    assert!(matches!(ctx.insts[before], Inst::CreateClosure { idx: 1, .. }));
    assert!(ctx.module_dep_ns_regs.get("./a.js").is_some());

    match e.module_link_step(&mut st, LinkEvent::Resolved(resolved("/m/d.json", ModuleKind::Json, "{}")), &mut ctx) {
        Ok(LinkAction::AddData { module }) => assert!(matches!(module.insts.last(), Some(Inst::Return { .. }))),
        _ => panic!("expected a data module"),
    }
    let _ = e.module_link_step(&mut st, LinkEvent::Compiled { index: 2 }, &mut ctx);
    match e.module_link_step(&mut st, LinkEvent::Resolved(resolved("/m/me.js", ModuleKind::Js, "")), &mut ctx) {
        Ok(LinkAction::Done) => {},
        _ => panic!("expected the end"),
    }
    assert_eq!(ctx.module_dep_ns_regs.get("./me.js"), Some(st.ns_reg));
    assert!(ctx.module_self_import_specs.contains("./me.js"));
}

#[test]
fn linking_refuses_cycles_and_bytes() {
    let e = Emitter::new();
    let mut ctx = CompileCtx::new();
    let body = vec![import("./b.js", vec![])];
    let mut st = e.begin_module_link(&body, "/m/a.js", vec!["/m/b.js".to_string(), "/m/a.js".to_string()], &mut ctx);
    let _ = e.module_link_step(&mut st, LinkEvent::Start, &mut ctx);
    let r = e.module_link_step(&mut st, LinkEvent::Resolved(resolved("/m/b.js", ModuleKind::Js, "")), &mut ctx);
    assert!(matches!(r, Err(m) if m == "circular module import not supported: /m/b.js"));
    let r = e.module_link_step(&mut st, LinkEvent::Resolved(resolved("/m/c.bin", ModuleKind::Bytes, "")), &mut ctx);
    assert!(matches!(r, Err(m) if m == "bytes module not supported"));
}
