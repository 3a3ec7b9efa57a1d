use oxide_emit::ast::{
    ClassElement, Expression, FormalParameters, Function, MethodDefinitionKind, PropertyKey, StringLiteral,
};
use oxide_emit::cells::CellMap;
use oxide_emit::class_plan::{
    allocate_class_cells, class_extra_upvalues, class_key_slots, has_computed_instance_keys, plan_class_elements,
};
use oxide_emit::class_emit::{method_extra_upvalues, method_function_name};
use oxide_emit::ctx::{CompileCtx, Constant};
use oxide_emit::emitter::Emitter;
use oxide_emit::inst::{Inst, OpCode, Operand};
use oxide_emit::upvalues::UpvalueCapture;

fn empty_fn() -> Function {
    Function {
        id: None,
        params: FormalParameters { items: vec![], rest: None },
        body: Some(vec![]),
        is_generator: false,
        is_async: false,
    }
}

fn method(key: PropertyKey, kind: MethodDefinitionKind, is_static: bool) -> ClassElement {
    ClassElement::Method { key, kind, is_static, value: empty_fn() }
}

fn field(key: PropertyKey, is_static: bool) -> ClassElement {
    ClassElement::Property { key, value: None, is_static }
}

fn named(n: &str) -> PropertyKey {
    PropertyKey::StaticIdentifier(n.to_string())
}

fn private(n: &str) -> PropertyKey {
    PropertyKey::PrivateIdentifier(n.to_string())
}

fn computed(n: &str) -> PropertyKey {
    PropertyKey::Computed(Box::new(Expression::Identifier(n.to_string())))
}

fn upvalue(name: &str) -> UpvalueCapture {
    UpvalueCapture { name: name.to_string(), enclosing_reg: 0, cell_idx: 0, parent_uv_idx: None }
}

#[test]
fn class_elements_are_planned_in_order() {
    let elements = vec![
        field(named("a"), false),
        method(named("constructor"), MethodDefinitionKind::Constructor, false),
        method(private("p"), MethodDefinitionKind::Getter, false),
        method(private("p"), MethodDefinitionKind::Setter, false),
        field(private("q"), true),
        field(private("r"), false),
        ClassElement::StaticBlock(vec![]),
        field(computed("k"), false),
    ];
    let plan = plan_class_elements(&elements, 10).unwrap();
    assert_eq!(plan.constructor, Some(1));
    assert_eq!(plan.instance_fields, vec![0, 5, 7]);
    let privates: Vec<(&str, u32, Option<MethodDefinitionKind>, bool)> =
        plan.private_names.iter().map(|p| (p.name.as_str(), p.id, p.kind, p.is_static)).collect();
    assert_eq!(
        privates,
        vec![("p", 10, Some(MethodDefinitionKind::Getter), false), ("q", 11, None, true), ("r", 12, None, false)]
    );
    assert_eq!(plan.next_private_name_id, 13);
    let mut plan = plan;
    assert_eq!(plan.assign_brand_id(), Some(13));
    assert_eq!(plan.next_private_name_id, 14);
    let mut bare = plan_class_elements(&vec![field(named("x"), false)], 3).unwrap();
    assert_eq!(bare.assign_brand_id(), None);
    assert_eq!(bare.next_private_name_id, 3);
}

#[test]
fn class_element_errors() {
    let dup_ctor = vec![
        method(named("constructor"), MethodDefinitionKind::Constructor, false),
        method(named("constructor"), MethodDefinitionKind::Constructor, false),
    ];
    assert_eq!(plan_class_elements(&dup_ctor, 0).err(), Some("duplicate class constructor".to_string()));
    let dup_getters = vec![
        method(private("p"), MethodDefinitionKind::Getter, false),
        method(private("p"), MethodDefinitionKind::Getter, false),
    ];
    assert_eq!(plan_class_elements(&dup_getters, 0).err(), Some("duplicate private name #p".to_string()));
    let field_then_method = vec![field(private("p"), false), method(private("p"), MethodDefinitionKind::Method, false)];
    assert_eq!(plan_class_elements(&field_then_method, 0).err(), Some("duplicate private name #p".to_string()));
    let method_then_field = vec![method(private("p"), MethodDefinitionKind::Method, false), field(private("p"), false)];
    assert_eq!(plan_class_elements(&method_then_field, 0).err(), Some("duplicate private name #p".to_string()));
    let accessor = vec![field(named("a"), false), ClassElement::Accessor, method(named("constructor"), MethodDefinitionKind::Constructor, false)];
    assert_eq!(
        plan_class_elements(&accessor, 0).err(),
        Some("class accessor properties not yet supported".to_string())
    );
}

#[test]
fn computed_keys_get_slots_in_source_order() {
    let elements = vec![
        method(computed("m"), MethodDefinitionKind::Method, false),
        field(named("plain"), false),
        field(computed("s"), true),
        field(private("p"), false),
        field(computed("i"), false),
    ];
    let (slots, count) = class_key_slots(&elements);
    assert_eq!(slots, vec![Some(0), None, Some(1), None, Some(2)]);
    assert_eq!(count, 3);
    assert!(has_computed_instance_keys(&elements));
    let statics_only = vec![field(computed("s"), true), method(computed("m"), MethodDefinitionKind::Method, false)];
    assert!(!has_computed_instance_keys(&statics_only));
}

#[test]
fn class_cells_follow_the_largest_cell() {
    let mut cells = CellMap::new();
    cells.insert("x", 4);
    cells.insert("y", 1);
    assert_eq!(cells.next_cell(), 5);
    let (self_cell, keys_cell, brand_cell) = allocate_class_cells(&mut cells, true, true, true);
    assert_eq!((self_cell, keys_cell, brand_cell), (Some(5), Some(6), Some(7)));
    assert_eq!(cells.get("@@class_self_5"), Some(5));
    assert_eq!(cells.get("@@field_keys"), Some(6));
    assert_eq!(cells.get("@@class_brand"), Some(7));
    assert_eq!(cells.get("x"), Some(4));
    let mut empty = CellMap::new();
    assert_eq!(allocate_class_cells(&mut empty, false, true, false), (None, Some(0), None));
    let mut full = CellMap::new();
    full.insert("z", 255);
    assert_eq!(allocate_class_cells(&mut full, true, false, true), (Some(255), None, Some(255)));

    let extra = class_extra_upvalues(Some(6), Some(7), Some("C"), Some(5));
    assert_eq!(extra, vec![("@@field_keys", 6), ("@@class_brand", 7), ("C", 5)]);
    assert!(class_extra_upvalues(None, None, Some("C"), None).is_empty());
}

#[test]
fn prototype_with_and_without_superclass() {
    let e = Emitter::new();
    let mut ctx = CompileCtx::new();
    e.emit_class_prototype(1, 2, None, 3, &mut ctx);
    assert_eq!(ctx.insts.len(), 6);
    assert_eq!(ctx.insts[0], Inst::CreateClosure { dst: Operand::Reg(1), idx: 3 });
    assert_eq!(
        ctx.insts[1],
        Inst::Op { op: OpCode::NewSessionObject, a: Operand::Reg(2), b: Operand::Unused, c: Operand::Unused }
    );
    assert!(matches!(ctx.insts[3], Inst::DefinePropAttrs { obj: Operand::Reg(2), value: Operand::Reg(1), attrs: 5, .. }));
    assert!(matches!(ctx.insts[5], Inst::DefinePropAttrs { obj: Operand::Reg(1), value: Operand::Reg(2), attrs: 0, .. }));
    // the pool holds "constructor" and "prototype"
    assert_eq!(ctx.constants.len(), 2);

    let mut derived = CompileCtx::new();
    derived.reserve_reg(3);
    e.emit_class_prototype(1, 2, Some(3), 4, &mut derived);
    // parent prototype key in 4, parent prototype in 5, `__proto__` in 6
    assert_eq!(
        derived.insts[3],
        Inst::Op { op: OpCode::GetProp, a: Operand::Reg(3), b: Operand::Reg(5), c: Operand::Reg(4) }
    );
    assert_eq!(
        derived.insts[5],
        Inst::Op { op: OpCode::SetProp, a: Operand::Reg(2), b: Operand::Reg(5), c: Operand::Reg(6) }
    );
    assert_eq!(
        derived.insts[6],
        Inst::Op { op: OpCode::SetProp, a: Operand::Reg(1), b: Operand::Reg(3), c: Operand::Reg(6) }
    );
    assert_eq!(derived.insts.len(), 11);
    // "prototype" is pooled once and reused
    assert_eq!(derived.constants.len(), 3);
}

#[test]
fn brand_and_binding_initialisation() {
    let e = Emitter::new();
    let mut ctx = CompileCtx::new();
    e.emit_class_brand(1, 2, 9, 4, &mut ctx);
    assert!(matches!(ctx.constants[0], Constant::Int(9)));
    assert_eq!(
        ctx.insts[1..].to_vec(),
        vec![
            Inst::InitPrivate { obj: Operand::Reg(1), value: Operand::Reg(2), key: Operand::Reg(1), is_method: false },
            Inst::Op { op: OpCode::MakeCell, a: Operand::Reg(2), b: Operand::Imm(4), c: Operand::Unused },
        ]
    );
    let mut b = CompileCtx::new();
    e.emit_class_binding_init(7, 1, Some(3), &mut b);
    assert_eq!(
        b.insts,
        vec![
            Inst::Op { op: OpCode::StoreVar, a: Operand::Reg(7), b: Operand::Reg(1), c: Operand::Unused },
            Inst::Op { op: OpCode::MakeCell, a: Operand::Reg(7), b: Operand::Imm(3), c: Operand::Unused },
        ]
    );
    let mut c = CompileCtx::new();
    e.emit_class_binding_init(7, 1, None, &mut c);
    assert_eq!(c.insts.len(), 1);
}

#[test]
fn instance_brand_slot() {
    let e = Emitter::new();
    let mut none = CompileCtx::new();
    assert_eq!(e.emit_instance_brand(None, None, &mut none), Ok(()));
    assert!(none.insts.is_empty());
    let mut missing_cell = CompileCtx::new();
    assert_eq!(e.emit_instance_brand(Some(2), None, &mut missing_cell), Err("class brand cell missing".to_string()));
    let mut missing_uv = CompileCtx::new();
    assert_eq!(
        e.emit_instance_brand(Some(2), Some(0), &mut missing_uv),
        Err("class brand upvalue missing".to_string())
    );
    assert_eq!(missing_uv.next_reg, 2);
    let mut ctx = CompileCtx::new();
    ctx.current_upvalue_captures = vec![upvalue("x"), upvalue("@@class_brand")];
    assert_eq!(e.emit_instance_brand(Some(2), Some(0), &mut ctx), Ok(()));
    assert_eq!(
        ctx.insts,
        vec![
            Inst::Op { op: OpCode::LoadUpvalue, a: Operand::Reg(1), b: Operand::Imm(1), c: Operand::Unused },
            Inst::LoadConst { dst: Operand::Reg(2), idx: 0 },
            Inst::InitPrivate { obj: Operand::This, value: Operand::Reg(1), key: Operand::Reg(2), is_method: false },
        ]
    );
}

#[test]
fn private_access_checks_methods_and_statics_only() {
    let e = Emitter::new();
    let mut ctx = CompileCtx::new();
    assert_eq!(e.private_access_brand("m", &mut ctx), Ok((0, 0)));
    ctx.private_brand_id = Some(8);
    ctx.private_element_kinds = vec![
        ("f".to_string(), None, false),
        ("s".to_string(), None, true),
        ("m".to_string(), Some(MethodDefinitionKind::Method), false),
    ];
    assert_eq!(e.private_access_brand("m", &mut ctx), Ok((0, 0)));
    ctx.current_upvalue_captures = vec![upvalue("@@class_brand")];
    assert_eq!(e.private_access_brand("f", &mut ctx), Ok((0, 0)));
    assert_eq!(e.private_access_brand("unknown", &mut ctx), Ok((0, 0)));
    assert!(ctx.insts.is_empty());
    assert_eq!(e.private_access_brand("m", &mut ctx), Ok((1, 8)));
    assert_eq!(e.private_access_brand("s", &mut ctx), Ok((2, 8)));
    assert_eq!(
        ctx.insts[0],
        Inst::Op { op: OpCode::LoadUpvalue, a: Operand::Reg(1), b: Operand::Imm(0), c: Operand::Unused }
    );
}

#[test]
fn instance_field_keys_and_literal_keys() {
    let e = Emitter::new();
    let mut ctx = CompileCtx::new();
    ctx.current_upvalue_captures = vec![upvalue("a"), upvalue("@@field_keys")];
    ctx.locate_field_keys();
    assert_eq!(ctx.field_keys_uv, Some(1));
    let key = e.emit_instance_field_key(Some(2), &mut ctx);
    assert_eq!(key, 3);
    assert_eq!(
        ctx.insts,
        vec![
            Inst::Op { op: OpCode::LoadUpvalue, a: Operand::Reg(1), b: Operand::Imm(1), c: Operand::Unused },
            Inst::LoadConst { dst: Operand::Reg(2), idx: 0 },
            Inst::Op { op: OpCode::GetPropDynamic, a: Operand::Reg(1), b: Operand::Reg(2), c: Operand::Reg(3) },
        ]
    );
    assert!(matches!(ctx.constants[0], Constant::Int(2)));
    let r = e.emit_class_key_reg(&PropertyKey::StringLiteral(StringLiteral { value: "k".to_string(), lone_surrogates: false }), &mut ctx);
    assert!(r.is_ok());
    assert!(matches!(&ctx.constants[1], Constant::String(s) if s == "k"));
    assert_eq!(
        e.emit_class_key_reg(&private("p"), &mut ctx),
        Err("private class elements not yet supported".to_string())
    );
    assert_eq!(e.emit_class_key_reg(&computed("c"), &mut ctx), Err("unsupported class property key type".to_string()));
}

#[test]
fn class_privates_are_scoped_to_the_class_body() {
    let elements = vec![field(private("a"), false), method(private("b"), MethodDefinitionKind::Method, true)];
    let plan = plan_class_elements(&elements, 0).unwrap();
    let mut ctx = CompileCtx::new();
    ctx.private_name_map.push(("outer".to_string(), 40));
    ctx.private_brand_id = Some(41);
    let saved = ctx.enter_class_privates(&plan.private_names, Some(2));
    assert_eq!(ctx.private_name_map, vec![("a".to_string(), 0), ("b".to_string(), 1)]);
    assert_eq!(
        ctx.private_element_kinds,
        vec![("a".to_string(), None, false), ("b".to_string(), Some(MethodDefinitionKind::Method), true)]
    );
    assert_eq!(ctx.private_brand_id, Some(2));
    ctx.leave_class_privates(saved);
    assert_eq!(ctx.private_name_map, vec![("outer".to_string(), 40)]);
    assert!(ctx.private_element_kinds.is_empty());
    assert_eq!(ctx.private_brand_id, Some(41));
}

#[test]
fn public_method_properties() {
    let e = Emitter::new();
    let mut ctx = CompileCtx::new();
    assert_eq!(e.emit_method_property(2, 5, 6, MethodDefinitionKind::Method, &named("m"), &mut ctx), Ok(()));
    assert_eq!(
        ctx.insts,
        vec![Inst::DefinePropAttrs { obj: Operand::Reg(2), value: Operand::Reg(6), key: Operand::Reg(5), attrs: 5 }]
    );
    assert_eq!(e.emit_method_property(2, 5, 6, MethodDefinitionKind::Constructor, &named("constructor"), &mut ctx), Ok(()));
    assert_eq!(ctx.insts.len(), 1);
    assert_eq!(
        e.emit_method_property(2, 5, 6, MethodDefinitionKind::Getter, &computed("g"), &mut ctx),
        Err("computed class accessors not yet supported".to_string())
    );
    assert_eq!(e.emit_method_property(2, 5, 6, MethodDefinitionKind::Setter, &named("v"), &mut ctx), Ok(()));
    // undefined in reg 1 (pool 0) for the getter half, key "v" at pool 1
    assert_eq!(
        ctx.insts[2],
        Inst::DefineAccessorAttrs { obj: Operand::Reg(2), get: Operand::Reg(1), set: Operand::Reg(6), key_idx: 1, attrs: 5 }
    );
    assert_eq!(method_function_name(MethodDefinitionKind::Getter, "v"), "get v");
    assert_eq!(method_function_name(MethodDefinitionKind::Setter, "v"), "set v");
    assert_eq!(method_function_name(MethodDefinitionKind::Method, "v"), "v");
}

#[test]
fn private_method_properties() {
    let e = Emitter::new();
    let mut ctx = CompileCtx::new();
    ctx.private_name_map.push(("p".to_string(), 7));
    assert_eq!(
        e.emit_private_method_property(Operand::Reg(3), &named("p"), MethodDefinitionKind::Method, 9, &mut ctx),
        Err("expected private method key".to_string())
    );
    assert_eq!(
        e.emit_private_method_property(Operand::Reg(3), &private("q"), MethodDefinitionKind::Method, 9, &mut ctx),
        Err("private name #q is not defined".to_string())
    );
    assert_eq!(
        e.emit_private_method_property(Operand::Reg(3), &private("p"), MethodDefinitionKind::Constructor, 9, &mut ctx),
        Err("constructor cannot be private".to_string())
    );
    assert!(ctx.insts.is_empty());
    assert_eq!(e.emit_private_method_property(Operand::Reg(3), &private("p"), MethodDefinitionKind::Method, 9, &mut ctx), Ok(()));
    assert_eq!(
        ctx.insts[1],
        Inst::InitPrivate { obj: Operand::Reg(3), value: Operand::Reg(9), key: Operand::Reg(1), is_method: true }
    );
    assert_eq!(e.emit_private_method_property(Operand::This, &private("p"), MethodDefinitionKind::Getter, 9, &mut ctx), Ok(()));
    // id 7 is pool 0, undefined pool 1 in reg 2
    assert_eq!(
        ctx.insts[3],
        Inst::DefineAccessor { obj: Operand::This, get: Operand::Reg(9), set: Operand::Reg(2), key_idx: 0 }
    );
}

#[test]
fn method_upvalues() {
    let mut cells = CellMap::new();
    cells.insert("x", 0);
    assert_eq!(method_extra_upvalues(&cells, Some("C"), Some(4)), vec![("C", 4)]);
    cells.insert("@@class_brand", 3);
    assert_eq!(method_extra_upvalues(&cells, Some("C"), Some(4)), vec![("@@class_brand", 3), ("C", 4)]);
    assert_eq!(method_extra_upvalues(&cells, None, Some(4)), vec![("@@class_brand", 3)]);
}
