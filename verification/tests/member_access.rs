use oxide_emit::ast::MethodDefinitionKind;
use oxide_emit::ctx::CompileCtx;
use oxide_emit::emitter::Emitter;
use oxide_emit::inst::{Inst, OpCode, Operand};
use oxide_emit::upvalues::UpvalueCapture;

fn op(op: OpCode, a: Operand, b: Operand, c: Operand) -> Inst {
    Inst::Op { op, a, b, c }
}

#[test]
fn super_property_reads() {
    let e = Emitter::new();
    let mut outside = CompileCtx::new();
    assert_eq!(
        e.emit_super_member_expression("x", &mut outside),
        Err("super property only supported in class methods".to_string())
    );
    assert!(outside.insts.is_empty());
    let mut method = CompileCtx::new();
    method.in_instance_method = true;
    assert_eq!(e.emit_super_member_expression("x", &mut method), Ok(3));
    assert_eq!(method.insts[1], op(OpCode::LoadVar, Operand::Reg(2), Operand::This, Operand::Unused));
    assert_eq!(method.insts[2], op(OpCode::SuperGetProp, Operand::Reg(3), Operand::Reg(2), Operand::Reg(1)));
    let mut stat = CompileCtx::new();
    stat.in_static_method = true;
    assert_eq!(e.emit_super_member_expression("x", &mut stat), Ok(3));
    assert_eq!(stat.insts[2], op(OpCode::SuperStaticGetProp, Operand::Reg(3), Operand::Reg(2), Operand::Reg(1)));
}

#[test]
fn super_method_callee() {
    let e = Emitter::new();
    let mut outside = CompileCtx::new();
    assert_eq!(
        e.emit_super_method_callee("m", &mut outside),
        Err("super property only supported in class methods".to_string())
    );
    // `this` and the key were emitted before the check
    assert_eq!(outside.insts.len(), 2);
    assert_eq!(outside.next_reg, 4);
    let mut ctor = CompileCtx::new();
    ctor.in_derived_constructor = true;
    assert_eq!(e.emit_super_method_callee("m", &mut ctor), Ok((3, 1)));
    assert_eq!(ctor.insts[2], op(OpCode::SuperGetProp, Operand::Reg(3), Operand::Reg(1), Operand::Reg(2)));
}

#[test]
fn property_reads_and_method_callees() {
    let e = Emitter::new();
    let mut ctx = CompileCtx::new();
    assert_eq!(e.emit_named_property_read(7, "x", &mut ctx), 7);
    assert_eq!(ctx.insts[1], Inst::IcGet { obj: Operand::Reg(7), key: Operand::Reg(1) });
    let r = e.emit_dynamic_property_read(7, 8, &mut ctx);
    assert_eq!(r, 2);
    assert_eq!(ctx.insts[2], op(OpCode::GetPropDynamic, Operand::Reg(7), Operand::Reg(8), Operand::Reg(2)));
    let (callee, this) = e.emit_method_callee(7, "x", &mut ctx);
    assert_eq!((callee, this), (4, 7));
    // "x" is pooled once: the key load reuses constant 0
    assert_eq!(ctx.insts[3], Inst::LoadConst { dst: Operand::Reg(3), idx: 0 });
    assert_eq!(ctx.insts[4], op(OpCode::LoadVar, Operand::Reg(4), Operand::Reg(7), Operand::Unused));
    assert_eq!(ctx.insts[5], Inst::IcGet { obj: Operand::Reg(4), key: Operand::Reg(3) });
}

#[test]
fn private_member_access() {
    let e = Emitter::new();
    let mut ctx = CompileCtx::new();
    ctx.private_name_map.push(("p".to_string(), 5));
    assert_eq!(e.emit_private_method_callee(7, "q", &mut ctx), Err("private name #q is not defined".to_string()));
    assert_eq!(e.emit_private_method_callee(7, "p", &mut ctx), Ok((2, 7)));
    assert_eq!(ctx.insts[1], op(OpCode::GetPrivate, Operand::Reg(2), Operand::Reg(7), Operand::Reg(1)));
    let r = e.emit_private_field_read(7, "p", &mut ctx).unwrap();
    assert_eq!(
        ctx.insts.last(),
        Some(&Inst::GetPrivateChecked { dst: Operand::Reg(r), obj: Operand::Reg(7), key: Operand::Reg(3), brand_reg: 0, brand_id: 0 })
    );

    let mut branded = CompileCtx::new();
    branded.private_name_map.push(("m".to_string(), 4));
    branded.private_element_kinds = vec![("m".to_string(), Some(MethodDefinitionKind::Method), false)];
    branded.private_brand_id = Some(9);
    branded.current_upvalue_captures =
        vec![UpvalueCapture { name: "@@class_brand".to_string(), enclosing_reg: 0, cell_idx: 0, parent_uv_idx: None }];
    let r = e.emit_private_field_read(7, "m", &mut branded).unwrap();
    assert_eq!(r, 3);
    assert_eq!(branded.insts[0], op(OpCode::LoadUpvalue, Operand::Reg(1), Operand::Imm(0), Operand::Unused));
    assert_eq!(
        branded.insts[2],
        Inst::GetPrivateChecked { dst: Operand::Reg(3), obj: Operand::Reg(7), key: Operand::Reg(2), brand_reg: 1, brand_id: 9 }
    );
    assert_eq!(e.emit_private_field_read(7, "zz", &mut branded), Err("private name #zz is not defined".to_string()));
}
