use oxide_emit::ast::{FormalParameters, Function, Statement};
use oxide_emit::ctx::{CompileCtx, Constant};
use oxide_emit::emit_ops::pack_arg_regs;
use oxide_emit::emitter::{Emitter, FunctionBodyContext};
use oxide_emit::inst::{Inst, OpCode, Operand};

fn fdecl(name: &str) -> Statement {
    Statement::Function(Function {
        id: Some(name.to_string()),
        params: FormalParameters { items: vec![], rest: None },
        body: Some(vec![]),
        is_generator: false,
        is_async: false,
    })
}

#[test]
fn emitter_settings() {
    let e = Emitter::new();
    assert!(!e.source_encoded);
    let e = e.with_source_encoded(true);
    assert!(e.source_encoded);
    assert!(!e.with_source_encoded(false).source_encoded);
    assert!(!Emitter::default().source_encoded);
    assert!(FunctionBodyContext::Arrow != FunctionBodyContext::Ordinary);
}

#[test]
fn undefined_load_reuses_the_pool_entry() {
    let e = Emitter::new();
    let mut ctx = CompileCtx::new();
    let r1 = e.emit_undefined(&mut ctx);
    let r2 = e.emit_undefined(&mut ctx);
    assert_eq!((r1, r2), (1, 2));
    assert_eq!(ctx.constants.len(), 1);
    assert_eq!(
        ctx.insts,
        vec![
            Inst::LoadConst { dst: Operand::Reg(1), idx: 0 },
            Inst::LoadConst { dst: Operand::Reg(2), idx: 0 }
        ]
    );
}

#[test]
fn throw_error_sequence() {
    let e = Emitter::new();
    let mut ctx = CompileCtx::new();
    let dummy = e.emit_throw_error("TypeError", "boom", &mut ctx);
    // slot 1 for TypeError, then ctor 2, message 3, exception 4, dummy 5
    assert_eq!(dummy, 5);
    assert_eq!(ctx.builtin_reg_map.len(), 1);
    assert_eq!(
        ctx.insts,
        vec![
            Inst::Op { op: OpCode::LoadGlobal, a: Operand::Reg(2), b: Operand::Const(0), c: Operand::Unused },
            Inst::LoadConst { dst: Operand::Reg(3), idx: 1 },
            Inst::NewExpression { dst: Operand::Reg(4), callee: Operand::Reg(2), arg: Operand::Reg(3), argc: 1 },
            Inst::Op { op: OpCode::Throw, a: Operand::Reg(4), b: Operand::Unused, c: Operand::Unused },
            Inst::LoadConst { dst: Operand::Reg(5), idx: 2 },
        ]
    );
    assert!(matches!(&ctx.constants[1], Constant::String(s) if s == "boom"));
}

#[test]
fn strict_undeclared_write_message() {
    let e = Emitter::new();
    let mut ctx = CompileCtx::new();
    let _ = e.emit_strict_undeclared_write("zz", &mut ctx);
    assert!(matches!(&ctx.constants[1], Constant::String(s) if s == "zz is not defined"));
    assert!(matches!(&ctx.constants[0], Constant::String(s) if s == "ReferenceError"));
}

#[test]
fn global_writes_depend_on_script_kind() {
    let e = Emitter::new();
    let mut script = CompileCtx::new();
    e.emit_global_prop_write("v", 9, &mut script);
    assert_eq!(
        script.insts,
        vec![
            Inst::LoadConst { dst: Operand::Reg(1), idx: 0 },
            Inst::DefineGlobalProp { obj: Operand::This, value: Operand::Reg(9), key: Operand::Reg(1) }
        ]
    );
    let mut eval = CompileCtx::new();
    eval.is_eval_script = true;
    e.emit_global_prop_write("v", 9, &mut eval);
    e.emit_global_func_bind_write("f", 8, &mut eval);
    e.emit_global_prop_write_if_absent("v", 7, &mut eval);
    assert_eq!(
        eval.insts,
        vec![
            Inst::DefineGlobalPropC { value: Operand::Reg(9), idx: 0 },
            Inst::DefineGlobalPropC { value: Operand::Reg(8), idx: 1 },
            Inst::DefineGlobalPropCIfAbsent { value: Operand::Reg(7), idx: 0 }
        ]
    );
    let mut top = CompileCtx::new();
    top.is_global_scope = true;
    e.emit_tier_global_write("t", 3, &mut top);
    e.emit_global_func_bind_write("f", 4, &mut top);
    e.emit_implicit_global_write("g", 5, &mut top);
    e.emit_global_put_write("t", 6, &mut top);
    assert_eq!(
        top.insts,
        vec![
            Inst::LoadConst { dst: Operand::Reg(1), idx: 0 },
            Inst::DefineGlobalProp { obj: Operand::This, value: Operand::Reg(3), key: Operand::Reg(1) },
            Inst::LoadConst { dst: Operand::Reg(2), idx: 1 },
            Inst::DefineGlobalFuncBind { obj: Operand::This, value: Operand::Reg(4), key: Operand::Reg(2) },
            Inst::DefineGlobalPropC { value: Operand::Reg(5), idx: 2 },
            Inst::DefineGlobalPropC { value: Operand::Reg(6), idx: 0 },
        ]
    );
}

#[test]
fn gdi_checks_walk_declarations_backwards_once_each() {
    let e = Emitter::new();
    let mut ctx = CompileCtx::new();
    let stmts = vec![fdecl("a"), fdecl("b"), fdecl("a"), Statement::Empty];
    e.emit_gdi_func_decl_checks(&stmts, &mut ctx);
    assert_eq!(
        ctx.insts,
        vec![
            Inst::LoadConst { dst: Operand::Reg(1), idx: 0 },
            Inst::CanDeclareGlobalFunc { obj: Operand::This, key: Operand::Reg(1) },
            Inst::LoadConst { dst: Operand::Reg(2), idx: 1 },
            Inst::CanDeclareGlobalFunc { obj: Operand::This, key: Operand::Reg(2) },
        ]
    );
    assert!(matches!(&ctx.constants[0], Constant::String(s) if s == "a"));
    assert!(matches!(&ctx.constants[1], Constant::String(s) if s == "b"));
}

#[test]
fn argument_registers_are_packed_when_scattered() {
    let mut ctx = CompileCtx::new();
    for _ in 0..10 {
        ctx.alloc_reg();
    }
    assert_eq!(pack_arg_regs(&[4, 5, 6], &mut ctx), 4);
    assert!(ctx.insts.is_empty());
    let base = pack_arg_regs(&[7, 3], &mut ctx);
    assert_eq!(base, 11);
    assert_eq!(ctx.next_reg, 13);
    assert_eq!(
        ctx.insts,
        vec![
            Inst::Mov { dst: Operand::Reg(11), src: Operand::Reg(7) },
            Inst::Mov { dst: Operand::Reg(12), src: Operand::Reg(3) }
        ]
    );
}

#[test]
fn module_calls_and_sets() {
    let e = Emitter::new();
    let mut ctx = CompileCtx::new();
    e.emit_module_set(&mut ctx, 1, "x", 2);
    // name "x" in reg 1 (next_reg starts at 1), slot for __moduleSet is reg 2,
    // `this` is reg 3, args [1, 1, 2] are packed into 4..7, result in 7
    assert_eq!(ctx.builtin_reg_map[0].0, "__moduleSet");
    assert_eq!(ctx.implicit_global_reads, vec![2]);
    assert_eq!(ctx.insts.len(), 7);
    assert_eq!(
        ctx.insts[5],
        Inst::CallNative { callee: Operand::Reg(2), this: Operand::Reg(3), first_arg: Operand::Reg(4), argc: 3 }
    );
    assert_eq!(
        ctx.insts[6],
        Inst::Op { op: OpCode::LoadVar, a: Operand::Reg(7), b: Operand::Unused, c: Operand::Unused }
    );
    let r = e.emit_module_call(&mut ctx, "__moduleEval", &[]);
    assert_eq!(r, 10);
}

#[test]
fn private_ids_and_class_keys() {
    let e = Emitter::new();
    let mut ctx = CompileCtx::new();
    ctx.private_name_map.push(("secret".to_string(), 42));
    assert_eq!(e.private_name_id("secret", &ctx), Ok(42));
    assert_eq!(e.private_name_id("other", &ctx), Err("private name #other is not defined".to_string()));
    let reg = e.emit_private_id_reg("secret", &mut ctx).unwrap();
    assert!(matches!(ctx.constants[0], Constant::Int(42)));
    assert_eq!(ctx.insts, vec![Inst::LoadConst { dst: Operand::Reg(reg), idx: 0 }]);
    ctx.class_keys_reg = Some(30);
    let key = e.emit_class_array_key_reg(2, &mut ctx);
    assert_eq!(
        ctx.insts[2],
        Inst::Op { op: OpCode::GetPropDynamic, a: Operand::Reg(30), b: Operand::Reg(key - 1), c: Operand::Reg(key) }
    );
}

#[test]
fn tdz_throw_is_a_reference_error() {
    let e = Emitter::new();
    let mut ctx = CompileCtx::new();
    let _ = e.emit_tdz_throw("Cannot access 'x' before initialization", &mut ctx);
    assert!(matches!(&ctx.constants[0], Constant::String(s) if s == "ReferenceError"));
    assert!(matches!(&ctx.constants[1], Constant::String(s) if s == "Cannot access 'x' before initialization"));
}

#[test]
fn no_arguments_pack_to_register_zero() {
    let mut ctx = CompileCtx::new();
    assert_eq!(pack_arg_regs(&[], &mut ctx), 0);
    assert_eq!(ctx.next_reg, 1);
    assert!(ctx.insts.is_empty());
}
