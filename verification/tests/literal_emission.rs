use oxide_emit::ast::StringLiteral;
use oxide_emit::ctx::{CompileCtx, Constant};
use oxide_emit::emitter::Emitter;
use oxide_emit::inst::{Inst, OpCode, Operand};

fn string_values(ctx: &CompileCtx) -> Vec<String> {
    ctx.constants
        .iter()
        .filter_map(|c| match c {
            Constant::String(s) => Some(s.clone()),
            _ => None,
        })
        .collect()
}

#[test]
fn literals_load_pooled_constants() {
    let e = Emitter::new();
    let mut ctx = CompileCtx::new();
    let s = e.emit_string_literal_expression(
        &StringLiteral { value: "a\u{FFFD}".to_string(), lone_surrogates: false },
        &mut ctx,
    );
    let t = e.emit_boolean_literal_expression(true, &mut ctx);
    let n = e.emit_null_literal_expression(&mut ctx);
    let t2 = e.emit_boolean_literal_expression(true, &mut ctx);
    assert_eq!((s, t, n, t2), (1, 2, 3, 4));
    assert_eq!(string_values(&ctx), vec!["a\u{FFFD}fffd".to_string()]);
    assert!(matches!(ctx.constants[1], Constant::Boolean(true)));
    assert!(matches!(ctx.constants[2], Constant::Null));
    assert_eq!(ctx.constants.len(), 3);
    assert_eq!(ctx.insts[3], Inst::LoadConst { dst: Operand::Reg(4), idx: 1 });
}

#[test]
fn bigint_literal_loads_canonical_digits() {
    let e = Emitter::new();
    let mut ctx = CompileCtx::new();
    let r = e.emit_bigint_literal_expression("00012345678901234567890123456789", &mut ctx).unwrap();
    assert_eq!(r, 1);
    assert!(matches!(&ctx.constants[0], Constant::BigInt(d) if d == "12345678901234567890123456789"));
    assert_eq!(
        e.emit_bigint_literal_expression("12x", &mut ctx),
        Err("BigInt literal out of range: 12x".to_string())
    );
    assert_eq!(ctx.insts.len(), 1);
}

#[test]
fn regexp_literal_creates_the_object() {
    let e = Emitter::new();
    let mut ctx = CompileCtx::new();
    let r = e.emit_reg_exp_literal_expression(&Some("/a+\u{FFFD}/g".to_string()), &mut ctx).unwrap();
    assert_eq!(r, 3);
    assert_eq!(string_values(&ctx), vec!["a+\u{FFFD}fffd".to_string(), "g".to_string()]);
    assert_eq!(
        ctx.insts[2],
        Inst::Op { op: OpCode::CreateRegexp, a: Operand::Reg(3), b: Operand::Reg(1), c: Operand::Reg(2) }
    );
    assert_eq!(
        e.emit_reg_exp_literal_expression(&Some("/(/".to_string()), &mut ctx),
        Err("SyntaxError: Invalid regular expression: /(/".to_string())
    );
    assert_eq!(ctx.insts.len(), 3);
}

#[test]
fn constant_load_pools_the_constant_once() {
    let e = Emitter::new();
    let mut ctx = CompileCtx::new();
    let a = e.emit_constant_load(Constant::Int(7), &mut ctx);
    let b = e.emit_constant_load(Constant::Int(7), &mut ctx);
    assert_eq!((a, b), (1, 2));
    assert_eq!(ctx.constants.len(), 1);
    assert_eq!(ctx.insts[1], Inst::LoadConst { dst: Operand::Reg(2), idx: 0 });
}

#[test]
fn encoded_regexp_source_uses_the_given_pattern_key() {
    let e = Emitter::new();
    let mut ctx = CompileCtx::new();
    let r = e.emit_reg_exp_literal_with_pattern_key(&Some("/a\\ud800/u".to_string()), "a\u{FFFD}d800", &mut ctx).unwrap();
    assert_eq!(r, 3);
    assert_eq!(string_values(&ctx), vec!["a\u{FFFD}d800".to_string(), "u".to_string()]);
    assert!(e.emit_reg_exp_literal_with_pattern_key(&Some("/(/".to_string()), "(", &mut ctx).is_err());
    assert_eq!(ctx.insts.len(), 3);
}
