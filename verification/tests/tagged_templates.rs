use oxide_emit::ast::TemplateLiteral;
use oxide_emit::ctx::{CompileCtx, Constant};
use oxide_emit::emitter::Emitter;
use oxide_emit::inst::{Inst, OpCode, Operand};

fn op(op: OpCode, a: u32, b: u32, c: u32) -> Inst {
    Inst::Op { op, a: Operand::Reg(a), b: Operand::Reg(b), c: Operand::Reg(c) }
}

#[test]
fn template_object_holds_cooked_and_raw_strings() {
    let e = Emitter::new();
    let mut ctx = CompileCtx::new();
    let tl = TemplateLiteral {
        quasis: vec![Some("a".to_string()), None],
        raws: vec!["a".to_string(), "\\u{".to_string()],
        expressions: vec![],
    };
    let obj = e.emit_template_object(&tl, &mut ctx);
    assert_eq!(obj, 1);
    assert_eq!(
        ctx.insts[0],
        Inst::Op { op: OpCode::NewArray, a: Operand::Reg(1), b: Operand::Imm(2), c: Operand::Unused }
    );
    assert_eq!(ctx.insts[3], op(OpCode::SetElem, 1, 3, 2));
    assert_eq!(ctx.insts[6], op(OpCode::SetElem, 1, 5, 4));
    assert_eq!(
        ctx.insts[7],
        Inst::Op { op: OpCode::NewArray, a: Operand::Reg(6), b: Operand::Imm(2), c: Operand::Unused }
    );
    assert_eq!(ctx.insts[13], op(OpCode::SetElem, 6, 10, 9));
    assert_eq!(ctx.insts[15], op(OpCode::SetProp, 1, 6, 11));
    assert_eq!(ctx.insts.len(), 16);
    let strings: Vec<&str> = ctx
        .constants
        .iter()
        .filter_map(|c| match c {
            Constant::String(s) => Some(s.as_str()),
            _ => None,
        })
        .collect();
    assert_eq!(strings, vec!["a", "", "\\u{", "raw"]);
    assert!(matches!(ctx.constants[3], Constant::Int(1)));
}

#[test]
fn tag_is_called_with_the_object_and_values() {
    let e = Emitter::new();
    let mut ctx = CompileCtx::new();
    ctx.reserve_reg(11);
    let r = e.emit_tagged_call(20, 1, &[30, 31], &mut ctx);
    assert_eq!(r, 16);
    assert_eq!(
        ctx.insts,
        vec![
            Inst::Op { op: OpCode::LoadVar, a: Operand::Reg(12), b: Operand::Reg(1), c: Operand::Unused },
            Inst::Op { op: OpCode::LoadVar, a: Operand::Reg(13), b: Operand::Reg(30), c: Operand::Unused },
            Inst::Op { op: OpCode::LoadVar, a: Operand::Reg(14), b: Operand::Reg(31), c: Operand::Unused },
            Inst::LoadConst { dst: Operand::Reg(15), idx: 0 },
            Inst::Call { callee: Operand::Reg(20), this: Operand::Reg(15), first_arg: Operand::Reg(12), argc: 3 },
            Inst::Op { op: OpCode::LoadVar, a: Operand::Reg(16), b: Operand::Unused, c: Operand::Unused },
        ]
    );
}
