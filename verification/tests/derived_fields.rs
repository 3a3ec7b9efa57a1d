use oxide_emit::ctx::CompileCtx;
use oxide_emit::inst::{Inst, OpCode, Operand};

fn mark(r: u32) -> Inst {
    Inst::Op { op: OpCode::LoadVar, a: Operand::Reg(r), b: Operand::Unused, c: Operand::Unused }
}

#[test]
fn field_initialisers_are_spliced_after_super() {
    let mut ctx = CompileCtx::new();
    ctx.inst(mark(1));
    ctx.labels.set_label_pos(0, 1);
    let saved = ctx.begin_field_buffer();
    assert!(ctx.insts.is_empty());
    assert!(ctx.labels.label_pos.is_empty());
    // field initialisers: two instructions, label 2 defined after the first
    ctx.inst(mark(10));
    ctx.labels.set_label_pos(2, 1);
    ctx.inst(mark(11));
    ctx.end_field_buffer(saved);
    assert_eq!(ctx.insts, vec![mark(1)]);
    assert_eq!(ctx.labels.label_pos, vec![Some(1)]);
    {
        let buffer = ctx.field_buffer.as_ref().unwrap();
        assert_eq!(buffer.insts, vec![mark(10), mark(11)]);
        assert_eq!(buffer.labels, vec![(2, 1)]);
    }
    // the super() call
    ctx.inst(mark(2));
    ctx.inst(mark(3));
    ctx.splice_field_buffer();
    assert!(ctx.field_buffer.is_none());
    assert_eq!(ctx.insts, vec![mark(1), mark(2), mark(3), mark(10), mark(11)]);
    // label 2 moved by the three instructions before the splice point
    assert_eq!(ctx.labels.label_pos, vec![Some(1), None, Some(4)]);
    // nothing held back: nothing changes
    ctx.splice_field_buffer();
    assert_eq!(ctx.insts.len(), 5);
}
