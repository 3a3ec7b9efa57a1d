//! Tagged templates: the template object handed to the tag (the cooked
//! strings, with the raw strings under `raw`) and the call of the tag.
use vstd::prelude::*;
use crate::ast::TemplateLiteral;
use crate::ctx::{st_alloc, st_inst, CompileCtx, ConstKey, Constant, EmitState};
use crate::emit_ops::{alloc_block_state, emitted, load_const_state};
use crate::emitter::Emitter;
use crate::inst::{Inst, OpCode, Operand};

verus! {

/// Writing `texts[i]` at index `i` of the array in `arr`, for each `i` in order.
pub open spec fn string_elems_state(s: EmitState, arr: u32, texts: Seq<Seq<char>>) -> EmitState
    decreases texts.len(),
{
    if texts.len() == 0 {
        s
    } else {
        let prev = string_elems_state(s, arr, texts.drop_last());
        let (a, value) = load_const_state(prev, ConstKey::String(texts.last()));
        let (b, index) = load_const_state(a, ConstKey::Int((texts.len() - 1) as i32));
        st_inst(b, Inst::Op { op: OpCode::SetElem, a: Operand::Reg(arr), b: Operand::Reg(index), c: Operand::Reg(value) })
    }
}

/// A fresh array of `len` elements holding `texts`.
pub open spec fn string_array_state(s: EmitState, len: nat, texts: Seq<Seq<char>>) -> (EmitState, u32) {
    let arr = s.next_reg as u32;
    let s1 = st_inst(st_alloc(s), Inst::Op { op: OpCode::NewArray, a: Operand::Reg(arr), b: Operand::Imm(len as u16), c: Operand::Unused });
    (string_elems_state(s1, arr, texts), arr)
}

/// The cooked strings of a template (an invalid escape reads as empty).
pub open spec fn cooked_texts(quasis: Seq<Option<String>>) -> Seq<Seq<char>> {
    Seq::new(
        quasis.len(),
        |i: int| match quasis[i] {
            Some(c) => c@,
            None => Seq::empty(),
        },
    )
}

/// The raw strings of a template.
pub open spec fn raw_texts(raws: Seq<String>) -> Seq<Seq<char>> {
    Seq::new(raws.len(), |i: int| raws[i]@)
}

/// The template object: the array of cooked strings, with the array of raw
/// strings as its `raw` property.
pub open spec fn template_object_state(s: EmitState, tl: TemplateLiteral) -> (EmitState, u32) {
    let n = tl.quasis@.len();
    let (s1, cooked) = string_array_state(s, n, cooked_texts(tl.quasis@));
    let (s2, raw) = string_array_state(s1, n, raw_texts(tl.raws@));
    let (s3, key) = load_const_state(s2, ConstKey::String("raw"@));
    (st_inst(s3, Inst::Op { op: OpCode::SetProp, a: Operand::Reg(cooked), b: Operand::Reg(raw), c: Operand::Reg(key) }), cooked)
}

/// Writing each array element takes two registers.
proof fn lemma_string_elems_regs(s: EmitState, arr: u32, texts: Seq<Seq<char>>)
    ensures
        string_elems_state(s, arr, texts).next_reg == s.next_reg + 2 * texts.len(),
    decreases texts.len(),
{
    if texts.len() > 0 {
        lemma_string_elems_regs(s, arr, texts.drop_last());
    }
}

/// Copying the template object and the substitution values `temps` into
/// consecutive argument registers starting at `base`.
pub open spec fn tagged_moves(base: int, object: u32, temps: Seq<u32>) -> Seq<Inst> {
    seq![Inst::Op { op: OpCode::LoadVar, a: Operand::Reg(base as u32), b: Operand::Reg(object), c: Operand::Unused }] + Seq::new(
        temps.len(),
        |i: int| Inst::Op { op: OpCode::LoadVar, a: Operand::Reg((base + 1 + i) as u32), b: Operand::Reg(temps[i]), c: Operand::Unused },
    )
}

/// The argument block of a tag call: `1 + temps.len()` fresh registers
/// from the next one, filled with the template object and the values.
pub open spec fn tagged_args_state(s: EmitState, object: u32, temps: Seq<u32>) -> EmitState {
    let s1 = alloc_block_state(s, 1 + temps.len() as int);
    EmitState { insts: s1.insts + tagged_moves(s.next_reg, object, temps), ..s1 }
}

/// The call of a tag: the template object and the substitution values
/// `temps` are copied into consecutive argument registers, the tag is
/// called with an `undefined` receiver, and its result read into a fresh
/// register.
pub open spec fn tagged_call_state(s: EmitState, tag: u32, object: u32, temps: Seq<u32>) -> (EmitState, u32) {
    let base = s.next_reg;
    let s2 = tagged_args_state(s, object, temps);
    let (s3, undef) = load_const_state(s2, ConstKey::Undefined);
    let s4 = st_inst(
        s3,
        Inst::Call { callee: Operand::Reg(tag), this: Operand::Reg(undef), first_arg: Operand::Reg(base as u32), argc: (1 + temps.len()) as u8 },
    );
    let result = s4.next_reg as u32;
    (st_inst(st_alloc(s4), Inst::Op { op: OpCode::LoadVar, a: Operand::Reg(result), b: Operand::Unused, c: Operand::Unused }), result)
}

impl Emitter {
    /// Fills the array in `arr` with `texts`, element by element.
    fn emit_string_elems(&self, arr: u32, texts: Vec<String>, ctx: &mut CompileCtx)
        requires
            old(ctx).wf(),
            old(ctx).next_reg + 2 * texts@.len() + 1 < u32::MAX,
            texts@.len() < i32::MAX,
        ensures
            emitted(*old(ctx), *final(ctx)),
            final(ctx).emit_state() == string_elems_state(old(ctx).emit_state(), arr, raw_texts(texts@)),
    {
        let ghost s0 = ctx.emit_state();
        let mut i: usize = 0;
        assert(raw_texts(texts@).take(0) =~= Seq::<Seq<char>>::empty());
        while i < texts.len()
            invariant
                i <= texts@.len(),
                texts@.len() < i32::MAX,
                s0 == old(ctx).emit_state(),
                old(ctx).next_reg + 2 * texts@.len() + 1 < u32::MAX,
                emitted(*old(ctx), *ctx),
                ctx.emit_state() == string_elems_state(s0, arr, raw_texts(texts@).take(i as int)),
            decreases texts.len() - i,
        {
            proof {
                assert(raw_texts(texts@).take(i + 1).drop_last() =~= raw_texts(texts@).take(i as int));
                assert(raw_texts(texts@).take(i + 1).last() == texts@[i as int]@);
                lemma_string_elems_regs(s0, arr, raw_texts(texts@).take(i as int));
            }
            let value_reg = self.load_string_const(texts[i].as_str(), ctx);
            let idx = ctx.add_constant(Constant::Int(i as i32));
            let idx_reg = ctx.alloc_reg();
            ctx.inst(Inst::LoadConst { dst: Operand::Reg(idx_reg), idx });
            ctx.inst(Inst::Op { op: OpCode::SetElem, a: Operand::Reg(arr), b: Operand::Reg(idx_reg), c: Operand::Reg(value_reg) });
            i += 1;
        }
        assert(raw_texts(texts@).take(texts@.len() as int) =~= raw_texts(texts@));
    }

    /// Builds a fresh array of `len` elements holding `texts`.
    fn emit_string_array(&self, len: usize, texts: Vec<String>, ctx: &mut CompileCtx) -> (arr: u32)
        requires
            old(ctx).wf(),
            old(ctx).next_reg + 2 * texts@.len() + 2 < u32::MAX,
            texts@.len() < i32::MAX,
        ensures
            emitted(*old(ctx), *final(ctx)),
            (final(ctx).emit_state(), arr) == string_array_state(old(ctx).emit_state(), len as nat, raw_texts(texts@)),
    {
        let arr = ctx.alloc_reg();
        ctx.inst(Inst::Op { op: OpCode::NewArray, a: Operand::Reg(arr), b: Operand::Imm(len as u16), c: Operand::Unused });
        self.emit_string_elems(arr, texts, ctx);
        arr
    }

    /// Builds the template object of a tagged template (see
    /// `template_object_state`) and returns its register.
    pub fn emit_template_object(&self, tl: &TemplateLiteral, ctx: &mut CompileCtx) -> (object: u32)
        requires
            old(ctx).wf(),
            tl.raws@.len() == tl.quasis@.len(),
            tl.quasis@.len() < i32::MAX,
            old(ctx).next_reg + 4 * tl.quasis@.len() + 6 < u32::MAX,
        ensures
            emitted(*old(ctx), *final(ctx)),
            (final(ctx).emit_state(), object) == template_object_state(old(ctx).emit_state(), *tl),
    {
        let n = tl.quasis.len();
        let mut cooked: Vec<String> = Vec::new();
        let mut raws: Vec<String> = Vec::new();
        let mut i: usize = 0;
        while i < n
            invariant
                n == tl.quasis@.len(),
                tl.raws@.len() == n,
                i <= n,
                cooked@.len() == i,
                raws@.len() == i,
                raw_texts(cooked@) == cooked_texts(tl.quasis@).take(i as int),
                raw_texts(raws@) == raw_texts(tl.raws@).take(i as int),
            decreases n - i,
        {
            let ghost cooked_before = cooked@;
            let ghost raws_before = raws@;
            let c = match &tl.quasis[i] {
                Some(c) => c.clone(),
                None => String::new(),
            };
            assert(c@ == cooked_texts(tl.quasis@)[i as int]);
            cooked.push(c);
            let r = tl.raws[i].clone();
            assert(r@ == raw_texts(tl.raws@)[i as int]);
            raws.push(r);
            assert(raw_texts(cooked@) =~= raw_texts(cooked_before).push(c@));
            assert(raw_texts(raws@) =~= raw_texts(raws_before).push(r@));
            assert(cooked_texts(tl.quasis@).take(i + 1) =~= cooked_texts(tl.quasis@).take(i as int).push(c@));
            assert(raw_texts(tl.raws@).take(i + 1) =~= raw_texts(tl.raws@).take(i as int).push(r@));
            i += 1;
        }
        assert(cooked_texts(tl.quasis@).take(n as int) =~= cooked_texts(tl.quasis@));
        assert(raw_texts(tl.raws@).take(n as int) =~= raw_texts(tl.raws@));
        let ghost s0 = ctx.emit_state();
        let ghost cv = raw_texts(cooked@);
        let ghost rv = raw_texts(raws@);
        let cooked_reg = self.emit_string_array(n, cooked, ctx);
        proof {
            let a = st_inst(
                st_alloc(s0),
                Inst::Op { op: OpCode::NewArray, a: Operand::Reg(cooked_reg), b: Operand::Imm(n as u16), c: Operand::Unused },
            );
            lemma_string_elems_regs(a, cooked_reg, cv);
        }
        let ghost s1 = ctx.emit_state();
        let raw_reg = self.emit_string_array(n, raws, ctx);
        proof {
            let a = st_inst(
                st_alloc(s1),
                Inst::Op { op: OpCode::NewArray, a: Operand::Reg(raw_reg), b: Operand::Imm(n as u16), c: Operand::Unused },
            );
            lemma_string_elems_regs(a, raw_reg, rv);
        }
        let key_reg = self.load_string_const("raw", ctx);
        ctx.inst(Inst::Op { op: OpCode::SetProp, a: Operand::Reg(cooked_reg), b: Operand::Reg(raw_reg), c: Operand::Reg(key_reg) });
        cooked_reg
    }

    /// Copies the template object and the substitution values into fresh
    /// consecutive registers and returns the first.
    fn emit_tagged_args(&self, object_reg: u32, expr_regs: &[u32], ctx: &mut CompileCtx) -> (cooked_slot: u32)
        requires
            old(ctx).wf(),
            old(ctx).next_reg + expr_regs@.len() + 4 < u32::MAX,
        ensures
            emitted(*old(ctx), *final(ctx)),
            cooked_slot == old(ctx).next_reg,
            final(ctx).emit_state() == tagged_args_state(old(ctx).emit_state(), object_reg, expr_regs@),
    {
        let ghost s0 = ctx.emit_state();
        let cooked_slot = ctx.alloc_reg();
        let mut slots: Vec<u32> = Vec::new();
        let mut k: usize = 0;
        while k < expr_regs.len()
            invariant
                k <= expr_regs@.len(),
                s0 == old(ctx).emit_state(),
                old(ctx).next_reg + expr_regs@.len() + 4 < u32::MAX,
                cooked_slot == s0.next_reg,
                slots@.len() == k,
                forall|i: int| 0 <= i < k ==> #[trigger] slots@[i] == s0.next_reg + 1 + i,
                emitted(*old(ctx), *ctx),
                ctx.emit_state() == alloc_block_state(s0, 1 + k as int),
            decreases expr_regs.len() - k,
        {
            let r = ctx.alloc_reg();
            slots.push(r);
            k += 1;
        }
        let ghost s1 = ctx.emit_state();
        ctx.inst(Inst::Op { op: OpCode::LoadVar, a: Operand::Reg(cooked_slot), b: Operand::Reg(object_reg), c: Operand::Unused });
        proof {
            let lv = |i: int|
                Inst::Op {
                    op: OpCode::LoadVar,
                    a: Operand::Reg((s0.next_reg + 1 + i) as u32),
                    b: Operand::Reg(expr_regs@[i]),
                    c: Operand::Unused,
                };
            assert(ctx.emit_state().insts =~= s1.insts + seq![
                Inst::Op { op: OpCode::LoadVar, a: Operand::Reg(cooked_slot), b: Operand::Reg(object_reg), c: Operand::Unused },
            ] + Seq::new(0 as nat, lv));
        }
        let mut j: usize = 0;
        while j < expr_regs.len()
            invariant
                j <= expr_regs@.len(),
                s0 == old(ctx).emit_state(),
                s1 == alloc_block_state(s0, 1 + expr_regs@.len() as int),
                old(ctx).next_reg + expr_regs@.len() + 4 < u32::MAX,
                cooked_slot == s0.next_reg,
                slots@.len() == expr_regs@.len(),
                forall|i: int| 0 <= i < expr_regs@.len() ==> #[trigger] slots@[i] == s0.next_reg + 1 + i,
                emitted(*old(ctx), *ctx),
                ctx.emit_state() == (EmitState {
                    insts: s1.insts + seq![
                        Inst::Op { op: OpCode::LoadVar, a: Operand::Reg(cooked_slot), b: Operand::Reg(object_reg), c: Operand::Unused },
                    ] + Seq::new(
                        j as nat,
                        |i: int| Inst::Op {
                            op: OpCode::LoadVar,
                            a: Operand::Reg((s0.next_reg + 1 + i) as u32),
                            b: Operand::Reg(expr_regs@[i]),
                            c: Operand::Unused,
                        },
                    ),
                    ..s1
                }),
            decreases expr_regs.len() - j,
        {
            let ghost before = ctx.emit_state();
            ctx.inst(Inst::Op { op: OpCode::LoadVar, a: Operand::Reg(slots[j]), b: Operand::Reg(expr_regs[j]), c: Operand::Unused });
            proof {
                let lv = |i: int|
                    Inst::Op {
                        op: OpCode::LoadVar,
                        a: Operand::Reg((s0.next_reg + 1 + i) as u32),
                        b: Operand::Reg(expr_regs@[i]),
                        c: Operand::Unused,
                    };
                assert(Seq::new((j + 1) as nat, lv) =~= Seq::new(j as nat, lv).push(lv(j as int)));
                assert(ctx.emit_state().insts =~= s1.insts + seq![
                    Inst::Op { op: OpCode::LoadVar, a: Operand::Reg(cooked_slot), b: Operand::Reg(object_reg), c: Operand::Unused },
                ] + Seq::new((j + 1) as nat, lv));
            }
            j += 1;
        }
        proof {
            assert(ctx.emit_state().insts =~= tagged_args_state(s0, object_reg, expr_regs@).insts);
        }
        cooked_slot
    }

    /// Calls the tag of a tagged template (see `tagged_call_state`) with the
    /// template object in `object_reg` and the substitution values in
    /// `expr_regs`, and returns the register of the result.
    pub fn emit_tagged_call(&self, tag_reg: u32, object_reg: u32, expr_regs: &[u32], ctx: &mut CompileCtx) -> (result: u32)
        requires
            old(ctx).wf(),
            old(ctx).next_reg + expr_regs@.len() + 4 < u32::MAX,
        ensures
            emitted(*old(ctx), *final(ctx)),
            (final(ctx).emit_state(), result) == tagged_call_state(old(ctx).emit_state(), tag_reg, object_reg, expr_regs@),
    {
        let cooked_slot = self.emit_tagged_args(object_reg, expr_regs, ctx);
        let undef_reg = self.emit_undefined(ctx);
        let argc: u8 = ((1 + expr_regs.len()) % 256) as u8;
        let total = 1 + expr_regs.len();
        assert(argc == total as u8) by (bit_vector)
            requires
                argc == (total % 256) as u8,
        ;
        ctx.inst(
            Inst::Call { callee: Operand::Reg(tag_reg), this: Operand::Reg(undef_reg), first_arg: Operand::Reg(cooked_slot), argc },
        );
        let result = ctx.alloc_reg();
        ctx.inst(Inst::Op { op: OpCode::LoadVar, a: Operand::Reg(result), b: Operand::Unused, c: Operand::Unused });
        result
    }
}

} // verus!
