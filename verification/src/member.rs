//! Member accesses once their operands are in registers: named, computed
//! and private property reads, `super.x` reads, and the callee and receiver
//! of method calls.
use vstd::prelude::*;
use vstd::string::StringExecFns;
use crate::class_emit::brand_check;
use crate::ctx::{st_alloc, st_inst, CompileCtx, ConstKey, EmitState};
use crate::emit_ops::{emitted, first_private, load_const_state, undefined_private_message};
use crate::emitter::Emitter;
use crate::inst::{Inst, OpCode, Operand};

verus! {

/// The message for `super.x` outside class code.
pub open spec fn super_outside_message() -> Seq<char> {
    "super property only supported in class methods"@
}

/// `super` property access is allowed: in a method (instance or static) or
/// a derived constructor.
pub open spec fn super_allowed(c: CompileCtx) -> bool {
    c.in_instance_method || c.in_static_method || c.in_derived_constructor
}

/// The opcode of a `super` property read: the static form in a static method.
pub open spec fn super_get_op(c: CompileCtx) -> OpCode {
    if c.in_static_method {
        OpCode::SuperStaticGetProp
    } else {
        OpCode::SuperGetProp
    }
}

/// Reading `super.name`: the key is loaded, `this` copied, and the property
/// read through the home object's prototype into a fresh register.
pub open spec fn super_member_state(s: EmitState, name: Seq<char>, op: OpCode) -> (EmitState, u32) {
    let (s1, key) = load_const_state(s, ConstKey::String(name));
    let this_reg = s1.next_reg as u32;
    let s2 = st_inst(st_alloc(s1), Inst::Op { op: OpCode::LoadVar, a: Operand::Reg(this_reg), b: Operand::This, c: Operand::Unused });
    let r = s2.next_reg as u32;
    (st_inst(st_alloc(s2), Inst::Op { op, a: Operand::Reg(r), b: Operand::Reg(this_reg), c: Operand::Reg(key) }), r)
}

/// The callee of `super.name(...)`: `this` copied, the key loaded, and the
/// method read through the home object's prototype; the receiver is `this`.
pub open spec fn super_callee_state(s: EmitState, name: Seq<char>) -> (EmitState, u32, u32) {
    let this_reg = s.next_reg as u32;
    let s1 = st_inst(st_alloc(s), Inst::Op { op: OpCode::LoadVar, a: Operand::Reg(this_reg), b: Operand::This, c: Operand::Unused });
    let (s2, key) = load_const_state(s1, ConstKey::String(name));
    let callee = s2.next_reg as u32;
    (st_alloc(s2), callee, this_reg)
}

/// Reading the named property `name` of the object in `obj` through the
/// inline cache (the value replaces the object in its register).
pub open spec fn named_read_state(s: EmitState, obj: u32, name: Seq<char>) -> EmitState {
    let (s1, key) = load_const_state(s, ConstKey::String(name));
    st_inst(s1, Inst::IcGet { obj: Operand::Reg(obj), key: Operand::Reg(key) })
}

/// The callee of `obj.name(...)`: the key loaded, the object copied into a
/// fresh register and the method read there; the receiver is the object.
pub open spec fn method_callee_state(s: EmitState, obj: u32, name: Seq<char>) -> (EmitState, u32) {
    let (s1, key) = load_const_state(s, ConstKey::String(name));
    let callee = s1.next_reg as u32;
    let s2 = st_inst(st_alloc(s1), Inst::Op { op: OpCode::LoadVar, a: Operand::Reg(callee), b: Operand::Reg(obj), c: Operand::Unused });
    (st_inst(s2, Inst::IcGet { obj: Operand::Reg(callee), key: Operand::Reg(key) }), callee)
}

impl Emitter {
    /// Reads `super.name` into a fresh register (see `super_member_state`);
    /// outside class code it is an error and nothing is emitted.
    pub fn emit_super_member_expression(&self, name: &str, ctx: &mut CompileCtx) -> (r: Result<u32, String>)
        requires
            old(ctx).wf(),
            old(ctx).next_reg + 3 < u32::MAX,
        ensures
            emitted(*old(ctx), *final(ctx)),
            !super_allowed(*old(ctx)) ==> (r matches Err(e) && e@ == super_outside_message()) && final(ctx).emit_state()
                == old(ctx).emit_state(),
            super_allowed(*old(ctx)) ==> (r matches Ok(reg) && (final(ctx).emit_state(), reg) == super_member_state(
                old(ctx).emit_state(),
                name@,
                super_get_op(*old(ctx)),
            )),
    {
        if !ctx.in_instance_method && !ctx.in_static_method && !ctx.in_derived_constructor {
            return Err(String::from_str("super property only supported in class methods"));
        }
        let key_reg = self.load_string_const(name, ctx);
        let this_reg = ctx.alloc_reg();
        ctx.inst(Inst::Op { op: OpCode::LoadVar, a: Operand::Reg(this_reg), b: Operand::This, c: Operand::Unused });
        let result_reg = ctx.alloc_reg();
        let op = if ctx.in_static_method {
            OpCode::SuperStaticGetProp
        } else {
            OpCode::SuperGetProp
        };
        ctx.inst(Inst::Op { op, a: Operand::Reg(result_reg), b: Operand::Reg(this_reg), c: Operand::Reg(key_reg) });
        Ok(result_reg)
    }

    /// The callee and receiver of `super.name(...)` (see
    /// `super_callee_state`). Outside class code the registers are taken
    /// and then the error is returned; otherwise the read is emitted.
    pub fn emit_super_method_callee(&self, name: &str, ctx: &mut CompileCtx) -> (r: Result<(u32, u32), String>)
        requires
            old(ctx).wf(),
            old(ctx).next_reg + 4 < u32::MAX,
        ensures
            emitted(*old(ctx), *final(ctx)),
            ({
                let (s3, callee, this_reg) = super_callee_state(old(ctx).emit_state(), name@);
                let key = (old(ctx).next_reg + 1) as u32;
                if super_allowed(*old(ctx)) {
                    r == Ok::<(u32, u32), String>((callee, this_reg)) && final(ctx).emit_state() == st_inst(
                        s3,
                        Inst::Op {
                            op: super_get_op(*old(ctx)),
                            a: Operand::Reg(callee),
                            b: Operand::Reg(this_reg),
                            c: Operand::Reg(key),
                        },
                    )
                } else {
                    (r matches Err(e) && e@ == super_outside_message()) && final(ctx).emit_state() == s3
                }
            }),
    {
        let this_reg = ctx.alloc_reg();
        ctx.inst(Inst::Op { op: OpCode::LoadVar, a: Operand::Reg(this_reg), b: Operand::This, c: Operand::Unused });
        let key_reg = self.load_string_const(name, ctx);
        let callee_reg = ctx.alloc_reg();
        if !ctx.in_instance_method && !ctx.in_static_method && !ctx.in_derived_constructor {
            return Err(String::from_str("super property only supported in class methods"));
        }
        let op = if ctx.in_static_method {
            OpCode::SuperStaticGetProp
        } else {
            OpCode::SuperGetProp
        };
        ctx.inst(Inst::Op { op, a: Operand::Reg(callee_reg), b: Operand::Reg(this_reg), c: Operand::Reg(key_reg) });
        Ok((callee_reg, this_reg))
    }

    /// Reads the named property `name` of the object in `obj_reg` (see
    /// `named_read_state`) and returns the register holding the value.
    pub fn emit_named_property_read(&self, obj_reg: u32, name: &str, ctx: &mut CompileCtx) -> (r: u32)
        requires
            old(ctx).wf(),
            old(ctx).next_reg + 1 < u32::MAX,
        ensures
            emitted(*old(ctx), *final(ctx)),
            r == obj_reg,
            final(ctx).emit_state() == named_read_state(old(ctx).emit_state(), obj_reg, name@),
    {
        let key_reg = self.load_string_const(name, ctx);
        ctx.inst(Inst::IcGet { obj: Operand::Reg(obj_reg), key: Operand::Reg(key_reg) });
        obj_reg
    }

    /// Reads the property with the key in `key_reg` of the object in
    /// `obj_reg` into a fresh register.
    pub fn emit_dynamic_property_read(&self, obj_reg: u32, key_reg: u32, ctx: &mut CompileCtx) -> (r: u32)
        requires
            old(ctx).wf(),
            old(ctx).next_reg < u32::MAX,
        ensures
            emitted(*old(ctx), *final(ctx)),
            r == old(ctx).next_reg,
            final(ctx).emit_state() == st_inst(
                st_alloc(old(ctx).emit_state()),
                Inst::Op { op: OpCode::GetPropDynamic, a: Operand::Reg(obj_reg), b: Operand::Reg(key_reg), c: Operand::Reg(r) },
            ),
    {
        let r = ctx.alloc_reg();
        ctx.inst(Inst::Op { op: OpCode::GetPropDynamic, a: Operand::Reg(obj_reg), b: Operand::Reg(key_reg), c: Operand::Reg(r) });
        r
    }

    /// The callee and receiver of `obj.name(...)` for the object in
    /// `obj_reg` (see `method_callee_state`).
    pub fn emit_method_callee(&self, obj_reg: u32, name: &str, ctx: &mut CompileCtx) -> (r: (u32, u32))
        requires
            old(ctx).wf(),
            old(ctx).next_reg + 2 < u32::MAX,
        ensures
            emitted(*old(ctx), *final(ctx)),
            r.1 == obj_reg,
            (final(ctx).emit_state(), r.0) == method_callee_state(old(ctx).emit_state(), obj_reg, name@),
    {
        let key_reg = self.load_string_const(name, ctx);
        let callee_reg = ctx.alloc_reg();
        ctx.inst(Inst::Op { op: OpCode::LoadVar, a: Operand::Reg(callee_reg), b: Operand::Reg(obj_reg), c: Operand::Unused });
        ctx.inst(Inst::IcGet { obj: Operand::Reg(callee_reg), key: Operand::Reg(key_reg) });
        (callee_reg, obj_reg)
    }

    /// The callee and receiver of `obj.#name(...)` for the object in
    /// `obj_reg`: the private id loaded and the member read (no brand check)
    /// into a fresh register; a private name not in scope is an error.
    pub fn emit_private_method_callee(&self, obj_reg: u32, name: &str, ctx: &mut CompileCtx) -> (r: Result<(u32, u32), String>)
        requires
            old(ctx).wf(),
            old(ctx).next_reg + 2 < u32::MAX,
        ensures
            emitted(*old(ctx), *final(ctx)),
            match first_private(old(ctx).private_name_map@, name@) {
                Some(id) => {
                    let (s1, key) = load_const_state(old(ctx).emit_state(), ConstKey::Int(id as i32));
                    let callee = s1.next_reg as u32;
                    r == Ok::<(u32, u32), String>((callee, obj_reg)) && final(ctx).emit_state() == st_inst(
                        st_alloc(s1),
                        Inst::Op { op: OpCode::GetPrivate, a: Operand::Reg(callee), b: Operand::Reg(obj_reg), c: Operand::Reg(key) },
                    )
                },
                None => (r matches Err(e) && e@ == undefined_private_message(name@)) && final(ctx).emit_state() == old(
                    ctx,
                ).emit_state(),
            },
    {
        let key_reg = self.emit_private_id_reg(name, ctx)?;
        let callee_reg = ctx.alloc_reg();
        ctx.inst(Inst::Op { op: OpCode::GetPrivate, a: Operand::Reg(callee_reg), b: Operand::Reg(obj_reg), c: Operand::Reg(key_reg) });
        Ok((callee_reg, obj_reg))
    }

    /// Reads `obj.#name` for the object in `obj_reg`: the brand check (see
    /// `private_access_brand`), the private id, and the read into a fresh
    /// register; a private name not in scope is an error (after the brand
    /// register, if any, is loaded).
    pub fn emit_private_field_read(&self, obj_reg: u32, name: &str, ctx: &mut CompileCtx) -> (r: Result<u32, String>)
        requires
            old(ctx).wf(),
            old(ctx).next_reg + 4 < u32::MAX,
        ensures
            emitted(*old(ctx), *final(ctx)),
            ({
                let (s1, (brand_reg, brand_id)) = brand_check(*old(ctx), name@);
                match first_private(old(ctx).private_name_map@, name@) {
                    None => (r matches Err(e) && e@ == undefined_private_message(name@)) && final(ctx).emit_state() == s1,
                    Some(id) => {
                        let (s2, key) = load_const_state(s1, ConstKey::Int(id as i32));
                        let reg = s2.next_reg as u32;
                        r == Ok::<u32, String>(reg) && final(ctx).emit_state() == st_inst(
                            st_alloc(s2),
                            Inst::GetPrivateChecked {
                                dst: Operand::Reg(reg),
                                obj: Operand::Reg(obj_reg),
                                key: Operand::Reg(key),
                                brand_reg,
                                brand_id,
                            },
                        )
                    },
                }
            }),
    {
        let (brand_reg, brand_id) = self.private_access_brand(name, ctx)?;
        let key_reg = self.emit_private_id_reg(name, ctx)?;
        let r = ctx.alloc_reg();
        ctx.inst(
            Inst::GetPrivateChecked { dst: Operand::Reg(r), obj: Operand::Reg(obj_reg), key: Operand::Reg(key_reg), brand_reg, brand_id },
        );
        Ok(r)
    }
}

} // verus!
