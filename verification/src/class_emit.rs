//! Instruction sequences of a class definition that need no name
//! resolution: the prototype object and its links, the brand of a class
//! with private names, the class binding's initialisation, private-access
//! brand checks, instance field keys, and the private names in scope while
//! the class body is compiled.
use vstd::prelude::*;
use vstd::string::StringExecFns;
use crate::ast::{MethodDefinitionKind, PropertyKey};
use crate::class_plan::{private_views, PrivateDecl, PrivateDeclView};
use crate::ctx::{slot_view, st_alloc, st_inst, CompileCtx, ConstKey, Constant, EmitState};
use crate::cells::{lookup, CellMap};
use crate::emit_ops::{emitted, first_private, load_const_state, undefined_private_message};
use crate::emitter::Emitter;
use crate::function_setup::private_kind_views;
use crate::inst::{Inst, OpCode, Operand};
use crate::keys::{class_property_name, literal_key_name};
use crate::text::str_eq;
use crate::upvalues::{first_upvalue_index, position_of_upvalue, UpvalueCapture};

verus! {

/// Loading the string `s` and using its register.
pub open spec fn load_string_state(s: EmitState, text: Seq<char>) -> (EmitState, u32) {
    load_const_state(s, ConstKey::String(text))
}

/// The prototype of a class: the constructor closure over nested function
/// `sub_idx` into `ctor`, a session-allocated prototype object in `proto`;
/// with a superclass in `sup`, the prototype's `__proto__` is the
/// superclass's `prototype` and the constructor's `__proto__` the
/// superclass; then `proto.constructor = ctor` (writable, configurable, not
/// enumerable) and `ctor.prototype = proto` (no attribute).
pub open spec fn class_prototype_state(s: EmitState, ctor: u32, proto: u32, sup: Option<u32>, sub_idx: u16) -> EmitState {
    let s1 = st_inst(
        st_inst(s, Inst::CreateClosure { dst: Operand::Reg(ctor), idx: sub_idx }),
        Inst::Op { op: OpCode::NewSessionObject, a: Operand::Reg(proto), b: Operand::Unused, c: Operand::Unused },
    );
    let s2 = match sup {
        None => s1,
        Some(sr) => {
            let (a, pkey) = load_string_state(s1, "prototype"@);
            let parent = a.next_reg as u32;
            let a2 = st_inst(
                st_alloc(a),
                Inst::Op { op: OpCode::GetProp, a: Operand::Reg(sr), b: Operand::Reg(parent), c: Operand::Reg(pkey) },
            );
            let (b, link) = load_string_state(a2, "__proto__"@);
            st_inst(
                st_inst(b, Inst::Op { op: OpCode::SetProp, a: Operand::Reg(proto), b: Operand::Reg(parent), c: Operand::Reg(link) }),
                Inst::Op { op: OpCode::SetProp, a: Operand::Reg(ctor), b: Operand::Reg(sr), c: Operand::Reg(link) },
            )
        },
    };
    let (c, ckey) = load_string_state(s2, "constructor"@);
    let c2 = st_inst(
        c,
        Inst::DefinePropAttrs { obj: Operand::Reg(proto), value: Operand::Reg(ctor), key: Operand::Reg(ckey), attrs: 5 },
    );
    let (d, pkey2) = load_string_state(c2, "prototype"@);
    st_inst(d, Inst::DefinePropAttrs { obj: Operand::Reg(ctor), value: Operand::Reg(proto), key: Operand::Reg(pkey2), attrs: 0 })
}

/// The brand of a class with private names: the brand slot `brand_id` of
/// the constructor is set to the prototype (the brand object), and the
/// prototype is stored into the brand cell the constructor captures.
pub open spec fn class_brand_state(s: EmitState, ctor: u32, proto: u32, brand_id: u32, cell: u8) -> EmitState {
    let (s1, key) = load_const_state(s, ConstKey::Int(brand_id as i32));
    st_inst(
        st_inst(s1, Inst::InitPrivate { obj: Operand::Reg(ctor), value: Operand::Reg(proto), key: Operand::Reg(key), is_method: false }),
        Inst::Op { op: OpCode::MakeCell, a: Operand::Reg(proto), b: Operand::Imm(cell as u16), c: Operand::Unused },
    )
}

/// The initialisation of the class binding in `binding` with the
/// constructor, and of the class-name cell the elements capture.
pub open spec fn class_binding_state(s: EmitState, binding: u32, ctor: u32, self_cell: Option<u8>) -> EmitState {
    let s1 = st_inst(s, Inst::Op { op: OpCode::StoreVar, a: Operand::Reg(binding), b: Operand::Reg(ctor), c: Operand::Unused });
    match self_cell {
        Some(c) => st_inst(s1, Inst::Op { op: OpCode::MakeCell, a: Operand::Reg(binding), b: Operand::Imm(c as u16), c: Operand::Unused }),
        None => s1,
    }
}

/// Position of the first upvalue named `n`.
pub open spec fn first_position(us: Seq<UpvalueCapture>, n: Seq<char>, r: Option<usize>) -> bool {
    match r {
        Some(j) => j < us.len() && us[j as int].name@ == n && forall|k: int| 0 <= k < j ==> #[trigger] us[k].name@ != n,
        None => forall|j: int| 0 <= j < us.len() ==> #[trigger] us[j].name@ != n,
    }
}

/// The position of the first upvalue named `name`.
fn upvalue_position(us: &Vec<UpvalueCapture>, name: &str) -> (r: Option<usize>)
    ensures
        first_position(us@, name@, r),
{
    let mut j: usize = 0;
    while j < us.len()
        invariant
            j <= us@.len(),
            forall|k: int| 0 <= k < j ==> #[trigger] us@[k].name@ != name@,
        decreases us.len() - j,
    {
        if str_eq(us[j].name.as_str(), name) {
            return Some(j);
        }
        j += 1;
    }
    None
}

/// The first private element entry named `n`: its kind and static flag.
pub open spec fn find_private_kind(m: Seq<(Seq<char>, Option<MethodDefinitionKind>, bool)>, n: Seq<char>) -> Option<
    (Option<MethodDefinitionKind>, bool),
>
    decreases m.len(),
{
    if m.len() == 0 {
        None
    } else if m[0].0 == n {
        Some((m[0].1, m[0].2))
    } else {
        find_private_kind(m.drop_first(), n)
    }
}

/// `j` is the position of the first upvalue named `@@class_brand`.
pub open spec fn first_brand_at(us: Seq<UpvalueCapture>, j: int) -> bool {
    &&& 0 <= j < us.len()
    &&& us[j].name@ == "@@class_brand"@
    &&& forall|k: int| 0 <= k < j ==> #[trigger] us[k].name@ != "@@class_brand"@
}

/// The position of the first upvalue named `@@class_brand`, if any.
pub open spec fn brand_upvalue(us: Seq<UpvalueCapture>) -> Option<int> {
    if exists|j: int| first_brand_at(us, j) {
        Some(choose|j: int| first_brand_at(us, j))
    } else {
        None
    }
}

/// The first brand upvalue is the one `upvalue_position` finds.
proof fn lemma_brand_upvalue(us: Seq<UpvalueCapture>, r: Option<usize>)
    requires
        first_position(us, "@@class_brand"@, r),
    ensures
        match r {
            Some(j) => brand_upvalue(us) == Some(j as int),
            None => brand_upvalue(us) is None,
        },
{
    match r {
        Some(j) => {
            assert(first_brand_at(us, j as int));
            let c = choose|c: int| first_brand_at(us, c);
            if c < j {
                assert(us[c].name@ != "@@class_brand"@);
            }
            if j < c {
                assert(us[j as int].name@ != "@@class_brand"@);
            }
        },
        None => {
            if exists|j: int| first_brand_at(us, j) {
                let c = choose|c: int| first_brand_at(us, c);
                assert(us[c].name@ != "@@class_brand"@);
            }
        },
    }
}

/// The brand check of an access to private member `name` in context `c`:
/// the state after it and the brand register and id (`(0, 0)` for none).
/// Methods, accessors and static fields of a branded class are checked
/// when the brand upvalue is captured; the brand is then loaded into a
/// fresh register.
pub open spec fn brand_check(c: CompileCtx, name: Seq<char>) -> (EmitState, (u32, u32)) {
    let s = c.emit_state();
    let checked = c.private_brand_id is Some && match find_private_kind(private_kind_views(c.private_element_kinds@), name) {
        Some((kind, is_static)) => kind is Some || is_static,
        None => false,
    };
    match brand_upvalue(c.current_upvalue_captures@) {
        Some(j) => if checked {
            (
                st_inst(
                    st_alloc(s),
                    Inst::Op { op: OpCode::LoadUpvalue, a: Operand::Reg(c.next_reg), b: Operand::Imm((j % 65536) as u16), c: Operand::Unused },
                ),
                (c.next_reg, c.private_brand_id->0),
            )
        } else {
            (s, (0, 0))
        },
        None => (s, (0, 0)),
    }
}

/// The message for a class with private names whose brand cell is missing.
pub open spec fn brand_cell_missing_message() -> Seq<char> {
    "class brand cell missing"@
}

/// The message for a constructor that does not capture the brand.
pub open spec fn brand_upvalue_missing_message() -> Seq<char> {
    "class brand upvalue missing"@
}

impl Emitter {
    /// Emits the prototype of a class (see `class_prototype_state`).
    pub fn emit_class_prototype(&self, ctor_reg: u32, proto_reg: u32, super_reg: Option<u32>, sub_idx: u16, ctx: &mut CompileCtx)
        requires
            old(ctx).wf(),
            old(ctx).next_reg + 6 < u32::MAX,
        ensures
            emitted(*old(ctx), *final(ctx)),
            final(ctx).emit_state() == class_prototype_state(old(ctx).emit_state(), ctor_reg, proto_reg, super_reg, sub_idx),
    {
        ctx.inst(Inst::CreateClosure { dst: Operand::Reg(ctor_reg), idx: sub_idx });
        ctx.inst(Inst::Op { op: OpCode::NewSessionObject, a: Operand::Reg(proto_reg), b: Operand::Unused, c: Operand::Unused });
        if let Some(super_reg) = super_reg {
            let parent_proto_key_reg = self.load_string_const("prototype", ctx);
            let parent_proto_reg = ctx.alloc_reg();
            ctx.inst(
                Inst::Op {
                    op: OpCode::GetProp,
                    a: Operand::Reg(super_reg),
                    b: Operand::Reg(parent_proto_reg),
                    c: Operand::Reg(parent_proto_key_reg),
                },
            );
            let proto_link_key_reg = self.load_string_const("__proto__", ctx);
            ctx.inst(
                Inst::Op {
                    op: OpCode::SetProp,
                    a: Operand::Reg(proto_reg),
                    b: Operand::Reg(parent_proto_reg),
                    c: Operand::Reg(proto_link_key_reg),
                },
            );
            ctx.inst(
                Inst::Op { op: OpCode::SetProp, a: Operand::Reg(ctor_reg), b: Operand::Reg(super_reg), c: Operand::Reg(proto_link_key_reg) },
            );
        }
        let ctor_key_reg = self.load_string_const("constructor", ctx);
        ctx.inst(
            Inst::DefinePropAttrs { obj: Operand::Reg(proto_reg), value: Operand::Reg(ctor_reg), key: Operand::Reg(ctor_key_reg), attrs: 5 },
        );
        let proto_key_reg = self.load_string_const("prototype", ctx);
        ctx.inst(
            Inst::DefinePropAttrs { obj: Operand::Reg(ctor_reg), value: Operand::Reg(proto_reg), key: Operand::Reg(proto_key_reg), attrs: 0 },
        );
    }

    /// Emits the brand of a class with private names (see `class_brand_state`).
    pub fn emit_class_brand(&self, ctor_reg: u32, proto_reg: u32, brand_id: u32, cell: u8, ctx: &mut CompileCtx)
        requires
            old(ctx).wf(),
            old(ctx).next_reg + 1 < u32::MAX,
        ensures
            emitted(*old(ctx), *final(ctx)),
            final(ctx).emit_state() == class_brand_state(old(ctx).emit_state(), ctor_reg, proto_reg, brand_id, cell),
    {
        let idx = ctx.add_constant(Constant::Int(brand_id as i32));
        let key_reg = ctx.alloc_reg();
        ctx.inst(Inst::LoadConst { dst: Operand::Reg(key_reg), idx });
        ctx.inst(
            Inst::InitPrivate { obj: Operand::Reg(ctor_reg), value: Operand::Reg(proto_reg), key: Operand::Reg(key_reg), is_method: false },
        );
        ctx.inst(Inst::Op { op: OpCode::MakeCell, a: Operand::Reg(proto_reg), b: Operand::Imm(cell as u16), c: Operand::Unused });
    }

    /// Emits the initialisation of a class binding once the class is built
    /// (see `class_binding_state`).
    pub fn emit_class_binding_init(&self, binding_reg: u32, ctor_reg: u32, self_cell: Option<u8>, ctx: &mut CompileCtx)
        requires
            old(ctx).wf(),
        ensures
            emitted(*old(ctx), *final(ctx)),
            final(ctx).emit_state() == class_binding_state(old(ctx).emit_state(), binding_reg, ctor_reg, self_cell),
    {
        ctx.inst(Inst::Op { op: OpCode::StoreVar, a: Operand::Reg(binding_reg), b: Operand::Reg(ctor_reg), c: Operand::Unused });
        if let Some(c) = self_cell {
            ctx.inst(Inst::Op { op: OpCode::MakeCell, a: Operand::Reg(binding_reg), b: Operand::Imm(c as u16), c: Operand::Unused });
        }
    }

    /// In a constructor of a class with private names (`brand_id`), writes
    /// the brand slot of the new instance (`this`) from the brand object the
    /// constructor captures; a class without private names writes nothing.
    /// The brand cell must exist and be captured; otherwise the error is
    /// returned (after one register is taken when only the capture is missing).
    pub fn emit_instance_brand(&self, brand_id: Option<u32>, brand_cell: Option<u8>, ctx: &mut CompileCtx) -> (r: Result<(), String>)
        requires
            old(ctx).wf(),
            old(ctx).next_reg + 2 < u32::MAX,
        ensures
            emitted(*old(ctx), *final(ctx)),
            brand_id is None ==> r is Ok && final(ctx).emit_state() == old(ctx).emit_state(),
            brand_id is Some && brand_cell is None ==> (r matches Err(e) && e@ == brand_cell_missing_message())
                && final(ctx).emit_state() == old(ctx).emit_state(),
            brand_id is Some && brand_cell is Some ==> {
                let s1 = st_alloc(old(ctx).emit_state());
                let brand_reg = old(ctx).next_reg;
                match brand_upvalue(old(ctx).current_upvalue_captures@) {
                    None => (r matches Err(e) && e@ == brand_upvalue_missing_message()) && final(ctx).emit_state() == s1,
                    Some(j) => r is Ok && {
                        let s2 = st_inst(
                            s1,
                            Inst::Op { op: OpCode::LoadUpvalue, a: Operand::Reg(brand_reg), b: Operand::Imm((j % 65536) as u16), c: Operand::Unused },
                        );
                        let (s3, key) = load_const_state(s2, ConstKey::Int(brand_id->0 as i32));
                        final(ctx).emit_state() == st_inst(
                            s3,
                            Inst::InitPrivate { obj: Operand::This, value: Operand::Reg(brand_reg), key: Operand::Reg(key), is_method: false },
                        )
                    },
                }
            },
    {
        if let Some(bid) = brand_id {
            if brand_cell.is_none() {
                return Err(String::from_str("class brand cell missing"));
            }
            let brand_reg = ctx.alloc_reg();
            let found = upvalue_position(&ctx.current_upvalue_captures, "@@class_brand");
            proof {
                lemma_brand_upvalue(ctx.current_upvalue_captures@, found);
            }
            let uv = match found {
                Some(j) => j,
                None => {
                    return Err(String::from_str("class brand upvalue missing"));
                },
            };
            let uv_imm: u16 = (uv % 65536) as u16;
            ctx.inst(Inst::Op { op: OpCode::LoadUpvalue, a: Operand::Reg(brand_reg), b: Operand::Imm(uv_imm), c: Operand::Unused });
            let idx = ctx.add_constant(Constant::Int(bid as i32));
            let key_reg = ctx.alloc_reg();
            ctx.inst(Inst::LoadConst { dst: Operand::Reg(key_reg), idx });
            ctx.inst(
                Inst::InitPrivate { obj: Operand::This, value: Operand::Reg(brand_reg), key: Operand::Reg(key_reg), is_method: false },
            );
        }
        Ok(())
    }

    /// The brand check of a private member access `obj.#name`: the brand
    /// register and id, or `(0, 0)` for no check. Instance fields are found
    /// along the prototype chain and need none; private methods, accessors
    /// and static fields are checked against the class's brand, loaded from
    /// the captured brand upvalue (a function that does not capture it skips
    /// the check).
    pub fn private_access_brand(&self, name: &str, ctx: &mut CompileCtx) -> (r: Result<(u32, u32), String>)
        requires
            old(ctx).wf(),
            old(ctx).next_reg + 1 < u32::MAX,
        ensures
            emitted(*old(ctx), *final(ctx)),
            ({
                let (s1, res) = brand_check(*old(ctx), name@);
                r == Ok::<(u32, u32), String>(res) && final(ctx).emit_state() == s1
            }),
    {
        let brand_id = match ctx.private_brand_id {
            Some(b) => b,
            None => {
                return Ok((0, 0));
            },
        };
        let ghost m = private_kind_views(ctx.private_element_kinds@);
        let mut i: usize = 0;
        let mut found: Option<(Option<MethodDefinitionKind>, bool)> = None;
        assert(m.skip(0) =~= m);
        while i < ctx.private_element_kinds.len()
            invariant_except_break
                found is None,
            invariant
                i <= m.len(),
                m == private_kind_views(ctx.private_element_kinds@),
                find_private_kind(m, name@) == find_private_kind(m.skip(i as int), name@),
            ensures
                found == find_private_kind(m, name@),
            decreases ctx.private_element_kinds.len() - i,
        {
            assert(m.skip(i as int)[0] == m[i as int]);
            if str_eq(ctx.private_element_kinds[i].0.as_str(), name) {
                found = Some((ctx.private_element_kinds[i].1, ctx.private_element_kinds[i].2));
                assert(m[i as int] == (name@, ctx.private_element_kinds@[i as int].1, ctx.private_element_kinds@[i as int].2));
                break;
            }
            assert(m.skip(i as int).drop_first() =~= m.skip(i + 1));
            i += 1;
        }
        let (kind, is_static) = match found {
            Some(f) => f,
            None => {
                return Ok((0, 0));
            },
        };
        if kind.is_none() && !is_static {
            return Ok((0, 0));
        }
        let found = upvalue_position(&ctx.current_upvalue_captures, "@@class_brand");
        proof {
            lemma_brand_upvalue(ctx.current_upvalue_captures@, found);
        }
        let uv = match found {
            Some(j) => j,
            None => {
                return Ok((0, 0));
            },
        };
        let brand_reg = ctx.alloc_reg();
        let uv_imm: u16 = (uv % 65536) as u16;
        ctx.inst(Inst::Op { op: OpCode::LoadUpvalue, a: Operand::Reg(brand_reg), b: Operand::Imm(uv_imm), c: Operand::Unused });
        Ok((brand_reg, brand_id))
    }

    /// In a constructor, the key of computed instance field `key_slot` (slot
    /// 0 when absent), read from the keys array the constructor captures.
    pub fn emit_instance_field_key(&self, key_slot: Option<u8>, ctx: &mut CompileCtx) -> (reg: u32)
        requires
            old(ctx).wf(),
            old(ctx).field_keys_uv is Some,
            old(ctx).next_reg + 3 < u32::MAX,
        ensures
            emitted(*old(ctx), *final(ctx)),
            reg == old(ctx).next_reg + 2,
            ({
                let s = old(ctx).emit_state();
                let arr = old(ctx).next_reg;
                let s1 = st_inst(
                    st_alloc(s),
                    Inst::Op { op: OpCode::LoadUpvalue, a: Operand::Reg(arr), b: Operand::Imm(old(ctx).field_keys_uv->0 as u16), c: Operand::Unused },
                );
                let slot: u8 = match key_slot {
                    Some(k) => k,
                    None => 0,
                };
                let (s2, idx_reg) = load_const_state(s1, ConstKey::Int(slot as i32));
                final(ctx).emit_state() == st_inst(
                    st_alloc(s2),
                    Inst::Op { op: OpCode::GetPropDynamic, a: Operand::Reg(arr), b: Operand::Reg(idx_reg), c: Operand::Reg(reg) },
                )
            }),
    {
        let uv = match ctx.field_keys_uv {
            Some(u) => u,
            None => 0,
        };
        let arr_reg = ctx.alloc_reg();
        ctx.inst(Inst::Op { op: OpCode::LoadUpvalue, a: Operand::Reg(arr_reg), b: Operand::Imm(uv as u16), c: Operand::Unused });
        let slot: u8 = match key_slot {
            Some(k) => k,
            None => 0,
        };
        let idx = ctx.add_constant(Constant::Int(slot as i32));
        let idx_reg = ctx.alloc_reg();
        ctx.inst(Inst::LoadConst { dst: Operand::Reg(idx_reg), idx });
        let key_reg = ctx.alloc_reg();
        ctx.inst(Inst::Op { op: OpCode::GetPropDynamic, a: Operand::Reg(arr_reg), b: Operand::Reg(idx_reg), c: Operand::Reg(key_reg) });
        key_reg
    }

    /// The register holding a non-computed class element key: the key's
    /// name loaded as a string, or the error for a key that has none.
    pub fn emit_class_key_reg(&self, key: &PropertyKey, ctx: &mut CompileCtx) -> (r: Result<u32, String>)
        requires
            old(ctx).wf(),
            old(ctx).next_reg + 1 < u32::MAX,
        ensures
            match literal_key_name(*key) {
                Some(n) => r matches Ok(reg) && emitted(*old(ctx), *final(ctx)) && (final(ctx).emit_state(), reg)
                    == load_string_state(old(ctx).emit_state(), n),
                None => r is Err && *final(ctx) == *old(ctx),
            },
    {
        let name = class_property_name(key)?;
        Ok(self.load_string_const(name.as_str(), ctx))
    }
}

/// The private names and brand of the enclosing class, saved while a class
/// body is compiled.
pub struct SavedPrivates {
    pub names: Vec<(String, u32)>,
    pub kinds: Vec<(String, Option<MethodDefinitionKind>, bool)>,
    pub brand: Option<u32>,
}

/// The private name table of a class's private names: name and id.
pub open spec fn private_name_entries(ps: Seq<PrivateDeclView>) -> Seq<(Seq<char>, u32)> {
    Seq::new(ps.len(), |i: int| (ps[i].name, ps[i].id))
}

/// The private element table of a class's private names.
pub open spec fn private_kind_entries(ps: Seq<PrivateDeclView>) -> Seq<(Seq<char>, Option<MethodDefinitionKind>, bool)> {
    Seq::new(ps.len(), |i: int| (ps[i].name, ps[i].kind, ps[i].is_static))
}

impl CompileCtx {
    /// Puts a class's private names and brand in scope for its body (the
    /// enclosing class's are no longer visible) and returns those it replaces.
    pub fn enter_class_privates(&mut self, privates: &Vec<PrivateDecl>, brand: Option<u32>) -> (saved: SavedPrivates)
        ensures
            saved.names@ == old(self).private_name_map@,
            saved.kinds@ == old(self).private_element_kinds@,
            saved.brand == old(self).private_brand_id,
            slot_view(final(self).private_name_map@) == private_name_entries(private_views(privates@)),
            private_kind_views(final(self).private_element_kinds@) == private_kind_entries(private_views(privates@)),
            final(self).private_brand_id == brand,
            *final(self) == (CompileCtx {
                private_name_map: final(self).private_name_map,
                private_element_kinds: final(self).private_element_kinds,
                private_brand_id: brand,
                ..*old(self)
            }),
    {
        let mut names: Vec<(String, u32)> = Vec::new();
        let mut kinds: Vec<(String, Option<MethodDefinitionKind>, bool)> = Vec::new();
        let mut i: usize = 0;
        while i < privates.len()
            invariant
                i <= privates@.len(),
                names@.len() == i,
                kinds@.len() == i,
                forall|k: int| 0 <= k < i ==> (#[trigger] names@[k]).0@ == privates@[k].name@ && names@[k].1 == privates@[k].id,
                forall|k: int| 0 <= k < i ==> (#[trigger] kinds@[k]).0@ == privates@[k].name@ && kinds@[k].1 == privates@[k].kind
                    && kinds@[k].2 == privates@[k].is_static,
            decreases privates.len() - i,
        {
            names.push((privates[i].name.clone(), privates[i].id));
            kinds.push((privates[i].name.clone(), privates[i].kind, privates[i].is_static));
            i += 1;
        }
        assert(slot_view(names@) =~= private_name_entries(private_views(privates@)));
        assert(private_kind_views(kinds@) =~= private_kind_entries(private_views(privates@)));
        std::mem::swap(&mut self.private_name_map, &mut names);
        std::mem::swap(&mut self.private_element_kinds, &mut kinds);
        let saved_brand = self.private_brand_id;
        self.private_brand_id = brand;
        SavedPrivates { names, kinds, brand: saved_brand }
    }

    /// Restores the private names and brand a class body replaced.
    pub fn leave_class_privates(&mut self, saved: SavedPrivates)
        ensures
            *final(self) == (CompileCtx {
                private_name_map: saved.names,
                private_element_kinds: saved.kinds,
                private_brand_id: saved.brand,
                ..*old(self)
            }),
    {
        self.private_name_map = saved.names;
        self.private_element_kinds = saved.kinds;
        self.private_brand_id = saved.brand;
    }

    /// Locates the upvalue holding the computed instance field keys (first
    /// upvalue named `@@field_keys`, as a byte).
    pub fn locate_field_keys(&mut self)
        ensures
            first_upvalue_index(old(self).current_upvalue_captures@, "@@field_keys"@, final(self).field_keys_uv),
            *final(self) == (CompileCtx { field_keys_uv: final(self).field_keys_uv, ..*old(self) }),
    {
        self.field_keys_uv = position_of_upvalue(self.current_upvalue_captures.as_slice(), "@@field_keys");
    }
}

/// The attribute bits of a class method or accessor: writable and
/// configurable, not enumerable.
pub open spec fn class_method_attrs() -> u32 {
    5
}

/// The message for a computed accessor key.
pub open spec fn computed_accessor_message() -> Seq<char> {
    "computed class accessors not yet supported"@
}

/// The message for a private constructor.
pub open spec fn private_constructor_message() -> Seq<char> {
    "constructor cannot be private"@
}

/// The message for a private method whose key is not private.
pub open spec fn expected_private_message() -> Seq<char> {
    "expected private method key"@
}

/// A getter's and a setter's pair of registers: the accessor function in
/// its own place, `undefined` in the other.
pub open spec fn accessor_pair_regs(kind: MethodDefinitionKind, f: u32, undef: u32) -> (u32, u32) {
    if kind == MethodDefinitionKind::Getter {
        (f, undef)
    } else {
        (undef, f)
    }
}

/// The name a class method's function carries: accessors get a `get ` or
/// `set ` prefix.
pub open spec fn method_display_name(kind: MethodDefinitionKind, name: Seq<char>) -> Seq<char> {
    match kind {
        MethodDefinitionKind::Getter => "get "@ + name,
        MethodDefinitionKind::Setter => "set "@ + name,
        _ => name,
    }
}

/// Builds the name a class method's function carries.
pub fn method_function_name(kind: MethodDefinitionKind, name: &str) -> (r: String)
    ensures
        r@ == method_display_name(kind, name@),
{
    match kind {
        MethodDefinitionKind::Getter => {
            let mut r = String::from_str("get ");
            r.append(name);
            r
        },
        MethodDefinitionKind::Setter => {
            let mut r = String::from_str("set ");
            r.append(name);
            r
        },
        _ => name.to_owned(),
    }
}

/// The synthetic upvalues of a class method besides its free names: the
/// brand (when the class has one) and the class name bound to its cell.
pub fn method_extra_upvalues<'a>(captured: &CellMap, self_name: Option<&'a str>, class_self_cell: Option<u8>) -> (r: Vec<(&'a str, u8)>)
    requires
        captured.wf(),
    ensures
        r@ == (match lookup(captured@, "@@class_brand"@) {
            Some(c) => seq![("@@class_brand", c)],
            None => Seq::<(&str, u8)>::empty(),
        }) + (match (self_name, class_self_cell) {
            (Some(n), Some(c)) => seq![(n, c)],
            _ => Seq::<(&str, u8)>::empty(),
        }),
{
    let mut r: Vec<(&'a str, u8)> = Vec::new();
    if let Some(c) = captured.get("@@class_brand") {
        r.push(("@@class_brand", c));
    }
    if let (Some(n), Some(c)) = (self_name, class_self_cell) {
        r.push((n, c));
    }
    assert(r@ =~= (match lookup(captured@, "@@class_brand"@) {
        Some(c) => seq![("@@class_brand", c)],
        None => Seq::<(&str, u8)>::empty(),
    }) + (match (self_name, class_self_cell) {
        (Some(n), Some(c)) => seq![(n, c)],
        _ => Seq::<(&str, u8)>::empty(),
    }));
    r
}

impl Emitter {
    /// Defines a public class method on its home object (`home_reg`: the
    /// constructor for a static method, else the prototype) once its
    /// function is in `method_reg` and its key in `key_reg`: a method is a
    /// non-enumerable data property; a getter or setter an accessor named
    /// by its literal key (the other half `undefined`), computed accessor
    /// keys being unsupported; a constructor defines nothing here.
    pub fn emit_method_property(
        &self,
        home_reg: u32,
        key_reg: u32,
        method_reg: u32,
        kind: MethodDefinitionKind,
        key: &PropertyKey,
        ctx: &mut CompileCtx,
    ) -> (r: Result<(), String>)
        requires
            old(ctx).wf(),
            old(ctx).next_reg + 1 < u32::MAX,
        ensures
            emitted(*old(ctx), *final(ctx)),
            kind == MethodDefinitionKind::Method ==> r is Ok && final(ctx).emit_state() == st_inst(
                old(ctx).emit_state(),
                Inst::DefinePropAttrs {
                    obj: Operand::Reg(home_reg),
                    value: Operand::Reg(method_reg),
                    key: Operand::Reg(key_reg),
                    attrs: class_method_attrs(),
                },
            ),
            kind == MethodDefinitionKind::Constructor ==> r is Ok && final(ctx).emit_state() == old(ctx).emit_state(),
            (kind == MethodDefinitionKind::Getter || kind == MethodDefinitionKind::Setter) ==> if key is Computed {
                (r matches Err(e) && e@ == computed_accessor_message()) && final(ctx).emit_state() == old(ctx).emit_state()
            } else {
                match literal_key_name(*key) {
                    Some(n) => r is Ok && {
                        let (s1, undef) = load_const_state(old(ctx).emit_state(), ConstKey::Undefined);
                        let (g, st) = accessor_pair_regs(kind, method_reg, undef);
                        let idx = crate::ctx::st_const_idx(s1, ConstKey::String(n));
                        final(ctx).emit_state() == st_inst(
                            crate::ctx::st_const(s1, ConstKey::String(n)),
                            Inst::DefineAccessorAttrs {
                                obj: Operand::Reg(home_reg),
                                get: Operand::Reg(g),
                                set: Operand::Reg(st),
                                key_idx: idx as u32,
                                attrs: class_method_attrs(),
                            },
                        )
                    },
                    None => r is Err,
                }
            },
    {
        match kind {
            MethodDefinitionKind::Method => {
                ctx.inst(
                    Inst::DefinePropAttrs { obj: Operand::Reg(home_reg), value: Operand::Reg(method_reg), key: Operand::Reg(key_reg), attrs: 5 },
                );
                Ok(())
            },
            MethodDefinitionKind::Getter | MethodDefinitionKind::Setter => {
                if let PropertyKey::Computed(_) = key {
                    return Err(String::from_str("computed class accessors not yet supported"));
                }
                let undef_reg = self.emit_undefined(ctx);
                let (get_reg, set_reg) = if kind == MethodDefinitionKind::Getter {
                    (method_reg, undef_reg)
                } else {
                    (undef_reg, method_reg)
                };
                let key_name = class_property_name(key)?;
                let key_idx = ctx.add_constant(Constant::String(key_name));
                ctx.inst(
                    Inst::DefineAccessorAttrs {
                        obj: Operand::Reg(home_reg),
                        get: Operand::Reg(get_reg),
                        set: Operand::Reg(set_reg),
                        key_idx: key_idx as u32,
                        attrs: 5,
                    },
                );
                Ok(())
            },
            MethodDefinitionKind::Constructor => Ok(()),
        }
    }

    /// Installs a private method on `target` once its function is in
    /// `method_reg`: a method goes into its private slot; a getter or setter
    /// becomes a private accessor keyed by its private id (the other half
    /// `undefined`); a private constructor is an error, as is a key that is
    /// not private or a private name that is not in scope.
    #[verifier::rlimit(40)]
    pub fn emit_private_method_property(
        &self,
        target: Operand,
        key: &PropertyKey,
        kind: MethodDefinitionKind,
        method_reg: u32,
        ctx: &mut CompileCtx,
    ) -> (r: Result<(), String>)
        requires
            old(ctx).wf(),
            old(ctx).next_reg + 1 < u32::MAX,
        ensures
            emitted(*old(ctx), *final(ctx)),
            !(key is PrivateIdentifier) ==> (r matches Err(e) && e@ == expected_private_message()) && final(ctx).emit_state()
                == old(ctx).emit_state(),
            key is PrivateIdentifier && kind == MethodDefinitionKind::Constructor ==> (r matches Err(e) && e@
                == private_constructor_message()) && final(ctx).emit_state() == old(ctx).emit_state(),
            key matches PropertyKey::PrivateIdentifier(name) ==> kind != MethodDefinitionKind::Constructor ==> match first_private(
                old(ctx).private_name_map@,
                name@,
            ) {
                None => (r matches Err(e) && e@ == undefined_private_message(name@)) && final(ctx).emit_state() == old(
                    ctx,
                ).emit_state(),
                Some(id) => r is Ok && if kind == MethodDefinitionKind::Method {
                    let (s1, k) = load_const_state(old(ctx).emit_state(), ConstKey::Int(id as i32));
                    final(ctx).emit_state() == st_inst(
                        s1,
                        Inst::InitPrivate { obj: target, value: Operand::Reg(method_reg), key: Operand::Reg(k), is_method: true },
                    )
                } else {
                    let idx = crate::ctx::st_const_idx(old(ctx).emit_state(), ConstKey::Int(id as i32));
                    let s1 = crate::ctx::st_const(old(ctx).emit_state(), ConstKey::Int(id as i32));
                    let (s2, undef) = load_const_state(s1, ConstKey::Undefined);
                    let (g, st) = accessor_pair_regs(kind, method_reg, undef);
                    final(ctx).emit_state() == st_inst(
                        s2,
                        Inst::DefineAccessor { obj: target, get: Operand::Reg(g), set: Operand::Reg(st), key_idx: idx as u32 },
                    )
                },
            },
    {
        let name = match key {
            PropertyKey::PrivateIdentifier(n) => n.as_str(),
            _ => {
                return Err(String::from_str("expected private method key"));
            },
        };
        match kind {
            MethodDefinitionKind::Method => {
                let key_reg = self.emit_private_id_reg(name, ctx)?;
                ctx.inst(Inst::InitPrivate { obj: target, value: Operand::Reg(method_reg), key: Operand::Reg(key_reg), is_method: true });
                Ok(())
            },
            MethodDefinitionKind::Getter | MethodDefinitionKind::Setter => {
                let id = self.private_name_id(name, ctx)?;
                let key_idx = ctx.add_constant(Constant::Int(id as i32));
                let undef_reg = self.emit_undefined(ctx);
                let (get_reg, set_reg) = if kind == MethodDefinitionKind::Getter {
                    (method_reg, undef_reg)
                } else {
                    (undef_reg, method_reg)
                };
                ctx.inst(Inst::DefineAccessor { obj: target, get: Operand::Reg(get_reg), set: Operand::Reg(set_reg), key_idx: key_idx as u32 });
                Ok(())
            },
            MethodDefinitionKind::Constructor => Err(String::from_str("constructor cannot be private")),
        }
    }
}

} // verus!
