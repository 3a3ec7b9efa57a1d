//! The per-function compilation context: register allocation, the constant
//! pool, builtin global slots, open `try` handlers and jump targets, and the
//! capture analysis results that emission consults.
use vstd::prelude::*;
use crate::builtins::{
    builtin_globals, is_builtin_name, is_deletable_builtin_name, is_non_writable_name, is_writable_builtin_name,
    non_writable_global_builtins, table_contains,
};
use crate::ast::MethodDefinitionKind;
use crate::cells::CellMap;
use crate::inst::Inst;
use crate::labels::{new_label_ctx, trailing_true, LabelCtx};
use crate::nameset::NameSet;
use crate::regmap::RegMap;
use crate::text::str_eq;
use crate::upvalues::UpvalueCapture;

verus! {

/// A constant-pool entry.
pub enum Constant {
    /// A number, held as the bit pattern of its IEEE-754 double: `+0` and
    /// `-0`, and distinct NaN payloads, are distinct entries.
    Number(u64),
    Int(i32),
    /// A BigInt, held as its canonical decimal text.
    BigInt(String),
    /// A string in pool-key encoding.
    String(String),
    Boolean(bool),
    Null,
    Undefined,
}

/// The identity of a constant in the pool.
pub enum ConstKey {
    Number(u64),
    Int(i32),
    BigInt(Seq<char>),
    String(Seq<char>),
    Boolean(bool),
    Null,
    Undefined,
}

impl View for Constant {
    type V = ConstKey;

    open spec fn view(&self) -> ConstKey {
        match self {
            Constant::Number(b) => ConstKey::Number(*b),
            Constant::Int(v) => ConstKey::Int(*v),
            Constant::BigInt(s) => ConstKey::BigInt(s@),
            Constant::String(s) => ConstKey::String(s@),
            Constant::Boolean(b) => ConstKey::Boolean(*b),
            Constant::Null => ConstKey::Null,
            Constant::Undefined => ConstKey::Undefined,
        }
    }
}

/// Whether two constants are the same pool entry.
pub fn same_constant(a: &Constant, b: &Constant) -> (r: bool)
    ensures
        r == (a@ == b@),
{
    match (a, b) {
        (Constant::Number(x), Constant::Number(y)) => *x == *y,
        (Constant::Int(x), Constant::Int(y)) => *x == *y,
        (Constant::BigInt(x), Constant::BigInt(y)) => str_eq(x.as_str(), y.as_str()),
        (Constant::String(x), Constant::String(y)) => str_eq(x.as_str(), y.as_str()),
        (Constant::Boolean(x), Constant::Boolean(y)) => *x == *y,
        (Constant::Null, Constant::Null) => true,
        (Constant::Undefined, Constant::Undefined) => true,
        _ => false,
    }
}

/// The pool as the sequence of its entries' identities.
pub open spec fn pool_keys(cs: Seq<Constant>) -> Seq<ConstKey> {
    cs.map_values(|c: Constant| c@)
}

/// The largest pool size; the index `u16::MAX` signals overflow.
pub open spec fn pool_limit() -> int {
    u16::MAX as int
}

/// A pool holds no entry twice and stays within the index range.
pub open spec fn pool_wf(keys: Seq<ConstKey>) -> bool {
    &&& keys.len() <= pool_limit()
    &&& forall|i: int, j: int| 0 <= i < j < keys.len() ==> #[trigger] keys[i] != #[trigger] keys[j]
}

/// The pool, the overflow flag and the index after adding `c`: an entry
/// already present keeps its index; a new one is appended while there is
/// room; otherwise the pool is unchanged, the overflow flag set and
/// `u16::MAX` returned.
pub open spec fn add_constant_result(keys: Seq<ConstKey>, overflow: bool, c: ConstKey) -> (Seq<ConstKey>, bool, u16) {
    if keys.contains(c) {
        (keys, overflow, keys.index_of(c) as u16)
    } else if keys.len() >= pool_limit() {
        (keys, true, u16::MAX)
    } else {
        (keys.push(c), overflow, keys.len() as u16)
    }
}

/// Adding a constant keeps the pool well-formed, and the index returned
/// (short of overflow) holds that constant.
pub proof fn lemma_add_constant_sound(keys: Seq<ConstKey>, overflow: bool, c: ConstKey)
    requires
        pool_wf(keys),
    ensures
        ({
            let (k2, o2, idx) = add_constant_result(keys, overflow, c);
            &&& pool_wf(k2)
            &&& (idx != u16::MAX ==> 0 <= idx < k2.len() && k2[idx as int] == c)
            &&& (idx == u16::MAX ==> o2 || k2.contains(c))
            &&& forall|i: int| 0 <= i < keys.len() ==> #[trigger] k2[i] == keys[i]
        }),
{
    if keys.contains(c) {
        let i = keys.index_of(c);
        assert(keys[i] == c);
    } else if keys.len() < pool_limit() {
        let k2 = keys.push(c);
        assert forall|i: int, j: int| 0 <= i < j < k2.len() implies #[trigger] k2[i] != #[trigger] k2[j] by {
            if j == keys.len() {
                assert(k2[i] == keys[i]);
                assert(keys.contains(keys[i]));
            } else {
                assert(k2[i] == keys[i] && k2[j] == keys[j]);
            }
        }
    }
}

/// Adding the same constant twice gives the same index and leaves the pool
/// as the first addition left it.
pub proof fn lemma_add_constant_idempotent(keys: Seq<ConstKey>, overflow: bool, c: ConstKey)
    requires
        pool_wf(keys),
    ensures
        ({
            let (k1, o1, i1) = add_constant_result(keys, overflow, c);
            let (k2, o2, i2) = add_constant_result(k1, o1, c);
            k2 == k1 && o2 == o1 && i2 == i1
        }),
{
    let (k1, o1, i1) = add_constant_result(keys, overflow, c);
    if !keys.contains(c) && keys.len() < pool_limit() {
        assert(k1[keys.len() as int] == c);
        assert(k1.contains(c));
        let j = k1.index_of(c);
        lemma_add_constant_sound(keys, overflow, c);
        if j != keys.len() {
            assert(k1[j] == keys[j]);
            assert(keys.contains(c));
        }
    }
}

/// The per-function compilation context.
pub struct CompileCtx {
    pub constants: Vec<Constant>,
    pub const_overflow: bool,
    pub next_reg: u32,
    pub max_regs: u32,
    pub reserved_reg_start: u32,
    pub labels: LabelCtx,
    /// Builtin global slots: name and the register mirroring the global.
    pub builtin_reg_map: Vec<(String, u32)>,
    /// Registers of undeclared names first met in a read.
    pub implicit_global_reads: Vec<u32>,
    /// Registers of undeclared names first met in a write.
    pub implicit_global_writes: Vec<u32>,
    /// Open `try` handlers, innermost last: `true` for a plain catch
    /// handler, `false` for a finally handler.
    pub open_try_handlers: Vec<bool>,
    /// The register holding the enclosing `this` (254 at top level).
    pub enclosing_this_reg: u8,
    pub in_derived_constructor: bool,
    pub in_instance_method: bool,
    pub in_static_method: bool,
    pub is_generator: bool,
    pub is_async: bool,
    pub is_strict: bool,
    pub is_global_scope: bool,
    pub repl_persist: bool,
    pub is_eval_script: bool,
    pub is_eval_origin: bool,
    pub source_encoded: bool,
    pub current_upvalue_captures: Vec<UpvalueCapture>,
    pub own_bindings: NameSet,
    pub param_names: NameSet,
    pub block_fn_suppressed: NameSet,
    pub captured_bindings: CellMap,
    pub pending_for_head_names: NameSet,
    pub global_tier_names: NameSet,
    pub upvalue_const_flags: NameSet,
    pub function_length: u32,
    pub next_template_site: u32,
    /// The instructions emitted so far.
    pub insts: Vec<Inst>,
    /// Private names in scope and their ids.
    pub private_name_map: Vec<(String, u32)>,
    /// The private elements of the class being compiled: name, the kind of
    /// method declaring it (none for a field), and whether it is static.
    pub private_element_kinds: Vec<(String, Option<MethodDefinitionKind>, bool)>,
    /// The private id of the current class's brand, when it has private elements.
    pub private_brand_id: Option<u32>,
    /// The next private name id to hand out.
    pub next_private_name_id: u32,
    /// The upvalue holding a class's computed instance field keys, in its constructor.
    pub field_keys_uv: Option<u8>,
    /// A derived constructor's instance field initialisers, held back until
    /// `super()` returns.
    pub field_buffer: Option<crate::field_buffer::FieldBuffer>,
    /// The register holding a class's computed keys array while its
    /// elements are defined.
    pub class_keys_reg: Option<u32>,
    /// The module namespace object's register (module code only).
    pub module_ns_reg: Option<u32>,
    /// Each dependency specifier's namespace register.
    pub module_dep_ns_regs: RegMap,
    /// The specifiers that resolve to the module itself.
    pub module_self_import_specs: NameSet,
    /// Export names bound by a self-import, and the local binding's register
    /// that an export statement writes back.
    pub module_self_aliases: RegMap,
}

/// The names of a builtin slot table, in order.
pub open spec fn slot_names(m: Seq<(String, u32)>) -> Seq<Seq<char>> {
    Seq::new(m.len(), |i: int| m[i].0@)
}

/// The register of the first slot named `n`.
pub open spec fn first_slot(slots: Seq<(Seq<char>, u32)>, n: Seq<char>) -> Option<u32>
    decreases slots.len(),
{
    if slots.len() == 0 {
        None
    } else if slots[0].0 == n {
        Some(slots[0].1)
    } else {
        first_slot(slots.drop_first(), n)
    }
}

/// The largest register a slot table mentions, plus one (0 for none),
/// saturating at `u32::MAX`.
pub open spec fn slot_floor(m: Seq<(String, u32)>) -> u32
    decreases m.len(),
{
    if m.len() == 0 {
        0
    } else {
        let rest = slot_floor(m.drop_last());
        let r = m.last().1;
        let here = if r == u32::MAX {
            u32::MAX
        } else {
            (r + 1) as u32
        };
        if here > rest {
            here
        } else {
            rest
        }
    }
}

/// The builtin slot table as a mathematical value.
pub open spec fn slot_view(m: Seq<(String, u32)>) -> Seq<(Seq<char>, u32)> {
    Seq::new(m.len(), |i: int| (m[i].0@, m[i].1))
}

/// The register state that builtin registration reads and changes.
pub struct SlotState {
    pub slots: Seq<(Seq<char>, u32)>,
    pub next_reg: int,
    pub max_regs: int,
}

/// Some slot is named `n`.
pub open spec fn has_slot(slots: Seq<(Seq<char>, u32)>, n: Seq<char>) -> bool {
    exists|i: int| 0 <= i < slots.len() && #[trigger] slots[i].0 == n
}

/// Registering builtin `n`: a name with a slot keeps it; otherwise the next
/// register becomes its slot.
pub open spec fn register_builtin(s: SlotState, n: Seq<char>) -> SlotState {
    if has_slot(s.slots, n) {
        s
    } else {
        SlotState {
            slots: s.slots.push((n, s.next_reg as u32)),
            next_reg: s.next_reg + 1,
            max_regs: if s.next_reg + 1 > s.max_regs {
                s.next_reg + 1
            } else {
                s.max_regs
            },
        }
    }
}

/// Registering the builtin names `ns` in order.
pub open spec fn register_all(s: SlotState, ns: Seq<Seq<char>>) -> SlotState
    decreases ns.len(),
{
    if ns.len() == 0 {
        s
    } else {
        register_builtin(register_all(s, ns.drop_last()), ns.last())
    }
}

/// Registering `a + b` is registering `a`, then `b`.
pub proof fn lemma_register_all_concat(s: SlotState, a: Seq<Seq<char>>, b: Seq<Seq<char>>)
    ensures
        register_all(s, a + b) == register_all(register_all(s, a), b),
    decreases b.len(),
{
    if b.len() == 0 {
        assert(a + b =~= a);
    } else {
        assert((a + b).drop_last() =~= a + b.drop_last());
        assert((a + b).last() == b.last());
        lemma_register_all_concat(s, a, b.drop_last());
    }
}

/// Registering `ns` uses at most one register per name.
pub proof fn lemma_register_all_bound(s: SlotState, ns: Seq<Seq<char>>)
    ensures
        s.next_reg <= register_all(s, ns).next_reg <= s.next_reg + ns.len(),
    decreases ns.len(),
{
    if ns.len() > 0 {
        lemma_register_all_bound(s, ns.drop_last());
    }
}

/// The first slot of `n` exists exactly when some slot is named `n`.
pub proof fn lemma_first_slot_exists(slots: Seq<(Seq<char>, u32)>, n: Seq<char>)
    ensures
        (first_slot(slots, n) is Some) == has_slot(slots, n),
    decreases slots.len(),
{
    if slots.len() > 0 {
        lemma_first_slot_exists(slots.drop_first(), n);
        if has_slot(slots.drop_first(), n) {
            let k = choose|k: int| 0 <= k < slots.drop_first().len() && #[trigger] slots.drop_first()[k].0 == n;
            assert(slots[k + 1].0 == n);
        }
        if has_slot(slots, n) && slots[0].0 != n {
            let k = choose|k: int| 0 <= k < slots.len() && #[trigger] slots[k].0 == n;
            assert(k != 0);
            assert(slots.drop_first()[k - 1].0 == n);
        }
    }
}

/// Everything the emission primitives leave alone is the same in `a` and
/// `b`: all but the constant pool, the registers, the instructions, the
/// builtin slots and the implicit-read registers.
pub open spec fn same_except_emission(a: CompileCtx, b: CompileCtx) -> bool {
    &&& a.reserved_reg_start == b.reserved_reg_start
    &&& a.labels@ == b.labels@
    &&& a.implicit_global_writes@ == b.implicit_global_writes@
    &&& a.open_try_handlers@ == b.open_try_handlers@
    &&& a.enclosing_this_reg == b.enclosing_this_reg
    &&& a.in_derived_constructor == b.in_derived_constructor
    &&& a.in_instance_method == b.in_instance_method
    &&& a.in_static_method == b.in_static_method
    &&& a.is_generator == b.is_generator
    &&& a.is_async == b.is_async
    &&& a.is_strict == b.is_strict
    &&& a.is_global_scope == b.is_global_scope
    &&& a.repl_persist == b.repl_persist
    &&& a.is_eval_script == b.is_eval_script
    &&& a.is_eval_origin == b.is_eval_origin
    &&& a.source_encoded == b.source_encoded
    &&& a.current_upvalue_captures@ == b.current_upvalue_captures@
    &&& a.own_bindings@ == b.own_bindings@
    &&& a.param_names@ == b.param_names@
    &&& a.block_fn_suppressed@ == b.block_fn_suppressed@
    &&& a.captured_bindings@ == b.captured_bindings@
    &&& a.pending_for_head_names@ == b.pending_for_head_names@
    &&& a.global_tier_names@ == b.global_tier_names@
    &&& a.upvalue_const_flags@ == b.upvalue_const_flags@
    &&& a.function_length == b.function_length
    &&& a.next_template_site == b.next_template_site
    &&& a.private_name_map@ == b.private_name_map@
    &&& a.private_element_kinds@ == b.private_element_kinds@
    &&& a.private_brand_id == b.private_brand_id
    &&& a.next_private_name_id == b.next_private_name_id
    &&& a.field_keys_uv == b.field_keys_uv
    &&& a.field_buffer == b.field_buffer
    &&& a.class_keys_reg == b.class_keys_reg
    &&& a.module_ns_reg == b.module_ns_reg
    &&& a.module_dep_ns_regs@ == b.module_dep_ns_regs@
    &&& a.module_self_import_specs@ == b.module_self_import_specs@
    &&& a.module_self_aliases@ == b.module_self_aliases@
}

/// Everything but the registers, the builtin slots and the implicit-read
/// registers is the same in `a` and `b`.
pub open spec fn same_except_registers(a: CompileCtx, b: CompileCtx) -> bool {
    &&& same_except_emission(a, b)
    &&& a.constants@ == b.constants@
    &&& a.const_overflow == b.const_overflow
    &&& a.insts@ == b.insts@
}

/// The part of the context that emission changes, as a mathematical value.
pub struct EmitState {
    pub pool: Seq<ConstKey>,
    pub overflow: bool,
    pub next_reg: int,
    pub max_regs: int,
    pub insts: Seq<Inst>,
    pub slots: Seq<(Seq<char>, u32)>,
    pub reads: Seq<u32>,
}

/// After allocating a register.
pub open spec fn st_alloc(s: EmitState) -> EmitState {
    EmitState {
        next_reg: s.next_reg + 1,
        max_regs: if s.next_reg + 1 > s.max_regs {
            s.next_reg + 1
        } else {
            s.max_regs
        },
        ..s
    }
}

/// After adding constant `c` to the pool.
pub open spec fn st_const(s: EmitState, c: ConstKey) -> EmitState {
    EmitState { pool: add_constant_result(s.pool, s.overflow, c).0, overflow: add_constant_result(s.pool, s.overflow, c).1, ..s }
}

/// The pool index of constant `c` added in state `s`.
pub open spec fn st_const_idx(s: EmitState, c: ConstKey) -> u16 {
    add_constant_result(s.pool, s.overflow, c).2
}

/// After appending instruction `i`.
pub open spec fn st_inst(s: EmitState, i: Inst) -> EmitState {
    EmitState { insts: s.insts.push(i), ..s }
}

/// After looking up the builtin slot of `n` (registering it on first use;
/// a name that is not a known builtin is recorded as an implicit read).
pub open spec fn st_builtin(s: EmitState, n: Seq<char>) -> EmitState {
    if has_slot(s.slots, n) {
        s
    } else {
        EmitState {
            slots: s.slots.push((n, s.next_reg as u32)),
            reads: if is_builtin_name(n) {
                s.reads
            } else {
                s.reads.push(s.next_reg as u32)
            },
            ..st_alloc(s)
        }
    }
}

/// The register of the builtin slot of `n` looked up in state `s`.
pub open spec fn st_builtin_reg(s: EmitState, n: Seq<char>) -> u32 {
    match first_slot(s.slots, n) {
        Some(r) => r,
        None => s.next_reg as u32,
    }
}

/// What the scope chain answers for a name.
pub enum ScopeLookup {
    /// The name is bound in scope, in this register.
    Bound(u32),
    /// No scope declares the name.
    Undeclared,
    /// The binding is read before its initialisation, with this message.
    Uninitialized(String),
    /// The lookup failed otherwise, with this message.
    Failed(String),
}

/// What looking up the global slot of `name` does to context `a`, giving `b`
/// and the slot's register `reg`.
pub open spec fn global_slot_post(a: CompileCtx, b: CompileCtx, name: Seq<char>, reg: u32) -> bool {
    &&& match first_slot(slot_view(a.builtin_reg_map@), name) {
        Some(r) => reg == r && b.builtin_reg_map@ == a.builtin_reg_map@ && b.next_reg == a.next_reg && b.max_regs
            == a.max_regs && b.implicit_global_reads@ == a.implicit_global_reads@,
        None => reg == a.next_reg && b.next_reg == a.next_reg + 1 && b.max_regs == (if a.next_reg + 1 > a.max_regs {
            a.next_reg + 1
        } else {
            a.max_regs as int
        }) && slot_names(b.builtin_reg_map@) == slot_names(a.builtin_reg_map@).push(name) && b.builtin_reg_map@.last().1
            == reg && b.builtin_reg_map@.drop_last() == a.builtin_reg_map@ && b.implicit_global_reads@ == if is_builtin_name(
            name,
        ) {
            a.implicit_global_reads@
        } else {
            a.implicit_global_reads@.push(reg)
        },
    }
    &&& b.constants@ == a.constants@
    &&& b.const_overflow == a.const_overflow
    &&& b.reserved_reg_start == a.reserved_reg_start
    &&& b.implicit_global_writes@ == a.implicit_global_writes@
    &&& same_except_registers(a, b)
    &&& is_builtin_name(name) ==> b.slot_state() == register_builtin(a.slot_state(), name)
        && b.implicit_global_reads@ == a.implicit_global_reads@
    &&& b.emit_state() == st_builtin(a.emit_state(), name)
    &&& reg == st_builtin_reg(a.emit_state(), name)
}

/// A slot appended after the others is found only where no earlier slot
/// has its name.
proof fn lemma_first_slot_push(slots: Seq<(Seq<char>, u32)>, x: (Seq<char>, u32), n: Seq<char>)
    ensures
        first_slot(slots.push(x), n) == match first_slot(slots, n) {
            Some(r) => Some(r),
            None => if x.0 == n {
                Some(x.1)
            } else {
                None
            },
        },
    decreases slots.len(),
{
    if slots.len() > 0 {
        assert(slots.push(x)[0] == slots[0]);
        assert(slots.push(x).drop_first() =~= slots.drop_first().push(x));
        lemma_first_slot_push(slots.drop_first(), x, n);
    } else {
        assert(slots.push(x)[0] == x);
        assert(slots.push(x).drop_first() =~= Seq::<(Seq<char>, u32)>::empty());
        assert(first_slot(Seq::<(Seq<char>, u32)>::empty(), n) is None);
    }
}

/// A name gets one global slot however often it is looked up: looking it up
/// again gives the same register and changes nothing.
pub proof fn lemma_global_slot_once(s: EmitState, n: Seq<char>)
    ensures
        st_builtin(st_builtin(s, n), n) == st_builtin(s, n),
        st_builtin_reg(st_builtin(s, n), n) == st_builtin_reg(s, n),
{
    lemma_first_slot_exists(s.slots, n);
    if !has_slot(s.slots, n) {
        let t = s.slots.push((n, s.next_reg as u32));
        lemma_first_slot_push(s.slots, (n, s.next_reg as u32), n);
        lemma_first_slot_exists(t, n);
    }
}

impl CompileCtx {
    /// The constant pool is well-formed.
    pub open spec fn wf(&self) -> bool {
        pool_wf(pool_keys(self.constants@))
    }

    /// The emission state.
    pub open spec fn emit_state(&self) -> EmitState {
        EmitState {
            pool: pool_keys(self.constants@),
            overflow: self.const_overflow,
            next_reg: self.next_reg as int,
            max_regs: self.max_regs as int,
            insts: self.insts@,
            slots: slot_view(self.builtin_reg_map@),
            reads: self.implicit_global_reads@,
        }
    }

    /// The registers and builtin slots.
    pub open spec fn slot_state(&self) -> SlotState {
        SlotState { slots: slot_view(self.builtin_reg_map@), next_reg: self.next_reg as int, max_regs: self.max_regs as int }
    }

    /// A fresh context: register 0 is reserved (allocation starts at 1), the
    /// pool and all tables are empty, no flag is set, and the enclosing
    /// `this` register is the conventional 254; private name ids are handed
    /// out from 1.
    pub fn new() -> (c: CompileCtx)
        ensures
            c.wf(),
            c.constants@.len() == 0,
            !c.const_overflow,
            c.next_reg == 1,
            c.max_regs == 1,
            c.reserved_reg_start == 1,
            c.labels@.loop_stack.len() == 0,
            c.labels@.switch_stack.len() == 0,
            c.labels@.label_scopes.len() == 0,
            c.labels@.pending_loop_labels.len() == 0,
            c.labels@.label_pos.len() == 0,
            c.labels@.finally_depth == 0,
            c.labels@.for_of_depth == 0,
            c.labels@.for_in_depth == 0,
            c.labels@.label_counter == 0,
            c.builtin_reg_map@.len() == 0,
            c.implicit_global_reads@.len() == 0,
            c.implicit_global_writes@.len() == 0,
            c.open_try_handlers@.len() == 0,
            c.enclosing_this_reg == 254,
            !c.in_derived_constructor && !c.in_instance_method && !c.in_static_method,
            !c.is_generator && !c.is_async && !c.is_strict && !c.is_global_scope,
            !c.repl_persist && !c.is_eval_script && !c.is_eval_origin && !c.source_encoded,
            c.current_upvalue_captures@.len() == 0,
            c.own_bindings@ == Set::<Seq<char>>::empty(),
            c.param_names@ == Set::<Seq<char>>::empty(),
            c.block_fn_suppressed@ == Set::<Seq<char>>::empty(),
            c.captured_bindings.wf(),
            c.captured_bindings@.len() == 0,
            c.pending_for_head_names@ == Set::<Seq<char>>::empty(),
            c.global_tier_names@ == Set::<Seq<char>>::empty(),
            c.upvalue_const_flags@ == Set::<Seq<char>>::empty(),
            c.function_length == 0,
            c.next_template_site == 0,
            c.insts@.len() == 0,
            c.private_name_map@.len() == 0,
            c.private_element_kinds@.len() == 0,
            c.private_brand_id is None,
            c.next_private_name_id == 1,
            c.field_keys_uv is None,
            c.field_buffer is None,
            c.class_keys_reg is None,
            c.module_ns_reg is None,
            c.module_dep_ns_regs@ == Map::<Seq<char>, u32>::empty(),
            c.module_self_import_specs@ == Set::<Seq<char>>::empty(),
            c.module_self_aliases@ == Map::<Seq<char>, u32>::empty(),
    {
        let c = CompileCtx {
            constants: Vec::new(),
            const_overflow: false,
            next_reg: 1,
            max_regs: 1,
            reserved_reg_start: 1,
            labels: new_label_ctx(),
            builtin_reg_map: Vec::new(),
            implicit_global_reads: Vec::new(),
            implicit_global_writes: Vec::new(),
            open_try_handlers: Vec::new(),
            enclosing_this_reg: 254,
            in_derived_constructor: false,
            in_instance_method: false,
            in_static_method: false,
            is_generator: false,
            is_async: false,
            is_strict: false,
            is_global_scope: false,
            repl_persist: false,
            is_eval_script: false,
            is_eval_origin: false,
            source_encoded: false,
            current_upvalue_captures: Vec::new(),
            own_bindings: NameSet::new(),
            param_names: NameSet::new(),
            block_fn_suppressed: NameSet::new(),
            captured_bindings: CellMap::new(),
            pending_for_head_names: NameSet::new(),
            global_tier_names: NameSet::new(),
            upvalue_const_flags: NameSet::new(),
            function_length: 0,
            next_template_site: 0,
            insts: Vec::new(),
            private_name_map: Vec::new(),
            private_element_kinds: Vec::new(),
            private_brand_id: None,
            next_private_name_id: 1,
            field_keys_uv: None,
            field_buffer: None,
            class_keys_reg: None,
            module_ns_reg: None,
            module_dep_ns_regs: RegMap::new(),
            module_self_import_specs: NameSet::new(),
            module_self_aliases: RegMap::new(),
        };
        assert(pool_keys(c.constants@) =~= Seq::<ConstKey>::empty());
        c
    }

    /// Allocates the next register; the high-water mark follows.
    pub fn alloc_reg(&mut self) -> (r: u32)
        requires
            old(self).next_reg < u32::MAX,
        ensures
            r == old(self).next_reg,
            final(self).next_reg == old(self).next_reg + 1,
            final(self).max_regs == if old(self).next_reg + 1 > old(self).max_regs {
                old(self).next_reg + 1
            } else {
                old(self).max_regs as int
            },
            final(self).constants@ == old(self).constants@,
            final(self).const_overflow == old(self).const_overflow,
            final(self).builtin_reg_map@ == old(self).builtin_reg_map@,
            final(self).reserved_reg_start == old(self).reserved_reg_start,
            final(self).implicit_global_reads@ == old(self).implicit_global_reads@,
            final(self).implicit_global_writes@ == old(self).implicit_global_writes@,
            same_except_registers(*old(self), *final(self)),
            final(self).emit_state() == st_alloc(old(self).emit_state()),
    {
        let r = self.next_reg;
        self.next_reg = self.next_reg + 1;
        if self.next_reg > self.max_regs {
            self.max_regs = self.next_reg;
        }
        r
    }

    /// Appends an instruction.
    pub fn inst(&mut self, i: Inst)
        ensures
            final(self).emit_state() == st_inst(old(self).emit_state(), i),
            same_except_emission(*old(self), *final(self)),
    {
        self.insts.push(i);
    }

    /// Makes sure register `reg` is never handed out again: allocation moves
    /// past it and the high-water mark covers it (`reg + 1` wraps to 0 at
    /// `u32::MAX`, as the register arithmetic does).
    pub fn reserve_reg(&mut self, reg: u32)
        ensures
            ({
                let next: u32 = if reg == u32::MAX {
                    0u32
                } else {
                    (reg + 1) as u32
                };
                &&& final(self).next_reg == if old(self).next_reg <= reg {
                    next
                } else {
                    old(self).next_reg
                }
                &&& final(self).max_regs == if old(self).max_regs < next {
                    next
                } else {
                    old(self).max_regs
                }
            }),
            final(self).constants@ == old(self).constants@,
            final(self).const_overflow == old(self).const_overflow,
            final(self).builtin_reg_map@ == old(self).builtin_reg_map@,
            final(self).reserved_reg_start == old(self).reserved_reg_start,
    {
        let next = reg.wrapping_add(1);
        if self.next_reg <= reg {
            self.next_reg = next;
        }
        if self.max_regs < next {
            self.max_regs = next;
        }
    }

    /// The first register above every builtin slot (0 when there is none).
    pub fn builtin_reg_floor(&self) -> (r: u32)
        ensures
            r == slot_floor(self.builtin_reg_map@),
    {
        let mut r: u32 = 0;
        let mut i: usize = 0;
        assert(self.builtin_reg_map@.take(0) =~= Seq::<(String, u32)>::empty());
        while i < self.builtin_reg_map.len()
            invariant
                i <= self.builtin_reg_map@.len(),
                r == slot_floor(self.builtin_reg_map@.take(i as int)),
            decreases self.builtin_reg_map.len() - i,
        {
            assert(self.builtin_reg_map@.take(i + 1).drop_last() =~= self.builtin_reg_map@.take(i as int));
            let here = self.builtin_reg_map[i].1.saturating_add(1);
            if here > r {
                r = here;
            }
            i += 1;
        }
        assert(self.builtin_reg_map@.take(self.builtin_reg_map@.len() as int) =~= self.builtin_reg_map@);
        r
    }

    /// Restarts register allocation above the builtin slots and the reserved
    /// registers, and restarts label numbering.
    pub fn reset_regs(&mut self)
        ensures
            final(self).next_reg == if slot_floor(old(self).builtin_reg_map@) > old(self).reserved_reg_start {
                slot_floor(old(self).builtin_reg_map@)
            } else {
                old(self).reserved_reg_start
            },
            final(self).labels@.label_counter == 0,
            *final(self) == (CompileCtx {
                next_reg: final(self).next_reg,
                labels: LabelCtx { label_counter: 0, ..old(self).labels },
                ..*old(self)
            }),
    {
        let floor = self.builtin_reg_floor();
        self.next_reg = if floor > self.reserved_reg_start {
            floor
        } else {
            self.reserved_reg_start
        };
        self.labels.label_counter = 0;
    }

    /// Adds a constant to the pool, reusing the entry of an equal constant.
    #[verifier::loop_isolation(false)]
    #[verifier::rlimit(50)]
    pub fn add_constant(&mut self, c: Constant) -> (idx: u16)
        requires
            old(self).wf(),
        ensures
            final(self).wf(),
            (pool_keys(final(self).constants@), final(self).const_overflow, idx) == add_constant_result(
                pool_keys(old(self).constants@),
                old(self).const_overflow,
                c@,
            ),
            final(self).next_reg == old(self).next_reg,
            final(self).max_regs == old(self).max_regs,
            final(self).builtin_reg_map@ == old(self).builtin_reg_map@,
            final(self).emit_state() == st_const(old(self).emit_state(), c@),
            idx == st_const_idx(old(self).emit_state(), c@),
            same_except_emission(*old(self), *final(self)),
    {
        let ghost keys = pool_keys(self.constants@);
        let mut i: usize = 0;
        while i < self.constants.len()
            invariant
                i <= self.constants@.len(),
                keys == pool_keys(self.constants@),
                self.constants@ == old(self).constants@,
                forall|j: int| 0 <= j < i ==> #[trigger] keys[j] != c@,
            decreases self.constants.len() - i,
        {
            if same_constant(&self.constants[i], &c) {
                proof {
                    assert(keys[i as int] == c@);
                    assert(keys.contains(c@));
                    let k = keys.index_of(c@);
                    if k != i {
                        assert(keys[k] == c@);
                    }
                }
                return i as u16;
            }
            i += 1;
        }
        assert(!keys.contains(c@)) by {
            if keys.contains(c@) {
                let k = keys.index_of(c@);
                assert(keys[k] == c@);
            }
        }
        if self.constants.len() >= 65535 {
            self.const_overflow = true;
            return 65535;
        }
        let idx = self.constants.len() as u16;
        let ghost ck = c@;
        self.constants.push(c);
        assert(pool_keys(self.constants@) =~= keys.push(ck));
        proof {
            lemma_add_constant_sound(keys, old(self).const_overflow, ck);
        }
        idx
    }

    /// Records that a plain catch handler is open.
    pub fn push_open_catch_handler(&mut self)
        ensures
            final(self).open_try_handlers@ == old(self).open_try_handlers@.push(true),
    {
        self.open_try_handlers.push(true);
    }

    /// Records that a finally handler is open.
    pub fn push_open_finally_handler(&mut self)
        ensures
            final(self).open_try_handlers@ == old(self).open_try_handlers@.push(false),
    {
        self.open_try_handlers.push(false);
    }

    /// Closes the innermost open handler.
    pub fn pop_open_try_handler(&mut self)
        ensures
            final(self).open_try_handlers@ == if old(self).open_try_handlers@.len() == 0 {
                old(self).open_try_handlers@
            } else {
                old(self).open_try_handlers@.drop_last()
            },
    {
        let _ = self.open_try_handlers.pop();
    }

    /// The number of plain catch handlers open on top of the handler stack
    /// (stopping at the first finally handler): those a `return` can pop
    /// itself on its way out.
    pub fn top_open_catch_handlers(&self) -> (n: usize)
        ensures
            n == trailing_true(self.open_try_handlers@),
    {
        let s = &self.open_try_handlers;
        let mut i: usize = s.len();
        let mut n: usize = 0;
        proof {
            assert(s@.take(s@.len() as int) =~= s@);
        }
        while i > 0 && s[i - 1]
            invariant
                i <= s@.len(),
                n + i == s.len(),
                trailing_true(s@) == n + trailing_true(s@.take(i as int)),
            decreases i,
        {
            proof {
                assert(s@.take(i as int).drop_last() =~= s@.take(i - 1));
            }
            i -= 1;
            n += 1;
        }
        proof {
            if i > 0 {
                assert(!s@.take(i as int).last());
            } else {
                assert(s@.take(0) =~= Seq::<bool>::empty());
            }
        }
        n
    }

    /// Whether `name` has a builtin slot.
    pub fn is_builtin(&self, name: &str) -> (r: bool)
        ensures
            r == first_slot(slot_view(self.builtin_reg_map@), name@) is Some,
    {
        match self.builtin_slot(name) {
            Some(_) => true,
            None => false,
        }
    }

    /// The register of the first builtin slot named `name`.
    pub fn builtin_slot(&self, name: &str) -> (r: Option<u32>)
        ensures
            r == first_slot(slot_view(self.builtin_reg_map@), name@),
    {
        let ghost m = slot_view(self.builtin_reg_map@);
        let mut i: usize = 0;
        assert(m.skip(0) =~= m);
        while i < self.builtin_reg_map.len()
            invariant
                m == slot_view(self.builtin_reg_map@),
                i <= m.len(),
                first_slot(m, name@) == first_slot(m.skip(i as int), name@),
            decreases self.builtin_reg_map.len() - i,
        {
            assert(m.skip(i as int)[0] == m[i as int]);
            if str_eq(self.builtin_reg_map[i].0.as_str(), name) {
                return Some(self.builtin_reg_map[i].1);
            }
            assert(m.skip(i as int).drop_first() =~= m.skip(i + 1));
            i += 1;
        }
        None
    }

    /// The global slot of `name`, registering one on first use: a fresh
    /// register is allocated and recorded, and, unless `name` is a known
    /// builtin, marked as the slot of an undeclared global read.
    pub fn global_slot(&mut self, name: &str) -> (reg: u32)
        requires
            old(self).next_reg < u32::MAX,
        ensures
            global_slot_post(*old(self), *final(self), name@, reg),
    {
        proof {
            lemma_first_slot_exists(slot_view(self.builtin_reg_map@), name@);
        }
        match self.builtin_slot(name) {
            Some(r) => r,
            None => {
                let reg = self.alloc_reg();
                let ghost before = self.builtin_reg_map@;
                self.builtin_reg_map.push((name.to_owned(), reg));
                assert(slot_names(self.builtin_reg_map@) =~= slot_names(before).push(name@));
                assert(slot_view(self.builtin_reg_map@) =~= slot_view(before).push((name@, reg)));
                assert(self.builtin_reg_map@.drop_last() =~= before);
                if !CompileCtx::is_known_builtin(name) {
                    self.implicit_global_reads.push(reg);
                }
                reg
            },
        }
    }

    /// Resolves a read of `name` given what the scope chain answered for it:
    /// a bound name reads its binding's register; an undeclared name reads its
    /// global slot (registered on first use, see `global_slot`); a failed
    /// scope lookup (a read before initialisation among others) is passed on.
    pub fn lookup_or_builtin(&mut self, name: &str, scope: ScopeLookup) -> (r: Result<u32, String>)
        requires
            scope is Undeclared ==> old(self).next_reg < u32::MAX,
        ensures
            match scope {
                ScopeLookup::Bound(reg) => r == Ok::<u32, String>(reg) && *final(self) == *old(self),
                ScopeLookup::Uninitialized(e) => r == Err::<u32, String>(e) && *final(self) == *old(self),
                ScopeLookup::Failed(e) => r == Err::<u32, String>(e) && *final(self) == *old(self),
                ScopeLookup::Undeclared => r matches Ok(reg) && global_slot_post(*old(self), *final(self), name@, reg),
            },
    {
        match scope {
            ScopeLookup::Bound(reg) => Ok(reg),
            ScopeLookup::Uninitialized(e) => Err(e),
            ScopeLookup::Failed(e) => Err(e),
            ScopeLookup::Undeclared => Ok(self.global_slot(name)),
        }
    }

    /// Whether `reg` is the slot of an undeclared global, read or written.
    pub fn is_implicit_global_reg(&self, reg: u32) -> (r: bool)
        ensures
            r == (self.implicit_global_writes@.contains(reg) || self.implicit_global_reads@.contains(reg)),
    {
        let mut i: usize = 0;
        while i < self.implicit_global_writes.len()
            invariant
                i <= self.implicit_global_writes@.len(),
                forall|j: int| 0 <= j < i ==> #[trigger] self.implicit_global_writes@[j] != reg,
            decreases self.implicit_global_writes.len() - i,
        {
            if self.implicit_global_writes[i] == reg {
                assert(self.implicit_global_writes@[i as int] == reg);
                return true;
            }
            i += 1;
        }
        let mut k: usize = 0;
        while k < self.implicit_global_reads.len()
            invariant
                k <= self.implicit_global_reads@.len(),
                !self.implicit_global_writes@.contains(reg),
                forall|j: int| 0 <= j < k ==> #[trigger] self.implicit_global_reads@[j] != reg,
            decreases self.implicit_global_reads.len() - k,
        {
            if self.implicit_global_reads[k] == reg {
                assert(self.implicit_global_reads@[k as int] == reg);
                return true;
            }
            k += 1;
        }
        false
    }

    /// The builtin slot of a deletable global builtin `name`, if it has one.
    pub fn global_builtin_delete_slot(&self, name: &str) -> (r: Option<u32>)
        ensures
            r == if is_deletable_builtin_name(name@) {
                first_slot(slot_view(self.builtin_reg_map@), name@)
            } else {
                None
            },
    {
        if !CompileCtx::is_deletable_global_builtin(name) {
            return None;
        }
        let r = self.builtin_slot(name);
        r
    }

    /// Whether `name` is a builtin global.
    pub fn is_known_builtin(name: &str) -> (r: bool)
        ensures
            r == is_builtin_name(name@),
    {
        table_contains(&builtin_globals(), name)
    }

    /// Whether `name` is a read-only global (`undefined`, `NaN`, `Infinity`).
    pub fn is_non_writable_global_builtin(name: &str) -> (r: bool)
        ensures
            r == is_non_writable_name(name@),
    {
        table_contains(&non_writable_global_builtins(), name)
    }

    /// Whether `name` is a writable builtin global: a builtin that is not read-only.
    pub fn is_writable_builtin_global(name: &str) -> (r: bool)
        ensures
            r == is_writable_builtin_name(name@),
    {
        CompileCtx::is_known_builtin(name) && !CompileCtx::is_non_writable_global_builtin(name)
    }

    /// Whether `name` is a deletable builtin global: writable, and not the
    /// host name `$262`.
    pub fn is_deletable_global_builtin(name: &str) -> (r: bool)
        ensures
            r == is_deletable_builtin_name(name@),
    {
        proof {
            reveal_strlit("$262");
        }
        CompileCtx::is_writable_builtin_global(name) && !str_eq(name, "$262")
    }
}

} // verus!
