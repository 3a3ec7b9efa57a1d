//! The instructions the emitter appends to a function body, as plain values:
//! the generic three-operand form with its opcode, and the dedicated forms
//! that have constructors of their own.
use vstd::prelude::*;

verus! {

/// An instruction operand.
#[derive(Clone, Copy, PartialEq, Eq, Structural, Debug)]
pub enum Operand {
    Reg(u32),
    Const(u16),
    Imm(u16),
    /// The function's `this`.
    This,
    /// An operand slot the instruction does not use.
    Unused,
}

/// Opcodes of the generic instruction form used here.
#[derive(Clone, Copy, PartialEq, Eq, Structural, Debug)]
pub enum OpCode {
    /// Reads a global object property, throwing a ReferenceError when missing.
    LoadGlobal,
    Throw,
    LoadVar,
    StoreVar,
    GetPropDynamic,
    /// Ends the evaluation of a script.
    Halt,
    /// Creates an object allocated for the session (it outlives the evaluation).
    NewSessionObject,
    /// Reads a named property: object, destination, key.
    GetProp,
    /// Writes a named property: object, value, key.
    SetProp,
    /// Stores a value into a closure cell: value, cell index.
    MakeCell,
    /// Reads an upvalue: destination, upvalue index.
    LoadUpvalue,
    /// Creates a regular expression object: destination, pattern, flags.
    CreateRegexp,
    /// Creates an array: destination, length.
    NewArray,
    /// Writes an array element: array, index, value.
    SetElem,
    /// Reads a property through the home object's prototype: destination, receiver, key.
    SuperGetProp,
    /// As `SuperGetProp`, from a static method.
    SuperStaticGetProp,
    /// Reads a private member without a brand check: destination, object, private id.
    GetPrivate,
    /// Writes an upvalue: const flag, value, upvalue index.
    StoreUpvalue,
    /// Reads a closure cell: destination, binding register, cell index.
    CellGet,
    /// Writes a closure cell: unused, value, cell index.
    CellSet,
    /// `a = b + c`.
    Add,
    /// `a = b - c`.
    Sub,
    /// Increments the variable `a`, leaving the new value in `b` (prefix `++`).
    IncPre,
    /// Increments the variable `a`, leaving the old value in `b` (postfix `++`).
    IncPost,
    /// Decrements the variable `a`, leaving the new value in `b` (prefix `--`).
    DecPre,
    /// Decrements the variable `a`, leaving the old value in `b` (postfix `--`).
    DecPost,
    /// Reads a global object property, `undefined` when missing: destination, key.
    LoadGlobalTypeof,
    /// `a = b in c`.
    In,
    /// Deletes property `c` of object `b`, leaving the result in `a`.
    DeletePropDynamic,
    /// `a = b * c`.
    Mul,
    /// `a = b / c`.
    Div,
    /// `a = b % c`.
    Mod,
    /// `a = b ** c`.
    Exp,
    /// `a = b & c`.
    BitAnd,
    /// `a = b | c`.
    BitOr,
    /// `a = b ^ c`.
    BitXor,
    /// `a = b << c`.
    Shl,
    /// `a = b >> c`.
    Shr,
    /// `a = b >>> c`.
    Ushr,
    /// `a = a ** b`.
    CompoundExp,
    /// `a = b == c`.
    Eq,
    /// `a = b != c`.
    Neq,
    /// `a = b === c`.
    StrictEq,
    /// `a = b !== c`.
    StrictNeq,
    /// `a = b < c`.
    Lt,
    /// `a = b > c`.
    Gt,
    /// `a = b <= c`.
    Lte,
    /// `a = b >= c`.
    Gte,
    /// `a = b instanceof c`.
    Instanceof,
}

/// An instruction.
#[derive(Clone, Copy, PartialEq, Eq, Structural, Debug)]
#[allow(inconsistent_fields)]
pub enum Inst {
    /// The generic form: an opcode and three operands.
    Op { op: OpCode, a: Operand, b: Operand, c: Operand },
    /// Loads constant `idx` into `dst`.
    LoadConst { dst: Operand, idx: u16 },
    /// Copies `src` into `dst`.
    Mov { dst: Operand, src: Operand },
    /// `new callee(args...)` with `argc` arguments starting at `arg`.
    NewExpression { dst: Operand, callee: Operand, arg: Operand, argc: u8 },
    /// Calls `callee` with receiver `this` and `argc` arguments starting at `first_arg`.
    Call { callee: Operand, this: Operand, first_arg: Operand, argc: u8 },
    /// Calls a native global with `argc` arguments starting at `first_arg`.
    CallNative { callee: Operand, this: Operand, first_arg: Operand, argc: u8 },
    /// Defines global property `key` through the object `obj` (writable,
    /// enumerable, non-configurable).
    DefineGlobalProp { obj: Operand, value: Operand, key: Operand },
    /// Defines global property `idx` on the session's global object
    /// (configurable).
    DefineGlobalPropC { value: Operand, idx: u16 },
    /// As `DefineGlobalProp`, only when the property is missing.
    DefineGlobalPropIfAbsent { obj: Operand, value: Operand, key: Operand },
    /// As `DefineGlobalPropC`, only when the property is missing.
    DefineGlobalPropCIfAbsent { value: Operand, idx: u16 },
    /// Creates the global binding of a top-level function declaration.
    DefineGlobalFuncBind { obj: Operand, value: Operand, key: Operand },
    /// Checks at run time that a global function named `key` may be declared.
    CanDeclareGlobalFunc { obj: Operand, key: Operand },
    /// Returns `value` from the function body.
    Return { value: Operand },
    /// Reads the named property `key` of `obj` through an inline cache,
    /// leaving the value in `obj`'s register.
    IcGet { obj: Operand, key: Operand },
    /// Reads private member `key` of `obj` into `dst`, checking the brand in
    /// `brand_reg` against `brand_id` (no check when both are 0).
    GetPrivateChecked { dst: Operand, obj: Operand, key: Operand, brand_reg: u32, brand_id: u32 },
    /// Creates a closure over nested function `idx` (1-based) into `dst`.
    CreateClosure { dst: Operand, idx: u16 },
    /// Defines property `key` of `obj` with value `value` and the attribute
    /// bits `attrs` (writable, enumerable, configurable, from high to low).
    DefinePropAttrs { obj: Operand, value: Operand, key: Operand, attrs: u32 },
    /// Initialises the private slot `key` of `obj` with `value`.
    InitPrivate { obj: Operand, value: Operand, key: Operand, is_method: bool },
    /// Defines accessor `key_idx` (a pool index) of `obj` with a getter and a
    /// setter and the attribute bits `attrs`.
    DefineAccessorAttrs { obj: Operand, get: Operand, set: Operand, key_idx: u32, attrs: u32 },
    /// Defines the private accessor with private id constant `key_idx` on `obj`.
    DefineAccessor { obj: Operand, get: Operand, set: Operand, key_idx: u32 },
    /// Deletes global property `idx` (a pool index) from the global object,
    /// leaving the result in `dst`; on success the builtin slot `slot`, if
    /// any, is cleared.
    DeleteGlobalPropC { dst: Operand, slot: Operand, idx: u16 },
    /// Deletes the named property `idx` (a pool index) of `obj`, leaving the
    /// result in `obj`'s register.
    DeletePropStatic { obj: Operand, idx: u32 },
    /// Creates the function's `arguments` object into `dst`.
    CreateArguments { dst: Operand },
    /// Collects the arguments after the first `fixed` into an array in `dst`.
    CreateRestArray { dst: Operand, fixed: u32 },
    /// Writes `value` to the named property `key` of `obj` through an inline cache.
    IcSet { obj: Operand, value: Operand, key: Operand },
    /// Updates the named property `key` of `obj` with `op` and `value` in
    /// place (`obj.key op= value`), leaving the new value in `value`'s register.
    CompoundMember { op: OpCode, obj: Operand, value: Operand, key: Operand },
    /// Jumps to label `label` when `cond` is true.
    JmpIfTrue { cond: Operand, label: u32 },
    /// Jumps to label `label` when `cond` is `null` or `undefined`.
    JmpIfNullish { cond: Operand, label: u32 },
    /// Jumps to label `label`.
    Jmp { label: u32 },
    /// Jumps to label `label` when `cond` is false.
    JmpIfFalse { cond: Operand, label: u32 },
}

} // verus!
