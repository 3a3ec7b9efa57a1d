//! The builtin global name tables.
//!
//! `builtin_global_table` is the single source of truth for the names that a
//! script resolves to the global object without a declaration; the read-only
//! names are the three value properties whose descriptors are
//! `{writable: false, configurable: false}`. The restricted lexical names are
//! kept as a separate table (they answer a different question: which names a
//! top-level `let`/`const`/`class` may not take), and the laws at the end of
//! this file hold the tables in step.
use vstd::prelude::*;
use crate::text::str_eq;

verus! {

/// Names of the builtin globals, in table order.
pub open spec fn builtin_global_table() -> Seq<Seq<char>> {
    seq![
        "NaN"@,
        "undefined"@,
        "Infinity"@,
        "globalThis"@,
        "Object"@,
        "Array"@,
        "String"@,
        "Number"@,
        "Boolean"@,
        "Function"@,
        "Error"@,
        "TypeError"@,
        "ReferenceError"@,
        "RangeError"@,
        "SyntaxError"@,
        "URIError"@,
        "EvalError"@,
        "eval"@,
        "SuppressedError"@,
        "DisposableStack"@,
        "AsyncDisposableStack"@,
        "Math"@,
        "JSON"@,
        "Promise"@,
        "AggregateError"@,
        "Date"@,
        "Set"@,
        "Map"@,
        "RegExp"@,
        "Symbol"@,
        "parseInt"@,
        "parseFloat"@,
        "isNaN"@,
        "isFinite"@,
        "Proxy"@,
        "WeakMap"@,
        "WeakSet"@,
        "WeakRef"@,
        "FinalizationRegistry"@,
        "Atomics"@,
        "SharedArrayBuffer"@,
        "ArrayBuffer"@,
        "DataView"@,
        "Iterator"@,
        "BigInt"@,
        "TypedArray"@,
        "Int8Array"@,
        "Uint8Array"@,
        "Uint8ClampedArray"@,
        "Int16Array"@,
        "Uint16Array"@,
        "Int32Array"@,
        "Uint32Array"@,
        "Float32Array"@,
        "Float64Array"@,
        "BigInt64Array"@,
        "BigUint64Array"@,
        "Reflect"@,
        "escape"@,
        "unescape"@,
        "encodeURI"@,
        "decodeURI"@,
        "encodeURIComponent"@,
        "decodeURIComponent"@,
        "$262"@
    ]
}

/// Builtin globals whose global-object property is `{writable: false, configurable: false}`.
pub open spec fn non_writable_builtin_table() -> Seq<Seq<char>> {
    seq![
        "undefined"@,
        "NaN"@,
        "Infinity"@
    ]
}

/// Names that a script's top-level lexical declaration may not bind.
pub open spec fn restricted_lexical_table() -> Seq<Seq<char>> {
    seq![
        "undefined"@,
        "NaN"@,
        "Infinity"@
    ]
}

/// The string views of a list of names.
pub open spec fn name_views(t: Seq<&str>) -> Seq<Seq<char>> {
    t.map_values(|s: &str| s@)
}

/// The builtin global names, in table order.
pub fn builtin_globals() -> (t: Vec<&'static str>)
    ensures
        name_views(t@) == builtin_global_table(),
{
    let t = vec![
        "NaN",
        "undefined",
        "Infinity",
        "globalThis",
        "Object",
        "Array",
        "String",
        "Number",
        "Boolean",
        "Function",
        "Error",
        "TypeError",
        "ReferenceError",
        "RangeError",
        "SyntaxError",
        "URIError",
        "EvalError",
        "eval",
        "SuppressedError",
        "DisposableStack",
        "AsyncDisposableStack",
        "Math",
        "JSON",
        "Promise",
        "AggregateError",
        "Date",
        "Set",
        "Map",
        "RegExp",
        "Symbol",
        "parseInt",
        "parseFloat",
        "isNaN",
        "isFinite",
        "Proxy",
        "WeakMap",
        "WeakSet",
        "WeakRef",
        "FinalizationRegistry",
        "Atomics",
        "SharedArrayBuffer",
        "ArrayBuffer",
        "DataView",
        "Iterator",
        "BigInt",
        "TypedArray",
        "Int8Array",
        "Uint8Array",
        "Uint8ClampedArray",
        "Int16Array",
        "Uint16Array",
        "Int32Array",
        "Uint32Array",
        "Float32Array",
        "Float64Array",
        "BigInt64Array",
        "BigUint64Array",
        "Reflect",
        "escape",
        "unescape",
        "encodeURI",
        "decodeURI",
        "encodeURIComponent",
        "decodeURIComponent",
        "$262"
    ];
    assert(name_views(t@) =~= builtin_global_table());
    t
}

/// The read-only builtin global names (`undefined`, `NaN`, `Infinity`).
pub fn non_writable_global_builtins() -> (t: Vec<&'static str>)
    ensures
        name_views(t@) == non_writable_builtin_table(),
{
    let t = vec![
        "undefined",
        "NaN",
        "Infinity"
    ];
    assert(name_views(t@) =~= non_writable_builtin_table());
    t
}

/// The names that a script's top-level `let`/`const`/`class` may not bind.
pub fn restricted_global_lexical_names() -> (t: Vec<&'static str>)
    ensures
        name_views(t@) == restricted_lexical_table(),
{
    let t = vec![
        "undefined",
        "NaN",
        "Infinity"
    ];
    assert(name_views(t@) =~= restricted_lexical_table());
    t
}

/// Whether `name` occurs in the list `t`.
pub fn table_contains(t: &Vec<&'static str>, name: &str) -> (r: bool)
    ensures
        r == name_views(t@).contains(name@),
{
    let mut i: usize = 0;
    while i < t.len()
        invariant
            i <= t.len(),
            forall|j: int| 0 <= j < i ==> t@[j]@ != name@,
        decreases t.len() - i,
    {
        if str_eq(t[i], name) {
            assert(name_views(t@)[i as int] == name@);
            return true;
        }
        i += 1;
    }
    assert(!name_views(t@).contains(name@)) by {
        if name_views(t@).contains(name@) {
            let k = choose|k: int| 0 <= k < name_views(t@).len() && name_views(t@)[k] == name@;
            assert(t@[k]@ == name@);
        }
    }
    false
}

/// Whether `name` is a builtin global.
pub open spec fn is_builtin_name(name: Seq<char>) -> bool {
    builtin_global_table().contains(name)
}

/// Whether `name` is one of the read-only builtin globals.
pub open spec fn is_non_writable_name(name: Seq<char>) -> bool {
    non_writable_builtin_table().contains(name)
}

/// Whether `name` is a writable builtin global: a builtin that is not read-only.
pub open spec fn is_writable_builtin_name(name: Seq<char>) -> bool {
    is_builtin_name(name) && !is_non_writable_name(name)
}

/// Whether a builtin global may be deleted: writable, and not the host name `$262`.
pub open spec fn is_deletable_builtin_name(name: Seq<char>) -> bool {
    is_writable_builtin_name(name) && name != "$262"@
}

/// Whether a top-level lexical declaration may not take `name`.
pub open spec fn is_restricted_lexical_name(name: Seq<char>) -> bool {
    restricted_lexical_table().contains(name)
}

/// Every restricted lexical name is a builtin global: the two tables are kept
/// apart, and this holds them in step.
pub proof fn lemma_restricted_names_are_builtins(name: Seq<char>)
    ensures
        is_restricted_lexical_name(name) ==> is_builtin_name(name),
{
    if is_restricted_lexical_name(name) {
        let k = choose|k: int| 0 <= k < 3 && restricted_lexical_table()[k] == name;
        assert(builtin_global_table()[0] == restricted_lexical_table()[1]);
        assert(builtin_global_table()[1] == restricted_lexical_table()[0]);
        assert(builtin_global_table()[2] == restricted_lexical_table()[2]);
    }
}

/// Every read-only builtin is a builtin global.
pub proof fn lemma_non_writable_names_are_builtins(name: Seq<char>)
    ensures
        is_non_writable_name(name) ==> is_builtin_name(name),
{
    if is_non_writable_name(name) {
        let k = choose|k: int| 0 <= k < 3 && non_writable_builtin_table()[k] == name;
        assert(builtin_global_table()[0] == non_writable_builtin_table()[1]);
        assert(builtin_global_table()[1] == non_writable_builtin_table()[0]);
        assert(builtin_global_table()[2] == non_writable_builtin_table()[2]);
    }
}

/// The read-only and the writable builtins partition the builtin globals:
/// each builtin is exactly one of the two, and nothing else is either.
pub proof fn lemma_readonly_writable_partition(name: Seq<char>)
    ensures
        is_builtin_name(name) ==> (is_non_writable_name(name) != is_writable_builtin_name(name)),
        is_writable_builtin_name(name) ==> is_builtin_name(name),
        is_non_writable_name(name) ==> is_builtin_name(name),
{
    lemma_non_writable_names_are_builtins(name);
}

/// The deletable builtins are the writable ones except the host name `$262`:
/// deletable implies writable, no read-only name is deletable, and `$262` is
/// the one writable builtin that is not deletable.
pub proof fn lemma_deletable_derive_from_writable(name: Seq<char>)
    ensures
        is_deletable_builtin_name(name) ==> is_writable_builtin_name(name),
        is_non_writable_name(name) ==> !is_deletable_builtin_name(name),
        !is_deletable_builtin_name("$262"@),
        (is_writable_builtin_name(name) && !is_deletable_builtin_name(name)) <==> name == "$262"@,
{
    reveal_strlit("$262");
    reveal_strlit("undefined");
    reveal_strlit("NaN");
    reveal_strlit("Infinity");
    assert(builtin_global_table()[64] == "$262"@);
    assert(is_builtin_name("$262"@));
    assert(!is_non_writable_name("$262"@)) by {
        if is_non_writable_name("$262"@) {
            let k = choose|k: int| 0 <= k < 3 && non_writable_builtin_table()[k] == "$262"@;
            assert(non_writable_builtin_table()[k].len() != 4);
        }
    }
}

}
