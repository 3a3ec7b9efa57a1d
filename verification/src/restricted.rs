//! The script-level check on restricted global names: a top-level lexical
//! declaration (`let`, `const`, `class`) may not use a name that the global
//! object holds as a non-configurable own property.
use vstd::prelude::*;
use vstd::string::StringExecFns;
use crate::builtins::{is_restricted_lexical_name, restricted_global_lexical_names, table_contains};

verus! {

/// The message of the error for a redeclared `name`.
pub open spec fn already_declared_message(name: Seq<char>) -> Seq<char> {
    "Identifier '"@ + name + "' has already been declared"@
}

/// Builds the message of the error for a redeclared `name`.
pub fn already_declared(name: &str) -> (m: String)
    ensures
        m@ == already_declared_message(name@),
{
    let mut m = String::from_str("Identifier '");
    m.append(name);
    m.append("' has already been declared");
    m
}

/// A top-level lexical declaration of a restricted global name is a
/// SyntaxError at declaration instantiation, reported like a redeclaration;
/// any other name, or any declaration that is not top-level, passes.
pub fn check_restricted_global_lexical(name: &str, global_lexical: bool) -> (r: Result<(), String>)
    ensures
        (r is Err) == (global_lexical && is_restricted_lexical_name(name@)),
        r matches Err(e) ==> e@ == already_declared_message(name@),
{
    if global_lexical && table_contains(&restricted_global_lexical_names(), name) {
        return Err(already_declared(name));
    }
    Ok(())
}

} // verus!
