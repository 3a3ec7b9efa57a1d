//! Module-level syntax facts: module kinds, resolved dependencies, the
//! loader interface, and the names a module exports by itself.
use vstd::prelude::*;
use crate::ast::{BindingPattern, Declaration, Expression, ImportAttribute, Statement};
use crate::nameset::NameSet;

verus! {

/// The kind of a dependency module: JavaScript source or a data module.
#[derive(Clone, Copy, PartialEq, Eq, Structural, Debug)]
pub enum ModuleKind {
    Js,
    Json,
    Text,
    Bytes,
}

/// A resolved dependency module.
pub struct ResolvedModule {
    /// The module's source (JavaScript or data content).
    pub source: String,
    /// The module's canonical path (for self-import detection and cycles).
    pub path: String,
    /// The module's kind.
    pub kind: ModuleKind,
}

/// Resolves dependency modules; supplied by the embedder (a test runner, a
/// command line tool).
pub trait ModuleSourceLoader {
    /// Locates the module `specifier` relative to `base_dir`; `attributes`
    /// are the key/value pairs of the import's `with` clause.
    fn resolve(&mut self, base_dir: &str, specifier: &str, attributes: &[(&str, &str)]) -> Result<
        ResolvedModule,
        String,
    >;
}

/// The default export's name, and the implicit `name` of an anonymous
/// default-exported function or class.
pub const DEFAULT_EXPORT_NAME: &'static str = "default";

/// `e` with every layer of parentheses removed.
pub open spec fn stripped(e: Expression) -> Expression
    decreases e,
{
    match e {
        Expression::Parenthesized(inner) => stripped(*inner),
        _ => e,
    }
}

/// Removes every layer of parentheses around an expression.
pub fn strip_parens(expr: &Expression) -> (r: &Expression)
    ensures
        *r == stripped(*expr),
    decreases expr,
{
    match expr {
        Expression::Parenthesized(inner) => strip_parens(inner),
        _ => expr,
    }
}

/// The import attributes of a `with` clause as key/value pairs, in order.
pub fn module_attributes(attributes: &Vec<ImportAttribute>) -> (out: Vec<(String, String)>)
    ensures
        out@.len() == attributes@.len(),
        forall|i: int| 0 <= i < out@.len() ==> (#[trigger] out@[i]).0@ == attributes@[i].key@ && out@[i].1@
            == attributes@[i].value@,
{
    let mut out: Vec<(String, String)> = Vec::new();
    let mut i: usize = 0;
    while i < attributes.len()
        invariant
            i <= attributes@.len(),
            out@.len() == i,
            forall|j: int| 0 <= j < i ==> (#[trigger] out@[j]).0@ == attributes@[j].key@ && out@[j].1@
                == attributes@[j].value@,
        decreases attributes.len() - i,
    {
        out.push((attributes[i].key.clone(), attributes[i].value.clone()));
        i += 1;
    }
    out
}

/// `n` is a name that the statement `s` of a module body exports directly:
/// a plain identifier declarator, function or class name of an exported
/// declaration, an exported name of an export list, `default` for a default
/// export, or the name of an `export * as name`.
pub open spec fn stmt_exports(s: Statement, n: Seq<char>) -> bool {
    match s {
        Statement::ExportNamed(exp) => match exp.declaration {
            Some(Declaration::Variable(vd)) => exists|d: int|
                0 <= d < vd.declarations.len() && (#[trigger] vd.declarations@[d].id matches BindingPattern::Identifier(
                    id,
                ) && id@ == n),
            Some(Declaration::Function(f)) => crate::names::id_is(f.id, n),
            Some(Declaration::Class(c)) => crate::names::id_is(c.id, n),
            Some(Declaration::Other) => false,
            None => exists|k: int| 0 <= k < exp.specifiers.len() && #[trigger] exp.specifiers@[k].exported@ == n,
        },
        Statement::ExportDefault(_) => n == DEFAULT_EXPORT_NAME@,
        Statement::ExportAll(exp) => exp.exported matches Some(e) && e@ == n,
        _ => false,
    }
}

/// The names a module body exports by itself (string export names and
/// `default` included), against which a self-import is checked.
#[verifier::loop_isolation(false)]
pub fn module_own_export_names(body: &Vec<Statement>) -> (names: NameSet)
    ensures
        forall|n: Seq<char>| #[trigger] names@.contains(n) == exists|i: int|
            0 <= i < body@.len() && stmt_exports(#[trigger] body@[i], n),
{
    let mut names = NameSet::new();
    let mut i: usize = 0;
    while i < body.len()
        invariant
            i <= body@.len(),
            forall|n: Seq<char>| #[trigger] names@.contains(n) == exists|j: int|
                0 <= j < i && stmt_exports(#[trigger] body@[j], n),
        decreases body.len() - i,
    {
        let ghost before = names@;
        match &body[i] {
            Statement::ExportNamed(exp) => {
                match &exp.declaration {
                    Some(Declaration::Variable(vd)) => {
                        let mut d: usize = 0;
                        while d < vd.declarations.len()
                            invariant
                                d <= vd.declarations@.len(),
                                forall|n: Seq<char>| #[trigger] names@.contains(n) == (before.contains(n) || exists|k: int|
                                    0 <= k < d && (#[trigger] vd.declarations@[k].id matches BindingPattern::Identifier(
                                        id,
                                    ) && id@ == n)),
                            decreases vd.declarations.len() - d,
                        {
                            if let BindingPattern::Identifier(id) = &vd.declarations[d].id {
                                names.insert(id.as_str());
                            }
                            assert forall|n: Seq<char>| #[trigger] names@.contains(n) == (before.contains(n) || exists|k: int|
                                0 <= k < d + 1 && (#[trigger] vd.declarations@[k].id matches BindingPattern::Identifier(
                                    id,
                                ) && id@ == n)) by {
                                if exists|k: int|
                                    0 <= k < d + 1 && (#[trigger] vd.declarations@[k].id matches BindingPattern::Identifier(
                                        id,
                                    ) && id@ == n) {
                                    let k = choose|k: int|
                                        0 <= k < d + 1 && (#[trigger] vd.declarations@[k].id matches BindingPattern::Identifier(
                                            id,
                                        ) && id@ == n);
                                    if k < d {
                                    }
                                }
                            }
                            d += 1;
                        }
                    },
                    Some(Declaration::Function(f)) => {
                        if let Some(id) = &f.id {
                            names.insert(id.as_str());
                        }
                    },
                    Some(Declaration::Class(c)) => {
                        if let Some(id) = &c.id {
                            names.insert(id.as_str());
                        }
                    },
                    Some(Declaration::Other) => {},
                    None => {
                        let mut k: usize = 0;
                        while k < exp.specifiers.len()
                            invariant
                                k <= exp.specifiers@.len(),
                                forall|n: Seq<char>| #[trigger] names@.contains(n) == (before.contains(n) || exists|q: int|
                                    0 <= q < k && #[trigger] exp.specifiers@[q].exported@ == n),
                            decreases exp.specifiers.len() - k,
                        {
                            names.insert(exp.specifiers[k].exported.as_str());
                            assert forall|n: Seq<char>| #[trigger] names@.contains(n) == (before.contains(n) || exists|q: int|
                                0 <= q < k + 1 && #[trigger] exp.specifiers@[q].exported@ == n) by {
                                if exists|q: int| 0 <= q < k + 1 && #[trigger] exp.specifiers@[q].exported@ == n {
                                    let q = choose|q: int| 0 <= q < k + 1 && #[trigger] exp.specifiers@[q].exported@ == n;
                                    if q < k {
                                    }
                                }
                            }
                            k += 1;
                        }
                    },
                }
            },
            Statement::ExportDefault(_) => {
                names.insert(DEFAULT_EXPORT_NAME);
            },
            Statement::ExportAll(exp) => {
                if let Some(e) = &exp.exported {
                    names.insert(e.as_str());
                }
            },
            _ => {},
        }
        assert forall|n: Seq<char>| #[trigger] names@.contains(n) == exists|j: int|
            0 <= j < i + 1 && stmt_exports(#[trigger] body@[j], n) by {
            if exists|j: int| 0 <= j < i + 1 && stmt_exports(#[trigger] body@[j], n) {
                let j = choose|j: int| 0 <= j < i + 1 && stmt_exports(#[trigger] body@[j], n);
                if j < i {
                }
            }
            assert(names@.contains(n) == (before.contains(n) || stmt_exports(body@[i as int], n)));
        }
        i += 1;
    }
    names
}

/// `s` is a hoisted function declaration (exported or not).
pub open spec fn hoisted_function_decl(s: Statement) -> bool {
    match s {
        Statement::Function(_) => true,
        Statement::ExportNamed(exp) => exp.declaration matches Some(Declaration::Function(_)),
        _ => false,
    }
}

/// Whether a statement is a hoisted function declaration, including one
/// wrapped in `export`.
pub fn is_hoisted_function_decl(stmt: &Statement) -> (r: bool)
    ensures
        r == hoisted_function_decl(*stmt),
{
    match stmt {
        Statement::Function(_) => true,
        Statement::ExportNamed(exp) => match &exp.declaration {
            Some(Declaration::Function(_)) => true,
            _ => false,
        },
        _ => false,
    }
}

} // verus!
