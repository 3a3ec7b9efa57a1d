//! Syntactic predicates that steer emission: anonymous function definitions,
//! side-effect-free operands, hoisted and labelled function declarations,
//! and whether a function needs its automatic `arguments` object.
use vstd::prelude::*;
use crate::ast::{Expression, Function, Statement};
use crate::names::{collect_declarator_names, declaration_binds, id_is};
use crate::nameset::NameSet;
use crate::text::str_eq;

verus! {

/// `e`, under any parentheses, is a function, arrow function or class expression.
pub open spec fn anonymous_function_definition(e: Expression) -> bool
    decreases e,
{
    match e {
        Expression::ArrowFunction(_) => true,
        Expression::Function(_) => true,
        Expression::Class(_) => true,
        Expression::Parenthesized(inner) => anonymous_function_definition(*inner),
        _ => false,
    }
}

/// Whether an expression, parentheses stripped, is a function, arrow
/// function or class expression (the forms that take an implicit name).
pub fn is_anonymous_function_definition(expr: &Expression) -> (r: bool)
    ensures
        r == anonymous_function_definition(*expr),
    decreases expr,
{
    match expr {
        Expression::ArrowFunction(_) => true,
        Expression::Function(_) => true,
        Expression::Class(_) => true,
        Expression::Parenthesized(inner) => is_anonymous_function_definition(inner),
        _ => false,
    }
}

/// `e`, under any parentheses, is a literal, an identifier or `this`.
pub open spec fn side_effect_free(e: Expression) -> bool
    decreases e,
{
    match e {
        Expression::NumericLiteral(_) => true,
        Expression::StringLiteral(_) => true,
        Expression::BooleanLiteral(_) => true,
        Expression::NullLiteral => true,
        Expression::Identifier(_) => true,
        Expression::RegExpLiteral(_) => true,
        Expression::This => true,
        Expression::Parenthesized(inner) => side_effect_free(*inner),
        _ => false,
    }
}

/// Whether evaluating an operand eagerly cannot have an effect: only literals,
/// identifier reads and `this` (under parentheses) qualify. Arithmetic does
/// not: coercing an object operand may run user code.
pub fn is_side_effect_free(expr: &Expression) -> (r: bool)
    ensures
        r == side_effect_free(*expr),
    decreases expr,
{
    match expr {
        Expression::NumericLiteral(_) => true,
        Expression::StringLiteral(_) => true,
        Expression::BooleanLiteral(_) => true,
        Expression::NullLiteral => true,
        Expression::Identifier(_) => true,
        Expression::RegExpLiteral(_) => true,
        Expression::This => true,
        Expression::Parenthesized(inner) => is_side_effect_free(inner),
        _ => false,
    }
}

/// The function declaration at the end of a chain of labels, if `s` is one.
pub open spec fn label_chain_function(s: Statement) -> Option<Function>
    decreases s,
{
    match s {
        Statement::Labeled { body, .. } => label_chain_function(*body),
        Statement::Function(f) => Some(f),
        _ => None,
    }
}

/// The function declaration that a chain of at least one label wraps.
pub open spec fn labeled_function(s: Statement) -> Option<Function> {
    match s {
        Statement::Labeled { body, .. } => label_chain_function(*body),
        _ => None,
    }
}

/// Follows a chain of labels down to a function declaration.
fn label_chain_function_decl(stmt: &Statement) -> (r: Option<&Function>)
    ensures
        match r {
            Some(f) => label_chain_function(*stmt) == Some(*f),
            None => label_chain_function(*stmt) is None,
        },
    decreases stmt,
{
    match stmt {
        Statement::Labeled { body, .. } => label_chain_function_decl(body),
        Statement::Function(f) => Some(f),
        _ => None,
    }
}

/// The function declaration wrapped by one or more labels (a labelled
/// function declaration); a bare function declaration, or a label around
/// anything else, gives none.
pub fn labeled_function_decl(stmt: &Statement) -> (r: Option<&Function>)
    ensures
        match r {
            Some(f) => labeled_function(*stmt) == Some(*f),
            None => labeled_function(*stmt) is None,
        },
{
    match stmt {
        Statement::Labeled { body, .. } => label_chain_function_decl(body),
        _ => None,
    }
}

/// `s` is hoisted to the function entry: a function declaration, bare or
/// under labels.
pub open spec fn body_hoisted_function_decl(s: Statement) -> bool {
    s is Function || labeled_function(s) is Some
}

/// Whether a body statement is materialised at function entry.
pub fn is_body_hoisted_function_decl(stmt: &Statement) -> (r: bool)
    ensures
        r == body_hoisted_function_decl(*stmt),
{
    match stmt {
        Statement::Function(_) => true,
        _ => labeled_function_decl(stmt).is_some(),
    }
}

/// The name `arguments`.
pub open spec fn arguments_name() -> Seq<char> {
    "arguments"@
}

/// The top-level body statement `s` declares `arguments` in a way that
/// suppresses the automatic object: a `let`/`const`/`class` declaration
/// always, a function declaration (bare or labelled) only when no parameter
/// has a default or computed part.
pub open spec fn suppresses_arguments(s: Statement, has_param_exprs: bool) -> bool {
    match s {
        Statement::Variable(vd) => !(vd.kind is Var) && declaration_binds(vd, arguments_name()),
        Statement::Class(c) => id_is(c.id, arguments_name()),
        Statement::Function(f) => !has_param_exprs && id_is(f.id, arguments_name()),
        _ => !has_param_exprs && (labeled_function(s) matches Some(f) && id_is(f.id, arguments_name())),
    }
}

/// Whether a non-arrow function needs the automatic `arguments` object: not
/// when a parameter is named `arguments`, nor when a top-level declaration
/// of the body suppresses it. Declarations nested in blocks, loops,
/// `switch` or `try` do not; neither does `var arguments`.
pub fn arguments_obj_needed(body_stmts: &Vec<Statement>, param_names: &NameSet, has_param_exprs: bool) -> (r: bool)
    ensures
        r == (!param_names@.contains(arguments_name()) && forall|i: int|
            0 <= i < body_stmts@.len() ==> !suppresses_arguments(#[trigger] body_stmts@[i], has_param_exprs)),
{
    if param_names.contains("arguments") {
        return false;
    }
    let mut i: usize = 0;
    while i < body_stmts.len()
        invariant
            i <= body_stmts@.len(),
            forall|j: int| 0 <= j < i ==> !suppresses_arguments(#[trigger] body_stmts@[j], has_param_exprs),
        decreases body_stmts.len() - i,
    {
        let stmt = &body_stmts[i];
        let suppressed = match stmt {
            Statement::Variable(vd) => {
                match vd.kind {
                    crate::ast::VariableDeclarationKind::Var => false,
                    _ => {
                        let mut names = NameSet::new();
                        collect_declarator_names(vd, &mut names);
                        names.contains("arguments")
                    },
                }
            },
            Statement::Class(c) => match &c.id {
                Some(id) => str_eq(id.as_str(), "arguments"),
                None => false,
            },
            Statement::Function(f) => !has_param_exprs && match &f.id {
                Some(id) => str_eq(id.as_str(), "arguments"),
                None => false,
            },
            _ => !has_param_exprs && match labeled_function_decl(stmt) {
                Some(f) => match &f.id {
                    Some(id) => str_eq(id.as_str(), "arguments"),
                    None => false,
                },
                None => false,
            },
        };
        if suppressed {
            return false;
        }
        i += 1;
    }
    true
}

} // verus!
