//! Declared-name collection: the names that patterns, parameter lists and
//! statement trees bind in the current function scope.
use vstd::prelude::*;
use crate::ast::{
    BindingPattern, Declaration, ExportDefaultKind, ForInit, ForLeft, FormalParameters, ImportSpecifier,
    Statement, VariableDeclaration, VariableDeclarationKind,
};
use crate::nameset::NameSet;

verus! {

/// `n` is one of the identifiers that the pattern `p` binds (the leaves of a
/// destructuring, through defaults and rest elements).
pub open spec fn pattern_binds(p: BindingPattern, n: Seq<char>) -> bool
    decreases p,
{
    match p {
        BindingPattern::Identifier(s) => s@ == n,
        BindingPattern::Array { elements, rest } => (exists|i: int|
            0 <= i < elements.len() && (#[trigger] elements@[i] matches Some(e) && pattern_binds(e, n)))
            || (rest matches Some(r) && pattern_binds(*r, n)),
        BindingPattern::Object { properties, rest } => (exists|i: int|
            0 <= i < properties.len() && pattern_binds(#[trigger] properties@[i].value, n))
            || (rest matches Some(r) && pattern_binds(*r, n)),
        BindingPattern::Assignment { left, right } => pattern_binds(*left, n),
    }
}

/// The names that the pattern `p` binds.
pub open spec fn pattern_names(p: BindingPattern) -> Set<Seq<char>> {
    Set::new(|n: Seq<char>| pattern_binds(p, n))
}

/// Adds to `out` every name that `pattern` binds.
#[verifier::loop_isolation(false)]
pub fn collect_binding_pattern_names(pattern: &BindingPattern, out: &mut NameSet)
    ensures
        final(out)@ == old(out)@.union(pattern_names(*pattern)),
    decreases pattern,
{
    match pattern {
        BindingPattern::Identifier(s) => {
            out.insert(s.as_str());
            assert(final(out)@ =~= old(out)@.union(pattern_names(*pattern)));
        },
        BindingPattern::Array { elements, rest } => {
            let mut i: usize = 0;
            while i < elements.len()
                invariant
                    i <= elements@.len(),
                    forall|n: Seq<char>| #[trigger] out@.contains(n) <==> (old(out)@.contains(n) || exists|j: int|
                        0 <= j < i && (#[trigger] elements@[j] matches Some(e) && pattern_binds(e, n))),
                decreases elements.len() - i,
            {
                if let Some(e) = &elements[i] {
                    proof {
                        assert(decreases_to!(*pattern => elements@[i as int]));
                    }
                    collect_binding_pattern_names(e, out);
                }
                assert forall|n: Seq<char>| #[trigger] out@.contains(n) <==> (old(out)@.contains(n) || exists|j: int|
                    0 <= j < i + 1 && (#[trigger] elements@[j] matches Some(e) && pattern_binds(e, n))) by {
                    if exists|j: int| 0 <= j < i + 1 && (#[trigger] elements@[j] matches Some(e) && pattern_binds(e, n)) {
                        let j = choose|j: int| 0 <= j < i + 1 && (#[trigger] elements@[j] matches Some(e) && pattern_binds(e, n));
                        if j < i {
                        }
                    }
                }
                i += 1;
            }
            if let Some(r) = rest {
                collect_binding_pattern_names(r, out);
            }
            assert(final(out)@ =~= old(out)@.union(pattern_names(*pattern)));
        },
        BindingPattern::Object { properties, rest } => {
            let mut i: usize = 0;
            while i < properties.len()
                invariant
                    i <= properties@.len(),
                    forall|n: Seq<char>| #[trigger] out@.contains(n) <==> (old(out)@.contains(n) || exists|j: int|
                        0 <= j < i && pattern_binds(#[trigger] properties@[j].value, n)),
                decreases properties.len() - i,
            {
                proof {
                    assert(decreases_to!(*pattern => properties@[i as int].value));
                }
                collect_binding_pattern_names(&properties[i].value, out);
                assert forall|n: Seq<char>| #[trigger] out@.contains(n) <==> (old(out)@.contains(n) || exists|j: int|
                    0 <= j < i + 1 && pattern_binds(#[trigger] properties@[j].value, n)) by {
                    if exists|j: int| 0 <= j < i + 1 && pattern_binds(#[trigger] properties@[j].value, n) {
                        let j = choose|j: int| 0 <= j < i + 1 && pattern_binds(#[trigger] properties@[j].value, n);
                        if j < i {
                        }
                    }
                }
                i += 1;
            }
            if let Some(r) = rest {
                collect_binding_pattern_names(r, out);
            }
            assert(final(out)@ =~= old(out)@.union(pattern_names(*pattern)));
        },
        BindingPattern::Assignment { left, right } => {
            collect_binding_pattern_names(left, out);
            assert(final(out)@ =~= old(out)@.union(pattern_names(*pattern)));
        },
    }
}


/// `n` is bound by one of the declarators of `vd`.
pub open spec fn declaration_binds(vd: VariableDeclaration, n: Seq<char>) -> bool
    decreases vd,
{
    exists|i: int| 0 <= i < vd.declarations.len() && pattern_binds(#[trigger] vd.declarations@[i].id, n)
}

/// Adds to `out` the names bound by every declarator of `vd`.
#[verifier::loop_isolation(false)]
pub fn collect_declarator_names(vd: &VariableDeclaration, out: &mut NameSet)
    ensures
        forall|n: Seq<char>| #[trigger] final(out)@.contains(n) == (old(out)@.contains(n) || declaration_binds(*vd, n)),
{
    let mut i: usize = 0;
    while i < vd.declarations.len()
        invariant
            i <= vd.declarations@.len(),
            forall|n: Seq<char>| #[trigger] out@.contains(n) == (old(out)@.contains(n) || exists|j: int|
                0 <= j < i && pattern_binds(#[trigger] vd.declarations@[j].id, n)),
        decreases vd.declarations.len() - i,
    {
        collect_binding_pattern_names(&vd.declarations[i].id, out);
        assert forall|n: Seq<char>| #[trigger] out@.contains(n) == (old(out)@.contains(n) || exists|j: int|
            0 <= j < i + 1 && pattern_binds(#[trigger] vd.declarations@[j].id, n)) by {
            if exists|j: int| 0 <= j < i + 1 && pattern_binds(#[trigger] vd.declarations@[j].id, n) {
                let j = choose|j: int| 0 <= j < i + 1 && pattern_binds(#[trigger] vd.declarations@[j].id, n);
                if j < i {
                }
            }
            if pattern_binds(vd.declarations@[i as int].id, n) {
                assert(pattern_names(vd.declarations@[i as int].id).contains(n));
            }
        }
        i += 1;
    }
}

/// `n` is bound by the parameter list: a parameter's pattern or the rest pattern.
pub open spec fn params_bind(ps: FormalParameters, n: Seq<char>) -> bool
    decreases ps,
{
    (exists|i: int| 0 <= i < ps.items.len() && pattern_binds(#[trigger] ps.items@[i].pattern, n))
        || (ps.rest matches Some(r) && pattern_binds(r, n))
}

/// The names that a parameter list binds.
pub open spec fn param_names(ps: FormalParameters) -> Set<Seq<char>> {
    Set::new(|n: Seq<char>| params_bind(ps, n))
}

/// The names bound by a parameter list (destructured leaves and the rest parameter included).
#[verifier::loop_isolation(false)]
pub fn collect_fn_param_names(params: &FormalParameters) -> (names: NameSet)
    ensures
        names@ == param_names(*params),
{
    let mut names = NameSet::new();
    let mut i: usize = 0;
    while i < params.items.len()
        invariant
            i <= params.items@.len(),
            forall|n: Seq<char>| #[trigger] names@.contains(n) == exists|j: int|
                0 <= j < i && pattern_binds(#[trigger] params.items@[j].pattern, n),
        decreases params.items.len() - i,
    {
        collect_binding_pattern_names(&params.items[i].pattern, &mut names);
        assert forall|n: Seq<char>| #[trigger] names@.contains(n) == exists|j: int|
            0 <= j < i + 1 && pattern_binds(#[trigger] params.items@[j].pattern, n) by {
            if exists|j: int| 0 <= j < i + 1 && pattern_binds(#[trigger] params.items@[j].pattern, n) {
                let j = choose|j: int| 0 <= j < i + 1 && pattern_binds(#[trigger] params.items@[j].pattern, n);
                if j < i {
                }
            }
            if pattern_binds(params.items@[i as int].pattern, n) {
                assert(pattern_names(params.items@[i as int].pattern).contains(n));
            }
        }
        i += 1;
    }
    if let Some(r) = &params.rest {
        collect_binding_pattern_names(r, &mut names);
    }
    assert(names@ =~= param_names(*params));
    names
}

/// `n` is declared by a `for-in`/`for-of` head.
pub open spec fn for_left_binds(left: ForLeft, n: Seq<char>) -> bool {
    match left {
        ForLeft::Variable(vd) => declaration_binds(vd, n),
        ForLeft::Target(_) => false,
    }
}

/// Adds to `out` the names declared by a `for-in`/`for-of` head.
pub fn collect_for_left_decl_names(left: &ForLeft, out: &mut NameSet)
    ensures
        forall|n: Seq<char>| #[trigger] final(out)@.contains(n) == (old(out)@.contains(n) || for_left_binds(*left, n)),
{
    if let ForLeft::Variable(vd) = left {
        collect_declarator_names(vd, out);
    }
}


/// `n` is declared `var` somewhere in one of the statements `ss` (nested blocks
/// and control-flow bodies included, nested functions excluded).
pub open spec fn stmts_var_bind(ss: Seq<Statement>, n: Seq<char>) -> bool
    decreases ss,
{
    exists|i: int| 0 <= i < ss.len() && stmt_var_binds(#[trigger] ss[i], n)
}

/// A `var` declaration binds `n`.
pub open spec fn var_declaration_binds(vd: VariableDeclaration, n: Seq<char>) -> bool {
    vd.kind == VariableDeclarationKind::Var && declaration_binds(vd, n)
}

/// `n` is declared `var` within the statement `s`.
pub open spec fn stmt_var_binds(s: Statement, n: Seq<char>) -> bool
    decreases s,
{
    match s {
        Statement::Variable(vd) => var_declaration_binds(vd, n),
        Statement::Block(body) => stmts_var_bind(body@, n),
        Statement::If { consequent, alternate, .. } => stmt_var_binds(*consequent, n)
            || (alternate matches Some(a) && stmt_var_binds(*a, n)),
        Statement::While { body, .. } => stmt_var_binds(*body, n),
        Statement::DoWhile { body, .. } => stmt_var_binds(*body, n),
        Statement::For { init, body, .. } => (init matches Some(ForInit::Variable(vd)) && var_declaration_binds(vd, n))
            || stmt_var_binds(*body, n),
        Statement::ForIn { left, body, .. } => (left matches ForLeft::Variable(vd) && var_declaration_binds(vd, n))
            || stmt_var_binds(*body, n),
        Statement::ForOf { left, body, .. } => (left matches ForLeft::Variable(vd) && var_declaration_binds(vd, n))
            || stmt_var_binds(*body, n),
        Statement::Switch { cases, .. } => exists|c: int| 0 <= c < cases.len() && stmts_var_bind(#[trigger] cases@[c].consequent@, n),
        Statement::Try { block, handler, finalizer } => stmts_var_bind(block@, n)
            || (handler matches Some(h) && stmts_var_bind(h.body@, n))
            || (finalizer matches Some(f) && stmts_var_bind(f@, n)),
        Statement::Labeled { body, .. } => stmt_var_binds(*body, n),
        Statement::With { body, .. } => stmt_var_binds(*body, n),
        Statement::ExportNamed(exp) => exp.declaration matches Some(Declaration::Variable(vd)) && var_declaration_binds(vd, n),
        _ => false,
    }
}


/// The `var` declaration a statement carries itself: a `var` statement,
/// the head of a `for`, `for-in` or `for-of` loop, an exported declaration.
pub open spec fn var_head(s: Statement) -> Option<VariableDeclaration> {
    match s {
        Statement::Variable(vd) => Some(vd),
        Statement::For { init: Some(ForInit::Variable(vd)), .. } => Some(vd),
        Statement::ForIn { left: ForLeft::Variable(vd), .. } => Some(vd),
        Statement::ForOf { left: ForLeft::Variable(vd), .. } => Some(vd),
        Statement::ExportNamed(exp) => match exp.declaration {
            Some(Declaration::Variable(vd)) => Some(vd),
            _ => None,
        },
        _ => None,
    }
}

/// The statements nested in a statement in the same function: a block's,
/// the branches of an `if`, a loop's body, a label's or `with`'s body, the
/// parts of a `try` (`switch` cases are taken case by case).
pub open spec fn nested_statements(s: Statement) -> Seq<Statement> {
    match s {
        Statement::Block(ss) => ss@,
        Statement::If { consequent, alternate, .. } => seq![*consequent] + match alternate {
            Some(a) => seq![*a],
            None => Seq::empty(),
        },
        Statement::While { body, .. } => seq![*body],
        Statement::DoWhile { body, .. } => seq![*body],
        Statement::For { body, .. } => seq![*body],
        Statement::ForIn { body, .. } => seq![*body],
        Statement::ForOf { body, .. } => seq![*body],
        Statement::Labeled { body, .. } => seq![*body],
        Statement::With { body, .. } => seq![*body],
        Statement::Try { block, handler, finalizer } => block@ + match handler {
            Some(h) => h.body@,
            None => Seq::empty(),
        } + match finalizer {
            Some(f) => f@,
            None => Seq::empty(),
        },
        _ => Seq::empty(),
    }
}

/// `var` hoisting: a name that a `var` declaration binds, whether the
/// declaration is a statement, a loop head (`for (var i = ...)`, `for (var
/// k in ...)`, `for (var v of ...)`) or an export, is a `var` binding of the
/// enclosing function; and so is every `var` binding of a statement nested
/// in it (blocks, branches, loop bodies, labels, `with`, `try` parts,
/// `switch` cases), nested functions excepted.
pub proof fn lemma_var_hoisting(s: Statement, n: Seq<char>)
    ensures
        (var_head(s) matches Some(vd) && vd.kind == VariableDeclarationKind::Var && exists|j: int|
            0 <= j < vd.declarations.len() && pattern_binds(#[trigger] vd.declarations@[j].id, n)) ==> stmt_var_binds(s, n),
        forall|i: int| 0 <= i < nested_statements(s).len() && stmt_var_binds(#[trigger] nested_statements(s)[i], n) ==> stmt_var_binds(s, n),
        (s is Function || s is Class || s is Expression || s is Return) ==> !stmt_var_binds(s, n),
        (s matches Statement::Variable(vd) && vd.kind != VariableDeclarationKind::Var) ==> !stmt_var_binds(s, n),
        s matches Statement::Switch { cases, .. } ==> forall|c: int, i: int|
            0 <= c < cases.len() && 0 <= i < cases@[c].consequent.len() && stmt_var_binds(
                #[trigger] cases@[c].consequent@[i],
                n,
            ) ==> stmt_var_binds(s, n),
{
    assert forall|i: int| 0 <= i < nested_statements(s).len() && stmt_var_binds(#[trigger] nested_statements(s)[i], n) implies stmt_var_binds(s, n) by {
        match s {
            Statement::Block(ss) => {
                assert(stmt_var_binds(ss@[i], n));
                assert(stmts_var_bind(ss@, n));
            },
            Statement::If { consequent, alternate, .. } => {
                if i == 0 {
                    assert(nested_statements(s)[i] == *consequent);
                } else {
                    assert(alternate is Some);
                    assert(nested_statements(s)[i] == *alternate->0);
                }
            },
            Statement::Try { block, handler, finalizer } => {
                let hb = match handler {
                    Some(h) => h.body@,
                    None => Seq::<Statement>::empty(),
                };
                let fb = match finalizer {
                    Some(f) => f@,
                    None => Seq::<Statement>::empty(),
                };
                assert(nested_statements(s) == block@ + hb + fb);
                if i < block.len() {
                    assert(nested_statements(s)[i] == block@[i]);
                    assert(stmt_var_binds(block@[i], n));
                    assert(stmts_var_bind(block@, n));
                } else if i < block.len() + hb.len() {
                    assert(nested_statements(s)[i] == hb[i - block.len()]);
                    assert(stmt_var_binds(hb[i - block.len()], n));
                    assert(stmts_var_bind(hb, n));
                } else {
                    assert(nested_statements(s)[i] == fb[i - block.len() - hb.len()]);
                    assert(stmt_var_binds(fb[i - block.len() - hb.len()], n));
                    assert(stmts_var_bind(fb, n));
                }
            },
            _ => {},
        }
    }
    if let Statement::Switch { cases, .. } = s {
        assert forall|c: int, i: int|
            0 <= c < cases.len() && 0 <= i < cases@[c].consequent.len() && stmt_var_binds(
                #[trigger] cases@[c].consequent@[i],
                n,
            ) implies stmt_var_binds(s, n) by {
            assert(stmts_var_bind(cases@[c].consequent@, n));
        }
    }
}

/// Adds to `out` every name declared `var` in `stmts`.
#[verifier::loop_isolation(false)]
pub fn collect_var_names_stmt(stmts: &Vec<Statement>, out: &mut NameSet)
    ensures
        forall|n: Seq<char>| #[trigger] final(out)@.contains(n) == (old(out)@.contains(n) || stmts_var_bind(stmts@, n)),
    decreases stmts@,
{
    let mut i: usize = 0;
    while i < stmts.len()
        invariant
            i <= stmts@.len(),
            forall|n: Seq<char>| #[trigger] out@.contains(n) == (old(out)@.contains(n) || exists|j: int|
                0 <= j < i && stmt_var_binds(#[trigger] stmts@[j], n)),
        decreases stmts.len() - i,
    {
        collect_var_names_one(&stmts[i], out);
        assert forall|n: Seq<char>| #[trigger] out@.contains(n) == (old(out)@.contains(n) || exists|j: int|
            0 <= j < i + 1 && stmt_var_binds(#[trigger] stmts@[j], n)) by {
            if exists|j: int| 0 <= j < i + 1 && stmt_var_binds(#[trigger] stmts@[j], n) {
                let j = choose|j: int| 0 <= j < i + 1 && stmt_var_binds(#[trigger] stmts@[j], n);
                if j < i {
                }
            }
        }
        i += 1;
    }
}

/// Adds to `out` every name declared `var` within `stmt`.
#[verifier::loop_isolation(false)]
fn collect_var_names_one(stmt: &Statement, out: &mut NameSet)
    ensures
        forall|n: Seq<char>| #[trigger] final(out)@.contains(n) == (old(out)@.contains(n) || stmt_var_binds(*stmt, n)),
    decreases stmt,
{
    match stmt {
        Statement::Variable(vd) => {
            if vd.kind == VariableDeclarationKind::Var {
                collect_declarator_names(vd, out);
            }
        },
        Statement::Block(body) => collect_var_names_stmt(body, out),
        Statement::If { consequent, alternate, .. } => {
            collect_var_names_one(consequent, out);
            if let Some(a) = alternate {
                collect_var_names_one(a, out);
            }
        },
        Statement::While { body, .. } => collect_var_names_one(body, out),
        Statement::DoWhile { body, .. } => collect_var_names_one(body, out),
        Statement::For { init, body, .. } => {
            if let Some(ForInit::Variable(vd)) = init {
                if vd.kind == VariableDeclarationKind::Var {
                    collect_declarator_names(vd, out);
                }
            }
            collect_var_names_one(body, out);
        },
        Statement::ForIn { left, body, .. } => {
            if let ForLeft::Variable(vd) = left {
                if vd.kind == VariableDeclarationKind::Var {
                    collect_for_left_decl_names(left, out);
                }
            }
            collect_var_names_one(body, out);
        },
        Statement::ForOf { left, body, .. } => {
            if let ForLeft::Variable(vd) = left {
                if vd.kind == VariableDeclarationKind::Var {
                    collect_for_left_decl_names(left, out);
                }
            }
            collect_var_names_one(body, out);
        },
        Statement::Switch { cases, .. } => {
            let mut c: usize = 0;
            while c < cases.len()
                invariant
                    c <= cases@.len(),
                    forall|n: Seq<char>| #[trigger] out@.contains(n) == (old(out)@.contains(n) || exists|k: int|
                        0 <= k < c && stmts_var_bind(#[trigger] cases@[k].consequent@, n)),
                decreases cases.len() - c,
            {
                collect_var_names_stmt(&cases[c].consequent, out);
                assert forall|n: Seq<char>| #[trigger] out@.contains(n) == (old(out)@.contains(n) || exists|k: int|
                    0 <= k < c + 1 && stmts_var_bind(#[trigger] cases@[k].consequent@, n)) by {
                    if exists|k: int| 0 <= k < c + 1 && stmts_var_bind(#[trigger] cases@[k].consequent@, n) {
                        let k = choose|k: int| 0 <= k < c + 1 && stmts_var_bind(#[trigger] cases@[k].consequent@, n);
                        if k < c {
                        }
                    }
                }
                c += 1;
            }
        },
        Statement::Try { block, handler, finalizer } => {
            collect_var_names_stmt(block, out);
            if let Some(h) = handler {
                collect_var_names_stmt(&h.body, out);
            }
            if let Some(f) = finalizer {
                collect_var_names_stmt(f, out);
            }
        },
        Statement::Labeled { body, .. } => collect_var_names_one(body, out),
        Statement::With { body, .. } => collect_var_names_one(body, out),
        Statement::ExportNamed(exp) => {
            if let Some(Declaration::Variable(vd)) = &exp.declaration {
                if vd.kind == VariableDeclarationKind::Var {
                    collect_declarator_names(vd, out);
                }
            }
        },
        _ => {},
    }
}

/// The names declared `var` anywhere in a statement list (the names hoisted to
/// the function or program scope).
pub fn collect_var_binding_names(stmts: &Vec<Statement>) -> (names: NameSet)
    ensures
        forall|n: Seq<char>| #[trigger] names@.contains(n) == stmts_var_bind(stmts@, n),
{
    let mut names = NameSet::new();
    collect_var_names_stmt(stmts, &mut names);
    names
}


/// `id` names `n`.
pub open spec fn id_is(id: Option<String>, n: Seq<char>) -> bool {
    id matches Some(s) && s@ == n
}

/// The names of the function declarations that are direct children of `ss`,
/// in declaration order (duplicates kept).
pub open spec fn top_level_function_sequence(ss: Seq<Statement>) -> Seq<Seq<char>>
    decreases ss.len(),
{
    if ss.len() == 0 {
        Seq::empty()
    } else {
        let prefix = top_level_function_sequence(ss.drop_last());
        match ss.last() {
            Statement::Function(f) => match f.id {
                Some(id) => prefix.push(id@),
                None => prefix,
            },
            _ => prefix,
        }
    }
}

/// The names of the direct-child function declarations of `stmts`, in
/// declaration order.
pub fn collect_top_level_function_names_ordered(stmts: &Vec<Statement>) -> (names: Vec<String>)
    ensures
        names@.map_values(|s: String| s@) == top_level_function_sequence(stmts@),
{
    let mut names: Vec<String> = Vec::new();
    let mut i: usize = 0;
    while i < stmts.len()
        invariant
            i <= stmts@.len(),
            names@.map_values(|s: String| s@) == top_level_function_sequence(stmts@.take(i as int)),
        decreases stmts.len() - i,
    {
        assert(stmts@.take(i + 1).drop_last() =~= stmts@.take(i as int));
        let ghost prev = names@;
        if let Statement::Function(f) = &stmts[i] {
            if let Some(id) = &f.id {
                names.push(id.clone());
                assert(names@.map_values(|s: String| s@) =~= prev.map_values(|s: String| s@).push(id@));
            }
        }
        i += 1;
    }
    assert(stmts@.take(stmts@.len() as int) =~= stmts@);
    names
}

/// The names of the direct-child function declarations of `stmts`.
pub fn collect_top_level_function_names(stmts: &Vec<Statement>) -> (names: NameSet)
    ensures
        forall|n: Seq<char>| #[trigger] names@.contains(n) == top_level_function_sequence(stmts@).contains(n),
{
    let ordered = collect_top_level_function_names_ordered(stmts);
    let ghost views = ordered@.map_values(|s: String| s@);
    let mut names = NameSet::new();
    let mut i: usize = 0;
    while i < ordered.len()
        invariant
            i <= ordered@.len(),
            views == ordered@.map_values(|s: String| s@),
            forall|n: Seq<char>| #[trigger] names@.contains(n) == exists|j: int| 0 <= j < i && views[j] == n,
        decreases ordered.len() - i,
    {
        names.insert(ordered[i].as_str());
        assert forall|n: Seq<char>| #[trigger] names@.contains(n) == exists|j: int| 0 <= j < i + 1 && views[j] == n by {
            if n == ordered@[i as int]@ {
                assert(views[i as int] == n);
            }
            if exists|j: int| 0 <= j < i + 1 && views[j] == n {
                let j = choose|j: int| 0 <= j < i + 1 && views[j] == n;
                if j < i {
                }
            }
        }
        i += 1;
    }
    names
}


/// `n` is the local name of one of the import specifiers.
pub open spec fn import_binds(specifiers: Option<Vec<ImportSpecifier>>, n: Seq<char>) -> bool {
    specifiers matches Some(list) && exists|k: int| 0 <= k < list.len() && import_local(#[trigger] list@[k]) == n
}

/// The local binding name of an import specifier.
pub open spec fn import_local(s: ImportSpecifier) -> Seq<char> {
    match s {
        ImportSpecifier::Named { local, .. } => local@,
        ImportSpecifier::Default { local } => local@,
        ImportSpecifier::Namespace { local } => local@,
    }
}

/// `n` is declared in the current function scope by one of `ss` (variables of
/// every kind, functions, classes, imports and exports; nested blocks
/// included, nested functions excluded).
pub open spec fn stmts_declare(ss: Seq<Statement>, n: Seq<char>) -> bool
    decreases ss,
{
    exists|i: int| 0 <= i < ss.len() && stmt_declares(#[trigger] ss[i], n)
}

/// A C-style `for` head declares `n` as a plain identifier declarator.
pub open spec fn for_init_declares(init: Option<ForInit>, n: Seq<char>) -> bool {
    init matches Some(ForInit::Variable(vd)) && exists|d: int|
        0 <= d < vd.declarations.len() && (#[trigger] vd.declarations@[d].id matches BindingPattern::Identifier(s) && s@ == n)
}

/// `n` is declared in the current function scope by `s`.
pub open spec fn stmt_declares(s: Statement, n: Seq<char>) -> bool
    decreases s,
{
    match s {
        Statement::Variable(vd) => declaration_binds(vd, n),
        Statement::Function(f) => id_is(f.id, n),
        Statement::Class(c) => id_is(c.id, n),
        Statement::Import(imp) => import_binds(imp.specifiers, n),
        Statement::ExportNamed(exp) => match exp.declaration {
            Some(Declaration::Variable(vd)) => declaration_binds(vd, n),
            Some(Declaration::Function(f)) => id_is(f.id, n),
            Some(Declaration::Class(c)) => id_is(c.id, n),
            _ => false,
        },
        Statement::ExportDefault(kind) => match kind {
            ExportDefaultKind::Function(f) => id_is(f.id, n),
            ExportDefaultKind::Class(c) => id_is(c.id, n),
            ExportDefaultKind::Expression(_) => false,
        },
        Statement::Block(body) => stmts_declare(body@, n),
        Statement::If { consequent, alternate, .. } => stmt_declares(*consequent, n)
            || (alternate matches Some(a) && stmt_declares(*a, n)),
        Statement::While { body, .. } => stmt_declares(*body, n),
        Statement::DoWhile { body, .. } => stmt_declares(*body, n),
        Statement::For { init, body, .. } => for_init_declares(init, n) || stmt_declares(*body, n),
        Statement::ForIn { left, body, .. } => for_left_binds(left, n) || stmt_declares(*body, n),
        Statement::ForOf { left, body, .. } => for_left_binds(left, n) || stmt_declares(*body, n),
        Statement::Switch { cases, .. } => exists|c: int| 0 <= c < cases.len() && stmts_declare(#[trigger] cases@[c].consequent@, n),
        Statement::Try { block, handler, finalizer } => stmts_declare(block@, n)
            || (handler matches Some(h) && stmts_declare(h.body@, n))
            || (finalizer matches Some(f) && stmts_declare(f@, n)),
        Statement::Labeled { body, .. } => stmt_declares(*body, n),
        Statement::With { body, .. } => stmt_declares(*body, n),
        _ => false,
    }
}

/// Inserts the name of `id`, if any.
fn insert_id(id: &Option<String>, out: &mut NameSet)
    ensures
        forall|n: Seq<char>| #[trigger] final(out)@.contains(n) == (old(out)@.contains(n) || id_is(*id, n)),
{
    if let Some(s) = id {
        out.insert(s.as_str());
    }
}

/// Adds to `out` every name declared in the current function scope by `stmts`.
#[verifier::loop_isolation(false)]
pub fn collect_decl_names_stmt(stmts: &Vec<Statement>, out: &mut NameSet)
    ensures
        forall|n: Seq<char>| #[trigger] final(out)@.contains(n) == (old(out)@.contains(n) || stmts_declare(stmts@, n)),
    decreases stmts@,
{
    let mut i: usize = 0;
    while i < stmts.len()
        invariant
            i <= stmts@.len(),
            forall|n: Seq<char>| #[trigger] out@.contains(n) == (old(out)@.contains(n) || exists|j: int|
                0 <= j < i && stmt_declares(#[trigger] stmts@[j], n)),
        decreases stmts.len() - i,
    {
        collect_decl_names_one(&stmts[i], out);
        assert forall|n: Seq<char>| #[trigger] out@.contains(n) == (old(out)@.contains(n) || exists|j: int|
            0 <= j < i + 1 && stmt_declares(#[trigger] stmts@[j], n)) by {
            if exists|j: int| 0 <= j < i + 1 && stmt_declares(#[trigger] stmts@[j], n) {
                let j = choose|j: int| 0 <= j < i + 1 && stmt_declares(#[trigger] stmts@[j], n);
                if j < i {
                }
            }
        }
        i += 1;
    }
}

/// Adds to `out` every name declared in the current function scope by `stmt`.
#[verifier::loop_isolation(false)]
fn collect_decl_names_one(stmt: &Statement, out: &mut NameSet)
    ensures
        forall|n: Seq<char>| #[trigger] final(out)@.contains(n) == (old(out)@.contains(n) || stmt_declares(*stmt, n)),
    decreases stmt,
{
    match stmt {
        Statement::Variable(vd) => collect_declarator_names(vd, out),
        Statement::Function(f) => insert_id(&f.id, out),
        Statement::Class(c) => insert_id(&c.id, out),
        Statement::Import(imp) => {
            if let Some(list) = &imp.specifiers {
                let mut k: usize = 0;
                while k < list.len()
                    invariant
                        k <= list@.len(),
                        forall|n: Seq<char>| #[trigger] out@.contains(n) == (old(out)@.contains(n) || exists|j: int|
                            0 <= j < k && import_local(#[trigger] list@[j]) == n),
                    decreases list.len() - k,
                {
                    match &list[k] {
                        ImportSpecifier::Named { local, .. } => out.insert(local.as_str()),
                        ImportSpecifier::Default { local } => out.insert(local.as_str()),
                        ImportSpecifier::Namespace { local } => out.insert(local.as_str()),
                    }
                    assert forall|n: Seq<char>| #[trigger] out@.contains(n) == (old(out)@.contains(n) || exists|j: int|
                        0 <= j < k + 1 && import_local(#[trigger] list@[j]) == n) by {
                        if n == import_local(list@[k as int]) {
                        }
                        if exists|j: int| 0 <= j < k + 1 && import_local(#[trigger] list@[j]) == n {
                            let j = choose|j: int| 0 <= j < k + 1 && import_local(#[trigger] list@[j]) == n;
                            if j < k {
                            }
                        }
                    }
                    k += 1;
                }
            }
        },
        Statement::ExportNamed(exp) => {
            match &exp.declaration {
                Some(Declaration::Variable(vd)) => collect_declarator_names(vd, out),
                Some(Declaration::Function(f)) => insert_id(&f.id, out),
                Some(Declaration::Class(c)) => insert_id(&c.id, out),
                _ => {},
            }
        },
        Statement::ExportDefault(kind) => {
            match kind {
                ExportDefaultKind::Function(f) => insert_id(&f.id, out),
                ExportDefaultKind::Class(c) => insert_id(&c.id, out),
                ExportDefaultKind::Expression(_) => {},
            }
        },
        Statement::Block(body) => collect_decl_names_stmt(body, out),
        Statement::If { consequent, alternate, .. } => {
            collect_decl_names_one(consequent, out);
            if let Some(a) = alternate {
                collect_decl_names_one(a, out);
            }
        },
        Statement::While { body, .. } => collect_decl_names_one(body, out),
        Statement::DoWhile { body, .. } => collect_decl_names_one(body, out),
        Statement::For { init, body, .. } => {
            if let Some(ForInit::Variable(vd)) = init {
                let mut d: usize = 0;
                while d < vd.declarations.len()
                    invariant
                        d <= vd.declarations@.len(),
                        forall|n: Seq<char>| #[trigger] out@.contains(n) == (old(out)@.contains(n) || exists|j: int|
                            0 <= j < d && (#[trigger] vd.declarations@[j].id matches BindingPattern::Identifier(s) && s@ == n)),
                    decreases vd.declarations.len() - d,
                {
                    if let BindingPattern::Identifier(s) = &vd.declarations[d].id {
                        out.insert(s.as_str());
                    }
                    assert forall|n: Seq<char>| #[trigger] out@.contains(n) == (old(out)@.contains(n) || exists|j: int|
                        0 <= j < d + 1 && (#[trigger] vd.declarations@[j].id matches BindingPattern::Identifier(s) && s@ == n)) by {
                        if exists|j: int| 0 <= j < d + 1 && (#[trigger] vd.declarations@[j].id matches BindingPattern::Identifier(s) && s@ == n) {
                            let j = choose|j: int| 0 <= j < d + 1 && (#[trigger] vd.declarations@[j].id matches BindingPattern::Identifier(s) && s@ == n);
                            if j < d {
                            }
                        }
                    }
                    d += 1;
                }
            }
            collect_decl_names_one(body, out);
        },
        Statement::ForIn { left, body, .. } => {
            collect_for_left_decl_names(left, out);
            collect_decl_names_one(body, out);
        },
        Statement::ForOf { left, body, .. } => {
            collect_for_left_decl_names(left, out);
            collect_decl_names_one(body, out);
        },
        Statement::Switch { cases, .. } => {
            let mut c: usize = 0;
            while c < cases.len()
                invariant
                    c <= cases@.len(),
                    forall|n: Seq<char>| #[trigger] out@.contains(n) == (old(out)@.contains(n) || exists|k: int|
                        0 <= k < c && stmts_declare(#[trigger] cases@[k].consequent@, n)),
                decreases cases.len() - c,
            {
                collect_decl_names_stmt(&cases[c].consequent, out);
                assert forall|n: Seq<char>| #[trigger] out@.contains(n) == (old(out)@.contains(n) || exists|k: int|
                    0 <= k < c + 1 && stmts_declare(#[trigger] cases@[k].consequent@, n)) by {
                    if exists|k: int| 0 <= k < c + 1 && stmts_declare(#[trigger] cases@[k].consequent@, n) {
                        let k = choose|k: int| 0 <= k < c + 1 && stmts_declare(#[trigger] cases@[k].consequent@, n);
                        if k < c {
                        }
                    }
                }
                c += 1;
            }
        },
        Statement::Try { block, handler, finalizer } => {
            collect_decl_names_stmt(block, out);
            if let Some(h) = handler {
                collect_decl_names_stmt(&h.body, out);
            }
            if let Some(f) = finalizer {
                collect_decl_names_stmt(f, out);
            }
        },
        Statement::Labeled { body, .. } => collect_decl_names_one(body, out),
        Statement::With { body, .. } => collect_decl_names_one(body, out),
        _ => {},
    }
}

/// `n` belongs to the current function scope: it is one of `params` or is
/// declared by `stmts`.
pub open spec fn own_binds(params: Seq<&str>, stmts: Seq<Statement>, n: Seq<char>) -> bool {
    (exists|k: int| 0 <= k < params.len() && #[trigger] params[k]@ == n) || stmts_declare(stmts, n)
}

/// The names bound by the current function scope: the given parameter names
/// and every name that `stmts` declares.
pub fn collect_own_binding_names(param_names: &[&str], stmts: &Vec<Statement>) -> (names: NameSet)
    ensures
        forall|n: Seq<char>| #[trigger] names@.contains(n) == own_binds(param_names@, stmts@, n),
{
    let mut names = NameSet::new();
    let mut k: usize = 0;
    while k < param_names.len()
        invariant
            k <= param_names@.len(),
            forall|n: Seq<char>| #[trigger] names@.contains(n) == exists|j: int| 0 <= j < k && #[trigger] param_names@[j]@ == n,
        decreases param_names.len() - k,
    {
        names.insert(param_names[k]);
        assert forall|n: Seq<char>| #[trigger] names@.contains(n) == exists|j: int| 0 <= j < k + 1 && #[trigger] param_names@[j]@ == n by {
            if n == param_names@[k as int]@ {
            }
            if exists|j: int| 0 <= j < k + 1 && #[trigger] param_names@[j]@ == n {
                let j = choose|j: int| 0 <= j < k + 1 && #[trigger] param_names@[j]@ == n;
                if j < k {
                }
            }
        }
        k += 1;
    }
    collect_decl_names_stmt(stmts, &mut names);
    names
}

} // verus!
