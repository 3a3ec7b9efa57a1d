//! Block-level function names: the function declarations nested in blocks,
//! branches, loops, `switch` cases and `try` parts (not in nested functions),
//! for which an outer `var` binding is instantiated, and the names that
//! suppress that outer binding (parameters and lexical declarations).
use vstd::prelude::*;
use crate::ast::{Declaration, ForInit, ForLeft, Statement, SwitchCase, VariableDeclarationKind};
use crate::cells::views;
use crate::names::{collect_binding_pattern_names, collect_declarator_names, declaration_binds, id_is, pattern_binds};
use crate::nameset::NameSet;
use crate::text::str_eq;

verus! {

/// The names of block-level function declarations in `ss`, in source order,
/// duplicates kept. With `block` false the direct children of `ss` are not
/// block-level (they are hoisted declarations of the function body itself).
pub open spec fn stmts_block_fns(ss: Seq<Statement>, block: bool) -> Seq<Seq<char>>
    decreases ss,
{
    if ss.len() == 0 {
        Seq::empty()
    } else {
        stmts_block_fns(ss.subrange(0, ss.len() - 1), block) + stmt_block_fns(ss[ss.len() - 1], block)
    }
}

/// The block-level function names within the `switch` cases `cs`, in order.
pub open spec fn cases_block_fns(cs: Seq<SwitchCase>) -> Seq<Seq<char>>
    decreases cs,
{
    if cs.len() == 0 {
        Seq::empty()
    } else {
        cases_block_fns(cs.subrange(0, cs.len() - 1)) + stmts_block_fns(cs[cs.len() - 1].consequent@, true)
    }
}

/// The block-level function names within `s`, in source order.
pub open spec fn stmt_block_fns(s: Statement, block: bool) -> Seq<Seq<char>>
    decreases s,
{
    match s {
        Statement::Function(f) => match f.id {
            Some(id) => if block {
                seq![id@]
            } else {
                Seq::empty()
            },
            None => Seq::empty(),
        },
        Statement::Block(body) => stmts_block_fns(body@, true),
        Statement::If { consequent, alternate, .. } => stmt_block_fns(*consequent, true) + match alternate {
            Some(a) => stmt_block_fns(*a, true),
            None => Seq::empty(),
        },
        Statement::While { body, .. } => stmt_block_fns(*body, true),
        Statement::DoWhile { body, .. } => stmt_block_fns(*body, true),
        Statement::For { body, .. } => stmt_block_fns(*body, true),
        Statement::ForIn { body, .. } => stmt_block_fns(*body, true),
        Statement::ForOf { body, .. } => stmt_block_fns(*body, true),
        Statement::Switch { cases, .. } => cases_block_fns(cases@),
        Statement::Try { block: b, handler, finalizer } => stmts_block_fns(b@, true) + match handler {
            Some(h) => stmts_block_fns(h.body@, true),
            None => Seq::empty(),
        } + match finalizer {
            Some(f) => stmts_block_fns(f@, true),
            None => Seq::empty(),
        },
        Statement::Labeled { body, .. } => stmt_block_fns(*body, true),
        Statement::With { body, .. } => stmt_block_fns(*body, true),
        _ => Seq::empty(),
    }
}

/// Appends the elements of `s` to `d` in order, skipping each one already present.
pub open spec fn dedup_from(d: Seq<Seq<char>>, s: Seq<Seq<char>>) -> Seq<Seq<char>>
    decreases s.len(),
{
    if s.len() == 0 {
        d
    } else {
        let prefix = dedup_from(d, s.drop_last());
        if prefix.contains(s.last()) {
            prefix
        } else {
            prefix.push(s.last())
        }
    }
}

/// No element occurs twice.
pub open spec fn no_duplicates(s: Seq<Seq<char>>) -> bool {
    forall|i: int, j: int| 0 <= i < j < s.len() ==> #[trigger] s[i] != #[trigger] s[j]
}

/// Deduplicating `s1 + s2` is deduplicating `s1`, then `s2` onto the result.
pub proof fn lemma_dedup_from_concat(d: Seq<Seq<char>>, s1: Seq<Seq<char>>, s2: Seq<Seq<char>>)
    ensures
        dedup_from(d, s1 + s2) == dedup_from(dedup_from(d, s1), s2),
    decreases s2.len(),
{
    if s2.len() == 0 {
        assert(s1 + s2 =~= s1);
    } else {
        assert((s1 + s2).drop_last() =~= s1 + s2.drop_last());
        assert((s1 + s2).last() == s2.last());
        lemma_dedup_from_concat(d, s1, s2.drop_last());
    }
}

/// Deduplication keeps a duplicate-free prefix duplicate-free, and holds
/// exactly the elements of both sequences.
pub proof fn lemma_dedup_from_contents(d: Seq<Seq<char>>, s: Seq<Seq<char>>)
    requires
        no_duplicates(d),
    ensures
        no_duplicates(dedup_from(d, s)),
        forall|n: Seq<char>| #[trigger] dedup_from(d, s).contains(n) <==> (d.contains(n) || s.contains(n)),
    decreases s.len(),
{
    if s.len() > 0 {
        lemma_dedup_from_contents(d, s.drop_last());
        let prefix = dedup_from(d, s.drop_last());
        assert forall|n: Seq<char>| #[trigger] dedup_from(d, s).contains(n) <==> (d.contains(n) || s.contains(n)) by {
            if s.contains(n) {
                let k = choose|k: int| 0 <= k < s.len() && s[k] == n;
                if k < s.len() - 1 {
                    assert(s.drop_last()[k] == n);
                    assert(prefix.contains(n));
                }
            }
            if s.drop_last().contains(n) {
                let k = choose|k: int| 0 <= k < s.drop_last().len() && s.drop_last()[k] == n;
                assert(s[k] == n);
            }
            if !prefix.contains(s.last()) {
                if prefix.push(s.last()).contains(n) {
                    let k = choose|k: int| 0 <= k < prefix.push(s.last()).len() && prefix.push(s.last())[k] == n;
                    if k < prefix.len() {
                        assert(prefix[k] == n);
                    }
                }
                if prefix.contains(n) {
                    let k = choose|k: int| 0 <= k < prefix.len() && prefix[k] == n;
                    assert(prefix.push(s.last())[k] == n);
                }
                assert(prefix.push(s.last())[prefix.len() as int] == s.last());
            }
        }
    }
}

/// Appends `name` unless it is already present.
#[verifier::loop_isolation(false)]
pub fn push_unique(names: &mut Vec<String>, name: &str)
    ensures
        views(final(names)@) == dedup_from(views(old(names)@), seq![name@]),
{
    proof {
        assert(seq![name@].drop_last() =~= Seq::<Seq<char>>::empty());
        assert(dedup_from(views(old(names)@), seq![name@].drop_last()) == views(old(names)@));
        assert(seq![name@].last() == name@);
    }
    let mut i: usize = 0;
    while i < names.len()
        invariant
            i <= names@.len(),
            names@ == old(names)@,
            forall|j: int| 0 <= j < i ==> #[trigger] names@[j]@ != name@,
        decreases names.len() - i,
    {
        if str_eq(names[i].as_str(), name) {
            assert(views(names@)[i as int] == name@);
            assert(views(old(names)@).contains(name@));
            return;
        }
        i += 1;
    }
    let ghost before = views(names@);
    assert(!before.contains(name@)) by {
        if before.contains(name@) {
            let k = choose|k: int| 0 <= k < before.len() && before[k] == name@;
            assert(names@[k]@ == name@);
        }
    }
    names.push(name.to_owned());
    assert(views(names@) =~= before.push(name@));
}

/// Appends to `names` the block-level function names of `stmts`, in source
/// order, skipping names already present.
#[verifier::loop_isolation(false)]
fn collect_block_fns_stmts(stmts: &Vec<Statement>, names: &mut Vec<String>, block: bool)
    ensures
        views(final(names)@) == dedup_from(views(old(names)@), stmts_block_fns(stmts@, block)),
    decreases stmts@,
{
    let mut i: usize = 0;
    assert(stmts@.take(0) =~= Seq::<Statement>::empty());
    while i < stmts.len()
        invariant
            i <= stmts@.len(),
            views(names@) == dedup_from(views(old(names)@), stmts_block_fns(stmts@.take(i as int), block)),
        decreases stmts.len() - i,
    {
        proof {
            assert(decreases_to!(stmts@ => stmts@[i as int]));
            let t = stmts@.take(i + 1);
            assert(t.subrange(0, t.len() - 1) =~= stmts@.take(i as int));
            assert(t[t.len() - 1] == stmts@[i as int]);
            lemma_dedup_from_concat(
                views(old(names)@),
                stmts_block_fns(stmts@.take(i as int), block),
                stmt_block_fns(stmts@[i as int], block),
            );
        }
        collect_block_fns_stmt(&stmts[i], names, block);
        i += 1;
    }
    assert(stmts@.take(stmts@.len() as int) =~= stmts@);
}

/// Appends to `names` the block-level function names of `stmt`.
#[verifier::loop_isolation(false)]
fn collect_block_fns_stmt(stmt: &Statement, names: &mut Vec<String>, block: bool)
    ensures
        views(final(names)@) == dedup_from(views(old(names)@), stmt_block_fns(*stmt, block)),
    decreases stmt,
{
    let ghost d0 = views(names@);
    match stmt {
        Statement::Function(f) => {
            if block {
                if let Some(id) = &f.id {
                    push_unique(names, id.as_str());
                    return;
                }
            }
            assert(dedup_from(d0, Seq::empty()) == d0);
        },
        Statement::Block(body) => collect_block_fns_stmts(body, names, true),
        Statement::If { consequent, alternate, .. } => {
            collect_block_fns_stmt(consequent, names, true);
            let ghost d1 = views(names@);
            match alternate {
                Some(a) => collect_block_fns_stmt(a, names, true),
                None => {},
            }
            proof {
                let alt = match alternate {
                    Some(a) => stmt_block_fns(**a, true),
                    None => Seq::empty(),
                };
                lemma_dedup_from_concat(d0, stmt_block_fns(**consequent, true), alt);
            }
        },
        Statement::While { body, .. } => collect_block_fns_stmt(body, names, true),
        Statement::DoWhile { body, .. } => collect_block_fns_stmt(body, names, true),
        Statement::For { body, .. } => collect_block_fns_stmt(body, names, true),
        Statement::ForIn { body, .. } => collect_block_fns_stmt(body, names, true),
        Statement::ForOf { body, .. } => collect_block_fns_stmt(body, names, true),
        Statement::Switch { cases, .. } => {
            let mut c: usize = 0;
            assert(cases@.take(0) =~= Seq::<SwitchCase>::empty());
            while c < cases.len()
                invariant
                    c <= cases@.len(),
                    views(names@) == dedup_from(d0, cases_block_fns(cases@.take(c as int))),
                decreases cases.len() - c,
            {
                proof {
                    assert(decreases_to!(*stmt => cases@[c as int].consequent));
                    let t = cases@.take(c + 1);
                    assert(t.subrange(0, t.len() - 1) =~= cases@.take(c as int));
                    assert(t[t.len() - 1] == cases@[c as int]);
                    lemma_dedup_from_concat(
                        d0,
                        cases_block_fns(cases@.take(c as int)),
                        stmts_block_fns(cases@[c as int].consequent@, true),
                    );
                }
                collect_block_fns_stmts(&cases[c].consequent, names, true);
                c += 1;
            }
            assert(cases@.take(cases@.len() as int) =~= cases@);
        },
        Statement::Try { block: b, handler, finalizer } => {
            collect_block_fns_stmts(b, names, true);
            match handler {
                Some(h) => collect_block_fns_stmts(&h.body, names, true),
                None => {},
            }
            match finalizer {
                Some(f) => collect_block_fns_stmts(f, names, true),
                None => {},
            }
            proof {
                let hs = match handler {
                    Some(h) => stmts_block_fns(h.body@, true),
                    None => Seq::empty(),
                };
                let fs = match finalizer {
                    Some(f) => stmts_block_fns(f@, true),
                    None => Seq::empty(),
                };
                lemma_dedup_from_concat(d0, stmts_block_fns(b@, true), hs);
                lemma_dedup_from_concat(d0, stmts_block_fns(b@, true) + hs, fs);
            }
        },
        Statement::Labeled { body, .. } => collect_block_fns_stmt(body, names, true),
        Statement::With { body, .. } => collect_block_fns_stmt(body, names, true),
        _ => {
            assert(dedup_from(d0, Seq::empty()) == d0);
        },
    }
}

/// The block-level function names of a function body or program, in source
/// order, each once. The direct children of `statements` are hoisted
/// declarations, not block-level; nested function bodies are not entered.
pub fn collect_block_function_names(statements: &Vec<Statement>) -> (names: Vec<String>)
    ensures
        views(names@) == dedup_from(Seq::empty(), stmts_block_fns(statements@, false)),
        no_duplicates(views(names@)),
        forall|n: Seq<char>| #[trigger] views(names@).contains(n) <==> stmts_block_fns(statements@, false).contains(n),
{
    let mut names: Vec<String> = Vec::new();
    assert(views(names@) =~= Seq::<Seq<char>>::empty());
    collect_block_fns_stmts(statements, &mut names, false);
    proof {
        lemma_dedup_from_contents(Seq::empty(), stmts_block_fns(statements@, false));
    }
    names
}


/// `vd` is a `let`/`const` declaration that binds `n`.
pub open spec fn lexical_declaration_binds(vd: crate::ast::VariableDeclaration, n: Seq<char>) -> bool {
    !(vd.kind is Var) && declaration_binds(vd, n)
}

/// `n` is declared lexically somewhere in the statement tree `ss`: by
/// `let`/`const` (destructuring leaves included), a class declaration, a
/// lexical `for` head or a `catch` parameter. Nested function bodies and
/// class bodies are not entered; `var` declarations do not count.
pub open spec fn stmts_lexical(ss: Seq<Statement>, n: Seq<char>) -> bool
    decreases ss,
{
    exists|i: int| 0 <= i < ss.len() && stmt_lexical(#[trigger] ss[i], n)
}

/// `n` is declared lexically somewhere in the statement `s`.
pub open spec fn stmt_lexical(s: Statement, n: Seq<char>) -> bool
    decreases s,
{
    match s {
        Statement::Variable(vd) => lexical_declaration_binds(vd, n),
        Statement::Class(c) => id_is(c.id, n),
        Statement::For { init, body, .. } => (init matches Some(ForInit::Variable(vd)) && lexical_declaration_binds(vd, n))
            || stmt_lexical(*body, n),
        Statement::ForIn { left, body, .. } => (left matches ForLeft::Variable(vd) && lexical_declaration_binds(vd, n))
            || stmt_lexical(*body, n),
        Statement::ForOf { left, body, .. } => (left matches ForLeft::Variable(vd) && lexical_declaration_binds(vd, n))
            || stmt_lexical(*body, n),
        Statement::Try { block, handler, finalizer } => (handler matches Some(h) && ((h.param matches Some(p)
            && pattern_binds(p, n)) || stmts_lexical(h.body@, n))) || stmts_lexical(block@, n) || (finalizer matches Some(
            f,
        ) && stmts_lexical(f@, n)),
        Statement::Block(body) => stmts_lexical(body@, n),
        Statement::If { consequent, alternate, .. } => stmt_lexical(*consequent, n) || (alternate matches Some(a)
            && stmt_lexical(*a, n)),
        Statement::While { body, .. } => stmt_lexical(*body, n),
        Statement::DoWhile { body, .. } => stmt_lexical(*body, n),
        Statement::Switch { cases, .. } => exists|c: int|
            0 <= c < cases.len() && stmts_lexical(#[trigger] cases@[c].consequent@, n),
        Statement::Labeled { body, .. } => stmt_lexical(*body, n),
        Statement::With { body, .. } => stmt_lexical(*body, n),
        Statement::ExportNamed(exp) => exp.declaration matches Some(Declaration::Variable(vd))
            && lexical_declaration_binds(vd, n),
        _ => false,
    }
}

/// Adds the names a `let`/`const` declaration binds; a `var` declaration adds none.
fn collect_lexical_declaration(vd: &crate::ast::VariableDeclaration, out: &mut NameSet)
    ensures
        forall|n: Seq<char>| #[trigger] final(out)@.contains(n) == (old(out)@.contains(n) || lexical_declaration_binds(*vd, n)),
{
    match vd.kind {
        VariableDeclarationKind::Var => {},
        _ => collect_declarator_names(vd, out),
    }
}

/// Adds to `names` the lexically declared names of the statement tree `stmts`.
#[verifier::loop_isolation(false)]
pub fn collect_lexical_name_suppressions(stmts: &Vec<Statement>, names: &mut NameSet)
    ensures
        forall|n: Seq<char>| #[trigger] final(names)@.contains(n) == (old(names)@.contains(n) || stmts_lexical(stmts@, n)),
    decreases stmts@,
{
    let mut i: usize = 0;
    while i < stmts.len()
        invariant
            i <= stmts@.len(),
            forall|n: Seq<char>| #[trigger] names@.contains(n) == (old(names)@.contains(n) || exists|j: int|
                0 <= j < i && stmt_lexical(#[trigger] stmts@[j], n)),
        decreases stmts.len() - i,
    {
        proof {
            assert(decreases_to!(stmts@ => stmts@[i as int]));
        }
        collect_lexical_stmt(&stmts[i], names);
        assert forall|n: Seq<char>| #[trigger] names@.contains(n) == (old(names)@.contains(n) || exists|j: int|
            0 <= j < i + 1 && stmt_lexical(#[trigger] stmts@[j], n)) by {
            if exists|j: int| 0 <= j < i + 1 && stmt_lexical(#[trigger] stmts@[j], n) {
                let j = choose|j: int| 0 <= j < i + 1 && stmt_lexical(#[trigger] stmts@[j], n);
                if j < i {
                }
            }
        }
        i += 1;
    }
}

/// Adds to `names` the lexically declared names of `stmt`.
#[verifier::loop_isolation(false)]
fn collect_lexical_stmt(stmt: &Statement, names: &mut NameSet)
    ensures
        forall|n: Seq<char>| #[trigger] final(names)@.contains(n) == (old(names)@.contains(n) || stmt_lexical(*stmt, n)),
    decreases stmt,
{
    match stmt {
        Statement::Variable(vd) => collect_lexical_declaration(vd, names),
        Statement::Class(c) => {
            if let Some(id) = &c.id {
                names.insert(id.as_str());
            }
        },
        Statement::For { init, body, .. } => {
            if let Some(ForInit::Variable(vd)) = init {
                collect_lexical_declaration(vd, names);
            }
            collect_lexical_stmt(body, names);
        },
        Statement::ForIn { left, body, .. } => {
            if let ForLeft::Variable(vd) = left {
                collect_lexical_declaration(vd, names);
            }
            collect_lexical_stmt(body, names);
        },
        Statement::ForOf { left, body, .. } => {
            if let ForLeft::Variable(vd) = left {
                collect_lexical_declaration(vd, names);
            }
            collect_lexical_stmt(body, names);
        },
        Statement::Try { block, handler, finalizer } => {
            if let Some(h) = handler {
                if let Some(p) = &h.param {
                    let ghost before = names@;
                    collect_binding_pattern_names(p, names);
                    assert forall|n: Seq<char>| #[trigger] names@.contains(n) == (before.contains(n) || pattern_binds(*p, n)) by {
                        assert(crate::names::pattern_names(*p).contains(n) == pattern_binds(*p, n));
                    }
                }
                collect_lexical_name_suppressions(&h.body, names);
            }
            collect_lexical_name_suppressions(block, names);
            if let Some(f) = finalizer {
                collect_lexical_name_suppressions(f, names);
            }
        },
        Statement::Block(body) => collect_lexical_name_suppressions(body, names),
        Statement::If { consequent, alternate, .. } => {
            collect_lexical_stmt(consequent, names);
            if let Some(a) = alternate {
                collect_lexical_stmt(a, names);
            }
        },
        Statement::While { body, .. } => collect_lexical_stmt(body, names),
        Statement::DoWhile { body, .. } => collect_lexical_stmt(body, names),
        Statement::Switch { cases, .. } => {
            let mut c: usize = 0;
            while c < cases.len()
                invariant
                    c <= cases@.len(),
                    forall|n: Seq<char>| #[trigger] names@.contains(n) == (old(names)@.contains(n) || exists|j: int|
                        0 <= j < c && stmts_lexical(#[trigger] cases@[j].consequent@, n)),
                decreases cases.len() - c,
            {
                proof {
                    assert(decreases_to!(*stmt => cases@[c as int].consequent));
                }
                collect_lexical_name_suppressions(&cases[c].consequent, names);
                assert forall|n: Seq<char>| #[trigger] names@.contains(n) == (old(names)@.contains(n) || exists|j: int|
                    0 <= j < c + 1 && stmts_lexical(#[trigger] cases@[j].consequent@, n)) by {
                    if exists|j: int| 0 <= j < c + 1 && stmts_lexical(#[trigger] cases@[j].consequent@, n) {
                        let j = choose|j: int| 0 <= j < c + 1 && stmts_lexical(#[trigger] cases@[j].consequent@, n);
                        if j < c {
                        }
                    }
                }
                c += 1;
            }
        },
        Statement::Labeled { body, .. } => collect_lexical_stmt(body, names),
        Statement::With { body, .. } => collect_lexical_stmt(body, names),
        Statement::ExportNamed(exp) => {
            if let Some(Declaration::Variable(vd)) = &exp.declaration {
                collect_lexical_declaration(vd, names);
            }
        },
        _ => {},
    }
}

/// The names for which a block-level function gets no outer `var` binding:
/// the parameter names together with every lexically declared name of the
/// statement tree.
pub fn collect_block_fn_suppressed_names(statements: &Vec<Statement>, param_names: &NameSet) -> (names: NameSet)
    ensures
        forall|n: Seq<char>| #[trigger] names@.contains(n) == (param_names@.contains(n) || stmts_lexical(statements@, n)),
{
    let mut names = param_names.copy();
    collect_lexical_name_suppressions(statements, &mut names);
    names
}

} // verus!
