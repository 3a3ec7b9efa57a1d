//! Linking an ES module: the dependencies it names, what to do with each
//! resolved dependency, the initial values of its import bindings, the link
//! checks of its re-exports, the re-exports themselves, and the closing of
//! its body. Dependencies are evaluated before the body and imports are
//! bound to snapshots of their namespaces' values.
use vstd::prelude::*;
use vstd::string::StringExecFns;
use crate::ast::{ExportAllDeclaration, ExportNamedDeclaration, ExportSpecifier, ImportAttribute, ImportSpecifier, Statement};
use crate::block_fn::{dedup_from, lemma_dedup_from_contents, no_duplicates};
use crate::ctx::{CompileCtx, ConstKey, EmitState};
use crate::emit_ops::{emitted, load_const_state, module_call_state};
use crate::emitter::Emitter;
use crate::inst::{Inst, OpCode, Operand};
use crate::module::{module_attributes, ModuleKind, ResolvedModule, DEFAULT_EXPORT_NAME};
use crate::nameset::NameSet;
use crate::text::str_eq;

verus! {

/// The module a statement of a module body depends on: the source of an
/// import, of an export list with `from`, or of `export *`.
pub open spec fn dep_source(s: Statement) -> Option<Seq<char>> {
    match s {
        Statement::Import(imp) => Some(imp.source@),
        Statement::ExportNamed(exp) => match exp.source {
            Some(src) => Some(src@),
            None => None,
        },
        Statement::ExportAll(exp) => Some(exp.source@),
        _ => None,
    }
}

/// The import attributes (`with` clause) of a statement that names a dependency.
pub open spec fn dep_attributes(s: Statement) -> Seq<ImportAttribute> {
    match s {
        Statement::Import(imp) => imp.attributes@,
        Statement::ExportNamed(exp) => exp.attributes@,
        Statement::ExportAll(exp) => exp.attributes@,
        _ => Seq::empty(),
    }
}

/// The dependency sources of a module body, in order, repeats included.
pub open spec fn dependency_sources(body: Seq<Statement>) -> Seq<Seq<char>>
    decreases body.len(),
{
    if body.len() == 0 {
        Seq::empty()
    } else {
        let prev = dependency_sources(body.drop_last());
        match dep_source(body.last()) {
            Some(src) => prev.push(src),
            None => prev,
        }
    }
}

/// Key/value pairs of import attributes as mathematical values.
pub open spec fn attribute_pairs(a: Seq<ImportAttribute>) -> Seq<(Seq<char>, Seq<char>)> {
    Seq::new(a.len(), |i: int| (a[i].key@, a[i].value@))
}

/// Key/value pairs of strings as mathematical values.
pub open spec fn pair_views(v: Seq<(String, String)>) -> Seq<(Seq<char>, Seq<char>)> {
    Seq::new(v.len(), |i: int| (v[i].0@, v[i].1@))
}

/// The specifiers of a dependency list.
pub open spec fn dep_names(d: Seq<(String, Vec<(String, String)>)>) -> Seq<Seq<char>> {
    Seq::new(d.len(), |i: int| d[i].0@)
}

/// Statement `j` is the first of `body` to name dependency `src`.
pub open spec fn first_naming(body: Seq<Statement>, j: int, src: Seq<char>) -> bool {
    &&& 0 <= j < body.len()
    &&& dep_source(body[j]) == Some(src)
    &&& forall|k: int| 0 <= k < j ==> dep_source(#[trigger] body[k]) != Some(src)
}

/// A source occurs among the dependency sources exactly when some statement names it.
proof fn lemma_dependency_sources_contains(body: Seq<Statement>, n: Seq<char>)
    ensures
        dependency_sources(body).contains(n) <==> exists|k: int| 0 <= k < body.len() && dep_source(#[trigger] body[k]) == Some(n),
    decreases body.len(),
{
    if body.len() > 0 {
        let prev = body.drop_last();
        lemma_dependency_sources_contains(prev, n);
        let ds = dependency_sources(body);
        let dp = dependency_sources(prev);
        if exists|k: int| 0 <= k < body.len() && dep_source(#[trigger] body[k]) == Some(n) {
            let k = choose|k: int| 0 <= k < body.len() && dep_source(#[trigger] body[k]) == Some(n);
            if k < body.len() - 1 {
                assert(prev[k] == body[k]);
                let w = choose|w: int| 0 <= w < dp.len() && dp[w] == n;
                assert(ds[w] == n);
            } else {
                assert(ds[ds.len() - 1] == n);
            }
        }
        if ds.contains(n) {
            let w = choose|w: int| 0 <= w < ds.len() && ds[w] == n;
            if w < dp.len() {
                assert(dp[w] == n);
                let k = choose|k: int| 0 <= k < prev.len() && dep_source(#[trigger] prev[k]) == Some(n);
                assert(body[k] == prev[k]);
            } else {
                assert(dep_source(body[body.len() - 1]) == Some(n));
            }
        }
    }
}

/// The dependencies of a module body, each once, in order of first mention
/// (imports, export lists with `from`, `export *`), with the import
/// attributes of that first mention.
pub fn module_dependencies(body: &Vec<Statement>) -> (deps: Vec<(String, Vec<(String, String)>)>)
    ensures
        dep_names(deps@) == dedup_from(Seq::empty(), dependency_sources(body@)),
        no_duplicates(dep_names(deps@)),
        forall|n: Seq<char>| #[trigger] dep_names(deps@).contains(n) <==> exists|k: int|
            0 <= k < body@.len() && dep_source(#[trigger] body@[k]) == Some(n),
        forall|q: int| #![trigger deps@[q]] 0 <= q < deps@.len() ==> exists|j: int|
            first_naming(body@, j, deps@[q].0@) && pair_views(deps@[q].1@) == attribute_pairs(dep_attributes(#[trigger] body@[j])),
{
    let mut deps: Vec<(String, Vec<(String, String)>)> = Vec::new();
    let mut i: usize = 0;
    assert(dep_names(deps@) =~= Seq::<Seq<char>>::empty());
    assert(body@.take(0) =~= Seq::<Statement>::empty());
    while i < body.len()
        invariant
            i <= body@.len(),
            dep_names(deps@) == dedup_from(Seq::empty(), dependency_sources(body@.take(i as int))),
            forall|q: int| #![trigger deps@[q]] 0 <= q < deps@.len() ==> exists|j: int|
                first_naming(body@, j, deps@[q].0@) && j < i && pair_views(deps@[q].1@) == attribute_pairs(
                    dep_attributes(#[trigger] body@[j]),
                ),
        decreases body.len() - i,
    {
        let ghost before = deps@;
        proof {
            assert(body@.take(i + 1).drop_last() =~= body@.take(i as int));
            assert(body@.take(i + 1).last() == body@[i as int]);
        }
        let found: Option<(&String, &Vec<ImportAttribute>)> = match &body[i] {
            Statement::Import(imp) => Some((&imp.source, &imp.attributes)),
            Statement::ExportNamed(exp) => match &exp.source {
                Some(src) => Some((src, &exp.attributes)),
                None => None,
            },
            Statement::ExportAll(exp) => Some((&exp.source, &exp.attributes)),
            _ => None,
        };
        if let Some((src, attributes)) = found {
            let ghost sources = dependency_sources(body@.take(i as int));
            assert(dependency_sources(body@.take(i + 1)) == sources.push(src@));
            assert(sources.push(src@).drop_last() =~= sources);
            assert(sources.push(src@).last() == src@);
            let mut present = false;
            let mut k: usize = 0;
            while k < deps.len()
                invariant
                    k <= deps@.len(),
                    deps@ == before,
                    present == exists|w: int| 0 <= w < k && #[trigger] deps@[w].0@ == src@,
                decreases deps.len() - k,
            {
                if str_eq(deps[k].0.as_str(), src.as_str()) {
                    present = true;
                }
                k += 1;
            }
            proof {
                lemma_dedup_from_contents(Seq::empty(), sources);
                if present {
                    let w = choose|w: int| 0 <= w < deps@.len() && #[trigger] deps@[w].0@ == src@;
                    assert(dep_names(deps@)[w] == src@);
                }
                if dep_names(deps@).contains(src@) {
                    let w = choose|w: int| 0 <= w < dep_names(deps@).len() && dep_names(deps@)[w] == src@;
                    assert(deps@[w].0@ == src@);
                }
                assert(present == dep_names(deps@).contains(src@));
            }
            if !present {
                let attrs = module_attributes(attributes);
                deps.push((src.clone(), attrs));
                proof {
                    assert(dep_names(deps@) =~= dep_names(before).push(src@));
                    assert(!sources.contains(src@));
                    lemma_dependency_sources_contains(body@.take(i as int), src@);
                    assert forall|k: int| 0 <= k < i implies dep_source(#[trigger] body@[k]) != Some(src@) by {
                        assert(body@.take(i as int)[k] == body@[k]);
                    }
                    assert(first_naming(body@, i as int, src@));
                    assert(pair_views(attrs@) =~= attribute_pairs(dep_attributes(body@[i as int])));
                    assert forall|q: int| #![trigger deps@[q]] 0 <= q < deps@.len() implies exists|j: int|
                        first_naming(body@, j, deps@[q].0@) && j < i + 1 && pair_views(deps@[q].1@) == attribute_pairs(
                            dep_attributes(#[trigger] body@[j]),
                        ) by {
                        if q < before.len() {
                            assert(deps@[q] == before[q]);
                        } else {
                            assert(deps@[q].0@ == src@);
                            assert(pair_views(deps@[q].1@) == attribute_pairs(dep_attributes(body@[i as int])));
                        }
                    }
                }
            }
        } else {
            assert(dependency_sources(body@.take(i + 1)) == dependency_sources(body@.take(i as int)));
        }
        i += 1;
    }
    assert(body@.take(body@.len() as int) =~= body@);
    proof {
        assert(no_duplicates(Seq::<Seq<char>>::empty()));
        lemma_dedup_from_contents(Seq::empty(), dependency_sources(body@));
        assert forall|n: Seq<char>| #[trigger] dep_names(deps@).contains(n) <==> exists|k: int|
            0 <= k < body@.len() && dep_source(#[trigger] body@[k]) == Some(n) by {
            lemma_dependency_sources_contains(body@, n);
        }
    }
    deps
}

/// The body holds an `export * from` without a name, which forwards every
/// export of its dependency.
pub open spec fn unnamed_star(body: Seq<Statement>) -> bool {
    exists|i: int| 0 <= i < body.len() && (#[trigger] body[i] matches Statement::ExportAll(e) && e.exported is None)
}

/// Whether the body holds an unnamed `export * from`.
pub fn has_unnamed_star(body: &Vec<Statement>) -> (r: bool)
    ensures
        r == unnamed_star(body@),
{
    let mut i: usize = 0;
    while i < body.len()
        invariant
            i <= body@.len(),
            forall|k: int| 0 <= k < i ==> !(#[trigger] body@[k] matches Statement::ExportAll(e) && e.exported is None),
        decreases body.len() - i,
    {
        if let Statement::ExportAll(e) = &body[i] {
            if e.exported.is_none() {
                return true;
            }
        }
        i += 1;
    }
    false
}

/// What to do with a resolved dependency.
#[derive(Clone, Copy, PartialEq, Eq, Structural, Debug)]
pub enum DepAction {
    /// The dependency is the module itself: its own namespace is used.
    SelfImport,
    /// Compile the JavaScript module and evaluate it.
    CompileJs,
    /// Wrap the content as a JSON data module.
    Json,
    /// Wrap the content as a text data module.
    Text,
}

/// The message for an import cycle through `path`.
pub open spec fn circular_message(path: Seq<char>) -> Seq<char> {
    "circular module import not supported: "@ + path
}

/// The message for a bytes module.
pub open spec fn bytes_message() -> Seq<char> {
    "bytes module not supported"@
}

/// The plan for a dependency resolved to `path` of kind `kind`, imported by
/// the module at `importer_path` while the modules of `stack` are being
/// compiled: a self-import reuses the module's own namespace; a module
/// already on the stack is a cycle; bytes modules are refused.
pub open spec fn dependency_plan(path: Seq<char>, kind: ModuleKind, importer_path: Seq<char>, stack: Seq<Seq<char>>) -> Result<
    DepAction,
    Seq<char>,
> {
    if path == importer_path {
        Ok(DepAction::SelfImport)
    } else if stack.contains(path) {
        Err(circular_message(path))
    } else {
        match kind {
            ModuleKind::Js => Ok(DepAction::CompileJs),
            ModuleKind::Json => Ok(DepAction::Json),
            ModuleKind::Text => Ok(DepAction::Text),
            ModuleKind::Bytes => Err(bytes_message()),
        }
    }
}

/// The paths of a stack of module paths.
pub open spec fn path_views(stack: Seq<String>) -> Seq<Seq<char>> {
    Seq::new(stack.len(), |i: int| stack[i]@)
}

/// Decides what to do with a resolved dependency of the module at
/// `importer_path`; `path_stack` holds the modules being compiled.
pub fn plan_dependency(resolved: &ResolvedModule, importer_path: &str, path_stack: &Vec<String>) -> (r: Result<DepAction, String>)
    ensures
        r is Ok <==> dependency_plan(resolved.path@, resolved.kind, importer_path@, path_views(path_stack@)) is Ok,
        r matches Ok(a) ==> dependency_plan(resolved.path@, resolved.kind, importer_path@, path_views(path_stack@)) == Ok::<
            DepAction,
            Seq<char>,
        >(a),
        r matches Err(e) ==> dependency_plan(resolved.path@, resolved.kind, importer_path@, path_views(path_stack@)) == Err::<
            DepAction,
            Seq<char>,
        >(e@),
{
    if str_eq(resolved.path.as_str(), importer_path) {
        return Ok(DepAction::SelfImport);
    }
    let mut i: usize = 0;
    while i < path_stack.len()
        invariant
            i <= path_stack@.len(),
            resolved.path@ != importer_path@,
            forall|k: int| 0 <= k < i ==> #[trigger] path_stack@[k]@ != resolved.path@,
        decreases path_stack.len() - i,
    {
        if str_eq(path_stack[i].as_str(), resolved.path.as_str()) {
            assert(path_views(path_stack@)[i as int] == resolved.path@);
            let mut m = String::from_str("circular module import not supported: ");
            m.append(resolved.path.as_str());
            return Err(m);
        }
        i += 1;
    }
    assert(!path_views(path_stack@).contains(resolved.path@)) by {
        if path_views(path_stack@).contains(resolved.path@) {
            let k = choose|k: int| 0 <= k < path_views(path_stack@).len() && path_views(path_stack@)[k] == resolved.path@;
            assert(path_stack@[k]@ == resolved.path@);
        }
    }
    match resolved.kind {
        ModuleKind::Js => Ok(DepAction::CompileJs),
        ModuleKind::Json => Ok(DepAction::Json),
        ModuleKind::Text => Ok(DepAction::Text),
        ModuleKind::Bytes => Err(String::from_str("bytes module not supported")),
    }
}

/// The message for an import of a dependency that was not linked.
pub open spec fn dependency_missing_message(spec: Seq<char>) -> Seq<char> {
    "module dependency missing: "@ + spec
}

/// The message for a self-import of a name the module does not export.
pub open spec fn not_exported_message(name: Seq<char>) -> Seq<char> {
    "requested module export is not exported: "@ + name
}

impl CompileCtx {
    /// Records the namespace register of dependency `spec`, and whether it
    /// is the module itself.
    pub fn record_dependency(&mut self, spec: &str, ns_reg: u32, is_self: bool)
        ensures
            final(self).module_dep_ns_regs@ == old(self).module_dep_ns_regs@.insert(spec@, ns_reg),
            final(self).module_self_import_specs@ == if is_self {
                old(self).module_self_import_specs@.insert(spec@)
            } else {
                old(self).module_self_import_specs@
            },
            *final(self) == (CompileCtx {
                module_dep_ns_regs: final(self).module_dep_ns_regs,
                module_self_import_specs: final(self).module_self_import_specs,
                ..*old(self)
            }),
    {
        self.module_dep_ns_regs.insert(spec, ns_reg);
        if is_self {
            self.module_self_import_specs.insert(spec);
        }
    }

    /// The namespace register of the dependency an import names.
    pub fn dependency_reg(&self, spec: &str) -> (r: Result<u32, String>)
        ensures
            r is Ok <==> self.module_dep_ns_regs@.contains_key(spec@),
            r matches Ok(reg) ==> reg == self.module_dep_ns_regs@[spec@],
            r matches Err(e) ==> e@ == dependency_missing_message(spec@),
    {
        match self.module_dep_ns_regs.get(spec) {
            Some(reg) => Ok(reg),
            None => {
                let mut m = String::from_str("module dependency missing: ");
                m.append(spec);
                Err(m)
            },
        }
    }
}

/// Reading export `name` of the namespace in register `dep`: the name is
/// loaded and `__moduleLinkGet` called; the result register comes last.
pub open spec fn link_get_state(s: EmitState, dep: u32, name: Seq<char>) -> (EmitState, u32) {
    let (s1, name_reg) = load_const_state(s, ConstKey::String(name));
    module_call_state(s1, "__moduleLinkGet"@, seq![dep, name_reg])
}

/// Registering `value` under export `name` of the namespace in register `ns`.
pub open spec fn module_set_state(s: EmitState, ns: u32, name: Seq<char>, value: u32) -> EmitState {
    let (s1, name_reg) = load_const_state(s, ConstKey::String(name));
    module_call_state(s1, "__moduleSet"@, seq![ns, name_reg, value]).0
}

/// A native module call takes at least one register and at most three
/// more than it has arguments.
pub proof fn lemma_module_call_regs(s: EmitState, name: Seq<char>, regs: Seq<u32>)
    ensures
        s.next_reg < module_call_state(s, name, regs).0.next_reg <= s.next_reg + regs.len() + 3,
{
}

/// The error for an import specifier: a self-import of a name the module
/// does not export (an unnamed `export *` may forward any name, but not
/// `default`).
pub open spec fn import_error(sp: ImportSpecifier, is_self: bool, own: Set<Seq<char>>, star: bool) -> Option<Seq<char>> {
    if !is_self {
        None
    } else {
        match sp {
            ImportSpecifier::Named { imported, .. } => if !own.contains(imported@) && !star {
                Some(not_exported_message(imported@))
            } else {
                None
            },
            ImportSpecifier::Default { .. } => if !own.contains(DEFAULT_EXPORT_NAME@) {
                Some(not_exported_message(DEFAULT_EXPORT_NAME@))
            } else {
                None
            },
            ImportSpecifier::Namespace { .. } => None,
        }
    }
}

/// The initial value of an import binding: the namespace itself for a
/// namespace import; for a self-import `undefined` (the export statement
/// writes the value back when it runs); otherwise the export read from the
/// dependency's namespace.
pub open spec fn import_value_state(s: EmitState, sp: ImportSpecifier, dep: u32, is_self: bool) -> (EmitState, u32) {
    match sp {
        ImportSpecifier::Named { imported, .. } => if is_self {
            load_const_state(s, ConstKey::Undefined)
        } else {
            link_get_state(s, dep, imported@)
        },
        ImportSpecifier::Default { .. } => if is_self {
            load_const_state(s, ConstKey::Undefined)
        } else {
            link_get_state(s, dep, DEFAULT_EXPORT_NAME@)
        },
        ImportSpecifier::Namespace { .. } => (s, dep),
    }
}

/// The module names a dependency's exports are checked for before the body
/// runs: the local names of each export list with `from` (not a
/// declaration) whose source is linked and is not the module itself, with
/// the dependency's namespace register.
pub open spec fn link_check_targets(body: Seq<Statement>, deps: Map<Seq<char>, u32>, selfs: Set<Seq<char>>) -> Seq<(u32, Seq<char>)>
    decreases body.len(),
{
    if body.len() == 0 {
        Seq::empty()
    } else {
        let prev = link_check_targets(body.drop_last(), deps, selfs);
        match body.last() {
            Statement::ExportNamed(exp) => match exp.source {
                Some(src) => if exp.declaration is None && !selfs.contains(src@) && deps.contains_key(src@) {
                    prev + specifier_targets(deps[src@], exp.specifiers@)
                } else {
                    prev
                },
                None => prev,
            },
            _ => prev,
        }
    }
}

/// The local names of an export list, each with the namespace register `dep`.
pub open spec fn specifier_targets(dep: u32, specs: Seq<ExportSpecifier>) -> Seq<(u32, Seq<char>)> {
    Seq::new(specs.len(), |k: int| (dep, specs[k].local@))
}

/// Reading each target in turn.
pub open spec fn link_gets_state(s: EmitState, targets: Seq<(u32, Seq<char>)>) -> EmitState
    decreases targets.len(),
{
    if targets.len() == 0 {
        s
    } else {
        link_get_state(link_gets_state(s, targets.drop_last()), targets.last().0, targets.last().1).0
    }
}

/// Reading `a + b` is reading `a`, then `b`.
pub proof fn lemma_link_gets_concat(s: EmitState, a: Seq<(u32, Seq<char>)>, b: Seq<(u32, Seq<char>)>)
    ensures
        link_gets_state(s, a + b) == link_gets_state(link_gets_state(s, a), b),
    decreases b.len(),
{
    if b.len() == 0 {
        assert(a + b =~= a);
    } else {
        assert((a + b).drop_last() =~= a + b.drop_last());
        assert((a + b).last() == b.last());
        lemma_link_gets_concat(s, a, b.drop_last());
    }
}

/// Reading targets takes at most six registers each.
proof fn lemma_link_gets_regs(s: EmitState, t: Seq<(u32, Seq<char>)>)
    ensures
        s.next_reg <= link_gets_state(s, t).next_reg <= s.next_reg + 6 * t.len(),
    decreases t.len(),
{
    if t.len() > 0 {
        lemma_link_gets_regs(s, t.drop_last());
        let p = link_gets_state(s, t.drop_last());
        let (s1, n) = load_const_state(p, ConstKey::String(t.last().1));
        lemma_module_call_regs(s1, "__moduleLinkGet"@, seq![t.last().0, n]);
    }
}

/// The targets of a prefix of the body are a prefix of the body's targets.
proof fn lemma_link_check_targets_prefix(body: Seq<Statement>, i: int, deps: Map<Seq<char>, u32>, selfs: Set<Seq<char>>)
    requires
        0 <= i <= body.len(),
    ensures
        link_check_targets(body.take(i), deps, selfs).len() <= link_check_targets(body, deps, selfs).len(),
    decreases body.len(),
{
    if i < body.len() {
        assert(body.drop_last().take(i) =~= body.take(i));
        lemma_link_check_targets_prefix(body.drop_last(), i, deps, selfs);
    } else {
        assert(body.take(i) =~= body);
    }
}

/// One step of a re-export: the export `sp.local` of the dependency is
/// read and registered as `sp.exported` of the module's own namespace.
pub open spec fn reexport_step(s: EmitState, ns: u32, dep: u32, sp: ExportSpecifier) -> EmitState {
    let (s1, value) = link_get_state(s, dep, sp.local@);
    module_set_state(s1, ns, sp.exported@, value)
}

/// The re-exports of an export list, in order.
pub open spec fn reexports_state(s: EmitState, ns: u32, dep: u32, specs: Seq<ExportSpecifier>) -> EmitState
    decreases specs.len(),
{
    if specs.len() == 0 {
        s
    } else {
        reexport_step(reexports_state(s, ns, dep, specs.drop_last()), ns, dep, specs.last())
    }
}

/// The message for an export statement outside module code.
pub open spec fn outside_module_message() -> Seq<char> {
    "export outside module context"@
}

/// The message for an export list re-exported from a dependency that was not linked.
pub open spec fn unknown_from_message(src: Seq<char>) -> Seq<char> {
    "export from unknown module: "@ + src
}

/// The message for `export *` from a dependency that was not linked.
pub open spec fn unknown_star_message(src: Seq<char>) -> Seq<char> {
    "export * from unknown module: "@ + src
}

/// The state of `export * from` a dependency with namespace register `dep`:
/// `export * as name` registers the dependency's namespace under `name`; a
/// bare `export *` forwards every export through `__moduleStar`.
pub open spec fn export_all_state(s: EmitState, ns: u32, dep: u32, exported: Option<Seq<char>>) -> EmitState {
    match exported {
        Some(name) => module_set_state(s, ns, name, dep),
        None => module_call_state(s, "__moduleStar"@, seq![ns, dep]).0,
    }
}

/// The closing of a module body: the namespace is sealed, then the body
/// returns `undefined` (the entry module) or the namespace (a dependency,
/// whose evaluation yields its namespace).
pub open spec fn module_finish_state(s: EmitState, ns: u32, top_level: bool) -> EmitState {
    let s1 = module_call_state(s, "__moduleSeal"@, seq![ns]).0;
    if top_level {
        let (s2, r) = load_const_state(s1, ConstKey::Undefined);
        crate::ctx::st_inst(s2, Inst::Return { value: Operand::Reg(r) })
    } else {
        crate::ctx::st_inst(s1, Inst::Return { value: Operand::Reg(ns) })
    }
}

/// The emission state of a fresh context.
pub open spec fn fresh_state() -> EmitState {
    EmitState {
        pool: Seq::empty(),
        overflow: false,
        next_reg: 1,
        max_regs: 1,
        insts: Seq::empty(),
        slots: Seq::empty(),
        reads: Seq::empty(),
    }
}

/// The body of a data module of kind `kind` (`json` or `text`) with content
/// `content`: `__moduleData(kind, content)`, returned.
pub open spec fn data_module_state(kind: Seq<char>, content: Seq<char>) -> EmitState {
    let (s1, k) = load_const_state(fresh_state(), ConstKey::String(kind));
    let (s2, c) = load_const_state(s1, ConstKey::String(content));
    let (s3, v) = module_call_state(s2, "__moduleData"@, seq![k, c]);
    crate::ctx::st_inst(s3, Inst::Return { value: Operand::Reg(v) })
}

impl Emitter {
    /// The context of a module body (the entry module or a JavaScript
    /// dependency): module code is strict, and its top-level declarations
    /// bind in the module scope, not on the global object.
    pub fn module_context(&self) -> (ctx: CompileCtx)
        ensures
            ctx.wf(),
            ctx.emit_state() == fresh_state(),
            ctx.is_strict,
            !ctx.is_global_scope,
            !ctx.is_eval_script && !ctx.is_eval_origin && !ctx.repl_persist && !ctx.source_encoded,
            !ctx.is_generator && !ctx.is_async,
            ctx.module_ns_reg is None,
            ctx.module_dep_ns_regs@ == Map::<Seq<char>, u32>::empty(),
            ctx.module_self_import_specs@ == Set::<Seq<char>>::empty(),
            ctx.module_self_aliases@ == Map::<Seq<char>, u32>::empty(),
    {
        let mut ctx = CompileCtx::new();
        ctx.is_global_scope = false;
        ctx.is_strict = true;
        proof {
            assert(crate::ctx::pool_keys(ctx.constants@) =~= Seq::<ConstKey>::empty());
            assert(crate::ctx::slot_view(ctx.builtin_reg_map@) =~= Seq::<(Seq<char>, u32)>::empty());
            assert(ctx.insts@ =~= Seq::<Inst>::empty());
            assert(ctx.implicit_global_reads@ =~= Seq::<u32>::empty());
        }
        ctx
    }

    /// Creates the module namespace object and records its register.
    pub fn emit_module_namespace(&self, ctx: &mut CompileCtx) -> (ns: u32)
        requires
            old(ctx).wf(),
            old(ctx).next_reg + 4 < u32::MAX,
        ensures
            final(ctx).module_ns_reg == Some(ns),
            emitted((CompileCtx { module_ns_reg: Some(ns), ..*old(ctx) }), *final(ctx)),
            (final(ctx).emit_state(), ns) == module_call_state(old(ctx).emit_state(), "__moduleObject"@, Seq::empty()),
    {
        let args: [u32; 0] = [];
        assert(args@ =~= Seq::<u32>::empty());
        let ns = self.emit_module_call(ctx, "__moduleObject", &args);
        ctx.module_ns_reg = Some(ns);
        ns
    }

    /// Emits the initial value of one import binding from the dependency
    /// whose namespace is in `dep_ns_reg` and returns its register, or the
    /// error of a self-import of a name the module does not export (`own`:
    /// its own export names; `unnamed_star`: it has an unnamed `export *`),
    /// in which case nothing is emitted.
    pub fn emit_import_value(
        &self,
        sp: &ImportSpecifier,
        dep_ns_reg: u32,
        is_self: bool,
        own: &NameSet,
        unnamed_star: bool,
        ctx: &mut CompileCtx,
    ) -> (r: Result<u32, String>)
        requires
            old(ctx).wf(),
            dep_ns_reg < u32::MAX,
            old(ctx).next_reg + 8 < u32::MAX,
        ensures
            r is Err <==> import_error(*sp, is_self, own@, unnamed_star) is Some,
            r matches Err(e) ==> import_error(*sp, is_self, own@, unnamed_star) == Some(e@) && *final(ctx) == *old(ctx),
            r matches Ok(v) ==> emitted(*old(ctx), *final(ctx)) && (final(ctx).emit_state(), v) == import_value_state(
                old(ctx).emit_state(),
                *sp,
                dep_ns_reg,
                is_self,
            ),
    {
        match sp {
            ImportSpecifier::Named { imported, .. } => {
                if is_self {
                    if !own.contains(imported.as_str()) && !unnamed_star {
                        let mut m = String::from_str("requested module export is not exported: ");
                        m.append(imported.as_str());
                        return Err(m);
                    }
                    Ok(self.emit_undefined(ctx))
                } else {
                    let name_reg = self.load_string_const(imported.as_str(), ctx);
                    let args = [dep_ns_reg, name_reg];
                    assert(args@ =~= seq![dep_ns_reg, name_reg]);
                    Ok(self.emit_module_call(ctx, "__moduleLinkGet", &args))
                }
            },
            ImportSpecifier::Default { .. } => {
                if is_self {
                    if !own.contains(DEFAULT_EXPORT_NAME) {
                        let mut m = String::from_str("requested module export is not exported: ");
                        m.append(DEFAULT_EXPORT_NAME);
                        return Err(m);
                    }
                    Ok(self.emit_undefined(ctx))
                } else {
                    let name_reg = self.load_string_const(DEFAULT_EXPORT_NAME, ctx);
                    let args = [dep_ns_reg, name_reg];
                    assert(args@ =~= seq![dep_ns_reg, name_reg]);
                    Ok(self.emit_module_call(ctx, "__moduleLinkGet", &args))
                }
            },
            ImportSpecifier::Namespace { .. } => Ok(dep_ns_reg),
        }
    }

    /// Reads each local name of an export list from the namespace in `dep`.
    fn emit_link_gets(&self, dep: u32, specs: &Vec<ExportSpecifier>, ctx: &mut CompileCtx)
        requires
            old(ctx).wf(),
            dep < u32::MAX,
            old(ctx).next_reg + 6 * specs@.len() + 8 < u32::MAX,
        ensures
            emitted(*old(ctx), *final(ctx)),
            final(ctx).emit_state() == link_gets_state(old(ctx).emit_state(), specifier_targets(dep, specs@)),
    {
        let ghost s0 = ctx.emit_state();
        let mut k: usize = 0;
        assert(specifier_targets(dep, specs@.take(0)) =~= Seq::<(u32, Seq<char>)>::empty());
        while k < specs.len()
            invariant
                k <= specs@.len(),
                dep < u32::MAX,
                s0 == old(ctx).emit_state(),
                old(ctx).next_reg + 6 * specs@.len() + 8 < u32::MAX,
                emitted(*old(ctx), *ctx),
                ctx.emit_state() == link_gets_state(s0, specifier_targets(dep, specs@.take(k as int))),
            decreases specs.len() - k,
        {
            proof {
                lemma_link_gets_regs(s0, specifier_targets(dep, specs@.take(k as int)));
                assert(specifier_targets(dep, specs@.take(k + 1)).drop_last() =~= specifier_targets(dep, specs@.take(k as int)));
                assert(specifier_targets(dep, specs@.take(k + 1)).last() == (dep, specs@[k as int].local@));
            }
            let ghost before = *ctx;
            let name_reg = self.load_string_const(specs[k].local.as_str(), ctx);
            let args = [dep, name_reg];
            assert(args@ =~= seq![dep, name_reg]);
            let _ = self.emit_module_call(ctx, "__moduleLinkGet", &args);
            k += 1;
        }
        assert(specs@.take(specs@.len() as int) =~= specs@);
    }

    /// Before the body runs, checks every re-exported name of an export list
    /// with `from` against its dependency's namespace (so that a link error
    /// comes before any of the body's effects); lists from the module itself
    /// are resolved while the body runs instead.
    pub fn emit_reexport_link_checks(&self, body: &Vec<Statement>, ctx: &mut CompileCtx)
        requires
            old(ctx).wf(),
            forall|k: Seq<char>| #[trigger] old(ctx).module_dep_ns_regs@.contains_key(k) ==> old(ctx).module_dep_ns_regs@[k] < u32::MAX,
            old(ctx).next_reg + 6 * link_check_targets(body@, old(ctx).module_dep_ns_regs@, old(ctx).module_self_import_specs@).len() + 8
                < u32::MAX,
        ensures
            emitted(*old(ctx), *final(ctx)),
            final(ctx).emit_state() == link_gets_state(
                old(ctx).emit_state(),
                link_check_targets(body@, old(ctx).module_dep_ns_regs@, old(ctx).module_self_import_specs@),
            ),
    {
        let ghost s0 = ctx.emit_state();
        let ghost deps = ctx.module_dep_ns_regs@;
        let ghost selfs = ctx.module_self_import_specs@;
        let ghost total = link_check_targets(body@, deps, selfs).len();
        let mut i: usize = 0;
        assert(body@.take(0) =~= Seq::<Statement>::empty());
        while i < body.len()
            invariant
                i <= body@.len(),
                s0 == old(ctx).emit_state(),
                deps == old(ctx).module_dep_ns_regs@,
                selfs == old(ctx).module_self_import_specs@,
                total == link_check_targets(body@, deps, selfs).len(),
                forall|k: Seq<char>| #[trigger] deps.contains_key(k) ==> deps[k] < u32::MAX,
                old(ctx).next_reg + 6 * total + 8 < u32::MAX,
                emitted(*old(ctx), *ctx),
                ctx.emit_state() == link_gets_state(s0, link_check_targets(body@.take(i as int), deps, selfs)),
            decreases body.len() - i,
        {
            proof {
                assert(body@.take(i + 1).drop_last() =~= body@.take(i as int));
                assert(body@.take(i + 1).last() == body@[i as int]);
                lemma_link_check_targets_prefix(body@, i + 1, deps, selfs);
                lemma_link_gets_regs(s0, link_check_targets(body@.take(i as int), deps, selfs));
            }
            if let Statement::ExportNamed(exp) = &body[i] {
                if exp.declaration.is_none() {
                    if let Some(src) = &exp.source {
                        if !ctx.module_self_import_specs.contains(src.as_str()) {
                            if let Some(dep) = ctx.module_dep_ns_regs.get(src.as_str()) {
                                let ghost prev = link_check_targets(body@.take(i as int), deps, selfs);
                                let ghost extra = specifier_targets(dep, exp.specifiers@);
                                proof {
                                    assert(link_check_targets(body@.take(i + 1), deps, selfs) == prev + extra);
                                    assert((prev + extra).len() == prev.len() + exp.specifiers@.len());
                                }
                                self.emit_link_gets(dep, &exp.specifiers, ctx);
                                proof {
                                    lemma_link_gets_concat(s0, prev, extra);
                                }
                            }
                        }
                    }
                }
            }
            i += 1;
        }
        assert(body@.take(body@.len() as int) =~= body@);
    }

    /// Re-exports an export list with `from`: each local name is read from
    /// the dependency's namespace and registered under its exported name.
    /// Outside module code, or for a dependency that was not linked (with a
    /// non-empty list), nothing is emitted and the error is returned.
    pub fn emit_export_from(&self, exp: &ExportNamedDeclaration, ctx: &mut CompileCtx) -> (r: Result<(), String>)
        requires
            old(ctx).wf(),
            exp.declaration is None,
            exp.source is Some,
            old(ctx).module_ns_reg matches Some(ns) ==> ns < u32::MAX,
            forall|k: Seq<char>| #[trigger] old(ctx).module_dep_ns_regs@.contains_key(k) ==> old(ctx).module_dep_ns_regs@[k] < u32::MAX,
            old(ctx).next_reg + 13 * exp.specifiers@.len() + 8 < u32::MAX,
        ensures
            old(ctx).module_ns_reg is None ==> (r matches Err(e) && e@ == outside_module_message()) && *final(ctx) == *old(ctx),
            old(ctx).module_ns_reg matches Some(ns) ==> {
                let src = exp.source->0@;
                let deps = old(ctx).module_dep_ns_regs@;
                if deps.contains_key(src) {
                    r is Ok && emitted(*old(ctx), *final(ctx)) && final(ctx).emit_state() == reexports_state(
                        old(ctx).emit_state(),
                        ns,
                        deps[src],
                        exp.specifiers@,
                    )
                } else if exp.specifiers@.len() > 0 {
                    (r matches Err(e) && e@ == unknown_from_message(src)) && *final(ctx) == *old(ctx)
                } else {
                    r is Ok && *final(ctx) == *old(ctx)
                }
            },
    {
        let ns = match ctx.module_ns_reg {
            Some(ns) => ns,
            None => {
                return Err(String::from_str("export outside module context"));
            },
        };
        let src = match &exp.source {
            Some(src) => src,
            None => {
                return Ok(());
            },
        };
        let dep = match ctx.module_dep_ns_regs.get(src.as_str()) {
            Some(dep) => dep,
            None => {
                if exp.specifiers.len() > 0 {
                    let mut m = String::from_str("export from unknown module: ");
                    m.append(src.as_str());
                    return Err(m);
                }
                return Ok(());
            },
        };
        let ghost s0 = ctx.emit_state();
        let mut k: usize = 0;
        assert(exp.specifiers@.take(0) =~= Seq::<ExportSpecifier>::empty());
        while k < exp.specifiers.len()
            invariant
                k <= exp.specifiers@.len(),
                ns < u32::MAX,
                dep < u32::MAX,
                s0 == old(ctx).emit_state(),
                old(ctx).next_reg + 13 * exp.specifiers@.len() + 8 < u32::MAX,
                ctx.next_reg <= old(ctx).next_reg + 13 * k,
                emitted(*old(ctx), *ctx),
                ctx.emit_state() == reexports_state(s0, ns, dep, exp.specifiers@.take(k as int)),
            decreases exp.specifiers.len() - k,
        {
            proof {
                assert(exp.specifiers@.take(k + 1).drop_last() =~= exp.specifiers@.take(k as int));
                assert(exp.specifiers@.take(k + 1).last() == exp.specifiers@[k as int]);
            }
            let sp = &exp.specifiers[k];
            let ghost c0 = ctx.emit_state();
            let name_reg = self.load_string_const(sp.local.as_str(), ctx);
            let args = [dep, name_reg];
            assert(args@ =~= seq![dep, name_reg]);
            let ghost c1 = ctx.emit_state();
            let value = self.emit_module_call(ctx, "__moduleLinkGet", &args);
            proof {
                lemma_module_call_regs(c1, "__moduleLinkGet"@, seq![dep, name_reg]);
            }
            let ghost c2 = ctx.emit_state();
            self.emit_module_set(ctx, ns, sp.exported.as_str(), value);
            proof {
                let (c3, nr) = load_const_state(c2, ConstKey::String(sp.exported@));
                lemma_module_call_regs(c3, "__moduleSet"@, seq![ns, nr, value]);
            }
            k += 1;
        }
        assert(exp.specifiers@.take(exp.specifiers@.len() as int) =~= exp.specifiers@);
        Ok(())
    }

    /// `export * from` a dependency: `export * as name` registers the
    /// dependency's namespace under `name`, a bare `export *` forwards all of
    /// its exports. Outside module code, or for a dependency that was not
    /// linked, nothing is emitted and the error is returned.
    pub fn emit_export_all(&self, exp: &ExportAllDeclaration, ctx: &mut CompileCtx) -> (r: Result<(), String>)
        requires
            old(ctx).wf(),
            old(ctx).module_ns_reg matches Some(ns) ==> ns < u32::MAX,
            old(ctx).next_reg + 10 < u32::MAX,
        ensures
            old(ctx).module_ns_reg is None ==> (r matches Err(e) && e@ == outside_module_message()) && *final(ctx) == *old(ctx),
            old(ctx).module_ns_reg matches Some(ns) ==> {
                let deps = old(ctx).module_dep_ns_regs@;
                if deps.contains_key(exp.source@) {
                    r is Ok && emitted(*old(ctx), *final(ctx)) && final(ctx).emit_state() == export_all_state(
                        old(ctx).emit_state(),
                        ns,
                        deps[exp.source@],
                        match exp.exported {
                            Some(name) => Some(name@),
                            None => None,
                        },
                    )
                } else {
                    (r matches Err(e) && e@ == unknown_star_message(exp.source@)) && *final(ctx) == *old(ctx)
                }
            },
    {
        let ns = match ctx.module_ns_reg {
            Some(ns) => ns,
            None => {
                return Err(String::from_str("export outside module context"));
            },
        };
        let dep = match ctx.module_dep_ns_regs.get(exp.source.as_str()) {
            Some(dep) => dep,
            None => {
                let mut m = String::from_str("export * from unknown module: ");
                m.append(exp.source.as_str());
                return Err(m);
            },
        };
        match &exp.exported {
            Some(name) => {
                self.emit_module_set(ctx, ns, name.as_str(), dep);
            },
            None => {
                let args = [ns, dep];
                assert(args@ =~= seq![ns, dep]);
                let _ = self.emit_module_call(ctx, "__moduleStar", &args);
            },
        }
        Ok(())
    }

    /// When a self-import binds export `export_name`, writes `value_reg`
    /// back to that binding's register as the export statement runs.
    pub fn emit_self_alias_write(&self, ctx: &mut CompileCtx, export_name: &str, value_reg: u32)
        requires
            old(ctx).wf(),
        ensures
            emitted(*old(ctx), *final(ctx)),
            final(ctx).emit_state() == if old(ctx).module_self_aliases@.contains_key(export_name@) {
                crate::ctx::st_inst(
                    old(ctx).emit_state(),
                    Inst::Op {
                        op: OpCode::StoreVar,
                        a: Operand::Reg(old(ctx).module_self_aliases@[export_name@]),
                        b: Operand::Reg(value_reg),
                        c: Operand::Unused,
                    },
                )
            } else {
                old(ctx).emit_state()
            },
    {
        if let Some(alias_reg) = ctx.module_self_aliases.get(export_name) {
            ctx.inst(Inst::Op { op: OpCode::StoreVar, a: Operand::Reg(alias_reg), b: Operand::Reg(value_reg), c: Operand::Unused });
        }
    }

    /// Closes a module body: seals the namespace in `ns_reg` and returns
    /// `undefined` from the entry module (`top_level`) or the namespace from
    /// a dependency.
    pub fn emit_module_finish(&self, ctx: &mut CompileCtx, ns_reg: u32, top_level: bool)
        requires
            old(ctx).wf(),
            old(ctx).next_reg + 8 < u32::MAX,
        ensures
            emitted(*old(ctx), *final(ctx)),
            final(ctx).emit_state() == module_finish_state(old(ctx).emit_state(), ns_reg, top_level),
    {
        let args = [ns_reg];
        assert(args@ =~= seq![ns_reg]);
        let _ = self.emit_module_call(ctx, "__moduleSeal", &args);
        if top_level {
            let r = self.emit_undefined(ctx);
            ctx.inst(Inst::Return { value: Operand::Reg(r) });
        } else {
            ctx.inst(Inst::Return { value: Operand::Reg(ns_reg) });
        }
    }

    /// Compiles a data module (`json` or `text`): a context whose body calls
    /// `__moduleData(kind, content)` and returns the result.
    pub fn compile_data_dep(&self, kind: &str, content: &str) -> (ctx: CompileCtx)
        ensures
            ctx.wf(),
            ctx.emit_state() == data_module_state(kind@, content@),
    {
        let mut ctx = CompileCtx::new();
        proof {
            assert(crate::ctx::pool_keys(ctx.constants@) =~= Seq::<ConstKey>::empty());
            assert(crate::ctx::slot_view(ctx.builtin_reg_map@) =~= Seq::<(Seq<char>, u32)>::empty());
            assert(ctx.insts@ =~= Seq::<Inst>::empty());
            assert(ctx.implicit_global_reads@ =~= Seq::<u32>::empty());
            assert(ctx.emit_state() == fresh_state());
        }
        let kind_reg = self.load_string_const(kind, &mut ctx);
        let content_reg = self.load_string_const(content, &mut ctx);
        let args = [kind_reg, content_reg];
        assert(args@ =~= seq![kind_reg, content_reg]);
        let value = self.emit_module_call(&mut ctx, "__moduleData", &args);
        ctx.inst(Inst::Return { value: Operand::Reg(value) });
        ctx
    }
}

} // verus!
