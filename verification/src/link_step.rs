//! Linking a module's dependencies as a sequence of steps: the library
//! decides, the embedder resolves each dependency through its loader and
//! compiles JavaScript dependencies, reporting back as events.
use vstd::prelude::*;
use crate::ast::Statement;
use crate::block_fn::{dedup_from, no_duplicates};
use crate::ctx::{st_alloc, st_inst, CompileCtx, EmitState};
use crate::emit_ops::{emitted, module_call_state};
use crate::emitter::Emitter;
use crate::inst::{Inst, Operand};
use crate::linking::{
    data_module_state, dep_names, dependency_plan, dependency_sources, module_dependencies, pair_views, path_views,
    plan_dependency, DepAction,
};
use crate::module::ResolvedModule;

verus! {

/// The progress of linking a module's dependencies.
pub struct LinkState {
    /// The dependencies, each once, in order of first mention, with the
    /// import attributes of that mention.
    pub deps: Vec<(String, Vec<(String, String)>)>,
    /// The index of the dependency being linked.
    pub next: usize,
    /// The module's own path.
    pub own_path: String,
    /// The paths of the modules being compiled, the importers' chain.
    pub path_stack: Vec<String>,
    /// The module namespace object's register.
    pub ns_reg: u32,
}

/// What the embedder reports to the linking steps.
pub enum LinkEvent {
    /// Linking starts.
    Start,
    /// The loader resolved the current dependency.
    Resolved(ResolvedModule),
    /// The current dependency was compiled and added as nested function
    /// `index` (1-based) of the module.
    Compiled { index: u16 },
}

/// What the linking steps ask of the embedder.
pub enum LinkAction {
    /// Resolve dependency `spec`, with import attributes `attrs`, through
    /// the loader (relative to the module's directory).
    Resolve { spec: String, attrs: Vec<(String, String)> },
    /// Compile the JavaScript module at `path` from `source` (its path is
    /// on the stack meanwhile), add it as a nested function and report it.
    CompileJs { path: String, source: String },
    /// Add the compiled data module `module` as a nested function and report it.
    AddData { module: CompileCtx },
    /// Every dependency is linked.
    Done,
}

/// The request that follows in state `st`: the current dependency's
/// resolution, or the end.
pub open spec fn request_of(a: LinkAction, st: LinkState) -> bool {
    if st.next < st.deps@.len() {
        a matches LinkAction::Resolve { spec, attrs } && spec@ == st.deps@[st.next as int].0@ && pair_views(attrs@)
            == pair_views(st.deps@[st.next as int].1@)
    } else {
        a is Done
    }
}

/// The state a step leaves, `b`, is `a` with only the progress, the stack
/// and nothing else changed.
pub open spec fn same_link(a: LinkState, b: LinkState) -> bool {
    &&& b.deps@ == a.deps@
    &&& b.own_path@ == a.own_path@
    &&& b.ns_reg == a.ns_reg
}

/// Evaluating the compiled dependency `index`: a closure over it is created
/// and `__moduleEval` called on it; the result is the dependency's namespace.
pub open spec fn eval_dep_state(s: EmitState, index: u16) -> (EmitState, u32) {
    let f = s.next_reg as u32;
    let s1 = st_inst(st_alloc(s), Inst::CreateClosure { dst: Operand::Reg(f), idx: index });
    module_call_state(s1, "__moduleEval"@, seq![f])
}

/// Copies a list of attribute pairs.
fn clone_pairs(v: &Vec<(String, String)>) -> (r: Vec<(String, String)>)
    ensures
        pair_views(r@) == pair_views(v@),
{
    let mut r: Vec<(String, String)> = Vec::new();
    let mut i: usize = 0;
    while i < v.len()
        invariant
            i <= v@.len(),
            r@.len() == i,
            forall|k: int| 0 <= k < i ==> (#[trigger] r@[k]).0@ == v@[k].0@ && r@[k].1@ == v@[k].1@,
        decreases v.len() - i,
    {
        r.push((v[i].0.as_str().to_owned(), v[i].1.as_str().to_owned()));
        i += 1;
    }
    assert(pair_views(r@) =~= pair_views(v@));
    r
}

/// The request for the current dependency, or the end.
fn next_request(st: &LinkState) -> (a: LinkAction)
    ensures
        request_of(a, *st),
{
    if st.next < st.deps.len() {
        LinkAction::Resolve { spec: st.deps[st.next].0.as_str().to_owned(), attrs: clone_pairs(&st.deps[st.next].1) }
    } else {
        LinkAction::Done
    }
}

impl Emitter {
    /// Begins linking the module at `own_path` with body `body`: creates
    /// the module namespace object and lists the dependencies (imports,
    /// export lists with `from`, `export *`), each once, in order of first
    /// mention.
    pub fn begin_module_link(
        &self,
        body: &Vec<Statement>,
        own_path: &str,
        path_stack: Vec<String>,
        ctx: &mut CompileCtx,
    ) -> (st: LinkState)
        requires
            old(ctx).wf(),
            old(ctx).next_reg + 4 < u32::MAX,
        ensures
            final(ctx).module_ns_reg == Some(st.ns_reg),
            emitted((CompileCtx { module_ns_reg: Some(st.ns_reg), ..*old(ctx) }), *final(ctx)),
            (final(ctx).emit_state(), st.ns_reg) == module_call_state(old(ctx).emit_state(), "__moduleObject"@, Seq::empty()),
            dep_names(st.deps@) == dedup_from(Seq::empty(), dependency_sources(body@)),
            no_duplicates(dep_names(st.deps@)),
            st.next == 0,
            st.own_path@ == own_path@,
            st.path_stack@ == path_stack@,
    {
        let ns_reg = self.emit_module_namespace(ctx);
        let deps = module_dependencies(body);
        LinkState { deps, next: 0, own_path: own_path.to_owned(), path_stack, ns_reg }
    }

    /// Evaluates compiled dependency `index` and returns its namespace register.
    fn emit_dep_eval(&self, index: u16, ctx: &mut CompileCtx) -> (ns: u32)
        requires
            old(ctx).wf(),
            old(ctx).next_reg + 8 < u32::MAX,
        ensures
            emitted(*old(ctx), *final(ctx)),
            (final(ctx).emit_state(), ns) == eval_dep_state(old(ctx).emit_state(), index),
    {
        let f = ctx.alloc_reg();
        ctx.inst(Inst::CreateClosure { dst: Operand::Reg(f), idx: index });
        let args = [f];
        proof {
            reveal_strlit("__moduleEval");
            assert(args@ =~= seq![f]);
        }
        self.emit_module_call(ctx, "__moduleEval", &args)
    }

    /// One step of linking a module's dependencies. On `Start` the first
    /// dependency is requested. A resolved dependency is planned
    /// (`plan_dependency`): a self-import is linked to the module's own
    /// namespace at once; a JavaScript or data module goes on the stack and
    /// is handed out to be added as a nested function; a cycle or a bytes
    /// module is an error. A compiled dependency leaves the stack, is
    /// evaluated through `__moduleEval`, and its namespace is recorded.
    /// After each linked dependency the next one is requested, until done.
    #[verifier::rlimit(40)]
    pub fn module_link_step(&self, st: &mut LinkState, ev: LinkEvent, ctx: &mut CompileCtx) -> (r: Result<
        LinkAction,
        String,
    >)
        requires
            old(ctx).wf(),
            old(ctx).next_reg + 8 < u32::MAX,
            old(st).path_stack@.len() < usize::MAX,
            !(ev is Start) ==> old(st).next < old(st).deps@.len(),
            ev is Compiled ==> old(st).path_stack@.len() > 0,
        ensures
            same_link(*old(st), *final(st)),
            match ev {
                LinkEvent::Start => r matches Ok(a) && request_of(a, *final(st)) && final(st).next == old(st).next
                    && final(st).path_stack@ == old(st).path_stack@ && *final(ctx) == *old(ctx),
                LinkEvent::Resolved(res) => match dependency_plan(
                    res.path@,
                    res.kind,
                    old(st).own_path@,
                    path_views(old(st).path_stack@),
                ) {
                    Err(e) => r matches Err(m) && m@ == e && *final(ctx) == *old(ctx) && final(st).next == old(st).next
                        && final(st).path_stack@ == old(st).path_stack@,
                    Ok(DepAction::SelfImport) => r matches Ok(a) && request_of(a, *final(st)) && final(st).next
                        == old(st).next + 1 && final(st).path_stack@ == old(st).path_stack@ && *final(ctx) == (CompileCtx {
                        module_dep_ns_regs: final(ctx).module_dep_ns_regs,
                        module_self_import_specs: final(ctx).module_self_import_specs,
                        ..*old(ctx)
                    }) && final(ctx).module_dep_ns_regs@ == old(ctx).module_dep_ns_regs@.insert(
                        old(st).deps@[old(st).next as int].0@,
                        old(st).ns_reg,
                    ) && final(ctx).module_self_import_specs@ == old(ctx).module_self_import_specs@.insert(
                        old(st).deps@[old(st).next as int].0@,
                    ),
                    Ok(DepAction::CompileJs) => r matches Ok(LinkAction::CompileJs { path, source }) && path@ == res.path@
                        && source@ == res.source@ && final(st).next == old(st).next && path_views(final(st).path_stack@)
                        == path_views(old(st).path_stack@).push(res.path@) && *final(ctx) == *old(ctx),
                    Ok(DepAction::Json) => r matches Ok(LinkAction::AddData { module }) && module.wf()
                        && module.emit_state() == data_module_state("json"@, res.source@) && final(st).next
                        == old(st).next && path_views(final(st).path_stack@) == path_views(old(st).path_stack@).push(
                        res.path@,
                    ) && *final(ctx) == *old(ctx),
                    Ok(DepAction::Text) => r matches Ok(LinkAction::AddData { module }) && module.wf()
                        && module.emit_state() == data_module_state("text"@, res.source@) && final(st).next
                        == old(st).next && path_views(final(st).path_stack@) == path_views(old(st).path_stack@).push(
                        res.path@,
                    ) && *final(ctx) == *old(ctx),
                },
                LinkEvent::Compiled { index } => r matches Ok(a) && request_of(a, *final(st)) && final(st).next
                    == old(st).next + 1 && final(st).path_stack@ == old(st).path_stack@.drop_last() && ({
                    let (s, ns) = eval_dep_state(old(ctx).emit_state(), index);
                    &&& final(ctx).emit_state() == s
                    &&& emitted(
                        *old(ctx),
                        CompileCtx {
                            module_dep_ns_regs: old(ctx).module_dep_ns_regs,
                            module_self_import_specs: old(ctx).module_self_import_specs,
                            ..*final(ctx)
                        },
                    )
                    &&& final(ctx).module_dep_ns_regs@ == old(ctx).module_dep_ns_regs@.insert(
                        old(st).deps@[old(st).next as int].0@,
                        ns,
                    )
                    &&& final(ctx).module_self_import_specs@ == old(ctx).module_self_import_specs@
                }),
            },
    {
        match ev {
            LinkEvent::Start => Ok(next_request(st)),
            LinkEvent::Resolved(res) => {
                let action = plan_dependency(&res, st.own_path.as_str(), &st.path_stack)?;
                match action {
                    DepAction::SelfImport => {
                        let n = st.deps.len();
                        assert(st.next < n);
                        ctx.record_dependency(st.deps[st.next].0.as_str(), st.ns_reg, true);
                        st.next = st.next + 1;
                        Ok(next_request(st))
                    },
                    DepAction::CompileJs => {
                        let ghost before = st.path_stack@;
                        st.path_stack.push(res.path.as_str().to_owned());
                        proof {
                            assert(path_views(st.path_stack@) =~= path_views(before).push(res.path@));
                        }
                        Ok(LinkAction::CompileJs { path: res.path, source: res.source })
                    },
                    DepAction::Json => {
                        let ghost before = st.path_stack@;
                        st.path_stack.push(res.path.as_str().to_owned());
                        proof {
                            assert(path_views(st.path_stack@) =~= path_views(before).push(res.path@));
                            reveal_strlit("json");
                        }
                        Ok(LinkAction::AddData { module: self.compile_data_dep("json", res.source.as_str()) })
                    },
                    DepAction::Text => {
                        let ghost before = st.path_stack@;
                        st.path_stack.push(res.path.as_str().to_owned());
                        proof {
                            assert(path_views(st.path_stack@) =~= path_views(before).push(res.path@));
                            reveal_strlit("text");
                        }
                        Ok(LinkAction::AddData { module: self.compile_data_dep("text", res.source.as_str()) })
                    },
                }
            },
            LinkEvent::Compiled { index } => {
                let n = st.deps.len();
                assert(st.next < n);
                st.path_stack.pop();
                let ns = self.emit_dep_eval(index, ctx);
                ctx.record_dependency(st.deps[st.next].0.as_str(), ns, false);
                st.next = st.next + 1;
                Ok(next_request(st))
            },
        }
    }
}

} // verus!
