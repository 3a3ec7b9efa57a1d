//! Jump-target state of a function being compiled: label positions, the
//! open loops, `switch`es, labelled statements and `finally` domains, with
//! the depth snapshots from which an escaping `break`, `continue` or
//! `return` counts the iterators and `finally` blocks it must close.
use vstd::prelude::*;
use vstd::string::StringExecFns;
use crate::text::str_eq;

verus! {

/// The kind of a loop statement: whether leaving it closes an iterator.
#[derive(Clone, Copy, PartialEq, Eq, Structural, Debug)]
pub enum LoopKind {
    /// `while`, `do-while` and C-style `for`: nothing to close.
    Plain,
    ForOf,
    ForAwaitOf,
    ForIn,
}

impl LoopKind {
    /// Counted among the `for-of` loops whose iterators an escape closes.
    /// `for await` is not: closing its iterator awaits a promise and goes
    /// through the asynchronous suspension path instead.
    pub fn is_for_of(self) -> (r: bool)
        ensures
            r == (self is ForOf),
    {
        match self {
            LoopKind::ForOf => true,
            _ => false,
        }
    }

    /// Counted among the `for-in` loops an escape closes.
    pub fn is_for_in(self) -> (r: bool)
        ensures
            r == (self is ForIn),
    {
        match self {
            LoopKind::ForIn => true,
            _ => false,
        }
    }
}

/// An open loop with the depths in force when it was opened (its own
/// iterator included).
#[derive(Clone, Copy, PartialEq, Eq, Structural, Debug)]
pub struct LoopEntry {
    pub break_label: u32,
    pub continue_label: u32,
    pub finally_depth_at_open: usize,
    pub for_of_depth_at_open: usize,
    pub for_in_depth_at_open: usize,
    pub kind: LoopKind,
}

/// An open `switch`: its break label and the finally, for-of and for-in
/// depths at its opening.
#[derive(Clone, Copy, PartialEq, Eq, Structural, Debug)]
pub struct SwitchEntry {
    pub break_label: u32,
    pub finally_depth_at_open: usize,
    pub for_of_depth_at_open: usize,
    pub for_in_depth_at_open: usize,
}

/// An active labelled statement, with the depths at its opening.
pub struct LabelScope {
    pub name: String,
    pub break_label: u32,
    pub continue_label: Option<u32>,
    pub finally_depth_at_open: usize,
    pub for_of_depth_at_open: usize,
    pub for_in_depth_at_open: usize,
}

/// A label scope as a mathematical value.
pub struct LabelScopeView {
    pub name: Seq<char>,
    pub break_label: u32,
    pub continue_label: Option<u32>,
    pub finally_depth_at_open: usize,
    pub for_of_depth_at_open: usize,
    pub for_in_depth_at_open: usize,
}

impl View for LabelScope {
    type V = LabelScopeView;

    open spec fn view(&self) -> LabelScopeView {
        LabelScopeView {
            name: self.name@,
            break_label: self.break_label,
            continue_label: self.continue_label,
            finally_depth_at_open: self.finally_depth_at_open,
            for_of_depth_at_open: self.for_of_depth_at_open,
            for_in_depth_at_open: self.for_in_depth_at_open,
        }
    }
}

/// The jump-target state.
pub struct LabelCtx {
    /// Position of each label id, once defined; ids index the vector.
    pub label_pos: Vec<Option<usize>>,
    pub loop_stack: Vec<LoopEntry>,
    pub switch_stack: Vec<SwitchEntry>,
    pub label_scopes: Vec<LabelScope>,
    /// Label names waiting to become the continue target of the next loop.
    pub pending_loop_labels: Vec<String>,
    /// Number of open `try`/`finally` domains.
    pub finally_depth: usize,
    /// Number of open `for-of` loops.
    pub for_of_depth: usize,
    /// Number of open `for-in` loops.
    pub for_in_depth: usize,
    pub label_counter: u32,
}

/// The label state as a mathematical value.
pub struct LabelState {
    pub label_pos: Seq<Option<usize>>,
    pub loop_stack: Seq<LoopEntry>,
    pub switch_stack: Seq<SwitchEntry>,
    pub label_scopes: Seq<LabelScopeView>,
    pub pending_loop_labels: Seq<Seq<char>>,
    pub finally_depth: int,
    pub for_of_depth: int,
    pub for_in_depth: int,
    pub label_counter: int,
}

impl View for LabelCtx {
    type V = LabelState;

    open spec fn view(&self) -> LabelState {
        LabelState {
            label_pos: self.label_pos@,
            loop_stack: self.loop_stack@,
            switch_stack: self.switch_stack@,
            label_scopes: self.label_scopes@.map_values(|s: LabelScope| s@),
            pending_loop_labels: self.pending_loop_labels@.map_values(|s: String| s@),
            finally_depth: self.finally_depth as int,
            for_of_depth: self.for_of_depth as int,
            for_in_depth: self.for_in_depth as int,
            label_counter: self.label_counter as int,
        }
    }
}

/// The state after opening a loop: the kind's depth counter goes up first,
/// and the entry records the depths including the loop itself.
pub open spec fn push_loop_state(s: LabelState, break_label: u32, continue_label: u32, kind: LoopKind) -> LabelState {
    let fod = s.for_of_depth + if kind is ForOf {
        1int
    } else {
        0int
    };
    let fid = s.for_in_depth + if kind is ForIn {
        1int
    } else {
        0int
    };
    LabelState {
        loop_stack: s.loop_stack.push(
            LoopEntry {
                break_label,
                continue_label,
                finally_depth_at_open: s.finally_depth as usize,
                for_of_depth_at_open: fod as usize,
                for_in_depth_at_open: fid as usize,
                kind,
            },
        ),
        for_of_depth: fod,
        for_in_depth: fid,
        ..s
    }
}

/// The state after closing the innermost loop (none open: unchanged).
pub open spec fn pop_loop_state(s: LabelState) -> LabelState {
    if s.loop_stack.len() == 0 {
        s
    } else {
        let e = s.loop_stack.last();
        LabelState {
            loop_stack: s.loop_stack.drop_last(),
            for_of_depth: s.for_of_depth - if e.kind is ForOf {
                1int
            } else {
                0int
            },
            for_in_depth: s.for_in_depth - if e.kind is ForIn {
                1int
            } else {
                0int
            },
            ..s
        }
    }
}

/// Closing a loop undoes opening it: the state before the loop is restored.
pub proof fn lemma_pop_loop_undoes_push(s: LabelState, break_label: u32, continue_label: u32, kind: LoopKind)
    ensures
        pop_loop_state(push_loop_state(s, break_label, continue_label, kind)) == s,
{
    let t = push_loop_state(s, break_label, continue_label, kind);
    assert(t.loop_stack.drop_last() =~= s.loop_stack);
}

/// Every open loop's snapshot counts itself: a `for-of` loop's for-of depth
/// at opening is at least one, as is a `for-in` loop's for-in depth.
pub proof fn lemma_push_loop_counts_itself(s: LabelState, break_label: u32, continue_label: u32, kind: LoopKind)
    requires
        s.for_of_depth >= 0,
        s.for_in_depth >= 0,
        s.for_of_depth < usize::MAX,
        s.for_in_depth < usize::MAX,
        s.finally_depth >= 0,
        s.finally_depth <= usize::MAX,
    ensures
        ({
            let e = push_loop_state(s, break_label, continue_label, kind).loop_stack.last();
            &&& e.kind is ForOf ==> e.for_of_depth_at_open >= 1
            &&& e.kind is ForIn ==> e.for_in_depth_at_open >= 1
            &&& e.for_of_depth_at_open >= s.for_of_depth
            &&& e.for_in_depth_at_open >= s.for_in_depth
            &&& e.finally_depth_at_open == s.finally_depth
        }),
{
}

/// The message for a label that is already active or pending.
pub open spec fn duplicate_label_message(name: Seq<char>) -> Seq<char> {
    "SyntaxError: Label '"@ + name + "' has already been declared"@
}

/// Builds the duplicate-label message.
fn duplicate_label(name: &str) -> (m: String)
    ensures
        m@ == duplicate_label_message(name@),
{
    let mut m = String::from_str("SyntaxError: Label '");
    m.append(name);
    m.append("' has already been declared");
    m
}

/// Some active label scope is named `name`.
pub open spec fn label_active(s: LabelState, name: Seq<char>) -> bool {
    exists|i: int| 0 <= i < s.label_scopes.len() && #[trigger] s.label_scopes[i].name == name
}

/// Some pending loop label is `name`.
pub open spec fn label_pending(s: LabelState, name: Seq<char>) -> bool {
    s.pending_loop_labels.contains(name)
}

/// Number of consecutive `true` entries at the end of `s`.
pub open spec fn trailing_true(s: Seq<bool>) -> nat
    decreases s.len(),
{
    if s.len() == 0 {
        0
    } else if s.last() {
        trailing_true(s.drop_last()) + 1
    } else {
        0
    }
}

/// A new, empty jump-target state.
pub fn new_label_ctx() -> (l: LabelCtx)
    ensures
        l@.label_pos.len() == 0,
        l@.loop_stack.len() == 0,
        l@.switch_stack.len() == 0,
        l@.label_scopes.len() == 0,
        l@.pending_loop_labels.len() == 0,
        l@.finally_depth == 0,
        l@.for_of_depth == 0,
        l@.for_in_depth == 0,
        l@.label_counter == 0,
{
    LabelCtx {
        label_pos: Vec::new(),
        loop_stack: Vec::new(),
        switch_stack: Vec::new(),
        label_scopes: Vec::new(),
        pending_loop_labels: Vec::new(),
        finally_depth: 0,
        for_of_depth: 0,
        for_in_depth: 0,
        label_counter: 0,
    }
}

/// Label table `t` with label `id` placed at `pos`, grown with undefined
/// entries as needed.
pub open spec fn placed(t: Seq<Option<usize>>, id: int, pos: usize) -> Seq<Option<usize>> {
    Seq::new(
        if id < t.len() {
            t.len()
        } else {
            (id + 1) as nat
        },
        |i: int|
            if i == id {
                Some(pos)
            } else if i < t.len() {
                t[i]
            } else {
                None
            },
    )
}

impl LabelCtx {
    /// Records the position of label `id`, growing the table with undefined
    /// entries as needed.
    pub fn set_label_pos(&mut self, id: u32, pos: usize)
        requires
            id < usize::MAX,
        ensures
            final(self).label_pos@.len() == if (id as int) < old(self).label_pos@.len() {
                old(self).label_pos@.len() as int
            } else {
                id as int + 1
            },
            final(self).label_pos@[id as int] == Some(pos),
            forall|i: int|
                0 <= i < final(self).label_pos@.len() && i != id ==> #[trigger] final(self).label_pos@[i] == if i
                    < old(self).label_pos@.len() {
                    old(self).label_pos@[i]
                } else {
                    None
                },
            final(self).loop_stack@ == old(self).loop_stack@,
            final(self).switch_stack@ == old(self).switch_stack@,
            final(self).label_scopes@ == old(self).label_scopes@,
            final(self).pending_loop_labels@ == old(self).pending_loop_labels@,
            final(self).finally_depth == old(self).finally_depth,
            final(self).for_of_depth == old(self).for_of_depth,
            final(self).for_in_depth == old(self).for_in_depth,
            final(self).label_counter == old(self).label_counter,
            final(self)@ == (LabelState { label_pos: placed(old(self)@.label_pos, id as int, pos), ..old(self)@ }),
    {
        let idx = id as usize;
        while self.label_pos.len() <= idx
            invariant
                idx == id as int,
                idx < usize::MAX,
                old(self).label_pos@.len() <= self.label_pos@.len(),
                self.label_pos@.len() <= if idx < old(self).label_pos@.len() {
                    old(self).label_pos@.len() as int
                } else {
                    idx + 1
                },
                forall|i: int|
                    0 <= i < self.label_pos@.len() ==> #[trigger] self.label_pos@[i] == if i < old(self).label_pos@.len() {
                        old(self).label_pos@[i]
                    } else {
                        None
                    },
                self.loop_stack@ == old(self).loop_stack@,
                self.switch_stack@ == old(self).switch_stack@,
                self.label_scopes@ == old(self).label_scopes@,
                self.pending_loop_labels@ == old(self).pending_loop_labels@,
                self.finally_depth == old(self).finally_depth,
                self.for_of_depth == old(self).for_of_depth,
                self.for_in_depth == old(self).for_in_depth,
                self.label_counter == old(self).label_counter,
            decreases idx + 1 - self.label_pos@.len(),
        {
            self.label_pos.push(None);
        }
        self.label_pos.set(idx, Some(pos));
        assert(self.label_pos@ =~= placed(old(self)@.label_pos, id as int, pos));
        assert(self.label_scopes@.map_values(|s: LabelScope| s@) =~= old(self).label_scopes@.map_values(|s: LabelScope| s@));
        assert(self.pending_loop_labels@.map_values(|s: String| s@) =~= old(self).pending_loop_labels@.map_values(|s: String| s@));
    }

    /// A fresh label id.
    pub fn next_label_id(&mut self) -> (id: u32)
        requires
            old(self).label_counter < u32::MAX,
        ensures
            id == old(self).label_counter,
            final(self)@ == (LabelState { label_counter: old(self)@.label_counter + 1, ..old(self)@ }),
    {
        let id = self.label_counter;
        self.label_counter = self.label_counter + 1;
        id
    }

    /// Opens a loop.
    pub fn push_loop(&mut self, break_label: u32, continue_label: u32, kind: LoopKind)
        requires
            old(self).for_of_depth < usize::MAX,
            old(self).for_in_depth < usize::MAX,
        ensures
            final(self)@ == push_loop_state(old(self)@, break_label, continue_label, kind),
    {
        let fd = self.finally_depth;
        if kind.is_for_of() {
            self.for_of_depth = self.for_of_depth + 1;
        }
        if kind.is_for_in() {
            self.for_in_depth = self.for_in_depth + 1;
        }
        let fod = self.for_of_depth;
        let fid = self.for_in_depth;
        self.loop_stack.push(
            LoopEntry {
                break_label,
                continue_label,
                finally_depth_at_open: fd,
                for_of_depth_at_open: fod,
                for_in_depth_at_open: fid,
                kind,
            },
        );
        assert(self@ =~= push_loop_state(old(self)@, break_label, continue_label, kind));
    }

    /// Closes the innermost loop.
    pub fn pop_loop(&mut self)
        requires
            old(self).loop_stack@.len() > 0 ==> (old(self).loop_stack@.last().kind is ForOf ==> old(self).for_of_depth
                > 0) && (old(self).loop_stack@.last().kind is ForIn ==> old(self).for_in_depth > 0),
        ensures
            final(self)@ == pop_loop_state(old(self)@),
    {
        match self.loop_stack.pop() {
            Some(entry) => {
                if entry.kind.is_for_of() {
                    self.for_of_depth = self.for_of_depth - 1;
                }
                if entry.kind.is_for_in() {
                    self.for_in_depth = self.for_in_depth - 1;
                }
                assert(self@ =~= pop_loop_state(old(self)@));
            },
            None => {
                assert(self@ =~= old(self)@);
            },
        }
    }

    /// The innermost open loop.
    pub fn current_loop(&self) -> (r: Option<&LoopEntry>)
        ensures
            match r {
                Some(e) => self.loop_stack@.len() > 0 && *e == self.loop_stack@.last(),
                None => self.loop_stack@.len() == 0,
            },
    {
        self.loop_stack.last()
    }

    /// Opens a `switch`.
    pub fn push_switch(&mut self, break_label: u32)
        ensures
            final(self)@ == (LabelState {
                switch_stack: old(self)@.switch_stack.push(
                    SwitchEntry {
                        break_label,
                        finally_depth_at_open: old(self).finally_depth,
                        for_of_depth_at_open: old(self).for_of_depth,
                        for_in_depth_at_open: old(self).for_in_depth,
                    },
                ),
                ..old(self)@
            }),
    {
        let entry = SwitchEntry {
            break_label,
            finally_depth_at_open: self.finally_depth,
            for_of_depth_at_open: self.for_of_depth,
            for_in_depth_at_open: self.for_in_depth,
        };
        self.switch_stack.push(entry);
        assert(self@.label_scopes =~= old(self)@.label_scopes);
    }

    /// Closes the innermost `switch`.
    pub fn pop_switch(&mut self)
        ensures
            final(self)@ == (LabelState {
                switch_stack: if old(self)@.switch_stack.len() == 0 {
                    old(self)@.switch_stack
                } else {
                    old(self)@.switch_stack.drop_last()
                },
                ..old(self)@
            }),
    {
        let _ = self.switch_stack.pop();
        assert(self@.switch_stack =~= (if old(self)@.switch_stack.len() == 0 {
            old(self)@.switch_stack
        } else {
            old(self)@.switch_stack.drop_last()
        }));
    }

    /// The innermost open `switch`.
    pub fn current_switch(&self) -> (r: Option<&SwitchEntry>)
        ensures
            match r {
                Some(e) => self.switch_stack@.len() > 0 && *e == self.switch_stack@.last(),
                None => self.switch_stack@.len() == 0,
            },
    {
        self.switch_stack.last()
    }

    /// Enters a `try`/`finally` domain.
    pub fn push_finally_domain(&mut self)
        requires
            old(self).finally_depth < usize::MAX,
        ensures
            final(self)@ == (LabelState { finally_depth: old(self)@.finally_depth + 1, ..old(self)@ }),
    {
        self.finally_depth = self.finally_depth + 1;
    }

    /// Leaves a `try`/`finally` domain.
    pub fn pop_finally_domain(&mut self)
        requires
            old(self).finally_depth > 0,
        ensures
            final(self)@ == (LabelState { finally_depth: old(self)@.finally_depth - 1, ..old(self)@ }),
    {
        self.finally_depth = self.finally_depth - 1;
    }

    /// Whether a label scope named `name` is active.
    fn has_label_scope(&self, name: &str) -> (r: bool)
        ensures
            r == label_active(self@, name@),
    {
        let mut i: usize = 0;
        while i < self.label_scopes.len()
            invariant
                i <= self.label_scopes@.len(),
                forall|j: int| 0 <= j < i ==> #[trigger] self.label_scopes@[j].name@ != name@,
            decreases self.label_scopes.len() - i,
        {
            if str_eq(self.label_scopes[i].name.as_str(), name) {
                assert(self@.label_scopes[i as int].name == name@);
                return true;
            }
            i += 1;
        }
        assert(!label_active(self@, name@)) by {
            if label_active(self@, name@) {
                let k = choose|k: int| 0 <= k < self@.label_scopes.len() && #[trigger] self@.label_scopes[k].name == name@;
                assert(self.label_scopes@[k].name@ == name@);
            }
        }
        false
    }

    /// Whether `name` is a pending loop label.
    fn has_pending_label(&self, name: &str) -> (r: bool)
        ensures
            r == label_pending(self@, name@),
    {
        let mut i: usize = 0;
        while i < self.pending_loop_labels.len()
            invariant
                i <= self.pending_loop_labels@.len(),
                forall|j: int| 0 <= j < i ==> #[trigger] self.pending_loop_labels@[j]@ != name@,
            decreases self.pending_loop_labels.len() - i,
        {
            if str_eq(self.pending_loop_labels[i].as_str(), name) {
                assert(self@.pending_loop_labels[i as int] == name@);
                return true;
            }
            i += 1;
        }
        assert(!label_pending(self@, name@)) by {
            if label_pending(self@, name@) {
                let k = choose|k: int|
                    0 <= k < self@.pending_loop_labels.len() && self@.pending_loop_labels[k] == name@;
                assert(self.pending_loop_labels@[k]@ == name@);
            }
        }
        false
    }

    /// Opens a labelled statement; a label already active is a SyntaxError.
    pub fn push_label_scope(&mut self, name: &str, break_label: u32, continue_label: Option<u32>) -> (r: Result<(), String>)
        ensures
            (r is Err) == label_active(old(self)@, name@),
            r matches Err(e) ==> e@ == duplicate_label_message(name@) && final(self)@ == old(self)@,
            r is Ok ==> final(self)@ == (LabelState {
                label_scopes: old(self)@.label_scopes.push(
                    LabelScopeView {
                        name: name@,
                        break_label,
                        continue_label,
                        finally_depth_at_open: old(self).finally_depth,
                        for_of_depth_at_open: old(self).for_of_depth,
                        for_in_depth_at_open: old(self).for_in_depth,
                    },
                ),
                ..old(self)@
            }),
    {
        if self.has_label_scope(name) {
            return Err(duplicate_label(name));
        }
        let scope = LabelScope {
            name: name.to_owned(),
            break_label,
            continue_label,
            finally_depth_at_open: self.finally_depth,
            for_of_depth_at_open: self.for_of_depth,
            for_in_depth_at_open: self.for_in_depth,
        };
        self.label_scopes.push(scope);
        assert(self@.label_scopes =~= old(self)@.label_scopes.push(
            LabelScopeView {
                name: name@,
                break_label,
                continue_label,
                finally_depth_at_open: old(self).finally_depth,
                for_of_depth_at_open: old(self).for_of_depth,
                for_in_depth_at_open: old(self).for_in_depth,
            },
        ));
        Ok(())
    }

    /// Closes the innermost labelled statement.
    pub fn pop_label_scope(&mut self)
        ensures
            final(self)@ == (LabelState {
                label_scopes: if old(self)@.label_scopes.len() == 0 {
                    old(self)@.label_scopes
                } else {
                    old(self)@.label_scopes.drop_last()
                },
                ..old(self)@
            }),
    {
        let _ = self.label_scopes.pop();
        assert(self@.label_scopes =~= (if old(self)@.label_scopes.len() == 0 {
            old(self)@.label_scopes
        } else {
            old(self)@.label_scopes.drop_last()
        }));
    }

    /// Closes the `n` innermost labelled statements.
    pub fn pop_label_scopes(&mut self, n: usize)
        ensures
            final(self)@ == (LabelState {
                label_scopes: old(self)@.label_scopes.take(
                    if n <= old(self)@.label_scopes.len() {
                        old(self)@.label_scopes.len() - n
                    } else {
                        0
                    },
                ),
                ..old(self)@
            }),
    {
        let mut k: usize = 0;
        while k < n
            invariant
                k <= n,
                self@.label_scopes == old(self)@.label_scopes.take(
                    if k <= old(self)@.label_scopes.len() {
                        old(self)@.label_scopes.len() - k
                    } else {
                        0
                    },
                ),
                self@ == (LabelState { label_scopes: self@.label_scopes, ..old(self)@ }),
            decreases n - k,
        {
            let ghost before = self@.label_scopes;
            self.pop_label_scope();
            proof {
                let len = old(self)@.label_scopes.len();
                if k < len {
                    assert(before.drop_last() =~= old(self)@.label_scopes.take(len - (k + 1)));
                } else {
                    assert(before =~= old(self)@.label_scopes.take(0));
                }
            }
            k += 1;
        }
        proof {
            if n == 0 {
                assert(old(self)@.label_scopes.take(old(self)@.label_scopes.len() as int) =~= old(self)@.label_scopes);
            }
        }
    }

    /// The innermost active label scope named `name`.
    pub fn find_label(&self, name: &str) -> (r: Option<&LabelScope>)
        ensures
            match r {
                Some(s) => exists|i: int|
                    0 <= i < self.label_scopes@.len() && self.label_scopes@[i] == *s && s.name@ == name@ && forall|j: int|
                        i < j < self.label_scopes@.len() ==> #[trigger] self.label_scopes@[j].name@ != name@,
                None => !label_active(self@, name@),
            },
    {
        let mut i: usize = self.label_scopes.len();
        while i > 0
            invariant
                i <= self.label_scopes@.len(),
                forall|j: int| i <= j < self.label_scopes@.len() ==> #[trigger] self.label_scopes@[j].name@ != name@,
            decreases i,
        {
            i -= 1;
            if str_eq(self.label_scopes[i].name.as_str(), name) {
                return Some(&self.label_scopes[i]);
            }
        }
        assert(!label_active(self@, name@)) by {
            if label_active(self@, name@) {
                let k = choose|k: int| 0 <= k < self@.label_scopes.len() && #[trigger] self@.label_scopes[k].name == name@;
                assert(self.label_scopes@[k].name@ == name@);
            }
        }
        None
    }

    /// Queues a label to become the continue target of the next loop; a name
    /// already active or pending is a SyntaxError.
    pub fn queue_loop_label(&mut self, name: &str) -> (r: Result<(), String>)
        ensures
            (r is Err) == (label_active(old(self)@, name@) || label_pending(old(self)@, name@)),
            r matches Err(e) ==> e@ == duplicate_label_message(name@) && final(self)@ == old(self)@,
            r is Ok ==> final(self)@ == (LabelState {
                pending_loop_labels: old(self)@.pending_loop_labels.push(name@),
                ..old(self)@
            }),
    {
        if self.has_label_scope(name) || self.has_pending_label(name) {
            return Err(duplicate_label(name));
        }
        self.pending_loop_labels.push(name.to_owned());
        assert(self@.pending_loop_labels =~= old(self)@.pending_loop_labels.push(name@));
        Ok(())
    }

    /// Turns the pending labels into active label scopes that break to
    /// `break_label` and continue at `continue_label`; returns their number.
    pub fn take_pending_loop_labels(&mut self, break_label: u32, continue_label: u32) -> (count: usize)
        ensures
            count == old(self)@.pending_loop_labels.len(),
            final(self)@ == (LabelState {
                pending_loop_labels: Seq::empty(),
                label_scopes: old(self)@.label_scopes + Seq::new(
                    old(self)@.pending_loop_labels.len(),
                    |i: int|
                        LabelScopeView {
                            name: old(self)@.pending_loop_labels[i],
                            break_label,
                            continue_label: Some(continue_label),
                            finally_depth_at_open: old(self).finally_depth,
                            for_of_depth_at_open: old(self).for_of_depth,
                            for_in_depth_at_open: old(self).for_in_depth,
                        },
                ),
                ..old(self)@
            }),
    {
        let mut names: Vec<String> = Vec::new();
        std::mem::swap(&mut names, &mut self.pending_loop_labels);
        let count = names.len();
        let fd = self.finally_depth;
        let fod = self.for_of_depth;
        let fid = self.for_in_depth;
        let ghost base = old(self)@.label_scopes;
        let ghost pend = old(self)@.pending_loop_labels;
        assert(self@.pending_loop_labels =~= Seq::<Seq<char>>::empty());
        assert(self@.label_scopes =~= base + Seq::new(
            0 as nat,
            |k: int|
                LabelScopeView {
                    name: pend[k],
                    break_label,
                    continue_label: Some(continue_label),
                    finally_depth_at_open: fd,
                    for_of_depth_at_open: fod,
                    for_in_depth_at_open: fid,
                },
        ));
        let mut i: usize = 0;
        while i < names.len()
            invariant
                names@.map_values(|s: String| s@) == pend,
                i <= names@.len(),
                fd == old(self).finally_depth,
                fod == old(self).for_of_depth,
                fid == old(self).for_in_depth,
                self@.label_scopes == base + Seq::new(
                    i as nat,
                    |k: int|
                        LabelScopeView {
                            name: pend[k],
                            break_label,
                            continue_label: Some(continue_label),
                            finally_depth_at_open: fd,
                            for_of_depth_at_open: fod,
                            for_in_depth_at_open: fid,
                        },
                ),
                self@ == (LabelState {
                    pending_loop_labels: Seq::empty(),
                    label_scopes: self@.label_scopes,
                    ..old(self)@
                }),
            decreases names.len() - i,
        {
            let scope = LabelScope {
                name: names[i].clone(),
                break_label,
                continue_label: Some(continue_label),
                finally_depth_at_open: fd,
                for_of_depth_at_open: fod,
                for_in_depth_at_open: fid,
            };
            let ghost before = self@.label_scopes;
            self.label_scopes.push(scope);
            assert(self@.label_scopes =~= before.push(self.label_scopes@[self.label_scopes@.len() - 1]@));
            assert(self@.label_scopes =~= base + Seq::new(
                (i + 1) as nat,
                |k: int|
                    LabelScopeView {
                        name: pend[k],
                        break_label,
                        continue_label: Some(continue_label),
                        finally_depth_at_open: fd,
                        for_of_depth_at_open: fod,
                        for_in_depth_at_open: fid,
                    },
            ));
            i += 1;
        }
        count
    }
}

} // verus!
