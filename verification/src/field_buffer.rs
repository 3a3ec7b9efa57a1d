//! Instance field initialisers of a derived constructor: `this` exists only
//! once `super()` has returned, so the initialisers are compiled aside into
//! a buffer and spliced in right after the `super()` call, their labels
//! moved along with them.
use vstd::prelude::*;
use crate::ctx::CompileCtx;
use crate::inst::Inst;

verus! {

/// Instructions held back, and the labels they define with positions
/// relative to their first instruction.
pub struct FieldBuffer {
    pub insts: Vec<Inst>,
    pub labels: Vec<(u32, usize)>,
}

/// The defined labels of a label table, by id, with their positions.
pub open spec fn defined_labels(pos: Seq<Option<usize>>) -> Seq<(u32, usize)>
    decreases pos.len(),
{
    if pos.len() == 0 {
        Seq::empty()
    } else {
        let prev = defined_labels(pos.drop_last());
        match pos.last() {
            Some(p) => prev.push(((pos.len() - 1) as u32, p)),
            None => prev,
        }
    }
}

/// The label table after label `id` is defined at `p` (the table grows
/// with undefined entries as needed).
pub open spec fn set_pos(t: Seq<Option<usize>>, id: int, p: usize) -> Seq<Option<usize>> {
    if id < t.len() {
        t.update(id, Some(p))
    } else {
        (t + Seq::new((id - t.len()) as nat, |i: int| None::<usize>)).push(Some(p))
    }
}

/// The label table after each of `labels` is defined at `base` plus its
/// relative position, in order.
pub open spec fn relocate_labels(t: Seq<Option<usize>>, labels: Seq<(u32, usize)>, base: int) -> Seq<Option<usize>>
    decreases labels.len(),
{
    if labels.len() == 0 {
        t
    } else {
        let prev = relocate_labels(t, labels.drop_last(), base);
        set_pos(prev, labels.last().0 as int, (base + labels.last().1) as usize)
    }
}

/// Defining a label keeps every other defined entry, and the table covers
/// the label afterwards.
proof fn lemma_set_pos_keeps(t: Seq<Option<usize>>, id: int, p: usize)
    requires
        0 <= id,
    ensures
        set_pos(t, id, p).len() >= t.len(),
        set_pos(t, id, p).len() > id,
        set_pos(t, id, p)[id] == Some(p),
        forall|j: int| 0 <= j < t.len() && j != id ==> #[trigger] set_pos(t, id, p)[j] == t[j],
{
}

/// Moving the labels a buffer defined to `base` puts each of them at `base`
/// plus the position it had in the buffer: after the buffer is spliced in
/// at `base`, every label still designates the instruction it designated.
pub proof fn lemma_relocated_labels(t: Seq<Option<usize>>, pos: Seq<Option<usize>>, base: int)
    requires
        0 <= base,
        pos.len() <= u32::MAX,
        forall|i: int| 0 <= i < pos.len() && #[trigger] pos[i] is Some ==> base + pos[i]->0 <= usize::MAX,
    ensures
        forall|i: int|
            0 <= i < pos.len() && #[trigger] pos[i] is Some ==> i < relocate_labels(t, defined_labels(pos), base).len()
                && relocate_labels(t, defined_labels(pos), base)[i] == Some((base + pos[i]->0) as usize),
    decreases pos.len(),
{
    if pos.len() > 0 {
        let prev = pos.drop_last();
        lemma_relocated_labels(t, prev, base);
        let r0 = relocate_labels(t, defined_labels(prev), base);
        let n = pos.len() - 1;
        match pos.last() {
            Some(p) => {
                let x = (n as u32, p);
                assert(defined_labels(pos) == defined_labels(prev).push(x));
                assert(defined_labels(prev).push(x).drop_last() =~= defined_labels(prev));
                lemma_set_pos_keeps(r0, n, (base + p) as usize);
                assert forall|i: int| 0 <= i < pos.len() && #[trigger] pos[i] is Some implies i < relocate_labels(
                    t,
                    defined_labels(pos),
                    base,
                ).len() && relocate_labels(t, defined_labels(pos), base)[i] == Some((base + pos[i]->0) as usize) by {
                    if i < n {
                        assert(prev[i] == pos[i]);
                    }
                }
            },
            None => {
                assert forall|i: int| 0 <= i < pos.len() && #[trigger] pos[i] is Some implies i < relocate_labels(
                    t,
                    defined_labels(pos),
                    base,
                ).len() && relocate_labels(t, defined_labels(pos), base)[i] == Some((base + pos[i]->0) as usize) by {
                    assert(i < n);
                    assert(prev[i] == pos[i]);
                }
            },
        }
    }
}

impl CompileCtx {
    /// Starts compiling instance field initialisers aside: the instructions
    /// and the label table emitted so far are set apart (and returned) and
    /// compilation continues on empty ones.
    pub fn begin_field_buffer(&mut self) -> (saved: (Vec<Inst>, Vec<Option<usize>>))
        ensures
            saved.0@ == old(self).insts@,
            saved.1@ == old(self).labels@.label_pos,
            final(self).insts@.len() == 0,
            final(self).labels@ == (crate::labels::LabelState { label_pos: Seq::empty(), ..old(self).labels@ }),
            *final(self) == (CompileCtx { insts: final(self).insts, labels: final(self).labels, ..*old(self) }),
    {
        let mut insts: Vec<Inst> = Vec::new();
        let mut label_pos: Vec<Option<usize>> = Vec::new();
        std::mem::swap(&mut self.insts, &mut insts);
        std::mem::swap(&mut self.labels.label_pos, &mut label_pos);
        assert(self.labels@ =~= (crate::labels::LabelState { label_pos: Seq::empty(), ..old(self).labels@ }));
        (insts, label_pos)
    }

    /// Ends compiling instance field initialisers aside: what was emitted
    /// becomes the field buffer (with the labels it defined), and the
    /// instructions and label table set apart come back.
    pub fn end_field_buffer(&mut self, saved: (Vec<Inst>, Vec<Option<usize>>))
        ensures
            final(self).field_buffer matches Some(b) && b.insts@ == old(self).insts@ && b.labels@ == defined_labels(
                old(self).labels@.label_pos,
            ),
            final(self).insts@ == saved.0@,
            final(self).labels@ == (crate::labels::LabelState { label_pos: saved.1@, ..old(self).labels@ }),
            *final(self) == (CompileCtx {
                insts: final(self).insts,
                labels: final(self).labels,
                field_buffer: final(self).field_buffer,
                ..*old(self)
            }),
    {
        let (mut insts, mut label_pos) = saved;
        std::mem::swap(&mut self.insts, &mut insts);
        std::mem::swap(&mut self.labels.label_pos, &mut label_pos);
        let ghost pos = label_pos@;
        let mut labels: Vec<(u32, usize)> = Vec::new();
        let mut i: usize = 0;
        assert(pos.take(0) =~= Seq::<Option<usize>>::empty());
        while i < label_pos.len()
            invariant
                i <= pos.len(),
                pos == label_pos@,
                labels@ == defined_labels(pos.take(i as int)),
            decreases label_pos.len() - i,
        {
            assert(pos.take(i + 1).drop_last() =~= pos.take(i as int));
            assert(pos.take(i + 1).last() == pos[i as int]);
            if let Some(p) = label_pos[i] {
                let id: u32 = i as u32;
                labels.push((id, p));
            }
            i += 1;
        }
        assert(pos.take(pos.len() as int) =~= pos);
        assert(self.labels@ =~= (crate::labels::LabelState { label_pos: saved.1@, ..old(self).labels@ }));
        self.field_buffer = Some(FieldBuffer { insts, labels });
    }

    /// Right after `super()` returns, appends the held-back field
    /// initialisers and defines their labels at their new positions; with
    /// no buffer, nothing changes.
    pub fn splice_field_buffer(&mut self)
        requires
            old(self).field_buffer matches Some(b) ==> forall|k: int|
                0 <= k < b.labels@.len() ==> (#[trigger] b.labels@[k]).0 < usize::MAX && old(self).insts@.len() + b.insts@.len()
                    + b.labels@[k].1 <= usize::MAX,
        ensures
            final(self).field_buffer is None,
            match old(self).field_buffer {
                Some(b) => final(self).insts@ == old(self).insts@ + b.insts@ && final(self).labels@.label_pos
                    == relocate_labels(old(self).labels@.label_pos, b.labels@, old(self).insts@.len() as int),
                None => final(self).insts@ == old(self).insts@ && final(self).labels@ == old(self).labels@,
            },
            final(self).labels@.loop_stack == old(self).labels@.loop_stack,
            final(self).labels@.label_scopes == old(self).labels@.label_scopes,
            final(self).labels@.label_counter == old(self).labels@.label_counter,
            *final(self) == (CompileCtx {
                insts: final(self).insts,
                labels: final(self).labels,
                field_buffer: None,
                ..*old(self)
            }),
    {
        let mut taken: Option<FieldBuffer> = None;
        std::mem::swap(&mut self.field_buffer, &mut taken);
        if let Some(buffer) = taken {
            let insert_at = self.insts.len();
            let FieldBuffer { insts: mut moved, labels } = buffer;
            let ghost moved_view = moved@;
            self.insts.append(&mut moved);
            assert(self.insts@ == old(self).insts@ + moved_view);
            let mut k: usize = 0;
            assert(labels@.take(0) =~= Seq::<(u32, usize)>::empty());
            while k < labels.len()
                invariant
                    k <= labels@.len(),
                    insert_at == old(self).insts@.len(),
                    self.insts@ == old(self).insts@ + moved_view,
                    forall|q: int|
                        0 <= q < labels@.len() ==> (#[trigger] labels@[q]).0 < usize::MAX && old(self).insts@.len() + moved_view.len()
                            + labels@[q].1 <= usize::MAX,
                    self.labels@.label_pos == relocate_labels(old(self).labels@.label_pos, labels@.take(k as int), insert_at as int),
                    self.labels@.loop_stack == old(self).labels@.loop_stack,
                    self.labels@.switch_stack == old(self).labels@.switch_stack,
                    self.labels@.label_scopes == old(self).labels@.label_scopes,
                    self.labels@.pending_loop_labels == old(self).labels@.pending_loop_labels,
                    self.labels@.finally_depth == old(self).labels@.finally_depth,
                    self.labels@.for_of_depth == old(self).labels@.for_of_depth,
                    self.labels@.for_in_depth == old(self).labels@.for_in_depth,
                    self.labels@.label_counter == old(self).labels@.label_counter,
                    self.field_buffer is None,
                    *self == (CompileCtx { insts: self.insts, labels: self.labels, field_buffer: None, ..*old(self) }),
                decreases labels.len() - k,
            {
                let (label, relative) = labels[k];
                let ghost t = self.labels@.label_pos;
                self.labels.set_label_pos(label, insert_at + relative);
                proof {
                    assert(labels@.take(k + 1).drop_last() =~= labels@.take(k as int));
                    assert(labels@.take(k + 1).last() == labels@[k as int]);
                    assert(self.labels@.label_pos =~= set_pos(t, label as int, (insert_at + relative) as usize));
                }
                k += 1;
            }
            assert(labels@.take(labels@.len() as int) =~= labels@);
        }
    }
}

} // verus!
