//! The undo/redo history of committed edit operations.
use vstd::prelude::*;

verus! {

/// Committed edit operations, oldest first, and the operations that were undone
/// and can be redone, the most recently undone last.
pub struct EditHistory<T> {
    operations: Vec<T>,
    redo_stack: Vec<T>,
}

/// The history as two stacks: what is applied and what can be redone.
pub struct HistoryView<T> {
    pub done: Seq<T>,
    pub undone: Seq<T>,
}

/// Committing an operation applies it and forgets everything that could be redone.
pub open spec fn committed<T>(h: HistoryView<T>, op: T) -> HistoryView<T> {
    HistoryView { done: h.done.push(op), undone: Seq::empty() }
}

/// Undoing moves the last applied operation onto the redo stack (no change when
/// nothing is applied).
pub open spec fn undone<T>(h: HistoryView<T>) -> HistoryView<T> {
    if h.done.len() == 0 {
        h
    } else {
        HistoryView { done: h.done.drop_last(), undone: h.undone.push(h.done.last()) }
    }
}

/// Redoing moves the most recently undone operation back to the applied ones
/// (no change when nothing was undone).
pub open spec fn redone<T>(h: HistoryView<T>) -> HistoryView<T> {
    if h.undone.len() == 0 {
        h
    } else {
        HistoryView { done: h.done.push(h.undone.last()), undone: h.undone.drop_last() }
    }
}

impl<T> EditHistory<T> {
    /// The applied and the undone operations.
    pub closed spec fn view(&self) -> HistoryView<T> {
        HistoryView { done: self.operations@, undone: self.redo_stack@ }
    }

    /// An empty history.
    pub fn new() -> (h: Self)
        ensures
            h.view().done == Seq::<T>::empty(),
            h.view().undone == Seq::<T>::empty(),
    {
        EditHistory { operations: Vec::new(), redo_stack: Vec::new() }
    }

    /// The applied operations, oldest first.
    pub fn operations(&self) -> (r: &Vec<T>)
        ensures
            r@ == self.view().done,
    {
        &self.operations
    }

    /// Mutable access to the applied operations (to move their coordinates when
    /// the image is rotated or cropped); the redo stack stays as it is.
    pub fn operations_mut(&mut self) -> (r: &mut Vec<T>)
        ensures
            r@ == old(self).view().done,
            final(self).view().done == final(r)@,
            final(self).view().undone == old(self).view().undone,
    {
        &mut self.operations
    }

    /// Applies `op` as the newest operation; nothing can be redone afterwards.
    pub fn commit(&mut self, op: T)
        ensures
            final(self).view() == committed(old(self).view(), op),
    {
        self.operations.push(op);
        self.redo_stack.clear();
    }

    /// Undoes the newest applied operation and returns it, or `None` when nothing is applied.
    pub fn undo(&mut self) -> (r: Option<&T>)
        ensures
            final(self).view() == undone(old(self).view()),
            old(self).view().done.len() == 0 ==> r is None,
            old(self).view().done.len() > 0 ==> r == Some(&old(self).view().done.last()),
    {
        match self.operations.pop() {
            Some(op) => {
                self.redo_stack.push(op);
                let n = self.redo_stack.len();
                Some(&self.redo_stack[n - 1])
            },
            None => None,
        }
    }

    /// Reapplies the most recently undone operation and returns it, or `None`
    /// when nothing was undone.
    pub fn redo(&mut self) -> (r: Option<&T>)
        ensures
            final(self).view() == redone(old(self).view()),
            old(self).view().undone.len() == 0 ==> r is None,
            old(self).view().undone.len() > 0 ==> r == Some(&old(self).view().undone.last()),
    {
        match self.redo_stack.pop() {
            Some(op) => {
                self.operations.push(op);
                let n = self.operations.len();
                Some(&self.operations[n - 1])
            },
            None => None,
        }
    }

    /// Forgets every applied and undone operation.
    pub fn revert_all(&mut self)
        ensures
            final(self).view().done == Seq::<T>::empty(),
            final(self).view().undone == Seq::<T>::empty(),
    {
        self.operations.clear();
        self.redo_stack.clear();
    }

    /// Whether an operation can be undone.
    pub fn can_undo(&self) -> (r: bool)
        ensures
            r == (self.view().done.len() > 0),
    {
        !self.operations.is_empty()
    }

    /// Whether an operation can be redone.
    pub fn can_redo(&self) -> (r: bool)
        ensures
            r == (self.view().undone.len() > 0),
    {
        !self.redo_stack.is_empty()
    }
}

/// Redo takes back an undo: after undoing an applied operation, redoing
/// restores the history exactly.
pub proof fn lemma_redo_after_undo<T>(h: HistoryView<T>)
    requires
        h.done.len() > 0,
    ensures
        redone(undone(h)) == h,
{
    assert(h.done.drop_last().push(h.done.last()) =~= h.done);
    assert(h.undone.push(h.done.last()).drop_last() =~= h.undone);
}

/// Undo takes back a redo: after redoing an undone operation, undoing restores
/// the history exactly.
pub proof fn lemma_undo_after_redo<T>(h: HistoryView<T>)
    requires
        h.undone.len() > 0,
    ensures
        undone(redone(h)) == h,
{
    assert(h.done.push(h.undone.last()).drop_last() =~= h.done);
    assert(h.undone.drop_last().push(h.undone.last()) =~= h.undone);
}

/// Committing then undoing leaves the applied operations as they were and the
/// committed operation as the only one to redo.
pub proof fn lemma_undo_after_commit<T>(h: HistoryView<T>, op: T)
    ensures
        undone(committed(h, op)).done == h.done,
        undone(committed(h, op)).undone == seq![op],
{
    assert(h.done.push(op).drop_last() =~= h.done);
    assert(Seq::<T>::empty().push(op) =~= seq![op]);
}

/// Undo and redo only move operations between the two stacks: the applied
/// operations followed by the undone ones in reverse order stay the same sequence.
pub open spec fn timeline<T>(h: HistoryView<T>) -> Seq<T> {
    h.done + h.undone.reverse()
}

/// Undoing and redoing never change the timeline of operations.
pub proof fn lemma_timeline_kept<T>(h: HistoryView<T>)
    ensures
        timeline(undone(h)) == timeline(h),
        timeline(redone(h)) == timeline(h),
{
    if h.done.len() > 0 {
        let d = h.done;
        let u = h.undone;
        assert(u.push(d.last()).reverse() =~= seq![d.last()] + u.reverse());
        assert(d.drop_last() + (seq![d.last()] + u.reverse()) =~= d + u.reverse());
    }
    if h.undone.len() > 0 {
        let d = h.done;
        let u = h.undone;
        assert(u.reverse() =~= seq![u.last()] + u.drop_last().reverse());
        assert(d.push(u.last()) + u.drop_last().reverse() =~= d + u.reverse());
    }
}

} // verus!
