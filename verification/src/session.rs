//! The editing session on the shown image: the history of committed
//! operations, the active tool with its live preview, and whether the tool
//! is being dragged.
use vstd::prelude::*;
use crate::history::{committed, undone, redone, EditHistory, HistoryView};
use crate::tools::ToolKind;

verus! {

/// The session as plain values.
pub struct SessionView<P, T> {
    pub history: HistoryView<T>,
    pub preview: Option<P>,
    pub active_tool: Option<ToolKind>,
    pub dragging: bool,
}

/// The session after the preview was committed as `op`: `op` joins the
/// history, and the preview, the active tool and the drag end.
pub open spec fn tool_applied<P, T>(s: SessionView<P, T>, op: T) -> SessionView<P, T> {
    SessionView { history: committed(s.history, op), preview: None, active_tool: None, dragging: false }
}

/// The session after the active tool is cancelled: no preview, no tool, no drag.
pub open spec fn tool_cancelled<P, T>(s: SessionView<P, T>) -> SessionView<P, T> {
    SessionView { preview: None, active_tool: None, dragging: false, ..s }
}

/// An editing session: committed operations of type `T`, and the live
/// preview (of type `P`) of the active tool.
pub struct ToolSession<P, T> {
    history: EditHistory<T>,
    preview: Option<P>,
    active_tool: Option<ToolKind>,
    dragging: bool,
}

impl<P, T> ToolSession<P, T> {
    /// The session's state.
    pub closed spec fn view(&self) -> SessionView<P, T> {
        SessionView {
            history: self.history.view(),
            preview: self.preview,
            active_tool: self.active_tool,
            dragging: self.dragging,
        }
    }

    /// A session with no operations, no tool and no preview.
    pub fn new() -> (r: Self)
        ensures
            r.view().history.done == Seq::<T>::empty(),
            r.view().history.undone == Seq::<T>::empty(),
            r.view().preview is None,
            r.view().active_tool is None,
            !r.view().dragging,
    {
        ToolSession { history: EditHistory::new(), preview: None, active_tool: None, dragging: false }
    }

    /// The history of committed operations.
    pub fn history(&self) -> (r: &EditHistory<T>)
        ensures
            r.view() == self.view().history,
    {
        &self.history
    }

    /// The active tool.
    pub fn active_tool(&self) -> (r: Option<ToolKind>)
        ensures
            r == self.view().active_tool,
    {
        self.active_tool
    }

    /// Makes `tool` the active tool.
    pub fn set_active_tool(&mut self, tool: Option<ToolKind>)
        ensures
            final(self).view() == (SessionView { active_tool: tool, ..old(self).view() }),
    {
        self.active_tool = tool;
    }

    /// Whether the active tool is being dragged.
    pub fn dragging(&self) -> (r: bool)
        ensures
            r == self.view().dragging,
    {
        self.dragging
    }

    /// Records whether the active tool is being dragged.
    pub fn set_dragging(&mut self, dragging: bool)
        ensures
            final(self).view() == (SessionView { dragging: dragging, ..old(self).view() }),
    {
        self.dragging = dragging;
    }

    /// The active tool's live preview, which is not in the history.
    pub fn preview(&self) -> (r: Option<&P>)
        ensures
            r == match self.view().preview {
                Some(p) => Some(&p),
                None => None::<&P>,
            },
    {
        match &self.preview {
            Some(p) => Some(p),
            None => None,
        }
    }

    /// Sets the active tool's live preview.
    pub fn set_preview(&mut self, preview: Option<P>)
        ensures
            final(self).view() == (SessionView { preview: preview, ..old(self).view() }),
    {
        self.preview = preview;
    }

    /// Commits `op` directly; nothing can be redone afterwards.
    pub fn commit(&mut self, op: T)
        ensures
            final(self).view() == (SessionView { history: committed(old(self).view().history, op), ..old(self).view() }),
    {
        self.history.commit(op);
    }

    /// Commits the live preview. `preview_commit` is what the preview's own
    /// `commit` gave for this session's preview. With a preview that gave an
    /// operation, the operation joins the history, the preview, the active
    /// tool and the drag end, and `true` is returned; otherwise nothing
    /// changes and `false` is returned.
    pub fn apply_tool(&mut self, preview_commit: Option<T>) -> (r: bool)
        ensures
            r == (old(self).view().preview is Some && preview_commit is Some),
            match preview_commit {
                Some(op) if r => final(self).view() == tool_applied(old(self).view(), op),
                _ => final(self).view() == old(self).view(),
            },
    {
        if self.preview.is_none() {
            return false;
        }
        match preview_commit {
            Some(op) => {
                self.history.commit(op);
                self.preview = None;
                self.active_tool = None;
                self.dragging = false;
                true
            },
            None => false,
        }
    }

    /// Cancels the active tool: the preview is dropped without committing.
    pub fn cancel_tool(&mut self)
        ensures
            final(self).view() == tool_cancelled(old(self).view()),
    {
        self.preview = None;
        self.active_tool = None;
        self.dragging = false;
    }

    /// Undoes the newest committed operation, which is returned.
    pub fn undo(&mut self) -> (r: Option<&T>)
        ensures
            final(self).view() == (SessionView { history: undone(old(self).view().history), ..old(self).view() }),
            old(self).view().history.done.len() == 0 ==> r is None,
            old(self).view().history.done.len() > 0 ==> r == Some(&old(self).view().history.done.last()),
    {
        self.history.undo()
    }

    /// Redoes the most recently undone operation, which is returned.
    pub fn redo(&mut self) -> (r: Option<&T>)
        ensures
            final(self).view() == (SessionView { history: redone(old(self).view().history), ..old(self).view() }),
            old(self).view().history.undone.len() == 0 ==> r is None,
            old(self).view().history.undone.len() > 0 ==> r == Some(&old(self).view().history.undone.last()),
    {
        self.history.redo()
    }

    /// Forgets every operation and the live preview.
    pub fn revert_all(&mut self)
        ensures
            final(self).view().history.done == Seq::<T>::empty(),
            final(self).view().history.undone == Seq::<T>::empty(),
            final(self).view().preview is None,
            final(self).view().active_tool == old(self).view().active_tool,
            final(self).view().dragging == old(self).view().dragging,
    {
        self.history.revert_all();
        self.preview = None;
    }
}

} // verus!
