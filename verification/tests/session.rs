use cosmic_viewer::session::ToolSession;
use cosmic_viewer::tools::ToolKind;

fn session_with_preview() -> ToolSession<&'static str, u32> {
    let mut s: ToolSession<&'static str, u32> = ToolSession::new();
    s.commit(1);
    s.commit(2);
    s.undo();
    s.set_active_tool(Some(ToolKind::Crop));
    s.set_dragging(true);
    s.set_preview(Some("crop preview"));
    s
}

#[test]
fn apply_tool_commits_the_preview_and_resets_the_tool() {
    let mut s = session_with_preview();
    assert!(s.apply_tool(Some(7)));
    assert_eq!(s.history().operations(), &vec![1, 7]);
    assert!(!s.history().can_redo());
    assert!(s.preview().is_none());
    assert_eq!(s.active_tool(), None);
    assert!(!s.dragging());
}

#[test]
fn apply_tool_without_a_committed_operation_changes_nothing() {
    let mut s = session_with_preview();
    assert!(!s.apply_tool(None));
    assert_eq!(s.history().operations(), &vec![1]);
    assert!(s.history().can_redo());
    assert_eq!(s.preview(), Some(&"crop preview"));
    assert_eq!(s.active_tool(), Some(ToolKind::Crop));
    assert!(s.dragging());
}

#[test]
fn apply_tool_without_a_preview_changes_nothing() {
    let mut s: ToolSession<&'static str, u32> = ToolSession::new();
    s.set_active_tool(Some(ToolKind::Annotate));
    assert!(!s.apply_tool(Some(3)));
    assert!(s.history().operations().is_empty());
    assert_eq!(s.active_tool(), Some(ToolKind::Annotate));
}

#[test]
fn cancel_tool_drops_the_preview_only() {
    let mut s = session_with_preview();
    s.cancel_tool();
    assert!(s.preview().is_none());
    assert_eq!(s.active_tool(), None);
    assert!(!s.dragging());
    assert_eq!(s.history().operations(), &vec![1]);
    assert!(s.history().can_redo());
}

#[test]
fn revert_all_forgets_operations_and_preview() {
    let mut s = session_with_preview();
    s.revert_all();
    assert!(s.history().operations().is_empty());
    assert!(!s.history().can_redo());
    assert!(s.preview().is_none());
    assert_eq!(s.active_tool(), Some(ToolKind::Crop));
}
