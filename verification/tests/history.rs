use cosmic_viewer::history::EditHistory;

#[test]
fn undo_and_redo_move_operations() {
    let mut h: EditHistory<u32> = EditHistory::new();
    assert!(!h.can_undo());
    assert!(!h.can_redo());
    h.commit(1);
    h.commit(2);
    assert_eq!(h.operations(), &vec![1, 2]);
    assert_eq!(h.undo(), Some(&2));
    assert_eq!(h.operations(), &vec![1]);
    assert!(h.can_redo());
    assert_eq!(h.redo(), Some(&2));
    assert_eq!(h.operations(), &vec![1, 2]);
    assert!(!h.can_redo());
}

#[test]
fn commit_clears_redo() {
    let mut h: EditHistory<u32> = EditHistory::new();
    h.commit(1);
    h.undo();
    h.commit(3);
    assert!(!h.can_redo());
    assert_eq!(h.redo(), None);
    assert_eq!(h.operations(), &vec![3]);
}

#[test]
fn undo_on_empty_is_none() {
    let mut h: EditHistory<u32> = EditHistory::new();
    assert_eq!(h.undo(), None);
    assert_eq!(h.redo(), None);
}

#[test]
fn revert_all_empties() {
    let mut h: EditHistory<u32> = EditHistory::new();
    h.commit(1);
    h.commit(2);
    h.undo();
    h.revert_all();
    assert!(!h.can_undo());
    assert!(!h.can_redo());
}
