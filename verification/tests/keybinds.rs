use cosmic_viewer::keybinds::{
    init_keybinds, keyboard_shortcut_handler, CanvasRequest, Chord, EditRequest, MenuAction,
    MenuMessage,
};
use cosmic_viewer::messages::ContextMessage;

const NONE: Chord = Chord { ctrl: false, shift: false, alt: false, logo: false };
const CTRL: Chord = Chord { ctrl: true, shift: false, alt: false, logo: false };
const CTRL_SHIFT: Chord = Chord { ctrl: true, shift: true, alt: false, logo: false };

#[test]
fn shortcuts_map_to_actions() {
    assert_eq!(keyboard_shortcut_handler(Some("o"), CTRL), Some(MenuAction::OpenFile));
    assert_eq!(keyboard_shortcut_handler(Some("o"), CTRL_SHIFT), Some(MenuAction::OpenFolder));
    assert_eq!(keyboard_shortcut_handler(Some("z"), CTRL), Some(MenuAction::Undo));
    assert_eq!(keyboard_shortcut_handler(Some("z"), CTRL_SHIFT), Some(MenuAction::RevertAll));
    assert_eq!(keyboard_shortcut_handler(Some("="), CTRL), Some(MenuAction::ZoomIn));
    assert_eq!(keyboard_shortcut_handler(Some("-"), CTRL), Some(MenuAction::ZoomOut));
    assert_eq!(keyboard_shortcut_handler(Some("r"), CTRL_SHIFT), Some(MenuAction::RotateLeft));
}

#[test]
fn later_binding_wins() {
    assert_eq!(keyboard_shortcut_handler(Some("c"), CTRL_SHIFT), Some(MenuAction::CopyToClipboard));
}

#[test]
fn unbound_keys_give_nothing() {
    assert_eq!(keyboard_shortcut_handler(Some("o"), NONE), None);
    assert_eq!(keyboard_shortcut_handler(Some("k"), CTRL), None);
    assert_eq!(keyboard_shortcut_handler(Some("oo"), CTRL), None);
    assert_eq!(keyboard_shortcut_handler(None, CTRL), None);
}

#[test]
fn table_has_every_registration() {
    let t = init_keybinds();
    assert_eq!(t.len(), 27);
    assert_eq!(t[0].key, 'o');
    assert_eq!(t[0].action, MenuAction::OpenFile);
    assert_eq!(t[26].action, MenuAction::RotateLeft);
}

#[test]
fn menu_entries_send_their_messages() {
    assert_eq!(MenuAction::OpenFile.message(), MenuMessage::OpenFileDialog);
    assert_eq!(MenuAction::OpenRecent(3).message(), MenuMessage::OpenRecent(3));
    assert_eq!(
        MenuAction::ImageDetails.message(),
        MenuMessage::Context(ContextMessage::ImageDetails)
    );
    assert_eq!(MenuAction::About.message(), MenuMessage::Context(ContextMessage::About));
    assert_eq!(MenuAction::ActualSize.message(), MenuMessage::Canvas(CanvasRequest::ActualSize));
    assert_eq!(MenuAction::RotateLeft.message(), MenuMessage::Edit(EditRequest::RotateLeft));
    assert_eq!(MenuAction::RevertAll.message(), MenuMessage::Edit(EditRequest::RevertAll));
    assert_eq!(MenuAction::MoveToTrash.message(), MenuMessage::MoveToTrash);
}
