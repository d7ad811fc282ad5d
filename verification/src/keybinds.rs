//! Menu actions and the keyboard shortcuts bound to them.
use vstd::prelude::*;
use crate::chars::chars_of;
use crate::messages::ContextMessage;

verus! {

/// An entry of the application menu.
#[derive(Debug, Clone, Copy, PartialEq, Eq, Hash, Structural)]
pub enum MenuAction {
    OpenFile,
    OpenFolder,
    OpenRecent(usize),
    OpenContaining,
    CloseFile,
    Save,
    SaveAs,
    ImageDetails,
    Print,
    Quit,
    Undo,
    Redo,
    RevertAll,
    Cut,
    Copy,
    Paste,
    CopyToClipboard,
    RotateLeft,
    RotateRight,
    ZoomIn,
    ZoomOut,
    ActualSize,
    FitToView,
    Fullscreen,
    SetWallpaper,
    MoveToTrash,
    About,
}

/// What a menu entry asks of the image view.
#[derive(Debug, Clone, Copy, PartialEq, Eq, Structural)]
pub enum CanvasRequest {
    ZoomIn,
    ZoomOut,
    ActualSize,
    FitToView,
    Fullscreen,
}

/// What a menu entry asks of the editing tools.
#[derive(Debug, Clone, Copy, PartialEq, Eq, Structural)]
pub enum EditRequest {
    RotateLeft,
    RotateRight,
    Undo,
    Redo,
    RevertAll,
}

/// The message the application receives when a menu entry is chosen.
#[derive(Debug, Clone, Copy, PartialEq, Eq, Structural)]
pub enum MenuMessage {
    OpenFileDialog,
    OpenFolderDialog,
    OpenRecent(usize),
    OpenContaining,
    CloseFile,
    Copy,
    CopyToClipboard,
    Cut,
    Paste,
    Save,
    SaveAs,
    Print,
    Quit,
    Context(ContextMessage),
    Canvas(CanvasRequest),
    Edit(EditRequest),
    SetWallpaper,
    MoveToTrash,
}

/// The message each menu entry sends: the file entries open dialogs or act
/// on the file, the details and about entries open a context page, the
/// zoom entries go to the image view and the rotate and history entries to
/// the editing tools.
pub open spec fn menu_message(a: MenuAction) -> MenuMessage {
    match a {
        MenuAction::OpenFile => MenuMessage::OpenFileDialog,
        MenuAction::OpenFolder => MenuMessage::OpenFolderDialog,
        MenuAction::OpenRecent(i) => MenuMessage::OpenRecent(i),
        MenuAction::OpenContaining => MenuMessage::OpenContaining,
        MenuAction::CloseFile => MenuMessage::CloseFile,
        MenuAction::Copy => MenuMessage::Copy,
        MenuAction::CopyToClipboard => MenuMessage::CopyToClipboard,
        MenuAction::Cut => MenuMessage::Cut,
        MenuAction::Paste => MenuMessage::Paste,
        MenuAction::Save => MenuMessage::Save,
        MenuAction::SaveAs => MenuMessage::SaveAs,
        MenuAction::Print => MenuMessage::Print,
        MenuAction::Quit => MenuMessage::Quit,
        MenuAction::ImageDetails => MenuMessage::Context(ContextMessage::ImageDetails),
        MenuAction::About => MenuMessage::Context(ContextMessage::About),
        MenuAction::ZoomIn => MenuMessage::Canvas(CanvasRequest::ZoomIn),
        MenuAction::ZoomOut => MenuMessage::Canvas(CanvasRequest::ZoomOut),
        MenuAction::ActualSize => MenuMessage::Canvas(CanvasRequest::ActualSize),
        MenuAction::FitToView => MenuMessage::Canvas(CanvasRequest::FitToView),
        MenuAction::Fullscreen => MenuMessage::Canvas(CanvasRequest::Fullscreen),
        MenuAction::RotateLeft => MenuMessage::Edit(EditRequest::RotateLeft),
        MenuAction::RotateRight => MenuMessage::Edit(EditRequest::RotateRight),
        MenuAction::Undo => MenuMessage::Edit(EditRequest::Undo),
        MenuAction::Redo => MenuMessage::Edit(EditRequest::Redo),
        MenuAction::RevertAll => MenuMessage::Edit(EditRequest::RevertAll),
        MenuAction::SetWallpaper => MenuMessage::SetWallpaper,
        MenuAction::MoveToTrash => MenuMessage::MoveToTrash,
    }
}

impl MenuAction {
    /// The message this menu entry sends.
    pub fn message(self) -> (m: MenuMessage)
        ensures
            m == menu_message(self),
    {
        match self {
            MenuAction::OpenFile => MenuMessage::OpenFileDialog,
            MenuAction::OpenFolder => MenuMessage::OpenFolderDialog,
            MenuAction::OpenRecent(i) => MenuMessage::OpenRecent(i),
            MenuAction::OpenContaining => MenuMessage::OpenContaining,
            MenuAction::CloseFile => MenuMessage::CloseFile,
            MenuAction::Copy => MenuMessage::Copy,
            MenuAction::CopyToClipboard => MenuMessage::CopyToClipboard,
            MenuAction::Cut => MenuMessage::Cut,
            MenuAction::Paste => MenuMessage::Paste,
            MenuAction::Save => MenuMessage::Save,
            MenuAction::SaveAs => MenuMessage::SaveAs,
            MenuAction::Print => MenuMessage::Print,
            MenuAction::Quit => MenuMessage::Quit,
            MenuAction::ImageDetails => MenuMessage::Context(ContextMessage::ImageDetails),
            MenuAction::About => MenuMessage::Context(ContextMessage::About),
            MenuAction::ZoomIn => MenuMessage::Canvas(CanvasRequest::ZoomIn),
            MenuAction::ZoomOut => MenuMessage::Canvas(CanvasRequest::ZoomOut),
            MenuAction::ActualSize => MenuMessage::Canvas(CanvasRequest::ActualSize),
            MenuAction::FitToView => MenuMessage::Canvas(CanvasRequest::FitToView),
            MenuAction::Fullscreen => MenuMessage::Canvas(CanvasRequest::Fullscreen),
            MenuAction::RotateLeft => MenuMessage::Edit(EditRequest::RotateLeft),
            MenuAction::RotateRight => MenuMessage::Edit(EditRequest::RotateRight),
            MenuAction::Undo => MenuMessage::Edit(EditRequest::Undo),
            MenuAction::Redo => MenuMessage::Edit(EditRequest::Redo),
            MenuAction::RevertAll => MenuMessage::Edit(EditRequest::RevertAll),
            MenuAction::SetWallpaper => MenuMessage::SetWallpaper,
            MenuAction::MoveToTrash => MenuMessage::MoveToTrash,
        }
    }
}

/// The modifier keys held with a key.
#[derive(Debug, Clone, Copy, PartialEq, Eq, Hash, Structural)]
pub struct Chord {
    pub ctrl: bool,
    pub shift: bool,
    pub alt: bool,
    pub logo: bool,
}

/// A shortcut: modifiers, the character of the key, and the action it triggers.
#[derive(Debug, Clone, Copy, PartialEq, Eq, Structural)]
pub struct Shortcut {
    pub chord: Chord,
    pub key: char,
    pub action: MenuAction,
}

pub open spec fn ctrl() -> Chord {
    Chord { ctrl: true, shift: false, alt: false, logo: false }
}

pub open spec fn ctrl_shift() -> Chord {
    Chord { ctrl: true, shift: true, alt: false, logo: false }
}

pub open spec fn sc(chord: Chord, key: char, action: MenuAction) -> Shortcut {
    Shortcut { chord, key, action }
}

/// The shortcuts in the order they are registered; a later binding of the same
/// keys replaces an earlier one.
pub open spec fn shortcut_table() -> Seq<Shortcut> {
    Seq::empty()
        .push(sc(ctrl(), 'o', MenuAction::OpenFile))
        .push(sc(ctrl_shift(), 'o', MenuAction::OpenFolder))
        .push(sc(ctrl(), 'q', MenuAction::Quit))
        .push(sc(ctrl_shift(), 'c', MenuAction::OpenContaining))
        .push(sc(ctrl(), 'w', MenuAction::CloseFile))
        .push(sc(ctrl(), 's', MenuAction::Save))
        .push(sc(ctrl_shift(), 's', MenuAction::SaveAs))
        .push(sc(ctrl(), 'd', MenuAction::ImageDetails))
        .push(sc(ctrl(), 'p', MenuAction::Print))
        .push(sc(ctrl(), 'q', MenuAction::Quit))
        .push(sc(ctrl(), '0', MenuAction::FitToView))
        .push(sc(ctrl(), '1', MenuAction::ActualSize))
        .push(sc(ctrl_shift(), 'f', MenuAction::Fullscreen))
        .push(sc(ctrl(), '=', MenuAction::ZoomIn))
        .push(sc(ctrl_shift(), '=', MenuAction::ZoomIn))
        .push(sc(ctrl(), '+', MenuAction::ZoomIn))
        .push(sc(ctrl_shift(), '+', MenuAction::ZoomIn))
        .push(sc(ctrl(), '-', MenuAction::ZoomOut))
        .push(sc(ctrl(), 'z', MenuAction::Undo))
        .push(sc(ctrl(), 'y', MenuAction::Redo))
        .push(sc(ctrl_shift(), 'z', MenuAction::RevertAll))
        .push(sc(ctrl(), 'x', MenuAction::Cut))
        .push(sc(ctrl(), 'c', MenuAction::Copy))
        .push(sc(ctrl_shift(), 'c', MenuAction::CopyToClipboard))
        .push(sc(ctrl(), 'v', MenuAction::Paste))
        .push(sc(ctrl(), 'r', MenuAction::RotateRight))
        .push(sc(ctrl_shift(), 'r', MenuAction::RotateLeft))
}

/// The action bound to `chord` with the key whose text is `key`: the last
/// registered shortcut for exactly those modifiers and that key, if any.
pub open spec fn bound_action(table: Seq<Shortcut>, chord: Chord, key: Seq<char>) -> Option<
    MenuAction,
>
    decreases table.len(),
{
    if table.len() == 0 {
        None
    } else if table.last().chord == chord && key == seq![table.last().key] {
        Some(table.last().action)
    } else {
        bound_action(table.drop_last(), chord, key)
    }
}

fn shortcut(chord: Chord, key: char, action: MenuAction) -> (r: Shortcut)
    ensures
        r == sc(chord, key, action),
{
    Shortcut { chord, key, action }
}

/// The registered shortcuts, in order.
pub fn init_keybinds() -> (r: Vec<Shortcut>)
    ensures
        r@ == shortcut_table(),
{
    let c = Chord { ctrl: true, shift: false, alt: false, logo: false };
    let cs = Chord { ctrl: true, shift: true, alt: false, logo: false };
    let mut v: Vec<Shortcut> = Vec::new();
    v.push(shortcut(c, 'o', MenuAction::OpenFile));
    v.push(shortcut(cs, 'o', MenuAction::OpenFolder));
    v.push(shortcut(c, 'q', MenuAction::Quit));
    v.push(shortcut(cs, 'c', MenuAction::OpenContaining));
    v.push(shortcut(c, 'w', MenuAction::CloseFile));
    v.push(shortcut(c, 's', MenuAction::Save));
    v.push(shortcut(cs, 's', MenuAction::SaveAs));
    v.push(shortcut(c, 'd', MenuAction::ImageDetails));
    v.push(shortcut(c, 'p', MenuAction::Print));
    v.push(shortcut(c, 'q', MenuAction::Quit));
    v.push(shortcut(c, '0', MenuAction::FitToView));
    v.push(shortcut(c, '1', MenuAction::ActualSize));
    v.push(shortcut(cs, 'f', MenuAction::Fullscreen));
    v.push(shortcut(c, '=', MenuAction::ZoomIn));
    v.push(shortcut(cs, '=', MenuAction::ZoomIn));
    v.push(shortcut(c, '+', MenuAction::ZoomIn));
    v.push(shortcut(cs, '+', MenuAction::ZoomIn));
    v.push(shortcut(c, '-', MenuAction::ZoomOut));
    v.push(shortcut(c, 'z', MenuAction::Undo));
    v.push(shortcut(c, 'y', MenuAction::Redo));
    v.push(shortcut(cs, 'z', MenuAction::RevertAll));
    v.push(shortcut(c, 'x', MenuAction::Cut));
    v.push(shortcut(c, 'c', MenuAction::Copy));
    v.push(shortcut(cs, 'c', MenuAction::CopyToClipboard));
    v.push(shortcut(c, 'v', MenuAction::Paste));
    v.push(shortcut(c, 'r', MenuAction::RotateRight));
    v.push(shortcut(cs, 'r', MenuAction::RotateLeft));
    assert(v@ =~= shortcut_table());
    v
}

/// The action for a key pressed with the given modifiers; `key` is the text of
/// a character key, `None` for a named key (which no shortcut uses).
pub fn keyboard_shortcut_handler(key: Option<&str>, chord: Chord) -> (r: Option<MenuAction>)
    ensures
        match key {
            Some(k) => r == bound_action(shortcut_table(), chord, k@),
            None => r is None,
        },
{
    let k = match key {
        Some(k) => k,
        None => return None,
    };
    assert(key == Some(k));
    let text = chars_of(k);
    let table = init_keybinds();
    let mut i = table.len();
    assert(table@.take(i as int) =~= table@);
    while i > 0
        invariant
            i <= table.len(),
            table@ == shortcut_table(),
            key == Some(k),
            text@ == k@,
            bound_action(shortcut_table(), chord, k@) == bound_action(
                table@.take(i as int),
                chord,
                k@,
            ),
        decreases i,
    {
        let e = table[i - 1];
        let ghost t = table@.take(i as int);
        assert(t.last() == e);
        assert(t.drop_last() =~= table@.take(i - 1));
        if e.chord == chord && text.len() == 1 && text[0] == e.key {
            assert(text@ =~= seq![e.key]);
            assert(t.len() > 0);
            assert(t.last().chord == chord);
            assert(bound_action(t, chord, k@) == Some(e.action));
            assert(bound_action(shortcut_table(), chord, k@) == Some(e.action));
            return Some(e.action);
        }
        proof {
            if k@ == seq![e.key] {
                assert(text@[0] == e.key);
            }
        }
        i -= 1;
    }
    None
}

/// The documented shortcuts: the action that Ctrl (or Ctrl+Shift) with a
/// key's character triggers.
pub open spec fn documented_shortcut(chord: Chord, key: Seq<char>) -> Option<MenuAction> {
    if key.len() != 1 {
        None
    } else if chord == ctrl() {
        let c = key[0];
        if c == 'o' { Some(MenuAction::OpenFile) }
        else if c == 'q' { Some(MenuAction::Quit) }
        else if c == 'w' { Some(MenuAction::CloseFile) }
        else if c == 's' { Some(MenuAction::Save) }
        else if c == 'd' { Some(MenuAction::ImageDetails) }
        else if c == 'p' { Some(MenuAction::Print) }
        else if c == '0' { Some(MenuAction::FitToView) }
        else if c == '1' { Some(MenuAction::ActualSize) }
        else if c == '=' || c == '+' { Some(MenuAction::ZoomIn) }
        else if c == '-' { Some(MenuAction::ZoomOut) }
        else if c == 'z' { Some(MenuAction::Undo) }
        else if c == 'y' { Some(MenuAction::Redo) }
        else if c == 'x' { Some(MenuAction::Cut) }
        else if c == 'c' { Some(MenuAction::Copy) }
        else if c == 'v' { Some(MenuAction::Paste) }
        else if c == 'r' { Some(MenuAction::RotateRight) }
        else { None }
    } else if chord == ctrl_shift() {
        let c = key[0];
        if c == 'o' { Some(MenuAction::OpenFolder) }
        else if c == 'c' { Some(MenuAction::CopyToClipboard) }
        else if c == 's' { Some(MenuAction::SaveAs) }
        else if c == 'f' { Some(MenuAction::Fullscreen) }
        else if c == '=' || c == '+' { Some(MenuAction::ZoomIn) }
        else if c == 'z' { Some(MenuAction::RevertAll) }
        else if c == 'r' { Some(MenuAction::RotateLeft) }
        else { None }
    } else {
        None
    }
}

/// Registering one more shortcut: it wins for its own keys, and every other
/// press keeps its action.
pub broadcast proof fn lemma_bound_after_register(t: Seq<Shortcut>, s: Shortcut, chord: Chord, key: Seq<char>)
    ensures
        #[trigger] bound_action(t.push(s), chord, key) == if s.chord == chord && key == seq![s.key] {
            Some(s.action)
        } else {
            bound_action(t, chord, key)
        },
{
    assert(t.push(s).drop_last() =~= t);
}

/// Every key press with modifiers triggers the documented action, and no
/// other press triggers anything.
pub proof fn lemma_documented_shortcuts(chord: Chord, key: Seq<char>)
    ensures
        bound_action(shortcut_table(), chord, key) == documented_shortcut(chord, key),
{
    broadcast use lemma_bound_after_register;
    assert(bound_action(Seq::<Shortcut>::empty(), chord, key) is None);
    if key.len() == 1 {
        assert(key == seq![key[0]]);
    }
}

/// Ctrl+Z undoes, Ctrl+Y redoes what it undid, and Ctrl+Shift+Z reverts
/// every edit; no other key press triggers these.
pub proof fn lemma_history_shortcuts(chord: Chord, key: Seq<char>)
    ensures
        bound_action(shortcut_table(), chord, key) == Some(MenuAction::Undo) <==> (chord == ctrl() && key == seq!['z']),
        bound_action(shortcut_table(), chord, key) == Some(MenuAction::Redo) <==> (chord == ctrl() && key == seq!['y']),
        bound_action(shortcut_table(), chord, key) == Some(MenuAction::RevertAll) <==> (chord == ctrl_shift() && key == seq!['z']),
{
    lemma_documented_shortcuts(chord, key);
    if key.len() == 1 {
        assert(key == seq![key[0]]);
    }
}

} // verus!
