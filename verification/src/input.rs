//! Where a key press goes: the decision chain of the viewer window, from the
//! state of the window and the key to one action.
use vstd::prelude::*;
use crate::formats::str_eq;
use crate::keybinds::{
    bound_action, documented_shortcut, keyboard_shortcut_handler, lemma_documented_shortcuts, shortcut_table,
    Chord, MenuAction,
};
use crate::tools::ToolKind;

verus! {

/// The named (non-character) keys the window reacts to.
#[derive(Debug, Clone, Copy, PartialEq, Eq, Structural)]
pub enum NamedKey {
    Escape,
    Enter,
    Delete,
    Backspace,
    ArrowLeft,
    ArrowRight,
    ArrowUp,
    ArrowDown,
    Home,
    End,
    Shift,
    Control,
    Alt,
    Super,
    CapsLock,
    Other,
}

/// A pressed key: a named key, or a character key with its text.
#[derive(Debug, Clone)]
pub enum KeyInput {
    Named(NamedKey),
    Character(String),
    Unidentified,
}

/// The state of the window that decides where a key goes.
#[derive(Debug, Clone, Copy)]
pub struct KeyContext {
    /// A context menu is open.
    pub context_menu_open: bool,
    /// The tool active on the canvas.
    pub active_tool: Option<ToolKind>,
    /// The canvas is in move mode.
    pub move_mode: bool,
    /// The colour picker is open.
    pub picker_open: bool,
    /// A text box is being edited.
    pub text_editing: bool,
    /// The window is full screen.
    pub fullscreen: bool,
    /// The navigation bar has the keyboard.
    pub nav_bar_active: bool,
    /// The index of the current image.
    pub index: usize,
    /// The number of images.
    pub total: usize,
}

/// Cursor movements inside a text box.
#[derive(Debug, Clone, Copy, PartialEq, Eq, Structural)]
pub enum Motion {
    Left,
    Right,
    Up,
    Down,
    Home,
    End,
}

/// What a key press does.
#[derive(Debug, Clone, Copy, PartialEq, Eq, Structural)]
pub enum KeyRoute {
    CloseContextMenu,
    CropApply,
    CropCancel,
    ExitMoveMode,
    TogglePicker,
    FinishAnnotation,
    ToggleFullscreen,
    MoveToTrash,
    ToggleBold,
    ToggleItalic,
    ToggleUnderline,
    SelectAll,
    CopySelection,
    PasteText,
    CutSelection,
    /// A line break inside the text box.
    TextNewline,
    /// Close the text box and keep its text.
    CommitText,
    Backspace,
    DeleteForward,
    /// Move the text cursor, extending the selection when the flag is set.
    Move(Motion, bool),
    InsertSpace,
    /// Insert the text the key produced.
    InsertText,
    /// Show the image at this index.
    Activate(usize),
    /// Run a menu action bound to the key.
    Menu(MenuAction),
    Nothing,
}

/// A routed key press: the action, and whether the text box's formatting
/// buttons are to follow the cursor afterwards.
#[derive(Debug, Clone, Copy, PartialEq, Eq, Structural)]
pub struct KeyOutcome {
    pub route: KeyRoute,
    pub sync_format: bool,
}

/// Whether `key` is the named key `n`.
pub open spec fn is_named(key: KeyInput, n: NamedKey) -> bool {
    key matches KeyInput::Named(k) && k == n
}

/// Whether `key` is a character key with text `t`.
pub open spec fn is_char(key: KeyInput, t: Seq<char>) -> bool {
    key matches KeyInput::Character(c) && c@ == t
}

/// The route of a key inside a text box being edited, with Ctrl held.
pub open spec fn text_ctrl_route(key: KeyInput) -> KeyRoute {
    if is_char(key, "b"@) {
        KeyRoute::ToggleBold
    } else if is_char(key, "i"@) {
        KeyRoute::ToggleItalic
    } else if is_char(key, "u"@) {
        KeyRoute::ToggleUnderline
    } else if is_char(key, "a"@) {
        KeyRoute::SelectAll
    } else if is_char(key, "c"@) {
        KeyRoute::CopySelection
    } else if is_char(key, "v"@) {
        KeyRoute::PasteText
    } else if is_char(key, "x"@) {
        KeyRoute::CutSelection
    } else {
        KeyRoute::Nothing
    }
}

/// The route of a key inside a text box being edited, without Ctrl.
pub open spec fn text_route(key: KeyInput, shift: bool, has_text: bool) -> KeyRoute {
    if is_named(key, NamedKey::Enter) && shift {
        KeyRoute::TextNewline
    } else if is_named(key, NamedKey::Enter) || is_named(key, NamedKey::Escape) {
        KeyRoute::CommitText
    } else if is_named(key, NamedKey::Backspace) {
        KeyRoute::Backspace
    } else if is_named(key, NamedKey::Delete) {
        KeyRoute::DeleteForward
    } else if is_named(key, NamedKey::ArrowLeft) {
        KeyRoute::Move(Motion::Left, shift)
    } else if is_named(key, NamedKey::ArrowRight) {
        KeyRoute::Move(Motion::Right, shift)
    } else if is_named(key, NamedKey::ArrowUp) {
        KeyRoute::Move(Motion::Up, shift)
    } else if is_named(key, NamedKey::ArrowDown) {
        KeyRoute::Move(Motion::Down, shift)
    } else if is_named(key, NamedKey::Home) {
        KeyRoute::Move(Motion::Home, shift)
    } else if is_named(key, NamedKey::End) {
        KeyRoute::Move(Motion::End, shift)
    } else if is_char(key, " "@) {
        KeyRoute::InsertSpace
    } else if has_text {
        KeyRoute::InsertText
    } else {
        KeyRoute::Nothing
    }
}

/// Whether `key` is a modifier key.
pub open spec fn is_modifier_key(key: KeyInput) -> bool {
    ||| is_named(key, NamedKey::Shift)
    ||| is_named(key, NamedKey::Control)
    ||| is_named(key, NamedKey::Alt)
    ||| is_named(key, NamedKey::Super)
    ||| is_named(key, NamedKey::CapsLock)
}

/// The menu action bound to `key` with modifiers `mods`.
pub open spec fn shortcut_of(key: KeyInput, mods: Chord) -> Option<MenuAction> {
    match key {
        KeyInput::Character(c) => bound_action(shortcut_table(), mods, c@),
        _ => None,
    }
}

/// Where a key goes, in order of precedence: an open context menu takes
/// Escape; the crop tool takes Enter and Escape; move mode, the colour
/// picker, the annotation tool (outside a text box) and full screen take
/// Escape; Delete with no tool trashes the image; a text box being edited
/// takes every other key; the left and right arrows step through the images
/// unless the navigation bar has the keyboard; the rest are shortcuts.
pub open spec fn key_outcome(ctx: KeyContext, key: KeyInput, mods: Chord, has_text: bool) -> KeyOutcome {
    let esc = is_named(key, NamedKey::Escape);
    let plain = |r: KeyRoute| KeyOutcome { route: r, sync_format: false };
    if ctx.context_menu_open && esc {
        plain(KeyRoute::CloseContextMenu)
    } else if is_named(key, NamedKey::Enter) && ctx.active_tool == Some(ToolKind::Crop) {
        plain(KeyRoute::CropApply)
    } else if esc && ctx.active_tool == Some(ToolKind::Crop) {
        plain(KeyRoute::CropCancel)
    } else if ctx.move_mode && esc {
        plain(KeyRoute::ExitMoveMode)
    } else if ctx.picker_open && esc {
        plain(KeyRoute::TogglePicker)
    } else if esc && ctx.active_tool == Some(ToolKind::Annotate) && !ctx.text_editing {
        plain(KeyRoute::FinishAnnotation)
    } else if ctx.fullscreen && esc {
        plain(KeyRoute::ToggleFullscreen)
    } else if is_named(key, NamedKey::Delete) && ctx.active_tool is None {
        plain(KeyRoute::MoveToTrash)
    } else if ctx.text_editing {
        if mods.ctrl {
            plain(text_ctrl_route(key))
        } else {
            KeyOutcome {
                route: text_route(key, mods.shift, has_text),
                sync_format: !is_modifier_key(key),
            }
        }
    } else if !ctx.nav_bar_active && is_named(key, NamedKey::ArrowLeft) {
        if ctx.index > 0 {
            plain(KeyRoute::Activate((ctx.index - 1) as usize))
        } else {
            plain(KeyRoute::Nothing)
        }
    } else if !ctx.nav_bar_active && is_named(key, NamedKey::ArrowRight) {
        if ctx.index + 1 < ctx.total {
            plain(KeyRoute::Activate((ctx.index + 1) as usize))
        } else {
            plain(KeyRoute::Nothing)
        }
    } else {
        match shortcut_of(key, mods) {
            Some(a) => plain(KeyRoute::Menu(a)),
            None => plain(KeyRoute::Nothing),
        }
    }
}

fn named_is(key: &KeyInput, n: NamedKey) -> (r: bool)
    ensures
        r == is_named(*key, n),
{
    match key {
        KeyInput::Named(k) => *k == n,
        _ => false,
    }
}

fn char_is(key: &KeyInput, t: &str) -> (r: bool)
    ensures
        r == is_char(*key, t@),
{
    match key {
        KeyInput::Character(c) => str_eq(c.as_str(), t),
        _ => false,
    }
}

fn text_ctrl_action(key: &KeyInput) -> (r: KeyRoute)
    ensures
        r == text_ctrl_route(*key),
{
    if char_is(key, "b") {
        KeyRoute::ToggleBold
    } else if char_is(key, "i") {
        KeyRoute::ToggleItalic
    } else if char_is(key, "u") {
        KeyRoute::ToggleUnderline
    } else if char_is(key, "a") {
        KeyRoute::SelectAll
    } else if char_is(key, "c") {
        KeyRoute::CopySelection
    } else if char_is(key, "v") {
        KeyRoute::PasteText
    } else if char_is(key, "x") {
        KeyRoute::CutSelection
    } else {
        KeyRoute::Nothing
    }
}

fn text_action(key: &KeyInput, shift: bool, has_text: bool) -> (r: KeyRoute)
    ensures
        r == text_route(*key, shift, has_text),
{
    if named_is(key, NamedKey::Enter) && shift {
        KeyRoute::TextNewline
    } else if named_is(key, NamedKey::Enter) || named_is(key, NamedKey::Escape) {
        KeyRoute::CommitText
    } else if named_is(key, NamedKey::Backspace) {
        KeyRoute::Backspace
    } else if named_is(key, NamedKey::Delete) {
        KeyRoute::DeleteForward
    } else if named_is(key, NamedKey::ArrowLeft) {
        KeyRoute::Move(Motion::Left, shift)
    } else if named_is(key, NamedKey::ArrowRight) {
        KeyRoute::Move(Motion::Right, shift)
    } else if named_is(key, NamedKey::ArrowUp) {
        KeyRoute::Move(Motion::Up, shift)
    } else if named_is(key, NamedKey::ArrowDown) {
        KeyRoute::Move(Motion::Down, shift)
    } else if named_is(key, NamedKey::Home) {
        KeyRoute::Move(Motion::Home, shift)
    } else if named_is(key, NamedKey::End) {
        KeyRoute::Move(Motion::End, shift)
    } else if char_is(key, " ") {
        KeyRoute::InsertSpace
    } else if has_text {
        KeyRoute::InsertText
    } else {
        KeyRoute::Nothing
    }
}

/// Routes a key press; `text` is the text the key produced, if any.
pub fn route_key(ctx: &KeyContext, key: &KeyInput, mods: Chord, text: Option<&str>) -> (r: KeyOutcome)
    ensures
        r == key_outcome(*ctx, *key, mods, text is Some),
{
    let esc = named_is(key, NamedKey::Escape);
    let crop = match ctx.active_tool {
        Some(ToolKind::Crop) => true,
        _ => false,
    };
    let annotate = match ctx.active_tool {
        Some(ToolKind::Annotate) => true,
        _ => false,
    };
    let no_tool = ctx.active_tool.is_none();
    let plain = |r: KeyRoute| -> (o: KeyOutcome)
        ensures
            o == (KeyOutcome { route: r, sync_format: false }),
        { KeyOutcome { route: r, sync_format: false } };
    if ctx.context_menu_open && esc {
        plain(KeyRoute::CloseContextMenu)
    } else if named_is(key, NamedKey::Enter) && crop {
        plain(KeyRoute::CropApply)
    } else if esc && crop {
        plain(KeyRoute::CropCancel)
    } else if ctx.move_mode && esc {
        plain(KeyRoute::ExitMoveMode)
    } else if ctx.picker_open && esc {
        plain(KeyRoute::TogglePicker)
    } else if esc && annotate && !ctx.text_editing {
        plain(KeyRoute::FinishAnnotation)
    } else if ctx.fullscreen && esc {
        plain(KeyRoute::ToggleFullscreen)
    } else if named_is(key, NamedKey::Delete) && no_tool {
        plain(KeyRoute::MoveToTrash)
    } else if ctx.text_editing {
        if mods.ctrl {
            plain(text_ctrl_action(key))
        } else {
            let modifier = named_is(key, NamedKey::Shift) || named_is(key, NamedKey::Control)
                || named_is(key, NamedKey::Alt) || named_is(key, NamedKey::Super) || named_is(
                key,
                NamedKey::CapsLock,
            );
            KeyOutcome { route: text_action(key, mods.shift, text.is_some()), sync_format: !modifier }
        }
    } else if !ctx.nav_bar_active && named_is(key, NamedKey::ArrowLeft) {
        if ctx.index > 0 {
            plain(KeyRoute::Activate(ctx.index - 1))
        } else {
            plain(KeyRoute::Nothing)
        }
    } else if !ctx.nav_bar_active && named_is(key, NamedKey::ArrowRight) {
        if ctx.index < ctx.total && ctx.total - ctx.index > 1 {
            plain(KeyRoute::Activate(ctx.index + 1))
        } else {
            plain(KeyRoute::Nothing)
        }
    } else {
        let found = match key {
            KeyInput::Character(c) => keyboard_shortcut_handler(Some(c.as_str()), mods),
            _ => None,
        };
        match found {
            Some(a) => plain(KeyRoute::Menu(a)),
            None => plain(KeyRoute::Nothing),
        }
    }
}

/// The image shown after the current image `current` of `total` is moved to
/// the trash: the previous one, else the second one, else none.
pub open spec fn after_trash(current: Option<usize>, total: usize) -> Option<usize> {
    match current {
        Some(idx) => if idx > 0 {
            Some((idx - 1) as usize)
        } else if total > 1 {
            Some(1usize)
        } else {
            None
        },
        None => None,
    }
}

/// The image to show after the current one is moved to the trash.
pub fn next_after_trash(current: Option<usize>, total: usize) -> (r: Option<usize>)
    ensures
        r == after_trash(current, total),
{
    match current {
        Some(idx) => if idx > 0 {
            Some(idx - 1)
        } else if total > 1 {
            Some(1)
        } else {
            None
        },
        None => None,
    }
}

/// The character key whose text is the single character `c`.
pub open spec fn char_key(key: KeyInput, c: char) -> bool {
    key matches KeyInput::Character(t) && t@ == seq![c]
}

/// In a text box being edited, a character key pressed with Ctrl edits the
/// text, whatever else the window shows: Ctrl+C copies the selection, Ctrl+V
/// pastes, Ctrl+X cuts, Ctrl+A selects all, Ctrl+B, Ctrl+I and Ctrl+U toggle
/// bold, italic and underline, and any other character does nothing.
pub proof fn lemma_text_box_ctrl_keys(ctx: KeyContext, key: KeyInput, mods: Chord, has_text: bool)
    requires
        ctx.text_editing,
        mods.ctrl,
        key is Character,
    ensures
        char_key(key, 'c') ==> key_outcome(ctx, key, mods, has_text) == (KeyOutcome { route: KeyRoute::CopySelection, sync_format: false }),
        char_key(key, 'v') ==> key_outcome(ctx, key, mods, has_text) == (KeyOutcome { route: KeyRoute::PasteText, sync_format: false }),
        char_key(key, 'x') ==> key_outcome(ctx, key, mods, has_text) == (KeyOutcome { route: KeyRoute::CutSelection, sync_format: false }),
        char_key(key, 'a') ==> key_outcome(ctx, key, mods, has_text) == (KeyOutcome { route: KeyRoute::SelectAll, sync_format: false }),
        char_key(key, 'b') ==> key_outcome(ctx, key, mods, has_text) == (KeyOutcome { route: KeyRoute::ToggleBold, sync_format: false }),
        char_key(key, 'i') ==> key_outcome(ctx, key, mods, has_text) == (KeyOutcome { route: KeyRoute::ToggleItalic, sync_format: false }),
        char_key(key, 'u') ==> key_outcome(ctx, key, mods, has_text) == (KeyOutcome { route: KeyRoute::ToggleUnderline, sync_format: false }),
        !(char_key(key, 'c') || char_key(key, 'v') || char_key(key, 'x') || char_key(key, 'a')
            || char_key(key, 'b') || char_key(key, 'i') || char_key(key, 'u')) ==> key_outcome(ctx, key, mods, has_text)
            == (KeyOutcome { route: KeyRoute::Nothing, sync_format: false }),
{
    reveal_strlit("b");
    reveal_strlit("i");
    reveal_strlit("u");
    reveal_strlit("a");
    reveal_strlit("c");
    reveal_strlit("v");
    reveal_strlit("x");
    assert("b"@ =~= seq!['b']);
    assert("i"@ =~= seq!['i']);
    assert("u"@ =~= seq!['u']);
    assert("a"@ =~= seq!['a']);
    assert("c"@ =~= seq!['c']);
    assert("v"@ =~= seq!['v']);
    assert("x"@ =~= seq!['x']);
    if let KeyInput::Character(t) = key {
        if t@.len() == 1 {
            assert(t@ == seq![t@[0]]);
        }
        if t@ == seq!['c'] || t@ == seq!['v'] {
            assert(t@[0] != 'b' && t@[0] != 'i' && t@[0] != 'u' && t@[0] != 'a');
            assert(t@ != "b"@ && t@ != "i"@ && t@ != "u"@ && t@ != "a"@);
        }
        if t@ == seq!['v'] {
            assert(t@ != "c"@) by { assert(t@[0] != "c"@[0]); }
        }
    }
}

/// A route with the formatting buttons left as they are.
pub open spec fn plain_route(r: KeyRoute) -> KeyOutcome {
    KeyOutcome { route: r, sync_format: false }
}

/// Escape goes to the first of these that is open: the context menu, the
/// crop tool (which Escape cancels and Enter applies), move mode, the colour
/// picker, then full screen.
pub proof fn lemma_escape_precedence(ctx: KeyContext, key: KeyInput, mods: Chord, has_text: bool)
    ensures
        is_named(key, NamedKey::Escape) && ctx.context_menu_open ==> key_outcome(ctx, key, mods, has_text)
            == plain_route(KeyRoute::CloseContextMenu),
        is_named(key, NamedKey::Escape) && !ctx.context_menu_open && ctx.active_tool == Some(ToolKind::Crop)
            ==> key_outcome(ctx, key, mods, has_text) == plain_route(KeyRoute::CropCancel),
        is_named(key, NamedKey::Enter) && ctx.active_tool == Some(ToolKind::Crop) ==> key_outcome(ctx, key, mods, has_text)
            == plain_route(KeyRoute::CropApply),
        is_named(key, NamedKey::Escape) && !ctx.context_menu_open && ctx.active_tool != Some(ToolKind::Crop)
            && ctx.move_mode ==> key_outcome(ctx, key, mods, has_text) == plain_route(KeyRoute::ExitMoveMode),
        is_named(key, NamedKey::Escape) && !ctx.context_menu_open && ctx.active_tool != Some(ToolKind::Crop)
            && !ctx.move_mode && ctx.picker_open ==> key_outcome(ctx, key, mods, has_text) == plain_route(
            KeyRoute::TogglePicker,
        ),
        is_named(key, NamedKey::Escape) && ctx.active_tool is None && !ctx.context_menu_open && !ctx.move_mode
            && !ctx.picker_open && ctx.fullscreen ==> key_outcome(ctx, key, mods, has_text) == plain_route(
            KeyRoute::ToggleFullscreen,
        ),
{
}

/// Outside a text box and with the navigation bar idle, the left arrow shows
/// the previous image and the right arrow the next one; at either end of
/// the list nothing happens.
pub proof fn lemma_arrow_navigation(ctx: KeyContext, key: KeyInput, mods: Chord, has_text: bool)
    requires
        !ctx.text_editing,
        !ctx.nav_bar_active,
    ensures
        is_named(key, NamedKey::ArrowLeft) ==> key_outcome(ctx, key, mods, has_text) == plain_route(
            if ctx.index > 0 { KeyRoute::Activate((ctx.index - 1) as usize) } else { KeyRoute::Nothing },
        ),
        is_named(key, NamedKey::ArrowRight) ==> key_outcome(ctx, key, mods, has_text) == plain_route(
            if ctx.index + 1 < ctx.total { KeyRoute::Activate((ctx.index + 1) as usize) } else { KeyRoute::Nothing },
        ),
{
}

/// Outside a text box, a character key runs the menu action documented for
/// it with the held modifiers, and does nothing when none is.
pub proof fn lemma_character_shortcuts(ctx: KeyContext, t: String, mods: Chord, has_text: bool)
    requires
        !ctx.text_editing,
    ensures
        key_outcome(ctx, KeyInput::Character(t), mods, has_text) == plain_route(
            match documented_shortcut(mods, t@) {
                Some(a) => KeyRoute::Menu(a),
                None => KeyRoute::Nothing,
            },
        ),
{
    lemma_documented_shortcuts(mods, t@);
}

/// In a text box being edited, keys without Ctrl edit the text: Shift+Enter
/// breaks the line, Enter and Escape (when no menu, tool, mode, picker or
/// full screen takes Escape) close the box keeping its text, Backspace and
/// Delete remove a character, the arrows, Home and End move the cursor
/// (extending the selection with Shift), space inserts a space and other
/// keys insert their text. The formatting buttons follow the cursor after
/// every key but a modifier.
pub proof fn lemma_text_box_keys(ctx: KeyContext, key: KeyInput, mods: Chord, has_text: bool)
    requires
        ctx.text_editing,
        !mods.ctrl,
        ctx.active_tool != Some(ToolKind::Crop),
        !ctx.context_menu_open,
        !ctx.move_mode,
        !ctx.picker_open,
        !ctx.fullscreen,
        !(is_named(key, NamedKey::Delete) && ctx.active_tool is None),
    ensures
        key_outcome(ctx, key, mods, has_text).sync_format == !is_modifier_key(key),
        is_named(key, NamedKey::Enter) && mods.shift ==> key_outcome(ctx, key, mods, has_text).route == KeyRoute::TextNewline,
        is_named(key, NamedKey::Enter) && !mods.shift ==> key_outcome(ctx, key, mods, has_text).route == KeyRoute::CommitText,
        is_named(key, NamedKey::Escape) ==> key_outcome(ctx, key, mods, has_text).route == KeyRoute::CommitText,
        is_named(key, NamedKey::Backspace) ==> key_outcome(ctx, key, mods, has_text).route == KeyRoute::Backspace,
        is_named(key, NamedKey::Delete) ==> key_outcome(ctx, key, mods, has_text).route == KeyRoute::DeleteForward,
        is_named(key, NamedKey::ArrowLeft) ==> key_outcome(ctx, key, mods, has_text).route == KeyRoute::Move(Motion::Left, mods.shift),
        is_named(key, NamedKey::ArrowRight) ==> key_outcome(ctx, key, mods, has_text).route == KeyRoute::Move(Motion::Right, mods.shift),
        is_named(key, NamedKey::ArrowUp) ==> key_outcome(ctx, key, mods, has_text).route == KeyRoute::Move(Motion::Up, mods.shift),
        is_named(key, NamedKey::ArrowDown) ==> key_outcome(ctx, key, mods, has_text).route == KeyRoute::Move(Motion::Down, mods.shift),
        is_named(key, NamedKey::Home) ==> key_outcome(ctx, key, mods, has_text).route == KeyRoute::Move(Motion::Home, mods.shift),
        is_named(key, NamedKey::End) ==> key_outcome(ctx, key, mods, has_text).route == KeyRoute::Move(Motion::End, mods.shift),
        char_key(key, ' ') ==> key_outcome(ctx, key, mods, has_text).route == KeyRoute::InsertSpace,
        key is Character && !char_key(key, ' ') && has_text ==> key_outcome(ctx, key, mods, has_text).route == KeyRoute::InsertText,
{
    reveal_strlit(" ");
    assert(" "@ =~= seq![' ']);
}

} // verus!
