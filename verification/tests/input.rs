use cosmic_viewer::config::WallpaperBehavior;
use cosmic_viewer::input::{
    next_after_trash, route_key, KeyContext, KeyInput, KeyOutcome, KeyRoute, Motion, NamedKey,
};
use cosmic_viewer::keybinds::{Chord, MenuAction};
use cosmic_viewer::tools::ToolKind;
use cosmic_viewer::wallpaper::{wallpaper_plan, WallpaperPlan};

const NONE: Chord = Chord { ctrl: false, shift: false, alt: false, logo: false };
const CTRL: Chord = Chord { ctrl: true, shift: false, alt: false, logo: false };
const SHIFT: Chord = Chord { ctrl: false, shift: true, alt: false, logo: false };

fn idle() -> KeyContext {
    KeyContext {
        context_menu_open: false,
        active_tool: None,
        move_mode: false,
        picker_open: false,
        text_editing: false,
        fullscreen: false,
        nav_bar_active: false,
        index: 1,
        total: 3,
    }
}

fn route(ctx: &KeyContext, key: KeyInput, mods: Chord, text: Option<&str>) -> KeyRoute {
    route_key(ctx, &key, mods, text).route
}

fn named(n: NamedKey) -> KeyInput {
    KeyInput::Named(n)
}

fn ch(s: &str) -> KeyInput {
    KeyInput::Character(s.to_string())
}

#[test]
fn escape_precedence() {
    let mut ctx = idle();
    ctx.context_menu_open = true;
    ctx.active_tool = Some(ToolKind::Crop);
    assert_eq!(route(&ctx, named(NamedKey::Escape), NONE, None), KeyRoute::CloseContextMenu);
    ctx.context_menu_open = false;
    assert_eq!(route(&ctx, named(NamedKey::Escape), NONE, None), KeyRoute::CropCancel);
    assert_eq!(route(&ctx, named(NamedKey::Enter), NONE, None), KeyRoute::CropApply);
    ctx.active_tool = Some(ToolKind::Annotate);
    ctx.move_mode = true;
    assert_eq!(route(&ctx, named(NamedKey::Escape), NONE, None), KeyRoute::ExitMoveMode);
    ctx.move_mode = false;
    ctx.picker_open = true;
    assert_eq!(route(&ctx, named(NamedKey::Escape), NONE, None), KeyRoute::TogglePicker);
    ctx.picker_open = false;
    assert_eq!(route(&ctx, named(NamedKey::Escape), NONE, None), KeyRoute::FinishAnnotation);
    ctx.active_tool = None;
    ctx.fullscreen = true;
    assert_eq!(route(&ctx, named(NamedKey::Escape), NONE, None), KeyRoute::ToggleFullscreen);
}

#[test]
fn delete_trashes_without_tool() {
    let mut ctx = idle();
    assert_eq!(route(&ctx, named(NamedKey::Delete), NONE, None), KeyRoute::MoveToTrash);
    ctx.active_tool = Some(ToolKind::Pan);
    assert_eq!(route(&ctx, named(NamedKey::Delete), NONE, None), KeyRoute::Nothing);
}

#[test]
fn text_box_takes_keys() {
    let mut ctx = idle();
    ctx.text_editing = true;
    ctx.active_tool = Some(ToolKind::Annotate);
    assert_eq!(route(&ctx, ch("b"), CTRL, Some("b")), KeyRoute::ToggleBold);
    assert_eq!(route(&ctx, ch("x"), CTRL, None), KeyRoute::CutSelection);
    assert_eq!(route(&ctx, ch("q"), CTRL, None), KeyRoute::Nothing);
    assert_eq!(route(&ctx, named(NamedKey::Enter), SHIFT, None), KeyRoute::TextNewline);
    assert_eq!(route(&ctx, named(NamedKey::Enter), NONE, None), KeyRoute::CommitText);
    assert_eq!(route(&ctx, named(NamedKey::Escape), NONE, None), KeyRoute::CommitText);
    assert_eq!(route(&ctx, named(NamedKey::Home), SHIFT, None), KeyRoute::Move(Motion::Home, true));
    assert_eq!(route(&ctx, ch(" "), NONE, Some(" ")), KeyRoute::InsertSpace);
    assert_eq!(route(&ctx, ch("k"), NONE, Some("k")), KeyRoute::InsertText);
    assert_eq!(route(&ctx, named(NamedKey::Delete), NONE, None), KeyRoute::DeleteForward);
    assert_eq!(
        route_key(&ctx, &named(NamedKey::Shift), SHIFT, None),
        KeyOutcome { route: KeyRoute::Nothing, sync_format: false }
    );
    assert_eq!(
        route_key(&ctx, &ch("k"), NONE, Some("k")),
        KeyOutcome { route: KeyRoute::InsertText, sync_format: true }
    );
}

#[test]
fn arrows_step_images() {
    let mut ctx = idle();
    assert_eq!(route(&ctx, named(NamedKey::ArrowLeft), NONE, None), KeyRoute::Activate(0));
    assert_eq!(route(&ctx, named(NamedKey::ArrowRight), NONE, None), KeyRoute::Activate(2));
    ctx.index = 2;
    assert_eq!(route(&ctx, named(NamedKey::ArrowRight), NONE, None), KeyRoute::Nothing);
    ctx.nav_bar_active = true;
    assert_eq!(route(&ctx, named(NamedKey::ArrowLeft), NONE, None), KeyRoute::Nothing);
}

#[test]
fn other_keys_are_shortcuts() {
    let ctx = idle();
    assert_eq!(route(&ctx, ch("r"), CTRL, Some("r")), KeyRoute::Menu(MenuAction::RotateRight));
    assert_eq!(route(&ctx, ch("r"), NONE, Some("r")), KeyRoute::Nothing);
    assert_eq!(route(&ctx, KeyInput::Unidentified, CTRL, None), KeyRoute::Nothing);
}

#[test]
fn trash_moves_to_neighbour() {
    assert_eq!(next_after_trash(Some(3), 5), Some(2));
    assert_eq!(next_after_trash(Some(0), 5), Some(1));
    assert_eq!(next_after_trash(Some(0), 1), None);
    assert_eq!(next_after_trash(None, 5), None);
}

#[test]
fn wallpaper_plans() {
    let one = vec!["eDP-1".to_string()];
    let two = vec!["eDP-1".to_string(), "HDMI-A-1".to_string()];
    assert_eq!(wallpaper_plan(false, WallpaperBehavior::Ask, &two), WallpaperPlan::Apply(None));
    assert_eq!(wallpaper_plan(true, WallpaperBehavior::Ask, &one), WallpaperPlan::Apply(None));
    assert_eq!(wallpaper_plan(true, WallpaperBehavior::Ask, &two), WallpaperPlan::AskUser);
    assert_eq!(wallpaper_plan(true, WallpaperBehavior::AllDisplays, &two), WallpaperPlan::Apply(None));
    assert_eq!(
        wallpaper_plan(true, WallpaperBehavior::CurrentDisplay, &two),
        WallpaperPlan::Apply(Some("eDP-1".to_string()))
    );
    assert_eq!(
        wallpaper_plan(true, WallpaperBehavior::CurrentDisplay, &Vec::new()),
        WallpaperPlan::Apply(None)
    );
}
