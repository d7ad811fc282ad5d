use cosmic_viewer::clipboard::ClipboardImage;
use cosmic_viewer::messages::{
    target_output, toggle_context_page, ContextMessage, IconCacheKey, WallpaperTarget,
};

#[test]
fn context_page_toggles() {
    assert_eq!(toggle_context_page(None, ContextMessage::About), Some(ContextMessage::About));
    assert_eq!(toggle_context_page(Some(ContextMessage::About), ContextMessage::About), None);
    assert_eq!(
        toggle_context_page(Some(ContextMessage::About), ContextMessage::ImageDetails),
        Some(ContextMessage::ImageDetails)
    );
}

#[test]
fn wallpaper_target_output() {
    assert_eq!(target_output(&WallpaperTarget::All), None);
    assert_eq!(target_output(&WallpaperTarget::Output("DP-1".to_string())), Some("DP-1"));
}

#[test]
fn icon_key_keeps_name() {
    let k = IconCacheKey::new("view-fit-symbolic");
    assert_eq!(k.icon_name(), "view-fit-symbolic");
    assert_eq!(k, IconCacheKey::new("view-fit-symbolic"));
    assert_ne!(k, IconCacheKey::new("pan-down-symbolic"));
}

#[test]
fn clipboard_offers_its_own_type() {
    let img = ClipboardImage { data: vec![1, 2, 3], mime: "image/png".to_string() };
    assert_eq!(img.available(), vec!["image/png".to_string()]);
    assert_eq!(img.as_bytes("image/png"), Some(vec![1, 2, 3]));
    assert_eq!(img.as_bytes("image/jpeg"), None);
    assert_eq!(img.as_bytes("image/pn"), None);
}
