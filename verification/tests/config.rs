use cosmic_viewer::config::{SortMode, SortOrder, ThumbnailSize, WallpaperBehavior};
use cosmic_viewer::toolbar::ItemPriority;

#[test]
fn sort_order_toggles() {
    assert_eq!(SortOrder::Ascending.toggle(), SortOrder::Descending);
    assert_eq!(SortOrder::Descending.toggle(), SortOrder::Ascending);
    assert_eq!(SortOrder::Ascending.toggle().toggle(), SortOrder::Ascending);
}

#[test]
fn thumbnail_pixels() {
    assert_eq!(ThumbnailSize::Small.pixels(), 64);
    assert_eq!(ThumbnailSize::Medium.pixels(), 128);
    assert_eq!(ThumbnailSize::Large.pixels(), 192);
    assert_eq!(ThumbnailSize::XLarge.pixels(), 256);
    assert_eq!(ThumbnailSize::default(), ThumbnailSize::XLarge);
}

#[test]
fn display_texts() {
    assert_eq!(WallpaperBehavior::Ask.to_string(), "Always Ask");
    assert_eq!(WallpaperBehavior::AllDisplays.to_string(), "All Displays");
    assert_eq!(WallpaperBehavior::CurrentDisplay.to_string(), "Current Display");
    assert_eq!(SortMode::Name.to_string(), "Name");
    assert_eq!(SortMode::Date.to_string(), "Date");
    assert_eq!(SortMode::Size.to_string(), "Size");
    assert_eq!(SortOrder::Ascending.to_string(), "Ascending");
    assert_eq!(SortOrder::Descending.to_string(), "Descending");
}

#[test]
fn defaults_and_lists() {
    assert_eq!(WallpaperBehavior::default(), WallpaperBehavior::Ask);
    assert_eq!(SortMode::default(), SortMode::Name);
    assert_eq!(SortOrder::default(), SortOrder::Ascending);
    assert_eq!(
        WallpaperBehavior::all(),
        &[WallpaperBehavior::Ask, WallpaperBehavior::AllDisplays, WallpaperBehavior::CurrentDisplay]
    );
    assert_eq!(SortMode::all(), &[SortMode::Name, SortMode::Date, SortMode::Size]);
    assert_eq!(SortOrder::all(), &[SortOrder::Ascending, SortOrder::Descending]);
}

#[test]
fn item_priorities_are_ordered() {
    assert!(ItemPriority::Essential < ItemPriority::Standard);
    assert!(ItemPriority::Standard < ItemPriority::Optional);
    assert_eq!(ItemPriority::default(), ItemPriority::Standard);
}
