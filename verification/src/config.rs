//! Persisted viewer preferences.
use vstd::prelude::*;
use vstd::string::*;

verus! {

/// What "set as wallpaper" does when several displays are connected.
#[derive(Debug, Clone, Copy, PartialEq, Eq, Structural)]
pub enum WallpaperBehavior {
    Ask,
    AllDisplays,
    CurrentDisplay,
}

/// The key by which the image list of a directory is sorted.
#[derive(Debug, Clone, Copy, PartialEq, Eq, Structural)]
pub enum SortMode {
    Name,
    Date,
    Size,
}

/// Direction of the image list ordering.
#[derive(Debug, Clone, Copy, PartialEq, Eq, Structural)]
pub enum SortOrder {
    Ascending,
    Descending,
}

impl SortOrder {
    /// The opposite ordering.
    pub fn toggle(self) -> (r: Self)
        ensures
            r == toggled(self),
    {
        match self {
            SortOrder::Ascending => SortOrder::Descending,
            SortOrder::Descending => SortOrder::Ascending,
        }
    }
}


/// The text shown for a wallpaper behaviour.
pub open spec fn behavior_text(b: WallpaperBehavior) -> Seq<char> {
    match b {
        WallpaperBehavior::Ask => "Always Ask"@,
        WallpaperBehavior::AllDisplays => "All Displays"@,
        WallpaperBehavior::CurrentDisplay => "Current Display"@,
    }
}

impl WallpaperBehavior {
    /// Every behaviour, in the order the settings page lists them.
    pub fn all() -> (r: &'static [WallpaperBehavior])
        ensures
            r@ == seq![
                WallpaperBehavior::Ask,
                WallpaperBehavior::AllDisplays,
                WallpaperBehavior::CurrentDisplay,
            ],
    {
        let r: &'static [WallpaperBehavior] = &[
            WallpaperBehavior::Ask,
            WallpaperBehavior::AllDisplays,
            WallpaperBehavior::CurrentDisplay,
        ];
        assert(r@ =~= seq![
            WallpaperBehavior::Ask,
            WallpaperBehavior::AllDisplays,
            WallpaperBehavior::CurrentDisplay,
        ]);
        r
    }

    /// The text shown for this behaviour.
    pub fn to_string(&self) -> (r: String)
        ensures
            r@ == behavior_text(*self),
    {
        let t: &str = match self {
            WallpaperBehavior::Ask => "Always Ask",
            WallpaperBehavior::AllDisplays => "All Displays",
            WallpaperBehavior::CurrentDisplay => "Current Display",
        };
        String::from_str(t)
    }
}

impl Default for WallpaperBehavior {
    /// Ask each time.
    fn default() -> (r: Self)
        ensures
            r == WallpaperBehavior::Ask,
    {
        WallpaperBehavior::Ask
    }
}

/// The text shown for a sort key.
pub open spec fn sort_mode_text(m: SortMode) -> Seq<char> {
    match m {
        SortMode::Name => "Name"@,
        SortMode::Date => "Date"@,
        SortMode::Size => "Size"@,
    }
}

impl SortMode {
    /// Every sort key, in menu order.
    pub fn all() -> (r: &'static [SortMode])
        ensures
            r@ == seq![SortMode::Name, SortMode::Date, SortMode::Size],
    {
        let r: &'static [SortMode] = &[SortMode::Name, SortMode::Date, SortMode::Size];
        assert(r@ =~= seq![SortMode::Name, SortMode::Date, SortMode::Size]);
        r
    }

    /// The text shown for this sort key.
    pub fn to_string(&self) -> (r: String)
        ensures
            r@ == sort_mode_text(*self),
    {
        let t: &str = match self {
            SortMode::Name => "Name",
            SortMode::Date => "Date",
            SortMode::Size => "Size",
        };
        String::from_str(t)
    }
}

impl Default for SortMode {
    /// Sort by name.
    fn default() -> (r: Self)
        ensures
            r == SortMode::Name,
    {
        SortMode::Name
    }
}

/// The text shown for a sort direction.
pub open spec fn sort_order_text(o: SortOrder) -> Seq<char> {
    match o {
        SortOrder::Ascending => "Ascending"@,
        SortOrder::Descending => "Descending"@,
    }
}

impl SortOrder {
    /// Both directions, ascending first.
    pub fn all() -> (r: &'static [SortOrder])
        ensures
            r@ == seq![SortOrder::Ascending, SortOrder::Descending],
    {
        let r: &'static [SortOrder] = &[SortOrder::Ascending, SortOrder::Descending];
        assert(r@ =~= seq![SortOrder::Ascending, SortOrder::Descending]);
        r
    }

    /// The text shown for this direction.
    pub fn to_string(&self) -> (r: String)
        ensures
            r@ == sort_order_text(*self),
    {
        let t: &str = match self {
            SortOrder::Ascending => "Ascending",
            SortOrder::Descending => "Descending",
        };
        String::from_str(t)
    }
}

impl Default for SortOrder {
    /// Ascending.
    fn default() -> (r: Self)
        ensures
            r == SortOrder::Ascending,
    {
        SortOrder::Ascending
    }
}

/// Toggling the direction twice gives the direction back.
pub proof fn lemma_toggle_involution(o: SortOrder)
    ensures
        toggled(toggled(o)) == o,
        toggled(o) != o,
{
}

/// The opposite direction.
pub open spec fn toggled(o: SortOrder) -> SortOrder {
    match o {
        SortOrder::Ascending => SortOrder::Descending,
        SortOrder::Descending => SortOrder::Ascending,
    }
}

/// The edge length of grid thumbnails.
#[derive(Debug, Clone, Copy, PartialEq, Eq, Structural)]
pub enum ThumbnailSize {
    Small,
    Medium,
    Large,
    XLarge,
}

/// Pixels along the longest edge of a thumbnail of each size.
pub open spec fn thumbnail_pixels(s: ThumbnailSize) -> u32 {
    match s {
        ThumbnailSize::Small => 64,
        ThumbnailSize::Medium => 128,
        ThumbnailSize::Large => 192,
        ThumbnailSize::XLarge => 256,
    }
}

impl ThumbnailSize {
    /// Pixels along the longest edge of a thumbnail of this size.
    pub fn pixels(self) -> (r: u32)
        ensures
            r == thumbnail_pixels(self),
    {
        match self {
            ThumbnailSize::Small => 64,
            ThumbnailSize::Medium => 128,
            ThumbnailSize::Large => 192,
            ThumbnailSize::XLarge => 256,
        }
    }
}

impl Default for ThumbnailSize {
    /// The largest size.
    fn default() -> (r: Self)
        ensures
            r == ThumbnailSize::XLarge,
    {
        ThumbnailSize::XLarge
    }
}

/// The colour theme of the application.
#[derive(Debug, Clone, Copy, PartialEq, Eq, Hash, Structural)]
pub enum AppTheme {
    Dark,
    Light,
    System,
}

} // verus!
