//! Messages exchanged between the window, the background loaders and the
//! directory watcher, and the small decisions taken on them.
use vstd::prelude::*;

verus! {

/// The pages of the context drawer.
#[derive(Debug, Clone, Copy, PartialEq, Eq, Structural)]
pub enum ContextMessage {
    About,
    ImageDetails,
}

/// The context page shown after a request to show `page` while `current` is
/// shown: asking again for the page that is open closes the drawer.
pub open spec fn toggled_page(current: Option<ContextMessage>, page: ContextMessage) -> Option<
    ContextMessage,
> {
    if current == Some(page) {
        None
    } else {
        Some(page)
    }
}

/// The context page after a request to show `page` while `current` is shown.
pub fn toggle_context_page(current: Option<ContextMessage>, page: ContextMessage) -> (r: Option<
    ContextMessage,
>)
    ensures
        r == toggled_page(current, page),
{
    match current {
        Some(p) => {
            if p == page {
                None
            } else {
                Some(page)
            }
        },
        None => Some(page),
    }
}

/// Asking for a page that is not open, and then for the same page again,
/// closes the drawer; asking twice for the open page reopens it.
pub proof fn lemma_toggle_page_twice(current: Option<ContextMessage>, page: ContextMessage)
    ensures
        current != Some(page) ==> toggled_page(toggled_page(current, page), page) == None::<
            ContextMessage,
        >,
        current == Some(page) ==> toggled_page(toggled_page(current, page), page) == current,
{
}

/// Which displays a new wallpaper is set on.
#[derive(Debug, Clone)]
pub enum WallpaperTarget {
    /// Every display.
    All,
    /// The display with this output name.
    Output(String),
}

/// The output name that a wallpaper target passes to the desktop settings:
/// none for every display.
pub fn target_output(target: &WallpaperTarget) -> (r: Option<&str>)
    ensures
        match target {
            WallpaperTarget::All => r is None,
            WallpaperTarget::Output(name) => (r matches Some(s) && s@ == name@),
        },
{
    match target {
        WallpaperTarget::All => None,
        WallpaperTarget::Output(name) => Some(name.as_str()),
    }
}

/// Completion reports of the background image loaders. Paths are the
/// files' paths as text.
#[derive(Debug, Clone)]
pub enum ImageMessage {
    /// A thumbnail of the given width and height is in the cache.
    ThumbnailReady(String, u32, u32),
    /// The full image is in the cache.
    ImageReady(String),
    /// Decoding failed.
    LoadError(String),
}

/// Requests on the view of the current image.
#[derive(Debug, Clone, Copy, PartialEq, Eq, Structural)]
pub enum ViewportMessage {
    ZoomIn,
    ZoomOut,
    FitToView,
    Fullscreen,
}

/// Changes reported by the directory watcher. Paths are the files' paths as
/// text.
#[derive(Debug, Clone)]
pub enum WatcherEvent {
    Created(String),
    Removed(String),
    Modified(String),
    Error(String),
}

/// The key under which an icon is cached: its name.
#[derive(Debug, Clone, Copy, PartialEq, Eq, Hash)]
pub struct IconCacheKey {
    name: &'static str,
}

impl IconCacheKey {
    /// The key of the icon called `name`.
    pub fn new(name: &'static str) -> (r: IconCacheKey)
        ensures
            r.name() == name,
    {
        IconCacheKey { name }
    }

    /// The icon name of this key.
    pub closed spec fn name(self) -> &'static str {
        self.name
    }

    /// The icon name of this key.
    pub fn icon_name(&self) -> (r: &'static str)
        ensures
            r == self.name(),
    {
        self.name
    }
}

} // verus!
