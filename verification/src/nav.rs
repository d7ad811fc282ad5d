//! Decisions of the image browser: where the keyboard moves the focus, which
//! images to decode next, and what a change on disk does to the cache.
use vstd::prelude::*;
use crate::cache::{
    ImageCache, Entry, looked_up, without, key_pos, lemma_key_pos,
};
use crate::messages::WatcherEvent;
use crate::paths::{keys_of, path_key_of, same_path};

verus! {

/// The keys the thumbnail grid reacts to.
#[derive(Debug, Clone, Copy, PartialEq, Eq, Structural)]
pub enum GridKey {
    ArrowUp,
    ArrowDown,
    Home,
    End,
    Other,
}

/// The item a key moves the grid focus to, in a grid of `cols` columns and
/// `total` items whose focus is on `current`: one row up or down while there
/// is one, the first or the last item.
pub open spec fn grid_target(key: GridKey, current: int, cols: int, total: int) -> Option<int> {
    match key {
        GridKey::ArrowUp => if current >= cols {
            Some(current - cols)
        } else {
            None
        },
        GridKey::ArrowDown => if current + cols < total {
            Some(current + cols)
        } else {
            None
        },
        GridKey::Home => Some(0),
        GridKey::End => Some(total - 1),
        GridKey::Other => None,
    }
}

/// The item `key` moves the grid focus to.
pub fn grid_key_target(key: GridKey, current: usize, cols: usize, total: usize) -> (r: Option<
    usize,
>)
    ensures
        (cols == 0 || total == 0) ==> r is None,
        r matches Some(t) ==> grid_target(key, current as int, cols as int, total as int) == Some(
            t as int,
        ),
        (cols > 0 && total > 0 && r is None) ==> grid_target(
            key,
            current as int,
            cols as int,
            total as int,
        ) is None,
{
    if cols == 0 || total == 0 {
        return None;
    }
    match key {
        GridKey::ArrowUp => if current >= cols {
            Some(current - cols)
        } else {
            None
        },
        GridKey::ArrowDown => if current < total && total - current > cols {
            Some(current + cols)
        } else {
            None
        },
        GridKey::Home => Some(0),
        GridKey::End => Some(total - 1),
        GridKey::Other => None,
    }
}

/// A move up and a move down between items of the grid undo each other, and
/// every target is an item of the grid when the focus is on one.
pub proof fn lemma_grid_moves(current: int, cols: int, total: int)
    requires
        cols > 0,
        0 <= current < total,
    ensures
        grid_target(GridKey::ArrowDown, current, cols, total) matches Some(d) ==> grid_target(
            GridKey::ArrowUp,
            d,
            cols,
            total,
        ) == Some(current),
        grid_target(GridKey::ArrowUp, current, cols, total) matches Some(u) ==> grid_target(
            GridKey::ArrowDown,
            u,
            cols,
            total,
        ) == Some(current),
        forall|k: GridKey| #[trigger]
            grid_target(k, current, cols, total) matches Some(t) ==> 0 <= t < total,
{
}

/// The image the left or right arrow key moves to from image `idx` of
/// `total`: the previous or next one, if there is one.
pub open spec fn step_target(right: bool, idx: int, total: int) -> Option<int> {
    if right {
        if idx + 1 < total {
            Some(idx + 1)
        } else {
            None
        }
    } else if idx > 0 {
        Some(idx - 1)
    } else {
        None
    }
}

/// The image the left (`right == false`) or right arrow key moves to.
pub fn arrow_target(right: bool, idx: usize, total: usize) -> (r: Option<usize>)
    ensures
        r matches Some(t) ==> step_target(right, idx as int, total as int) == Some(t as int),
        r is None ==> step_target(right, idx as int, total as int) is None,
{
    if right {
        if idx < total && total - idx > 1 {
            Some(idx + 1)
        } else {
            None
        }
    } else if idx > 0 {
        Some(idx - 1)
    } else {
        None
    }
}

/// The indices `[start, end)` of the images within `radius` of `center`
/// among `total`.
pub open spec fn window(center: int, radius: int, total: int) -> (int, int) {
    let start = if center >= radius {
        center - radius
    } else {
        0
    };
    let end = if center + radius + 1 < total {
        center + radius + 1
    } else {
        total
    };
    (start, end)
}

/// The index range of the images within `radius` of `center`.
pub fn nearby_range(center: usize, radius: usize, total: usize) -> (r: (usize, usize))
    ensures
        r.0 == window(center as int, radius as int, total as int).0,
        r.1 == window(center as int, radius as int, total as int).1,
{
    let start = center.saturating_sub(radius);
    let end = if center >= total || total - center <= radius {
        total
    } else {
        center + radius + 1
    };
    (start, end)
}

/// The window around an image holds that image, stays within the list and
/// spans at most `2 * radius + 1` images.
pub proof fn lemma_window_holds_center(center: int, radius: int, total: int)
    requires
        0 <= center < total,
        radius >= 0,
    ensures
        0 <= window(center, radius, total).0 <= center < window(center, radius, total).1 <= total,
        window(center, radius, total).1 - window(center, radius, total).0 <= 2 * radius + 1,
{
}

/// Whether the entries `e` hold one for key `k`.
pub open spec fn has_key(e: Seq<Entry>, k: Seq<char>) -> bool {
    exists|i: int| 0 <= i < e.len() && #[trigger] e[i].0 == k
}

/// The two entry lists hold the same entries, in any order.
pub open spec fn same_entries(a: Seq<Entry>, b: Seq<Entry>) -> bool {
    &&& a.len() == b.len()
    &&& forall|x: Entry| a.contains(x) <==> b.contains(x)
}

proof fn lemma_has_key(e: Seq<Entry>, k: Seq<char>)
    ensures
        has_key(e, k) <==> key_pos(e, k) >= 0,
{
    lemma_key_pos(e, k);
    if key_pos(e, k) >= 0 {
        assert(e[key_pos(e, k)].0 == k);
    }
}

proof fn lemma_lookup_keeps_entries(e: Seq<Entry>, k: Seq<char>)
    ensures
        same_entries(e, looked_up(e, k).1),
{
    lemma_key_pos(e, k);
    let p = key_pos(e, k);
    if p >= 0 {
        let m = looked_up(e, k).1;
        assert forall|x: Entry| e.contains(x) implies m.contains(x) by {
            let i = choose|i: int| 0 <= i < e.len() && e[i] == x;
            if i < p {
                assert(m[i] == x);
            } else if i == p {
                assert(m[m.len() - 1] == x);
            } else {
                assert(m[i - 1] == x);
            }
        }
        assert forall|x: Entry| m.contains(x) implies e.contains(x) by {
            let i = choose|i: int| 0 <= i < m.len() && m[i] == x;
            if i == m.len() - 1 {
                assert(e[p] == x);
            } else if i < p {
                assert(e[i] == x);
            } else {
                assert(e[i + 1] == x);
            }
        }
    }
}

proof fn lemma_same_entries_keys(a: Seq<Entry>, b: Seq<Entry>, k: Seq<char>)
    requires
        same_entries(a, b),
    ensures
        has_key(a, k) <==> has_key(b, k),
{
    if has_key(a, k) {
        let i = choose|i: int| 0 <= i < a.len() && #[trigger] a[i].0 == k;
        assert(a.contains(a[i]));
        let j = choose|j: int| 0 <= j < b.len() && b[j] == a[i];
        assert(b[j].0 == k);
    }
    if has_key(b, k) {
        let i = choose|i: int| 0 <= i < b.len() && #[trigger] b[i].0 == k;
        assert(b.contains(b[i]));
        let j = choose|j: int| 0 <= j < a.len() && a[j] == b[i];
        assert(a[j].0 == k);
    }
}

/// Starts decoding the full image of `path` unless it is cached or already
/// being decoded (the lookup makes a cached image the most recently used);
/// says whether decoding is to start.
pub fn begin_full_load(cache: &mut ImageCache, path: &str) -> (start: bool)
    requires
        old(cache).wf(),
    ensures
        final(cache).wf(),
        start == (!has_key(old(cache).full(), path_key_of(path@)) && !old(cache).pending().contains(path_key_of(path@))),
        final(cache).full() == looked_up(old(cache).full(), path_key_of(path@)).1,
        start ==> final(cache).pending() == old(cache).pending().insert(path_key_of(path@)),
        !start ==> final(cache).pending() == old(cache).pending(),
        final(cache).full_cap() == old(cache).full_cap(),
        final(cache).thumbs() == old(cache).thumbs(),
        final(cache).thumb_cap() == old(cache).thumb_cap(),
        final(cache).pending_thumbs() == old(cache).pending_thumbs(),
{
    proof {
        lemma_has_key(old(cache).full(), path_key_of(path@));
    }
    if cache.get_full(path).is_some() || cache.is_pending(path) {
        return false;
    }
    cache.set_pending(path.to_string());
    true
}

/// Whether `paths[i]` occurs among `paths[start..i]`.
pub open spec fn seen_before(paths: Seq<Seq<char>>, start: int, i: int) -> bool {
    exists|j: int| start <= j < i && paths[j] == paths[i]
}

/// The indices in `[start, i)` whose thumbnails are to be decoded, given the
/// thumbnails `thumbs` held and the paths `pending` being decoded: those not
/// held, not pending and not met before in the range.
pub open spec fn thumb_loads(
    paths: Seq<Seq<char>>,
    thumbs: Seq<Entry>,
    pending: Set<Seq<char>>,
    start: int,
    i: int,
) -> Seq<usize>
    decreases i - start,
{
    if i <= start {
        Seq::empty()
    } else {
        let prev = thumb_loads(paths, thumbs, pending, start, i - 1);
        let p = paths[i - 1];
        if !has_key(thumbs, p) && !pending.contains(p) && !seen_before(paths, start, i - 1) {
            prev.push((i - 1) as usize)
        } else {
            prev
        }
    }
}

/// The paths being decoded once every path of `paths[start..i]` without a
/// thumbnail in `thumbs` has been marked.
pub open spec fn marked_pending(
    paths: Seq<Seq<char>>,
    thumbs: Seq<Entry>,
    pending: Set<Seq<char>>,
    start: int,
    i: int,
) -> Set<Seq<char>> {
    pending.union(
        Set::new(
            |x: Seq<char>|
                exists|j: int| start <= j < i && paths[j] == x && !has_key(thumbs, x),
        ),
    )
}

/// Starts decoding the thumbnails of the images within `radius` of
/// `center` that are neither cached nor being decoded; returns their
/// indices, in order. Each lookup makes a cached thumbnail the most recently
/// used.
pub fn begin_nearby_thumbnail_loads(
    cache: &mut ImageCache,
    paths: &Vec<String>,
    center: usize,
    radius: usize,
) -> (loads: Vec<usize>)
    requires
        old(cache).wf(),
        window(center as int, radius as int, paths.len() as int).0 <= window(
            center as int,
            radius as int,
            paths.len() as int,
        ).1,
    ensures
        final(cache).wf(),
        loads@ == thumb_loads(
            keys_of(paths@),
            old(cache).thumbs(),
            old(cache).pending_thumbs(),
            window(center as int, radius as int, paths.len() as int).0,
            window(center as int, radius as int, paths.len() as int).1,
        ),
        final(cache).pending_thumbs() == marked_pending(
            keys_of(paths@),
            old(cache).thumbs(),
            old(cache).pending_thumbs(),
            window(center as int, radius as int, paths.len() as int).0,
            window(center as int, radius as int, paths.len() as int).1,
        ),
        same_entries(final(cache).thumbs(), old(cache).thumbs()),
        final(cache).thumb_cap() == old(cache).thumb_cap(),
        final(cache).full() == old(cache).full(),
        final(cache).full_cap() == old(cache).full_cap(),
        final(cache).pending() == old(cache).pending(),
{
    let (start, end) = nearby_range(center, radius, paths.len());
    let ghost ps = keys_of(paths@);
    let ghost t0 = cache.thumbs();
    let ghost p0 = cache.pending_thumbs();
    let mut loads: Vec<usize> = Vec::new();
    let mut i = start;
    proof {
        assert(marked_pending(ps, t0, p0, start as int, start as int) =~= p0);
        assert forall|x: Entry| t0.contains(x) <==> cache.thumbs().contains(x) by {}
    }
    while i < end
        invariant
            start <= i <= end <= paths.len(),
            ps == keys_of(paths@),
            cache.wf(),
            loads@ == thumb_loads(ps, t0, p0, start as int, i as int),
            cache.pending_thumbs() == marked_pending(ps, t0, p0, start as int, i as int),
            same_entries(cache.thumbs(), t0),
            cache.thumb_cap() == old(cache).thumb_cap(),
            cache.full() == old(cache).full(),
            cache.full_cap() == old(cache).full_cap(),
            cache.pending() == old(cache).pending(),
            t0 == old(cache).thumbs(),
            p0 == old(cache).pending_thumbs(),
        decreases end - i,
    {
        let path: &String = &paths[i];
        let ghost before = cache.thumbs();
        let ghost pend = cache.pending_thumbs();
        proof {
            assert(ps[i as int] == path_key_of(path@));
            lemma_has_key(before, path_key_of(path@));
            lemma_same_entries_keys(before, t0, path_key_of(path@));
            lemma_lookup_keeps_entries(before, path_key_of(path@));
        }
        let found = cache.get_thumbnail(path.as_str());
        proof {
            assert forall|x: Entry| cache.thumbs().contains(x) <==> t0.contains(x) by {}
        }
        let busy = cache.is_thumbnail_pending(path.as_str());
        proof {
            if !has_key(t0, path_key_of(path@)) {
                if busy && !p0.contains(path_key_of(path@)) {
                    let j = choose|j: int|
                        start <= j < i && ps[j] == path_key_of(path@) && !has_key(t0, path_key_of(path@));
                    assert(seen_before(ps, start as int, i as int));
                }
                if seen_before(ps, start as int, i as int) {
                    let j = choose|j: int| start <= j < i && ps[j] == ps[i as int];
                    assert(pend.contains(path_key_of(path@)));
                }
            }
        }
        if found.is_none() && !busy {
            cache.set_thumbnail_pending(path.clone());
            loads.push(i);
        }
        proof {
            assert(cache.pending_thumbs() =~= marked_pending(
                ps,
                t0,
                p0,
                start as int,
                i + 1,
            ));
        }
        i += 1;
    }
    loads
}

/// What the window does after a change on disk.
#[derive(Debug, Clone, Copy, PartialEq, Eq, Structural)]
pub struct WatcherReaction {
    /// The current image is gone: clear the selection.
    pub deselect: bool,
    /// Schedule a rescan of the directory.
    pub rescan: bool,
}

/// Whether `current` names a path whose key is `p`.
pub open spec fn is_current(current: Option<&str>, p: Seq<char>) -> bool {
    current matches Some(c) && path_key_of(c@) == p
}

/// Updates the cache after the watcher reported `event`. A file modified in
/// place (`exists`) loses its cached image and thumbnail; a file removed, or
/// modified and gone, also stops being pending, and if it is the current
/// image the selection is cleared. Any event but an error schedules a
/// rescan unless one is already scheduled (`rescan_pending`).
pub fn on_watcher_event(
    cache: &mut ImageCache,
    event: &WatcherEvent,
    exists: bool,
    current: Option<&str>,
    rescan_pending: &mut bool,
) -> (r: WatcherReaction)
    requires
        old(cache).wf(),
    ensures
        final(cache).wf(),
        final(cache).full_cap() == old(cache).full_cap(),
        final(cache).thumb_cap() == old(cache).thumb_cap(),
        match event {
            WatcherEvent::Modified(p) if exists => {
                &&& final(cache).full() == without(old(cache).full(), path_key_of(p@))
                &&& final(cache).thumbs() == without(old(cache).thumbs(), path_key_of(p@))
                &&& final(cache).pending() == old(cache).pending()
                &&& final(cache).pending_thumbs() == old(cache).pending_thumbs()
                &&& !r.deselect
            },
            WatcherEvent::Modified(p) | WatcherEvent::Removed(p) => {
                &&& final(cache).full() == without(old(cache).full(), path_key_of(p@))
                &&& final(cache).thumbs() == without(old(cache).thumbs(), path_key_of(p@))
                &&& final(cache).pending() == old(cache).pending().remove(path_key_of(p@))
                &&& final(cache).pending_thumbs() == old(cache).pending_thumbs().remove(path_key_of(p@))
                &&& r.deselect == is_current(current, path_key_of(p@))
            },
            _ => {
                &&& final(cache).full() == old(cache).full()
                &&& final(cache).thumbs() == old(cache).thumbs()
                &&& final(cache).pending() == old(cache).pending()
                &&& final(cache).pending_thumbs() == old(cache).pending_thumbs()
                &&& !r.deselect
            },
        },
        r.rescan == (!(event is Error) && !*old(rescan_pending)),
        *final(rescan_pending) == (*old(rescan_pending) || r.rescan),
{
    let mut deselect = false;
    match event {
        WatcherEvent::Modified(p) if exists => {
            cache.remove_full(p.as_str());
            cache.remove_thumbnail(p.as_str());
        },
        WatcherEvent::Modified(p) | WatcherEvent::Removed(p) => {
            cache.clear_pending(p.as_str());
            cache.clear_pending_thumbnail(p.as_str());
            cache.remove_full(p.as_str());
            cache.remove_thumbnail(p.as_str());
            deselect = match current {
                Some(c) => same_path(c, p.as_str()),
                None => false,
            };
        },
        WatcherEvent::Created(_) => {},
        WatcherEvent::Error(_) => {},
    }
    let is_error = match event {
        WatcherEvent::Error(_) => true,
        _ => false,
    };
    let rescan = !is_error && !*rescan_pending;
    if rescan {
        *rescan_pending = true;
    }
    WatcherReaction { deselect, rescan }
}

/// Forgets that `path` is being decoded, after its decoding failed.
pub fn on_load_error(cache: &mut ImageCache, path: &str)
    requires
        old(cache).wf(),
    ensures
        final(cache).wf(),
        final(cache).pending() == old(cache).pending().remove(path_key_of(path@)),
        final(cache).pending_thumbs() == old(cache).pending_thumbs().remove(path_key_of(path@)),
        final(cache).full() == old(cache).full(),
        final(cache).thumbs() == old(cache).thumbs(),
        final(cache).full_cap() == old(cache).full_cap(),
        final(cache).thumb_cap() == old(cache).thumb_cap(),
{
    cache.clear_pending(path);
    cache.clear_pending_thumbnail(path);
}

/// The grid entry `img` scrolled out of view: its full image is dropped
/// unless it is the current image (`current` is the current index).
pub fn on_thumbnail_hidden(cache: &mut ImageCache, paths: &Vec<String>, img: usize, current: Option<usize>)
    requires
        old(cache).wf(),
    ensures
        final(cache).wf(),
        (current != Some(img) && img < paths.len()) ==> final(cache).full() == without(
            old(cache).full(),
            path_key_of(paths@[img as int]@),
        ),
        !(current != Some(img) && img < paths.len()) ==> final(cache).full() == old(cache).full(),
        final(cache).same_except_full(*old(cache)),
{
    let is_current = match current {
        Some(c) => c == img,
        None => false,
    };
    if !is_current && img < paths.len() {
        cache.remove_full(paths[img].as_str());
    }
}

/// The distance between two indices.
pub open spec fn dist(a: int, b: int) -> int {
    if a >= b {
        a - b
    } else {
        b - a
    }
}

/// The pass over the images `paths[0..i]` after image `idx` was activated,
/// from the full-image entries `full` and pending paths `pending`: a
/// neighbour (distance 1) whose full image is neither cached nor pending
/// starts decoding (the lookup makes a cached neighbour the most recently
/// used); an image further than two away loses its full image. Gives the
/// entries, the pending paths and the indices whose decoding starts.
pub open spec fn neighbor_pass(
    full: Seq<Entry>,
    pending: Set<Seq<char>>,
    paths: Seq<Seq<char>>,
    idx: int,
    i: int,
) -> (Seq<Entry>, Set<Seq<char>>, Seq<usize>)
    decreases i,
{
    if i <= 0 {
        (full, pending, Seq::empty())
    } else {
        let prev = neighbor_pass(full, pending, paths, idx, i - 1);
        let j = i - 1;
        let k = paths[j];
        if dist(idx, j) == 1 {
            let found = looked_up(prev.0, k);
            if found.0 is None && !prev.1.contains(k) {
                (found.1, prev.1.insert(k), prev.2.push(j as usize))
            } else {
                (found.1, prev.1, prev.2)
            }
        } else if dist(idx, j) > 2 {
            (without(prev.0, k), prev.1, prev.2)
        } else {
            prev
        }
    }
}

/// What activating an image decided.
#[derive(Debug, Clone)]
pub struct ActivatePlan {
    /// The dimensions of the activated image, if it was cached.
    pub shown: Option<(u32, u32)>,
    /// Whether the activated image starts decoding.
    pub load_current: bool,
    /// The neighbours that start decoding, in index order.
    pub load_neighbors: Vec<usize>,
}

/// Activates image `idx` of `paths`: looks up its full image, starts
/// decoding it if needed, then passes over all images as `neighbor_pass`
/// says. An index past the list activates nothing.
pub fn activate_image(cache: &mut ImageCache, paths: &Vec<String>, idx: usize) -> (plan: Option<ActivatePlan>)
    requires
        old(cache).wf(),
    ensures
        final(cache).wf(),
        idx >= paths.len() ==> plan is None && *final(cache) == *old(cache),
        idx < paths.len() ==> plan is Some,
        plan matches Some(plan) ==> ({
            let k = path_key_of(paths@[idx as int]@);
            let first = looked_up(old(cache).full(), k);
            let start = !has_key(first.1, k) && !old(cache).pending().contains(k);
            let pend1 = if start {
                old(cache).pending().insert(k)
            } else {
                old(cache).pending()
            };
            let pass = neighbor_pass(
                looked_up(first.1, k).1,
                pend1,
                keys_of(paths@),
                idx as int,
                paths.len() as int,
            );
            &&& plan.shown == first.0
            &&& plan.load_current == start
            &&& final(cache).full() == pass.0
            &&& final(cache).pending() == pass.1
            &&& plan.load_neighbors@ == pass.2
        }),
        final(cache).full_cap() == old(cache).full_cap(),
        final(cache).thumbs() == old(cache).thumbs(),
        final(cache).thumb_cap() == old(cache).thumb_cap(),
        final(cache).pending_thumbs() == old(cache).pending_thumbs(),
{
    if idx >= paths.len() {
        return None;
    }
    let shown = cache.get_full(paths[idx].as_str());
    let load_current = begin_full_load(cache, paths[idx].as_str());
    let ghost ps = keys_of(paths@);
    let ghost f0 = cache.full();
    let ghost p0 = cache.pending();
    let mut loads: Vec<usize> = Vec::new();
    let mut j: usize = 0;
    while j < paths.len()
        invariant
            j <= paths.len(),
            idx < paths.len(),
            ps == keys_of(paths@),
            cache.wf(),
            cache.full() == neighbor_pass(f0, p0, ps, idx as int, j as int).0,
            cache.pending() == neighbor_pass(f0, p0, ps, idx as int, j as int).1,
            loads@ == neighbor_pass(f0, p0, ps, idx as int, j as int).2,
            cache.full_cap() == old(cache).full_cap(),
            cache.thumbs() == old(cache).thumbs(),
            cache.thumb_cap() == old(cache).thumb_cap(),
            cache.pending_thumbs() == old(cache).pending_thumbs(),
        decreases paths.len() - j,
    {
        let d = if idx >= j {
            idx - j
        } else {
            j - idx
        };
        let p: &String = &paths[j];
        proof {
            assert(ps[j as int] == path_key_of(p@));
        }
        if d == 1 {
            let found = cache.get_full(p.as_str());
            if found.is_none() && !cache.is_pending(p.as_str()) {
                proof {
                    lemma_has_key(cache.full(), path_key_of(p@));
                    lemma_key_pos(cache.full(), path_key_of(p@));
                }
                let started = begin_full_load(cache, p.as_str());
                proof {
                    assert(looked_up(cache.full(), path_key_of(p@)).1 == cache.full());
                }
                loads.push(j);
            }
        } else if d > 2 {
            cache.remove_full(p.as_str());
        }
        j += 1;
    }
    Some(ActivatePlan { shown, load_current, load_neighbors: loads })
}

/// What a finished full-image decode leads to.
#[derive(Debug, Clone)]
pub struct ImageReadyPlan {
    /// The dimensions of the decoded image, when it is the current image and
    /// still cached: it is then shown.
    pub show: Option<(u32, u32)>,
    /// The grid entries whose thumbnails start decoding.
    pub thumbnail_loads: Vec<usize>,
}

/// The full image of `path` finished decoding while image `current` (if
/// any) is shown: the current image's full image is looked up to be shown,
/// and the thumbnails within five of the current image start decoding.
pub fn on_image_ready(cache: &mut ImageCache, paths: &Vec<String>, current: Option<usize>, path: &str) -> (plan: ImageReadyPlan)
    requires
        old(cache).wf(),
        current matches Some(i) ==> window(i as int, 5, paths.len() as int).0 <= window(
            i as int,
            5,
            paths.len() as int,
        ).1,
    ensures
        final(cache).wf(),
        match current {
            None => {
                &&& plan.show is None
                &&& plan.thumbnail_loads@.len() == 0
                &&& *final(cache) == *old(cache)
            },
            Some(i) => {
                let is_current = i < paths.len() && path_key_of(paths@[i as int]@) == path_key_of(path@);
                let full1 = if is_current {
                    looked_up(old(cache).full(), path_key_of(path@)).1
                } else {
                    old(cache).full()
                };
                let w = window(i as int, 5, paths.len() as int);
                &&& plan.show == (if is_current {
                    looked_up(old(cache).full(), path_key_of(path@)).0
                } else {
                    None
                })
                &&& final(cache).full() == full1
                &&& plan.thumbnail_loads@ == thumb_loads(
                    keys_of(paths@),
                    old(cache).thumbs(),
                    old(cache).pending_thumbs(),
                    w.0,
                    w.1,
                )
                &&& final(cache).pending_thumbs() == marked_pending(
                    keys_of(paths@),
                    old(cache).thumbs(),
                    old(cache).pending_thumbs(),
                    w.0,
                    w.1,
                )
                &&& same_entries(final(cache).thumbs(), old(cache).thumbs())
                &&& final(cache).pending() == old(cache).pending()
                &&& final(cache).full_cap() == old(cache).full_cap()
                &&& final(cache).thumb_cap() == old(cache).thumb_cap()
            },
        },
{
    match current {
        None => ImageReadyPlan { show: None, thumbnail_loads: Vec::new() },
        Some(i) => {
            let is_current = i < paths.len() && same_path(paths[i].as_str(), path);
            let show = if is_current {
                cache.get_full(path)
            } else {
                None
            };
            let loads = begin_nearby_thumbnail_loads(cache, paths, i, 5);
            ImageReadyPlan { show, thumbnail_loads: loads }
        },
    }
}

/// The index of the first occurrence of `p` in `paths`.
pub fn position_of(paths: &Vec<String>, p: &str) -> (r: Option<usize>)
    ensures
        match r {
            Some(i) => {
                &&& i < paths.len()
                &&& path_key_of(paths@[i as int]@) == path_key_of(p@)
                &&& forall|j: int| 0 <= j < i ==> path_key_of(paths@[j]@) != path_key_of(p@)
            },
            None => forall|j: int| 0 <= j < paths.len() ==> path_key_of(paths@[j]@) != path_key_of(p@),
        },
{
    let mut i: usize = 0;
    while i < paths.len()
        invariant
            i <= paths.len(),
            forall|j: int| 0 <= j < i ==> path_key_of(paths@[j]@) != path_key_of(p@),
        decreases paths.len() - i,
    {
        if same_path(paths[i].as_str(), p) {
            return Some(i);
        }
        i += 1;
    }
    None
}

/// A thumbnail of `path` finished decoding: its dimensions, looked up in
/// the cache (which makes it the most recently used), and the grid entry
/// that shows it (the first with that path), when both exist.
pub fn on_thumbnail_ready(cache: &mut ImageCache, paths: &Vec<String>, path: &str) -> (r: Option<(usize, (u32, u32))>)
    requires
        old(cache).wf(),
    ensures
        final(cache).wf(),
        final(cache).thumbs() == looked_up(old(cache).thumbs(), path_key_of(path@)).1,
        final(cache).same_except_thumbs(*old(cache)),
        match r {
            Some((i, d)) => {
                &&& looked_up(old(cache).thumbs(), path_key_of(path@)).0 == Some(d)
                &&& i < paths.len()
                &&& path_key_of(paths@[i as int]@) == path_key_of(path@)
                &&& forall|j: int| 0 <= j < i ==> path_key_of(paths@[j]@) != path_key_of(path@)
            },
            None => looked_up(old(cache).thumbs(), path_key_of(path@)).0 is None || forall|j: int|
                0 <= j < paths.len() ==> path_key_of(paths@[j]@) != path_key_of(path@),
        },
{
    match cache.get_thumbnail(path) {
        Some(d) => match position_of(paths, path) {
            Some(i) => Some((i, d)),
            None => None,
        },
        None => None,
    }
}

} // verus!
