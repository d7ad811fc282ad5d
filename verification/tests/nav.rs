use cosmic_viewer::cache::ImageCache;
use cosmic_viewer::messages::WatcherEvent;
use cosmic_viewer::nav::{
    activate_image, arrow_target, begin_full_load, begin_nearby_thumbnail_loads, grid_key_target,
    nearby_range, on_image_ready, on_load_error, on_thumbnail_hidden, on_thumbnail_ready,
    on_watcher_event, position_of, GridKey,
};

fn paths(n: usize) -> Vec<String> {
    (0..n).map(|i| format!("/img{i}.png")).collect()
}

#[test]
fn grid_keys_move_focus() {
    assert_eq!(grid_key_target(GridKey::ArrowUp, 5, 4, 10), Some(1));
    assert_eq!(grid_key_target(GridKey::ArrowUp, 3, 4, 10), None);
    assert_eq!(grid_key_target(GridKey::ArrowDown, 5, 4, 10), Some(9));
    assert_eq!(grid_key_target(GridKey::ArrowDown, 6, 4, 10), None);
    assert_eq!(grid_key_target(GridKey::Home, 6, 4, 10), Some(0));
    assert_eq!(grid_key_target(GridKey::End, 0, 4, 10), Some(9));
    assert_eq!(grid_key_target(GridKey::Other, 0, 4, 10), None);
}

#[test]
fn arrow_keys_step_through_images() {
    assert_eq!(arrow_target(false, 0, 3), None);
    assert_eq!(arrow_target(false, 2, 3), Some(1));
    assert_eq!(arrow_target(true, 1, 3), Some(2));
    assert_eq!(arrow_target(true, 2, 3), None);
    assert_eq!(arrow_target(true, 0, 0), None);
}

#[test]
fn nearby_range_is_clipped() {
    assert_eq!(nearby_range(5, 2, 100), (3, 8));
    assert_eq!(nearby_range(1, 10, 5), (0, 5));
    assert_eq!(nearby_range(0, 0, 1), (0, 1));
}

#[test]
fn full_load_starts_once() {
    let mut c = ImageCache::with_defaults();
    assert!(begin_full_load(&mut c, "/a"));
    assert!(c.is_pending("/a"));
    assert!(!begin_full_load(&mut c, "/a"));
    c.insert_full("/a".to_string(), (1, 1));
    assert!(!begin_full_load(&mut c, "/a"));
}

#[test]
fn nearby_thumbnails_skip_cached_and_pending() {
    let ps = paths(10);
    let mut c = ImageCache::with_defaults();
    c.insert_thumbnail(ps[4].clone(), (1, 1));
    c.set_thumbnail_pending(ps[6].clone());
    let loads = begin_nearby_thumbnail_loads(&mut c, &ps, 5, 2);
    assert_eq!(loads, vec![3, 5, 7]);
    assert!(c.is_thumbnail_pending(&ps[3]));
    assert!(c.is_thumbnail_pending(&ps[7]));
    assert!(!c.is_thumbnail_pending(&ps[4]));
    assert!(begin_nearby_thumbnail_loads(&mut c, &ps, 5, 2).is_empty());
}

#[test]
fn nearby_thumbnails_count_repeated_paths_once() {
    let ps = vec!["/x".to_string(), "/x".to_string(), "/y".to_string()];
    let mut c = ImageCache::with_defaults();
    assert_eq!(begin_nearby_thumbnail_loads(&mut c, &ps, 1, 1), vec![0, 2]);
}

#[test]
fn watcher_modified_in_place_drops_cache() {
    let mut c = ImageCache::with_defaults();
    c.insert_full("/a".to_string(), (1, 1));
    c.insert_thumbnail("/a".to_string(), (1, 1));
    c.set_pending("/a".to_string());
    let mut rescan = false;
    let r = on_watcher_event(&mut c, &WatcherEvent::Modified("/a".to_string()), true, Some("/a"), &mut rescan);
    assert!(!r.deselect);
    assert!(r.rescan);
    assert!(rescan);
    assert_eq!(c.get_full("/a"), None);
    assert_eq!(c.get_thumbnail("/a"), None);
    assert!(c.is_pending("/a"));
}

#[test]
fn watcher_removed_current_deselects() {
    let mut c = ImageCache::with_defaults();
    c.insert_full("/a".to_string(), (1, 1));
    c.set_pending("/a".to_string());
    c.set_thumbnail_pending("/a".to_string());
    let mut rescan = true;
    let r = on_watcher_event(&mut c, &WatcherEvent::Removed("/a".to_string()), false, Some("/a"), &mut rescan);
    assert!(r.deselect);
    assert!(!r.rescan);
    assert!(rescan);
    assert!(!c.is_pending("/a"));
    assert!(!c.is_thumbnail_pending("/a"));
    assert_eq!(c.get_full("/a"), None);
    let r2 = on_watcher_event(&mut c, &WatcherEvent::Removed("/b".to_string()), false, Some("/a"), &mut rescan);
    assert!(!r2.deselect);
}

#[test]
fn watcher_error_and_created() {
    let mut c = ImageCache::with_defaults();
    let mut rescan = false;
    let r = on_watcher_event(&mut c, &WatcherEvent::Error("x".to_string()), false, None, &mut rescan);
    assert!(!r.rescan && !r.deselect && !rescan);
    let r = on_watcher_event(&mut c, &WatcherEvent::Created("/n".to_string()), true, None, &mut rescan);
    assert!(r.rescan && !r.deselect && rescan);
}

#[test]
fn load_error_clears_pending() {
    let mut c = ImageCache::with_defaults();
    c.set_pending("/a".to_string());
    c.set_thumbnail_pending("/a".to_string());
    on_load_error(&mut c, "/a");
    assert!(!c.is_pending("/a"));
    assert!(!c.is_thumbnail_pending("/a"));
}

#[test]
fn hidden_thumbnail_drops_full_image_unless_current() {
    let ps = paths(3);
    let mut c = ImageCache::with_defaults();
    c.insert_full(ps[1].clone(), (1, 1));
    on_thumbnail_hidden(&mut c, &ps, 1, Some(1));
    assert_eq!(c.get_full(&ps[1]), Some((1, 1)));
    on_thumbnail_hidden(&mut c, &ps, 1, Some(0));
    assert_eq!(c.get_full(&ps[1]), None);
    on_thumbnail_hidden(&mut c, &ps, 7, None);
}

#[test]
fn activation_loads_neighbours_and_drops_far_images() {
    let ps = paths(6);
    let mut c = ImageCache::with_defaults();
    c.insert_full(ps[0].clone(), (1, 1));
    c.insert_full(ps[2].clone(), (3, 3));
    c.insert_full(ps[5].clone(), (6, 6));
    c.set_pending(ps[3].clone());
    let plan = activate_image(&mut c, &ps, 2).unwrap();
    assert_eq!(plan.shown, Some((3, 3)));
    assert!(!plan.load_current);
    // Index 1 starts; index 3 is pending already.
    assert_eq!(plan.load_neighbors, vec![1]);
    assert!(c.is_pending(&ps[1]));
    // Index 5 is three away and is dropped; index 0 is two away and stays.
    assert_eq!(c.get_full(&ps[5]), None);
    assert_eq!(c.get_full(&ps[0]), Some((1, 1)));
}

#[test]
fn activation_of_uncached_image_starts_it() {
    let ps = paths(2);
    let mut c = ImageCache::with_defaults();
    let plan = activate_image(&mut c, &ps, 0).unwrap();
    assert_eq!(plan.shown, None);
    assert!(plan.load_current);
    assert_eq!(plan.load_neighbors, vec![1]);
    assert!(activate_image(&mut c, &ps, 2).is_none());
}

#[test]
fn image_ready_shows_current_and_loads_thumbnails() {
    let ps = paths(20);
    let mut c = ImageCache::with_defaults();
    c.insert_full(ps[10].clone(), (8, 6));
    let plan = on_image_ready(&mut c, &ps, Some(10), &ps[10]);
    assert_eq!(plan.show, Some((8, 6)));
    assert_eq!(plan.thumbnail_loads, (5..16).collect::<Vec<usize>>());
    let plan = on_image_ready(&mut c, &ps, Some(10), &ps[3]);
    assert_eq!(plan.show, None);
    assert!(plan.thumbnail_loads.is_empty());
    let plan = on_image_ready(&mut c, &ps, None, &ps[3]);
    assert_eq!(plan.show, None);
    assert!(plan.thumbnail_loads.is_empty());
}

#[test]
fn thumbnail_ready_finds_grid_entry() {
    let ps = vec!["/a".to_string(), "/b".to_string(), "/b".to_string()];
    let mut c = ImageCache::with_defaults();
    assert_eq!(on_thumbnail_ready(&mut c, &ps, "/b"), None);
    c.insert_thumbnail("/b".to_string(), (3, 4));
    assert_eq!(on_thumbnail_ready(&mut c, &ps, "/b"), Some((1, (3, 4))));
    c.insert_thumbnail("/z".to_string(), (1, 1));
    assert_eq!(on_thumbnail_ready(&mut c, &ps, "/z"), None);
    assert_eq!(position_of(&ps, "/b"), Some(1));
    assert_eq!(position_of(&ps, "/q"), None);
}

#[test]
fn empty_grid_takes_no_key() {
    assert_eq!(grid_key_target(GridKey::Home, 0, 0, 10), None);
    assert_eq!(grid_key_target(GridKey::End, 0, 4, 0), None);
    assert_eq!(grid_key_target(GridKey::ArrowDown, usize::MAX, 4, 10), None);
}
