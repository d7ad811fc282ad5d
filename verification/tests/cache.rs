use cosmic_viewer::cache::ImageCache;

#[test]
fn stored_image_is_found() {
    let mut c = ImageCache::new(2, 2);
    assert_eq!(c.get_full("/a.png"), None);
    assert_eq!(c.insert_full("/a.png".to_string(), (10, 20)), None);
    assert_eq!(c.get_full("/a.png"), Some((10, 20)));
}

#[test]
fn least_recently_used_image_leaves() {
    let mut c = ImageCache::new(2, 5);
    assert_eq!(c.insert_full("/a".to_string(), (1, 1)), None);
    assert_eq!(c.insert_full("/b".to_string(), (2, 2)), None);
    // Looking up /a makes /b the least recently used.
    assert_eq!(c.get_full("/a"), Some((1, 1)));
    assert_eq!(c.insert_full("/c".to_string(), (3, 3)), Some("/b".to_string()));
    assert_eq!(c.get_full("/b"), None);
    assert_eq!(c.get_full("/a"), Some((1, 1)));
    assert_eq!(c.get_full("/c"), Some((3, 3)));
}

#[test]
fn replacing_an_entry_evicts_nothing() {
    let mut c = ImageCache::new(1, 1);
    assert_eq!(c.insert_full("/a".to_string(), (1, 1)), None);
    assert_eq!(c.insert_full("/a".to_string(), (5, 6)), None);
    assert_eq!(c.get_full("/a"), Some((5, 6)));
}

#[test]
fn zero_capacity_holds_one() {
    let mut c = ImageCache::new(0, 0);
    assert_eq!(c.insert_full("/a".to_string(), (1, 1)), None);
    assert_eq!(c.insert_full("/b".to_string(), (2, 2)), Some("/a".to_string()));
    assert_eq!(c.insert_thumbnail("/a".to_string(), (1, 1)), None);
    assert_eq!(c.insert_thumbnail("/b".to_string(), (2, 2)), Some("/a".to_string()));
}

#[test]
fn insert_clears_pending() {
    let mut c = ImageCache::with_defaults();
    c.set_pending("/a".to_string());
    assert!(c.is_pending("/a"));
    c.insert_full("/a".to_string(), (1, 1));
    assert!(!c.is_pending("/a"));

    c.set_thumbnail_pending("/t".to_string());
    c.set_thumbnail_pending("/u".to_string());
    assert_eq!(c.pending_thumbnail_count(), 2);
    assert!(c.is_thumbnail_pending("/t"));
    c.insert_thumbnail("/t".to_string(), (4, 4));
    assert!(!c.is_thumbnail_pending("/t"));
    assert_eq!(c.pending_thumbnail_count(), 1);
    c.clear_pending_thumbnail("/u");
    assert_eq!(c.pending_thumbnail_count(), 0);
}

#[test]
fn remove_and_clear() {
    let mut c = ImageCache::default();
    c.insert_full("/a".to_string(), (1, 1));
    c.insert_thumbnail("/a".to_string(), (1, 1));
    c.remove_full("/a");
    assert_eq!(c.get_full("/a"), None);
    assert_eq!(c.get_thumbnail("/a"), Some((1, 1)));
    c.remove_thumbnail("/a");
    assert_eq!(c.get_thumbnail("/a"), None);

    c.insert_full("/b".to_string(), (2, 2));
    c.insert_thumbnail("/b".to_string(), (2, 2));
    c.set_pending("/p".to_string());
    c.set_thumbnail_pending("/q".to_string());
    c.clear_thumbnails();
    assert_eq!(c.get_thumbnail("/b"), None);
    assert_eq!(c.pending_thumbnail_count(), 0);
    assert_eq!(c.get_full("/b"), Some((2, 2)));
    assert!(c.is_pending("/p"));
    c.clear();
    assert_eq!(c.get_full("/b"), None);
    assert!(!c.is_pending("/p"));
    c.clear_pending("/nothing");
}

#[test]
fn resize_drops_oldest() {
    let mut c = ImageCache::new(4, 4);
    for (i, p) in ["/a", "/b", "/c", "/d"].iter().enumerate() {
        c.insert_full(p.to_string(), (i as u32, 0));
    }
    let gone = c.resize(2);
    assert_eq!(gone, vec!["/a".to_string(), "/b".to_string()]);
    assert_eq!(c.get_full("/a"), None);
    assert_eq!(c.get_full("/c"), Some((2, 0)));
    assert_eq!(c.insert_full("/e".to_string(), (9, 9)), Some("/d".to_string()));
    assert_eq!(c.resize(10), Vec::<String>::new());
}
