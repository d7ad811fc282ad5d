use cosmic_viewer::cache::ImageCache;
use cosmic_viewer::paths::{path_key, same_path};

#[test]
fn keys_drop_repeated_separators_and_dot_components() {
    assert_eq!(path_key("/p//a.png"), "/p/a.png");
    assert_eq!(path_key("/p/./a.png"), "/p/a.png");
    assert_eq!(path_key("p/a/"), "p/a");
    assert_eq!(path_key("//a"), "/a");
    assert_eq!(path_key("/"), "/");
    assert_eq!(path_key(""), "");
}

#[test]
fn keys_keep_a_leading_dot_and_parent_components() {
    assert_eq!(path_key("./a"), "./a");
    assert_eq!(path_key(".//a/."), "./a");
    assert_eq!(path_key("."), ".");
    assert_eq!(path_key("a/../b"), "a/../b");
    assert_eq!(path_key("/./a"), "/a");
}

#[test]
fn same_path_compares_components() {
    assert!(same_path("/p//a.png", "/p/a.png"));
    assert!(same_path("a/b/", "a/./b"));
    assert!(!same_path("./a", "a"));
    assert!(!same_path("/a", "a"));
    assert!(!same_path("a/b", "a/c"));
}

#[test]
fn cache_meets_one_entry_for_equal_paths() {
    let mut cache = ImageCache::new(2, 2);
    assert_eq!(cache.insert_full("/p//a.png".to_string(), (3, 4)), None);
    assert_eq!(cache.get_full("/p/a.png"), Some((3, 4)));
    cache.set_pending("/q/./b.png".to_string());
    assert!(cache.is_pending("/q/b.png"));
    cache.remove_full("/p/a.png/");
    assert_eq!(cache.get_full("/p//a.png"), None);
}
