use cosmic_viewer::strings::strip_ansi_codes;
use cosmic_viewer::wallpaper::{
    add_custom_image, background_config_target, backgrounds_with_output, custom_images_text,
    new_background_config, parse_backgrounds_list, parse_output_names, parse_path_list,
    same_on_all_text, update_source_in_config,
};

fn strings(v: &[&str]) -> Vec<String> {
    v.iter().map(|s| s.to_string()).collect()
}

#[test]
fn strip_ansi_removes_colour_sequences() {
    assert_eq!(strip_ansi_codes("\x1b[1;32mHDMI-1\x1b[0m (enabled)"), "HDMI-1 (enabled)");
    assert_eq!(strip_ansi_codes("plain text"), "plain text");
    assert_eq!(strip_ansi_codes(""), "");
}

#[test]
fn strip_ansi_drops_lone_escape() {
    assert_eq!(strip_ansi_codes("a\x1bb"), "ab");
    assert_eq!(strip_ansi_codes("x\x1b[12"), "x");
    assert_eq!(strip_ansi_codes("\x1b[2Jdone"), "done");
}

#[test]
fn output_names_from_listing() {
    let out = "\x1b[1meDP-1\x1b[0m (enabled)\n  1920x1080 @ 60 Hz\n  HDMI-A-1 (disabled)\nnothing here\n";
    assert_eq!(parse_output_names(out), strings(&["eDP-1", "HDMI-A-1"]));
    assert_eq!(parse_output_names(""), Vec::<String>::new());
}

#[test]
fn path_list_parsing() {
    let content = "[\n    \"/a/b.png\",\n    \"/c.jpg\",\n]";
    assert_eq!(parse_path_list(content), Some(strings(&["/a/b.png", "/c.jpg"])));
    assert_eq!(parse_path_list("[]"), Some(Vec::new()));
    assert_eq!(parse_path_list("  [ \"x\" , ] \n"), Some(strings(&["x"])));
    assert_eq!(parse_path_list("[\"\"x\"\"]"), Some(strings(&["x"])));
    assert_eq!(parse_path_list("not a list"), None);
    assert_eq!(parse_path_list("[unterminated"), None);
}

#[test]
fn backgrounds_list_parsing() {
    assert_eq!(parse_backgrounds_list("[\n    \"HDMI-1\",\n]"), Some(strings(&["HDMI-1"])));
    assert_eq!(parse_backgrounds_list("[,,]"), Some(Vec::new()));
    assert_eq!(parse_backgrounds_list(""), None);
}

#[test]
fn source_line_is_replaced() {
    let existing = "(\n    output: \"all\",\n    source: Path(\"/old.png\"),\n    filter_by_theme: false,\n)\n";
    let expected = "(\n    output: \"all\",\n    source: Path(\"/new.png\"),\n    filter_by_theme: false,\n)\n";
    assert_eq!(update_source_in_config(existing, "/new.png"), expected);
}

#[test]
fn multi_line_source_is_replaced() {
    let existing = "(\n    source: Path(\n        \"/old.png\"\n    ),\n    x: 1,\n)";
    let expected = "(\n    source: Path(\"/new.png\"),\n    x: 1,\n)";
    assert_eq!(update_source_in_config(existing, "/new.png"), expected);
}

#[test]
fn config_without_source_is_kept() {
    assert_eq!(update_source_in_config("a\nb\n", "/p"), "a\nb\n");
    assert_eq!(update_source_in_config("a\nb", "/p"), "a\nb");
    assert_eq!(update_source_in_config("", "/p"), "");
}

#[test]
fn backgrounds_gain_new_output_once() {
    let list = strings(&["HDMI-1"]);
    assert_eq!(
        backgrounds_with_output(&list, "DP-2"),
        Some("[\n    \"HDMI-1\",\n    \"DP-2\",\n]".to_string())
    );
    assert_eq!(backgrounds_with_output(&list, "HDMI-1"), None);
}

#[test]
fn config_target_names() {
    assert_eq!(background_config_target(None), ("all".to_string(), "all".to_string()));
    assert_eq!(
        background_config_target(Some("DP-1")),
        ("output.DP-1".to_string(), "DP-1".to_string())
    );
    assert_eq!(same_on_all_text(None), "true\n");
    assert_eq!(same_on_all_text(Some("DP-1")), "false\n");
}

#[test]
fn fresh_background_config() {
    let expected = "(\n    output: \"all\",\n    source: Path(\"/p.png\"),\n    filter_by_theme: false,\n    rotation_frequency: 300,\n    filter_method: Lanczos,\n    scaling_mode: Zoom,\n    sampling_method: Alphanumeric,\n)\n";
    assert_eq!(new_background_config("all", "/p.png"), expected);
}

#[test]
fn custom_images_are_deduplicated() {
    let list = strings(&["/a.png", "/b.png", "/a.png"]);
    assert_eq!(add_custom_image(&list, "/c.png"), strings(&["/a.png", "/b.png", "/c.png"]));
    assert_eq!(add_custom_image(&list, "/b.png"), strings(&["/a.png", "/b.png"]));
    assert_eq!(
        custom_images_text(&list, "/c.png"),
        "[\n    \"/a.png\",\n    \"/b.png\",\n    \"/c.png\",\n]"
    );
}

#[test]
fn custom_images_compare_paths_by_component() {
    let list = strings(&["/a/b"]);
    assert_eq!(add_custom_image(&list, "/a//b/"), strings(&["/a/b"]));
    assert_eq!(add_custom_image(&list, "/a/c"), strings(&["/a/b", "/a/c"]));
}
