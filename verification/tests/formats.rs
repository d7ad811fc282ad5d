use cosmic_viewer::formats::{friendly_type_name, image_mime_type, is_zune_supported};
use cosmic_viewer::numfmt::{format_file_size, format_number};

#[test]
fn mime_types_of_known_extensions() {
    assert_eq!(image_mime_type("jpg"), Some("image/jpeg"));
    assert_eq!(image_mime_type("JPEG"), Some("image/jpeg"));
    assert_eq!(image_mime_type("png"), Some("image/png"));
    assert_eq!(image_mime_type("gif"), Some("image/gif"));
    assert_eq!(image_mime_type("WebP"), Some("image/webp"));
    assert_eq!(image_mime_type("bmp"), Some("image/bmp"));
    assert_eq!(image_mime_type("tif"), Some("image/tiff"));
    assert_eq!(image_mime_type("tiff"), Some("image/tiff"));
    assert_eq!(image_mime_type("avif"), Some("image/avif"));
    assert_eq!(image_mime_type("ico"), Some("image/x-ico"));
    assert_eq!(image_mime_type("svg"), Some("image/svg+xml"));
}

#[test]
fn mime_type_of_unknown_extension() {
    assert_eq!(image_mime_type("txt"), None);
    assert_eq!(image_mime_type(""), None);
    assert_eq!(image_mime_type("jpgx"), None);
}

#[test]
fn friendly_names() {
    assert_eq!(friendly_type_name("JPG"), "JPEG image");
    assert_eq!(friendly_type_name("jpeg"), "JPEG image");
    assert_eq!(friendly_type_name("png"), "PNG image");
    assert_eq!(friendly_type_name("jxl"), "JPEG XL image");
    assert_eq!(friendly_type_name("farbfeld"), "Farbfeld image");
    assert_eq!(friendly_type_name("FF"), "Farbfeld image");
    assert_eq!(friendly_type_name("qoi"), "QOI image");
    assert_eq!(friendly_type_name("xyz"), "Image");
}

#[test]
fn fast_decoder_extensions() {
    for e in ["jpg", "jpeg", "png", "ppm", "pgm", "pbm", "pnm", "bmp", "qoi", "ff", "farbfeld", "hdr", "jxl"] {
        assert!(is_zune_supported(e), "{e}");
    }
    assert!(!is_zune_supported("gif"));
    assert!(!is_zune_supported("webp"));
    assert!(!is_zune_supported("JPG"));
}

#[test]
fn numbers_get_thousands_separators() {
    assert_eq!(format_number(0), "0");
    assert_eq!(format_number(999), "999");
    assert_eq!(format_number(1000), "1,000");
    assert_eq!(format_number(1234567), "1,234,567");
    assert_eq!(format_number(u64::MAX), "18,446,744,073,709,551,615");
}

fn reference_size(bytes: u64) -> String {
    const KB: f64 = 1024.0;
    const MB: f64 = 1024.0 * KB;
    const GB: f64 = 1024.0 * MB;
    let human = if bytes as f64 >= GB {
        format!("{:.1} GB", bytes as f64 / GB)
    } else if bytes as f64 >= MB {
        format!("{:.1} MB", bytes as f64 / MB)
    } else if bytes as f64 >= KB {
        format!("{:.1} KB", bytes as f64 / KB)
    } else {
        format!("{bytes} B")
    };
    format!("{human} ({} bytes)", format_number(bytes))
}

#[test]
fn file_sizes_exact_values() {
    assert_eq!(format_file_size(0), "0 B (0 bytes)");
    assert_eq!(format_file_size(1023), "1023 B (1,023 bytes)");
    assert_eq!(format_file_size(1024), "1.0 KB (1,024 bytes)");
    assert_eq!(format_file_size(1536), "1.5 KB (1,536 bytes)");
    assert_eq!(format_file_size(1048576), "1.0 MB (1,048,576 bytes)");
    assert_eq!(format_file_size(1073741824), "1.0 GB (1,073,741,824 bytes)");
}

#[test]
fn file_sizes_match_float_formatting() {
    let mut samples: Vec<u64> = vec![
        1, 1023, 1024, 1075, 1076, 1126, 1127, 10291, 104857, 1048575, 1048576, 1101004,
        1101005, 5_000_000, 1073741823, 1073741824, 1181116006, 1181116007, 999_999_999_999,
        9_007_199_254_740_991, 9_007_199_254_740_993, u64::MAX - 1, u64::MAX,
    ];
    let mut x: u64 = 0x9E37_79B9_7F4A_7C15;
    for _ in 0..5000 {
        x ^= x << 13;
        x ^= x >> 7;
        x ^= x << 17;
        samples.push(x >> (x % 64));
    }
    for k in 1..200u64 {
        samples.push(k * 1024 / 10 + 51);
        samples.push(k * 1024 / 20);
    }
    for b in samples {
        assert_eq!(format_file_size(b), reference_size(b), "{b}");
    }
}
