use cosmic_viewer::imaging::{
    apply_crop, clamp_crop_region, crop_to_region, holds_exactly_its_pixels, replay_geometry,
    GeometryEdit, RotateOperation,
};
use cosmic_viewer::tools::RotateDirection;
use image::DynamicImage;

#[test]
fn rotate_transforms_dimensions() {
    let mut img = DynamicImage::new_rgba8(200, 100);
    assert_eq!(img.width(), 200);
    assert_eq!(img.height(), 100);

    let op = RotateOperation::new(RotateDirection::Right);
    op.apply(&mut img);

    assert_eq!(img.width(), 100);
    assert_eq!(img.height(), 200);
}

#[test]
fn rotate_four_times_restores_dimensions() {
    let mut img = DynamicImage::new_rgba8(200, 100);
    let op = RotateOperation::new(RotateDirection::Right);

    for _ in 0..4 {
        op.apply(&mut img);
    }

    assert_eq!(img.width(), 200);
    assert_eq!(img.height(), 100);
}

#[test]
fn rotate_left_then_right_restores() {
    let mut img = DynamicImage::new_rgba8(200, 100);

    let left = RotateOperation::new(RotateDirection::Left);
    left.apply(&mut img);
    assert_eq!(img.width(), 100);
    assert_eq!(img.height(), 200);

    let right = RotateOperation::new(RotateDirection::Right);
    right.apply(&mut img);
    assert_eq!(img.width(), 200);
    assert_eq!(img.height(), 100);
}

#[test]
fn rotate_commit_returns_none() {
    let op = RotateOperation::new(RotateDirection::Left);
    assert!(op.commit().is_none());
}

#[test]
fn rotate_direction_inverse_is_opposite() {
    assert_eq!(RotateDirection::Left.inverse(), RotateDirection::Right);
    assert_eq!(RotateDirection::Right.inverse(), RotateDirection::Left);
    assert_eq!(RotateDirection::Left.inverse().inverse(), RotateDirection::Left);
}

#[test]
fn rotate_keeps_pixels_in_place() {
    let mut img = DynamicImage::new_rgba8(3, 2);
    img.as_mut_rgba8().unwrap().put_pixel(0, 0, image::Rgba([9, 8, 7, 6]));
    let op = RotateOperation::new(RotateDirection::Right);
    op.apply(&mut img);
    // A clockwise turn moves the top-left pixel to the top-right corner.
    assert_eq!(img.as_rgba8().unwrap().get_pixel(1, 0).0, [9, 8, 7, 6]);
}

#[test]
fn crop_region_is_clamped_to_the_image() {
    assert_eq!(clamp_crop_region(100, 50, 10, 20, 30, 10), Some((10, 20, 30, 10)));
    assert_eq!(clamp_crop_region(100, 50, 90, 40, 30, 30), Some((90, 40, 10, 10)));
    assert_eq!(clamp_crop_region(100, 50, 150, 10, 30, 10), None);
    assert_eq!(clamp_crop_region(100, 50, 10, 10, 0, 10), None);
}

#[test]
fn apply_crop_changes_dimensions() {
    let mut img = DynamicImage::new_rgba8(100, 50);
    apply_crop(&mut img, 90, 40, 30, 30);
    assert_eq!((img.width(), img.height()), (10, 10));
}

#[test]
fn apply_crop_outside_leaves_image() {
    let mut img = DynamicImage::new_rgba8(100, 50);
    apply_crop(&mut img, 200, 10, 5, 5);
    assert_eq!((img.width(), img.height()), (100, 50));
}

#[test]
fn crop_to_region_clamps_size() {
    let img = DynamicImage::new_rgba8(40, 30);
    let c = crop_to_region(&img, 30, 25, 50, 50);
    assert_eq!((c.width(), c.height()), (10, 5));
}

#[test]
fn replay_geometry_applies_edits_in_order() {
    let original = DynamicImage::new_rgba8(200, 100);
    let edits = vec![
        GeometryEdit::Turn(RotateDirection::Right),
        GeometryEdit::Crop(0, 0, 50, 150),
        GeometryEdit::Turn(RotateDirection::Left),
    ];
    let r = replay_geometry(&original, &edits);
    assert_eq!((r.width(), r.height()), (150, 50));
    assert_eq!((original.width(), original.height()), (200, 100));
}

#[test]
fn replay_geometry_without_edits_copies() {
    let original = DynamicImage::new_rgba8(7, 9);
    let r = replay_geometry(&original, &Vec::new());
    assert_eq!((r.width(), r.height()), (7, 9));
}

fn patterned_image() -> DynamicImage {
    let mut img = DynamicImage::new_rgba8(5, 3);
    let buf = img.as_mut_rgba8().unwrap();
    for y in 0..3u32 {
        for x in 0..5u32 {
            buf.put_pixel(x, y, image::Rgba([x as u8, y as u8, (x * y) as u8, 255]));
        }
    }
    img
}

#[test]
fn four_turns_restore_pixels() {
    let original = patterned_image();
    assert!(holds_exactly_its_pixels(&original));
    let mut img = original.clone();
    let op = RotateOperation::new(RotateDirection::Right);
    for _ in 0..4 {
        op.apply(&mut img);
    }
    assert_eq!(img, original);
}

#[test]
fn turn_back_restores_pixels() {
    let original = patterned_image();
    let mut img = original.clone();
    RotateOperation::new(RotateDirection::Left).apply(&mut img);
    assert_ne!(img, original);
    RotateOperation::new(RotateDirection::Right).apply(&mut img);
    assert_eq!(img, original);
}

#[test]
fn exact_buffers_are_told_apart() {
    assert!(holds_exactly_its_pixels(&DynamicImage::new_rgb16(7, 2)));
    let longer = image::RgbaImage::from_raw(2, 1, vec![0u8; 12]).unwrap();
    let img = DynamicImage::ImageRgba8(longer);
    assert!(!holds_exactly_its_pixels(&img));
    let mut turned = img.clone();
    RotateOperation::new(RotateDirection::Right).apply(&mut turned);
    assert!(holds_exactly_its_pixels(&turned));
}
