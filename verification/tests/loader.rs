use cosmic_viewer::loader::{
    load_image_bytes, load_thumbnail_bytes, read_x_resolution, LoadError,
    exif_thumbnail, extract_thumbnail, find_tiff_header_offset, fits_within, image_decoders, jpeg_scale_denominator,
    resize_rgba, scan_segment, thumbnail_bytes, thumbnail_decoders, Decoder, ResizeError,
    ScanError, ScanStep, ThumbnailError,
};

fn jfif_then_exif() -> Vec<u8> {
    let mut d = vec![0xFF, 0xD8, 0xFF, 0xE0, 0x00, 0x10];
    d.extend(std::iter::repeat(0u8).take(14));
    d.extend([0xFF, 0xE1, 0x00, 0x20, b'E', b'x', b'i', b'f', 0, 0]);
    d.extend((0..20u8).map(|i| i + 100));
    d
}

#[test]
fn tiff_header_after_other_segments() {
    let d = jfif_then_exif();
    assert_eq!(find_tiff_header_offset(&d), Ok(30));
    assert_eq!(scan_segment(&d, 2), ScanStep::Next(20));
    assert_eq!(scan_segment(&d, 20), ScanStep::Found(30));
}

#[test]
fn tiff_header_after_padding() {
    let d = [0xFF, 0xD8, 0xFF, 0xFF, 0xE1, 0x00, 0x08, b'E', b'x', b'i', b'f', 0, 0];
    assert_eq!(find_tiff_header_offset(&d), Ok(13));
}

#[test]
fn non_exif_app1_is_skipped() {
    let mut d = vec![0xFF, 0xD8, 0xFF, 0xE1, 0x00, 0x0A, b'h', b't', b't', b'p', 0, 0, 1, 2];
    d.extend([0xFF, 0xD9, 0x00, 0x00]);
    assert_eq!(scan_segment(&d, 2), ScanStep::Next(14));
    assert_eq!(find_tiff_header_offset(&d), Err(ScanError::NoExif));
}

#[test]
fn scan_errors() {
    assert_eq!(find_tiff_header_offset(&[]), Err(ScanError::Truncated));
    assert_eq!(find_tiff_header_offset(&[0, 1, 2]), Err(ScanError::NotJpeg));
    assert_eq!(find_tiff_header_offset(&[0xFF, 0xD8, 0x00, 0x00]), Err(ScanError::InvalidMarker));
    assert_eq!(find_tiff_header_offset(&[0xFF, 0xD8, 0xFF]), Err(ScanError::Truncated));
    assert_eq!(
        find_tiff_header_offset(&[0xFF, 0xD8, 0xFF, 0xE0, 0xFF, 0xFF]),
        Err(ScanError::Truncated)
    );
}

fn app1_first(len: usize) -> Vec<u8> {
    let mut d = vec![0xFF, 0xD8, 0xFF, 0xE1];
    d.extend((4..len).map(|i| i as u8));
    d
}

#[test]
fn thumbnail_slice_from_app1_file() {
    let d = app1_first(30);
    assert_eq!(thumbnail_bytes(&d, Some(3), Some(4)), Ok(vec![15, 16, 17, 18]));
    assert_eq!(thumbnail_bytes(&d, Some(0), Some(0)), Ok(vec![]));
    assert_eq!(thumbnail_bytes(&d, Some(14), Some(4)), Ok(vec![26, 27, 28, 29]));
}

#[test]
fn thumbnail_slice_errors() {
    let d = app1_first(30);
    assert_eq!(thumbnail_bytes(&d, None, Some(4)), Err(ThumbnailError::NoOffset));
    assert_eq!(thumbnail_bytes(&d, Some(1), None), Err(ThumbnailError::NoLength));
    assert_eq!(thumbnail_bytes(&d, Some(1), Some(1_000_001)), Err(ThumbnailError::TooLarge));
    assert_eq!(thumbnail_bytes(&d, Some(15), Some(4)), Err(ThumbnailError::Truncated));
    assert_eq!(thumbnail_bytes(&d[..11], Some(0), Some(1)), Err(ThumbnailError::Truncated));
    let mut not_jpeg = vec![0u8; 20];
    not_jpeg[0] = 0x89;
    assert_eq!(
        thumbnail_bytes(&not_jpeg, Some(0), Some(1)),
        Err(ThumbnailError::Scan(ScanError::NotJpeg))
    );
}

#[test]
fn thumbnail_slice_found_by_scan() {
    let d = jfif_then_exif();
    assert_eq!(thumbnail_bytes(&d, Some(2), Some(3)), Ok(vec![102, 103, 104]));
}

fn jpeg_with_exif_thumbnail_bytes(thumb: &[u8]) -> Vec<u8> {
    let len = thumb.len() as u32;
    let mut tiff: Vec<u8> = vec![0x49, 0x49, 0x2A, 0x00, 0x08, 0x00, 0x00, 0x00];
    tiff.extend([0x00, 0x00, 0x0E, 0x00, 0x00, 0x00]);
    tiff.extend([0x02, 0x00]);
    tiff.extend([0x01, 0x02, 0x04, 0x00, 0x01, 0x00, 0x00, 0x00, 44, 0x00, 0x00, 0x00]);
    tiff.extend([0x02, 0x02, 0x04, 0x00, 0x01, 0x00, 0x00, 0x00]);
    tiff.extend(len.to_le_bytes());
    tiff.extend([0x00, 0x00, 0x00, 0x00]);
    tiff.extend(thumb);
    let len = (2 + 6 + tiff.len()) as u16;
    let mut d = vec![0xFF, 0xD8, 0xFF, 0xE1, (len >> 8) as u8, len as u8];
    d.extend([b'E', b'x', b'i', b'f', 0, 0]);
    d.extend(tiff);
    d.extend([0xFF, 0xD9]);
    d
}

#[test]
fn embedded_thumbnail_is_extracted() {
    let d = jpeg_with_exif_thumbnail_bytes(&[0xDE, 0xAD, 0xBE, 0xEF]);
    assert_eq!(extract_thumbnail(&d), Ok(vec![0xDE, 0xAD, 0xBE, 0xEF]));
}

#[test]
fn embedded_jpeg_thumbnail_decodes() {
    let small = image::DynamicImage::new_rgb8(4, 3);
    let mut jpeg = std::io::Cursor::new(Vec::new());
    small.write_to(&mut jpeg, image::ImageFormat::Jpeg).unwrap();
    let jpeg = jpeg.into_inner();
    let file = jpeg_with_exif_thumbnail_bytes(&jpeg);
    let bytes = extract_thumbnail(&file).unwrap();
    assert_eq!(bytes, jpeg);
    let decoded = image::load_from_memory_with_format(&bytes, image::ImageFormat::Jpeg).unwrap();
    assert_eq!((decoded.width(), decoded.height()), (4, 3));
}

#[test]
fn exif_thumbnail_is_decoded() {
    let small = image::DynamicImage::new_rgb8(4, 3);
    let mut jpeg = std::io::Cursor::new(Vec::new());
    small.write_to(&mut jpeg, image::ImageFormat::Jpeg).unwrap();
    let file = jpeg_with_exif_thumbnail_bytes(&jpeg.into_inner());
    let decoded = exif_thumbnail(&file).unwrap();
    assert_eq!((decoded.width(), decoded.height()), (4, 3));
}

#[test]
fn exif_thumbnail_errors() {
    let file = jpeg_with_exif_thumbnail_bytes(&[0xDE, 0xAD, 0xBE, 0xEF]);
    assert!(matches!(exif_thumbnail(&file), Err(ThumbnailError::Decode)));
    assert!(matches!(
        exif_thumbnail(&[0x89, b'P', b'N', b'G']),
        Err(ThumbnailError::NoExif)
    ));
}

#[test]
fn file_without_exif_has_no_thumbnail() {
    assert_eq!(extract_thumbnail(&[0x89, b'P', b'N', b'G']), Err(ThumbnailError::NoExif));
}

fn reference_scale(width: u32, height: u32, target: u32) -> u32 {
    let max_dim = width.max(height);
    for denom in [8u32, 4, 2, 1] {
        let scaled = (max_dim as f32 * 1.0 / denom as f32) as u32;
        if scaled >= target {
            return denom;
        }
    }
    8
}

#[test]
fn jpeg_scale_picks_smallest_sufficient() {
    assert_eq!(jpeg_scale_denominator(4000, 3000, 256), 8);
    assert_eq!(jpeg_scale_denominator(1000, 800, 256), 2);
    assert_eq!(jpeg_scale_denominator(800, 1000, 200), 4);
    assert_eq!(jpeg_scale_denominator(2048, 10, 256), 8);
    assert_eq!(jpeg_scale_denominator(100, 100, 256), 8);
    assert_eq!(jpeg_scale_denominator(16_777_219, 1, 4_194_305), 4);
    assert_eq!(jpeg_scale_denominator(u32::MAX, 0, u32::MAX), 1);
}

#[test]
fn jpeg_scale_matches_float_arithmetic() {
    let mut x: u64 = 0x2545_F491_4F6C_DD1D;
    for _ in 0..20000 {
        x ^= x << 13;
        x ^= x >> 7;
        x ^= x << 17;
        let w = (x >> (x % 40)) as u32;
        let h = (x >> 32) as u32 >> (x % 29);
        let t = ((x >> 7) as u32) >> ((x >> 3) % 32);
        assert_eq!(jpeg_scale_denominator(w, h, t), reference_scale(w, h, t), "{w} {h} {t}");
    }
}

#[test]
fn decoder_order() {
    assert_eq!(image_decoders("JPG"), vec![Decoder::JpegFull, Decoder::Fast, Decoder::General]);
    assert_eq!(image_decoders("png"), vec![Decoder::Fast, Decoder::General]);
    assert_eq!(image_decoders("gif"), vec![Decoder::General]);
    assert_eq!(image_decoders(""), vec![Decoder::General]);
    assert_eq!(
        thumbnail_decoders("jpeg"),
        vec![Decoder::ExifThumbnail, Decoder::JpegScaled, Decoder::Fast, Decoder::General]
    );
    assert_eq!(thumbnail_decoders("Farbfeld"), vec![Decoder::Fast, Decoder::General]);
    assert_eq!(thumbnail_decoders("webp"), vec![Decoder::General]);
}

#[test]
fn fitting_needs_no_resize() {
    assert!(fits_within(128, 64, 128));
    assert!(!fits_within(129, 64, 128));
    assert!(!fits_within(1, 200, 128));
}

#[test]
fn resize_halves_a_uniform_image() {
    let pixels: Vec<u8> = [10u8, 20, 30, 255].repeat(16);
    let out = resize_rgba(&pixels, 4, 4, 2, 2).unwrap();
    assert_eq!(out, [10u8, 20, 30, 255].repeat(4));
}

#[test]
fn resize_to_the_same_size_copies() {
    let pixels: Vec<u8> = (0..24u8).collect();
    assert_eq!(resize_rgba(&pixels, 3, 2, 3, 2), Ok(pixels.clone()));
}

#[test]
fn resize_needs_enough_pixels() {
    assert_eq!(resize_rgba(&[0u8; 15], 2, 2, 1, 1), Err(ResizeError::BufferTooShort));
}

fn png_bytes(width: u32, height: u32) -> Vec<u8> {
    let img = image::DynamicImage::new_rgb8(width, height);
    let mut out = std::io::Cursor::new(Vec::new());
    img.write_to(&mut out, image::ImageFormat::Png).unwrap();
    out.into_inner()
}

#[test]
fn png_is_decoded_by_the_fast_decoder() {
    let (decoder, img) = load_image_bytes("PNG", &png_bytes(5, 2), None).unwrap();
    assert_eq!(decoder, Decoder::Fast);
    assert_eq!((img.width(), img.height()), (5, 2));
}

#[test]
fn unknown_extension_goes_to_the_general_decoder() {
    let r = load_image_bytes("xyz", &png_bytes(5, 2), None);
    assert!(matches!(r, Err(LoadError::UnknownFormat)));
    let r = load_image_bytes("tif", &[1, 2, 3], None);
    assert!(matches!(r, Err(LoadError::Decode(_))));
}

#[test]
fn general_decoder_reads_by_extension() {
    let small = image::DynamicImage::new_rgb8(3, 4);
    let mut tiff = std::io::Cursor::new(Vec::new());
    small.write_to(&mut tiff, image::ImageFormat::Tiff).unwrap();
    let (decoder, img) = load_image_bytes("TIF", &tiff.into_inner(), None).unwrap();
    assert_eq!(decoder, Decoder::General);
    assert_eq!((img.width(), img.height()), (3, 4));
}

#[test]
fn jpeg_library_result_comes_first() {
    let given = image::DynamicImage::new_rgba8(7, 1);
    let (decoder, img) = load_image_bytes("jpg", &[0xFF, 0xD8], Some(given)).unwrap();
    assert_eq!(decoder, Decoder::JpegFull);
    assert_eq!((img.width(), img.height()), (7, 1));
}

#[test]
fn thumbnail_prefers_the_exif_thumbnail() {
    let small = image::DynamicImage::new_rgb8(4, 3);
    let mut jpeg = std::io::Cursor::new(Vec::new());
    small.write_to(&mut jpeg, image::ImageFormat::Jpeg).unwrap();
    let file = jpeg_with_exif_thumbnail_bytes(&jpeg.into_inner());
    let (decoder, img) = load_thumbnail_bytes("jpeg", &file, None).unwrap();
    assert_eq!(decoder, Decoder::ExifThumbnail);
    assert_eq!((img.width(), img.height()), (4, 3));
    let (decoder, _) = load_thumbnail_bytes("png", &png_bytes(2, 2), None).unwrap();
    assert_eq!(decoder, Decoder::Fast);
}

fn jpeg_with_x_resolution(num: u32, denom: u32) -> Vec<u8> {
    let mut tiff: Vec<u8> = vec![0x49, 0x49, 0x2A, 0x00, 0x08, 0x00, 0x00, 0x00];
    tiff.extend([0x01, 0x00]);
    tiff.extend([0x1A, 0x01, 0x05, 0x00, 0x01, 0x00, 0x00, 0x00, 26, 0x00, 0x00, 0x00]);
    tiff.extend([0x00, 0x00, 0x00, 0x00]);
    tiff.extend(num.to_le_bytes());
    tiff.extend(denom.to_le_bytes());
    let len = (2 + 6 + tiff.len()) as u16;
    let mut d = vec![0xFF, 0xD8, 0xFF, 0xE1, (len >> 8) as u8, len as u8];
    d.extend([b'E', b'x', b'i', b'f', 0, 0]);
    d.extend(tiff);
    d.extend([0xFF, 0xD9]);
    d
}

#[test]
fn x_resolution_is_read_from_exif() {
    assert_eq!(read_x_resolution(&jpeg_with_x_resolution(300, 1)), Some((300, 1)));
    assert_eq!(read_x_resolution(&jpeg_with_x_resolution(144, 2)), Some((144, 2)));
    assert_eq!(read_x_resolution(&jpeg_with_exif_thumbnail_bytes(&[1, 2])), None);
    assert_eq!(read_x_resolution(&png_bytes(1, 1)), None);
}

#[test]
fn text_file_is_no_image() {
    let r = load_image_bytes("txt", b"this is not an image", None);
    assert!(matches!(r, Err(LoadError::UnknownFormat)));
    let r = load_thumbnail_bytes("txt", b"this is not an image", None);
    assert!(matches!(r, Err(LoadError::UnknownFormat)));
}

#[test]
fn loading_the_same_bytes_twice_gives_the_same_size() {
    let data = png_bytes(9, 4);
    let (_, a) = load_image_bytes("png", &data, None).unwrap();
    let (_, b) = load_image_bytes("png", &data, None).unwrap();
    assert_eq!((a.width(), a.height()), (b.width(), b.height()));
    assert_eq!((a.width(), a.height()), (9, 4));
}

#[test]
fn resize_is_not_transposed() {
    // Left half black, right half white: halving the width keeps a dark left
    // column and a light right one, the same in both rows.
    let mut pixels = Vec::new();
    for _y in 0..2 {
        for x in 0..4 {
            let v = if x < 2 { 0u8 } else { 255u8 };
            pixels.extend([v, v, v, 255]);
        }
    }
    let out = resize_rgba(&pixels, 4, 2, 2, 2).unwrap();
    assert_eq!(out.len(), 16);
    assert!(out[0] < 128 && out[4] > 128);
    assert_eq!(out[0] as u32 + out[4] as u32, 255);
    assert_eq!(&out[0..8], &out[8..16]);
}
