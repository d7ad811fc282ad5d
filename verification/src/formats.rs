//! Image file types recognised by their file-name extension.
use vstd::prelude::*;
use vstd::string::*;
use crate::chars::chars_of;

verus! {

broadcast use vstd::string::group_string_axioms;

/// `c` with an upper-case ASCII letter mapped to its lower-case form.
pub open spec fn ascii_lower(c: char) -> char {
    if 'A' <= c && c <= 'Z' {
        ((c as int) + 32) as char
    } else {
        c
    }
}

/// The extension `ext`, lower-cased, equals the lower-case ASCII word `word`.
///
/// Every word compared here is made of the letters `a`..`z` other than `k`;
/// the only characters whose Unicode lower-case form is one of those letters
/// are the ASCII letters themselves, so this is the same test as comparing
/// `ext.to_lowercase()` with `word`.
pub open spec fn ext_is(ext: Seq<char>, word: Seq<char>) -> bool {
    &&& ext.len() == word.len()
    &&& forall|i: int| 0 <= i < ext.len() ==> #[trigger] ascii_lower(ext[i]) == word[i]
}

/// Compares characters with a word, ignoring ASCII case in `ext`.
pub fn ext_equals(ext: &Vec<char>, word: &str) -> (r: bool)
    ensures
        r == ext_is(ext@, word@),
{
    let w = chars_of(word);
    if ext.len() != w.len() {
        return false;
    }
    let mut i: usize = 0;
    while i < ext.len()
        invariant
            i <= ext.len(),
            ext.len() == w.len(),
            w@ == word@,
            forall|j: int| 0 <= j < i ==> #[trigger] ascii_lower(ext@[j]) == w@[j],
        decreases ext.len() - i,
    {
        let c = ext[i];
        let lc: char = if 'A' <= c && c <= 'Z' {
            ((c as u8) + 32) as char
        } else {
            c
        };
        assert(lc == ascii_lower(c));
        if lc != w[i] {
            return false;
        }
        i += 1;
    }
    true
}

/// The MIME type that the clipboard announces for an image with extension `ext`.
pub open spec fn mime_type_of(ext: Seq<char>) -> Option<Seq<char>> {
    if ext_is(ext, "jpg"@) || ext_is(ext, "jpeg"@) {
        Some("image/jpeg"@)
    } else if ext_is(ext, "png"@) {
        Some("image/png"@)
    } else if ext_is(ext, "gif"@) {
        Some("image/gif"@)
    } else if ext_is(ext, "webp"@) {
        Some("image/webp"@)
    } else if ext_is(ext, "bmp"@) {
        Some("image/bmp"@)
    } else if ext_is(ext, "tiff"@) || ext_is(ext, "tif"@) {
        Some("image/tiff"@)
    } else if ext_is(ext, "avif"@) {
        Some("image/avif"@)
    } else if ext_is(ext, "ico"@) {
        Some("image/x-ico"@)
    } else if ext_is(ext, "svg"@) {
        Some("image/svg+xml"@)
    } else {
        None
    }
}

/// The MIME type of an image file with extension `ext` (case-insensitive),
/// or `None` for an extension that is not an image type.
pub fn image_mime_type(ext: &str) -> (r: Option<&'static str>)
    ensures
        match r {
            Some(m) => mime_type_of(ext@) == Some(m@),
            None => mime_type_of(ext@) is None,
        },
{
    let e = chars_of(ext);
    if ext_equals(&e, "jpg") || ext_equals(&e, "jpeg") {
        Some("image/jpeg")
    } else if ext_equals(&e, "png") {
        Some("image/png")
    } else if ext_equals(&e, "gif") {
        Some("image/gif")
    } else if ext_equals(&e, "webp") {
        Some("image/webp")
    } else if ext_equals(&e, "bmp") {
        Some("image/bmp")
    } else if ext_equals(&e, "tiff") || ext_equals(&e, "tif") {
        Some("image/tiff")
    } else if ext_equals(&e, "avif") {
        Some("image/avif")
    } else if ext_equals(&e, "ico") {
        Some("image/x-ico")
    } else if ext_equals(&e, "svg") {
        Some("image/svg+xml")
    } else {
        None
    }
}

/// The name shown for a file type in the image details page.
pub open spec fn type_name_of(ext: Seq<char>) -> Seq<char> {
    if ext_is(ext, "jpg"@) || ext_is(ext, "jpeg"@) {
        "JPEG image"@
    } else if ext_is(ext, "png"@) {
        "PNG image"@
    } else if ext_is(ext, "gif"@) {
        "GIF image"@
    } else if ext_is(ext, "webp"@) {
        "WebP image"@
    } else if ext_is(ext, "bmp"@) {
        "BMP image"@
    } else if ext_is(ext, "tiff"@) || ext_is(ext, "tif"@) {
        "TIFF image"@
    } else if ext_is(ext, "ico"@) {
        "ICO image"@
    } else if ext_is(ext, "avif"@) {
        "AVIF image"@
    } else if ext_is(ext, "hdr"@) {
        "HDR image"@
    } else if ext_is(ext, "jxl"@) {
        "JPEG XL image"@
    } else if ext_is(ext, "ppm"@) {
        "PPM image"@
    } else if ext_is(ext, "pgm"@) {
        "PGM image"@
    } else if ext_is(ext, "pbm"@) {
        "PBM image"@
    } else if ext_is(ext, "pnm"@) {
        "PNM image"@
    } else if ext_is(ext, "qoi"@) {
        "QOI image"@
    } else if ext_is(ext, "ff"@) || ext_is(ext, "farbfeld"@) {
        "Farbfeld image"@
    } else {
        "Image"@
    }
}

/// A human-readable name for the file type with extension `ext` (case-insensitive).
pub fn friendly_type_name(ext: &str) -> (r: String)
    ensures
        r@ == type_name_of(ext@),
{
    let e = chars_of(ext);
    let name: &str = if ext_equals(&e, "jpg") || ext_equals(&e, "jpeg") {
        "JPEG image"
    } else if ext_equals(&e, "png") {
        "PNG image"
    } else if ext_equals(&e, "gif") {
        "GIF image"
    } else if ext_equals(&e, "webp") {
        "WebP image"
    } else if ext_equals(&e, "bmp") {
        "BMP image"
    } else if ext_equals(&e, "tiff") || ext_equals(&e, "tif") {
        "TIFF image"
    } else if ext_equals(&e, "ico") {
        "ICO image"
    } else if ext_equals(&e, "avif") {
        "AVIF image"
    } else if ext_equals(&e, "hdr") {
        "HDR image"
    } else if ext_equals(&e, "jxl") {
        "JPEG XL image"
    } else if ext_equals(&e, "ppm") {
        "PPM image"
    } else if ext_equals(&e, "pgm") {
        "PGM image"
    } else if ext_equals(&e, "pbm") {
        "PBM image"
    } else if ext_equals(&e, "pnm") {
        "PNM image"
    } else if ext_equals(&e, "qoi") {
        "QOI image"
    } else if ext_equals(&e, "ff") || ext_equals(&e, "farbfeld") {
        "Farbfeld image"
    } else {
        "Image"
    };
    String::from_str(name)
}

/// Extensions handled by the fast decoder path (compared exactly: the caller
/// passes an extension that is already lower-cased).
pub open spec fn fast_decoder_ext(ext: Seq<char>) -> bool {
    ||| ext == "jpg"@
    ||| ext == "jpeg"@
    ||| ext == "png"@
    ||| ext == "ppm"@
    ||| ext == "pgm"@
    ||| ext == "pbm"@
    ||| ext == "pnm"@
    ||| ext == "bmp"@
    ||| ext == "qoi"@
    ||| ext == "ff"@
    ||| ext == "farbfeld"@
    ||| ext == "hdr"@
    ||| ext == "jxl"@
}

/// Exact comparison of two strings.
pub fn str_eq(a: &str, b: &str) -> (r: bool)
    ensures
        r == (a@ == b@),
{
    let x = chars_of(a);
    let y = chars_of(b);
    if x.len() != y.len() {
        return false;
    }
    let mut i: usize = 0;
    while i < x.len()
        invariant
            i <= x.len(),
            x.len() == y.len(),
            x@ == a@,
            y@ == b@,
            forall|j: int| 0 <= j < i ==> x@[j] == y@[j],
        decreases x.len() - i,
    {
        if x[i] != y[i] {
            return false;
        }
        i += 1;
    }
    assert(x@ =~= y@);
    true
}

/// Whether the fast decoder handles files with the (lower-case) extension `extension`.
pub fn is_zune_supported(extension: &str) -> (r: bool)
    ensures
        r == fast_decoder_ext(extension@),
{
    str_eq(extension, "jpg") || str_eq(extension, "jpeg") || str_eq(extension, "png")
        || str_eq(extension, "ppm") || str_eq(extension, "pgm") || str_eq(extension, "pbm")
        || str_eq(extension, "pnm") || str_eq(extension, "bmp") || str_eq(extension, "qoi")
        || str_eq(extension, "ff") || str_eq(extension, "farbfeld") || str_eq(extension, "hdr")
        || str_eq(extension, "jxl")
}

/// The details page names a file type as the clipboard's MIME type does:
/// every extension with a known image MIME type gets that type's name (an
/// SVG file, which the page has no name for, is a plain "Image").
pub proof fn lemma_type_name_follows_mime_type(ext: Seq<char>)
    ensures
        mime_type_of(ext) == Some("image/jpeg"@) ==> type_name_of(ext) == "JPEG image"@,
        mime_type_of(ext) == Some("image/png"@) ==> type_name_of(ext) == "PNG image"@,
        mime_type_of(ext) == Some("image/gif"@) ==> type_name_of(ext) == "GIF image"@,
        mime_type_of(ext) == Some("image/webp"@) ==> type_name_of(ext) == "WebP image"@,
        mime_type_of(ext) == Some("image/bmp"@) ==> type_name_of(ext) == "BMP image"@,
        mime_type_of(ext) == Some("image/tiff"@) ==> type_name_of(ext) == "TIFF image"@,
        mime_type_of(ext) == Some("image/avif"@) ==> type_name_of(ext) == "AVIF image"@,
        mime_type_of(ext) == Some("image/x-ico"@) ==> type_name_of(ext) == "ICO image"@,
        mime_type_of(ext) == Some("image/svg+xml"@) ==> type_name_of(ext) == "Image"@,
{
    reveal_strlit("jpg");
    reveal_strlit("jpeg");
    reveal_strlit("png");
    reveal_strlit("gif");
    reveal_strlit("webp");
    reveal_strlit("bmp");
    reveal_strlit("tiff");
    reveal_strlit("tif");
    reveal_strlit("ico");
    reveal_strlit("avif");
    reveal_strlit("hdr");
    reveal_strlit("jxl");
    reveal_strlit("ppm");
    reveal_strlit("pgm");
    reveal_strlit("pbm");
    reveal_strlit("pnm");
    reveal_strlit("qoi");
    reveal_strlit("ff");
    reveal_strlit("farbfeld");
    reveal_strlit("svg");
    if ext_is(ext, "svg"@) {
        assert(ascii_lower(ext[0]) == 's' && ascii_lower(ext[1]) == 'v' && ascii_lower(ext[2]) == 'g');
    }
    if ext_is(ext, "avif"@) {
        assert(ext.len() == 4);
    }
    reveal_strlit("image/jpeg");
    reveal_strlit("image/png");
    reveal_strlit("image/gif");
    reveal_strlit("image/webp");
    reveal_strlit("image/bmp");
    reveal_strlit("image/tiff");
    reveal_strlit("image/avif");
    reveal_strlit("image/x-ico");
    reveal_strlit("image/svg+xml");
    assert("image/jpeg"@ != "image/png"@) by { assert("image/jpeg"@.len() != "image/png"@.len()); }
    assert("image/jpeg"@ != "image/gif"@) by { assert("image/jpeg"@.len() != "image/gif"@.len()); }
    assert("image/jpeg"@ != "image/webp"@) by { assert("image/jpeg"@[6] != "image/webp"@[6]); }
    assert("image/jpeg"@ != "image/bmp"@) by { assert("image/jpeg"@.len() != "image/bmp"@.len()); }
    assert("image/jpeg"@ != "image/tiff"@) by { assert("image/jpeg"@[6] != "image/tiff"@[6]); }
    assert("image/jpeg"@ != "image/avif"@) by { assert("image/jpeg"@[6] != "image/avif"@[6]); }
    assert("image/jpeg"@ != "image/x-ico"@) by { assert("image/jpeg"@.len() != "image/x-ico"@.len()); }
    assert("image/jpeg"@ != "image/svg+xml"@) by { assert("image/jpeg"@.len() != "image/svg+xml"@.len()); }
    assert("image/png"@ != "image/gif"@) by { assert("image/png"@[6] != "image/gif"@[6]); }
    assert("image/png"@ != "image/webp"@) by { assert("image/png"@.len() != "image/webp"@.len()); }
    assert("image/png"@ != "image/bmp"@) by { assert("image/png"@[6] != "image/bmp"@[6]); }
    assert("image/png"@ != "image/tiff"@) by { assert("image/png"@.len() != "image/tiff"@.len()); }
    assert("image/png"@ != "image/avif"@) by { assert("image/png"@.len() != "image/avif"@.len()); }
    assert("image/png"@ != "image/x-ico"@) by { assert("image/png"@.len() != "image/x-ico"@.len()); }
    assert("image/png"@ != "image/svg+xml"@) by { assert("image/png"@.len() != "image/svg+xml"@.len()); }
    assert("image/gif"@ != "image/webp"@) by { assert("image/gif"@.len() != "image/webp"@.len()); }
    assert("image/gif"@ != "image/bmp"@) by { assert("image/gif"@[6] != "image/bmp"@[6]); }
    assert("image/gif"@ != "image/tiff"@) by { assert("image/gif"@.len() != "image/tiff"@.len()); }
    assert("image/gif"@ != "image/avif"@) by { assert("image/gif"@.len() != "image/avif"@.len()); }
    assert("image/gif"@ != "image/x-ico"@) by { assert("image/gif"@.len() != "image/x-ico"@.len()); }
    assert("image/gif"@ != "image/svg+xml"@) by { assert("image/gif"@.len() != "image/svg+xml"@.len()); }
    assert("image/webp"@ != "image/bmp"@) by { assert("image/webp"@.len() != "image/bmp"@.len()); }
    assert("image/webp"@ != "image/tiff"@) by { assert("image/webp"@[6] != "image/tiff"@[6]); }
    assert("image/webp"@ != "image/avif"@) by { assert("image/webp"@[6] != "image/avif"@[6]); }
    assert("image/webp"@ != "image/x-ico"@) by { assert("image/webp"@.len() != "image/x-ico"@.len()); }
    assert("image/webp"@ != "image/svg+xml"@) by { assert("image/webp"@.len() != "image/svg+xml"@.len()); }
    assert("image/bmp"@ != "image/tiff"@) by { assert("image/bmp"@.len() != "image/tiff"@.len()); }
    assert("image/bmp"@ != "image/avif"@) by { assert("image/bmp"@.len() != "image/avif"@.len()); }
    assert("image/bmp"@ != "image/x-ico"@) by { assert("image/bmp"@.len() != "image/x-ico"@.len()); }
    assert("image/bmp"@ != "image/svg+xml"@) by { assert("image/bmp"@.len() != "image/svg+xml"@.len()); }
    assert("image/tiff"@ != "image/avif"@) by { assert("image/tiff"@[6] != "image/avif"@[6]); }
    assert("image/tiff"@ != "image/x-ico"@) by { assert("image/tiff"@.len() != "image/x-ico"@.len()); }
    assert("image/tiff"@ != "image/svg+xml"@) by { assert("image/tiff"@.len() != "image/svg+xml"@.len()); }
    assert("image/avif"@ != "image/x-ico"@) by { assert("image/avif"@.len() != "image/x-ico"@.len()); }
    assert("image/avif"@ != "image/svg+xml"@) by { assert("image/avif"@.len() != "image/svg+xml"@.len()); }
    assert("image/x-ico"@ != "image/svg+xml"@) by { assert("image/x-ico"@.len() != "image/svg+xml"@.len()); }
}

/// Every format the fast decoder reads has a name of its own on the details
/// page, never the plain "Image".
pub proof fn lemma_fast_formats_named(ext: Seq<char>)
    requires
        crate::loader::fast_ext(ext),
    ensures
        type_name_of(ext) != "Image"@,
{
    reveal_strlit("JPEG image");
    reveal_strlit("PNG image");
    reveal_strlit("GIF image");
    reveal_strlit("WebP image");
    reveal_strlit("BMP image");
    reveal_strlit("TIFF image");
    reveal_strlit("ICO image");
    reveal_strlit("AVIF image");
    reveal_strlit("HDR image");
    reveal_strlit("JPEG XL image");
    reveal_strlit("PPM image");
    reveal_strlit("PGM image");
    reveal_strlit("PBM image");
    reveal_strlit("PNM image");
    reveal_strlit("QOI image");
    reveal_strlit("Farbfeld image");
    reveal_strlit("Image");
    assert("JPEG image"@ != "Image"@) by { assert("JPEG image"@.len() != "Image"@.len()); }
    assert("PNG image"@ != "Image"@) by { assert("PNG image"@.len() != "Image"@.len()); }
    assert("GIF image"@ != "Image"@) by { assert("GIF image"@.len() != "Image"@.len()); }
    assert("WebP image"@ != "Image"@) by { assert("WebP image"@.len() != "Image"@.len()); }
    assert("BMP image"@ != "Image"@) by { assert("BMP image"@.len() != "Image"@.len()); }
    assert("TIFF image"@ != "Image"@) by { assert("TIFF image"@.len() != "Image"@.len()); }
    assert("ICO image"@ != "Image"@) by { assert("ICO image"@.len() != "Image"@.len()); }
    assert("AVIF image"@ != "Image"@) by { assert("AVIF image"@.len() != "Image"@.len()); }
    assert("HDR image"@ != "Image"@) by { assert("HDR image"@.len() != "Image"@.len()); }
    assert("JPEG XL image"@ != "Image"@) by { assert("JPEG XL image"@.len() != "Image"@.len()); }
    assert("PPM image"@ != "Image"@) by { assert("PPM image"@.len() != "Image"@.len()); }
    assert("PGM image"@ != "Image"@) by { assert("PGM image"@.len() != "Image"@.len()); }
    assert("PBM image"@ != "Image"@) by { assert("PBM image"@.len() != "Image"@.len()); }
    assert("PNM image"@ != "Image"@) by { assert("PNM image"@.len() != "Image"@.len()); }
    assert("QOI image"@ != "Image"@) by { assert("QOI image"@.len() != "Image"@.len()); }
    assert("Farbfeld image"@ != "Image"@) by { assert("Farbfeld image"@.len() != "Image"@.len()); }
}

} // verus!
