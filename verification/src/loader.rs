//! Decisions of the image loader: which decoders to try for a file type, where
//! the embedded EXIF thumbnail of a JPEG file lies, and how far to scale a JPEG
//! while decoding it.
use vstd::prelude::*;
use crate::chars::chars_of;
use crate::imaging::dims;
use image::DynamicImage;
use fast_image_resize::images::Image as FirImage;
use fast_image_resize::{FilterType, PixelType, ResizeAlg, ResizeOptions, Resizer};
use crate::formats::{ext_equals, ext_is};
use crate::numfmt::{round_half_even, round_half_even_of, lemma_rounded_bound};

verus! {

/// Why the EXIF header of a JPEG file could not be located.
#[derive(Debug, Clone, Copy, PartialEq, Eq, Structural)]
pub enum ScanError {
    /// The file ended before a read was complete.
    Truncated,
    /// The file does not start with the JPEG start-of-image marker.
    NotJpeg,
    /// A segment does not start with a marker byte.
    InvalidMarker,
    /// The end-of-image marker came before an EXIF segment.
    NoExif,
}

/// The outcome of reading one JPEG segment.
#[derive(Debug, Clone, Copy, PartialEq, Eq, Structural)]
pub enum ScanStep {
    /// The next segment starts at this offset.
    Next(u64),
    /// The TIFF header of the EXIF data starts at this offset.
    Found(u64),
    /// The scan stops with this error.
    Failed(ScanError),
}

/// One step of the segment scan from the marker at `pos`: read the two marker
/// bytes (the first must be `0xFF`; further `0xFF` bytes are padding), then the
/// big-endian segment length. An APP1 segment whose next six bytes start with
/// `Exif` ends the scan at the offset after those six bytes; another APP1
/// segment continues at its start plus its length (the six bytes read count
/// against it); any other segment continues past its length, except that the
/// end-of-image marker ends the scan without a result.
pub open spec fn scan_step(data: Seq<u8>, pos: int) -> ScanStep {
    if pos < 0 || pos + 2 > data.len() {
        ScanStep::Failed(ScanError::Truncated)
    } else if data[pos] != 0xFF {
        ScanStep::Failed(ScanError::InvalidMarker)
    } else {
        marker_step(data, data[pos + 1], pos + 2)
    }
}

/// The rest of a step once the marker's second byte `m` is known and `p` is the
/// offset after it.
pub open spec fn marker_step(data: Seq<u8>, m: u8, p: int) -> ScanStep
    decreases data.len() - p,
{
    if m == 0xFF {
        if p < 0 || p + 1 > data.len() {
            ScanStep::Failed(ScanError::Truncated)
        } else {
            marker_step(data, data[p], p + 1)
        }
    } else if p < 0 || p + 2 > data.len() {
        ScanStep::Failed(ScanError::Truncated)
    } else {
        let seg = (data[p] as int) * 256 + (data[p + 1] as int);
        let q = p + 2;
        if m == 0xE1 {
            if q + 6 > data.len() {
                ScanStep::Failed(ScanError::Truncated)
            } else if data.subrange(q, q + 4) == seq![0x45u8, 0x78u8, 0x69u8, 0x66u8] {
                ScanStep::Found((q + 6) as u64)
            } else {
                ScanStep::Next((q + 6 + seg - 8) as u64)
            }
        } else if m == 0xD9 {
            ScanStep::Failed(ScanError::NoExif)
        } else {
            ScanStep::Next((q + seg - 2) as u64)
        }
    }
}

/// A step that continues never goes back: the next segment starts at or
/// after the end of the marker bytes.
proof fn lemma_marker_step_advances(data: Seq<u8>, m: u8, p: int)
    requires
        0 <= p,
        data.len() < 0x1_0000_0000_0000,
    ensures
        marker_step(data, m, p) matches ScanStep::Next(n) ==> n >= p,
    decreases data.len() - p,
{
    if m == 0xFF && p + 1 <= data.len() {
        lemma_marker_step_advances(data, data[p], p + 1);
    }
}

/// Each step that continues moves at least two bytes forward.
pub proof fn lemma_scan_step_advances(data: Seq<u8>, pos: int)
    requires
        data.len() < 0x1_0000_0000_0000,
    ensures
        scan_step(data, pos) matches ScanStep::Next(n) ==> n >= pos + 2,
{
    if 0 <= pos && pos + 2 <= data.len() && data[pos] == 0xFF {
        lemma_marker_step_advances(data, data[pos + 1], pos + 2);
    }
}

/// The result of the segment scan from the marker at `pos`. A segment that
/// would start past the end of the file is truncated.
pub open spec fn scan_from(data: Seq<u8>, pos: int) -> Result<u64, ScanError>
    decreases data.len() - pos,
    when data.len() < 0x1_0000_0000_0000
{
    match scan_step(data, pos) {
        ScanStep::Next(n) => {
            if n > data.len() {
                Err(ScanError::Truncated)
            } else {
                proof {
                    lemma_scan_step_advances(data, pos);
                }
                scan_from(data, n as int)
            }
        },
        ScanStep::Found(o) => Ok(o),
        ScanStep::Failed(e) => Err(e),
    }
}

/// The offset of the TIFF header inside the EXIF segment of the JPEG file
/// `data`: the file must start with `FF D8`; segments are then read one after
/// the other from offset 2.
pub open spec fn tiff_header_offset(data: Seq<u8>) -> Result<u64, ScanError> {
    if data.len() < 2 {
        Err(ScanError::Truncated)
    } else if data[0] != 0xFF || data[1] != 0xD8 {
        Err(ScanError::NotJpeg)
    } else {
        scan_from(data, 2)
    }
}

/// Reads one JPEG segment at `pos`.
pub fn scan_segment(data: &[u8], pos: u64) -> (r: ScanStep)
    requires
        data.len() < 0x1_0000_0000_0000,
    ensures
        r == scan_step(data@, pos as int),
{
    let n = data.len() as u64;
    if pos > n || n - pos < 2 {
        return ScanStep::Failed(ScanError::Truncated);
    }
    let p0 = pos as usize;
    if data[p0] != 0xFF {
        return ScanStep::Failed(ScanError::InvalidMarker);
    }
    let mut m = data[p0 + 1];
    let mut p: usize = p0 + 2;
    while m == 0xFF
        invariant
            p0 + 2 <= p <= data.len(),
            data.len() < 0x1_0000_0000_0000,
            scan_step(data@, pos as int) == marker_step(data@, m, p as int),
        decreases data.len() - p,
    {
        if p >= data.len() {
            return ScanStep::Failed(ScanError::Truncated);
        }
        m = data[p];
        p += 1;
    }
    if data.len() - p < 2 {
        return ScanStep::Failed(ScanError::Truncated);
    }
    let seg = (data[p] as u64) * 256 + (data[p + 1] as u64);
    let q = p + 2;
    if m == 0xE1 {
        if data.len() - q < 6 {
            return ScanStep::Failed(ScanError::Truncated);
        }
        if data[q] == 0x45 && data[q + 1] == 0x78 && data[q + 2] == 0x69 && data[q + 3] == 0x66 {
            assert(data@.subrange(q as int, q + 4) =~= seq![0x45u8, 0x78u8, 0x69u8, 0x66u8]);
            return ScanStep::Found((q + 6) as u64);
        }
        proof {
            if data@.subrange(q as int, q + 4) == seq![0x45u8, 0x78u8, 0x69u8, 0x66u8] {
                assert(data@.subrange(q as int, q + 4)[0] == data@[q as int]);
                assert(data@.subrange(q as int, q + 4)[1] == data@[q + 1]);
                assert(data@.subrange(q as int, q + 4)[2] == data@[q + 2]);
                assert(data@.subrange(q as int, q + 4)[3] == data@[q + 3]);
            }
        }
        ScanStep::Next((q as u64) + 6 + seg - 8)
    } else if m == 0xD9 {
        ScanStep::Failed(ScanError::NoExif)
    } else {
        ScanStep::Next((q as u64) + seg - 2)
    }
}

/// Finds the offset of the TIFF header of the EXIF data in a JPEG file.
pub fn find_tiff_header_offset(data: &[u8]) -> (r: Result<u64, ScanError>)
    requires
        data.len() < 0x1_0000_0000_0000,
    ensures
        r == tiff_header_offset(data@),
{
    if data.len() < 2 {
        return Err(ScanError::Truncated);
    }
    if data[0] != 0xFF || data[1] != 0xD8 {
        return Err(ScanError::NotJpeg);
    }
    let mut pos: u64 = 2;
    loop
        invariant
            data.len() < 0x1_0000_0000_0000,
            2 <= pos <= data.len(),
            tiff_header_offset(data@) == scan_from(data@, pos as int),
        decreases data.len() - pos,
    {
        proof {
            lemma_scan_step_advances(data@, pos as int);
        }
        match scan_segment(data, pos) {
            ScanStep::Next(n) => {
                if n > data.len() as u64 {
                    return Err(ScanError::Truncated);
                }
                pos = n;
            },
            ScanStep::Found(o) => {
                return Ok(o);
            },
            ScanStep::Failed(e) => {
                return Err(e);
            },
        }
    }
}

/// Why the embedded thumbnail of a JPEG file could not be cut out.
#[derive(Debug, Clone, Copy, PartialEq, Eq, Structural)]
pub enum ThumbnailError {
    /// The EXIF data could not be read.
    NoExif,
    /// The EXIF data has no thumbnail fields.
    NoThumbnail,
    /// The EXIF data names no thumbnail offset.
    NoOffset,
    /// The EXIF data names no thumbnail length.
    NoLength,
    /// The thumbnail is longer than 1 000 000 bytes.
    TooLarge,
    /// The file ended before the thumbnail did.
    Truncated,
    /// The EXIF header could not be located.
    Scan(ScanError),
    /// The thumbnail bytes are no JPEG image.
    Decode,
}

/// The largest embedded thumbnail that is read, in bytes.
pub const MAX_THUMBNAIL_LEN: u32 = 1_000_000;

#[verifier::external_type_specification]
#[verifier::external_body]
pub struct ExExif(exif::Exif);

#[verifier::external_type_specification]
#[verifier::external_body]
pub struct ExExifError(exif::Error);

#[verifier::external_type_specification]
#[verifier::external_body]
pub struct ExExifField(exif::Field);

/// The thumbnail fields of the EXIF data that
/// `exif::Reader::read_from_container` parses from the bytes of a file:
/// `None` when it parses none; else, for the thumbnail's offset field and
/// for its length field, `None` when the field is missing and else the
/// field's first unsigned integer (`None` when it holds none).
pub uninterp spec fn exif_thumbnail_fields(data: Seq<u8>) -> Option<
    (Option<Option<u32>>, Option<Option<u32>>),
>;

/// What `exif::Exif::get_field` gives in the thumbnail directory, for the
/// thumbnail's length tag (`length`) or its offset tag.
pub uninterp spec fn exif_thumbnail_field(e: exif::Exif, length: bool) -> Option<exif::Field>;

/// What `exif::Value::get_uint(0)` gives on a field's value.
pub uninterp spec fn field_first_uint(f: exif::Field) -> Option<u32>;

/// A thumbnail field of parsed EXIF data read as its first unsigned integer.
pub open spec fn field_reading(e: exif::Exif, length: bool) -> Option<Option<u32>> {
    match exif_thumbnail_field(e, length) {
        Some(f) => Some(field_first_uint(f)),
        None => None,
    }
}

/// The horizontal resolution recorded in the EXIF data that
/// `exif::Reader::read_from_container` parses from the bytes of a file, as
/// the numerator and denominator of the first rational of its primary
/// `XResolution` field; `None` when no EXIF data parses, the field is
/// missing, or it holds no unsigned rational.
pub uninterp spec fn exif_x_resolution(data: Seq<u8>) -> Option<(u32, u32)>;

/// What `exif::Exif::get_field` gives for `Tag::XResolution` in the primary
/// image directory.
pub uninterp spec fn exif_x_resolution_field(e: exif::Exif) -> Option<exif::Field>;

/// The first element of a field's value when it is `Value::Rational`, as
/// numerator and denominator; `None` for another value or an empty list.
pub uninterp spec fn field_first_rational(f: exif::Field) -> Option<(u32, u32)>;

/// The resolution a parse gives: the first rational of its `XResolution` field.
pub open spec fn resolution_reading(e: exif::Exif) -> Option<(u32, u32)> {
    match exif_x_resolution_field(e) {
        Some(f) => field_first_rational(f),
        None => None,
    }
}

/// `exif::Reader::read_from_container` on the bytes of an image file:
/// parses its EXIF data. Whether it succeeds, and what the parsed data holds
/// in the thumbnail's offset and length fields and in the resolution field,
/// are functions of the bytes.
#[verifier::external_body]
fn read_exif(data: &[u8]) -> (r: Result<exif::Exif, exif::Error>)
    ensures
        r is Ok <==> exif_thumbnail_fields(data@) is Some,
        r matches Ok(e) ==> exif_thumbnail_fields(data@) == Some(
            (field_reading(e, false), field_reading(e, true)),
        ),
        r is Err ==> exif_x_resolution(data@) is None,
        r matches Ok(e) ==> exif_x_resolution(data@) == resolution_reading(e),
{
    exif::Reader::new().read_from_container(&mut std::io::Cursor::new(data))
}

/// `exif::Exif::get_field` for the thumbnail's offset
/// (`Tag::JPEGInterchangeFormat` in the thumbnail directory).
#[verifier::external_body]
fn thumbnail_offset_field(data: &exif::Exif) -> (r: Option<&exif::Field>)
    ensures
        match r {
            Some(f) => exif_thumbnail_field(*data, false) == Some(*f),
            None => exif_thumbnail_field(*data, false) is None,
        },
{
    data.get_field(exif::Tag::JPEGInterchangeFormat, exif::In::THUMBNAIL)
}

/// `exif::Exif::get_field` for the thumbnail's length
/// (`Tag::JPEGInterchangeFormatLength` in the thumbnail directory).
#[verifier::external_body]
fn thumbnail_length_field(data: &exif::Exif) -> (r: Option<&exif::Field>)
    ensures
        match r {
            Some(f) => exif_thumbnail_field(*data, true) == Some(*f),
            None => exif_thumbnail_field(*data, true) is None,
        },
{
    data.get_field(exif::Tag::JPEGInterchangeFormatLength, exif::In::THUMBNAIL)
}

/// `exif::Exif::get_field` for the horizontal resolution
/// (`Tag::XResolution` in the primary image directory).
#[verifier::external_body]
fn x_resolution_field(data: &exif::Exif) -> (r: Option<&exif::Field>)
    ensures
        match r {
            Some(f) => exif_x_resolution_field(*data) == Some(*f),
            None => exif_x_resolution_field(*data) is None,
        },
{
    data.get_field(exif::Tag::XResolution, exif::In::PRIMARY)
}

/// The first element of `field`'s value when it is `exif::Value::Rational`,
/// as its numerator and denominator.
#[verifier::external_body]
fn first_rational(field: &exif::Field) -> (r: Option<(u32, u32)>)
    ensures
        r == field_first_rational(*field),
{
    match field.value {
        exif::Value::Rational(ref v) => v.first().map(|q| (q.num, q.denom)),
        _ => None,
    }
}

/// The horizontal resolution recorded in the EXIF data of the file `data`,
/// as the numerator and denominator of a rational number of pixels per
/// inch; `None` when the file has no EXIF data or no such field.
pub fn read_x_resolution(data: &[u8]) -> (r: Option<(u32, u32)>)
    ensures
        r == exif_x_resolution(data@),
{
    let ex = match read_exif(data) {
        Ok(x) => x,
        Err(_) => return None,
    };
    match x_resolution_field(&ex) {
        Some(f) => first_rational(f),
        None => None,
    }
}

/// `exif::Value::get_uint(0)` on the value of `field`: its first unsigned
/// integer, if it holds unsigned integers.
#[verifier::external_body]
fn first_uint(field: &exif::Field) -> (r: Option<u32>)
    ensures
        r == field_first_uint(*field),
{
    field.value.get_uint(0)
}

/// The embedded thumbnail of the JPEG file `data`: no EXIF data, or a
/// missing offset or length field, is an error; otherwise the slice the two
/// fields name.
pub open spec fn exif_thumbnail_bytes(data: Seq<u8>) -> Result<Seq<u8>, ThumbnailError> {
    match exif_thumbnail_fields(data) {
        None => Err(ThumbnailError::NoExif),
        Some((Some(o), Some(l))) => thumbnail_slice(data, o, l),
        Some(_) => Err(ThumbnailError::NoThumbnail),
    }
}

/// Reads the EXIF data of the JPEG file `data` and cuts out the thumbnail
/// it embeds.
pub fn extract_thumbnail(data: &[u8]) -> (r: Result<Vec<u8>, ThumbnailError>)
    requires
        data.len() < 0x1_0000_0000_0000,
    ensures
        match r {
            Ok(v) => exif_thumbnail_bytes(data@) == Ok::<Seq<u8>, ThumbnailError>(v@),
            Err(e) => exif_thumbnail_bytes(data@) == Err::<Seq<u8>, ThumbnailError>(e),
        },
{
    let ex = match read_exif(data) {
        Ok(x) => x,
        Err(_) => return Err(ThumbnailError::NoExif),
    };
    let off_field = thumbnail_offset_field(&ex);
    let len_field = thumbnail_length_field(&ex);
    let (of, lf) = match (off_field, len_field) {
        (Some(a), Some(b)) => (a, b),
        _ => return Err(ThumbnailError::NoThumbnail),
    };
    let offset = first_uint(of);
    let length = first_uint(lf);
    thumbnail_bytes(data, offset, length)
}

/// The image that `image::load_from_memory_with_format` decodes from JPEG
/// bytes, or `None` when it fails.
pub uninterp spec fn jpeg_decoded(bytes: Seq<u8>) -> Option<DynamicImage>;

/// `image::load_from_memory_with_format` with the JPEG format: decodes JPEG
/// bytes. The decoded image is a function of the bytes: the JPEG decoder's
/// vector and scalar code paths (upsampling, colour conversion, IDCT) use
/// the same integer arithmetic.
#[verifier::external_body]
fn decode_jpeg(bytes: &[u8]) -> (r: Option<DynamicImage>)
    ensures
        match r {
            Some(img) => jpeg_decoded(bytes@) == Some(img),
            None => jpeg_decoded(bytes@) is None,
        },
{
    image::load_from_memory_with_format(bytes, image::ImageFormat::Jpeg).ok()
}

/// Reads the thumbnail embedded in the EXIF data of the JPEG file `data` and
/// decodes it: the errors of `extract_thumbnail`, then `Decode` when the
/// thumbnail is no JPEG image; else the decoded thumbnail.
pub fn exif_thumbnail(data: &[u8]) -> (r: Result<DynamicImage, ThumbnailError>)
    requires
        data.len() < 0x1_0000_0000_0000,
    ensures
        match exif_thumbnail_bytes(data@) {
            Err(e) => r == Err::<DynamicImage, ThumbnailError>(e),
            Ok(b) => match jpeg_decoded(b) {
                None => r == Err::<DynamicImage, ThumbnailError>(ThumbnailError::Decode),
                Some(img) => r == Ok::<DynamicImage, ThumbnailError>(img),
            },
        },
{
    let bytes = extract_thumbnail(data)?;
    match decode_jpeg(bytes.as_slice()) {
        Some(img) => Ok(img),
        None => Err(ThumbnailError::Decode),
    }
}

/// Where the TIFF header lies: right after the first twelve bytes when the
/// file starts with `FF D8 FF E1` (an APP1 segment first), else where the
/// segment scan finds it.
pub open spec fn tiff_start(data: Seq<u8>) -> Result<u64, ScanError> {
    if data[0] == 0xFF && data[1] == 0xD8 && data[2] == 0xFF && data[3] == 0xE1 {
        Ok(12)
    } else {
        tiff_header_offset(data)
    }
}

/// The bytes of the embedded thumbnail of the JPEG file `data`, whose EXIF
/// data gives the thumbnail's offset (from the TIFF header) and length.
pub open spec fn thumbnail_slice(data: Seq<u8>, offset: Option<u32>, length: Option<u32>) -> Result<
    Seq<u8>,
    ThumbnailError,
> {
    match (offset, length) {
        (None, _) => Err(ThumbnailError::NoOffset),
        (Some(_), None) => Err(ThumbnailError::NoLength),
        (Some(off), Some(len)) => {
            if len > MAX_THUMBNAIL_LEN {
                Err(ThumbnailError::TooLarge)
            } else if data.len() < 12 {
                Err(ThumbnailError::Truncated)
            } else {
                match tiff_start(data) {
                    Err(e) => Err(ThumbnailError::Scan(e)),
                    Ok(t) => {
                        let start = t + off;
                        if start + len > data.len() {
                            Err(ThumbnailError::Truncated)
                        } else {
                            Ok(data.subrange(start as int, start + len))
                        }
                    },
                }
            }
        },
    }
}

/// Cuts the embedded thumbnail out of the JPEG file `data`, given the offset
/// and length that its EXIF data names.
pub fn thumbnail_bytes(data: &[u8], offset: Option<u32>, length: Option<u32>) -> (r: Result<
    Vec<u8>,
    ThumbnailError,
>)
    requires
        data.len() < 0x1_0000_0000_0000,
    ensures
        match r {
            Ok(v) => thumbnail_slice(data@, offset, length) == Ok::<Seq<u8>, ThumbnailError>(v@),
            Err(e) => thumbnail_slice(data@, offset, length) == Err::<Seq<u8>, ThumbnailError>(e),
        },
{
    let off = match offset {
        None => return Err(ThumbnailError::NoOffset),
        Some(o) => o,
    };
    let len = match length {
        None => return Err(ThumbnailError::NoLength),
        Some(l) => l,
    };
    if len > MAX_THUMBNAIL_LEN {
        return Err(ThumbnailError::TooLarge);
    }
    if data.len() < 12 {
        return Err(ThumbnailError::Truncated);
    }
    let tiff = if data[0] == 0xFF && data[1] == 0xD8 && data[2] == 0xFF && data[3] == 0xE1 {
        12u64
    } else {
        match find_tiff_header_offset(data) {
            Ok(t) => t,
            Err(e) => return Err(ThumbnailError::Scan(e)),
        }
    };
    proof {
        lemma_tiff_start_bounded(data@);
    }
    let start = tiff + off as u64;
    if start + len as u64 > data.len() as u64 {
        return Err(ThumbnailError::Truncated);
    }
    let mut out: Vec<u8> = Vec::new();
    let mut i: usize = start as usize;
    let stop: usize = (start + len as u64) as usize;
    while i < stop
        invariant
            start <= i <= stop <= data.len(),
            out@ == data@.subrange(start as int, i as int),
        decreases stop - i,
    {
        out.push(data[i]);
        assert(data@.subrange(start as int, i + 1) =~= data@.subrange(start as int, i as int).push(
            data@[i as int],
        ));
        i += 1;
    }
    Ok(out)
}

proof fn lemma_scan_from_bounded(data: Seq<u8>, pos: int)
    requires
        data.len() < 0x1_0000_0000_0000,
    ensures
        scan_from(data, pos) matches Ok(o) ==> o <= data.len(),
    decreases data.len() - pos,
{
    lemma_scan_step_advances(data, pos);
    lemma_scan_step_found_bounded(data, pos);
    match scan_step(data, pos) {
        ScanStep::Next(n) => {
            if n <= data.len() {
                lemma_scan_from_bounded(data, n as int);
            }
        },
        _ => {},
    }
}

proof fn lemma_marker_step_found_bounded(data: Seq<u8>, m: u8, p: int)
    requires
        0 <= p,
        data.len() < 0x1_0000_0000_0000,
    ensures
        marker_step(data, m, p) matches ScanStep::Found(o) ==> o <= data.len(),
    decreases data.len() - p,
{
    if m == 0xFF && p + 1 <= data.len() {
        lemma_marker_step_found_bounded(data, data[p], p + 1);
    }
}

proof fn lemma_scan_step_found_bounded(data: Seq<u8>, pos: int)
    requires
        data.len() < 0x1_0000_0000_0000,
    ensures
        scan_step(data, pos) matches ScanStep::Found(o) ==> o <= data.len(),
{
    if 0 <= pos && pos + 2 <= data.len() && data[pos] == 0xFF {
        lemma_marker_step_found_bounded(data, data[pos + 1], pos + 2);
    }
}

proof fn lemma_tiff_start_bounded(data: Seq<u8>)
    requires
        12 <= data.len() < 0x1_0000_0000_0000,
    ensures
        tiff_start(data) matches Ok(t) ==> t <= data.len(),
{
    lemma_scan_from_bounded(data, 2);
}

/// The spacing between neighbouring `f32` values around `n`: one below
/// 2^24, doubling with each further bit.
pub open spec fn f32_spacing(n: nat) -> nat
    decreases n,
{
    if n < 0x100_0000 {
        1
    } else {
        2 * f32_spacing(n / 2)
    }
}

/// `n as f32`, as an integer: `n` rounded to the nearest multiple of the
/// spacing, ties to even.
pub open spec fn f32_value(n: nat) -> nat {
    round_half_even(n, f32_spacing(n)) * f32_spacing(n)
}

/// The longest edge, in pixels, of a JPEG of longest edge `max_dim` decoded
/// at scale `1/denom`: `(max_dim as f32 / denom as f32) as u32`.
pub open spec fn scaled_edge(max_dim: u32, denom: nat) -> nat {
    let v = f32_value(max_dim as nat) / denom;
    if v > u32::MAX {
        u32::MAX as nat
    } else {
        v
    }
}

/// The DCT scale `1/d` at which to decode a JPEG of size `width` by
/// `height` for a target edge of `target` pixels: the smallest image (of
/// scales 1, 1/2, 1/4 and 1/8, tried in that order) whose longest edge is
/// still at least `target`; 1/8 when none is.
pub open spec fn jpeg_scale(width: u32, height: u32, target: u32) -> u32 {
    let m = if width >= height {
        width
    } else {
        height
    };
    if scaled_edge(m, 8) >= target {
        8
    } else if scaled_edge(m, 4) >= target {
        4
    } else if scaled_edge(m, 2) >= target {
        2
    } else {
        if scaled_edge(m, 1) >= target {
            1
        } else {
            8
        }
    }
}

/// When the full-size image reaches the target, the chosen scale reaches it
/// too, and every smaller scale falls short of it.
pub proof fn lemma_scale_smallest_sufficient(width: u32, height: u32, target: u32)
    ensures
        ({
            let m = if width >= height {
                width
            } else {
                height
            };
            let d = jpeg_scale(width, height, target) as nat;
            scaled_edge(m, 1) >= target ==> {
                &&& scaled_edge(m, d) >= target
                &&& forall|e: nat| (e == 2 || e == 4 || e == 8) && e > d ==> scaled_edge(m, e) < target
            }
        }),
{
}

fn f32_spacing_of(n: u64) -> (s: u64)
    requires
        n < 0x1_0000_0000,
    ensures
        s == f32_spacing(n as nat),
        1 <= s <= 0x1_0000_0000,
        s <= 1 || s <= n,
    decreases n,
{
    if n < 0x100_0000 {
        1
    } else {
        let h = f32_spacing_of(n / 2);
        2 * h
    }
}

/// `n as f32`, held exactly as an integer.
fn f32_value_of(n: u32) -> (v: u64)
    ensures
        v == f32_value(n as nat),
        v <= 2 * (n as nat) + 1,
{
    let s = f32_spacing_of(n as u64);
    let q1 = round_half_even_of(n as u128, s as u128);
    proof {
        lemma_rounded_bound(n as nat, s as nat, q1 as nat);
        assert(q1 * s <= 2 * (n as nat) + 1) by (nonlinear_arith)
            requires
                q1 * s <= n + s,
                s <= 1 || s <= n,
                s >= 1,
        ;
    }
    (q1 as u64) * s
}

/// The DCT scale denominator (1, 2, 4 or 8) at which to decode a JPEG for
/// a thumbnail of edge `target`.
pub fn jpeg_scale_denominator(width: u32, height: u32, target: u32) -> (d: u32)
    ensures
        d == jpeg_scale(width, height, target),
        d == 1 || d == 2 || d == 4 || d == 8,
{
    let m = if width >= height {
        width
    } else {
        height
    };
    let v = f32_value_of(m);
    let s1 = if v > 0xFFFF_FFFF {
        0xFFFF_FFFFu64
    } else {
        v
    };
    if v / 8 >= target as u64 {
        8
    } else if v / 4 >= target as u64 {
        4
    } else if v / 2 >= target as u64 {
        2
    } else if s1 >= target as u64 {
        1
    } else {
        8
    }
}

/// The decoders an image can go through, in the order they are tried.
#[derive(Debug, Clone, Copy, PartialEq, Eq, Structural)]
pub enum Decoder {
    /// The thumbnail embedded in the EXIF data of a JPEG file.
    ExifThumbnail,
    /// The JPEG decoder, scaling while decoding.
    JpegScaled,
    /// The JPEG decoder at full size.
    JpegFull,
    /// The fast decoder for common formats.
    Fast,
    /// The general decoder, which knows every supported format.
    General,
}

/// Whether `ext` names a JPEG file, in any letter case.
pub open spec fn is_jpeg_ext(ext: Seq<char>) -> bool {
    ext_is(ext, "jpg"@) || ext_is(ext, "jpeg"@)
}

/// Whether the fast decoder reads files with extension `ext`, in any letter
/// case.
pub open spec fn fast_ext(ext: Seq<char>) -> bool {
    ||| ext_is(ext, "jpg"@)
    ||| ext_is(ext, "jpeg"@)
    ||| ext_is(ext, "png"@)
    ||| ext_is(ext, "ppm"@)
    ||| ext_is(ext, "pgm"@)
    ||| ext_is(ext, "pbm"@)
    ||| ext_is(ext, "pnm"@)
    ||| ext_is(ext, "bmp"@)
    ||| ext_is(ext, "qoi"@)
    ||| ext_is(ext, "ff"@)
    ||| ext_is(ext, "farbfeld"@)
    ||| ext_is(ext, "hdr"@)
    ||| ext_is(ext, "jxl"@)
}

/// The decoders tried for a full view of a file with extension `ext`: the
/// JPEG decoder for JPEG files, then the fast decoder where it applies, then
/// the general one.
pub open spec fn image_decoder_order(ext: Seq<char>) -> Seq<Decoder> {
    let tail = if fast_ext(ext) {
        seq![Decoder::Fast, Decoder::General]
    } else {
        seq![Decoder::General]
    };
    if is_jpeg_ext(ext) {
        seq![Decoder::JpegFull] + tail
    } else {
        tail
    }
}

/// The decoders tried for a thumbnail of a file with extension `ext`: for
/// JPEG files the embedded thumbnail, then scaled decoding; then the fast
/// decoder where it applies, then the general one.
pub open spec fn thumbnail_decoder_order(ext: Seq<char>) -> Seq<Decoder> {
    let tail = if fast_ext(ext) {
        seq![Decoder::Fast, Decoder::General]
    } else {
        seq![Decoder::General]
    };
    if is_jpeg_ext(ext) {
        seq![Decoder::ExifThumbnail, Decoder::JpegScaled] + tail
    } else {
        tail
    }
}

fn is_fast_ext(e: &Vec<char>) -> (r: bool)
    ensures
        r == fast_ext(e@),
{
    ext_equals(e, "jpg") || ext_equals(e, "jpeg") || ext_equals(e, "png") || ext_equals(e, "ppm")
        || ext_equals(e, "pgm") || ext_equals(e, "pbm") || ext_equals(e, "pnm") || ext_equals(
        e,
        "bmp",
    ) || ext_equals(e, "qoi") || ext_equals(e, "ff") || ext_equals(e, "farbfeld") || ext_equals(
        e,
        "hdr",
    ) || ext_equals(e, "jxl")
}

/// The decoders to try, in order, to show a file with extension `ext`.
pub fn image_decoders(ext: &str) -> (r: Vec<Decoder>)
    ensures
        r@ == image_decoder_order(ext@),
{
    let e = chars_of(ext);
    let mut r: Vec<Decoder> = Vec::new();
    if ext_equals(&e, "jpg") || ext_equals(&e, "jpeg") {
        r.push(Decoder::JpegFull);
    }
    if is_fast_ext(&e) {
        r.push(Decoder::Fast);
    }
    r.push(Decoder::General);
    proof {
        assert(r@ =~= image_decoder_order(ext@));
    }
    r
}

/// The decoders to try, in order, for a thumbnail of a file with extension
/// `ext`.
pub fn thumbnail_decoders(ext: &str) -> (r: Vec<Decoder>)
    ensures
        r@ == thumbnail_decoder_order(ext@),
{
    let e = chars_of(ext);
    let mut r: Vec<Decoder> = Vec::new();
    if ext_equals(&e, "jpg") || ext_equals(&e, "jpeg") {
        r.push(Decoder::ExifThumbnail);
        r.push(Decoder::JpegScaled);
    }
    if is_fast_ext(&e) {
        r.push(Decoder::Fast);
    }
    r.push(Decoder::General);
    proof {
        assert(r@ =~= thumbnail_decoder_order(ext@));
    }
    r
}

#[verifier::external_type_specification]
#[verifier::external_body]
pub struct ExImageError(image::ImageError);

/// Whether `image::ImageFormat::from_extension` knows a format for the
/// extension `ext` (compared after ASCII lower-casing).
pub open spec fn general_ext(ext: Seq<char>) -> bool {
    ||| ext_is(ext, "avif"@)
    ||| ext_is(ext, "jpg"@)
    ||| ext_is(ext, "jpeg"@)
    ||| ext_is(ext, "jfif"@)
    ||| ext_is(ext, "png"@)
    ||| ext_is(ext, "apng"@)
    ||| ext_is(ext, "gif"@)
    ||| ext_is(ext, "webp"@)
    ||| ext_is(ext, "tif"@)
    ||| ext_is(ext, "tiff"@)
    ||| ext_is(ext, "tga"@)
    ||| ext_is(ext, "dds"@)
    ||| ext_is(ext, "bmp"@)
    ||| ext_is(ext, "ico"@)
    ||| ext_is(ext, "hdr"@)
    ||| ext_is(ext, "exr"@)
    ||| ext_is(ext, "pbm"@)
    ||| ext_is(ext, "pam"@)
    ||| ext_is(ext, "ppm"@)
    ||| ext_is(ext, "pgm"@)
    ||| ext_is(ext, "pnm"@)
    ||| ext_is(ext, "ff"@)
    ||| ext_is(ext, "qoi"@)
}

/// The image that `image::open` decodes from a file with extension `ext` and
/// contents `bytes` (the format chosen by the extension), or `None` when
/// that fails.
pub uninterp spec fn image_decoded(ext: Seq<char>, bytes: Seq<u8>) -> Option<DynamicImage>;

/// `image::open` on a file's contents: `ImageFormat::from_extension` turns
/// the extension into the format (`None` when it knows none, where `open`
/// fails with an unsupported-format error), and
/// `image::load_from_memory_with_format` decodes the bytes in that format,
/// as `open` decodes the file. The decoded image is a function of the
/// extension and the bytes.
#[verifier::external_body]
fn decode_general(bytes: &[u8], ext: &str) -> (r: Option<Result<DynamicImage, image::ImageError>>)
    ensures
        r is None <==> !general_ext(ext@),
        match r {
            Some(Ok(img)) => image_decoded(ext@, bytes@) == Some(img),
            _ => image_decoded(ext@, bytes@) is None,
        },
{
    let format = image::ImageFormat::from_extension(ext)?;
    Some(image::load_from_memory_with_format(bytes, format))
}

/// The image that `zune_image::image::Image::read` decodes from `bytes`
/// (default options, the format guessed from the bytes) and converts to
/// 8-bit RGBA, or `None` when that fails.
pub uninterp spec fn fast_decoded(bytes: Seq<u8>) -> Option<DynamicImage>;

/// `zune_image::image::Image::read` on a file's contents, as `Image::open`
/// reads a file, then `convert_color` to RGBA and `flatten_to_u8`, the first
/// frame taken as an 8-bit RGBA image. The decoded image is a function of
/// the bytes. Not stated:
/// `flatten_to_u8` unwraps a bit-depth conversion, which panics only for a
/// depth that none of the decoders produces.
#[verifier::external_body]
fn decode_fast(bytes: &[u8]) -> (r: Option<DynamicImage>)
    ensures
        match r {
            Some(img) => fast_decoded(bytes@) == Some(img),
            None => fast_decoded(bytes@) is None,
        },
{
    let options = zune_image::codecs::bmp::zune_core::options::DecoderOptions::default();
    let mut img = zune_image::image::Image::read(std::io::Cursor::new(bytes), options).ok()?;
    img.convert_color(zune_image::codecs::bmp::zune_core::colorspace::ColorSpace::RGBA).ok()?;
    let (w, h) = img.dimensions();
    let pixels = img.flatten_to_u8().into_iter().next()?;
    Some(DynamicImage::ImageRgba8(image::RgbaImage::from_raw(w as u32, h as u32, pixels)?))
}

/// Why no decoder could decode a file.
#[derive(Debug)]
pub enum LoadError {
    /// The general decoder knows no format for the file's extension.
    UnknownFormat,
    /// The general decoder failed on the file's contents.
    Decode(image::ImageError),
}

/// Whether the decoder is the JPEG library, whose result the caller hands in.
pub open spec fn is_jpeg_library(d: Decoder) -> bool {
    d is JpegFull || d is JpegScaled
}

/// The image decoder `d` gives for a file with extension `ext` and contents
/// `data`, or `None` when it fails; `given` is what the JPEG library decoded.
/// The general decoder fails for an extension it knows no format for.
pub open spec fn decoder_result(d: Decoder, ext: Seq<char>, data: Seq<u8>, given: Option<DynamicImage>) -> Option<DynamicImage> {
    match d {
        Decoder::ExifThumbnail => match exif_thumbnail_bytes(data) {
            Ok(b) => jpeg_decoded(b),
            Err(_) => None,
        },
        Decoder::JpegScaled => given,
        Decoder::JpegFull => given,
        Decoder::Fast => fast_decoded(data),
        Decoder::General => if general_ext(ext) {
            image_decoded(ext, data)
        } else {
            None
        },
    }
}

/// The first decoder of `order` that succeeds, with the image it decodes.
pub open spec fn first_decoded(order: Seq<Decoder>, ext: Seq<char>, data: Seq<u8>, given: Option<DynamicImage>) -> Option<(Decoder, DynamicImage)>
    decreases order.len(),
{
    if order.len() == 0 {
        None
    } else {
        match decoder_result(order[0], ext, data, given) {
            Some(img) => Some((order[0], img)),
            None => first_decoded(order.drop_first(), ext, data, given),
        }
    }
}

/// Runs decoder `d` (other than the general one); the JPEG library's result
/// is taken from `given`.
fn try_decoder(d: Decoder, data: &[u8], given: &mut Option<DynamicImage>) -> (r: Option<DynamicImage>)
    requires
        !(d is General),
        d is ExifThumbnail ==> data.len() < 0x1_0000_0000_0000,
    ensures
        match r {
            Some(img) => decoder_result(d, Seq::empty(), data@, *old(given)) == Some(img),
            None => decoder_result(d, Seq::empty(), data@, *old(given)) is None,
        },
        !is_jpeg_library(d) ==> *final(given) == *old(given),
{
    match d {
        Decoder::ExifThumbnail => match exif_thumbnail(data) {
            Ok(img) => Some(img),
            Err(_) => None,
        },
        Decoder::JpegScaled => given.take(),
        Decoder::JpegFull => given.take(),
        Decoder::Fast => decode_fast(data),
        Decoder::General => None,
    }
}

/// Whether `order` ends with the general decoder, has it nowhere else, and
/// names the JPEG library at most once.
pub open spec fn general_last(order: Seq<Decoder>) -> bool {
    &&& order.len() >= 1
    &&& order.last() is General
    &&& forall|j: int| 0 <= j < order.len() - 1 ==> !(#[trigger] order[j] is General)
    &&& forall|j: int, k: int|
        0 <= j < k < order.len() ==> !(is_jpeg_library(#[trigger] order[j]) && is_jpeg_library(#[trigger] order[k]))
}

/// Both decoder orders end with the general decoder and name the JPEG
/// library at most once.
proof fn lemma_orders_general_last(ext: Seq<char>)
    ensures
        general_last(image_decoder_order(ext)),
        general_last(thumbnail_decoder_order(ext)),
        !image_decoder_order(ext).contains(Decoder::ExifThumbnail),
{
    assert(image_decoder_order(ext)[0] !is ExifThumbnail);
    assert(!image_decoder_order(ext).contains(Decoder::ExifThumbnail));
}

/// Tries the decoders of `order` in turn; the general decoder, last, gives
/// the error when all fail.
fn decode_in_order(order: &Vec<Decoder>, ext: &str, data: &[u8], jpeg: Option<DynamicImage>) -> (r: Result<(Decoder, DynamicImage), LoadError>)
    requires
        general_last(order@),
        order@.contains(Decoder::ExifThumbnail) ==> data.len() < 0x1_0000_0000_0000,
    ensures
        match first_decoded(order@, ext@, data@, jpeg) {
            Some(found) => r matches Ok(got) && got == found,
            None => r matches Err(e) && (e is UnknownFormat <==> !general_ext(ext@)),
        },
{
    let ghost g0 = jpeg;
    let mut given = jpeg;
    let n = order.len() - 1;
    let mut i: usize = 0;
    assert(order@.skip(0) =~= order@);
    while i < n
        invariant
            n == order@.len() - 1,
            i <= n,
            g0 == jpeg,
            general_last(order@),
            order@.contains(Decoder::ExifThumbnail) ==> data.len() < 0x1_0000_0000_0000,
            first_decoded(order@, ext@, data@, g0) == first_decoded(order@.skip(i as int), ext@, data@, g0),
            given == g0 || forall|j: int| i <= j < order@.len() ==> !is_jpeg_library(#[trigger] order@[j]),
        decreases n - i,
    {
        let d = order[i];
        proof {
            assert(order@.skip(i as int)[0] == d);
            assert(order@.skip(i as int).drop_first() =~= order@.skip(i + 1));
            if d is ExifThumbnail {
                assert(order@.contains(Decoder::ExifThumbnail));
            }
            if is_jpeg_library(d) {
                assert(is_jpeg_library(order@[i as int]));
                assert(given == g0);
            }
            assert(decoder_result(d, Seq::empty(), data@, given) == decoder_result(d, ext@, data@, g0));
        }
        match try_decoder(d, data, &mut given) {
            Some(img) => {
                assert(first_decoded(order@.skip(i as int), ext@, data@, g0) == Some((d, img)));
                return Ok((d, img));
            },
            None => {},
        }
        assert(first_decoded(order@.skip(i as int), ext@, data@, g0) == first_decoded(order@.skip(i + 1), ext@, data@, g0));
        proof {
            if is_jpeg_library(d) {
                assert forall|j: int| i + 1 <= j < order@.len() implies !is_jpeg_library(#[trigger] order@[j]) by {
                    assert(is_jpeg_library(order@[i as int]));
                }
            }
        }
        i += 1;
    }
    proof {
        assert(order@.skip(n as int)[0] is General);
        assert(order@.skip(n as int).drop_first() =~= Seq::<Decoder>::empty());
        assert(first_decoded(Seq::<Decoder>::empty(), ext@, data@, g0) is None);
        assert(first_decoded(order@, ext@, data@, g0) == match decoder_result(Decoder::General, ext@, data@, g0) {
            Some(img) => Some((Decoder::General, img)),
            None => None,
        });
    }
    match decode_general(data, ext) {
        Some(Ok(img)) => Ok((Decoder::General, img)),
        Some(Err(e)) => Err(LoadError::Decode(e)),
        None => Err(LoadError::UnknownFormat),
    }
}

/// Decodes a file with extension `ext` and contents `data` for a full view,
/// trying the decoders of `image_decoder_order` in turn: the JPEG library
/// (its result, decoded by the caller, handed in as `jpeg`), the fast
/// decoder, the general one. Gives the first that succeeds and its image, or
/// the general decoder's error.
pub fn load_image_bytes(ext: &str, data: &[u8], jpeg: Option<DynamicImage>) -> (r: Result<
    (Decoder, DynamicImage),
    LoadError,
>)
    ensures
        match first_decoded(image_decoder_order(ext@), ext@, data@, jpeg) {
            Some(found) => r matches Ok(got) && got == found,
            None => r matches Err(e) && (e is UnknownFormat <==> !general_ext(ext@)),
        },
{
    let order = image_decoders(ext);
    proof {
        lemma_orders_general_last(ext@);
    }
    decode_in_order(&order, ext, data, jpeg)
}

/// Decodes a thumbnail source for a file with extension `ext` and contents
/// `data`, trying the decoders of `thumbnail_decoder_order` in turn: the
/// EXIF thumbnail, the JPEG library scaling while it decodes (its result,
/// decoded by the caller, handed in as `jpeg_scaled`), the fast decoder, the
/// general one. Gives the first that succeeds and its image, or the general
/// decoder's error. The caller fits the image into the thumbnail size.
pub fn load_thumbnail_bytes(ext: &str, data: &[u8], jpeg_scaled: Option<DynamicImage>) -> (r: Result<
    (Decoder, DynamicImage),
    LoadError,
>)
    requires
        data.len() < 0x1_0000_0000_0000,
    ensures
        match first_decoded(thumbnail_decoder_order(ext@), ext@, data@, jpeg_scaled) {
            Some(found) => r matches Ok(got) && got == found,
            None => r matches Err(e) && (e is UnknownFormat <==> !general_ext(ext@)),
        },
{
    let order = thumbnail_decoders(ext);
    proof {
        lemma_orders_general_last(ext@);
    }
    decode_in_order(&order, ext, data, jpeg_scaled)
}

/// Whether an image of `width` by `height` already fits in a square of edge
/// `max_size`, so that it needs no resizing.
pub fn fits_within(width: u32, height: u32, max_size: u32) -> (r: bool)
    ensures
        r == (width <= max_size && height <= max_size),
{
    width <= max_size && height <= max_size
}

/// The pixels `fast_image_resize` gives when it resizes `src_width` by
/// `src_height` RGBA pixels to `width` by `height` with a bilinear
/// convolution.
pub uninterp spec fn bilinear_resized(
    pixels: Seq<u8>,
    src_width: u32,
    src_height: u32,
    width: u32,
    height: u32,
) -> Seq<u8>;

/// `fast_image_resize`: resizes `src_width` by `src_height` RGBA pixels
/// (the first `src_width * src_height * 4` bytes of `pixels`) to `width` by
/// `height` with a bilinear convolution, and gives the new pixel buffer.
/// `Image::from_vec_u8` accepts a buffer at least that long (an RGBA pixel
/// needs no alignment), `Resizer::resize` succeeds for two images of one
/// pixel type, and `Image::new` gives the result a buffer of exactly
/// `width * height * 4` bytes. Where the size does not change, `resize` only
/// copies the rows. The pixels are a function of the arguments: the scalar
/// and vector code paths for RGBA pixels share one fixed-point precision and
/// rounding, and the crate's tests expect one result for every processor
/// extension.
#[verifier::external_body]
fn bilinear_resize(pixels: &[u8], src_width: u32, src_height: u32, width: u32, height: u32) -> (r:
    Option<Vec<u8>>)
    requires
        src_width * src_height * 4 <= usize::MAX,
        width * height * 4 <= usize::MAX,
    ensures
        r is Some <==> pixels@.len() >= src_width * src_height * 4,
        r matches Some(v) ==> v@ == bilinear_resized(pixels@, src_width, src_height, width, height),
        r matches Some(v) ==> v@.len() == width * height * 4,
        r matches Some(v) ==> (width == src_width && height == src_height ==> v@
            == pixels@.subrange(0, src_width * src_height * 4)),
{
    let src = FirImage::from_vec_u8(src_width, src_height, pixels.to_vec(), PixelType::U8x4).ok()?;
    let mut dst = FirImage::new(width, height, PixelType::U8x4);
    let alg = ResizeAlg::Convolution(FilterType::Bilinear);
    Resizer::new().resize(&src, &mut dst, &ResizeOptions::new().resize_alg(alg)).ok()?;
    Some(dst.into_vec())
}

/// Why RGBA pixels could not be resized.
#[derive(Debug, Clone, Copy, PartialEq, Eq, Structural)]
pub enum ResizeError {
    /// The buffer holds fewer bytes than the source size needs.
    BufferTooShort,
}

/// Resizes `src_width` by `src_height` RGBA pixels to `width` by `height`
/// with a bilinear filter. Fails when `pixels` is shorter than the source
/// size needs; otherwise the result is the bilinear resize of the pixels,
/// exactly `width * height` of them, and the source pixels themselves where
/// the size does not change.
pub fn resize_rgba(pixels: &[u8], src_width: u32, src_height: u32, width: u32, height: u32) -> (r:
    Result<Vec<u8>, ResizeError>)
    requires
        src_width * src_height * 4 <= usize::MAX,
        width * height * 4 <= usize::MAX,
    ensures
        r is Err <==> pixels@.len() < src_width * src_height * 4,
        r matches Err(e) ==> e == ResizeError::BufferTooShort,
        r matches Ok(v) ==> v@ == bilinear_resized(pixels@, src_width, src_height, width, height),
        r matches Ok(v) ==> v@.len() == width * height * 4,
        r matches Ok(v) ==> (width == src_width && height == src_height ==> v@
            == pixels@.subrange(0, src_width * src_height * 4)),
{
    match bilinear_resize(pixels, src_width, src_height, width, height) {
        Some(v) => Ok(v),
        None => Err(ResizeError::BufferTooShort),
    }
}

} // verus!
