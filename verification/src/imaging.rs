//! Rotation and cropping of decoded images.
use vstd::prelude::*;
use image::DynamicImage;
use crate::tools::{opposite, RotateDirection};

verus! {

#[verifier::external_type_specification]
#[verifier::external_body]
pub struct ExDynamicImage(image::DynamicImage);

/// The width in pixels of a decoded image (what `DynamicImage::width` returns).
pub uninterp spec fn image_width(img: DynamicImage) -> u32;

/// The height in pixels of a decoded image (what `DynamicImage::height` returns).
pub uninterp spec fn image_height(img: DynamicImage) -> u32;

/// `DynamicImage::width`: the image's width in pixels.
#[verifier::external_body]
fn width_of(img: &DynamicImage) -> (r: u32)
    ensures
        r == image_width(*img),
{
    img.width()
}

/// `DynamicImage::height`: the image's height in pixels.
#[verifier::external_body]
fn height_of(img: &DynamicImage) -> (r: u32)
    ensures
        r == image_height(*img),
{
    img.height()
}

/// How many bytes the image's pixel buffer holds (what
/// `DynamicImage::as_bytes` returns, by its length).
pub uninterp spec fn image_byte_len(img: DynamicImage) -> nat;

/// How many bytes one pixel of the image takes (what
/// `DynamicImage::color` gives, by `ColorType::bytes_per_pixel`).
pub uninterp spec fn image_pixel_bytes(img: DynamicImage) -> u8;

/// `DynamicImage::as_bytes`: the length of the image's pixel buffer in bytes.
#[verifier::external_body]
fn byte_len_of(img: &DynamicImage) -> (r: usize)
    ensures
        r == image_byte_len(*img),
{
    img.as_bytes().len()
}

/// `DynamicImage::color` and `ColorType::bytes_per_pixel`: the bytes of one
/// pixel, from 1 (8-bit grey) to 16 (four 32-bit floats).
#[verifier::external_body]
fn pixel_bytes_of(img: &DynamicImage) -> (r: u8)
    ensures
        r == image_pixel_bytes(*img),
        1 <= r <= 16,
{
    img.color().bytes_per_pixel()
}

/// Whether the image's buffer holds exactly its pixels and nothing after
/// them. Every image made by `DynamicImage::new_*`, by a turn or by a crop
/// does; one built with `ImageBuffer::from_raw` from a longer buffer does not.
pub open spec fn buffer_is_exact(img: DynamicImage) -> bool {
    image_byte_len(img) == image_width(img) * image_height(img) * image_pixel_bytes(img)
}

/// Whether the image's buffer holds exactly its pixels.
pub fn holds_exactly_its_pixels(img: &DynamicImage) -> (r: bool)
    ensures
        r == buffer_is_exact(*img),
{
    let w = width_of(img) as u128;
    let h = height_of(img) as u128;
    let b = pixel_bytes_of(img) as u128;
    let len = byte_len_of(img) as u128;
    assert(w * h <= 0xffff_ffff * 0xffff_ffff && w * h * b <= 0xffff_ffff * 0xffff_ffff * 16)
        by (nonlinear_arith)
        requires
            w <= 0xffff_ffff,
            h <= 0xffff_ffff,
            b <= 16,
    ;
    w * h * b == len
}

/// What `DynamicImage::rotate90` returns for an image: a copy turned a
/// quarter clockwise.
pub uninterp spec fn image_rotated_cw(img: DynamicImage) -> DynamicImage;

/// What `DynamicImage::rotate270` returns for an image: a copy turned a
/// quarter counter-clockwise.
pub uninterp spec fn image_rotated_ccw(img: DynamicImage) -> DynamicImage;

/// `DynamicImage::rotate90`: a copy turned a quarter clockwise, in a new
/// buffer (`buffer_with_dimensions`) of the same pixel type and colour space
/// that holds exactly its pixels, with the width and height exchanged
/// (`imageops::rotate90` puts the pixel at `(x, y)` to `(height - 1 - y, x)`).
/// So a turn back, or three more turns the same way, give the copy again,
/// and give the input again where its buffer held exactly its pixels.
#[verifier::external_body]
fn turned_clockwise(img: &DynamicImage) -> (r: DynamicImage)
    ensures
        r == image_rotated_cw(*img),
        image_width(r) == image_height(*img),
        image_height(r) == image_width(*img),
        image_pixel_bytes(r) == image_pixel_bytes(*img),
        buffer_is_exact(r),
        buffer_is_exact(*img) ==> image_rotated_ccw(r) == *img,
        buffer_is_exact(*img) ==> image_rotated_cw(image_rotated_cw(image_rotated_cw(r))) == *img,
        image_rotated_cw(image_rotated_ccw(r)) == r,
        image_rotated_ccw(image_rotated_cw(r)) == r,
        image_rotated_cw(image_rotated_cw(image_rotated_cw(image_rotated_cw(r)))) == r,
        image_rotated_ccw(image_rotated_ccw(image_rotated_ccw(image_rotated_ccw(r)))) == r,
{
    img.rotate90()
}

/// `DynamicImage::rotate270`: a copy turned a quarter counter-clockwise, in
/// a new buffer of the same pixel type and colour space that holds exactly
/// its pixels, with the width and height exchanged (`imageops::rotate270`
/// puts the pixel at `(x, y)` to `(y, width - 1 - x)`). As for `rotate90`, a
/// turn back, or three more turns the same way, give the copy again, and the
/// input where its buffer held exactly its pixels.
#[verifier::external_body]
fn turned_counterclockwise(img: &DynamicImage) -> (r: DynamicImage)
    ensures
        r == image_rotated_ccw(*img),
        image_width(r) == image_height(*img),
        image_height(r) == image_width(*img),
        image_pixel_bytes(r) == image_pixel_bytes(*img),
        buffer_is_exact(r),
        buffer_is_exact(*img) ==> image_rotated_cw(r) == *img,
        buffer_is_exact(*img) ==> image_rotated_ccw(image_rotated_ccw(image_rotated_ccw(r))) == *img,
        image_rotated_cw(image_rotated_ccw(r)) == r,
        image_rotated_ccw(image_rotated_cw(r)) == r,
        image_rotated_cw(image_rotated_cw(image_rotated_cw(image_rotated_cw(r)))) == r,
        image_rotated_ccw(image_rotated_ccw(image_rotated_ccw(image_rotated_ccw(r)))) == r,
{
    img.rotate270()
}

/// The size of the cut-out that `crop_imm` makes: the origin clamped into the
/// image, the size clamped to what remains of it to the right and below.
pub open spec fn crop_size(iw: u32, ih: u32, x: u32, y: u32, w: u32, h: u32) -> (u32, u32) {
    let x1 = if x < iw { x } else { iw };
    let y1 = if y < ih { y } else { ih };
    let w1 = if w < iw - x1 { w } else { (iw - x1) as u32 };
    let h1 = if h < ih - y1 { h } else { (ih - y1) as u32 };
    (w1, h1)
}

/// What `DynamicImage::crop_imm` returns for an image and a region.
pub uninterp spec fn image_cropped(img: DynamicImage, x: u32, y: u32, w: u32, h: u32) -> DynamicImage;

/// `DynamicImage::crop_imm`: a copy of the region at `(x, y)` of size `w` by
/// `h`, clamped to the image bounds as its `crop_dimms` does, in a new buffer
/// of the same pixel type that holds exactly its pixels.
#[verifier::external_body]
fn cut_out(img: &DynamicImage, x: u32, y: u32, w: u32, h: u32) -> (r: DynamicImage)
    ensures
        r == image_cropped(*img, x, y, w, h),
        (image_width(r), image_height(r)) == crop_size(
            image_width(*img),
            image_height(*img),
            x,
            y,
            w,
            h,
        ),
        image_pixel_bytes(r) == image_pixel_bytes(*img),
        buffer_is_exact(r),
{
    img.crop_imm(x, y, w, h)
}

/// `DynamicImage::clone` (derived): a copy holding the same pixels.
#[verifier::external_body]
fn copy_of(img: &DynamicImage) -> (r: DynamicImage)
    ensures
        r == *img,
{
    img.clone()
}

/// An image turned a quarter in direction `d` (right is clockwise).
pub open spec fn turned(d: RotateDirection, img: DynamicImage) -> DynamicImage {
    match d {
        RotateDirection::Right => image_rotated_cw(img),
        RotateDirection::Left => image_rotated_ccw(img),
    }
}

/// The width and height after a quarter turn: exchanged.
pub open spec fn turned_dims(dims: (u32, u32)) -> (u32, u32) {
    (dims.1, dims.0)
}

/// The width and height of an image.
pub open spec fn dims(img: DynamicImage) -> (u32, u32) {
    (image_width(img), image_height(img))
}

/// A committed quarter turn of the image.
#[derive(Debug, Clone, Copy, PartialEq, Eq, Structural)]
pub struct RotateOperation {
    pub direction: RotateDirection,
}

impl RotateOperation {
    /// A quarter turn in `direction`.
    pub fn new(direction: RotateDirection) -> (r: Self)
        ensures
            r.direction == direction,
    {
        RotateOperation { direction }
    }

    /// Turns the image a quarter in the operation's direction (right is
    /// clockwise). A turn the other way, or three more turns the same way,
    /// give back the image as it was, where its buffer held exactly its
    /// pixels (and the turned image in any case).
    pub fn apply(&self, image: &mut DynamicImage)
        ensures
            *final(image) == turned(self.direction, *old(image)),
            dims(*final(image)) == turned_dims(dims(*old(image))),
            buffer_is_exact(*final(image)),
            buffer_is_exact(*old(image)) ==> turned(opposite(self.direction), *final(image))
                == *old(image),
            buffer_is_exact(*old(image)) ==> turned(
                self.direction,
                turned(self.direction, turned(self.direction, *final(image))),
            ) == *old(image),
            turned(self.direction, turned(opposite(self.direction), *final(image))) == *final(image),
            turned(opposite(self.direction), turned(self.direction, *final(image))) == *final(image),
            turned(
                self.direction,
                turned(self.direction, turned(self.direction, turned(self.direction, *final(image)))),
            ) == *final(image),
    {
        let turned = match self.direction {
            RotateDirection::Left => turned_counterclockwise(image),
            RotateDirection::Right => turned_clockwise(image),
        };
        *image = turned;
    }

    /// A committed operation produces no further operation to commit.
    pub fn commit(&self) -> (r: Option<RotateOperation>)
        ensures
            r is None,
    {
        None
    }
}

/// Turning twice in any directions gives back the original width and height,
/// so a left turn undoes a right turn and four turns one way restore the size.
pub proof fn lemma_turns_restore_dims(d: (u32, u32))
    ensures
        turned_dims(turned_dims(d)) == d,
        turned_dims(turned_dims(turned_dims(turned_dims(d)))) == d,
{
}

/// The region a stored crop keeps of an image of size `iw` by `ih`: the origin
/// clamped into the image and the size clamped to what remains; `None` when
/// that leaves no pixel.
pub open spec fn crop_region(iw: u32, ih: u32, x: u32, y: u32, w: u32, h: u32) -> Option<
    (u32, u32, u32, u32),
> {
    let x1 = if x < iw { x } else { iw };
    let y1 = if y < ih { y } else { ih };
    let w1 = if w < iw - x1 { w } else { (iw - x1) as u32 };
    let h1 = if h < ih - y1 { h } else { (ih - y1) as u32 };
    if w1 == 0 || h1 == 0 {
        None
    } else {
        Some((x1, y1, w1, h1))
    }
}

/// Clamps a crop rectangle (already rounded to whole pixels) to an image of
/// size `iw` by `ih`.
pub fn clamp_crop_region(iw: u32, ih: u32, x: u32, y: u32, w: u32, h: u32) -> (r: Option<
    (u32, u32, u32, u32),
>)
    ensures
        r == crop_region(iw, ih, x, y, w, h),
{
    let x1 = if x < iw {
        x
    } else {
        iw
    };
    let y1 = if y < ih {
        y
    } else {
        ih
    };
    let w1 = if w < iw - x1 {
        w
    } else {
        iw - x1
    };
    let h1 = if h < ih - y1 {
        h
    } else {
        ih - y1
    };
    if w1 == 0 || h1 == 0 {
        None
    } else {
        Some((x1, y1, w1, h1))
    }
}

/// Crops `image` to the stored region (whole pixels) re-validated against this
/// image; a region that keeps no pixel leaves the image unchanged.
pub fn apply_crop(image: &mut DynamicImage, x: u32, y: u32, w: u32, h: u32)
    ensures
        match crop_region(image_width(*old(image)), image_height(*old(image)), x, y, w, h) {
            Some(region) => {
                &&& *final(image) == image_cropped(*old(image), region.0, region.1, region.2, region.3)
                &&& dims(*final(image)) == (region.2, region.3)
            },
            None => *final(image) == *old(image),
        },
{
    let iw = width_of(image);
    let ih = height_of(image);
    match clamp_crop_region(iw, ih, x, y, w, h) {
        Some((x1, y1, w1, h1)) => {
            let c = cut_out(image, x1, y1, w1, h1);
            *image = c;
        },
        None => {},
    }
}

/// The region at `(x, y)` of size `w` by `h`, clamped to the image.
pub fn crop_to_region(img: &DynamicImage, x: u32, y: u32, w: u32, h: u32) -> (r: DynamicImage)
    ensures
        r == image_cropped(*img, x, y, w, h),
        dims(r) == crop_size(image_width(*img), image_height(*img), x, y, w, h),
{
    cut_out(img, x, y, w, h)
}

/// A committed edit that changes the image's geometry: a quarter turn, or a
/// crop to the region at `(x, y)` of size `w` by `h` in whole pixels.
#[derive(Debug, Clone, Copy, PartialEq, Eq, Structural)]
pub enum GeometryEdit {
    Turn(RotateDirection),
    Crop(u32, u32, u32, u32),
}

/// The width and height after replaying `edits` in order on an image of size `d`.
pub open spec fn replay_dims(d: (u32, u32), edits: Seq<GeometryEdit>) -> (u32, u32)
    decreases edits.len(),
{
    if edits.len() == 0 {
        d
    } else {
        let before = replay_dims(d, edits.drop_last());
        match edits.last() {
            GeometryEdit::Turn(_) => turned_dims(before),
            GeometryEdit::Crop(x, y, w, h) => crop_size(before.0, before.1, x, y, w, h),
        }
    }
}

/// The image after replaying `edits` in order on `img`.
pub open spec fn replay_image(img: DynamicImage, edits: Seq<GeometryEdit>) -> DynamicImage
    decreases edits.len(),
{
    if edits.len() == 0 {
        img
    } else {
        let before = replay_image(img, edits.drop_last());
        match edits.last() {
            GeometryEdit::Turn(d) => turned(d, before),
            GeometryEdit::Crop(x, y, w, h) => image_cropped(before, x, y, w, h),
        }
    }
}

/// Rebuilds the working image from the original by replaying the committed
/// turns and crops in the order they were committed.
pub fn replay_geometry(original: &DynamicImage, edits: &Vec<GeometryEdit>) -> (r: DynamicImage)
    ensures
        r == replay_image(*original, edits@),
        dims(r) == replay_dims(dims(*original), edits@),
{
    let mut base = copy_of(original);
    let mut i: usize = 0;
    while i < edits.len()
        invariant
            i <= edits.len(),
            base == replay_image(*original, edits@.take(i as int)),
            dims(base) == replay_dims(dims(*original), edits@.take(i as int)),
        decreases edits.len() - i,
    {
        proof {
            assert(edits@.take(i + 1).drop_last() =~= edits@.take(i as int));
            assert(edits@.take(i + 1).last() == edits@[i as int]);
        }
        match edits[i] {
            GeometryEdit::Turn(direction) => {
                RotateOperation::new(direction).apply(&mut base);
            },
            GeometryEdit::Crop(x, y, w, h) => {
                base = crop_to_region(&base, x, y, w, h);
            },
        }
        i += 1;
    }
    assert(edits@.take(edits.len() as int) =~= edits@);
    base
}

/// Replaying committed edits applies each in turn, with the meaning of the
/// edit itself: a right turn is `DynamicImage::rotate90` of the image so
/// far, a left turn `rotate270` (as `RotateOperation::apply` turns), and a
/// crop `crop_imm` of its region; no edits leave the original.
pub proof fn lemma_replay_applies_each_edit(img: DynamicImage, edits: Seq<GeometryEdit>, x: u32, y: u32, w: u32, h: u32)
    ensures
        replay_image(img, Seq::empty()) == img,
        replay_image(img, edits.push(GeometryEdit::Turn(RotateDirection::Right)))
            == image_rotated_cw(replay_image(img, edits)),
        replay_image(img, edits.push(GeometryEdit::Turn(RotateDirection::Left)))
            == image_rotated_ccw(replay_image(img, edits)),
        replay_image(img, edits.push(GeometryEdit::Crop(x, y, w, h)))
            == image_cropped(replay_image(img, edits), x, y, w, h),
        replay_image(img, seq![GeometryEdit::Turn(RotateDirection::Right)]) == image_rotated_cw(img),
        replay_image(img, seq![GeometryEdit::Turn(RotateDirection::Left)]) == image_rotated_ccw(img),
        turned(RotateDirection::Right, img) == image_rotated_cw(img),
        turned(RotateDirection::Left, img) == image_rotated_ccw(img),
{
    assert(edits.push(GeometryEdit::Turn(RotateDirection::Right)).drop_last() =~= edits);
    assert(edits.push(GeometryEdit::Turn(RotateDirection::Left)).drop_last() =~= edits);
    assert(edits.push(GeometryEdit::Crop(x, y, w, h)).drop_last() =~= edits);
    assert(seq![GeometryEdit::Turn(RotateDirection::Right)].drop_last() =~= Seq::<GeometryEdit>::empty());
    assert(seq![GeometryEdit::Turn(RotateDirection::Left)].drop_last() =~= Seq::<GeometryEdit>::empty());
}

} // verus!
