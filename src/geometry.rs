//! The virtual geometric transform: EXIF orientation combined with the user's
//! quarter turns and flips, the crop rectangle, output dimensions, and the map
//! from an output pixel back to the unrotated source pixel.
use vstd::prelude::*;
use crate::buffers::RenderError;

verus! {

/// Orientation recorded by the camera, as reported by the RAW decoder.
#[derive(Clone, Copy, Debug, PartialEq, Eq, Structural)]
pub enum ExifOrientation {
    Normal,
    Rotate90,
    Rotate180,
    Rotate270,
    HorizontalFlip,
    VerticalFlip,
    Transpose,
    Transverse,
    Unknown,
}

/// Clockwise quarter turns followed by optional mirrorings.
#[derive(Clone, Copy, Debug, PartialEq, Eq, Structural)]
pub struct OrientState {
    pub steps: u8,
    pub flip_h: bool,
    pub flip_v: bool,
}

impl OrientState {
    pub open spec fn wf(self) -> bool {
        self.steps < 4
    }
}

/// Quarter turns and flips that an EXIF orientation stands for.
pub open spec fn exif_state(o: ExifOrientation) -> OrientState {
    match o {
        ExifOrientation::Normal | ExifOrientation::Unknown => OrientState { steps: 0, flip_h: false, flip_v: false },
        ExifOrientation::Rotate90 => OrientState { steps: 1, flip_h: false, flip_v: false },
        ExifOrientation::Rotate180 => OrientState { steps: 2, flip_h: false, flip_v: false },
        ExifOrientation::Rotate270 => OrientState { steps: 3, flip_h: false, flip_v: false },
        ExifOrientation::HorizontalFlip => OrientState { steps: 0, flip_h: true, flip_v: false },
        ExifOrientation::VerticalFlip => OrientState { steps: 0, flip_h: false, flip_v: true },
        ExifOrientation::Transpose => OrientState { steps: 1, flip_h: true, flip_v: false },
        ExifOrientation::Transverse => OrientState { steps: 3, flip_h: true, flip_v: false },
    }
}

impl ExifOrientation {
    /// The quarter turns and flips of this orientation.
    pub fn base_state(self) -> (r: OrientState)
        ensures
            r == exif_state(self),
            r.wf(),
    {
        match self {
            ExifOrientation::Normal | ExifOrientation::Unknown => OrientState { steps: 0, flip_h: false, flip_v: false },
            ExifOrientation::Rotate90 => OrientState { steps: 1, flip_h: false, flip_v: false },
            ExifOrientation::Rotate180 => OrientState { steps: 2, flip_h: false, flip_v: false },
            ExifOrientation::Rotate270 => OrientState { steps: 3, flip_h: false, flip_v: false },
            ExifOrientation::HorizontalFlip => OrientState { steps: 0, flip_h: true, flip_v: false },
            ExifOrientation::VerticalFlip => OrientState { steps: 0, flip_h: false, flip_v: true },
            ExifOrientation::Transpose => OrientState { steps: 1, flip_h: true, flip_v: false },
            ExifOrientation::Transverse => OrientState { steps: 3, flip_h: true, flip_v: false },
        }
    }
}

/// The base orientation followed by the user's steps and flips: steps add modulo
/// four and each flip flag is XORed with the base's.
pub open spec fn combine_spec(base: OrientState, user_steps: int, user_flip_h: bool, user_flip_v: bool) -> OrientState {
    OrientState {
        steps: ((base.steps + user_steps % 4) % 4) as u8,
        flip_h: base.flip_h != user_flip_h,
        flip_v: base.flip_v != user_flip_v,
    }
}

/// Combines a base orientation with the user's quarter turns and flips.
pub fn combine_orientation(base: OrientState, user_steps: u8, user_flip_h: bool, user_flip_v: bool) -> (r: OrientState)
    requires
        base.wf(),
    ensures
        r == combine_spec(base, user_steps as int, user_flip_h, user_flip_v),
        r.wf(),
{
    OrientState {
        steps: (base.steps + user_steps % 4) % 4,
        flip_h: base.flip_h != user_flip_h,
        flip_v: base.flip_v != user_flip_v,
    }
}

/// Width and height of a `w`×`h` source after `steps` quarter turns.
pub open spec fn oriented_dims(w: int, h: int, steps: int) -> (int, int) {
    if steps % 2 == 1 {
        (h, w)
    } else {
        (w, h)
    }
}

/// A rectangle of pixels.
#[derive(Clone, Copy, Debug, PartialEq, Eq, Structural)]
pub struct CropRect {
    pub x: u32,
    pub y: u32,
    pub width: u32,
    pub height: u32,
}

pub open spec fn clamp_int(v: int, lo: int, hi: int) -> int {
    if v < lo {
        lo
    } else if v > hi {
        hi
    } else {
        v
    }
}

/// The crop rectangle inside an `img_w`×`img_h` image for a rectangle whose corner
/// and size were already scaled to pixels and rounded: the corner is clamped into
/// the image and the size to at least one pixel and at most what remains.
pub open spec fn crop_rect_spec(img_w: int, img_h: int, x: int, y: int, w: int, h: int) -> CropRect {
    if img_w == 0 || img_h == 0 {
        CropRect { x: 0, y: 0, width: 0, height: 0 }
    } else {
        let cx = clamp_int(x, 0, img_w - 1);
        let cy = clamp_int(y, 0, img_h - 1);
        CropRect {
            x: cx as u32,
            y: cy as u32,
            width: clamp_int(w, 1, img_w - cx) as u32,
            height: clamp_int(h, 1, img_h - cy) as u32,
        }
    }
}

fn clamp_i64(v: i64, lo: i64, hi: i64) -> (r: i64)
    requires
        lo <= hi,
    ensures
        r == clamp_int(v as int, lo as int, hi as int),
{
    if v < lo {
        lo
    } else if v > hi {
        hi
    } else {
        v
    }
}

/// Pixel rectangle of a crop (or region of interest) given as rounded pixel
/// values `x`, `y`, `w`, `h` against an `img_w`×`img_h` image.
pub fn crop_rect_pixels(img_w: u32, img_h: u32, x: i64, y: i64, w: i64, h: i64) -> (r: CropRect)
    ensures
        r == crop_rect_spec(img_w as int, img_h as int, x as int, y as int, w as int, h as int),
{
    if img_w == 0 || img_h == 0 {
        return CropRect { x: 0, y: 0, width: 0, height: 0 };
    }
    let cx = clamp_i64(x, 0, img_w as i64 - 1);
    let cy = clamp_i64(y, 0, img_h as i64 - 1);
    let cw = clamp_i64(w, 1, img_w as i64 - cx);
    let ch = clamp_i64(h, 1, img_h as i64 - cy);
    CropRect { x: cx as u32, y: cy as u32, width: cw as u32, height: ch as u32 }
}

/// Pixel rectangle of a region of interest given as rounded pixel values: an
/// empty image or a region of zero (or negative) width or height is an invalid
/// payload; otherwise the region is clamped into the image as a crop is.
pub fn roi_rect_pixels(img_w: u32, img_h: u32, x: i64, y: i64, w: i64, h: i64) -> (r: Result<CropRect, RenderError>)
    ensures
        r is Err <==> (img_w == 0 || img_h == 0 || w < 1 || h < 1),
        r is Err ==> r == Err::<CropRect, RenderError>(RenderError::InvalidPayload),
        r matches Ok(c) ==> c == crop_rect_spec(img_w as int, img_h as int, x as int, y as int, w as int, h as int),
{
    if img_w == 0 || img_h == 0 || w < 1 || h < 1 {
        return Err(RenderError::InvalidPayload);
    }
    Ok(crop_rect_pixels(img_w, img_h, x, y, w, h))
}

/// A crop of a non-empty image is a non-empty rectangle inside the image.
pub proof fn lemma_crop_inside(img_w: int, img_h: int, x: int, y: int, w: int, h: int)
    requires
        1 <= img_w <= u32::MAX,
        1 <= img_h <= u32::MAX,
    ensures
        ({
            let r = crop_rect_spec(img_w, img_h, x, y, w, h);
            &&& r.width >= 1
            &&& r.height >= 1
            &&& r.x + r.width <= img_w
            &&& r.y + r.height <= img_h
        }),
{
}

/// Output geometry of a render: source size, combined orientation and crop.
#[derive(Clone, Copy, Debug, PartialEq, Eq, Structural)]
pub struct VirtualTransform {
    pub source_w: u32,
    pub source_h: u32,
    pub output_w: u32,
    pub output_h: u32,
    pub orient: OrientState,
    pub crop: Option<CropRect>,
}

/// Output size: the oriented source size, replaced by the crop's size when cropped.
pub open spec fn output_dims_spec(w: int, h: int, orient: OrientState, crop: Option<CropRect>) -> (int, int) {
    match crop {
        Some(c) => (c.width as int, c.height as int),
        None => oriented_dims(w, h, orient.steps as int),
    }
}

/// Output pixel `(x, y)` in oriented source coordinates: the crop offset added
/// back, then the flips undone about the oriented centre.
pub open spec fn unflipped_point(t: VirtualTransform, x: int, y: int) -> (int, int) {
    let (cw, ch) = oriented_dims(t.source_w as int, t.source_h as int, t.orient.steps as int);
    let fx0 = match t.crop {
        Some(c) => x + c.x,
        None => x,
    };
    let fy0 = match t.crop {
        Some(c) => y + c.y,
        None => y,
    };
    (if t.orient.flip_h { cw - 1 - fx0 } else { fx0 }, if t.orient.flip_v { ch - 1 - fy0 } else { fy0 })
}

/// Oriented point `(fx, fy)` with the quarter turns undone. After one step the
/// oriented image's top-left pixel is the source's top-right pixel.
pub open spec fn unturned_point(t: VirtualTransform, fx: int, fy: int) -> (int, int) {
    let sw = t.source_w as int;
    let sh = t.source_h as int;
    if t.orient.steps == 1 {
        (sw - 1 - fy, fx)
    } else if t.orient.steps == 2 {
        (sw - 1 - fx, sh - 1 - fy)
    } else if t.orient.steps == 3 {
        (fy, sh - 1 - fx)
    } else {
        (fx, fy)
    }
}

/// Source point (before the bounds check) of output pixel `(x, y)`.
pub open spec fn source_point(t: VirtualTransform, x: int, y: int) -> (int, int) {
    let (fx, fy) = unflipped_point(t, x, y);
    unturned_point(t, fx, fy)
}

/// The source pixel that output pixel `(x, y)` shows, if it lies inside the source.
pub open spec fn map_pixel_spec(t: VirtualTransform, x: int, y: int) -> Option<(int, int)> {
    let (sx, sy) = source_point(t, x, y);
    if 0 <= sx < t.source_w && 0 <= sy < t.source_h {
        Some((sx, sy))
    } else {
        None
    }
}

impl VirtualTransform {
    pub open spec fn wf(self) -> bool {
        &&& self.orient.wf()
        &&& (self.output_w as int, self.output_h as int) == output_dims_spec(
            self.source_w as int,
            self.source_h as int,
            self.orient,
            self.crop,
        )
    }

    /// Transform of a `w`×`h` source under `orient`, cropped to `crop` (given in
    /// oriented coordinates) when present.
    pub fn new(w: u32, h: u32, orient: OrientState, crop: Option<CropRect>) -> (r: VirtualTransform)
        requires
            orient.wf(),
        ensures
            r.wf(),
            r.source_w == w,
            r.source_h == h,
            r.orient == orient,
            r.crop == crop,
    {
        let (rw, rh) = if orient.steps % 2 == 1 {
            (h, w)
        } else {
            (w, h)
        };
        let (ow, oh) = match crop {
            Some(c) => (c.width, c.height),
            None => (rw, rh),
        };
        VirtualTransform { source_w: w, source_h: h, output_w: ow, output_h: oh, orient, crop }
    }

    /// Transform for a source with EXIF orientation `base` after the user's
    /// `user_steps` quarter turns and flips, cropped by `crop` when present.
    pub fn from_exif(
        w: u32,
        h: u32,
        base: ExifOrientation,
        user_steps: u8,
        user_flip_h: bool,
        user_flip_v: bool,
        crop: Option<CropRect>,
    ) -> (r: VirtualTransform)
        ensures
            r.wf(),
            r == transform_spec(w, h, base, user_steps, user_flip_h, user_flip_v, crop),
    {
        let b = base.base_state();
        let orient = combine_orientation(b, user_steps, user_flip_h, user_flip_v);
        VirtualTransform::new(w, h, orient, crop)
    }

    /// Width and height of the oriented (uncropped) source.
    pub fn oriented_size(&self) -> (r: (u32, u32))
        ensures
            (r.0 as int, r.1 as int) == oriented_dims(
                self.source_w as int,
                self.source_h as int,
                self.orient.steps as int,
            ),
    {
        if self.orient.steps % 2 == 1 {
            (self.source_h, self.source_w)
        } else {
            (self.source_w, self.source_h)
        }
    }

    fn unflip(&self, x: u32, y: u32) -> (r: (i64, i64))
        requires
            self.wf(),
        ensures
            (r.0 as int, r.1 as int) == unflipped_point(*self, x as int, y as int),
            -(2 * (u32::MAX as int) + 1) <= r.0 <= 2 * (u32::MAX as int),
            -(2 * (u32::MAX as int) + 1) <= r.1 <= 2 * (u32::MAX as int),
    {
        let (cw, ch) = self.oriented_size();
        let (fx0, fy0) = match self.crop {
            Some(c) => (x as i64 + c.x as i64, y as i64 + c.y as i64),
            None => (x as i64, y as i64),
        };
        let fx = if self.orient.flip_h {
            cw as i64 - 1 - fx0
        } else {
            fx0
        };
        let fy = if self.orient.flip_v {
            ch as i64 - 1 - fy0
        } else {
            fy0
        };
        (fx, fy)
    }

    fn unturn(&self, fx: i64, fy: i64) -> (r: (i64, i64))
        requires
            self.wf(),
            -(2 * (u32::MAX as int) + 1) <= fx <= 2 * (u32::MAX as int),
            -(2 * (u32::MAX as int) + 1) <= fy <= 2 * (u32::MAX as int),
        ensures
            (r.0 as int, r.1 as int) == unturned_point(*self, fx as int, fy as int),
    {
        let sw = self.source_w as i64;
        let sh = self.source_h as i64;
        if self.orient.steps == 1 {
            (sw - 1 - fy, fx)
        } else if self.orient.steps == 2 {
            (sw - 1 - fx, sh - 1 - fy)
        } else if self.orient.steps == 3 {
            (fy, sh - 1 - fx)
        } else {
            (fx, fy)
        }
    }

    /// Source pixel shown by output pixel `(x, y)` when there is no free rotation,
    /// or `None` where it falls outside the source (a transparent pixel).
    pub fn map_pixel(&self, x: u32, y: u32) -> (r: Option<(u32, u32)>)
        requires
            self.wf(),
        ensures
            r is Some <==> map_pixel_spec(*self, x as int, y as int) is Some,
            r is Some ==> map_pixel_spec(*self, x as int, y as int) == Some(
                ((r->0).0 as int, (r->0).1 as int),
            ),
    {
        let (fx, fy) = self.unflip(x, y);
        let (sx, sy) = self.unturn(fx, fy);
        if 0 <= sx && sx < self.source_w as i64 && 0 <= sy && sy < self.source_h as i64 {
            Some((sx as u32, sy as u32))
        } else {
            None
        }
    }
}

/// The transform built for a source with EXIF orientation `base` and the user's
/// steps, flips and crop.
pub open spec fn transform_spec(
    w: u32,
    h: u32,
    base: ExifOrientation,
    user_steps: u8,
    user_flip_h: bool,
    user_flip_v: bool,
    crop: Option<CropRect>,
) -> VirtualTransform {
    let orient = combine_spec(exif_state(base), user_steps as int, user_flip_h, user_flip_v);
    let (ow, oh) = output_dims_spec(w as int, h as int, orient, crop);
    VirtualTransform { source_w: w, source_h: h, output_w: ow as u32, output_h: oh as u32, orient, crop }
}

/// The output size is the source size with width and height swapped after an odd
/// number of quarter turns, or the crop's size when a crop is set.
pub proof fn lemma_output_dims(w: u32, h: u32, base: ExifOrientation, user_steps: u8, user_flip_h: bool, user_flip_v: bool, crop: Option<CropRect>)
    ensures
        ({
            let t = transform_spec(w, h, base, user_steps, user_flip_h, user_flip_v, crop);
            &&& crop is None && t.orient.steps % 2 == 1 ==> t.output_w == h && t.output_h == w
            &&& crop is None && t.orient.steps % 2 == 0 ==> t.output_w == w && t.output_h == h
            &&& crop matches Some(c) ==> t.output_w == c.width && t.output_h == c.height
        }),
{
}

/// Rendering a source tagged with orientation `o` and no user transform gives
/// the same geometry, pixel for pixel, as rendering the same source tagged
/// `Normal` with `o`'s quarter turns and flips requested by the user.
pub proof fn lemma_exif_as_user_transform(w: u32, h: u32, o: ExifOrientation, crop: Option<CropRect>, x: int, y: int)
    ensures
        ({
            let s = exif_state(o);
            let tagged = transform_spec(w, h, o, 0, false, false, crop);
            let user = transform_spec(w, h, ExifOrientation::Normal, s.steps, s.flip_h, s.flip_v, crop);
            &&& tagged == user
            &&& map_pixel_spec(tagged, x, y) == map_pixel_spec(user, x, y)
        }),
{
}

/// Without a crop, every output pixel shows a source pixel: the output rectangle
/// maps into the source with no transparent pixels.
pub proof fn lemma_uncropped_covers_source(t: VirtualTransform, x: int, y: int)
    requires
        t.wf(),
        t.crop is None,
        0 <= x < t.output_w,
        0 <= y < t.output_h,
    ensures
        map_pixel_spec(t, x, y) is Some,
{
}

/// Without a crop, distinct output pixels show distinct source pixels.
pub proof fn lemma_uncropped_injective(t: VirtualTransform, x1: int, y1: int, x2: int, y2: int)
    requires
        t.wf(),
        t.crop is None,
        source_point(t, x1, y1) == source_point(t, x2, y2),
    ensures
        x1 == x2 && y1 == y2,
{
}

} // verus!
