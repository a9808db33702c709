//! 8-bit selection bitmaps: combining sub-masks, cropping a tile out of a
//! full-resolution mask, and reading a mask's selection at an image pixel.
use vstd::prelude::*;
use crate::modes::SubMaskMode;

verus! {

/// `d·(1 − s)` on the 0..255 scale, rounded to the nearest level. A tie cannot
/// occur: `d·(255 − s)` is an integer, so its quotient by 255 is never a half.
pub open spec fn subtract_level(d: u8, s: u8) -> u8 {
    ((d * (255 - s) + 127) / 255) as u8
}

/// One pixel of `dst` after a sub-mask pixel `src` is combined into it.
pub open spec fn combine_level(mode: SubMaskMode, d: u8, s: u8) -> u8 {
    match mode {
        SubMaskMode::Additive => if d >= s { d } else { s },
        SubMaskMode::Subtractive => subtract_level(d, s),
    }
}

/// The selection after combining the sub-mask bitmap `sub` into `target`; bitmaps
/// of different sizes leave the selection as it was.
pub open spec fn combined(mode: SubMaskMode, target: Seq<u8>, sub: Seq<u8>) -> Seq<u8> {
    if target.len() != sub.len() {
        target
    } else {
        Seq::new(target.len(), |i: int| combine_level(mode, target[i], sub[i]))
    }
}

/// Combines the sub-mask bitmap `sub_bitmap` into the selection `target`:
/// additive takes the pixel-wise maximum, subtractive scales by `1 − src`.
pub fn apply_submask_bitmap(target: &mut Vec<u8>, sub_bitmap: &[u8], mode: SubMaskMode)
    ensures
        final(target)@ == combined(mode, old(target)@, sub_bitmap@),
{
    if target.len() != sub_bitmap.len() {
        return;
    }
    let ghost start = target@;
    let n = target.len();
    let mut i: usize = 0;
    while i < n
        invariant
            i <= n,
            n == start.len(),
            n == sub_bitmap.len(),
            target.len() == n,
            forall|j: int| 0 <= j < i ==> target@[j] == combine_level(mode, start[j], sub_bitmap@[j]),
            forall|j: int| i <= j < n ==> target@[j] == start[j],
        decreases n - i,
    {
        let d = target[i];
        let s = sub_bitmap[i];
        let next: u8 = match mode {
            SubMaskMode::Additive => if d >= s { d } else { s },
            SubMaskMode::Subtractive => {
                assert(d as u32 * (255 - s as u32) <= 255 * 255) by (nonlinear_arith)
                    requires
                        d <= 255,
                        s <= 255,
                ;
                let v: u32 = (d as u32 * (255 - s as u32) + 127) / 255;
                v as u8
            },
        };
        target.set(i, next);
        i = i + 1;
    }
    assert(target@ =~= combined(mode, start, sub_bitmap@));
}

/// Level of pixel `(x, y)` of a tile at `(ox, oy)` cut from a `fw`×`fh` mask:
/// the mask's value where the pixel lies inside the mask, 0 elsewhere.
pub open spec fn cropped_level(full: Seq<u8>, fw: int, fh: int, ox: int, oy: int, x: int, y: int) -> u8 {
    if oy + y < fh && ox + x < fw {
        full[(oy + y) * fw + ox + x]
    } else {
        0
    }
}

/// Cuts the `width`×`height` tile at `(origin_x, origin_y)` out of the row-major
/// `full_width`×`full_height` mask; tile pixels outside the mask are 0.
pub fn crop_mask_region(
    full_mask: &[u8],
    full_width: u32,
    full_height: u32,
    origin_x: u32,
    origin_y: u32,
    width: u32,
    height: u32,
) -> (tile: Vec<u8>)
    requires
        full_mask.len() == full_width * full_height,
        width * height <= usize::MAX,
    ensures
        tile.len() == width * height,
        forall|y: int, x: int|
            0 <= y < height && 0 <= x < width ==> #[trigger] tile@[y * width + x] == cropped_level(
                full_mask@,
                full_width as int,
                full_height as int,
                origin_x as int,
                origin_y as int,
                x,
                y,
            ),
{
    let mut tile: Vec<u8> = Vec::new();
    let mut y: u32 = 0;
    while y < height
        invariant
            y <= height,
            full_mask.len() == full_width * full_height,
            width * height <= usize::MAX,
            tile.len() == y * width,
            forall|yy: int, x: int|
                0 <= yy < y && 0 <= x < width ==> #[trigger] tile@[yy * width + x] == cropped_level(
                    full_mask@,
                    full_width as int,
                    full_height as int,
                    origin_x as int,
                    origin_y as int,
                    x,
                    yy,
                ),
        decreases height - y,
    {
        let ghost row = tile@;
        let mut x: u32 = 0;
        while x < width
            invariant
                x <= width,
                y < height,
                full_mask.len() == full_width * full_height,
                width * height <= usize::MAX,
                row.len() == y * width,
                tile.len() == y * width + x,
                forall|p: int| 0 <= p < y * width ==> tile@[p] == row[p],
                forall|xx: int|
                    0 <= xx < x ==> #[trigger] tile@[y * width + xx] == cropped_level(
                        full_mask@,
                        full_width as int,
                        full_height as int,
                        origin_x as int,
                        origin_y as int,
                        xx,
                        y as int,
                    ),
            decreases width - x,
        {
            assert(y * width + x < width * height) by (nonlinear_arith)
                requires
                    y < height,
                    x < width,
            ;
            let sy: u64 = origin_y as u64 + y as u64;
            let sx: u64 = origin_x as u64 + x as u64;
            let v: u8 = if sy < full_height as u64 && sx < full_width as u64 {
                assert(sy * full_width + sx < full_width * full_height) by (nonlinear_arith)
                    requires
                        sy < full_height,
                        sx < full_width,
                ;
                full_mask[(sy * full_width as u64 + sx) as usize]
            } else {
                0
            };
            tile.push(v);
            x = x + 1;
        }
        proof {
            assert forall|yy: int, xx: int|
                0 <= yy < y + 1 && 0 <= xx < width implies #[trigger] tile@[yy * width + xx]
                == cropped_level(
                full_mask@,
                full_width as int,
                full_height as int,
                origin_x as int,
                origin_y as int,
                xx,
                yy,
            ) by {
                if yy < y {
                    assert(yy * width + xx < y * width) by (nonlinear_arith)
                        requires
                            yy < y,
                            xx < width,
                    ;
                    assert(tile@[yy * width + xx] == row[yy * width + xx]);
                }
            }
            assert(y * width + width == (y + 1) * width) by (nonlinear_arith);
        }
        y = y + 1;
    }
    assert(height * width == width * height) by (nonlinear_arith);
    tile
}

/// The rectangle of the full image that a tile-local buffer covers.
#[derive(Clone, Copy, Debug, PartialEq, Eq, Structural)]
pub struct Region {
    pub origin_x: u32,
    pub origin_y: u32,
    pub width: u32,
    pub height: u32,
}

impl Region {
    /// A buffer of this region fits in memory.
    pub open spec fn wf(self) -> bool {
        self.width * self.height <= usize::MAX
    }

    /// Whether the full-image pixel `(x, y)` lies inside the region.
    pub open spec fn contains(self, x: int, y: int) -> bool {
        self.origin_x <= x < self.origin_x + self.width && self.origin_y <= y < self.origin_y
            + self.height
    }

    /// Row-major offset of the full-image pixel `(x, y)` in the region's buffer.
    pub open spec fn offset(self, x: int, y: int) -> int {
        (y - self.origin_y) * self.width + (x - self.origin_x)
    }

    /// Offset of the full-image pixel `(x, y)` in the region's row-major buffer,
    /// or `None` where the pixel lies outside the region.
    pub fn index_of(&self, x: u32, y: u32) -> (r: Option<usize>)
        requires
            self.wf(),
        ensures
            r is Some <==> self.contains(x as int, y as int),
            r is Some ==> r->0 == self.offset(x as int, y as int) && r->0 < self.width
                * self.height,
    {
        if x < self.origin_x || y < self.origin_y {
            return None;
        }
        let lx = x - self.origin_x;
        let ly = y - self.origin_y;
        if lx >= self.width || ly >= self.height {
            return None;
        }
        assert(ly * self.width + lx < self.width * self.height) by (nonlinear_arith)
            requires
                ly < self.height,
                lx < self.width,
        ;
        Some((ly as u64 * self.width as u64 + lx as u64) as usize)
    }
}

/// Selection level (0..255) of a mask at full-image pixel `(x, y)` before any
/// inversion: a mask without a bitmap selects everything, a pixel outside the
/// bitmap's region is unselected, otherwise the bitmap's value.
pub open spec fn base_selection(bitmap: Option<Seq<u8>>, region: Region, x: int, y: int) -> u8 {
    match bitmap {
        None => 255,
        Some(b) => if region.contains(x, y) && region.offset(x, y) < b.len() {
            b[region.offset(x, y)]
        } else {
            0
        },
    }
}

/// Selection level with the mask's invert flag applied.
pub open spec fn selection_spec(bitmap: Option<Seq<u8>>, region: Region, invert: bool, x: int, y: int) -> u8 {
    if invert {
        (255 - base_selection(bitmap, region, x, y)) as u8
    } else {
        base_selection(bitmap, region, x, y)
    }
}

/// View of an optional bitmap.
pub open spec fn bitmap_view(bitmap: &Option<Vec<u8>>) -> Option<Seq<u8>> {
    match bitmap {
        None => None,
        Some(b) => Some(b@),
    }
}

/// Selection level (0 = unselected, 255 = fully selected) of a mask whose bitmap
/// covers `region`, at full-image pixel `(x, y)`.
pub fn selection_level(bitmap: &Option<Vec<u8>>, region: &Region, invert: bool, x: u32, y: u32) -> (r: u8)
    requires
        region.wf(),
    ensures
        r == selection_spec(bitmap_view(bitmap), *region, invert, x as int, y as int),
{
    let base: u8 = match bitmap {
        None => 255,
        Some(b) => match region.index_of(x, y) {
            Some(i) => if i < b.len() {
                b[i]
            } else {
                0
            },
            None => 0,
        },
    };
    if invert {
        255 - base
    } else {
        base
    }
}

/// Inverting a mask replaces its selection `s` by `1 − s` at every pixel.
pub proof fn lemma_invert_complements(bitmap: Option<Seq<u8>>, region: Region, x: int, y: int)
    ensures
        selection_spec(bitmap, region, true, x, y) as int == 255 - selection_spec(
            bitmap,
            region,
            false,
            x,
            y,
        ),
{
}

} // verus!
