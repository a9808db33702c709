//! Tile planning for the tiled renderer: tile size, the row-major tile grid, the
//! halo padding that detail blurs need, and the padded rectangles fetched per tile.
use vstd::prelude::*;
use vstd::arithmetic::div_mod::lemma_fundamental_div_mod_converse;
use crate::bitmap::Region;

verus! {

/// Blur radius of the sharpness detail layer.
pub const DETAIL_SHARPNESS_RADIUS: u32 = 2;
/// Blur radius of the clarity (and centre) detail layer.
pub const DETAIL_CLARITY_RADIUS: u32 = 8;
/// Blur radius of the structure detail layer.
pub const DETAIL_STRUCTURE_RADIUS: u32 = 40;
/// Extra halo beyond the largest blur radius, for local-contrast reconstruction.
pub const HALO_MARGIN: u32 = 10;
/// Smallest tile edge the renderer uses.
pub const MIN_TILE: u32 = 64;

pub open spec fn max_int(a: int, b: int) -> int {
    if a >= b { a } else { b }
}

pub open spec fn min_int(a: int, b: int) -> int {
    if a <= b { a } else { b }
}

/// Largest blur radius among the active detail layers (0 when none is active).
pub open spec fn max_detail_radius(sharpness: bool, clarity: bool, structure: bool) -> int {
    if structure {
        DETAIL_STRUCTURE_RADIUS as int
    } else if clarity {
        DETAIL_CLARITY_RADIUS as int
    } else if sharpness {
        DETAIL_SHARPNESS_RADIUS as int
    } else {
        0
    }
}

/// Largest blur radius among the active detail layers.
pub fn detail_radius(sharpness: bool, clarity: bool, structure: bool) -> (r: u32)
    ensures
        r == max_detail_radius(sharpness, clarity, structure),
        r <= DETAIL_STRUCTURE_RADIUS,
{
    let mut r: u32 = 0;
    if structure && r < DETAIL_STRUCTURE_RADIUS {
        r = DETAIL_STRUCTURE_RADIUS;
    }
    if clarity && r < DETAIL_CLARITY_RADIUS {
        r = DETAIL_CLARITY_RADIUS;
    }
    if sharpness && r < DETAIL_SHARPNESS_RADIUS {
        r = DETAIL_SHARPNESS_RADIUS;
    }
    r
}

/// Halo around each tile: the largest active blur radius plus a safety margin,
/// or nothing when no detail layer is active.
pub fn detail_padding(sharpness: bool, clarity: bool, structure: bool) -> (p: u32)
    ensures
        max_detail_radius(sharpness, clarity, structure) == 0 ==> p == 0,
        max_detail_radius(sharpness, clarity, structure) > 0 ==> p == max_detail_radius(
            sharpness,
            clarity,
            structure,
        ) + HALO_MARGIN,
{
    let r = detail_radius(sharpness, clarity, structure);
    if r > 0 {
        r + HALO_MARGIN
    } else {
        0
    }
}

/// Tile edge for a `w`×`h` image: the request raised to at least 64 and lowered
/// to at most the longer image side.
pub open spec fn tile_edge_spec(requested: int, w: int, h: int) -> int {
    min_int(max_int(requested, MIN_TILE as int), max_int(w, h))
}

pub fn tile_edge(requested: u32, w: u32, h: u32) -> (t: u32)
    ensures
        t == tile_edge_spec(requested as int, w as int, h as int),
        w >= 1 || h >= 1 ==> t >= 1,
{
    let a = if requested > MIN_TILE { requested } else { MIN_TILE };
    let longest = if w > h { w } else { h };
    if a < longest { a } else { longest }
}

/// Tile edge used by exports: smaller tiles in low-memory mode.
pub fn export_tile_request(low_memory: bool) -> (t: u32)
    ensures
        t == (if low_memory { 128u32 } else { 256u32 }),
{
    if low_memory { 128 } else { 256 }
}

/// Number of tiles of edge `t` along a side of `len` pixels.
pub open spec fn tile_count(len: int, t: int) -> int {
    (len + t - 1) / t
}

/// Tile `k` of the row-major grid of `t`×`t` tiles over a `w`×`h` image; tiles
/// on the right and bottom edges are cut to the image.
pub open spec fn tile_at(w: int, h: int, t: int, k: int) -> Region {
    let cols = tile_count(w, t);
    let i = k % cols;
    let j = k / cols;
    Region {
        origin_x: (i * t) as u32,
        origin_y: (j * t) as u32,
        width: min_int(t, w - i * t) as u32,
        height: min_int(t, h - j * t) as u32,
    }
}

proof fn lemma_below_count(len: int, t: int, i: int)
    requires
        t >= 1,
        i >= 0,
        i * t < len,
    ensures
        i < tile_count(len, t),
{
    vstd::arithmetic::div_mod::lemma_fundamental_div_mod(len + t - 1, t);
    let q = (len + t - 1) / t;
    let r = (len + t - 1) % t;
    assert(i < q) by (nonlinear_arith)
        requires
            len + t - 1 == t * q + r,
            0 <= r < t,
            i * t < len,
            t >= 1,
    ;
}

proof fn lemma_start_inside(len: int, t: int, i: int)
    requires
        t >= 1,
        0 <= i < tile_count(len, t),
    ensures
        i * t < len,
{
    vstd::arithmetic::div_mod::lemma_fundamental_div_mod(len + t - 1, t);
    let q = (len + t - 1) / t;
    let r = (len + t - 1) % t;
    assert(i * t < len) by (nonlinear_arith)
        requires
            len + t - 1 == t * q + r,
            0 <= r < t,
            0 <= i < q,
            t >= 1,
    ;
}

proof fn lemma_tile_count(len: int, t: int, i: int)
    requires
        t >= 1,
        len >= 1,
        i * t >= len,
        (i - 1) * t < len,
    ensures
        tile_count(len, t) == i,
{
    assert((i - 1) * t == i * t - t) by (nonlinear_arith);
    lemma_fundamental_div_mod_converse(len + t - 1, t, i, len + t - 1 - i * t);
}

/// The row-major grid of tiles of edge `t` over a `w`×`h` image.
pub fn tile_grid(w: u32, h: u32, t: u32) -> (tiles: Vec<Region>)
    requires
        w >= 1,
        h >= 1,
        t >= 1,
    ensures
        tiles.len() == tile_count(w as int, t as int) * tile_count(h as int, t as int),
        forall|k: int| 0 <= k < tiles.len() ==> #[trigger] tiles@[k] == tile_at(w as int, h as int, t as int, k),
{
    let ghost cols = tile_count(w as int, t as int);
    let mut tiles: Vec<Region> = Vec::new();
    let mut ty: u64 = 0;
    let ghost mut j: int = 0;
    proof {
        lemma_below_count(w as int, t as int, 0);
    }
    while ty < h as u64
        invariant
            w >= 1,
            h >= 1,
            t >= 1,
            cols == tile_count(w as int, t as int),
            cols >= 1,
            ty == j * t,
            j >= 0,
            j == 0 || (j - 1) * t < h,
            tiles.len() == j * cols,
            forall|k: int| 0 <= k < tiles.len() ==> #[trigger] tiles@[k] == tile_at(w as int, h as int, t as int, k),
        decreases h + t - ty,
    {
        let th: u64 = if (t as u64) < h as u64 - ty { t as u64 } else { h as u64 - ty };
        let mut tx: u64 = 0;
        let ghost mut i: int = 0;
        let ghost row_start = tiles.len() as int;
        while tx < w as u64
            invariant
                w >= 1,
                t >= 1,
                cols == tile_count(w as int, t as int),
                cols >= 1,
                ty == j * t,
                ty < h,
                j >= 0,
                th == min_int(t as int, h - j * t),
                tx == i * t,
                i >= 0,
                i == 0 || (i - 1) * t < w,
                i <= cols,
                row_start == j * cols,
                tiles.len() == row_start + i,
                forall|k: int| 0 <= k < tiles.len() ==> #[trigger] tiles@[k] == tile_at(w as int, h as int, t as int, k),
            decreases w + t - tx,
        {
            let tw: u64 = if (t as u64) < w as u64 - tx { t as u64 } else { w as u64 - tx };
            proof {
                lemma_below_count(w as int, t as int, i);
                let k = row_start + i;
                assert(k == j * cols + i);
                lemma_fundamental_div_mod_converse(k, cols, j, i);
            }
            tiles.push(Region { origin_x: tx as u32, origin_y: ty as u32, width: tw as u32, height: th as u32 });
            tx = tx + t as u64;
            proof {
                i = i + 1;
                assert(tx == i * t) by (nonlinear_arith)
                    requires
                        tx == (i - 1) * t + t,
                ;
            }
        }
        proof {
            lemma_tile_count(w as int, t as int, i);
            assert(row_start + i == (j + 1) * cols) by (nonlinear_arith)
                requires
                    row_start == j * cols,
                    i == cols,
            ;
        }
        ty = ty + t as u64;
        proof {
            j = j + 1;
            assert(ty == j * t) by (nonlinear_arith)
                requires
                    ty == (j - 1) * t + t,
            ;
        }
    }
    proof {
        lemma_tile_count(h as int, t as int, j);
        assert(j * cols == cols * j) by (nonlinear_arith);
    }
    tiles
}

/// Every pixel of the image lies in exactly one tile of the grid: the tile in
/// column `x / t` and row `y / t`.
pub proof fn lemma_tiles_partition(w: int, h: int, t: int, x: int, y: int, k: int)
    requires
        w >= 1,
        h >= 1,
        t >= 1,
        w <= u32::MAX,
        h <= u32::MAX,
        0 <= x < w,
        0 <= y < h,
        0 <= k < tile_count(w, t) * tile_count(h, t),
    ensures
        ({
            let home = (y / t) * tile_count(w, t) + x / t;
            &&& 0 <= home < tile_count(w, t) * tile_count(h, t)
            &&& tile_at(w, h, t, home).contains(x, y)
            &&& tile_at(w, h, t, k).contains(x, y) ==> k == home
        }),
{
    let cols = tile_count(w, t);
    let rows = tile_count(h, t);
    let i = x / t;
    let j = y / t;
    vstd::arithmetic::div_mod::lemma_fundamental_div_mod(x, t);
    vstd::arithmetic::div_mod::lemma_fundamental_div_mod(y, t);
    assert(i * t <= x < i * t + t && j * t <= y < j * t + t && i >= 0 && j >= 0) by (nonlinear_arith)
        requires
            x == t * i + x % t,
            y == t * j + y % t,
            0 <= x % t < t,
            0 <= y % t < t,
            x >= 0,
            y >= 0,
            t >= 1,
    ;
    lemma_below_count(w, t, i);
    lemma_below_count(h, t, j);
    let home = j * cols + i;
    assert(0 <= home < cols * rows) by (nonlinear_arith)
        requires
            home == j * cols + i,
            0 <= i < cols,
            0 <= j < rows,
    ;
    lemma_fundamental_div_mod_converse(home, cols, j, i);
    assert(tile_at(w, h, t, home).contains(x, y));
    let ki = k % cols;
    let kj = k / cols;
    vstd::arithmetic::div_mod::lemma_fundamental_div_mod(k, cols);
    if tile_at(w, h, t, k).contains(x, y) {
        assert(0 <= ki < cols);
        assert(kj >= 0) by (nonlinear_arith)
            requires
                k >= 0,
                cols >= 1,
                kj == k / cols,
        ;
        assert(kj < rows) by (nonlinear_arith)
            requires
                k == cols * kj + ki,
                0 <= ki < cols,
                k < cols * rows,
        ;
        lemma_start_inside(w, t, ki);
        lemma_start_inside(h, t, kj);
        lemma_fundamental_div_mod_converse(x, t, ki, x - ki * t);
        lemma_fundamental_div_mod_converse(y, t, kj, y - kj * t);
        assert(k == kj * cols + ki) by (nonlinear_arith)
            requires
                k == cols * kj + ki,
        ;
    }
}

/// The rectangle fetched for `tile`: the tile grown by `padding` on each side,
/// cut to the `w`×`h` image.
pub open spec fn fetch_spec(tile: Region, padding: int, w: int, h: int) -> Region {
    let left = min_int(padding, tile.origin_x as int);
    let top = min_int(padding, tile.origin_y as int);
    let right = min_int(padding, w - (tile.origin_x + tile.width));
    let bottom = min_int(padding, h - (tile.origin_y + tile.height));
    Region {
        origin_x: (tile.origin_x - left) as u32,
        origin_y: (tile.origin_y - top) as u32,
        width: (tile.width + left + right) as u32,
        height: (tile.height + top + bottom) as u32,
    }
}

/// Rectangle of source pixels to fetch for `tile` so that blurs of radius up to
/// `padding` see the same neighbours as on the whole image.
pub fn padded_fetch(tile: Region, padding: u32, w: u32, h: u32) -> (f: Region)
    requires
        tile.origin_x + tile.width <= w,
        tile.origin_y + tile.height <= h,
    ensures
        f == fetch_spec(tile, padding as int, w as int, h as int),
        f.origin_x + f.width <= w,
        f.origin_y + f.height <= h,
        forall|x: int, y: int|
            0 <= x < w && 0 <= y < h && tile.origin_x - padding <= x < tile.origin_x + tile.width
                + padding && tile.origin_y - padding <= y < tile.origin_y + tile.height + padding
                ==> #[trigger] f.contains(x, y),
{
    let left = if padding < tile.origin_x { padding } else { tile.origin_x };
    let top = if padding < tile.origin_y { padding } else { tile.origin_y };
    let room_x = w - (tile.origin_x + tile.width);
    let room_y = h - (tile.origin_y + tile.height);
    let right = if padding < room_x { padding } else { room_x };
    let bottom = if padding < room_y { padding } else { room_y };
    Region {
        origin_x: tile.origin_x - left,
        origin_y: tile.origin_y - top,
        width: tile.width + left + right,
        height: tile.height + top + bottom,
    }
}

/// Rectangle over which detail blurs are built for `region` of a `full_w`×`full_h`
/// image: the region grown by `pad` on each side, cut to the image, and at least
/// one pixel wide and tall.
pub open spec fn detail_region_spec(full_w: int, full_h: int, region: Region, pad: int) -> Region {
    let sx = max_int(region.origin_x - pad, 0);
    let sy = max_int(region.origin_y - pad, 0);
    let ex = min_int(region.origin_x + region.width + pad, full_w);
    let ey = min_int(region.origin_y + region.height + pad, full_h);
    Region {
        origin_x: sx as u32,
        origin_y: sy as u32,
        width: max_int(ex - sx, 1) as u32,
        height: max_int(ey - sy, 1) as u32,
    }
}

pub fn detail_region(full_w: u32, full_h: u32, region: Region, pad: u32) -> (r: Region)
    requires
        region.origin_x + region.width <= full_w,
        region.origin_y + region.height <= full_h,
    ensures
        r == detail_region_spec(full_w as int, full_h as int, region, pad as int),
{
    let sx = if region.origin_x > pad { region.origin_x - pad } else { 0 };
    let sy = if region.origin_y > pad { region.origin_y - pad } else { 0 };
    let ex64 = region.origin_x as u64 + region.width as u64 + pad as u64;
    let ey64 = region.origin_y as u64 + region.height as u64 + pad as u64;
    let ex = if ex64 < full_w as u64 { ex64 as u32 } else { full_w };
    let ey = if ey64 < full_h as u64 { ey64 as u32 } else { full_h };
    let dw = if ex - sx > 1 { ex - sx } else { 1 };
    let dh = if ey - sy > 1 { ey - sy } else { 1 };
    Region { origin_x: sx, origin_y: sy, width: dw, height: dh }
}

} // verus!
