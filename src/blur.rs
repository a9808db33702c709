//! Separable box blur of an 8-bit plane with edge replication, as applied to AI masks.
use vstd::prelude::*;
use vstd::arithmetic::div_mod::lemma_fundamental_div_mod_converse;

verus! {

/// `k` clamped to the valid positions `0..n` of a line.
pub open spec fn clamp_index(k: int, n: int) -> int {
    if k < 0 {
        0
    } else if k >= n {
        n - 1
    } else {
        k
    }
}

/// Sample `k` of the line of `n` values of `s` that starts at `start` and steps by
/// `stride`; positions before the first or after the last sample repeat that sample.
pub open spec fn line_sample(s: Seq<u8>, start: int, stride: int, n: int, k: int) -> int {
    s[start + clamp_index(k, n) * stride] as int
}

/// Sum of the line samples at positions `lo..hi`.
pub open spec fn line_sum(s: Seq<u8>, start: int, stride: int, n: int, lo: int, hi: int) -> int
    decreases hi - lo,
{
    if lo >= hi {
        0
    } else {
        line_sample(s, start, stride, n, lo) + line_sum(s, start, stride, n, lo + 1, hi)
    }
}

/// `num / den` rounded to the nearest integer (halves round up).
pub open spec fn rounded_quotient(num: int, den: int) -> int {
    (2 * num + den) / (2 * den)
}

/// Mean of the `2r+1` line samples centred on position `i`, rounded.
pub open spec fn blurred_sample(s: Seq<u8>, start: int, stride: int, n: int, r: int, i: int) -> int {
    rounded_quotient(line_sum(s, start, stride, n, i - r, i + r + 1), 2 * r + 1)
}

/// Every row of the row-major `w`×`h` plane `s` blurred along x.
pub open spec fn horizontal_pass(s: Seq<u8>, w: int, h: int, r: int) -> Seq<u8> {
    Seq::new((w * h) as nat, |p: int| blurred_sample(s, (p / w) * w, 1, w, r, p % w) as u8)
}

/// Every column of the row-major `w`×`h` plane `s` blurred along y.
pub open spec fn vertical_pass(s: Seq<u8>, w: int, h: int, r: int) -> Seq<u8> {
    Seq::new((w * h) as nat, |p: int| blurred_sample(s, p % w, w, h, r, p / w) as u8)
}

/// The box blur of radius `r`: a horizontal pass followed by a vertical pass.
/// A zero radius or an empty plane leaves the data as it is.
pub open spec fn box_blur_spec(s: Seq<u8>, w: int, h: int, r: int) -> Seq<u8> {
    if r == 0 || w == 0 || h == 0 {
        s
    } else {
        vertical_pass(horizontal_pass(s, w, h, r), w, h, r)
    }
}

proof fn lemma_line_sum_snoc(s: Seq<u8>, start: int, stride: int, n: int, lo: int, hi: int)
    requires
        lo <= hi,
    ensures
        line_sum(s, start, stride, n, lo, hi + 1) == line_sum(s, start, stride, n, lo, hi)
            + line_sample(s, start, stride, n, hi),
    decreases hi - lo,
{
    if lo < hi {
        lemma_line_sum_snoc(s, start, stride, n, lo + 1, hi);
    } else {
        assert(line_sum(s, start, stride, n, hi + 1, hi + 1) == 0);
    }
}

proof fn lemma_line_sum_split(s: Seq<u8>, start: int, stride: int, n: int, lo: int, mid: int, hi: int)
    requires
        lo <= mid <= hi,
    ensures
        line_sum(s, start, stride, n, lo, hi) == line_sum(s, start, stride, n, lo, mid) + line_sum(
            s,
            start,
            stride,
            n,
            mid,
            hi,
        ),
    decreases mid - lo,
{
    if lo < mid {
        lemma_line_sum_split(s, start, stride, n, lo + 1, mid, hi);
    }
}

proof fn lemma_line_sum_const(s: Seq<u8>, start: int, stride: int, n: int, lo: int, hi: int, c: int)
    requires
        lo <= hi,
        forall|k: int| lo <= k < hi ==> line_sample(s, start, stride, n, k) == c,
    ensures
        line_sum(s, start, stride, n, lo, hi) == (hi - lo) * c,
    decreases hi - lo,
{
    if lo < hi {
        lemma_line_sum_const(s, start, stride, n, lo + 1, hi, c);
        assert(line_sum(s, start, stride, n, lo, hi) == c + line_sum(s, start, stride, n, lo + 1, hi));
        assert((hi - lo) * c == c + (hi - (lo + 1)) * c) by (nonlinear_arith);
    } else {
        assert(line_sum(s, start, stride, n, lo, hi) == 0);
        assert((hi - lo) * c == 0) by (nonlinear_arith)
            requires
                hi == lo,
        ;
    }
}

proof fn lemma_line_sum_bounds(s: Seq<u8>, start: int, stride: int, n: int, lo: int, hi: int)
    requires
        lo <= hi,
    ensures
        0 <= line_sum(s, start, stride, n, lo, hi) <= 255 * (hi - lo),
    decreases hi - lo,
{
    if lo < hi {
        lemma_line_sum_bounds(s, start, stride, n, lo + 1, hi);
    }
}

proof fn lemma_rounded_quotient_byte(num: int, len: int)
    requires
        len >= 1,
        0 <= num <= 255 * len,
    ensures
        0 <= rounded_quotient(num, len) <= 255,
{
    assert(0 <= (2 * num + len) / (2 * len) <= 255) by (nonlinear_arith)
        requires
            len >= 1,
            0 <= num <= 255 * len,
    ;
}

/// Sum of the window of radius `r` around the first sample of a line.
fn window_start_sum(s: &[u8], start: usize, stride: usize, n: usize, r: usize) -> (sum: u64)
    requires
        n >= 1,
        stride >= 1,
        1 <= r <= u32::MAX,
        start + (n - 1) * stride < s.len(),
    ensures
        sum == line_sum(s@, start as int, stride as int, n as int, -(r as int), r + 1),
{
    let ghost sq = s@;
    let ghost (st, sd, nn, rr) = (start as int, stride as int, n as int, r as int);
    let first = s[start] as u64;
    assert(first * (r as u64 + 1) <= 255 * (rr + 1)) by (nonlinear_arith)
        requires
            first <= 255,
            rr == r,
    ;
    let mut sum: u64 = first * (r as u64 + 1);
    proof {
        assert forall|k: int| -rr <= k < 1 implies line_sample(sq, st, sd, nn, k) == first by {}
        lemma_line_sum_const(sq, st, sd, nn, -rr, 1, first as int);
        assert((1 - (-rr)) * first == first * (r as u64 + 1)) by (nonlinear_arith)
            requires
                rr == r,
        ;
    }
    let max_ix: usize = if r < n - 1 { r } else { n - 1 };
    let mut ix: usize = 1;
    while ix <= max_ix
        invariant
            1 <= ix <= max_ix + 1,
            max_ix <= n - 1,
            max_ix <= r,
            1 <= r <= u32::MAX,
            start + (n - 1) * stride < s.len(),
            sq == s@,
            st == start,
            sd == stride,
            nn == n,
            rr == r,
            sum == line_sum(sq, st, sd, nn, -rr, ix as int),
            sum <= 255 * (rr + ix),
        decreases max_ix + 1 - ix,
    {
        assert(ix * stride <= (n - 1) * stride) by (nonlinear_arith)
            requires
                ix <= n - 1,
        ;
        let v = s[start + ix * stride];
        proof {
            lemma_line_sum_snoc(sq, st, sd, nn, -rr, ix as int);
        }
        sum = sum + v as u64;
        ix = ix + 1;
    }
    proof {
        lemma_line_sum_bounds(sq, st, sd, nn, -rr, max_ix + 1);
    }
    if r > max_ix {
        let last = s[start + (n - 1) * stride] as u64;
        let repeats = (r - max_ix) as u64;
        proof {
            assert forall|k: int| max_ix + 1 <= k < rr + 1 implies line_sample(sq, st, sd, nn, k)
                == last by {}
            lemma_line_sum_const(sq, st, sd, nn, max_ix + 1, rr + 1, last as int);
            lemma_line_sum_split(sq, st, sd, nn, -rr, max_ix + 1, rr + 1);
            assert(last * repeats <= 255 * repeats) by (nonlinear_arith)
                requires
                    last <= 255,
            ;
            assert((rr + 1 - (max_ix + 1)) * last == last * repeats) by (nonlinear_arith)
                requires
                    repeats == rr - max_ix,
            ;
        }
        sum = sum + last * repeats;
    }
    sum
}

/// Rounded mean of a window sum, as a byte.
fn window_mean(sum: u64, r: usize) -> (m: u8)
    requires
        1 <= r <= u32::MAX,
        sum <= 255 * (2 * r + 1),
    ensures
        m == rounded_quotient(sum as int, 2 * r + 1),
{
    let den: u64 = 2 * (r as u64) + 1;
    proof {
        lemma_rounded_quotient_byte(sum as int, den as int);
    }
    ((2 * sum + den) / (2 * den)) as u8
}

/// Position `k` clamped into `0..n`, for `k = i + r` and `k = i - r - 1`.
fn clamp_ahead(i: usize, r: usize, n: usize) -> (c: usize)
    requires
        i < n,
    ensures
        c == clamp_index(i + r, n as int),
{
    if r < n - 1 - i {
        i + r
    } else {
        n - 1
    }
}

fn clamp_behind(i: usize, r: usize, n: usize) -> (c: usize)
    requires
        i < n,
    ensures
        c == clamp_index(i - r - 1, n as int),
{
    if i > r {
        i - r - 1
    } else {
        0
    }
}

/// Slides a window of radius `r` from position `i - 1` to position `i`.
proof fn lemma_slide(s: Seq<u8>, start: int, stride: int, n: int, r: int, i: int)
    requires
        r >= 0,
    ensures
        line_sum(s, start, stride, n, i - r, i + r + 1) == line_sum(s, start, stride, n, i - 1 - r, i + r)
            - line_sample(s, start, stride, n, i - 1 - r) + line_sample(s, start, stride, n, i + r),
{
    lemma_line_sum_snoc(s, start, stride, n, i - 1 - r, i + r);
}

fn blur_rows(src: &[u8], w: usize, h: usize, r: usize) -> (out: Vec<u8>)
    requires
        w >= 1,
        h >= 1,
        1 <= r <= u32::MAX,
        src.len() == w * h,
    ensures
        out@ == horizontal_pass(src@, w as int, h as int, r as int),
{
    let ghost sq = src@;
    let mut out: Vec<u8> = Vec::new();
    let mut y: usize = 0;
    while y < h
        invariant
            y <= h,
            w >= 1,
            1 <= r <= u32::MAX,
            src.len() == w * h,
            sq == src@,
            out.len() == y * w,
            forall|p: int|
                0 <= p < out.len() ==> out@[p] == #[trigger] horizontal_pass(sq, w as int, h as int, r as int)[p],
        decreases h - y,
    {
        assert((y + 1) * w <= h * w) by (nonlinear_arith)
            requires
                y < h,
        ;
        assert(y * w + w == (y + 1) * w) by (nonlinear_arith);
        assert(h * w == w * h) by (nonlinear_arith);
        let row = y * w;
        let mut sum = window_start_sum(src, row, 1, w, r);
        let ghost old_out = out@;
        let mut x: usize = 0;
        while x < w
            invariant
                x <= w,
                y < h,
                w >= 1,
                1 <= r <= u32::MAX,
                src.len() == w * h,
                sq == src@,
                row == y * w,
                row + w <= w * h,
                old_out.len() == row,
                out.len() == row + x,
                forall|p: int| 0 <= p < row ==> out@[p] == old_out[p],
                forall|p: int|
                    row <= p < out.len() ==> out@[p] == #[trigger] blurred_sample(
                        sq,
                        row as int,
                        1,
                        w as int,
                        r as int,
                        p - row,
                    ) as u8,
                x < w ==> sum == line_sum(sq, row as int, 1, w as int, x - r, x + r + 1),
            decreases w - x,
        {
            proof {
                lemma_line_sum_bounds(sq, row as int, 1, w as int, x - r, x + r + 1);
            }
            let m = window_mean(sum, r);
            out.push(m);
            if x + 1 < w {
                let a = clamp_ahead(x + 1, r, w);
                let b = clamp_behind(x + 1, r, w);
                proof {
                    lemma_slide(sq, row as int, 1, w as int, r as int, x + 1);
                    lemma_line_sum_split(sq, row as int, 1, w as int, x - r, x - r + 1, x + r + 1);
                    lemma_line_sum_bounds(sq, row as int, 1, w as int, x - r + 1, x + r + 1);
                }
                sum = sum - src[row + b] as u64 + src[row + a] as u64;
            }
            x = x + 1;
        }
        proof {
            assert forall|p: int| 0 <= p < out.len() implies out@[p] == #[trigger] horizontal_pass(
                sq,
                w as int,
                h as int,
                r as int,
            )[p] by {
                if p >= row {
                    lemma_fundamental_div_mod_converse(p, w as int, y as int, p - row);
                } else {
                    assert(out@[p] == old_out[p]);
                }
            }
        }
        y = y + 1;
    }
    assert(h * w == w * h) by (nonlinear_arith);
    assert(out@ =~= horizontal_pass(sq, w as int, h as int, r as int));
    out
}

fn blur_columns(src: &[u8], w: usize, h: usize, r: usize) -> (out: Vec<u8>)
    requires
        w >= 1,
        h >= 1,
        1 <= r <= u32::MAX,
        src.len() == w * h,
    ensures
        out@ == vertical_pass(src@, w as int, h as int, r as int),
{
    let ghost sq = src@;
    let mut sums: Vec<u64> = Vec::new();
    let mut x: usize = 0;
    while x < w
        invariant
            x <= w,
            h >= 1,
            1 <= r <= u32::MAX,
            src.len() == w * h,
            sq == src@,
            sums.len() == x,
            forall|xx: int|
                0 <= xx < x ==> #[trigger] sums@[xx] == line_sum(sq, xx, w as int, h as int, -(r as int), r + 1),
        decreases w - x,
    {
        assert(x + (h - 1) * w < w * h) by (nonlinear_arith)
            requires
                x < w,
                h >= 1,
        ;
        let s0 = window_start_sum(src, x, w, h, r);
        sums.push(s0);
        x = x + 1;
    }
    let mut out: Vec<u8> = Vec::new();
    let mut y: usize = 0;
    while y < h
        invariant
            y <= h,
            w >= 1,
            1 <= r <= u32::MAX,
            src.len() == w * h,
            sq == src@,
            sums.len() == w,
            out.len() == y * w,
            y < h ==> forall|xx: int|
                0 <= xx < w ==> #[trigger] sums@[xx] == line_sum(sq, xx, w as int, h as int, y - r, y + r + 1),
            forall|p: int|
                0 <= p < out.len() ==> out@[p] == #[trigger] vertical_pass(sq, w as int, h as int, r as int)[p],
        decreases h - y,
    {
        let ghost old_out = out@;
        let mut x: usize = 0;
        while x < w
            invariant
                x <= w,
                y < h,
                w >= 1,
                1 <= r <= u32::MAX,
                src.len() == w * h,
                sq == src@,
                sums.len() == w,
                old_out.len() == y * w,
                out.len() == y * w + x,
                forall|p: int| 0 <= p < y * w ==> out@[p] == old_out[p],
                forall|xx: int|
                    0 <= xx < x ==> #[trigger] out@[y * w + xx] == blurred_sample(
                        sq,
                        xx,
                        w as int,
                        h as int,
                        r as int,
                        y as int,
                    ) as u8,
                forall|xx: int|
                    x <= xx < w ==> #[trigger] sums@[xx] == line_sum(sq, xx, w as int, h as int, y - r, y + r + 1),
                y + 1 < h ==> forall|xx: int|
                    0 <= xx < x ==> #[trigger] sums@[xx] == line_sum(
                        sq,
                        xx,
                        w as int,
                        h as int,
                        y + 1 - r,
                        y + 1 + r + 1,
                    ),
            decreases w - x,
        {
            let cur = sums[x];
            proof {
                lemma_line_sum_bounds(sq, x as int, w as int, h as int, y - r, y + r + 1);
            }
            let m = window_mean(cur, r);
            out.push(m);
            if y + 1 < h {
                let a = clamp_ahead(y + 1, r, h);
                let b = clamp_behind(y + 1, r, h);
                assert(a * w + x < w * h && b * w + x < w * h) by (nonlinear_arith)
                    requires
                        a < h,
                        b < h,
                        x < w,
                ;
                proof {
                    lemma_slide(sq, x as int, w as int, h as int, r as int, y + 1);
                    lemma_line_sum_split(sq, x as int, w as int, h as int, y - r, y - r + 1, y + r + 1);
                    lemma_line_sum_bounds(sq, x as int, w as int, h as int, y - r + 1, y + r + 1);
                }
                let next = cur - src[b * w + x] as u64 + src[a * w + x] as u64;
                sums.set(x, next);
            }
            x = x + 1;
        }
        proof {
            assert(y * w + w <= w * h) by (nonlinear_arith)
                requires
                    y < h,
            ;
            assert forall|p: int| 0 <= p < out.len() implies out@[p] == #[trigger] vertical_pass(
                sq,
                w as int,
                h as int,
                r as int,
            )[p] by {
                if p >= y * w {
                    lemma_fundamental_div_mod_converse(p, w as int, y as int, p - y * w);
                    assert(out@[y * w + (p - y * w)] == out@[p]);
                } else {
                    assert(out@[p] == old_out[p]);
                }
            }
            assert(y * w + w == (y + 1) * w) by (nonlinear_arith);
        }
        y = y + 1;
    }
    assert(h * w == w * h) by (nonlinear_arith);
    assert(out@ =~= vertical_pass(sq, w as int, h as int, r as int));
    out
}

/// A copy of an 8-bit plane.
fn copy_plane(src: &[u8]) -> (out: Vec<u8>)
    ensures
        out@ == src@,
{
    let mut out: Vec<u8> = Vec::new();
    let mut i: usize = 0;
    while i < src.len()
        invariant
            i <= src.len(),
            out@ == src@.subrange(0, i as int),
        decreases src.len() - i,
    {
        out.push(src[i]);
        i = i + 1;
    }
    assert(out@ =~= src@);
    out
}

/// Box-blurs the row-major `width`×`height` plane `src` with radius `radius`:
/// each output value is the rounded mean of the `2·radius+1` neighbours along x,
/// then along y, with positions past an edge repeating the edge value.
pub fn box_blur_u8(src: &[u8], width: usize, height: usize, radius: usize) -> (out: Vec<u8>)
    requires
        src.len() == width * height,
        radius <= u32::MAX,
    ensures
        out@ == box_blur_spec(src@, width as int, height as int, radius as int),
        out.len() == src.len(),
{
    if radius == 0 || width == 0 || height == 0 {
        return copy_plane(src);
    }
    let tmp = blur_rows(src, width, height, radius);
    blur_columns(tmp.as_slice(), width, height, radius)
}

} // verus!
