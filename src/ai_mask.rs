//! AI subject/environment masks: a PNG carried in a base64 data URL, decoded to
//! luma, resized to the render size and softened with a box blur.
use vstd::prelude::*;
use base64::Engine;
use crate::blur::{box_blur_u8, box_blur_spec};

verus! {

/// The bytes that standard base64 (with padding) decodes `text` to, or `None`
/// where `text` is not valid standard base64.
pub uninterp spec fn base64_decoded(text: Seq<u8>) -> Option<Seq<u8>>;

/// Relies on base64's `STANDARD.decode` (`Engine::decode`): the decoded bytes,
/// with its `DecodeError` turned into `None`.
#[verifier::external_body]
fn decode_base64_standard(text: &[u8]) -> (r: Option<Vec<u8>>)
    ensures
        r is None <==> base64_decoded(text@) is None,
        r matches Some(v) ==> base64_decoded(text@) == Some(v@),
{
    base64::engine::general_purpose::STANDARD.decode(text).ok()
}

/// The 8-bit luma plane (width, height, row-major samples) of the image encoded
/// in `bytes`, or `None` where the bytes are not a decodable image.
pub uninterp spec fn decoded_luma(bytes: Seq<u8>) -> Option<(u32, u32, Seq<u8>)>;

/// Relies on image's `load_from_memory` (format guessed from the signature, its
/// `ImageError` turned into `None`) and `DynamicImage::to_luma8`, whose buffer
/// holds exactly one sample per pixel.
#[verifier::external_body]
fn decode_luma8(bytes: &[u8]) -> (r: Option<(u32, u32, Vec<u8>)>)
    ensures
        match decoded_luma(bytes@) {
            None => r is None,
            Some(d) => r matches Some(v) && v.0 == d.0 && v.1 == d.1 && v.2@ == d.2,
        },
        r matches Some(v) ==> v.2.len() == v.0 * v.1,
{
    let gray = image::load_from_memory(bytes).ok()?.to_luma8();
    Some((gray.width(), gray.height(), gray.into_raw()))
}

/// The row-major `nw`×`nh` luma plane that a separable triangle filter resamples
/// the `w`×`h` plane `pixels` to.
pub uninterp spec fn triangle_resized(pixels: Seq<u8>, w: u32, h: u32, nw: u32, nh: u32) -> Seq<u8>;

/// Relies on image's `imageops::resize` with `FilterType::Triangle` on a
/// `GrayImage`: an `nw`×`nh` image whose samples depend on the input alone.
#[verifier::external_body]
fn resize_triangle(pixels: &[u8], w: u32, h: u32, nw: u32, nh: u32) -> (r: Vec<u8>)
    requires
        pixels.len() == w * h,
        nw * nh <= usize::MAX,
    ensures
        r@ == triangle_resized(pixels@, w, h, nw, nh),
        r.len() == nw * nh,
{
    let img: image::GrayImage = image::ImageBuffer::from_raw(w, h, pixels.to_vec()).unwrap();
    image::imageops::resize(&img, nw, nh, image::imageops::FilterType::Triangle).into_raw()
}

/// Whether the marker `base64,` starts at byte `i` of `s`.
pub open spec fn marker_at(s: Seq<u8>, i: int) -> bool {
    &&& 0 <= i
    &&& i + 7 <= s.len()
    &&& s[i] == 98u8
    &&& s[i + 1] == 97u8
    &&& s[i + 2] == 115u8
    &&& s[i + 3] == 101u8
    &&& s[i + 4] == 54u8
    &&& s[i + 5] == 52u8
    &&& s[i + 6] == 44u8
}

/// Position of the first `base64,` marker at or after byte `i`.
pub open spec fn first_marker_from(s: Seq<u8>, i: int) -> Option<int>
    decreases s.len() - i,
{
    if i < 0 || i + 7 > s.len() {
        None
    } else if marker_at(s, i) {
        Some(i)
    } else {
        first_marker_from(s, i + 1)
    }
}

/// The text after the first `base64,` marker of a data URL.
pub open spec fn data_url_payload(s: Seq<u8>) -> Option<Seq<u8>> {
    match first_marker_from(s, 0) {
        Some(i) => Some(s.subrange(i + 7, s.len() as int)),
        None => None,
    }
}

/// Byte offset of the first `base64,` marker in `s`.
pub fn find_base64_marker(s: &[u8]) -> (r: Option<usize>)
    ensures
        match r {
            Some(k) => first_marker_from(s@, 0) == Some(k as int) && marker_at(s@, k as int),
            None => first_marker_from(s@, 0) is None,
        },
{
    let mut i: usize = 0;
    while i < s.len() && s.len() - i >= 7
        invariant
            i <= s.len(),
            first_marker_from(s@, 0) == first_marker_from(s@, i as int),
        decreases s.len() - i,
    {
        if s[i] == 98u8 && s[i + 1] == 97u8 && s[i + 2] == 115u8 && s[i + 3] == 101u8 && s[i + 4]
            == 54u8 && s[i + 5] == 52u8 && s[i + 6] == 44u8 {
            return Some(i);
        }
        i = i + 1;
    }
    None
}

/// The bytes a `data:...;base64,` URL carries: `None` without the marker or
/// where the text after it is not valid base64.
pub fn decode_data_url_base64(data_url: &[u8]) -> (r: Option<Vec<u8>>)
    ensures
        match data_url_payload(data_url@) {
            None => r is None,
            Some(text) => match base64_decoded(text) {
                None => r is None,
                Some(bytes) => r matches Some(v) && v@ == bytes,
            },
        },
{
    match find_base64_marker(data_url) {
        None => None,
        Some(i) => {
            assert(marker_at(data_url@, i as int));
            let n = data_url.len();
            assert(i + 7 <= n);
            let mut text: Vec<u8> = Vec::new();
            let mut j: usize = i + 7;
            while j < data_url.len()
                invariant
                    i + 7 <= j <= data_url.len(),
                    text@ == data_url@.subrange(i + 7, j as int),
                decreases data_url.len() - j,
            {
                text.push(data_url[j]);
                j = j + 1;
            }
            decode_base64_standard(text.as_slice())
        },
    }
}

/// The luma plane resized to `width`×`height` (kept as is when it already has
/// that size).
pub open spec fn fitted_luma(luma: Seq<u8>, lw: u32, lh: u32, width: u32, height: u32) -> Seq<u8> {
    if lw == width && lh == height {
        luma
    } else {
        triangle_resized(luma, lw, lh, width, height)
    }
}

/// The selection bitmap of an AI mask from its decoded `lw`×`lh` luma plane:
/// resized to the render size, then box-blurred with `radius`.
pub fn ai_mask_from_luma(luma: &[u8], lw: u32, lh: u32, radius: usize, width: u32, height: u32) -> (r: Vec<u8>)
    requires
        luma.len() == lw * lh,
        width * height <= usize::MAX,
        radius <= u32::MAX,
    ensures
        r@ == box_blur_spec(
            fitted_luma(luma@, lw, lh, width, height),
            width as int,
            height as int,
            radius as int,
        ),
        r.len() == width * height,
{
    let fitted: Vec<u8> = if lw == width && lh == height {
        let mut copy: Vec<u8> = Vec::new();
        let mut k: usize = 0;
        while k < luma.len()
            invariant
                k <= luma.len(),
                copy@ == luma@.subrange(0, k as int),
            decreases luma.len() - k,
        {
            copy.push(luma[k]);
            k = k + 1;
        }
        assert(copy@ =~= luma@);
        copy
    } else {
        resize_triangle(luma, lw, lh, width, height)
    };
    box_blur_u8(fitted.as_slice(), width as usize, height as usize, radius)
}

/// The selection bitmap of an AI mask carried as an image in the base64 data URL
/// `data_url`: the payload decoded, the image's luma plane resized to
/// `width`×`height` and box-blurred with `radius`; `None` where any step fails.
pub open spec fn ai_mask_spec(data_url: Seq<u8>, radius: int, width: u32, height: u32) -> Option<Seq<u8>> {
    match data_url_payload(data_url) {
        None => None,
        Some(text) => match base64_decoded(text) {
            None => None,
            Some(bytes) => match decoded_luma(bytes) {
                None => None,
                Some(d) => Some(
                    box_blur_spec(fitted_luma(d.2, d.0, d.1, width, height), width as int, height as int, radius),
                ),
            },
        },
    }
}

/// The full-resolution selection bitmap of an AI mask carried as an image in the
/// base64 data URL `data_url`, at render size `width`×`height`, softened by a box
/// blur of `radius`.
pub fn generate_ai_png_mask(data_url: &[u8], radius: usize, width: u32, height: u32) -> (r: Option<Vec<u8>>)
    requires
        width * height <= usize::MAX,
        radius <= u32::MAX,
    ensures
        match ai_mask_spec(data_url@, radius as int, width, height) {
            None => r is None,
            Some(m) => r matches Some(v) && v@ == m,
        },
{
    let bytes = match decode_data_url_base64(data_url) {
        Some(b) => b,
        None => return None,
    };
    let (lw, lh, luma) = match decode_luma8(bytes.as_slice()) {
        Some(d) => d,
        None => return None,
    };
    Some(ai_mask_from_luma(luma.as_slice(), lw, lh, radius, width, height))
}

} // verus!
