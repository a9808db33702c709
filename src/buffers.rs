//! Output buffers: the error kinds of a render, checked sizing and allocation of
//! RGB8 buffers, and JPEG encoding of the finished pixels.
use vstd::prelude::*;

verus! {

/// Why a render produced no image.
#[derive(Clone, Copy, Debug, PartialEq, Eq, Structural)]
pub enum RenderError {
    /// The RAW data could not be decoded, or its metadata could not be read.
    Decode,
    /// A buffer could not be reserved: its size overflows the address space or
    /// the allocator refused it.
    Allocation,
    /// Unknown session, zero dimensions, an empty region of interest, or pixels
    /// that do not match their stated size.
    InvalidPayload,
    /// An outside component failed.
    Internal,
}

/// Number of bytes of an interleaved RGB8 buffer of `w`×`h` pixels.
pub open spec fn rgb8_len(w: int, h: int) -> int {
    w * h * 3
}

/// Size of the RGB8 output buffer of a `width`×`height` render: an empty size is
/// an invalid payload, a size past the address space an allocation error.
pub fn rgb_buffer_len(width: u32, height: u32) -> (r: Result<usize, RenderError>)
    ensures
        (width == 0 || height == 0) <==> r == Err::<usize, RenderError>(RenderError::InvalidPayload),
        width > 0 && height > 0 && rgb8_len(width as int, height as int) > usize::MAX <==> r
            == Err::<usize, RenderError>(RenderError::Allocation),
        r is Ok <==> width > 0 && height > 0 && rgb8_len(width as int, height as int) <= usize::MAX,
        r matches Ok(n) ==> n == rgb8_len(width as int, height as int),
{
    if width == 0 || height == 0 {
        return Err(RenderError::InvalidPayload);
    }
    assert(width as u64 * height as u64 <= (u32::MAX as int) * (u32::MAX as int)) by (nonlinear_arith);
    let px: u64 = width as u64 * height as u64;
    let bytes: u128 = px as u128 * 3;
    if bytes > usize::MAX as u128 {
        Err(RenderError::Allocation)
    } else {
        Ok(bytes as usize)
    }
}

/// A vector of `len` copies of `fill`, or an allocation error when the allocator
/// cannot reserve the space.
pub fn try_alloc_vec<T: Clone>(len: usize, fill: T) -> (r: Result<Vec<T>, RenderError>)
    ensures
        r is Err ==> r == Err::<Vec<T>, RenderError>(RenderError::Allocation),
        r matches Ok(v) ==> v.len() == len && forall|i: int| 0 <= i < len ==> cloned(fill, #[trigger] v@[i]),
{
    let mut v: Vec<T> = Vec::new();
    match v.try_reserve(len) {
        Ok(()) => {
            v.resize(len, fill);
            Ok(v)
        },
        Err(_) => Err(RenderError::Allocation),
    }
}

/// A zeroed RGB8 buffer for a `width`×`height` render.
pub fn alloc_rgb_buffer(width: u32, height: u32) -> (r: Result<Vec<u8>, RenderError>)
    ensures
        r == Err::<Vec<u8>, RenderError>(RenderError::InvalidPayload) <==> (width == 0 || height == 0),
        width > 0 && height > 0 && rgb8_len(width as int, height as int) > usize::MAX ==> r == Err::<
            Vec<u8>,
            RenderError,
        >(RenderError::Allocation),
        r is Err ==> r == Err::<Vec<u8>, RenderError>(RenderError::InvalidPayload) || r == Err::<
            Vec<u8>,
            RenderError,
        >(RenderError::Allocation),
        r matches Ok(v) ==> v@ == Seq::new(rgb8_len(width as int, height as int) as nat, |i: int| 0u8),
{
    let len = match rgb_buffer_len(width, height) {
        Ok(n) => n,
        Err(e) => return Err(e),
    };
    match try_alloc_vec(len, 0u8) {
        Ok(v) => {
            assert(v@ =~= Seq::new(rgb8_len(width as int, height as int) as nat, |i: int| 0u8));
            Ok(v)
        },
        Err(e) => Err(e),
    }
}

/// The JFIF bytes that the JPEG encoder produces for an interleaved RGB8 image
/// of `width`×`height` pixels at `quality`, or `None` where it reports an error.
pub uninterp spec fn jpeg_of(rgb: Seq<u8>, width: u32, height: u32, quality: u8) -> Option<Seq<u8>>;

/// Relies on image's `JpegEncoder::new_with_quality` and `JpegEncoder::encode`
/// (with `ExtendedColorType::Rgb8`): a deterministic encoding of the pixels; the
/// encoder's error becomes `None`. `encode` panics on a buffer of the wrong length.
#[verifier::external_body]
fn encode_jpeg_rgb8(rgb: &[u8], width: u32, height: u32, quality: u8) -> (r: Option<Vec<u8>>)
    requires
        rgb.len() == rgb8_len(width as int, height as int),
    ensures
        r is None <==> jpeg_of(rgb@, width, height, quality) is None,
        r matches Some(v) ==> jpeg_of(rgb@, width, height, quality) == Some(v@),
{
    let mut out: Vec<u8> = Vec::new();
    let mut encoder = image::codecs::jpeg::JpegEncoder::new_with_quality(&mut out, quality);
    match encoder.encode(rgb, width, height, image::ExtendedColorType::Rgb8) {
        Ok(()) => Some(out),
        Err(_) => None,
    }
}

/// JPEG quality: 96 on the precise (export) path, 88 on the fast preview path.
pub open spec fn quality_for(fast: bool) -> u8 {
    if fast { 88 } else { 96 }
}

/// Encodes the finished RGB8 pixels of a `width`×`height` render as JPEG.
pub fn encode_output(rgb: &[u8], width: u32, height: u32, fast: bool) -> (r: Result<Vec<u8>, RenderError>)
    ensures
        rgb.len() != rgb8_len(width as int, height as int) ==> r == Err::<Vec<u8>, RenderError>(
            RenderError::InvalidPayload,
        ),
        rgb.len() == rgb8_len(width as int, height as int) ==> match jpeg_of(rgb@, width, height, quality_for(fast)) {
            Some(bytes) => r matches Ok(v) && v@ == bytes,
            None => r == Err::<Vec<u8>, RenderError>(RenderError::Internal),
        },
{
    assert(width as u128 * height as u128 * 3 <= 3 * (u32::MAX as int) * (u32::MAX as int)) by (nonlinear_arith);
    let expected: u128 = width as u128 * height as u128 * 3;
    if rgb.len() as u128 != expected {
        return Err(RenderError::InvalidPayload);
    }
    let quality: u8 = if fast { 88 } else { 96 };
    match encode_jpeg_rgb8(rgb, width, height, quality) {
        Some(v) => Ok(v),
        None => Err(RenderError::Internal),
    }
}

} // verus!
