//! Verified core of a RAW development engine: mask bitmaps, the box blur used by
//! AI masks, the virtual geometric transform, tile planning with halo padding,
//! checked buffer allocation, JPEG framing and the preview/session caches.
//! The floating-point colour pipeline lives outside this crate and calls in here.
use vstd::prelude::*;

pub mod ai_mask;
pub mod bitmap;
pub mod blur;
pub mod buffers;
pub mod geometry;
pub mod modes;
pub mod preview;
pub mod strokes;
pub mod tiles;
