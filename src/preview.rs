//! Progressive previews: the preview kinds and their size ceilings, the zoom
//! resolution ladder, the per-session cache of decoded previews, and the
//! registry that hands out session handles.
use vstd::prelude::*;
use std::collections::HashMap;

verus! {

broadcast use vstd::std_specs::hash::group_hash_axioms;

/// Resolution stage of a preview render.
#[derive(Clone, Copy, Debug, PartialEq, Eq, Structural)]
pub enum PreviewKind {
    SuperLow,
    Low,
    Preview,
    Zoom,
}

/// Largest zoom edge.
pub const ZOOM_MAX_DIM: u32 = 2304;

pub open spec fn max_dims_spec(kind: PreviewKind) -> (u32, u32) {
    match kind {
        PreviewKind::SuperLow => (64, 64),
        PreviewKind::Low => (256, 256),
        PreviewKind::Preview => (1280, 720),
        PreviewKind::Zoom => (2304, 2304),
    }
}

impl PreviewKind {
    /// Pixel ceiling (width, height) of this kind's decoded preview.
    pub fn max_dims(self) -> (r: (u32, u32))
        ensures
            r == max_dims_spec(self),
    {
        match self {
            PreviewKind::SuperLow => (64, 64),
            PreviewKind::Low => (256, 256),
            PreviewKind::Preview => (1280, 720),
            PreviewKind::Zoom => (2304, 2304),
        }
    }
}

pub open spec fn clamp_u(v: int, lo: int, hi: int) -> int {
    if v < lo {
        lo
    } else if v > hi {
        hi
    } else {
        v
    }
}

/// Largest edge a zoom render of `kind` may use.
pub open spec fn stage_cap(kind: PreviewKind) -> int {
    match kind {
        PreviewKind::SuperLow => 64,
        PreviewKind::Low => 256,
        _ => ZOOM_MAX_DIM as int,
    }
}

/// Smallest zoom edge and ladder step of a stage.
pub open spec fn ladder(kind: PreviewKind) -> (int, int) {
    if stage_cap(kind) <= 256 {
        (64, 64)
    } else {
        (1280, 128)
    }
}

/// Zoom edge for a requested maximum dimension: clamped to the ladder's range and
/// the stage's cap, then floored to a multiple of the ladder step.
pub open spec fn zoom_dim_spec(kind: PreviewKind, requested: Option<u32>) -> int {
    let (lo, step) = ladder(kind);
    let req = match requested {
        Some(v) => v as int,
        None => ZOOM_MAX_DIM as int,
    };
    let c = clamp_u(req, lo, ZOOM_MAX_DIM as int);
    let capped = if c <= stage_cap(kind) { c } else { stage_cap(kind) };
    let floored = (capped / step) * step;
    if floored >= lo { floored } else { lo }
}

/// Edge of the square zoom preview used when the payload asks for zoom.
pub fn zoom_dimension(kind: PreviewKind, requested: Option<u32>) -> (d: u32)
    ensures
        d == zoom_dim_spec(kind, requested),
        (d as int) % ladder(kind).1 == 0,
        ladder(kind).0 <= d <= stage_cap(kind),
{
    let cap: u32 = match kind {
        PreviewKind::SuperLow => 64,
        PreviewKind::Low => 256,
        _ => ZOOM_MAX_DIM,
    };
    let (lo, step): (u32, u32) = if cap <= 256 { (64, 64) } else { (1280, 128) };
    let req: u32 = match requested {
        Some(v) => v,
        None => ZOOM_MAX_DIM,
    };
    let c = if req < lo { lo } else if req > ZOOM_MAX_DIM { ZOOM_MAX_DIM } else { req };
    let capped = if c <= cap { c } else { cap };
    let floored = (capped / step) * step;
    let d = if floored >= lo { floored } else { lo };
    assert((d as int) % (step as int) == 0) by (nonlinear_arith)
        requires
            step == 64 || step == 128,
            lo == 64 || lo == 1280,
            (lo as int) % (step as int) == 0,
            floored == (capped / step) * step,
            d == floored || d == lo,
    ;
    d
}

/// Decoded previews of one session, one slot per fixed kind and a zoom slot
/// keyed by the ceiling it was decoded at.
pub struct PreviewCache<T> {
    pub super_low: Option<T>,
    pub low: Option<T>,
    pub preview: Option<T>,
    pub zoom: Option<(u32, u32, T)>,
}

impl<T> PreviewCache<T> {
    /// The slot of a fixed kind (the zoom kind has its own keyed slot).
    pub open spec fn slot(&self, kind: PreviewKind) -> Option<T> {
        match kind {
            PreviewKind::SuperLow => self.super_low,
            PreviewKind::Low => self.low,
            PreviewKind::Preview => self.preview,
            PreviewKind::Zoom => None,
        }
    }

    pub open spec fn is_empty(&self) -> bool {
        &&& self.super_low is None
        &&& self.low is None
        &&& self.preview is None
        &&& self.zoom is None
    }

    /// A cache with every slot empty.
    pub fn new() -> (c: PreviewCache<T>)
        ensures
            c.is_empty(),
    {
        PreviewCache { super_low: None, low: None, preview: None, zoom: None }
    }

    /// The cached preview of a fixed kind, if it was decoded already.
    pub fn get(&self, kind: PreviewKind) -> (r: Option<&T>)
        ensures
            match self.slot(kind) {
                Some(v) => r == Some(&v),
                None => r is None,
            },
    {
        match kind {
            PreviewKind::SuperLow => self.super_low.as_ref(),
            PreviewKind::Low => self.low.as_ref(),
            PreviewKind::Preview => self.preview.as_ref(),
            PreviewKind::Zoom => None,
        }
    }

    /// The cache with `value` in the slot of the fixed kind `kind`.
    pub open spec fn with_slot(self, kind: PreviewKind, value: T) -> PreviewCache<T> {
        PreviewCache {
            super_low: if kind == PreviewKind::SuperLow { Some(value) } else { self.super_low },
            low: if kind == PreviewKind::Low { Some(value) } else { self.low },
            preview: if kind == PreviewKind::Preview { Some(value) } else { self.preview },
            zoom: self.zoom,
        }
    }

    /// Keeps `value` as the preview of the fixed kind `kind`.
    pub fn put(&mut self, kind: PreviewKind, value: T)
        requires
            kind != PreviewKind::Zoom,
        ensures
            *final(self) == old(self).with_slot(kind, value),
    {
        match kind {
            PreviewKind::SuperLow => self.super_low = Some(value),
            PreviewKind::Low => self.low = Some(value),
            _ => self.preview = Some(value),
        }
    }

    /// The zoom preview, if one was decoded at exactly this ceiling.
    pub fn get_zoom(&self, max_w: u32, max_h: u32) -> (r: Option<&T>)
        ensures
            match self.zoom {
                Some((w, h, v)) => if w == max_w && h == max_h {
                    r == Some(&v)
                } else {
                    r is None
                },
                None => r is None,
            },
    {
        match &self.zoom {
            Some((w, h, v)) => if *w == max_w && *h == max_h {
                Some(v)
            } else {
                None
            },
            None => None,
        }
    }

    /// Replaces the zoom preview by `value`, decoded at ceiling `max_w`×`max_h`.
    pub fn put_zoom(&mut self, max_w: u32, max_h: u32, value: T)
        ensures
            final(self).zoom == Some((max_w, max_h, value)),
            forall|k: PreviewKind| #[trigger] final(self).slot(k) == old(self).slot(k),
    {
        self.zoom = Some((max_w, max_h, value));
    }

    /// Drops every cached preview, so that an export can decode at full size.
    pub fn clear(&mut self)
        ensures
            final(self).is_empty(),
    {
        self.super_low = None;
        self.low = None;
        self.preview = None;
        self.zoom = None;
    }
}

/// A preview stored for a fixed kind is what every later lookup of that kind
/// returns, and the other slots keep what they held, so successive renders of
/// one kind start from the same decoded pixels.
pub proof fn lemma_cache_returns_stored<T>(c: PreviewCache<T>, kind: PreviewKind, value: T, other: PreviewKind)
    requires
        kind != PreviewKind::Zoom,
    ensures
        c.with_slot(kind, value).slot(kind) == Some(value),
        other != kind ==> c.with_slot(kind, value).slot(other) == c.slot(other),
        c.with_slot(kind, value).zoom == c.zoom,
{
}

/// Largest handle the registry gives out: handles travel as positive signed
/// 64-bit integers.
pub const MAX_HANDLE: u64 = 0x7fff_ffff_ffff_ffff;

/// Open sessions by handle. Handles start at 1 and only grow, so a released
/// handle is never given to another session.
pub struct SessionRegistry<T> {
    next_id: u64,
    sessions: HashMap<u64, T>,
}

impl<T> SessionRegistry<T> {
    /// The handle the next session will get.
    pub closed spec fn next(&self) -> u64 {
        self.next_id
    }

    /// Open sessions by handle.
    pub closed spec fn entries(&self) -> Map<u64, T> {
        self.sessions@
    }

    /// Every open handle is positive and below the next one.
    pub closed spec fn wf(&self) -> bool {
        &&& self.next_id >= 1
        &&& forall|h: u64| #[trigger] self.sessions@.contains_key(h) ==> 1 <= h < self.next_id
    }

    pub fn new() -> (r: SessionRegistry<T>)
        ensures
            r.wf(),
            r.next() == 1,
            r.entries() == Map::<u64, T>::empty(),
    {
        SessionRegistry { next_id: 1, sessions: HashMap::new() }
    }

    /// Registers `value` under a fresh handle; `None` once handles are exhausted.
    pub fn insert(&mut self, value: T) -> (r: Option<u64>)
        requires
            old(self).wf(),
        ensures
            final(self).wf(),
            old(self).next() > MAX_HANDLE ==> r is None && final(self).entries() == old(self).entries(),
            old(self).next() <= MAX_HANDLE ==> r == Some(old(self).next()),
            r matches Some(h) ==> {
                &&& !old(self).entries().contains_key(h)
                &&& forall|k: u64| old(self).entries().contains_key(k) ==> k < h
                &&& final(self).entries() == old(self).entries().insert(h, value)
                &&& final(self).next() == h + 1
            },
    {
        if self.next_id > MAX_HANDLE {
            return None;
        }
        let id = self.next_id;
        self.sessions.insert(id, value);
        self.next_id = id + 1;
        Some(id)
    }

    /// The session registered under `handle`; non-positive handles are unknown.
    pub fn get(&self, handle: i64) -> (r: Option<&T>)
        requires
            self.wf(),
        ensures
            handle <= 0 ==> r is None,
            handle > 0 ==> match r {
                Some(v) => self.entries().contains_key(handle as u64) && *v == self.entries()[handle as u64],
                None => !self.entries().contains_key(handle as u64),
            },
    {
        if handle <= 0 {
            return None;
        }
        let key: u64 = handle as u64;
        self.sessions.get(&key)
    }

    /// Releases the session registered under `handle`, returning it.
    pub fn remove(&mut self, handle: i64) -> (r: Option<T>)
        requires
            old(self).wf(),
        ensures
            final(self).wf(),
            final(self).next() == old(self).next(),
            handle <= 0 ==> r is None && final(self).entries() == old(self).entries(),
            handle > 0 ==> final(self).entries() == old(self).entries().remove(handle as u64),
            handle > 0 ==> r == (if old(self).entries().contains_key(handle as u64) {
                Some(old(self).entries()[handle as u64])
            } else {
                None
            }),
    {
        if handle <= 0 {
            return None;
        }
        let key: u64 = handle as u64;
        self.sessions.remove(&key)
    }
}

} // verus!
