use vstd::prelude::*;

use crate::points::{Point, PointInt};

verus! {

/// How far the context has been built.
#[derive(Clone, Copy, Debug, PartialEq, Eq, Structural)]
pub enum Stage {
    Base,
    Partial,
    Full,
}

/// Failures of the library's own checks.
#[derive(Clone, Copy, Debug, PartialEq, Eq, Structural)]
pub enum Error {
    /// The compositor reported no output.
    NoOutput,
    /// The output came without its metadata.
    NoOutputInfo,
    /// The output did not report a usable logical size.
    NoOutputLogicalSize,
    /// The captured image is smaller than the output's logical size.
    ImageTooSmall,
}

/// What the compositor reported of the first output: nothing, an output
/// without metadata, or its metadata with the logical size if any.
#[derive(Clone, Copy, Debug, PartialEq, Eq)]
pub enum OutputReport {
    Missing,
    NoInfo,
    Info { logical_size: Option<(i32, i32)> },
}

/// The logical size that the partial stage is built for.
pub open spec fn spec_logical_size(report: OutputReport) -> Result<Point, Error> {
    match report {
        OutputReport::Missing => Err(Error::NoOutput),
        OutputReport::NoInfo => Err(Error::NoOutputInfo),
        OutputReport::Info { logical_size: None } => Err(Error::NoOutputLogicalSize),
        OutputReport::Info { logical_size: Some((w, h)) } => if w <= 0 || h <= 0 {
            Err(Error::NoOutputLogicalSize)
        } else {
            Ok(Point { x: w as u32, y: h as u32 })
        },
    }
}

/// Checks the output before the partial stage is built: there must be an
/// output, with metadata, that reports a positive logical size.
pub fn logical_size_of(report: OutputReport) -> (r: Result<Point, Error>)
    ensures
        r == spec_logical_size(report),
        r matches Ok(p) ==> p.x >= 1 && p.y >= 1,
{
    match report {
        OutputReport::Missing => Err(Error::NoOutput),
        OutputReport::NoInfo => Err(Error::NoOutputInfo),
        OutputReport::Info { logical_size: None } => Err(Error::NoOutputLogicalSize),
        OutputReport::Info { logical_size: Some((w, h)) } => {
            if w <= 0 || h <= 0 {
                Err(Error::NoOutputLogicalSize)
            } else {
                Ok(Point::new(w as PointInt, h as PointInt))
            }
        },
    }
}

/// Bytes of a buffer of four bytes per pixel for a surface of `size`, when
/// that fits in memory.
pub fn buffer_len(size: Point) -> (r: Option<usize>)
    ensures
        r matches Some(n) ==> n == 4 * size.x * size.y,
        r is None ==> 4 * size.x * size.y > usize::MAX,
{
    let w = size.x as u64;
    let h = size.y as u64;
    proof {
        let (x, y) = (size.x as int, size.y as int);
        assert(x * y <= 0xffff_ffff * 0xffff_ffff) by (nonlinear_arith)
            requires
                0 <= x <= 0xffff_ffff,
                0 <= y <= 0xffff_ffff,
        ;
        assert(4 * x * y == 4 * (x * y)) by (nonlinear_arith);
    }
    let n: u64 = w * h;
    if n > (usize::MAX / 4) as u64 {
        None
    } else {
        Some(n as usize * 4)
    }
}

/// The first stage: the registry and the output list.
pub struct WaylandContextBase<B> {
    resources: B,
}

/// A surface size with both sides positive.
struct PositiveSize {
    size: Point,
}

impl PositiveSize {
    #[verifier::type_invariant]
    spec fn positive(&self) -> bool {
        self.size.x >= 1 && self.size.y >= 1
    }
}

/// The second stage: the first plus a shared pixel pool for the output's
/// logical size.
pub struct WaylandContextPartial<B, P> {
    base: WaylandContextBase<B>,
    pool: P,
    logical_size: PositiveSize,
}

/// The last stage: the second plus input devices and the overlay surface.
pub struct WaylandContextFull<B, P, F> {
    partial: WaylandContextPartial<B, P>,
    resources: F,
}

impl<B> WaylandContextBase<B> {
    pub closed spec fn spec_resources(&self) -> B {
        self.resources
    }

    pub fn new(resources: B) -> (r: Self)
        ensures
            r.spec_resources() == resources,
    {
        WaylandContextBase { resources }
    }

    pub fn resources(&self) -> (r: &B)
        ensures
            *r == self.spec_resources(),
    {
        &self.resources
    }

    pub fn resources_mut(&mut self) -> (r: &mut B)
        ensures
            *r == old(self).spec_resources(),
            final(self).spec_resources() == *final(r),
    {
        &mut self.resources
    }

    /// Builds the partial stage on this one, which it consumes.
    pub fn into_partial<P>(self, pool: P, logical_size: Point) -> (r: WaylandContextPartial<B, P>)
        requires
            logical_size.x >= 1,
            logical_size.y >= 1,
        ensures
            r.spec_base() == self,
            r.spec_pool() == pool,
            r.spec_logical_size() == logical_size,
    {
        WaylandContextPartial { base: self, pool, logical_size: PositiveSize { size: logical_size } }
    }
}

impl<B, P> WaylandContextPartial<B, P> {
    pub closed spec fn spec_base(&self) -> WaylandContextBase<B> {
        self.base
    }

    pub closed spec fn spec_pool(&self) -> P {
        self.pool
    }

    pub closed spec fn spec_logical_size(&self) -> Point {
        self.logical_size.size
    }


    pub fn base(&self) -> (r: &WaylandContextBase<B>)
        ensures
            *r == self.spec_base(),
    {
        &self.base
    }

    pub fn base_mut(&mut self) -> (r: &mut WaylandContextBase<B>)
        ensures
            *r == old(self).spec_base(),
            final(self).spec_base() == *final(r),
            final(self).spec_pool() == old(self).spec_pool(),
            final(self).spec_logical_size() == old(self).spec_logical_size(),
    {
        &mut self.base
    }

    pub fn pool(&self) -> (r: &P)
        ensures
            *r == self.spec_pool(),
    {
        &self.pool
    }

    pub fn pool_mut(&mut self) -> (r: &mut P)
        ensures
            *r == old(self).spec_pool(),
            final(self).spec_pool() == *final(r),
            final(self).spec_base() == old(self).spec_base(),
            final(self).spec_logical_size() == old(self).spec_logical_size(),
    {
        &mut self.pool
    }

    pub fn logical_size(&self) -> (r: Point)
        ensures
            r == self.spec_logical_size(),
            r.x >= 1,
            r.y >= 1,
    {
        proof {
            use_type_invariant(&self.logical_size);
        }
        self.logical_size.size
    }

    /// Builds the full stage on this one, which it consumes.
    pub fn into_full<F>(self, resources: F) -> (r: WaylandContextFull<B, P, F>)
        ensures
            r.spec_partial() == self,
            r.spec_resources() == resources,
    {
        WaylandContextFull { partial: self, resources }
    }
}

impl<B, P, F> WaylandContextFull<B, P, F> {
    pub closed spec fn spec_partial(&self) -> WaylandContextPartial<B, P> {
        self.partial
    }

    pub closed spec fn spec_resources(&self) -> F {
        self.resources
    }

    pub fn partial(&self) -> (r: &WaylandContextPartial<B, P>)
        ensures
            *r == self.spec_partial(),
    {
        &self.partial
    }

    pub fn partial_mut(&mut self) -> (r: &mut WaylandContextPartial<B, P>)
        ensures
            *r == old(self).spec_partial(),
            final(self).spec_partial() == *final(r),
            final(self).spec_resources() == old(self).spec_resources(),
    {
        &mut self.partial
    }

    pub fn resources(&self) -> (r: &F)
        ensures
            *r == self.spec_resources(),
    {
        &self.resources
    }

    pub fn resources_mut(&mut self) -> (r: &mut F)
        ensures
            *r == old(self).spec_resources(),
            final(self).spec_resources() == *final(r),
            final(self).spec_partial() == old(self).spec_partial(),
    {
        &mut self.resources
    }
}

/// The context at whatever stage it has reached.
pub enum WaylandContext<B, P, F> {
    Base(WaylandContextBase<B>),
    Partial(WaylandContextPartial<B, P>),
    Full(WaylandContextFull<B, P, F>),
}

impl<B, P, F> WaylandContext<B, P, F> {
    pub open spec fn spec_stage(&self) -> Stage {
        match self {
            WaylandContext::Base(_) => Stage::Base,
            WaylandContext::Partial(_) => Stage::Partial,
            WaylandContext::Full(_) => Stage::Full,
        }
    }

    /// The base stage's part of the context, at any stage.
    pub open spec fn spec_base(&self) -> WaylandContextBase<B> {
        match self {
            WaylandContext::Base(b) => *b,
            WaylandContext::Partial(p) => p.spec_base(),
            WaylandContext::Full(f) => f.spec_partial().spec_base(),
        }
    }

    /// The partial stage's part of the context, once it is reached.
    pub open spec fn spec_partial(&self) -> Option<WaylandContextPartial<B, P>> {
        match self {
            WaylandContext::Base(_) => None,
            WaylandContext::Partial(p) => Some(*p),
            WaylandContext::Full(f) => Some(f.spec_partial()),
        }
    }

    pub fn new(resources: B) -> (r: Self)
        ensures
            r.spec_stage() == Stage::Base,
            r.spec_base().spec_resources() == resources,
    {
        WaylandContext::Base(WaylandContextBase::new(resources))
    }

    pub fn stage(&self) -> (r: Stage)
        ensures
            r == self.spec_stage(),
    {
        match self {
            WaylandContext::Base(_) => Stage::Base,
            WaylandContext::Partial(_) => Stage::Partial,
            WaylandContext::Full(_) => Stage::Full,
        }
    }

    pub fn base(&self) -> (r: &WaylandContextBase<B>)
        ensures
            *r == self.spec_base(),
    {
        match self {
            WaylandContext::Base(v) => v,
            WaylandContext::Partial(v) => v.base(),
            WaylandContext::Full(v) => v.partial().base(),
        }
    }

    pub fn base_mut(&mut self) -> (r: &mut WaylandContextBase<B>)
        ensures
            *r == old(self).spec_base(),
            final(self).spec_base() == *final(r),
            final(self).spec_stage() == old(self).spec_stage(),
    {
        match self {
            WaylandContext::Base(v) => v,
            WaylandContext::Partial(v) => v.base_mut(),
            WaylandContext::Full(v) => v.partial_mut().base_mut(),
        }
    }

    /// The partial stage's part, or [`None`] before that stage.
    pub fn partial(&self) -> (r: Option<&WaylandContextPartial<B, P>>)
        ensures
            r matches Some(p) ==> self.spec_partial() == Some(*p),
            r is None <==> self.spec_stage() == Stage::Base,
    {
        match self {
            WaylandContext::Base(_) => None,
            WaylandContext::Partial(v) => Some(v),
            WaylandContext::Full(v) => Some(v.partial()),
        }
    }

    /// The partial stage's part, or [`None`] before that stage.
    pub fn partial_mut(&mut self) -> (r: Option<&mut WaylandContextPartial<B, P>>)
        ensures
            r is None <==> old(self).spec_stage() == Stage::Base,
            r is None ==> *final(self) == *old(self),
            r matches Some(p) ==> {
                &&& old(self).spec_partial() == Some(*p)
                &&& final(self).spec_partial() == Some(*final(p))
                &&& final(self).spec_stage() == old(self).spec_stage()
            },
    {
        match self {
            WaylandContext::Base(_) => None,
            WaylandContext::Partial(v) => Some(v),
            WaylandContext::Full(v) => Some(v.partial_mut()),
        }
    }

    /// The full context, or [`None`] before that stage.
    pub fn full(&self) -> (r: Option<&WaylandContextFull<B, P, F>>)
        ensures
            r matches Some(f) ==> *self == WaylandContext::<B, P, F>::Full(*f),
            r is None <==> self.spec_stage() != Stage::Full,
    {
        match self {
            WaylandContext::Full(v) => Some(v),
            _ => None,
        }
    }

    /// The full context, or [`None`] before that stage.
    pub fn full_mut(&mut self) -> (r: Option<&mut WaylandContextFull<B, P, F>>)
        ensures
            r is None <==> old(self).spec_stage() != Stage::Full,
            r is None ==> *final(self) == *old(self),
            r matches Some(f) ==> *old(self) == WaylandContext::<B, P, F>::Full(*f) && *final(self)
                == WaylandContext::<B, P, F>::Full(*final(f)),
    {
        match self {
            WaylandContext::Full(v) => Some(v),
            _ => None,
        }
    }

    /// The output's logical size, once the partial stage is reached.
    pub fn logical_size(&self) -> (r: Option<Point>)
        ensures
            r matches Some(p) ==> self.spec_partial() matches Some(q) && p == q.spec_logical_size() && p.x
                >= 1 && p.y >= 1,
            r is None <==> self.spec_stage() == Stage::Base,
    {
        match self.partial() {
            Some(p) => Some(p.logical_size()),
            None => None,
        }
    }

    /// Moves the base stage on to the partial one. Advancing any other
    /// stage is a programming error.
    pub fn advance_to_partial(self, pool: P, logical_size: Point) -> (r: Self)
        requires
            self.spec_stage() == Stage::Base,
            logical_size.x >= 1,
            logical_size.y >= 1,
        ensures
            r.spec_stage() == Stage::Partial,
            r.spec_base() == self.spec_base(),
            r.spec_partial() matches Some(p) && p.spec_pool() == pool && p.spec_logical_size() == logical_size,
    {
        match self {
            WaylandContext::Base(b) => WaylandContext::Partial(b.into_partial(pool, logical_size)),
            _ => self,
        }
    }

    /// Moves the partial stage on to the full one. Advancing any other
    /// stage is a programming error.
    pub fn advance_to_full(self, resources: F) -> (r: Self)
        requires
            self.spec_stage() == Stage::Partial,
        ensures
            r.spec_stage() == Stage::Full,
            r.spec_partial() == self.spec_partial(),
            r matches WaylandContext::Full(f) && f.spec_resources() == resources,
    {
        match self {
            WaylandContext::Partial(p) => WaylandContext::Full(p.into_full(resources)),
            _ => self,
        }
    }
}

} // verus!
