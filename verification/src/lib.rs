//! A minimal desktop windowing core: geometry primitives, a recursive
//! region-partitioning scheme, a bounds-checked pixel surface, and an
//! event-dispatch state machine, all with verified contracts.
//!
//! The platform backend (native window creation, message pump, presentation)
//! is an external collaborator: the embedding shell drives the event loop and
//! reports client sizes, while everything that decides or computes lives here.

use vstd::prelude::*;

pub mod guicell;
pub mod keys;
pub mod util;
pub mod window;

verus! {

use crate::keys::Key;

/// Token restricting event injection to the dispatch path: only this crate
/// can mint one, so arbitrary callers cannot feed synthetic events directly
/// to `Window::handle_event`.
pub struct Internal {
    pub(crate) seal: (),
}

/// The axis along which a partition splits a region: horizontal splits divide
/// the width, vertical splits divide the height.
#[derive(Clone, Copy, Debug, PartialEq, Eq, Structural)]
pub enum Direction {
    Horizontal,
    Vertical,
}

/// A split position: either an absolute pixel count along the split axis, or
/// a fraction of the axis extent given as an exact ratio `numerator /
/// denominator` (the split point is `extent * numerator / denominator`,
/// rounded down).
#[derive(Clone, Copy, Debug, PartialEq, Eq, Structural)]
pub enum Distance {
    Pixels(usize),
    Relative(usize, usize),
}

/// Why a requested partition was rejected.
#[derive(Clone, Copy, Debug, PartialEq, Eq, Structural)]
pub enum PartitionError {
    /// A `Pixels` distance exceeded the extent along the split axis.
    OutOfRange,
    /// A `Relative` ratio had a zero denominator or exceeded one.
    BadRatio,
}

/// The fixed, portable event taxonomy delivered to window event handling.
/// A user-defined-event variant carrying a caller payload is an anticipated
/// extension point, not part of the present taxonomy.
#[derive(Clone, Copy, Debug, PartialEq, Eq, Structural)]
pub enum CommonEvent {
    Close,
    Draw,
    KeyDown(Key),
    KeyUp(Key),
    Maximize,
    Minimize,
    MouseMove,
    Resize,
    QueryByCursor,
    SetCursor,
    Shutdown,
}

/// A 4-channel color value, bit-for-bit convertible to and from a packed
/// 32-bit integer (alpha in the low byte, blue in the high byte).
#[derive(Clone, Copy, Debug, PartialEq, Eq, Structural)]
pub struct Pixel {
    pub a: u8,
    pub r: u8,
    pub g: u8,
    pub b: u8,
}

impl Pixel {
    /// The all-zero pixel, returned by out-of-domain reads.
    pub open spec fn zero() -> Pixel {
        Pixel { a: 0, r: 0, g: 0, b: 0 }
    }

    /// The packed 32-bit form of a pixel.
    pub open spec fn packed(self) -> u32 {
        (self.a as u32) | ((self.r as u32) << 8) | ((self.g as u32) << 16) | ((self.b as u32)
            << 24)
    }

    /// The pixel unpacked from a 32-bit value.
    pub open spec fn unpacked(v: u32) -> Pixel {
        Pixel {
            a: (v & 0xFF) as u8,
            r: ((v >> 8) & 0xFF) as u8,
            g: ((v >> 16) & 0xFF) as u8,
            b: ((v >> 24) & 0xFF) as u8,
        }
    }
}

impl Default for Pixel {
    fn default() -> (r: Self)
        ensures
            r == Pixel::zero(),
    {
        Pixel { a: 0, r: 0, g: 0, b: 0 }
    }
}

impl From<u32> for Pixel {
    fn from(v: u32) -> (r: Self) {
        Pixel {
            a: (v & 0xFF) as u8,
            r: ((v >> 8) & 0xFF) as u8,
            g: ((v >> 16) & 0xFF) as u8,
            b: ((v >> 24) & 0xFF) as u8,
        }
    }
}

impl vstd::std_specs::convert::FromSpecImpl<u32> for Pixel {
    open spec fn obeys_from_spec() -> bool {
        true
    }

    open spec fn from_spec(v: u32) -> Pixel {
        Pixel::unpacked(v)
    }
}

impl From<Pixel> for u32 {
    fn from(p: Pixel) -> (r: Self) {
        (p.a as u32) | ((p.r as u32) << 8) | ((p.g as u32) << 16) | ((p.b as u32) << 24)
    }
}

impl vstd::std_specs::convert::FromSpecImpl<Pixel> for u32 {
    open spec fn obeys_from_spec() -> bool {
        true
    }

    open spec fn from_spec(p: Pixel) -> u32 {
        p.packed()
    }
}

/// A 2D pixel coordinate.
#[derive(Clone, Copy, Debug, Default, PartialEq, Eq, Structural)]
pub struct PixelIdx {
    pub x: usize,
    pub y: usize,
}

impl PixelIdx {
    pub fn new(x: usize, y: usize) -> (r: Self)
        ensures
            r == (PixelIdx { x, y }),
    {
        Self { x, y }
    }

    /// Componentwise translation.
    pub fn translate(self, by: PixelIdx) -> (r: Self)
        requires
            self.x + by.x <= usize::MAX,
            self.y + by.y <= usize::MAX,
        ensures
            r == (PixelIdx { x: (self.x + by.x) as usize, y: (self.y + by.y) as usize }),
    {
        PixelIdx { x: self.x + by.x, y: self.y + by.y }
    }
}

/// A width/height pair. Its own struct so that row/column and width/height
/// orderings cannot be confused; zero is a valid sentinel meaning "no
/// buffer".
#[derive(Clone, Copy, Debug, Default, PartialEq, Eq, Structural)]
pub struct Size {
    pub width: usize,
    pub height: usize,
}

impl Size {
    pub fn width(&self) -> (r: usize)
        ensures
            r == self.width,
    {
        self.width
    }

    pub fn height(&self) -> (r: usize)
        ensures
            r == self.height,
    {
        self.height
    }

    pub fn rows(&self) -> (r: usize)
        ensures
            r == self.height,
    {
        self.height
    }

    pub fn cols(&self) -> (r: usize)
        ensures
            r == self.width,
    {
        self.width
    }

    pub fn set_width(&mut self, value: usize)
        ensures
            *final(self) == (Size { width: value, ..*old(self) }),
    {
        self.width = value;
    }

    pub fn set_height(&mut self, value: usize)
        ensures
            *final(self) == (Size { height: value, ..*old(self) }),
    {
        self.height = value;
    }

    pub fn set_rows(&mut self, value: usize)
        ensures
            *final(self) == (Size { height: value, ..*old(self) }),
    {
        self.height = value;
    }

    pub fn set_cols(&mut self, value: usize)
        ensures
            *final(self) == (Size { width: value, ..*old(self) }),
    {
        self.width = value;
    }

    /// The number of pixels a buffer of this size holds.
    pub open spec fn area(self) -> int {
        self.width * self.height
    }
}

/// An axis-aligned half-open rectangle `[offset, offset + size)` of pixel
/// coordinates.
#[derive(Clone, Copy, Debug, Default, PartialEq, Eq, Structural)]
pub struct PixelIndexSlice {
    pub offset: PixelIdx,
    pub size: Size,
}

/// Whether the point `(x, y)` lies inside the rectangle `r`.
pub open spec fn contains_point(r: PixelIndexSlice, x: int, y: int) -> bool {
    &&& r.offset.x <= x < r.offset.x + r.size.width
    &&& r.offset.y <= y < r.offset.y + r.size.height
}

/// Whether a rectangle's far corner stays within machine limits, so that
/// `offset + size` can be computed without overflow.
pub open spec fn region_bounded(r: PixelIndexSlice) -> bool {
    &&& r.offset.x + r.size.width <= usize::MAX
    &&& r.offset.y + r.size.height <= usize::MAX
}

impl PixelIndexSlice {
    pub fn size(&self) -> (r: Size)
        ensures
            r == self.size,
    {
        self.size
    }

    /// The sole containment predicate used wherever bounds must be checked.
    pub fn contains(&self, idx: PixelIdx) -> (r: bool)
        ensures
            r == contains_point(*self, idx.x as int, idx.y as int),
    {
        idx.x >= self.offset.x && idx.y >= self.offset.y && idx.x - self.offset.x
            < self.size.width && idx.y - self.offset.y < self.size.height
    }
}

/// The extent of `s` along the split axis of `dir`.
pub open spec fn extent(s: Size, dir: Direction) -> int {
    match dir {
        Direction::Horizontal => s.width as int,
        Direction::Vertical => s.height as int,
    }
}

/// The extent of `s` across the split axis of `dir` (the other axis).
pub open spec fn cross_extent(s: Size, dir: Direction) -> int {
    match dir {
        Direction::Horizontal => s.height as int,
        Direction::Vertical => s.width as int,
    }
}

/// Whether a distance names a valid split of an axis of extent `ext`.
pub open spec fn distance_ok(dst: Distance, ext: int) -> bool {
    match dst {
        Distance::Pixels(n) => n <= ext,
        Distance::Relative(num, den) => den > 0 && num <= den,
    }
}

/// The absolute split point a distance resolves to along an axis of extent
/// `ext`: a pixel count is used directly, a ratio is `ext * num / den`
/// rounded down.
pub open spec fn resolve_distance(dst: Distance, ext: int) -> int {
    match dst {
        Distance::Pixels(n) => n as int,
        Distance::Relative(num, den) => ext * num / (den as int),
    }
}

/// The near child (left or top) of splitting `r` at `n` along `dir`.
pub open spec fn near_region(r: PixelIndexSlice, dir: Direction, n: usize) -> PixelIndexSlice {
    match dir {
        Direction::Horizontal => PixelIndexSlice {
            offset: r.offset,
            size: Size { width: n, height: r.size.height },
        },
        Direction::Vertical => PixelIndexSlice {
            offset: r.offset,
            size: Size { width: r.size.width, height: n },
        },
    }
}

/// The far child (right or bottom) of splitting `r` at `n` along `dir`.
pub open spec fn far_region(r: PixelIndexSlice, dir: Direction, n: usize) -> PixelIndexSlice {
    match dir {
        Direction::Horizontal => PixelIndexSlice {
            offset: PixelIdx { x: (r.offset.x + n) as usize, y: r.offset.y },
            size: Size { width: (r.size.width - n) as usize, height: r.size.height },
        },
        Direction::Vertical => PixelIndexSlice {
            offset: PixelIdx { x: r.offset.x, y: (r.offset.y + n) as usize },
            size: Size { width: r.size.width, height: (r.size.height - n) as usize },
        },
    }
}

/// The result of splitting a partitionable region in two along an axis: the
/// two children (ordered near then far: left/right or top/bottom), the split
/// axis, and the distance that was used.
#[derive(Debug)]
pub struct Partition<T: Partitionable> {
    pub children: (T, T),
    pub direction: Direction,
    pub distance: Distance,
}

/// Any region that can be split into two complementary sub-regions along an
/// axis.
pub trait Partitionable: Sized {
    /// The rectangle this value occupies.
    spec fn region(&self) -> PixelIndexSlice;

    /// The same value, occupying a different rectangle.
    spec fn with_region(&self, r: PixelIndexSlice) -> Self;

    /// Splits the region at `dst` along `dir`. Out-of-range distances are
    /// rejected rather than wrapped: a pixel count past the extent, or a
    /// ratio above one, yields an error.
    fn partition(&self, dir: Direction, dst: Distance) -> (result: Result<
        Partition<Self>,
        PartitionError,
    >)
        requires
            region_bounded(self.region()),
        ensures
            result is Ok <==> distance_ok(dst, extent(self.region().size, dir)),
            result matches Err(e) ==> e == (match dst {
                Distance::Pixels(_) => PartitionError::OutOfRange,
                Distance::Relative(_, _) => PartitionError::BadRatio,
            }),
            result matches Ok(p) ==> {
                let n = resolve_distance(dst, extent(self.region().size, dir));
                &&& p.direction == dir
                &&& p.distance == dst
                &&& p.children.0 == self.with_region(near_region(self.region(), dir, n as usize))
                &&& p.children.1 == self.with_region(far_region(self.region(), dir, n as usize))
            },
    ;
}

/// A ratio split point never exceeds the extent: `0 <= ext * num / den <=
/// ext` whenever `0 < den` and `num <= den`.
pub proof fn lemma_ratio_bounded(ext: int, num: int, den: int)
    requires
        0 <= ext,
        0 < den,
        0 <= num <= den,
    ensures
        0 <= ext * num / den <= ext,
{
    vstd::arithmetic::mul::lemma_mul_inequality(num, den, ext);
    vstd::arithmetic::mul::lemma_mul_is_commutative(ext, num);
    vstd::arithmetic::mul::lemma_mul_is_commutative(ext, den);
    vstd::arithmetic::div_mod::lemma_div_is_ordered(ext * num, ext * den, den);
    vstd::arithmetic::div_mod::lemma_div_by_multiple(ext, den);
    vstd::arithmetic::div_mod::lemma_div_is_ordered(0, ext * num, den);
    vstd::arithmetic::mul::lemma_mul_nonnegative(ext, num);
}

impl Partitionable for PixelIndexSlice {
    open spec fn region(&self) -> PixelIndexSlice {
        *self
    }

    open spec fn with_region(&self, r: PixelIndexSlice) -> Self {
        r
    }

    fn partition(&self, dir: Direction, dst: Distance) -> (result: Result<
        Partition<Self>,
        PartitionError,
    >) {
        let ext: usize = match dir {
            Direction::Horizontal => self.size.width,
            Direction::Vertical => self.size.height,
        };
        let n: usize = match dst {
            Distance::Pixels(px) => {
                if px > ext {
                    return Err(PartitionError::OutOfRange);
                }
                px
            },
            Distance::Relative(num, den) => {
                if den == 0 || num > den {
                    return Err(PartitionError::BadRatio);
                }
                proof {
                    lemma_ratio_bounded(ext as int, num as int, den as int);
                    assert((ext as int) * (num as int) <= u128::MAX) by (nonlinear_arith)
                        requires
                            0 <= ext as int <= 0xFFFF_FFFF_FFFF_FFFFu64,
                            0 <= num as int <= 0xFFFF_FFFF_FFFF_FFFFu64,
                    ;
                }
                ((ext as u128 * num as u128) / den as u128) as usize
            },
        };
        let children = match dir {
            Direction::Horizontal => (
                Self { offset: self.offset, size: Size { width: n, height: self.size.height } },
                Self {
                    offset: PixelIdx { x: self.offset.x + n, y: self.offset.y },
                    size: Size { width: self.size.width - n, height: self.size.height },
                },
            ),
            Direction::Vertical => (
                Self { offset: self.offset, size: Size { width: self.size.width, height: n } },
                Self {
                    offset: PixelIdx { x: self.offset.x, y: self.offset.y + n },
                    size: Size { width: self.size.width, height: self.size.height - n },
                },
            ),
        };
        Ok(Partition { children, direction: dir, distance: dst })
    }
}

/// The children of a split exactly tile the parent: along the split axis
/// their extents sum to the parent's with no gap or overlap, across it both
/// keep the parent's extent, and every point of the parent lies in exactly
/// one child.
pub proof fn lemma_partition_tiles(r: PixelIndexSlice, dir: Direction, n: usize)
    requires
        region_bounded(r),
        n <= extent(r.size, dir),
    ensures
        ({
            let a = near_region(r, dir, n);
            let b = far_region(r, dir, n);
            &&& extent(a.size, dir) + extent(b.size, dir) == extent(r.size, dir)
            &&& cross_extent(a.size, dir) == cross_extent(r.size, dir)
            &&& cross_extent(b.size, dir) == cross_extent(r.size, dir)
            &&& forall|x: int, y: int|
                contains_point(r, x, y) <==> (contains_point(a, x, y) || contains_point(b, x, y))
            &&& forall|x: int, y: int| !(contains_point(a, x, y) && contains_point(b, x, y))
        }),
{
}

/// A relative distance behaves exactly like the pixel distance it resolves
/// to: for `0 < den` and `num <= den`, splitting at `Relative(num, den)`
/// resolves to `extent * num / den`, a valid in-range pixel count giving the
/// same children as `Pixels` of that value.
pub proof fn lemma_relative_matches_pixels(r: PixelIndexSlice, dir: Direction, num: usize, den: usize)
    requires
        0 < den,
        num <= den,
    ensures
        ({
            let ext = extent(r.size, dir);
            let n = resolve_distance(Distance::Relative(num, den), ext);
            &&& 0 <= n <= ext
            &&& distance_ok(Distance::Pixels(n as usize), ext)
            &&& resolve_distance(Distance::Pixels(n as usize), ext) == n
        }),
{
    let ext = extent(r.size, dir);
    lemma_ratio_bounded(ext, num as int, den as int);
}

} // verus!
