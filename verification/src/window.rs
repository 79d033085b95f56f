//! The window core: the bounds-checked surface view, the buffer-owning
//! surface, and the window lifecycle with its event-dispatch state machine.
//!
//! The platform backend is an external collaborator: the embedding shell
//! creates the native window, polls its message queue, reports client sizes
//! through `Window::report_client_size`, hands translated events to
//! `Window::handle_events`, and presents the pixel buffer when a frame was
//! committed. Everything that decides or computes is verified here.

use vstd::prelude::*;

verus! {

use crate::guicell::GuiCell;
use crate::{
    contains_point, extent, far_region, near_region, CommonEvent, Direction, Distance, Internal,
    Partition, PartitionError, Partitionable, Pixel, PixelIdx, PixelIndexSlice, Size,
};
use vstd::string::StringExecFns;

/// A non-owning, bounds-checked rectangular view into a pixel buffer: the
/// rectangle it may touch (`domain`, in absolute buffer coordinates) and the
/// full size of the buffer it indexes into. The buffer itself is passed to
/// each access, scoped to a borrow of its owner, so a view can never outlive
/// or dangle into a reallocated buffer.
#[derive(Clone, Copy, Debug, PartialEq, Eq, Structural)]
pub struct SurfaceSlice {
    pub domain: PixelIndexSlice,
    pub root_size: Size,
}

/// The full-area view of a buffer of the given size.
pub open spec fn full_slice(size: Size) -> SurfaceSlice {
    SurfaceSlice {
        domain: PixelIndexSlice { offset: PixelIdx { x: 0, y: 0 }, size },
        root_size: size,
    }
}

/// The row-major position of the absolute coordinate `(x, y)` in a buffer
/// `s` indexes into.
pub open spec fn linear_index(s: SurfaceSlice, x: int, y: int) -> int {
    y * s.root_size.width + x
}

/// What a read through the view yields: the translated coordinate's pixel if
/// it falls inside the view's domain, the zero pixel otherwise.
pub open spec fn slice_read(s: SurfaceSlice, buf: Seq<Pixel>, idx: PixelIdx) -> Pixel {
    let ax = s.domain.offset.x + idx.x;
    let ay = s.domain.offset.y + idx.y;
    if contains_point(s.domain, ax, ay) {
        buf[linear_index(s, ax, ay)]
    } else {
        Pixel::zero()
    }
}

/// What the buffer holds after a write through the view: updated at the
/// translated coordinate if it falls inside the view's domain, unchanged
/// otherwise.
pub open spec fn slice_write(s: SurfaceSlice, buf: Seq<Pixel>, idx: PixelIdx, p: Pixel) -> Seq<
    Pixel,
> {
    let ax = s.domain.offset.x + idx.x;
    let ay = s.domain.offset.y + idx.y;
    if contains_point(s.domain, ax, ay) {
        buf.update(linear_index(s, ax, ay), p)
    } else {
        buf
    }
}

/// Whether buffer position `i` lies inside the view's domain.
pub open spec fn covers_index(s: SurfaceSlice, i: int) -> bool {
    let w = s.root_size.width as int;
    w > 0 && contains_point(s.domain, i % w, i / w)
}

/// A row-major position is in bounds whenever its coordinate is.
pub proof fn lemma_linear_index_bounds(w: int, h: int, x: int, y: int)
    requires
        0 <= x < w,
        0 <= y < h,
    ensures
        0 <= y * w + x < w * h,
{
    assert(0 <= y * w + x < w * h) by (nonlinear_arith)
        requires
            0 <= x < w,
            0 <= y < h,
    ;
}

impl SurfaceSlice {
    /// The view's domain never reaches past the buffer it indexes into.
    pub open spec fn wf(&self) -> bool {
        &&& self.domain.offset.x + self.domain.size.width <= self.root_size.width
        &&& self.domain.offset.y + self.domain.size.height <= self.root_size.height
    }

    /// The full-area view of a buffer of the given size.
    pub fn new(size: Size) -> (r: Self)
        ensures
            r == full_slice(size),
            r.wf(),
    {
        Self {
            domain: PixelIndexSlice { offset: PixelIdx { x: 0, y: 0 }, size },
            root_size: size,
        }
    }

    pub fn size(&self) -> (r: Size)
        ensures
            r == self.domain.size,
    {
        self.domain.size
    }

    /// Reads the pixel at `idx`, relative to the view's own origin; any
    /// coordinate outside the view's domain reads as the zero pixel.
    pub fn get_pixel(&self, buffer: &Vec<Pixel>, idx: PixelIdx) -> (r: Pixel)
        requires
            self.wf(),
            buffer@.len() == self.root_size.area(),
        ensures
            r == slice_read(*self, buffer@, idx),
    {
        if idx.x < self.domain.size.width && idx.y < self.domain.size.height {
            let ax = self.domain.offset.x + idx.x;
            let ay = self.domain.offset.y + idx.y;
            // the call's length bound keeps the index arithmetic in machine range
            let len = buffer.len();
            proof {
                lemma_linear_index_bounds(
                    self.root_size.width as int,
                    self.root_size.height as int,
                    ax as int,
                    ay as int,
                );
            }
            buffer[ay * self.root_size.width + ax]
        } else {
            Pixel { a: 0, r: 0, g: 0, b: 0 }
        }
    }

    /// Writes the pixel at `idx`, relative to the view's own origin; any
    /// coordinate outside the view's domain makes the call a silent no-op.
    pub fn set_pixel(&self, buffer: &mut Vec<Pixel>, idx: PixelIdx, pixel: Pixel)
        requires
            self.wf(),
            old(buffer)@.len() == self.root_size.area(),
        ensures
            final(buffer)@ == slice_write(*self, old(buffer)@, idx, pixel),
            final(buffer)@.len() == old(buffer)@.len(),
    {
        if idx.x < self.domain.size.width && idx.y < self.domain.size.height {
            let ax = self.domain.offset.x + idx.x;
            let ay = self.domain.offset.y + idx.y;
            // the call's length bound keeps the index arithmetic in machine range
            let len = buffer.len();
            proof {
                lemma_linear_index_bounds(
                    self.root_size.width as int,
                    self.root_size.height as int,
                    ax as int,
                    ay as int,
                );
            }
            buffer[ay * self.root_size.width + ax] = pixel;
        }
    }
}

impl Partitionable for SurfaceSlice {
    open spec fn region(&self) -> PixelIndexSlice {
        self.domain
    }

    open spec fn with_region(&self, r: PixelIndexSlice) -> Self {
        SurfaceSlice { domain: r, root_size: self.root_size }
    }

    fn partition(&self, dir: Direction, dst: Distance) -> (result: Result<
        Partition<Self>,
        PartitionError,
    >) {
        match self.domain.partition(dir, dst) {
            Ok(p) => Ok(
                Partition {
                    children: (
                        Self { domain: p.children.0, root_size: self.root_size },
                        Self { domain: p.children.1, root_size: self.root_size },
                    ),
                    direction: p.direction,
                    distance: p.distance,
                },
            ),
            Err(e) => Err(e),
        }
    }
}

/// Splitting a well-formed view yields two well-formed views: both children
/// of a partition stay within the same buffer bounds as their parent.
pub proof fn lemma_partition_children_wf(s: SurfaceSlice, dir: Direction, n: usize)
    requires
        s.wf(),
        n <= extent(s.domain.size, dir),
    ensures
        s.with_region(near_region(s.domain, dir, n)).wf(),
        s.with_region(far_region(s.domain, dir, n)).wf(),
{
}

/// The native message codes of the reference backend that the core reacts
/// to; every other code is left to the platform's default handling.
pub const MSG_DESTROY: u32 = 0x0002;

pub const MSG_SIZE: u32 = 0x0005;

pub const MSG_PAINT: u32 = 0x000F;

pub const MSG_CLOSE: u32 = 0x0010;

/// The fixed translation table from native message codes to the portable
/// event taxonomy.
pub open spec fn translated(msg: u32) -> Option<CommonEvent> {
    if msg == MSG_DESTROY {
        Some(CommonEvent::Shutdown)
    } else if msg == MSG_CLOSE {
        Some(CommonEvent::Close)
    } else if msg == MSG_PAINT {
        Some(CommonEvent::Draw)
    } else if msg == MSG_SIZE {
        Some(CommonEvent::Resize)
    } else {
        None
    }
}

/// Maps a native message code to its portable event; codes the core does
/// not recognize yield nothing and stay with the platform's default
/// handling.
pub fn translate_message(msg: u32) -> (r: Option<CommonEvent>)
    ensures
        r == translated(msg),
{
    if msg == MSG_DESTROY {
        Some(CommonEvent::Shutdown)
    } else if msg == MSG_CLOSE {
        Some(CommonEvent::Close)
    } else if msg == MSG_PAINT {
        Some(CommonEvent::Draw)
    } else if msg == MSG_SIZE {
        Some(CommonEvent::Resize)
    } else {
        None
    }
}

/// Why a surface operation failed.
#[derive(Clone, Copy, Debug, PartialEq, Eq, Structural)]
pub enum SurfaceError {
    /// The backing store for the requested size cannot be addressed: its
    /// pixel count does not fit the machine word.
    AllocationFailed,
}

/// The portable record of a live native window: the client-area size as
/// last reported by the backend shell. The shell owns the real platform
/// handle, keyed to this window, and keeps the size current through
/// `Window::report_client_size`.
#[derive(Clone, Copy, Debug, PartialEq, Eq, Structural)]
pub struct WinHandle {
    pub client: Size,
}

impl WinHandle {
    pub fn new(size: Size) -> (r: Self)
        ensures
            r == (WinHandle { client: size }),
    {
        WinHandle { client: size }
    }

    /// The current client-area size.
    pub fn size(&self) -> (r: Size)
        ensures
            r == self.client,
    {
        self.client
    }

    pub fn width(&self) -> (r: usize)
        ensures
            r == self.client.width,
    {
        self.client.width
    }

    pub fn height(&self) -> (r: usize)
        ensures
            r == self.client.height,
    {
        self.client.height
    }
}

/// A buffer of `n` zero pixels.
pub open spec fn zero_buffer(n: int) -> Seq<Pixel> {
    Seq::new(n as nat, |i: int| Pixel::zero())
}

/// Builds a zeroed pixel buffer of length `n`.
fn zeroed_pixels(n: usize) -> (v: Vec<Pixel>)
    ensures
        v@ == zero_buffer(n as int),
{
    let mut v: Vec<Pixel> = Vec::new();
    let mut i: usize = 0;
    while i < n
        invariant
            i <= n,
            v@.len() == i,
            forall|k: int| 0 <= k < i ==> v@[k] == Pixel::zero(),
        decreases n - i,
    {
        v.push(Pixel { a: 0, r: 0, g: 0, b: 0 });
        i += 1;
    }
    proof {
        assert(v@ =~= zero_buffer(n as int));
    }
    v
}

/// The backing store of a surface: the one live pixel buffer.
pub struct InternalSurfaceData {
    pub data: Vec<Pixel>,
}

impl InternalSurfaceData {
    /// Allocates a zeroed backing store sized to the handle's client area.
    /// Fails exactly when that area's pixel count does not fit the machine
    /// word.
    pub fn new(handle: Option<&WinHandle>) -> (r: Result<(Self, Size), SurfaceError>)
        requires
            handle is Some,
        ensures
            r is Ok <==> (handle->0.client.area() <= usize::MAX),
            r matches Ok((d, size)) ==> {
                &&& size == handle->0.client
                &&& d.data@ == zero_buffer(size.area())
            },
    {
        let size = match handle {
            Some(h) => h.size(),
            None => vstd::pervasive::unreached(),
        };
        match size.width.checked_mul(size.height) {
            Some(n) => Ok((Self { data: zeroed_pixels(n) }, size)),
            None => Err(SurfaceError::AllocationFailed),
        }
    }
}

/// The abstract state of a surface: its pixels, its cached size, and
/// whether a committed frame awaits presentation by the shell.
pub struct SurfaceView {
    pub pixels: Seq<Pixel>,
    pub size: Size,
    pub pending: bool,
}

/// A surface is consistent when it holds exactly one pixel per cell of its
/// cached size.
pub open spec fn surface_inv(v: SurfaceView) -> bool {
    v.pixels.len() == v.size.area()
}

/// The state a fresh allocation leaves a surface in: a zeroed buffer of the
/// requested size, or — when that size cannot be addressed — the released,
/// zero-sized fallback, which keeps the surface safely undrawable until the
/// next successful reallocation.
pub open spec fn alloc_view(new: Size, pending: bool) -> SurfaceView {
    if new.area() <= usize::MAX {
        SurfaceView { pixels: zero_buffer(new.area()), size: new, pending }
    } else {
        SurfaceView { pixels: Seq::empty(), size: Size { width: 0, height: 0 }, pending }
    }
}

/// The state reconciling a surface against a reported size: untouched when
/// the cached size already matches, freshly reallocated otherwise.
pub open spec fn resize_step(v: SurfaceView, new: Size) -> SurfaceView {
    if v.size == new {
        v
    } else {
        alloc_view(new, v.pending)
    }
}

/// The owned, backend-backed pixel store for one window: exactly one live
/// buffer at a time, reallocated whenever the reported client size changes,
/// committed to the shell for presentation.
pub struct Surface {
    internal: InternalSurfaceData,
    size: Size,
    pending: bool,
}

impl View for Surface {
    type V = SurfaceView;

    closed spec fn view(&self) -> SurfaceView {
        SurfaceView { pixels: self.internal.data@, size: self.size, pending: self.pending }
    }
}

impl Surface {
    pub open spec fn wf(&self) -> bool {
        surface_inv(self@)
    }

    /// A surface for the given live handle, zeroed at its client size.
    pub fn new(handle: Option<&WinHandle>) -> (r: Result<Self, SurfaceError>)
        requires
            handle is Some,
        ensures
            r is Ok <==> (handle->0.client.area() <= usize::MAX),
            r matches Ok(s) ==> {
                &&& s@ == (SurfaceView {
                    pixels: zero_buffer(handle->0.client.area()),
                    size: handle->0.client,
                    pending: false,
                })
                &&& s.wf()
            },
    {
        match InternalSurfaceData::new(handle) {
            Ok((internal, size)) => Ok(Self { internal, size, pending: false }),
            Err(e) => Err(e),
        }
    }

    /// The full-area view of this surface's buffer.
    pub fn slice(&self) -> (r: SurfaceSlice)
        ensures
            r == full_slice(self@.size),
            r.wf(),
    {
        SurfaceSlice::new(self.size)
    }

    pub fn size(&self) -> (r: Size)
        ensures
            r == self@.size,
    {
        self.size
    }

    pub fn width(&self) -> (r: usize)
        ensures
            r == self@.size.width,
    {
        self.size.width
    }

    pub fn height(&self) -> (r: usize)
        ensures
            r == self@.size.height,
    {
        self.size.height
    }

    /// The pixel buffer itself, for reading through a view or presenting.
    pub fn root(&self) -> (r: &Vec<Pixel>)
        ensures
            r@ == self@.pixels,
    {
        &self.internal.data
    }

    /// Replaces the buffer with a zeroed allocation of `size`. On failure
    /// the old buffer is still released, leaving the documented zero-sized
    /// fallback.
    pub fn reallocate(&mut self, size: Size) -> (r: Result<(), SurfaceError>)
        ensures
            final(self)@ == alloc_view(size, old(self)@.pending),
            final(self).wf(),
            r is Ok <==> size.area() <= usize::MAX,
    {
        match size.width.checked_mul(size.height) {
            Some(n) => {
                self.internal.data = zeroed_pixels(n);
                self.size = size;
                Ok(())
            },
            None => {
                self.internal.data = Vec::new();
                self.size = Size { width: 0, height: 0 };
                Err(SurfaceError::AllocationFailed)
            },
        }
    }

    /// Releases the backing store, leaving a zero-sized surface; safe to
    /// call again, in which case it is a no-op.
    pub fn deallocate(&mut self)
        ensures
            final(self)@ == (SurfaceView {
                pixels: Seq::empty(),
                size: Size { width: 0, height: 0 },
                pending: old(self)@.pending,
            }),
            final(self).wf(),
    {
        self.internal.data = Vec::new();
        self.size = Size { width: 0, height: 0 };
    }

    /// Submits the current buffer contents as a frame for the shell to
    /// present.
    pub fn commit(&mut self)
        ensures
            final(self)@ == (SurfaceView { pending: true, ..old(self)@ }),
    {
        self.pending = true;
    }

    /// Clears and returns the pending-frame flag; the shell calls this and
    /// presents the buffer when it was set.
    pub fn take_pending(&mut self) -> (was: bool)
        ensures
            was == old(self)@.pending,
            final(self)@ == (SurfaceView { pending: false, ..old(self)@ }),
    {
        let was = self.pending;
        self.pending = false;
        was
    }

    /// Reconciles the surface against the size the handle reports (zero if
    /// the window is gone), reallocating exactly when it changed.
    pub fn update_size(&mut self, handle: Option<&WinHandle>) -> (r: Result<(), SurfaceError>)
        requires
            old(self).wf(),
        ensures
            final(self)@ == resize_step(
                old(self)@,
                match handle {
                    Some(h) => h.client,
                    None => Size { width: 0, height: 0 },
                },
            ),
            final(self).wf(),
            r is Ok <==> {
                let new = match handle {
                    Some(h) => h.client,
                    None => Size { width: 0, height: 0 },
                };
                old(self)@.size == new || new.area() <= usize::MAX
            },
    {
        let newsize = match handle {
            None => Size { width: 0, height: 0 },
            Some(h) => h.size(),
        };
        let size = self.size();
        if size != newsize {
            self.reallocate(newsize)
        } else {
            Ok(())
        }
    }
}

/// The user-supplied event-handling strategy: shown the drawable root and
/// the event, free to mutate the root, and answering whether the built-in
/// default action for the event should still run.
pub trait EventHandler<C: GuiCell>: Sized {
    /// Whether this handler lets the default action run, as a function of
    /// the root it was shown and the event.
    spec fn keeps_default(&self, cell: C, e: CommonEvent) -> bool;

    /// Handles the event. Returning false skips the built-in default
    /// action, letting the handler fully override close or draw semantics.
    fn on_event(&self, cell: &mut C, e: &CommonEvent) -> (keep: bool)
        ensures
            keep == self.keeps_default(*old(cell), *e),
    ;
}

/// The pass-through strategy: every built-in default action runs.
pub struct DefaultHandler;

impl<C: GuiCell> EventHandler<C> for DefaultHandler {
    open spec fn keeps_default(&self, cell: C, e: CommonEvent) -> bool {
        true
    }

    fn on_event(&self, _cell: &mut C, _e: &CommonEvent) -> (keep: bool) {
        true
    }
}

/// A strategy that suppresses the default close action — the window stays
/// open on close requests — and keeps every other default.
pub struct VetoCloseHandler;

impl<C: GuiCell> EventHandler<C> for VetoCloseHandler {
    open spec fn keeps_default(&self, cell: C, e: CommonEvent) -> bool {
        !(e is Close)
    }

    fn on_event(&self, _cell: &mut C, e: &CommonEvent) -> (keep: bool) {
        match e {
            CommonEvent::Close => false,
            _ => true,
        }
    }
}

/// The abstract state of a window: the client size while open (gone once
/// closed), the drawable root, the handler, the surface, and the title.
pub struct WindowView<C, H> {
    pub open_size: Option<Size>,
    pub root: C,
    pub handler: H,
    pub surface: SurfaceView,
    pub title: Seq<char>,
}

/// One window: the native-handle record, the user event handler, the owned
/// drawable root, and the owned surface, driven through the event-dispatch
/// state machine below.
pub struct Window<C: GuiCell, H: EventHandler<C>> {
    handle: Option<WinHandle>,
    event_handler: H,
    root: C,
    surface: Surface,
    title: String,
}

impl<C: GuiCell, H: EventHandler<C>> View for Window<C, H> {
    type V = WindowView<C, H>;

    closed spec fn view(&self) -> WindowView<C, H> {
        WindowView {
            open_size: match self.handle {
                Some(h) => Some(h.client),
                None => None,
            },
            root: self.root,
            handler: self.event_handler,
            surface: self.surface@,
            title: self.title@,
        }
    }
}

impl<C: GuiCell, H: EventHandler<C>> Window<C, H> {
    pub open spec fn wf(&self) -> bool {
        surface_inv(self@.surface)
    }

    /// The surface state after the root paints its full area and the frame
    /// is committed.
    pub open spec fn draw_view(root: C, s: SurfaceView) -> SurfaceView {
        SurfaceView { pixels: root.drawn(full_slice(s.size), s.pixels), size: s.size, pending: true }
    }

    /// The event-dispatch transition relation: how one delivered event may
    /// take a window from `pre` to `post`. A closed window ignores the
    /// event. An open window first reconciles its surface on a resize, then
    /// lets the handler act (the root may change arbitrarily), and runs the
    /// default action — close on a close request, paint-and-commit on a
    /// draw request — exactly when the handler kept it.
    pub open spec fn event_step(pre: WindowView<C, H>, e: CommonEvent, post: WindowView<C, H>) -> bool {
        match pre.open_size {
            None => post == pre,
            Some(sz) => {
                let s1 = if e == CommonEvent::Resize {
                    resize_step(pre.surface, sz)
                } else {
                    pre.surface
                };
                let keep = pre.handler.keeps_default(pre.root, e);
                &&& post.handler == pre.handler
                &&& post.title == pre.title
                &&& post.open_size == (if keep && e == CommonEvent::Close {
                    None::<Size>
                } else {
                    pre.open_size
                })
                &&& post.surface == (if keep && e == CommonEvent::Draw {
                    Self::draw_view(post.root, s1)
                } else {
                    s1
                })
            },
        }
    }

    /// The reflexive-transitive closure of `event_step` over a queue of
    /// delivered events, in order.
    pub open spec fn event_run(
        pre: WindowView<C, H>,
        events: Seq<CommonEvent>,
        post: WindowView<C, H>,
    ) -> bool
        decreases events.len(),
    {
        if events.len() == 0 {
            post == pre
        } else {
            exists|mid: WindowView<C, H>|
                {
                    &&& #[trigger] Self::event_step(pre, events[0], mid)
                    &&& Self::event_run(mid, events.drop_first(), post)
                }
        }
    }

    /// Creates the window: records the native handle at the requested
    /// size, takes ownership of the root and the handler, and allocates the
    /// surface from the handle's size. Fails — exposing no partial window
    /// — exactly when that surface cannot be allocated.
    pub fn new(name: &str, size: Size, root: C, event_handler: H) -> (r: Result<Self, SurfaceError>)
        ensures
            r is Ok <==> size.area() <= usize::MAX,
            r matches Ok(w) ==> {
                &&& w@ == (WindowView {
                    open_size: Some(size),
                    root,
                    handler: event_handler,
                    surface: SurfaceView {
                        pixels: zero_buffer(size.area()),
                        size,
                        pending: false,
                    },
                    title: name@,
                })
                &&& w.wf()
            },
    {
        let handle = WinHandle::new(size);
        match Surface::new(Some(&handle)) {
            Ok(surface) => Ok(
                Self {
                    handle: Some(handle),
                    event_handler,
                    root,
                    surface,
                    title: String::from_str(name),
                },
            ),
            Err(e) => Err(e),
        }
    }

    /// The native-handle record, while the window is open.
    pub fn handle(&self) -> (r: Option<&WinHandle>)
        ensures
            match r {
                Some(h) => self@.open_size == Some(h.client),
                None => self@.open_size is None,
            },
    {
        self.handle.as_ref()
    }

    /// A window is closed exactly when no native handle is held.
    pub fn is_closed(&self) -> (r: bool)
        ensures
            r == (self@.open_size is None),
    {
        self.handle.is_none()
    }

    /// The surface, for reading pixels or presenting the buffer.
    pub fn surface(&self) -> (r: &Surface)
        ensures
            r@ == self@.surface,
    {
        &self.surface
    }

    /// Records the client size the backend shell observed for the native
    /// window; ignored once closed.
    pub fn report_client_size(&mut self, size: Size)
        ensures
            old(self)@.open_size is Some ==> final(self)@ == (WindowView {
                open_size: Some(size),
                ..old(self)@
            }),
            old(self)@.open_size is None ==> final(self)@ == old(self)@,
            old(self).wf() ==> final(self).wf(),
    {
        match &mut self.handle {
            Some(h) => {
                h.client = size;
            },
            None => {},
        }
    }

    /// Clears and returns the pending-frame flag; the shell presents the
    /// surface buffer when it was set.
    pub fn take_pending_frame(&mut self) -> (was: bool)
        ensures
            was == old(self)@.surface.pending,
            final(self)@ == (WindowView {
                surface: SurfaceView { pending: false, ..old(self)@.surface },
                ..old(self)@
            }),
            old(self).wf() ==> final(self).wf(),
    {
        self.surface.take_pending()
    }

    /// Releases the window: takes the handle out — the shell destroys its
    /// native twin — and transitions to the terminal closed state. A no-op
    /// on an already-closed window, so closing twice has no further effect.
    pub fn close(&mut self)
        ensures
            final(self)@ == (WindowView { open_size: None, ..old(self)@ }),
            old(self).wf() ==> final(self).wf(),
    {
        if self.is_closed() {
            return ;
        }
        self.handle = None;
    }

    /// Paints the root into the full-area view of the surface and commits
    /// the frame; a no-op once closed.
    pub fn draw(&mut self)
        requires
            old(self).wf(),
        ensures
            final(self).wf(),
            old(self)@.open_size is None ==> final(self)@ == old(self)@,
            old(self)@.open_size is Some ==> final(self)@ == (WindowView {
                surface: Self::draw_view(old(self)@.root, old(self)@.surface),
                ..old(self)@
            }),
    {
        if self.is_closed() {
            return ;
        }
        let sl = self.surface.slice();
        self.root.draw(&sl, &mut self.surface.internal.data);
        self.surface.commit();
    }

    /// The mandatory dispatch prefix: on a resize, reconciles the surface
    /// against the reported client size before anything else runs, so the
    /// handler always observes a surface matching the backend's report.
    fn mandatory_event_prefix(&mut self, e: &CommonEvent)
        requires
            old(self).wf(),
        ensures
            final(self).wf(),
            *e == CommonEvent::Resize ==> final(self)@ == (WindowView {
                surface: resize_step(
                    old(self)@.surface,
                    match old(self)@.open_size {
                        Some(sz) => sz,
                        None => Size { width: 0, height: 0 },
                    },
                ),
                ..old(self)@
            }),
            *e != CommonEvent::Resize ==> final(self)@ == old(self)@,
    {
        match e {
            CommonEvent::Resize => {
                let _ = self.surface.update_size(self.handle.as_ref());
            },
            _ => {},
        }
    }

    /// The mandatory dispatch postfix: currently a no-op for every event,
    /// kept as a fixed extension point.
    fn mandatory_event_postfix(&mut self, e: &CommonEvent)
        ensures
            *final(self) == *old(self),
    {
        match e {
            _ => {},
        }
    }

    /// The built-in default actions: a close request closes the window, a
    /// draw request paints and commits, every other event has none.
    fn default_event_handler(&mut self, e: &CommonEvent)
        requires
            old(self).wf(),
        ensures
            final(self).wf(),
            *e == CommonEvent::Close ==> final(self)@ == (WindowView {
                open_size: None,
                ..old(self)@
            }),
            *e == CommonEvent::Draw ==> final(self)@ == (if old(self)@.open_size is Some {
                WindowView {
                    surface: Self::draw_view(old(self)@.root, old(self)@.surface),
                    ..old(self)@
                }
            } else {
                old(self)@
            }),
            *e != CommonEvent::Close && *e != CommonEvent::Draw ==> final(self)@ == old(self)@,
    {
        match e {
            CommonEvent::Close => self.close(),
            CommonEvent::Draw => self.draw(),
            _ => {},
        }
    }

    /// Delivers one translated event through the dispatch protocol: the
    /// mandatory prefix, then the user handler, then — if the handler kept
    /// it — the default action, then the mandatory postfix. A no-op once
    /// closed. The internal token keeps arbitrary callers from injecting
    /// synthetic events outside the dispatch path.
    pub fn handle_event(&mut self, e: CommonEvent, _token: Internal)
        requires
            old(self).wf(),
        ensures
            final(self).wf(),
            Self::event_step(old(self)@, e, final(self)@),
    {
        if self.is_closed() {
            return ;
        }
        self.mandatory_event_prefix(&e);
        let keep = self.event_handler.on_event(&mut self.root, &e);
        if keep {
            self.default_event_handler(&e);
        }
        self.mandatory_event_postfix(&e);
    }

    /// Delivers a translated event from the dispatch path.
    pub fn handle_common_event(&mut self, e: CommonEvent, token: Internal)
        requires
            old(self).wf(),
        ensures
            final(self).wf(),
            Self::event_step(old(self)@, e, final(self)@),
    {
        self.handle_event(e, token);
    }

    /// Drains a queue of translated events through dispatch, in order; once
    /// the window is closed — before the call or by a close event in the
    /// queue — the remaining deliveries leave it untouched.
    pub fn handle_events(&mut self, events: &Vec<CommonEvent>)
        requires
            old(self).wf(),
        ensures
            final(self).wf(),
            Self::event_run(old(self)@, events@, final(self)@),
    {
        let mut i: usize = 0;
        while i < events.len()
            invariant
                i <= events@.len(),
                self.wf(),
                Self::event_run(old(self)@, events@.take(i as int), self@),
            decreases events@.len() - i,
        {
            let ghost mid = self@;
            let e = events[i];
            self.handle_event(e, Internal { seal: () });
            proof {
                Self::lemma_event_run_snoc(
                    old(self)@,
                    events@.take(i as int),
                    mid,
                    events@[i as int],
                    self@,
                );
                assert(events@.take(i as int).push(events@[i as int]) =~= events@.take(i + 1));
            }
            i += 1;
        }
        proof {
            assert(events@.take(events@.len() as int) =~= events@);
        }
    }

    /// A run extends by one step at its end.
    pub proof fn lemma_event_run_snoc(
        pre: WindowView<C, H>,
        evs: Seq<CommonEvent>,
        mid: WindowView<C, H>,
        e: CommonEvent,
        post: WindowView<C, H>,
    )
        requires
            Self::event_run(pre, evs, mid),
            Self::event_step(mid, e, post),
        ensures
            Self::event_run(pre, evs.push(e), post),
        decreases evs.len(),
    {
        if evs.len() == 0 {
            assert(mid == pre);
            assert(evs.push(e)[0] == e);
            assert(evs.push(e).drop_first() =~= Seq::<CommonEvent>::empty());
            assert(Self::event_run(post, Seq::<CommonEvent>::empty(), post));
            assert(Self::event_step(pre, evs.push(e)[0], post));
        } else {
            let m1 = choose|m: WindowView<C, H>|
                {
                    &&& #[trigger] Self::event_step(pre, evs[0], m)
                    &&& Self::event_run(m, evs.drop_first(), mid)
                };
            Self::lemma_event_run_snoc(m1, evs.drop_first(), mid, e, post);
            assert(evs.push(e).drop_first() =~= evs.drop_first().push(e));
            assert(evs.push(e)[0] == evs[0]);
            assert(Self::event_step(pre, evs.push(e)[0], m1));
        }
    }

    /// Dispatch to a closed window has no effect at all.
    pub proof fn lemma_closed_window_stalls(
        pre: WindowView<C, H>,
        events: Seq<CommonEvent>,
        post: WindowView<C, H>,
    )
        requires
            Self::event_run(pre, events, post),
            pre.open_size is None,
        ensures
            post == pre,
        decreases events.len(),
    {
        if events.len() > 0 {
            let m1 = choose|m: WindowView<C, H>|
                {
                    &&& #[trigger] Self::event_step(pre, events[0], m)
                    &&& Self::event_run(m, events.drop_first(), post)
                };
            Self::lemma_closed_window_stalls(m1, events.drop_first(), post);
        }
    }

    /// Closing is monotonic: one dispatch step either keeps the client size
    /// or closes the window; it never reopens one or conjures a new handle.
    pub proof fn lemma_close_monotonic(
        pre: WindowView<C, H>,
        e: CommonEvent,
        post: WindowView<C, H>,
    )
        requires
            Self::event_step(pre, e, post),
        ensures
            post.open_size == pre.open_size || post.open_size is None,
    {
    }

    /// A vetoed close request leaves the window open: when the handler
    /// refuses the default for a close event, the handle — and with it the
    /// client size — stays exactly as it was.
    pub proof fn lemma_close_vetoed(pre: WindowView<C, H>, post: WindowView<C, H>)
        requires
            Self::event_step(pre, CommonEvent::Close, post),
            pre.open_size is Some,
            !pre.handler.keeps_default(pre.root, CommonEvent::Close),
        ensures
            post.open_size == pre.open_size,
    {
    }

    /// Every resize delivery reconciles the surface before the handler can
    /// act, and nothing later in the dispatch disturbs it: afterwards the
    /// surface is exactly the reconciled one, sized to the reported client
    /// size whenever that size is addressable.
    pub proof fn lemma_resize_reconciles(
        pre: WindowView<C, H>,
        post: WindowView<C, H>,
        sz: Size,
    )
        requires
            Self::event_step(pre, CommonEvent::Resize, post),
            pre.open_size == Some(sz),
        ensures
            post.surface == resize_step(pre.surface, sz),
            sz.area() <= usize::MAX ==> post.surface.size == sz,
    {
    }
}

/// Writing inside the domain and reading the same coordinate back yields the
/// written pixel.
pub proof fn lemma_pixel_round_trip(s: SurfaceSlice, buf: Seq<Pixel>, idx: PixelIdx, p: Pixel)
    requires
        s.wf(),
        buf.len() == s.root_size.area(),
        contains_point(s.domain, s.domain.offset.x + idx.x, s.domain.offset.y + idx.y),
    ensures
        slice_read(s, slice_write(s, buf, idx, p), idx) == p,
{
    lemma_linear_index_bounds(
        s.root_size.width as int,
        s.root_size.height as int,
        s.domain.offset.x + idx.x,
        s.domain.offset.y + idx.y,
    );
}

} // verus!
