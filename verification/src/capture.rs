//! The capture session: one grab after another of a window's client area.
//!
//! A grab is a conversation. The session says which host call it needs, the
//! owner of the session makes the call and reports the answer, and the
//! session says what comes next, until it ends the grab with a frame or an
//! error. [`Capture::grab`] opens a grab and [`Capture::resume`] takes each
//! answer. What the session does with an answer is written down once, as
//! [`Session::after`], and `resume` does exactly that.

use crate::error::Error;
use crate::handle::Handle;
use crate::handle::HandleCell;
use crate::handle::Selector;
use crate::handle::Window;
use crate::handle::WindowId;
use crate::surface::byte_size;
use crate::surface::create_bitmap;
use crate::surface::Bitmap;
use crate::surface::ContextId;
use crate::surface::DeviceContext;
use crate::surface::Mapping;
use crate::surface::ObjectId;
use crate::surface::SurfaceLayout;
use crate::surface::Teardown;
use crate::surface::SOURCE_COPY;
use vstd::prelude::*;

verus! {

/// The pixels of a window's client area at one moment: `height` rows of
/// `width` pixels from the top down, four bytes a pixel (blue, green, red,
/// spare). The frame owns its bytes and outlives whatever it was read from.
#[derive(Clone, Debug)]
pub struct Frame {
    pub width: i32,
    pub height: i32,
    pub data: Vec<u8>,
}

impl Frame {
    /// A frame holds four bytes for each of its pixels, no more and no
    /// fewer.
    pub open spec fn wf(self) -> bool {
        &&& self.width > 0
        &&& self.height > 0
        &&& self.data@.len() == byte_size(self.width as int, self.height as int)
    }
}

/// A rectangle in pixels, as the host reports a client area.
#[derive(Clone, Copy, Debug, PartialEq, Eq, Structural)]
pub struct Rect {
    pub left: i32,
    pub top: i32,
    pub right: i32,
    pub bottom: i32,
}

impl Rect {
    /// Whether the rectangle has an extent: its right and bottom edges do
    /// not lie before its left and top ones, and its width and height fit
    /// the type they are reported in.
    pub open spec fn wf(self) -> bool {
        &&& 0 <= self.right - self.left <= i32::MAX
        &&& 0 <= self.bottom - self.top <= i32::MAX
    }

    /// Pixels from the left edge to the right one.
    pub open spec fn width(self) -> i32 {
        (self.right - self.left) as i32
    }

    /// Pixels from the top edge to the bottom one.
    pub open spec fn height(self) -> i32 {
        (self.bottom - self.top) as i32
    }

    /// The width and height of the rectangle, if it has an extent.
    pub fn extent(&self) -> (extent: Option<(i32, i32)>)
        ensures
            extent == (if self.wf() {
                Some((self.width(), self.height()))
            } else {
                None
            }),
    {
        let width: i64 = self.right as i64 - self.left as i64;
        let height: i64 = self.bottom as i64 - self.top as i64;
        if width < 0 || width > 0x7FFF_FFFF || height < 0 || height > 0x7FFF_FFFF {
            None
        } else {
            Some((width as i32, height as i32))
        }
    }
}

/// A copy of a rectangle of pixels from one context to another.
#[derive(Clone, Copy, Debug, PartialEq, Eq, Structural)]
pub struct Blit {
    pub target: ContextId,
    pub x: i32,
    pub y: i32,
    pub width: i32,
    pub height: i32,
    pub source: ContextId,
    pub source_x: i32,
    pub source_y: i32,
    /// The host's code for how source and target pixels combine.
    pub operation: u32,
}

impl Blit {
    /// The copy of the whole client area: `width` by `height` pixels from
    /// the origin of `source` to the origin of `target`, replacing what was
    /// there.
    pub open spec fn whole(target: ContextId, source: ContextId, width: i32, height: i32) -> Blit {
        Blit {
            target,
            x: 0,
            y: 0,
            width,
            height,
            source,
            source_x: 0,
            source_y: 0,
            operation: SOURCE_COPY,
        }
    }

    /// Describes the copy of the whole client area.
    pub fn full(target: ContextId, source: ContextId, width: i32, height: i32) -> (blit: Self)
        ensures
            blit == Self::whole(target, source, width, height),
    {
        Self {
            target,
            x: 0,
            y: 0,
            width,
            height,
            source,
            source_x: 0,
            source_y: 0,
            operation: SOURCE_COPY,
        }
    }
}

/// A host call that the session needs made. Each is answered by the
/// [`Reply`] named with it.
#[derive(Clone, Copy, Debug, PartialEq, Eq, Structural)]
pub enum Request {
    /// Walk the top-level windows in the host's order and report each with
    /// its class name; the walk may stop after the first window of the
    /// session's class. Answered by [`Reply::Windows`].
    EnumerateWindows,
    /// Fetch the class name of this window. Answered by
    /// [`Reply::ClassName`].
    ClassName(WindowId),
    /// Fetch the client rectangle of this window. Answered by
    /// [`Reply::ClientRect`].
    ClientRect(WindowId),
    /// Create a private drawing context. Answered by [`Reply::Context`].
    CreateContext,
    /// Create a surface of this layout on this context, its pixels mapped
    /// into memory. Answered by [`Reply::Surface`].
    CreateSurface { context: ContextId, layout: SurfaceLayout },
    /// Borrow the drawing context of this window. Answered by
    /// [`Reply::Context`].
    WindowContext(WindowId),
    /// Select this object into this context. Answered by
    /// [`Reply::Selected`].
    Select { context: ContextId, object: ObjectId },
    /// Copy pixels between contexts. Answered by [`Reply::Copied`].
    Copy(Blit),
    /// Copy `size` bytes of mapped pixels from the address `buffer`.
    /// Answered by [`Reply::Pixels`].
    ReadPixels { buffer: usize, size: u64 },
    /// Give a resource back. Answered by [`Reply::Released`].
    Release(Teardown),
    /// Fetch the error code of the call that failed last. Answered by
    /// [`Reply::LastError`].
    LastError,
}

/// The host's answer to a [`Request`].
#[derive(Debug)]
pub enum Reply {
    /// The windows that the walk saw, in its order.
    Windows(Vec<Window>),
    /// The code units of the class name; none if the host knows no such
    /// window.
    ClassName(Vec<u16>),
    /// The client rectangle, or the code of the failure.
    ClientRect(Result<Rect, i32>),
    /// The context, or a value that is none.
    Context(ContextId),
    /// The new surface, or the code of the failure.
    Surface(Result<Mapping, i32>),
    /// The object that was selected before, or a value that is none.
    Selected(ObjectId),
    /// Whether the copy was made, and the code of the failure if not.
    Copied(Result<(), i32>),
    /// The bytes read.
    Pixels(Vec<u8>),
    /// The resource is gone, or the host would not take it; either way the
    /// session has let go of it.
    Released,
    /// The error code.
    LastError(i32),
}

/// What follows an answer: another host call, or the end of the grab.
#[derive(Debug)]
pub enum Step {
    Call(Request),
    Done(Result<Frame, Error>),
}

/// Where a session stands: at rest, or in a grab and waiting for the answer
/// to the request it made last.
#[derive(Debug)]
pub enum Phase {
    /// No grab is under way.
    Idle,
    /// Waiting for the windows of [`Request::EnumerateWindows`].
    Enumerating,
    /// Waiting for the class name of the cached window.
    Validating,
    /// Waiting for the client rectangle of `window`.
    Measuring { window: WindowId },
    /// Waiting for the private context of a new surface of this size.
    CreatingContext { window: WindowId, width: i32, height: i32 },
    /// Waiting for the new surface on `context`.
    CreatingSurface { window: WindowId, context: ContextId, width: i32, height: i32 },
    /// Waiting for the context of `window`.
    Borrowing { window: WindowId },
    /// Holding the window's context `source`; waiting for the surface to be
    /// selected into its own context.
    Selecting { source: DeviceContext },
    /// Waiting for the copy; `previous` is to be selected back afterwards.
    Copying { source: DeviceContext, previous: ObjectId },
    /// Waiting for `previous` to be selected back; `copied` is how the copy
    /// went.
    Restoring { source: DeviceContext, copied: Result<(), i32> },
    /// Waiting for the bytes of the surface.
    Reading { source: DeviceContext },
    /// A call gave nothing; waiting for the error code. `held` is the
    /// window's context if the session holds it.
    Failing { held: Option<DeviceContext> },
    /// Waiting for a resource to be given back; `next` goes after it, and
    /// then the grab ends with `outcome`.
    Closing { next: Option<Teardown>, outcome: Result<Frame, Error> },
}

/// What a [`Capture`] stands for: the window selector, the surface it
/// holds, and where it stands.
pub struct Session {
    pub selector: Selector,
    pub surface: Option<Bitmap>,
    pub phase: Phase,
}

impl Session {
    /// A session that has grabbed nothing yet.
    pub open spec fn fresh(class: Seq<char>) -> Session {
        Session {
            selector: Selector { class, cached: None },
            surface: None,
            phase: Phase::Idle,
        }
    }

    /// What holds of a session at every moment: its surface is well formed,
    /// it holds what the answer it waits for will need, a frame it is about
    /// to yield is as large as its surface, a surface it is about to report
    /// as outdated is gone, and it gives nothing back before it reports a
    /// window as not found.
    pub open spec fn wf(self) -> bool {
        &&& self.surface matches Some(bitmap) ==> bitmap.wf()
        &&& match self.phase {
            Phase::Idle => true,
            Phase::Enumerating => self.selector.cached is None,
            Phase::Validating => self.selector.cached is Some,
            Phase::Measuring { .. } => true,
            Phase::CreatingContext { width, height, .. } => {
                self.surface is None && width > 0 && height > 0
            },
            Phase::CreatingSurface { width, height, .. } => {
                self.surface is None && width > 0 && height > 0
            },
            Phase::Borrowing { .. } => self.surface is Some,
            Phase::Selecting { source } => self.surface is Some && source.handle is Some,
            Phase::Copying { source, .. } => self.surface is Some && source.handle is Some,
            Phase::Restoring { source, .. } => self.surface is Some && source.handle is Some,
            Phase::Reading { source } => self.surface is Some && source.handle is Some,
            Phase::Failing { held } => held matches Some(source) ==> source.handle is Some,
            Phase::Closing { outcome, .. } => match outcome {
                Ok(frame) => {
                    &&& frame.wf()
                    &&& self.surface matches Some(bitmap)
                    &&& bitmap.fits(frame.width, frame.height)
                },
                Err(Error::InvalidWindowSize) => self.surface is None,
                Err(Error::GraphicsApiError(_)) => true,
                Err(Error::WindowNotFound) => false,
            },
        }
    }

    /// The same session at rest and without a surface.
    pub open spec fn selector_only(self) -> Session {
        Session { selector: self.selector, surface: None, phase: Phase::Idle }
    }

    /// The same session in another phase.
    pub open spec fn at(self, phase: Phase) -> Session {
        Session { selector: self.selector, surface: self.surface, phase }
    }

    /// The same session at rest, together with the end of the grab.
    pub open spec fn done(self, outcome: Result<Frame, Error>) -> (Session, Step) {
        (self.at(Phase::Idle), Step::Done(outcome))
    }

    /// The same session in another phase, together with the request it
    /// waits on there.
    pub open spec fn asks(self, phase: Phase, request: Request) -> (Session, Step) {
        (self.at(phase), Step::Call(request))
    }

    /// The opening of a grab: a session that has a window cached asks for
    /// its class name, any other for the list of windows.
    pub open spec fn begun(self) -> (Session, Request) {
        match self.selector.cached {
            Some(window) => (self.at(Phase::Validating), Request::ClassName(window)),
            None => (self.at(Phase::Enumerating), Request::EnumerateWindows),
        }
    }

    /// What follows once the window `window` measures `width` by `height`.
    ///
    /// A window without an area counts as not found. A session without a
    /// surface sets out to make one. A surface of the measured size is used
    /// as it is. A surface of any other size is given up, object first, and
    /// the grab is set to fail with [`Error::InvalidWindowSize`].
    pub open spec fn sized(self, window: WindowId, width: i32, height: i32) -> (Session, Step) {
        if width == 0 || height == 0 {
            self.done(Err(Error::WindowNotFound))
        } else {
            match self.surface {
                None => self.asks(
                    Phase::CreatingContext { window, width, height },
                    Request::CreateContext,
                ),
                Some(bitmap) => if bitmap.fits(width, height) {
                    self.asks(Phase::Borrowing { window }, Request::WindowContext(window))
                } else {
                    (
                        Session {
                            selector: self.selector,
                            surface: None,
                            phase: Phase::Closing {
                                next: Some(bitmap.discarded().1),
                                outcome: Err(Error::InvalidWindowSize),
                            },
                        },
                        Step::Call(Request::Release(bitmap.discarded().0)),
                    )
                },
            }
        }
    }

    /// What follows a call that gave nothing: the error code is fetched
    /// while the window's context, if the session has it, is still held.
    pub open spec fn failing(self, held: Option<DeviceContext>) -> (Session, Step) {
        self.asks(Phase::Failing { held }, Request::LastError)
    }

    /// What follows once the outcome of the grab is known while the
    /// window's context `source` is held: the context goes back first.
    pub open spec fn closing(self, source: DeviceContext, outcome: Result<Frame, Error>) -> (
        Session,
        Step,
    ) {
        self.asks(Phase::Closing { next: None, outcome }, Request::Release(source.teardown()))
    }

    /// The session after `reply`, and what it says then; nothing where
    /// `reply` does not answer the request that the session waits on.
    ///
    /// Besides an answer of the wrong kind, two answers are no answers: a
    /// client rectangle without an extent, and pixels that are not as many
    /// bytes as were asked for.
    pub open spec fn after(self, reply: Reply) -> Option<(Session, Step)> {
        match (self.phase, reply) {
            (Phase::Enumerating, Reply::Windows(windows)) => {
                let selector = self.selector.searched(windows@);
                let found = Session { selector, surface: self.surface, phase: self.phase };
                match selector.cached {
                    Some(window) => Some(found.asks(Phase::Validating, Request::ClassName(window))),
                    None => Some(found.done(Err(Error::WindowNotFound))),
                }
            },
            (Phase::Validating, Reply::ClassName(units)) => {
                let (selector, resolved) = self.selector.revalidated(units@);
                let checked = Session { selector, surface: self.surface, phase: self.phase };
                match resolved {
                    Some(window) => Some(
                        checked.asks(Phase::Measuring { window }, Request::ClientRect(window)),
                    ),
                    None => Some(checked.done(Err(Error::WindowNotFound))),
                }
            },
            (Phase::Measuring { window }, Reply::ClientRect(Ok(rect))) => {
                if rect.wf() {
                    Some(self.sized(window, rect.width(), rect.height()))
                } else {
                    None
                }
            },
            (Phase::Measuring { .. }, Reply::ClientRect(Err(code))) => {
                Some(self.done(Err(Error::GraphicsApiError(code))))
            },
            (Phase::CreatingContext { window, width, height }, Reply::Context(context)) => {
                if context.invalid() {
                    Some(self.failing(None))
                } else {
                    Some(
                        self.asks(
                            Phase::CreatingSurface { window, context, width, height },
                            Request::CreateSurface {
                                context,
                                layout: SurfaceLayout::of(width, height),
                            },
                        ),
                    )
                }
            },
            (
                Phase::CreatingSurface { window, context, width, height },
                Reply::Surface(Ok(mapping)),
            ) => {
                let made = Session {
                    selector: self.selector,
                    surface: Some(Bitmap::made(context, width, height, mapping)),
                    phase: self.phase,
                };
                Some(made.asks(Phase::Borrowing { window }, Request::WindowContext(window)))
            },
            (Phase::CreatingSurface { context, .. }, Reply::Surface(Err(code))) => {
                Some(
                    self.asks(
                        Phase::Closing {
                            next: None,
                            outcome: Err(Error::GraphicsApiError(code)),
                        },
                        Request::Release(Teardown::DeleteContext(context)),
                    ),
                )
            },
            (Phase::Borrowing { window }, Reply::Context(context)) => {
                match self.surface {
                    Some(bitmap) => if context.invalid() {
                        Some(self.failing(None))
                    } else {
                        Some(
                            self.asks(
                                Phase::Selecting {
                                    source: DeviceContext { inner: context, handle: Some(window) },
                                },
                                Request::Select {
                                    context: bitmap.device_context.inner,
                                    object: bitmap.inner,
                                },
                            ),
                        )
                    },
                    None => None,
                }
            },
            (Phase::Selecting { source }, Reply::Selected(previous)) => {
                match self.surface {
                    Some(bitmap) => if previous.invalid() {
                        Some(self.failing(Some(source)))
                    } else {
                        Some(
                            self.asks(
                                Phase::Copying { source, previous },
                                Request::Copy(
                                    Blit::whole(
                                        bitmap.device_context.inner,
                                        source.inner,
                                        bitmap.width,
                                        bitmap.height,
                                    ),
                                ),
                            ),
                        )
                    },
                    None => None,
                }
            },
            (Phase::Copying { source, previous }, Reply::Copied(copied)) => {
                match self.surface {
                    Some(bitmap) => Some(
                        self.asks(
                            Phase::Restoring { source, copied },
                            Request::Select {
                                context: bitmap.device_context.inner,
                                object: previous,
                            },
                        ),
                    ),
                    None => None,
                }
            },
            (Phase::Restoring { source, copied }, Reply::Selected(_)) => {
                match self.surface {
                    Some(bitmap) => match copied {
                        Ok(_) => Some(
                            self.asks(
                                Phase::Reading { source },
                                Request::ReadPixels { buffer: bitmap.buffer, size: bitmap.size },
                            ),
                        ),
                        Err(code) => Some(self.closing(source, Err(Error::GraphicsApiError(code)))),
                    },
                    None => None,
                }
            },
            (Phase::Reading { source }, Reply::Pixels(data)) => {
                match self.surface {
                    Some(bitmap) => if data@.len() == bitmap.size {
                        Some(
                            self.closing(
                                source,
                                Ok(Frame { width: bitmap.width, height: bitmap.height, data }),
                            ),
                        )
                    } else {
                        None
                    },
                    None => None,
                }
            },
            (Phase::Failing { held }, Reply::LastError(code)) => {
                match held {
                    Some(source) => Some(self.closing(source, Err(Error::GraphicsApiError(code)))),
                    None => Some(self.done(Err(Error::GraphicsApiError(code)))),
                }
            },
            (Phase::Closing { next, outcome }, Reply::Released) => {
                match next {
                    Some(teardown) => Some(
                        self.asks(
                            Phase::Closing { next: None, outcome },
                            Request::Release(teardown),
                        ),
                    ),
                    None => Some(self.done(outcome)),
                }
            },
            _ => None,
        }
    }

    /// The session once it is closed, and how its surface goes back to the
    /// host. Only a session at rest that holds a surface has anything to
    /// give back.
    pub open spec fn closed(self) -> (Session, Option<(Teardown, Teardown)>) {
        match (self.phase, self.surface) {
            (Phase::Idle, Some(bitmap)) => (self.selector_only(), Some(bitmap.discarded())),
            _ => (self, None),
        }
    }
}

/// A capture session for the windows of one class.
///
/// The session keeps the window it found last and the surface it made last,
/// and between [`grab`](Capture::grab) and the end of the grab it keeps
/// track of the resources it has borrowed. It is driven by one owner at a
/// time; two sessions share nothing.
#[derive(Debug)]
pub struct Capture {
    handle: HandleCell,
    bitmap: Option<Bitmap>,
    phase: Phase,
}

impl View for Capture {
    type V = Session;

    closed spec fn view(&self) -> Session {
        Session { selector: self.handle@, surface: self.bitmap, phase: self.phase }
    }
}

impl Capture {
    /// Whether the session is in a state that its own operations lead to.
    /// [`Capture::new`] establishes this and every operation keeps it.
    pub open spec fn wf(&self) -> bool {
        self@.wf()
    }

    /// A session for the windows that `handle` selects. It holds no window
    /// and no surface yet.
    pub fn new(handle: Handle) -> (capture: Self)
        ensures
            capture@ == Session::fresh(handle@),
            capture.wf(),
    {
        Self { handle: HandleCell::new(handle), bitmap: None, phase: Phase::Idle }
    }

    /// The class selector this session was made for.
    pub fn handle(&self) -> (handle: Handle)
        ensures
            handle@ == self@.selector.class,
    {
        self.handle.handle()
    }

    /// Opens a grab and returns its first request. While a grab is under
    /// way no other can be opened: nothing is returned then, and nothing
    /// changes.
    pub fn grab(&mut self) -> (request: Option<Request>)
        requires
            old(self).wf(),
        ensures
            final(self).wf(),
            match request {
                Some(first) => {
                    &&& old(self)@.phase is Idle
                    &&& (final(self)@, first) == old(self)@.begun()
                },
                None => !(old(self)@.phase is Idle) && final(self)@ == old(self)@,
            },
    {
        match self.phase {
            Phase::Idle => match self.handle.cached() {
                Some(window) => {
                    self.phase = Phase::Validating;
                    Some(Request::ClassName(window))
                },
                None => {
                    self.phase = Phase::Enumerating;
                    Some(Request::EnumerateWindows)
                },
            },
            _ => None,
        }
    }

    /// Takes the host's answer to the request that the session made last,
    /// and returns what follows: the next request, or the end of the grab.
    /// An answer that the session does not wait for is refused: nothing is
    /// returned then, and nothing changes.
    pub fn resume(&mut self, reply: Reply) -> (step: Option<Step>)
        requires
            old(self).wf(),
        ensures
            final(self).wf(),
            match old(self)@.after(reply) {
                Some((session, expected)) => final(self)@ == session && step == Some(expected),
                None => final(self)@ == old(self)@ && step is None,
            },
            step matches Some(Step::Done(Ok(frame))) ==> frame.data@.len() == frame.width
                * frame.height * 4,
    {
        let mut phase = Phase::Idle;
        core::mem::swap(&mut self.phase, &mut phase);
        match (phase, reply) {
            (Phase::Enumerating, Reply::Windows(windows)) => {
                match self.handle.search(windows.as_slice()) {
                    Some(window) => {
                        self.phase = Phase::Validating;
                        Some(Step::Call(Request::ClassName(window)))
                    },
                    None => Some(Step::Done(Err(Error::WindowNotFound))),
                }
            },
            (Phase::Validating, Reply::ClassName(units)) => {
                match self.handle.as_inner(units.as_slice()) {
                    Some(window) => {
                        self.phase = Phase::Measuring { window };
                        Some(Step::Call(Request::ClientRect(window)))
                    },
                    None => Some(Step::Done(Err(Error::WindowNotFound))),
                }
            },
            (Phase::Measuring { window }, Reply::ClientRect(Ok(rect))) => {
                match rect.extent() {
                    Some((width, height)) => Some(self.sized(window, width, height)),
                    None => {
                        self.phase = Phase::Measuring { window };
                        None
                    },
                }
            },
            (Phase::Measuring { .. }, Reply::ClientRect(Err(code))) => {
                Some(Step::Done(Err(Error::GraphicsApiError(code))))
            },
            (Phase::CreatingContext { window, width, height }, Reply::Context(context)) => {
                if context.is_invalid() {
                    Some(self.failing(None))
                } else {
                    self.phase = Phase::CreatingSurface { window, context, width, height };
                    Some(
                        Step::Call(
                            Request::CreateSurface {
                                context,
                                layout: SurfaceLayout::new(width, height),
                            },
                        ),
                    )
                }
            },
            (
                Phase::CreatingSurface { window, context, width, height },
                Reply::Surface(Ok(mapping)),
            ) => {
                self.bitmap = Some(create_bitmap(context, width, height, mapping));
                self.phase = Phase::Borrowing { window };
                Some(Step::Call(Request::WindowContext(window)))
            },
            (Phase::CreatingSurface { context, .. }, Reply::Surface(Err(code))) => {
                let outcome = Err(Error::GraphicsApiError(code));
                self.phase = Phase::Closing { next: None, outcome };
                Some(Step::Call(Request::Release(DeviceContext::owned(context).release())))
            },
            (Phase::Borrowing { window }, Reply::Context(context)) => {
                match &self.bitmap {
                    Some(bitmap) => {
                        if context.is_invalid() {
                            Some(self.failing(None))
                        } else {
                            let request = Request::Select {
                                context: bitmap.device_context.inner,
                                object: bitmap.inner,
                            };
                            let source = DeviceContext::borrowed(context, window);
                            self.phase = Phase::Selecting { source };
                            Some(Step::Call(request))
                        }
                    },
                    None => {
                        self.phase = Phase::Borrowing { window };
                        None
                    },
                }
            },
            (Phase::Selecting { source }, Reply::Selected(previous)) => {
                match &self.bitmap {
                    Some(bitmap) => {
                        if previous.is_invalid() {
                            Some(self.failing(Some(source)))
                        } else {
                            let request = Request::Copy(
                                Blit::full(
                                    bitmap.device_context.inner,
                                    source.inner,
                                    bitmap.width,
                                    bitmap.height,
                                ),
                            );
                            self.phase = Phase::Copying { source, previous };
                            Some(Step::Call(request))
                        }
                    },
                    None => {
                        self.phase = Phase::Selecting { source };
                        None
                    },
                }
            },
            (Phase::Copying { source, previous }, Reply::Copied(copied)) => {
                match &self.bitmap {
                    Some(bitmap) => {
                        let request = Request::Select {
                            context: bitmap.device_context.inner,
                            object: previous,
                        };
                        self.phase = Phase::Restoring { source, copied };
                        Some(Step::Call(request))
                    },
                    None => {
                        self.phase = Phase::Copying { source, previous };
                        None
                    },
                }
            },
            (Phase::Restoring { source, copied }, Reply::Selected(_)) => {
                match &self.bitmap {
                    Some(bitmap) => match copied {
                        Ok(_) => {
                            let request = Request::ReadPixels {
                                buffer: bitmap.buffer,
                                size: bitmap.size,
                            };
                            self.phase = Phase::Reading { source };
                            Some(Step::Call(request))
                        },
                        Err(code) => Some(
                            self.closing(source, Err(Error::GraphicsApiError(code))),
                        ),
                    },
                    None => {
                        self.phase = Phase::Restoring { source, copied };
                        None
                    },
                }
            },
            (Phase::Reading { source }, Reply::Pixels(data)) => {
                match &self.bitmap {
                    Some(bitmap) => {
                        if data.len() as u64 == bitmap.size {
                            let frame = Frame { width: bitmap.width, height: bitmap.height, data };
                            Some(self.closing(source, Ok(frame)))
                        } else {
                            self.phase = Phase::Reading { source };
                            None
                        }
                    },
                    None => {
                        self.phase = Phase::Reading { source };
                        None
                    },
                }
            },
            (Phase::Failing { held }, Reply::LastError(code)) => {
                match held {
                    Some(source) => Some(self.closing(source, Err(Error::GraphicsApiError(code)))),
                    None => Some(Step::Done(Err(Error::GraphicsApiError(code)))),
                }
            },
            (Phase::Closing { next, outcome }, Reply::Released) => {
                match next {
                    Some(teardown) => {
                        self.phase = Phase::Closing { next: None, outcome };
                        Some(Step::Call(Request::Release(teardown)))
                    },
                    None => Some(Step::Done(outcome)),
                }
            },
            (phase, _) => {
                self.phase = phase;
                None
            },
        }
    }

    /// Ends the session's hold on its surface and says how the surface goes
    /// back to the host, the first teardown before the second. A session
    /// that holds no surface, or that is in the middle of a grab, gives
    /// nothing back and stays as it is.
    pub fn close(&mut self) -> (teardowns: Option<(Teardown, Teardown)>)
        requires
            old(self).wf(),
        ensures
            final(self).wf(),
            (final(self)@, teardowns) == old(self)@.closed(),
    {
        match self.phase {
            Phase::Idle => match self.bitmap.take() {
                Some(bitmap) => Some(bitmap.discard()),
                None => None,
            },
            _ => None,
        }
    }

    /// Goes on from the measured size of `window`.
    fn sized(&mut self, window: WindowId, width: i32, height: i32) -> (step: Step)
        requires
            old(self)@.surface matches Some(bitmap) ==> bitmap.wf(),
            width >= 0,
            height >= 0,
        ensures
            (final(self)@, step) == old(self)@.sized(window, width, height),
    {
        if width == 0 || height == 0 {
            self.phase = Phase::Idle;
            return Step::Done(Err(Error::WindowNotFound));
        }
        match self.bitmap.take() {
            None => {
                self.phase = Phase::CreatingContext { window, width, height };
                Step::Call(Request::CreateContext)
            },
            Some(bitmap) => {
                if bitmap.has_size(width, height) {
                    self.bitmap = Some(bitmap);
                    self.phase = Phase::Borrowing { window };
                    Step::Call(Request::WindowContext(window))
                } else {
                    let (first, second) = bitmap.discard();
                    let outcome = Err(Error::InvalidWindowSize);
                    self.phase = Phase::Closing { next: Some(second), outcome };
                    Step::Call(Request::Release(first))
                }
            },
        }
    }

    /// Goes on to fetch the error code of a call that gave nothing.
    fn failing(&mut self, held: Option<DeviceContext>) -> (step: Step)
        ensures
            (final(self)@, step) == old(self)@.failing(held),
    {
        self.phase = Phase::Failing { held };
        Step::Call(Request::LastError)
    }

    /// Goes on to hand back the window's context before the grab ends with
    /// `outcome`.
    fn closing(&mut self, source: DeviceContext, outcome: Result<Frame, Error>) -> (step: Step)
        ensures
            (final(self)@, step) == old(self)@.closing(source, outcome),
    {
        self.phase = Phase::Closing { next: None, outcome };
        Step::Call(Request::Release(source.release()))
    }
}

} // verus!
