//! What holds of whole grabs, whatever the host answers.
//!
//! A grab is followed here from its opening through any sequence of
//! answers. The statements below are about every such sequence: they say
//! when a grab cannot yield a frame, when it cannot touch the surface, and
//! what size a frame has when there is one.

use crate::capture::Frame;
use crate::capture::Phase;
use crate::capture::Rect;
use crate::capture::Reply;
use crate::capture::Request;
use crate::capture::Session;
use crate::capture::Step;
use crate::class_name::class_matches;
use crate::error::Error;
use crate::handle::lemma_first_match_none;
use crate::handle::query;
use crate::handle::Window;
use crate::surface::lemma_made_wf;
use crate::surface::DeviceContext;
use crate::surface::Mapping;
use crate::surface::Teardown;
use vstd::prelude::*;

verus! {

/// The session after the answers `replies`, taken one after the other, and
/// what it said to each. The conversation ends with the grab, and it ends
/// early at an answer that the session refuses.
pub open spec fn run(session: Session, replies: Seq<Reply>) -> (Session, Seq<Step>)
    decreases replies.len(),
{
    if replies.len() == 0 {
        (session, seq![])
    } else {
        match session.after(replies[0]) {
            None => (session, seq![]),
            Some((next, step)) => match step {
                Step::Done(_) => (next, seq![step]),
                Step::Call(_) => {
                    let (last, rest) = run(next, replies.drop_first());
                    (last, seq![step] + rest)
                },
            },
        }
    }
}

/// Whether none of `windows` is of class `class`.
pub open spec fn none_of_class(windows: Seq<Window>, class: Seq<char>) -> bool {
    forall|j: int| 0 <= j < windows.len() ==> !class_matches((#[trigger] windows[j]).class@, class)
}

/// Whether `replies` are answers of a host on which no window is of class
/// `class`: no enumeration shows one, and no window asked about carries
/// that class name.
pub open spec fn window_absent(replies: Seq<Reply>, class: Seq<char>) -> bool {
    forall|i: int|
        0 <= i < replies.len() ==> match #[trigger] replies[i] {
            Reply::Windows(windows) => none_of_class(windows@, class),
            Reply::ClassName(units) => !class_matches(units@, class),
            _ => true,
        }
}

/// Whether `replies` are answers of a host on which every window asked
/// about still carries the class name `class`.
pub open spec fn window_present(replies: Seq<Reply>, class: Seq<char>) -> bool {
    forall|i: int|
        0 <= i < replies.len() ==> match #[trigger] replies[i] {
            Reply::ClassName(units) => class_matches(units@, class),
            _ => true,
        }
}

/// Whether `reply`, if it is a client rectangle, is `width` by `height`
/// pixels.
pub open spec fn measures(reply: Reply, width: i32, height: i32) -> bool {
    reply matches Reply::ClientRect(Ok(rect)) ==> {
        &&& rect.wf()
        &&& rect.width() == width
        &&& rect.height() == height
    }
}

/// Whether `replies` are answers of a host on which every client rectangle
/// that is reported is `width` by `height` pixels.
pub open spec fn window_measures(replies: Seq<Reply>, width: i32, height: i32) -> bool {
    forall|i: int| 0 <= i < replies.len() ==> measures(#[trigger] replies[i], width, height)
}

/// Whether `replies` are answers of a host that reports every client
/// rectangle asked for.
pub open spec fn rect_reported(replies: Seq<Reply>) -> bool {
    forall|i: int| 0 <= i < replies.len() ==> !(#[trigger] replies[i] matches Reply::ClientRect(Err(_)))
}

/// Whether a step makes or unmakes a surface or its private context.
pub open spec fn touches_surface(step: Step) -> bool {
    match step {
        Step::Call(Request::CreateContext) => true,
        Step::Call(Request::CreateSurface { .. }) => true,
        Step::Call(Request::Release(Teardown::DeleteContext(_))) => true,
        Step::Call(Request::Release(Teardown::DeleteObject(_))) => true,
        _ => false,
    }
}

/// The window's context, while the session holds it.
pub open spec fn held_context(session: Session) -> Option<DeviceContext> {
    match session.phase {
        Phase::Selecting { source } => Some(source),
        Phase::Copying { source, .. } => Some(source),
        Phase::Restoring { source, .. } => Some(source),
        Phase::Reading { source } => Some(source),
        Phase::Failing { held } => held,
        _ => None,
    }
}

/// Every step keeps a session well formed, a session that ends a grab is at
/// rest, and a frame that a grab ends with holds four bytes for each pixel
/// and is as large as the surface that the session holds then.
pub proof fn lemma_step_keeps_wf(session: Session, reply: Reply)
    requires
        session.wf(),
        session.after(reply) is Some,
    ensures
        ({
            let (next, step) = session.after(reply)->0;
            &&& next.wf()
            &&& next.selector.class == session.selector.class
            &&& step is Done <==> next.phase is Idle
            &&& step matches Step::Done(Ok(frame)) ==> {
                &&& frame.wf()
                &&& frame.data@.len() == frame.width * frame.height * 4
                &&& next.surface matches Some(bitmap)
                &&& bitmap.fits(frame.width, frame.height)
            }
        }),
{
    if let Phase::CreatingSurface { context, width, height, .. } = session.phase {
        if let Reply::Surface(Ok(mapping)) = reply {
            lemma_made_wf(context, width, height, mapping);
        }
    }
}

/// While the session holds the window's context, no step ends the grab, and
/// the context leaves the session in one way only: by the request to hand
/// it back to its window.
pub proof fn lemma_borrowed_context_goes_back(session: Session, reply: Reply)
    requires
        session.wf(),
        session.after(reply) is Some,
        held_context(session) is Some,
    ensures
        ({
            let (next, step) = session.after(reply)->0;
            let source = held_context(session)->0;
            &&& step is Call
            &&& source.handle is Some
            &&& held_context(next) != Some(source) ==> {
                &&& held_context(next) is None
                &&& step == Step::Call(
                    Request::Release(
                        Teardown::ReleaseContext {
                            window: source.handle->0,
                            context: source.inner,
                        },
                    ),
                )
            }
        }),
{
}

/// A private context that waits for its surface is never lost: the answer
/// to the request for the surface either puts the context into the
/// session's new surface, or has it deleted.
pub proof fn lemma_private_context_kept_or_deleted(session: Session, made: Result<Mapping, i32>)
    requires
        session.wf(),
        session.phase is CreatingSurface,
    ensures
        ({
            let context = session.phase->CreatingSurface_context;
            &&& session.after(Reply::Surface(made)) matches Some((next, step))
            &&& match made {
                Ok(mapping) => {
                    &&& next.surface matches Some(bitmap)
                    &&& bitmap.device_context == (DeviceContext { inner: context, handle: None })
                    &&& bitmap.inner == mapping.object
                    &&& !touches_surface(step)
                },
                Err(code) => {
                    &&& next.surface is None
                    &&& step == Step::Call(Request::Release(Teardown::DeleteContext(context)))
                    &&& next.phase matches Phase::Closing { next: None, outcome }
                    &&& outcome == Err::<Frame, Error>(Error::GraphicsApiError(code))
                },
            }
        }),
{
}

/// What was selected into the surface's context before the copy is selected
/// back right after it, whether the copy was made or not.
pub proof fn lemma_selection_restored(session: Session, copied: Result<(), i32>)
    requires
        session.wf(),
        session.phase is Copying,
    ensures
        session.after(Reply::Copied(copied)) matches Some((_, step)) && session.surface matches Some(
            bitmap,
        ) && step == Step::Call(
            Request::Select {
                context: bitmap.device_context.inner,
                object: session.phase->Copying_previous,
            },
        ),
{
}

/// Induction over a conversation. Where every answer is `fair`, and every
/// step that a session within `inv` takes on a fair answer is `good`, stays
/// within `inv` while the grab goes on and is `settled` where it ends the
/// grab, there every step of the conversation is good, only the last one
/// can end the grab, and the session that the conversation leaves is
/// settled with that end or, without one, within `inv`.
pub proof fn lemma_run_induction(
    inv: spec_fn(Session) -> bool,
    fair: spec_fn(Reply) -> bool,
    good: spec_fn(Step) -> bool,
    settled: spec_fn(Session, Step) -> bool,
    session: Session,
    replies: Seq<Reply>,
)
    requires
        inv(session),
        forall|i: int| 0 <= i < replies.len() ==> fair(#[trigger] replies[i]),
        forall|from: Session, reply: Reply|
            inv(from) && fair(reply) && (#[trigger] from.after(reply)) is Some ==> {
                let (next, step) = from.after(reply)->0;
                &&& good(step)
                &&& step is Call ==> inv(next)
                &&& step is Done ==> settled(next, step)
            },
    ensures
        ({
            let (last, steps) = run(session, replies);
            &&& forall|k: int| 0 <= k < steps.len() ==> good(#[trigger] steps[k])
            &&& forall|k: int| 0 <= k < steps.len() - 1 ==> (#[trigger] steps[k]) is Call
            &&& if steps.len() > 0 && steps.last() is Done {
                settled(last, steps.last())
            } else {
                inv(last)
            }
        }),
    decreases replies.len(),
{
    if replies.len() > 0 {
        match session.after(replies[0]) {
            None => {},
            Some((next, step)) => {
                if step is Call {
                    let later = replies.drop_first();
                    assert forall|i: int| 0 <= i < later.len() implies fair(#[trigger] later[i]) by {
                        assert(later[i] == replies[i + 1]);
                    }
                    lemma_run_induction(inv, fair, good, settled, next, later);
                    let (last, rest) = run(next, later);
                    let steps = seq![step] + rest;
                    assert(run(session, replies) == (last, steps));
                    assert forall|k: int| 0 <= k < steps.len() implies good(#[trigger] steps[k]) by {
                        if k > 0 {
                            assert(steps[k] == rest[k - 1]);
                        }
                    }
                    assert forall|k: int| 0 <= k < steps.len() - 1 implies (#[trigger] steps[k])
                        is Call by {
                        if k > 0 {
                            assert(steps[k] == rest[k - 1]);
                        }
                    }
                    if rest.len() > 0 {
                        assert(steps.last() == rest.last());
                    }
                }
            },
        }
    }
}

/// Where no window is of the session's class, a grab ends at once with
/// [`Error::WindowNotFound`], whatever the session had cached: it asks for
/// no surface and no context, keeps the surface it has, and holds no window
/// afterwards.
pub proof fn lemma_absent_window_not_found(session: Session, replies: Seq<Reply>)
    requires
        session.wf(),
        session.phase is Idle,
        window_absent(replies, session.selector.class),
    ensures
        ({
            let (opened, first) = session.begun();
            let (last, steps) = run(opened, replies);
            &&& !touches_surface(Step::Call(first))
            &&& forall|k: int|
                0 <= k < steps.len() ==> #[trigger] steps[k] == Step::Done(
                    Err(Error::WindowNotFound),
                )
            &&& last.surface == session.surface
            &&& steps.len() > 0 ==> last.phase is Idle && last.selector.cached is None
        }),
{
    let (opened, first) = session.begun();
    if replies.len() > 0 {
        assert(window_absent(replies, session.selector.class));
        match replies[0] {
            Reply::Windows(windows) => {
                lemma_first_match_none(windows@, session.selector.class);
            },
            _ => {},
        }
    }
}

/// While the window keeps its class, a session that has it cached never
/// enumerates: the grab opens with the question for the cached window's
/// class name, and the cache is the same afterwards.
pub proof fn lemma_cache_hit(session: Session, replies: Seq<Reply>)
    requires
        session.wf(),
        session.phase is Idle,
        session.selector.cached is Some,
        window_present(replies, session.selector.class),
    ensures
        ({
            let (opened, first) = session.begun();
            let (last, steps) = run(opened, replies);
            &&& first == Request::ClassName(session.selector.cached->0)
            &&& forall|k: int|
                0 <= k < steps.len() ==> #[trigger] steps[k] != Step::Call(Request::EnumerateWindows)
            &&& last.selector == session.selector
        }),
{
    let selector = session.selector;
    let inv = |t: Session| t.wf() && t.selector == selector && !(t.phase is Enumerating);
    let fair = |reply: Reply|
        match reply {
            Reply::ClassName(units) => class_matches(units@, selector.class),
            _ => true,
        };
    let good = |step: Step| step != Step::Call(Request::EnumerateWindows);
    let settled = |t: Session, end: Step| t.selector == selector;
    assert forall|from: Session, reply: Reply|
        inv(from) && fair(reply) && (#[trigger] from.after(reply)) is Some implies {
        let (next, step) = from.after(reply)->0;
        &&& good(step)
        &&& step is Call ==> inv(next)
        &&& step is Done ==> settled(next, step)
    } by {
        lemma_step_keeps_wf(from, reply);
    }
    lemma_run_induction(inv, fair, good, settled, session.begun().0, replies);
}

/// What a grab yields when the window measures `width` by `height` and the
/// session holds no surface of another size: never
/// [`Error::InvalidWindowSize`], and never a frame that is not `width` by
/// `height` pixels of four bytes each.
pub open spec fn yields_measured(step: Step, width: i32, height: i32) -> bool {
    step matches Step::Done(outcome) ==> {
        &&& outcome != Err::<Frame, Error>(Error::InvalidWindowSize)
        &&& outcome matches Ok(frame) ==> {
            &&& frame.width == width
            &&& frame.height == height
            &&& frame.data@.len() == width * height * 4
        }
    }
}

/// A session that holds no surface, or one of the size that the window has,
/// never fails a grab with [`Error::InvalidWindowSize`], and every frame it
/// yields has the size that the window was measured with in that grab.
pub proof fn lemma_frame_has_measured_size(
    session: Session,
    replies: Seq<Reply>,
    width: i32,
    height: i32,
)
    requires
        session.wf(),
        session.phase is Idle,
        session.surface matches Some(bitmap) ==> bitmap.fits(width, height),
        window_measures(replies, width, height),
    ensures
        ({
            let (last, steps) = run(session.begun().0, replies);
            &&& forall|k: int|
                0 <= k < steps.len() ==> yields_measured(#[trigger] steps[k], width, height)
            &&& last.surface matches Some(bitmap) ==> bitmap.fits(width, height)
        }),
{
    let inv = |t: Session|
        {
            &&& t.wf()
            &&& t.surface matches Some(bitmap) ==> bitmap.fits(width, height)
            &&& match t.phase {
                Phase::CreatingContext { width: w, height: h, .. } => w == width && h == height,
                Phase::CreatingSurface { width: w, height: h, .. } => w == width && h == height,
                Phase::Closing { outcome, .. } => outcome != Err::<Frame, Error>(
                    Error::InvalidWindowSize,
                ),
                _ => true,
            }
        };
    let fair = |reply: Reply| measures(reply, width, height);
    let good = |step: Step| yields_measured(step, width, height);
    let settled = |t: Session, end: Step|
        t.wf() && t.phase is Idle && (t.surface matches Some(bitmap) ==> bitmap.fits(
            width,
            height,
        ));
    assert forall|from: Session, reply: Reply|
        inv(from) && fair(reply) && (#[trigger] from.after(reply)) is Some implies {
        let (next, step) = from.after(reply)->0;
        &&& good(step)
        &&& step is Call ==> inv(next)
        &&& step is Done ==> settled(next, step)
    } by {
        lemma_step_keeps_wf(from, reply);
    }
    lemma_run_induction(inv, fair, good, settled, session.begun().0, replies);
}

/// Whether a step, if it ends the grab with a frame, ends it with one of
/// `width` by `height` pixels, four bytes each.
pub open spec fn frame_is_measured(step: Step, width: i32, height: i32) -> bool {
    step matches Step::Done(Ok(frame)) ==> {
        &&& frame.width == width
        &&& frame.height == height
        &&& frame.data@.len() == width * height * 4
    }
}

/// No frame carries another size than the one that the window was measured
/// with in that grab, whatever surface the session held before: a surface
/// of another size is given up, never read.
pub proof fn lemma_frame_size_is_measured(
    session: Session,
    replies: Seq<Reply>,
    width: i32,
    height: i32,
)
    requires
        session.wf(),
        session.phase is Idle,
        window_measures(replies, width, height),
    ensures
        ({
            let (last, steps) = run(session.begun().0, replies);
            forall|k: int|
                0 <= k < steps.len() ==> frame_is_measured(#[trigger] steps[k], width, height)
        }),
{
    let inv = |t: Session|
        {
            &&& t.wf()
            &&& match t.phase {
                Phase::Idle => true,
                Phase::Enumerating => true,
                Phase::Validating => true,
                Phase::Measuring { .. } => true,
                Phase::CreatingContext { width: w, height: h, .. } => w == width && h == height,
                Phase::CreatingSurface { width: w, height: h, .. } => w == width && h == height,
                Phase::Failing { .. } => true,
                Phase::Closing { outcome, .. } => outcome matches Ok(frame) ==> frame.width
                    == width && frame.height == height,
                _ => t.surface matches Some(bitmap) && bitmap.fits(width, height),
            }
        };
    let fair = |reply: Reply| measures(reply, width, height);
    let good = |step: Step| frame_is_measured(step, width, height);
    let settled = |t: Session, end: Step| true;
    assert forall|from: Session, reply: Reply|
        inv(from) && fair(reply) && (#[trigger] from.after(reply)) is Some implies {
        let (next, step) = from.after(reply)->0;
        &&& good(step)
        &&& step is Call ==> inv(next)
        &&& step is Done ==> settled(next, step)
    } by {
        lemma_step_keeps_wf(from, reply);
    }
    lemma_run_induction(inv, fair, good, settled, session.begun().0, replies);
}

/// After a grab at some size, a grab of the window at the same size uses
/// the surface that is there: it neither makes nor unmakes a surface or a
/// private context, the session holds the same surface afterwards, and a
/// frame it yields is of that size, four bytes for each pixel.
pub proof fn lemma_surface_reused(
    session: Session,
    replies: Seq<Reply>,
    width: i32,
    height: i32,
)
    requires
        session.wf(),
        session.phase is Idle,
        session.surface matches Some(bitmap) && bitmap.fits(width, height),
        window_measures(replies, width, height),
    ensures
        ({
            let (opened, first) = session.begun();
            let (last, steps) = run(opened, replies);
            &&& !touches_surface(Step::Call(first))
            &&& forall|k: int| 0 <= k < steps.len() ==> !touches_surface(#[trigger] steps[k])
            &&& forall|k: int|
                0 <= k < steps.len() ==> yields_measured(#[trigger] steps[k], width, height)
            &&& last.surface == session.surface
        }),
{
    let surface = session.surface;
    let inv = |t: Session|
        {
            &&& t.wf()
            &&& t.surface == surface
            &&& t.phase matches Phase::Closing { next, .. } ==> next is None
        };
    let fair = |reply: Reply| measures(reply, width, height);
    let good = |step: Step| !touches_surface(step);
    let settled = |t: Session, end: Step| t.surface == surface;
    assert forall|from: Session, reply: Reply|
        inv(from) && fair(reply) && (#[trigger] from.after(reply)) is Some implies {
        let (next, step) = from.after(reply)->0;
        &&& good(step)
        &&& step is Call ==> inv(next)
        &&& step is Done ==> settled(next, step)
    } by {
        lemma_step_keeps_wf(from, reply);
    }
    lemma_run_induction(inv, fair, good, settled, session.begun().0, replies);
    lemma_frame_has_measured_size(session, replies, width, height);
}

/// What a grab yields when the window no longer has the size of the
/// session's surface: no frame, and no failure but
/// [`Error::WindowNotFound`] and [`Error::InvalidWindowSize`].
pub open spec fn yields_no_stale_frame(step: Step) -> bool {
    step matches Step::Done(outcome) ==> {
        ||| outcome == Err::<Frame, Error>(Error::WindowNotFound)
        ||| outcome == Err::<Frame, Error>(Error::InvalidWindowSize)
    }
}

/// A grab of a window that has another size than the session's surface
/// yields no frame. Once the window is found and measured the grab fails
/// with [`Error::InvalidWindowSize`], and the session holds no surface
/// afterwards.
pub proof fn lemma_resize_fails(session: Session, replies: Seq<Reply>, width: i32, height: i32)
    requires
        session.wf(),
        session.phase is Idle,
        session.surface matches Some(bitmap) && !bitmap.fits(width, height),
        width != 0,
        height != 0,
        window_measures(replies, width, height),
        rect_reported(replies),
    ensures
        ({
            let (last, steps) = run(session.begun().0, replies);
            &&& forall|k: int| 0 <= k < steps.len() ==> yields_no_stale_frame(#[trigger] steps[k])
            &&& steps.len() > 0 && steps.last() == Step::Done(
                Err(Error::InvalidWindowSize),
            ) ==> last.surface is None && last.phase is Idle
        }),
{
    let surface = session.surface;
    let inv = |t: Session|
        {
            &&& t.wf()
            &&& match t.phase {
                Phase::Enumerating => t.surface == surface,
                Phase::Validating => t.surface == surface,
                Phase::Measuring { .. } => t.surface == surface,
                Phase::Closing { outcome, .. } => t.surface is None && outcome == Err::<
                    Frame,
                    Error,
                >(Error::InvalidWindowSize),
                _ => false,
            }
        };
    let fair = |reply: Reply|
        measures(reply, width, height) && !(reply matches Reply::ClientRect(Err(_)));
    let good = |step: Step| yields_no_stale_frame(step);
    let settled = |t: Session, end: Step|
        end == Step::Done(Err(Error::InvalidWindowSize)) ==> t.surface is None && t.phase is Idle;
    assert forall|from: Session, reply: Reply|
        inv(from) && fair(reply) && (#[trigger] from.after(reply)) is Some implies {
        let (next, step) = from.after(reply)->0;
        &&& good(step)
        &&& step is Call ==> inv(next)
        &&& step is Done ==> settled(next, step)
    } by {
        lemma_step_keeps_wf(from, reply);
    }
    lemma_run_induction(inv, fair, good, settled, session.begun().0, replies);
}

/// A conversation keeps a session well formed, and a grab that has ended
/// leaves the session at rest.
pub proof fn lemma_run_wf(session: Session, replies: Seq<Reply>)
    requires
        session.wf(),
    ensures
        ({
            let (last, steps) = run(session, replies);
            &&& last.wf()
            &&& last.selector.class == session.selector.class
            &&& steps.len() > 0 && steps.last() is Done ==> last.phase is Idle
        }),
{
    let class = session.selector.class;
    let inv = |t: Session| t.wf() && t.selector.class == class;
    let fair = |reply: Reply| true;
    let good = |step: Step| true;
    let settled = |t: Session, end: Step| t.wf() && t.selector.class == class && t.phase is Idle;
    assert forall|from: Session, reply: Reply|
        inv(from) && fair(reply) && (#[trigger] from.after(reply)) is Some implies {
        let (next, step) = from.after(reply)->0;
        &&& good(step)
        &&& step is Call ==> inv(next)
        &&& step is Done ==> settled(next, step)
    } by {
        lemma_step_keeps_wf(from, reply);
    }
    lemma_run_induction(inv, fair, good, settled, session, replies);
}

/// However a grab goes, the session has a surface afterwards exactly when
/// the grab did not fail with [`Error::InvalidWindowSize`] and either had
/// one before or got as far as making one; a failed host call never costs
/// the surface. In particular: a grab that fails with
/// [`Error::InvalidWindowSize`] leaves no surface, and a grab of a session
/// with a surface that fails with [`Error::GraphicsApiError`] or
/// [`Error::WindowNotFound`] leaves that surface as it was.
pub proof fn lemma_surface_after_failure(session: Session, replies: Seq<Reply>)
    requires
        session.wf(),
        session.phase is Idle,
    ensures
        ({
            let (last, steps) = run(session.begun().0, replies);
            steps.len() > 0 ==> match steps.last() {
                Step::Done(Err(Error::InvalidWindowSize)) => last.surface is None,
                Step::Done(Err(_)) => session.surface is Some ==> last.surface == session.surface,
                _ => true,
            }
        }),
{
    let surface = session.surface;
    let inv = |t: Session|
        {
            &&& t.wf()
            &&& match t.phase {
                Phase::Closing { outcome: Err(Error::InvalidWindowSize), .. } => true,
                _ => surface is Some ==> t.surface == surface,
            }
        };
    let fair = |reply: Reply| true;
    let good = |step: Step| true;
    let settled = |t: Session, end: Step|
        match end {
            Step::Done(Err(Error::InvalidWindowSize)) => t.surface is None,
            Step::Done(Err(_)) => surface is Some ==> t.surface == surface,
            _ => true,
        };
    assert forall|from: Session, reply: Reply|
        inv(from) && fair(reply) && (#[trigger] from.after(reply)) is Some implies {
        let (next, step) = from.after(reply)->0;
        &&& good(step)
        &&& step is Call ==> inv(next)
        &&& step is Done ==> settled(next, step)
    } by {
        lemma_step_keeps_wf(from, reply);
    }
    lemma_run_induction(inv, fair, good, settled, session.begun().0, replies);
}

/// A resize is reported as such. Where the session has the window cached
/// and the window is still of its class, but has another size than the
/// session's surface, the grab can end in one way only: with
/// [`Error::InvalidWindowSize`].
pub proof fn lemma_resize_reported(session: Session, replies: Seq<Reply>, width: i32, height: i32)
    requires
        session.wf(),
        session.phase is Idle,
        session.selector.cached is Some,
        session.surface matches Some(bitmap) && !bitmap.fits(width, height),
        width != 0,
        height != 0,
        window_present(replies, session.selector.class),
        window_measures(replies, width, height),
        rect_reported(replies),
    ensures
        ({
            let (last, steps) = run(session.begun().0, replies);
            &&& forall|k: int|
                0 <= k < steps.len() && (#[trigger] steps[k]) is Done ==> steps[k] == Step::Done(
                    Err(Error::InvalidWindowSize),
                )
            &&& steps.len() > 0 && steps.last() is Done ==> last == session.selector_only()
        }),
{
    let selector = session.selector;
    let surface = session.surface;
    let gone = session.selector_only();
    let inv = |t: Session|
        {
            &&& t.wf()
            &&& t.selector == selector
            &&& match t.phase {
                Phase::Validating => t.surface == surface,
                Phase::Measuring { .. } => t.surface == surface,
                Phase::Closing { outcome, .. } => t.surface is None && outcome == Err::<
                    Frame,
                    Error,
                >(Error::InvalidWindowSize),
                _ => false,
            }
        };
    let fair = |reply: Reply|
        {
            &&& measures(reply, width, height)
            &&& !(reply matches Reply::ClientRect(Err(_)))
            &&& reply matches Reply::ClassName(units) ==> class_matches(units@, selector.class)
        };
    let good = |step: Step| step is Done ==> step == Step::Done(Err(Error::InvalidWindowSize));
    let settled = |t: Session, end: Step| t == gone;
    assert forall|from: Session, reply: Reply|
        inv(from) && fair(reply) && (#[trigger] from.after(reply)) is Some implies {
        let (next, step) = from.after(reply)->0;
        &&& good(step)
        &&& step is Call ==> inv(next)
        &&& step is Done ==> settled(next, step)
    } by {
        lemma_step_keeps_wf(from, reply);
    }
    lemma_run_induction(inv, fair, good, settled, session.begun().0, replies);
}

/// A grab that yields a frame leaves the session at rest with the window
/// cached and with a surface of the size of the frame: what the next grab
/// of an unchanged window finds and uses.
pub proof fn lemma_frame_leaves_window_and_surface(session: Session, replies: Seq<Reply>)
    requires
        session.wf(),
        session.phase is Idle,
    ensures
        ({
            let (last, steps) = run(session.begun().0, replies);
            steps.len() > 0 ==> (steps.last() matches Step::Done(Ok(frame)) ==> {
                &&& last.wf()
                &&& last.phase is Idle
                &&& last.selector.cached is Some
                &&& last.surface matches Some(bitmap)
                &&& bitmap.fits(frame.width, frame.height)
                &&& frame.data@.len() == frame.width * frame.height * 4
            })
        }),
{
    let inv = |t: Session|
        {
            &&& t.wf()
            &&& match t.phase {
                Phase::Enumerating => true,
                Phase::Validating => true,
                Phase::Failing { .. } => true,
                Phase::Closing { outcome: Err(_), .. } => true,
                _ => t.selector.cached is Some,
            }
        };
    let fair = |reply: Reply| true;
    let good = |step: Step| true;
    let settled = |t: Session, end: Step|
        end matches Step::Done(Ok(frame)) ==> {
            &&& t.wf()
            &&& t.phase is Idle
            &&& t.selector.cached is Some
            &&& t.surface matches Some(bitmap)
            &&& bitmap.fits(frame.width, frame.height)
            &&& frame.data@.len() == frame.width * frame.height * 4
        };
    assert forall|from: Session, reply: Reply|
        inv(from) && fair(reply) && (#[trigger] from.after(reply)) is Some implies {
        let (next, step) = from.after(reply)->0;
        &&& good(step)
        &&& step is Call ==> inv(next)
        &&& step is Done ==> settled(next, step)
    } by {
        lemma_step_keeps_wf(from, reply);
    }
    lemma_run_induction(inv, fair, good, settled, session.begun().0, replies);
}

/// After a grab that yielded a frame, a grab of the window at the size of
/// that frame uses the surface that is there: it neither makes nor unmakes
/// a surface or a private context, the session holds the same surface
/// afterwards, and a frame it yields has the size of the first, four bytes
/// for each pixel.
pub proof fn lemma_second_grab_reuses_surface(
    session: Session,
    first: Seq<Reply>,
    second: Seq<Reply>,
    frame: Frame,
)
    requires
        session.wf(),
        session.phase is Idle,
        run(session.begun().0, first).1.len() > 0,
        run(session.begun().0, first).1.last() == Step::Done(Ok(frame)),
        window_measures(second, frame.width, frame.height),
    ensures
        ({
            let (between, _) = run(session.begun().0, first);
            let (opened, request) = between.begun();
            let (last, steps) = run(opened, second);
            &&& !touches_surface(Step::Call(request))
            &&& forall|k: int| 0 <= k < steps.len() ==> !touches_surface(#[trigger] steps[k])
            &&& forall|k: int|
                0 <= k < steps.len() ==> yields_measured(
                    #[trigger] steps[k],
                    frame.width,
                    frame.height,
                )
            &&& last.surface == between.surface
        }),
{
    let (between, _) = run(session.begun().0, first);
    lemma_frame_leaves_window_and_surface(session, first);
    lemma_surface_reused(between, second, frame.width, frame.height);
}

/// A resize costs the surface and one grab. The grab that finds the window
/// at another size than the surface gives the surface back, object first
/// and context second, and then fails with [`Error::InvalidWindowSize`],
/// leaving the session at rest without a surface.
pub proof fn lemma_stale_surface_given_up(session: Session, rect: Rect)
    requires
        session.wf(),
        session.phase is Measuring,
        rect.wf(),
        rect.width() != 0,
        rect.height() != 0,
        session.surface matches Some(bitmap) && !bitmap.fits(rect.width(), rect.height()),
    ensures
        ({
            let bitmap = session.surface->0;
            let (first, steps) = run(
                session,
                seq![Reply::ClientRect(Ok(rect)), Reply::Released, Reply::Released],
            );
            &&& steps == seq![
                Step::Call(Request::Release(Teardown::DeleteObject(bitmap.inner))),
                Step::Call(Request::Release(Teardown::DeleteContext(bitmap.device_context.inner))),
                Step::Done(Err(Error::InvalidWindowSize)),
            ]
            &&& first == session.selector_only()
        }),
{
    let replies = seq![Reply::ClientRect(Ok(rect)), Reply::Released, Reply::Released];
    let (one, step_one) = session.after(replies[0])->0;
    let later = replies.drop_first();
    let (two, step_two) = one.after(later[0])->0;
    let last = later.drop_first();
    let (three, step_three) = two.after(last[0])->0;
    assert(run(three, last.drop_first()).1 =~= seq![]);
    assert(run(two, last) == (three, seq![step_three]));
    assert(run(one, later).1 =~= seq![step_two, step_three]);
    assert(run(session, replies).1 =~= seq![step_one, step_two, step_three]);
}

/// The failure after a resize comes once. Where a grab failed with
/// [`Error::InvalidWindowSize`], the grab after it does not, as long as
/// the window keeps one size during that grab: it makes a new surface, and
/// a frame it yields has the size that the window has then.
pub proof fn lemma_resize_fails_once(
    session: Session,
    first: Seq<Reply>,
    second: Seq<Reply>,
    width: i32,
    height: i32,
)
    requires
        session.wf(),
        session.phase is Idle,
        window_measures(second, width, height),
    ensures
        ({
            let (between, failed) = run(session.begun().0, first);
            let (last, steps) = run(between.begun().0, second);
            failed.len() > 0 && failed.last() == Step::Done(Err(Error::InvalidWindowSize))
                ==> forall|k: int|
                0 <= k < steps.len() ==> yields_measured(#[trigger] steps[k], width, height)
        }),
{
    let (between, failed) = run(session.begun().0, first);
    if failed.len() > 0 && failed.last() == Step::Done(Err(Error::InvalidWindowSize)) {
        lemma_run_wf(session.begun().0, first);
        lemma_surface_after_failure(session, first);
        lemma_frame_has_measured_size(between, second, width, height);
    }
}

/// Whether `reply` is an answer of a host on which the window of class
/// `class` is there, measures `width` by `height` pixels, and every call
/// does what it was made for.
pub open spec fn willing(reply: Reply, class: Seq<char>, width: i32, height: i32) -> bool {
    match reply {
        Reply::Windows(windows) => query(windows@, class) is Some,
        Reply::ClassName(units) => class_matches(units@, class),
        Reply::ClientRect(Ok(rect)) => rect.wf() && rect.width() == width && rect.height()
            == height,
        Reply::ClientRect(Err(_)) => false,
        Reply::Context(context) => !context.invalid(),
        Reply::Surface(made) => made is Ok,
        Reply::Selected(previous) => !previous.invalid(),
        Reply::Copied(copied) => copied is Ok,
        Reply::Pixels(_) => true,
        Reply::Released => true,
        Reply::LastError(_) => true,
    }
}

/// Whether a session is on its way to a frame of `width` by `height`
/// pixels: nothing has failed, and what it holds is of that size.
pub open spec fn on_course(session: Session, class: Seq<char>, width: i32, height: i32) -> bool {
    &&& session.wf()
    &&& session.selector.class == class
    &&& session.surface matches Some(bitmap) ==> bitmap.fits(width, height)
    &&& match session.phase {
        Phase::CreatingContext { width: w, height: h, .. } => w == width && h == height,
        Phase::CreatingSurface { width: w, height: h, .. } => w == width && h == height,
        Phase::Restoring { copied, .. } => copied is Ok,
        Phase::Failing { .. } => false,
        Phase::Closing { outcome, .. } => outcome is Ok,
        _ => true,
    }
}

/// Whether a step, if it ends the grab, ends it with a frame of `width` by
/// `height` pixels, four bytes each.
pub open spec fn ends_with_frame(step: Step, width: i32, height: i32) -> bool {
    step is Done ==> {
        &&& step matches Step::Done(Ok(frame))
        &&& frame.width == width
        &&& frame.height == height
        &&& frame.data@.len() == width * height * 4
    }
}

/// On a willing host a session stays on course: each step either goes on,
/// still on course, or ends the grab with the frame.
pub proof fn lemma_willing_step(
    session: Session,
    reply: Reply,
    class: Seq<char>,
    width: i32,
    height: i32,
)
    requires
        on_course(session, class, width, height),
        width > 0,
        height > 0,
        willing(reply, class, width, height),
        session.after(reply) is Some,
    ensures
        ({
            let (next, step) = session.after(reply)->0;
            &&& ends_with_frame(step, width, height)
            &&& step is Call ==> on_course(next, class, width, height) && !(next.phase is Idle)
        }),
{
    lemma_step_keeps_wf(session, reply);
}

/// On a willing host a grab cannot fail. Where the window is there with an
/// area of `width` by `height` pixels, every host call succeeds, and the
/// session holds no surface of another size, the grab cannot end but with a
/// frame of `width` by `height` pixels.
pub proof fn lemma_grab_succeeds_on_willing_host(
    session: Session,
    replies: Seq<Reply>,
    width: i32,
    height: i32,
)
    requires
        session.wf(),
        session.phase is Idle,
        session.surface matches Some(bitmap) ==> bitmap.fits(width, height),
        width > 0,
        height > 0,
        forall|i: int|
            0 <= i < replies.len() ==> willing(
                #[trigger] replies[i],
                session.selector.class,
                width,
                height,
            ),
    ensures
        ({
            let (last, steps) = run(session.begun().0, replies);
            forall|k: int|
                0 <= k < steps.len() ==> ends_with_frame(#[trigger] steps[k], width, height)
        }),
{
    let class = session.selector.class;
    let inv = |t: Session| on_course(t, class, width, height);
    let fair = |reply: Reply| willing(reply, class, width, height);
    let good = |step: Step| ends_with_frame(step, width, height);
    let settled = |t: Session, end: Step| true;
    assert forall|from: Session, reply: Reply|
        inv(from) && fair(reply) && (#[trigger] from.after(reply)) is Some implies {
        let (next, step) = from.after(reply)->0;
        &&& good(step)
        &&& step is Call ==> inv(next)
        &&& step is Done ==> settled(next, step)
    } by {
        lemma_willing_step(from, reply, class, width, height);
    }
    lemma_run_induction(inv, fair, good, settled, session.begun().0, replies);
}

/// Whether `reply` is an answer of the kind that `request` asks for: the
/// reply named with the request, a client rectangle with an extent, as
/// many bytes of pixels as were asked for.
pub open spec fn answers(request: Request, reply: Reply) -> bool {
    match (request, reply) {
        (Request::EnumerateWindows, Reply::Windows(_)) => true,
        (Request::ClassName(_), Reply::ClassName(_)) => true,
        (Request::ClientRect(_), Reply::ClientRect(Ok(rect))) => rect.wf(),
        (Request::ClientRect(_), Reply::ClientRect(Err(_))) => true,
        (Request::CreateContext, Reply::Context(_)) => true,
        (Request::CreateSurface { .. }, Reply::Surface(_)) => true,
        (Request::WindowContext(_), Reply::Context(_)) => true,
        (Request::Select { .. }, Reply::Selected(_)) => true,
        (Request::Copy(_), Reply::Copied(_)) => true,
        (Request::ReadPixels { size, .. }, Reply::Pixels(data)) => data@.len() == size,
        (Request::Release(_), Reply::Released) => true,
        (Request::LastError, Reply::LastError(_)) => true,
        _ => false,
    }
}

/// Whether a session stands where it waits for the answer to `request`.
pub open spec fn waits_on(session: Session, request: Request) -> bool {
    match (session.phase, request) {
        (Phase::Enumerating, Request::EnumerateWindows) => true,
        (Phase::Validating, Request::ClassName(_)) => true,
        (Phase::Measuring { .. }, Request::ClientRect(_)) => true,
        (Phase::CreatingContext { .. }, Request::CreateContext) => true,
        (Phase::CreatingSurface { .. }, Request::CreateSurface { .. }) => true,
        (Phase::Borrowing { .. }, Request::WindowContext(_)) => true,
        (Phase::Selecting { .. }, Request::Select { .. }) => true,
        (Phase::Copying { .. }, Request::Copy(_)) => true,
        (Phase::Restoring { .. }, Request::Select { .. }) => true,
        (Phase::Reading { .. }, Request::ReadPixels { size, .. }) => {
            session.surface matches Some(bitmap) && size == bitmap.size
        },
        (Phase::Failing { .. }, Request::LastError) => true,
        (Phase::Closing { .. }, Request::Release(_)) => true,
        _ => false,
    }
}

/// A session waits on what it asked for: after the opening of a grab on
/// its first request, and after every step on the request of that step.
pub proof fn lemma_session_waits_on_its_request(session: Session, reply: Reply)
    requires
        session.wf(),
    ensures
        session.phase is Idle ==> waits_on(session.begun().0, session.begun().1),
        session.after(reply) matches Some((next, Step::Call(request))) ==> waits_on(next, request),
{
    if session.after(reply) is Some {
        lemma_step_keeps_wf(session, reply);
    }
}

/// A session takes the answers to its request and no others: a reply moves
/// the session exactly when it is of the kind that the request asks for.
pub proof fn lemma_answers_are_taken(session: Session, request: Request, reply: Reply)
    requires
        session.wf(),
        waits_on(session, request),
    ensures
        session.after(reply) is Some <==> answers(request, reply),
{
}

/// Whether `replies` are answers of a host that answers what it is asked:
/// the first is of the kind that `request` asks for, and each of the others
/// of the kind that the session asks for in the step before it.
pub open spec fn host_answers(session: Session, request: Request, replies: Seq<Reply>) -> bool
    decreases replies.len(),
{
    replies.len() > 0 ==> {
        &&& answers(request, replies[0])
        &&& session.after(replies[0]) matches Some((next, Step::Call(then))) ==> host_answers(
            next,
            then,
            replies.drop_first(),
        )
    }
}

/// A session on course, given as many answers of a willing host as its
/// phase has answers left, ends the grab with the frame.
proof fn lemma_on_course_ends_with_frame(
    session: Session,
    request: Request,
    replies: Seq<Reply>,
    class: Seq<char>,
    width: i32,
    height: i32,
)
    requires
        on_course(session, class, width, height),
        !(session.phase is Idle),
        width > 0,
        height > 0,
        waits_on(session, request),
        host_answers(session, request, replies),
        forall|i: int| 0 <= i < replies.len() ==> willing(#[trigger] replies[i], class, width, height),
        replies.len() >= answers_left(session.phase),
    ensures
        ({
            let (last, steps) = run(session, replies);
            &&& 0 < steps.len() <= answers_left(session.phase)
            &&& steps.last() is Done
            &&& ends_with_frame(steps.last(), width, height)
        }),
    decreases replies.len(),
{
    lemma_run_is_bounded(session, replies);
    assert(willing(replies[0], class, width, height));
    lemma_answers_are_taken(session, request, replies[0]);
    let (next, step) = session.after(replies[0])->0;
    lemma_willing_step(session, replies[0], class, width, height);
    if step is Call {
        let later = replies.drop_first();
        let then = step->Call_0;
        lemma_session_waits_on_its_request(session, replies[0]);
        assert forall|i: int| 0 <= i < later.len() implies willing(
            #[trigger] later[i],
            class,
            width,
            height,
        ) by {
            assert(later[i] == replies[i + 1]);
        }
        assert(answers_left(next.phase) < answers_left(session.phase));
        lemma_on_course_ends_with_frame(next, then, later, class, width, height);
        let (last, rest) = run(next, later);
        let steps = seq![step] + rest;
        assert(run(session, replies) == (last, steps));
        assert(steps.last() == rest.last());
    }
}

/// On a willing host a grab yields a frame. Where the window is there with
/// an area of `width` by `height` pixels, every host call succeeds and is
/// answered in kind, and the session holds no surface of another size, the
/// conversation ends within eleven answers, and it ends with a frame of
/// `width` by `height` pixels, four bytes each.
pub proof fn lemma_willing_host_yields_frame(
    session: Session,
    replies: Seq<Reply>,
    width: i32,
    height: i32,
)
    requires
        session.wf(),
        session.phase is Idle,
        session.surface matches Some(bitmap) ==> bitmap.fits(width, height),
        width > 0,
        height > 0,
        forall|i: int|
            0 <= i < replies.len() ==> willing(
                #[trigger] replies[i],
                session.selector.class,
                width,
                height,
            ),
        host_answers(session.begun().0, session.begun().1, replies),
        replies.len() >= 11,
    ensures
        ({
            let (last, steps) = run(session.begun().0, replies);
            &&& 0 < steps.len() <= 11
            &&& steps.last() matches Step::Done(Ok(frame))
            &&& frame.width == width
            &&& frame.height == height
            &&& frame.data@.len() == width * height * 4
            &&& last.phase is Idle
            &&& last.surface matches Some(bitmap)
            &&& bitmap.fits(width, height)
        }),
{
    let (opened, first) = session.begun();
    lemma_on_course_ends_with_frame(
        opened,
        first,
        replies,
        session.selector.class,
        width,
        height,
    );
    lemma_frame_leaves_window_and_surface(session, replies);
}

/// A grab ends with [`Error::WindowNotFound`] for one of three reasons
/// only: the enumeration showed no window of the class, the cached window
/// is no longer of the class, or the window has no area.
pub proof fn lemma_not_found_has_a_reason(session: Session, reply: Reply)
    requires
        session.wf(),
        session.after(reply) matches Some((_, step)) && step == Step::Done(
            Err(Error::WindowNotFound),
        ),
    ensures
        match reply {
            Reply::Windows(windows) => {
                &&& session.phase is Enumerating
                &&& query(windows@, session.selector.class) is None
            },
            Reply::ClassName(units) => {
                &&& session.phase is Validating
                &&& !class_matches(units@, session.selector.class)
            },
            Reply::ClientRect(Ok(rect)) => {
                &&& session.phase is Measuring
                &&& rect.wf()
                &&& rect.width() == 0 || rect.height() == 0
            },
            _ => false,
        },
{
}

/// The answers that a session in this phase needs at most before its grab
/// ends.
pub open spec fn answers_left(phase: Phase) -> nat {
    match phase {
        Phase::Idle => 0,
        Phase::Enumerating => 11,
        Phase::Validating => 10,
        Phase::Measuring { .. } => 9,
        Phase::CreatingContext { .. } => 8,
        Phase::CreatingSurface { .. } => 7,
        Phase::Borrowing { .. } => 6,
        Phase::Selecting { .. } => 5,
        Phase::Copying { .. } => 4,
        Phase::Restoring { .. } => 3,
        Phase::Reading { .. } => 2,
        Phase::Failing { held: Some(_) } => 2,
        Phase::Failing { held: None } => 1,
        Phase::Closing { next: Some(_), .. } => 2,
        Phase::Closing { next: None, .. } => 1,
    }
}

/// Whatever the host answers, a session takes no more steps than its phase
/// has answers left.
pub proof fn lemma_run_is_bounded(session: Session, replies: Seq<Reply>)
    ensures
        run(session, replies).1.len() <= answers_left(session.phase),
    decreases replies.len(),
{
    if replies.len() > 0 {
        match session.after(replies[0]) {
            None => {},
            Some((next, step)) => {
                if step is Call {
                    assert(answers_left(next.phase) < answers_left(session.phase));
                    lemma_run_is_bounded(next, replies.drop_first());
                }
            },
        }
    }
}

/// Every grab ends: whatever the host answers, a grab takes eleven answers
/// at most.
pub proof fn lemma_grab_is_bounded(session: Session, replies: Seq<Reply>)
    ensures
        run(session.begun().0, replies).1.len() <= 11,
{
    lemma_run_is_bounded(session.begun().0, replies);
}

} // verus!
