use window_capture::capture::Blit;
use window_capture::capture::Capture;
use window_capture::capture::Frame;
use window_capture::capture::Rect;
use window_capture::capture::Reply;
use window_capture::capture::Request;
use window_capture::capture::Step;
use window_capture::error::Error;
use window_capture::handle::Handle;
use window_capture::handle::Window;
use window_capture::handle::WindowId;
use window_capture::surface::ContextId;
use window_capture::surface::Mapping;
use window_capture::surface::ObjectId;
use window_capture::surface::SurfaceLayout;
use window_capture::surface::Teardown;

const STOCK_OBJECT: isize = 0x0185_000F;

/// A window of the pretended desktop.
struct Shown {
    raw: isize,
    class: &'static str,
    width: i32,
    height: i32,
}

/// A desktop that answers requests as a host would, and keeps count of what
/// it was asked and of what it has handed out.
struct Desktop {
    windows: Vec<Shown>,
    asked: Vec<Request>,
    next_id: isize,
    contexts: Vec<isize>,
    objects: Vec<isize>,
    selected: isize,
    last_error: i32,
    fail_rect: bool,
    fail_create_context: bool,
    fail_create_surface: bool,
    fail_window_context: bool,
    fail_select: bool,
    fail_copy: bool,
    fill: u8,
}

impl Desktop {
    fn new() -> Desktop {
        Desktop {
            windows: Vec::new(),
            asked: Vec::new(),
            next_id: 0x100,
            contexts: Vec::new(),
            objects: Vec::new(),
            selected: STOCK_OBJECT,
            last_error: 0,
            fail_rect: false,
            fail_create_context: false,
            fail_create_surface: false,
            fail_window_context: false,
            fail_select: false,
            fail_copy: false,
            fill: 0xAB,
        }
    }

    fn with(raw: isize, class: &'static str, width: i32, height: i32) -> Desktop {
        let mut desktop = Desktop::new();
        desktop.windows.push(Shown { raw, class, width, height });
        desktop
    }

    fn fresh_id(&mut self) -> isize {
        self.next_id += 1;
        self.next_id
    }

    fn forget(list: &mut Vec<isize>, raw: isize) {
        let at = list.iter().position(|held| *held == raw).expect("released what was not held");
        list.remove(at);
    }

    fn perform(&mut self, request: Request) -> Reply {
        self.asked.push(request);
        match request {
            Request::EnumerateWindows => Reply::Windows(
                self.windows
                    .iter()
                    .map(|shown| Window {
                        id: WindowId { raw: shown.raw },
                        class: shown.class.encode_utf16().collect(),
                    })
                    .collect(),
            ),
            Request::ClassName(window) => Reply::ClassName(
                self.windows
                    .iter()
                    .find(|shown| shown.raw == window.raw)
                    .map(|shown| shown.class.encode_utf16().collect())
                    .unwrap_or_default(),
            ),
            Request::ClientRect(window) => {
                let shown = self.windows.iter().find(|shown| shown.raw == window.raw);
                match shown {
                    Some(shown) if !self.fail_rect => Reply::ClientRect(Ok(Rect {
                        left: 0,
                        top: 0,
                        right: shown.width,
                        bottom: shown.height,
                    })),
                    _ => Reply::ClientRect(Err(1400)),
                }
            }
            Request::CreateContext => {
                if self.fail_create_context {
                    self.last_error = 8;
                    return Reply::Context(ContextId { raw: 0 });
                }
                let raw = self.fresh_id();
                self.contexts.push(raw);
                Reply::Context(ContextId { raw })
            }
            Request::CreateSurface { context, .. } => {
                assert!(self.contexts.contains(&context.raw));
                if self.fail_create_surface {
                    return Reply::Surface(Err(87));
                }
                let raw = self.fresh_id();
                self.objects.push(raw);
                Reply::Surface(Ok(Mapping { object: ObjectId { raw }, buffer: 0x7000_0000 }))
            }
            Request::WindowContext(_) => {
                if self.fail_window_context {
                    self.last_error = 1400;
                    return Reply::Context(ContextId { raw: 0 });
                }
                let raw = self.fresh_id();
                self.contexts.push(raw);
                Reply::Context(ContextId { raw })
            }
            Request::Select { context, object } => {
                assert!(self.contexts.contains(&context.raw));
                if self.fail_select && object.raw != STOCK_OBJECT {
                    self.last_error = 6;
                    return Reply::Selected(ObjectId { raw: 0 });
                }
                let previous = self.selected;
                self.selected = object.raw;
                Reply::Selected(ObjectId { raw: previous })
            }
            Request::Copy(blit) => {
                assert!(self.contexts.contains(&blit.target.raw));
                assert!(self.contexts.contains(&blit.source.raw));
                if self.fail_copy {
                    Reply::Copied(Err(-2147024891))
                } else {
                    Reply::Copied(Ok(()))
                }
            }
            Request::ReadPixels { size, .. } => {
                Reply::Pixels(vec![self.fill; size as usize])
            }
            Request::Release(teardown) => {
                match teardown {
                    Teardown::ReleaseContext { context, .. } => {
                        Desktop::forget(&mut self.contexts, context.raw)
                    }
                    Teardown::DeleteContext(context) => {
                        Desktop::forget(&mut self.contexts, context.raw)
                    }
                    Teardown::DeleteObject(object) => {
                        Desktop::forget(&mut self.objects, object.raw)
                    }
                }
                Reply::Released
            }
            Request::LastError => Reply::LastError(self.last_error),
        }
    }

    fn count(&self, kind: fn(&Request) -> bool) -> usize {
        self.asked.iter().filter(|request| kind(request)).count()
    }
}

fn is_enumerate(request: &Request) -> bool {
    matches!(request, Request::EnumerateWindows)
}

fn is_create_context(request: &Request) -> bool {
    matches!(request, Request::CreateContext)
}

fn is_create_surface(request: &Request) -> bool {
    matches!(request, Request::CreateSurface { .. })
}

/// One whole grab against the desktop.
fn grab(session: &mut Capture, desktop: &mut Desktop) -> Result<Frame, Error> {
    let mut request = session.grab().expect("no grab is under way");
    loop {
        let reply = desktop.perform(request);
        match session.resume(reply).expect("the reply answers the request") {
            Step::Call(next) => request = next,
            Step::Done(outcome) => return outcome,
        }
    }
}

fn answer(session: &mut Capture, reply: Reply) -> Request {
    match session.resume(reply) {
        Some(Step::Call(request)) => request,
        other => panic!("expected a request, got {:?}", other),
    }
}

fn finish(session: &mut Capture, reply: Reply) -> Result<Frame, Error> {
    match session.resume(reply) {
        Some(Step::Done(outcome)) => outcome,
        other => panic!("expected the end of the grab, got {:?}", other),
    }
}

fn units(text: &str) -> Vec<u16> {
    text.encode_utf16().collect()
}

fn rect(width: i32, height: i32) -> Reply {
    Reply::ClientRect(Ok(Rect { left: 0, top: 0, right: width, bottom: height }))
}

#[test]
fn rect_extent() {
    assert_eq!(Rect { left: 0, top: 0, right: 800, bottom: 600 }.extent(), Some((800, 600)));
    assert_eq!(Rect { left: 10, top: 20, right: 110, bottom: 70 }.extent(), Some((100, 50)));
    assert_eq!(Rect { left: -5, top: -5, right: 5, bottom: 5 }.extent(), Some((10, 10)));
    assert_eq!(Rect { left: 3, top: 3, right: 3, bottom: 9 }.extent(), Some((0, 6)));
    assert_eq!(
        Rect { left: 0, top: 0, right: i32::MAX, bottom: i32::MAX }.extent(),
        Some((i32::MAX, i32::MAX))
    );
}

#[test]
fn rect_without_extent() {
    assert_eq!(Rect { left: 1, top: 0, right: 0, bottom: 5 }.extent(), None);
    assert_eq!(Rect { left: 0, top: 6, right: 5, bottom: 5 }.extent(), None);
    assert_eq!(Rect { left: -1, top: 0, right: i32::MAX, bottom: 5 }.extent(), None);
    assert_eq!(Rect { left: 0, top: i32::MIN, right: 5, bottom: i32::MAX }.extent(), None);
    assert_eq!(Rect { left: i32::MAX, top: 0, right: i32::MIN, bottom: 0 }.extent(), None);
}

#[test]
fn full_blit_copies_from_origin_to_origin() {
    let blit = Blit::full(ContextId { raw: 1 }, ContextId { raw: 2 }, 800, 600);
    assert_eq!(
        blit,
        Blit {
            target: ContextId { raw: 1 },
            x: 0,
            y: 0,
            width: 800,
            height: 600,
            source: ContextId { raw: 2 },
            source_x: 0,
            source_y: 0,
            operation: 0x00CC0020,
        }
    );
}

#[test]
fn notepad_is_grabbed_resized_and_grabbed_again() {
    let mut desktop = Desktop::with(0x20, "Notepad", 800, 600);
    let mut session = Capture::new(Handle::new("Notepad"));

    let frame = grab(&mut session, &mut desktop).expect("first grab");
    assert_eq!((frame.width, frame.height, frame.data.len()), (800, 600, 1_920_000));

    desktop.windows[0].width = 400;
    desktop.windows[0].height = 300;
    assert_eq!(grab(&mut session, &mut desktop).err(), Some(Error::InvalidWindowSize));

    let frame = grab(&mut session, &mut desktop).expect("third grab");
    assert_eq!((frame.width, frame.height, frame.data.len()), (400, 300, 480_000));
}

#[test]
fn missing_window_is_not_found_on_every_call() {
    let mut desktop = Desktop::with(0x20, "Notepad", 800, 600);
    let mut session = Capture::new(Handle::new("NoSuchWindow"));
    for _ in 0..4 {
        assert_eq!(grab(&mut session, &mut desktop).err(), Some(Error::WindowNotFound));
    }
    assert_eq!(desktop.count(is_create_context), 0);
    assert_eq!(desktop.count(is_create_surface), 0);
    assert_eq!(desktop.count(is_enumerate), 4);
    assert!(desktop.contexts.is_empty());
    assert_eq!(session.close(), None);

    // Until such a window appears.
    desktop.windows.push(Shown { raw: 0x30, class: "NoSuchWindow", width: 2, height: 2 });
    let frame = grab(&mut session, &mut desktop).expect("the window is there now");
    assert_eq!(frame.data.len(), 16);
}

#[test]
fn first_grab_asks_in_order() {
    let mut desktop = Desktop::with(0x20, "Notepad", 8, 6);
    let mut session = Capture::new(Handle::new("Notepad"));
    let frame = grab(&mut session, &mut desktop).expect("grab");
    assert_eq!(frame.data, vec![0xAB; 8 * 6 * 4]);

    let window = WindowId { raw: 0x20 };
    let private = ContextId { raw: 0x101 };
    let surface = ObjectId { raw: 0x102 };
    let borrowed = ContextId { raw: 0x103 };
    assert_eq!(
        desktop.asked,
        vec![
            Request::EnumerateWindows,
            Request::ClassName(window),
            Request::ClientRect(window),
            Request::CreateContext,
            Request::CreateSurface { context: private, layout: SurfaceLayout::new(8, 6) },
            Request::WindowContext(window),
            Request::Select { context: private, object: surface },
            Request::Copy(Blit::full(private, borrowed, 8, 6)),
            Request::Select { context: private, object: ObjectId { raw: STOCK_OBJECT } },
            Request::ReadPixels { buffer: 0x7000_0000, size: 192 },
            Request::Release(Teardown::ReleaseContext { window, context: borrowed }),
        ]
    );
    // The window's context went back; the surface and its context stay.
    assert_eq!(desktop.contexts, vec![0x101]);
    assert_eq!(desktop.objects, vec![0x102]);
    assert_eq!(desktop.selected, STOCK_OBJECT);
}

#[test]
fn second_grab_reuses_window_and_surface() {
    let mut desktop = Desktop::with(0x20, "Notepad", 8, 6);
    let mut session = Capture::new(Handle::new("Notepad"));
    grab(&mut session, &mut desktop).expect("first grab");
    desktop.asked.clear();
    desktop.fill = 0x11;

    let frame = grab(&mut session, &mut desktop).expect("second grab");
    assert_eq!((frame.width, frame.height), (8, 6));
    assert_eq!(frame.data, vec![0x11; 192]);
    assert_eq!(desktop.count(is_enumerate), 0);
    assert_eq!(desktop.count(is_create_context), 0);
    assert_eq!(desktop.count(is_create_surface), 0);
    assert_eq!(desktop.asked[0], Request::ClassName(WindowId { raw: 0x20 }));
    assert_eq!(desktop.contexts, vec![0x101]);
    assert_eq!(desktop.objects, vec![0x102]);
}

#[test]
fn frame_outlives_the_surface() {
    let mut desktop = Desktop::with(0x20, "Notepad", 8, 6);
    let mut session = Capture::new(Handle::new("Notepad"));
    let frame = grab(&mut session, &mut desktop).expect("grab");
    let copy = frame.clone();
    assert!(session.close().is_some());
    assert_eq!(frame.data.len(), 192);
    assert_eq!(copy.data, frame.data);
    assert_eq!((copy.width, copy.height), (8, 6));
}

#[test]
fn resize_gives_the_surface_back_and_fails_once() {
    let mut desktop = Desktop::with(0x20, "Notepad", 8, 6);
    let mut session = Capture::new(Handle::new("Notepad"));
    grab(&mut session, &mut desktop).expect("first grab");
    desktop.asked.clear();
    desktop.windows[0].width = 9;

    assert_eq!(grab(&mut session, &mut desktop).err(), Some(Error::InvalidWindowSize));
    let window = WindowId { raw: 0x20 };
    assert_eq!(
        desktop.asked,
        vec![
            Request::ClassName(window),
            Request::ClientRect(window),
            Request::Release(Teardown::DeleteObject(ObjectId { raw: 0x102 })),
            Request::Release(Teardown::DeleteContext(ContextId { raw: 0x101 })),
        ]
    );
    assert!(desktop.contexts.is_empty());
    assert!(desktop.objects.is_empty());
    assert_eq!(session.close(), None);

    let frame = grab(&mut session, &mut desktop).expect("grab after the resize");
    assert_eq!((frame.width, frame.height, frame.data.len()), (9, 6, 216));
    let frame = grab(&mut session, &mut desktop).expect("and again");
    assert_eq!((frame.width, frame.height, frame.data.len()), (9, 6, 216));
    assert_eq!(desktop.count(is_create_surface), 1);
}

#[test]
fn window_gone_after_resize_is_not_found() {
    let mut desktop = Desktop::with(0x20, "Notepad", 8, 6);
    let mut session = Capture::new(Handle::new("Notepad"));
    grab(&mut session, &mut desktop).expect("first grab");
    desktop.windows[0].height = 7;
    assert_eq!(grab(&mut session, &mut desktop).err(), Some(Error::InvalidWindowSize));
    desktop.windows.clear();
    // The cached window is asked about first, and dropped.
    assert_eq!(grab(&mut session, &mut desktop).err(), Some(Error::WindowNotFound));
    assert_eq!(grab(&mut session, &mut desktop).err(), Some(Error::WindowNotFound));
    assert_eq!(desktop.count(is_create_surface), 1);
}

#[test]
fn recycled_identifier_is_not_captured() {
    let mut desktop = Desktop::with(0x20, "Notepad", 8, 6);
    let mut session = Capture::new(Handle::new("Notepad"));
    grab(&mut session, &mut desktop).expect("first grab");
    // Notepad closed; an unrelated window got its number.
    desktop.windows[0].class = "Calculator";
    desktop.asked.clear();
    assert_eq!(grab(&mut session, &mut desktop).err(), Some(Error::WindowNotFound));
    // No search within the same grab.
    assert_eq!(desktop.asked, vec![Request::ClassName(WindowId { raw: 0x20 })]);
    // The next grab searches anew, and finds none.
    desktop.asked.clear();
    assert_eq!(grab(&mut session, &mut desktop).err(), Some(Error::WindowNotFound));
    assert_eq!(desktop.asked, vec![Request::EnumerateWindows]);
    // The surface is kept for the day the window is back.
    assert!(session.close().is_some());
}

#[test]
fn collapsed_window_is_not_found_and_keeps_the_surface() {
    let mut desktop = Desktop::with(0x20, "Notepad", 8, 6);
    let mut session = Capture::new(Handle::new("Notepad"));
    grab(&mut session, &mut desktop).expect("first grab");
    desktop.windows[0].width = 0;
    assert_eq!(grab(&mut session, &mut desktop).err(), Some(Error::WindowNotFound));
    desktop.windows[0].width = 8;
    desktop.windows[0].height = 0;
    assert_eq!(grab(&mut session, &mut desktop).err(), Some(Error::WindowNotFound));
    desktop.windows[0].height = 6;
    grab(&mut session, &mut desktop).expect("restored");
    assert_eq!(desktop.count(is_create_surface), 1);
}

#[test]
fn collapsed_window_makes_no_surface() {
    let mut desktop = Desktop::with(0x20, "Notepad", 0, 0);
    let mut session = Capture::new(Handle::new("Notepad"));
    assert_eq!(grab(&mut session, &mut desktop).err(), Some(Error::WindowNotFound));
    assert_eq!(desktop.count(is_create_context), 0);
    assert_eq!(session.close(), None);
}

#[test]
fn failed_rectangle_query_is_a_graphics_error() {
    let mut desktop = Desktop::with(0x20, "Notepad", 8, 6);
    desktop.fail_rect = true;
    let mut session = Capture::new(Handle::new("Notepad"));
    assert_eq!(grab(&mut session, &mut desktop).err(), Some(Error::GraphicsApiError(1400)));
    assert_eq!(desktop.count(is_create_context), 0);
}

#[test]
fn failed_private_context_is_a_graphics_error() {
    let mut desktop = Desktop::with(0x20, "Notepad", 8, 6);
    desktop.fail_create_context = true;
    let mut session = Capture::new(Handle::new("Notepad"));
    assert_eq!(grab(&mut session, &mut desktop).err(), Some(Error::GraphicsApiError(8)));
    assert_eq!(desktop.asked.last(), Some(&Request::LastError));
    assert_eq!(desktop.count(is_create_surface), 0);
    assert_eq!(session.close(), None);
    desktop.fail_create_context = false;
    grab(&mut session, &mut desktop).expect("retry");
}

#[test]
fn failed_surface_deletes_its_context() {
    let mut desktop = Desktop::with(0x20, "Notepad", 8, 6);
    desktop.fail_create_surface = true;
    let mut session = Capture::new(Handle::new("Notepad"));
    assert_eq!(grab(&mut session, &mut desktop).err(), Some(Error::GraphicsApiError(87)));
    assert_eq!(
        desktop.asked.last(),
        Some(&Request::Release(Teardown::DeleteContext(ContextId { raw: 0x101 })))
    );
    assert!(desktop.contexts.is_empty());
    assert_eq!(session.close(), None);
    desktop.fail_create_surface = false;
    grab(&mut session, &mut desktop).expect("retry");
}

#[test]
fn failed_window_context_keeps_the_surface() {
    let mut desktop = Desktop::with(0x20, "Notepad", 8, 6);
    desktop.fail_window_context = true;
    let mut session = Capture::new(Handle::new("Notepad"));
    assert_eq!(grab(&mut session, &mut desktop).err(), Some(Error::GraphicsApiError(1400)));
    assert_eq!(desktop.asked.last(), Some(&Request::LastError));
    assert_eq!(desktop.contexts, vec![0x101]);
    desktop.fail_window_context = false;
    grab(&mut session, &mut desktop).expect("retry");
    assert_eq!(desktop.count(is_create_surface), 1);
}

#[test]
fn failed_select_hands_the_window_context_back() {
    let mut desktop = Desktop::with(0x20, "Notepad", 8, 6);
    desktop.fail_select = true;
    let mut session = Capture::new(Handle::new("Notepad"));
    assert_eq!(grab(&mut session, &mut desktop).err(), Some(Error::GraphicsApiError(6)));
    let tail = &desktop.asked[desktop.asked.len() - 2..];
    assert_eq!(
        tail,
        &[
            Request::LastError,
            Request::Release(Teardown::ReleaseContext {
                window: WindowId { raw: 0x20 },
                context: ContextId { raw: 0x103 },
            }),
        ]
    );
    assert_eq!(desktop.contexts, vec![0x101]);
    desktop.fail_select = false;
    grab(&mut session, &mut desktop).expect("retry");
    assert_eq!(desktop.count(is_create_surface), 1);
}

#[test]
fn failed_copy_restores_releases_and_keeps_the_surface() {
    let mut desktop = Desktop::with(0x20, "Notepad", 8, 6);
    desktop.fail_copy = true;
    let mut session = Capture::new(Handle::new("Notepad"));
    assert_eq!(
        grab(&mut session, &mut desktop).err(),
        Some(Error::GraphicsApiError(-2147024891))
    );
    let tail = &desktop.asked[desktop.asked.len() - 2..];
    assert_eq!(
        tail,
        &[
            Request::Select {
                context: ContextId { raw: 0x101 },
                object: ObjectId { raw: STOCK_OBJECT },
            },
            Request::Release(Teardown::ReleaseContext {
                window: WindowId { raw: 0x20 },
                context: ContextId { raw: 0x103 },
            }),
        ]
    );
    assert_eq!(desktop.selected, STOCK_OBJECT);
    assert_eq!(desktop.contexts, vec![0x101]);
    assert_eq!(desktop.objects, vec![0x102]);

    // A failed copy costs nothing but the grab: the same surface serves the next.
    assert_eq!(
        grab(&mut session, &mut desktop).err(),
        Some(Error::GraphicsApiError(-2147024891))
    );
    desktop.fail_copy = false;
    let frame = grab(&mut session, &mut desktop).expect("retry");
    assert_eq!(frame.data.len(), 192);
    assert_eq!(desktop.count(is_create_surface), 1);
}

#[test]
fn only_one_grab_at_a_time() {
    let mut session = Capture::new(Handle::new("Notepad"));
    assert_eq!(session.grab(), Some(Request::EnumerateWindows));
    assert_eq!(session.grab(), None);
    assert_eq!(session.close(), None);
    assert_eq!(finish(&mut session, Reply::Windows(Vec::new())).err(), Some(Error::WindowNotFound));
    assert_eq!(session.grab(), Some(Request::EnumerateWindows));
}

#[test]
fn reply_without_a_request_is_refused() {
    let mut session = Capture::new(Handle::new("Notepad"));
    assert!(session.resume(Reply::Released).is_none());
    assert!(session.resume(Reply::Windows(Vec::new())).is_none());
    assert_eq!(session.grab(), Some(Request::EnumerateWindows));
}

#[test]
fn reply_of_another_kind_is_refused() {
    let mut session = Capture::new(Handle::new("Notepad"));
    session.grab();
    assert!(session.resume(Reply::ClassName(units("Notepad"))).is_none());
    assert!(session.resume(rect(8, 6)).is_none());
    assert!(session.resume(Reply::Context(ContextId { raw: 5 })).is_none());
    assert!(session.resume(Reply::LastError(5)).is_none());
    // The session still waits for the windows.
    let window = Window { id: WindowId { raw: 0x20 }, class: units("Notepad") };
    assert_eq!(
        answer(&mut session, Reply::Windows(vec![window])),
        Request::ClassName(WindowId { raw: 0x20 })
    );
    assert!(session.resume(Reply::Windows(Vec::new())).is_none());
    assert_eq!(
        answer(&mut session, Reply::ClassName(units("Notepad"))),
        Request::ClientRect(WindowId { raw: 0x20 })
    );
}

fn measuring() -> Capture {
    let mut session = Capture::new(Handle::new("Notepad"));
    session.grab();
    let window = Window { id: WindowId { raw: 0x20 }, class: units("Notepad") };
    answer(&mut session, Reply::Windows(vec![window]));
    answer(&mut session, Reply::ClassName(units("Notepad")));
    session
}

#[test]
fn rectangle_without_extent_is_refused() {
    let mut session = measuring();
    let inverted = Rect { left: 10, top: 0, right: 0, bottom: 6 };
    assert!(session.resume(Reply::ClientRect(Ok(inverted))).is_none());
    let too_wide = Rect { left: i32::MIN, top: 0, right: i32::MAX, bottom: 6 };
    assert!(session.resume(Reply::ClientRect(Ok(too_wide))).is_none());
    assert_eq!(answer(&mut session, rect(8, 6)), Request::CreateContext);
}

#[test]
fn rectangle_away_from_the_origin_is_measured_by_its_extent() {
    let mut session = measuring();
    let moved = Rect { left: 100, top: 50, right: 108, bottom: 56 };
    assert_eq!(answer(&mut session, Reply::ClientRect(Ok(moved))), Request::CreateContext);
    assert_eq!(
        answer(&mut session, Reply::Context(ContextId { raw: 9 })),
        Request::CreateSurface { context: ContextId { raw: 9 }, layout: SurfaceLayout::new(8, 6) }
    );
}

fn reading() -> Capture {
    let mut session = measuring();
    answer(&mut session, rect(8, 6));
    answer(&mut session, Reply::Context(ContextId { raw: 9 }));
    let mapping = Mapping { object: ObjectId { raw: 55 }, buffer: 0x7000 };
    answer(&mut session, Reply::Surface(Ok(mapping)));
    answer(&mut session, Reply::Context(ContextId { raw: 11 }));
    answer(&mut session, Reply::Selected(ObjectId { raw: STOCK_OBJECT }));
    answer(&mut session, Reply::Copied(Ok(())));
    let request = answer(&mut session, Reply::Selected(ObjectId { raw: 55 }));
    assert_eq!(request, Request::ReadPixels { buffer: 0x7000, size: 192 });
    session
}

#[test]
fn pixels_of_another_length_are_refused() {
    let mut session = reading();
    assert!(session.resume(Reply::Pixels(vec![0; 191])).is_none());
    assert!(session.resume(Reply::Pixels(vec![0; 193])).is_none());
    assert!(session.resume(Reply::Pixels(Vec::new())).is_none());
    let release = answer(&mut session, Reply::Pixels(vec![7; 192]));
    assert_eq!(
        release,
        Request::Release(Teardown::ReleaseContext {
            window: WindowId { raw: 0x20 },
            context: ContextId { raw: 11 },
        })
    );
    let frame = finish(&mut session, Reply::Released).expect("frame");
    assert_eq!((frame.width, frame.height), (8, 6));
    assert_eq!(frame.data, vec![7; 192]);
}

#[test]
fn all_ones_is_no_context_either() {
    let mut session = measuring();
    answer(&mut session, rect(8, 6));
    assert_eq!(answer(&mut session, Reply::Context(ContextId { raw: -1 })), Request::LastError);
    assert_eq!(
        finish(&mut session, Reply::LastError(1450)).err(),
        Some(Error::GraphicsApiError(1450))
    );
}

#[test]
fn close_gives_the_surface_back_once() {
    let mut desktop = Desktop::with(0x20, "Notepad", 8, 6);
    let mut session = Capture::new(Handle::new("Notepad"));
    assert_eq!(session.close(), None);
    grab(&mut session, &mut desktop).expect("grab");
    assert_eq!(
        session.close(),
        Some((
            Teardown::DeleteObject(ObjectId { raw: 0x102 }),
            Teardown::DeleteContext(ContextId { raw: 0x101 }),
        ))
    );
    assert_eq!(session.close(), None);
    // A closed session can grab again; it makes a new surface.
    desktop.asked.clear();
    grab(&mut session, &mut desktop).expect("grab after close");
    assert_eq!(desktop.count(is_create_surface), 1);
}

#[test]
fn session_knows_its_class() {
    let session = Capture::new(Handle::new("Notepad"));
    assert_eq!(session.handle().class_name(), "Notepad");
}

#[test]
fn two_sessions_share_nothing() {
    let mut desktop = Desktop::new();
    desktop.windows.push(Shown { raw: 0x20, class: "Notepad", width: 8, height: 6 });
    desktop.windows.push(Shown { raw: 0x30, class: "Calculator", width: 2, height: 3 });
    let mut first = Capture::new(Handle::new("Notepad"));
    let mut second = Capture::new(Handle::new("Calculator"));
    let a = grab(&mut first, &mut desktop).expect("first");
    let b = grab(&mut second, &mut desktop).expect("second");
    assert_eq!((a.width, a.height, a.data.len()), (8, 6, 192));
    assert_eq!((b.width, b.height, b.data.len()), (2, 3, 24));
    desktop.windows[1].width = 5;
    assert_eq!(grab(&mut second, &mut desktop).err(), Some(Error::InvalidWindowSize));
    let a = grab(&mut first, &mut desktop).expect("first again");
    assert_eq!(a.data.len(), 192);
}

#[test]
fn window_with_a_name_beyond_ascii_is_grabbed() {
    let mut desktop = Desktop::new();
    desktop.windows.push(Shown { raw: 0x10, class: "Cafe", width: 3, height: 3 });
    desktop.windows.push(Shown { raw: 0x20, class: "Caf\u{e9}", width: 8, height: 6 });
    let mut session = Capture::new(Handle::new("Caf\u{e9}"));
    let frame = grab(&mut session, &mut desktop).expect("the names are equal");
    assert_eq!((frame.width, frame.height, frame.data.len()), (8, 6, 192));
    assert_eq!(desktop.asked[1], Request::ClassName(WindowId { raw: 0x20 }));
    // The cached window is found again by the same name.
    desktop.asked.clear();
    grab(&mut session, &mut desktop).expect("second grab");
    assert_eq!(desktop.count(is_enumerate), 0);
}
