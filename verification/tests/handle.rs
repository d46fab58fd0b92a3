use window_capture::handle::Handle;
use window_capture::handle::HandleCell;
use window_capture::handle::Window;
use window_capture::handle::WindowId;

fn units(text: &str) -> Vec<u16> {
    text.encode_utf16().collect()
}

fn window(raw: isize, class: &str) -> Window {
    Window { id: WindowId { raw }, class: units(class) }
}

#[test]
fn null_identifier_is_invalid() {
    assert!(WindowId { raw: 0 }.is_invalid());
    assert!(!WindowId { raw: 1 }.is_invalid());
    assert!(!WindowId { raw: -1 }.is_invalid());
}

#[test]
fn handle_keeps_its_class_name() {
    let handle = Handle::new("Notepad");
    assert_eq!(handle.class_name(), "Notepad");
    let copy = handle;
    assert_eq!(copy.class_name(), handle.class_name());
}

#[test]
fn query_picks_the_first_window_of_the_class() {
    let handle = Handle::new("Notepad");
    let windows = vec![
        window(10, "Shell_TrayWnd"),
        window(20, "Notepad"),
        window(30, "Notepad"),
        window(40, "Progman"),
    ];
    assert_eq!(handle.query_handle(&windows), Some(WindowId { raw: 20 }));
}

#[test]
fn query_without_a_window_of_the_class_finds_none() {
    let handle = Handle::new("NoSuchWindow");
    let windows = vec![window(10, "Shell_TrayWnd"), window(20, "Notepad")];
    assert_eq!(handle.query_handle(&windows), None);
    assert_eq!(handle.query_handle(&[]), None);
}

#[test]
fn query_may_stop_at_the_first_match() {
    let handle = Handle::new("Notepad");
    let whole = vec![window(10, "Progman"), window(20, "Notepad"), window(30, "Notepad")];
    let stopped = vec![window(10, "Progman"), window(20, "Notepad")];
    assert_eq!(handle.query_handle(&whole), handle.query_handle(&stopped));
}

#[test]
fn query_does_not_hand_out_the_null_identifier() {
    let handle = Handle::new("Notepad");
    let windows = vec![window(0, "Notepad"), window(30, "Notepad")];
    assert_eq!(handle.query_handle(&windows), None);
}

#[test]
fn new_cell_has_nothing_cached() {
    let cell = HandleCell::new(Handle::new("Notepad"));
    assert_eq!(cell.cached(), None);
    assert_eq!(cell.handle().class_name(), "Notepad");
}

#[test]
fn unfilled_cell_resolves_to_nothing() {
    let mut cell = HandleCell::new(Handle::new("Notepad"));
    assert_eq!(cell.as_inner(&units("Notepad")), None);
    assert_eq!(cell.cached(), None);
}

#[test]
fn search_fills_an_empty_cache_only() {
    let mut cell = HandleCell::new(Handle::new("Notepad"));
    assert_eq!(cell.search(&[window(10, "Progman")]), None);
    assert_eq!(cell.cached(), None);
    assert_eq!(cell.search(&[window(10, "Progman"), window(20, "Notepad")]), Some(WindowId { raw: 20 }));
    assert_eq!(cell.cached(), Some(WindowId { raw: 20 }));
    // A filled cache is not searched again.
    assert_eq!(cell.search(&[window(99, "Notepad")]), Some(WindowId { raw: 20 }));
    assert_eq!(cell.search(&[]), Some(WindowId { raw: 20 }));
}

#[test]
fn resolve_is_idempotent_while_the_class_matches() {
    let mut cell = HandleCell::new(Handle::new("Notepad"));
    cell.search(&[window(20, "Notepad")]);
    for _ in 0..5 {
        assert_eq!(cell.as_inner(&units("Notepad")), Some(WindowId { raw: 20 }));
        assert_eq!(cell.cached(), Some(WindowId { raw: 20 }));
    }
}

#[test]
fn reused_identifier_of_another_class_is_dropped() {
    let mut cell = HandleCell::new(Handle::new("Notepad"));
    cell.search(&[window(20, "Notepad")]);
    // The window closed; the host gave its number to a window of another class.
    assert_eq!(cell.as_inner(&units("Calculator")), None);
    assert_eq!(cell.cached(), None);
    // Nothing is searched within the same call: the next one starts over.
    assert_eq!(cell.as_inner(&units("Notepad")), None);
    assert_eq!(cell.search(&[window(31, "Notepad")]), Some(WindowId { raw: 31 }));
    assert_eq!(cell.as_inner(&units("Notepad")), Some(WindowId { raw: 31 }));
}

#[test]
fn closed_window_is_dropped() {
    let mut cell = HandleCell::new(Handle::new("Notepad"));
    cell.search(&[window(20, "Notepad")]);
    // For a window that is gone the host reports no class name.
    assert_eq!(cell.as_inner(&[]), None);
    assert_eq!(cell.cached(), None);
}

#[test]
fn cloned_cell_resolves_alike() {
    let mut cell = HandleCell::new(Handle::new("Notepad"));
    cell.search(&[window(20, "Notepad")]);
    let mut copy = cell.clone();
    assert_eq!(copy.cached(), Some(WindowId { raw: 20 }));
    assert_eq!(copy.as_inner(&units("Other")), None);
    assert_eq!(cell.cached(), Some(WindowId { raw: 20 }));
}

#[test]
fn query_finds_a_name_beyond_ascii() {
    let handle = Handle::new("\u{7a97}\u{53e3}");
    let windows = vec![window(10, "Progman"), window(20, "\u{7a97}\u{53e3}"), window(30, "\u{7a97}")];
    assert_eq!(handle.query_handle(&windows), Some(WindowId { raw: 20 }));
    let mut cell = HandleCell::new(handle);
    assert_eq!(cell.search(&windows), Some(WindowId { raw: 20 }));
    assert_eq!(cell.as_inner(&units("\u{7a97}\u{53e3}")), Some(WindowId { raw: 20 }));
    assert_eq!(cell.as_inner(&units("\u{7a97}")), None);
}
