//! Finding a window by its class name, and keeping what was found honest.
//!
//! A window identifier is only a number. The window behind it can close at
//! any time, and the host may give the same number to an unrelated window
//! afterwards. So a cached identifier is never used as it is: before every
//! use the host is asked for the class name behind it, and the identifier
//! is dropped when that name is no longer the expected one.

use crate::class_name::class_matches;
use crate::class_name::is_class_matched;
use vstd::prelude::*;

verus! {

/// The host's identifier of a window. It owns nothing and may outlive the
/// window it was given for.
#[derive(Clone, Copy, Debug, PartialEq, Eq, Structural)]
pub struct WindowId {
    pub raw: isize,
}

impl WindowId {
    /// Whether this is the null identifier, which names no window.
    pub open spec fn invalid(self) -> bool {
        self.raw == 0
    }

    /// Tells whether this is the null identifier.
    pub fn is_invalid(&self) -> (invalid: bool)
        ensures
            invalid == self.invalid(),
    {
        self.raw == 0
    }
}

/// A top-level window as an enumeration saw it: its identifier and the code
/// units of its class name.
#[derive(Debug)]
pub struct Window {
    pub id: WindowId,
    pub class: Vec<u16>,
}

/// Whether the window at `i` is of class `class` and none before it is.
pub open spec fn is_first_match(windows: Seq<Window>, class: Seq<char>, i: int) -> bool {
    &&& 0 <= i < windows.len()
    &&& class_matches(windows[i].class@, class)
    &&& forall|j: int| 0 <= j < i ==> !class_matches((#[trigger] windows[j]).class@, class)
}

/// The identifier of the first window of class `class`, in the order of the
/// enumeration.
pub open spec fn first_match(windows: Seq<Window>, class: Seq<char>) -> Option<WindowId> {
    if exists|i: int| is_first_match(windows, class, i) {
        Some(windows[choose|i: int| is_first_match(windows, class, i)].id)
    } else {
        None
    }
}

/// What a search through `windows` yields: the first window of the class,
/// unless its identifier is the null one.
pub open spec fn query(windows: Seq<Window>, class: Seq<char>) -> Option<WindowId> {
    match first_match(windows, class) {
        Some(id) => if id.invalid() {
            None
        } else {
            Some(id)
        },
        None => None,
    }
}

/// At most one window is the first of its class.
pub proof fn lemma_first_match_unique(windows: Seq<Window>, class: Seq<char>, i: int, k: int)
    requires
        is_first_match(windows, class, i),
        is_first_match(windows, class, k),
    ensures
        i == k,
{
    if i < k {
        assert(!class_matches(windows[i].class@, class));
    }
    if k < i {
        assert(!class_matches(windows[k].class@, class));
    }
}

/// The first window of the class, once its place is known.
pub proof fn lemma_first_match_at(windows: Seq<Window>, class: Seq<char>, i: int)
    requires
        is_first_match(windows, class, i),
    ensures
        first_match(windows, class) == Some(windows[i].id),
{
    let k = choose|k: int| is_first_match(windows, class, k);
    lemma_first_match_unique(windows, class, i, k);
}

/// Where no window is of the class, there is no first one.
pub proof fn lemma_first_match_none(windows: Seq<Window>, class: Seq<char>)
    requires
        forall|j: int| 0 <= j < windows.len() ==> !class_matches((#[trigger] windows[j]).class@, class),
    ensures
        first_match(windows, class) is None,
        query(windows, class) is None,
{
}

/// An enumeration may stop at the first window of the class: what it has
/// seen by then yields the same window as the whole list would.
pub proof fn lemma_query_stops_at_first_match(
    windows: Seq<Window>,
    class: Seq<char>,
    i: int,
    seen: int,
)
    requires
        is_first_match(windows, class, i),
        i < seen <= windows.len(),
    ensures
        query(windows.take(seen), class) == query(windows, class),
{
    let prefix = windows.take(seen);
    assert(prefix[i] == windows[i]);
    assert forall|j: int| 0 <= j < i implies !class_matches((#[trigger] prefix[j]).class@, class) by {
        assert(prefix[j] == windows[j]);
    }
    assert(is_first_match(prefix, class, i));
    lemma_first_match_at(prefix, class, i);
    lemma_first_match_at(windows, class, i);
}

/// Names the window to capture: the class that the window was registered
/// under. The name never changes.
#[derive(Clone, Copy, Debug)]
pub struct Handle {
    class: &'static str,
}

impl View for Handle {
    type V = Seq<char>;

    /// The class name.
    closed spec fn view(&self) -> Seq<char> {
        self.class@
    }
}

impl Handle {
    /// A selector for the windows of class `class`.
    pub fn new(class: &'static str) -> (handle: Self)
        ensures
            handle@ == class@,
    {
        Self { class }
    }

    /// The class name this selector was made for.
    pub fn class_name(&self) -> (class: &'static str)
        ensures
            class@ == self@,
    {
        self.class
    }

    /// Picks the window to capture out of `windows`, the top-level windows
    /// in the order the host enumerated them: the first one of this class.
    /// The enumeration may have stopped right after that window.
    pub fn query_handle(&self, windows: &[Window]) -> (found: Option<WindowId>)
        ensures
            found == query(windows@, self@),
    {
        let mut i: usize = 0;
        while i < windows.len()
            invariant
                i <= windows@.len(),
                forall|j: int| 0 <= j < i ==> !class_matches((#[trigger] windows@[j]).class@, self@),
            decreases windows@.len() - i,
        {
            if is_class_matched(windows[i].class.as_slice(), self.class) {
                proof {
                    lemma_first_match_at(windows@, self@, i as int);
                }
                let id = windows[i].id;
                if id.is_invalid() {
                    return None;
                }
                return Some(id);
            }
            i += 1;
        }
        proof {
            lemma_first_match_none(windows@, self@);
        }
        None
    }
}

/// What a [`HandleCell`] stands for: the class it looks for and the window
/// identifier it found last, if it still holds one.
pub struct Selector {
    pub class: Seq<char>,
    pub cached: Option<WindowId>,
}

impl Selector {
    /// The selector after a search through `windows`: an empty cache takes
    /// what the search yields, a filled one stays as it is.
    pub open spec fn searched(self, windows: Seq<Window>) -> Selector {
        if self.cached is None {
            Selector { class: self.class, cached: query(windows, self.class) }
        } else {
            self
        }
    }

    /// The selector after the host reported `units` as the class name of the
    /// cached window, and the window that may be used: the cached one where
    /// the name is still the expected one; none, and an empty cache,
    /// otherwise.
    pub open spec fn revalidated(self, units: Seq<u16>) -> (Selector, Option<WindowId>) {
        if self.cached is Some && class_matches(units, self.class) {
            (self, self.cached)
        } else {
            (Selector { class: self.class, cached: None }, None)
        }
    }
}

/// A class name together with the window identifier that was last found for
/// it. The identifier is only a hint: [`HandleCell::as_inner`] hands it out
/// after checking it against the host.
#[derive(Clone, Debug)]
pub struct HandleCell {
    handle: Handle,
    inner: Option<WindowId>,
}

impl View for HandleCell {
    type V = Selector;

    closed spec fn view(&self) -> Selector {
        Selector { class: self.handle@, cached: self.inner }
    }
}

impl HandleCell {
    /// A cell for `handle` that has found no window yet.
    pub fn new(handle: Handle) -> (cell: Self)
        ensures
            cell@ == (Selector { class: handle@, cached: None }),
    {
        Self { handle, inner: None }
    }

    /// The class selector this cell was made for.
    pub fn handle(&self) -> (handle: Handle)
        ensures
            handle@ == self@.class,
    {
        self.handle
    }

    /// The identifier found last, not yet checked again. It says which
    /// window to ask the host about, and nothing more.
    pub fn cached(&self) -> (cached: Option<WindowId>)
        ensures
            cached == self@.cached,
    {
        self.inner
    }

    /// Fills an empty cache from `windows`, the top-level windows as the
    /// host enumerated them, and returns what the cache holds then. A filled
    /// cache is left alone.
    pub fn search(&mut self, windows: &[Window]) -> (found: Option<WindowId>)
        ensures
            final(self)@ == old(self)@.searched(windows@),
            found == final(self)@.cached,
    {
        if self.inner.is_none() {
            self.inner = self.handle.query_handle(windows);
        }
        self.inner
    }

    /// Checks the cached identifier against `units`, the class name that the
    /// host reports for it now, and hands it out if the name is still the
    /// expected one. Otherwise the identifier is stale: the cache is emptied
    /// and nothing is handed out. No new search is made here.
    pub fn as_inner(&mut self, units: &[u16]) -> (window: Option<WindowId>)
        ensures
            (final(self)@, window) == old(self)@.revalidated(units@),
    {
        match self.inner {
            Some(inner) => {
                if is_class_matched(units, self.handle.class) {
                    return Some(inner);
                }
                self.inner = None;
                None
            },
            None => None,
        }
    }
}

/// Resolving is idempotent while the window keeps its class: each check
/// hands out the cached identifier again and leaves the cache filled, so
/// that no search is made in between.
pub proof fn lemma_resolve_idempotent(selector: Selector, first: Seq<u16>, second: Seq<u16>)
    requires
        selector.cached is Some,
        class_matches(first, selector.class),
        class_matches(second, selector.class),
    ensures
        selector.revalidated(first) == (selector, selector.cached),
        selector.revalidated(first).0.revalidated(second) == (selector, selector.cached),
        forall|windows: Seq<Window>| #[trigger] selector.revalidated(first).0.searched(windows) == selector,
{
}

/// A cached identifier whose window is no longer of the class is never
/// handed out: the check yields nothing and empties the cache, whatever the
/// identifier was.
pub proof fn lemma_stale_handle_dropped(selector: Selector, units: Seq<u16>)
    requires
        !class_matches(units, selector.class),
    ensures
        selector.revalidated(units).1 is None,
        selector.revalidated(units).0.cached is None,
        selector.revalidated(units).0.class == selector.class,
{
}

} // verus!
