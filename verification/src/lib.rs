//! Polled capture of one window's client area, as a verified core.
//!
//! A window is named by its class. A [`handle::HandleCell`] turns that name
//! into a window identifier, caches it, and revalidates the cached identifier
//! before every use. A [`capture::Capture`] session drives one grab after
//! another: it sizes an off-screen surface to the window, detects resizes,
//! borrows and returns the window's drawing context, and hands out the pixels
//! as a [`capture::Frame`].
//!
//! The core makes no host call itself. It says which call it needs next as a
//! [`capture::Request`] and takes the host's answer as a [`capture::Reply`];
//! whoever owns the session performs the calls in between.
//!
//! - [`class_name`]: when a reported class name is the expected one.
//! - [`handle`]: window identifiers, the search for a window, the cache.
//! - [`surface`]: contexts, the surface, and how each goes back to the host.
//! - [`capture`]: frames, requests and replies, the session.
//! - [`error`]: why a grab fails.
//! - [`laws`]: what holds of every grab, proved over all answers of a host.

pub mod capture;
pub mod class_name;
pub mod error;
pub mod handle;
pub mod laws;
pub mod surface;
