//! Host-side state of an embedded script engine: the timer queue, the table of
//! outstanding network requests, the per-tick decisions of the event loop and
//! the argument rules of the native bindings.

pub mod timers;
pub mod requests;
pub mod event_loop;
pub mod bindings;
pub mod host;
