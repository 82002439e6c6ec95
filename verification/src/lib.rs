//! The bridge between a dynamically typed host scripting engine and a
//! typed, declarative UI runtime: a bidirectional value codec with a
//! structural classifier, a tagged handle registry, an observable
//! collection manager, timer / hotkey / tray bookkeeping with explicit
//! id lifecycles, the callback-dispatch state that re-enters the host,
//! and the run-loop state machine that ties them together.
//!
//! Native backends — the UI runtime itself, the host engine's calling
//! convention, dialogs and notifications — stay outside; they hand plain
//! values in and take plain values and dispatch requests out.

pub mod callback;
pub mod clipboard;
pub mod color;
pub mod dialogs;
pub mod fmt;
pub mod handle;
pub mod hotkey;
pub mod interpreter;
pub mod model;
pub mod runloop;
pub mod table;
pub mod timer;
pub mod tray;
pub mod unicode;
pub mod value;
