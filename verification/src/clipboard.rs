//! The system clipboard, reached through the `arboard` crate behind a
//! lazily initialized connection: the first operation connects, later ones
//! reuse the connection.  What the clipboard holds is the platform's
//! business — the contracts here track only the connection state, and every
//! failure comes back as the error string the host script sees.

use vstd::prelude::*;

verus! {

#[verifier::external_type_specification]
#[verifier::external_body]
pub struct ExClipboard(arboard::Clipboard);

/// Relies on `arboard::Clipboard::new`: connects to the platform clipboard
/// or reports why it cannot.
#[verifier::external_body]
fn clipboard_new() -> (r: Result<arboard::Clipboard, String>) {
    arboard::Clipboard::new().map_err(|e| format!("Failed to init clipboard: {}", e))
}

/// Relies on `arboard::Clipboard::get_text`: the clipboard's current text,
/// or an error.
#[verifier::external_body]
fn cb_get_text(cb: &mut arboard::Clipboard) -> (r: Result<String, String>) {
    cb.get_text().map_err(|e| format!("Clipboard error: {}", e))
}

/// Relies on `arboard::Clipboard::set_text`: places the text on the
/// clipboard, or reports an error.
#[verifier::external_body]
fn cb_set_text(cb: &mut arboard::Clipboard, text: &str) -> (r: Result<(), String>) {
    cb.set_text(text.to_owned()).map_err(|e| format!("Clipboard error: {}", e))
}

/// Relies on `arboard::Clipboard::clear`: empties the clipboard, or
/// reports an error.
#[verifier::external_body]
fn cb_clear(cb: &mut arboard::Clipboard) -> (r: Result<(), String>) {
    cb.clear().map_err(|e| format!("Clipboard error: {}", e))
}

/// The bridge's clipboard access: one lazily opened connection.
pub struct ClipboardState {
    inner: Option<arboard::Clipboard>,
}

impl ClipboardState {
    /// Whether the connection has been opened.
    pub closed spec fn is_connected(self) -> bool {
        self.inner is Some
    }

    /// A clipboard that has not been connected yet.
    pub fn new() -> (r: ClipboardState)
        ensures
            !r.is_connected(),
    {
        ClipboardState { inner: None }
    }

    fn connect(&mut self) -> (r: Result<(), String>)
        ensures
            match r {
                Ok(()) => final(self).is_connected(),
                Err(_) => *final(self) == *old(self),
            },
            old(self).is_connected() ==> r is Ok && *final(self) == *old(self),
    {
        if self.inner.is_some() {
            return Ok(());
        }
        match clipboard_new() {
            Ok(cb) => {
                self.inner = Some(cb);
                Ok(())
            },
            Err(e) => Err(e),
        }
    }

    /// The clipboard's current text; connects on first use, and any
    /// platform failure comes back as the error string.
    pub fn clipboard_get_text(&mut self) -> (r: Result<String, String>)
        ensures
            r is Ok ==> final(self).is_connected(),
            old(self).is_connected() ==> final(self).is_connected(),
    {
        match self.connect() {
            Err(e) => Err(e),
            Ok(()) => match &mut self.inner {
                Some(cb) => cb_get_text(cb),
                None => Err(String::from_str("Failed to init clipboard")),
            },
        }
    }

    /// Places `text` on the clipboard; connects on first use.
    pub fn clipboard_set_text(&mut self, text: &str) -> (r: Result<(), String>)
        ensures
            r is Ok ==> final(self).is_connected(),
            old(self).is_connected() ==> final(self).is_connected(),
    {
        match self.connect() {
            Err(e) => Err(e),
            Ok(()) => match &mut self.inner {
                Some(cb) => cb_set_text(cb, text),
                None => Err(String::from_str("Failed to init clipboard")),
            },
        }
    }

    /// Empties the clipboard; connects on first use.
    pub fn clipboard_clear(&mut self) -> (r: Result<(), String>)
        ensures
            r is Ok ==> final(self).is_connected(),
            old(self).is_connected() ==> final(self).is_connected(),
    {
        match self.connect() {
            Err(e) => Err(e),
            Ok(()) => match &mut self.inner {
                Some(cb) => cb_clear(cb),
                None => Err(String::from_str("Failed to init clipboard")),
            },
        }
    }
}

} // verus!
