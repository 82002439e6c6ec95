//! The OS-facing registries with their real backends linked: clipboard and
//! global hotkeys.  On a machine without a display server the backends
//! refuse to connect; either way every call must come back with a plain
//! result, never a crash, and the bridge-side tables must keep their
//! contracts.

use ring_slint::clipboard::ClipboardState;
use ring_slint::hotkey::HotkeyBridge;

#[test]
fn clipboard_calls_always_return() {
    let mut cb = ClipboardState::new();
    match cb.clipboard_set_text("hello") {
        Ok(()) => {
            // A real clipboard is present: the text must read back.
            let read = cb.clipboard_get_text();
            assert_eq!(read.unwrap(), "hello");
            cb.clipboard_clear().unwrap();
        },
        Err(e) => {
            // Headless: the connection failure is reported as a message.
            assert!(!e.is_empty());
        },
    }
}

#[test]
fn clipboard_get_on_fresh_state_returns() {
    let mut cb = ClipboardState::new();
    match cb.clipboard_get_text() {
        Ok(_) => {},
        Err(e) => assert!(!e.is_empty()),
    }
}

#[test]
fn hotkey_registration_returns_and_keeps_the_table_consistent() {
    let mut hk = HotkeyBridge::new();
    match hk.hotkey_register("ctrl+shift", "KeyA", 1, "on_hotkey".to_string()) {
        Ok(id) => {
            // A real hotkey facility is present: the id can be released.
            hk.hotkey_unregister(id).unwrap();
        },
        Err(e) => {
            assert!(!e.is_empty());
        },
    }
    // Unregistering an id that was never registered fails like the other
    // registries, naming the id.
    assert_eq!(
        hk.hotkey_unregister(123456),
        Err("Hotkey 123456 not found".to_string())
    );
    assert_eq!(hk.hotkey_unregister_all(), Ok(()));
}

#[test]
fn hotkey_poll_with_nothing_pending_is_quiet() {
    let hk = HotkeyBridge::new();
    assert!(hk.hotkey_poll().is_none());
}

#[test]
fn unknown_key_name_is_rejected() {
    let mut hk = HotkeyBridge::new();
    let err = hk
        .hotkey_register("ctrl", "NoSuchKeyName", 1, "cb".to_string())
        .unwrap_err();
    // Either the manager could not connect (headless) or the key name was
    // refused; both are plain errors.
    assert!(!err.is_empty());
}
