//! The dispatch bridge around the registries: the callback argument
//! buffer, tagged handles, the run-loop states, the tray state machine,
//! hotkey modifier parsing, compiler configuration and diagnostics.

use ring_slint::callback::{strip_function_name, CallbackBuffer};
use ring_slint::dialogs::{classify_message_kind, parse_file_filters, MessageKind};
use ring_slint::fmt::{u32_string, u64_string, usize_string};
use ring_slint::handle::{HandleTable, HandleTag};
use ring_slint::hotkey::{parse_modifiers, str_contains, ModifierSet};
use ring_slint::interpreter::{first_component_name, join_diagnostics, CompilerConfig, Diagnostic};
use ring_slint::runloop::{is_wayland_session, EventLoop, RunState};
use ring_slint::tray::{TrayCapability, TrayState};
use ring_slint::value::{DynValue, UiValue};

fn s(text: &str) -> String {
    text.to_string()
}

#[test]
fn callback_args_are_readable_during_reentry() {
    // Registering "onClick" for "handleClick" and firing it natively with
    // [1, "go"]: the re-entered script reads argument 1 as 1 and argument
    // 2 as "go" (the host counts from 1; the buffer from 0).
    let mut buffer = CallbackBuffer::new();
    let req = buffer.accept_invocation(
        vec![UiValue::Int(1), UiValue::Str(s("go"))],
        "handleClick",
        11,
    );
    assert_eq!(req.function, "handleClick");
    assert_eq!(req.vm, 11);
    assert_eq!(buffer.get_callback_args_count(), 2);
    assert_eq!(buffer.get_callback_arg(0), Some(&UiValue::Int(1)));
    assert_eq!(buffer.get_callback_arg(1), Some(&UiValue::Str(s("go"))));
    assert_eq!(buffer.get_callback_arg(2), None);

    // The next unrelated callback replaces the buffer entirely.
    let _ = buffer.accept_invocation(vec![UiValue::Bool(true)], "other", 11);
    assert_eq!(buffer.get_callback_args_count(), 1);
    assert_eq!(buffer.get_callback_arg(0), Some(&UiValue::Bool(true)));
    assert_eq!(buffer.get_callback_arg(1), None);
}

#[test]
fn one_based_argument_queries() {
    let mut buffer = CallbackBuffer::new();
    let _ = buffer.accept_invocation(vec![UiValue::Int(1), UiValue::Str(s("go"))], "cb", 1);
    assert_eq!(
        buffer.callback_arg(0).unwrap_err(),
        "Callback argument index starts at 1"
    );
    assert_eq!(buffer.callback_arg(1), Ok(Some(&UiValue::Int(1))));
    assert_eq!(buffer.callback_arg(2), Ok(Some(&UiValue::Str(s("go")))));
    assert_eq!(buffer.callback_arg(3), Ok(None));
}

#[test]
fn first_component_selection() {
    let names = vec![s("MainWindow"), s("Dialog")];
    assert_eq!(first_component_name(&names, "ui/app.slint"), Ok(s("MainWindow")));
    assert_eq!(
        first_component_name(&vec![], "ui/app.slint"),
        Err(s("No component found in 'ui/app.slint'"))
    );
}

#[test]
fn registered_names_lose_their_parentheses() {
    assert_eq!(strip_function_name("handleClick()"), "handleClick");
    assert_eq!(strip_function_name("handleClick"), "handleClick");
    assert_eq!(strip_function_name("f()()"), "f");
    assert_eq!(strip_function_name("()"), "");
}

#[test]
fn handles_resolve_only_with_the_right_tag() {
    let mut handles = HandleTable::new();
    assert!(handles.has_capacity());
    let def = handles.register(HandleTag::ComponentDefinition);
    let inst = handles.register(HandleTag::ComponentInstance);
    assert!(handles.resolve(def, HandleTag::ComponentDefinition));
    assert!(!handles.resolve(def, HandleTag::ComponentInstance));
    assert!(handles.resolve(inst, HandleTag::ComponentInstance));
    // The null handle never resolves.
    assert!(!handles.resolve(0, HandleTag::ComponentDefinition));
}

#[test]
fn handle_destroy_is_idempotent() {
    let mut handles = HandleTable::new();
    let h = handles.register(HandleTag::ComponentDefinition);
    assert!(handles.destroy(h));
    assert!(!handles.destroy(h));
    assert!(!handles.resolve(h, HandleTag::ComponentDefinition));
}

#[test]
fn run_loop_walks_its_three_states() {
    let mut rl = EventLoop::new();
    assert_eq!(rl.state(), RunState::Idle);
    rl.begin_run();
    assert_eq!(rl.state(), RunState::Running);
    rl.quit();
    assert_eq!(rl.state(), RunState::Stopped);
}

#[test]
fn unsupported_tray_reports_uniform_errors() {
    let mut tray = TrayState::new(TrayCapability::Unsupported);
    let msg = "System tray not supported on this platform";
    assert_eq!(tray.create("tip").unwrap_err(), msg);
    assert_eq!(tray.create_with_icon("tip", "i.png").unwrap_err(), msg);
    assert_eq!(tray.set_icon("i.png").unwrap_err(), msg);
    assert_eq!(tray.set_tooltip("tip").unwrap_err(), msg);
    assert!(tray.has_menu_capacity());
    assert_eq!(tray.add_menu_item("Open", 1, s("on_open")).unwrap_err(), msg);
    assert_eq!(tray.add_separator().unwrap_err(), msg);
    // Destroying and polling are harmless no-ops.
    tray.destroy();
    assert!(tray.poll(Some(1)).is_none());
}

#[test]
fn tray_menu_items_dispatch_their_callbacks() {
    let mut tray = TrayState::new(TrayCapability::Supported);
    tray.create("my app").unwrap();
    let a = tray.add_menu_item("Open", 5, s("on_open")).unwrap();
    tray.add_separator().unwrap();
    let b = tray.add_menu_item("Quit", 5, s("on_quit")).unwrap();
    assert_ne!(a, b);

    let req = tray.poll(Some(b)).expect("known id dispatches");
    assert_eq!(req.function, "on_quit");
    assert_eq!(req.vm, 5);
    assert!(tray.poll(Some(999)).is_none());
    assert!(tray.poll(None).is_none());

    // Recreating the tray clears the menu; stale ids no longer dispatch.
    tray.create("again").unwrap();
    assert!(tray.poll(Some(a)).is_none());

    tray.destroy();
    assert!(tray.poll(Some(b)).is_none());
}

#[test]
fn tray_set_icon_is_a_permissive_no_op_when_supported() {
    let mut tray = TrayState::new(TrayCapability::Supported);
    tray.create("tip").unwrap();
    assert_eq!(tray.set_icon("whatever.png"), Ok(()));
    assert_eq!(tray.set_tooltip("new tip"), Ok(()));
}

#[test]
fn modifier_strings_parse_case_insensitively() {
    assert_eq!(
        parse_modifiers("Ctrl+Shift"),
        ModifierSet { ctrl: true, alt: false, shift: true, super_key: false }
    );
    assert_eq!(
        parse_modifiers("CONTROL|ALT"),
        ModifierSet { ctrl: true, alt: true, shift: false, super_key: false }
    );
    assert_eq!(
        parse_modifiers("meta"),
        ModifierSet { ctrl: false, alt: false, shift: false, super_key: true }
    );
    assert_eq!(
        parse_modifiers("win"),
        ModifierSet { ctrl: false, alt: false, shift: false, super_key: true }
    );
    assert_eq!(
        parse_modifiers(""),
        ModifierSet { ctrl: false, alt: false, shift: false, super_key: false }
    );
}

#[test]
fn substring_search() {
    assert!(str_contains("control freak", "ctrl") == false);
    assert!(str_contains("the ctrl key", "ctrl"));
    assert!(str_contains("abc", ""));
    assert!(!str_contains("ab", "abc"));
}

#[test]
fn style_and_library_paths() {
    let mut config = CompilerConfig::new();
    assert_eq!(config.get_style(), None);
    config.set_style("fluent");
    assert_eq!(config.get_style(), Some(s("fluent")));
    // The empty string clears the style.
    config.set_style("");
    assert_eq!(config.get_style(), None);

    config.add_library_path("widgets", "/opt/widgets");
    config.add_library_path("theme", "/opt/theme");
    // Re-adding a name replaces its path.
    config.add_library_path("widgets", "/usr/share/widgets");
    config.remove_library_path("theme");
    config.remove_library_path("never-added");
    config.clear_library_paths();
    assert_eq!(config.get_style(), None);
}

#[test]
fn diagnostics_join_one_per_line_in_order() {
    let ds = vec![
        Diagnostic { line: 3, column: 14, message: s("unknown property") },
        Diagnostic { line: 10, column: 2, message: s("missing semicolon") },
    ];
    assert_eq!(
        join_diagnostics(&ds),
        "3:14: unknown property\n10:2: missing semicolon"
    );
    assert_eq!(join_diagnostics(&vec![]), "");
    let one = vec![Diagnostic { line: 1, column: 1, message: s("oops") }];
    assert_eq!(join_diagnostics(&one), "1:1: oops");
}

#[test]
fn wayland_session_detection() {
    assert!(is_wayland_session(Some("wayland-0"), None));
    assert!(is_wayland_session(None, Some("wayland")));
    assert!(!is_wayland_session(None, Some("x11")));
    assert!(!is_wayland_session(None, None));
}

#[test]
fn file_filters_read_names_and_extensions() {
    // [["Images", "png", "jpg"], ["Docs", "pdf"]]
    let input = DynValue::List(vec![
        DynValue::List(vec![
            DynValue::Str(s("Images")),
            DynValue::Str(s("png")),
            DynValue::Str(s("jpg")),
        ]),
        DynValue::List(vec![DynValue::Str(s("Docs")), DynValue::Str(s("pdf"))]),
    ]);
    let filters = parse_file_filters(&input);
    assert_eq!(filters.len(), 2);
    assert_eq!(filters[0].0, "Images");
    assert_eq!(filters[0].1, vec![s("png"), s("jpg")]);
    assert_eq!(filters[1].0, "Docs");
    assert_eq!(filters[1].1, vec![s("pdf")]);
}

#[test]
fn malformed_filter_entries_are_skipped() {
    let input = DynValue::List(vec![
        DynValue::Int(3),
        DynValue::List(vec![DynValue::Str(s("lonely name"))]),
        DynValue::List(vec![DynValue::Int(1), DynValue::Str(s("x"))]),
        DynValue::List(vec![
            DynValue::Str(s("Kept")),
            DynValue::Int(9),
            DynValue::Str(s("txt")),
        ]),
    ]);
    let filters = parse_file_filters(&input);
    assert_eq!(filters.len(), 1);
    assert_eq!(filters[0].0, "Kept");
    // The non-string element between the extensions is ignored.
    assert_eq!(filters[0].1, vec![s("txt")]);
    assert_eq!(parse_file_filters(&DynValue::Int(1)).len(), 0);
}

#[test]
fn message_kinds_by_keyword() {
    assert_eq!(classify_message_kind("warning"), MessageKind::Warning);
    assert_eq!(classify_message_kind("warn"), MessageKind::Warning);
    assert_eq!(classify_message_kind("error"), MessageKind::Error);
    assert_eq!(classify_message_kind("err"), MessageKind::Error);
    assert_eq!(classify_message_kind("info"), MessageKind::Info);
    assert_eq!(classify_message_kind("anything"), MessageKind::Info);
}

#[test]
fn decimal_rendering() {
    assert_eq!(u32_string(0), "0");
    assert_eq!(u32_string(7), "7");
    assert_eq!(u32_string(4294967295), "4294967295");
    assert_eq!(u64_string(1234567890123), "1234567890123");
    assert_eq!(usize_string(42), "42");
}
