//! The value codec from outside: string coercion, the structural
//! classifier, hex colors, and both conversion directions.

use ring_slint::color::{parse_hex_color, color_to_hex, Color};
use ring_slint::value::{
    to_ui_value, to_model_value, to_dynamic_value, to_dynamic_item, list_to_args,
    list_to_ui_value, string_to_ui_value, parse_enum_value, parse_enum_property,
    parse_color_property, parse_hex_color_value, is_identifier, str_eq, DynValue, UiValue,
};

fn s(text: &str) -> String {
    text.to_string()
}

fn pair(key: &str, value: DynValue) -> DynValue {
    DynValue::List(vec![DynValue::Str(s(key)), value])
}

#[test]
fn hex_color_opaque_red() {
    let c = parse_hex_color("#FF0000").expect("six-digit literal");
    assert_eq!(c, Color { alpha: 255, red: 255, green: 0, blue: 0 });
}

#[test]
fn hex_color_translucent_green() {
    let c = parse_hex_color("#00FF0080").expect("eight-digit literal");
    assert_eq!(c, Color { alpha: 0x80, red: 0, green: 255, blue: 0 });
}

#[test]
fn hex_color_malformed_is_rejected() {
    assert_eq!(parse_hex_color("#12"), None);
    assert_eq!(parse_hex_color("FF0000"), None);
    assert_eq!(parse_hex_color("#GG0000"), None);
    assert_eq!(parse_hex_color("#1234567"), None);
    // A malformed literal is not silently misparsed by the coercion either:
    // it stays a string.
    assert_eq!(string_to_ui_value("#12"), UiValue::Str(s("#12")));
}

#[test]
fn hex_color_full_alpha_omits_pair() {
    let opaque = Color { alpha: 255, red: 0xAB, green: 0xCD, blue: 0xEF };
    assert_eq!(color_to_hex(opaque), "#abcdef");
    let translucent = Color { alpha: 0x80, red: 0xAB, green: 0xCD, blue: 0xEF };
    assert_eq!(color_to_hex(translucent), "#abcdef80");
}

#[test]
fn hex_color_round_trip() {
    let c = Color { alpha: 0x7F, red: 1, green: 2, blue: 3 };
    assert_eq!(parse_hex_color(&color_to_hex(c)), Some(c));
    let o = Color { alpha: 255, red: 9, green: 8, blue: 7 };
    assert_eq!(parse_hex_color(&color_to_hex(o)), Some(o));
}

#[test]
fn string_coercion() {
    assert_eq!(string_to_ui_value("true"), UiValue::Bool(true));
    assert_eq!(string_to_ui_value("false"), UiValue::Bool(false));
    assert_eq!(
        string_to_ui_value("#FF0000"),
        UiValue::Brush(Color { alpha: 255, red: 255, green: 0, blue: 0 })
    );
    assert_eq!(
        string_to_ui_value("Theme.dark"),
        UiValue::Enumeration(s("Theme"), s("dark"))
    );
    // Lowercase first identifier: not an enumeration literal.
    assert_eq!(string_to_ui_value("theme.dark"), UiValue::Str(s("theme.dark")));
    assert_eq!(string_to_ui_value("plain"), UiValue::Str(s("plain")));
}

#[test]
fn unicode_identifiers_coerce() {
    // Identifier characters follow the Unicode tables, so a non-ASCII
    // letter in the name or variant still reads as an enumeration value.
    assert_eq!(
        string_to_ui_value("Näme.wert"),
        UiValue::Enumeration(s("Näme"), s("wert"))
    );
    assert_eq!(parse_enum_value("Näme.wert"), Some((s("Näme"), s("wert"))));
}

#[test]
fn enum_literal_parsing() {
    assert_eq!(parse_enum_value("Theme.dark"), Some((s("Theme"), s("dark"))));
    assert_eq!(parse_enum_value("NoDotHere"), None);
    assert_eq!(parse_enum_value("lower.case"), None);
    assert_eq!(parse_enum_value("Bad name.x"), None);
    assert!(is_identifier("snake_case-1"));
    assert!(!is_identifier(""));
    assert!(!is_identifier("has space"));
}

#[test]
fn classifier_hash_becomes_struct() {
    // [["a",1],["b",2]] reads as one struct with fields a=1, b=2.
    let input = DynValue::List(vec![
        pair("a", DynValue::Int(1)),
        pair("b", DynValue::Int(2)),
    ]);
    let out = to_ui_value(&input);
    assert_eq!(
        out,
        UiValue::Struct(vec![(s("a"), UiValue::Int(1)), (s("b"), UiValue::Int(2))])
    );
}

#[test]
fn classifier_list_of_hashes_becomes_model_of_structs() {
    // [[["a",1]],[["a",2]]] reads as a model of two structs.
    let input = DynValue::List(vec![
        DynValue::List(vec![pair("a", DynValue::Int(1))]),
        DynValue::List(vec![pair("a", DynValue::Int(2))]),
    ]);
    let out = to_ui_value(&input);
    assert_eq!(
        out,
        UiValue::Model(vec![
            UiValue::Struct(vec![(s("a"), UiValue::Int(1))]),
            UiValue::Struct(vec![(s("a"), UiValue::Int(2))]),
        ])
    );
}

#[test]
fn classifier_empty_list_is_empty_model() {
    assert_eq!(to_ui_value(&DynValue::List(vec![])), UiValue::Model(vec![]));
}

#[test]
fn classifier_plain_list_rows_are_not_coerced() {
    // In a plain model, a row spelled "true" stays a string; the same
    // string as a struct field value is coerced.  The two call sites of
    // the original behave differently, deliberately.
    let plain = DynValue::List(vec![DynValue::Str(s("true")), DynValue::Int(3)]);
    assert_eq!(
        to_ui_value(&plain),
        UiValue::Model(vec![UiValue::Str(s("true")), UiValue::Int(3)])
    );
    let hash = DynValue::List(vec![pair("flag", DynValue::Str(s("true")))]);
    assert_eq!(
        to_ui_value(&hash),
        UiValue::Struct(vec![(s("flag"), UiValue::Bool(true))])
    );
}

#[test]
fn model_values_are_not_coerced() {
    assert_eq!(to_model_value(&DynValue::Str(s("true"))), UiValue::Str(s("true")));
    assert_eq!(to_model_value(&DynValue::Int(7)), UiValue::Int(7));
    assert_eq!(to_model_value(&DynValue::Opaque), UiValue::Void);
}

#[test]
fn args_are_coerced() {
    let args = list_to_args(&vec![
        DynValue::Str(s("true")),
        DynValue::Str(s("#000000")),
        DynValue::Int(5),
    ]);
    assert_eq!(args[0], UiValue::Bool(true));
    assert_eq!(
        args[1],
        UiValue::Brush(Color { alpha: 255, red: 0, green: 0, blue: 0 })
    );
    assert_eq!(args[2], UiValue::Int(5));
}

#[test]
fn nested_lists_classify_recursively() {
    let input = DynValue::List(vec![
        pair("rows", DynValue::List(vec![DynValue::Int(1), DynValue::Int(2)])),
    ]);
    assert_eq!(
        list_to_ui_value(match &input {
            DynValue::List(items) => items,
            _ => unreachable!(),
        }),
        UiValue::Struct(vec![(
            s("rows"),
            UiValue::Model(vec![UiValue::Int(1), UiValue::Int(2)])
        )])
    );
}

#[test]
fn round_trip_numbers_and_strings() {
    // Both number flavors survive the round trip exactly.
    let i = UiValue::Int(-42);
    assert_eq!(to_ui_value(&to_dynamic_item(&i)), i);
    let f = UiValue::Float(2.5f64.to_bits());
    assert_eq!(to_ui_value(&to_dynamic_item(&f)), f);
    let st = UiValue::Str(s("just text"));
    assert_eq!(to_ui_value(&to_dynamic_item(&st)), st);
}

#[test]
fn round_trip_brush_and_enumeration() {
    let b = UiValue::Brush(Color { alpha: 255, red: 16, green: 32, blue: 48 });
    assert_eq!(to_ui_value(&to_dynamic_item(&b)), b);
    let t = UiValue::Brush(Color { alpha: 9, red: 16, green: 32, blue: 48 });
    assert_eq!(to_ui_value(&to_dynamic_item(&t)), t);
    let e = UiValue::Enumeration(s("Align"), s("center"));
    assert_eq!(to_ui_value(&to_dynamic_item(&e)), e);
}

#[test]
fn round_trip_bool_is_numeric() {
    // The documented lossy mapping: bools come back as the numbers 1 / 0.
    assert_eq!(to_dynamic_item(&UiValue::Bool(true)), DynValue::Int(1));
    assert_eq!(to_dynamic_item(&UiValue::Bool(false)), DynValue::Int(0));
    assert_eq!(to_ui_value(&to_dynamic_item(&UiValue::Bool(true))), UiValue::Int(1));
}

#[test]
fn reverse_struct_and_model() {
    let v = UiValue::Struct(vec![
        (s("a"), UiValue::Int(1)),
        (s("b"), UiValue::Str(s("x"))),
    ]);
    assert_eq!(
        to_dynamic_item(&v),
        DynValue::List(vec![
            pair("a", DynValue::Int(1)),
            pair("b", DynValue::Str(s("x"))),
        ])
    );
    let m = UiValue::Model(vec![UiValue::Int(1), UiValue::Bool(true)]);
    assert_eq!(
        to_dynamic_item(&m),
        DynValue::List(vec![DynValue::Int(1), DynValue::Int(1)])
    );
}

#[test]
fn reverse_void_image_and_opaque() {
    assert_eq!(to_dynamic_item(&UiValue::Void), DynValue::Int(0));
    assert_eq!(to_dynamic_item(&UiValue::Opaque), DynValue::Int(0));
    assert_eq!(
        to_dynamic_item(&UiValue::Image(Some(s("/tmp/x.png")))),
        DynValue::Str(s("/tmp/x.png"))
    );
    // A pathless image yields nothing at top level, an empty string in a
    // list.
    assert_eq!(to_dynamic_value(&UiValue::Image(None)), None);
    assert_eq!(to_dynamic_item(&UiValue::Image(None)), DynValue::Str(s("")));
    assert_eq!(
        to_dynamic_value(&UiValue::Image(Some(s("a")))),
        Some(DynValue::Str(s("a")))
    );
}

#[test]
fn typed_color_property() {
    assert_eq!(
        parse_color_property("#FF0000"),
        Ok(UiValue::Brush(Color { alpha: 255, red: 255, green: 0, blue: 0 }))
    );
    assert_eq!(
        parse_color_property("#12"),
        Err(s("Invalid color format '#12'. Expected hex color like #RRGGBB or #RRGGBBAA"))
    );
    assert_eq!(
        parse_hex_color_value("#00FF0080"),
        Some(UiValue::Brush(Color { alpha: 0x80, red: 0, green: 255, blue: 0 }))
    );
    assert_eq!(parse_hex_color_value("nope"), None);
}

#[test]
fn typed_enum_property() {
    // The typed setter splits at the first dot and leaves validation to
    // the UI runtime — unlike the coercion, it takes any names.
    assert_eq!(
        parse_enum_property("Theme.dark"),
        Ok(UiValue::Enumeration(s("Theme"), s("dark")))
    );
    assert_eq!(
        parse_enum_property("lower.case"),
        Ok(UiValue::Enumeration(s("lower"), s("case")))
    );
    assert_eq!(
        parse_enum_property("nodot"),
        Err(s("Invalid enum format 'nodot'. Expected 'EnumName.variant'"))
    );
}

#[test]
fn str_eq_behaves_like_equality() {
    assert!(str_eq("abc", "abc"));
    assert!(!str_eq("abc", "abd"));
    assert!(!str_eq("abc", "ab"));
    assert!(str_eq("", ""));
}
