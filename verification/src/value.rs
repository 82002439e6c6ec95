//! The value codec: the host engine's dynamic values on one side, the UI
//! runtime's typed values on the other, and the conversions between them.
//!
//! The host has numbers (doubles, with an int flag), strings and lists, and
//! nothing else; richer UI values travel encoded.  A host list is classified
//! structurally: a non-empty list of `[string, value]` pairs reads as a
//! struct, a non-empty list of such hashes as a model of structs, anything
//! else as a plain model.  A host string is opportunistically reinterpreted
//! as a bool, a hex color or an enumeration value when it has exactly that
//! shape; this coercion is deliberate and documented as ambiguous, since the
//! host cannot write those literals natively.

use crate::color::Color;
use crate::color::color_hex_str;
use crate::color::color_to_hex;
use crate::color::hex_color_of;
use crate::color::parse_hex_color;
use vstd::pervasive::unreached;
use vstd::prelude::*;

verus! {

/// A dynamic value of the host scripting engine.  Host numbers are doubles
/// carrying an int flag; an int-flagged number is held exactly, any other as
/// its IEEE-754 bit pattern, which this crate never interprets.  `Opaque`
/// stands for host items (pointers, objects) the codec does not convert.
#[derive(Debug, PartialEq)]
pub enum DynValue {
    Int(i64),
    Float(u64),
    Str(String),
    List(Vec<DynValue>),
    Opaque,
}

/// A typed value of the UI runtime, as the bridge models it.  The two number
/// variants preserve the host's int-vs-float distinction across a round
/// trip.  `Image` holds the source path, or `None` for an image that has no
/// path; `Opaque` stands for UI values of kinds the bridge does not carry.
#[derive(Debug, PartialEq)]
pub enum UiValue {
    Int(i64),
    Float(u64),
    Str(String),
    Bool(bool),
    Brush(Color),
    Enumeration(String, String),
    Image(Option<String>),
    Struct(Vec<(String, UiValue)>),
    Model(Vec<UiValue>),
    Void,
    Opaque,
}

/// The mathematical shape of a `DynValue`.
pub enum DynVal {
    Int(i64),
    Float(u64),
    Str(Seq<char>),
    List(Seq<DynVal>),
    Opaque,
}

/// The mathematical shape of a `UiValue`.
pub enum UiVal {
    Int(i64),
    Float(u64),
    Str(Seq<char>),
    Bool(bool),
    Brush(Color),
    Enumeration(Seq<char>, Seq<char>),
    Image(Option<Seq<char>>),
    Struct(Seq<(Seq<char>, UiVal)>),
    Model(Seq<UiVal>),
    Void,
    Opaque,
}

pub open spec fn dyn_view(v: DynValue) -> DynVal
    decreases v,
{
    match v {
        DynValue::Int(i) => DynVal::Int(i),
        DynValue::Float(b) => DynVal::Float(b),
        DynValue::Str(s) => DynVal::Str(s@),
        DynValue::List(items) => DynVal::List(
            Seq::new(
                items@.len(),
                |i: int|
                    if 0 <= i < items@.len() {
                        dyn_view(items@[i])
                    } else {
                        DynVal::Opaque
                    },
            ),
        ),
        DynValue::Opaque => DynVal::Opaque,
    }
}

pub open spec fn ui_view(v: UiValue) -> UiVal
    decreases v,
{
    match v {
        UiValue::Int(i) => UiVal::Int(i),
        UiValue::Float(b) => UiVal::Float(b),
        UiValue::Str(s) => UiVal::Str(s@),
        UiValue::Bool(b) => UiVal::Bool(b),
        UiValue::Brush(c) => UiVal::Brush(c),
        UiValue::Enumeration(n, val) => UiVal::Enumeration(n@, val@),
        UiValue::Image(p) => UiVal::Image(
            match p {
                Some(s) => Some(s@),
                None => None,
            },
        ),
        UiValue::Struct(fields) => UiVal::Struct(
            Seq::new(
                fields@.len(),
                |i: int|
                    if 0 <= i < fields@.len() {
                        (fields@[i].0@, ui_view(fields@[i].1))
                    } else {
                        (Seq::empty(), UiVal::Void)
                    },
            ),
        ),
        UiValue::Model(rows) => UiVal::Model(
            Seq::new(
                rows@.len(),
                |i: int|
                    if 0 <= i < rows@.len() {
                        ui_view(rows@[i])
                    } else {
                        UiVal::Void
                    },
            ),
        ),
        UiValue::Void => UiVal::Void,
        UiValue::Opaque => UiVal::Opaque,
    }
}

impl View for DynValue {
    type V = DynVal;

    open spec fn view(&self) -> DynVal {
        dyn_view(*self)
    }
}

impl View for UiValue {
    type V = UiVal;

    open spec fn view(&self) -> UiVal {
        ui_view(*self)
    }
}

/// The views of the elements of a vector of dynamic values.
pub open spec fn dyn_views(items: Seq<DynValue>) -> Seq<DynVal> {
    Seq::new(items.len(), |i: int| dyn_view(items[i]))
}

/// The views of the elements of a vector of UI values.
pub open spec fn ui_views(rows: Seq<UiValue>) -> Seq<UiVal> {
    Seq::new(rows.len(), |i: int| ui_view(rows[i]))
}

// ---------------------------------------------------------------------------
// String coercion: identifiers, enumeration literals, bools, hex colors.
// ---------------------------------------------------------------------------

/// An uppercase letter, as the Unicode tables have it.
pub open spec fn is_upper_char(c: char) -> bool {
    crate::unicode::uppercase_char(c)
}

/// A character an identifier may contain: alphanumeric (per the Unicode
/// tables), `_` or `-`.
pub open spec fn is_ident_char(c: char) -> bool {
    crate::unicode::alphanumeric_char(c) || c == '_' || c == '-'
}

/// A non-empty run of identifier characters.
pub open spec fn is_identifier_chars(s: Seq<char>) -> bool {
    s.len() > 0 && (forall|i: int| 0 <= i < s.len() ==> is_ident_char(#[trigger] s[i]))
}

/// The index of the first `.` in `s`, or -1 if there is none.
pub open spec fn first_dot(s: Seq<char>) -> int
    decreases s.len(),
{
    if s.len() == 0 {
        -1
    } else if s[0] == '.' {
        0
    } else {
        let r = first_dot(s.drop_first());
        if r < 0 {
            -1
        } else {
            r + 1
        }
    }
}

pub proof fn lemma_first_dot(s: Seq<char>)
    ensures
        first_dot(s) >= 0 ==> first_dot(s) < s.len() && s[first_dot(s)] == '.' && (forall|j: int|
            0 <= j < first_dot(s) ==> s[j] != '.'),
        first_dot(s) < 0 ==> forall|j: int| 0 <= j < s.len() ==> s[j] != '.',
    decreases s.len(),
{
    if s.len() == 0 {
    } else if s[0] == '.' {
    } else {
        lemma_first_dot(s.drop_first());
        assert(forall|j: int| 1 <= j < s.len() ==> s[j] == s.drop_first()[j - 1]);
    }
}

/// The name/variant split of an enumeration literal `Name.variant`: the part
/// before the first dot and the part after it, accepted only when both are
/// identifiers and the name starts with an uppercase letter.
pub open spec fn enum_parts(s: Seq<char>) -> Option<(Seq<char>, Seq<char>)> {
    let d = first_dot(s);
    if d >= 0 {
        let name = s.subrange(0, d);
        let variant = s.subrange(d + 1, s.len() as int);
        if is_identifier_chars(name) && is_identifier_chars(variant) && is_upper_char(name[0]) {
            Some((name, variant))
        } else {
            None
        }
    } else {
        None
    }
}

/// What a host string means as a UI value: the literals `true`/`false` read
/// as bools, a hex color literal as a solid brush, an enumeration literal as
/// an enumeration value, and anything else as the string itself.
pub open spec fn coerce_string(s: Seq<char>) -> UiVal {
    if s == "true"@ {
        UiVal::Bool(true)
    } else if s == "false"@ {
        UiVal::Bool(false)
    } else if hex_color_of(s) is Some {
        UiVal::Brush(hex_color_of(s)->Some_0)
    } else if enum_parts(s) is Some {
        UiVal::Enumeration(enum_parts(s)->Some_0.0, enum_parts(s)->Some_0.1)
    } else {
        UiVal::Str(s)
    }
}

/// Character-by-character string equality.
pub fn str_eq(a: &str, b: &str) -> (r: bool)
    ensures
        r == (a@ == b@),
{
    let na = a.unicode_len();
    let nb = b.unicode_len();
    if na != nb {
        return false;
    }
    let mut i: usize = 0;
    while i < na
        invariant
            na == a@.len(),
            na == b@.len(),
            0 <= i <= na,
            forall|j: int| 0 <= j < i ==> a@[j] == b@[j],
        decreases na - i,
    {
        if a.get_char(i) != b.get_char(i) {
            return false;
        }
        i += 1;
    }
    proof {
        assert(a@ =~= b@);
    }
    true
}

fn is_ident_char_exec(c: char) -> (r: bool)
    ensures
        r == is_ident_char(c),
{
    crate::unicode::is_alphanumeric_char(c) || c == '_' || c == '-'
}

/// Whether `s` is a non-empty run of identifier characters.
pub fn is_identifier(s: &str) -> (r: bool)
    ensures
        r == is_identifier_chars(s@),
{
    let n = s.unicode_len();
    if n == 0 {
        return false;
    }
    let mut i: usize = 0;
    while i < n
        invariant
            n == s@.len(),
            0 <= i <= n,
            forall|j: int| 0 <= j < i ==> is_ident_char(#[trigger] s@[j]),
        decreases n - i,
    {
        if !is_ident_char_exec(s.get_char(i)) {
            return false;
        }
        i += 1;
    }
    true
}

/// Finds the first `.` of `s`, exactly as `first_dot` describes.
fn find_dot(s: &str) -> (r: Option<usize>)
    ensures
        match r {
            Some(d) => first_dot(s@) == d && d < s@.len(),
            None => first_dot(s@) < 0,
        },
{
    proof {
        lemma_first_dot(s@);
    }
    let n = s.unicode_len();
    let mut i: usize = 0;
    let mut dot: Option<usize> = None;
    while i < n && dot.is_none()
        invariant
            n == s@.len(),
            0 <= i <= n,
            match dot {
                Some(d) => d < i && s@[d as int] == '.' && (forall|j: int|
                    0 <= j < d ==> s@[j] != '.'),
                None => forall|j: int| 0 <= j < i ==> s@[j] != '.',
            },
        decreases n - i,
    {
        if s.get_char(i) == '.' {
            dot = Some(i);
        }
        i += 1;
    }
    match dot {
        None => {
            assert(first_dot(s@) < 0) by {
                if first_dot(s@) >= 0 {
                    assert(s@[first_dot(s@)] == '.');
                }
            }
            None
        },
        Some(d) => {
            assert(s@[d as int] == '.' && forall|j: int| 0 <= j < d ==> s@[j] != '.');
            assert(first_dot(s@) == d) by {
                if first_dot(s@) < 0 {
                } else if first_dot(s@) < d {
                    assert(s@[first_dot(s@)] == '.');
                } else if first_dot(s@) > d {
                    assert(s@[d as int] != '.');
                }
            }
            Some(d)
        },
    }
}

/// Splits an enumeration literal `Name.variant` at its first dot, as
/// `enum_parts` describes; anything of another shape is rejected.
pub fn parse_enum_value(s: &str) -> (r: Option<(String, String)>)
    ensures
        match r {
            Some(p) => enum_parts(s@) == Some((p.0@, p.1@)),
            None => enum_parts(s@) is None,
        },
{
    let n = s.unicode_len();
    match find_dot(s) {
        None => None,
        Some(d) => {
            let name = s.substring_char(0, d);
            let variant = s.substring_char(d + 1, n);
            if !is_identifier(name) {
                return None;
            }
            if !is_identifier(variant) {
                return None;
            }
            let c = name.get_char(0);
            if crate::unicode::is_uppercase_char(c) {
                Some((String::from_str(name), String::from_str(variant)))
            } else {
                None
            }
        },
    }
}

/// Reads the value of a typed color-property assignment: the brush a hex
/// literal denotes, or the error the host script sees for a malformed
/// literal.
pub fn parse_color_property(hex: &str) -> (r: Result<UiValue, String>)
    ensures
        match r {
            Ok(u) => hex_color_of(hex@) is Some && u@ == UiVal::Brush(hex_color_of(hex@)->Some_0),
            Err(e) => hex_color_of(hex@) is None && e@ == "Invalid color format '"@ + hex@
                + "'. Expected hex color like #RRGGBB or #RRGGBBAA"@,
        },
{
    match parse_hex_color(hex) {
        Some(c) => Ok(UiValue::Brush(c)),
        None => {
            let mut e = String::from_str("Invalid color format '");
            e.append(hex);
            e.append("'. Expected hex color like #RRGGBB or #RRGGBBAA");
            proof {
                assert(e@ =~= "Invalid color format '"@ + hex@
                    + "'. Expected hex color like #RRGGBB or #RRGGBBAA"@);
            }
            Err(e)
        },
    }
}

/// Reads the value of a typed enumeration-property assignment: the string
/// splits at its first dot into name and variant, with no identifier
/// checks — the UI runtime validates the names; a string without a dot is
/// the error the host script sees.
pub fn parse_enum_property(s: &str) -> (r: Result<UiValue, String>)
    ensures
        match r {
            Ok(u) => first_dot(s@) >= 0 && u@ == UiVal::Enumeration(
                s@.subrange(0, first_dot(s@)),
                s@.subrange(first_dot(s@) + 1, s@.len() as int),
            ),
            Err(e) => first_dot(s@) < 0 && e@ == "Invalid enum format '"@ + s@
                + "'. Expected 'EnumName.variant'"@,
        },
{
    let n = s.unicode_len();
    match find_dot(s) {
        Some(d) => {
            let name = String::from_str(s.substring_char(0, d));
            let variant = String::from_str(s.substring_char(d + 1, n));
            Ok(UiValue::Enumeration(name, variant))
        },
        None => {
            let mut e = String::from_str("Invalid enum format '");
            e.append(s);
            e.append("'. Expected 'EnumName.variant'");
            proof {
                assert(e@ =~= "Invalid enum format '"@ + s@ + "'. Expected 'EnumName.variant'"@);
            }
            Err(e)
        },
    }
}

/// The brush a hex color literal denotes, as a UI value.
pub fn parse_hex_color_value(s: &str) -> (r: Option<UiValue>)
    ensures
        match r {
            Some(u) => hex_color_of(s@) is Some && u@ == UiVal::Brush(hex_color_of(s@)->Some_0),
            None => hex_color_of(s@) is None,
        },
{
    match parse_hex_color(s) {
        Some(c) => Some(UiValue::Brush(c)),
        None => None,
    }
}

/// Reinterprets a host string as a UI value, exactly as `coerce_string`
/// describes.
pub fn string_to_ui_value(s: &str) -> (u: UiValue)
    ensures
        u@ == coerce_string(s@),
{
    if str_eq(s, "true") {
        UiValue::Bool(true)
    } else if str_eq(s, "false") {
        UiValue::Bool(false)
    } else if let Some(c) = parse_hex_color(s) {
        UiValue::Brush(c)
    } else if let Some((name, variant)) = parse_enum_value(s) {
        UiValue::Enumeration(name, variant)
    } else {
        UiValue::Str(String::from_str(s))
    }
}

// ---------------------------------------------------------------------------
// Structural classification of host lists.
// ---------------------------------------------------------------------------

/// A hash entry: a two-element list whose first element is a string.
pub open spec fn is_hash_entry(d: DynVal) -> bool {
    d is List && d->List_0.len() == 2 && d->List_0[0] is Str
}

/// A hash: a non-empty list all of whose elements are hash entries.
pub open spec fn is_hash_seq(items: Seq<DynVal>) -> bool {
    items.len() > 0 && (forall|i: int| 0 <= i < items.len() ==> is_hash_entry(#[trigger] items[i]))
}

/// A list of hashes: non-empty, every element itself a hash.
pub open spec fn is_hash_list_seq(items: Seq<DynVal>) -> bool {
    items.len() > 0 && (forall|i: int|
        0 <= i < items.len() ==> (#[trigger] items[i]) is List && is_hash_seq(items[i]->List_0))
}

/// Converts a host value to a UI value: numbers keep their flavor, strings
/// are coerced, lists are classified, anything else reads as void.
pub open spec fn dyn_to_ui(d: DynVal) -> UiVal
    decreases d, 2int,
{
    match d {
        DynVal::Int(i) => UiVal::Int(i),
        DynVal::Float(b) => UiVal::Float(b),
        DynVal::Str(s) => coerce_string(s),
        DynVal::List(items) => list_to_ui(items),
        DynVal::Opaque => UiVal::Void,
    }
}

/// Converts a host value destined for a model row: as `dyn_to_ui`, except
/// that strings stay strings — rows are not coerced.
pub open spec fn dyn_to_ui_plain(d: DynVal) -> UiVal
    decreases d, 2int,
{
    match d {
        DynVal::Int(i) => UiVal::Int(i),
        DynVal::Float(b) => UiVal::Float(b),
        DynVal::Str(s) => UiVal::Str(s),
        DynVal::List(items) => list_to_ui(items),
        DynVal::Opaque => UiVal::Void,
    }
}

/// Classifies a host list, in priority order: empty — an empty model; a
/// hash — a single struct; a list of hashes — a model of structs; anything
/// else — a model of its rows, converted without string coercion.
pub open spec fn list_to_ui(items: Seq<DynVal>) -> UiVal
    decreases items, 1int,
{
    if items.len() == 0 {
        UiVal::Model(Seq::empty())
    } else if is_hash_seq(items) {
        UiVal::Struct(struct_fields(items))
    } else if is_hash_list_seq(items) {
        UiVal::Model(
            Seq::new(
                items.len(),
                |i: int|
                    if 0 <= i < items.len() {
                        UiVal::Struct(struct_fields(items[i]->List_0))
                    } else {
                        UiVal::Void
                    },
            ),
        )
    } else {
        UiVal::Model(
            Seq::new(
                items.len(),
                |i: int|
                    if 0 <= i < items.len() {
                        dyn_to_ui_plain(items[i])
                    } else {
                        UiVal::Void
                    },
            ),
        )
    }
}

/// The struct fields read from a hash: the name is each entry's first
/// element, the value its second, converted with string coercion.
pub open spec fn struct_fields(items: Seq<DynVal>) -> Seq<(Seq<char>, UiVal)>
    decreases items, 0int,
{
    Seq::new(
        items.len(),
        |i: int|
            if 0 <= i < items.len() && is_hash_entry(items[i]) {
                (items[i]->List_0[0]->Str_0, dyn_to_ui(items[i]->List_0[1]))
            } else {
                (Seq::empty(), UiVal::Void)
            },
    )
}

/// The UI values of a host argument list, element by element, with string
/// coercion.
pub open spec fn args_of(items: Seq<DynVal>) -> Seq<UiVal> {
    Seq::new(items.len(), |i: int| dyn_to_ui(items[i]))
}

fn is_hash_vec(items: &Vec<DynValue>) -> (r: bool)
    ensures
        r == is_hash_seq(dyn_views(items@)),
{
    let n = items.len();
    if n == 0 {
        return false;
    }
    let mut i: usize = 0;
    while i < n
        invariant
            n == items@.len(),
            0 <= i <= n,
            forall|j: int| 0 <= j < i ==> is_hash_entry(#[trigger] dyn_views(items@)[j]),
        decreases n - i,
    {
        let ghost vi = dyn_views(items@)[i as int];
        match &items[i] {
            DynValue::List(sub) => {
                if sub.len() != 2 {
                    proof {
                        assert(!is_hash_entry(vi));
                    }
                    return false;
                }
                match &sub[0] {
                    DynValue::Str(_) => {
                        proof {
                            assert(items@[i as int] == DynValue::List(*sub));
                            assert(vi->List_0.len() == sub@.len());
                            assert(vi->List_0[0] == dyn_view(sub@[0]));
                            assert(is_hash_entry(vi));
                        }
                    },
                    _ => {
                        proof {
                            assert(items@[i as int] == DynValue::List(*sub));
                            assert(vi->List_0.len() == sub@.len());
                            assert(vi->List_0[0] == dyn_view(sub@[0]));
                            assert(!(vi->List_0[0] is Str));
                            assert(!is_hash_entry(vi));
                        }
                        return false;
                    },
                }
            },
            _ => {
                proof {
                    assert(!is_hash_entry(vi));
                }
                return false;
            },
        }
        i += 1;
    }
    true
}

fn is_hash_list_vec(items: &Vec<DynValue>) -> (r: bool)
    ensures
        r == is_hash_list_seq(dyn_views(items@)),
{
    let n = items.len();
    if n == 0 {
        return false;
    }
    let mut i: usize = 0;
    while i < n
        invariant
            n == items@.len(),
            0 <= i <= n,
            forall|j: int|
                0 <= j < i ==> (#[trigger] dyn_views(items@)[j]) is List && is_hash_seq(
                    dyn_views(items@)[j]->List_0,
                ),
        decreases n - i,
    {
        let ghost vi = dyn_views(items@)[i as int];
        match &items[i] {
            DynValue::List(sub) => {
                if !is_hash_vec(sub) {
                    proof {
                        assert(vi->List_0 =~= dyn_views(sub@));
                        assert(!is_hash_seq(vi->List_0));
                    }
                    return false;
                }
                proof {
                    assert(vi->List_0 =~= dyn_views(sub@));
                    assert(is_hash_seq(vi->List_0));
                }
            },
            _ => {
                proof {
                    assert(!(vi is List));
                }
                return false;
            },
        }
        i += 1;
    }
    true
}

fn struct_from_hash(items: &Vec<DynValue>) -> (u: UiValue)
    requires
        is_hash_seq(dyn_views(items@)),
    ensures
        u@ == UiVal::Struct(struct_fields(dyn_views(items@))),
    decreases *items, 0int,
{
    let ghost vitems = dyn_views(items@);
    let n = items.len();
    let mut fields: Vec<(String, UiValue)> = Vec::new();
    let mut i: usize = 0;
    while i < n
        invariant
            is_hash_seq(vitems),
            vitems == dyn_views(items@),
            n == items@.len(),
            0 <= i <= n,
            fields@.len() == i,
            forall|j: int|
                0 <= j < i ==> ((#[trigger] fields@[j]).0@, fields@[j].1@) == struct_fields(
                    vitems,
                )[j],
        decreases n - i,
    {
        match &items[i] {
            DynValue::List(pair) => {
                proof {
                    assert(vitems[i as int]->List_0 =~= dyn_views(pair@));
                }
                let key = match &pair[0] {
                    DynValue::Str(s) => s.clone(),
                    _ => unreached(),
                };
                let val = to_ui_value(&pair[1]);
                fields.push((key, val));
            },
            _ => unreached(),
        }
        i += 1;
    }
    let u = UiValue::Struct(fields);
    proof {
        assert(u@->Struct_0 =~= struct_fields(vitems));
    }
    u
}

/// Converts a host value to a UI value, exactly as `dyn_to_ui` describes.
pub fn to_ui_value(d: &DynValue) -> (u: UiValue)
    ensures
        u@ == dyn_to_ui(d@),
    decreases *d, 2int,
{
    match d {
        DynValue::Int(i) => UiValue::Int(*i),
        DynValue::Float(b) => UiValue::Float(*b),
        DynValue::Str(s) => string_to_ui_value(s.as_str()),
        DynValue::List(items) => {
            proof {
                assert(d@->List_0 =~= dyn_views(items@));
            }
            list_to_ui_value(items)
        },
        DynValue::Opaque => UiValue::Void,
    }
}

/// Converts a host value destined for a model row, exactly as
/// `dyn_to_ui_plain` describes: strings are not coerced.
pub fn to_model_value(d: &DynValue) -> (u: UiValue)
    ensures
        u@ == dyn_to_ui_plain(d@),
    decreases *d, 2int,
{
    match d {
        DynValue::Int(i) => UiValue::Int(*i),
        DynValue::Float(b) => UiValue::Float(*b),
        DynValue::Str(s) => UiValue::Str(s.clone()),
        DynValue::List(items) => {
            proof {
                assert(d@->List_0 =~= dyn_views(items@));
            }
            list_to_ui_value(items)
        },
        DynValue::Opaque => UiValue::Void,
    }
}

/// Classifies a host list as a struct, a model of structs or a plain model,
/// exactly as `list_to_ui` describes.
pub fn list_to_ui_value(items: &Vec<DynValue>) -> (u: UiValue)
    ensures
        u@ == list_to_ui(dyn_views(items@)),
    decreases *items, 1int,
{
    let ghost vitems = dyn_views(items@);
    let n = items.len();
    if n == 0 {
        let u = UiValue::Model(Vec::new());
        proof {
            assert(u@->Model_0 =~= Seq::<UiVal>::empty());
        }
        return u;
    }
    if is_hash_vec(items) {
        return struct_from_hash(items);
    }
    if is_hash_list_vec(items) {
        let mut rows: Vec<UiValue> = Vec::new();
        let mut i: usize = 0;
        while i < n
            invariant
                is_hash_list_seq(vitems),
                !is_hash_seq(vitems),
                vitems == dyn_views(items@),
                n == items@.len(),
                0 <= i <= n,
                rows@.len() == i,
                forall|j: int|
                    0 <= j < i ==> (#[trigger] rows@[j])@ == UiVal::Struct(
                        struct_fields(vitems[j]->List_0),
                    ),
            decreases n - i,
        {
            match &items[i] {
                DynValue::List(sub) => {
                    proof {
                        assert(vitems[i as int]->List_0 =~= dyn_views(sub@));
                    }
                    rows.push(struct_from_hash(sub));
                },
                _ => unreached(),
            }
            i += 1;
        }
        let u = UiValue::Model(rows);
        proof {
            assert(u@->Model_0 =~= list_to_ui(vitems)->Model_0);
        }
        return u;
    }
    let mut rows: Vec<UiValue> = Vec::new();
    let mut i: usize = 0;
    while i < n
        invariant
            !is_hash_seq(vitems),
            !is_hash_list_seq(vitems),
            vitems == dyn_views(items@),
            n == items@.len(),
            n > 0,
            0 <= i <= n,
            rows@.len() == i,
            forall|j: int| 0 <= j < i ==> (#[trigger] rows@[j])@ == dyn_to_ui_plain(vitems[j]),
        decreases n - i,
    {
        rows.push(to_model_value(&items[i]));
        i += 1;
    }
    let u = UiValue::Model(rows);
    proof {
        assert(u@->Model_0 =~= list_to_ui(vitems)->Model_0);
    }
    u
}

/// Converts a host argument list for an invoke call: every element with
/// string coercion, as `args_of` describes.
pub fn list_to_args(items: &Vec<DynValue>) -> (args: Vec<UiValue>)
    ensures
        ui_views(args@) == args_of(dyn_views(items@)),
{
    let n = items.len();
    let mut args: Vec<UiValue> = Vec::new();
    let mut i: usize = 0;
    while i < n
        invariant
            n == items@.len(),
            0 <= i <= n,
            args@.len() == i,
            forall|j: int|
                0 <= j < i ==> (#[trigger] args@[j])@ == dyn_to_ui(dyn_views(items@)[j]),
        decreases n - i,
    {
        args.push(to_ui_value(&items[i]));
        i += 1;
    }
    proof {
        assert(ui_views(args@) =~= args_of(dyn_views(items@)));
    }
    args
}

// ---------------------------------------------------------------------------
// The reverse direction: UI values back to host values.
// ---------------------------------------------------------------------------

/// Converts a UI value back to a host value: numbers and strings pass
/// through, bools become the numbers 1/0, void and unsupported values the
/// number 0, brushes their hex literal, enumeration values a `Name.variant`
/// string, images their source path (an empty string without one), structs a
/// list of `[name, value]` pairs, models a list of their converted rows.
pub open spec fn ui_to_dyn(u: UiVal) -> DynVal
    decreases u, 1int,
{
    match u {
        UiVal::Int(i) => DynVal::Int(i),
        UiVal::Float(b) => DynVal::Float(b),
        UiVal::Str(s) => DynVal::Str(s),
        UiVal::Bool(b) => DynVal::Int(
            if b {
                1
            } else {
                0
            },
        ),
        UiVal::Brush(c) => DynVal::Str(color_hex_str(c)),
        UiVal::Enumeration(n, v) => DynVal::Str(n + seq!['.'] + v),
        UiVal::Image(p) => DynVal::Str(
            match p {
                Some(s) => s,
                None => Seq::empty(),
            },
        ),
        UiVal::Struct(fields) => DynVal::List(pairs_to_dyn(fields)),
        UiVal::Model(rows) => DynVal::List(rows_to_dyn(rows)),
        UiVal::Void => DynVal::Int(0),
        UiVal::Opaque => DynVal::Int(0),
    }
}

/// The `[name, value]` pair lists of a struct's fields.
pub open spec fn pairs_to_dyn(fields: Seq<(Seq<char>, UiVal)>) -> Seq<DynVal>
    decreases fields, 0int,
{
    Seq::new(
        fields.len(),
        |i: int|
            if 0 <= i < fields.len() {
                DynVal::List(seq![DynVal::Str(fields[i].0), ui_to_dyn(fields[i].1)])
            } else {
                DynVal::Opaque
            },
    )
}

/// The converted rows of a model.
pub open spec fn rows_to_dyn(rows: Seq<UiVal>) -> Seq<DynVal>
    decreases rows, 0int,
{
    Seq::new(
        rows.len(),
        |i: int|
            if 0 <= i < rows.len() {
                ui_to_dyn(rows[i])
            } else {
                DynVal::Opaque
            },
    )
}

/// What a UI value returned to the host becomes: as `ui_to_dyn`, except that
/// an image without a path yields nothing at all rather than a string.
pub open spec fn ui_to_dyn_top(u: UiVal) -> Option<DynVal> {
    if u is Image && u->Image_0 is None {
        None
    } else {
        Some(ui_to_dyn(u))
    }
}

/// Converts a UI value embedded in a list context, exactly as `ui_to_dyn`
/// describes; total, with a pathless image read as the empty string.
pub fn to_dynamic_item(u: &UiValue) -> (d: DynValue)
    ensures
        d@ == ui_to_dyn(u@),
    decreases *u, 1int,
{
    match u {
        UiValue::Int(i) => DynValue::Int(*i),
        UiValue::Float(b) => DynValue::Float(*b),
        UiValue::Str(s) => DynValue::Str(s.clone()),
        UiValue::Bool(b) => DynValue::Int(
            if *b {
                1
            } else {
                0
            },
        ),
        UiValue::Brush(c) => DynValue::Str(color_to_hex(*c)),
        UiValue::Enumeration(n, v) => {
            let mut s = n.clone();
            s.append(".");
            s.append(v.as_str());
            proof {
                reveal_strlit(".");
                assert(s@ =~= n@ + seq!['.'] + v@);
            }
            DynValue::Str(s)
        },
        UiValue::Image(p) => match p {
            Some(path) => DynValue::Str(path.clone()),
            None => {
                let s = String::new();
                proof {
                    assert(s@ =~= Seq::<char>::empty());
                }
                DynValue::Str(s)
            },
        },
        UiValue::Struct(fields) => {
            let ghost vf = u@->Struct_0;
            let n = fields.len();
            let mut out: Vec<DynValue> = Vec::new();
            let mut i: usize = 0;
            while i < n
                invariant
                    *u == UiValue::Struct(*fields),
                    vf == ui_view(UiValue::Struct(*fields))->Struct_0,
                    n == fields@.len(),
                    vf.len() == n,
                    0 <= i <= n,
                    out@.len() == i,
                    forall|j: int| 0 <= j < i ==> (#[trigger] out@[j])@ == pairs_to_dyn(vf)[j],
                decreases n - i,
            {
                let pair = &fields[i];
                let key = pair.0.clone();
                let ghost gkey = key@;
                let val = to_dynamic_item(&pair.1);
                let ghost gval = val@;
                let mut pv: Vec<DynValue> = Vec::new();
                pv.push(DynValue::Str(key));
                pv.push(val);
                let item = DynValue::List(pv);
                proof {
                    assert(gkey == fields@[i as int].0@);
                    assert(gval == ui_to_dyn(ui_view(fields@[i as int].1)));
                    assert(pv@.len() == 2);
                    assert(pv@[0] == DynValue::Str(key));
                    assert(dyn_view(DynValue::Str(key)) == DynVal::Str(gkey));
                    assert(item@->List_0[0] == dyn_view(pv@[0]));
                    assert(item@->List_0[0] == DynVal::Str(gkey));
                    assert(item@->List_0[1] == gval);
                    assert(item@->List_0 =~= seq![DynVal::Str(gkey), gval]);
                    assert(vf[i as int] == (fields@[i as int].0@, ui_view(fields@[i as int].1)));
                    assert(item@ == pairs_to_dyn(vf)[i as int]);
                }
                out.push(item);
                i += 1;
            }
            let d = DynValue::List(out);
            proof {
                assert(d@->List_0 =~= pairs_to_dyn(vf));
            }
            d
        },
        UiValue::Model(rows) => {
            let ghost vr = u@->Model_0;
            let n = rows.len();
            let mut out: Vec<DynValue> = Vec::new();
            let mut i: usize = 0;
            while i < n
                invariant
                    *u == UiValue::Model(*rows),
                    vr == ui_view(UiValue::Model(*rows))->Model_0,
                    n == rows@.len(),
                    vr.len() == n,
                    0 <= i <= n,
                    out@.len() == i,
                    forall|j: int| 0 <= j < i ==> (#[trigger] out@[j])@ == rows_to_dyn(vr)[j],
                decreases n - i,
            {
                out.push(to_dynamic_item(&rows[i]));
                i += 1;
            }
            let d = DynValue::List(out);
            proof {
                assert(d@->List_0 =~= rows_to_dyn(vr));
            }
            d
        },
        UiValue::Void => DynValue::Int(0),
        UiValue::Opaque => DynValue::Int(0),
    }
}

/// Converts a UI value for return to the host, exactly as `ui_to_dyn_top`
/// describes: an image without a path yields `None`, everything else the
/// converted value.
pub fn to_dynamic_value(u: &UiValue) -> (r: Option<DynValue>)
    ensures
        match r {
            Some(d) => ui_to_dyn_top(u@) == Some(d@),
            None => ui_to_dyn_top(u@) is None,
        },
{
    match u {
        UiValue::Image(p) => match p {
            Some(path) => Some(DynValue::Str(path.clone())),
            None => None,
        },
        _ => Some(to_dynamic_item(u)),
    }
}

// ---------------------------------------------------------------------------
// The round-trip law.
// ---------------------------------------------------------------------------

/// The UI values on which the host round trip is exactly lossless: both
/// number flavors, any brush, any string that does not itself spell a
/// bool, hex color or enumeration literal, and any enumeration value whose
/// name and variant are identifiers with the name starting uppercase.  The
/// name must also be free of dots and not start with `#`; every real
/// identifier already is, but the Unicode character classes are opaque
/// here, so the law states it.
pub open spec fn round_trips_exactly(u: UiVal) -> bool {
    match u {
        UiVal::Int(_) => true,
        UiVal::Float(_) => true,
        UiVal::Brush(_) => true,
        UiVal::Str(s) => s != "true"@ && s != "false"@ && hex_color_of(s) is None
            && enum_parts(s) is None,
        UiVal::Enumeration(n, v) => is_identifier_chars(n) && is_identifier_chars(v)
            && is_upper_char(n[0]) && n[0] != '#' && (forall|i: int|
            0 <= i < n.len() ==> n[i] != '.'),
        _ => false,
    }
}

/// Converting a UI value to the host and back returns the same value on
/// every value `round_trips_exactly` admits, and a bool comes back as the
/// documented number 1 or 0.  The other variants are excluded: structs,
/// models and images are documented exceptions, and void and opaque values
/// collapse to the number 0.
pub proof fn lemma_round_trip(u: UiVal)
    ensures
        round_trips_exactly(u) ==> dyn_to_ui(ui_to_dyn(u)) == u,
        u is Bool ==> dyn_to_ui(ui_to_dyn(u)) == UiVal::Int(
            if u->Bool_0 {
                1
            } else {
                0
            },
        ),
{
    reveal_strlit("true");
    reveal_strlit("false");
    if !round_trips_exactly(u) {
        return ;
    }
    match u {
        UiVal::Brush(c) => {
            let s = color_hex_str(c);
            crate::color::lemma_color_hex_round_trip(c);
            assert(s[0] == '#');
            assert(s != "true"@ && s != "false"@) by {
                assert("true"@[0] == 't' && "false"@[0] == 'f');
            }
            assert(coerce_string(s) == UiVal::Brush(c));
        },
        UiVal::Enumeration(n, v) => {
            let s = n + seq!['.'] + v;
            assert(s.len() == n.len() + 1 + v.len());
            assert(s[n.len() as int] == '.');
            assert(forall|j: int| 0 <= j < n.len() ==> s[j] == n[j]);
            assert(forall|j: int|
                n.len() + 1 <= j < s.len() ==> s[j] == v[j - n.len() - 1]);
            assert(s != "true"@) by {
                if s == "true"@ {
                    assert(s[n.len() as int] == "true"@[n.len() as int]);
                    assert("true"@[0] == 't' && "true"@[1] == 'r' && "true"@[2] == 'u'
                        && "true"@[3] == 'e');
                }
            }
            assert(s != "false"@) by {
                if s == "false"@ {
                    assert(s[n.len() as int] == "false"@[n.len() as int]);
                    assert("false"@[0] == 'f' && "false"@[1] == 'a' && "false"@[2] == 'l'
                        && "false"@[3] == 's' && "false"@[4] == 'e');
                }
            }
            assert(hex_color_of(s) is None) by {
                assert(s[0] == n[0]);
                assert(s[0] != '#');
            }
            lemma_first_dot(s);
            let fd = first_dot(s);
            assert(fd == n.len()) by {
                if fd < 0 {
                    assert(s[n.len() as int] == '.');
                } else if fd < n.len() {
                    assert(s[fd] == n[fd]);
                    assert(n[fd] != '.');
                } else if fd > n.len() {
                    assert(s[n.len() as int] != '.');
                }
            }
            assert(s.subrange(0, fd) =~= n);
            assert(s.subrange(fd + 1, s.len() as int) =~= v);
            assert(enum_parts(s) == Some((n, v)));
            assert(coerce_string(s) == UiVal::Enumeration(n, v));
        },
        _ => {},
    }
}

} // verus!
