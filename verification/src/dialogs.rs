//! The computed side of the platform dialogs: turning a host list into the
//! name/extension filters a file dialog takes, and reading the message-box
//! kind the script asked for.  Showing the dialogs themselves is blocking
//! platform work and belongs to the embedder.

use crate::value::DynVal;
use crate::value::DynValue;
use crate::value::dyn_views;
use crate::value::str_eq;
use vstd::pervasive::unreached;
use vstd::prelude::*;

verus! {

/// A host list element that describes one filter: a list of at least two
/// elements whose first is the filter's name.
pub open spec fn is_filter_entry(d: DynVal) -> bool {
    d is List && d->List_0.len() >= 2 && d->List_0[0] is Str
}

/// The string elements of a host list, in order; anything else is ignored.
pub open spec fn str_elems(items: Seq<DynVal>) -> Seq<Seq<char>>
    decreases items.len(),
{
    if items.len() == 0 {
        Seq::empty()
    } else if items.last() is Str {
        str_elems(items.drop_last()).push(items.last()->Str_0)
    } else {
        str_elems(items.drop_last())
    }
}

/// The extensions of one filter entry: the string elements after the name.
pub open spec fn filter_exts(d: DynVal) -> Seq<Seq<char>> {
    str_elems(d->List_0.skip(1))
}

/// The filters described by a host list: each well-shaped entry becomes a
/// `(name, extensions)` pair, in order; malformed entries are skipped.
pub open spec fn filters_of(items: Seq<DynVal>) -> Seq<(Seq<char>, Seq<Seq<char>>)>
    decreases items.len(),
{
    if items.len() == 0 {
        Seq::empty()
    } else if is_filter_entry(items.last()) {
        filters_of(items.drop_last()).push(
            (items.last()->List_0[0]->Str_0, filter_exts(items.last())),
        )
    } else {
        filters_of(items.drop_last())
    }
}

/// The views of an exec filter list.
pub open spec fn filters_view(fs: Seq<(String, Vec<String>)>) -> Seq<(Seq<char>, Seq<Seq<char>>)> {
    Seq::new(
        fs.len(),
        |i: int| (fs[i].0@, Seq::new(fs[i].1@.len(), |j: int| fs[i].1@[j]@)),
    )
}

fn collect_str_elems(items: &Vec<DynValue>, from: usize) -> (out: Vec<String>)
    requires
        from <= items@.len(),
    ensures
        Seq::new(out@.len(), |j: int| out@[j]@) == str_elems(dyn_views(items@).skip(from as int)),
{
    let n = items.len();
    let mut out: Vec<String> = Vec::new();
    let mut i: usize = from;
    while i < n
        invariant
            from <= i <= n,
            n == items@.len(),
            Seq::new(out@.len(), |j: int| out@[j]@) == str_elems(
                dyn_views(items@).skip(from as int).take(i - from),
            ),
        decreases n - i,
    {
        let ghost pre = dyn_views(items@).skip(from as int).take(i - from);
        match &items[i] {
            DynValue::Str(s) => {
                out.push(s.clone());
            },
            _ => {},
        }
        proof {
            let whole = dyn_views(items@).skip(from as int);
            assert(whole.take(i - from + 1).drop_last() =~= pre);
            assert(whole.take(i - from + 1).last() == dyn_views(items@)[i as int]);
            assert(Seq::new(out@.len(), |j: int| out@[j]@) =~= str_elems(
                whole.take(i - from + 1),
            ));
        }
        i += 1;
    }
    proof {
        assert(dyn_views(items@).skip(from as int).take(n - from) =~= dyn_views(items@).skip(
            from as int,
        ));
    }
    out
}

/// Reads a host list as file-dialog filters, exactly as `filters_of`
/// describes: each entry that is itself a list of at least two elements
/// starting with a string becomes a named filter whose extensions are the
/// string elements after the name; anything else is skipped.
pub fn parse_file_filters(v: &DynValue) -> (out: Vec<(String, Vec<String>)>)
    ensures
        filters_view(out@) == match v@ {
            DynVal::List(items) => filters_of(items),
            _ => Seq::<(Seq<char>, Seq<Seq<char>>)>::empty(),
        },
{
    let items = match v {
        DynValue::List(items) => items,
        _ => {
            let out: Vec<(String, Vec<String>)> = Vec::new();
            proof {
                assert(filters_view(out@) =~= Seq::<(Seq<char>, Seq<Seq<char>>)>::empty());
            }
            return out;
        },
    };
    proof {
        assert(v@->List_0 =~= dyn_views(items@));
    }
    let n = items.len();
    let mut out: Vec<(String, Vec<String>)> = Vec::new();
    let mut i: usize = 0;
    while i < n
        invariant
            n == items@.len(),
            0 <= i <= n,
            filters_view(out@) == filters_of(dyn_views(items@).take(i as int)),
        decreases n - i,
    {
        let ghost pre = dyn_views(items@).take(i as int);
        match &items[i] {
            DynValue::List(sub) => {
                if sub.len() >= 2 {
                    let keep = match &sub[0] {
                        DynValue::Str(_) => true,
                        _ => false,
                    };
                    if keep {
                        let name = match &sub[0] {
                            DynValue::Str(s) => s.clone(),
                            _ => unreached(),
                        };
                        let exts = collect_str_elems(sub, 1);
                        proof {
                            assert(dyn_views(items@)[i as int]->List_0 =~= dyn_views(sub@));
                            assert(dyn_views(sub@).skip(1) =~= dyn_views(items@)[i as int]
                                ->List_0.skip(1));
                        }
                        out.push((name, exts));
                    }
                }
            },
            _ => {},
        }
        proof {
            assert(dyn_views(items@).take(i + 1).drop_last() =~= pre);
            assert(dyn_views(items@).take(i + 1).last() == dyn_views(items@)[i as int]);
            assert(filters_view(out@) =~= filters_of(dyn_views(items@).take(i + 1)));
        }
        i += 1;
    }
    proof {
        assert(dyn_views(items@).take(n as int) =~= dyn_views(items@));
    }
    out
}

/// Which message box a script asked for, by keyword.
#[derive(Clone, Copy, Debug, PartialEq, Eq, Structural)]
pub enum MessageKind {
    Info,
    Warning,
    Error,
}

/// The message-box kind named by `s`: `warning`/`warn` and `error`/`err`
/// select their kinds, anything else is informational.
pub open spec fn message_kind_of(s: Seq<char>) -> MessageKind {
    if s == "warning"@ || s == "warn"@ {
        MessageKind::Warning
    } else if s == "error"@ || s == "err"@ {
        MessageKind::Error
    } else {
        MessageKind::Info
    }
}

/// Classifies a message-box kind keyword, exactly as `message_kind_of`
/// describes.
pub fn classify_message_kind(s: &str) -> (r: MessageKind)
    ensures
        r == message_kind_of(s@),
{
    if str_eq(s, "warning") || str_eq(s, "warn") {
        MessageKind::Warning
    } else if str_eq(s, "error") || str_eq(s, "err") {
        MessageKind::Error
    } else {
        MessageKind::Info
    }
}

} // verus!
