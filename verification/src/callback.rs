//! The callback dispatch bridge: a native callback's arguments are parked in
//! a per-context buffer, and the host function is re-entered by name with no
//! positional arguments — the invoked script reads them back with the
//! indexed queries here.  The buffer holds one invocation's arguments at a
//! time; the next native callback replaces them.

use crate::value::UiVal;
use crate::value::UiValue;
use crate::value::ui_views;
use vstd::prelude::*;

verus! {

/// The transient buffer holding the most recent native callback's
/// arguments.
pub struct CallbackBuffer {
    args: Vec<UiValue>,
}

/// What a native event asks the embedding loop to do: re-enter the host
/// engine context `vm` and invoke the function named here, which was
/// registered for the event.
#[derive(Debug, Clone)]
pub struct DispatchRequest {
    pub function: String,
    pub vm: usize,
}

/// A function name with every trailing `()` pair removed, so that a
/// registration written `"handler()"` invokes the function named
/// `handler`.
pub open spec fn strip_call_parens(s: Seq<char>) -> Seq<char>
    decreases s.len(),
{
    if s.len() >= 2 && s[s.len() - 2] == '(' && s[s.len() - 1] == ')' {
        strip_call_parens(s.take(s.len() - 2))
    } else {
        s
    }
}

/// Removes every trailing `()` pair from a registered function name.
pub fn strip_function_name(s: &str) -> (r: String)
    ensures
        r@ == strip_call_parens(s@),
{
    let n = s.unicode_len();
    let mut end = n;
    proof {
        assert(s@.take(n as int) =~= s@);
    }
    while end >= 2 && s.get_char(end - 2) == '(' && s.get_char(end - 1) == ')'
        invariant
            n == s@.len(),
            0 <= end <= n,
            strip_call_parens(s@.take(end as int)) == strip_call_parens(s@),
        decreases end,
    {
        proof {
            assert(s@.take(end as int).take(end - 2) =~= s@.take(end - 2));
        }
        end -= 2;
    }
    let r = String::from_str(s.substring_char(0, end));
    proof {
        assert(s@.subrange(0, end as int) =~= s@.take(end as int));
    }
    r
}

impl CallbackBuffer {
    /// The arguments currently readable from the buffer.
    pub closed spec fn stored(self) -> Seq<UiVal> {
        ui_views(self.args@)
    }

    /// An empty buffer: no callback has fired yet.
    pub fn new() -> (r: CallbackBuffer)
        ensures
            r.stored().len() == 0,
    {
        CallbackBuffer { args: Vec::new() }
    }

    /// Parks one native invocation's arguments, replacing whatever the
    /// previous invocation left behind.
    pub fn store_args(&mut self, args: Vec<UiValue>)
        ensures
            final(self).stored() == ui_views(args@),
    {
        self.args = args;
    }

    /// The argument at `index` (0-based), or nothing when the index is past
    /// the buffered argument count.
    pub fn get_callback_arg(&self, index: usize) -> (r: Option<&UiValue>)
        ensures
            match r {
                Some(v) => index < self.stored().len() && v@ == self.stored()[index as int],
                None => index >= self.stored().len(),
            },
    {
        if index < self.args.len() {
            Some(&self.args[index])
        } else {
            None
        }
    }

    /// The argument at a script-level 1-based index: index 0 is rejected
    /// with the exact message the host sees, an index past the buffered
    /// count reads as nothing (the bridge then returns the number 0), and
    /// anything else is the argument itself.
    pub fn callback_arg(&self, index: usize) -> (r: Result<Option<&UiValue>, String>)
        ensures
            match r {
                Ok(v) => index >= 1 && match v {
                    Some(v) => index - 1 < self.stored().len() && v@ == self.stored()[index - 1],
                    None => index - 1 >= self.stored().len(),
                },
                Err(e) => index == 0 && e@ == "Callback argument index starts at 1"@,
            },
    {
        if index == 0 {
            Err(String::from_str("Callback argument index starts at 1"))
        } else {
            Ok(self.get_callback_arg(index - 1))
        }
    }

    /// How many arguments the most recent native callback delivered.
    pub fn get_callback_args_count(&self) -> (n: usize)
        ensures
            n == self.stored().len(),
    {
        self.args.len()
    }

    /// Takes delivery of a native callback: parks its arguments and names
    /// the host function to re-enter, with every trailing `()` stripped
    /// from the registered name.  The UI-side return value of such a
    /// callback is void — it is fire-and-forget.
    pub fn accept_invocation(
        &mut self,
        args: Vec<UiValue>,
        registered_name: &str,
        vm: usize,
    ) -> (r: DispatchRequest)
        ensures
            final(self).stored() == ui_views(args@),
            r.function@ == strip_call_parens(registered_name@),
            r.vm == vm,
    {
        self.store_args(args);
        DispatchRequest { function: strip_function_name(registered_name), vm }
    }
}

} // verus!
