//! The timer registry: bridge-side bookkeeping for the UI runtime's timers,
//! keyed by small integer ids that are never reused.  The registry records
//! each timer's interval, mode and callback, and tracks whether it is
//! running; the native timer itself lives with the event loop, which reports
//! each tick back here so that a single-shot timer shows as stopped after it
//! has fired.

use crate::fmt::dec_str;
use crate::fmt::u32_string;
use crate::table::Table;
use vstd::prelude::*;

verus! {

/// What the registry knows about one timer.
#[derive(Debug, Clone)]
pub struct TimerInfo {
    pub interval_ms: u64,
    pub repeated: bool,
    pub callback: String,
    pub vm: usize,
    pub running: bool,
}

/// The one way a timer operation fails: the id is not in the table.
#[derive(Debug, PartialEq)]
pub enum TimerError {
    NotFound { id: u32 },
}

impl TimerError {
    /// The error text reported to the host script.
    pub fn message(&self) -> (r: String)
        ensures
            r@ == match *self {
                TimerError::NotFound { id } => "Timer "@ + dec_str(id as nat) + " not found"@,
            },
    {
        match self {
            TimerError::NotFound { id } => {
                let mut s = String::from_str("Timer ");
                s.append(u32_string(*id).as_str());
                s.append(" not found");
                proof {
                    assert(s@ =~= "Timer "@ + dec_str(*id as nat) + " not found"@);
                }
                s
            },
        }
    }
}

/// The code the bridge hands back to the host on a tick: the callback name
/// lowercased (the host looks functions up by their lowercase name), with a
/// call's parentheses appended.
pub open spec fn tick_code(callback: Seq<char>) -> Seq<char> {
    crate::unicode::lower_of(callback) + "()"@
}

/// The table of live timers.
pub struct TimerRegistry {
    table: Table<TimerInfo>,
    next_id: u32,
}

impl TimerRegistry {
    /// Well-formedness: the backing table is well-formed and every live id
    /// is below the next id to be handed out, so fresh ids are fresh.
    pub closed spec fn wf(self) -> bool {
        &&& self.table.wf()
        &&& forall|k: u32| #[trigger] self.table.contains(k) ==> k < self.next_id
    }

    /// Whether `id` is a live timer.
    pub closed spec fn contains(self, id: u32) -> bool {
        self.table.contains(id)
    }

    /// What the registry records for this timer.
    pub closed spec fn info(self, id: u32) -> TimerInfo {
        self.table.payload(id)
    }

    /// The id the next `timer_start` will hand out.
    pub closed spec fn fresh_id(self) -> u32 {
        self.next_id
    }

    /// An empty registry that will hand out ids from 1, as the bridge does.
    pub fn new() -> (r: TimerRegistry)
        ensures
            r.wf(),
            forall|id: u32| !r.contains(id),
            r.fresh_id() == 1u32,
    {
        TimerRegistry { table: Table::new(), next_id: 1 }
    }

    /// Whether another timer can still be allocated.
    pub fn has_capacity(&self) -> (r: bool)
        ensures
            r == (self.fresh_id() < u32::MAX),
    {
        self.next_id < u32::MAX
    }

    /// Registers a started timer and returns its fresh id.
    pub fn timer_start(
        &mut self,
        interval_ms: u64,
        repeated: bool,
        vm: usize,
        callback: String,
    ) -> (id: u32)
        requires
            old(self).wf(),
            old(self).fresh_id() < u32::MAX,
        ensures
            final(self).wf(),
            id == old(self).fresh_id(),
            !old(self).contains(id),
            final(self).contains(id),
            final(self).info(id).interval_ms == interval_ms,
            final(self).info(id).repeated == repeated,
            final(self).info(id).callback == callback,
            final(self).info(id).vm == vm,
            final(self).info(id).running,
            final(self).fresh_id() == id + 1,
            forall|o: u32| o != id ==> final(self).contains(o) == old(self).contains(o),
            forall|o: u32|
                o != id && old(self).contains(o) ==> final(self).info(o) == old(self).info(o),
    {
        let id = self.next_id;
        let info = TimerInfo { interval_ms, repeated, callback, vm, running: true };
        self.table.insert(id, info);
        self.next_id = self.next_id + 1;
        id
    }

    /// Stops and discards a timer; an unknown id reports "not found".
    pub fn timer_stop(&mut self, id: u32) -> (r: Result<(), TimerError>)
        requires
            old(self).wf(),
        ensures
            final(self).wf(),
            final(self).fresh_id() == old(self).fresh_id(),
            !final(self).contains(id),
            forall|o: u32| o != id ==> final(self).contains(o) == old(self).contains(o),
            forall|o: u32|
                o != id && old(self).contains(o) ==> final(self).info(o) == old(self).info(o),
            match r {
                Ok(()) => old(self).contains(id),
                Err(e) => !old(self).contains(id) && e == (TimerError::NotFound { id }),
            },
    {
        if self.table.remove(id) {
            Ok(())
        } else {
            Err(TimerError::NotFound { id })
        }
    }

    /// Whether this timer is currently running; an unknown id reports "not
    /// found".
    pub fn timer_running(&self, id: u32) -> (r: Result<bool, TimerError>)
        requires
            self.wf(),
        ensures
            match r {
                Ok(b) => self.contains(id) && b == self.info(id).running,
                Err(e) => !self.contains(id) && e == (TimerError::NotFound { id }),
            },
    {
        match self.table.get(id) {
            Some(info) => Ok(info.running),
            None => Err(TimerError::NotFound { id }),
        }
    }

    fn update_info(&mut self, id: u32, info: TimerInfo)
        requires
            old(self).wf(),
            old(self).contains(id),
        ensures
            final(self).wf(),
            final(self).fresh_id() == old(self).fresh_id(),
            final(self).contains(id),
            final(self).info(id) == info,
            forall|o: u32| final(self).contains(o) == old(self).contains(o),
            forall|o: u32|
                o != id && old(self).contains(o) ==> final(self).info(o) == old(self).info(o),
    {
        self.table.insert(id, info);
    }

    /// Restarts a timer: it is running again from now; an unknown id
    /// reports "not found".
    pub fn timer_restart(&mut self, id: u32) -> (r: Result<(), TimerError>)
        requires
            old(self).wf(),
        ensures
            final(self).wf(),
            final(self).fresh_id() == old(self).fresh_id(),
            forall|o: u32| final(self).contains(o) == old(self).contains(o),
            forall|o: u32|
                o != id && old(self).contains(o) ==> final(self).info(o) == old(self).info(o),
            match r {
                Ok(()) => old(self).contains(id) && final(self).info(id).running && final(self).info(id).interval_ms == old(self).info(id).interval_ms && final(self).info(
                    id,
                ).repeated == old(self).info(id).repeated && final(self).info(id).callback == old(self).info(id).callback && final(self).info(id).vm == old(self).info(id).vm,
                Err(e) => !old(self).contains(id) && *final(self) == *old(self) && e == (
                TimerError::NotFound { id }),
            },
    {
        let info = match self.table.get(id) {
            None => {
                return Err(TimerError::NotFound { id });
            },
            Some(info) => TimerInfo {
                interval_ms: info.interval_ms,
                repeated: info.repeated,
                callback: info.callback.clone(),
                vm: info.vm,
                running: true,
            },
        };
        proof {
            assert(info.callback == old(self).info(id).callback);
        }
        self.update_info(id, info);
        Ok(())
    }

    /// Changes a timer's interval, leaving everything else as it was; an
    /// unknown id reports "not found".
    pub fn timer_set_interval(&mut self, id: u32, interval_ms: u64) -> (r: Result<
        (),
        TimerError,
    >)
        requires
            old(self).wf(),
        ensures
            final(self).wf(),
            final(self).fresh_id() == old(self).fresh_id(),
            forall|o: u32| final(self).contains(o) == old(self).contains(o),
            forall|o: u32|
                o != id && old(self).contains(o) ==> final(self).info(o) == old(self).info(o),
            match r {
                Ok(()) => old(self).contains(id) && final(self).info(id).interval_ms
                    == interval_ms && final(self).info(id).repeated == old(self).info(id).repeated
                    && final(self).info(id).callback == old(self).info(id).callback && final(self).info(id).vm == old(self).info(id).vm && final(self).info(id).running == old(self).info(id).running,
                Err(e) => !old(self).contains(id) && *final(self) == *old(self) && e == (
                TimerError::NotFound { id }),
            },
    {
        let info = match self.table.get(id) {
            None => {
                return Err(TimerError::NotFound { id });
            },
            Some(info) => TimerInfo {
                interval_ms,
                repeated: info.repeated,
                callback: info.callback.clone(),
                vm: info.vm,
                running: info.running,
            },
        };
        proof {
            assert(info.callback == old(self).info(id).callback);
        }
        self.update_info(id, info);
        Ok(())
    }

    /// Records a native tick and returns the code to run in the host, with
    /// the originating engine context: the callback name lowercased with
    /// `()` appended.  A single-shot timer is no longer running afterwards;
    /// a repeated one keeps running.  A tick for an id that was stopped in
    /// the meantime reports "not found" and dispatches nothing.
    pub fn on_tick(&mut self, id: u32) -> (r: Result<(String, usize), TimerError>)
        requires
            old(self).wf(),
        ensures
            final(self).wf(),
            final(self).fresh_id() == old(self).fresh_id(),
            forall|o: u32| final(self).contains(o) == old(self).contains(o),
            forall|o: u32|
                o != id && old(self).contains(o) ==> final(self).info(o) == old(self).info(o),
            match r {
                Ok(code) => old(self).contains(id) && code.0@ == tick_code(
                    old(self).info(id).callback@,
                ) && code.1 == old(self).info(id).vm && final(self).info(id).running == old(self).info(id).repeated && final(self).info(id).interval_ms == old(self).info(
                    id,
                ).interval_ms && final(self).info(id).repeated == old(self).info(id).repeated
                    && final(self).info(id).callback == old(self).info(id).callback && final(self).info(id).vm == old(self).info(id).vm,
                Err(e) => !old(self).contains(id) && *final(self) == *old(self) && e == (
                TimerError::NotFound { id }),
            },
    {
        let (info, mut code, vm) = match self.table.get(id) {
            None => {
                return Err(TimerError::NotFound { id });
            },
            Some(info) => {
                let code = crate::unicode::lowercase(info.callback.as_str());
                (
                    TimerInfo {
                        interval_ms: info.interval_ms,
                        repeated: info.repeated,
                        callback: info.callback.clone(),
                        vm: info.vm,
                        running: info.repeated,
                    },
                    code,
                    info.vm,
                )
            },
        };
        code.append("()");
        proof {
            assert(info.callback == old(self).info(id).callback);
            assert(code@ =~= tick_code(old(self).info(id).callback@));
        }
        self.update_info(id, info);
        Ok((code, vm))
    }
}

} // verus!
