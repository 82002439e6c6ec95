//! The system-tray state: tooltip, ordered menu entries, the callback bound
//! to each entry and the engine context that registered them.  The native
//! tray backend (a D-Bus status item, a native tray icon, or nothing on
//! platforms without a tray) is the embedder's; it mirrors this state and
//! reports menu activations back through `poll`.  A platform without a tray
//! is modelled by the capability tag: every mutating call reports a uniform
//! "unsupported" error there instead of silently doing nothing.

use crate::callback::DispatchRequest;
use crate::table::Table;
use vstd::prelude::*;

verus! {

/// Whether the platform the bridge was started on has a tray at all.
#[derive(Clone, Copy, Debug, PartialEq, Eq, Structural)]
pub enum TrayCapability {
    Supported,
    Unsupported,
}

/// The bridge's record of the tray.
pub struct TrayState {
    capability: TrayCapability,
    active: bool,
    tooltip: String,
    items: Vec<(u32, String)>,
    callbacks: Table<String>,
    vm: Option<usize>,
    next_menu_id: u32,
}

impl TrayState {
    /// Well-formedness: the callback table is well-formed and every menu id
    /// — listed or callback-bearing — is below the next id to be handed
    /// out.
    pub closed spec fn wf(self) -> bool {
        &&& self.callbacks.wf()
        &&& self.next_menu_id >= 1
        &&& forall|k: u32| #[trigger] self.callbacks.contains(k) ==> k < self.next_menu_id
        &&& forall|i: int|
            0 <= i < self.items@.len() ==> (#[trigger] self.items@[i]).0 < self.next_menu_id
    }

    /// Whether this platform has a tray.
    pub closed spec fn supported(self) -> bool {
        self.capability == TrayCapability::Supported
    }

    /// Whether a tray has been created and not destroyed.
    pub closed spec fn active_spec(self) -> bool {
        self.active
    }

    /// The current tooltip text.
    pub closed spec fn tooltip_spec(self) -> Seq<char> {
        self.tooltip@
    }

    /// The menu entries in display order: id and label.
    pub closed spec fn menu_spec(self) -> Seq<(u32, Seq<char>)> {
        Seq::new(self.items@.len(), |i: int| (self.items@[i].0, self.items@[i].1@))
    }

    /// Whether a callback is bound to this menu id.
    pub closed spec fn has_callback(self, id: u32) -> bool {
        self.callbacks.contains(id)
    }

    /// The callback bound to this menu id.
    pub closed spec fn callback_of(self, id: u32) -> Seq<char> {
        self.callbacks.payload(id)@
    }

    /// The engine context menu callbacks dispatch into, once an item has
    /// been added.
    pub closed spec fn vm_spec(self) -> Option<usize> {
        self.vm
    }

    /// The id the next `add_menu_item` will hand out.
    pub closed spec fn fresh_menu_id(self) -> u32 {
        self.next_menu_id
    }

    /// A tray that has not been created yet, on a platform with the given
    /// capability.
    pub fn new(capability: TrayCapability) -> (r: TrayState)
        ensures
            r.wf(),
            r.supported() == (capability == TrayCapability::Supported),
            !r.active_spec(),
            r.tooltip_spec() == Seq::<char>::empty(),
            r.menu_spec().len() == 0,
            forall|id: u32| !r.has_callback(id),
            r.vm_spec() is None,
            r.fresh_menu_id() == 1u32,
    {
        let r = TrayState {
            capability,
            active: false,
            tooltip: String::new(),
            items: Vec::new(),
            callbacks: Table::new(),
            vm: None,
            next_menu_id: 1,
        };
        proof {
            assert(r.menu_spec() =~= Seq::<(u32, Seq<char>)>::empty());
        }
        r
    }

    /// Whether another menu item can still be allocated.
    pub fn has_menu_capacity(&self) -> (r: bool)
        ensures
            r == (self.fresh_menu_id() < u32::MAX),
    {
        self.next_menu_id < u32::MAX
    }

    fn unsupported_error(&self) -> (r: String)
        ensures
            r@ == "System tray not supported on this platform"@,
    {
        String::from_str("System tray not supported on this platform")
    }

    /// Starts a fresh tray with this tooltip: the menu and its callbacks
    /// are cleared and the tray is active; the embedder then brings the
    /// native backend up.  On a platform without a tray, reports the
    /// uniform "unsupported" error and changes nothing.
    pub fn create(&mut self, tooltip: &str) -> (r: Result<(), String>)
        requires
            old(self).wf(),
        ensures
            final(self).wf(),
            final(self).supported() == old(self).supported(),
            final(self).fresh_menu_id() == old(self).fresh_menu_id(),
            match r {
                Ok(()) => old(self).supported() && final(self).active_spec() && final(self).tooltip_spec() == tooltip@ && final(self).menu_spec().len() == 0 && (forall|
                    id: u32,
                | !final(self).has_callback(id)),
                Err(e) => !old(self).supported() && *final(self) == *old(self) && e@
                    == "System tray not supported on this platform"@,
            },
    {
        match self.capability {
            TrayCapability::Unsupported => Err(self.unsupported_error()),
            TrayCapability::Supported => {
                self.tooltip = String::from_str(tooltip);
                self.items = Vec::new();
                let mut cb = Table::new();
                core::mem::swap(&mut cb, &mut self.callbacks);
                self.active = true;
                proof {
                    assert(self.menu_spec() =~= Seq::<(u32, Seq<char>)>::empty());
                }
                Ok(())
            },
        }
    }

    /// As `create`, with an icon: the icon itself is native data the
    /// embedder loads; the bridge's state is the same.
    pub fn create_with_icon(&mut self, tooltip: &str, _icon_path: &str) -> (r: Result<(), String>)
        requires
            old(self).wf(),
        ensures
            final(self).wf(),
            final(self).supported() == old(self).supported(),
            final(self).fresh_menu_id() == old(self).fresh_menu_id(),
            match r {
                Ok(()) => old(self).supported() && final(self).active_spec() && final(self).tooltip_spec() == tooltip@ && final(self).menu_spec().len() == 0 && (forall|
                    id: u32,
                | !final(self).has_callback(id)),
                Err(e) => !old(self).supported() && *final(self) == *old(self) && e@
                    == "System tray not supported on this platform"@,
            },
    {
        self.create(tooltip)
    }

    /// Accepts a new icon.  Where the backend can take one the embedder
    /// applies it; the bridge's state does not change, and on a platform
    /// without a tray the uniform error is reported.
    pub fn set_icon(&mut self, _icon_path: &str) -> (r: Result<(), String>)
        requires
            old(self).wf(),
        ensures
            *final(self) == *old(self),
            final(self).wf(),
            match r {
                Ok(()) => old(self).supported(),
                Err(e) => !old(self).supported() && e@
                    == "System tray not supported on this platform"@,
            },
    {
        match self.capability {
            TrayCapability::Unsupported => Err(self.unsupported_error()),
            TrayCapability::Supported => Ok(()),
        }
    }

    /// Replaces the tooltip text.
    pub fn set_tooltip(&mut self, tooltip: &str) -> (r: Result<(), String>)
        requires
            old(self).wf(),
        ensures
            final(self).wf(),
            final(self).supported() == old(self).supported(),
            final(self).fresh_menu_id() == old(self).fresh_menu_id(),
            match r {
                Ok(()) => old(self).supported() && final(self).tooltip_spec() == tooltip@ && final(self).active_spec() == old(self).active_spec() && final(self).menu_spec() == old(self).menu_spec() && (forall|id: u32|
                    final(self).has_callback(id) == old(self).has_callback(id)) && (forall|id: u32|
                    old(self).has_callback(id) ==> final(self).callback_of(id) == old(self).callback_of(id)),
                Err(e) => !old(self).supported() && *final(self) == *old(self) && e@
                    == "System tray not supported on this platform"@,
            },
    {
        match self.capability {
            TrayCapability::Unsupported => Err(self.unsupported_error()),
            TrayCapability::Supported => {
                self.tooltip = String::from_str(tooltip);
                proof {
                    assert(final(self).menu_spec() =~= old(self).menu_spec());
                }
                Ok(())
            },
        }
    }

    /// Appends a menu item with a label and the script function its
    /// activation invokes, in the given engine context; returns the item's
    /// fresh id.
    pub fn add_menu_item(&mut self, label: &str, vm: usize, callback: String) -> (r: Result<
        u32,
        String,
    >)
        requires
            old(self).wf(),
            old(self).fresh_menu_id() < u32::MAX,
        ensures
            final(self).wf(),
            final(self).supported() == old(self).supported(),
            match r {
                Ok(id) => old(self).supported() && id == old(self).fresh_menu_id() && !old(self).has_callback(id) && final(self).menu_spec() == old(self).menu_spec().push(
                    (id, label@),
                ) && final(self).has_callback(id) && final(self).callback_of(id) == callback@ && (
                forall|o: u32|
                    o != id ==> final(self).has_callback(o) == old(self).has_callback(o)) && (
                forall|o: u32|
                    o != id && old(self).has_callback(o) ==> final(self).callback_of(o) == old(self).callback_of(o)) && final(self).vm_spec() == Some(vm) && final(self).fresh_menu_id() == id + 1 && final(self).tooltip_spec() == old(self).tooltip_spec() && final(self).active_spec() == old(self).active_spec(),
                Err(e) => !old(self).supported() && *final(self) == *old(self) && e@
                    == "System tray not supported on this platform"@,
            },
    {
        match self.capability {
            TrayCapability::Unsupported => Err(self.unsupported_error()),
            TrayCapability::Supported => {
                let id = self.next_menu_id;
                self.items.push((id, String::from_str(label)));
                self.callbacks.insert(id, callback);
                self.vm = Some(vm);
                self.next_menu_id = self.next_menu_id + 1;
                proof {
                    assert(final(self).menu_spec() =~= old(self).menu_spec().push((id, label@)));
                }
                Ok(id)
            },
        }
    }

    /// Accepts a separator.  The menu-based backends draw it natively; the
    /// bridge's state does not change, and on a platform without a tray the
    /// uniform error is reported.
    pub fn add_separator(&mut self) -> (r: Result<(), String>)
        requires
            old(self).wf(),
        ensures
            *final(self) == *old(self),
            final(self).wf(),
            match r {
                Ok(()) => old(self).supported(),
                Err(e) => !old(self).supported() && e@
                    == "System tray not supported on this platform"@,
            },
    {
        match self.capability {
            TrayCapability::Unsupported => Err(self.unsupported_error()),
            TrayCapability::Supported => Ok(()),
        }
    }

    /// Tears the tray down: no longer active, menu and callbacks cleared;
    /// the tooltip text and dispatch context stay as they were.  Destroying
    /// a tray that was never created, or twice, is harmless and changes
    /// nothing further.
    pub fn destroy(&mut self)
        requires
            old(self).wf(),
        ensures
            final(self).wf(),
            final(self).supported() == old(self).supported(),
            final(self).fresh_menu_id() == old(self).fresh_menu_id(),
            final(self).tooltip_spec() == old(self).tooltip_spec(),
            final(self).vm_spec() == old(self).vm_spec(),
            !final(self).active_spec(),
            final(self).menu_spec().len() == 0,
            forall|id: u32| !final(self).has_callback(id),
    {
        self.active = false;
        self.items = Vec::new();
        let mut cb = Table::new();
        core::mem::swap(&mut cb, &mut self.callbacks);
        proof {
            assert(final(self).menu_spec() =~= Seq::<(u32, Seq<char>)>::empty());
        }
    }

    /// Dispatches one drained menu activation: for an id with a bound
    /// callback and a known engine context, the request to invoke it; for
    /// anything else — no pending event, a stale id, no context — nothing.
    pub fn poll(&self, event: Option<u32>) -> (r: Option<DispatchRequest>)
        requires
            self.wf(),
        ensures
            match r {
                Some(req) => {
                    &&& event is Some
                    &&& self.has_callback(event->0)
                    &&& self.vm_spec() is Some
                    &&& req.function@ == self.callback_of(event->0)
                    &&& req.vm == self.vm_spec()->0
                },
                None => event is None || !self.has_callback(event->0) || self.vm_spec() is None,
            },
    {
        let id = match event {
            None => {
                return None;
            },
            Some(id) => id,
        };
        let vm = match self.vm {
            None => {
                return None;
            },
            Some(vm) => vm,
        };
        match self.callbacks.get(id) {
            None => None,
            Some(cb) => Some(DispatchRequest { function: cb.clone(), vm }),
        }
    }
}

/// Starts a fresh tray with this tooltip; see `TrayState::create`.
pub fn tray_create(tray: &mut TrayState, tooltip: &str) -> (r: Result<(), String>)
    requires
        old(tray).wf(),
    ensures
        final(tray).wf(),
        final(tray).supported() == old(tray).supported(),
        match r {
            Ok(()) => old(tray).supported() && final(tray).active_spec() && final(tray).tooltip_spec() == tooltip@ && final(tray).menu_spec().len() == 0,
            Err(e) => !old(tray).supported() && *final(tray) == *old(tray) && e@
                == "System tray not supported on this platform"@,
        },
{
    tray.create(tooltip)
}

/// Starts a fresh tray with a tooltip and an icon; see
/// `TrayState::create_with_icon`.
pub fn tray_create_with_icon(tray: &mut TrayState, tooltip: &str, icon_path: &str) -> (r: Result<
    (),
    String,
>)
    requires
        old(tray).wf(),
    ensures
        final(tray).wf(),
        final(tray).supported() == old(tray).supported(),
        match r {
            Ok(()) => old(tray).supported() && final(tray).active_spec() && final(tray).tooltip_spec() == tooltip@ && final(tray).menu_spec().len() == 0,
            Err(e) => !old(tray).supported() && *final(tray) == *old(tray) && e@
                == "System tray not supported on this platform"@,
        },
{
    tray.create_with_icon(tooltip, icon_path)
}

/// Accepts a new icon; see `TrayState::set_icon`.
pub fn tray_set_icon(tray: &mut TrayState, icon_path: &str) -> (r: Result<(), String>)
    requires
        old(tray).wf(),
    ensures
        *final(tray) == *old(tray),
        final(tray).wf(),
        r is Ok == old(tray).supported(),
{
    tray.set_icon(icon_path)
}

/// Replaces the tooltip; see `TrayState::set_tooltip`.
pub fn tray_set_tooltip(tray: &mut TrayState, tooltip: &str) -> (r: Result<(), String>)
    requires
        old(tray).wf(),
    ensures
        final(tray).wf(),
        final(tray).supported() == old(tray).supported(),
        match r {
            Ok(()) => old(tray).supported() && final(tray).tooltip_spec() == tooltip@ && final(tray).menu_spec() == old(tray).menu_spec(),
            Err(e) => !old(tray).supported() && *final(tray) == *old(tray) && e@
                == "System tray not supported on this platform"@,
        },
{
    tray.set_tooltip(tooltip)
}

/// Appends a menu item; see `TrayState::add_menu_item`.
pub fn tray_add_menu_item(tray: &mut TrayState, label: &str, vm: usize, callback: String) -> (r:
    Result<u32, String>)
    requires
        old(tray).wf(),
        old(tray).fresh_menu_id() < u32::MAX,
    ensures
        final(tray).wf(),
        final(tray).supported() == old(tray).supported(),
        match r {
            Ok(id) => old(tray).supported() && id == old(tray).fresh_menu_id() && final(tray).menu_spec() == old(tray).menu_spec().push((id, label@)) && final(tray).has_callback(
                id,
            ) && final(tray).callback_of(id) == callback@ && final(tray).vm_spec() == Some(vm),
            Err(e) => !old(tray).supported() && *final(tray) == *old(tray) && e@
                == "System tray not supported on this platform"@,
        },
{
    tray.add_menu_item(label, vm, callback)
}

/// Accepts a separator; see `TrayState::add_separator`.
pub fn tray_add_separator(tray: &mut TrayState) -> (r: Result<(), String>)
    requires
        old(tray).wf(),
    ensures
        *final(tray) == *old(tray),
        final(tray).wf(),
        r is Ok == old(tray).supported(),
{
    tray.add_separator()
}

/// Tears the tray down; see `TrayState::destroy`.
pub fn tray_destroy(tray: &mut TrayState)
    requires
        old(tray).wf(),
    ensures
        final(tray).wf(),
        final(tray).supported() == old(tray).supported(),
        !final(tray).active_spec(),
        final(tray).menu_spec().len() == 0,
        forall|id: u32| !final(tray).has_callback(id),
{
    tray.destroy()
}

/// Dispatches one drained menu activation; see `TrayState::poll`.
pub fn tray_poll(tray: &TrayState, event: Option<u32>) -> (r: Option<DispatchRequest>)
    requires
        tray.wf(),
    ensures
        match r {
            Some(req) => {
                &&& event is Some
                &&& tray.has_callback(event->0)
                &&& req.function@ == tray.callback_of(event->0)
            },
            None => event is None || !tray.has_callback(event->0) || tray.vm_spec() is None,
        },
{
    tray.poll(event)
}

} // verus!
