//! Global hotkeys, reached through the `global-hotkey` crate: modifier
//! strings are parsed here, key names and registration with the OS go
//! through the crate, and the id-keyed callback table is the bridge's own.
//! Hotkey events arrive on the crate's channel with no waker, so the
//! embedding script polls; each poll drains at most one event and yields
//! the dispatch request for it.

use crate::callback::DispatchRequest;
use crate::fmt::dec_str;
use crate::fmt::u32_string;
use crate::table::Table;
use global_hotkey::GlobalHotKeyManager;
use global_hotkey::hotkey::Code;
use global_hotkey::hotkey::HotKey;
use vstd::prelude::*;

verus! {

#[verifier::external_type_specification]
#[verifier::external_body]
pub struct ExGlobalHotKeyManager(GlobalHotKeyManager);

#[verifier::external_type_specification]
#[verifier::external_body]
pub struct ExHotKey(HotKey);

#[verifier::external_type_specification]
#[verifier::external_body]
pub struct ExCode(Code);

/// Relies on `global_hotkey::GlobalHotKeyManager::new`: connects to the
/// platform's hotkey facility or reports why it cannot.
#[verifier::external_body]
fn manager_new() -> (r: Result<GlobalHotKeyManager, String>) {
    GlobalHotKeyManager::new().map_err(|e| format!("Failed to init hotkey manager: {}", e))
}

/// Whether `Code::from_str` knows this key name; its answer depends on
/// the name alone.
pub uninterp spec fn key_known(s: Seq<char>) -> bool;

/// Relies on `Code::from_str` (through `str::parse`): the key code named
/// by `key`, or nothing for an unknown name — a function of the name
/// alone, a fixed match over the key-name table.
#[verifier::external_body]
fn parse_key(key: &str) -> (r: Option<Code>)
    ensures
        (r is Some) == key_known(key@),
{
    key.parse::<Code>().ok()
}

/// Relies on `global_hotkey::hotkey::HotKey::new`: a hotkey from the four
/// modifier flags and a key code.
#[verifier::external_body]
fn make_hotkey(ctrl: bool, alt: bool, shift: bool, super_key: bool, code: Code) -> (r: HotKey) {
    let mut mods = global_hotkey::hotkey::Modifiers::empty();
    if ctrl {
        mods |= global_hotkey::hotkey::Modifiers::CONTROL;
    }
    if alt {
        mods |= global_hotkey::hotkey::Modifiers::ALT;
    }
    if shift {
        mods |= global_hotkey::hotkey::Modifiers::SHIFT;
    }
    if super_key {
        mods |= global_hotkey::hotkey::Modifiers::SUPER;
    }
    HotKey::new(Some(mods), code)
}

/// Relies on `HotKey::id`: the numeric id the crate derives from the
/// modifiers and key, under which its events are later delivered.
#[verifier::external_body]
fn hotkey_id(hk: &HotKey) -> (r: u32) {
    hk.id()
}

/// Relies on `GlobalHotKeyManager::register`: registers the hotkey with
/// the OS, or reports why it cannot.
#[verifier::external_body]
fn manager_register(m: &GlobalHotKeyManager, hk: &HotKey) -> (r: Result<(), String>) {
    m.register(*hk).map_err(|e| format!("Failed to register hotkey: {}", e))
}

/// Relies on `GlobalHotKeyManager::unregister`: releases the hotkey with
/// the OS, or reports why it cannot.
#[verifier::external_body]
fn manager_unregister(m: &GlobalHotKeyManager, hk: &HotKey) -> (r: Result<(), String>) {
    m.unregister(*hk).map_err(|e| format!("Failed to unregister hotkey: {}", e))
}

/// Relies on `GlobalHotKeyEvent::receiver` and `try_recv`: the id of one
/// pending hotkey event, or nothing when the channel is empty.
#[verifier::external_body]
fn poll_hotkey_event() -> (r: Option<u32>) {
    global_hotkey::GlobalHotKeyEvent::receiver().try_recv().ok().map(|e| e.id())
}

/// Whether `p` occurs in `s` starting at `i`.
pub open spec fn matches_at(s: Seq<char>, p: Seq<char>, i: int) -> bool {
    0 <= i && i + p.len() <= s.len() && s.subrange(i, i + p.len()) == p
}

/// Whether `p` occurs anywhere in `s`.
pub open spec fn contains_seq(s: Seq<char>, p: Seq<char>) -> bool {
    exists|i: int| matches_at(s, p, i)
}

/// Substring search: whether `needle` occurs anywhere in `hay`.
pub fn str_contains(hay: &str, needle: &str) -> (r: bool)
    ensures
        r == contains_seq(hay@, needle@),
{
    let n = hay.unicode_len();
    let m = needle.unicode_len();
    if m > n {
        proof {
            if contains_seq(hay@, needle@) {
                let w = choose|w: int| matches_at(hay@, needle@, w);
            }
        }
        return false;
    }
    let mut i: usize = 0;
    while i <= n - m
        invariant
            n == hay@.len(),
            m == needle@.len(),
            m <= n,
            0 <= i <= n - m + 1,
            forall|w: int| 0 <= w < i ==> !matches_at(hay@, needle@, w),
        decreases n - i,
    {
        let mut j: usize = 0;
        let mut hit = true;
        while j < m && hit
            invariant
                n == hay@.len(),
                m == needle@.len(),
                0 <= i <= n - m,
                0 <= j <= m,
                hit == (forall|t: int| 0 <= t < j ==> hay@[i + t] == needle@[t]),
            decreases m - j,
        {
            if hay.get_char(i + j) != needle.get_char(j) {
                hit = false;
            } else {
                proof {
                    assert(forall|t: int| 0 <= t < j + 1 ==> hay@[i + t] == needle@[t]);
                }
            }
            j += 1;
        }
        if hit {
            proof {
                assert(hay@.subrange(i as int, i + m) =~= needle@);
                assert(matches_at(hay@, needle@, i as int));
            }
            return true;
        }
        proof {
            if matches_at(hay@, needle@, i as int) {
                assert(forall|t: int|
                    0 <= t < m ==> #[trigger] hay@.subrange(i as int, i + m)[t] == hay@[i + t]);
            }
        }
        i += 1;
    }
    proof {
        if contains_seq(hay@, needle@) {
            let w = choose|w: int| matches_at(hay@, needle@, w);
        }
    }
    false
}

/// The four hotkey modifier flags.
#[derive(Clone, Copy, Debug, PartialEq, Eq, Structural)]
pub struct ModifierSet {
    pub ctrl: bool,
    pub alt: bool,
    pub shift: bool,
    pub super_key: bool,
}

/// The modifiers named in a (lowercased) modifier string: `ctrl`/`control`
/// for control, `alt`, `shift`, and `super`/`meta`/`win` for the super
/// key.
pub open spec fn mods_of(l: Seq<char>) -> ModifierSet {
    ModifierSet {
        ctrl: contains_seq(l, "ctrl"@) || contains_seq(l, "control"@),
        alt: contains_seq(l, "alt"@),
        shift: contains_seq(l, "shift"@),
        super_key: contains_seq(l, "super"@) || contains_seq(l, "meta"@) || contains_seq(
            l,
            "win"@,
        ),
    }
}

/// Reads a modifier string, case-insensitively, exactly as `mods_of`
/// describes over its lowercased form.
pub fn parse_modifiers(mods: &str) -> (r: ModifierSet)
    ensures
        r == mods_of(crate::unicode::lower_of(mods@)),
{
    let lower = crate::unicode::lowercase(mods);
    let l = lower.as_str();
    ModifierSet {
        ctrl: str_contains(l, "ctrl") || str_contains(l, "control"),
        alt: str_contains(l, "alt"),
        shift: str_contains(l, "shift"),
        super_key: str_contains(l, "super") || str_contains(l, "meta") || str_contains(l, "win"),
    }
}

/// One registered hotkey: the crate's handle for unregistering, the engine
/// context, and the script function its press invokes.
pub struct HotkeyEntry {
    pub hotkey: HotKey,
    pub vm: usize,
    pub callback: String,
}

/// The bridge's hotkey registry: the OS-side manager, opened on first
/// registration, and the table of live hotkeys keyed by the crate's id.
pub struct HotkeyBridge {
    manager: Option<GlobalHotKeyManager>,
    entries: Table<HotkeyEntry>,
}

impl HotkeyBridge {
    /// Well-formedness of the backing table.
    pub closed spec fn wf(self) -> bool {
        self.entries.wf()
    }

    /// Whether the OS-side manager has been opened.
    pub closed spec fn has_manager(self) -> bool {
        self.manager is Some
    }

    /// Whether a hotkey is registered under this id.
    pub closed spec fn registered(self, id: u32) -> bool {
        self.entries.contains(id)
    }

    /// The entry registered under this id.
    pub closed spec fn entry(self, id: u32) -> HotkeyEntry {
        self.entries.payload(id)
    }

    /// A bridge with no manager and no hotkeys yet.
    pub fn new() -> (r: HotkeyBridge)
        ensures
            r.wf(),
            !r.has_manager(),
            forall|id: u32| !r.registered(id),
    {
        HotkeyBridge { manager: None, entries: Table::new() }
    }

    fn ensure_manager(&mut self) -> (r: Result<(), String>)
        requires
            old(self).wf(),
        ensures
            final(self).wf(),
            final(self).entries == old(self).entries,
            match r {
                Ok(()) => final(self).has_manager(),
                Err(_) => *final(self) == *old(self),
            },
            old(self).has_manager() ==> r is Ok && *final(self) == *old(self),
    {
        if self.manager.is_some() {
            return Ok(());
        }
        match manager_new() {
            Ok(m) => {
                self.manager = Some(m);
                Ok(())
            },
            Err(e) => Err(e),
        }
    }

    /// Registers a global hotkey from a modifier string and key name; on
    /// success the returned id — derived by the crate from the combination
    /// — carries the callback and engine context in the table, replacing
    /// any earlier registration of the same combination.  An unknown key
    /// name always fails, with the exact "Invalid key" error once the
    /// manager is up; a manager that cannot be opened and an OS-side
    /// refusal report their errors; on any error the table is unchanged.
    pub fn hotkey_register(
        &mut self,
        modifiers: &str,
        key: &str,
        vm: usize,
        callback: String,
    ) -> (r: Result<u32, String>)
        requires
            old(self).wf(),
        ensures
            final(self).wf(),
            !key_known(key@) ==> r is Err,
            old(self).has_manager() && !key_known(key@) ==> (r matches Err(e) && e@
                == "Invalid key: "@ + key@),
            match r {
                Ok(_) => key_known(key@),
                Err(_) => true,
            },
            match r {
                Ok(id) => final(self).has_manager() && final(self).registered(id) && final(self).entry(id).vm == vm && final(self).entry(id).callback == callback && (forall|
                    o: u32,
                | o != id ==> final(self).registered(o) == old(self).registered(o)) && (forall|
                    o: u32,
                |
                    o != id && old(self).registered(o) ==> final(self).entry(o) == old(self).entry(
                        o,
                    )),
                Err(_) => (forall|o: u32|
                    final(self).registered(o) == old(self).registered(o)) && (forall|o: u32|
                    old(self).registered(o) ==> final(self).entry(o) == old(self).entry(o)),
            },
    {
        if let Err(e) = self.ensure_manager() {
            return Err(e);
        }
        let ms = parse_modifiers(modifiers);
        let code = match parse_key(key) {
            Some(code) => code,
            None => {
                let mut e = String::from_str("Invalid key: ");
                e.append(key);
                return Err(e);
            },
        };
        let hk = make_hotkey(ms.ctrl, ms.alt, ms.shift, ms.super_key, code);
        let id = hotkey_id(&hk);
        let reg = match &self.manager {
            Some(m) => manager_register(m, &hk),
            None => Err(String::from_str("Failed to init hotkey manager")),
        };
        if let Err(e) = reg {
            return Err(e);
        }
        self.entries.insert(id, HotkeyEntry { hotkey: hk, vm, callback });
        Ok(id)
    }

    /// Unregisters the hotkey under this id, releasing it with the OS; the
    /// entry is dropped from the table either way, so its key press never
    /// dispatches again.  An unknown or already unregistered id reports
    /// "not found", like every other registry; an OS-side refusal reports
    /// its error.
    pub fn hotkey_unregister(&mut self, id: u32) -> (r: Result<(), String>)
        requires
            old(self).wf(),
        ensures
            final(self).wf(),
            !final(self).registered(id),
            forall|o: u32| o != id ==> final(self).registered(o) == old(self).registered(o),
            forall|o: u32|
                o != id && old(self).registered(o) ==> final(self).entry(o) == old(self).entry(o),
            r is Ok ==> old(self).registered(id),
            !old(self).registered(id) ==> *final(self) == *old(self) && (r matches Err(e) && (e@
                == "Hotkey "@ + dec_str(id as nat) + " not found"@)),
    {
        let entry = match self.entries.take(id) {
            None => {
                let mut e = String::from_str("Hotkey ");
                e.append(u32_string(id).as_str());
                e.append(" not found");
                proof {
                    assert(e@ =~= "Hotkey "@ + dec_str(id as nat) + " not found"@);
                }
                return Err(e);
            },
            Some(entry) => entry,
        };
        match &self.manager {
            None => Ok(()),
            Some(m) => manager_unregister(m, &entry.hotkey),
        }
    }

    /// Unregisters every hotkey, releasing each with the OS; OS-side
    /// refusals are ignored, and the table is empty afterwards.
    pub fn hotkey_unregister_all(&mut self) -> (r: Result<(), String>)
        requires
            old(self).wf(),
        ensures
            final(self).wf(),
            forall|id: u32| !final(self).registered(id),
            r is Ok,
    {
        let all = self.entries.take_all();
        let n = all.len();
        let mut i: usize = 0;
        while i < n
            invariant
                n == all@.len(),
                0 <= i <= n,
            decreases n - i,
        {
            match &self.manager {
                None => {},
                Some(m) => {
                    let _ = manager_unregister(m, &all[i].1.hotkey);
                },
            }
            i += 1;
        }
        Ok(())
    }

    /// Drains at most one pending hotkey event: for an event whose id is
    /// registered, the request to invoke its callback in its engine
    /// context; nothing when no event is pending or the id is stale.
    pub fn hotkey_poll(&self) -> (r: Option<DispatchRequest>)
        requires
            self.wf(),
        ensures
            match r {
                Some(req) => exists|id: u32|
                    #[trigger] self.registered(id) && self.entry(id).callback@ == req.function@
                        && self.entry(id).vm == req.vm,
                None => true,
            },
    {
        let id = match poll_hotkey_event() {
            None => {
                return None;
            },
            Some(id) => id,
        };
        match self.entries.get(id) {
            None => None,
            Some(entry) => {
                let req = DispatchRequest { function: entry.callback.clone(), vm: entry.vm };
                proof {
                    assert(self.registered(id) && self.entry(id).callback@ == req.function@
                        && self.entry(id).vm == req.vm);
                }
                Some(req)
            },
        }
    }
}

} // verus!
