//! The tagged handle registry for heavyweight UI objects (compiled
//! component definitions and live instances).  The objects themselves live
//! with the embedder; the bridge hands the script an opaque id and validates
//! both the id and its type tag before any use, so a stale id or a handle of
//! the wrong kind fails instead of reaching the wrong object.

use crate::table::Table;
use vstd::prelude::*;

verus! {

/// What kind of object a handle stands for.
#[derive(Clone, Copy, Debug, PartialEq, Eq, Structural)]
pub enum HandleTag {
    ComponentDefinition,
    ComponentInstance,
}

/// The arena of live tagged handles.
pub struct HandleTable {
    table: Table<HandleTag>,
    next: u32,
}

impl HandleTable {
    /// Well-formedness: the backing table is well-formed and every live
    /// handle is below the next one to be handed out.
    pub closed spec fn wf(self) -> bool {
        &&& self.table.wf()
        &&& self.next >= 1
        &&& forall|k: u32| #[trigger] self.table.contains(k) ==> 0 < k < self.next
    }

    /// Whether `h` is a live handle.
    pub closed spec fn contains(self, h: u32) -> bool {
        self.table.contains(h)
    }

    /// The tag a live handle carries.
    pub closed spec fn tag_of(self, h: u32) -> HandleTag {
        self.table.payload(h)
    }

    /// The handle the next `register` will hand out.
    pub closed spec fn fresh_handle(self) -> u32 {
        self.next
    }

    /// An empty arena.  Handles start at 1, so 0 acts as the null handle
    /// and never resolves.
    pub fn new() -> (r: HandleTable)
        ensures
            r.wf(),
            forall|h: u32| !r.contains(h),
            r.fresh_handle() == 1u32,
    {
        HandleTable { table: Table::new(), next: 1 }
    }

    /// Whether another handle can still be allocated.
    pub fn has_capacity(&self) -> (r: bool)
        ensures
            r == (self.fresh_handle() < u32::MAX),
    {
        self.next < u32::MAX
    }

    /// Allocates a fresh handle carrying `tag`.
    pub fn register(&mut self, tag: HandleTag) -> (h: u32)
        requires
            old(self).wf(),
            old(self).fresh_handle() < u32::MAX,
        ensures
            final(self).wf(),
            h == old(self).fresh_handle(),
            h != 0,
            !old(self).contains(h),
            final(self).contains(h),
            final(self).tag_of(h) == tag,
            final(self).fresh_handle() == h + 1,
            forall|o: u32| o != h ==> final(self).contains(o) == old(self).contains(o),
            forall|o: u32|
                o != h && old(self).contains(o) ==> final(self).tag_of(o) == old(self).tag_of(o),
    {
        let h = self.next;
        self.table.insert(h, tag);
        self.next = self.next + 1;
        h
    }

    /// Whether `h` is live and carries the expected tag: a null, unknown,
    /// destroyed or differently tagged handle does not resolve.
    pub fn resolve(&self, h: u32, expected: HandleTag) -> (r: bool)
        requires
            self.wf(),
        ensures
            r == (self.contains(h) && self.tag_of(h) == expected),
    {
        match self.table.get(h) {
            Some(tag) => *tag == expected,
            None => false,
        }
    }

    /// Releases a handle; releasing an unknown or already destroyed handle
    /// reports `false` and is harmless.
    pub fn destroy(&mut self, h: u32) -> (was: bool)
        requires
            old(self).wf(),
        ensures
            final(self).wf(),
            final(self).fresh_handle() == old(self).fresh_handle(),
            was == old(self).contains(h),
            !final(self).contains(h),
            forall|o: u32| o != h ==> final(self).contains(o) == old(self).contains(o),
            forall|o: u32|
                o != h && old(self).contains(o) ==> final(self).tag_of(o) == old(self).tag_of(o),
    {
        self.table.remove(h)
    }
}

} // verus!
