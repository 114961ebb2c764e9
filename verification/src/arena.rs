//! Shared ownership of a raw arena handle.
//!
//! The engine hands out a raw, non-owning arena pointer. [`ArenaRef`] is the
//! ledger for that pointer: it records the handle, how many live references
//! to it exist, and whether the arena has been destroyed. Dependent objects
//! (pools) take a reference through [`ArenaRef::acquire`] before they are
//! built and give it back through [`ArenaRef::release`] when they are torn
//! down; the caller invokes the engine's destruction entry point exactly
//! when `release` hands the raw handle back, which it does only on the last
//! release. A destroyed ledger admits no further transition, so destruction
//! cannot happen twice.

use vstd::prelude::*;

verus! {

/// The ownership ledger of one raw arena handle.
///
/// While the arena is live the ledger holds its non-null raw handle and a
/// positive reference count; once destroyed it holds neither. The engine's
/// teardown entry point must be called on exactly the handle that
/// [`ArenaRef::release`] returns, and on nothing else.
#[derive(Debug)]
pub struct ArenaRef {
    handle: u64,
    refs: u64,
    live: bool,
}

impl ArenaRef {
    /// The raw handle the ledger guards, as plain bits.
    pub closed spec fn raw(self) -> u64 {
        self.handle
    }

    /// The number of live references to the arena.
    pub closed spec fn refs(self) -> u64 {
        self.refs
    }

    /// Whether the arena is still live, that is, not yet destroyed.
    pub closed spec fn is_live(self) -> bool {
        self.live
    }

    /// Well-formedness: a live arena has a non-null handle and at least one
    /// reference; a destroyed arena has no references left and has forgotten
    /// its handle.
    pub open spec fn wf(self) -> bool {
        &&& self.is_live() ==> self.raw() != 0 && self.refs() >= 1
        &&& !self.is_live() ==> self.refs() == 0 && self.raw() == 0
    }

    /// Starts the ledger for a freshly created arena: one reference, live.
    pub fn new(handle: u64) -> (r: Self)
        requires
            handle != 0,
        ensures
            r.wf(),
            r.is_live(),
            r.refs() == 1,
            r.raw() == handle,
    {
        ArenaRef { handle, refs: 1, live: true }
    }

    /// Takes one more reference to a live arena, for a dependent object that
    /// must not outlive it.
    pub fn acquire(&mut self)
        requires
            old(self).wf(),
            old(self).is_live(),
            old(self).refs() < u64::MAX,
        ensures
            final(self).wf(),
            final(self).is_live(),
            final(self).refs() == old(self).refs() + 1,
            final(self).raw() == old(self).raw(),
    {
        self.refs = self.refs + 1;
    }

    /// Gives one reference back. Returns `Some(handle)` exactly when this was
    /// the last reference: the arena is then destroyed in the ledger, and the
    /// caller must pass `handle` to the engine's destruction entry point,
    /// once. On `None` the arena stays live for the remaining references.
    pub fn release(&mut self) -> (destroy: Option<u64>)
        requires
            old(self).wf(),
            old(self).is_live(),
        ensures
            final(self).wf(),
            released(*old(self), *final(self), destroy is Some),
            destroy matches Some(h) ==> h == old(self).raw(),
    {
        if self.refs == 1 {
            let handle = self.handle;
            self.refs = 0;
            self.live = false;
            self.handle = 0;
            Some(handle)
        } else {
            self.refs = self.refs - 1;
            None
        }
    }

    /// The raw handle, for handing to dependent objects and to the engine's
    /// introspection entry points. Only valid while the arena is live.
    pub fn as_raw(&self) -> (r: u64)
        requires
            self.is_live(),
        ensures
            r == self.raw(),
    {
        self.handle
    }

    /// Whether the arena is still live.
    pub fn live(&self) -> (r: bool)
        ensures
            r == self.is_live(),
    {
        self.live
    }

    /// The current reference count.
    pub fn ref_count(&self) -> (r: u64)
        ensures
            r == self.refs(),
    {
        self.refs
    }
}

/// The release transition of the ownership ledger: one reference is given
/// back, and `destroyed` tells whether this released the last one and so
/// destroyed the arena. Only a live ledger can take this transition.
pub open spec fn released(before: ArenaRef, after: ArenaRef, destroyed: bool) -> bool {
    &&& before.wf()
    &&& before.is_live()
    &&& after.wf()
    &&& destroyed <==> before.refs() == 1
    &&& destroyed ==> !after.is_live() && after.refs() == 0
    &&& !destroyed ==> after.is_live() && after.refs() == before.refs() - 1 && after.raw()
        == before.raw()
}

/// Shared references prevent premature destruction: with two live references,
/// releasing one leaves the arena live for the other, and only releasing the
/// second destroys it.
pub proof fn lemma_shared_release(a: ArenaRef, b: ArenaRef, c: ArenaRef, d1: bool, d2: bool)
    requires
        a.refs() == 2,
        released(a, b, d1),
        released(b, c, d2),
    ensures
        !d1,
        b.is_live(),
        d2,
        !c.is_live(),
        c.refs() == 0,
{
}

/// Destruction happens at most once: a destroyed ledger admits no release
/// transition at all, so the destroy action of [`ArenaRef::release`] can
/// never be handed out a second time for the same arena.
pub proof fn lemma_destroy_once(b: ArenaRef, c: ArenaRef, destroyed: bool)
    requires
        !b.is_live(),
    ensures
        !released(b, c, destroyed),
{
}

/// A common capability interface over arena handle wrappers: every variant
/// shares the destruction and reference-counting machinery and exposes its
/// raw handle to dependent objects while it is live.
pub trait Arena {
    /// The raw handle the wrapper guards.
    spec fn raw_handle(&self) -> u64;

    /// Whether the wrapped arena is still live.
    spec fn arena_live(&self) -> bool;

    /// The raw handle, for dependent objects; only valid while live.
    fn as_raw(&self) -> (r: u64)
        requires
            self.arena_live(),
        ensures
            r == self.raw_handle(),
    ;
}

} // verus!
