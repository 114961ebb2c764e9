//! The virtual-memory-backed arena.
//!
//! Creation runs as a small state machine. [`VmArena::with_capacity`] builds
//! the creation request: the sentinel-terminated argument block that asks
//! the engine for an arena with at least the requested capacity, under the
//! `ARENA_SIZE` configuration key. The caller hands that block to the
//! engine's creation entry point and feeds the engine's result code and raw
//! handle back into [`CreationRequest::complete`], which either wraps the
//! handle in a live, singly-referenced [`VmArena`] or translates the code
//! into a typed error — all-or-nothing, so no partial state survives a
//! failed creation. Introspection readings the caller obtains from the
//! engine are recorded through [`VmArena::record_stats`], which surfaces the
//! engine's invariant that reserved memory never falls below committed
//! memory; a reading that violates it is rejected as a protocol breach.

use vstd::arithmetic::div_mod::lemma_fundamental_div_mod;
use vstd::arithmetic::div_mod::lemma_mod_multiples_basic;
use vstd::arithmetic::mul::lemma_mul_inequality;
use vstd::arithmetic::mul::lemma_mul_is_commutative;
use vstd::arithmetic::mul::lemma_mul_is_distributive_sub;
use vstd::prelude::*;

use crate::arena::Arena;
use crate::arena::ArenaRef;
use crate::args::ArgBlock;
use crate::args::ArgEntryModel;
use crate::args::KeyRequest;
use crate::args::block_wf;
use crate::args::encodes;
use crate::errors::ArenaError;
use crate::errors::code_error;
use crate::registry::Registry;

verus! {

/// The ten bytes of the configuration-key name `ARENA_SIZE`, the key that
/// carries the requested arena capacity.
pub open spec fn arena_size_key() -> Seq<u8> {
    seq![
        'A' as u8,
        'R' as u8,
        'E' as u8,
        'N' as u8,
        'A' as u8,
        '_' as u8,
        'S' as u8,
        'I' as u8,
        'Z' as u8,
        'E' as u8,
    ]
}

/// Builds the `ARENA_SIZE` key name as bytes.
pub fn arena_size_key_bytes() -> (r: Vec<u8>)
    ensures
        r@ == arena_size_key(),
{
    let mut out: Vec<u8> = Vec::new();
    out.push('A' as u8);
    out.push('R' as u8);
    out.push('E' as u8);
    out.push('N' as u8);
    out.push('A' as u8);
    out.push('_' as u8);
    out.push('S' as u8);
    out.push('I' as u8);
    out.push('Z' as u8);
    out.push('E' as u8);
    proof {
        assert(out@ =~= arena_size_key());
    }
    out
}

/// `v` rounded up to the next multiple of the grain `g`.
pub open spec fn round_up_spec(v: u64, g: u64) -> int
    recommends
        g > 0,
{
    ((v + g - 1) / (g as int)) * (g as int)
}

/// Rounding up to the engine's granularity yields a multiple of the grain
/// that is at least the requested value, overshoots by less than one grain,
/// and is the least such multiple.
pub proof fn lemma_round_up(v: u64, g: u64)
    requires
        g > 0,
    ensures
        round_up_spec(v, g) % (g as int) == 0,
        v <= round_up_spec(v, g) < v + g,
        forall|m: int| #[trigger] (m % (g as int)) == 0 && m >= v ==> m >= round_up_spec(v, g),
{
    let gi = g as int;
    lemma_fundamental_div_mod(v + g - 1, gi);
    let q = (v + g - 1) / gi;
    let rem = (v + g - 1) % gi;
    lemma_mul_is_commutative(q, gi);
    lemma_mod_multiples_basic(q, gi);
    assert(round_up_spec(v, g) == v + g - 1 - rem);
    assert forall|m: int| #[trigger] (m % gi) == 0 && m >= v implies m >= round_up_spec(v, g) by {
        lemma_fundamental_div_mod(m, gi);
        let mq = m / gi;
        assert(m == gi * mq);
        lemma_mul_is_commutative(gi, mq);
        if m < round_up_spec(v, g) {
            assert(mq * gi < q * gi);
            if mq >= q {
                lemma_mul_inequality(q, mq, gi);
            }
            lemma_mul_inequality(mq, q - 1, gi);
            lemma_mul_is_distributive_sub(gi, q, 1);
            lemma_mul_is_commutative(q - 1, gi);
            assert(m <= gi * q - gi);
            assert(m < v);
        }
    }
}

/// `v` rounded up to the next multiple of the grain `g`, or `None` when
/// that multiple does not fit in 64 bits.
pub fn round_up_to_grain(v: u64, g: u64) -> (r: Option<u64>)
    requires
        g > 0,
    ensures
        r matches Some(x) ==> x == round_up_spec(v, g),
        r is None <==> round_up_spec(v, g) > u64::MAX,
{
    let sum: u128 = v as u128 + g as u128 - 1;
    let q: u128 = sum / g as u128;
    proof {
        lemma_fundamental_div_mod(sum as int, g as int);
        lemma_mul_is_commutative(q as int, g as int);
        assert(q as int * (g as int) <= sum as int);
        assert(q as int == (v + g - 1) / (g as int));
    }
    let rounded: u128 = q * g as u128;
    if rounded > u64::MAX as u128 {
        None
    } else {
        Some(rounded as u64)
    }
}

/// Whether engine-reported readings conform to what the engine owes a
/// live arena: committed memory never exceeds reserved memory, and the
/// reservation covers the requested capacity rounded up to the engine's
/// grain.
pub fn reservation_conforms(reserved: u64, committed: u64, requested: u64, grain: u64) -> (r:
    bool)
    requires
        grain > 0,
    ensures
        r <==> (committed <= reserved && round_up_spec(requested, grain) <= reserved),
{
    match round_up_to_grain(requested, grain) {
        Some(x) => committed <= reserved && x <= reserved,
        None => false,
    }
}

/// The error creation reports for an engine reply: the translated result
/// code for a failure code, and a protocol breach for a success code that
/// arrived beside a null handle.
pub open spec fn creation_error(code: int) -> ArenaError {
    match code_error(code) {
        Some(e) => e,
        None => ArenaError::Protocol,
    }
}

/// A creation in progress: the argument block for the engine's creation
/// entry point, remembered together with the capacity it requests.
///
/// The caller hands [`CreationRequest::args`] to the engine for the
/// duration of the creation call and feeds the engine's reply to
/// [`CreationRequest::complete`]; the request is consumed either way, so
/// the block never outlives the one call it was built for.
pub struct CreationRequest {
    args: ArgBlock,
    capacity: u64,
}

impl CreationRequest {
    /// The capacity the request asks for, in bytes.
    pub closed spec fn capacity(self) -> u64 {
        self.capacity
    }

    /// The entries of the request's argument block.
    pub closed spec fn args_model(self) -> Seq<ArgEntryModel> {
        self.args@
    }

    /// The argument block, to pass to the engine's creation entry point
    /// while this request is alive.
    pub fn args(&self) -> (r: &ArgBlock)
        ensures
            r@ == self.args_model(),
    {
        &self.args
    }

    /// The capacity the request asks for, in bytes.
    pub fn capacity_bytes(&self) -> (r: u64)
        ensures
            r == self.capacity(),
    {
        self.capacity
    }

    /// Finishes creation with the engine's reply: its result code and the
    /// raw handle it produced.
    ///
    /// Succeeds exactly when the engine reported success and a non-null
    /// handle; the new arena is then live, singly referenced, remembers the
    /// requested capacity, and has no readings recorded yet. On any failure
    /// the translated error is returned and no arena exists — the request is
    /// consumed, so no partial state survives.
    pub fn complete(self, code: i32, handle: u64) -> (r: Result<VmArena, ArenaError>)
        ensures
            r is Ok <==> (code == 0 && handle != 0),
            r matches Ok(a) ==> a.wf() && a.shared().is_live() && a.shared().refs() == 1
                && a.shared().raw() == handle && a.capacity() == self.capacity() && a.recorded()
                is None,
            r matches Err(e) ==> e == creation_error(code as int),
    {
        if code != 0 {
            match crate::errors::error_from_code(code) {
                Some(e) => Err(e),
                None => Err(ArenaError::Protocol),
            }
        } else if handle == 0 {
            Err(ArenaError::Protocol)
        } else {
            Ok(VmArena { inner: ArenaRef::new(handle), capacity: self.capacity, stats: None })
        }
    }
}

/// An arena backed by virtual memory: a live handle created through the
/// engine's creation entry point with a requested capacity.
#[derive(Debug)]
pub struct VmArena {
    inner: ArenaRef,
    capacity: u64,
    stats: Option<(u64, u64)>,
}

impl VmArena {
    /// The ownership ledger the arena holds.
    pub closed spec fn shared(self) -> ArenaRef {
        self.inner
    }

    /// The capacity the arena was requested with, in bytes.
    pub closed spec fn capacity(self) -> u64 {
        self.capacity
    }

    /// The engine readings recorded last, as `(reserved, committed)`.
    pub closed spec fn recorded(self) -> Option<(u64, u64)> {
        self.stats
    }

    /// Well-formedness: the ledger is well formed and live, and any
    /// recorded readings respect the engine's invariant that committed
    /// memory never exceeds reserved memory.
    pub open spec fn wf(self) -> bool {
        &&& self.shared().wf()
        &&& self.shared().is_live()
        &&& self.recorded() matches Some(rc) ==> rc.1 <= rc.0
    }

    /// Starts creating a virtual-memory arena with the given capacity.
    ///
    /// Builds the creation request whose argument block carries exactly one
    /// configuration pair — the `ARENA_SIZE` key with the requested
    /// capacity — and the sentinel. Succeeds exactly when the registry
    /// knows the `ARENA_SIZE` key; a registry whose header never declared
    /// it cannot request a capacity, and the attempt is rejected before
    /// anything could reach the engine.
    pub fn with_capacity(reg: &Registry, capacity: u64) -> (r: Result<
        CreationRequest,
        ArenaError,
    >)
        requires
            reg.wf(),
        ensures
            r is Ok <==> reg@.dom().contains(arena_size_key()),
            r matches Ok(req) ==> req.capacity() == capacity && block_wf(req.args_model())
                && encodes(req.args_model(), reg@, seq![(arena_size_key(), capacity)]),
            r matches Err(e) ==> e == ArenaError::UnknownKey,
    {
        let mut reqs: Vec<KeyRequest> = Vec::new();
        reqs.push(KeyRequest { name: arena_size_key_bytes(), value: capacity });
        proof {
            assert(reqs.deep_view() =~= seq![(arena_size_key(), capacity)]);
        }
        match crate::args::build_args(reg, &reqs) {
            Ok(block) => {
                proof {
                    assert(reqs.deep_view()[0].0 == arena_size_key());
                }
                Ok(CreationRequest { args: block, capacity })
            },
            Err(e) => {
                proof {
                    assert(reqs.deep_view()[0].0 == arena_size_key());
                }
                Err(e)
            },
        }
    }

    /// Records introspection readings the caller obtained from the engine's
    /// committed- and reserved-memory entry points.
    ///
    /// Accepts the readings exactly when they respect the engine's
    /// invariant that reserved memory never falls below committed memory; a
    /// reading that violates it is a protocol breach of the engine and
    /// leaves the previously recorded readings in place.
    pub fn record_stats(&mut self, reserved: u64, committed: u64) -> (r: Result<(), ArenaError>)
        requires
            old(self).wf(),
        ensures
            final(self).wf(),
            final(self).shared() == old(self).shared(),
            final(self).capacity() == old(self).capacity(),
            r is Ok <==> committed <= reserved,
            r is Ok ==> final(self).recorded() == Some((reserved, committed)),
            r matches Err(e) ==> e == ArenaError::Protocol && final(self).recorded() == old(
                self,
            ).recorded(),
    {
        if committed <= reserved {
            self.stats = Some((reserved, committed));
            Ok(())
        } else {
            Err(ArenaError::Protocol)
        }
    }

    /// The reserved-memory reading recorded last, in bytes.
    pub fn reserved(&self) -> (r: u64)
        requires
            self.wf(),
            self.recorded() is Some,
        ensures
            self.recorded() matches Some(rc) && r == rc.0,
    {
        match self.stats {
            Some(rc) => rc.0,
            None => 0,
        }
    }

    /// The committed-memory reading recorded last, in bytes. Never exceeds
    /// the reserved-memory reading.
    pub fn commited(&self) -> (r: u64)
        requires
            self.wf(),
            self.recorded() is Some,
        ensures
            self.recorded() matches Some(rc) && r == rc.1,
            r <= self.reserved_spec(),
    {
        match self.stats {
            Some(rc) => rc.1,
            None => 0,
        }
    }

    /// The reserved-memory reading recorded last.
    pub open spec fn reserved_spec(self) -> u64
        recommends
            self.recorded() is Some,
    {
        match self.recorded() {
            Some(rc) => rc.0,
            None => 0,
        }
    }
}

/// A live arena surfaces the engine's introspection invariant faithfully:
/// whatever readings stand recorded, committed memory never exceeds
/// reserved memory.
pub proof fn lemma_stats_invariant(a: VmArena)
    requires
        a.wf(),
        a.recorded() is Some,
    ensures
        a.recorded() matches Some(rc) ==> rc.1 <= rc.0,
{
}

impl Arena for VmArena {
    open spec fn raw_handle(&self) -> u64 {
        self.shared().raw()
    }

    open spec fn arena_live(&self) -> bool {
        self.shared().is_live()
    }

    fn as_raw(&self) -> (r: u64) {
        self.inner.as_raw()
    }
}

impl From<VmArena> for ArenaRef {
    /// Converts the arena into its shareable reference form, carrying the
    /// ownership ledger over unchanged.
    fn from(a: VmArena) -> (r: ArenaRef) {
        a.inner
    }
}

impl vstd::std_specs::convert::FromSpecImpl<VmArena> for ArenaRef {
    open spec fn obeys_from_spec() -> bool {
        true
    }

    open spec fn from_spec(a: VmArena) -> ArenaRef {
        a.shared()
    }
}

} // verus!
