//! The argument-list builder.
//!
//! The engine's creation entry point takes its configuration as a contiguous
//! block of tagged entries, each carrying a key symbol and a payload value,
//! terminated by one sentinel entry. [`build_args`] turns an ordered
//! sequence of logical `(key, value)` pairs into exactly that block, against
//! the generated [`Registry`](crate::registry::Registry): a pair whose key
//! the registry does not know is rejected with
//! [`ArenaError::UnknownKey`] and no block at all is produced, so a partial
//! or unterminated block can never reach the engine.

use vstd::prelude::*;

use crate::errors::ArenaError;
use crate::registry::Registry;

verus! {

/// The nine bytes of the key-symbol prefix `_mps_key_` that the engine
/// prepends to every key name.
pub open spec fn symbol_prefix() -> Seq<u8> {
    seq![
        '_' as u8,
        'm' as u8,
        'p' as u8,
        's' as u8,
        '_' as u8,
        'k' as u8,
        'e' as u8,
        'y' as u8,
        '_' as u8,
    ]
}

/// The foreign key-identifier symbol for the key `name`: the symbol prefix
/// followed by the name.
pub open spec fn key_symbol(name: Seq<u8>) -> Seq<u8> {
    symbol_prefix() + name
}

/// Builds the foreign key-identifier symbol for the key `name`.
pub fn make_key_symbol(name: &[u8]) -> (r: Vec<u8>)
    ensures
        r@ == key_symbol(name@),
{
    let mut out: Vec<u8> = Vec::new();
    out.push('_' as u8);
    out.push('m' as u8);
    out.push('p' as u8);
    out.push('s' as u8);
    out.push('_' as u8);
    out.push('k' as u8);
    out.push('e' as u8);
    out.push('y' as u8);
    out.push('_' as u8);
    proof {
        assert(out@ =~= symbol_prefix());
    }
    let n = name.len();
    let mut i: usize = 0;
    while i < n
        invariant
            i <= n == name@.len(),
            out@ == symbol_prefix() + name@.subrange(0, i as int),
        decreases n - i,
    {
        out.push(name[i]);
        proof {
            assert(out@ =~= symbol_prefix() + name@.subrange(0, i + 1));
        }
        i = i + 1;
    }
    proof {
        assert(name@.subrange(0, n as int) =~= name@);
    }
    out
}

/// One entry of an argument block: a configuration pair, or the sentinel
/// that ends the block.
#[derive(Debug)]
pub enum ArgEntry {
    /// One configuration pair: the foreign key symbol, the payload field the
    /// value goes into, and the value itself.
    Pair { symbol: Vec<u8>, field: Vec<u8>, value: u64 },
    /// The reserved end-of-list entry.
    End,
}

/// The mathematical shape of one argument entry.
pub enum ArgEntryModel {
    /// A configuration pair.
    Pair { symbol: Seq<u8>, field: Seq<u8>, value: u64 },
    /// The sentinel.
    End,
}

impl View for ArgEntry {
    type V = ArgEntryModel;

    open spec fn view(&self) -> ArgEntryModel {
        match self {
            ArgEntry::Pair { symbol, field, value } => ArgEntryModel::Pair {
                symbol: symbol@,
                field: field@,
                value: *value,
            },
            ArgEntry::End => ArgEntryModel::End,
        }
    }
}

impl DeepView for ArgEntry {
    type V = ArgEntryModel;

    open spec fn deep_view(&self) -> ArgEntryModel {
        self.view()
    }
}

/// Whether a block has the well-formed shape the engine expects: non-empty,
/// the last entry the sentinel, and every entry before it a configuration
/// pair.
pub open spec fn block_wf(b: Seq<ArgEntryModel>) -> bool {
    &&& b.len() >= 1
    &&& b.last() is End
    &&& forall|i: int| 0 <= i < b.len() - 1 ==> b[i] is Pair
}

/// Whether the block `b` encodes the pairs exactly, against the registry
/// mapping `reg`: one configuration entry per pair in order, each carrying
/// the pair's key symbol, the registry's payload field for that key and the
/// pair's value, and nothing but the sentinel after them.
pub open spec fn encodes(
    b: Seq<ArgEntryModel>,
    reg: Map<Seq<u8>, Seq<u8>>,
    pairs: Seq<(Seq<u8>, u64)>,
) -> bool {
    &&& b.len() == pairs.len() + 1
    &&& b.last() is End
    &&& forall|i: int|
        0 <= i < pairs.len() ==> (#[trigger] b[i] matches ArgEntryModel::Pair {
            symbol,
            field,
            value,
        } && symbol == key_symbol(pairs[i].0) && reg.dom().contains(pairs[i].0) && field
            == reg[pairs[i].0] && value == pairs[i].1)
}

/// A sentinel-terminated argument block, ready to be handed to the engine's
/// creation entry point for the duration of one call.
#[derive(Debug)]
pub struct ArgBlock {
    entries: Vec<ArgEntry>,
}

impl View for ArgBlock {
    type V = Seq<ArgEntryModel>;

    closed spec fn view(&self) -> Seq<ArgEntryModel> {
        self.entries.deep_view()
    }
}

impl ArgBlock {
    /// The number of entries, the sentinel included.
    pub fn entry_count(&self) -> (r: usize)
        ensures
            r == self@.len(),
    {
        self.entries.len()
    }

    /// The entry at position `i`.
    pub fn entry_at(&self, i: usize) -> (r: &ArgEntry)
        requires
            i < self@.len(),
        ensures
            r@ == self@[i as int],
    {
        &self.entries[i]
    }
}

/// One logical configuration request: a key name drawn from the registry
/// and the value for that key's payload field.
pub struct KeyRequest {
    /// The key name, as the header declares it.
    pub name: Vec<u8>,
    /// The value to place in the key's payload field.
    pub value: u64,
}

impl DeepView for KeyRequest {
    type V = (Seq<u8>, u64);

    open spec fn deep_view(&self) -> (Seq<u8>, u64) {
        (self.name@, self.value)
    }
}

/// Builds the sentinel-terminated argument block for the requested pairs.
///
/// Succeeds exactly when the registry knows every requested key; the block
/// then encodes the pairs in order, each with the registry's payload field,
/// and ends in the sentinel. A request with any out-of-registry key is
/// rejected with [`ArenaError::UnknownKey`] and no block is produced.
pub fn build_args(reg: &Registry, reqs: &Vec<KeyRequest>) -> (r: Result<ArgBlock, ArenaError>)
    requires
        reg.wf(),
    ensures
        r is Ok <==> (forall|i: int|
            0 <= i < reqs.deep_view().len() ==> reg@.dom().contains(
                #[trigger] reqs.deep_view()[i].0,
            )),
        r matches Ok(b) ==> block_wf(b@) && encodes(b@, reg@, reqs.deep_view()),
        r matches Err(e) ==> e == ArenaError::UnknownKey,
{
    let mut entries: Vec<ArgEntry> = Vec::new();
    let n = reqs.len();
    let mut i: usize = 0;
    while i < n
        invariant
            i <= n == reqs@.len(),
            reg.wf(),
            entries.deep_view().len() == i,
            forall|k: int| 0 <= k < i ==> reg@.dom().contains(#[trigger] reqs.deep_view()[k].0),
            forall|k: int|
                0 <= k < i ==> (#[trigger] entries.deep_view()[k] matches ArgEntryModel::Pair {
                    symbol,
                    field,
                    value,
                } && symbol == key_symbol(reqs.deep_view()[k].0) && field == reg@[reqs.deep_view()[
                    k
                ].0] && value == reqs.deep_view()[k].1),
        decreases n - i,
    {
        let req = &reqs[i];
        proof {
            assert(reqs.deep_view()[i as int] == (req.name@, req.value));
        }
        match reg.lookup(req.name.as_slice()) {
            Some(d) => {
                let symbol = make_key_symbol(req.name.as_slice());
                let field = copy_bytes(d.field.as_slice());
                let ghost sym_model = symbol@;
                let ghost field_model = field@;
                let ghost before = entries.deep_view();
                entries.push(ArgEntry::Pair { symbol, field, value: req.value });
                proof {
                    assert(entries.deep_view() =~= before.push(
                        ArgEntryModel::Pair {
                            symbol: sym_model,
                            field: field_model,
                            value: req.value,
                        },
                    ));
                }
            },
            None => {
                proof {
                    assert(!reg@.dom().contains(reqs.deep_view()[i as int].0));
                }
                return Err(ArenaError::UnknownKey);
            },
        }
        i = i + 1;
    }
    let ghost pairs_done = entries.deep_view();
    entries.push(ArgEntry::End);
    let block = ArgBlock { entries };
    proof {
        assert(block@ =~= pairs_done.push(ArgEntryModel::End));
        assert(block@.last() is End);
        assert forall|k: int| 0 <= k < block@.len() - 1 implies block@[k] is Pair by {
            assert(block@[k] matches ArgEntryModel::Pair { symbol, field, value } && symbol
                == key_symbol(reqs.deep_view()[k].0));
        }
    }
    Ok(block)
}

/// Copies a byte string into an owned vector.
fn copy_bytes(b: &[u8]) -> (r: Vec<u8>)
    ensures
        r@ == b@,
{
    let mut out: Vec<u8> = Vec::new();
    let n = b.len();
    let mut i: usize = 0;
    while i < n
        invariant
            i <= n == b@.len(),
            out@ == b@.subrange(0, i as int),
        decreases n - i,
    {
        out.push(b[i]);
        proof {
            assert(out@ =~= b@.subrange(0, i + 1));
        }
        i = i + 1;
    }
    proof {
        assert(b@.subrange(0, n as int) =~= b@);
    }
    out
}

} // verus!
