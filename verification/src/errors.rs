//! The typed error set of the layer.
//!
//! Every numeric result code the engine reports is translated here, at the
//! boundary, into one variant of [`ArenaError`]; no raw code leaves the
//! layer. The builder's own rejection of an unknown configuration key is a
//! variant of the same set, raised before any foreign call is attempted.

use vstd::prelude::*;

verus! {

/// A typed error of the configuration-and-lifecycle layer.
#[derive(Clone, Copy, Debug, PartialEq, Eq, Structural)]
pub enum ArenaError {
    /// The engine reported an unspecified failure.
    Fail,
    /// The engine could not obtain a needed resource other than memory,
    /// such as address space.
    Resource,
    /// The engine could not obtain memory.
    Memory,
    /// An internal limit of the engine was reached.
    Limit,
    /// The engine does not implement the requested facility.
    Unimplemented,
    /// An input/output error occurred inside the engine.
    Io,
    /// The engine's commit limit would have been exceeded.
    CommitLimit,
    /// An invalid or unsupported configuration value was supplied.
    Param,
    /// A configuration key absent from the generated registry was supplied
    /// to the argument-list builder. Raised before any foreign call.
    UnknownKey,
    /// The engine broke its own protocol: it reported a result code outside
    /// its documented set, a null handle beside a success code, or
    /// introspection values that violate its stated invariants.
    Protocol,
}

/// The translation of an engine result code: `None` for the success code,
/// one typed error for every failure code, and [`ArenaError::Protocol`] for
/// a code outside the engine's documented set.
pub open spec fn code_error(code: int) -> Option<ArenaError> {
    if code == 0 {
        None
    } else if code == 1 {
        Some(ArenaError::Fail)
    } else if code == 2 {
        Some(ArenaError::Resource)
    } else if code == 3 {
        Some(ArenaError::Memory)
    } else if code == 4 {
        Some(ArenaError::Limit)
    } else if code == 5 {
        Some(ArenaError::Unimplemented)
    } else if code == 6 {
        Some(ArenaError::Io)
    } else if code == 7 {
        Some(ArenaError::CommitLimit)
    } else if code == 8 {
        Some(ArenaError::Param)
    } else {
        Some(ArenaError::Protocol)
    }
}

/// Translates an engine result code into the typed error set.
///
/// Returns `None` exactly when `code` is the engine's success code.
pub fn error_from_code(code: i32) -> (r: Option<ArenaError>)
    ensures
        r == code_error(code as int),
{
    if code == 0 {
        None
    } else if code == 1 {
        Some(ArenaError::Fail)
    } else if code == 2 {
        Some(ArenaError::Resource)
    } else if code == 3 {
        Some(ArenaError::Memory)
    } else if code == 4 {
        Some(ArenaError::Limit)
    } else if code == 5 {
        Some(ArenaError::Unimplemented)
    } else if code == 6 {
        Some(ArenaError::Io)
    } else if code == 7 {
        Some(ArenaError::CommitLimit)
    } else if code == 8 {
        Some(ArenaError::Param)
    } else {
        Some(ArenaError::Protocol)
    }
}

} // verus!
