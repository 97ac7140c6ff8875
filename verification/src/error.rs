//! The failures that a request can end in. Each stage of an operation has a
//! failure of its own, so that a caller can tell a malformed identifier from a
//! malformed list from a violated protocol rule.

use vstd::prelude::*;

verus! {

/// Why a request was refused.
#[derive(Clone, Copy, Debug, PartialEq, Eq, Structural)]
pub enum RequestError {
    /// A contract identifier or a blinded seal is not valid Bech32 of its kind.
    Bech32,
    /// A list argument is not a JSON document of the expected shape.
    Json,
    /// An invoice text does not follow the invoice grammar.
    Invoice,
    /// The chain name is not one of the known chains.
    ChainParse,
    /// An outpoint is not of the form `<txid>:<vout>`.
    Outpoint,
    /// A payment entry is not exactly one amount and one seal joined by `@`.
    Input,
    /// An amount is not a decimal number that fits 64 bits.
    ParseInt,
    /// The witness is not a consensus-encoded partially signed transaction.
    ConsensusEncode,
    /// Two entries of one list name the same seal.
    DuplicateSeal,
    /// Payments and change do not add up to the value of the spent inputs.
    ConservationMismatch,
    /// The node does not know the contract.
    UnknownContract,
    /// An input outpoint holds nothing of the contract for the caller.
    ForeignInput,
    /// The node found the request in conflict with another change of the same
    /// contract.
    Conflict,
    /// The node reported a failure of its own.
    Integration,
    /// The consignment did not pass validation.
    InvalidConsignment,
    /// A disclosed seal matches no commitment of the consignment.
    UnmatchedReveal,
    /// The consignment was not in the state that the operation needs.
    WrongState,
}

} // verus!
