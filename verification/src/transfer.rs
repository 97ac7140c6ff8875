//! Transfer assembly: the textual arguments of a transfer are read into a
//! request that the node can carry out, and what the node answers is handed
//! on, each failure under a name of its own.

use crate::error::RequestError;
use crate::json::{json_outpoints, json_strings, outpoints_from_json, strings_from_json};
use crate::ledger::outpoints_of;
use crate::planner::{
    coins_of, distinct_keys, lemma_entries_read, allocations_of, plan_change, plan_payments,
    read_change, read_changes, read_payment, read_payments, Allocation, OutpointCoins,
};
use crate::seal::{contract_id_of_text, ContractId, OutPoint, SealKey};
use vstd::prelude::*;

verus! {

/// A partially signed transaction of the `bitcoin` crate. The library
/// carries it and never looks inside.
#[verifier::external_type_specification]
#[verifier::external_body]
pub struct ExWitness(bitcoin::util::psbt::PartiallySignedTransaction);

/// The error of `consensus_decode`, carried through unread.
#[verifier::external_type_specification]
#[verifier::external_body]
pub struct ExWitnessError(bitcoin::consensus::encode::Error);

/// Whether `consensus_decode` of
/// `bitcoin::util::psbt::PartiallySignedTransaction` reads a partially signed
/// transaction from the bytes.
pub uninterp spec fn is_witness(bytes: Seq<u8>) -> bool;

/// Calls `consensus_decode` of
/// `bitcoin::util::psbt::PartiallySignedTransaction` on the bytes. The
/// contract names when the call succeeds.
#[verifier::external_body]
fn decode_witness(bytes: &Vec<u8>) -> (r: Result<
    bitcoin::util::psbt::PartiallySignedTransaction,
    bitcoin::consensus::encode::Error,
>)
    ensures
        r is Ok == is_witness(bytes@),
{
    bitcoin::consensus::Decodable::consensus_decode(&bytes[..])
}

/// A transfer that is ready to be handed to the node.
#[derive(Debug, PartialEq)]
pub struct TransferRequest {
    pub contract_id: ContractId,
    pub inputs: Vec<OutPoint>,
    pub payments: Vec<Allocation>,
    pub change: Vec<OutpointCoins>,
    pub witness: bitcoin::util::psbt::PartiallySignedTransaction,
}

/// What a transfer request says, as a mathematical value.
pub struct TransferView {
    pub contract_id: Seq<u8>,
    pub inputs: Seq<(Seq<u8>, u32)>,
    pub payments: Seq<(SealKey, u64)>,
    pub change: Seq<((Seq<u8>, u32), u64)>,
}

impl View for TransferRequest {
    type V = TransferView;

    open spec fn view(&self) -> TransferView {
        TransferView {
            contract_id: self.contract_id@,
            inputs: outpoints_of(self.inputs@),
            payments: allocations_of(self.payments@),
            change: coins_of(self.change@),
        }
    }
}

/// What the node hands back for a transfer: the consignment in its text form
/// and the witness in its binary form.
#[derive(Clone, Debug, PartialEq, Eq)]
pub struct TransferPackage {
    pub consignment: String,
    pub witness: Vec<u8>,
}

/// What the node reports when it cannot carry out a request.
#[derive(Clone, Copy, Debug, PartialEq, Eq, Structural)]
pub enum NodeFailure {
    /// Payments and change do not add up to what the inputs hold.
    ConservationMismatch,
    /// The contract is not known to the node.
    UnknownContract,
    /// An input holds nothing of the contract for the caller.
    ForeignInput,
    /// Another change of the same contract is in the way.
    Conflict,
    /// The consignment does not pass validation.
    InvalidConsignment,
    /// A disclosed seal matches nothing in the consignment.
    UnmatchedReveal,
    /// Any other failure of the node.
    Other,
}

/// What reading the arguments of a transfer yields. The contract identifier,
/// the inputs, the payments, the change and the witness are read in this
/// order, and the first that fails decides the error.
pub open spec fn read_transfer(
    contract_id: Seq<char>,
    inputs: Seq<char>,
    payment: Seq<char>,
    change: Seq<char>,
    witness: Seq<u8>,
) -> Result<TransferView, RequestError> {
    match contract_id_of_text(contract_id) {
        None => Err(RequestError::Bech32),
        Some(id) => match json_outpoints(inputs) {
            None => Err(RequestError::Json),
            Some(ins) => match json_strings(payment) {
                None => Err(RequestError::Json),
                Some(pay_items) => match read_payments(pay_items) {
                    Err(e) => Err(e),
                    Ok(pays) => match json_strings(change) {
                        None => Err(RequestError::Json),
                        Some(change_items) => match read_changes(change_items) {
                            Err(e) => Err(e),
                            Ok(coins) => if is_witness(witness) {
                                Ok(
                                    TransferView {
                                        contract_id: id,
                                        inputs: ins,
                                        payments: pays,
                                        change: coins,
                                    },
                                )
                            } else {
                                Err(RequestError::ConsensusEncode)
                            },
                        },
                    },
                },
            },
        },
    }
}

/// The error under which a failure of the node is handed on.
pub open spec fn surfaced(failure: NodeFailure) -> RequestError {
    match failure {
        NodeFailure::ConservationMismatch => RequestError::ConservationMismatch,
        NodeFailure::UnknownContract => RequestError::UnknownContract,
        NodeFailure::ForeignInput => RequestError::ForeignInput,
        NodeFailure::Conflict => RequestError::Conflict,
        NodeFailure::InvalidConsignment => RequestError::InvalidConsignment,
        NodeFailure::UnmatchedReveal => RequestError::UnmatchedReveal,
        NodeFailure::Other => RequestError::Integration,
    }
}

/// Two failures of the node are handed on under the same error only where
/// they are the same failure: none is masked by another.
pub proof fn lemma_failures_stay_apart(a: NodeFailure, b: NodeFailure)
    requires
        surfaced(a) == surfaced(b),
    ensures
        a == b,
{
}

/// Hands on a failure of the node under its own name.
pub fn surface(failure: NodeFailure) -> (r: RequestError)
    ensures
        r == surfaced(failure),
{
    match failure {
        NodeFailure::ConservationMismatch => RequestError::ConservationMismatch,
        NodeFailure::UnknownContract => RequestError::UnknownContract,
        NodeFailure::ForeignInput => RequestError::ForeignInput,
        NodeFailure::Conflict => RequestError::Conflict,
        NodeFailure::InvalidConsignment => RequestError::InvalidConsignment,
        NodeFailure::UnmatchedReveal => RequestError::UnmatchedReveal,
        NodeFailure::Other => RequestError::Integration,
    }
}

/// Reads the arguments of a transfer: the contract identifier as Bech32
/// text, the inputs as a JSON list of outpoints, the payments as a JSON list
/// of `<amount>@<seal>` entries, the change as a JSON list of
/// `<outpoint>@<amount>` entries, and the witness in its binary form. On
/// success no seal occurs twice among the payments, and none twice among the
/// change.
pub fn prepare_transfer(
    contract_id: &str,
    inputs: &str,
    payment: &str,
    change: &str,
    witness: &Vec<u8>,
) -> (r: Result<TransferRequest, RequestError>)
    ensures
        r matches Ok(t) ==> read_transfer(contract_id@, inputs@, payment@, change@, witness@)
            == Ok::<TransferView, RequestError>(t@) && distinct_keys(t@.payments) && distinct_keys(
            t@.change,
        ),
        r matches Err(e) ==> read_transfer(contract_id@, inputs@, payment@, change@, witness@)
            == Err::<TransferView, RequestError>(e),
{
    let id = match ContractId::from_text(contract_id) {
        Some(id) => id,
        None => {
            return Err(RequestError::Bech32);
        },
    };
    let ins = match outpoints_from_json(inputs) {
        Ok(v) => v,
        Err(_) => {
            return Err(RequestError::Json);
        },
    };
    let pay_items = match strings_from_json(payment) {
        Ok(v) => v,
        Err(_) => {
            return Err(RequestError::Json);
        },
    };
    let pays = match plan_payments(&pay_items) {
        Ok(v) => v,
        Err(e) => {
            return Err(e);
        },
    };
    let change_items = match strings_from_json(change) {
        Ok(v) => v,
        Err(_) => {
            return Err(RequestError::Json);
        },
    };
    let coins = match plan_change(&change_items) {
        Ok(v) => v,
        Err(e) => {
            return Err(e);
        },
    };
    let decoded = match decode_witness(witness) {
        Ok(w) => w,
        Err(_) => {
            return Err(RequestError::ConsensusEncode);
        },
    };
    proof {
        lemma_entries_read(json_strings(payment@)->Some_0, |s: Seq<char>| read_payment(s));
        lemma_entries_read(json_strings(change@)->Some_0, |s: Seq<char>| read_change(s));
    }
    Ok(TransferRequest { contract_id: id, inputs: ins, payments: pays, change: coins, witness: decoded })
}

/// Hands on what the node answered to a transfer: the package as it came, or
/// the failure under its own name. A package whose witness is not a partially
/// signed transaction is refused.
pub fn conclude_transfer(answer: Result<TransferPackage, NodeFailure>) -> (r: Result<
    TransferPackage,
    RequestError,
>)
    ensures
        match answer {
            Ok(package) => if is_witness(package.witness@) {
                r == Ok::<TransferPackage, RequestError>(package)
            } else {
                r == Err::<TransferPackage, RequestError>(RequestError::ConsensusEncode)
            },
            Err(failure) => r == Err::<TransferPackage, RequestError>(surfaced(failure)),
        },
{
    match answer {
        Ok(package) => match decode_witness(&package.witness) {
            Ok(_) => Ok(package),
            Err(_) => Err(RequestError::ConsensusEncode),
        },
        Err(failure) => Err(surface(failure)),
    }
}

} // verus!
