//! Issuance: the arguments that found an asset are read into a request that
//! the node can carry out.

use crate::error::RequestError;
use crate::json::{
    coins_from_json, json_coins, json_optional_outpoint, optional_outpoint_from_json,
};
use crate::planner::{coins_of, OutpointCoins};
use crate::seal::OutPoint;
use vstd::prelude::*;
use vstd::string::*;

verus! {

/// A chain of the `lnpbp` crate. The library carries it and never looks
/// inside.
#[verifier::external_type_specification]
#[verifier::external_body]
pub struct ExChain(lnpbp::Chain);

/// The error of `lnpbp::Chain::from_str`, carried through unread.
#[verifier::external_type_specification]
#[verifier::external_body]
pub struct ExChainError(lnpbp::chain::ParseError);

/// Whether `lnpbp::Chain::from_str` reads a chain from the text.
pub uninterp spec fn is_chain_name(text: Seq<char>) -> bool;

/// Calls `lnpbp::Chain::from_str`. The contract names when the call
/// succeeds.
#[verifier::external_body]
fn chain_from_str(text: &str) -> (r: Result<lnpbp::Chain, lnpbp::chain::ParseError>)
    ensures
        r is Ok == is_chain_name(text@),
{
    <lnpbp::Chain as std::str::FromStr>::from_str(text)
}

/// The founding record of an asset, as it is asked of the node.
#[derive(Debug, PartialEq)]
pub struct IssueRequest {
    pub network: lnpbp::Chain,
    pub ticker: String,
    pub name: String,
    pub description: Option<String>,
    pub precision: u8,
    pub allocations: Vec<OutpointCoins>,
    pub inflation: Vec<OutpointCoins>,
    pub renomination: Option<OutPoint>,
    pub epoch: Option<OutPoint>,
}

/// What an issue request says, as a mathematical value.
pub struct IssueView {
    pub ticker: Seq<char>,
    pub name: Seq<char>,
    pub description: Option<Seq<char>>,
    pub precision: u8,
    pub allocations: Seq<((Seq<u8>, u32), u64)>,
    pub inflation: Seq<((Seq<u8>, u32), u64)>,
    pub renomination: Option<(Seq<u8>, u32)>,
    pub epoch: Option<(Seq<u8>, u32)>,
}

/// The outpoint that an optional value holds, as a mathematical value.
pub open spec fn optional_outpoint(o: Option<OutPoint>) -> Option<(Seq<u8>, u32)> {
    match o {
        Some(v) => Some(v@),
        None => None,
    }
}

/// The text that an optional string holds.
pub open spec fn optional_text(o: Option<String>) -> Option<Seq<char>> {
    match o {
        Some(v) => Some(v@),
        None => None,
    }
}

impl View for IssueRequest {
    type V = IssueView;

    open spec fn view(&self) -> IssueView {
        IssueView {
            ticker: self.ticker@,
            name: self.name@,
            description: optional_text(self.description),
            precision: self.precision,
            allocations: coins_of(self.allocations@),
            inflation: coins_of(self.inflation@),
            renomination: optional_outpoint(self.renomination),
            epoch: optional_outpoint(self.epoch),
        }
    }
}

/// The description that is kept: none where none or an empty one is given.
pub open spec fn kept_description(description: Option<Seq<char>>) -> Option<Seq<char>> {
    match description {
        Some(d) => if d.len() == 0 {
            None
        } else {
            Some(d)
        },
        None => None,
    }
}

/// What reading the arguments of an issue yields. The chain, the
/// allocations, the inflation rights, the renomination right and the epoch
/// right are read in this order, and the first that fails decides the error.
pub open spec fn read_issue(
    network: Seq<char>,
    ticker: Seq<char>,
    name: Seq<char>,
    description: Option<Seq<char>>,
    precision: u8,
    allocations: Seq<char>,
    inflation: Seq<char>,
    renomination: Seq<char>,
    epoch: Seq<char>,
) -> Result<IssueView, RequestError> {
    if !is_chain_name(network) {
        Err(RequestError::ChainParse)
    } else {
        match (
            json_coins(allocations),
            json_coins(inflation),
            json_optional_outpoint(renomination),
            json_optional_outpoint(epoch),
        ) {
            (Some(a), Some(i), Some(r), Some(e)) => Ok(
                IssueView {
                    ticker,
                    name,
                    description: kept_description(description),
                    precision,
                    allocations: a,
                    inflation: i,
                    renomination: r,
                    epoch: e,
                },
            ),
            _ => Err(RequestError::Json),
        }
    }
}

/// Keeps a description that says something.
pub fn keep_description(description: Option<&str>) -> (r: Option<String>)
    ensures
        optional_text(r) == kept_description(
            match description {
                Some(d) => Some(d@),
                None => None,
            },
        ),
{
    match description {
        Some(d) => if d.unicode_len() == 0 {
            None
        } else {
            Some(String::from_str(d))
        },
        None => None,
    }
}

/// Reads the arguments of an issue: the chain by its name, the allocations
/// and the inflation rights as JSON lists of outpoints with amounts, the
/// renomination right and the epoch right as JSON outpoints or `null`.
pub fn prepare_issue(
    network: &str,
    ticker: &str,
    name: &str,
    description: Option<&str>,
    precision: u8,
    allocations: &str,
    inflation: &str,
    renomination: &str,
    epoch: &str,
) -> (r: Result<IssueRequest, RequestError>)
    ensures
        r matches Ok(q) ==> read_issue(
            network@,
            ticker@,
            name@,
            match description {
                Some(d) => Some(d@),
                None => None,
            },
            precision,
            allocations@,
            inflation@,
            renomination@,
            epoch@,
        ) == Ok::<IssueView, RequestError>(q@),
        r matches Err(e) ==> read_issue(
            network@,
            ticker@,
            name@,
            match description {
                Some(d) => Some(d@),
                None => None,
            },
            precision,
            allocations@,
            inflation@,
            renomination@,
            epoch@,
        ) == Err::<IssueView, RequestError>(e),
{
    let chain = match chain_from_str(network) {
        Ok(c) => c,
        Err(_) => {
            return Err(RequestError::ChainParse);
        },
    };
    let kept = keep_description(description);
    let a = match coins_from_json(allocations) {
        Ok(v) => v,
        Err(_) => {
            return Err(RequestError::Json);
        },
    };
    let i = match coins_from_json(inflation) {
        Ok(v) => v,
        Err(_) => {
            return Err(RequestError::Json);
        },
    };
    let r = match optional_outpoint_from_json(renomination) {
        Ok(v) => v,
        Err(_) => {
            return Err(RequestError::Json);
        },
    };
    let e = match optional_outpoint_from_json(epoch) {
        Ok(v) => v,
        Err(_) => {
            return Err(RequestError::Json);
        },
    };
    Ok(
        IssueRequest {
            network: chain,
            ticker: String::from_str(ticker),
            name: String::from_str(name),
            description: kept,
            precision,
            allocations: a,
            inflation: i,
            renomination: r,
            epoch: e,
        },
    )
}

} // verus!
