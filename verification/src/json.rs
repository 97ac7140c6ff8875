//! The JSON documents that carry lists across the library's boundary. They
//! are read by `serde_json` into the values of the `bitcoin`, `lnpbp` and
//! `rgb20` crates; what those calls return is named here.

use crate::consignment::reveals_of;
use crate::ledger::outpoints_of;
use crate::planner::{coins_of, texts_of, OutpointCoins};
use crate::seal::{OutPoint, OutpointReveal};
use vstd::prelude::*;

verus! {

/// The error of `serde_json::from_str`, carried through unread.
#[verifier::external_type_specification]
#[verifier::external_body]
pub struct ExJsonError(serde_json::Error);

/// What `serde_json::from_str` makes of a text that is read as a list of
/// strings.
pub uninterp spec fn json_strings(text: Seq<char>) -> Option<Seq<Seq<char>>>;

/// What `serde_json::from_str` makes of a text that is read as a list of
/// `bitcoin::OutPoint`: of each the transaction identifier and the output
/// number.
pub uninterp spec fn json_outpoints(text: Seq<char>) -> Option<Seq<(Seq<u8>, u32)>>;

/// What `serde_json::from_str` makes of a text that is read as an optional
/// `bitcoin::OutPoint`.
pub uninterp spec fn json_optional_outpoint(text: Seq<char>) -> Option<Option<(Seq<u8>, u32)>>;

/// What `serde_json::from_str` makes of a text that is read as a list of
/// `rgb20::OutpointCoins`: of each the outpoint and the amount.
pub uninterp spec fn json_coins(text: Seq<char>) -> Option<Seq<((Seq<u8>, u32), u64)>>;

/// What `serde_json::from_str` makes of a text that is read as a list of
/// `lnpbp::seals::OutpointReveal`: of each the blinding factor, the
/// transaction identifier and the output number.
pub uninterp spec fn json_reveals(text: Seq<char>) -> Option<Seq<(u64, Seq<u8>, u32)>>;

/// Calls `serde_json::from_str` for a list of strings. The contract names the
/// result.
#[verifier::external_body]
pub(crate) fn strings_from_json(text: &str) -> (r: Result<Vec<String>, serde_json::Error>)
    ensures
        match r {
            Ok(v) => json_strings(text@) == Some(texts_of(v@)),
            Err(_) => json_strings(text@) is None,
        },
{
    serde_json::from_str::<Vec<String>>(text)
}

/// Calls `serde_json::from_str` for a list of `bitcoin::OutPoint` and hands
/// out each as an outpoint of the library. The contract names the result.
#[verifier::external_body]
pub(crate) fn outpoints_from_json(text: &str) -> (r: Result<Vec<OutPoint>, serde_json::Error>)
    ensures
        match r {
            Ok(v) => json_outpoints(text@) == Some(outpoints_of(v@)),
            Err(_) => json_outpoints(text@) is None,
        },
{
    let list = serde_json::from_str::<Vec<bitcoin::OutPoint>>(text)?;
    Ok(
        list.into_iter().map(
            |o| OutPoint { txid: bitcoin::hashes::Hash::into_inner(o.txid), vout: o.vout },
        ).collect(),
    )
}

/// Calls `serde_json::from_str` for an optional `bitcoin::OutPoint` and hands
/// it out as an outpoint of the library. The contract names the result.
#[verifier::external_body]
pub(crate) fn optional_outpoint_from_json(text: &str) -> (r: Result<
    Option<OutPoint>,
    serde_json::Error,
>)
    ensures
        match r {
            Ok(Some(o)) => json_optional_outpoint(text@) == Some(Some(o@)),
            Ok(None) => json_optional_outpoint(text@) == Some(None::<(Seq<u8>, u32)>),
            Err(_) => json_optional_outpoint(text@) is None,
        },
{
    let read = serde_json::from_str::<Option<bitcoin::OutPoint>>(text)?;
    Ok(read.map(|o| OutPoint { txid: bitcoin::hashes::Hash::into_inner(o.txid), vout: o.vout }))
}

/// Calls `serde_json::from_str` for a list of `rgb20::OutpointCoins` and
/// hands out each as an allocation of the library. The contract names the
/// result.
#[verifier::external_body]
pub(crate) fn coins_from_json(text: &str) -> (r: Result<Vec<OutpointCoins>, serde_json::Error>)
    ensures
        match r {
            Ok(v) => json_coins(text@) == Some(coins_of(v@)),
            Err(_) => json_coins(text@) is None,
        },
{
    let list = serde_json::from_str::<Vec<rgb20::OutpointCoins>>(text)?;
    Ok(
        list.into_iter().map(
            |c|
                OutpointCoins {
                    outpoint: OutPoint {
                        txid: bitcoin::hashes::Hash::into_inner(c.outpoint.txid),
                        vout: c.outpoint.vout,
                    },
                    amount: c.coins,
                },
        ).collect(),
    )
}

/// Calls `serde_json::from_str` for a list of `lnpbp::seals::OutpointReveal`
/// and hands out each as a reveal of the library. The contract names the
/// result.
#[verifier::external_body]
pub(crate) fn reveals_from_json(text: &str) -> (r: Result<Vec<OutpointReveal>, serde_json::Error>)
    ensures
        match r {
            Ok(v) => json_reveals(text@) == Some(reveals_of(v@)),
            Err(_) => json_reveals(text@) is None,
        },
{
    let list = serde_json::from_str::<Vec<lnpbp::seals::OutpointReveal>>(text)?;
    Ok(
        list.into_iter().map(
            |r|
                OutpointReveal {
                    blinding: r.blinding,
                    txid: bitcoin::hashes::Hash::into_inner(r.txid),
                    vout: r.vout,
                },
        ).collect(),
    )
}

} // verus!
