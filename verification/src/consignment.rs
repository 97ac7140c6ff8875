//! Consignments and their way from reception to acceptance.
//!
//! A consignment names the contract, the inputs that are spent and the
//! allocations that are handed out. It is validated against the asset, and
//! only a validated one can be accepted. Acceptance takes the reveals of the
//! blinded seals that the recipient owns, checks each against the commitments
//! of the consignment, and rewrites the ledger of the asset in one step.

use crate::error::RequestError;
use crate::json::{json_reveals, reveals_from_json};
use crate::ledger::{
    in_the_open, lemma_spent_and_unspent, lemma_total_in_the_open, outpoints_of, spends,
    spent_value, transfer_verdict, unspent, Asset,
};
use crate::planner::{
    allocations_of, coins_of, distinct_keys, has_key, pays_to, total, Allocation,
    AllocationPlan, OutpointCoins,
};
use crate::seal::{
    seal_commitment, ContractId, OutPoint, OutpointHash, OutpointReveal, SealEndpoint, SealKey,
};
use vstd::prelude::*;

verus! {

/// The state transition of one transfer: the inputs that it spends and the
/// allocations that it hands out, for one contract.
#[derive(Clone, Debug, PartialEq, Eq)]
pub struct Consignment {
    pub contract_id: ContractId,
    pub inputs: Vec<OutPoint>,
    pub payments: Vec<Allocation>,
    pub change: Vec<OutpointCoins>,
}

/// Where a received consignment stands.
#[derive(Clone, Copy, Debug, PartialEq, Eq, Structural)]
pub enum Stage {
    Received,
    Validated,
    Accepted,
    Rejected(RequestError),
}

/// What happens to a received consignment: it is validated or asked to be
/// accepted, each with the verdict that was reached.
pub enum Event {
    Validation(Result<(), RequestError>),
    Acceptance(Result<(), RequestError>),
}

/// The reveals that a list holds, as mathematical values.
pub open spec fn reveals_of(v: Seq<OutpointReveal>) -> Seq<(u64, Seq<u8>, u32)> {
    Seq::new(v.len(), |i: int| v[i]@)
}

/// The blinded seal that conceals a reveal.
pub open spec fn concealed(r: (u64, Seq<u8>, u32)) -> SealKey {
    SealKey::Blinded(seal_commitment(r.0, r.1, r.2))
}

/// Whether every reveal conceals to a seal that a payment goes to.
pub open spec fn all_match(reveals: Seq<(u64, Seq<u8>, u32)>, payments: Seq<(SealKey, u64)>) -> bool {
    forall|k: int| 0 <= k < reveals.len() ==> has_key(payments, concealed(#[trigger] reveals[k]))
}

/// The outpoint of the first reveal that conceals to `hash`.
pub open spec fn revealed_outpoint(reveals: Seq<(u64, Seq<u8>, u32)>, hash: Seq<u8>) -> Option<
    (Seq<u8>, u32),
>
    decreases reveals.len(),
{
    if reveals.len() == 0 {
        None
    } else if seal_commitment(reveals[0].0, reveals[0].1, reveals[0].2) == hash {
        Some((reveals[0].1, reveals[0].2))
    } else {
        revealed_outpoint(reveals.drop_first(), hash)
    }
}

/// An allocation as the recipient holds it once the reveals are known: one
/// to a blinded seal that a reveal conceals to is bound to the outpoint of
/// that reveal, any other stays as it is.
pub open spec fn disclose(entry: (SealKey, u64), reveals: Seq<(u64, Seq<u8>, u32)>) -> (
    SealKey,
    u64,
) {
    match entry.0 {
        SealKey::Blinded(hash) => match revealed_outpoint(reveals, hash) {
            Some(o) => (SealKey::Explicit(o.0, o.1), entry.1),
            None => entry,
        },
        SealKey::Explicit(_, _) => entry,
    }
}

/// The payments as the recipient holds them once the reveals are known.
pub open spec fn disclosed(payments: Seq<(SealKey, u64)>, reveals: Seq<(u64, Seq<u8>, u32)>) -> Seq<
    (SealKey, u64),
> {
    Seq::new(payments.len(), |i: int| disclose(payments[i], reveals))
}

/// The ledger once a consignment is accepted: what the inputs leave unspent,
/// then the payments with the revealed seals in the open, then the change.
pub open spec fn ledger_after(
    ledger: Seq<(SealKey, u64)>,
    inputs: Seq<(Seq<u8>, u32)>,
    payments: Seq<(SealKey, u64)>,
    change: Seq<((Seq<u8>, u32), u64)>,
    reveals: Seq<(u64, Seq<u8>, u32)>,
) -> Seq<(SealKey, u64)> {
    unspent(ledger, inputs) + disclosed(payments, reveals) + in_the_open(change)
}

/// The verdict of validation: no seal may occur twice among the payments
/// nor among the change, and the transfer must stand against the asset. A
/// consignment that the ledger of the chain does not anchor is invalid.
pub open spec fn validation_verdict(
    asset_id: Seq<u8>,
    ledger: Seq<(SealKey, u64)>,
    contract_id: Seq<u8>,
    inputs: Seq<(Seq<u8>, u32)>,
    payments: Seq<(SealKey, u64)>,
    change: Seq<((Seq<u8>, u32), u64)>,
    anchored: bool,
) -> Result<(), RequestError> {
    if !distinct_keys(payments) || !distinct_keys(change) {
        Err(RequestError::DuplicateSeal)
    } else {
        match transfer_verdict(asset_id, ledger, contract_id, inputs, total(payments) + total(change)) {
            Err(e) => Err(e),
            Ok(_) => if anchored {
                Ok(())
            } else {
                Err(RequestError::InvalidConsignment)
            },
        }
    }
}

/// The verdict of acceptance: the consignment must still be valid against
/// the asset, and every reveal must conceal to a seal that a payment goes
/// to.
pub open spec fn acceptance_verdict(
    asset_id: Seq<u8>,
    ledger: Seq<(SealKey, u64)>,
    contract_id: Seq<u8>,
    inputs: Seq<(Seq<u8>, u32)>,
    payments: Seq<(SealKey, u64)>,
    change: Seq<((Seq<u8>, u32), u64)>,
    reveals: Seq<(u64, Seq<u8>, u32)>,
) -> Result<(), RequestError> {
    match validation_verdict(asset_id, ledger, contract_id, inputs, payments, change, true) {
        Err(e) => Err(e),
        Ok(_) => if all_match(reveals, payments) {
            Ok(())
        } else {
            Err(RequestError::UnmatchedReveal)
        },
    }
}

/// The stage that follows a stage and an event. A received consignment is
/// validated or rejected; a validated one is accepted or rejected; nothing
/// else changes the stage.
pub open spec fn step(stage: Stage, event: Event) -> Stage {
    match (stage, event) {
        (Stage::Received, Event::Validation(Ok(_))) => Stage::Validated,
        (Stage::Received, Event::Validation(Err(e))) => Stage::Rejected(e),
        (Stage::Validated, Event::Acceptance(Ok(_))) => Stage::Accepted,
        (Stage::Validated, Event::Acceptance(Err(e))) => Stage::Rejected(e),
        (s, _) => s,
    }
}

/// The stage that a received consignment is in after a run of events.
pub open spec fn run(events: Seq<Event>) -> Stage
    decreases events.len(),
{
    if events.len() == 0 {
        Stage::Received
    } else {
        step(run(events.drop_last()), events.last())
    }
}

/// Whether an event is a validation that found the consignment valid.
pub open spec fn found_valid(event: Event) -> bool {
    event matches Event::Validation(v) && v is Ok
}

/// Whether an event is an acceptance that went through.
pub open spec fn went_through(event: Event) -> bool {
    event matches Event::Acceptance(v) && v is Ok
}

/// Whether, in a run of events, the `i`-th is the first validation and
/// found the consignment valid.
pub open spec fn first_validation_is_good(events: Seq<Event>, i: int) -> bool {
    &&& 0 <= i < events.len()
    &&& found_valid(events[i])
    &&& forall|k: int| 0 <= k < i ==> !(#[trigger] events[k] is Validation)
}

/// Whether, in a run of events, the `i`-th is the first validation and
/// found the consignment valid, and the `j`-th, after it, is an acceptance
/// that went through.
pub open spec fn accepted_after_validation(events: Seq<Event>, i: int, j: int) -> bool {
    first_validation_is_good(events, i) && i < j < events.len() && went_through(events[j])
}

/// A consignment is accepted only after it was found valid: in every run of
/// events that ends in acceptance, the first validation found the
/// consignment valid, and an acceptance that went through comes after it.
/// So no invalid consignment is ever accepted, whatever reveals are given.
pub proof fn lemma_validated_before_accepted(events: Seq<Event>)
    requires
        run(events) == Stage::Accepted,
    ensures
        exists|i: int, j: int|
            #[trigger] accepted_after_validation(events, i, j),
{
    lemma_stages(events);
}

/// How the events of a run decide its stage.
proof fn lemma_stages(events: Seq<Event>)
    ensures
        run(events) == Stage::Received ==> forall|k: int|
            0 <= k < events.len() ==> !(#[trigger] events[k] is Validation),
        run(events) == Stage::Validated ==> exists|i: int|
            first_validation_is_good(events, i),
        run(events) == Stage::Accepted ==> exists|i: int, j: int|
            #[trigger] accepted_after_validation(events, i, j),
    decreases events.len(),
{
    if events.len() > 0 {
        let front = events.drop_last();
        let n = front.len() as int;
        lemma_stages(front);
        let before = run(front);
        assert forall|i: int| first_validation_is_good(front, i) implies first_validation_is_good(
            events,
            i,
        ) by {
            assert(events[i] == front[i]);
            assert forall|k: int| 0 <= k < i implies !(#[trigger] events[k] is Validation) by {
                assert(events[k] == front[k]);
            }
        }
        if run(events) == Stage::Received {
            assert(before == Stage::Received);
            assert forall|k: int| 0 <= k < events.len() implies !(#[trigger] events[k]
                is Validation) by {
                if k < n {
                    assert(events[k] == front[k]);
                }
            }
        }
        if run(events) == Stage::Validated {
            if before == Stage::Validated {
                let i = choose|i: int| first_validation_is_good(front, i);
                assert(first_validation_is_good(events, i));
            } else {
                assert(before == Stage::Received);
                assert forall|k: int| 0 <= k < n implies !(#[trigger] events[k] is Validation) by {
                    assert(events[k] == front[k]);
                }
                assert(first_validation_is_good(events, n));
            }
        }
        if run(events) == Stage::Accepted {
            if before == Stage::Accepted {
                let (i, j) = choose|i: int, j: int|
                    #[trigger] accepted_after_validation(front, i, j);
                assert(events[j] == front[j]);
                assert(accepted_after_validation(events, i, j));
            } else {
                assert(before == Stage::Validated);
                let i = choose|i: int| first_validation_is_good(front, i);
                assert(accepted_after_validation(events, i, n));
            }
        }
    }
}

/// Acceptance and rejection are final: no event leads out of them.
pub proof fn lemma_final_stages(stage: Stage, event: Event)
    requires
        stage is Accepted || stage is Rejected,
    ensures
        step(stage, event) == stage,
{
}

/// The total of two lists joined is the sum of their totals.
pub proof fn lemma_total_joined<K>(a: Seq<(K, u64)>, b: Seq<(K, u64)>)
    ensures
        total(a + b) == total(a) + total(b),
    decreases b.len(),
{
    if b.len() == 0 {
        assert(a + b =~= a);
    } else {
        lemma_total_joined(a, b.drop_last());
        assert((a + b).drop_last() =~= a + b.drop_last());
    }
}

/// Revealing seals changes no amount.
pub proof fn lemma_total_disclosed(payments: Seq<(SealKey, u64)>, reveals: Seq<(u64, Seq<u8>, u32)>)
    ensures
        total(disclosed(payments, reveals)) == total(payments),
    decreases payments.len(),
{
    if payments.len() > 0 {
        lemma_total_disclosed(payments.drop_last(), reveals);
        assert(disclosed(payments, reveals).drop_last() =~= disclosed(
            payments.drop_last(),
            reveals,
        ));
    }
}

/// Accepting a valid consignment conserves the value of the ledger: what
/// the inputs held is what the payments and the change hold afterwards.
pub proof fn lemma_acceptance_conserves(
    asset_id: Seq<u8>,
    ledger: Seq<(SealKey, u64)>,
    contract_id: Seq<u8>,
    inputs: Seq<(Seq<u8>, u32)>,
    payments: Seq<(SealKey, u64)>,
    change: Seq<((Seq<u8>, u32), u64)>,
    reveals: Seq<(u64, Seq<u8>, u32)>,
)
    requires
        acceptance_verdict(asset_id, ledger, contract_id, inputs, payments, change, reveals) is Ok,
    ensures
        total(payments) + total(change) == spent_value(ledger, inputs),
        total(ledger_after(ledger, inputs, payments, change, reveals)) == total(ledger),
{
    lemma_spent_and_unspent(ledger, inputs);
    lemma_total_disclosed(payments, reveals);
    lemma_total_in_the_open(change);
    lemma_total_joined(unspent(ledger, inputs), disclosed(payments, reveals));
    lemma_total_joined(unspent(ledger, inputs) + disclosed(payments, reveals), in_the_open(change));
}

/// Where no reveal before the `k`-th conceals to `hash` and the `k`-th does,
/// its outpoint is the one revealed for `hash`.
pub proof fn lemma_first_reveal(reveals: Seq<(u64, Seq<u8>, u32)>, hash: Seq<u8>, k: int)
    requires
        0 <= k <= reveals.len(),
        forall|j: int|
            0 <= j < k ==> seal_commitment(
                (#[trigger] reveals[j]).0,
                reveals[j].1,
                reveals[j].2,
            ) != hash,
        k < reveals.len() ==> seal_commitment(reveals[k].0, reveals[k].1, reveals[k].2) == hash,
    ensures
        revealed_outpoint(reveals, hash) == if k < reveals.len() {
            Some((reveals[k].1, reveals[k].2))
        } else {
            None
        },
    decreases reveals.len(),
{
    if reveals.len() > 0 && k > 0 {
        let rest = reveals.drop_first();
        assert(seal_commitment(reveals[0].0, reveals[0].1, reveals[0].2) != hash);
        assert forall|j: int| 0 <= j < k - 1 implies seal_commitment(
            (#[trigger] rest[j]).0,
            rest[j].1,
            rest[j].2,
        ) != hash by {
            assert(rest[j] == reveals[j + 1]);
        }
        if k < reveals.len() {
            assert(rest[k - 1] == reveals[k]);
        }
        lemma_first_reveal(rest, hash, k - 1);
    }
}

/// Revealing the outpoint and the blinding factor of a commitment that a
/// payment of a valid consignment goes to is always accepted: the reveal is
/// matched, the acceptance goes through, and the ledger then holds that
/// payment at the outpoint, with its amount unchanged.
pub proof fn lemma_reveal_is_accepted(
    asset_id: Seq<u8>,
    ledger: Seq<(SealKey, u64)>,
    contract_id: Seq<u8>,
    inputs: Seq<(Seq<u8>, u32)>,
    payments: Seq<(SealKey, u64)>,
    change: Seq<((Seq<u8>, u32), u64)>,
    i: int,
    reveal: (u64, Seq<u8>, u32),
)
    requires
        validation_verdict(asset_id, ledger, contract_id, inputs, payments, change, true) is Ok,
        0 <= i < payments.len(),
        payments[i].0 == concealed(reveal),
    ensures
        all_match(seq![reveal], payments),
        acceptance_verdict(asset_id, ledger, contract_id, inputs, payments, change, seq![reveal])
            is Ok,
        disclosed(payments, seq![reveal])[i] == (
            SealKey::Explicit(reveal.1, reveal.2),
            payments[i].1,
        ),
        ledger_after(ledger, inputs, payments, change, seq![reveal]).contains(
            (SealKey::Explicit(reveal.1, reveal.2), payments[i].1),
        ),
{
    let reveals = seq![reveal];
    assert(reveals[0] == reveal);
    assert forall|k: int| 0 <= k < reveals.len() implies has_key(
        payments,
        concealed(#[trigger] reveals[k]),
    ) by {
        assert(payments[i].0 == concealed(reveals[k]));
    }
    lemma_first_reveal(reveals, seal_commitment(reveal.0, reveal.1, reveal.2), 0);
    let after = ledger_after(ledger, inputs, payments, change, reveals);
    let at = unspent(ledger, inputs).len() + i;
    assert(after[at] == disclosed(payments, reveals)[i]);
}

/// A valid transfer conserves value: the payments and the change add up to
/// what the spent inputs held.
pub proof fn lemma_valid_transfer_conserves(
    asset_id: Seq<u8>,
    ledger: Seq<(SealKey, u64)>,
    contract_id: Seq<u8>,
    inputs: Seq<(Seq<u8>, u32)>,
    payments: Seq<(SealKey, u64)>,
    change: Seq<((Seq<u8>, u32), u64)>,
    anchored: bool,
)
    requires
        validation_verdict(asset_id, ledger, contract_id, inputs, payments, change, anchored)
            is Ok,
    ensures
        total(payments) + total(change) == spent_value(ledger, inputs),
{
}

/// A transfer whose payments and change do not add up to what the spent
/// inputs held is never valid.
pub proof fn lemma_imbalance_is_refused(
    asset_id: Seq<u8>,
    ledger: Seq<(SealKey, u64)>,
    contract_id: Seq<u8>,
    inputs: Seq<(Seq<u8>, u32)>,
    payments: Seq<(SealKey, u64)>,
    change: Seq<((Seq<u8>, u32), u64)>,
    anchored: bool,
)
    requires
        total(payments) + total(change) != spent_value(ledger, inputs),
    ensures
        validation_verdict(asset_id, ledger, contract_id, inputs, payments, change, anchored)
            is Err,
{
}

/// Tells whether no seal occurs twice among the allocations.
pub fn has_distinct_seals(list: &Vec<Allocation>) -> (r: bool)
    ensures
        r == distinct_keys(allocations_of(list@)),
{
    let ghost all = allocations_of(list@);
    let mut i: usize = 0;
    while i < list.len()
        invariant
            i <= list.len(),
            all == allocations_of(list@),
            forall|a: int, b: int| 0 <= a < b < i ==> (#[trigger] all[a]).0 != (#[trigger] all[b]).0,
        decreases list.len() - i,
    {
        let mut j: usize = 0;
        while j < i
            invariant
                j <= i < list.len(),
                all == allocations_of(list@),
                forall|a: int| 0 <= a < j ==> (#[trigger] all[a]).0 != all[i as int].0,
            decreases i - j,
        {
            if list[j].seal.same(&list[i].seal) {
                assert(all[j as int].0 == all[i as int].0);
                return false;
            }
            j = j + 1;
        }
        i = i + 1;
    }
    true
}

/// Tells whether no outpoint occurs twice among the allocations.
pub fn has_distinct_outpoints(list: &Vec<OutpointCoins>) -> (r: bool)
    ensures
        r == distinct_keys(coins_of(list@)),
{
    let ghost all = coins_of(list@);
    let mut i: usize = 0;
    while i < list.len()
        invariant
            i <= list.len(),
            all == coins_of(list@),
            forall|a: int, b: int| 0 <= a < b < i ==> (#[trigger] all[a]).0 != (#[trigger] all[b]).0,
        decreases list.len() - i,
    {
        let mut j: usize = 0;
        while j < i
            invariant
                j <= i < list.len(),
                all == coins_of(list@),
                forall|a: int| 0 <= a < j ==> (#[trigger] all[a]).0 != all[i as int].0,
            decreases i - j,
        {
            if list[j].outpoint.same(&list[i].outpoint) {
                assert(all[j as int].0 == all[i as int].0);
                return false;
            }
            j = j + 1;
        }
        i = i + 1;
    }
    true
}

/// Looks among the reveals for the first that conceals to `hash`.
pub fn find_reveal(reveals: &Vec<OutpointReveal>, hash: &OutpointHash) -> (r: Option<OutPoint>)
    ensures
        match r {
            Some(o) => revealed_outpoint(reveals_of(reveals@), hash@) == Some(o@),
            None => revealed_outpoint(reveals_of(reveals@), hash@) is None,
        },
{
    let ghost all = reveals_of(reveals@);
    let mut k: usize = 0;
    while k < reveals.len()
        invariant
            k <= reveals.len(),
            all == reveals_of(reveals@),
            forall|j: int|
                0 <= j < k ==> seal_commitment((#[trigger] all[j]).0, all[j].1, all[j].2) != hash@,
        decreases reveals.len() - k,
    {
        let commitment = reveals[k].conceal();
        assert(commitment@ == seal_commitment(all[k as int].0, all[k as int].1, all[k as int].2));
        if commitment.same(hash) {
            proof {
                lemma_first_reveal(all, hash@, k as int);
            }
            return Some(OutPoint { txid: reveals[k].txid, vout: reveals[k].vout });
        }
        k = k + 1;
    }
    proof {
        lemma_first_reveal(all, hash@, k as int);
    }
    None
}

/// The seal endpoints that a list holds, as mathematical values.
pub open spec fn endpoints_of(v: Seq<SealEndpoint>) -> Seq<SealKey> {
    Seq::new(v.len(), |i: int| v[i]@)
}

/// Whether every reveal conceals to one of the endpoints.
pub open spec fn all_committed(reveals: Seq<(u64, Seq<u8>, u32)>, endpoints: Seq<SealKey>) -> bool {
    forall|k: int| 0 <= k < reveals.len() ==> endpoints.contains(concealed(#[trigger] reveals[k]))
}

/// Reads the reveals that a recipient discloses from their JSON list.
pub fn read_reveals(text: &str) -> (r: Result<Vec<OutpointReveal>, RequestError>)
    ensures
        match r {
            Ok(v) => json_reveals(text@) == Some(reveals_of(v@)),
            Err(e) => e == RequestError::Json && json_reveals(text@) is None,
        },
{
    match reveals_from_json(text) {
        Ok(v) => Ok(v),
        Err(_) => Err(RequestError::Json),
    }
}

/// Holds the reveals against the seal endpoints of a consignment: each must
/// conceal to one of them. A reveal that conceals to none is a violation of
/// the protocol.
pub fn check_reveals(reveals: &Vec<OutpointReveal>, endpoints: &Vec<SealEndpoint>) -> (r: Result<
    (),
    RequestError,
>)
    ensures
        r is Ok <==> all_committed(reveals_of(reveals@), endpoints_of(endpoints@)),
        r matches Err(e) ==> e == RequestError::UnmatchedReveal,
{
    let ghost all = reveals_of(reveals@);
    let ghost ends = endpoints_of(endpoints@);
    let mut k: usize = 0;
    while k < reveals.len()
        invariant
            k <= reveals.len(),
            all == reveals_of(reveals@),
            ends == endpoints_of(endpoints@),
            forall|j: int| 0 <= j < k ==> ends.contains(concealed(#[trigger] all[j])),
        decreases reveals.len() - k,
    {
        let seal = SealEndpoint::Blinded(reveals[k].conceal());
        assert(seal@ == concealed(all[k as int]));
        let mut found = false;
        let mut i: usize = 0;
        while i < endpoints.len()
            invariant
                i <= endpoints.len(),
                ends == endpoints_of(endpoints@),
                found ==> ends.contains(seal@),
                !found ==> forall|j: int| 0 <= j < i ==> ends[j] != seal@,
            decreases endpoints.len() - i,
        {
            if endpoints[i].same(&seal) {
                assert(ends[i as int] == seal@);
                found = true;
            }
            i = i + 1;
        }
        if !found {
            return Err(RequestError::UnmatchedReveal);
        }
        k = k + 1;
    }
    Ok(())
}

/// Tells whether every reveal conceals to a seal that a payment goes to.
pub fn reveals_match(reveals: &Vec<OutpointReveal>, payments: &Vec<Allocation>) -> (r: bool)
    ensures
        r == all_match(reveals_of(reveals@), allocations_of(payments@)),
{
    let ghost all = reveals_of(reveals@);
    let mut k: usize = 0;
    while k < reveals.len()
        invariant
            k <= reveals.len(),
            all == reveals_of(reveals@),
            forall|j: int|
                0 <= j < k ==> has_key(allocations_of(payments@), concealed(#[trigger] all[j])),
        decreases reveals.len() - k,
    {
        let seal = SealEndpoint::Blinded(reveals[k].conceal());
        assert(seal@ == concealed(all[k as int]));
        if !pays_to(payments, &seal) {
            return false;
        }
        k = k + 1;
    }
    true
}

impl Consignment {
    /// What the consignment hands out: the payments and the change together.
    pub open spec fn assigned(&self) -> nat {
        total(allocations_of(self.payments@)) + total(coins_of(self.change@))
    }

    /// The verdict of validating the consignment against an asset.
    pub open spec fn verdict(&self, asset: &Asset, anchored: bool) -> Result<(), RequestError> {
        validation_verdict(
            asset.contract_id@,
            asset.ledger(),
            self.contract_id@,
            outpoints_of(self.inputs@),
            allocations_of(self.payments@),
            coins_of(self.change@),
            anchored,
        )
    }

    /// The verdict of accepting the consignment into an asset with the given
    /// reveals.
    pub open spec fn acceptance(&self, asset: &Asset, reveals: Seq<OutpointReveal>) -> Result<
        (),
        RequestError,
    > {
        acceptance_verdict(
            asset.contract_id@,
            asset.ledger(),
            self.contract_id@,
            outpoints_of(self.inputs@),
            allocations_of(self.payments@),
            coins_of(self.change@),
            reveals_of(reveals),
        )
    }

    /// The ledger of an asset once the consignment is accepted into it.
    pub open spec fn settled(&self, asset: &Asset, reveals: Seq<OutpointReveal>) -> Seq<
        (SealKey, u64),
    > {
        ledger_after(
            asset.ledger(),
            outpoints_of(self.inputs@),
            allocations_of(self.payments@),
            coins_of(self.change@),
            reveals_of(reveals),
        )
    }

    /// Puts a planned transfer together and holds it against the asset that
    /// it spends from. A transfer that does not stand is refused with the
    /// reason; none is returned in part.
    pub fn assemble(
        asset: &Asset,
        contract_id: ContractId,
        inputs: Vec<OutPoint>,
        plan: AllocationPlan,
    ) -> (r: Result<Consignment, RequestError>)
        ensures
            r matches Ok(c) ==> c.contract_id@ == contract_id@ && c.inputs@ == inputs@
                && c.payments@ == plan.payments@ && c.change@ == plan.change@ && c.verdict(
                asset,
                true,
            ) is Ok && c.assigned() == spent_value(asset.ledger(), outpoints_of(inputs@)),
            r matches Err(e) ==> validation_verdict(
                asset.contract_id@,
                asset.ledger(),
                contract_id@,
                outpoints_of(inputs@),
                allocations_of(plan.payments@),
                coins_of(plan.change@),
                true,
            ) == Err::<(), RequestError>(e),
    {
        let c = Consignment { contract_id, inputs, payments: plan.payments, change: plan.change };
        match c.validate(asset, true) {
            Ok(_) => Ok(c),
            Err(e) => Err(e),
        }
    }

    /// Validates the consignment against an asset. Nothing is changed.
    /// `anchored` says whether the ledger of the chain was found to carry the
    /// commitments of the consignment.
    pub fn validate(&self, asset: &Asset, anchored: bool) -> (r: Result<(), RequestError>)
        ensures
            r == self.verdict(asset, anchored),
    {
        if !has_distinct_seals(&self.payments) || !has_distinct_outpoints(&self.change) {
            return Err(RequestError::DuplicateSeal);
        }
        match asset.check_transfer(&self.contract_id, &self.inputs, &self.payments, &self.change) {
            Err(e) => Err(e),
            Ok(_) => if anchored {
                Ok(())
            } else {
                Err(RequestError::InvalidConsignment)
            },
        }
    }

    /// Computes the ledger of an asset once the consignment is accepted.
    pub fn settle(&self, asset: &Asset, reveals: &Vec<OutpointReveal>) -> (r: Vec<Allocation>)
        ensures
            allocations_of(r@) == self.settled(asset, reveals@),
    {
        let ghost ledger = asset.ledger();
        let ghost ins = outpoints_of(self.inputs@);
        let ghost pays = allocations_of(self.payments@);
        let ghost revs = reveals_of(reveals@);
        let ghost coins = coins_of(self.change@);
        let mut list: Vec<Allocation> = Vec::new();
        let mut i: usize = 0;
        assert(ledger.take(0) =~= Seq::<(SealKey, u64)>::empty());
        assert(allocations_of(list@) =~= Seq::<(SealKey, u64)>::empty());
        while i < asset.allocations.len()
            invariant
                i <= asset.allocations.len(),
                ledger == asset.ledger(),
                ins == outpoints_of(self.inputs@),
                allocations_of(list@) == unspent(ledger.take(i as int), ins),
            decreases asset.allocations.len() - i,
        {
            let ghost before = allocations_of(list@);
            proof {
                assert(ledger.take(i + 1).drop_last() =~= ledger.take(i as int));
                assert(ledger.take(i + 1).last() == ledger[i as int]);
            }
            if !spends(&self.inputs, &asset.allocations[i].seal) {
                list.push(asset.allocations[i]);
                assert(allocations_of(list@) =~= before.push(ledger[i as int]));
            }
            i = i + 1;
        }
        assert(ledger.take(i as int) =~= ledger);
        let ghost base = unspent(ledger, ins);
        let mut j: usize = 0;
        assert(allocations_of(list@) =~= base + disclosed(pays, revs).take(0));
        while j < self.payments.len()
            invariant
                j <= self.payments.len(),
                pays == allocations_of(self.payments@),
                revs == reveals_of(reveals@),
                allocations_of(list@) == base + disclosed(pays, revs).take(j as int),
            decreases self.payments.len() - j,
        {
            let ghost before = allocations_of(list@);
            let entry = self.payments[j];
            let seal = match entry.seal {
                SealEndpoint::Blinded(h) => match find_reveal(reveals, &h) {
                    Some(o) => SealEndpoint::Explicit(o),
                    None => entry.seal,
                },
                SealEndpoint::Explicit(_) => entry.seal,
            };
            let settled = Allocation { seal, amount: entry.amount };
            assert(settled@ == disclose(pays[j as int], revs));
            list.push(settled);
            assert(allocations_of(list@) =~= before.push(settled@));
            assert(base + disclosed(pays, revs).take(j + 1) =~= (base + disclosed(pays, revs).take(
                j as int,
            )).push(settled@));
            j = j + 1;
        }
        assert(disclosed(pays, revs).take(j as int) =~= disclosed(pays, revs));
        let ghost middle = base + disclosed(pays, revs);
        let mut k: usize = 0;
        assert(allocations_of(list@) =~= middle + in_the_open(coins).take(0));
        while k < self.change.len()
            invariant
                k <= self.change.len(),
                coins == coins_of(self.change@),
                allocations_of(list@) == middle + in_the_open(coins).take(k as int),
            decreases self.change.len() - k,
        {
            let ghost before = allocations_of(list@);
            let entry = self.change[k];
            let settled = Allocation {
                seal: SealEndpoint::Explicit(entry.outpoint),
                amount: entry.amount,
            };
            assert(settled@ == in_the_open(coins)[k as int]);
            list.push(settled);
            assert(allocations_of(list@) =~= before.push(settled@));
            assert(middle + in_the_open(coins).take(k + 1) =~= (middle + in_the_open(coins).take(
                k as int,
            )).push(settled@));
            k = k + 1;
        }
        assert(in_the_open(coins).take(k as int) =~= in_the_open(coins));
        list
    }
}

/// A consignment that was received, with the stage that it has reached.
#[derive(Clone, Debug, PartialEq, Eq)]
pub struct Delivery {
    consignment: Consignment,
    stage: Stage,
}

impl Delivery {
    /// The consignment that was delivered.
    pub closed spec fn content(&self) -> Consignment {
        self.consignment
    }

    /// The stage that the delivery has reached.
    pub closed spec fn reached(&self) -> Stage {
        self.stage
    }

    /// Takes in a consignment. It is received, and nothing more.
    pub fn receive(consignment: Consignment) -> (r: Delivery)
        ensures
            r.content() == consignment,
            r.reached() == Stage::Received,
    {
        Delivery { consignment, stage: Stage::Received }
    }

    /// The consignment that was delivered.
    pub fn consignment(&self) -> (r: &Consignment)
        ensures
            *r == self.content(),
    {
        &self.consignment
    }

    /// The stage that the delivery has reached.
    pub fn stage(&self) -> (r: Stage)
        ensures
            r == self.reached(),
    {
        self.stage
    }

    /// Validates a received consignment against the asset. The asset is not
    /// changed. A delivery at any other stage is left as it is.
    pub fn validate(&mut self, asset: &Asset, anchored: bool) -> (r: Result<(), RequestError>)
        ensures
            final(self).content() == old(self).content(),
            final(self).reached() == step(
                old(self).reached(),
                Event::Validation(old(self).content().verdict(asset, anchored)),
            ),
            old(self).reached() == Stage::Received ==> r == old(self).content().verdict(
                asset,
                anchored,
            ),
            old(self).reached() != Stage::Received ==> r == Err::<(), RequestError>(
                RequestError::WrongState,
            ) && final(self).reached() == old(self).reached(),
    {
        match self.stage {
            Stage::Received => {
                let verdict = self.consignment.validate(asset, anchored);
                match verdict {
                    Ok(_) => {
                        self.stage = Stage::Validated;
                    },
                    Err(e) => {
                        self.stage = Stage::Rejected(e);
                    },
                }
                verdict
            },
            _ => Err(RequestError::WrongState),
        }
    }

    /// Accepts a validated consignment into the asset, with the reveals of
    /// the blinded seals that the recipient discloses. Either all of it is
    /// accepted and the ledger is rewritten, or the asset stays as it was. A
    /// delivery that is not validated is never accepted, whatever the reveals.
    pub fn accept(&mut self, asset: &mut Asset, reveals: &Vec<OutpointReveal>) -> (r: Result<
        (),
        RequestError,
    >)
        ensures
            final(self).content() == old(self).content(),
            final(asset).contract_id == old(asset).contract_id,
            final(self).reached() == step(
                old(self).reached(),
                Event::Acceptance(old(self).content().acceptance(old(asset), reveals@)),
            ),
            old(self).reached() == Stage::Validated ==> r == old(self).content().acceptance(
                old(asset),
                reveals@,
            ),
            old(self).reached() != Stage::Validated ==> r == Err::<(), RequestError>(
                RequestError::WrongState,
            ) && final(self).reached() == old(self).reached(),
            r is Ok ==> old(self).reached() == Stage::Validated && final(self).reached()
                == Stage::Accepted,
            r is Ok ==> final(asset).ledger() == old(self).content().settled(old(asset), reveals@)
                && total(final(asset).ledger()) == total(old(asset).ledger()),
            r is Err ==> final(asset).allocations == old(asset).allocations,
    {
        match self.stage {
            Stage::Validated => {
                let verdict = match self.consignment.validate(asset, true) {
                    Err(e) => Err(e),
                    Ok(_) => if reveals_match(reveals, &self.consignment.payments) {
                        Ok(())
                    } else {
                        Err(RequestError::UnmatchedReveal)
                    },
                };
                match verdict {
                    Ok(_) => {
                        proof {
                            lemma_acceptance_conserves(
                                asset.contract_id@,
                                asset.ledger(),
                                self.consignment.contract_id@,
                                outpoints_of(self.consignment.inputs@),
                                allocations_of(self.consignment.payments@),
                                coins_of(self.consignment.change@),
                                reveals_of(reveals@),
                            );
                        }
                        let ledger = self.consignment.settle(asset, reveals);
                        asset.allocations = ledger;
                        self.stage = Stage::Accepted;
                    },
                    Err(e) => {
                        self.stage = Stage::Rejected(e);
                    },
                }
                verdict
            },
            _ => Err(RequestError::WrongState),
        }
    }
}

} // verus!
