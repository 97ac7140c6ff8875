//! The ledger of an asset: the allocations that its seals hold, and the value
//! that a set of inputs spends.

use crate::error::RequestError;
use crate::planner::{
    balances, coins_of, has_key, lemma_total_bound, lemma_total_push, allocations_of, total,
    Allocation, AllocationPlan, OutpointCoins,
};
use crate::seal::{ContractId, OutPoint, SealEndpoint, SealKey};
use vstd::prelude::*;

verus! {

/// An asset as its holder sees it: the contract and the allocations that are
/// known of it.
#[derive(Clone, Debug, PartialEq, Eq)]
pub struct Asset {
    pub contract_id: ContractId,
    pub allocations: Vec<Allocation>,
}

/// The outpoints that a list holds, as mathematical values.
pub open spec fn outpoints_of(v: Seq<OutPoint>) -> Seq<(Seq<u8>, u32)> {
    Seq::new(v.len(), |i: int| v[i]@)
}

/// Whether a seal is an outpoint in the open that is among `inputs`.
pub open spec fn is_spent(key: SealKey, inputs: Seq<(Seq<u8>, u32)>) -> bool {
    match key {
        SealKey::Explicit(txid, vout) => inputs.contains((txid, vout)),
        SealKey::Blinded(_) => false,
    }
}

/// The value that `inputs` spend: the sum of the allocations of the ledger
/// that are bound to one of them.
pub open spec fn spent_value(ledger: Seq<(SealKey, u64)>, inputs: Seq<(Seq<u8>, u32)>) -> nat
    decreases ledger.len(),
{
    if ledger.len() == 0 {
        0
    } else {
        spent_value(ledger.drop_last(), inputs) + if is_spent(ledger.last().0, inputs) {
            ledger.last().1 as nat
        } else {
            0
        }
    }
}

/// What is left of a ledger once `inputs` are spent: the allocations that are
/// bound to none of them, in their order.
pub open spec fn unspent(ledger: Seq<(SealKey, u64)>, inputs: Seq<(Seq<u8>, u32)>) -> Seq<
    (SealKey, u64),
>
    decreases ledger.len(),
{
    if ledger.len() == 0 {
        Seq::empty()
    } else if is_spent(ledger.last().0, inputs) {
        unspent(ledger.drop_last(), inputs)
    } else {
        unspent(ledger.drop_last(), inputs).push(ledger.last())
    }
}

/// Whether every one of `inputs` holds an allocation of the ledger.
pub open spec fn all_held(ledger: Seq<(SealKey, u64)>, inputs: Seq<(Seq<u8>, u32)>) -> bool {
    forall|i: int|
        0 <= i < inputs.len() ==> has_key(
            ledger,
            SealKey::Explicit((#[trigger] inputs[i]).0, inputs[i].1),
        )
}

/// Whether a transfer of the contract `contract_id` that spends `inputs`
/// and hands out `assigned` stands against the asset, and if not, why not:
/// the contract must be that of the asset, every input must hold an
/// allocation, and the inputs must hold exactly what is handed out.
pub open spec fn transfer_verdict(
    asset_id: Seq<u8>,
    ledger: Seq<(SealKey, u64)>,
    contract_id: Seq<u8>,
    inputs: Seq<(Seq<u8>, u32)>,
    assigned: nat,
) -> Result<(), RequestError> {
    if contract_id != asset_id {
        Err(RequestError::UnknownContract)
    } else if !all_held(ledger, inputs) {
        Err(RequestError::ForeignInput)
    } else if spent_value(ledger, inputs) != assigned {
        Err(RequestError::ConservationMismatch)
    } else {
        Ok(())
    }
}

/// What is spent and what is left make up the ledger.
pub proof fn lemma_spent_and_unspent(ledger: Seq<(SealKey, u64)>, inputs: Seq<(Seq<u8>, u32)>)
    ensures
        spent_value(ledger, inputs) + total(unspent(ledger, inputs)) == total(ledger),
    decreases ledger.len(),
{
    if ledger.len() > 0 {
        lemma_spent_and_unspent(ledger.drop_last(), inputs);
        if !is_spent(ledger.last().0, inputs) {
            lemma_total_push(unspent(ledger.drop_last(), inputs), ledger.last());
        }
    }
}

/// No more can be spent than the ledger holds.
pub proof fn lemma_spent_bound(ledger: Seq<(SealKey, u64)>, inputs: Seq<(Seq<u8>, u32)>)
    ensures
        spent_value(ledger, inputs) <= total(ledger),
{
    lemma_spent_and_unspent(ledger, inputs);
}

/// Tells whether `outpoint` is among `inputs`.
pub fn lists(inputs: &Vec<OutPoint>, outpoint: &OutPoint) -> (r: bool)
    ensures
        r == outpoints_of(inputs@).contains(outpoint@),
{
    let mut i: usize = 0;
    while i < inputs.len()
        invariant
            i <= inputs.len(),
            forall|j: int| 0 <= j < i ==> outpoints_of(inputs@)[j] != outpoint@,
        decreases inputs.len() - i,
    {
        if inputs[i].same(outpoint) {
            assert(outpoints_of(inputs@)[i as int] == outpoint@);
            return true;
        }
        i = i + 1;
    }
    false
}

/// Tells whether a seal is an outpoint in the open that is among `inputs`.
pub fn spends(inputs: &Vec<OutPoint>, seal: &SealEndpoint) -> (r: bool)
    ensures
        r == is_spent(seal@, outpoints_of(inputs@)),
{
    match seal {
        SealEndpoint::Explicit(o) => lists(inputs, o),
        SealEndpoint::Blinded(_) => false,
    }
}

impl Asset {
    /// The ledger as a mathematical list.
    pub open spec fn ledger(&self) -> Seq<(SealKey, u64)> {
        allocations_of(self.allocations@)
    }

    /// An asset as issued: the contract with its first allocations, each
    /// bound to an outpoint in the open.
    pub fn issued(contract_id: ContractId, allocations: &Vec<OutpointCoins>) -> (r: Asset)
        ensures
            r.contract_id@ == contract_id@,
            r.ledger() == in_the_open(coins_of(allocations@)),
    {
        let list = opened(allocations);
        Asset { contract_id, allocations: list }
    }

    /// Tells whether every one of `inputs` holds an allocation of the asset.
    pub fn holds_all(&self, inputs: &Vec<OutPoint>) -> (r: bool)
        ensures
            r == all_held(self.ledger(), outpoints_of(inputs@)),
    {
        let ghost ins = outpoints_of(inputs@);
        let mut i: usize = 0;
        while i < inputs.len()
            invariant
                i <= inputs.len(),
                ins == outpoints_of(inputs@),
                forall|j: int|
                    0 <= j < i ==> has_key(
                        self.ledger(),
                        SealKey::Explicit((#[trigger] ins[j]).0, ins[j].1),
                    ),
            decreases inputs.len() - i,
        {
            let seal = SealEndpoint::Explicit(inputs[i]);
            assert(seal@ == SealKey::Explicit(ins[i as int].0, ins[i as int].1));
            if !crate::planner::pays_to(&self.allocations, &seal) {
                return false;
            }
            i = i + 1;
        }
        true
    }

    /// Adds up what `inputs` spend of the asset.
    pub fn spent_by(&self, inputs: &Vec<OutPoint>) -> (r: u128)
        ensures
            r == spent_value(self.ledger(), outpoints_of(inputs@)),
    {
        let ghost all = self.ledger();
        let ghost ins = outpoints_of(inputs@);
        let mut acc: u128 = 0;
        let mut i: usize = 0;
        assert(all.take(0) =~= Seq::<(SealKey, u64)>::empty());
        while i < self.allocations.len()
            invariant
                i <= self.allocations.len(),
                all == self.ledger(),
                ins == outpoints_of(inputs@),
                acc == spent_value(all.take(i as int), ins),
            decreases self.allocations.len() - i,
        {
            proof {
                lemma_spent_bound(all.take(i as int), ins);
                lemma_total_bound(all.take(i as int));
                assert(i * u64::MAX + u64::MAX <= u128::MAX) by (nonlinear_arith)
                    requires
                        i <= u64::MAX,
                ;
                assert(all.take(i + 1).drop_last() =~= all.take(i as int));
                assert(all.take(i + 1).last() == all[i as int]);
            }
            if spends(inputs, &self.allocations[i].seal) {
                acc = acc + self.allocations[i].amount as u128;
            }
            i = i + 1;
        }
        assert(all.take(i as int) =~= all);
        acc
    }

    /// Holds a transfer against the asset: the contract must be that of the
    /// asset, every input must hold an allocation of it, and the inputs must
    /// hold exactly what the payments and the change add up to. Nothing is
    /// rounded or cut to make the two sides meet.
    pub fn check_transfer(
        &self,
        contract_id: &ContractId,
        inputs: &Vec<OutPoint>,
        payments: &Vec<Allocation>,
        change: &Vec<OutpointCoins>,
    ) -> (r: Result<(), RequestError>)
        ensures
            r == transfer_verdict(
                self.contract_id@,
                self.ledger(),
                contract_id@,
                outpoints_of(inputs@),
                total(allocations_of(payments@)) + total(coins_of(change@)),
            ),
            r is Ok ==> spent_value(self.ledger(), outpoints_of(inputs@)) == total(
                allocations_of(payments@),
            ) + total(coins_of(change@)),
    {
        if !self.contract_id.same(contract_id) {
            return Err(RequestError::UnknownContract);
        }
        if !self.holds_all(inputs) {
            return Err(RequestError::ForeignInput);
        }
        let spent: u128 = self.spent_by(inputs);
        if !balances(spent, payments, change) {
            return Err(RequestError::ConservationMismatch);
        }
        Ok(())
    }

    /// Holds a plan against the asset, as `check_transfer` does.
    pub fn check_conservation(
        &self,
        contract_id: &ContractId,
        inputs: &Vec<OutPoint>,
        plan: &AllocationPlan,
    ) -> (r: Result<(), RequestError>)
        ensures
            r == transfer_verdict(
                self.contract_id@,
                self.ledger(),
                contract_id@,
                outpoints_of(inputs@),
                plan.assigned(),
            ),
            r is Ok ==> spent_value(self.ledger(), outpoints_of(inputs@)) == plan.assigned(),
    {
        self.check_transfer(contract_id, inputs, &plan.payments, &plan.change)
    }
}

/// Allocations bound to outpoints, as allocations to seals in the open.
pub open spec fn in_the_open(coins: Seq<((Seq<u8>, u32), u64)>) -> Seq<(SealKey, u64)> {
    Seq::new(coins.len(), |i: int| (SealKey::Explicit(coins[i].0.0, coins[i].0.1), coins[i].1))
}

/// Both ways of writing allocations at outpoints add up to the same.
pub proof fn lemma_total_in_the_open(coins: Seq<((Seq<u8>, u32), u64)>)
    ensures
        total(in_the_open(coins)) == total(coins),
    decreases coins.len(),
{
    if coins.len() > 0 {
        lemma_total_in_the_open(coins.drop_last());
        assert(in_the_open(coins).drop_last() =~= in_the_open(coins.drop_last()));
    }
}

/// Writes allocations bound to outpoints as allocations to seals in the open.
pub fn opened(coins: &Vec<OutpointCoins>) -> (r: Vec<Allocation>)
    ensures
        allocations_of(r@) == in_the_open(coins_of(coins@)),
{
    let mut list: Vec<Allocation> = Vec::new();
    let mut i: usize = 0;
    while i < coins.len()
        invariant
            i <= coins.len(),
            list@.len() == i,
            forall|j: int|
                0 <= j < i ==> (#[trigger] list@[j])@ == in_the_open(coins_of(coins@))[j],
        decreases coins.len() - i,
    {
        list.push(
            Allocation { seal: SealEndpoint::Explicit(coins[i].outpoint), amount: coins[i].amount },
        );
        i = i + 1;
    }
    assert(allocations_of(list@) =~= in_the_open(coins_of(coins@)));
    list
}

} // verus!
