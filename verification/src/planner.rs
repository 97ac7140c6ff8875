//! Allocation planning: payment obligations and change destinations are read
//! from their textual records into two lists of allocations, each keyed by a
//! seal that occurs once, and held against the value of the spent inputs.

use crate::error::RequestError;
use crate::ledger::{all_held, outpoints_of, spent_value, Asset};
use crate::seal::ContractId;
use crate::seal::{
    lemma_seal_text, outpoint_of_text, read_seal_endpoint, seal_reads_back, text_of_outpoint,
    text_of_seal_endpoint, OutPoint, SealEndpoint, SealKey,
};
use crate::text::{
    amount_of_text, digits_of, format_amount, lemma_amount_round_trip, lemma_digits_are_free,
    lemma_digits_round_trip, lemma_pair_joined, pair_of_text, parse_amount, split_pair,
};
use vstd::prelude::*;
use vstd::string::*;

verus! {

/// An amount of the asset bound to a seal: a payment to a seal endpoint, or
/// what a seal holds in the ledger of an asset.
#[derive(Clone, Copy, Debug, PartialEq, Eq)]
pub struct Allocation {
    pub seal: SealEndpoint,
    pub amount: u64,
}

/// An amount bound to an outpoint: change that returns to the sender, or an
/// allocation that an input holds.
#[derive(Clone, Copy, Debug, PartialEq, Eq)]
pub struct OutpointCoins {
    pub outpoint: OutPoint,
    pub amount: u64,
}

impl View for Allocation {
    type V = (SealKey, u64);

    open spec fn view(&self) -> (SealKey, u64) {
        (self.seal@, self.amount)
    }
}

impl View for OutpointCoins {
    type V = ((Seq<u8>, u32), u64);

    open spec fn view(&self) -> ((Seq<u8>, u32), u64) {
        (self.outpoint@, self.amount)
    }
}

/// The payments and the change of one transfer.
#[derive(Clone, Debug, PartialEq, Eq)]
pub struct AllocationPlan {
    pub payments: Vec<Allocation>,
    pub change: Vec<OutpointCoins>,
}

/// The texts that a list of strings holds.
pub open spec fn texts_of(v: Seq<String>) -> Seq<Seq<char>> {
    Seq::new(v.len(), |i: int| v[i]@)
}

/// The allocations that a list holds, as mathematical values.
pub open spec fn allocations_of(v: Seq<Allocation>) -> Seq<(SealKey, u64)> {
    Seq::new(v.len(), |i: int| v[i]@)
}

/// The allocations that a list holds, as mathematical values.
pub open spec fn coins_of(v: Seq<OutpointCoins>) -> Seq<((Seq<u8>, u32), u64)> {
    Seq::new(v.len(), |i: int| v[i]@)
}

/// Whether an entry of `s` has the key `k`.
pub open spec fn has_key<K, V>(s: Seq<(K, V)>, k: K) -> bool {
    exists|j: int| 0 <= j < s.len() && (#[trigger] s[j]).0 == k
}

/// Whether no key occurs twice in `s`.
pub open spec fn distinct_keys<K, V>(s: Seq<(K, V)>) -> bool {
    forall|i: int, j: int|
        0 <= i < j < s.len() ==> (#[trigger] s[i]).0 != (#[trigger] s[j]).0
}

/// The sum of the amounts of `s`.
pub open spec fn total<K>(s: Seq<(K, u64)>) -> nat
    decreases s.len(),
{
    if s.len() == 0 {
        0
    } else {
        total(s.drop_last()) + s.last().1 as nat
    }
}

/// What a payment entry `<amount>@<seal>` denotes. An entry that is not one
/// amount and one seal joined by a single `@` is malformed input; then the
/// amount and the seal are read in this order.
pub open spec fn read_payment(s: Seq<char>) -> Result<(SealKey, u64), RequestError> {
    match pair_of_text(s, '@') {
        None => Err(RequestError::Input),
        Some((a, e)) => match amount_of_text(a) {
            None => Err(RequestError::ParseInt),
            Some(amount) => match read_seal_endpoint(e) {
                Err(x) => Err(x),
                Ok(seal) => Ok((seal, amount)),
            },
        },
    }
}

/// What a change entry `<outpoint>@<amount>` denotes. Whatever is wrong with
/// an entry, it fails as an outpoint.
pub open spec fn read_change(s: Seq<char>) -> Result<((Seq<u8>, u32), u64), RequestError> {
    match pair_of_text(s, '@') {
        None => Err(RequestError::Outpoint),
        Some((o, a)) => match (outpoint_of_text(o), amount_of_text(a)) {
            (Some(outpoint), Some(amount)) => Ok((outpoint, amount)),
            _ => Err(RequestError::Outpoint),
        },
    }
}

/// The entry `<amount>@<seal>` of a payment.
pub open spec fn payment_text(p: (SealKey, u64)) -> Seq<char> {
    digits_of(p.1 as nat) + seq!['@'] + text_of_seal_endpoint(p.0)
}

/// The entry `<outpoint>@<amount>` of a change allocation.
pub open spec fn change_text(c: ((Seq<u8>, u32), u64)) -> Seq<char> {
    text_of_outpoint(c.0.0, c.0.1) + seq!['@'] + digits_of(c.1 as nat)
}

/// What a list of entries denotes, each read by `read`. The entries are taken
/// in order. The first that cannot be read, or that names a seal which an
/// earlier entry names, decides the error: amounts for one seal are never
/// merged.
pub open spec fn read_entries<K, V>(
    items: Seq<Seq<char>>,
    read: spec_fn(Seq<char>) -> Result<(K, V), RequestError>,
) -> Result<Seq<(K, V)>, RequestError>
    decreases items.len(),
{
    if items.len() == 0 {
        Ok(Seq::empty())
    } else {
        match read_entries(items.drop_last(), read) {
            Err(e) => Err(e),
            Ok(before) => match read(items.last()) {
                Err(e) => Err(e),
                Ok(entry) => if has_key(before, entry.0) {
                    Err(RequestError::DuplicateSeal)
                } else {
                    Ok(before.push(entry))
                },
            },
        }
    }
}

/// What a list of payment entries denotes.
pub open spec fn read_payments(items: Seq<Seq<char>>) -> Result<
    Seq<(SealKey, u64)>,
    RequestError,
> {
    read_entries(items, |s: Seq<char>| read_payment(s))
}

/// What a list of change entries denotes.
pub open spec fn read_changes(items: Seq<Seq<char>>) -> Result<
    Seq<((Seq<u8>, u32), u64)>,
    RequestError,
> {
    read_entries(items, |s: Seq<char>| read_change(s))
}

/// What planning yields: the payments are read first, then the change.
pub open spec fn read_plan(payments: Seq<Seq<char>>, change: Seq<Seq<char>>) -> Result<
    (Seq<(SealKey, u64)>, Seq<((Seq<u8>, u32), u64)>),
    RequestError,
> {
    match read_payments(payments) {
        Err(e) => Err(e),
        Ok(p) => match read_changes(change) {
            Err(e) => Err(e),
            Ok(c) => Ok((p, c)),
        },
    }
}

/// A list that fails after its first `k` entries fails as a whole, with the
/// same error.
pub proof fn lemma_failure_stays<K, V>(
    items: Seq<Seq<char>>,
    read: spec_fn(Seq<char>) -> Result<(K, V), RequestError>,
    k: int,
)
    requires
        0 <= k <= items.len(),
        read_entries(items.take(k), read) is Err,
    ensures
        read_entries(items, read) == read_entries(items.take(k), read),
    decreases items.len() - k,
{
    if k == items.len() {
        assert(items.take(k) =~= items);
    } else {
        assert(items.take(k + 1).drop_last() =~= items.take(k));
        lemma_failure_stays(items, read, k + 1);
    }
}

/// A list that was read holds one entry for each text, in the order of the
/// texts, each as it was read, and no key twice.
pub proof fn lemma_entries_read<K, V>(
    items: Seq<Seq<char>>,
    read: spec_fn(Seq<char>) -> Result<(K, V), RequestError>,
)
    requires
        read_entries(items, read) is Ok,
    ensures
        read_entries(items, read)->Ok_0.len() == items.len(),
        forall|i: int|
            0 <= i < items.len() ==> read(items[i]) == Ok::<(K, V), RequestError>(
                #[trigger] read_entries(items, read)->Ok_0[i],
            ),
        distinct_keys(read_entries(items, read)->Ok_0),
    decreases items.len(),
{
    if items.len() > 0 {
        let front = items.drop_last();
        lemma_entries_read(front, read);
        let before = read_entries(front, read)->Ok_0;
        let all = read_entries(items, read)->Ok_0;
        assert(all == before.push(read(items.last())->Ok_0));
        assert forall|i: int| 0 <= i < items.len() implies read(items[i]) == Ok::<
            (K, V),
            RequestError,
        >(#[trigger] all[i]) by {
            if i < front.len() {
                assert(items[i] == front[i]);
                assert(all[i] == before[i]);
            }
        }
        assert forall|i: int, j: int| 0 <= i < j < all.len() implies (#[trigger] all[i]).0 != (
        #[trigger] all[j]).0 by {
            if j < before.len() {
                assert(all[i] == before[i]);
                assert(all[j] == before[j]);
            } else {
                assert(all[i] == before[i]);
                assert(!has_key(before, all[j].0));
            }
        }
    }
}

/// A list in which two entries name the same seal is never read: it fails,
/// and the two amounts are not merged.
pub proof fn lemma_duplicate_seal_fails<K, V>(
    items: Seq<Seq<char>>,
    read: spec_fn(Seq<char>) -> Result<(K, V), RequestError>,
    i: int,
    j: int,
)
    requires
        0 <= i < j < items.len(),
        read(items[i]) is Ok,
        read(items[j]) is Ok,
        read(items[i])->Ok_0.0 == read(items[j])->Ok_0.0,
    ensures
        read_entries(items, read) is Err,
{
    if read_entries(items, read) is Ok {
        lemma_entries_read(items, read);
        let all = read_entries(items, read)->Ok_0;
        assert(all[i].0 != all[j].0);
    }
}

/// A payment list in which two entries name the same seal fails.
pub proof fn lemma_duplicate_payment_fails(items: Seq<Seq<char>>, i: int, j: int)
    requires
        0 <= i < j < items.len(),
        read_payment(items[i]) is Ok,
        read_payment(items[j]) is Ok,
        read_payment(items[i])->Ok_0.0 == read_payment(items[j])->Ok_0.0,
    ensures
        read_payments(items) is Err,
        forall|change: Seq<Seq<char>>| read_plan(items, change) is Err,
{
    lemma_duplicate_seal_fails(items, |s: Seq<char>| read_payment(s), i, j);
}

/// A change list in which two entries name the same outpoint fails.
pub proof fn lemma_duplicate_change_fails(items: Seq<Seq<char>>, i: int, j: int)
    requires
        0 <= i < j < items.len(),
        read_change(items[i]) is Ok,
        read_change(items[j]) is Ok,
        read_change(items[i])->Ok_0.0 == read_change(items[j])->Ok_0.0,
    ensures
        read_changes(items) is Err,
        forall|payments: Seq<Seq<char>>| read_plan(payments, items) is Err,
{
    lemma_duplicate_seal_fails(items, |s: Seq<char>| read_change(s), i, j);
}

/// The total of a list grows by the amount of an entry that is added.
pub proof fn lemma_total_push<K>(s: Seq<(K, u64)>, entry: (K, u64))
    ensures
        total(s.push(entry)) == total(s) + entry.1,
{
    assert(s.push(entry).drop_last() =~= s);
}

/// No total exceeds what as many 64-bit amounts can add up to.
pub proof fn lemma_total_bound<K>(s: Seq<(K, u64)>)
    ensures
        total(s) <= s.len() * u64::MAX,
    decreases s.len(),
{
    if s.len() > 0 {
        lemma_total_bound(s.drop_last());
        assert((s.len() - 1) * u64::MAX + u64::MAX == s.len() * u64::MAX) by (nonlinear_arith);
    }
}

/// Reads one payment entry of the form `<amount>@<seal>`.
pub fn parse_payment(item: &str) -> (r: Result<Allocation, RequestError>)
    ensures
        r matches Ok(p) ==> read_payment(item@) == Ok::<(SealKey, u64), RequestError>(p@),
        r matches Err(e) ==> read_payment(item@) == Err::<(SealKey, u64), RequestError>(e),
{
    let (a, e) = match split_pair(item, '@') {
        Some(p) => p,
        None => {
            return Err(RequestError::Input);
        },
    };
    let amount = match parse_amount(a) {
        Some(v) => v,
        None => {
            return Err(RequestError::ParseInt);
        },
    };
    match SealEndpoint::read(e) {
        Ok(seal) => Ok(Allocation { seal, amount }),
        Err(x) => Err(x),
    }
}

/// Reads one change entry of the form `<outpoint>@<amount>`.
pub fn parse_change(item: &str) -> (r: Result<OutpointCoins, RequestError>)
    ensures
        r matches Ok(c) ==> read_change(item@) == Ok::<((Seq<u8>, u32), u64), RequestError>(c@),
        r matches Err(e) ==> read_change(item@) == Err::<((Seq<u8>, u32), u64), RequestError>(e),
{
    let (o, a) = match split_pair(item, '@') {
        Some(p) => p,
        None => {
            return Err(RequestError::Outpoint);
        },
    };
    let outpoint = match OutPoint::from_text(o) {
        Some(v) => v,
        None => {
            return Err(RequestError::Outpoint);
        },
    };
    match parse_amount(a) {
        Some(amount) => Ok(OutpointCoins { outpoint, amount }),
        None => Err(RequestError::Outpoint),
    }
}

/// Reading is the inverse of writing: the entry of a payment reads back as
/// that payment.
pub proof fn lemma_payment_round_trip(p: (SealKey, u64))
    requires
        seal_reads_back(p.0),
    ensures
        read_payment(payment_text(p)) == Ok::<(SealKey, u64), RequestError>(p),
{
    let a = digits_of(p.1 as nat);
    lemma_digits_round_trip(p.1 as nat);
    lemma_digits_are_free(a);
    lemma_amount_round_trip(p.1);
    lemma_seal_text(p.0);
    lemma_pair_joined(a, '@', text_of_seal_endpoint(p.0));
}

/// Reading is the inverse of writing: the entry of a change allocation reads
/// back as that allocation.
pub proof fn lemma_change_round_trip(c: ((Seq<u8>, u32), u64))
    requires
        seal_reads_back(SealKey::Explicit(c.0.0, c.0.1)),
    ensures
        read_change(change_text(c)) == Ok::<((Seq<u8>, u32), u64), RequestError>(c),
{
    let a = digits_of(c.1 as nat);
    lemma_digits_round_trip(c.1 as nat);
    lemma_digits_are_free(a);
    lemma_amount_round_trip(c.1);
    lemma_seal_text(SealKey::Explicit(c.0.0, c.0.1));
    lemma_pair_joined(text_of_outpoint(c.0.0, c.0.1), '@', a);
}

impl Allocation {
    /// Writes the allocation as a payment entry `<amount>@<seal>`. Reading
    /// the entry yields the allocation again.
    pub fn to_entry(&self) -> (r: String)
        ensures
            r@ == payment_text(self@),
            read_payment(r@) == Ok::<(SealKey, u64), RequestError>(self@),
    {
        let a = format_amount(self.amount);
        let e = self.seal.to_text();
        proof {
            reveal_strlit("@");
            lemma_payment_round_trip(self@);
        }
        assert("@"@ =~= seq!['@']);
        let mut r = a;
        r.append("@");
        r.append(e.as_str());
        r
    }
}

impl OutpointCoins {
    /// Writes the allocation as a change entry `<outpoint>@<amount>`.
    /// Reading the entry yields the allocation again.
    pub fn to_entry(&self) -> (r: String)
        ensures
            r@ == change_text(self@),
            read_change(r@) == Ok::<((Seq<u8>, u32), u64), RequestError>(self@),
    {
        let o = self.outpoint.to_text();
        let a = format_amount(self.amount);
        proof {
            reveal_strlit("@");
            lemma_change_round_trip(self@);
        }
        assert("@"@ =~= seq!['@']);
        let mut r = o;
        r.append("@");
        r.append(a.as_str());
        r
    }
}

/// Tells whether a payment of the list goes to `seal`.
pub fn pays_to(list: &Vec<Allocation>, seal: &SealEndpoint) -> (r: bool)
    ensures
        r == has_key(allocations_of(list@), seal@),
{
    let mut i: usize = 0;
    while i < list.len()
        invariant
            i <= list.len(),
            forall|j: int| 0 <= j < i ==> (#[trigger] allocations_of(list@)[j]).0 != seal@,
        decreases list.len() - i,
    {
        if list[i].seal.same(seal) {
            assert(allocations_of(list@)[i as int].0 == seal@);
            return true;
        }
        i = i + 1;
    }
    false
}

/// Tells whether an allocation of the list is bound to `outpoint`.
pub fn binds(list: &Vec<OutpointCoins>, outpoint: &OutPoint) -> (r: bool)
    ensures
        r == has_key(coins_of(list@), outpoint@),
{
    let mut i: usize = 0;
    while i < list.len()
        invariant
            i <= list.len(),
            forall|j: int| 0 <= j < i ==> (#[trigger] coins_of(list@)[j]).0 != outpoint@,
        decreases list.len() - i,
    {
        if list[i].outpoint.same(outpoint) {
            assert(coins_of(list@)[i as int].0 == outpoint@);
            return true;
        }
        i = i + 1;
    }
    false
}

/// Reads a list of payment entries into payments with distinct seals.
pub fn plan_payments(items: &Vec<String>) -> (r: Result<Vec<Allocation>, RequestError>)
    ensures
        r matches Ok(list) ==> read_payments(texts_of(items@)) == Ok::<
            Seq<(SealKey, u64)>,
            RequestError,
        >(allocations_of(list@)),
        r matches Err(e) ==> read_payments(texts_of(items@)) == Err::<
            Seq<(SealKey, u64)>,
            RequestError,
        >(e),
{
    let ghost texts = texts_of(items@);
    let ghost read = |s: Seq<char>| read_payment(s);
    let mut list: Vec<Allocation> = Vec::new();
    let mut i: usize = 0;
    assert(texts.take(0) =~= Seq::<Seq<char>>::empty());
    assert(allocations_of(list@) =~= Seq::<(SealKey, u64)>::empty());
    while i < items.len()
        invariant
            i <= items.len(),
            texts == texts_of(items@),
            read == (|s: Seq<char>| read_payment(s)),
            read_entries(texts.take(i as int), read) == Ok::<Seq<(SealKey, u64)>, RequestError>(
                allocations_of(list@),
            ),
        decreases items.len() - i,
    {
        let ghost before = allocations_of(list@);
        proof {
            assert(texts.take(i + 1).drop_last() =~= texts.take(i as int));
            assert(texts.take(i + 1).last() == items@[i as int]@);
        }
        let entry = match parse_payment(items[i].as_str()) {
            Ok(p) => p,
            Err(e) => {
                proof {
                    lemma_failure_stays(texts, read, i + 1);
                }
                return Err(e);
            },
        };
        if pays_to(&list, &entry.seal) {
            proof {
                lemma_failure_stays(texts, read, i + 1);
            }
            return Err(RequestError::DuplicateSeal);
        }
        list.push(entry);
        assert(allocations_of(list@) =~= before.push(entry@));
        i = i + 1;
    }
    assert(texts.take(i as int) =~= texts);
    Ok(list)
}

/// Reads a list of change entries into allocations with distinct outpoints.
pub fn plan_change(items: &Vec<String>) -> (r: Result<Vec<OutpointCoins>, RequestError>)
    ensures
        r matches Ok(list) ==> read_changes(texts_of(items@)) == Ok::<
            Seq<((Seq<u8>, u32), u64)>,
            RequestError,
        >(coins_of(list@)),
        r matches Err(e) ==> read_changes(texts_of(items@)) == Err::<
            Seq<((Seq<u8>, u32), u64)>,
            RequestError,
        >(e),
{
    let ghost texts = texts_of(items@);
    let ghost read = |s: Seq<char>| read_change(s);
    let mut list: Vec<OutpointCoins> = Vec::new();
    let mut i: usize = 0;
    assert(texts.take(0) =~= Seq::<Seq<char>>::empty());
    assert(coins_of(list@) =~= Seq::<((Seq<u8>, u32), u64)>::empty());
    while i < items.len()
        invariant
            i <= items.len(),
            texts == texts_of(items@),
            read == (|s: Seq<char>| read_change(s)),
            read_entries(texts.take(i as int), read) == Ok::<
                Seq<((Seq<u8>, u32), u64)>,
                RequestError,
            >(coins_of(list@)),
        decreases items.len() - i,
    {
        let ghost before = coins_of(list@);
        proof {
            assert(texts.take(i + 1).drop_last() =~= texts.take(i as int));
            assert(texts.take(i + 1).last() == items@[i as int]@);
        }
        let entry = match parse_change(items[i].as_str()) {
            Ok(c) => c,
            Err(e) => {
                proof {
                    lemma_failure_stays(texts, read, i + 1);
                }
                return Err(e);
            },
        };
        if binds(&list, &entry.outpoint) {
            proof {
                lemma_failure_stays(texts, read, i + 1);
            }
            return Err(RequestError::DuplicateSeal);
        }
        list.push(entry);
        assert(coins_of(list@) =~= before.push(entry@));
        i = i + 1;
    }
    assert(texts.take(i as int) =~= texts);
    Ok(list)
}

/// Adds up the amounts of a list of allocations.
pub fn sum_allocations(list: &Vec<Allocation>) -> (r: u128)
    ensures
        r == total(allocations_of(list@)),
{
    let ghost all = allocations_of(list@);
    let mut acc: u128 = 0;
    let mut i: usize = 0;
    assert(all.take(0) =~= Seq::<(SealKey, u64)>::empty());
    while i < list.len()
        invariant
            i <= list.len(),
            all == allocations_of(list@),
            acc == total(all.take(i as int)),
        decreases list.len() - i,
    {
        proof {
            lemma_total_bound(all.take(i as int));
            assert(i * u64::MAX + u64::MAX <= u128::MAX) by (nonlinear_arith)
                requires
                    i <= u64::MAX,
            ;
            assert(all.take(i + 1) =~= all.take(i as int).push(all[i as int]));
            lemma_total_push(all.take(i as int), all[i as int]);
        }
        acc = acc + list[i].amount as u128;
        i = i + 1;
    }
    assert(all.take(i as int) =~= all);
    acc
}

/// Adds up the amounts of a list of allocations bound to outpoints.
pub fn sum_coins(list: &Vec<OutpointCoins>) -> (r: u128)
    ensures
        r == total(coins_of(list@)),
{
    let ghost all = coins_of(list@);
    let mut acc: u128 = 0;
    let mut i: usize = 0;
    assert(all.take(0) =~= Seq::<((Seq<u8>, u32), u64)>::empty());
    while i < list.len()
        invariant
            i <= list.len(),
            all == coins_of(list@),
            acc == total(all.take(i as int)),
        decreases list.len() - i,
    {
        proof {
            lemma_total_bound(all.take(i as int));
            assert(i * u64::MAX + u64::MAX <= u128::MAX) by (nonlinear_arith)
                requires
                    i <= u64::MAX,
            ;
            assert(all.take(i + 1) =~= all.take(i as int).push(all[i as int]));
            lemma_total_push(all.take(i as int), all[i as int]);
        }
        acc = acc + list[i].amount as u128;
        i = i + 1;
    }
    assert(all.take(i as int) =~= all);
    acc
}

impl AllocationPlan {
    /// The plan as a pair of mathematical lists.
    pub open spec fn view(&self) -> (Seq<(SealKey, u64)>, Seq<((Seq<u8>, u32), u64)>) {
        (allocations_of(self.payments@), coins_of(self.change@))
    }

    /// Whether no seal occurs twice among the payments, and none twice among
    /// the change.
    pub open spec fn well_formed(&self) -> bool {
        distinct_keys(allocations_of(self.payments@)) && distinct_keys(coins_of(self.change@))
    }

    /// What the plan hands out: the payments and the change together.
    pub open spec fn assigned(&self) -> nat {
        total(allocations_of(self.payments@)) + total(coins_of(self.change@))
    }
}

/// Tells whether `spent` is what the payments and the change add up to.
pub fn balances(spent: u128, payments: &Vec<Allocation>, change: &Vec<OutpointCoins>) -> (r: bool)
    ensures
        r == (spent == total(allocations_of(payments@)) + total(coins_of(change@))),
{
    let p: u128 = sum_allocations(payments);
    let c: u128 = sum_coins(change);
    spent >= p && spent - p == c
}

/// Reads the payment obligations and the change destinations of a transfer.
/// On success no seal occurs twice in either list.
pub fn plan_allocations(payments: &Vec<String>, change: &Vec<String>) -> (r: Result<
    AllocationPlan,
    RequestError,
>)
    ensures
        r matches Ok(plan) ==> read_plan(texts_of(payments@), texts_of(change@)) == Ok::<
            (Seq<(SealKey, u64)>, Seq<((Seq<u8>, u32), u64)>),
            RequestError,
        >(plan.view()) && plan.well_formed(),
        r matches Err(e) ==> read_plan(texts_of(payments@), texts_of(change@)) == Err::<
            (Seq<(SealKey, u64)>, Seq<((Seq<u8>, u32), u64)>),
            RequestError,
        >(e),
{
    let p = match plan_payments(payments) {
        Ok(p) => p,
        Err(e) => {
            return Err(e);
        },
    };
    let c = match plan_change(change) {
        Ok(c) => c,
        Err(e) => {
            return Err(e);
        },
    };
    proof {
        lemma_entries_read(texts_of(payments@), |s: Seq<char>| read_payment(s));
        lemma_entries_read(texts_of(change@), |s: Seq<char>| read_change(s));
    }
    Ok(AllocationPlan { payments: p, change: c })
}

/// A change destination as it is asked for: an outpoint, with the amount that
/// returns to it, or with the amount left open for the planner to infer.
#[derive(Clone, Copy, Debug, PartialEq, Eq)]
pub struct ChangeRequest {
    pub outpoint: OutPoint,
    pub amount: Option<u64>,
}

impl View for ChangeRequest {
    type V = ((Seq<u8>, u32), Option<u64>);

    open spec fn view(&self) -> ((Seq<u8>, u32), Option<u64>) {
        (self.outpoint@, self.amount)
    }
}

/// The change requests that a list holds, as mathematical values.
pub open spec fn requests_of(v: Seq<ChangeRequest>) -> Seq<((Seq<u8>, u32), Option<u64>)> {
    Seq::new(v.len(), |i: int| v[i]@)
}

/// What a change request `<outpoint>@<amount>` denotes, where nothing behind
/// the `@` leaves the amount open. Whatever is wrong with an entry, it fails
/// as an outpoint.
pub open spec fn read_change_request(s: Seq<char>) -> Result<
    ((Seq<u8>, u32), Option<u64>),
    RequestError,
> {
    match pair_of_text(s, '@') {
        None => Err(RequestError::Outpoint),
        Some((o, a)) => match outpoint_of_text(o) {
            None => Err(RequestError::Outpoint),
            Some(outpoint) => if a.len() == 0 {
                Ok((outpoint, None))
            } else {
                match amount_of_text(a) {
                    Some(amount) => Ok((outpoint, Some(amount))),
                    None => Err(RequestError::Outpoint),
                }
            },
        },
    }
}

/// What a list of change requests denotes.
pub open spec fn read_change_requests(items: Seq<Seq<char>>) -> Result<
    Seq<((Seq<u8>, u32), Option<u64>)>,
    RequestError,
> {
    read_entries(items, |s: Seq<char>| read_change_request(s))
}

/// The sum of the amounts that the requests state.
pub open spec fn stated<K>(requests: Seq<(K, Option<u64>)>) -> nat
    decreases requests.len(),
{
    if requests.len() == 0 {
        0
    } else {
        stated(requests.drop_last()) + match requests.last().1 {
            Some(v) => v as nat,
            None => 0,
        }
    }
}

/// The number of requests that leave their amount open.
pub open spec fn open_count<K>(requests: Seq<(K, Option<u64>)>) -> nat
    decreases requests.len(),
{
    if requests.len() == 0 {
        0
    } else {
        open_count(requests.drop_last()) + if requests.last().1 is None {
            1nat
        } else {
            0nat
        }
    }
}

/// The requests with `rest` in place of each amount that was left open.
pub open spec fn resolved<K>(requests: Seq<(K, Option<u64>)>, rest: u64) -> Seq<(K, u64)> {
    Seq::new(
        requests.len(),
        |i: int|
            (
                requests[i].0,
                match requests[i].1 {
                    Some(v) => v,
                    None => rest,
                },
            ),
    )
}

/// What the planner makes of the inputs, the payment entries and the change
/// requests of a transfer of `contract_id`. The payments and the change are
/// read; at most one change request may leave its amount open; the contract
/// must be that of the asset and every input must hold an allocation of it.
/// The open amount is what the inputs hold beyond the payments and the stated
/// change. Where nothing is open, or where that remainder is negative or does
/// not fit 64 bits, the two sides must meet as they are, else the plan is
/// refused: nothing is rounded or cut.
pub open spec fn planned_spending(
    asset_id: Seq<u8>,
    ledger: Seq<(SealKey, u64)>,
    contract_id: Seq<u8>,
    inputs: Seq<(Seq<u8>, u32)>,
    payments: Seq<Seq<char>>,
    change: Seq<Seq<char>>,
) -> Result<(Seq<(SealKey, u64)>, Seq<((Seq<u8>, u32), u64)>), RequestError> {
    match read_payments(payments) {
        Err(e) => Err(e),
        Ok(p) => match read_change_requests(change) {
            Err(e) => Err(e),
            Ok(c) => {
                let spent = spent_value(ledger, inputs);
                let fixed = total(p) + stated(c);
                if open_count(c) > 1 {
                    Err(RequestError::Input)
                } else if contract_id != asset_id {
                    Err(RequestError::UnknownContract)
                } else if !all_held(ledger, inputs) {
                    Err(RequestError::ForeignInput)
                } else if open_count(c) == 0 {
                    if spent == fixed {
                        Ok((p, resolved(c, 0)))
                    } else {
                        Err(RequestError::ConservationMismatch)
                    }
                } else if fixed <= spent && spent - fixed <= u64::MAX {
                    Ok((p, resolved(c, (spent - fixed) as u64)))
                } else {
                    Err(RequestError::ConservationMismatch)
                }
            },
        },
    }
}

/// The resolved requests add up to the stated amounts and `rest` for each
/// amount that was left open, and name the outpoints of the requests.
pub proof fn lemma_resolved<K>(requests: Seq<(K, Option<u64>)>, rest: u64)
    ensures
        total(resolved(requests, rest)) == stated(requests) + open_count(requests) * rest,
        distinct_keys(requests) ==> distinct_keys(resolved(requests, rest)),
    decreases requests.len(),
{
    let all = resolved(requests, rest);
    if requests.len() == 0 {
        assert(open_count(requests) * rest == 0) by (nonlinear_arith)
            requires
                open_count(requests) == 0,
        ;
    } else {
        let front = requests.drop_last();
        lemma_resolved(front, rest);
        assert(all.drop_last() =~= resolved(front, rest));
        let n = open_count(front);
        if requests.last().1 is None {
            assert(all.last().1 == rest);
            assert((n + 1) * rest == n * rest + rest) by (nonlinear_arith);
        } else {
            assert(all.last().1 == requests.last().1->Some_0);
        }
    }
    if distinct_keys(requests) {
        assert forall|i: int, j: int| 0 <= i < j < all.len() implies (#[trigger] all[i]).0 != (
        #[trigger] all[j]).0 by {
            assert(requests[i].0 != requests[j].0);
        }
    }
}

/// Reads one change request of the form `<outpoint>@<amount>` or
/// `<outpoint>@`.
pub fn parse_change_request(item: &str) -> (r: Result<ChangeRequest, RequestError>)
    ensures
        r matches Ok(c) ==> read_change_request(item@) == Ok::<
            ((Seq<u8>, u32), Option<u64>),
            RequestError,
        >(c@),
        r matches Err(e) ==> read_change_request(item@) == Err::<
            ((Seq<u8>, u32), Option<u64>),
            RequestError,
        >(e),
{
    let (o, a) = match split_pair(item, '@') {
        Some(p) => p,
        None => {
            return Err(RequestError::Outpoint);
        },
    };
    let outpoint = match OutPoint::from_text(o) {
        Some(v) => v,
        None => {
            return Err(RequestError::Outpoint);
        },
    };
    if a.unicode_len() == 0 {
        return Ok(ChangeRequest { outpoint, amount: None });
    }
    match parse_amount(a) {
        Some(amount) => Ok(ChangeRequest { outpoint, amount: Some(amount) }),
        None => Err(RequestError::Outpoint),
    }
}

/// Tells whether a request of the list names `outpoint`.
pub fn asks_for(list: &Vec<ChangeRequest>, outpoint: &OutPoint) -> (r: bool)
    ensures
        r == has_key(requests_of(list@), outpoint@),
{
    let mut i: usize = 0;
    while i < list.len()
        invariant
            i <= list.len(),
            forall|j: int| 0 <= j < i ==> (#[trigger] requests_of(list@)[j]).0 != outpoint@,
        decreases list.len() - i,
    {
        if list[i].outpoint.same(outpoint) {
            assert(requests_of(list@)[i as int].0 == outpoint@);
            return true;
        }
        i = i + 1;
    }
    false
}

/// Reads a list of change requests into requests with distinct outpoints.
pub fn plan_change_requests(items: &Vec<String>) -> (r: Result<Vec<ChangeRequest>, RequestError>)
    ensures
        r matches Ok(list) ==> read_change_requests(texts_of(items@)) == Ok::<
            Seq<((Seq<u8>, u32), Option<u64>)>,
            RequestError,
        >(requests_of(list@)),
        r matches Err(e) ==> read_change_requests(texts_of(items@)) == Err::<
            Seq<((Seq<u8>, u32), Option<u64>)>,
            RequestError,
        >(e),
{
    let ghost texts = texts_of(items@);
    let ghost read = |s: Seq<char>| read_change_request(s);
    let mut list: Vec<ChangeRequest> = Vec::new();
    let mut i: usize = 0;
    assert(texts.take(0) =~= Seq::<Seq<char>>::empty());
    assert(requests_of(list@) =~= Seq::<((Seq<u8>, u32), Option<u64>)>::empty());
    while i < items.len()
        invariant
            i <= items.len(),
            texts == texts_of(items@),
            read == (|s: Seq<char>| read_change_request(s)),
            read_entries(texts.take(i as int), read) == Ok::<
                Seq<((Seq<u8>, u32), Option<u64>)>,
                RequestError,
            >(requests_of(list@)),
        decreases items.len() - i,
    {
        let ghost before = requests_of(list@);
        proof {
            assert(texts.take(i + 1).drop_last() =~= texts.take(i as int));
            assert(texts.take(i + 1).last() == items@[i as int]@);
        }
        let entry = match parse_change_request(items[i].as_str()) {
            Ok(c) => c,
            Err(e) => {
                proof {
                    lemma_failure_stays(texts, read, i + 1);
                }
                return Err(e);
            },
        };
        if asks_for(&list, &entry.outpoint) {
            proof {
                lemma_failure_stays(texts, read, i + 1);
            }
            return Err(RequestError::DuplicateSeal);
        }
        list.push(entry);
        assert(requests_of(list@) =~= before.push(entry@));
        i = i + 1;
    }
    assert(texts.take(i as int) =~= texts);
    Ok(list)
}

/// Adds up the amounts that the requests state and counts those that leave
/// their amount open.
pub fn tally(list: &Vec<ChangeRequest>) -> (r: (u128, usize))
    ensures
        r.0 == stated(requests_of(list@)),
        r.1 == open_count(requests_of(list@)),
{
    let ghost all = requests_of(list@);
    let mut sum: u128 = 0;
    let mut open: usize = 0;
    let mut i: usize = 0;
    assert(all.take(0) =~= Seq::<((Seq<u8>, u32), Option<u64>)>::empty());
    while i < list.len()
        invariant
            i <= list.len(),
            all == requests_of(list@),
            sum == stated(all.take(i as int)),
            open == open_count(all.take(i as int)),
            sum <= i * u64::MAX,
            open <= i,
        decreases list.len() - i,
    {
        proof {
            assert(i * u64::MAX + u64::MAX <= u128::MAX) by (nonlinear_arith)
                requires
                    i <= u64::MAX,
            ;
            assert(i * u64::MAX + u64::MAX == (i + 1) * u64::MAX) by (nonlinear_arith);
            assert(all.take(i + 1).drop_last() =~= all.take(i as int));
            assert(all.take(i + 1).last() == all[i as int]);
        }
        match list[i].amount {
            Some(v) => {
                sum = sum + v as u128;
            },
            None => {
                open = open + 1;
            },
        }
        i = i + 1;
    }
    assert(all.take(i as int) =~= all);
    (sum, open)
}

/// Writes the requests as allocations, with `rest` in place of each amount
/// that was left open.
pub fn resolve(list: &Vec<ChangeRequest>, rest: u64) -> (r: Vec<OutpointCoins>)
    ensures
        coins_of(r@) == resolved(requests_of(list@), rest),
{
    let mut out: Vec<OutpointCoins> = Vec::new();
    let mut i: usize = 0;
    while i < list.len()
        invariant
            i <= list.len(),
            out@.len() == i,
            forall|j: int|
                0 <= j < i ==> (#[trigger] out@[j])@ == resolved(requests_of(list@), rest)[j],
        decreases list.len() - i,
    {
        let amount = match list[i].amount {
            Some(v) => v,
            None => rest,
        };
        out.push(OutpointCoins { outpoint: list[i].outpoint, amount });
        i = i + 1;
    }
    assert(coins_of(out@) =~= resolved(requests_of(list@), rest));
    out
}

/// Plans a transfer of `contract_id` that spends `inputs` of the asset: the
/// payment entries and the change requests are read, the one amount that may
/// be left open is inferred, and the plan is held against what the inputs
/// hold. On success no seal occurs twice, and the payments and the change add
/// up to exactly what the inputs hold.
pub fn plan_spending(
    asset: &Asset,
    contract_id: &ContractId,
    inputs: &Vec<OutPoint>,
    payments: &Vec<String>,
    change: &Vec<String>,
) -> (r: Result<AllocationPlan, RequestError>)
    ensures
        r matches Ok(plan) ==> planned_spending(
            asset.contract_id@,
            asset.ledger(),
            contract_id@,
            outpoints_of(inputs@),
            texts_of(payments@),
            texts_of(change@),
        ) == Ok::<(Seq<(SealKey, u64)>, Seq<((Seq<u8>, u32), u64)>), RequestError>(plan.view())
            && plan.well_formed() && plan.assigned() == spent_value(
            asset.ledger(),
            outpoints_of(inputs@),
        ),
        r matches Err(e) ==> planned_spending(
            asset.contract_id@,
            asset.ledger(),
            contract_id@,
            outpoints_of(inputs@),
            texts_of(payments@),
            texts_of(change@),
        ) == Err::<(Seq<(SealKey, u64)>, Seq<((Seq<u8>, u32), u64)>), RequestError>(e),
{
    let p = match plan_payments(payments) {
        Ok(p) => p,
        Err(e) => {
            return Err(e);
        },
    };
    let c = match plan_change_requests(change) {
        Ok(c) => c,
        Err(e) => {
            return Err(e);
        },
    };
    let (fixed_change, open) = tally(&c);
    if open > 1 {
        return Err(RequestError::Input);
    }
    if !asset.contract_id.same(contract_id) {
        return Err(RequestError::UnknownContract);
    }
    if !asset.holds_all(inputs) {
        return Err(RequestError::ForeignInput);
    }
    let spent: u128 = asset.spent_by(inputs);
    let paid: u128 = sum_allocations(&p);
    if spent < paid || spent - paid < fixed_change {
        return Err(RequestError::ConservationMismatch);
    }
    let rest: u128 = spent - paid - fixed_change;
    if (open == 0 && rest != 0) || rest > u64::MAX as u128 {
        return Err(RequestError::ConservationMismatch);
    }
    let rest: u64 = rest as u64;
    let coins = resolve(&c, rest);
    proof {
        lemma_entries_read(texts_of(payments@), |s: Seq<char>| read_payment(s));
        lemma_entries_read(texts_of(change@), |s: Seq<char>| read_change_request(s));
        lemma_resolved(requests_of(c@), rest);
        if open == 0 {
            assert(open_count(requests_of(c@)) * rest == 0) by (nonlinear_arith)
                requires
                    open_count(requests_of(c@)) == 0,
            ;
        } else {
            assert(open_count(requests_of(c@)) * rest == rest) by (nonlinear_arith)
                requires
                    open_count(requests_of(c@)) == 1,
            ;
        }
    }
    let plan = AllocationPlan { payments: p, change: coins };
    assert(plan.assigned() == spent);
    Ok(plan)
}

} // verus!
