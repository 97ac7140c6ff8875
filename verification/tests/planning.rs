use librgb::error::RequestError;
use librgb::ledger::{lists, opened, spends, Asset};
use librgb::planner::{
    balances, binds, parse_change, parse_payment, pays_to, plan_allocations, plan_change,
    plan_payments, sum_allocations, sum_coins, Allocation, OutpointCoins,
};
use librgb::seal::{ContractId, OutPoint, OutpointHash, OutpointReveal, SealEndpoint};
use librgb::text::{find_from, split_first, split_pair, starts_with};

const TX1: &str = "646ca5c1062619e2a2d60771c9dfd820551fb773e4dc8c4ed67965a8d1fae839";
const SEAL: &str = "utxob1ahrfaknwtv28c4yyhat5d9uel045ph797kxauj63p2gzykta9lkskn6smk";

fn op(vout: u32) -> OutPoint {
    OutPoint::from_text(&format!("{}:{}", TX1, vout)).unwrap()
}

fn blinded(blinding: u64) -> OutpointHash {
    OutpointReveal::new(&op(0), blinding).conceal()
}

fn strings(items: &[&str]) -> Vec<String> {
    items.iter().map(|s| s.to_string()).collect()
}

#[test]
fn texts_are_cut_at_separators() {
    assert_eq!(find_from("a@b@c", '@', 0), Some(1));
    assert_eq!(find_from("a@b@c", '@', 2), Some(3));
    assert_eq!(find_from("a@b@c", '@', 4), None);
    assert_eq!(split_first("a@b@c", '@'), Some(("a", "b@c")));
    assert_eq!(split_first("abc", '@'), None);
    assert_eq!(split_pair("a@b", '@'), Some(("a", "b")));
    assert_eq!(split_pair("@", '@'), Some(("", "")));
    assert_eq!(split_pair("a@b@c", '@'), None);
    assert_eq!(split_pair("ab", '@'), None);
    assert!(starts_with("rgb20:x", "rgb20:"));
    assert!(!starts_with("rgb2", "rgb20:"));
    assert!(!starts_with("rgb21:x", "rgb20:"));
}

#[test]
fn payment_entry_is_amount_then_seal() {
    let p = parse_payment(&format!("250@{}", SEAL)).unwrap();
    assert_eq!(p.amount, 250);
    let known = OutpointReveal::new(&op(2), 54683213134637).conceal();
    assert_eq!(p.seal, SealEndpoint::Blinded(known));
    let q = parse_payment(&format!("7@{}:1", TX1)).unwrap();
    assert_eq!(q, Allocation { seal: SealEndpoint::Explicit(op(1)), amount: 7 });
}

#[test]
fn payment_entry_is_refused_with_its_reason() {
    assert_eq!(parse_payment("250"), Err(RequestError::Input));
    assert_eq!(parse_payment(""), Err(RequestError::Input));
    assert_eq!(parse_payment(&format!("250@{}@1", SEAL)), Err(RequestError::Input));
    assert_eq!(parse_payment(&format!("x@{}", SEAL)), Err(RequestError::ParseInt));
    assert_eq!(parse_payment(&format!("@{}", SEAL)), Err(RequestError::ParseInt));
    assert_eq!(parse_payment(&format!("{}@250", SEAL)), Err(RequestError::ParseInt));
    assert_eq!(parse_payment("250@utxob1xyz"), Err(RequestError::Bech32));
    assert_eq!(parse_payment("250@zz:1"), Err(RequestError::Outpoint));
}

#[test]
fn change_entry_is_outpoint_then_amount() {
    let c = parse_change(&format!("{}:1@750", TX1)).unwrap();
    assert_eq!(c, OutpointCoins { outpoint: op(1), amount: 750 });
    assert_eq!(parse_change(&format!("750@{}:1", TX1)), Err(RequestError::Outpoint));
    assert_eq!(parse_change(&format!("{}:1", TX1)), Err(RequestError::Outpoint));
    assert_eq!(parse_change(&format!("{}:1@", TX1)), Err(RequestError::Outpoint));
    assert_eq!(parse_change(&format!("{}:1@7@7", TX1)), Err(RequestError::Outpoint));
    assert_eq!(parse_change(&format!("{}@750", SEAL)), Err(RequestError::Outpoint));
}

#[test]
fn plan_keeps_the_order_of_the_entries() {
    let a = blinded(1).to_text();
    let b = blinded(2).to_text();
    let pays = strings(&[&format!("10@{}", b), &format!("20@{}", a)]);
    let change = strings(&[&format!("{}:5@1", TX1), &format!("{}:4@2", TX1)]);
    let plan = plan_allocations(&pays, &change).unwrap();
    assert_eq!(
        plan.payments,
        vec![
            Allocation { seal: SealEndpoint::Blinded(blinded(2)), amount: 10 },
            Allocation { seal: SealEndpoint::Blinded(blinded(1)), amount: 20 },
        ]
    );
    assert_eq!(
        plan.change,
        vec![
            OutpointCoins { outpoint: op(5), amount: 1 },
            OutpointCoins { outpoint: op(4), amount: 2 },
        ]
    );
    assert_eq!(plan_allocations(&Vec::new(), &Vec::new()).unwrap().payments.len(), 0);
}

#[test]
fn duplicate_seal_is_refused_not_merged() {
    let a = blinded(1).to_text();
    let b = blinded(2).to_text();
    let pays = strings(&[&format!("10@{}", a), &format!("5@{}", b), &format!("20@{}", a)]);
    assert_eq!(plan_payments(&pays), Err(RequestError::DuplicateSeal));
    let change = strings(&[&format!("{}:1@1", TX1), &format!("{}:1@2", TX1)]);
    assert_eq!(plan_change(&change), Err(RequestError::DuplicateSeal));
    assert_eq!(plan_allocations(&pays, &Vec::new()), Err(RequestError::DuplicateSeal));
    assert_eq!(plan_allocations(&Vec::new(), &change), Err(RequestError::DuplicateSeal));
    // the same amount elsewhere is no duplicate
    let fine = strings(&[&format!("10@{}", a), &format!("10@{}", b)]);
    assert_eq!(plan_payments(&fine).unwrap().len(), 2);
}

#[test]
fn first_failing_entry_decides() {
    let a = blinded(1).to_text();
    let pays = strings(&[&format!("10@{}", a), "oops", &format!("20@{}", a)]);
    assert_eq!(plan_payments(&pays), Err(RequestError::Input));
    let pays = strings(&[&format!("10@{}", a), &format!("20@{}", a), "oops"]);
    assert_eq!(plan_payments(&pays), Err(RequestError::DuplicateSeal));
    let change = strings(&["oops"]);
    assert_eq!(plan_allocations(&pays, &change), Err(RequestError::DuplicateSeal));
    assert_eq!(plan_allocations(&Vec::new(), &change), Err(RequestError::Outpoint));
}

#[test]
fn lists_are_searched_by_seal() {
    let list = vec![
        Allocation { seal: SealEndpoint::Blinded(blinded(1)), amount: 1 },
        Allocation { seal: SealEndpoint::Explicit(op(1)), amount: 2 },
    ];
    assert!(pays_to(&list, &SealEndpoint::Blinded(blinded(1))));
    assert!(pays_to(&list, &SealEndpoint::Explicit(op(1))));
    assert!(!pays_to(&list, &SealEndpoint::Explicit(op(2))));
    let coins = vec![OutpointCoins { outpoint: op(3), amount: 1 }];
    assert!(binds(&coins, &op(3)));
    assert!(!binds(&coins, &op(1)));
    assert!(lists(&vec![op(1), op(2)], &op(2)));
    assert!(!lists(&vec![op(1), op(2)], &op(3)));
    assert!(spends(&vec![op(1)], &SealEndpoint::Explicit(op(1))));
    assert!(!spends(&vec![op(1)], &SealEndpoint::Blinded(blinded(1))));
}

#[test]
fn totals_do_not_overflow() {
    let list = vec![
        Allocation { seal: SealEndpoint::Explicit(op(1)), amount: u64::MAX },
        Allocation { seal: SealEndpoint::Explicit(op(2)), amount: u64::MAX },
        Allocation { seal: SealEndpoint::Explicit(op(3)), amount: 2 },
    ];
    assert_eq!(sum_allocations(&list), 2 * (u64::MAX as u128) + 2);
    let coins = vec![OutpointCoins { outpoint: op(3), amount: 5 }];
    assert_eq!(sum_coins(&coins), 5);
    assert_eq!(sum_coins(&Vec::new()), 0);
    assert!(balances(2 * (u64::MAX as u128) + 7, &list, &coins));
    assert!(!balances(6, &list, &coins));
    assert!(!balances(2 * (u64::MAX as u128) + 8, &list, &coins));
}

#[test]
fn conservation_is_enforced_exactly() {
    let id = ContractId { bytes: [1u8; 32] };
    let asset = Asset::issued(
        id,
        &vec![
            OutpointCoins { outpoint: op(0), amount: 1000 },
            OutpointCoins { outpoint: op(9), amount: 40 },
        ],
    );
    assert_eq!(asset.allocations, opened(&vec![
        OutpointCoins { outpoint: op(0), amount: 1000 },
        OutpointCoins { outpoint: op(9), amount: 40 },
    ]));
    let seal = blinded(1).to_text();
    let change = strings(&[&format!("{}:1@750", TX1)]);
    let plan = plan_allocations(&strings(&[&format!("250@{}", seal)]), &change).unwrap();
    assert_eq!(asset.spent_by(&vec![op(0)]), 1000);
    assert_eq!(asset.spent_by(&vec![op(0), op(9)]), 1040);
    assert_eq!(asset.spent_by(&vec![op(5)]), 0);
    assert!(asset.holds_all(&vec![op(0), op(9)]));
    assert!(!asset.holds_all(&vec![op(0), op(5)]));
    assert_eq!(asset.check_conservation(&id, &vec![op(0)], &plan), Ok(()));
    assert_eq!(
        asset.check_conservation(&id, &vec![op(0), op(9)], &plan),
        Err(RequestError::ConservationMismatch)
    );
    assert_eq!(
        asset.check_conservation(&id, &vec![op(9)], &plan),
        Err(RequestError::ConservationMismatch)
    );
    assert_eq!(
        asset.check_conservation(&id, &vec![op(0), op(5)], &plan),
        Err(RequestError::ForeignInput)
    );
    assert_eq!(
        asset.check_conservation(&ContractId { bytes: [2u8; 32] }, &vec![op(0)], &plan),
        Err(RequestError::UnknownContract)
    );
    let short = plan_allocations(&strings(&[&format!("249@{}", seal)]), &change).unwrap();
    assert_eq!(
        asset.check_conservation(&id, &vec![op(0)], &short),
        Err(RequestError::ConservationMismatch)
    );
}

#[test]
fn entries_are_written_as_they_are_read() {
    let pay = Allocation { seal: SealEndpoint::Blinded(blinded(3)), amount: 250 };
    assert_eq!(pay.to_entry(), format!("250@{}", blinded(3).to_text()));
    assert_eq!(parse_payment(&pay.to_entry()), Ok(pay));
    let open = Allocation { seal: SealEndpoint::Explicit(op(6)), amount: u64::MAX };
    assert_eq!(open.to_entry(), format!("18446744073709551615@{}:6", TX1));
    assert_eq!(parse_payment(&open.to_entry()), Ok(open));
    let change = OutpointCoins { outpoint: op(1), amount: 0 };
    assert_eq!(change.to_entry(), format!("{}:1@0", TX1));
    assert_eq!(parse_change(&change.to_entry()), Ok(change));
}
