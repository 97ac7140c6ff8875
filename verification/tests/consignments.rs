use librgb::consignment::{
    find_reveal, has_distinct_outpoints, has_distinct_seals, reveals_match, Consignment, Delivery,
    Stage,
};
use librgb::error::RequestError;
use librgb::invoice::build_invoice;
use librgb::ledger::Asset;
use librgb::planner::{plan_allocations, sum_allocations, sum_coins, Allocation, OutpointCoins};
use librgb::seal::{ContractId, OutPoint, OutpointReveal, SealEndpoint};

const TX1: &str = "646ca5c1062619e2a2d60771c9dfd820551fb773e4dc8c4ed67965a8d1fae839";
const TX2: &str = "5df6e0e2761359d30a8275058e299fcc0381534545f55cf43e41983f5d4c9456";

fn tx1(vout: u32) -> OutPoint {
    OutPoint::from_text(&format!("{}:{}", TX1, vout)).unwrap()
}

fn tx2(vout: u32) -> OutPoint {
    OutPoint::from_text(&format!("{}:{}", TX2, vout)).unwrap()
}

fn contract() -> ContractId {
    ContractId { bytes: [0xC1u8; 32] }
}

fn issued() -> Asset {
    Asset::issued(contract(), &vec![OutpointCoins { outpoint: tx1(0), amount: 1000 }])
}

fn transfer(asset: &Asset, blinding: u64, pay: u64, change: u64) -> Result<Consignment, RequestError> {
    let built = build_invoice(&contract().to_text(), pay, &format!("{}:0", TX2), blinding)?;
    let payments = vec![format!("{}@{}", built.invoice.amount, built.invoice.seal.to_text())];
    let changes = vec![format!("{}:1@{}", TX1, change)];
    let plan = plan_allocations(&payments, &changes)?;
    Consignment::assemble(asset, built.invoice.contract_id, vec![tx1(0)], plan)
}

#[test]
fn issue_invoice_transfer_validate() {
    let asset = issued();
    let built = build_invoice(&contract().to_text(), 250, &format!("{}:0", TX2), 77).unwrap();
    let payments = vec![format!("250@{}", built.invoice.seal.to_text())];
    let changes = vec![format!("{}:1@750", TX1)];
    let plan = plan_allocations(&payments, &changes).unwrap();
    let consignment = Consignment::assemble(&asset, contract(), vec![tx1(0)], plan).unwrap();
    assert_eq!(
        sum_allocations(&consignment.payments) + sum_coins(&consignment.change),
        1000
    );
    assert_eq!(consignment.payments[0].seal, built.invoice.seal);
    assert_eq!(consignment.validate(&asset, true), Ok(()));
    let mut delivery = Delivery::receive(consignment);
    assert_eq!(delivery.stage(), Stage::Received);
    assert_eq!(delivery.validate(&asset, true), Ok(()));
    assert_eq!(delivery.stage(), Stage::Validated);
}

#[test]
fn transfer_that_does_not_balance_is_refused() {
    let asset = issued();
    assert_eq!(transfer(&asset, 1, 250, 751), Err(RequestError::ConservationMismatch));
    assert_eq!(transfer(&asset, 1, 250, 749), Err(RequestError::ConservationMismatch));
    assert_eq!(transfer(&asset, 1, 0, 0), Err(RequestError::ConservationMismatch));
    assert_eq!(transfer(&asset, 1, u64::MAX, u64::MAX), Err(RequestError::ConservationMismatch));
    assert!(transfer(&asset, 1, 1000, 0).is_ok());
    assert!(transfer(&asset, 1, 0, 1000).is_ok());
}

#[test]
fn accepted_transfer_rewrites_the_ledger() {
    let mut asset = issued();
    let consignment = transfer(&asset, 77, 250, 750).unwrap();
    let mut delivery = Delivery::receive(consignment);
    assert_eq!(delivery.validate(&asset, true), Ok(()));
    let reveal = OutpointReveal::new(&tx2(0), 77);
    assert_eq!(delivery.accept(&mut asset, &vec![reveal]), Ok(()));
    assert_eq!(delivery.stage(), Stage::Accepted);
    assert_eq!(
        asset.allocations,
        vec![
            Allocation { seal: SealEndpoint::Explicit(tx2(0)), amount: 250 },
            Allocation { seal: SealEndpoint::Explicit(tx1(1)), amount: 750 },
        ]
    );
    assert_eq!(sum_allocations(&asset.allocations), 1000);
    // acceptance is final
    assert_eq!(delivery.accept(&mut asset, &vec![reveal]), Err(RequestError::WrongState));
    assert_eq!(delivery.validate(&asset, true), Err(RequestError::WrongState));
    assert_eq!(delivery.stage(), Stage::Accepted);
    assert_eq!(asset.allocations.len(), 2);
}

#[test]
fn seal_without_reveal_stays_blinded() {
    let mut asset = issued();
    let consignment = transfer(&asset, 77, 250, 750).unwrap();
    let blinded = consignment.payments[0].seal;
    let mut delivery = Delivery::receive(consignment);
    delivery.validate(&asset, true).unwrap();
    assert_eq!(delivery.accept(&mut asset, &Vec::new()), Ok(()));
    assert_eq!(
        asset.allocations,
        vec![
            Allocation { seal: blinded, amount: 250 },
            Allocation { seal: SealEndpoint::Explicit(tx1(1)), amount: 750 },
        ]
    );
}

#[test]
fn consignment_is_not_accepted_before_validation() {
    let mut asset = issued();
    let before = asset.clone();
    let consignment = transfer(&asset, 77, 250, 750).unwrap();
    let mut delivery = Delivery::receive(consignment);
    let reveal = OutpointReveal::new(&tx2(0), 77);
    assert_eq!(delivery.accept(&mut asset, &vec![reveal]), Err(RequestError::WrongState));
    assert_eq!(delivery.stage(), Stage::Received);
    assert_eq!(asset, before);
}

#[test]
fn invalid_consignment_is_never_accepted() {
    let mut asset = issued();
    let before = asset.clone();
    let reveal = OutpointReveal::new(&tx2(0), 77);
    let seal = SealEndpoint::Blinded(reveal.conceal());
    let forged = Consignment {
        contract_id: contract(),
        inputs: vec![tx1(0)],
        payments: vec![Allocation { seal, amount: 5000 }],
        change: Vec::new(),
    };
    let mut delivery = Delivery::receive(forged);
    assert_eq!(delivery.validate(&asset, true), Err(RequestError::ConservationMismatch));
    assert_eq!(delivery.stage(), Stage::Rejected(RequestError::ConservationMismatch));
    assert_eq!(delivery.accept(&mut asset, &vec![reveal]), Err(RequestError::WrongState));
    assert_eq!(delivery.stage(), Stage::Rejected(RequestError::ConservationMismatch));
    assert_eq!(delivery.validate(&asset, true), Err(RequestError::WrongState));
    assert_eq!(asset, before);
}

#[test]
fn validation_names_what_is_wrong() {
    let asset = issued();
    let good = transfer(&asset, 77, 250, 750).unwrap();
    assert_eq!(good.validate(&asset, false), Err(RequestError::InvalidConsignment));
    let mut other = good.clone();
    other.contract_id = ContractId { bytes: [0xC2u8; 32] };
    assert_eq!(other.validate(&asset, true), Err(RequestError::UnknownContract));
    let mut foreign = good.clone();
    foreign.inputs.push(tx1(8));
    assert_eq!(foreign.validate(&asset, true), Err(RequestError::ForeignInput));
    let mut twice = good.clone();
    twice.change.push(OutpointCoins { outpoint: tx1(1), amount: 0 });
    assert_eq!(twice.validate(&asset, true), Err(RequestError::DuplicateSeal));
    let mut paid_twice = good.clone();
    paid_twice.payments.push(paid_twice.payments[0]);
    assert_eq!(paid_twice.validate(&asset, true), Err(RequestError::DuplicateSeal));
    let mut delivery = Delivery::receive(good);
    assert_eq!(delivery.validate(&asset, false), Err(RequestError::InvalidConsignment));
    assert_eq!(delivery.stage(), Stage::Rejected(RequestError::InvalidConsignment));
}

#[test]
fn unmatched_reveal_rejects_the_whole_consignment() {
    let mut asset = issued();
    let before = asset.clone();
    let consignment = transfer(&asset, 77, 250, 750).unwrap();
    let mut delivery = Delivery::receive(consignment);
    delivery.validate(&asset, true).unwrap();
    let right = OutpointReveal::new(&tx2(0), 77);
    let wrong = OutpointReveal::new(&tx2(0), 78);
    assert_eq!(
        delivery.accept(&mut asset, &vec![right, wrong]),
        Err(RequestError::UnmatchedReveal)
    );
    assert_eq!(delivery.stage(), Stage::Rejected(RequestError::UnmatchedReveal));
    assert_eq!(asset, before);
    assert_eq!(delivery.accept(&mut asset, &vec![right]), Err(RequestError::WrongState));
    assert_eq!(asset, before);
}

#[test]
fn consignment_is_validated_again_on_acceptance() {
    let mut asset = issued();
    let first = transfer(&asset, 77, 250, 750).unwrap();
    let second = transfer(&asset, 78, 1000, 0).unwrap();
    let mut a = Delivery::receive(first);
    let mut b = Delivery::receive(second);
    a.validate(&asset, true).unwrap();
    b.validate(&asset, true).unwrap();
    assert_eq!(a.accept(&mut asset, &Vec::new()), Ok(()));
    let after = asset.clone();
    // the input is spent by now
    assert_eq!(b.accept(&mut asset, &Vec::new()), Err(RequestError::ForeignInput));
    assert_eq!(b.stage(), Stage::Rejected(RequestError::ForeignInput));
    assert_eq!(asset, after);
    assert_eq!(b.consignment().payments[0].amount, 1000);
}

#[test]
fn reveals_are_matched_by_commitment() {
    let a = OutpointReveal::new(&tx2(0), 1);
    let b = OutpointReveal::new(&tx2(1), 1);
    let c = OutpointReveal::new(&tx1(3), 1);
    let payments = vec![
        Allocation { seal: SealEndpoint::Blinded(a.conceal()), amount: 1 },
        Allocation { seal: SealEndpoint::Explicit(tx1(3)), amount: 2 },
    ];
    assert!(reveals_match(&vec![a], &payments));
    assert!(reveals_match(&Vec::new(), &payments));
    assert!(!reveals_match(&vec![a, b], &payments));
    assert!(!reveals_match(&vec![c], &payments));
    assert_eq!(find_reveal(&vec![b, a], &a.conceal()), Some(tx2(0)));
    assert_eq!(find_reveal(&vec![b], &a.conceal()), None);
    assert!(has_distinct_seals(&payments));
    assert!(!has_distinct_seals(&vec![payments[0], payments[1], payments[0]]));
    let coins = vec![
        OutpointCoins { outpoint: tx1(1), amount: 1 },
        OutpointCoins { outpoint: tx1(2), amount: 1 },
    ];
    assert!(has_distinct_outpoints(&coins));
    assert!(!has_distinct_outpoints(&vec![coins[1], coins[0], coins[1]]));
}

#[test]
fn settled_ledger_keeps_what_is_not_spent() {
    let asset = Asset::issued(
        contract(),
        &vec![
            OutpointCoins { outpoint: tx1(0), amount: 1000 },
            OutpointCoins { outpoint: tx1(5), amount: 30 },
        ],
    );
    let consignment = transfer(&asset, 77, 400, 600).unwrap();
    let ledger = consignment.settle(&asset, &Vec::new());
    assert_eq!(ledger.len(), 3);
    assert_eq!(ledger[0], Allocation { seal: SealEndpoint::Explicit(tx1(5)), amount: 30 });
    assert_eq!(ledger[1].amount, 400);
    assert_eq!(ledger[2], Allocation { seal: SealEndpoint::Explicit(tx1(1)), amount: 600 });
    assert_eq!(sum_allocations(&ledger), 1030);
}

#[test]
fn reveals_are_read_and_held_against_endpoints() {
    let text = format!(
        "[{{\"blinding\": 77, \"txid\": \"{}\", \"vout\": 0}}, {{\"blinding\": 5, \"txid\": \"{}\", \"vout\": 3}}]",
        TX2, TX1
    );
    let reveals = librgb::consignment::read_reveals(&text).unwrap();
    assert_eq!(reveals, vec![OutpointReveal::new(&tx2(0), 77), OutpointReveal::new(&tx1(3), 5)]);
    assert_eq!(librgb::consignment::read_reveals("[]"), Ok(Vec::new()));
    assert_eq!(librgb::consignment::read_reveals("[{\"blinding\": 1}]"), Err(RequestError::Json));
    assert_eq!(librgb::consignment::read_reveals("not json"), Err(RequestError::Json));
    let ends = vec![
        SealEndpoint::Blinded(reveals[1].conceal()),
        SealEndpoint::Explicit(tx1(3)),
        SealEndpoint::Blinded(reveals[0].conceal()),
    ];
    assert_eq!(librgb::consignment::check_reveals(&reveals, &ends), Ok(()));
    assert_eq!(librgb::consignment::check_reveals(&Vec::new(), &Vec::new()), Ok(()));
    assert_eq!(
        librgb::consignment::check_reveals(&reveals, &vec![ends[0], ends[1]]),
        Err(RequestError::UnmatchedReveal)
    );
    assert_eq!(
        librgb::consignment::check_reveals(&vec![OutpointReveal::new(&tx1(3), 6)], &ends),
        Err(RequestError::UnmatchedReveal)
    );
}
