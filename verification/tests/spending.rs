use librgb::error::RequestError;
use librgb::ledger::Asset;
use librgb::planner::{
    asks_for, parse_change_request, plan_change_requests, plan_spending, resolve, tally,
    Allocation, ChangeRequest, OutpointCoins,
};
use librgb::seal::{ContractId, OutPoint, OutpointReveal, SealEndpoint};

const TX1: &str = "646ca5c1062619e2a2d60771c9dfd820551fb773e4dc8c4ed67965a8d1fae839";

fn op(vout: u32) -> OutPoint {
    OutPoint::from_text(&format!("{}:{}", TX1, vout)).unwrap()
}

fn seal(blinding: u64) -> SealEndpoint {
    SealEndpoint::Blinded(OutpointReveal::new(&op(100), blinding).conceal())
}

fn id() -> ContractId {
    ContractId { bytes: [1u8; 32] }
}

fn asset() -> Asset {
    Asset::issued(
        id(),
        &vec![
            OutpointCoins { outpoint: op(0), amount: 1000 },
            OutpointCoins { outpoint: op(9), amount: 40 },
        ],
    )
}

fn pay(amount: u64, blinding: u64) -> String {
    format!("{}@{}", amount, seal(blinding).to_text())
}

#[test]
fn change_request_may_leave_its_amount_open() {
    assert_eq!(
        parse_change_request(&format!("{}:1@750", TX1)),
        Ok(ChangeRequest { outpoint: op(1), amount: Some(750) })
    );
    assert_eq!(
        parse_change_request(&format!("{}:1@", TX1)),
        Ok(ChangeRequest { outpoint: op(1), amount: None })
    );
    assert_eq!(parse_change_request(&format!("{}:1", TX1)), Err(RequestError::Outpoint));
    assert_eq!(parse_change_request(&format!("{}:1@x", TX1)), Err(RequestError::Outpoint));
    assert_eq!(parse_change_request("@5"), Err(RequestError::Outpoint));
    let items = vec![format!("{}:1@", TX1), format!("{}:2@5", TX1)];
    let list = plan_change_requests(&items).unwrap();
    assert_eq!(list.len(), 2);
    assert!(asks_for(&list, &op(2)));
    assert!(!asks_for(&list, &op(3)));
    assert_eq!(tally(&list), (5, 1));
    assert_eq!(
        resolve(&list, 9),
        vec![
            OutpointCoins { outpoint: op(1), amount: 9 },
            OutpointCoins { outpoint: op(2), amount: 5 },
        ]
    );
    let twice = vec![format!("{}:1@", TX1), format!("{}:1@5", TX1)];
    assert_eq!(plan_change_requests(&twice), Err(RequestError::DuplicateSeal));
}

#[test]
fn stated_change_must_balance() {
    let a = asset();
    let plan =
        plan_spending(&a, &id(), &vec![op(0)], &vec![pay(250, 1)], &vec![format!("{}:1@750", TX1)])
            .unwrap();
    assert_eq!(plan.payments, vec![Allocation { seal: seal(1), amount: 250 }]);
    assert_eq!(plan.change, vec![OutpointCoins { outpoint: op(1), amount: 750 }]);
    for wrong in [0u64, 749, 751, u64::MAX] {
        assert_eq!(
            plan_spending(
                &a,
                &id(),
                &vec![op(0)],
                &vec![pay(250, 1)],
                &vec![format!("{}:1@{}", TX1, wrong)]
            ),
            Err(RequestError::ConservationMismatch)
        );
    }
    assert_eq!(
        plan_spending(&a, &id(), &vec![op(0)], &vec![pay(250, 1)], &Vec::new()),
        Err(RequestError::ConservationMismatch)
    );
    assert!(plan_spending(&a, &id(), &vec![op(0)], &vec![pay(1000, 1)], &Vec::new()).is_ok());
}

#[test]
fn open_change_is_inferred() {
    let a = asset();
    let plan = plan_spending(
        &a,
        &id(),
        &vec![op(0), op(9)],
        &vec![pay(250, 1), pay(90, 2)],
        &vec![format!("{}:1@100", TX1), format!("{}:2@", TX1)],
    )
    .unwrap();
    assert_eq!(
        plan.change,
        vec![
            OutpointCoins { outpoint: op(1), amount: 100 },
            OutpointCoins { outpoint: op(2), amount: 600 },
        ]
    );
    assert_eq!(a.check_conservation(&id(), &vec![op(0), op(9)], &plan), Ok(()));
    let all = plan_spending(&a, &id(), &vec![op(9)], &Vec::new(), &vec![format!("{}:2@", TX1)]);
    assert_eq!(all.unwrap().change, vec![OutpointCoins { outpoint: op(2), amount: 40 }]);
    let none = plan_spending(&a, &id(), &vec![op(9)], &vec![pay(40, 1)], &vec![format!("{}:2@", TX1)]);
    assert_eq!(none.unwrap().change, vec![OutpointCoins { outpoint: op(2), amount: 0 }]);
    assert_eq!(
        plan_spending(&a, &id(), &vec![op(9)], &vec![pay(41, 1)], &vec![format!("{}:2@", TX1)]),
        Err(RequestError::ConservationMismatch)
    );
}

#[test]
fn open_change_that_does_not_fit_is_refused() {
    let rich = Asset::issued(
        id(),
        &vec![
            OutpointCoins { outpoint: op(0), amount: u64::MAX },
            OutpointCoins { outpoint: op(1), amount: 1 },
        ],
    );
    assert_eq!(
        plan_spending(&rich, &id(), &vec![op(0), op(1)], &Vec::new(), &vec![format!("{}:2@", TX1)]),
        Err(RequestError::ConservationMismatch)
    );
    let plan = plan_spending(
        &rich,
        &id(),
        &vec![op(0), op(1)],
        &vec![pay(1, 1)],
        &vec![format!("{}:2@", TX1)],
    )
    .unwrap();
    assert_eq!(plan.change[0].amount, u64::MAX);
}

#[test]
fn spending_is_refused_with_its_reason() {
    let a = asset();
    let change = vec![format!("{}:1@", TX1)];
    assert_eq!(
        plan_spending(&a, &id(), &vec![op(0)], &vec![String::from("250")], &change),
        Err(RequestError::Input)
    );
    assert_eq!(
        plan_spending(&a, &id(), &vec![op(0)], &vec![pay(1, 1), pay(2, 1)], &change),
        Err(RequestError::DuplicateSeal)
    );
    assert_eq!(
        plan_spending(&a, &id(), &vec![op(0)], &vec![pay(1, 1)], &vec![String::from("x")]),
        Err(RequestError::Outpoint)
    );
    assert_eq!(
        plan_spending(
            &a,
            &id(),
            &vec![op(0)],
            &vec![pay(1, 1)],
            &vec![format!("{}:1@", TX1), format!("{}:2@", TX1)]
        ),
        Err(RequestError::Input)
    );
    assert_eq!(
        plan_spending(&a, &ContractId { bytes: [2u8; 32] }, &vec![op(0)], &vec![pay(1, 1)], &change),
        Err(RequestError::UnknownContract)
    );
    assert_eq!(
        plan_spending(&a, &id(), &vec![op(0), op(5)], &vec![pay(1, 1)], &change),
        Err(RequestError::ForeignInput)
    );
}
