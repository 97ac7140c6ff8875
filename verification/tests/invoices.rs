use librgb::error::RequestError;
use librgb::invoice::{build_invoice, rgb20_invoice, Invoice};
use librgb::seal::{ContractId, OutPoint, OutpointHash, OutpointReveal, SealEndpoint};

const TX: &str = "646ca5c1062619e2a2d60771c9dfd820551fb773e4dc8c4ed67965a8d1fae839";
const SEAL: &str = "utxob1ahrfaknwtv28c4yyhat5d9uel045ph797kxauj63p2gzykta9lkskn6smk";

fn asset_text() -> String {
    ContractId { bytes: [7u8; 32] }.to_text()
}

#[test]
fn invoice_text_has_the_three_fields() {
    let invoice = Invoice {
        contract_id: ContractId { bytes: [7u8; 32] },
        seal: SealEndpoint::Blinded(OutpointHash::from_text(SEAL).unwrap()),
        amount: 250,
    };
    assert_eq!(invoice.to_text(), format!("rgb20:{}/{}/250", asset_text(), SEAL));
}

#[test]
fn invoice_parse_is_inverse_of_format() {
    let seals = [
        SealEndpoint::Blinded(OutpointHash::from_text(SEAL).unwrap()),
        SealEndpoint::Explicit(OutPoint::from_text(&format!("{}:3", TX)).unwrap()),
    ];
    for seal in seals {
        for amount in [0u64, 1, 250, 1000, u64::MAX] {
            let invoice = Invoice { contract_id: ContractId { bytes: [9u8; 32] }, seal, amount };
            assert_eq!(Invoice::from_text(&invoice.to_text()), Ok(invoice));
        }
    }
}

#[test]
fn invoice_text_is_refused_with_its_reason() {
    let id = asset_text();
    assert_eq!(Invoice::from_text(""), Err(RequestError::Invoice));
    assert_eq!(Invoice::from_text("rgb20:"), Err(RequestError::Invoice));
    assert_eq!(
        Invoice::from_text(&format!("rgb21:{}/{}/250", id, SEAL)),
        Err(RequestError::Invoice)
    );
    assert_eq!(Invoice::from_text(&format!("rgb20:{}/{}", id, SEAL)), Err(RequestError::Invoice));
    assert_eq!(
        Invoice::from_text(&format!("rgb20:{}/{}/250/1", id, SEAL)),
        Err(RequestError::Invoice)
    );
    assert_eq!(
        Invoice::from_text(&format!("rgb20:{}/{}/250", SEAL, SEAL)),
        Err(RequestError::Bech32)
    );
    assert_eq!(Invoice::from_text(&format!("rgb20:{}/{}/250", id, id)), Err(RequestError::Bech32));
    assert_eq!(
        Invoice::from_text(&format!("rgb20:{}/{}:x/250", id, TX)),
        Err(RequestError::Outpoint)
    );
    assert_eq!(
        Invoice::from_text(&format!("rgb20:{}/{}/2.5", id, SEAL)),
        Err(RequestError::ParseInt)
    );
    assert_eq!(Invoice::from_text(&format!("rgb20:{}/{}/", id, SEAL)), Err(RequestError::ParseInt));
}

#[test]
fn invoice_is_built_for_a_blinded_outpoint() {
    let built = build_invoice(&asset_text(), 250, &format!("{}:2", TX), 54683213134637).unwrap();
    assert_eq!(built.invoice.contract_id, ContractId { bytes: [7u8; 32] });
    assert_eq!(built.invoice.amount, 250);
    assert_eq!(built.invoice.seal.to_text(), SEAL);
    assert_eq!(built.reveal.blinding, 54683213134637);
    assert_eq!(built.reveal.vout, 2);
    assert_eq!(SealEndpoint::Blinded(built.reveal.conceal()), built.invoice.seal);
    let again = build_invoice(&asset_text(), 250, &format!("{}:2", TX), 54683213134637).unwrap();
    assert_eq!(again, built);
}

#[test]
fn invoice_is_not_built_from_malformed_input() {
    let op = format!("{}:2", TX);
    assert_eq!(build_invoice("rgb1zzz", 1, &op, 5), Err(RequestError::Bech32));
    assert_eq!(build_invoice(&asset_text(), 1, "tx2", 5), Err(RequestError::Outpoint));
    assert_eq!(build_invoice("", 1, "", 5), Err(RequestError::Bech32));
    assert_eq!(rgb20_invoice("rgb1zzz", 1, &op), Err(RequestError::Bech32));
    assert_eq!(rgb20_invoice(&asset_text(), 1, "tx2:0"), Err(RequestError::Outpoint));
}

#[test]
fn invoice_with_drawn_blinding_keeps_its_secret() {
    let op = format!("{}:2", TX);
    let built = rgb20_invoice(&asset_text(), 250, &op).unwrap();
    assert_eq!(built.invoice.amount, 250);
    assert_eq!(built.reveal.vout, 2);
    let same = build_invoice(&asset_text(), 250, &op, built.reveal.blinding).unwrap();
    assert_eq!(same, built);
    let o = OutPoint::from_text(&op).unwrap();
    assert_eq!(
        built.invoice.seal,
        SealEndpoint::Blinded(OutpointReveal::new(&o, built.reveal.blinding).conceal())
    );
    assert_eq!(Invoice::from_text(&built.invoice.to_text()), Ok(built.invoice));
}
