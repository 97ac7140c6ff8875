//! Invoices: a request to be paid a given amount of an asset at a seal, in
//! the text form `rgb20:<contract-id>/<seal-endpoint>/<amount>`.

use crate::error::RequestError;
use crate::seal::{
    contract_id_of_text, contract_id_reads_back, lemma_plain_is_free, lemma_seal_text,
    outpoint_of_text, read_seal_endpoint, seal_commitment, seal_reads_back,
    text_of_contract_id, text_of_seal_endpoint, ContractId, OutPoint, OutpointReveal,
    SealEndpoint, SealKey,
};
use crate::text::{
    amount_of_text, begins_with, cut_at_first, digits_of, format_amount, free_of,
    lemma_amount_round_trip, lemma_cut_joined, lemma_digits_are_free, lemma_digits_round_trip,
    lemma_pair_joined, pair_of_text, parse_amount, split_first, split_pair, starts_with,
};
use vstd::prelude::*;
use vstd::string::*;

verus! {

/// A payment request.
#[derive(Clone, Copy, Debug, PartialEq, Eq)]
pub struct Invoice {
    /// The asset that is asked for.
    pub contract_id: ContractId,
    /// The seal that the payment is to be assigned to.
    pub seal: SealEndpoint,
    /// The amount asked for, in atomic units of the asset.
    pub amount: u64,
}

/// An invoice as a mathematical value.
pub struct InvoiceView {
    pub contract_id: Seq<u8>,
    pub seal: SealKey,
    pub amount: u64,
}

impl View for Invoice {
    type V = InvoiceView;

    open spec fn view(&self) -> InvoiceView {
        InvoiceView { contract_id: self.contract_id@, seal: self.seal@, amount: self.amount }
    }
}

/// An invoice for a blinded outpoint, together with the secret that its
/// issuer keeps: the reveal of the outpoint under the blinding factor.
#[derive(Clone, Copy, Debug, PartialEq, Eq)]
pub struct BlindedInvoice {
    pub invoice: Invoice,
    pub reveal: OutpointReveal,
}

/// The scheme that every invoice text begins with.
pub open spec fn invoice_scheme() -> Seq<char> {
    seq!['r', 'g', 'b', '2', '0', ':']
}

/// The text of an invoice.
pub open spec fn invoice_text(v: InvoiceView) -> Seq<char> {
    invoice_scheme() + text_of_contract_id(v.contract_id) + seq!['/'] + text_of_seal_endpoint(
        v.seal,
    ) + seq!['/'] + digits_of(v.amount as nat)
}

/// The three fields of an invoice text: what stands between the scheme and
/// the first `/`, between the two `/`, and behind the second. A text without
/// the scheme, or with fewer or more than two `/` behind it, has no fields.
pub open spec fn invoice_fields(s: Seq<char>) -> Option<(Seq<char>, Seq<char>, Seq<char>)> {
    if begins_with(s, invoice_scheme()) {
        match cut_at_first(s.skip(6), '/') {
            Some((c, rest)) => match pair_of_text(rest, '/') {
                Some((e, a)) => Some((c, e, a)),
                None => None,
            },
            None => None,
        }
    } else {
        None
    }
}

/// What reading an invoice yields. A text that lacks the three fields is no
/// invoice; then the contract identifier, the seal and the amount are read in
/// this order, and the first that fails decides the error.
pub open spec fn read_invoice(s: Seq<char>) -> Result<InvoiceView, RequestError> {
    match invoice_fields(s) {
        None => Err(RequestError::Invoice),
        Some((c, e, a)) => match contract_id_of_text(c) {
            None => Err(RequestError::Bech32),
            Some(id) => match read_seal_endpoint(e) {
                Err(x) => Err(x),
                Ok(seal) => match amount_of_text(a) {
                    None => Err(RequestError::ParseInt),
                    Some(amount) => Ok(InvoiceView { contract_id: id, seal, amount }),
                },
            },
        },
    }
}

/// What building an invoice yields: the contract identifier and the outpoint
/// are read in this order, the outpoint is concealed under the blinding
/// factor, and the reveal is kept beside the invoice.
pub open spec fn built_invoice(
    asset_id: Seq<char>,
    amount: u64,
    outpoint: Seq<char>,
    blinding: u64,
) -> Result<(InvoiceView, (u64, Seq<u8>, u32)), RequestError> {
    match contract_id_of_text(asset_id) {
        None => Err(RequestError::Bech32),
        Some(id) => match outpoint_of_text(outpoint) {
            None => Err(RequestError::Outpoint),
            Some(o) => Ok(
                (
                    InvoiceView {
                        contract_id: id,
                        seal: SealKey::Blinded(seal_commitment(blinding, o.0, o.1)),
                        amount,
                    },
                    (blinding, o.0, o.1),
                ),
            ),
        },
    }
}

/// The fields of an invoice text are the three texts that it was joined
/// from, where none of them holds a `/`.
pub proof fn lemma_invoice_fields(c: Seq<char>, e: Seq<char>, a: Seq<char>)
    requires
        free_of(c, '/'),
        free_of(e, '/'),
        free_of(a, '/'),
    ensures
        invoice_fields(invoice_scheme() + c + seq!['/'] + e + seq!['/'] + a) == Some((c, e, a)),
{
    let s = invoice_scheme() + c + seq!['/'] + e + seq!['/'] + a;
    let rest = e + seq!['/'] + a;
    assert(s.take(6) =~= invoice_scheme());
    assert(s.skip(6) =~= c + seq!['/'] + rest);
    lemma_cut_joined(c, '/', rest);
    lemma_pair_joined(e, '/', a);
}

/// Reading is the inverse of writing: the text of an invoice reads back as
/// that invoice, whatever the contract, the seal and the amount.
pub proof fn lemma_invoice_round_trip(invoice: InvoiceView)
    requires
        contract_id_reads_back(invoice.contract_id),
        seal_reads_back(invoice.seal),
    ensures
        read_invoice(invoice_text(invoice)) == Ok::<InvoiceView, RequestError>(invoice),
{
    let c = text_of_contract_id(invoice.contract_id);
    let e = text_of_seal_endpoint(invoice.seal);
    let a = digits_of(invoice.amount as nat);
    lemma_plain_is_free(c);
    lemma_seal_text(invoice.seal);
    lemma_digits_round_trip(invoice.amount as nat);
    lemma_digits_are_free(a);
    lemma_amount_round_trip(invoice.amount);
    lemma_invoice_fields(c, e, a);
}

impl Invoice {
    /// Writes the invoice as text. Reading the text yields the invoice again.
    pub fn to_text(&self) -> (r: String)
        ensures
            r@ == invoice_text(self@),
            read_invoice(r@) == Ok::<InvoiceView, RequestError>(self@),
    {
        let c = self.contract_id.to_text();
        let e = self.seal.to_text();
        let a = format_amount(self.amount);
        proof {
            reveal_strlit("rgb20:");
            reveal_strlit("/");
            lemma_invoice_round_trip(self@);
        }
        let mut r = String::from_str("rgb20:");
        assert(r@ =~= invoice_scheme());
        assert("/"@ =~= seq!['/']);
        r.append(c.as_str());
        r.append("/");
        r.append(e.as_str());
        r.append("/");
        r.append(a.as_str());
        r
    }

    /// Reads an invoice from its text.
    pub fn from_text(s: &str) -> (r: Result<Invoice, RequestError>)
        ensures
            r matches Ok(inv) ==> read_invoice(s@) == Ok::<InvoiceView, RequestError>(inv@),
            r matches Err(x) ==> read_invoice(s@) == Err::<InvoiceView, RequestError>(x),
    {
        proof {
            reveal_strlit("rgb20:");
        }
        assert("rgb20:"@ =~= invoice_scheme());
        if !starts_with(s, "rgb20:") {
            return Err(RequestError::Invoice);
        }
        let n: usize = s.unicode_len();
        let body = s.substring_char(6, n);
        assert(body@ =~= s@.skip(6));
        let (c, rest) = match split_first(body, '/') {
            Some(p) => p,
            None => {
                return Err(RequestError::Invoice);
            },
        };
        let (e, a) = match split_pair(rest, '/') {
            Some(p) => p,
            None => {
                return Err(RequestError::Invoice);
            },
        };
        let contract_id = match ContractId::from_text(c) {
            Some(id) => id,
            None => {
                return Err(RequestError::Bech32);
            },
        };
        let seal = match SealEndpoint::read(e) {
            Ok(seal) => seal,
            Err(x) => {
                return Err(x);
            },
        };
        let amount = match parse_amount(a) {
            Some(amount) => amount,
            None => {
                return Err(RequestError::ParseInt);
            },
        };
        Ok(Invoice { contract_id, seal, amount })
    }
}

/// Builds an invoice for `amount` units of the asset `asset_id`, to be paid
/// to `outpoint` concealed under `blinding`.
pub fn build_invoice(asset_id: &str, amount: u64, outpoint: &str, blinding: u64) -> (r: Result<
    BlindedInvoice,
    RequestError,
>)
    ensures
        r matches Ok(b) ==> built_invoice(asset_id@, amount, outpoint@, blinding) == Ok::<
            (InvoiceView, (u64, Seq<u8>, u32)),
            RequestError,
        >((b.invoice@, b.reveal@)),
        r matches Err(x) ==> built_invoice(asset_id@, amount, outpoint@, blinding) == Err::<
            (InvoiceView, (u64, Seq<u8>, u32)),
            RequestError,
        >(x),
{
    let contract_id = match ContractId::from_text(asset_id) {
        Some(id) => id,
        None => {
            return Err(RequestError::Bech32);
        },
    };
    let target = match OutPoint::from_text(outpoint) {
        Some(o) => o,
        None => {
            return Err(RequestError::Outpoint);
        },
    };
    let reveal = OutpointReveal::new(&target, blinding);
    let seal = SealEndpoint::Blinded(reveal.conceal());
    Ok(BlindedInvoice { invoice: Invoice { contract_id, seal, amount }, reveal })
}

/// Builds an invoice for `amount` units of the asset `asset_id`, to be paid
/// to `outpoint` concealed under a blinding factor drawn at random. The
/// result is what `build_invoice` yields for the factor that was drawn; a
/// failure is that of the arguments, whatever would have been drawn.
pub fn rgb20_invoice(asset_id: &str, amount: u64, outpoint: &str) -> (r: Result<
    BlindedInvoice,
    RequestError,
>)
    ensures
        r matches Ok(b) ==> built_invoice(asset_id@, amount, outpoint@, b.reveal.blinding) == Ok::<
            (InvoiceView, (u64, Seq<u8>, u32)),
            RequestError,
        >((b.invoice@, b.reveal@)),
        r matches Err(x) ==> forall|blinding: u64|
            built_invoice(asset_id@, amount, outpoint@, blinding) == Err::<
                (InvoiceView, (u64, Seq<u8>, u32)),
                RequestError,
            >(x),
        r is Ok <==> contract_id_of_text(asset_id@) is Some && outpoint_of_text(outpoint@) is Some,
{
    let contract_id = match ContractId::from_text(asset_id) {
        Some(id) => id,
        None => {
            return Err(RequestError::Bech32);
        },
    };
    let target = match OutPoint::from_text(outpoint) {
        Some(o) => o,
        None => {
            return Err(RequestError::Outpoint);
        },
    };
    let reveal = OutpointReveal::blind(&target);
    let seal = SealEndpoint::Blinded(reveal.conceal());
    Ok(BlindedInvoice { invoice: Invoice { contract_id, seal, amount }, reveal })
}

} // verus!
