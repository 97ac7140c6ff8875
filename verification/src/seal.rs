//! Outpoints, contract identifiers and seals: the values that name a spendable
//! location, in the open or behind a blinding commitment.
//!
//! The textual forms and the commitment itself are computed by the `bitcoin`,
//! `lnpbp` and `rgb` crates. What those calls return is named here, so that the
//! contracts of the library can speak of it.

use crate::error::RequestError;
use crate::text::{find_from, free_of};
use vstd::prelude::*;

verus! {

/// The error of `bitcoin::OutPoint::from_str`, carried through unread.
#[verifier::external_type_specification]
#[verifier::external_body]
pub struct ExParseOutPointError(bitcoin::blockdata::transaction::ParseOutPointError);

/// The error of `rgb::ContractId::from_str`, carried through unread.
#[verifier::external_type_specification]
#[verifier::external_body]
pub struct ExContractIdError(rgb::bech32::Error);

/// The error of `lnpbp::seals::OutpointHash::from_str`, carried through
/// unread.
#[verifier::external_type_specification]
#[verifier::external_body]
pub struct ExBlindedSealError(lnpbp::bech32::Error);

/// What `bitcoin::OutPoint::from_str` makes of a text: the transaction
/// identifier, as its 32 bytes in hashing order, and the output number.
pub uninterp spec fn outpoint_of_text(s: Seq<char>) -> Option<(Seq<u8>, u32)>;

/// The text that `bitcoin::OutPoint` displays for a transaction identifier
/// and an output number.
pub uninterp spec fn text_of_outpoint(txid: Seq<u8>, vout: u32) -> Seq<char>;

/// What `rgb::ContractId::from_str` makes of a text: the 32 bytes of the
/// identifier.
pub uninterp spec fn contract_id_of_text(s: Seq<char>) -> Option<Seq<u8>>;

/// The Bech32 text that `rgb::ContractId` displays for the given 32 bytes.
pub uninterp spec fn text_of_contract_id(id: Seq<u8>) -> Seq<char>;

/// What `lnpbp::seals::OutpointHash::from_str` makes of a text: the 32 bytes
/// of the commitment.
pub uninterp spec fn blinded_seal_of_text(s: Seq<char>) -> Option<Seq<u8>>;

/// The Bech32 text that `lnpbp::seals::OutpointHash` displays for the given
/// 32 bytes.
pub uninterp spec fn text_of_blinded_seal(hash: Seq<u8>) -> Seq<char>;

/// The commitment that `lnpbp::seals::OutpointReveal::commit_conceal` computes
/// for a blinding factor, a transaction identifier and an output number.
pub uninterp spec fn seal_commitment(blinding: u64, txid: Seq<u8>, vout: u32) -> Seq<u8>;

/// Whether `c` is a lower-case letter or a digit of ASCII.
pub open spec fn is_plain_char(c: char) -> bool {
    48 <= c as u32 <= 57 || 97 <= c as u32 <= 122
}

/// Whether a text consists of lower-case letters and digits only, as every
/// Bech32 text with a lower-case prefix does.
pub open spec fn is_plain_text(s: Seq<char>) -> bool {
    forall|i: int| 0 <= i < s.len() ==> is_plain_char(#[trigger] s[i])
}

/// Whether a text consists of lower-case letters, digits and at least one
/// colon, as the text of every outpoint does.
pub open spec fn is_outpoint_shaped(s: Seq<char>) -> bool {
    &&& forall|i: int| 0 <= i < s.len() ==> is_plain_char(#[trigger] s[i]) || s[i] == ':'
    &&& exists|i: int| 0 <= i < s.len() && #[trigger] s[i] == ':'
}

/// A transaction output: the spendable location that a seal is bound to.
#[derive(Clone, Copy, Debug, PartialEq, Eq)]
pub struct OutPoint {
    /// The transaction identifier, in hashing byte order.
    pub txid: [u8; 32],
    /// The number of the output within the transaction.
    pub vout: u32,
}

/// The identifier of an issued asset.
#[derive(Clone, Copy, Debug, PartialEq, Eq)]
pub struct ContractId {
    pub bytes: [u8; 32],
}

/// A blinded seal: the commitment to an outpoint and a blinding factor.
#[derive(Clone, Copy, Debug, PartialEq, Eq)]
pub struct OutpointHash {
    pub bytes: [u8; 32],
}

/// An outpoint together with the blinding factor that conceals it.
#[derive(Clone, Copy, Debug, PartialEq, Eq)]
pub struct OutpointReveal {
    pub blinding: u64,
    pub txid: [u8; 32],
    pub vout: u32,
}

/// Where a payment goes: to a blinded seal, or to an outpoint named in the
/// open.
#[derive(Clone, Copy, Debug, PartialEq, Eq)]
pub enum SealEndpoint {
    Blinded(OutpointHash),
    Explicit(OutPoint),
}

impl View for OutPoint {
    type V = (Seq<u8>, u32);

    open spec fn view(&self) -> (Seq<u8>, u32) {
        (self.txid@, self.vout)
    }
}

impl View for ContractId {
    type V = Seq<u8>;

    open spec fn view(&self) -> Seq<u8> {
        self.bytes@
    }
}

impl View for OutpointHash {
    type V = Seq<u8>;

    open spec fn view(&self) -> Seq<u8> {
        self.bytes@
    }
}

impl View for OutpointReveal {
    type V = (u64, Seq<u8>, u32);

    open spec fn view(&self) -> (u64, Seq<u8>, u32) {
        (self.blinding, self.txid@, self.vout)
    }
}

/// The key of a seal endpoint: its kind, its 32 bytes, and the output number
/// of an explicit one.
pub enum SealKey {
    Blinded(Seq<u8>),
    Explicit(Seq<u8>, u32),
}

impl View for SealEndpoint {
    type V = SealKey;

    open spec fn view(&self) -> SealKey {
        match *self {
            SealEndpoint::Blinded(h) => SealKey::Blinded(h@),
            SealEndpoint::Explicit(o) => SealKey::Explicit(o.txid@, o.vout),
        }
    }
}

/// The seal endpoint that a text names: an explicit outpoint where the text
/// holds a colon, a blinded seal where it holds none.
pub open spec fn seal_endpoint_of_text(s: Seq<char>) -> Option<SealKey> {
    if free_of(s, ':') {
        match blinded_seal_of_text(s) {
            Some(h) => Some(SealKey::Blinded(h)),
            None => None,
        }
    } else {
        match outpoint_of_text(s) {
            Some(o) => Some(SealKey::Explicit(o.0, o.1)),
            None => None,
        }
    }
}

/// What reading a seal endpoint yields: the endpoint, or the failure of the
/// kind of text that was given.
pub open spec fn read_seal_endpoint(s: Seq<char>) -> Result<SealKey, RequestError> {
    match seal_endpoint_of_text(s) {
        Some(k) => Ok(k),
        None => if free_of(s, ':') {
            Err(RequestError::Bech32)
        } else {
            Err(RequestError::Outpoint)
        },
    }
}

/// The text of a seal endpoint.
pub open spec fn text_of_seal_endpoint(key: SealKey) -> Seq<char> {
    match key {
        SealKey::Blinded(h) => text_of_blinded_seal(h),
        SealKey::Explicit(txid, vout) => text_of_outpoint(txid, vout),
    }
}

/// Whether the text of a contract identifier is made of lower-case letters
/// and digits and reads back as the identifier. Every identifier that the
/// library holds is such: `ContractId::to_text` says so.
pub open spec fn contract_id_reads_back(id: Seq<u8>) -> bool {
    let text = text_of_contract_id(id);
    is_plain_text(text) && contract_id_of_text(text) == Some(id)
}

/// Whether the text of a seal endpoint has the shape of its kind and reads
/// back as the endpoint. Every endpoint that the library holds is such:
/// `SealEndpoint::to_text` says so.
pub open spec fn seal_reads_back(key: SealKey) -> bool {
    match key {
        SealKey::Blinded(h) => {
            let text = text_of_blinded_seal(h);
            is_plain_text(text) && blinded_seal_of_text(text) == Some(h)
        },
        SealKey::Explicit(txid, vout) => {
            let text = text_of_outpoint(txid, vout);
            is_outpoint_shaped(text) && outpoint_of_text(text) == Some((txid, vout))
        },
    }
}

/// The text of a seal endpoint that reads back holds neither `/` nor `@`, and
/// names the endpoint.
pub proof fn lemma_seal_text(key: SealKey)
    requires
        seal_reads_back(key),
    ensures
        free_of(text_of_seal_endpoint(key), '/'),
        free_of(text_of_seal_endpoint(key), '@'),
        seal_endpoint_of_text(text_of_seal_endpoint(key)) == Some(key),
        read_seal_endpoint(text_of_seal_endpoint(key)) == Ok::<SealKey, RequestError>(key),
{
    let text = text_of_seal_endpoint(key);
    match key {
        SealKey::Blinded(h) => {
            lemma_plain_is_free(text);
        },
        SealKey::Explicit(txid, vout) => {
            assert forall|j: int| 0 <= j < text.len() implies text[j] != '/' && text[j] != '@' by {
                assert(is_plain_char(text[j]) || text[j] == ':');
            }
        },
    }
}

/// A text of lower-case letters and digits holds none of the separators.
pub proof fn lemma_plain_is_free(s: Seq<char>)
    requires
        is_plain_text(s),
    ensures
        free_of(s, '/'),
        free_of(s, '@'),
        free_of(s, ':'),
{
    assert forall|j: int| 0 <= j < s.len() implies s[j] != '/' && s[j] != '@' && s[j] != ':' by {
        assert(is_plain_char(s[j]));
    }
}

/// Blinding is deterministic: the same outpoint under the same blinding
/// factor conceals to the same commitment.
pub proof fn lemma_commitment_is_deterministic(a: OutpointReveal, b: OutpointReveal)
    requires
        a@ == b@,
    ensures
        a.commitment() == b.commitment(),
{
}

/// Whether two 32-byte values hold the same bytes.
pub fn same_bytes(a: &[u8; 32], b: &[u8; 32]) -> (r: bool)
    ensures
        r == (a@ == b@),
{
    let mut i: usize = 0;
    while i < 32
        invariant
            i <= 32,
            forall|j: int| 0 <= j < i ==> a@[j] == b@[j],
        decreases 32 - i,
    {
        if a[i] != b[i] {
            assert(a@[i as int] != b@[i as int]);
            return false;
        }
        i = i + 1;
    }
    assert(a@ =~= b@);
    true
}

/// Calls `bitcoin::OutPoint::from_str`. The contract names the result: the
/// text is an outpoint exactly when the call succeeds, and the bytes and the
/// output number are those of the parsed value.
#[verifier::external_body]
fn outpoint_from_str(s: &str) -> (r: Result<
    OutPoint,
    bitcoin::blockdata::transaction::ParseOutPointError,
>)
    ensures
        match r {
            Ok(o) => outpoint_of_text(s@) == Some(o@),
            Err(_) => outpoint_of_text(s@) is None,
        },
{
    match <bitcoin::OutPoint as std::str::FromStr>::from_str(s) {
        Ok(o) => Ok(OutPoint { txid: bitcoin::hashes::Hash::into_inner(o.txid), vout: o.vout }),
        Err(e) => Err(e),
    }
}

/// Calls `to_string` of `bitcoin::OutPoint`, which writes the transaction
/// identifier in hexadecimal, a colon and the output number in decimal. The
/// contract names the text and adds that it has that shape and that reading
/// it yields the outpoint again.
#[verifier::external_body]
fn outpoint_to_string(outpoint: &OutPoint) -> (r: String)
    ensures
        r@ == text_of_outpoint(outpoint.txid@, outpoint.vout),
        is_outpoint_shaped(r@),
        outpoint_of_text(r@) == Some(outpoint@),
{
    let txid = bitcoin::hashes::Hash::from_inner(outpoint.txid);
    bitcoin::OutPoint::new(txid, outpoint.vout).to_string()
}

/// Calls `rgb::ContractId::from_str`. The contract names the result.
#[verifier::external_body]
fn contract_id_from_str(s: &str) -> (r: Result<ContractId, rgb::bech32::Error>)
    ensures
        match r {
            Ok(id) => contract_id_of_text(s@) == Some(id@),
            Err(_) => contract_id_of_text(s@) is None,
        },
{
    match <rgb::ContractId as std::str::FromStr>::from_str(s) {
        Ok(id) => {
            let mut bytes = [0u8; 32];
            bytes.copy_from_slice(&id[..]);
            Ok(ContractId { bytes })
        },
        Err(e) => Err(e),
    }
}

/// Calls `to_string` of `rgb::ContractId`. The contract names the text and
/// adds what Bech32 gives: the text is made of lower-case letters and digits,
/// and reading it yields the identifier again.
#[verifier::external_body]
fn contract_id_to_string(id: &ContractId) -> (r: String)
    ensures
        r@ == text_of_contract_id(id@),
        is_plain_text(r@),
        contract_id_of_text(r@) == Some(id@),
{
    let hash = bitcoin::hashes::Hash::from_inner(id.bytes);
    <rgb::ContractId as From<bitcoin::hashes::sha256t::Hash<rgb::contract::nodes::NodeIdTag>>>::from(
        hash,
    ).to_string()
}

/// Calls `lnpbp::seals::OutpointHash::from_str`. The contract names the
/// result.
#[verifier::external_body]
fn blinded_seal_from_str(s: &str) -> (r: Result<OutpointHash, lnpbp::bech32::Error>)
    ensures
        match r {
            Ok(h) => blinded_seal_of_text(s@) == Some(h@),
            Err(_) => blinded_seal_of_text(s@) is None,
        },
{
    match <lnpbp::seals::OutpointHash as std::str::FromStr>::from_str(s) {
        Ok(h) => {
            let mut bytes = [0u8; 32];
            bytes.copy_from_slice(&h[..]);
            Ok(OutpointHash { bytes })
        },
        Err(e) => Err(e),
    }
}

/// Calls `to_string` of `lnpbp::seals::OutpointHash`. The contract names the
/// text and adds what Bech32 gives: the text is made of lower-case letters and
/// digits, and reading it yields the commitment again.
#[verifier::external_body]
fn blinded_seal_to_string(hash: &OutpointHash) -> (r: String)
    ensures
        r@ == text_of_blinded_seal(hash@),
        is_plain_text(r@),
        blinded_seal_of_text(r@) == Some(hash@),
{
    let inner = bitcoin::hashes::Hash::from_inner(hash.bytes);
    <lnpbp::seals::OutpointHash as From<bitcoin::hashes::sha256t::Hash<_>>>::from(inner).to_string()
}

/// Calls `commit_conceal` of `lnpbp::seals::OutpointReveal`. The contract
/// names the commitment as a function of the blinding factor, the transaction
/// identifier and the output number.
#[verifier::external_body]
fn commit_conceal(reveal: &OutpointReveal) -> (r: OutpointHash)
    ensures
        r@ == seal_commitment(reveal.blinding, reveal.txid@, reveal.vout),
{
    let outside = lnpbp::seals::OutpointReveal {
        blinding: reveal.blinding,
        txid: bitcoin::hashes::Hash::from_inner(reveal.txid),
        vout: reveal.vout,
    };
    let hash = lnpbp::client_side_validation::CommitConceal::commit_conceal(&outside);
    let mut bytes = [0u8; 32];
    bytes.copy_from_slice(&hash[..]);
    OutpointHash { bytes }
}

/// Calls `lnpbp::seals::OutpointReveal::from` on an outpoint, which draws a
/// blinding factor at random. Only the outpoint is promised of the result.
#[verifier::external_body]
fn reveal_from_outpoint(outpoint: &OutPoint) -> (r: OutpointReveal)
    ensures
        r.txid@ == outpoint.txid@,
        r.vout == outpoint.vout,
{
    let txid = bitcoin::hashes::Hash::from_inner(outpoint.txid);
    let drawn = lnpbp::seals::OutpointReveal::from(bitcoin::OutPoint::new(txid, outpoint.vout));
    OutpointReveal {
        blinding: drawn.blinding,
        txid: bitcoin::hashes::Hash::into_inner(drawn.txid),
        vout: drawn.vout,
    }
}

impl OutPoint {
    /// Reads an outpoint of the form `<txid>:<vout>`.
    pub fn from_text(s: &str) -> (r: Option<OutPoint>)
        ensures
            r is Some <==> outpoint_of_text(s@) is Some,
            r matches Some(o) ==> outpoint_of_text(s@) == Some(o@),
    {
        match outpoint_from_str(s) {
            Ok(o) => Some(o),
            Err(_) => None,
        }
    }

    /// The text of the outpoint, of the form `<txid>:<vout>`.
    pub fn to_text(&self) -> (r: String)
        ensures
            r@ == text_of_outpoint(self.txid@, self.vout),
            is_outpoint_shaped(r@),
            outpoint_of_text(r@) == Some(self@),
    {
        outpoint_to_string(self)
    }

    /// Whether two outpoints name the same transaction output.
    pub fn same(&self, other: &OutPoint) -> (r: bool)
        ensures
            r == (self@ == other@),
    {
        self.vout == other.vout && same_bytes(&self.txid, &other.txid)
    }
}

impl ContractId {
    /// Reads a contract identifier from its Bech32 text.
    pub fn from_text(s: &str) -> (r: Option<ContractId>)
        ensures
            r is Some <==> contract_id_of_text(s@) is Some,
            r matches Some(id) ==> contract_id_of_text(s@) == Some(id@),
    {
        match contract_id_from_str(s) {
            Ok(id) => Some(id),
            Err(_) => None,
        }
    }

    /// The Bech32 text of the identifier. Reading the text yields the
    /// identifier again.
    pub fn to_text(&self) -> (r: String)
        ensures
            r@ == text_of_contract_id(self@),
            contract_id_reads_back(self@),
    {
        contract_id_to_string(self)
    }

    /// Whether two identifiers name the same contract.
    pub fn same(&self, other: &ContractId) -> (r: bool)
        ensures
            r == (self@ == other@),
    {
        same_bytes(&self.bytes, &other.bytes)
    }
}

impl OutpointHash {
    /// Reads a blinded seal from its Bech32 text.
    pub fn from_text(s: &str) -> (r: Option<OutpointHash>)
        ensures
            r is Some <==> blinded_seal_of_text(s@) is Some,
            r matches Some(h) ==> blinded_seal_of_text(s@) == Some(h@),
    {
        match blinded_seal_from_str(s) {
            Ok(h) => Some(h),
            Err(_) => None,
        }
    }

    /// The Bech32 text of the blinded seal.
    pub fn to_text(&self) -> (r: String)
        ensures
            r@ == text_of_blinded_seal(self@),
            is_plain_text(r@),
            blinded_seal_of_text(r@) == Some(self@),
    {
        blinded_seal_to_string(self)
    }

    /// Whether two blinded seals are the same commitment.
    pub fn same(&self, other: &OutpointHash) -> (r: bool)
        ensures
            r == (self@ == other@),
    {
        same_bytes(&self.bytes, &other.bytes)
    }
}

impl OutpointReveal {
    /// The reveal of `outpoint` under the given blinding factor.
    pub fn new(outpoint: &OutPoint, blinding: u64) -> (r: OutpointReveal)
        ensures
            r@ == (blinding, outpoint.txid@, outpoint.vout),
    {
        OutpointReveal { blinding, txid: outpoint.txid, vout: outpoint.vout }
    }

    /// The reveal of `outpoint` under a blinding factor drawn at random.
    pub fn blind(outpoint: &OutPoint) -> (r: OutpointReveal)
        ensures
            r.outpoint()@ == outpoint@,
    {
        reveal_from_outpoint(outpoint)
    }

    /// The outpoint that is revealed.
    pub open spec fn outpoint(&self) -> OutPoint {
        OutPoint { txid: self.txid, vout: self.vout }
    }

    /// The commitment that conceals this reveal.
    pub open spec fn commitment(&self) -> Seq<u8> {
        seal_commitment(self.blinding, self.txid@, self.vout)
    }

    /// Computes the blinded seal of this reveal.
    pub fn conceal(&self) -> (r: OutpointHash)
        ensures
            r@ == self.commitment(),
    {
        commit_conceal(self)
    }
}

impl SealEndpoint {
    /// Reads a seal reference: the Bech32 text of a blinded seal, or an
    /// outpoint of the form `<txid>:<vout>`.
    pub fn from_text(s: &str) -> (r: Option<SealEndpoint>)
        ensures
            r is Some <==> seal_endpoint_of_text(s@) is Some,
            r matches Some(e) ==> seal_endpoint_of_text(s@) == Some(e@),
    {
        match find_from(s, ':', 0) {
            None => match OutpointHash::from_text(s) {
                Some(h) => Some(SealEndpoint::Blinded(h)),
                None => None,
            },
            Some(i) => match OutPoint::from_text(s) {
                Some(o) => Some(SealEndpoint::Explicit(o)),
                None => None,
            },
        }
    }

    /// Reads a seal reference and says, where it cannot be read, which kind of
    /// text it failed as.
    pub fn read(s: &str) -> (r: Result<SealEndpoint, RequestError>)
        ensures
            r matches Ok(e) ==> read_seal_endpoint(s@) == Ok::<SealKey, RequestError>(e@),
            r matches Err(x) ==> read_seal_endpoint(s@) == Err::<SealKey, RequestError>(x),
    {
        match SealEndpoint::from_text(s) {
            Some(e) => Ok(e),
            None => match find_from(s, ':', 0) {
                None => Err(RequestError::Bech32),
                Some(i) => Err(RequestError::Outpoint),
            },
        }
    }

    /// The text of the endpoint: Bech32 for a blinded seal, `<txid>:<vout>`
    /// for an explicit one. Reading the text yields the endpoint again.
    pub fn to_text(&self) -> (r: String)
        ensures
            r@ == text_of_seal_endpoint(self@),
            seal_reads_back(self@),
    {
        match self {
            SealEndpoint::Blinded(h) => h.to_text(),
            SealEndpoint::Explicit(o) => o.to_text(),
        }
    }

    /// Whether two endpoints name the same seal.
    pub fn same(&self, other: &SealEndpoint) -> (r: bool)
        ensures
            r == (self@ == other@),
    {
        match (self, other) {
            (SealEndpoint::Blinded(a), SealEndpoint::Blinded(b)) => a.same(b),
            (SealEndpoint::Explicit(a), SealEndpoint::Explicit(b)) => a.same(b),
            _ => false,
        }
    }
}

} // verus!
