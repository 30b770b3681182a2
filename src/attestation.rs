//! The calls that decide whether a quote is admitted: hex decoding of the
//! submitted quote, resolution of the collateral bundle, and the quote
//! verification itself.
use vstd::prelude::*;

verus! {

#[verifier::external_type_specification]
#[verifier::external_body]
pub struct ExFromHexError(hex::FromHexError);

#[verifier::external_type_specification]
#[verifier::external_body]
pub struct ExJsonError(serde_json::Error);

#[verifier::external_type_specification]
#[verifier::external_body]
pub struct ExQuoteCollateralV3(dcap_qvl::QuoteCollateralV3);

/// A hexadecimal digit, in either case.
pub open spec fn is_hex_digit(c: char) -> bool {
    ('0' <= c && c <= '9') || ('a' <= c && c <= 'f') || ('A' <= c && c <= 'F')
}

/// The value of a hexadecimal digit.
pub open spec fn hex_digit_value(c: char) -> int {
    if '0' <= c && c <= '9' {
        c as int - '0' as int
    } else if 'a' <= c && c <= 'f' {
        c as int - 'a' as int + 10
    } else {
        c as int - 'A' as int + 10
    }
}

/// Text that decodes as hexadecimal: an even number of hex digits.
pub open spec fn is_hex(s: Seq<char>) -> bool {
    &&& s.len() % 2 == 0
    &&& forall|i: int| 0 <= i < s.len() ==> #[trigger] is_hex_digit(s[i])
}

/// The bytes that hexadecimal text stands for, two digits per byte, the
/// high half first.
pub open spec fn hex_bytes(s: Seq<char>) -> Seq<u8> {
    Seq::new(
        s.len() / 2,
        |i: int| (16 * hex_digit_value(s[2 * i]) + hex_digit_value(s[2 * i + 1])) as u8,
    )
}

/// A collateral bundle: the certificate chains, revocation lists and
/// signed TCB and QE identity material that a quote is checked against.
pub struct Collateral {
    pub pck_crl_issuer_chain: String,
    pub root_ca_crl: Vec<u8>,
    pub pck_crl: Vec<u8>,
    pub tcb_info_issuer_chain: String,
    pub tcb_info: String,
    pub tcb_info_signature: Vec<u8>,
    pub qe_identity_issuer_chain: String,
    pub qe_identity: String,
    pub qe_identity_signature: Vec<u8>,
    pub pck_certificate_chain: Option<String>,
}

/// What a collateral bundle holds.
pub struct CollateralView {
    pub pck_crl_issuer_chain: Seq<char>,
    pub root_ca_crl: Seq<u8>,
    pub pck_crl: Seq<u8>,
    pub tcb_info_issuer_chain: Seq<char>,
    pub tcb_info: Seq<char>,
    pub tcb_info_signature: Seq<u8>,
    pub qe_identity_issuer_chain: Seq<char>,
    pub qe_identity: Seq<char>,
    pub qe_identity_signature: Seq<u8>,
    pub pck_certificate_chain: Option<Seq<char>>,
}

impl View for Collateral {
    type V = CollateralView;

    open spec fn view(&self) -> CollateralView {
        CollateralView {
            pck_crl_issuer_chain: self.pck_crl_issuer_chain@,
            root_ca_crl: self.root_ca_crl@,
            pck_crl: self.pck_crl@,
            tcb_info_issuer_chain: self.tcb_info_issuer_chain@,
            tcb_info: self.tcb_info@,
            tcb_info_signature: self.tcb_info_signature@,
            qe_identity_issuer_chain: self.qe_identity_issuer_chain@,
            qe_identity: self.qe_identity@,
            qe_identity_signature: self.qe_identity_signature@,
            pck_certificate_chain: match self.pck_certificate_chain {
                Some(c) => Some(c@),
                None => None,
            },
        }
    }
}

/// The collateral bundle that a selector resolves to, if any.
pub uninterp spec fn collateral_of(selector: Seq<char>) -> Option<CollateralView>;

/// Whether a quote verifies against a collateral bundle at a time in whole
/// seconds.
pub uninterp spec fn quote_accepted(quote: Seq<u8>, collateral: CollateralView, now_secs: u64) -> bool;

/// Relies on hex::decode: it accepts exactly the strings of an even number of
/// digits `0-9`, `a-f`, `A-F`, and turns each pair into one byte.
#[verifier::external_body]
pub(crate) fn decode_hex(s: &String) -> (r: Result<Vec<u8>, hex::FromHexError>)
    ensures
        r is Ok <==> is_hex(s@),
        r is Ok ==> r->Ok_0@ == hex_bytes(s@),
{
    hex::decode(s)
}

/// Relies on serde_json::from_str, reading the selector as the JSON form of
/// dcap_qvl's `QuoteCollateralV3`: what it yields depends on the text alone.
#[verifier::external_body]
pub(crate) fn resolve_collateral(selector: &String) -> (r: Result<Collateral, serde_json::Error>)
    ensures
        r is Ok <==> collateral_of(selector@) is Some,
        r is Ok ==> collateral_of(selector@) == Some(r->Ok_0@),
{
    match serde_json::from_str::<dcap_qvl::QuoteCollateralV3>(selector) {
        Ok(c) => Ok(Collateral {
            pck_crl_issuer_chain: c.pck_crl_issuer_chain, root_ca_crl: c.root_ca_crl,
            pck_crl: c.pck_crl, tcb_info_issuer_chain: c.tcb_info_issuer_chain,
            tcb_info: c.tcb_info, tcb_info_signature: c.tcb_info_signature,
            qe_identity_issuer_chain: c.qe_identity_issuer_chain, qe_identity: c.qe_identity,
            qe_identity_signature: c.qe_identity_signature,
            pck_certificate_chain: c.pck_certificate_chain,
        }),
        Err(e) => Err(e),
    }
}

/// Relies on dcap_qvl::verify::verify, which checks with Intel's production
/// root whether the quote's signature chain holds against the collateral and
/// the collateral is valid at `now_secs`: the outcome depends on its
/// arguments alone.
#[verifier::external_body]
pub(crate) fn verify_quote(quote: &Vec<u8>, collateral: Collateral, now_secs: u64) -> (r: bool)
    ensures
        r == quote_accepted(quote@, collateral@, now_secs),
{
    let c = dcap_qvl::QuoteCollateralV3 {
        pck_crl_issuer_chain: collateral.pck_crl_issuer_chain, root_ca_crl: collateral.root_ca_crl,
        pck_crl: collateral.pck_crl, tcb_info_issuer_chain: collateral.tcb_info_issuer_chain,
        tcb_info: collateral.tcb_info, tcb_info_signature: collateral.tcb_info_signature,
        qe_identity_issuer_chain: collateral.qe_identity_issuer_chain,
        qe_identity: collateral.qe_identity, qe_identity_signature: collateral.qe_identity_signature,
        pck_certificate_chain: collateral.pck_certificate_chain,
    };
    dcap_qvl::verify::verify(quote, &c, now_secs).is_ok()
}

} // verus!
