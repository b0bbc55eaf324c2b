//! What the library takes from other crates and from the standard library, and
//! what it relies on there. Nothing in this file is proved: each item states what
//! the code behind it does.

use base64::Engine;
use dns_update::DnsUpdater;
use hickory_proto::rr::{Name, TSigner};
use instant_acme::AccountCredentials;
use vstd::prelude::*;
use vstd::utf8::*;

use crate::encoding::base64_text;
use crate::query::{mac_supported, TsigAlgorithm};

verus! {

// ---- base64 --------------------------------------------------------------

/// What base64's standard engine says about a text that it does not decode.
pub uninterp spec fn base64_error(text: Seq<char>) -> Seq<char>;

/// `Engine::decode` of base64's `STANDARD` engine: padding is required, unused bits
/// are zero and nothing else is skipped over, so that a text decodes exactly where
/// it is the padded notation of some bytes, and to those bytes. Any other text is
/// refused with a message.
#[verifier::external_body]
pub(crate) fn decode_base64(text: &str) -> (r: Result<Vec<u8>, String>)
    ensures
        match r {
            Ok(bytes) => text@ == base64_text(bytes@),
            Err(e) => e@ == base64_error(text@) && forall|b: Seq<u8>|
                text@ != #[trigger] base64_text(b),
        },
{
    base64::engine::general_purpose::STANDARD.decode(text).map_err(|e| e.to_string())
}

// ---- standard library ----------------------------------------------------

/// `String::push` of the standard library appends the given character and
/// changes nothing before it.
pub assume_specification[ String::push ](s: &mut String, c: char)
    ensures
        final(s)@ == old(s)@.push(c),
;

/// The text that `String::from_utf8_lossy` makes of some bytes.
pub uninterp spec fn lossy_text(bytes: Seq<u8>) -> Seq<char>;

/// `String::from_utf8_lossy` of the standard library: valid UTF-8 is decoded as it
/// stands. What stands for bytes that are not valid is named, not stated.
#[verifier::external_body]
pub(crate) fn utf8_lossy(bytes: &[u8]) -> (r: String)
    ensures
        r@ == lossy_text(bytes@),
        valid_utf8(bytes@) ==> r@ == decode_utf8(bytes@),
{
    String::from_utf8_lossy(bytes).into_owned()
}

// ---- hickory-proto -------------------------------------------------------

/// A domain name of hickory-proto: its labels, and whether it is fully qualified.
#[verifier::external_type_specification]
#[verifier::external_body]
pub struct ExName(Name);

/// The labels of a name, from the most specific one.
pub uninterp spec fn name_labels(n: Name) -> Seq<Seq<u8>>;

/// Whether a name is fully qualified.
pub uninterp spec fn name_fqdn(n: Name) -> bool;

/// The ASCII lower-case letter of an ASCII upper-case letter; any other byte itself.
pub open spec fn lower_byte(b: u8) -> u8 {
    if 'A' as u8 <= b <= 'Z' as u8 {
        (b + 32) as u8
    } else {
        b
    }
}

/// Whether two rows of labels are the same but for the case of ASCII letters.
pub open spec fn same_labels(a: Seq<Seq<u8>>, b: Seq<Seq<u8>>) -> bool {
    a.len() == b.len() && forall|i: int|
        0 <= i < a.len() ==> (#[trigger] a[i]).map_values(|x: u8| lower_byte(x))
            == b[i].map_values(|x: u8| lower_byte(x))
}

/// What `Name::from_str_relaxed` makes of a text: labels and whether the name is
/// fully qualified, or a message.
pub uninterp spec fn relaxed_name(text: Seq<char>) -> Result<(Seq<Seq<u8>>, bool), Seq<char>>;

/// `Name::from_str_relaxed` of hickory-proto: an internationalised reading of the
/// text where there is one, else an ASCII reading.
#[verifier::external_body]
pub(crate) fn parse_relaxed(text: &str) -> (r: Result<Name, String>)
    ensures
        match r {
            Ok(n) => relaxed_name(text@) == Ok::<(Seq<Seq<u8>>, bool), Seq<char>>(
                (name_labels(n), name_fqdn(n)),
            ),
            Err(e) => relaxed_name(text@) == Err::<(Seq<Seq<u8>>, bool), Seq<char>>(e@),
        },
{
    Name::from_str_relaxed(text).map_err(|e| e.to_string())
}

/// What `Name::from_ascii` makes of a text: labels, or a message.
pub uninterp spec fn ascii_name(text: Seq<char>) -> Result<Seq<Seq<u8>>, Seq<char>>;

/// `Name::from_ascii` of hickory-proto: reads a name that is written in ASCII.
#[verifier::external_body]
pub(crate) fn parse_ascii(text: &str) -> (r: Result<Name, String>)
    ensures
        match r {
            Ok(n) => ascii_name(text@) == Ok::<Seq<Seq<u8>>, Seq<char>>(name_labels(n)),
            Err(e) => ascii_name(text@) == Err::<Seq<Seq<u8>>, Seq<char>>(e@),
        },
{
    Name::from_ascii(text).map_err(|e| e.to_string())
}

/// `==` on two `Name`s of hickory-proto: both are fully qualified or neither is, and
/// their labels are the same but for the case of ASCII letters.
#[verifier::external_body]
pub(crate) fn same_name(a: &Name, b: &Name) -> (r: bool)
    ensures
        r == (name_fqdn(*a) == name_fqdn(*b) && same_labels(name_labels(*a), name_labels(*b))),
{
    a == b
}

/// The text that `Name::to_utf8` writes for a name.
pub uninterp spec fn name_text(labels: Seq<Seq<u8>>, fqdn: bool) -> Seq<char>;

/// `Name::to_utf8` of hickory-proto: the name in presentation form.
#[verifier::external_body]
pub(crate) fn name_to_text(n: &Name) -> (r: String)
    ensures
        r@ == name_text(name_labels(*n), name_fqdn(*n)),
{
    n.to_utf8()
}

/// A TSIG signer of hickory-proto: the key, its algorithm, its name and the
/// permitted difference of clocks.
#[verifier::external_type_specification]
#[verifier::external_body]
pub struct ExTSigner(TSigner);

/// What a signer holds: the key, the algorithm, the labels of the key's name, and
/// the permitted difference of clocks in seconds.
pub uninterp spec fn signer_parts(s: TSigner) -> (Seq<u8>, TsigAlgorithm, Seq<Seq<u8>>, u16);

/// `TSigner::new` of hickory-proto: refuses an algorithm that it cannot compute,
/// with one message, and else keeps what it is given.
#[verifier::external_body]
pub(crate) fn new_signer(
    key: Vec<u8>,
    algorithm: TsigAlgorithm,
    name: Name,
    fudge: u16,
) -> (r: Result<TSigner, String>)
    ensures
        match r {
            Ok(s) => mac_supported(algorithm) && signer_parts(s) == (
                key@,
                algorithm,
                name_labels(name),
                fudge,
            ),
            Err(e) => !mac_supported(algorithm) && e@ == "Tsig unsupported mac algorithm"@,
        },
{
    let algorithm = match algorithm {
        TsigAlgorithm::HmacSha1 => hickory_proto::rr::rdata::tsig::TsigAlgorithm::HmacSha1,
        TsigAlgorithm::HmacSha224 => hickory_proto::rr::rdata::tsig::TsigAlgorithm::HmacSha224,
        TsigAlgorithm::HmacSha256 => hickory_proto::rr::rdata::tsig::TsigAlgorithm::HmacSha256,
        TsigAlgorithm::HmacSha384 => hickory_proto::rr::rdata::tsig::TsigAlgorithm::HmacSha384,
        TsigAlgorithm::HmacSha512 => hickory_proto::rr::rdata::tsig::TsigAlgorithm::HmacSha512,
    };
    TSigner::new(key, algorithm, name, fudge).map_err(|e| e.to_string())
}

// ---- dns-update ----------------------------------------------------------

/// The updater of dns-update: where updates go and the key that signs them.
#[verifier::external_type_specification]
#[verifier::external_body]
pub struct ExDnsUpdater(DnsUpdater);

/// What `DnsUpdater::new_rfc2136_tsig` makes of a server's address, a key's name, the key
/// and its algorithm: an updater, or a message.
pub uninterp spec fn tsig_updater(
    addr: Seq<char>,
    key_name: Seq<char>,
    key: Seq<u8>,
    algorithm: TsigAlgorithm,
) -> Result<DnsUpdater, Seq<char>>;

/// `DnsUpdater::new_rfc2136_tsig` of dns-update: refuses an address that it cannot
/// read, a key name that is no name and an algorithm that it cannot compute, and
/// else sends updates to that address, signed with that key. What it makes depends on
/// nothing but what it is given.
#[verifier::external_body]
pub(crate) fn new_updater(
    addr: &str,
    key_name: &str,
    key: Vec<u8>,
    algorithm: TsigAlgorithm,
) -> (r: Result<DnsUpdater, String>)
    ensures
        match r {
            Ok(u) => tsig_updater(addr@, key_name@, key@, algorithm) == Ok::<
                DnsUpdater,
                Seq<char>,
            >(u),
            Err(e) => tsig_updater(addr@, key_name@, key@, algorithm) == Err::<
                DnsUpdater,
                Seq<char>,
            >(e@),
        },
{
    let algorithm = match algorithm {
        TsigAlgorithm::HmacSha1 => dns_update::TsigAlgorithm::HmacSha1,
        TsigAlgorithm::HmacSha224 => dns_update::TsigAlgorithm::HmacSha224,
        TsigAlgorithm::HmacSha256 => dns_update::TsigAlgorithm::HmacSha256,
        TsigAlgorithm::HmacSha384 => dns_update::TsigAlgorithm::HmacSha384,
        TsigAlgorithm::HmacSha512 => dns_update::TsigAlgorithm::HmacSha512,
    };
    DnsUpdater::new_rfc2136_tsig(addr, key_name, key, algorithm).map_err(|e| e.to_string())
}

// ---- x509-parser ---------------------------------------------------------

/// What the first PEM block of some bytes holds, or a message.
pub uninterp spec fn pem_contents(data: Seq<u8>) -> Result<Seq<u8>, Seq<char>>;

/// `parse_x509_pem` of x509-parser: decodes the first PEM block, whatever its label.
#[verifier::external_body]
pub(crate) fn parse_pem(data: &[u8]) -> (r: Result<Vec<u8>, String>)
    ensures
        match r {
            Ok(contents) => pem_contents(data@) == Ok::<Seq<u8>, Seq<char>>(contents@),
            Err(e) => pem_contents(data@) == Err::<Seq<u8>, Seq<char>>(e@),
        },
{
    x509_parser::pem::parse_x509_pem(data).map(|p| p.1.contents).map_err(|e| e.to_string())
}

/// When the certificate in some DER bytes expires, in seconds since the epoch, or a
/// message.
pub uninterp spec fn certificate_end(der: Seq<u8>) -> Result<i64, Seq<char>>;

/// `parse_x509_certificate` of x509-parser, and the end of the validity of what it
/// reads.
#[verifier::external_body]
pub(crate) fn parse_not_after(der: &[u8]) -> (r: Result<i64, String>)
    ensures
        match r {
            Ok(t) => certificate_end(der@) == Ok::<i64, Seq<char>>(t),
            Err(e) => certificate_end(der@) == Err::<i64, Seq<char>>(e@),
        },
{
    x509_parser::parse_x509_certificate(der)
        .map(|c| c.1.validity().not_after.timestamp())
        .map_err(|e| e.to_string())
}

// ---- instant-acme, serde_json --------------------------------------------

/// The credentials of an ACME account.
#[verifier::external_type_specification]
#[verifier::external_body]
pub struct ExAccountCredentials(AccountCredentials);

/// The account credentials that a JSON text holds, or a message.
pub uninterp spec fn stored_credentials(json: Seq<char>) -> Result<AccountCredentials, Seq<char>>;

/// `serde_json::from_str` for the credentials of instant-acme.
#[verifier::external_body]
pub(crate) fn credentials_from_json(json: &str) -> (r: Result<AccountCredentials, String>)
    ensures
        match r {
            Ok(c) => stored_credentials(json@) == Ok::<AccountCredentials, Seq<char>>(c),
            Err(e) => stored_credentials(json@) == Err::<AccountCredentials, Seq<char>>(e@),
        },
{
    serde_json::from_str(json).map_err(|e| e.to_string())
}

/// `serde_json::to_string` for the credentials of instant-acme: these are texts, optional
/// texts and a table from text to text, which are written to memory without fail, and
/// what is written reads back as the same credentials. How the text is laid out is not
/// stated: the entries of the table come in any order.
#[verifier::external_body]
pub(crate) fn credentials_to_json(c: &AccountCredentials) -> (r: Result<String, String>)
    ensures
        match r {
            Ok(json) => stored_credentials(json@) == Ok::<AccountCredentials, Seq<char>>(*c),
            Err(_) => false,
        },
{
    serde_json::to_string(c).map_err(|e| e.to_string())
}

} // verus!
