//! Malody client authentication: the client's `key` parameter is an
//! RSA-SHA256 (PKCS#1 v1.5) signature of its decimal `uid`, written in
//! URL-safe base64, checked against Malody's public key.
use vstd::prelude::*;

use base64::Engine;
use rsa::pkcs1::DecodeRsaPublicKey;
use sha2::Digest;

use crate::text::{append_decimal_signed, decimal_int};

verus! {

broadcast use vstd::string::group_string_axioms;

/// Malody RSA public key for verifying client `key` signatures (PKCS#1, base64-encoded DER).
pub const MALODY_RSA_PUBKEY: &'static str = "MIGJAoGBALIEG+2iLpMPDqsqr3onEUHu+QtdRANEC6TBl7UtEAm1WondcyAiXsiIYmAZgptOcoLBZH6IfqmoXsv/DbVOdTbyQcgRntwqYEk4mh/boQHbCyOC7bVaoVGEAyaSNDW0WeBaUzAHfa3D8Fe6eDdyvKB2imhS2338ndYvT5dNNUV5AgMBAAE=";

#[verifier::external_type_specification]
#[verifier::external_body]
pub struct ExRsaPublicKey(rsa::RsaPublicKey);

/// What `base64::engine::general_purpose::STANDARD.decode` gives for `input`
/// (`None` when it reports an error).
pub uninterp spec fn base64_standard_decode(input: Seq<u8>) -> Option<Seq<u8>>;

/// What `base64::engine::general_purpose::STANDARD_NO_PAD.decode` gives for
/// `input` (`None` when it reports an error).
pub uninterp spec fn base64_standard_no_pad_decode(input: Seq<u8>) -> Option<Seq<u8>>;

/// The SHA-256 digest of `data`.
pub uninterp spec fn sha256_digest(data: Seq<u8>) -> Seq<u8>;

/// Whether `der` is a PKCS#1 DER encoding that `rsa` accepts as a public key.
pub uninterp spec fn pkcs1_der_is_public_key(der: Seq<u8>) -> bool;

/// Whether `signature` is a valid PKCS#1 v1.5 SHA-256 signature of the
/// digest `hashed` under the public key whose PKCS#1 DER is `key_der`.
pub uninterp spec fn pkcs1v15_sha256_verifies(
    key_der: Seq<u8>,
    hashed: Seq<u8>,
    signature: Seq<u8>,
) -> bool;

/// `STANDARD.decode` from `base64`; `None` stands for its error.
#[verifier::external_body]
fn base64_decode_standard(input: &[u8]) -> (r: Option<Vec<u8>>)
    ensures
        match r {
            Some(v) => base64_standard_decode(input@) == Some(v@),
            None => base64_standard_decode(input@) is None,
        },
{
    match base64::engine::general_purpose::STANDARD.decode(input) {
        Ok(v) => Some(v),
        Err(_) => None,
    }
}

/// `STANDARD_NO_PAD.decode` from `base64`; `None` stands for its error.
#[verifier::external_body]
fn base64_decode_standard_no_pad(input: &[u8]) -> (r: Option<Vec<u8>>)
    ensures
        match r {
            Some(v) => base64_standard_no_pad_decode(input@) == Some(v@),
            None => base64_standard_no_pad_decode(input@) is None,
        },
{
    match base64::engine::general_purpose::STANDARD_NO_PAD.decode(input) {
        Ok(v) => Some(v),
        Err(_) => None,
    }
}

/// `sha2::Sha256::digest`: a 32-byte digest.
#[verifier::external_body]
fn sha256(data: &[u8]) -> (r: Vec<u8>)
    ensures
        r@ == sha256_digest(data@),
        r@.len() == 32,
{
    sha2::Sha256::digest(data).to_vec()
}

/// An RSA public key together with the PKCS#1 DER it was read from. Only
/// [`rsa_public_key_from_pkcs1_der`] builds one, so `key` is always the key
/// that `der` encodes.
pub struct MalodyPublicKey {
    key: rsa::RsaPublicKey,
    der: Vec<u8>,
}

impl View for MalodyPublicKey {
    type V = Seq<u8>;

    closed spec fn view(&self) -> Seq<u8> {
        self.der@
    }
}

/// `rsa::RsaPublicKey::from_pkcs1_der`; `None` stands for its error. The
/// returned key keeps a copy of `der`.
#[verifier::external_body]
fn rsa_public_key_from_pkcs1_der(der: &[u8]) -> (r: Option<MalodyPublicKey>)
    ensures
        r is Some == pkcs1_der_is_public_key(der@),
        r matches Some(k) ==> k@ == der@,
{
    match rsa::RsaPublicKey::from_pkcs1_der(der) {
        Ok(key) => Some(MalodyPublicKey { key, der: der.to_vec() }),
        Err(_) => None,
    }
}

/// `RsaPublicKey::verify` with `Pkcs1v15Sign::new::<Sha256>()`: whether it
/// returns `Ok`.
#[verifier::external_body]
fn rsa_pkcs1v15_sha256_verify(key: &MalodyPublicKey, hashed: &[u8], signature: &[u8]) -> (r: bool)
    ensures
        r == pkcs1v15_sha256_verifies(key@, hashed@, signature@),
{
    key.key.verify(rsa::Pkcs1v15Sign::new::<sha2::Sha256>(), hashed, signature).is_ok()
}

/// The DER of Malody's public key: the base64 text of [`MALODY_RSA_PUBKEY`], decoded.
pub open spec fn malody_key_der() -> Option<Seq<u8>> {
    base64_standard_decode(vstd::utf8::encode_utf8(MALODY_RSA_PUBKEY@))
}

/// Parse the hardcoded Malody RSA public key (PKCS#1 DER, base64-encoded).
pub fn parse_malody_pubkey() -> (r: Option<MalodyPublicKey>)
    ensures
        r is Some <==> (malody_key_der() is Some && pkcs1_der_is_public_key(
            malody_key_der()->0,
        )),
        r matches Some(k) ==> Some(k@) == malody_key_der(),
{
    let text: &str = MALODY_RSA_PUBKEY;
    let der = match base64_decode_standard(text.as_bytes()) {
        Some(d) => d,
        None => return None,
    };
    rsa_public_key_from_pkcs1_der(der.as_slice())
}

/// `b` with each `-` byte as `+` and each `_` byte as `/`: URL-safe base64
/// turned into the standard alphabet.
pub open spec fn standard_alphabet(b: Seq<u8>) -> Seq<u8> {
    Seq::new(
        b.len(),
        |i: int|
            if b[i] == 45 {
                43u8
            } else if b[i] == 95 {
                47u8
            } else {
                b[i]
            },
    )
}

/// The signature bytes a client key stands for: its bytes in the standard
/// alphabet, decoded with padding, or else without.
pub open spec fn decoded_signature(key: Seq<char>) -> Option<Seq<u8>> {
    let b = standard_alphabet(vstd::utf8::encode_utf8(key));
    match base64_standard_decode(b) {
        Some(s) => Some(s),
        None => base64_standard_no_pad_decode(b),
    }
}

/// Whether `key` signs the decimal text of `uid` under the key `key_der`.
pub open spec fn uid_signature_valid(key_der: Seq<u8>, uid: i32, key: Seq<char>) -> bool {
    match decoded_signature(key) {
        Some(sig) => pkcs1v15_sha256_verifies(
            key_der,
            sha256_digest(vstd::utf8::encode_utf8(decimal_int(uid as int))),
            sig,
        ),
        None => false,
    }
}

fn to_standard_alphabet(b: &[u8]) -> (r: Vec<u8>)
    ensures
        r@ == standard_alphabet(b@),
{
    let mut out: Vec<u8> = Vec::new();
    let mut i: usize = 0;
    while i < b.len()
        invariant
            i <= b@.len(),
            out@ =~= standard_alphabet(b@).take(i as int),
        decreases b@.len() - i,
    {
        let c = b[i];
        let d: u8 = if c == 45 {
            43
        } else if c == 95 {
            47
        } else {
            c
        };
        out.push(d);
        i = i + 1;
    }
    assert(out@ =~= standard_alphabet(b@));
    out
}

/// Verify that `key` is a valid RSA-SHA256 (PKCS1v1.5) signature of `uid`.
pub fn verify_uid_signature(pubkey: &MalodyPublicKey, uid: i32, key: &str) -> (r: bool)
    ensures
        r == uid_signature_valid(pubkey@, uid, key@),
{
    let mut uid_str = String::new();
    append_decimal_signed(&mut uid_str, uid as i64);
    assert(uid_str@ =~= decimal_int(uid as int));
    let digest = sha256(uid_str.as_str().as_bytes());

    // Malody uses URL-safe base64 for the signature ( - → + , _ → / ).
    // URL query params often drop trailing = padding, so try both.
    let key_standard = to_standard_alphabet(key.as_bytes());
    let sig_bytes = match base64_decode_standard(key_standard.as_slice()) {
        Some(b) => b,
        None => match base64_decode_standard_no_pad(key_standard.as_slice()) {
            Some(b) => b,
            None => return false,
        },
    };
    rsa_pkcs1v15_sha256_verify(pubkey, digest.as_slice(), sig_bytes.as_slice())
}

/// `b` written in the URL-safe base64 alphabet (RFC 4648, section 5): each
/// `+` byte as `-` and each `/` byte as `_`.
pub open spec fn url_safe_alphabet(b: Seq<u8>) -> Seq<u8> {
    Seq::new(
        b.len(),
        |i: int|
            if b[i] == '+' as u8 {
                '-' as u8
            } else if b[i] == '/' as u8 {
                '_' as u8
            } else {
                b[i]
            },
    )
}

/// A client key is read back as the signature it encodes: when the key is the
/// URL-safe form of a standard base64 text `text` (which holds no `-` or
/// `_`) that decodes to `sig`, the key's signature is `sig`, and the key signs
/// `uid` exactly when `sig` is a valid signature of the uid's decimal digest.
pub proof fn law_url_safe_key_decodes(key_der: Seq<u8>, uid: i32, key: Seq<char>, text: Seq<u8>, sig: Seq<u8>)
    requires
        vstd::utf8::encode_utf8(key) == url_safe_alphabet(text),
        forall|i: int| 0 <= i < text.len() ==> text[i] != '-' as u8 && text[i] != '_' as u8,
        base64_standard_decode(text) == Some(sig),
    ensures
        standard_alphabet(url_safe_alphabet(text)) == text,
        decoded_signature(key) == Some(sig),
        uid_signature_valid(key_der, uid, key) == pkcs1v15_sha256_verifies(
            key_der,
            sha256_digest(vstd::utf8::encode_utf8(decimal_int(uid as int))),
            sig,
        ),
{
    assert(standard_alphabet(url_safe_alphabet(text)) =~= text);
}

} // verus!
