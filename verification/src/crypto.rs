//! The calls into outside crates that the library's logic makes: the
//! AEAD cipher, the keyed hash, base64, UTF-8 decoding, the operating
//! system's random numbers, UUIDs and the monotonic clock. Each item below
//! is trusted: its contract is what the called crate documents.

use vstd::prelude::*;
use aes_gcm::aead::{Aead, KeyInit, Payload};
use base64::Engine;
use hmac::Mac;
use rand::RngCore;

verus! {

// ---------- AES-256-GCM (aes-gcm) ----------

/// What `Aes256Gcm::encrypt` gives for a key, nonce, associated data and
/// message: the ciphertext with its tag, or nothing where it refuses.
pub uninterp spec fn aes256gcm_seal(key: Seq<u8>, nonce: Seq<u8>, aad: Seq<u8>, msg: Seq<u8>) -> Option<Seq<u8>>;

/// What `Aes256Gcm::decrypt` gives for a key, nonce, associated data and
/// ciphertext: the message, or nothing where authentication fails.
pub uninterp spec fn aes256gcm_open(key: Seq<u8>, nonce: Seq<u8>, aad: Seq<u8>, ct: Seq<u8>) -> Option<Seq<u8>>;

/// The longest message, and the longest associated data, that AES-GCM
/// seals: 2^36 bytes (`P_MAX` and `A_MAX` in aes-gcm).
pub open spec fn aes_gcm_max_len() -> nat {
    0x10_0000_0000
}

/// Calls `Aes256Gcm::encrypt` (aes-gcm) with a 32-byte key and a 12-byte
/// nonce (the sizes `from_slice` needs, else it panics). Claims that the
/// result is `aes256gcm_seal` of the arguments, and what the source shows:
/// it refuses exactly a message or associated data longer than 2^36 bytes,
/// and otherwise gives the encrypted message followed by a 16-byte tag.
#[verifier::external_body]
pub(crate) fn seal_aes256gcm(key: &[u8], nonce: &[u8], aad: &[u8], msg: &[u8]) -> (r: Option<Vec<u8>>)
    requires
        key@.len() == 32,
        nonce@.len() == 12,
    ensures
        match r {
            Some(c) => aes256gcm_seal(key@, nonce@, aad@, msg@) == Some(c@),
            None => aes256gcm_seal(key@, nonce@, aad@, msg@) is None,
        },
        r is Some <==> (msg@.len() <= aes_gcm_max_len() && aad@.len() <= aes_gcm_max_len()),
        r matches Some(c) ==> c@.len() == msg@.len() + 16,
{
    let cipher = aes_gcm::Aes256Gcm::new(aes_gcm::Key::<aes_gcm::Aes256Gcm>::from_slice(key));
    cipher.encrypt(aes_gcm::Nonce::from_slice(nonce), Payload { msg, aad }).ok()
}

/// Calls `Aes256Gcm::decrypt` (aes-gcm) with a 32-byte key and a 12-byte
/// nonce. Claims that the result is `aes256gcm_open` of the arguments, and
/// the AEAD's defining property: a ciphertext that `encrypt` produced under
/// the same key, nonce and associated data decrypts to its message.
#[verifier::external_body]
pub(crate) fn open_aes256gcm(key: &[u8], nonce: &[u8], aad: &[u8], ct: &[u8]) -> (r: Option<Vec<u8>>)
    requires
        key@.len() == 32,
        nonce@.len() == 12,
    ensures
        match r {
            Some(m) => aes256gcm_open(key@, nonce@, aad@, ct@) == Some(m@),
            None => aes256gcm_open(key@, nonce@, aad@, ct@) is None,
        },
        forall|m: Seq<u8>|
            #[trigger] aes256gcm_seal(key@, nonce@, aad@, m) == Some(ct@) ==> (r is Some && r->0@ == m),
{
    let cipher = aes_gcm::Aes256Gcm::new(aes_gcm::Key::<aes_gcm::Aes256Gcm>::from_slice(key));
    cipher.decrypt(aes_gcm::Nonce::from_slice(nonce), Payload { msg: ct, aad }).ok()
}

// ---------- HMAC-SHA256 (hmac, sha2) ----------

/// What HMAC-SHA256 gives for a key and a message.
pub uninterp spec fn hmac_sha256(key: Seq<u8>, msg: Seq<u8>) -> Seq<u8>;

/// Calls `Hmac::<Sha256>::new_from_slice` (hmac), which accepts a key of any
/// length, then `update` and `finalize`. Claims only that the tag is
/// `hmac_sha256` of the key and message.
#[verifier::external_body]
pub(crate) fn hmac_sha256_tag(key: &[u8], msg: &[u8]) -> (r: Vec<u8>)
    ensures
        r@ == hmac_sha256(key@, msg@),
{
    let mut mac = <hmac::Hmac<sha2::Sha256> as Mac>::new_from_slice(key).expect("hmac");
    mac.update(msg);
    mac.finalize().into_bytes().to_vec()
}

// ---------- base64 (standard alphabet, padded) ----------

/// What `STANDARD.encode` gives for some bytes.
pub uninterp spec fn base64_encoded(data: Seq<u8>) -> Seq<char>;

/// What `STANDARD.decode` gives for some text: the bytes, or nothing where
/// the text is not canonical padded base64.
pub uninterp spec fn base64_decoded(text: Seq<u8>) -> Option<Seq<u8>>;

/// Calls `base64::engine::general_purpose::STANDARD.encode`. Claims only
/// that the text is `base64_encoded` of the bytes.
#[verifier::external_body]
pub(crate) fn base64_encode(data: &[u8]) -> (r: String)
    ensures
        r@ == base64_encoded(data@),
{
    base64::engine::general_purpose::STANDARD.encode(data)
}

/// Calls `base64::engine::general_purpose::STANDARD.decode`. Claims that
/// the result is `base64_decoded` of the text, and that the text `encode`
/// made of some bytes decodes to those bytes.
#[verifier::external_body]
pub(crate) fn base64_decode(text: &[u8]) -> (r: Option<Vec<u8>>)
    ensures
        match r {
            Some(d) => base64_decoded(text@) == Some(d@),
            None => base64_decoded(text@) is None,
        },
        forall|d: Seq<u8>|
            text@ == vstd::utf8::encode_utf8(#[trigger] base64_encoded(d)) ==> (r is Some && r->0@ == d),
{
    base64::engine::general_purpose::STANDARD.decode(text).ok()
}

// ---------- UTF-8 (std) ----------

/// Calls `String::from_utf8`. Claims what its documentation says: it
/// succeeds exactly on valid UTF-8, and the string holds the decoded
/// characters.
#[verifier::external_body]
pub(crate) fn utf8_string(bytes: Vec<u8>) -> (r: Option<String>)
    ensures
        match r {
            Some(s) => vstd::utf8::valid_utf8(bytes@) && s@ == vstd::utf8::decode_utf8(bytes@),
            None => !vstd::utf8::valid_utf8(bytes@),
        },
{
    String::from_utf8(bytes).ok()
}

// ---------- randomness (rand, uuid) ----------

/// Calls `OsRng.fill_bytes` (rand) on `n` zero bytes; it panics only where
/// the operating system's generator fails. Claims the length only: the
/// bytes are random.
#[verifier::external_body]
pub(crate) fn random_bytes(n: usize) -> (r: Vec<u8>)
    ensures
        r@.len() == n,
{
    let mut v = vec![0u8; n];
    rand::rngs::OsRng.fill_bytes(&mut v);
    v
}

/// Calls `Uuid::new_v4` (uuid) and gives its 128-bit value. The source sets
/// the version and variant bits, so the value is never the nil UUID; that
/// is all that is claimed.
#[verifier::external_body]
pub(crate) fn new_cluster_id() -> (r: u128)
    ensures
        r != 0,
{
    uuid::Uuid::new_v4().as_u128()
}

/// Calls `Uuid::new_v4` (uuid) and gives its hyphenated text. Nothing is
/// claimed of the text: it is random.
#[verifier::external_body]
pub(crate) fn new_challenge_id() -> (r: String) {
    uuid::Uuid::new_v4().to_string()
}

// ---------- the monotonic clock (std) ----------

#[verifier::external_type_specification]
#[verifier::external_body]
pub struct ExInstant(std::time::Instant);

/// Calls `Instant::now`. Nothing is claimed of the instant.
#[verifier::external_body]
pub(crate) fn clock_start() -> (r: std::time::Instant) {
    std::time::Instant::now()
}

/// Calls `Instant::elapsed` and gives it in nanoseconds. Nothing is
/// claimed of the value: it is the time.
#[verifier::external_body]
pub(crate) fn nanos_since(start: &std::time::Instant) -> (r: u128) {
    start.elapsed().as_nanos()
}

} // verus!
