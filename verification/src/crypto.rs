//! Hashing, hex and base64 encodings and Ed25519 signatures. The outside
//! crates that compute them are called through the trusted wrappers below;
//! everything built on top of them is verified.
use vstd::prelude::*;
use base64::Engine;
use ed25519_dalek::Signer;
use ed25519_dalek::Verifier;
use sha2::Digest;
use crate::text::digit_char;

verus! {

// ---------------------------------------------------------------------
// Names for what the outside functions compute
// ---------------------------------------------------------------------

/// What SHA-256 produces for a byte string.
pub uninterp spec fn spec_sha256(data: Seq<u8>) -> Seq<u8>;

/// What the standard, padded base64 alphabet encodes a byte string as.
pub uninterp spec fn spec_base64_encode(data: Seq<u8>) -> Seq<char>;

/// What standard, padded base64 decodes a text to, `None` where the text is
/// not a valid encoding.
pub uninterp spec fn spec_base64_decode(text: Seq<char>) -> Option<Seq<u8>>;

/// Whether 32 bytes are the compressed form of a point on the Edwards
/// curve, which is when they can serve as an Ed25519 public key.
pub uninterp spec fn spec_ed25519_point_valid(public_key: Seq<u8>) -> bool;

/// The Ed25519 public key that belongs to a 32-byte secret key.
pub uninterp spec fn spec_ed25519_public(secret_key: Seq<u8>) -> Seq<u8>;

/// The Ed25519 signature that a 32-byte secret key makes over a message.
pub uninterp spec fn spec_ed25519_sign(secret_key: Seq<u8>, message: Seq<u8>) -> Seq<u8>;

/// Whether a 64-byte signature over a message verifies under a public key.
pub uninterp spec fn spec_ed25519_verify(
    public_key: Seq<u8>,
    message: Seq<u8>,
    signature: Seq<u8>,
) -> bool;

// ---------------------------------------------------------------------
// Hex
// ---------------------------------------------------------------------

/// The lower-case hexadecimal digit for a value below sixteen.
pub open spec fn hex_nibble(n: int) -> char {
    if n < 10 {
        digit_char(n as nat)
    } else if n == 10 { 'a' }
    else if n == 11 { 'b' }
    else if n == 12 { 'c' }
    else if n == 13 { 'd' }
    else if n == 14 { 'e' }
    else { 'f' }
}

/// Lower-case hex: two digits per byte, high half first.
pub open spec fn spec_hex_encode(data: Seq<u8>) -> Seq<char>
    decreases data.len(),
{
    if data.len() == 0 {
        Seq::empty()
    } else {
        seq![hex_nibble(data[0] as int / 16), hex_nibble(data[0] as int % 16)] + spec_hex_encode(
            data.drop_first(),
        )
    }
}

/// The value of a hexadecimal digit of either case.
pub open spec fn hex_value(c: char) -> Option<int> {
    if '0' <= c && c <= '9' {
        Some(c as int - '0' as int)
    } else if 'a' <= c && c <= 'f' {
        Some(c as int - 'a' as int + 10)
    } else if 'A' <= c && c <= 'F' {
        Some(c as int - 'A' as int + 10)
    } else {
        None
    }
}

/// Hex decoding: an even number of hex digits of either case, two per byte.
pub open spec fn spec_hex_decode(text: Seq<char>) -> Option<Seq<u8>>
    decreases text.len(),
{
    if text.len() == 0 {
        Some(Seq::empty())
    } else if text.len() == 1 {
        None
    } else {
        match (hex_value(text[0]), hex_value(text[1]), spec_hex_decode(text.skip(2))) {
            (Some(h), Some(l), Some(rest)) => Some(seq![(h * 16 + l) as u8] + rest),
            _ => None,
        }
    }
}

/// Every hex digit reads back as the value it was written for.
proof fn lemma_hex_value_nibble(n: int)
    requires
        0 <= n < 16,
    ensures
        hex_value(hex_nibble(n)) == Some(n),
{
}

/// Decoding what hex encoding produced gives the bytes back.
pub proof fn lemma_hex_decode_encode(data: Seq<u8>)
    ensures
        spec_hex_decode(spec_hex_encode(data)) == Some(data),
    decreases data.len(),
{
    if data.len() > 0 {
        let b = data[0] as int;
        let t = spec_hex_encode(data);
        let rest = data.drop_first();
        lemma_hex_decode_encode(rest);
        lemma_hex_value_nibble(b / 16);
        lemma_hex_value_nibble(b % 16);
        assert(t.skip(2) =~= spec_hex_encode(rest));
        assert((b / 16) * 16 + b % 16 == b);
        assert(seq![((b / 16) * 16 + b % 16) as u8] + rest =~= data);
    }
}

/// Calls `hex::encode`: lower-case hex of the bytes.
#[verifier::external_body]
pub(crate) fn hex_encode(data: &[u8]) -> (res: String)
    ensures
        res@ == spec_hex_encode(data@),
{
    hex::encode(data)
}

/// Calls `hex::decode`: the bytes that the text encodes, or the decoder's
/// error message where it encodes none.
#[verifier::external_body]
pub(crate) fn hex_decode(text: &str) -> (res: Result<Vec<u8>, String>)
    ensures
        match res {
            Ok(bytes) => spec_hex_decode(text@) == Some(bytes@),
            Err(_) => spec_hex_decode(text@) is None,
        },
{
    hex::decode(text).map_err(|err| err.to_string())
}

// ---------------------------------------------------------------------
// SHA-256
// ---------------------------------------------------------------------

/// Calls `sha2::Sha256` (new, update, finalize): the digest of `data`,
/// which is 32 bytes long.
#[verifier::external_body]
pub(crate) fn sha256_digest(data: &[u8]) -> (res: Vec<u8>)
    ensures
        res@ == spec_sha256(data@),
        res@.len() == 32,
{
    let mut hasher = sha2::Sha256::new();
    hasher.update(data);
    hasher.finalize().to_vec()
}

/// The lower-case hex of the SHA-256 digest of a byte string.
pub open spec fn spec_sha256_hex(payload: Seq<u8>) -> Seq<char> {
    spec_hex_encode(spec_sha256(payload))
}

/// A hex encoding is twice as long as what it encodes.
pub proof fn lemma_hex_encode_len(data: Seq<u8>)
    ensures
        spec_hex_encode(data).len() == 2 * data.len(),
    decreases data.len(),
{
    if data.len() > 0 {
        lemma_hex_encode_len(data.drop_first());
    }
}

/// The lower-case hex of the SHA-256 digest of `payload`: 64 characters.
pub fn sha256_hex(payload: &[u8]) -> (res: String)
    ensures
        res@ == spec_sha256_hex(payload@),
        res@.len() == 64,
{
    let digest = sha256_digest(payload);
    proof {
        lemma_hex_encode_len(digest@);
    }
    hex_encode(digest.as_slice())
}

// ---------------------------------------------------------------------
// Base64
// ---------------------------------------------------------------------

/// A character of the standard base64 alphabet, or the padding `=`.
pub open spec fn is_base64_char(c: char) -> bool {
    ('A' <= c && c <= 'Z') || ('a' <= c && c <= 'z') || ('0' <= c && c <= '9') || c == '+'
        || c == '/' || c == '='
}

/// Calls `base64::engine::general_purpose::STANDARD.encode`: padded text
/// of four characters per started group of three bytes, all from the
/// standard alphabet; decoding it gives the bytes back.
#[verifier::external_body]
pub(crate) fn base64_encode(data: &[u8]) -> (res: String)
    ensures
        res@ == spec_base64_encode(data@),
        spec_base64_decode(res@) == Some(data@),
        res@.len() == 4 * ((data@.len() + 2) / 3),
        forall|i: int| 0 <= i < res@.len() ==> is_base64_char(#[trigger] res@[i]),
{
    base64::engine::general_purpose::STANDARD.encode(data)
}

/// Calls `base64::engine::general_purpose::STANDARD.decode`: the bytes, or
/// the decoder's error message where the text is no valid encoding.
#[verifier::external_body]
pub(crate) fn base64_decode(text: &str) -> (res: Result<Vec<u8>, String>)
    ensures
        match res {
            Ok(bytes) => spec_base64_decode(text@) == Some(bytes@),
            Err(_) => spec_base64_decode(text@) is None,
        },
{
    base64::engine::general_purpose::STANDARD.decode(text).map_err(|err| err.to_string())
}

// ---------------------------------------------------------------------
// Ed25519
// ---------------------------------------------------------------------

/// Calls `ed25519_dalek::VerifyingKey::from_bytes`: success where the 32
/// bytes decompress to a curve point, else the library's error message.
#[verifier::external_body]
pub(crate) fn ed25519_check_public_key(public_key: &[u8]) -> (res: Result<(), String>)
    requires
        public_key@.len() == 32,
    ensures
        res is Ok <==> spec_ed25519_point_valid(public_key@),
{
    let bytes: [u8; 32] = public_key.try_into().unwrap();
    ed25519_dalek::VerifyingKey::from_bytes(&bytes).map(|_| ()).map_err(|err| err.to_string())
}

/// Calls `ed25519_dalek::Signature::from_slice`: success exactly where the
/// slice is 64 bytes long, else the library's error message.
#[verifier::external_body]
pub(crate) fn ed25519_check_signature_len(signature: &[u8]) -> (res: Result<(), String>)
    ensures
        res is Ok <==> signature@.len() == 64,
{
    ed25519_dalek::Signature::from_slice(signature).map(|_| ()).map_err(|err| err.to_string())
}

/// Calls `ed25519_dalek::SigningKey::from_bytes` and `verifying_key`: the
/// public key of a secret key, which is always a valid curve point.
#[verifier::external_body]
pub(crate) fn ed25519_public_key(secret_key: &[u8]) -> (res: Vec<u8>)
    requires
        secret_key@.len() == 32,
    ensures
        res@ == spec_ed25519_public(secret_key@),
        res@.len() == 32,
        spec_ed25519_point_valid(res@),
{
    let bytes: [u8; 32] = secret_key.try_into().unwrap();
    ed25519_dalek::SigningKey::from_bytes(&bytes).verifying_key().to_bytes().to_vec()
}

/// Calls `ed25519_dalek::SigningKey::sign`: the 64-byte signature over the
/// message, which verifies under the key's own public key.
#[verifier::external_body]
pub(crate) fn ed25519_sign(secret_key: &[u8], message: &[u8]) -> (res: Vec<u8>)
    requires
        secret_key@.len() == 32,
    ensures
        res@ == spec_ed25519_sign(secret_key@, message@),
        res@.len() == 64,
        spec_ed25519_verify(spec_ed25519_public(secret_key@), message@, res@),
{
    let bytes: [u8; 32] = secret_key.try_into().unwrap();
    ed25519_dalek::SigningKey::from_bytes(&bytes).sign(message).to_bytes().to_vec()
}

/// Calls `ed25519_dalek::VerifyingKey::verify` (the `Verifier` trait) on a
/// valid public key and a 64-byte signature: success exactly where the
/// signature verifies, else the library's error message.
#[verifier::external_body]
pub(crate) fn ed25519_verify(public_key: &[u8], message: &[u8], signature: &[u8]) -> (res: Result<
    (),
    String,
>)
    requires
        public_key@.len() == 32,
        signature@.len() == 64,
        spec_ed25519_point_valid(public_key@),
    ensures
        res is Ok <==> spec_ed25519_verify(public_key@, message@, signature@),
{
    let key_bytes: [u8; 32] = public_key.try_into().unwrap();
    let signature_bytes: [u8; 64] = signature.try_into().unwrap();
    let key = ed25519_dalek::VerifyingKey::from_bytes(&key_bytes).unwrap();
    key.verify(message, &ed25519_dalek::Signature::from_bytes(&signature_bytes)).map_err(
        |err| err.to_string(),
    )
}

/// Calls `ed25519_dalek::SigningKey::generate` with the operating system's
/// random source: a fresh 32-byte secret key. Nothing else is known of it.
#[verifier::external_body]
pub(crate) fn ed25519_generate_secret_key() -> (res: Vec<u8>)
    ensures
        res@.len() == 32,
{
    ed25519_dalek::SigningKey::generate(&mut rand::rngs::OsRng).to_bytes().to_vec()
}

/// Calls `rand::random` for 32 bytes. Nothing is known of them but their number.
#[verifier::external_body]
pub(crate) fn random_32_bytes() -> (res: Vec<u8>)
    ensures
        res@.len() == 32,
{
    rand::random::<[u8; 32]>().to_vec()
}

} // verus!
