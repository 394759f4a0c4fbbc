//! The receipt signer: its Ed25519 key, loaded from its stored hex form or
//! newly made, the risk that its key provider carries, and the signatures
//! it makes and checks over receipt hashes.
use vstd::prelude::*;
use vstd::utf8::encode_utf8;
use crate::crypto::{
    base64_decode, base64_encode, ed25519_check_signature_len, ed25519_generate_secret_key,
    ed25519_public_key, ed25519_sign, ed25519_verify, hex_decode, hex_encode, hex_value,
    lemma_hex_decode_encode, lemma_hex_encode_len, sha256_hex, spec_base64_decode,
    spec_base64_encode, spec_ed25519_public, spec_ed25519_sign, spec_ed25519_verify,
    spec_hex_decode, spec_hex_encode, spec_sha256_hex,
};
use crate::model::{opt_view, KeyProviderKind, ReceiptEnvelope, RiskLevel};
use crate::text::{is_white_space, push_str, string_of, trim, trim_end_index, trim_seq,
    trim_start_index};

verus! {

/// Why a signing key could not be had, or a receipt not signed or checked.
#[derive(Debug, Clone)]
pub enum SigningError {
    Io(String),
    InvalidKey(String),
    HardwareUnavailable,
    Hash(String),
}

/// The message of a signing error, as it is displayed.
pub open spec fn signing_error_text(e: SigningError) -> Seq<char> {
    match e {
        SigningError::Io(m) => "io error: "@ + m@,
        SigningError::InvalidKey(m) => "invalid key material: "@ + m@,
        SigningError::HardwareUnavailable => "hardware-backed key required but unavailable"@,
        SigningError::Hash(m) => "receipt hashing failed: "@ + m@,
    }
}

impl SigningError {
    /// The message of the error, as it is displayed.
    pub fn message(&self) -> (res: String)
        ensures
            res@ == signing_error_text(*self),
    {
        match self {
            SigningError::Io(m) => {
                let mut s = string_of("io error: ");
                push_str(&mut s, m.as_str());
                s
            },
            SigningError::InvalidKey(m) => {
                let mut s = string_of("invalid key material: ");
                push_str(&mut s, m.as_str());
                s
            },
            SigningError::HardwareUnavailable => string_of(
                "hardware-backed key required but unavailable",
            ),
            SigningError::Hash(m) => {
                let mut s = string_of("receipt hashing failed: ");
                push_str(&mut s, m.as_str());
                s
            },
        }
    }
}

/// A receipt signature, base64 text.
#[derive(Debug, Clone)]
pub struct SigningOutcome {
    pub signature: String,
}

impl Clone for ReceiptSigner {
    fn clone(&self) -> (res: Self)
        ensures
            res.secret_key() == self.secret_key(),
            res.spec_key_id() == self.spec_key_id(),
            res.spec_risk() == self.spec_risk(),
    {
        proof {
            use_type_invariant(self);
        }
        let mut signing_key: Vec<u8> = Vec::new();
        let n = self.signing_key.len();
        let mut i: usize = 0;
        while i < n
            invariant
                n == self.signing_key@.len(),
                i <= n,
                signing_key@ == self.signing_key@.subrange(0, i as int),
            decreases n - i,
        {
            signing_key.push(self.signing_key[i]);
            assert(signing_key@ =~= self.signing_key@.subrange(0, i + 1));
            i = i + 1;
        }
        assert(signing_key@ =~= self.signing_key@);
        ReceiptSigner {
            signing_key,
            key_id: string_of(self.key_id.as_str()),
            risk_level: self.risk_level,
        }
    }
}

/// The key id of a signer: `ed25519:` and the first sixteen hex digits of
/// the SHA-256 of its public key.
pub open spec fn spec_receipt_key_id(secret: Seq<u8>) -> Seq<char> {
    "ed25519:"@ + spec_sha256_hex(spec_ed25519_public(secret)).subrange(0, 16)
}

/// The risk of a signer: low with a hardware key, else by key provider.
pub open spec fn spec_risk_level(hardware_available: bool, provider: KeyProviderKind) -> RiskLevel {
    if hardware_available {
        RiskLevel::Low
    } else {
        match provider {
            KeyProviderKind::HardwareOnly => RiskLevel::High,
            KeyProviderKind::Hybrid => RiskLevel::Degraded,
            KeyProviderKind::SoftwareOnly => RiskLevel::Medium,
        }
    }
}

/// What a receipt signature covers: the UTF-8 bytes of the receipt hash,
/// the hex SHA-256 of the serialized unsigned receipt.
pub open spec fn receipt_message(unsigned_json: Seq<u8>) -> Seq<u8> {
    encode_utf8(spec_sha256_hex(unsigned_json))
}

/// The signature text that a secret key makes over a receipt.
pub open spec fn spec_receipt_signature(secret: Seq<u8>, unsigned_json: Seq<u8>) -> Seq<char> {
    spec_base64_encode(spec_ed25519_sign(secret, receipt_message(unsigned_json)))
}

/// What checking a receipt's signature gives: `false` where it has none,
/// nothing (an invalid-key error) where the signature is no base64 of 64
/// bytes, else whether it verifies under the signer's public key.
pub open spec fn spec_verify_receipt(
    secret: Seq<u8>,
    signature: Option<Seq<char>>,
    unsigned_json: Seq<u8>,
) -> Option<bool> {
    match signature {
        None => Some(false),
        Some(text) => match spec_base64_decode(text) {
            None => None,
            Some(bytes) => if bytes.len() != 64 {
                None
            } else {
                Some(
                    spec_ed25519_verify(
                        spec_ed25519_public(secret),
                        receipt_message(unsigned_json),
                        bytes,
                    ),
                )
            },
        },
    }
}

/// The signer that signs receipts with an Ed25519 key.
#[derive(Debug)]
pub struct ReceiptSigner {
    signing_key: Vec<u8>,
    key_id: String,
    risk_level: RiskLevel,
}

/// What building a signer from a key gives: the hardware refusal where a
/// hardware-only provider has no hardware key, else a signer with that key,
/// its key id and its risk.
pub open spec fn signer_matches(
    res: Result<ReceiptSigner, SigningError>,
    key: Seq<u8>,
    hardware_available: bool,
    provider: KeyProviderKind,
) -> bool {
    if provider == KeyProviderKind::HardwareOnly && !hardware_available {
        res matches Err(SigningError::HardwareUnavailable)
    } else {
        res matches Ok(s) && s.secret_key() == key && s.spec_key_id() == spec_receipt_key_id(key)
            && s.spec_risk() == spec_risk_level(hardware_available, provider)
    }
}

/// What the stored hex text of a key decodes to once trimmed: the key where
/// it is 32 bytes, else an invalid-key error.
pub open spec fn stored_key_matches(res: Result<Vec<u8>, SigningError>, text: Seq<char>) -> bool {
    match spec_hex_decode(trim_seq(text)) {
        None => res matches Err(SigningError::InvalidKey(_)),
        Some(b) => if b.len() == 32 {
            res matches Ok(k) && k@ == b
        } else {
            res matches Err(SigningError::InvalidKey(m)) && m@ == "expected 32-byte key"@
        },
    }
}

/// The 32-byte key that the stored hex text holds.
pub fn decode_stored_key(text: &str) -> (res: Result<Vec<u8>, SigningError>)
    ensures
        stored_key_matches(res, text@),
{
    let t = trim(text);
    match hex_decode(t.as_str()) {
        Err(e) => Err(SigningError::InvalidKey(e)),
        Ok(bytes) => {
            if bytes.len() != 32 {
                Err(SigningError::InvalidKey(string_of("expected 32-byte key")))
            } else {
                Ok(bytes)
            }
        },
    }
}

impl ReceiptSigner {
    #[verifier::type_invariant]
    spec fn well_formed(self) -> bool {
        self.signing_key@.len() == 32
    }

    /// The signer's 32-byte secret key.
    pub closed spec fn secret_key(self) -> Seq<u8> {
        self.signing_key@
    }

    /// The signer's key id.
    pub closed spec fn spec_key_id(self) -> Seq<char> {
        self.key_id@
    }

    /// The risk that the signer's key carries.
    pub closed spec fn spec_risk(self) -> RiskLevel {
        self.risk_level
    }

    /// The signer for a 32-byte key, or the hardware refusal.
    pub fn from_key(key: Vec<u8>, hardware_available: bool, key_provider: KeyProviderKind) -> (res:
        Result<ReceiptSigner, SigningError>)
        requires
            key@.len() == 32,
        ensures
            signer_matches(res, key@, hardware_available, key_provider),
    {
        let hardware_only = match key_provider {
            KeyProviderKind::HardwareOnly => true,
            _ => false,
        };
        if hardware_only && !hardware_available {
            return Err(SigningError::HardwareUnavailable);
        }
        let risk_level = if hardware_available {
            RiskLevel::Low
        } else {
            match key_provider {
                KeyProviderKind::HardwareOnly => RiskLevel::High,
                KeyProviderKind::Hybrid => RiskLevel::Degraded,
                KeyProviderKind::SoftwareOnly => RiskLevel::Medium,
            }
        };
        let public_key = ed25519_public_key(key.as_slice());
        let digest = sha256_hex(public_key.as_slice());
        let mut key_id = string_of("ed25519:");
        push_str(&mut key_id, digest.as_str().substring_char(0, 16));
        Ok(ReceiptSigner { signing_key: key, key_id, risk_level })
    }

    /// The signer: from the stored hex key where there is one, else from a
    /// newly made key, whose hex form comes back to be stored. Where the
    /// provider is hardware only and no hardware is there, no key is made and
    /// none comes back to be stored.
    pub fn load_or_create(
        stored_key: Option<&str>,
        hardware_available: bool,
        key_provider: KeyProviderKind,
    ) -> (res: (Result<ReceiptSigner, SigningError>, Option<String>))
        ensures
            match stored_key {
                Some(text) => res.1 is None && match spec_hex_decode(trim_seq(text@)) {
                    None => res.0 matches Err(SigningError::InvalidKey(_)),
                    Some(b) => if b.len() == 32 {
                        signer_matches(res.0, b, hardware_available, key_provider)
                    } else {
                        res.0 matches Err(SigningError::InvalidKey(m)) && m@
                            == "expected 32-byte key"@
                    },
                },
                None => if key_provider == KeyProviderKind::HardwareOnly && !hardware_available {
                    res.0 matches Err(SigningError::HardwareUnavailable) && res.1 is None
                } else {
                    res.1 matches Some(h) && spec_hex_decode(h@) matches Some(k) && k.len() == 32
                        && h@ == spec_hex_encode(k) && signer_matches(
                        res.0,
                        k,
                        hardware_available,
                        key_provider,
                    )
                },
            },
    {
        match stored_key {
            Some(text) => {
                match decode_stored_key(text) {
                    Err(e) => (Err(e), None),
                    Ok(key) => (Self::from_key(key, hardware_available, key_provider), None),
                }
            },
            None => {
                if let KeyProviderKind::HardwareOnly = key_provider {
                    if !hardware_available {
                        return (Err(SigningError::HardwareUnavailable), None);
                    }
                }
                let key = ed25519_generate_secret_key();
                let hex = hex_encode(key.as_slice());
                proof {
                    lemma_hex_decode_encode(key@);
                }
                (Self::from_key(key, hardware_available, key_provider), Some(hex))
            },
        }
    }

    /// The signature over the receipt whose unsigned form serializes as
    /// `unsigned_json`; it verifies under this signer.
    pub fn sign_receipt(&self, receipt: &ReceiptEnvelope, unsigned_json: &[u8]) -> (res: Result<
        SigningOutcome,
        SigningError,
    >)
        ensures
            res matches Ok(o) && o.signature@ == spec_receipt_signature(
                self.secret_key(),
                unsigned_json@,
            ),
            res matches Ok(o) && spec_verify_receipt(
                self.secret_key(),
                Some(o.signature@),
                unsigned_json@,
            ) == Some(true),
    {
        proof {
            use_type_invariant(self);
        }
        let hash = receipt.compute_hash(unsigned_json);
        let signature = ed25519_sign(self.signing_key.as_slice(), hash.as_str().as_bytes());
        let text = base64_encode(signature.as_slice());
        Ok(SigningOutcome { signature: text })
    }

    /// Whether the receipt's signature verifies over its unsigned form,
    /// serialized as `unsigned_json`; `false` where it carries none.
    pub fn verify_receipt(&self, receipt: &ReceiptEnvelope, unsigned_json: &[u8]) -> (res: Result<
        bool,
        SigningError,
    >)
        ensures
            match spec_verify_receipt(
                self.secret_key(),
                opt_view(receipt.signature),
                unsigned_json@,
            ) {
                Some(b) => res matches Ok(v) && v == b,
                None => res matches Err(SigningError::InvalidKey(_)),
            },
    {
        proof {
            use_type_invariant(self);
        }
        let signature = match &receipt.signature {
            None => {
                return Ok(false);
            },
            Some(s) => s,
        };
        let signature_bytes = match base64_decode(signature.as_str()) {
            Ok(bytes) => bytes,
            Err(e) => {
                return Err(SigningError::InvalidKey(e));
            },
        };
        match ed25519_check_signature_len(signature_bytes.as_slice()) {
            Ok(()) => {},
            Err(e) => {
                return Err(SigningError::InvalidKey(e));
            },
        }
        let public_key = ed25519_public_key(self.signing_key.as_slice());
        let hash = receipt.compute_hash(unsigned_json);
        let verified = ed25519_verify(
            public_key.as_slice(),
            hash.as_str().as_bytes(),
            signature_bytes.as_slice(),
        );
        Ok(verified.is_ok())
    }

    /// The signer's key id.
    pub fn key_id(&self) -> (res: &str)
        ensures
            res@ == self.spec_key_id(),
    {
        self.key_id.as_str()
    }

    /// The risk that the signer's key carries.
    pub fn risk_level(&self) -> (res: &RiskLevel)
        ensures
            *res == self.spec_risk(),
    {
        &self.risk_level
    }
}

/// Every character of a hex encoding is a hex digit.
proof fn lemma_hex_encode_digits(data: Seq<u8>)
    ensures
        forall|i: int|
            0 <= i < spec_hex_encode(data).len() ==> #[trigger] hex_value(spec_hex_encode(data)[i])
                is Some,
    decreases data.len(),
{
    if data.len() > 0 {
        let rest = data.drop_first();
        lemma_hex_encode_digits(rest);
        let t = spec_hex_encode(data);
        assert forall|i: int| 0 <= i < t.len() implies #[trigger] hex_value(t[i]) is Some by {
            if i >= 2 {
                assert(t[i] == spec_hex_encode(rest)[i - 2]);
            }
        }
    }
}

/// A key stored in its hex form reads back as the same key: trimming the
/// text changes nothing and decoding gives the key.
pub proof fn law_stored_key_reads_back(key: Seq<u8>)
    ensures
        spec_hex_decode(trim_seq(spec_hex_encode(key))) == Some(key),
{
    let t = spec_hex_encode(key);
    lemma_hex_decode_encode(key);
    lemma_hex_encode_len(key);
    lemma_hex_encode_digits(key);
    if t.len() > 0 {
        assert(hex_value(t[0]) is Some);
        assert(!is_white_space(t[0]));
        assert(trim_start_index(t) == 0);
        assert(hex_value(t[t.len() - 1]) is Some);
        assert(!is_white_space(t.last()));
        assert(trim_end_index(t) == t.len());
        assert(t.subrange(0, t.len() as int) =~= t);
    } else {
        assert(trim_seq(t) =~= t);
    }
}

} // verus!
