//! The host's trust store: trusted roots, trusted and revoked signers, and
//! the public keys that policy signatures are checked against; and the
//! host's own policy signing key and default policy.
use vstd::prelude::*;
use crate::crypto::{
    base64_encode, ed25519_public_key, ed25519_sign, hex_decode, hex_encode, is_base64_char,
    lemma_hex_decode_encode, random_32_bytes, sha256_hex, spec_base64_decode, spec_base64_encode,
    spec_ed25519_point_valid, spec_ed25519_public, spec_ed25519_sign, spec_ed25519_verify,
    spec_hex_decode, spec_hex_encode, spec_sha256_hex,
};
use crate::host::HostError;
use crate::model::HttpRule;
use crate::policy::{
    FilesystemCapability, NetworkCapability, PolicyCapabilities, PolicyProfile, PolicySignature,
    SecretPolicy, SignatureOutcome, spec_signature_outcome,
};
use crate::sort::{SortKey, is_stable_sort_of, lemma_stable_sort_items, stable_sort};
use crate::text::{
    is_blank, is_white_space, lemma_seq_lt_irreflexive, lemma_seq_lt_total,
    lemma_seq_lt_transitive, push_str, seq_lt, str_eq, str_lt, string_of, trim, trim_seq,
};

verus! {

impl SortKey for String {
    open spec fn precedes(self, other: Self) -> bool {
        seq_lt(self@, other@)
    }

    proof fn lemma_precedes_irreflexive(a: Self) {
        lemma_seq_lt_irreflexive(a@);
    }

    proof fn lemma_precedes_transitive(a: Self, b: Self, c: Self) {
        lemma_seq_lt_transitive(a@, b@, c@);
    }

    proof fn lemma_precedes_chain(x: Self, a: Self, b: Self) {
        lemma_seq_lt_total(a@, b@);
        if seq_lt(a@, b@) {
            lemma_seq_lt_transitive(x@, a@, b@);
        }
    }

    fn precedes_exec(&self, other: &Self) -> (res: bool) {
        str_lt(self.as_str(), other.as_str())
    }
}

/// Some entry of the list holds the text.
pub open spec fn lists(list: Seq<String>, item: Seq<char>) -> bool {
    exists|i: int| 0 <= i < list.len() && (#[trigger] list[i])@ == item
}

/// The list is in `String` order.
pub open spec fn sorted_strings(list: Seq<String>) -> bool {
    forall|i: int, j: int| 0 <= i < j < list.len() ==> !seq_lt((#[trigger] list[j])@, (#[trigger] list[i])@)
}

fn lists_exec(list: &Vec<String>, item: &str) -> (res: bool)
    ensures
        res == lists(list@, item@),
{
    let n = list.len();
    let mut i: usize = 0;
    while i < n
        invariant
            n == list@.len(),
            i <= n,
            forall|j: int| 0 <= j < i ==> (#[trigger] list@[j])@ != item@,
        decreases n - i,
    {
        if str_eq(list[i].as_str(), item) {
            return true;
        }
        i = i + 1;
    }
    false
}

/// Adds the item unless the list holds it already, and then puts the list
/// in `String` order.
fn add_and_sort(list: &mut Vec<String>, item: &str)
    ensures
        lists(old(list)@, item@) ==> final(list)@ == old(list)@,
        !lists(old(list)@, item@) ==> exists|s: String|
            s@ == item@ && is_stable_sort_of(final(list)@, old(list)@.push(s)),
        !lists(old(list)@, item@) ==> sorted_strings(final(list)@),
        lists(final(list)@, item@),
{
    if lists_exec(list, item) {
        return;
    }
    let s = string_of(item);
    let ghost pushed = list@.push(s);
    let mut taken: Vec<String> = Vec::new();
    std::mem::swap(&mut taken, list);
    taken.push(s);
    let sorted = stable_sort(taken);
    proof {
        lemma_stable_sort_items(sorted@, pushed);
        assert(pushed[pushed.len() - 1] == s);
        assert(sorted@.contains(s));
        let k = choose|k: int| 0 <= k < sorted@.len() && sorted@[k] == s;
        assert(lists(sorted@, item@));
        assert forall|i: int, j: int| 0 <= i < j < sorted@.len() implies !seq_lt(
            (#[trigger] sorted@[j])@,
            (#[trigger] sorted@[i])@,
        ) by {
            let p = choose|p: Seq<int>| crate::sort::is_sort_witness(sorted@, pushed, p);
            assert(!sorted@[j].precedes(sorted@[i]));
        }
    }
    *list = sorted;
}

/// A public key that policy signatures may be checked against, by key id.
#[derive(Debug, Clone)]
pub struct PolicyKey {
    pub key_id: String,
    pub public_key: String,
}

/// Position `i` holds the key with the given id.
pub open spec fn has_key_at(keys: Seq<PolicyKey>, id: Seq<char>, i: int) -> bool {
    0 <= i < keys.len() && keys[i].key_id@ == id
}

/// No key id occurs twice.
pub open spec fn keys_unique(keys: Seq<PolicyKey>) -> bool {
    forall|i: int, j: int|
        0 <= i < j < keys.len() ==> (#[trigger] keys[i]).key_id@ != (#[trigger] keys[j]).key_id@
}

/// The keys as a map from key id to public key.
pub open spec fn key_map(keys: Seq<PolicyKey>) -> Map<Seq<char>, Seq<char>> {
    Map::new(
        |id: Seq<char>| exists|i: int| has_key_at(keys, id, i),
        |id: Seq<char>| keys[choose|i: int| has_key_at(keys, id, i)].public_key@,
    )
}

proof fn lemma_key_map_at(keys: Seq<PolicyKey>, id: Seq<char>, i: int)
    requires
        keys_unique(keys),
        has_key_at(keys, id, i),
    ensures
        key_map(keys).contains_key(id),
        key_map(keys)[id] == keys[i].public_key@,
{
    let j = choose|j: int| has_key_at(keys, id, j);
    if j != i {
        if i < j {
            assert(keys[i].key_id@ != keys[j].key_id@);
        } else {
            assert(keys[j].key_id@ != keys[i].key_id@);
        }
    }
}

/// Who and what the host trusts.
#[derive(Debug, Clone)]
pub struct TrustStore {
    pub roots: Vec<String>,
    pub signers: Vec<String>,
    pub revoked: Vec<String>,
    pub policy_keys: Vec<PolicyKey>,
}

impl Default for TrustStore {
    fn default() -> (res: Self)
        ensures
            res.roots@.len() == 0,
            res.signers@.len() == 0,
            res.revoked@.len() == 0,
            res.policy_keys@.len() == 0,
    {
        TrustStore {
            roots: Vec::new(),
            signers: Vec::new(),
            revoked: Vec::new(),
            policy_keys: Vec::new(),
        }
    }
}

impl TrustStore {
    /// Each policy key id occurs once.
    pub open spec fn well_formed(&self) -> bool {
        keys_unique(self.policy_keys@)
    }

    /// The policy keys by key id.
    pub open spec fn policy_key_map(&self) -> Map<Seq<char>, Seq<char>> {
        key_map(self.policy_keys@)
    }

    /// The trust store a new host starts with: the local root, the
    /// publisher `acme.sec`, nothing revoked and no policy keys.
    pub fn initial() -> (res: Self)
        ensures
            res.well_formed(),
            res.roots@.len() == 1 && res.roots@[0]@ == "local-root"@,
            res.signers@.len() == 1 && res.signers@[0]@ == "acme.sec"@,
            res.revoked@.len() == 0,
            res.policy_keys@.len() == 0,
    {
        let mut roots: Vec<String> = Vec::new();
        roots.push(string_of("local-root"));
        let mut signers: Vec<String> = Vec::new();
        signers.push(string_of("acme.sec"));
        TrustStore { roots, signers, revoked: Vec::new(), policy_keys: Vec::new() }
    }

    /// The public key recorded for a key id.
    pub fn policy_key(&self, key_id: &str) -> (res: Option<&String>)
        requires
            self.well_formed(),
        ensures
            match res {
                Some(k) => self.policy_key_map().contains_key(key_id@) && self.policy_key_map()[key_id@]
                    == k@,
                None => !self.policy_key_map().contains_key(key_id@),
            },
    {
        let n = self.policy_keys.len();
        let mut i: usize = 0;
        while i < n
            invariant
                n == self.policy_keys@.len(),
                keys_unique(self.policy_keys@),
                i <= n,
                forall|j: int| 0 <= j < i ==> !has_key_at(self.policy_keys@, key_id@, j),
            decreases n - i,
        {
            if str_eq(self.policy_keys[i].key_id.as_str(), key_id) {
                proof {
                    lemma_key_map_at(self.policy_keys@, key_id@, i as int);
                }
                return Some(&self.policy_keys[i].public_key);
            }
            i = i + 1;
        }
        None
    }

    /// Records the public key for a key id, in place of any recorded before.
    pub fn insert_policy_key(&mut self, key_id: String, public_key: String)
        requires
            old(self).well_formed(),
        ensures
            final(self).well_formed(),
            final(self).policy_key_map() == old(self).policy_key_map().insert(key_id@, public_key@),
            final(self).roots@ == old(self).roots@,
            final(self).signers@ == old(self).signers@,
            final(self).revoked@ == old(self).revoked@,
    {
        let ghost old_keys = self.policy_keys@;
        let ghost k = key_id@;
        let ghost v = public_key@;
        let n = self.policy_keys.len();
        let mut i: usize = 0;
        while i < n
            invariant_except_break
                n == self.policy_keys@.len(),
                old_keys == self.policy_keys@,
                i <= n,
                forall|j: int| 0 <= j < i ==> !has_key_at(self.policy_keys@, key_id@, j),
            ensures
                n == self.policy_keys@.len(),
                old_keys == self.policy_keys@,
                i <= n,
                forall|j: int| 0 <= j < i ==> !has_key_at(self.policy_keys@, key_id@, j),
                i < n ==> has_key_at(self.policy_keys@, key_id@, i as int),
            decreases n - i,
        {
            if str_eq(self.policy_keys[i].key_id.as_str(), key_id.as_str()) {
                break;
            }
            i = i + 1;
        }
        if i < n {
            let ghost at = i as int;
            self.policy_keys.set(i, PolicyKey { key_id, public_key });
            let ghost new_keys = self.policy_keys@;
            proof {
                assert(has_key_at(old_keys, k, at));
                assert(keys_unique(new_keys)) by {
                    assert forall|a: int, b: int| 0 <= a < b < new_keys.len() implies (
                    #[trigger] new_keys[a]).key_id@ != (#[trigger] new_keys[b]).key_id@ by {
                        if a == at {
                            assert(old_keys[b].key_id@ != old_keys[at].key_id@);
                        } else if b == at {
                            assert(old_keys[a].key_id@ != old_keys[at].key_id@);
                        } else {
                            assert(old_keys[a].key_id@ != old_keys[b].key_id@);
                        }
                    }
                }
                assert forall|id: Seq<char>| #![auto]
                    key_map(new_keys).contains_key(id) == key_map(old_keys).insert(
                        k,
                        v,
                    ).contains_key(id) by {
                    if id != k {
                        if exists|j: int| has_key_at(old_keys, id, j) {
                            let j = choose|j: int| has_key_at(old_keys, id, j);
                            assert(j != at);
                            assert(has_key_at(new_keys, id, j));
                        }
                        if exists|j: int| has_key_at(new_keys, id, j) {
                            let j = choose|j: int| has_key_at(new_keys, id, j);
                            assert(j != at);
                            assert(has_key_at(old_keys, id, j));
                        }
                    } else {
                        assert(has_key_at(new_keys, id, at));
                    }
                }
                assert forall|id: Seq<char>| #[trigger]
                    key_map(new_keys).contains_key(id) implies key_map(new_keys)[id] == key_map(
                    old_keys,
                ).insert(k, v)[id] by {
                    if id == k {
                        lemma_key_map_at(new_keys, id, at);
                    } else {
                        let j = choose|j: int| has_key_at(new_keys, id, j);
                        assert(j != at);
                        lemma_key_map_at(new_keys, id, j);
                        lemma_key_map_at(old_keys, id, j);
                    }
                }
                assert(key_map(new_keys) =~= key_map(old_keys).insert(k, v));
            }
        } else {
            self.policy_keys.push(PolicyKey { key_id, public_key });
            let ghost new_keys = self.policy_keys@;
            let ghost at = n as int;
            proof {
                assert(keys_unique(new_keys)) by {
                    assert forall|a: int, b: int| 0 <= a < b < new_keys.len() implies (
                    #[trigger] new_keys[a]).key_id@ != (#[trigger] new_keys[b]).key_id@ by {
                        if b == at {
                            assert(!has_key_at(old_keys, k, a));
                        } else {
                            assert(old_keys[a].key_id@ != old_keys[b].key_id@);
                        }
                    }
                }
                assert forall|id: Seq<char>| #![auto]
                    key_map(new_keys).contains_key(id) == key_map(old_keys).insert(
                        k,
                        v,
                    ).contains_key(id) by {
                    if id != k {
                        if exists|j: int| has_key_at(old_keys, id, j) {
                            let j = choose|j: int| has_key_at(old_keys, id, j);
                            assert(has_key_at(new_keys, id, j));
                        }
                        if exists|j: int| has_key_at(new_keys, id, j) {
                            let j = choose|j: int| has_key_at(new_keys, id, j);
                            assert(j != at);
                            assert(has_key_at(old_keys, id, j));
                        }
                    } else {
                        assert(has_key_at(new_keys, id, at));
                    }
                }
                assert forall|id: Seq<char>| #[trigger]
                    key_map(new_keys).contains_key(id) implies key_map(new_keys)[id] == key_map(
                    old_keys,
                ).insert(k, v)[id] by {
                    if id == k {
                        lemma_key_map_at(new_keys, id, at);
                    } else {
                        let j = choose|j: int| has_key_at(new_keys, id, j);
                        assert(j != at);
                        lemma_key_map_at(new_keys, id, j);
                        lemma_key_map_at(old_keys, id, j);
                    }
                }
                assert(key_map(new_keys) =~= key_map(old_keys).insert(k, v));
            }
        }
    }

    /// Trusts a signer: adds it unless it is trusted already, and keeps the
    /// trusted signers in `String` order.
    pub fn add_signer(&mut self, signer: &str)
        ensures
            lists(old(self).signers@, signer@) ==> final(self).signers@ == old(self).signers@,
            !lists(old(self).signers@, signer@) ==> exists|s: String|
                s@ == signer@ && is_stable_sort_of(final(self).signers@, old(self).signers@.push(s)),
            !lists(old(self).signers@, signer@) ==> sorted_strings(final(self).signers@),
            lists(final(self).signers@, signer@),
            final(self).roots@ == old(self).roots@,
            final(self).revoked@ == old(self).revoked@,
            final(self).policy_keys@ == old(self).policy_keys@,
    {
        add_and_sort(&mut self.signers, signer);
    }

    /// Revokes a signer: adds it to the revoked signers unless it is there
    /// already, and keeps them in `String` order.
    pub fn revoke_signer(&mut self, signer: &str)
        ensures
            lists(old(self).revoked@, signer@) ==> final(self).revoked@ == old(self).revoked@,
            !lists(old(self).revoked@, signer@) ==> exists|s: String|
                s@ == signer@ && is_stable_sort_of(final(self).revoked@, old(self).revoked@.push(s)),
            !lists(old(self).revoked@, signer@) ==> sorted_strings(final(self).revoked@),
            lists(final(self).revoked@, signer@),
            final(self).roots@ == old(self).roots@,
            final(self).signers@ == old(self).signers@,
            final(self).policy_keys@ == old(self).policy_keys@,
    {
        add_and_sort(&mut self.revoked, signer);
    }

    /// Whether the publisher is among the revoked signers.
    pub fn is_revoked(&self, publisher: &str) -> (res: bool)
        ensures
            res == lists(self.revoked@, publisher@),
    {
        lists_exec(&self.revoked, publisher)
    }

    /// Whether the publisher is among the trusted signers.
    pub fn is_trusted_signer(&self, publisher: &str) -> (res: bool)
        ensures
            res == lists(self.signers@, publisher@),
    {
        lists_exec(&self.signers, publisher)
    }
}

/// The key id of the host's policy key: `policy-ed25519:` and the first
/// sixteen hex digits of the SHA-256 of its public key.
pub open spec fn spec_policy_key_id(secret: Seq<u8>) -> Seq<char> {
    "policy-ed25519:"@ + spec_sha256_hex(spec_ed25519_public(secret)).subrange(0, 16)
}

/// Records the public key of the host's policy signing key in the trust
/// store, base64 encoded, under its key id, which comes back.
pub fn ensure_policy_key_in_trust(trust: &mut TrustStore, secret_key: &[u8]) -> (key_id: String)
    requires
        old(trust).well_formed(),
        secret_key@.len() == 32,
    ensures
        final(trust).well_formed(),
        key_id@ == spec_policy_key_id(secret_key@),
        final(trust).policy_key_map() == old(trust).policy_key_map().insert(
            key_id@,
            spec_base64_encode(spec_ed25519_public(secret_key@)),
        ),
        final(trust).roots@ == old(trust).roots@,
        final(trust).signers@ == old(trust).signers@,
        final(trust).revoked@ == old(trust).revoked@,
        spec_base64_decode(spec_base64_encode(spec_ed25519_public(secret_key@))) == Some(
            spec_ed25519_public(secret_key@),
        ),
        spec_ed25519_public(secret_key@).len() == 32,
        spec_ed25519_point_valid(spec_ed25519_public(secret_key@)),
{
    let public_key = ed25519_public_key(secret_key);
    let digest = sha256_hex(public_key.as_slice());
    let mut key_id = string_of("policy-ed25519:");
    push_str(&mut key_id, digest.as_str().substring_char(0, 16));
    let encoded = base64_encode(public_key.as_slice());
    let id_copy = string_of(key_id.as_str());
    trust.insert_policy_key(key_id, encoded);
    id_copy
}

/// What the stored hex text of the policy signing key gives once trimmed:
/// the key where it decodes to 32 bytes, else the error.
pub open spec fn policy_key_matches(res: Result<Vec<u8>, HostError>, text: Seq<char>) -> bool {
    match spec_hex_decode(trim_seq(text)) {
        None => res matches Err(HostError::Verification(m))
            && "invalid policy signing key encoding: "@.is_prefix_of(m@),
        Some(b) => if b.len() == 32 {
            res matches Ok(k) && k@ == b
        } else {
            res matches Err(HostError::Verification(m)) && m@
                == "policy signing key must be 32 bytes"@
        },
    }
}

/// The host's policy signing key: from its stored hex text where there is
/// one, else a new random key, whose hex form comes back to be stored.
pub fn load_or_create_policy_signing_key(stored: Option<&str>) -> (res: (
    Result<Vec<u8>, HostError>,
    Option<String>,
))
    ensures
        match stored {
            Some(text) => res.1 is None && policy_key_matches(res.0, text@),
            None => res.1 matches Some(h) && res.0 matches Ok(k) && k@.len() == 32 && h@
                == spec_hex_encode(k@) && spec_hex_decode(h@) == Some(k@),
        },
{
    match stored {
        Some(text) => {
            let t = trim(text);
            match hex_decode(t.as_str()) {
                Err(e) => {
                    let mut m = string_of("invalid policy signing key encoding: ");
                    push_str(&mut m, e.as_str());
                    (Err(HostError::Verification(m)), None)
                },
                Ok(bytes) => {
                    if bytes.len() != 32 {
                        (
                            Err(
                                HostError::Verification(
                                    string_of("policy signing key must be 32 bytes"),
                                ),
                            ),
                            None,
                        )
                    } else {
                        (Ok(bytes), None)
                    }
                },
            }
        },
        None => {
            let key = random_32_bytes();
            let hex = hex_encode(key.as_slice());
            proof {
                lemma_hex_decode_encode(key@);
            }
            (Ok(key), Some(hex))
        },
    }
}

/// The policy a new host starts with: tools of `acme.sec` may POST under
/// `https://api.example.com/v1/` and read under `/data/`, nothing else,
/// unsigned.
pub fn default_policy_profile() -> (res: PolicyProfile)
    ensures
        res.allowed_signers@.len() == 1,
        res.allowed_signers@[0]@ == "acme.sec"@,
        res.capabilities.net_http.allow@.len() == 1,
        res.capabilities.net_http.allow@[0].host@ == "api.example.com"@,
        res.capabilities.net_http.allow@[0].path@ == "/v1/"@,
        res.capabilities.net_http.allow@[0].method@ == "POST"@,
        res.capabilities.fs_read.allow@.len() == 1,
        res.capabilities.fs_read.allow@[0]@ == "/data/"@,
        res.capabilities.fs_write.allow@.len() == 0,
        !res.secrets.materialize,
        res.signature is None,
{
    let mut allowed_signers: Vec<String> = Vec::new();
    allowed_signers.push(string_of("acme.sec"));
    let mut net: Vec<HttpRule> = Vec::new();
    net.push(
        HttpRule {
            host: string_of("api.example.com"),
            path: string_of("/v1/"),
            method: string_of("POST"),
        },
    );
    let mut reads: Vec<String> = Vec::new();
    reads.push(string_of("/data/"));
    PolicyProfile {
        allowed_signers,
        capabilities: PolicyCapabilities {
            net_http: NetworkCapability { allow: net },
            fs_read: FilesystemCapability { allow: reads },
            fs_write: FilesystemCapability { allow: Vec::new() },
        },
        secrets: SecretPolicy { materialize: false },
        signature: None,
    }
}

/// The policy with an Ed25519 signature over `signing_payload`, the
/// serialization of the policy without its signature, made with the
/// secret key and recorded under the key id.
pub fn sign_policy(policy: PolicyProfile, key_id: &str, secret_key: &[u8], signing_payload: &[u8]) -> (res:
    PolicyProfile)
    requires
        secret_key@.len() == 32,
    ensures
        res.allowed_signers == policy.allowed_signers,
        res.capabilities == policy.capabilities,
        res.secrets == policy.secrets,
        res.signature matches Some(sig) && sig.key_id@ == key_id@ && sig.algorithm@ == "ed25519"@
            && sig.signature@ == spec_base64_encode(
            spec_ed25519_sign(secret_key@, signing_payload@),
        ) && spec_base64_decode(sig.signature@) == Some(
            spec_ed25519_sign(secret_key@, signing_payload@),
        ) && !is_blank(sig.signature@),
        spec_ed25519_sign(secret_key@, signing_payload@).len() == 64,
        spec_ed25519_verify(
            spec_ed25519_public(secret_key@),
            signing_payload@,
            spec_ed25519_sign(secret_key@, signing_payload@),
        ),
{
    let signature = ed25519_sign(secret_key, signing_payload);
    let text = base64_encode(signature.as_slice());
    proof {
        assert(text@.len() == 88);
        assert(is_base64_char(text@[0]));
        assert(!is_white_space(text@[0]));
    }
    let mut res = policy;
    res.signature = Some(
        PolicySignature {
            key_id: string_of(key_id),
            algorithm: string_of("ed25519"),
            signature: text,
        },
    );
    res
}

/// Makes the host's policy signing key trusted and signs the default
/// policy with it: the signed policy then passes signature verification
/// against the public key that the trust store records for its key id.
pub fn signed_default_policy(trust: &mut TrustStore, secret_key: &[u8], signing_payload: &[u8]) -> (res:
    PolicyProfile)
    requires
        old(trust).well_formed(),
        secret_key@.len() == 32,
    ensures
        final(trust).well_formed(),
        final(trust).policy_key_map() == old(trust).policy_key_map().insert(
            spec_policy_key_id(secret_key@),
            spec_base64_encode(spec_ed25519_public(secret_key@)),
        ),
        final(trust).roots@ == old(trust).roots@,
        final(trust).signers@ == old(trust).signers@,
        final(trust).revoked@ == old(trust).revoked@,
        res.signature matches Some(sig) && sig.key_id@ == spec_policy_key_id(secret_key@),
        res.signature matches Some(sig) && spec_signature_outcome(
            res,
            signing_payload@,
            final(trust).policy_key_map()[sig.key_id@],
            true,
        ) == SignatureOutcome::Accepted,
{
    let key_id = ensure_policy_key_in_trust(trust, secret_key);
    let policy = default_policy_profile();
    let res = sign_policy(policy, key_id.as_str(), secret_key, signing_payload);
    proof {
        reveal_strlit("policy-ed25519:");
        assert(key_id@[0] == 'p');
        assert(!is_blank(key_id@));
        assert(trust.policy_key_map()[key_id@] == spec_base64_encode(
            spec_ed25519_public(secret_key@),
        ));
    }
    res
}

} // verus!
