//! Device keys and the identity material derived from a handle.
use vstd::prelude::*;

verus! {

/// What `blake3::hash` gives for a byte string.
pub uninterp spec fn blake3_hash(input: Seq<u8>) -> Seq<u8>;

/// What Ed25519 gives as the public key of a 32-byte seed.
pub uninterp spec fn ed25519_public(seed: Seq<u8>) -> Seq<u8>;

/// What `fgtw::pair::device_name_default` gives for a device key and an identity seed.
pub uninterp spec fn default_name(device: Seq<u8>, identity_seed: Seq<u8>) -> Seq<char>;

/// What `fgtw::pair::masked_device_words` gives for a device key and an identity seed.
pub uninterp spec fn pairing_words(device: Seq<u8>, identity_seed: Seq<u8>) -> Seq<char>;

/// What `ihi::handle_to_hash` gives for a handle.
pub uninterp spec fn handle_hash(handle: Seq<char>) -> Seq<u8>;

/// What `ihi::handle_to_proof` gives for a handle.
pub uninterp spec fn handle_proof(handle: Seq<char>) -> Seq<u8>;

/// What `tohu::handle_seed` gives for a handle.
pub uninterp spec fn vault_seed(handle: Seq<char>) -> Seq<u8>;

/// `blake3::hash`: the digest of the whole input, a function of the input alone.
#[verifier::external_body]
pub(crate) fn blake3_of(input: &[u8]) -> (r: [u8; 32])
    ensures
        r@ == blake3_hash(input@),
{
    *blake3::hash(input).as_bytes()
}

/// A device's Ed25519 key: the 32-byte seed and the public key that belongs to it.
#[derive(Clone, Copy, Debug, PartialEq, Eq)]
pub struct DeviceKey {
    pub seed: [u8; 32],
    pub public: [u8; 32],
}

impl DeviceKey {
    /// The public key is the one of the seed.
    pub open spec fn wf(&self) -> bool {
        self.public@ == ed25519_public(self.seed@)
    }
}

/// `fgtw::keys::derive_device_keypair`: hashes the fingerprint with BLAKE3 into the Ed25519 seed
/// and takes the key pair of that seed.
#[verifier::external_body]
fn derive_device_key(fingerprint: &[u8]) -> (r: DeviceKey)
    ensures
        r.seed@ == blake3_hash(fingerprint@),
        r.public@ == ed25519_public(blake3_hash(fingerprint@)),
{
    let pair = fgtw::keys::derive_device_keypair(fingerprint);
    DeviceKey { seed: pair.secret.to_bytes(), public: pair.public.to_bytes() }
}

/// `fgtw::keys::Keypair::from_seed`: the public key of a seed.
#[verifier::external_body]
pub(crate) fn public_of_seed(seed: &[u8; 32]) -> (r: [u8; 32])
    ensures
        r@ == ed25519_public(seed@),
{
    fgtw::keys::Keypair::from_seed(seed).public.to_bytes()
}

/// `fgtw::pair::device_name_default`: the two-word label of a device within one fleet.
#[verifier::external_body]
pub(crate) fn device_name_default(device: &[u8; 32], identity_seed: &[u8; 32]) -> (r: String)
    ensures
        r@ == default_name(device@, identity_seed@),
{
    fgtw::pair::device_name_default(device, identity_seed)
}

/// `fgtw::pair::masked_device_words`: the words a joining device shows, a function of its key and
/// the identity seed.
#[verifier::external_body]
pub(crate) fn masked_device_words(device: &[u8; 32], identity_seed: &[u8; 32]) -> (r: String)
    ensures
        r@ == pairing_words(device@, identity_seed@),
{
    fgtw::pair::masked_device_words(device, identity_seed)
}

/// `ihi::handle_to_hash`: the digest of the handle's canonical encoding.
#[verifier::external_body]
fn hash_handle(handle: &str) -> (r: [u8; 32])
    ensures
        r@ == handle_hash(handle@),
{
    *ihi::handle_to_hash(handle).as_bytes()
}

/// `ihi::handle_to_proof`: the memory-hard proof of the handle.
#[verifier::external_body]
fn prove_handle(handle: &str) -> (r: [u8; 32])
    ensures
        r@ == handle_proof(handle@),
{
    *ihi::handle_to_proof(handle).as_bytes()
}

/// `tohu::handle_seed`: the handle's seed for material that stays on the device.
#[verifier::external_body]
fn seed_handle(handle: &str) -> (r: [u8; 32])
    ensures
        r@ == vault_seed(handle@),
{
    tohu::handle_seed(handle)
}

/// The device key of the machine with this fingerprint. `None` when the fingerprint could not be
/// read.
pub fn device_keypair(fingerprint: Option<&[u8]>) -> (r: Option<DeviceKey>)
    ensures
        r is Some <==> fingerprint is Some,
        fingerprint matches Some(fp) ==> r matches Some(key) && key.wf() && key.seed@ == blake3_hash(fp@),
{
    match fingerprint {
        Some(fp) => Some(derive_device_key(fp)),
        None => None,
    }
}

/// The bytes to use as the machine's fingerprint: the override where one is given and not empty,
/// else what the machine's oracle gave.
pub fn machine_fingerprint(override_text: Option<&str>, oracle: Option<Vec<u8>>) -> (r: Option<Vec<u8>>)
    ensures
        match override_text {
            Some(text) if text@.len() > 0 => r matches Some(bytes) && bytes@ == vstd::utf8::encode_utf8(text@),
            _ => r == oracle,
        },
{
    match override_text {
        Some(text) => if !text.is_empty() {
            let mut out: Vec<u8> = Vec::new();
            out.extend_from_slice(text.as_bytes());
            assert(out@ == vstd::utf8::encode_utf8(text@));
            Some(out)
        } else {
            oracle
        },
        None => oracle,
    }
}

/// The signing identity of the remote desktop service: its secret key is the device's seed
/// followed by the device's public key, its public key is the device's.
pub fn seed_rustdesk_identity(key: &DeviceKey) -> (r: (Vec<u8>, Vec<u8>))
    ensures
        r.0@ == key.seed@ + key.public@,
        r.1@ == key.public@,
{
    let mut secret: Vec<u8> = Vec::new();
    secret.extend_from_slice(&key.seed);
    secret.extend_from_slice(&key.public);
    let mut public: Vec<u8> = Vec::new();
    public.extend_from_slice(&key.public);
    assert(secret@ == key.seed@ + key.public@);
    assert(public@ == key.public@);
    (secret, public)
}

/// The name that every other device of the fleet shows for this machine. `None` without a
/// session or a device key.
pub fn self_fleet_name(identity_seed: Option<[u8; 32]>, key: Option<DeviceKey>) -> (r: Option<String>)
    ensures
        r is Some <==> identity_seed is Some && key is Some,
        r matches Some(name) ==> name@ == default_name(key->0.public@, identity_seed->0@),
{
    match (identity_seed, key) {
        (Some(seed), Some(k)) => Some(device_name_default(&k.public, &seed)),
        _ => None,
    }
}

/// What a handle stands for: the seed that acts, the proof that names the fleet, and the seed for
/// local material.
#[derive(Clone, Copy, Debug, PartialEq, Eq)]
pub struct SessionIdentity {
    pub identity_seed: [u8; 32],
    pub vault_seed: [u8; 32],
    pub handle_proof: [u8; 32],
}

/// Derive the identity behind a handle. The handle is taken byte for byte: nothing is folded,
/// trimmed or filtered.
pub fn derive_identity(handle: &str) -> (r: SessionIdentity)
    ensures
        r.identity_seed@ == handle_hash(handle@),
        r.handle_proof@ == handle_proof(handle@),
        r.vault_seed@ == vault_seed(handle@),
{
    let identity_seed = hash_handle(handle);
    let proof = prove_handle(handle);
    SessionIdentity { identity_seed, vault_seed: seed_handle(handle), handle_proof: proof }
}

/// A device's public key is the one that belongs to its seed.
pub proof fn law_key_pair(key: DeviceKey)
    ensures
        key.wf() <==> key.public@ == ed25519_public(key.seed@),
{
}

} // verus!
