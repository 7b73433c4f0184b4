//! Signatures under several independent schemes: lists of them, the keys that check them, and the
//! rule by which a list is accepted.
use vstd::bytes::*;
use vstd::prelude::*;

verus! {

/// A set of schemes, bit N for scheme N.
pub type Mask = u16;

/// The elliptic-curve scheme, which every device has.
pub const ED25519: u8 = 0;

/// The lattice scheme.
pub const FALCON512: u8 = 1;

/// The hash-based scheme.
pub const SPHINCS_PLUS: u8 = 2;

/// What every device can sign with.
pub const MASK_BASE: Mask = 1;

/// The schemes that a proof of the current epoch carries: Ed25519 and Falcon-512.
pub const EPOCH_TIER: Mask = 3;

/// One signature under one scheme.
#[derive(Debug, Clone, PartialEq, Eq)]
pub struct Egg {
    pub scheme: u8,
    pub sig: Vec<u8>,
}

impl View for Egg {
    type V = (u8, Seq<u8>);

    open spec fn view(&self) -> (u8, Seq<u8>) {
        (self.scheme, self.sig@)
    }
}

/// What a list of signatures says.
pub open spec fn eggs_view(eggs: Seq<Egg>) -> Seq<(u8, Seq<u8>)> {
    Seq::new(eggs.len(), |i: int| eggs[i]@)
}

// ── the wire form ──

/// One entry of a list on the wire: the scheme, the length, the signature.
pub open spec fn egg_bytes(egg: (u8, Seq<u8>)) -> Seq<u8> {
    seq![egg.0] + spec_u32_to_le_bytes(egg.1.len() as u32) + egg.1
}

/// The entries of a list on the wire, one after the other.
pub open spec fn entries_bytes(eggs: Seq<(u8, Seq<u8>)>) -> Seq<u8>
    decreases eggs.len(),
{
    if eggs.len() == 0 {
        Seq::empty()
    } else {
        egg_bytes(eggs[0]) + entries_bytes(eggs.skip(1))
    }
}

/// A list on the wire: how many entries, then the entries.
pub open spec fn list_bytes(eggs: Seq<(u8, Seq<u8>)>) -> Seq<u8> {
    seq![eggs.len() as u8] + entries_bytes(eggs)
}

/// A list that the wire form can carry: at least one entry, no scheme twice, and every number
/// within its field.
pub open spec fn is_list(eggs: Seq<(u8, Seq<u8>)>) -> bool {
    &&& 1 <= eggs.len() <= 255
    &&& forall|i: int| 0 <= i < eggs.len() ==> (#[trigger] eggs[i]).1.len() <= u32::MAX
    &&& forall|i: int, j: int| 0 <= i < j < eggs.len() ==> (#[trigger] eggs[i]).0 != (#[trigger] eggs[j]).0
}

/// `vsf::eggs::eggs_to_bytes` (re-exported by `fgtw::pq`): the list in the form of [`list_bytes`].
#[verifier::external_body]
pub(crate) fn eggs_to_bytes(eggs: &[Egg]) -> (r: Vec<u8>)
    ensures
        r@ == list_bytes(eggs_view(eggs@)),
{
    let list: Vec<vsf::eggs::Egg> = eggs.iter().map(|e| vsf::eggs::Egg { scheme: e.scheme, sig: e.sig.clone() }).collect();
    fgtw::pq::eggs_to_bytes(&list)
}

/// `vsf::eggs::eggs_from_bytes` (re-exported by `fgtw::pq`): the list whose wire form these bytes
/// are; `None` exactly when they are the wire form of no list.
#[verifier::external_body]
fn eggs_from_bytes(bytes: &[u8]) -> (r: Option<Vec<Egg>>)
    ensures
        match r {
            Some(eggs) => is_list(eggs_view(eggs@)) && list_bytes(eggs_view(eggs@)) == bytes@,
            None => forall|eggs: Seq<(u8, Seq<u8>)>| is_list(eggs) ==> #[trigger] list_bytes(eggs) != bytes@,
        },
{
    let list = fgtw::pq::eggs_from_bytes(bytes).ok()?;
    Some(list.into_iter().map(|e| Egg { scheme: e.scheme, sig: e.sig }).collect())
}

proof fn lemma_entries_injective(a: Seq<(u8, Seq<u8>)>, b: Seq<(u8, Seq<u8>)>)
    requires
        a.len() == b.len(),
        entries_bytes(a) == entries_bytes(b),
        forall|i: int| 0 <= i < a.len() ==> (#[trigger] a[i]).1.len() <= u32::MAX,
        forall|i: int| 0 <= i < b.len() ==> (#[trigger] b[i]).1.len() <= u32::MAX,
    ensures
        a == b,
    decreases a.len(),
{
    if a.len() > 0 {
        lemma_auto_spec_u32_to_from_le_bytes();
        let wa = entries_bytes(a);
        let wb = entries_bytes(b);
        let (sa, ga) = a[0];
        let (sb, gb) = b[0];
        assert(wa[0] == sa);
        assert(wb[0] == sb);
        assert(wa.subrange(1, 5) == spec_u32_to_le_bytes(ga.len() as u32));
        assert(wb.subrange(1, 5) == spec_u32_to_le_bytes(gb.len() as u32));
        assert(spec_u32_from_le_bytes(wa.subrange(1, 5)) == ga.len() as u32);
        assert(spec_u32_from_le_bytes(wb.subrange(1, 5)) == gb.len() as u32);
        assert(ga.len() == gb.len());
        assert(wa.subrange(5, 5int + ga.len()) == ga);
        assert(wb.subrange(5, 5int + gb.len()) == gb);
        assert(entries_bytes(a.skip(1)) == wa.skip(5int + ga.len()));
        assert(entries_bytes(b.skip(1)) == wb.skip(5int + gb.len()));
        assert forall|i: int| 0 <= i < a.skip(1).len() implies (#[trigger] a.skip(1)[i]).1.len() <= u32::MAX by {
            assert(a.skip(1)[i] == a[i + 1]);
        }
        assert forall|i: int| 0 <= i < b.skip(1).len() implies (#[trigger] b.skip(1)[i]).1.len() <= u32::MAX by {
            assert(b.skip(1)[i] == b[i + 1]);
        }
        lemma_entries_injective(a.skip(1), b.skip(1));
        assert forall|i: int| 0 <= i < a.len() implies a[i] == b[i] by {
            if i > 0 {
                assert(a[i] == a.skip(1)[i - 1]);
                assert(b[i] == b.skip(1)[i - 1]);
            }
        }
    }
    assert(a == b);
}

/// Different lists never share their wire form.
pub proof fn law_lists_differ_on_the_wire(a: Seq<(u8, Seq<u8>)>, b: Seq<(u8, Seq<u8>)>)
    requires
        is_list(a),
        is_list(b),
        list_bytes(a) == list_bytes(b),
    ensures
        a == b,
{
    let wa = list_bytes(a);
    let wb = list_bytes(b);
    assert(wa[0] == a.len() as u8);
    assert(wb[0] == b.len() as u8);
    assert(wa.skip(1) == entries_bytes(a));
    assert(wb.skip(1) == entries_bytes(b));
    lemma_entries_injective(a, b);
}

/// The list whose wire form these bytes are, if there is one.
pub open spec fn list_in(bytes: Seq<u8>) -> Option<Seq<(u8, Seq<u8>)>> {
    if exists|eggs: Seq<(u8, Seq<u8>)>| is_list(eggs) && #[trigger] list_bytes(eggs) == bytes {
        Some(choose|eggs: Seq<(u8, Seq<u8>)>| is_list(eggs) && #[trigger] list_bytes(eggs) == bytes)
    } else {
        None
    }
}

/// Reading the wire form of a list gives the list.
pub proof fn law_list_round_trip(eggs: Seq<(u8, Seq<u8>)>)
    requires
        is_list(eggs),
    ensures
        list_in(list_bytes(eggs)) == Some(eggs),
{
    let back = list_in(list_bytes(eggs))->0;
    law_lists_differ_on_the_wire(back, eggs);
}

/// What an optional list says.
pub open spec fn opt_eggs(eggs: Option<Vec<Egg>>) -> Option<Seq<(u8, Seq<u8>)>> {
    match eggs {
        Some(list) => Some(eggs_view(list@)),
        None => None,
    }
}

/// Read a list from its wire form.
pub fn read_eggs(bytes: &[u8]) -> (r: Option<Vec<Egg>>)
    ensures
        opt_eggs(r) == list_in(bytes@),
{
    let r = eggs_from_bytes(bytes);
    proof {
        if r is Some {
            law_list_round_trip(eggs_view(r->0@));
        }
    }
    r
}

// ── checking ──

/// A device's public keys, one per scheme, in their wire form.
#[derive(Debug, Clone, PartialEq, Eq)]
pub struct KeyBundle {
    pub bytes: Vec<u8>,
}

/// What `fgtw::pq::verify_egg` gives for a signature over `msg` under the key that the bundle
/// holds for the scheme; `false` where the bundle holds none, or is not a bundle.
pub uninterp spec fn egg_accepted(bundle: Seq<u8>, scheme: u8, msg: Seq<u8>, sig: Seq<u8>) -> bool;

/// The set `mask` holds `scheme`.
pub open spec fn asks_for(mask: Mask, scheme: u8) -> bool {
    scheme < 16 && mask & (1u16 << scheme) != 0
}

/// The list has a signature under `scheme`.
pub open spec fn signs_with(eggs: Seq<(u8, Seq<u8>)>, scheme: u8) -> bool {
    exists|i: int| 0 <= i < eggs.len() && (#[trigger] eggs[i]).0 == scheme
}

/// Every signature in the list holds against the bundle.
pub open spec fn all_accepted(eggs: Seq<(u8, Seq<u8>)>, bundle: Seq<u8>, msg: Seq<u8>) -> bool {
    forall|i: int| 0 <= i < eggs.len() ==> egg_accepted(bundle, (#[trigger] eggs[i]).0, msg, eggs[i].1)
}

/// The list has a signature under every required scheme.
pub open spec fn covers(eggs: Seq<(u8, Seq<u8>)>, required: Mask) -> bool {
    forall|s: u8| #[trigger] asks_for(required, s) ==> signs_with(eggs, s)
}

/// The rule: the list is not empty, every signature in it holds against the bundle, and every
/// required scheme is there.
pub open spec fn eggs_hold(eggs: Seq<(u8, Seq<u8>)>, bundle: Seq<u8>, msg: Seq<u8>, required: Mask) -> bool {
    &&& eggs.len() > 0
    &&& all_accepted(eggs, bundle, msg)
    &&& covers(eggs, required)
}

/// `fgtw::pq::verify_eggs`: every listed signature verifies under the bundle's key for its scheme,
/// and the listed schemes cover the required ones; an empty list never does. A bundle that is
/// none accepts nothing.
#[verifier::external_body]
fn check_eggs(eggs: &[Egg], bundle: &KeyBundle, msg: &[u8], required: Mask) -> (r: bool)
    ensures
        r == eggs_hold(eggs_view(eggs@), bundle.bytes@, msg@, required),
{
    let list: Vec<vsf::eggs::Egg> = eggs.iter().map(|e| vsf::eggs::Egg { scheme: e.scheme, sig: e.sig.clone() }).collect();
    match fgtw::pq::KeyBundle::from_bytes(&bundle.bytes) {
        Ok(keys) => fgtw::pq::verify_eggs(&list, &keys, msg, required),
        Err(_) => false,
    }
}

/// Whether a list of signatures over `msg` is accepted against `bundle` with `required` schemes.
pub fn verify_eggs(eggs: &[Egg], bundle: &KeyBundle, msg: &[u8], required: Mask) -> (r: bool)
    ensures
        r == eggs_hold(eggs_view(eggs@), bundle.bytes@, msg@, required),
{
    check_eggs(eggs, bundle, msg, required)
}

/// A list that lacks a required scheme is refused, however good its signatures are: a handshake
/// cannot be stripped down below the floor.
pub proof fn law_short_list_is_refused(eggs: Seq<(u8, Seq<u8>)>, bundle: Seq<u8>, msg: Seq<u8>, required: Mask, scheme: u8)
    requires
        asks_for(required, scheme),
        !signs_with(eggs, scheme),
    ensures
        !eggs_hold(eggs, bundle, msg, required),
{
}

/// A list with one signature that does not verify is refused, whatever else it holds.
pub proof fn law_bad_egg_is_refused(eggs: Seq<(u8, Seq<u8>)>, bundle: Seq<u8>, msg: Seq<u8>, required: Mask, i: int)
    requires
        0 <= i < eggs.len(),
        !egg_accepted(bundle, eggs[i].0, msg, eggs[i].1),
    ensures
        !eggs_hold(eggs, bundle, msg, required),
{
}

/// The wire form of a bundle with nothing but an Ed25519 key.
pub open spec fn plain_bundle(device: Seq<u8>) -> Seq<u8> {
    seq![1u8, ED25519, 32u8, 0u8] + device
}

/// `fgtw::pq::KeyBundle::ed25519_only` in its wire form: one key, scheme 0, 32 bytes.
#[verifier::external_body]
pub(crate) fn ed25519_only(device: &[u8; 32]) -> (r: KeyBundle)
    ensures
        r.bytes@ == plain_bundle(device@),
{
    KeyBundle { bytes: fgtw::pq::KeyBundle::ed25519_only(device).to_bytes() }
}

// ── signing ──

/// A device's secret keys across every scheme.
#[verifier::external_type_specification]
#[verifier::external_body]
pub struct ExSigningBundle(fgtw::pq::SigningBundle);

/// The secret keys that a signing bundle holds, by scheme.
pub uninterp spec fn secrets_of(bundle: fgtw::pq::SigningBundle) -> Map<u8, Seq<u8>>;

/// The secret keys that `fgtw::pq::SigningBundle::derive` derives from a machine's fingerprint.
pub uninterp spec fn machine_secrets(fingerprint: Seq<u8>) -> Map<u8, Seq<u8>>;

/// The secret keys that `fgtw::pq::epoch_bundle` derives from a fleet key.
pub uninterp spec fn epoch_secrets(fleet_key: Seq<u8>) -> Map<u8, Seq<u8>>;

/// What `fgtw::pq::SigningBundle::public` gives for these secrets: the public keys that belong to
/// them, in their wire form.
pub uninterp spec fn public_of(secrets: Map<u8, Seq<u8>>) -> Seq<u8>;

/// The signature that a bundle with these secrets makes over a message under one of the schemes
/// besides Ed25519.
pub uninterp spec fn bundle_signature(secrets: Map<u8, Seq<u8>>, msg: Seq<u8>, scheme: u8) -> Seq<u8>;

/// The signature that Ed25519 makes over a message with a seed.
pub uninterp spec fn ed25519_signature(seed: Seq<u8>, msg: Seq<u8>) -> Seq<u8>;

/// The list that a bundle with these secrets makes over `msg` for `schemes`: Ed25519 always, and
/// first; each of the others where asked for.
pub open spec fn bundle_eggs(secrets: Map<u8, Seq<u8>>, msg: Seq<u8>, schemes: Mask) -> Seq<(u8, Seq<u8>)> {
    let falcon = if schemes & 2 != 0 {
        seq![(FALCON512, bundle_signature(secrets, msg, FALCON512))]
    } else {
        Seq::empty()
    };
    let sphincs = if schemes & 4 != 0 {
        seq![(SPHINCS_PLUS, bundle_signature(secrets, msg, SPHINCS_PLUS))]
    } else {
        Seq::empty()
    };
    seq![(ED25519, ed25519_signature(secrets[ED25519], msg))] + falcon + sphincs
}

/// `fgtw::pq::SigningBundle::derive`: all of a machine's keys, from its fingerprint alone. The
/// Ed25519 seed among them is the one of the device key: the BLAKE3 hash of the fingerprint.
#[verifier::external_body]
fn derive_bundle(fingerprint: &[u8]) -> (r: fgtw::pq::SigningBundle)
    ensures
        secrets_of(r) == machine_secrets(fingerprint@),
        secrets_of(r)[ED25519] == crate::keys::blake3_hash(fingerprint@),
{
    fgtw::pq::SigningBundle::derive(fingerprint)
}

/// `fgtw::pq::epoch_bundle`: the keys that prove the current epoch, from the fleet key alone.
#[verifier::external_body]
fn epoch_bundle(fleet_key: &[u8; 32]) -> (r: fgtw::pq::SigningBundle)
    ensures
        secrets_of(r) == epoch_secrets(fleet_key@),
{
    fgtw::pq::epoch_bundle(fleet_key)
}

/// `fgtw::pq::SigningBundle::public` in its wire form: a function of the bundle's secrets.
#[verifier::external_body]
fn read_public(bundle: &fgtw::pq::SigningBundle) -> (r: KeyBundle)
    ensures
        r.bytes@ == public_of(secrets_of(*bundle)),
{
    KeyBundle { bytes: bundle.public().to_bytes() }
}

/// `fgtw::pq::SigningBundle::eggs`: one signature per scheme asked for, Ed25519 always and first,
/// each a function of the bundle's secrets and the message. No signature is longer than 7856
/// bytes. Each holds against the bundle's own public keys, and the Ed25519 signature also against
/// a bundle with nothing but that key.
#[verifier::external_body]
fn sign_with_bundle(bundle: &fgtw::pq::SigningBundle, msg: &[u8], schemes: Mask) -> (r: Vec<Egg>)
    ensures
        eggs_view(r@) == bundle_eggs(secrets_of(*bundle), msg@, schemes),
        forall|i: int| 0 < i < r@.len() ==> (#[trigger] r@[i]).sig@ == bundle_signature(secrets_of(*bundle), msg@, r@[i].scheme),
        forall|i: int| 0 <= i < r@.len() ==> (#[trigger] r@[i]).sig@.len() <= 7856,
        all_accepted(eggs_view(r@), public_of(secrets_of(*bundle)), msg@),
        egg_accepted(
            plain_bundle(crate::keys::ed25519_public(secrets_of(*bundle)[ED25519])),
            ED25519,
            msg@,
            r@[0].sig@,
        ),
{
    let list = fgtw::pq::FleetSigner::eggs(bundle, msg, schemes);
    list.into_iter().map(|e| Egg { scheme: e.scheme, sig: e.sig }).collect()
}

/// `fgtw::keys::Keypair` as a signer: one Ed25519 signature over the message, 64 bytes long,
/// whatever schemes are asked for. It holds against the seed's public key.
#[verifier::external_body]
fn sign_with_seed(seed: &[u8; 32], msg: &[u8]) -> (r: Vec<u8>)
    ensures
        r@ == ed25519_signature(seed@, msg@),
        r@.len() == 64,
        egg_accepted(plain_bundle(crate::keys::ed25519_public(seed@)), ED25519, msg@, r@),
{
    fgtw::keys::Keypair::from_seed(seed).sign(msg).to_bytes().to_vec()
}

/// This device's full signing bundle, or `None` when the fingerprint could not be read. Deriving
/// it is slow: once per process is enough.
pub fn signing_bundle(fingerprint: Option<&[u8]>) -> (r: Option<fgtw::pq::SigningBundle>)
    ensures
        r is Some <==> fingerprint is Some,
        r matches Some(bundle) ==> secrets_of(bundle) == machine_secrets(fingerprint->0@) && secrets_of(bundle)[ED25519]
            == crate::keys::blake3_hash(fingerprint->0@),
{
    match fingerprint {
        Some(fp) => Some(derive_bundle(fp)),
        None => None,
    }
}

/// The public keys of a signing bundle: what a device declares to its fleet.
pub fn public_keys(bundle: &fgtw::pq::SigningBundle) -> (r: KeyBundle)
    ensures
        r.bytes@ == public_of(secrets_of(*bundle)),
{
    read_public(bundle)
}

/// The public keys of an epoch: what the fan-out of a fleet with this key carries.
pub fn epoch_public_keys(fleet_key: &[u8; 32]) -> (r: KeyBundle)
    ensures
        r.bytes@ == public_of(epoch_secrets(fleet_key@)),
{
    read_public(&epoch_bundle(fleet_key))
}

proof fn lemma_bundle_eggs_is_list(secrets: Map<u8, Seq<u8>>, msg: Seq<u8>, schemes: Mask)
    requires
        forall|i: int| 0 <= i < bundle_eggs(secrets, msg, schemes).len() ==> (#[trigger] bundle_eggs(secrets, msg, schemes)[i]).1.len() <= 7856,
    ensures
        is_list(bundle_eggs(secrets, msg, schemes)),
{
}

/// The list with which a device signs `msg`: all schemes asked for where its bundle is at hand,
/// Ed25519 alone where it is not.
pub open spec fn device_list(
    bundle: Option<fgtw::pq::SigningBundle>,
    seed: Seq<u8>,
    msg: Seq<u8>,
    schemes: Mask,
) -> Seq<(u8, Seq<u8>)> {
    match bundle {
        Some(b) => bundle_eggs(secrets_of(b), msg, schemes),
        None => seq![(ED25519, ed25519_signature(seed, msg))],
    }
}

/// The signing bundle that a reference points to.
pub open spec fn opt_signer(bundle: Option<&fgtw::pq::SigningBundle>) -> Option<fgtw::pq::SigningBundle> {
    match bundle {
        Some(b) => Some(*b),
        None => None,
    }
}

/// The public keys that a device's signatures are to be held to: all of its bundle's where it
/// signs with more than Ed25519, else its Ed25519 key alone.
pub open spec fn own_keys(bundle: Option<fgtw::pq::SigningBundle>, seed: Seq<u8>, schemes: Mask) -> Seq<u8> {
    match bundle {
        Some(b) => if schemes & 6 != 0 {
            public_of(secrets_of(b))
        } else {
            plain_bundle(crate::keys::ed25519_public(secrets_of(b)[ED25519]))
        },
        None => plain_bundle(crate::keys::ed25519_public(seed)),
    }
}

/// Sign `msg` as this device, with the schemes of `schemes` that it holds. The signatures hold
/// against the device's own public keys.
pub fn device_eggs(
    bundle: Option<&fgtw::pq::SigningBundle>,
    key: &crate::keys::DeviceKey,
    msg: &[u8],
    schemes: Mask,
) -> (r: Vec<Egg>)
    ensures
        eggs_view(r@) == device_list(opt_signer(bundle), key.seed@, msg@, schemes),
        is_list(eggs_view(r@)),
        all_accepted(eggs_view(r@), own_keys(opt_signer(bundle), key.seed@, schemes), msg@),
        bundle matches Some(b) ==> all_accepted(eggs_view(r@), public_of(secrets_of(*b)), msg@),
{
    match bundle {
        Some(b) => {
            let r = sign_with_bundle(b, msg, schemes);
            proof {
                let view = eggs_view(r@);
                assert forall|i: int| 0 <= i < view.len() implies (#[trigger] view[i]).1.len() <= 7856 by {
                    assert(r@[i].sig@.len() <= 7856);
                }
                lemma_bundle_eggs_is_list(secrets_of(*b), msg@, schemes);
                assert(schemes & 6 == 0 ==> schemes & 2 == 0 && schemes & 4 == 0) by (bit_vector);
                assert(view[0] == r@[0]@);
            }
            r
        },
        None => {
            let sig = sign_with_seed(&key.seed, msg);
            let mut r: Vec<Egg> = Vec::new();
            r.push(Egg { scheme: ED25519, sig });
            assert(eggs_view(r@) == seq![(ED25519, ed25519_signature(key.seed@, msg@))]);
            r
        },
    }
}

/// Sign `msg` as a holder of the current fleet key. The signatures prove the epoch: they are
/// accepted against the epoch's public keys.
pub fn epoch_eggs(fleet_key: &[u8; 32], msg: &[u8]) -> (r: Vec<Egg>)
    ensures
        eggs_view(r@) == bundle_eggs(epoch_secrets(fleet_key@), msg@, EPOCH_TIER),
        is_list(eggs_view(r@)),
        eggs_hold(eggs_view(r@), public_of(epoch_secrets(fleet_key@)), msg@, EPOCH_TIER),
{
    let bundle = epoch_bundle(fleet_key);
    let r = sign_with_bundle(&bundle, msg, EPOCH_TIER);
    proof {
        let view = eggs_view(r@);
        assert forall|i: int| 0 <= i < view.len() implies (#[trigger] view[i]).1.len() <= 7856 by {
            assert(r@[i].sig@.len() <= 7856);
        }
        lemma_bundle_eggs_is_list(epoch_secrets(fleet_key@), msg@, EPOCH_TIER);
        assert(3u16 & 2 != 0) by (bit_vector);
        assert(view[0].0 == ED25519 && view[1].0 == FALCON512);
        assert forall|s: u8| #[trigger] asks_for(EPOCH_TIER, s) implies signs_with(view, s) by {
            assert(s < 16 && 3u16 & (1u16 << s) != 0 ==> s == 0 || s == 1) by (bit_vector);
        }
    }
    r
}

// ── which schemes sign, and what is accepted ──

/// A device that has its bundle at hand signs with Ed25519 and with those of the other two schemes that
/// are asked for, once each, and with nothing else; one without signs with Ed25519 alone.
pub proof fn law_schemes_that_sign(bundle: Option<fgtw::pq::SigningBundle>, seed: Seq<u8>, msg: Seq<u8>, schemes: Mask, s: u8)
    ensures
        (exists|i: int| 0 <= i < device_list(bundle, seed, msg, schemes).len() && (#[trigger] device_list(bundle, seed, msg, schemes)[i]).0 == s)
            <==> s == 0 || (bundle is Some && (s == 1 || s == 2) && schemes & (1u16 << s) != 0),
        forall|i: int, j: int|
            0 <= i < j < device_list(bundle, seed, msg, schemes).len() ==> (#[trigger] device_list(bundle, seed, msg, schemes)[i]).0 < (
            #[trigger] device_list(bundle, seed, msg, schemes)[j]).0,
        device_list(bundle, seed, msg, schemes)[0] == (0u8, ed25519_signature(
            match bundle {
                Some(b) => secrets_of(b)[0],
                None => seed,
            },
            msg,
        )),
        forall|i: int|
            1 <= i < device_list(bundle, seed, msg, schemes).len() ==> bundle is Some && (#[trigger] device_list(
                bundle,
                seed,
                msg,
                schemes,
            )[i]).1 == bundle_signature(secrets_of(bundle->0), msg, device_list(bundle, seed, msg, schemes)[i].0),
{
    let list = device_list(bundle, seed, msg, schemes);
    assert(schemes & (1u16 << 1) == schemes & 2) by (bit_vector);
    assert(schemes & (1u16 << 2) == schemes & 4) by (bit_vector);
    assert(list[0].0 == 0);
    if bundle is Some {
        if schemes & 2 != 0 {
            assert(list[1].0 == 1);
            if schemes & 4 != 0 {
                assert(list[2].0 == 2);
            }
        } else if schemes & 4 != 0 {
            assert(list[1].0 == 2);
        }
    }
}

/// A holder of the fleet key proves the epoch with Ed25519 and Falcon-512, in this order, under the
/// epoch's secrets.
pub proof fn law_epoch_is_proved_twice(fleet_key: Seq<u8>, msg: Seq<u8>)
    ensures
        bundle_eggs(epoch_secrets(fleet_key), msg, EPOCH_TIER) == seq![
            (0u8, ed25519_signature(epoch_secrets(fleet_key)[0], msg)),
            (1u8, bundle_signature(epoch_secrets(fleet_key), msg, 1)),
        ],
{
    assert(3u16 & 2 != 0 && 3u16 & 4 == 0) by (bit_vector);
}

/// A list is accepted exactly when it is not empty, each of its signatures verifies, and for every bit
/// of the required set there is a signature under that scheme.
pub proof fn law_acceptance(eggs: Seq<(u8, Seq<u8>)>, bundle: Seq<u8>, msg: Seq<u8>, required: Mask)
    ensures
        eggs_hold(eggs, bundle, msg, required) <==> {
            &&& eggs.len() >= 1
            &&& forall|i: int| 0 <= i < eggs.len() ==> egg_accepted(bundle, (#[trigger] eggs[i]).0, msg, eggs[i].1)
            &&& forall|s: u8|
                #![trigger 1u16 << s]
                s <= 15 && required & (1u16 << s) != 0 ==> exists|i: int| 0 <= i < eggs.len() && (#[trigger] eggs[i]).0 == s
        },
{
    assert forall|s: u8| #[trigger] asks_for(required, s) implies s <= 15 && required & (1u16 << s) != 0 by {}
    if eggs_hold(eggs, bundle, msg, required) {
        assert forall|s: u8|
            #![trigger 1u16 << s]
            s <= 15 && required & (1u16 << s) != 0 implies exists|i: int| 0 <= i < eggs.len() && (#[trigger] eggs[i]).0 == s by {
            assert(asks_for(required, s));
        }
    }
}

/// The keys that a device's signatures are held to: its bundle's public keys where it signs with
/// Falcon-512 or SPHINCS+ too, and else a bundle of one key, the one of its seed.
pub proof fn law_own_keys(bundle: fgtw::pq::SigningBundle, seed: Seq<u8>, schemes: Mask)
    ensures
        schemes & 2 != 0 || schemes & 4 != 0 ==> own_keys(Some(bundle), seed, schemes) == public_of(secrets_of(bundle)),
        schemes & 2 == 0 && schemes & 4 == 0 ==> own_keys(Some(bundle), seed, schemes) == seq![1u8, 0u8, 32u8, 0u8]
            + crate::keys::ed25519_public(secrets_of(bundle)[0]),
        own_keys(None, seed, schemes) == seq![1u8, 0u8, 32u8, 0u8] + crate::keys::ed25519_public(seed),
{
    assert(schemes & 6 != 0 <==> schemes & 2 != 0 || schemes & 4 != 0) by (bit_vector);
}

/// A list on the wire starts with its count; each entry is its scheme, the length of its signature in
/// four bytes, low byte first, and the signature.
pub proof fn law_list_layout(eggs: Seq<(u8, Seq<u8>)>, first: (u8, Seq<u8>))
    requires
        is_list(seq![first] + eggs),
    ensures
        ({
            let wire = list_bytes(seq![first] + eggs);
            let n = first.1.len() as int;
            &&& wire[0] == 1 + eggs.len()
            &&& wire[1] == first.0
            &&& spec_u32_from_le_bytes(wire.subrange(2, 6)) == n
            &&& wire.subrange(6, 6 + n) == first.1
            &&& wire.skip(6 + n) == entries_bytes(eggs)
            &&& eggs.len() == 0 ==> wire.len() == 6 + n
        }),
{
    let all = seq![first] + eggs;
    let wire = list_bytes(all);
    let n = first.1.len() as int;
    lemma_auto_spec_u32_to_from_le_bytes();
    assert(all[0] == first);
    assert(all.skip(1) == eggs);
    assert(spec_u32_to_le_bytes(n as u32).len() == 4);
    assert(wire == seq![all.len() as u8] + (egg_bytes(first) + entries_bytes(eggs)));
    assert(wire.subrange(2, 6) == spec_u32_to_le_bytes(n as u32));
    assert(spec_u32_from_le_bytes(spec_u32_to_le_bytes(n as u32)) == n as u32);
    assert(wire.subrange(6, 6 + n) == first.1);
    assert(wire.skip(6 + n) == entries_bytes(eggs));
}

/// The schemes by their numbers, and the two sets of them.
pub proof fn law_scheme_numbers()
    ensures
        ED25519 == 0,
        FALCON512 == 1,
        SPHINCS_PLUS == 2,
        MASK_BASE == 1,
        EPOCH_TIER == 3,
{
}

/// What a list says is the scheme and the signature of each entry, in order.
pub proof fn law_what_a_list_says(eggs: Vec<Egg>, i: int)
    requires
        0 <= i < eggs@.len(),
    ensures
        eggs_view(eggs@).len() == eggs@.len(),
        eggs_view(eggs@)[i] == (eggs@[i].scheme, eggs@[i].sig@),
        opt_eggs(Some(eggs)) == Some(eggs_view(eggs@)),
        opt_eggs(None) is None,
{
}

/// Bytes hold a list exactly when they are the wire form of one, and no other list is read from them.
pub proof fn law_what_is_a_list(bytes: Seq<u8>, eggs: Seq<(u8, Seq<u8>)>)
    ensures
        list_in(bytes) matches Some(list) ==> is_list(list) && list_bytes(list) == bytes,
        is_list(eggs) && list_bytes(eggs) == bytes ==> list_in(bytes) == Some(eggs),
        eggs.len() == 0 || eggs.len() > 255 ==> !is_list(eggs),
        forall|i: int, j: int|
            0 <= i < j < eggs.len() && (#[trigger] eggs[i]).0 == (#[trigger] eggs[j]).0 ==> !is_list(eggs),
{
    if is_list(eggs) && list_bytes(eggs) == bytes {
        law_list_round_trip(eggs);
    }
}

/// A device signs with the bundle that it has at hand.
pub proof fn law_signer(bundle: &fgtw::pq::SigningBundle)
    ensures
        opt_signer(Some(bundle)) == Some(*bundle),
        opt_signer(None) is None,
{
}

} // verus!
