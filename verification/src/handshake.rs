//! The fleet handshake: what a guest signs, what it sends, and how a host that holds nothing but
//! its own key decides.
use crate::chain::{contains_key, Chain};
use crate::document::{find_field, read_document, write_document, Field, FieldKind, ReadField};
use crate::eggs::{
    device_eggs, ed25519_only, eggs_to_bytes, epoch_eggs, read_eggs, verify_eggs, Egg, KeyBundle, Mask, EPOCH_TIER, MASK_BASE,
};
use crate::keys::{blake3_of, DeviceKey};
use crate::writing::stamp;
use vstd::prelude::*;

verus! {

/// What a host makes of an incoming handshake.
#[derive(Debug, Clone, Copy, PartialEq, Eq, Structural)]
pub enum FgtwVerdict {
    /// The connection is authorized.
    Accepted,
    /// This host has no device key to verify with.
    NotEnrolled,
    /// The payload is no handshake.
    BadPayload,
    /// The guest's signatures do not hold.
    BadSignature,
    /// The guest is not a current member of the fleet it named.
    NotMember,
    /// This host is not a member of the fleet that the guest named.
    ForeignFleet,
    /// The guest could not prove the current epoch.
    LockedOut,
    /// Membership or epoch could not be established.
    StaleCache,
}

impl FgtwVerdict {
    /// Whether the connection is authorized.
    pub fn is_ok(&self) -> (r: bool)
        ensures
            r == (*self == FgtwVerdict::Accepted),
    {
        match self {
            FgtwVerdict::Accepted => true,
            _ => false,
        }
    }
}

// ── what is signed ──

/// The domain that the signed bytes are bound to.
pub const HS_DOMAIN: &'static str = "fgtw-rustdesk-hs-v1";

/// The bytes whose digest both sides go by: the domain, the fleet, the guest's box key for this
/// connection, and the host's identity key.
pub open spec fn hs_preimage(handle_proof: Seq<u8>, client_box: Seq<u8>, host_sign: Seq<u8>) -> Seq<u8> {
    vstd::utf8::encode_utf8(HS_DOMAIN@) + handle_proof + client_box + host_sign
}

/// The digest that is signed.
pub open spec fn digest(handle_proof: Seq<u8>, client_box: Seq<u8>, host_sign: Seq<u8>) -> Seq<u8> {
    crate::keys::blake3_hash(hs_preimage(handle_proof, client_box, host_sign))
}

/// The digest that a handshake's signatures are over.
pub fn hs_digest(handle_proof: &[u8; 32], client_box: &[u8; 32], host_sign: &[u8; 32]) -> (r: [u8; 32])
    ensures
        r@ == digest(handle_proof@, client_box@, host_sign@),
{
    let mut input: Vec<u8> = Vec::new();
    input.extend_from_slice(HS_DOMAIN.as_bytes());
    input.extend_from_slice(handle_proof);
    input.extend_from_slice(client_box);
    input.extend_from_slice(host_sign);
    assert(input@ == hs_preimage(handle_proof@, client_box@, host_sign@));
    blake3_of(input.as_slice())
}

/// The signed bytes pin the fleet, the connection and the host: change any one of them and other
/// bytes are signed.
pub proof fn law_signature_is_bound(hp_a: Seq<u8>, box_a: Seq<u8>, host_a: Seq<u8>, hp_b: Seq<u8>, box_b: Seq<u8>, host_b: Seq<u8>)
    requires
        hp_a.len() == 32,
        box_a.len() == 32,
        host_a.len() == 32,
        hp_b.len() == 32,
        box_b.len() == 32,
        host_b.len() == 32,
        hs_preimage(hp_a, box_a, host_a) == hs_preimage(hp_b, box_b, host_b),
    ensures
        hp_a == hp_b,
        box_a == box_b,
        host_a == host_b,
{
    let d = vstd::utf8::encode_utf8(HS_DOMAIN@).len() as int;
    let a = hs_preimage(hp_a, box_a, host_a);
    let b = hs_preimage(hp_b, box_b, host_b);
    assert(a.subrange(d, d + 32) == hp_a);
    assert(b.subrange(d, d + 32) == hp_b);
    assert(a.subrange(d + 32, d + 64) == box_a);
    assert(b.subrange(d + 32, d + 64) == box_b);
    assert(a.subrange(d + 64, d + 96) == host_a);
    assert(b.subrange(d + 64, d + 96) == host_b);
}

// ── what is sent ──

/// The name of the payload's section.
pub const SECTION: &'static str = "fgtw_hs";

/// What a payload says: the fleet, the guest's device, its signatures, and its epoch proof.
pub type HsView = (Seq<u8>, Seq<u8>, Seq<(u8, Seq<u8>)>, Option<Seq<(u8, Seq<u8>)>>);

/// The fields that a payload is written as.
pub open spec fn hs_fields(hs: HsView) -> Seq<crate::document::FieldView> {
    let hp = ("hp"@, Some(FieldKind::HandleProof), hs.0);
    let dk = ("dk"@, Some(FieldKind::DeviceKey), hs.1);
    let eggs = ("eggs"@, Some(FieldKind::Signature), crate::eggs::list_bytes(hs.2));
    match hs.3 {
        Some(epoch) => seq![hp, dk, eggs, ("ee"@, Some(FieldKind::Signature), crate::eggs::list_bytes(epoch))],
        None => seq![hp, dk, eggs],
    }
}

/// The 32 bytes under a name with the tag of a handle proof or of a key.
pub open spec fn key_under(fields: Seq<crate::document::FieldView>, name: Seq<char>) -> Option<Seq<u8>> {
    match crate::document::field_value(fields, name) {
        Some((Some(kind), bytes)) => if (kind == FieldKind::HandleProof || kind == FieldKind::DeviceKey) && bytes.len() == 32 {
            Some(bytes)
        } else {
            None
        },
        _ => None,
    }
}

/// The sealed bytes under a name.
pub open spec fn sealed_under(fields: Seq<crate::document::FieldView>, name: Seq<char>) -> Option<Seq<u8>> {
    match crate::document::field_value(fields, name) {
        Some((Some(FieldKind::Signature), bytes)) => Some(bytes),
        _ => None,
    }
}

/// The handshake that the fields hold: both keys and a list of signatures must be there; an epoch
/// proof may be, and then it must be a list of signatures too.
pub open spec fn hs_in(fields: Seq<crate::document::FieldView>) -> Option<HsView> {
    match (key_under(fields, "hp"@), key_under(fields, "dk"@), sealed_under(fields, "eggs"@)) {
        (Some(hp), Some(dk), Some(bytes)) => match crate::eggs::list_in(bytes) {
            Some(eggs) => match sealed_under(fields, "ee"@) {
                Some(epoch_bytes) => match crate::eggs::list_in(epoch_bytes) {
                    Some(epoch) => Some((hp, dk, eggs, Some(epoch))),
                    None => None,
                },
                None => Some((hp, dk, eggs, None)),
            },
            None => None,
        },
        _ => None,
    }
}

/// The handshake that a payload holds.
pub open spec fn hs_of(payload: Seq<u8>) -> Option<HsView> {
    match crate::document::document_fields(payload) {
        Ok(fields) => hs_in(fields),
        Err(_) => None,
    }
}

proof fn lemma_names()
    ensures
        crate::document::is_name(SECTION@),
        crate::document::is_name("hp"@),
        crate::document::is_name("dk"@),
        crate::document::is_name("eggs"@),
        crate::document::is_name("ee"@),
        "hp"@ != "dk"@,
        "hp"@ != "eggs"@,
        "hp"@ != "ee"@,
        "dk"@ != "eggs"@,
        "dk"@ != "ee"@,
        "eggs"@ != "ee"@,
{
    reveal_strlit("fgtw_hs");
    reveal_strlit("hp");
    reveal_strlit("dk");
    reveal_strlit("eggs");
    reveal_strlit("ee");
    assert("hp"@[0] == 'h' && "dk"@[0] == 'd' && "eggs"@[0] == 'e' && "ee"@[0] == 'e');
    assert("eggs"@.len() == 4 && "ee"@.len() == 2);
    assert forall|i: int| 0 <= i < "eggs"@.len() implies 'a' <= #[trigger] "eggs"@[i] <= 'z' by {
        assert("eggs"@[1] == 'g' && "eggs"@[2] == 'g' && "eggs"@[3] == 's');
    }
    assert forall|i: int| 0 <= i < SECTION@.len() implies 'a' <= #[trigger] SECTION@[i] <= 'z' || (SECTION@[i] == '_' && 0
        < i < SECTION@.len() - 1 && SECTION@[i + 1] != '_') by {
        assert(SECTION@.len() == 7);
        assert(SECTION@[0] == 'f' && SECTION@[1] == 'g' && SECTION@[2] == 't' && SECTION@[3] == 'w' && SECTION@[4] == '_');
        assert(SECTION@[5] == 'h' && SECTION@[6] == 's');
    }
}

/// What is written of a handshake is read back as that handshake.
pub proof fn law_hs_fields_round_trip(hs: HsView)
    requires
        hs.0.len() == 32,
        hs.1.len() == 32,
        crate::eggs::is_list(hs.2),
        hs.3 matches Some(epoch) ==> crate::eggs::is_list(epoch),
    ensures
        hs_in(hs_fields(hs)) == Some(hs),
{
    lemma_names();
    crate::eggs::law_list_round_trip(hs.2);
    let fields = hs_fields(hs);
    reveal_with_fuel(crate::document::field_value, 5);
    assert(fields.skip(1)[0] == fields[1]);
    assert(fields.skip(1).skip(1) == fields.skip(2));
    assert(fields.skip(2)[0] == fields[2]);
    assert(fields.skip(2).skip(1) == fields.skip(3));
    match hs.3 {
        Some(epoch) => {
            crate::eggs::law_list_round_trip(epoch);
            assert(fields.skip(3)[0] == fields[3]);
        },
        None => {
            assert(fields.skip(3).len() == 0);
        },
    }
}

/// What an optional borrowed list says.
pub open spec fn opt_list(eggs: Option<&Vec<Egg>>) -> Option<Seq<(u8, Seq<u8>)>> {
    match eggs {
        Some(list) => Some(crate::eggs::eggs_view(list@)),
        None => None,
    }
}

/// What writing a handshake at `created` gives.
pub open spec fn encoded(hs: HsView, created: i64) -> Option<Seq<u8>> {
    match crate::document::written_document(SECTION@, hs_fields(hs), created) {
        Ok(bytes) => Some(bytes),
        Err(_) => None,
    }
}

/// Write a handshake payload as a document made at `created`. It reads back as what was written.
pub fn encode_hs_payload_at(
    handle_proof: &[u8; 32],
    device: &[u8; 32],
    eggs: &Vec<Egg>,
    epoch: Option<&Vec<Egg>>,
    created: i64,
) -> (r: Option<Vec<u8>>)
    ensures
        crate::cache::opt_bytes(r) == encoded(
            (handle_proof@, device@, crate::eggs::eggs_view(eggs@), opt_list(epoch)),
            created,
        ),
        r matches Some(payload) ==> (crate::document::document_fields(payload@) matches Ok(fields) && fields == hs_fields(
            (handle_proof@, device@, crate::eggs::eggs_view(eggs@), opt_list(epoch)),
        )),
{
    proof {
        lemma_names();
    }
    let ghost hs = (handle_proof@, device@, crate::eggs::eggs_view(eggs@), opt_list(epoch));
    let mut fields: Vec<Field> = Vec::new();
    let mut hp: Vec<u8> = Vec::new();
    hp.extend_from_slice(handle_proof);
    assert(hp@ == handle_proof@);
    let mut dk: Vec<u8> = Vec::new();
    dk.extend_from_slice(device);
    assert(dk@ == device@);
    fields.push(Field { name: "hp".to_owned(), kind: FieldKind::HandleProof, bytes: hp });
    fields.push(Field { name: "dk".to_owned(), kind: FieldKind::DeviceKey, bytes: dk });
    fields.push(Field { name: "eggs".to_owned(), kind: FieldKind::Signature, bytes: eggs_to_bytes(eggs.as_slice()) });
    if let Some(list) = epoch {
        fields.push(Field { name: "ee".to_owned(), kind: FieldKind::Signature, bytes: eggs_to_bytes(list.as_slice()) });
    }
    assert(crate::document::fields_view(fields@) == hs_fields(hs));
    match write_document(SECTION, fields, created) {
        Ok(bytes) => Some(bytes),
        Err(_) => None,
    }
}

/// Write a handshake payload as a document made now, at a time that can be written.
pub fn encode_hs_payload(
    handle_proof: &[u8; 32],
    device: &[u8; 32],
    eggs: &Vec<Egg>,
    epoch: Option<&Vec<Egg>>,
) -> (r: Option<Vec<u8>>)
    ensures
        exists|created: i64|
            crate::writing::tame_time(created) && crate::cache::opt_bytes(r) == #[trigger] encoded(
                (handle_proof@, device@, crate::eggs::eggs_view(eggs@), opt_list(epoch)),
                created,
            ),
        r matches Some(payload) ==> (crate::document::document_fields(payload@) matches Ok(fields) && fields == hs_fields(
            (handle_proof@, device@, crate::eggs::eggs_view(eggs@), opt_list(epoch)),
        )),
{
    let created: i64 = stamp();
    encode_hs_payload_at(handle_proof, device, eggs, epoch, created)
}

/// A handshake as a host reads it.
pub struct Handshake {
    pub handle_proof: [u8; 32],
    pub device: [u8; 32],
    pub eggs: Vec<Egg>,
    /// `None` where the guest sent none: it cannot prove the current epoch.
    pub epoch_eggs: Option<Vec<Egg>>,
}

impl View for Handshake {
    type V = HsView;

    open spec fn view(&self) -> HsView {
        (self.handle_proof@, self.device@, crate::eggs::eggs_view(self.eggs@), crate::eggs::opt_eggs(self.epoch_eggs))
    }
}

fn take32(fields: &Vec<ReadField>, name: &str) -> (r: Option<[u8; 32]>)
    ensures
        crate::chain::opt_key(r) == key_under(crate::document::read_view(fields@), name@),
{
    match find_field(fields, name) {
        Some(i) => {
            let tagged: bool = fields[i].kind == Some(FieldKind::HandleProof) || fields[i].kind == Some(FieldKind::DeviceKey);
            if tagged && fields[i].bytes.len() == 32 {
                let mut out: [u8; 32] = [0u8; 32];
                let mut k: usize = 0;
                while k < 32
                    invariant
                        k <= 32,
                        i < fields@.len(),
                        fields@[i as int].bytes@.len() == 32,
                        forall|j: int| 0 <= j < k ==> out@[j] == fields@[i as int].bytes@[j],
                    decreases 32 - k,
                {
                    out[k] = fields[i].bytes[k];
                    k = k + 1;
                }
                assert(out@ == fields@[i as int].bytes@);
                Some(out)
            } else {
                None
            }
        },
        None => None,
    }
}

/// Read a handshake payload. `None` for anything that is not a well-formed handshake.
pub fn parse_hs_payload(payload: &[u8]) -> (r: Option<Handshake>)
    ensures
        match r {
            Some(hs) => hs_of(payload@) == Some(hs@),
            None => hs_of(payload@) is None,
        },
{
    let fields = match read_document(payload) {
        Ok(fields) => fields,
        Err(_) => return None,
    };
    let (handle_proof, device) = match (take32(&fields, "hp"), take32(&fields, "dk")) {
        (Some(hp), Some(dk)) => (hp, dk),
        _ => return None,
    };
    let eggs = match find_field(&fields, "eggs") {
        Some(i) => {
            if fields[i].kind != Some(FieldKind::Signature) {
                return None;
            }
            match read_eggs(fields[i].bytes.as_slice()) {
                Some(eggs) => eggs,
                None => return None,
            }
        },
        None => return None,
    };
    let epoch_eggs = match find_field(&fields, "ee") {
        Some(i) => {
            if fields[i].kind == Some(FieldKind::Signature) {
                match read_eggs(fields[i].bytes.as_slice()) {
                    Some(list) => Some(list),
                    None => return None,
                }
            } else {
                None
            }
        },
        None => None,
    };
    Some(Handshake { handle_proof, device, eggs, epoch_eggs })
}

/// A payload that a guest wrote reads as what the guest wrote.
pub proof fn law_payload_round_trip(hs: HsView, payload: Seq<u8>)
    requires
        hs.0.len() == 32,
        hs.1.len() == 32,
        crate::eggs::is_list(hs.2),
        hs.3 matches Some(epoch) ==> crate::eggs::is_list(epoch),
        crate::document::document_fields(payload) matches Ok(fields) && fields == hs_fields(hs),
    ensures
        hs_of(payload) == Some(hs),
{
    law_hs_fields_round_trip(hs);
}

// ── the guest ──

/// The schemes to sign with: what the chain knows this device to have, or Ed25519 where no chain
/// is to be had.
pub open spec fn mask_to_use(chain: Option<&Chain>, device: Seq<u8>) -> Mask {
    match chain {
        Some(c) => crate::chain::mask_of(c.bytes@, device),
        None => MASK_BASE,
    }
}

/// The handshake that a guest sends: its signatures over the digest under every scheme that the
/// chain knows it to have, and an epoch proof where it holds the fleet key.
pub open spec fn guest_hs(
    handle_proof: Seq<u8>,
    key: DeviceKey,
    bundle: Option<fgtw::pq::SigningBundle>,
    chain: Option<&Chain>,
    fleet_key: Option<Seq<u8>>,
    client_box: Seq<u8>,
    host_sign: Seq<u8>,
) -> HsView {
    let msg = digest(handle_proof, client_box, host_sign);
    (
        handle_proof,
        key.public@,
        crate::eggs::device_list(bundle, key.seed@, msg, mask_to_use(chain, key.public@)),
        match fleet_key {
            Some(k) => Some(crate::eggs::bundle_eggs(crate::eggs::epoch_secrets(k), msg, EPOCH_TIER)),
            None => None,
        },
    )
}

/// Build the guest's payload. `None` without a session or a device key: a device that nobody is
/// logged in on cannot act as a guest. `fleet_key` is the current fleet key, where this device
/// could recover it; with it, the payload gets this device in at every host whose fleet's chain
/// speaks for it and whose current epoch is that of the key.
pub fn build_hs_payload(
    handle_proof: Option<[u8; 32]>,
    key: Option<DeviceKey>,
    bundle: Option<&fgtw::pq::SigningBundle>,
    chain: Option<&Chain>,
    fleet_key: Option<[u8; 32]>,
    client_box: &[u8; 32],
    host_sign: &[u8; 32],
) -> (r: Option<Vec<u8>>)
    ensures
        handle_proof is None || key is None ==> r is None,
        match (handle_proof, key) {
            (Some(hp), Some(k)) => {
                let hs = guest_hs(
                    hp@,
                    k,
                    crate::eggs::opt_signer(bundle),
                    chain,
                    crate::chain::opt_key(fleet_key),
                    client_box@,
                    host_sign@,
                );
                &&& exists|created: i64|
                    crate::writing::tame_time(created) && crate::cache::opt_bytes(r) == #[trigger] encoded(hs, created)
                &&& r matches Some(payload) ==> hs_of(payload@) == Some(hs)
                &&& r matches Some(payload) ==> (fleet_key matches Some(fk) ==> forall|host: Seq<u8>, there: Chain|
                    chain_admits(
                        there,
                        host,
                        k.public@,
                        crate::eggs::own_keys(crate::eggs::opt_signer(bundle), k.seed@, mask_to_use(chain, k.public@)),
                        hs.2,
                    ) ==> (#[trigger] verdict(
                        payload@,
                        client_box@,
                        host_sign@,
                        Some(host),
                        Some(there),
                        Some(crate::eggs::public_of(crate::eggs::epoch_secrets(fk@))),
                    ) matches Ok(device) && device == k.public@))
                &&& r matches Some(payload) ==> match (bundle, chain, fleet_key) {
                    (Some(b), Some(c), Some(fk)) => crate::folding::foldable(c.bytes@) && crate::chain::chain_genesis(
                        c.bytes@,
                    ) is Ok ==> forall|host: Seq<u8>, there: Chain|
                        declared_there(
                            there,
                            host,
                            k.public@,
                            crate::eggs::public_of(crate::eggs::secrets_of(*b)),
                            crate::chain::chain_mask(c.bytes@, k.public@),
                        ) ==> (#[trigger] verdict(
                            payload@,
                            client_box@,
                            host_sign@,
                            Some(host),
                            Some(there),
                            Some(crate::eggs::public_of(crate::eggs::epoch_secrets(fk@))),
                        ) == Ok::<Seq<u8>, FgtwVerdict>(k.public@)),
                    _ => true,
                }
            },
            _ => true,
        },
{
    let (hp, k) = match (handle_proof, key) {
        (Some(hp), Some(k)) => (hp, k),
        _ => return None,
    };
    let mask: Mask = match chain {
        Some(c) => c.declared_mask(&k.public),
        None => MASK_BASE,
    };
    let msg = hs_digest(&hp, client_box, host_sign);
    let eggs = device_eggs(bundle, &k, msg.as_slice(), mask);
    let ghost hs = guest_hs(
        hp@,
        k,
        crate::eggs::opt_signer(bundle),
        chain,
        crate::chain::opt_key(fleet_key),
        client_box@,
        host_sign@,
    );
    let r = match fleet_key {
        Some(fk) => {
            let epoch = epoch_eggs(&fk, msg.as_slice());
            assert(hs == (hp@, k.public@, crate::eggs::eggs_view(eggs@), opt_list(Some(&epoch))));
            encode_hs_payload(&hp, &k.public, &eggs, Some(&epoch))
        },
        None => {
            assert(hs == (hp@, k.public@, crate::eggs::eggs_view(eggs@), opt_list(None)));
            encode_hs_payload(&hp, &k.public, &eggs, None)
        },
    };
    proof {
        if r is Some {
            law_payload_round_trip(hs, r->0@);
            if fleet_key is Some {
                let keys = crate::eggs::own_keys(crate::eggs::opt_signer(bundle), k.seed@, mask);
                let epoch = crate::eggs::public_of(crate::eggs::epoch_secrets(fleet_key->0@));
                assert forall|host: Seq<u8>, there: Chain| chain_admits(there, host, k.public@, keys, hs.2) implies (
                #[trigger] verdict(r->0@, client_box@, host_sign@, Some(host), Some(there), Some(epoch)) matches Ok(device)
                    && device == k.public@) by {
                    law_member_is_let_in(r->0@, hs, client_box@, host_sign@, host, there, keys, epoch);
                }
                if bundle is Some && chain is Some && crate::folding::foldable(chain->0.bytes@) && crate::chain::chain_genesis(
                    chain->0.bytes@,
                ) is Ok {
                    let declared = crate::chain::chain_mask(chain->0.bytes@, k.public@);
                    let own = crate::eggs::public_of(crate::eggs::secrets_of(*bundle->0));
                    assert forall|host: Seq<u8>, there: Chain| declared_there(there, host, k.public@, own, declared) implies (
                    #[trigger] verdict(r->0@, client_box@, host_sign@, Some(host), Some(there), Some(epoch)) == Ok::<
                        Seq<u8>,
                        FgtwVerdict,
                    >(k.public@)) by {
                        law_declared_member_is_let_in(
                            r->0@,
                            hp@,
                            k,
                            *bundle->0,
                            chain->0,
                            fleet_key->0@,
                            client_box@,
                            host_sign@,
                            host,
                            there,
                            there.fold->Ok_0,
                            epoch,
                        );
                    }
                }
            }
        }
    }
    r
}

// ── the host ──

/// The keys that a guest's signatures are held to: those that the chain records, or its Ed25519
/// key alone where it records none.
pub open spec fn guest_keys(chain: Chain, device: Seq<u8>) -> Seq<u8> {
    match crate::chain::bundle_of(chain.bytes@, device) {
        Some(bundle) => bundle,
        None => crate::eggs::plain_bundle(device),
    }
}

/// What is wrong with the guest's identity, if anything: the host is not in the fleet that the
/// guest named, or the guest is not, or its signatures do not hold at the fleet's floor.
pub open spec fn identity_fault(chain: Option<Chain>, me: Seq<u8>, hs: HsView, msg: Seq<u8>) -> Option<FgtwVerdict> {
    match chain {
        None => Some(FgtwVerdict::StaleCache),
        Some(c) => match c.fold {
            Err(_) => Some(FgtwVerdict::StaleCache),
            Ok(fold) => if !crate::chain::has_key(fold.members@, me) {
                Some(FgtwVerdict::ForeignFleet)
            } else if !crate::chain::has_key(fold.members@, hs.1) {
                Some(FgtwVerdict::NotMember)
            } else if !crate::eggs::eggs_hold(hs.2, guest_keys(c, hs.1), msg, fold.floor) {
                Some(FgtwVerdict::BadSignature)
            } else {
                None
            },
        },
    }
}

/// Check the guest's identity against the chain of the fleet that it named.
pub fn check_identity(me: &[u8; 32], hs: &Handshake, chain: Option<&Chain>, msg: &[u8; 32]) -> (r: Result<(), FgtwVerdict>)
    ensures
        match r {
            Ok(()) => identity_fault(opt_chain(chain), me@, hs@, msg@) is None,
            Err(v) => identity_fault(opt_chain(chain), me@, hs@, msg@) == Some(v),
        },
{
    let c = match chain {
        Some(c) => c,
        None => return Err(FgtwVerdict::StaleCache),
    };
    let fold = match &c.fold {
        Ok(fold) => fold,
        Err(_) => return Err(FgtwVerdict::StaleCache),
    };
    if !contains_key(&fold.members, me) {
        return Err(FgtwVerdict::ForeignFleet);
    }
    if !contains_key(&fold.members, &hs.device) {
        return Err(FgtwVerdict::NotMember);
    }
    let bundle = match c.declared_bundle(&hs.device) {
        Some(bundle) => bundle,
        None => ed25519_only(&hs.device),
    };
    if !verify_eggs(hs.eggs.as_slice(), &bundle, msg.as_slice(), fold.floor) {
        return Err(FgtwVerdict::BadSignature);
    }
    Ok(())
}

/// The chain that a reference points to.
pub open spec fn opt_chain(chain: Option<&Chain>) -> Option<Chain> {
    match chain {
        Some(c) => Some(*c),
        None => None,
    }
}

/// The keys that a reference points to.
pub open spec fn opt_bundle(bundle: Option<&KeyBundle>) -> Option<Seq<u8>> {
    match bundle {
        Some(b) => Some(b.bytes@),
        None => None,
    }
}

/// What is wrong with the guest's epoch proof, if anything. `epoch` is the public key set of the
/// current epoch, where it could be established.
pub open spec fn epoch_fault(epoch: Option<Seq<u8>>, hs: HsView, msg: Seq<u8>) -> Option<FgtwVerdict> {
    match (hs.3, epoch) {
        (None, _) => Some(FgtwVerdict::LockedOut),
        (_, None) => Some(FgtwVerdict::StaleCache),
        (Some(proof_eggs), Some(keys)) => if crate::eggs::eggs_hold(proof_eggs, keys, msg, EPOCH_TIER) {
            None
        } else {
            Some(FgtwVerdict::LockedOut)
        },
    }
}

/// Check the guest's epoch proof.
pub fn check_epoch(hs: &Handshake, epoch: Option<&KeyBundle>, msg: &[u8; 32]) -> (r: Result<(), FgtwVerdict>)
    ensures
        match r {
            Ok(()) => epoch_fault(opt_bundle(epoch), hs@, msg@) is None,
            Err(v) => epoch_fault(opt_bundle(epoch), hs@, msg@) == Some(v),
        },
{
    let list = match &hs.epoch_eggs {
        Some(list) => list,
        None => return Err(FgtwVerdict::LockedOut),
    };
    let keys = match epoch {
        Some(keys) => keys,
        None => return Err(FgtwVerdict::StaleCache),
    };
    if verify_eggs(list.as_slice(), keys, msg.as_slice(), EPOCH_TIER) {
        Ok(())
    } else {
        Err(FgtwVerdict::LockedOut)
    }
}

/// The host's decision about a payload: the guest's device key, or the reason of the refusal. The
/// payload is read, the guest's identity is checked, and its epoch proof is, in this order.
pub open spec fn verdict(
    payload: Seq<u8>,
    client_box: Seq<u8>,
    host_sign: Seq<u8>,
    me: Option<Seq<u8>>,
    chain: Option<Chain>,
    epoch: Option<Seq<u8>>,
) -> Result<Seq<u8>, FgtwVerdict> {
    match (me, hs_of(payload)) {
        (None, _) => Err(FgtwVerdict::NotEnrolled),
        (_, None) => Err(FgtwVerdict::BadPayload),
        (Some(host), Some(hs)) => {
            let msg = digest(hs.0, client_box, host_sign);
            match identity_fault(chain, host, hs, msg) {
                Some(v) => Err(v),
                None => match epoch_fault(epoch, hs, msg) {
                    Some(v) => Err(v),
                    None => Ok(hs.1),
                },
            }
        },
    }
}

/// Decide about an incoming payload, holding nothing but this host's own device key. `chain` is
/// the chain of the fleet that the guest named and `epoch` that fleet's current epoch keys, each
/// where it could be established.
pub fn verify_hs_payload(
    payload: &[u8],
    client_box: &[u8; 32],
    host_sign: &[u8; 32],
    me: Option<[u8; 32]>,
    chain: Option<&Chain>,
    epoch: Option<&KeyBundle>,
) -> (r: Result<[u8; 32], FgtwVerdict>)
    ensures
        match r {
            Ok(device) => verdict(
                payload@,
                client_box@,
                host_sign@,
                crate::chain::opt_key(me),
                opt_chain(chain),
                opt_bundle(epoch),
            ) matches Ok(d) && d == device@,
            Err(v) => verdict(
                payload@,
                client_box@,
                host_sign@,
                crate::chain::opt_key(me),
                opt_chain(chain),
                opt_bundle(epoch),
            ) matches Err(w) && w == v,
        },
{
    let opened = match Opened::open(payload, client_box, host_sign, me) {
        Ok(opened) => opened,
        Err(v) => return Err(v),
    };
    let identified = match opened.identify(chain) {
        Ok(identified) => identified,
        Err(v) => return Err(v),
    };
    identified.decide(epoch)
}

/// A payload that a host has read: the guest's handshake, the host's own key, and the digest that
/// the signatures must be over. The guest's identity is checked next.
pub struct Opened {
    hs: Handshake,
    host: [u8; 32],
    msg: [u8; 32],
}

impl View for Opened {
    type V = (HsView, Seq<u8>, Seq<u8>);

    closed spec fn view(&self) -> (HsView, Seq<u8>, Seq<u8>) {
        (self.hs@, self.host@, self.msg@)
    }
}

/// A payload from a guest whose identity holds: its handshake, the digest, and the members of the
/// fleet. Its epoch proof is checked next.
pub struct Identified<'a> {
    hs: Handshake,
    msg: [u8; 32],
    members: &'a Vec<[u8; 32]>,
}

impl<'a> View for Identified<'a> {
    type V = (HsView, Seq<u8>, Seq<Seq<u8>>);

    closed spec fn view(&self) -> (HsView, Seq<u8>, Seq<Seq<u8>>) {
        (self.hs@, self.msg@, crate::chain::keys_view(self.members@))
    }
}

impl Opened {
    /// Read an incoming payload, for a host whose device key is `me`.
    pub fn open(payload: &[u8], client_box: &[u8; 32], host_sign: &[u8; 32], me: Option<[u8; 32]>) -> (r: Result<
        Opened,
        FgtwVerdict,
    >)
        ensures
            match r {
                Ok(opened) => {
                    &&& crate::chain::opt_key(me) == Some(opened@.1)
                    &&& hs_of(payload@) == Some(opened@.0)
                    &&& opened@.2 == digest(opened@.0.0, client_box@, host_sign@)
                },
                Err(v) => {
                    &&& v == (if me is None { FgtwVerdict::NotEnrolled } else { FgtwVerdict::BadPayload })
                    &&& me is None || hs_of(payload@) is None
                },
            },
    {
        let host = match me {
            Some(host) => host,
            None => return Err(FgtwVerdict::NotEnrolled),
        };
        let hs = match parse_hs_payload(payload) {
            Some(hs) => hs,
            None => return Err(FgtwVerdict::BadPayload),
        };
        let msg = hs_digest(&hs.handle_proof, client_box, host_sign);
        Ok(Opened { hs, host, msg })
    }

    /// The fleet that the guest names, whose chain is asked for.
    pub fn fleet(&self) -> (r: [u8; 32])
        ensures
            r@ == self@.0.0,
    {
        self.hs.handle_proof
    }

    /// Check the guest's identity against the chain of the fleet that it names, where it is to be
    /// had.
    pub fn identify<'a>(self, chain: Option<&'a Chain>) -> (r: Result<Identified<'a>, FgtwVerdict>)
        ensures
            match r {
                Ok(identified) => {
                    &&& identity_fault(opt_chain(chain), self@.1, self@.0, self@.2) is None
                    &&& identified@.0 == self@.0
                    &&& identified@.1 == self@.2
                    &&& chain matches Some(c) && (c.fold matches Ok(fold) && identified@.2 == crate::chain::keys_view(
                        fold.members@,
                    ))
                },
                Err(v) => identity_fault(opt_chain(chain), self@.1, self@.0, self@.2) == Some(v),
            },
    {
        if let Err(v) = check_identity(&self.host, &self.hs, chain, &self.msg) {
            return Err(v);
        }
        match chain {
            Some(c) => match &c.fold {
                Ok(fold) => Ok(Identified { hs: self.hs, msg: self.msg, members: &fold.members }),
                Err(_) => Err(FgtwVerdict::StaleCache),
            },
            None => Err(FgtwVerdict::StaleCache),
        }
    }
}

impl<'a> Identified<'a> {
    /// The members to hold the epoch's document to. `None` where the guest proves no epoch: then
    /// there is no need to ask for the document.
    pub fn members_to_ask(&self) -> (r: Option<&'a Vec<[u8; 32]>>)
        ensures
            match r {
                Some(members) => self@.0.3 is Some && crate::chain::keys_view(members@) == self@.2,
                None => self@.0.3 is None,
            },
    {
        match &self.hs.epoch_eggs {
            Some(_) => Some(self.members),
            None => None,
        }
    }

    /// Check the guest's epoch proof against the keys of the current epoch, where they are to be
    /// had, and decide: the guest's device key, or the reason of the refusal.
    pub fn decide(self, epoch: Option<&KeyBundle>) -> (r: Result<[u8; 32], FgtwVerdict>)
        ensures
            match r {
                Ok(device) => epoch_fault(opt_bundle(epoch), self@.0, self@.1) is None && device@ == self@.0.1,
                Err(v) => epoch_fault(opt_bundle(epoch), self@.0, self@.1) == Some(v),
            },
    {
        match check_epoch(&self.hs, epoch, &self.msg) {
            Ok(()) => Ok(self.hs.device),
            Err(v) => Err(v),
        }
    }
}

/// A guest is accepted exactly when everything holds at once: host and guest are current members
/// of the fleet that the guest named, the guest's signatures hold at that fleet's floor, and its
/// epoch proof holds against the current epoch's keys. The key that is answered is the guest's.
pub proof fn law_accepted_exactly_when(
    payload: Seq<u8>,
    client_box: Seq<u8>,
    host_sign: Seq<u8>,
    me: Option<Seq<u8>>,
    chain: Option<Chain>,
    epoch: Option<Seq<u8>>,
)
    ensures
        verdict(payload, client_box, host_sign, me, chain, epoch) is Ok <==> {
            &&& me matches Some(host)
            &&& hs_of(payload) matches Some(hs)
            &&& chain matches Some(c)
            &&& c.fold matches Ok(fold)
            &&& crate::chain::has_key(fold.members@, host)
            &&& crate::chain::has_key(fold.members@, hs.1)
            &&& crate::eggs::eggs_hold(hs.2, guest_keys(c, hs.1), digest(hs.0, client_box, host_sign), fold.floor)
            &&& hs.3 matches Some(proof_eggs)
            &&& epoch matches Some(keys)
            &&& crate::eggs::eggs_hold(proof_eggs, keys, digest(hs.0, client_box, host_sign), EPOCH_TIER)
        },
        verdict(payload, client_box, host_sign, me, chain, epoch) matches Ok(device) ==> (hs_of(payload)->0).1 == device,
{
}

/// A host accepts nobody on behalf of a fleet that it is not in.
pub proof fn law_foreign_fleet_is_refused(
    payload: Seq<u8>,
    client_box: Seq<u8>,
    host_sign: Seq<u8>,
    host: Seq<u8>,
    chain: Chain,
    epoch: Option<Seq<u8>>,
)
    requires
        chain.fold matches Ok(fold) && !crate::chain::has_key(fold.members@, host),
        hs_of(payload) is Some,
    ensures
        verdict(payload, client_box, host_sign, Some(host), Some(chain), epoch) matches Err(v) && v == FgtwVerdict::ForeignFleet,
{
}

/// Membership is not enough: a member whose identity is proved but who proves no epoch, or proves
/// it with other keys, is locked out.
pub proof fn law_no_epoch_no_entry(
    payload: Seq<u8>,
    client_box: Seq<u8>,
    host_sign: Seq<u8>,
    host: Seq<u8>,
    chain: Chain,
    keys: Seq<u8>,
)
    requires
        hs_of(payload) matches Some(hs) && identity_fault(Some(chain), host, hs, digest(hs.0, client_box, host_sign)) is None
            && (hs.3 matches Some(proof_eggs) ==> !crate::eggs::eggs_hold(
            proof_eggs,
            keys,
            digest(hs.0, client_box, host_sign),
            EPOCH_TIER,
        )),
    ensures
        verdict(payload, client_box, host_sign, Some(host), Some(chain), Some(keys)) matches Err(v) && v
            == FgtwVerdict::LockedOut,
{
}

/// The chain speaks for a guest at `host`: both are current members, `keys` are the ones that the
/// guest's signatures are held to, and `eggs` covers the fleet's floor.
pub open spec fn chain_admits(chain: Chain, host: Seq<u8>, device: Seq<u8>, keys: Seq<u8>, eggs: Seq<(u8, Seq<u8>)>) -> bool {
    &&& chain.fold matches Ok(fold)
    &&& crate::chain::has_key(fold.members@, host)
    &&& crate::chain::has_key(fold.members@, device)
    &&& guest_keys(chain, device) == keys
    &&& crate::eggs::covers(eggs, fold.floor)
}

/// The chain lists host and guest, records `keys` for the guest, and asks for no scheme besides Ed25519
/// that is not declared.
pub open spec fn declared_there(chain: Chain, host: Seq<u8>, device: Seq<u8>, keys: Seq<u8>, declared: Mask) -> bool {
    &&& crate::folding::foldable(chain.bytes@)
    &&& crate::chain::chain_bundle(chain.bytes@, device) == Some(keys)
    &&& chain.fold matches Ok(fold)
    &&& exists|i: int| 0 <= i < fold.members@.len() && (#[trigger] fold.members@[i])@ == host
    &&& exists|i: int| 0 <= i < fold.members@.len() && (#[trigger] fold.members@[i])@ == device
    &&& fold.floor & 0xFFF8 == 0
    &&& fold.floor & 2 != 0 ==> declared & 2 != 0
    &&& fold.floor & 4 != 0 ==> declared & 4 != 0
}

/// A current member is let in, as itself: its signatures hold against the keys that the chain
/// records for it and cover the fleet's floor, and its epoch proof holds.
pub proof fn law_member_is_let_in(
    payload: Seq<u8>,
    hs: HsView,
    client_box: Seq<u8>,
    host_sign: Seq<u8>,
    host: Seq<u8>,
    chain: Chain,
    keys: Seq<u8>,
    epoch: Seq<u8>,
)
    requires
        hs_of(payload) == Some(hs),
        chain_admits(chain, host, hs.1, keys, hs.2),
        hs.2.len() > 0,
        crate::eggs::all_accepted(hs.2, keys, digest(hs.0, client_box, host_sign)),
        hs.3 matches Some(proof_eggs) && crate::eggs::eggs_hold(
            proof_eggs,
            epoch,
            digest(hs.0, client_box, host_sign),
            EPOCH_TIER,
        ),
    ensures
        verdict(payload, client_box, host_sign, Some(host), Some(chain), Some(epoch)) matches Ok(device) && device == hs.1,
{
}

// ── the guest's view of the host ──

/// The first member under whose key the host's signed id decodes. `decoded` says for each member,
/// in order, what decoding under its key gave: the host's id and box key.
pub fn verify_host_signed_id(
    members: Option<&Vec<[u8; 32]>>,
    decoded: &Vec<Option<(String, [u8; 32])>>,
) -> (r: Option<(String, [u8; 32], [u8; 32])>)
    requires
        members matches Some(m) ==> m@.len() == decoded@.len(),
    ensures
        match members {
            None => r is None,
            Some(m) => match r {
                Some((id, box_key, device)) => exists|i: int|
                    {
                        &&& 0 <= i < m@.len()
                        &&& (#[trigger] decoded@[i]) matches Some((found_id, found_box))
                        &&& id@ == found_id@
                        &&& box_key == found_box
                        &&& device == m@[i]
                        &&& forall|j: int| 0 <= j < i ==> (#[trigger] decoded@[j]) is None
                    },
                None => forall|i: int| 0 <= i < m@.len() ==> (#[trigger] decoded@[i]) is None,
            },
        },
{
    let m = match members {
        Some(m) => m,
        None => return None,
    };
    let mut i: usize = 0;
    while i < m.len()
        invariant
            i <= m@.len(),
            members == Some(m),
            m@.len() == decoded@.len(),
            forall|j: int| 0 <= j < i ==> (#[trigger] decoded@[j]) is None,
        decreases m@.len() - i,
    {
        if let Some((id, box_key)) = &decoded[i] {
            let found = (id.clone(), *box_key, m[i]);
            assert(decoded@[i as int] matches Some((found_id, found_box)) && found.0@ == found_id@ && found.1 == found_box);
            return Some(found);
        }
        i = i + 1;
    }
    None
}

// ── the handshake in full ──

/// The guest signs with every scheme that the chain knows it to hold. With its bundle at hand and a
/// chain that can be folded, the signatures are under Ed25519 and under those of the other two schemes
/// that the chain declares for it, and under nothing else; without a chain, or without the bundle, under
/// Ed25519 alone. All are over the digest of the fleet, the box key and the host's key.
pub proof fn law_guest_signs_what_the_chain_declares(
    handle_proof: Seq<u8>,
    key: DeviceKey,
    bundle: fgtw::pq::SigningBundle,
    chain: &Chain,
    fleet_key: Option<Seq<u8>>,
    client_box: Seq<u8>,
    host_sign: Seq<u8>,
    s: u8,
)
    requires
        crate::folding::foldable(chain.bytes@),
        crate::chain::chain_genesis(chain.bytes@) is Ok,
    ensures
        ({
            let eggs = guest_hs(handle_proof, key, Some(bundle), Some(chain), fleet_key, client_box, host_sign).2;
            let msg = crate::keys::blake3_hash(
                vstd::utf8::encode_utf8("fgtw-rustdesk-hs-v1"@) + handle_proof + client_box + host_sign,
            );
            let declared = crate::chain::chain_mask(chain.bytes@, key.public@);
            &&& crate::eggs::signs_with(eggs, s) <==> s == crate::eggs::ED25519 || ((s == 1 || s == 2)
                && crate::eggs::asks_for(declared, s))
            &&& (exists|i: int| 0 <= i < eggs.len() && (#[trigger] eggs[i]).0 == s) <==> s == 0 || (s == 1 && declared & 2
                != 0) || (s == 2 && declared & 4 != 0)
            &&& eggs[0] == (0u8, crate::eggs::ed25519_signature(crate::eggs::secrets_of(bundle)[0], msg))
            &&& forall|i: int|
                1 <= i < eggs.len() ==> (#[trigger] eggs[i]).1 == crate::eggs::bundle_signature(
                    crate::eggs::secrets_of(bundle),
                    msg,
                    eggs[i].0,
                )
        }),
        guest_hs(handle_proof, key, Some(bundle), None, fleet_key, client_box, host_sign).2.len() == 1,
        guest_hs(handle_proof, key, None, Some(chain), fleet_key, client_box, host_sign).2.len() == 1,
{
    let declared = crate::chain::chain_mask(chain.bytes@, key.public@);
    let msg = digest(handle_proof, client_box, host_sign);
    crate::eggs::law_schemes_that_sign(Some(bundle), key.seed@, msg, declared, s);
    assert(declared & (1u16 << 1) == declared & 2) by (bit_vector);
    assert(declared & (1u16 << 2) == declared & 4) by (bit_vector);
    assert(1u16 & 2 == 0 && 1u16 & 4 == 0) by (bit_vector);
}

/// The guest names its fleet and itself, and proves the epoch where it holds the fleet key and only
/// there: with Ed25519 and Falcon-512 under the epoch's secrets.
pub proof fn law_guest_proves_the_epoch(
    handle_proof: Seq<u8>,
    key: DeviceKey,
    bundle: Option<fgtw::pq::SigningBundle>,
    chain: Option<&Chain>,
    fleet_key: Seq<u8>,
    client_box: Seq<u8>,
    host_sign: Seq<u8>,
)
    ensures
        ({
            let hs = guest_hs(handle_proof, key, bundle, chain, Some(fleet_key), client_box, host_sign);
            let msg = crate::keys::blake3_hash(
                vstd::utf8::encode_utf8("fgtw-rustdesk-hs-v1"@) + handle_proof + client_box + host_sign,
            );
            &&& hs.0 == handle_proof
            &&& hs.1 == key.public@
            &&& hs.3 == Some(
                seq![
                    (0u8, crate::eggs::ed25519_signature(crate::eggs::epoch_secrets(fleet_key)[0], msg)),
                    (1u8, crate::eggs::bundle_signature(crate::eggs::epoch_secrets(fleet_key), msg, 1)),
                ],
            )
        }),
        guest_hs(handle_proof, key, bundle, chain, None, client_box, host_sign).3 is None,
{
    crate::eggs::law_epoch_is_proved_twice(fleet_key, digest(handle_proof, client_box, host_sign));
}

/// A guest that signs with what the chain declares is let in as itself by every host of the fleet: the
/// host's chain lists both, records the guest's own public keys, and asks for no scheme that the guest's
/// chain does not declare.
pub proof fn law_declared_member_is_let_in(
    payload: Seq<u8>,
    handle_proof: Seq<u8>,
    key: DeviceKey,
    bundle: fgtw::pq::SigningBundle,
    chain: &Chain,
    fleet_key: Seq<u8>,
    client_box: Seq<u8>,
    host_sign: Seq<u8>,
    host: Seq<u8>,
    there: Chain,
    fold: crate::chain::Fold,
    epoch: Seq<u8>,
)
    requires
        crate::folding::foldable(chain.bytes@),
        crate::chain::chain_genesis(chain.bytes@) is Ok,
        hs_of(payload) == Some(
            guest_hs(handle_proof, key, Some(bundle), Some(chain), Some(fleet_key), client_box, host_sign),
        ),
        there.fold == Ok::<crate::chain::Fold, String>(fold),
        exists|i: int| 0 <= i < fold.members@.len() && (#[trigger] fold.members@[i])@ == host,
        exists|i: int| 0 <= i < fold.members@.len() && (#[trigger] fold.members@[i])@ == key.public@,
        crate::folding::foldable(there.bytes@),
        crate::chain::chain_bundle(there.bytes@, key.public@) == Some(
            crate::eggs::public_of(crate::eggs::secrets_of(bundle)),
        ),
        fold.floor & 0xFFF8 == 0,
        fold.floor & 2 != 0 ==> crate::chain::chain_mask(chain.bytes@, key.public@) & 2 != 0,
        fold.floor & 4 != 0 ==> crate::chain::chain_mask(chain.bytes@, key.public@) & 4 != 0,
        ({
            let hs = guest_hs(handle_proof, key, Some(bundle), Some(chain), Some(fleet_key), client_box, host_sign);
            let msg = digest(handle_proof, client_box, host_sign);
            &&& forall|i: int|
                0 <= i < hs.2.len() ==> crate::eggs::egg_accepted(
                    crate::eggs::public_of(crate::eggs::secrets_of(bundle)),
                    (#[trigger] hs.2[i]).0,
                    msg,
                    hs.2[i].1,
                )
            &&& forall|i: int|
                0 <= i < hs.3->0.len() ==> crate::eggs::egg_accepted(epoch, (#[trigger] hs.3->0[i]).0, msg, hs.3->0[i].1)
        }),
    ensures
        verdict(payload, client_box, host_sign, Some(host), Some(there), Some(epoch)) == Ok::<Seq<u8>, FgtwVerdict>(key.public@),
{
    let hs = guest_hs(handle_proof, key, Some(bundle), Some(chain), Some(fleet_key), client_box, host_sign);
    let floor = fold.floor;
    assert forall|s: u8| #[trigger] crate::eggs::asks_for(floor, s) implies crate::eggs::signs_with(hs.2, s) by {
        law_guest_signs_what_the_chain_declares(handle_proof, key, bundle, chain, Some(fleet_key), client_box, host_sign, s);
        lemma_low_bits(floor, s);
    }
    law_guest_proves_the_epoch(handle_proof, key, Some(bundle), Some(chain), fleet_key, client_box, host_sign);
    let proved = hs.3->0;
    assert forall|s: u8| #[trigger] crate::eggs::asks_for(EPOCH_TIER, s) implies crate::eggs::signs_with(proved, s) by {
        assert(3u16 & 0xFFF8 == 0 && 3u16 & 4 == 0) by (bit_vector);
        lemma_low_bits(3, s);
        assert(proved[0].0 == 0 && proved[1].0 == 1);
    }
}

/// A scheme that a set of the three lowest bits asks for is one of three.
proof fn lemma_low_bits(mask: Mask, s: u8)
    requires
        s < 16,
        mask & (1u16 << s) != 0,
        mask & 0xFFF8 == 0,
    ensures
        s == 0 || (s == 1 && mask & 2 != 0) || (s == 2 && mask & 4 != 0),
{
    assert(s == 0 || (s == 1 && mask & 2 != 0) || (s == 2 && mask & 4 != 0)) by (bit_vector)
        requires
            s < 16,
            mask & (1u16 << s) != 0,
            mask & 0xFFF8 == 0,
    ;
}

/// Why a host refuses, in the order in which it looks: without a key of its own; a payload that is no
/// handshake; no chain, or one that does not fold; a fleet that it is not in itself; a guest that is not
/// in it.
pub proof fn law_refusals_before_the_signatures(
    payload: Seq<u8>,
    client_box: Seq<u8>,
    host_sign: Seq<u8>,
    host: Seq<u8>,
    chain: Chain,
    epoch: Option<Seq<u8>>,
    missing: Option<Chain>,
)
    ensures
        verdict(payload, client_box, host_sign, None, missing, epoch) == Err::<Seq<u8>, FgtwVerdict>(FgtwVerdict::NotEnrolled),
        hs_of(payload) is None ==> verdict(payload, client_box, host_sign, Some(host), missing, epoch) == Err::<
            Seq<u8>,
            FgtwVerdict,
        >(FgtwVerdict::BadPayload),
        hs_of(payload) is Some ==> verdict(payload, client_box, host_sign, Some(host), None, epoch) == Err::<
            Seq<u8>,
            FgtwVerdict,
        >(FgtwVerdict::StaleCache),
        hs_of(payload) is Some && chain.fold is Err ==> verdict(
            payload,
            client_box,
            host_sign,
            Some(host),
            Some(chain),
            epoch,
        ) == Err::<Seq<u8>, FgtwVerdict>(FgtwVerdict::StaleCache),
        match (hs_of(payload), chain.fold) {
            (Some(hs), Ok(fold)) => {
                let v = verdict(payload, client_box, host_sign, Some(host), Some(chain), epoch);
                if forall|i: int| 0 <= i < fold.members@.len() ==> (#[trigger] fold.members@[i])@ != host {
                    v == Err::<Seq<u8>, FgtwVerdict>(FgtwVerdict::ForeignFleet)
                } else if forall|i: int| 0 <= i < fold.members@.len() ==> (#[trigger] fold.members@[i])@ != hs.1 {
                    v == Err::<Seq<u8>, FgtwVerdict>(FgtwVerdict::NotMember)
                } else {
                    v is Ok || v == Err::<Seq<u8>, FgtwVerdict>(FgtwVerdict::BadSignature) || v == Err::<
                        Seq<u8>,
                        FgtwVerdict,
                    >(FgtwVerdict::LockedOut) || v == Err::<Seq<u8>, FgtwVerdict>(FgtwVerdict::StaleCache)
                }
            },
            _ => true,
        },
{
}

/// What becomes of a guest that is a member like the host. Its signatures are over the digest of the
/// fleet, the box key and the host's key, and are held to the keys that the chain records for it, or to
/// its own Ed25519 key where the chain records none, with the schemes of the fleet's floor. Where they
/// hold, it takes an epoch proof, the epoch's keys, and that the proof holds against them with Ed25519
/// and Falcon-512.
pub proof fn law_members_are_held_to_their_keys(
    payload: Seq<u8>,
    client_box: Seq<u8>,
    host_sign: Seq<u8>,
    host: Seq<u8>,
    chain: Chain,
    fold: crate::chain::Fold,
    hs: HsView,
    epoch: Option<Seq<u8>>,
)
    requires
        hs_of(payload) == Some(hs),
        chain.fold == Ok::<crate::chain::Fold, String>(fold),
        crate::folding::foldable(chain.bytes@),
        exists|i: int| 0 <= i < fold.members@.len() && (#[trigger] fold.members@[i])@ == host,
        exists|i: int| 0 <= i < fold.members@.len() && (#[trigger] fold.members@[i])@ == hs.1,
    ensures
        ({
            let v = verdict(payload, client_box, host_sign, Some(host), Some(chain), epoch);
            let msg = crate::keys::blake3_hash(
                vstd::utf8::encode_utf8("fgtw-rustdesk-hs-v1"@) + hs.0 + client_box + host_sign,
            );
            let keys = match crate::chain::chain_bundle(chain.bytes@, hs.1) {
                Some(recorded) => recorded,
                None => seq![1u8, 0u8, 32u8, 0u8] + hs.1,
            };
            if !crate::eggs::eggs_hold(hs.2, keys, msg, fold.floor) {
                v == Err::<Seq<u8>, FgtwVerdict>(FgtwVerdict::BadSignature)
            } else {
                match (hs.3, epoch) {
                    (None, _) => v == Err::<Seq<u8>, FgtwVerdict>(FgtwVerdict::LockedOut),
                    (Some(_), None) => v == Err::<Seq<u8>, FgtwVerdict>(FgtwVerdict::StaleCache),
                    (Some(proved), Some(current)) => if crate::eggs::eggs_hold(proved, current, msg, 3) {
                        v == Ok::<Seq<u8>, FgtwVerdict>(hs.1)
                    } else {
                        v == Err::<Seq<u8>, FgtwVerdict>(FgtwVerdict::LockedOut)
                    },
                }
            }
        }),
{
}

/// A payload is a document with the fields `hp`, `dk` and `eggs`, and `ee` where there is an epoch
/// proof: a handle proof, a device key, and signatures.
pub proof fn law_payload_fields(hs: HsView)
    ensures
        ({
            let fields = hs_fields(hs);
            &&& fields[0] == ("hp"@, Some(FieldKind::HandleProof), hs.0)
            &&& fields[1] == ("dk"@, Some(FieldKind::DeviceKey), hs.1)
            &&& fields[2] == ("eggs"@, Some(FieldKind::Signature), crate::eggs::list_bytes(hs.2))
            &&& match hs.3 {
                Some(epoch) => fields.len() == 4 && fields[3] == (
                    "ee"@,
                    Some(FieldKind::Signature),
                    crate::eggs::list_bytes(epoch),
                ),
                None => fields.len() == 3,
            }
        }),
        crate::handshake::SECTION@ == "fgtw_hs"@,
{
}

/// Fields are a handshake exactly when the first `hp` and the first `dk` are 32 bytes with the tag of a
/// handle proof or of a key, the first `eggs` is a list of signatures, and the first `ee`, if it has the
/// tag of a signature, is one too. A field of another tag under `ee` is no epoch proof.
pub proof fn law_what_is_a_handshake(fields: Seq<crate::document::FieldView>, hp: int, dk: int, eggs: int, ee: int)
    requires
        0 <= hp < fields.len() && fields[hp].0 == "hp"@ && forall|j: int| 0 <= j < hp ==> (#[trigger] fields[j]).0 != "hp"@,
        0 <= dk < fields.len() && fields[dk].0 == "dk"@ && forall|j: int| 0 <= j < dk ==> (#[trigger] fields[j]).0 != "dk"@,
        0 <= eggs < fields.len() && fields[eggs].0 == "eggs"@ && forall|j: int|
            0 <= j < eggs ==> (#[trigger] fields[j]).0 != "eggs"@,
        0 <= ee <= fields.len() && (ee < fields.len() ==> fields[ee].0 == "ee"@) && forall|j: int|
            0 <= j < ee ==> (#[trigger] fields[j]).0 != "ee"@,
    ensures
        ({
            let is_key = |f: crate::document::FieldView|
                (f.1 == Some(FieldKind::HandleProof) || f.1 == Some(FieldKind::DeviceKey)) && f.2.len() == 32;
            let proof_tagged = ee < fields.len() && fields[ee].1 == Some(FieldKind::Signature);
            match hs_in(fields) {
                Some(hs) => {
                    &&& is_key(fields[hp]) && hs.0 == fields[hp].2
                    &&& is_key(fields[dk]) && hs.1 == fields[dk].2
                    &&& fields[eggs].1 == Some(FieldKind::Signature)
                    &&& crate::eggs::is_list(hs.2) && crate::eggs::list_bytes(hs.2) == fields[eggs].2
                    &&& match hs.3 {
                        Some(epoch) => proof_tagged && crate::eggs::is_list(epoch) && crate::eggs::list_bytes(epoch)
                            == fields[ee].2,
                        None => !proof_tagged,
                    }
                },
                None => {
                    ||| !is_key(fields[hp])
                    ||| !is_key(fields[dk])
                    ||| fields[eggs].1 != Some(FieldKind::Signature)
                    ||| crate::eggs::list_in(fields[eggs].2) is None
                    ||| proof_tagged && crate::eggs::list_in(fields[ee].2) is None
                },
            }
        }),
{
    crate::document::law_first_field_counts(fields, "hp"@, hp);
    crate::document::law_first_field_counts(fields, "dk"@, dk);
    crate::document::law_first_field_counts(fields, "eggs"@, eggs);
    crate::document::law_first_field_counts(fields, "ee"@, ee);
}

/// Without one of the three there is no handshake.
pub proof fn law_incomplete_is_no_handshake(fields: Seq<crate::document::FieldView>, name: Seq<char>)
    requires
        name == "hp"@ || name == "dk"@ || name == "eggs"@,
        forall|j: int| 0 <= j < fields.len() ==> (#[trigger] fields[j]).0 != name,
    ensures
        hs_in(fields) is None,
{
    crate::document::law_first_field_counts(fields, name, fields.len() as int);
}

/// What is signed is bound to the text of the domain, then the fleet, the box key and the host's key.
pub proof fn law_signed_bytes(handle_proof: Seq<u8>, client_box: Seq<u8>, host_sign: Seq<u8>)
    ensures
        digest(handle_proof, client_box, host_sign) == crate::keys::blake3_hash(
            vstd::utf8::encode_utf8("fgtw-rustdesk-hs-v1"@) + handle_proof + client_box + host_sign,
        ),
{
}

/// The handshake in a payload is the one in its fields; a payload that cannot be read holds none. Written,
/// it is a document of its own section.
pub proof fn law_payloads(payload: Seq<u8>, hs: HsView, created: i64)
    ensures
        crate::document::document_fields(payload) is Err ==> hs_of(payload) is None,
        crate::document::document_fields(payload) matches Ok(fields) ==> hs_of(payload) == hs_in(fields),
        match crate::document::written_document("fgtw_hs"@, hs_fields(hs), created) {
            Ok(bytes) => encoded(hs, created) == Some(bytes),
            Err(_) => encoded(hs, created) is None,
        },
{
}

/// What a handshake says, and what is handed in beside it, part by part.
pub proof fn law_what_a_handshake_says(hs: Handshake, list: &Vec<Egg>, chain: &Chain, keys: &KeyBundle)
    ensures
        hs@.0 == hs.handle_proof@,
        hs@.1 == hs.device@,
        hs@.2 == crate::eggs::eggs_view(hs.eggs@),
        hs.epoch_eggs matches Some(epoch) ==> hs@.3 == Some(crate::eggs::eggs_view(epoch@)),
        hs.epoch_eggs is None ==> hs@.3 is None,
        opt_list(Some(list)) == Some(crate::eggs::eggs_view(list@)),
        opt_list(None) is None,
        opt_chain(Some(chain)) == Some(*chain),
        opt_chain(None) is None,
        opt_bundle(Some(keys)) == Some(keys.bytes@),
        opt_bundle(None) is None,
{
}

} // verus!
