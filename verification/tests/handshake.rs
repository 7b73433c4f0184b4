use fgtw_fleet::chain::{Chain, Fold};
use fgtw_fleet::eggs::{device_eggs, epoch_public_keys, verify_eggs, Egg, KeyBundle, EPOCH_TIER, MASK_BASE};
use fgtw_fleet::handshake::{
    build_hs_payload, check_epoch, check_identity, encode_hs_payload, encode_hs_payload_at, hs_digest,
    parse_hs_payload, verify_host_signed_id, verify_hs_payload, FgtwVerdict, Opened,
};
use fgtw_fleet::keys::{seed_rustdesk_identity, DeviceKey};
use ed25519_dalek::{Signature, Verifier, VerifyingKey};
use fgtw::pq::FleetSigner;
use sodiumoxide::crypto::sign;

const MASK_ALL: u16 = 7;

fn kp(seed: u8) -> DeviceKey {
    let pair = fgtw::keys::Keypair::from_seed(&[seed; 32]);
    DeviceKey { seed: [seed; 32], public: pair.public.to_bytes() }
}

fn plain(device: &[u8; 32]) -> KeyBundle {
    KeyBundle { bytes: fgtw::pq::KeyBundle::ed25519_only(device).to_bytes() }
}

#[test]
fn payload_round_trips_and_verifies_binding() {
    let dev = kp(7);
    let hp = [0xAB; 32];
    let box_pk = [3u8; 32];
    let host_pk = [9u8; 32];
    let eggs = device_eggs(None, &dev, &hs_digest(&hp, &box_pk, &host_pk), MASK_BASE);
    let payload = encode_hs_payload(&hp, &dev.public, &eggs, None).unwrap();
    let parsed = parse_hs_payload(&payload).unwrap();
    assert_eq!(parsed.handle_proof, hp);
    assert_eq!(parsed.device, dev.public);
    assert_eq!(parsed.eggs, eggs);
    assert!(parsed.epoch_eggs.is_none(), "no fleet key ⇒ no epoch proof on the wire");

    let bundle = plain(&parsed.device);
    assert!(verify_eggs(&parsed.eggs, &bundle, &hs_digest(&hp, &box_pk, &host_pk), MASK_BASE));
    assert!(!verify_eggs(&parsed.eggs, &bundle, &hs_digest(&hp, &[4u8; 32], &host_pk), MASK_BASE));
    assert!(!verify_eggs(&parsed.eggs, &bundle, &hs_digest(&[0xCD; 32], &box_pk, &host_pk), MASK_BASE));
}

#[test]
fn sodiumoxide_and_dalek_sign_interop() {
    let dev = kp(42);
    let (secret, public) = seed_rustdesk_identity(&dev);
    let mut sk64 = [0u8; 64];
    sk64.copy_from_slice(&secret);
    let mut pk = [0u8; 32];
    pk.copy_from_slice(&public);
    let so_sk = sign::SecretKey(sk64);
    let so_pk = sign::PublicKey(pk);

    let msg = b"fleet identity attestation";
    let so_sig = sign::sign_detached(msg, &so_sk);
    let vk = VerifyingKey::from_bytes(&pk).unwrap();
    let dalek_sig = Signature::from_bytes(&so_sig.to_bytes());
    assert!(vk.verify(msg, &dalek_sig).is_ok(), "dalek must accept sodiumoxide's signature");

    let d_sig = fgtw::keys::Keypair::from_seed(&dev.seed).sign(msg);
    let so_sig2 = sign::Signature::new(d_sig.to_bytes());
    assert!(sign::verify_detached(&so_sig2, msg, &so_pk), "sodiumoxide must accept dalek's signature");
}

#[test]
fn garbage_payload_is_bad_not_panic() {
    assert!(parse_hs_payload(&[]).is_none());
    assert!(parse_hs_payload(&[0u8; 8]).is_none());
    assert!(parse_hs_payload(b"not vsf at all").is_none());
}

#[test]
fn digest_is_the_hash_of_domain_fleet_box_and_host() {
    let mut input = b"fgtw-rustdesk-hs-v1".to_vec();
    input.extend_from_slice(&[1u8; 32]);
    input.extend_from_slice(&[2u8; 32]);
    input.extend_from_slice(&[3u8; 32]);
    assert_eq!(hs_digest(&[1; 32], &[2; 32], &[3; 32]), *blake3::hash(&input).as_bytes());
}

#[test]
fn payload_with_a_bad_epoch_list_is_no_handshake() {
    let hp = [1u8; 32];
    let dk = [2u8; 32];
    let eggs = vec![Egg { scheme: 0, sig: vec![9; 64] }];
    // An empty list has no wire form, neither as signatures nor as an epoch proof.
    let empty: Vec<Egg> = Vec::new();
    let payload = encode_hs_payload_at(&hp, &dk, &eggs, Some(&empty), 5).unwrap();
    assert!(parse_hs_payload(&payload).is_none());
    let payload = encode_hs_payload_at(&hp, &dk, &empty, None, 5).unwrap();
    assert!(parse_hs_payload(&payload).is_none());
    // One scheme twice has none either.
    let twice = vec![Egg { scheme: 0, sig: vec![9; 64] }, Egg { scheme: 0, sig: vec![8; 64] }];
    let payload = encode_hs_payload_at(&hp, &dk, &twice, None, 5).unwrap();
    assert!(parse_hs_payload(&payload).is_none());
    let payload = encode_hs_payload_at(&hp, &dk, &eggs, None, 5).unwrap();
    assert!(parse_hs_payload(&payload).is_some());
    // The moment goes into the document.
    assert_ne!(payload, encode_hs_payload_at(&hp, &dk, &eggs, None, 6).unwrap());
}

/// A chain with a host and a guest that hold Ed25519 keys alone.
fn two_member_chain(host: u8, guest: u8, hp: [u8; 32]) -> Chain {
    let h = fgtw::keys::Keypair::from_seed(&[host; 32]);
    let g = fgtw::keys::Keypair::from_seed(&[guest; 32]);
    let gpk = g.public.to_bytes();
    let mut blob = fgtw::fleet::MembershipBlob::genesis(&h, hp, &[6; 32], 100);
    let msg = fgtw::fleet::bindreq_signing_bytes(&hp, &gpk, 190);
    blob.add(&h, gpk, 200, 190, g.eggs(&msg, MASK_BASE));
    Chain::from_bytes(&blob.to_vsf_bytes().unwrap()).unwrap()
}

#[test]
fn current_member_is_let_in_as_itself() {
    let hp = [0xAB; 32];
    let chain = two_member_chain(1, 2, hp);
    let guest = kp(2);
    let fleet_key = [0x77u8; 32];
    let box_pk = [3u8; 32];
    let host_sign = kp(1).public;
    let payload =
        build_hs_payload(Some(hp), Some(guest), None, Some(&chain), Some(fleet_key), &box_pk, &host_sign).unwrap();
    let epoch = epoch_public_keys(&fleet_key);
    assert_eq!(epoch.bytes, fgtw::pq::epoch_bundle(&fleet_key).public().to_bytes());
    let me = Some(kp(1).public);
    let verdict = verify_hs_payload(&payload, &box_pk, &host_sign, me, Some(&chain), Some(&epoch));
    assert_eq!(verdict, Ok(guest.public));
    // The same payload on another connection, or at another host, does not hold.
    assert_eq!(
        verify_hs_payload(&payload, &[4; 32], &host_sign, me, Some(&chain), Some(&epoch)),
        Err(FgtwVerdict::BadSignature)
    );
    assert_eq!(
        verify_hs_payload(&payload, &box_pk, &[5; 32], me, Some(&chain), Some(&epoch)),
        Err(FgtwVerdict::BadSignature)
    );
    // Without the epoch's keys nothing can be decided; with another epoch's keys the guest is locked out.
    assert_eq!(
        verify_hs_payload(&payload, &box_pk, &host_sign, me, Some(&chain), None),
        Err(FgtwVerdict::StaleCache)
    );
    let other = plain(&kp(9).public);
    assert_eq!(
        verify_hs_payload(&payload, &box_pk, &host_sign, me, Some(&chain), Some(&other)),
        Err(FgtwVerdict::LockedOut)
    );
}

#[test]
fn every_refusal_has_its_verdict() {
    let hp = [0xAB; 32];
    let chain = two_member_chain(1, 2, hp);
    let guest = kp(2);
    let box_pk = [3u8; 32];
    let host_sign = kp(1).public;
    let me = Some(kp(1).public);
    let payload = build_hs_payload(Some(hp), Some(guest), None, Some(&chain), None, &box_pk, &host_sign).unwrap();
    let check = |me, chain: Option<&Chain>| verify_hs_payload(&payload, &box_pk, &host_sign, me, chain, None);
    assert_eq!(check(None, Some(&chain)), Err(FgtwVerdict::NotEnrolled));
    assert_eq!(
        verify_hs_payload(b"junk", &box_pk, &host_sign, me, Some(&chain), None),
        Err(FgtwVerdict::BadPayload)
    );
    assert_eq!(check(me, None), Err(FgtwVerdict::StaleCache));
    assert_eq!(check(Some([8; 32]), Some(&chain)), Err(FgtwVerdict::ForeignFleet));
    // Identity holds, but there is no epoch proof.
    assert_eq!(check(me, Some(&chain)), Err(FgtwVerdict::LockedOut));
    let unfolded = Chain { bytes: chain.bytes.clone(), genesis: chain.genesis, fold: Err("broken".to_string()) };
    assert_eq!(check(me, Some(&unfolded)), Err(FgtwVerdict::StaleCache));
    let without_guest = Chain {
        bytes: chain.bytes.clone(),
        genesis: chain.genesis,
        fold: Ok(Fold { members: vec![kp(1).public], floor: MASK_BASE, tip: 200 }),
    };
    assert_eq!(check(me, Some(&without_guest)), Err(FgtwVerdict::NotMember));
    let higher_floor = Chain {
        bytes: chain.bytes.clone(),
        genesis: chain.genesis,
        fold: Ok(Fold { members: vec![kp(1).public, guest.public], floor: MASK_ALL, tip: 200 }),
    };
    assert_eq!(check(me, Some(&higher_floor)), Err(FgtwVerdict::BadSignature));
}

#[test]
fn stages_agree_with_the_whole() {
    let hp = [0xAB; 32];
    let chain = two_member_chain(1, 2, hp);
    let guest = kp(2);
    let box_pk = [3u8; 32];
    let host_sign = kp(1).public;
    let payload = build_hs_payload(Some(hp), Some(guest), None, None, None, &box_pk, &host_sign).unwrap();
    let hs = parse_hs_payload(&payload).unwrap();
    let msg = hs_digest(&hs.handle_proof, &box_pk, &host_sign);
    assert_eq!(check_identity(&host_sign, &hs, Some(&chain), &msg), Ok(()));
    assert_eq!(check_epoch(&hs, Some(&plain(&host_sign)), &msg), Err(FgtwVerdict::LockedOut));
    let open = |payload: &[u8], me| Opened::open(payload, &box_pk, &host_sign, me);
    assert_eq!(open(&payload, None).err(), Some(FgtwVerdict::NotEnrolled));
    assert_eq!(open(&[], None).err(), Some(FgtwVerdict::NotEnrolled));
    assert_eq!(open(&[], Some(host_sign)).err(), Some(FgtwVerdict::BadPayload));
    let opened = open(&payload, Some(host_sign)).ok().unwrap();
    assert_eq!(opened.fleet(), hp);
    let identified = opened.identify(Some(&chain)).ok().unwrap();
    // Without an epoch proof there is no document to ask for.
    assert!(identified.members_to_ask().is_none());
    assert_eq!(identified.decide(None), Err(FgtwVerdict::LockedOut));
    let payload = build_hs_payload(Some(hp), Some(guest), None, None, Some([0x77; 32]), &box_pk, &host_sign).unwrap();
    let again = || open(&payload, Some(host_sign)).ok().unwrap();
    assert_eq!(again().identify(None).err(), Some(FgtwVerdict::StaleCache));
    let identified = again().identify(Some(&chain)).ok().unwrap();
    assert_eq!(identified.members_to_ask(), Some(&vec![host_sign, guest.public]));
    assert_eq!(identified.decide(None), Err(FgtwVerdict::StaleCache));
    let identified = again().identify(Some(&chain)).ok().unwrap();
    assert_eq!(identified.decide(Some(&epoch_public_keys(&[0x77; 32]))), Ok(guest.public));
}

#[test]
fn nobody_logged_in_builds_no_payload() {
    assert!(build_hs_payload(None, Some(kp(2)), None, None, None, &[0; 32], &[0; 32]).is_none());
    assert!(build_hs_payload(Some([1; 32]), None, None, None, None, &[0; 32], &[0; 32]).is_none());
}

#[test]
fn only_accepted_is_ok() {
    assert!(FgtwVerdict::Accepted.is_ok());
    for v in [
        FgtwVerdict::NotEnrolled,
        FgtwVerdict::BadPayload,
        FgtwVerdict::BadSignature,
        FgtwVerdict::NotMember,
        FgtwVerdict::ForeignFleet,
        FgtwVerdict::LockedOut,
        FgtwVerdict::StaleCache,
    ] {
        assert!(!v.is_ok());
    }
}

#[test]
fn first_member_that_decodes_is_the_host() {
    let members = vec![[1u8; 32], [2; 32], [3; 32]];
    let decoded = vec![None, Some(("host".to_string(), [7u8; 32])), Some(("other".to_string(), [8u8; 32]))];
    assert_eq!(verify_host_signed_id(Some(&members), &decoded), Some(("host".to_string(), [7; 32], [2; 32])));
    assert_eq!(verify_host_signed_id(Some(&members), &vec![None, None, None]), None);
    assert_eq!(verify_host_signed_id(None, &Vec::new()), None);
}

#[test]
fn eggs_are_held_to_bundle_message_and_floor() {
    let dev = kp(7);
    let eggs = device_eggs(None, &dev, b"message", MASK_ALL);
    assert_eq!(eggs.len(), 1);
    assert_eq!(eggs[0].scheme, 0);
    assert_eq!(eggs[0].sig.len(), 64);
    assert!(verify_eggs(&eggs, &plain(&dev.public), b"message", MASK_BASE));
    assert!(!verify_eggs(&eggs, &plain(&dev.public), b"massage", MASK_BASE));
    assert!(!verify_eggs(&eggs, &plain(&kp(8).public), b"message", MASK_BASE));
    assert!(!verify_eggs(&eggs, &plain(&dev.public), b"message", EPOCH_TIER));
    assert!(!verify_eggs(&[], &plain(&dev.public), b"message", 0));
    assert!(!verify_eggs(&eggs, &KeyBundle { bytes: vec![] }, b"message", MASK_BASE));
    let unknown = vec![eggs[0].clone(), Egg { scheme: 200, sig: vec![1] }];
    assert!(!verify_eggs(&unknown, &plain(&dev.public), b"message", MASK_BASE));
}
