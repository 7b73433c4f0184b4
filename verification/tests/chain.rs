use fgtw_fleet::cache::{cache_max_age, ChainCache};
use fgtw_fleet::chain::{
    current_chain, current_fanout, Chain, ChainError, FanoutError, FanoutFetch, Fetch, Fold,
};
use fgtw::client::{FgtwResponse, FgtwTransport};
use fgtw::fleet::MembershipBlob;
use fgtw::keys::Keypair;
use fgtw::pq::FleetSigner;
use std::cell::RefCell;

fn kp(seed: u8) -> Keypair {
    Keypair::from_seed(&[seed; 32])
}

fn pk(seed: u8) -> [u8; 32] {
    kp(seed).public.to_bytes()
}

fn genesis(seed: u8, hp: [u8; 32], at: i64) -> Vec<u8> {
    MembershipBlob::genesis(&kp(seed), hp, &[6u8; 32], at).to_vsf_bytes().unwrap()
}

fn chain(bytes: &Vec<u8>) -> Chain {
    Chain::from_bytes(bytes).ok().unwrap()
}

fn cache(blob: Vec<u8>, fetched_at: u64) -> ChainCache {
    ChainCache { blob, fanout_doc: None, fetched_at }
}

#[test]
fn chain_cache_round_trips_and_holds_no_root() {
    let a = kp(1);
    let blob = MembershipBlob::genesis(&a, [5u8; 32], &[6u8; 32], 100);
    let c = ChainCache { blob: blob.to_vsf_bytes().unwrap(), fanout_doc: None, fetched_at: 99 };
    let back = ChainCache::from_bytes(&c.to_bytes().unwrap()).ok().unwrap();
    assert_eq!(back.blob, c.blob);
    assert_eq!(back.fetched_at, 99);
    assert_eq!(back.chain().unwrap().fold.ok().unwrap().members, vec![a.public.to_bytes()]);
    assert!(!c.to_bytes().unwrap().windows(32).any(|w| w == [6u8; 32]));
}

#[test]
fn cache_keeps_the_fanout_document() {
    let c = ChainCache { blob: vec![1, 2, 3], fanout_doc: Some(vec![4, 5]), fetched_at: u64::MAX };
    let bytes = c.to_bytes_at(77).ok().unwrap();
    let back = ChainCache::from_bytes(&bytes).ok().unwrap();
    assert_eq!(back.blob, vec![1, 2, 3]);
    assert_eq!(back.fanout_doc, Some(vec![4, 5]));
    assert_eq!(back.fetched_at, u64::MAX);
    assert_ne!(bytes, c.to_bytes_at(78).ok().unwrap());
    assert!(back.chain().is_none());
}

#[test]
fn unreadable_cache_says_why() {
    let text = ChainCache::from_bytes(b"junk").err().unwrap();
    assert!(text.starts_with("chain cache: "), "{text}");
    // A document of another kind has no chain bytes.
    let other = vsf::VsfBuilder::new()
        .creation_time_oscillations(1)
        .add_section("other", vec![("at".to_string(), vsf::VsfType::hR(vec![0; 8]))])
        .build()
        .unwrap();
    assert_eq!(ChainCache::from_bytes(&other).err().unwrap(), "chain cache: missing chain bytes");
    // A document without a section is named as such.
    let bare = vsf::VsfBuilder::new().creation_time_oscillations(1).build().unwrap();
    let text = ChainCache::from_bytes(&bare).err().unwrap();
    assert!(text.starts_with("chain cache section: "), "{text}");
    // A tampered document is refused.
    let mut bytes = cache(vec![1, 2, 3], 9).to_bytes_at(5).ok().unwrap();
    let last = bytes.len() - 2;
    bytes[last] ^= 1;
    assert!(ChainCache::from_bytes(&bytes).is_err());
    // A cache without a readable time reads as zero.
    let no_time = vsf::VsfBuilder::new()
        .creation_time_oscillations(1)
        .add_section("fgtw_chain", vec![("cb".to_string(), vsf::VsfType::ge(vec![7]))])
        .build()
        .unwrap();
    assert_eq!(ChainCache::from_bytes(&no_time).ok().unwrap().fetched_at, 0);
}

#[test]
fn cache_age_bound_comes_from_the_option() {
    assert_eq!(cache_max_age(""), 3600);
    assert_eq!(cache_max_age("60"), 60);
    assert_eq!(cache_max_age("+60"), 60);
    assert_eq!(cache_max_age("-1"), 3600);
    assert_eq!(cache_max_age(" 60"), 3600);
    assert_eq!(cache_max_age("18446744073709551615"), u64::MAX);
    assert_eq!(cache_max_age("18446744073709551616"), 3600);
    assert_eq!(cache_max_age("+"), 3600);
}

#[test]
fn chain_says_what_its_bytes_say() {
    let bytes = genesis(1, [5; 32], 100);
    let c = chain(&bytes);
    assert_eq!(c.genesis, Some([5; 32]));
    let fold = c.fold.as_ref().ok().unwrap();
    assert_eq!(fold.members, vec![pk(1)]);
    assert_eq!(fold.floor, 1);
    assert_eq!(fold.tip, 100);
    assert!(c.belongs_to(&[5; 32]));
    assert!(!c.belongs_to(&[4; 32]));
    assert!(c.declared_bundle(&pk(1)).is_none());
    assert_eq!(c.declared_mask(&pk(1)), 1);
    assert!(Chain::from_bytes(&vec![1, 2, 3]).is_err());
}

#[test]
fn fresh_chain_of_our_fleet_is_taken_and_cached() {
    let hp = [5; 32];
    let bytes = genesis(1, hp, 100);
    let (r, save) = current_chain(&hp, None, Fetch::Found(chain(&bytes)), Some(pk(1)), 1000, 60);
    assert_eq!(r.ok().unwrap().bytes, bytes);
    let saved = save.unwrap();
    assert_eq!(saved.blob, bytes);
    assert_eq!(saved.fetched_at, 1000);
    // A chain that we are not in is used and not cached.
    let (r, save) = current_chain(&hp, None, Fetch::Found(chain(&bytes)), Some(pk(2)), 1000, 60);
    assert!(r.is_ok() && save.is_none());
    let (r, save) = current_chain(&hp, None, Fetch::Found(chain(&bytes)), None, 1000, 60);
    assert!(r.is_ok() && save.is_none());
}

#[test]
fn lagging_read_does_not_replace_what_is_known() {
    let hp = [5; 32];
    let newer = genesis(1, hp, 200);
    let older = genesis(1, hp, 100);
    let mut held = cache(newer.clone(), 10);
    held.fanout_doc = Some(vec![8]);
    let (r, save) = current_chain(&hp, Some(&held), Fetch::Found(chain(&older)), Some(pk(1)), 1000, 60);
    assert_eq!(r.ok().unwrap().bytes, newer);
    assert!(save.is_none());
    // The other way round the fresh one wins, and the fan-out document stays.
    let mut held = cache(older, 10);
    held.fanout_doc = Some(vec![8]);
    let (r, save) = current_chain(&hp, Some(&held), Fetch::Found(chain(&newer)), Some(pk(1)), 1000, 60);
    assert_eq!(r.ok().unwrap().bytes, newer);
    assert_eq!(save.unwrap().fanout_doc, Some(vec![8]));
    // A cached chain of another fleet holds nothing back.
    let other = cache(genesis(1, [9; 32], 900), 10);
    let (r, _) = current_chain(&hp, Some(&other), Fetch::Found(chain(&newer)), Some(pk(1)), 1000, 60);
    assert_eq!(r.ok().unwrap().bytes, newer);
}

#[test]
fn offline_answer_is_bounded_by_age_and_fleet() {
    let hp = [5; 32];
    let bytes = genesis(1, hp, 100);
    let held = cache(bytes.clone(), 1000);
    let down = || Fetch::Failed("down".to_string());
    let message = |r: Result<Chain, ChainError>| r.err().unwrap().message();
    let (r, save) = current_chain(&hp, Some(&held), down(), Some(pk(1)), 1060, 60);
    assert_eq!(r.ok().unwrap().bytes, bytes);
    assert!(save.is_none());
    let (r, _) = current_chain(&hp, Some(&held), down(), Some(pk(1)), 1061, 60);
    assert_eq!(message(r), "fgtw unreachable and cache stale (61s): down");
    let (r, _) = current_chain(&hp, Some(&held), down(), Some(pk(1)), 10, 60);
    assert!(r.is_ok());
    let (r, _) = current_chain(&hp, None, down(), Some(pk(1)), 10, 60);
    assert_eq!(message(r), "fgtw unreachable and no cached chain: down");
    let (r, _) = current_chain(&[6; 32], Some(&held), down(), Some(pk(1)), 1000, 60);
    assert_eq!(message(r), "fgtw unreachable and the cached chain is for a different fleet: down");
    let broken = cache(vec![1], 1000);
    let (r, _) = current_chain(&hp, Some(&broken), down(), Some(pk(1)), 1000, 60);
    assert_eq!(message(r), "fgtw unreachable and the cached chain is for a different fleet: down");
    let (r, _) = current_chain(&hp, Some(&held), Fetch::Absent, Some(pk(1)), 1000, 60);
    assert_eq!(message(r), "no fleet chain exists for that identity");
}

#[test]
fn chain_that_does_not_fold_is_refused() {
    // Two founding entries in one chain do not fold.
    let mut blob = MembershipBlob::genesis(&kp(1), [5; 32], &[6u8; 32], 100);
    let second = MembershipBlob::genesis(&kp(2), [5; 32], &[6u8; 32], 100);
    blob.ops.extend(second.ops);
    let bytes = blob.to_vsf_bytes().unwrap();
    let c = chain(&bytes);
    let fault = c.fold.as_ref().err().unwrap().clone();
    assert_eq!(c.tip(), i64::MIN);
    let (r, _) = current_chain(&[5; 32], None, Fetch::Found(c), Some(pk(1)), 0, 0);
    assert_eq!(r.err().unwrap().message(), format!("fetched fleet does not fold: {fault}"));
}

/// A transport that keeps the last request and refuses it.
struct Capture(RefCell<Vec<u8>>);

impl FgtwTransport for Capture {
    fn post(&self, body: Vec<u8>) -> Result<FgtwResponse, String> {
        *self.0.borrow_mut() = body;
        Ok(FgtwResponse { status: 500, body: Vec::new() })
    }
}

/// The document that a device posts when it mints a fleet key for itself.
fn fanout_doc(seed: u8) -> Vec<u8> {
    let t = Capture(RefCell::new(Vec::new()));
    let device = kp(seed);
    let _ = fgtw::client::mint_fleet_key(&t, &[5; 32], &device, &[device.public.to_bytes()], &[6; 32]);
    t.0.into_inner()
}

#[test]
fn fanout_is_checked_against_the_members() {
    let doc = fanout_doc(1);
    let members = vec![pk(1)];
    let held = cache(vec![1, 2], 1000);
    let (r, save) = current_fanout(&members, Some(&held), FanoutFetch::Found(doc.clone()), 1000, 60);
    let keys = r.ok().unwrap();
    let want = fgtw::client::verify_fanout_doc(&doc, &members).unwrap().epoch_pub.to_bytes();
    assert_eq!(keys.bytes, want);
    let saved = save.unwrap();
    assert_eq!((saved.blob, saved.fanout_doc, saved.fetched_at), (vec![1, 2], Some(doc.clone()), 1000));
    // Offline the cached document is checked again.
    let mut held = cache(vec![1, 2], 1000);
    held.fanout_doc = Some(doc);
    let down = || FanoutFetch::Failed("down".to_string());
    let message = |r: Result<fgtw_fleet::eggs::KeyBundle, FanoutError>| r.err().unwrap().message();
    let (r, save) = current_fanout(&members, Some(&held), down(), 1060, 60);
    assert_eq!(r.ok().unwrap().bytes, want);
    assert!(save.is_none());
    let (r, _) = current_fanout(&vec![pk(2)], Some(&held), down(), 1060, 60);
    assert_eq!(message(r), "fanout: rotator is not a current fleet member");
    let (r, _) = current_fanout(&members, Some(&held), down(), 1061, 60);
    assert_eq!(message(r), "fgtw unreachable and cache stale (61s): down");
}

#[test]
fn missing_fanout_says_why() {
    let members = vec![pk(1)];
    let message = |r: Result<fgtw_fleet::eggs::KeyBundle, FanoutError>| r.err().unwrap().message();
    let held = cache(vec![1, 2], 1000);
    let (r, _) = current_fanout(&members, None, FanoutFetch::Absent, 0, 60);
    assert_eq!(message(r), "no fan-out published for this fleet");
    let (r, _) = current_fanout(&members, None, FanoutFetch::Failed("down".to_string()), 0, 60);
    assert_eq!(message(r), "fgtw unreachable and no cached fan-out: down");
    let (r, _) = current_fanout(&members, Some(&held), FanoutFetch::Failed("down".to_string()), 1000, 60);
    assert_eq!(message(r), "fgtw unreachable and no cached fan-out: down");
    // A fetched document that does not verify counts as out of reach.
    let (r, save) = current_fanout(&members, None, FanoutFetch::Found(vec![1, 2, 3]), 1000, 60);
    assert!(message(r).starts_with("fgtw unreachable and no cached fan-out: fanout: "));
    assert!(save.is_none());
}

#[test]
fn declared_bundle_is_what_the_member_published() {
    let mut blob = MembershipBlob::genesis(&kp(1), [5; 32], &[6u8; 32], 100);
    blob.declare(&kp(1), 200);
    let c = chain(&blob.to_vsf_bytes().unwrap());
    let bundle = c.declared_bundle(&pk(1)).unwrap();
    assert_eq!(bundle.bytes, fgtw::pq::KeyBundle::ed25519_only(&pk(1)).to_bytes());
    assert_eq!(kp(1).bundle(), None);
    assert_eq!(c.declared_mask(&pk(1)), 1);
    assert_eq!(c.tip(), 200);
}

#[test]
fn a_chain_that_cannot_be_written_down_is_an_error_to_its_members() {
    let hp = [5u8; 32];
    let held = cache(genesis(1, hp, 100), 990);
    let unwritten = |fold: Result<Fold, String>| {
        let chain = Chain { bytes: vec![], genesis: Some(hp), fold };
        Fetch::Unwritten(chain, "too long".to_string())
    };
    let members = |tip| Ok(Fold { members: vec![pk(1), pk(2)], floor: 1, tip });
    let ask = |fetch, me| current_chain(&hp, Some(&held), fetch, me, 1000, 60);
    let (r, save) = ask(unwritten(members(100)), Some(pk(1)));
    assert_eq!(r.err().unwrap().message(), "too long");
    assert!(save.is_none());
    // Whoever is no member has nothing to keep, and goes by it.
    for me in [Some(pk(3)), None] {
        let (r, save) = ask(unwritten(members(100)), me);
        assert_eq!(r.ok().unwrap().fold.ok().unwrap().members, vec![pk(1), pk(2)]);
        assert!(save.is_none());
    }
    // The cached chain comes before it where it is newer, and a chain that does not fold is none.
    let (r, save) = ask(unwritten(members(99)), Some(pk(1)));
    assert_eq!(r.ok().unwrap().bytes, held.blob);
    assert!(save.is_none());
    let (r, _) = ask(unwritten(Err("Empty".to_string())), Some(pk(1)));
    assert_eq!(r.err().unwrap().message(), "fetched fleet does not fold: Empty");
}
