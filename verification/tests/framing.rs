use fgtw_fleet::cache::ChainCache;
use fgtw_fleet::chain::{check_fanout, Chain};
use fgtw_fleet::document::{
    are_writable, read_document, take_first_values, write_document, Field, FieldKind, ReadError, ReadValue, WholeField,
    BAD_FRAMING,
};
use fgtw_fleet::eggs::{Egg, MASK_BASE};
use fgtw_fleet::envelope::{is_sendable, open_envelope, seal_envelope};
use fgtw_fleet::folding::{is_fan_out_readable, is_foldable};
use fgtw_fleet::framing::{body_is_walkable, has_no_false_signature, header_is_walkable, is_readable, is_walkable};
use fgtw_fleet::handshake::{encode_hs_payload_at, parse_hs_payload, verify_hs_payload, FgtwVerdict};
use fgtw_fleet::keys::{device_keypair, DeviceKey};
use fgtw_fleet::outbox::{send_frame, Outbox, PipeError};
use fgtw_fleet::frame::RdFrame;
use fgtw_fleet::pipe::{Routed, Router};
use fgtw_fleet::stream::RelayStream;
use fgtw_fleet::writing::{is_tame, is_tame_time, stamp_at};
use fgtw::pq::FleetSigner;
use vsf::VsfType;

/// A name of almost the largest length there is.
const OUTSIZE_NAME: [u8; 14] = [0x52, 0xC3, 0x85, 0x3C, 0x64, 0x36, 0xFF, 0xFF, 0xFF, 0xFF, 0xFF, 0xFF, 0xFF, 0xFE];

/// What looks like a signature of almost the largest length there is.
const LURE: [u8; 11] = [0x67, 0x65, 0x36, 0xFF, 0xFF, 0xFF, 0xFF, 0xFF, 0xFF, 0xFF, 0xFE];

fn key() -> DeviceKey {
    device_keypair(Some(&[1; 16])).unwrap()
}

/// A document's start and then these bytes.
fn doc(rest: &[u8]) -> Vec<u8> {
    let mut out = vec![0x52, 0xC3, 0x85, 0x3C];
    out.extend_from_slice(rest);
    out
}

fn with_lure(len: usize, at: usize) -> Vec<u8> {
    let mut out = vec![1u8; len];
    out[at..at + LURE.len()].copy_from_slice(&LURE);
    out
}

#[test]
fn an_outsize_length_is_an_error_everywhere() {
    let bytes = OUTSIZE_NAME.to_vec();
    assert!(!header_is_walkable(&bytes));
    assert!(!is_walkable(&bytes));
    assert!(!is_readable(&bytes));
    assert!(matches!(read_document(&bytes), Err(ReadError::Document(e)) if e == BAD_FRAMING));
    assert!(parse_hs_payload(&bytes).is_none());
    assert_eq!(
        verify_hs_payload(&bytes, &[1; 32], &[2; 32], Some([3; 32]), None, None),
        Err(FgtwVerdict::BadPayload)
    );
    assert_eq!(ChainCache::from_bytes(&bytes).err().unwrap(), "chain cache: lengths out of range");
    assert_eq!(Chain::from_bytes(&bytes).err().unwrap(), BAD_FRAMING);
    assert_eq!(check_fanout(&bytes, &[[1; 32]]).err().unwrap(), BAD_FRAMING);
    assert!(open_envelope(&bytes).is_none());
    assert!(matches!(Router::new().route_inbound(&bytes, true), Routed::Dropped));
    let hollow = Chain { bytes, genesis: None, fold: Err(String::new()) };
    assert!(hollow.declared_bundle(&[1; 32]).is_none());
    assert_eq!(hollow.declared_mask(&[1; 32]), MASK_BASE);
}

#[test]
fn lengths_are_watched_in_every_kind_of_value() {
    let huge = [0x36, 0xFF, 0xFF, 0xFF, 0xFF, 0xFF, 0xFF, 0xFF, 0xFF];
    for tag in ["d", "a", "he", "mb", "ge", "ke", "ksx", "kvf"] {
        let mut rest = tag.as_bytes().to_vec();
        rest.extend_from_slice(&huge);
        assert!(!header_is_walkable(&doc(&rest)), "{tag}");
        // In a body too, as a value and as a name.
        let mut body = b"[(d3\x01a:".to_vec();
        body.extend_from_slice(&rest);
        body.extend_from_slice(b")]");
        assert!(!body_is_walkable(&body, 0), "{tag}");
    }
    // Wrapped bytes are counted in bits, and a plain number counts nothing.
    let mut rest = b"vr".to_vec();
    rest.extend_from_slice(&huge);
    assert!(header_is_walkable(&doc(&rest)));
    for tag in ["o", "b", "l", "z", "y", "n"] {
        let mut rest = tag.as_bytes().to_vec();
        rest.extend_from_slice(&huge);
        assert!(header_is_walkable(&doc(&rest)), "{tag}");
    }
    // What ends too early is an error of the decoder.
    assert!(header_is_walkable(&doc(b"d5\x00\xFF\xFF\xFF")));
    assert!(header_is_walkable(&doc(b"d5\x00\xFF")));
    assert!(header_is_walkable(b""));
}

#[test]
fn counts_and_shapes_that_do_not_fit_are_turned_away() {
    let huge = b"6\xFF\xFF\xFF\xFF\xFF\xFF\xFF\xFF";
    for start in ["p", "t", "q", "tn", "x", "t3\x02u34\x01\x00", "q3\x02u34\x01\x00"] {
        let mut rest = start.as_bytes().to_vec();
        rest.extend_from_slice(huge);
        assert!(!header_is_walkable(&doc(&rest)), "{start}");
    }
    for rest in [&b"x5\x7F\xFF\xFF\xFFzz"[..], b"w3\xB4", b"w4\xFD\xD4", b"w5\xFF\xFD\x5C\x50"] {
        assert!(!header_is_walkable(&doc(rest)), "{rest:?}");
    }
    for rest in [
        &b"t3\x01"[..], b"p3\x01", b"q3\x01", b"w3\xB3", b"w4\xFD\xD3", b"w5\xFF\xFD\x5C\x4F", b"w6\xFF\xFF\xFF\xFF\xFF\xFF\xFF\xFF",
        b"wm3\xFF", b"w!", b"tn3\x02u3", b"p3\x01\x083\x01z", b"t3\x02u33\x013\x02zz", b"q3\x01u33\x023\x01zz",
    ] {
        assert!(header_is_walkable(&doc(rest)), "{rest:?}");
    }
    // They are found behind values of every other kind.
    let before: [&[u8]; 23] = [
        b"d3\x01a", b"he3\x00z", b"ksx3\x01zz", b"vr3\x09zz", b"o4\x01\x02", b"u3\x05", b"u\xFF", b"i4zz",
        b"f5zzzz", b"rcw", b"ni1234", b"nhhost\0", b"na\0h\0\0\x01", b"e6\x00zzzzzzz", b"{ab}", b"e6\xFFzzzzzzz",
        b"e5\x80zzz", b"tn3\x02u3zz", b"t3\x02u33\x013\x02zz", b"q3\x01u33\x023\x01zz", b"p3\x01\x083\x01z", b"w3\x01",
        b"wm4zz",
    ];
    for value in before {
        let mut rest = value.to_vec();
        rest.push(b'd');
        rest.extend_from_slice(huge);
        assert!(!header_is_walkable(&doc(&rest)), "{value:?}");
        rest.truncate(value.len());
        rest.push(b'>');
        assert!(header_is_walkable(&doc(&rest)), "{value:?}");
    }
}

#[test]
fn a_header_without_a_body_names_its_section() {
    let bare = |name: &str| {
        let mut rest = b"z3\x01(d3".to_vec();
        rest.push(name.len() as u8);
        rest.extend_from_slice(name.as_bytes());
        rest.extend_from_slice(b")>");
        doc(&rest)
    };
    for name in ["fleet", "fleet_2", "a.b", "a_.b", "a1.b2_c"] {
        assert!(is_walkable(&bare(name)), "{name}");
        assert!(vsf::file_format::validate_name(name).is_ok(), "{name}");
    }
    for name in ["", "Fleet", "_a", "a_", ".a", "a.", "a..b", "a__b", "a.1", "1a", "a._b", "a b"] {
        assert!(!is_walkable(&bare(name)), "{name}");
        assert!(vsf::file_format::validate_name(name).is_err(), "{name}");
        // With a body the name is not looked at.
        let mut with_body = bare(name);
        with_body.extend_from_slice(b"[(d3\x01a)]");
        assert!(is_walkable(&with_body), "{name}");
    }
    assert!(open_envelope(&bare("Fleet")).is_none());
    assert!(Chain::from_bytes(&bare("Fleet")).is_err());
}

#[test]
fn what_looks_like_an_outsize_signature_is_not_written() {
    let eggs = vec![Egg { scheme: 0, sig: vec![9; 64] }];
    let mut lured = [1u8; 32];
    lured[5..16].copy_from_slice(&LURE);
    assert!(encode_hs_payload_at(&lured, &[2; 32], &eggs, None, 5).is_none());
    assert!(encode_hs_payload_at(&[1; 32], &lured, &eggs, None, 5).is_none());
    let lured_eggs = vec![Egg { scheme: 0, sig: with_lure(64, 10) }];
    assert!(encode_hs_payload_at(&[1; 32], &[2; 32], &lured_eggs, None, 5).is_none());
    // One that fits is written and read like any other bytes.
    let mut near = [1u8; 32];
    near[5..16].copy_from_slice(&[0x67, 0x65, 0x36, 0xFF, 0xFF, 0xFF, 0, 0, 0, 0, 0]);
    let payload = encode_hs_payload_at(&near, &[2; 32], &eggs, None, 5).unwrap();
    assert_eq!(parse_hs_payload(&payload).unwrap().handle_proof, near);
    assert!(is_readable(&payload));
    // A time is written unless it could be taken for an outsize length.
    for at in [i64::MIN, -1 << 50, 0, i64::MAX] {
        let payload = encode_hs_payload_at(&[1; 32], &[2; 32], &eggs, None, at).unwrap();
        assert_eq!(parse_hs_payload(&payload).unwrap().device, [2; 32]);
    }
    assert!(encode_hs_payload_at(&[1; 32], &[2; 32], &eggs, None, -1).is_none());
    assert_eq!(stamp_at(77), 77);
    assert_eq!(stamp_at(i64::MIN), i64::MIN);
    assert_eq!(stamp_at(-1), 0);
    let cache = ChainCache { blob: with_lure(40, 3), fanout_doc: None, fetched_at: 0 };
    assert_eq!(cache.to_bytes_at(5).err().unwrap(), "encode chain cache: lengths out of range");
}

#[test]
fn stream_bytes_that_look_like_an_outsize_signature_are_refused() {
    let me = key();
    let peer = [9u8; 32];
    let mut outbox = Outbox { open: true, queue: Vec::new() };
    let frame = |data: Vec<u8>| RdFrame { conn: [7; 16], seq: 0, flags: 0, data };
    let r = send_frame(&me, &mut outbox, &peer, &frame(with_lure(100, 50)));
    assert!(matches!(r, Err(PipeError::Envelope(e)) if e == BAD_FRAMING));
    assert!(outbox.queue.is_empty());
    let mut stream = RelayStream::new(peer, [7; 16], 0);
    let r = stream.poll_write(&me, &mut outbox, &with_lure(100, 50));
    assert!(matches!(r, Err(PipeError::Envelope(_))));
    let mut lured = [9u8; 32];
    lured[20..31].copy_from_slice(&LURE);
    assert!(seal_envelope(&me, &lured, b"payload").is_err());
    assert!(seal_envelope(&me, &peer, b"").is_err());
    assert!(!is_sendable(&me, &lured, b"payload") && !is_sendable(&me, &peer, &LURE));
    // What looks like a signature of a length that fits travels, and so do ordinary bytes.
    let near = [0x67, 0x65, 0x36, 0xFF, 0xFF, 0xFF, 0xFF, 0, 0, 0, 0];
    assert!(is_sendable(&me, &peer, &near));
    let env = seal_envelope(&me, &peer, &near).unwrap();
    assert_eq!(open_envelope(&env), Some((me.public, near.to_vec())));
    let env = seal_envelope(&me, &peer, b"payload").unwrap();
    assert!(is_walkable(&env));
    assert_eq!(open_envelope(&env), Some((me.public, b"payload".to_vec())));
}

#[test]
fn a_value_is_looked_at_with_its_edges() {
    let sealed = |v: &[u8]| is_tame((b'g', b'e'), v.len() as u64 - 1, v, b')', 9000);
    assert!(sealed(&[0xFF; 64]));
    assert!(!sealed(&LURE));
    assert!(!sealed(&with_lure(20, 9)));
    // Without its first letter it is nothing, unless the byte in front happens to be that letter:
    // here it is the last of the value's own length.
    assert!(sealed(&LURE[1..]));
    let mut after_g = vec![1u8; 0x68];
    after_g[..10].copy_from_slice(&LURE[1..]);
    assert!(!sealed(&after_g));
    after_g.push(1);
    assert!(sealed(&after_g));
    // A length that is cut off goes on in what follows.
    assert!(sealed(&LURE[..7]));
    assert!(!sealed(&LURE[..10]));
    // Another letter is none of a signature.
    assert!(sealed(b"g!6\xFF\xFF\xFF\xFF\xFF\xFF\xFF\xFF"));
    // The size of the document counts.
    let tight = b"ge6\xFF\xFF\xFF\xFF\xFF\xFF\xD8\xD7";
    assert!(sealed(b"ge6\xFF\xFF\xFF\xFF\xFF\xFF\xDC\xD6"));
    assert!(!sealed(b"ge6\xFF\xFF\xFF\xFF\xFF\xFF\xDC\xD7"));
    assert!(is_tame((b'g', b'e'), 10, tight, b')', 9000));
    assert!(!is_tame((b'g', b'e'), 10, tight, b')', 90000));
    let mut long = vec![0u8; 0x1_0001];
    long[0] = 0xFF;
    assert!(sealed(&long));
    assert!(is_tame_time(0));
    assert!(is_tame_time(i64::MAX));
    assert!(is_tame_time(i64::MIN));
    assert!(is_tame_time(-1 << 50));
    assert!(!is_tame_time(-1));
    assert!(!is_tame_time(0x6765_36FF_FFFF_FF00));
    let field = |bytes: &[u8]| vec![Field { name: "one".to_string(), kind: FieldKind::Raw, bytes: bytes.to_vec() }];
    assert!(are_writable(&field(b"abc")));
    assert!(!are_writable(&field(&LURE)));
}

#[test]
fn false_signatures_are_found_at_every_place() {
    assert!(!has_no_false_signature(&LURE));
    assert!(!has_no_false_signature(&with_lure(40, 29)));
    assert!(has_no_false_signature(&LURE[..10]));
    assert!(has_no_false_signature(&LURE[1..]));
    assert!(has_no_false_signature(b"ge6\xFF\xFF\xFF\xFF\x00\x00\x00\x00"));
    assert!(!has_no_false_signature(b"gs6\xFF\xFF\xFF\xFF\xFF\xFF\xFF\xFF"));
    assert!(has_no_false_signature(b"gx6\xFF\xFF\xFF\xFF\xFF\xFF\xFF\xFF"));
}

#[test]
fn a_written_document_reads_back() {
    let fields = vec![
        Field { name: "one".to_string(), kind: FieldKind::Raw, bytes: vec![1, 2, 3] },
        Field { name: "two".to_string(), kind: FieldKind::DeviceKey, bytes: vec![4; 32] },
    ];
    let bytes = write_document("things", fields, 77).unwrap();
    let (header, end) = vsf::file_format::VsfHeader::decode(&bytes).unwrap();
    assert_eq!(header.fields[0].name, "things");
    assert!(body_is_walkable(&bytes, end));
    let back = read_document(&bytes).ok().unwrap();
    assert_eq!(back.len(), 2);
    assert_eq!((back[0].name.as_str(), back[0].kind, &back[0].bytes), ("one", Some(FieldKind::Raw), &vec![1, 2, 3]));
    assert_eq!(back[1].bytes, vec![4; 32]);
    let lured = vec![Field { name: "one".to_string(), kind: FieldKind::Raw, bytes: LURE.to_vec() }];
    assert_eq!(write_document("things", lured, 77).err().unwrap(), BAD_FRAMING);
}

#[test]
fn chains_and_fan_outs_are_readable() {
    let a = fgtw::keys::Keypair::from_seed(&[1; 32]);
    let chain = fgtw::fleet::MembershipBlob::genesis(&a, [5; 32], &[6; 32], 100).to_vsf_bytes().unwrap();
    assert!(is_readable(&chain));
    assert!(is_foldable(&chain));
    assert!(is_fan_out_readable(&chain));
    // Times below zero are times.
    let early = fgtw::fleet::MembershipBlob::genesis(&a, [5; 32], &[6; 32], -100).to_vsf_bytes().unwrap();
    let early = Chain::from_bytes(&early).ok().unwrap();
    assert_eq!(early.tip(), -100);
}

/// A document with one field of these values.
fn with_values(section: &str, name: &str, values: Vec<VsfType>) -> Vec<u8> {
    let mut body = vsf::VsfSection::new(section);
    body.add_field_multi(name, values);
    vsf::VsfBuilder::new().creation_time_oscillations(5).add_section_direct(body).build().unwrap()
}

#[test]
fn times_of_an_entry_are_not_too_far_apart() {
    let a = fgtw::keys::Keypair::from_seed(&[1; 32]);
    let b = fgtw::keys::Keypair::from_seed(&[2; 32]);
    let chain = |added: i64, consented: i64| {
        let mut blob = fgtw::fleet::MembershipBlob::genesis(&a, [5; 32], &[6; 32], 100);
        let device = b.public.to_bytes();
        let msg = fgtw::fleet::bindreq_signing_bytes(&[5; 32], &device, consented);
        blob.add(&a, device, added, consented, b.eggs(&msg, MASK_BASE));
        blob.to_vsf_bytes().unwrap()
    };
    for (added, consented) in [(i64::MIN, 0), (i64::MAX, -1), (i64::MIN, i64::MAX), (0, i64::MIN)] {
        let bytes = chain(added, consented);
        assert!(is_readable(&bytes));
        assert!(!is_foldable(&bytes), "{added} {consented}");
        let read = Chain::from_bytes(&bytes).ok().unwrap();
        assert_eq!(read.genesis, Some([5; 32]));
        assert_eq!(read.fold.as_ref().err().unwrap(), BAD_FRAMING);
        assert!(read.declared_bundle(&a.public.to_bytes()).is_none());
        assert_eq!(read.declared_mask(&a.public.to_bytes()), MASK_BASE);
    }
    for (added, consented) in [(0, i64::MAX), (i64::MIN, -1)] {
        let bytes = chain(added, consented);
        assert!(is_foldable(&bytes), "{added} {consented}");
        let read = Chain::from_bytes(&bytes).ok().unwrap();
        assert_eq!(read.fold.err().unwrap(), "ConsentStale { index: 1 }");
    }
    let read = Chain::from_bytes(&chain(-5, 5)).ok().unwrap();
    assert_eq!(read.fold.ok().unwrap().members.len(), 2);
}

#[test]
fn wraps_of_a_fan_out_fit_in_a_machine_word() {
    let fan_out = |length: [u8; 4]| {
        let mut out = b"PFO\x03".to_vec();
        out.extend_from_slice(&[0; 72]);
        out.extend_from_slice(&[0, 2, 7, 7, 0, 0, 0, 1]);
        out.extend_from_slice(&[0; 64]);
        out.extend_from_slice(&length);
        with_values("fanout", "blob", vec![VsfType::ge(out)])
    };
    assert!(is_fan_out_readable(&fan_out([0, 0, 0, 1])));
    assert_eq!(is_fan_out_readable(&fan_out([0xFF; 4])), usize::BITS > 32);
    assert!(check_fanout(&fan_out([0xFF; 4]), &[[1; 32]]).is_err());
}

#[test]
fn the_first_value_of_a_field_counts() {
    let bytes = with_values("things", "one", vec![VsfType::ge(vec![1]), VsfType::hR(vec![2, 3])]);
    let fields = read_document(&bytes).ok().unwrap();
    assert_eq!(fields.len(), 1);
    assert_eq!((fields[0].name.as_str(), fields[0].kind, &fields[0].bytes), ("one", Some(FieldKind::Signature), &vec![1]));
    let bytes = with_values("things", "one", vec![VsfType::u(7, false), VsfType::ge(vec![1])]);
    let fields = read_document(&bytes).ok().unwrap();
    assert!(fields[0].kind.is_none() && fields[0].bytes.is_empty());
    let whole = vec![
        WholeField { name: "none".to_string(), values: vec![] },
        WholeField {
            name: "two".to_string(),
            values: vec![
                ReadValue { kind: Some(FieldKind::Raw), bytes: vec![4] },
                ReadValue { kind: None, bytes: vec![] },
            ],
        },
    ];
    let first = take_first_values(&whole);
    assert!(first[0].kind.is_none() && first[0].name == "none");
    assert_eq!((first[1].kind, &first[1].bytes), (Some(FieldKind::Raw), &vec![4]));
}

#[test]
fn a_document_may_hold_tensors_and_coordinates() {
    let eggs = vsf::eggs::eggs_to_bytes(&[vsf::eggs::Egg { scheme: 0, sig: vec![9; 64] }]);
    let fields = vec![
        ("grid".to_string(), VsfType::t_u3(vsf::Tensor::new(vec![2, 3], vec![1, 2, 3, 4, 5, 6]))),
        ("row".to_string(), VsfType::t_u4(vsf::Tensor::new(vec![2], vec![7, 8]))),
        ("strided".to_string(), VsfType::q_u3(vsf::StridedTensor::new(vec![2], vec![1], vec![7, 8]))),
        ("place".to_string(), VsfType::w(vsf::WorldCoord::from_raw(12345))),
        ("hp".to_string(), VsfType::hP(vec![1; 32])),
        ("dk".to_string(), VsfType::ke(vec![2; 32])),
        ("eggs".to_string(), VsfType::ge(eggs)),
    ];
    let bytes = vsf::VsfBuilder::new().creation_time_oscillations(5).add_section("fgtw_hs", fields).build().unwrap();
    assert!(is_readable(&bytes));
    let hs = parse_hs_payload(&bytes).unwrap();
    assert_eq!((hs.handle_proof, hs.device), ([1; 32], [2; 32]));
}

#[test]
fn a_document_may_hold_text_beside_its_own_fields() {
    let eggs = vsf::eggs::eggs_to_bytes(&[vsf::eggs::Egg { scheme: 0, sig: vec![9; 64] }]);
    let fields = vec![
        ("note".to_string(), vsf::VsfType::x("a word or two".to_string())),
        ("from".to_string(), vsf::VsfType::nh("host".to_string())),
        ("hp".to_string(), vsf::VsfType::hP(vec![1; 32])),
        ("dk".to_string(), vsf::VsfType::ke(vec![2; 32])),
        ("eggs".to_string(), vsf::VsfType::ge(eggs)),
    ];
    let bytes = vsf::VsfBuilder::new().creation_time_oscillations(5).add_section("fgtw_hs", fields).build().unwrap();
    assert!(is_readable(&bytes));
    let hs = parse_hs_payload(&bytes).unwrap();
    assert_eq!((hs.handle_proof, hs.device), ([1; 32], [2; 32]));
}
