//! Signed relay envelopes: how a payload travels to a peer device through the fleet's server.
use crate::document::BAD_FRAMING;
use crate::framing::is_walkable;
use crate::keys::{public_of_seed, DeviceKey};
use crate::writing::{is_tame, longest_total};
use vstd::prelude::*;

verus! {

/// This service's tag on the relay.
pub const SVC_RUSTDESK: &'static str = "rd";

/// What `fgtw::pipe::build_relay_envelope` gives for a signing seed, a recipient, a service tag
/// and a payload when the clock reads `time`: the envelope, or its error text.
pub uninterp spec fn relay_envelope(
    seed: Seq<u8>,
    recipient: Seq<u8>,
    svc: Seq<char>,
    payload: Seq<u8>,
    time: i64,
) -> Result<Seq<u8>, Seq<char>>;

/// What `fgtw::pipe::peel_relay_envelope` gives for a byte string: the sender's device key and
/// the payload.
pub uninterp spec fn relay_peeled(bytes: Seq<u8>) -> Option<(Seq<u8>, Seq<u8>)>;

/// A result's bytes or error text.
pub open spec fn bytes_or_text(r: Result<Vec<u8>, String>) -> Result<Seq<u8>, Seq<char>> {
    match r {
        Ok(bytes) => Ok(bytes@),
        Err(text) => Err(text@),
    }
}

/// The bytes that go into an envelope can be written into a document: the sender's key in its header,
/// and the recipient's key and the payload, which is counted in bits, in its body.
pub open spec fn sendable(seed: Seq<u8>, recipient: Seq<u8>, payload: Seq<u8>) -> bool {
    let size = crate::writing::room(payload.len());
    &&& payload.len() <= crate::writing::longest()
    &&& crate::writing::tame((0x6B, 0x65), 31, crate::keys::ed25519_public(seed), 0x67, size)
    &&& crate::writing::tame((0x6B, 0x78), 31, recipient, 0x29, size)
    &&& crate::writing::tame((0x76, 0x72), payload.len() * 8, payload, 0x29, size)
}

/// What making an envelope when the clock reads `time` gives: the envelope, or its error text.
pub open spec fn envelope_of(
    seed: Seq<u8>,
    recipient: Seq<u8>,
    svc: Seq<char>,
    payload: Seq<u8>,
    time: i64,
) -> Result<Seq<u8>, Seq<char>> {
    if !sendable(seed, recipient, payload) {
        Err(BAD_FRAMING@)
    } else {
        match relay_envelope(seed, recipient, svc, payload, time) {
            Ok(env) => if crate::framing::walkable(env) { Ok(env) } else { Err(BAD_FRAMING@) },
            Err(text) => Err(text),
        }
    }
}

/// The sender's device key and the payload of an envelope.
pub open spec fn peeled(bytes: Seq<u8>) -> Option<(Seq<u8>, Seq<u8>)> {
    if crate::framing::walkable(bytes) { relay_peeled(bytes) } else { None }
}

/// `env` is an envelope to `recipient` for `svc` that holds `payload`, made with `seed` at some
/// moment.
pub open spec fn is_envelope(env: Seq<u8>, seed: Seq<u8>, recipient: Seq<u8>, svc: Seq<char>, payload: Seq<u8>) -> bool {
    exists|time: i64| envelope_of(seed, recipient, svc, payload, time) == Ok::<Seq<u8>, Seq<char>>(env)
}

/// `fgtw::pipe::build_relay_envelope`: seals `payload` to `recipient` under the tag `svc`, signed
/// by `key`. It reads the clock, so which envelope comes out depends on the moment too. An empty
/// payload is refused; an envelope that was built peels to its sender and its payload. The builder
/// looks for signatures at every position of what it wrote and adds the lengths of what looks like
/// one, so neither of the keys nor the payload holds anything that looks like a signature of an
/// outsize length. What the clock's own eight bytes look like is left to the clock.
#[verifier::external_body]
fn build_envelope(key: &DeviceKey, recipient: &[u8; 32], svc: &str, payload: &[u8]) -> (r: Result<Vec<u8>, String>)
    requires
        sendable(key.seed@, recipient@, payload@),
        crate::document::is_name(svc@),
        svc@.len() <= 8,
    ensures
        exists|time: i64| relay_envelope(key.seed@, recipient@, svc@, payload@, time) == bytes_or_text(r),
        payload@.len() == 0 ==> r is Err,
        r matches Ok(env) ==> relay_peeled(env@) == Some((crate::keys::ed25519_public(key.seed@), payload@)),
{
    let pair = fgtw::keys::Keypair::from_seed(&key.seed);
    fgtw::pipe::build_relay_envelope(&pair, recipient, Some(svc), payload)
}

/// `fgtw::pipe::peel_relay_envelope`: checks the sender's signature over the whole envelope and
/// hands out the sender's key and the payload; `None` for anything that does not verify. The
/// decoder adds the lengths that it reads without a check, and takes the name of a section without
/// a body as it comes, so the bytes are ones that it can walk.
#[verifier::external_body]
fn peel_envelope(bytes: &[u8]) -> (r: Option<([u8; 32], Vec<u8>)>)
    requires
        crate::framing::walkable(bytes@),
    ensures
        match r {
            Some((sender, payload)) => relay_peeled(bytes@) == Some((sender@, payload@)),
            None => relay_peeled(bytes@) is None,
        },
{
    fgtw::pipe::peel_relay_envelope(bytes)
}

/// Whether the bytes that go into an envelope can be written into a document.
pub fn is_sendable(key: &DeviceKey, recipient: &[u8; 32], payload: &[u8]) -> (r: bool)
    ensures
        r == sendable(key.seed@, recipient@, payload@),
{
    let len: u64 = payload.len() as u64;
    if len > longest_total() {
        return false;
    }
    let size: u64 = len + 8192;
    let public = public_of_seed(&key.seed);
    is_tame((0x6B, 0x65), 31, &public, 0x67, size) && is_tame((0x6B, 0x78), 31, recipient, 0x29, size) && is_tame(
        (0x76, 0x72),
        len * 8,
        payload,
        0x29,
        size,
    )
}

/// Seal `payload` to `recipient` for this service, signed by `key`.
pub fn seal_envelope(key: &DeviceKey, recipient: &[u8; 32], payload: &[u8]) -> (r: Result<Vec<u8>, String>)
    ensures
        exists|time: i64| envelope_of(key.seed@, recipient@, SVC_RUSTDESK@, payload@, time) == bytes_or_text(r),
        payload@.len() == 0 ==> r is Err,
        !sendable(key.seed@, recipient@, payload@) ==> (r matches Err(text) && text@ == BAD_FRAMING@),
        r matches Ok(env) ==> peeled(env@) == Some((crate::keys::ed25519_public(key.seed@), payload@)),
{
    if !is_sendable(key, recipient, payload) {
        let refusal: Result<Vec<u8>, String> = Err(BAD_FRAMING.to_owned());
        assert(envelope_of(key.seed@, recipient@, SVC_RUSTDESK@, payload@, 0) == bytes_or_text(refusal));
        return refusal;
    }
    proof {
        reveal_strlit("rd");
    }
    let built = build_envelope(key, recipient, SVC_RUSTDESK, payload);
    let ghost time = choose|time: i64|
        relay_envelope(key.seed@, recipient@, SVC_RUSTDESK@, payload@, time) == bytes_or_text(built);
    let r: Result<Vec<u8>, String> = match built {
        Ok(env) => if is_walkable(env.as_slice()) { Ok(env) } else { Err(BAD_FRAMING.to_owned()) },
        Err(text) => Err(text),
    };
    assert(envelope_of(key.seed@, recipient@, SVC_RUSTDESK@, payload@, time) == bytes_or_text(r));
    r
}

/// Open an envelope: the sender's device key and the payload, where its signature holds.
pub fn open_envelope(bytes: &[u8]) -> (r: Option<([u8; 32], Vec<u8>)>)
    ensures
        match r {
            Some((sender, payload)) => peeled(bytes@) == Some((sender@, payload@)),
            None => peeled(bytes@) is None,
        },
{
    if is_walkable(bytes) { peel_envelope(bytes) } else { None }
}

// ── what goes out and what comes in ──

/// An envelope is the one that the relay's builder makes, and its error the builder's, wherever the keys and
/// the payload may be written and the envelope can be walked.
pub proof fn law_envelopes(seed: Seq<u8>, recipient: Seq<u8>, svc: Seq<char>, payload: Seq<u8>, time: i64)
    requires
        sendable(seed, recipient, payload),
    ensures
        match relay_envelope(seed, recipient, svc, payload, time) {
            Ok(env) => {
                &&& crate::framing::walkable(env) ==> envelope_of(seed, recipient, svc, payload, time) == Ok::<
                    Seq<u8>,
                    Seq<char>,
                >(env)
                &&& !crate::framing::walkable(env) ==> envelope_of(seed, recipient, svc, payload, time) == Err::<
                    Seq<u8>,
                    Seq<char>,
                >("lengths out of range"@)
            },
            Err(text) => envelope_of(seed, recipient, svc, payload, time) == Err::<Seq<u8>, Seq<char>>(text),
        },
        SVC_RUSTDESK@ == "rd"@,
{
}

/// With words of 64 bits a payload of up to a tebibyte is sent to every peer, unless it, or one of the two
/// keys, holds in its written form a `g`, another byte, a `6` and a byte of ones, one behind the other.
pub proof fn law_what_is_sent(seed: Seq<u8>, recipient: Seq<u8>, payload: Seq<u8>)
    requires
        usize::MAX == u64::MAX,
        payload.len() <= 1024 * 1024 * 1024 * 1024,
        forall|i: int|
            !#[trigger] outsize_in(
                crate::writing::as_written((0x6B, 0x65), 31, crate::keys::ed25519_public(seed), 0x67),
                i,
            ),
        forall|i: int| !#[trigger] outsize_in(crate::writing::as_written((0x6B, 0x78), 31, recipient, 0x29), i),
        forall|i: int|
            !#[trigger] outsize_in(crate::writing::as_written((0x76, 0x72), payload.len() * 8, payload, 0x29), i),
    ensures
        sendable(seed, recipient, payload),
{
    crate::writing::law_longest();
    let size = crate::writing::room(payload.len());
    let sender = crate::writing::as_written((0x6B, 0x65), 31, crate::keys::ed25519_public(seed), 0x67);
    if !crate::writing::tame((0x6B, 0x65), 31, crate::keys::ed25519_public(seed), 0x67, size) {
        crate::writing::law_what_cannot_be_written((0x6B, 0x65), 31, crate::keys::ed25519_public(seed), 0x67, size);
        let i = choose|i: int| 0 <= i < sender.len() - 8 && #[trigger] sender[i] == 0x67 && sender[i + 2] == 0x36 && sender[i
            + 3] == 0xFF;
        assert(outsize_in(sender, i));
    }
    let peer = crate::writing::as_written((0x6B, 0x78), 31, recipient, 0x29);
    if !crate::writing::tame((0x6B, 0x78), 31, recipient, 0x29, size) {
        crate::writing::law_what_cannot_be_written((0x6B, 0x78), 31, recipient, 0x29, size);
        let i = choose|i: int| 0 <= i < peer.len() - 8 && #[trigger] peer[i] == 0x67 && peer[i + 2] == 0x36 && peer[i + 3]
            == 0xFF;
        assert(outsize_in(peer, i));
    }
    let bytes = crate::writing::as_written((0x76, 0x72), payload.len() * 8, payload, 0x29);
    if !crate::writing::tame((0x76, 0x72), payload.len() * 8, payload, 0x29, size) {
        crate::writing::law_what_cannot_be_written((0x76, 0x72), payload.len() * 8, payload, 0x29, size);
        let i = choose|i: int| 0 <= i < bytes.len() - 8 && #[trigger] bytes[i] == 0x67 && bytes[i + 2] == 0x36 && bytes[i + 3]
            == 0xFF;
        assert(outsize_in(bytes, i));
    }
}

/// A `g` at `i`, another byte, a `6` and a byte of ones.
pub open spec fn outsize_in(w: Seq<u8>, i: int) -> bool {
    0 <= i < w.len() - 8 && w[i] == 0x67 && w[i + 2] == 0x36 && w[i + 3] == 0xFF
}

/// What is let out is an envelope of the relay's builder, for this very sender, recipient, service and
/// payload.
pub proof fn law_only_envelopes_go_out(env: Seq<u8>, seed: Seq<u8>, recipient: Seq<u8>, svc: Seq<char>, payload: Seq<u8>)
    requires
        is_envelope(env, seed, recipient, svc, payload),
    ensures
        exists|time: i64|
            #[trigger] relay_envelope(seed, recipient, svc, payload, time) == Ok::<Seq<u8>, Seq<char>>(env),
{
    let time = choose|time: i64| envelope_of(seed, recipient, svc, payload, time) == Ok::<Seq<u8>, Seq<char>>(env);
    assert(relay_envelope(seed, recipient, svc, payload, time) == Ok::<Seq<u8>, Seq<char>>(env));
}

/// What arrives is what the relay's reader takes out of the bytes, wherever it can walk them.
pub proof fn law_what_arrives(bytes: Seq<u8>)
    ensures
        crate::framing::walkable(bytes) ==> peeled(bytes) == relay_peeled(bytes),
        peeled(bytes) is Some ==> peeled(bytes) == relay_peeled(bytes),
{
}

/// A result's bytes are its bytes, and its words its words.
pub proof fn law_bytes_or_words(bytes: Vec<u8>, text: String)
    ensures
        bytes_or_text(Ok(bytes)) == Ok::<Seq<u8>, Seq<char>>(bytes@),
        bytes_or_text(Err(text)) == Err::<Seq<u8>, Seq<char>>(text@),
{
}

/// A recipient whose key holds a `g`, the letter of a signature, a `6` and eight bytes of a length that
/// overflows beside the envelope is sent none; and no payload is sent that is longer than a document may be.
pub proof fn law_what_is_not_sent(seed: Seq<u8>, recipient: Seq<u8>, payload: Seq<u8>, at: int)
    ensures
        payload.len() > crate::writing::longest() ==> !sendable(seed, recipient, payload),
        0 <= at && at + 11 <= recipient.len() && recipient[at] == 0x67 && recipient[at + 1] == 0x65 && recipient[at + 2] == 0x36
            && crate::framing::big_endian(recipient, at + 3, 8) <= usize::MAX && crate::framing::big_endian(
            recipient,
            at + 3,
            8,
        ) + 1 + payload.len() + 8192 > usize::MAX ==> !sendable(seed, recipient, payload),
{
    if 0 <= at && at + 11 <= recipient.len() && recipient[at] == 0x67 && recipient[at + 1] == 0x65 && recipient[at + 2] == 0x36
        && crate::framing::big_endian(recipient, at + 3, 8) <= usize::MAX && crate::framing::big_endian(recipient, at + 3, 8) + 1
        + payload.len() + 8192 > usize::MAX {
        crate::writing::law_outsize_signature_is_not_written(
            (0x6B, 0x78),
            31,
            recipient,
            0x29,
            crate::writing::room(payload.len()),
            at,
        );
    }
}

} // verus!
