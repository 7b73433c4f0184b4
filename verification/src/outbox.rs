//! What waits to go up the pipe, and how a frame gets there.
use crate::envelope::{seal_envelope, SVC_RUSTDESK};
use crate::frame::{encode_frame, RdFrame};
use crate::keys::DeviceKey;
use vstd::prelude::*;

verus! {

/// The envelopes that wait for the pipe's writer, oldest first. `open` says that the writer is
/// still there to take them.
pub struct Outbox {
    pub open: bool,
    pub queue: Vec<Vec<u8>>,
}

/// Why a frame did not get onto the pipe.
#[derive(Debug, Clone)]
pub enum PipeError {
    /// The envelope could not be built.
    Envelope(String),
    /// Nobody takes envelopes any more.
    WriterGone,
}

impl PipeError {
    pub open spec fn text(&self) -> Seq<char> {
        match self {
            PipeError::Envelope(reason) => "relay envelope: "@ + reason@,
            PipeError::WriterGone => "pipe writer gone"@,
        }
    }

    /// The error in words.
    pub fn message(&self) -> (r: String)
        ensures
            r@ == self.text(),
    {
        match self {
            PipeError::Envelope(reason) => {
                let mut out = "relay envelope: ".to_owned();
                out.append(reason.as_str());
                out
            },
            PipeError::WriterGone => "pipe writer gone".to_owned(),
        }
    }
}

/// `env` brings `frame` from the device with `key` to `peer`: it is an envelope of this service
/// to `peer` with the frame's bytes inside, and it peels to the sender and those bytes.
pub open spec fn brings(env: Seq<u8>, key: DeviceKey, peer: Seq<u8>, wire: Seq<u8>) -> bool {
    &&& crate::envelope::is_envelope(env, key.seed@, peer, SVC_RUSTDESK@, wire)
    &&& crate::envelope::peeled(env) == Some((crate::keys::ed25519_public(key.seed@), wire))
}

/// Building the envelope for `wire` to `peer` failed at some moment with this text.
pub open spec fn refused(text: Seq<char>, key: DeviceKey, peer: Seq<u8>, wire: Seq<u8>) -> bool {
    exists|time: i64|
        crate::envelope::envelope_of(key.seed@, peer, SVC_RUSTDESK@, wire, time) == Err::<Seq<u8>, Seq<char>>(text)
}

/// Seal one frame to `peer` and queue it for the pipe.
pub fn send_frame(key: &DeviceKey, outbox: &mut Outbox, peer: &[u8; 32], frame: &RdFrame) -> (r: Result<(), PipeError>)
    ensures
        final(outbox).open == old(outbox).open,
        match r {
            Ok(()) => {
                &&& old(outbox).open
                &&& final(outbox).queue@.len() == old(outbox).queue@.len() + 1
                &&& final(outbox).queue@.drop_last() == old(outbox).queue@
                &&& brings(final(outbox).queue@.last()@, *key, peer@, frame.wire())
            },
            Err(PipeError::Envelope(text)) => {
                &&& final(outbox).queue@ == old(outbox).queue@
                &&& refused(text@, *key, peer@, frame.wire())
            },
            Err(PipeError::WriterGone) => !old(outbox).open && final(outbox).queue@ == old(outbox).queue@,
        },
{
    let wire = encode_frame(frame);
    match seal_envelope(key, peer, wire.as_slice()) {
        Ok(env) => {
            if !outbox.open {
                return Err(PipeError::WriterGone);
            }
            outbox.queue.push(env);
            assert(outbox.queue@.drop_last() == old(outbox).queue@);
            Ok(())
        },
        Err(text) => Err(PipeError::Envelope(text)),
    }
}

/// A frame with the bytes `wire` was queued for `peer`; or it was given up and the queue is as
/// before, because nobody takes envelopes or its envelope could not be built.
pub open spec fn attempted(before: Outbox, after: Outbox, key: DeviceKey, peer: Seq<u8>, wire: Seq<u8>) -> bool {
    &&& after.open == before.open
    &&& {
        ||| {
            &&& before.open
            &&& after.queue@.len() == before.queue@.len() + 1
            &&& after.queue@.drop_last() == before.queue@
            &&& brings(after.queue@.last()@, key, peer, wire)
        }
        ||| {
            &&& after.queue@ == before.queue@
            &&& !before.open || exists|text: Seq<char>| #[trigger] refused(text, key, peer, wire)
        }
    }
}

/// Seal one frame to `peer` and queue it for the pipe, or give it up.
pub fn try_send(key: &DeviceKey, outbox: &mut Outbox, peer: &[u8; 32], frame: &RdFrame)
    ensures
        attempted(*old(outbox), *final(outbox), *key, peer@, frame.wire()),
{
    let sent = send_frame(key, outbox, peer, frame);
    proof {
        if let Err(PipeError::Envelope(text)) = sent {
            assert(refused(text@, *key, peer@, frame.wire()));
        }
    }
}

// ── what is queued ──

/// An envelope that brings a frame is one that the relay's builder made of the frame's bytes for the peer
/// and for this service, and its reader gives back the sender's key and those bytes.
pub proof fn law_what_is_brought(env: Seq<u8>, key: DeviceKey, peer: Seq<u8>, wire: Seq<u8>)
    requires
        brings(env, key, peer, wire),
    ensures
        exists|time: i64|
            #[trigger] crate::envelope::relay_envelope(key.seed@, peer, "rd"@, wire, time) == Ok::<Seq<u8>, Seq<char>>(env),
        crate::envelope::relay_peeled(env) == Some((crate::keys::ed25519_public(key.seed@), wire)),
{
    crate::envelope::law_only_envelopes_go_out(env, key.seed@, peer, "rd"@, wire);
    crate::envelope::law_what_arrives(env);
}

/// A frame is refused with the builder's own text, or because its lengths are out of range.
pub proof fn law_what_is_refused(text: Seq<char>, key: DeviceKey, peer: Seq<u8>, wire: Seq<u8>)
    requires
        refused(text, key, peer, wire),
    ensures
        text == "lengths out of range"@ || exists|time: i64|
            #[trigger] crate::envelope::relay_envelope(key.seed@, peer, "rd"@, wire, time) == Err::<Seq<u8>, Seq<char>>(text),
{
    let time = choose|time: i64|
        crate::envelope::envelope_of(key.seed@, peer, SVC_RUSTDESK@, wire, time) == Err::<Seq<u8>, Seq<char>>(text);
    if text != "lengths out of range"@ {
        assert(crate::envelope::relay_envelope(key.seed@, peer, "rd"@, wire, time) == Err::<Seq<u8>, Seq<char>>(text));
    }
}

/// An attempt adds one envelope behind those that wait, which brings the frame, or adds nothing; where
/// nobody takes envelopes it adds nothing, and where somebody does it adds nothing only if the frame is
/// refused. It never changes whether somebody does.
pub proof fn law_an_attempt(before: Outbox, after: Outbox, key: DeviceKey, peer: Seq<u8>, wire: Seq<u8>)
    requires
        attempted(before, after, key, peer, wire),
    ensures
        after.open == before.open,
        !before.open ==> after.queue@ == before.queue@,
        before.queue@.len() <= after.queue@.len() <= before.queue@.len() + 1,
        after.queue@.take(before.queue@.len() as int) == before.queue@,
        after.queue@.len() == before.queue@.len() + 1 ==> brings(
            after.queue@[before.queue@.len() as int]@,
            key,
            peer,
            wire,
        ),
        before.open && after.queue@.len() == before.queue@.len() ==> exists|text: Seq<char>| #[trigger]
            refused(text, key, peer, wire),
{
    if after.queue@.len() == before.queue@.len() + 1 {
        assert(after.queue@.take(before.queue@.len() as int) == after.queue@.drop_last());
    } else {
        assert(after.queue@.take(before.queue@.len() as int) == before.queue@);
    }
}

/// The errors in words.
pub proof fn law_errors_in_words(reason: String)
    ensures
        PipeError::Envelope(reason).text() == "relay envelope: "@ + reason@,
        PipeError::WriterGone.text() == "pipe writer gone"@,
{
}

} // verus!
