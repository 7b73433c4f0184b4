//! The relay pipe of one process: where it leads, which streams it feeds, and how it keeps
//! itself alive.
use crate::envelope::{open_envelope, SVC_RUSTDESK};
use crate::frame::{decode_frame, ConnId, RdFrame, RD_FLAG_SYN};
use crate::keys::{blake3_of, DeviceKey};
use crate::outbox::{try_send, Outbox};
use crate::stream::RelayStream;
use crate::text::{same_text, trim_leading, trim_trailing};
use std::collections::{HashMap, VecDeque};
use vstd::bytes::{u128_from_le_bytes, u64_to_le_bytes};
use vstd::prelude::*;

verus! {

broadcast use vstd::std_specs::hash::group_hash_axioms;

// ── where the pipe leads ──

/// The fleet server when no other is configured.
pub const FGTW_URL_DEFAULT: &'static str = "https://fgtw.org";

/// The fleet server's address: the configured one, or the default when none is.
pub fn fgtw_url(option: &str) -> (r: String)
    ensures
        r@ == (if option@.len() == 0 { FGTW_URL_DEFAULT@ } else { option@ }),
{
    if option.is_empty() {
        FGTW_URL_DEFAULT.to_owned()
    } else {
        option.to_owned()
    }
}

/// The host part of the server's address: no scheme in front, no slash behind.
pub open spec fn host_of(url: Seq<char>) -> Seq<char> {
    crate::text::without_trailing(
        crate::text::without_leading(crate::text::without_leading(url, "https://"@), "http://"@),
        '/',
    )
}

/// The host to dial, from the server's address.
pub fn seed_host(url: &str) -> (r: String)
    ensures
        r@ == host_of(url@),
{
    proof {
        reveal_strlit("https://");
        reveal_strlit("http://");
    }
    let a = trim_leading(url, "https://");
    let b = trim_leading(a.as_str(), "http://");
    trim_trailing(b.as_str(), '/')
}

/// The address of a device's receive socket for a service.
pub open spec fn socket_address(host: Seq<char>, device: Seq<u8>, svc: Seq<char>) -> Seq<char> {
    "wss://"@ + host + "/pipe?dev="@ + crate::text::hex(device) + "&svc="@ + svc
}

/// `fgtw::pipe::pipe_url` with a service tag: the host, the device key in lower-case hexadecimal
/// and the tag, in the form of [`socket_address`].
#[verifier::external_body]
fn socket_url(host: &str, device: &[u8; 32], svc: &str) -> (r: String)
    ensures
        r@ == socket_address(host@, device@, svc@),
{
    fgtw::pipe::pipe_url(host, device, Some(svc))
}

/// The address that the pipe of the device `device` connects to, from the server's address.
pub fn pump_url(url: &str, device: &[u8; 32]) -> (r: String)
    ensures
        r@ == socket_address(host_of(url@), device@, SVC_RUSTDESK@),
{
    let host = seed_host(url);
    socket_url(host.as_str(), device, SVC_RUSTDESK)
}

// ── connection identifiers ──

/// `vsf::eagle_time_oscillations`: the present moment. Nothing is promised of it.
#[verifier::external_body]
pub(crate) fn eagle_time() -> (r: i64)
{
    vsf::eagle_time_oscillations()
}

/// What a connection identifier is the hash of.
pub open spec fn conn_preimage(peer: Seq<u8>, salt: u64, time: u64) -> Seq<u8> {
    peer + vstd::bytes::spec_u64_to_le_bytes(salt) + vstd::bytes::spec_u64_to_le_bytes(time)
}

/// The identifier of a connection to `peer`, the `salt`th of this process, opened at `time`.
pub fn conn_id_at(peer: &[u8; 32], salt: u64, time: u64) -> (r: ConnId)
    ensures
        r@ == crate::keys::blake3_hash(conn_preimage(peer@, salt, time)).take(16),
{
    let mut input: Vec<u8> = Vec::new();
    input.extend_from_slice(peer);
    let a = u64_to_le_bytes(salt);
    input.extend_from_slice(a.as_slice());
    let b = u64_to_le_bytes(time);
    input.extend_from_slice(b.as_slice());
    assert(input@ == conn_preimage(peer@, salt, time));
    let digest = blake3_of(input.as_slice());
    let mut id: ConnId = [0u8; 16];
    let mut i: usize = 0;
    while i < 16
        invariant
            i <= 16,
            forall|j: int| 0 <= j < i ==> id@[j] == digest@[j],
        decreases 16 - i,
    {
        id[i] = digest[i];
        i = i + 1;
    }
    assert(id@ == digest@.take(16));
    id
}

/// Two dials of one process never hash the same bytes, whoever they go to and whenever they
/// happen.
pub proof fn law_dials_differ(peer_a: Seq<u8>, peer_b: Seq<u8>, salt_a: u64, salt_b: u64, time_a: u64, time_b: u64)
    requires
        peer_a.len() == 32,
        peer_b.len() == 32,
        salt_a != salt_b || peer_a != peer_b,
    ensures
        conn_preimage(peer_a, salt_a, time_a) != conn_preimage(peer_b, salt_b, time_b),
{
    vstd::bytes::lemma_auto_spec_u64_to_from_le_bytes();
    let a = conn_preimage(peer_a, salt_a, time_a);
    let b = conn_preimage(peer_b, salt_b, time_b);
    assert(a.subrange(0, 32) == peer_a);
    assert(b.subrange(0, 32) == peer_b);
    assert(a.subrange(32, 40) == vstd::bytes::spec_u64_to_le_bytes(salt_a));
    assert(b.subrange(32, 40) == vstd::bytes::spec_u64_to_le_bytes(salt_b));
    assert(vstd::bytes::spec_u64_from_le_bytes(a.subrange(32, 40)) == salt_a);
    assert(vstd::bytes::spec_u64_from_le_bytes(b.subrange(32, 40)) == salt_b);
}

// ── which stream a frame goes to ──

/// Two connections have two numbers.
proof fn lemma_numbers_differ(a: Seq<u8>, b: Seq<u8>)
    requires
        a.len() == 16,
        b.len() == 16,
        a != b,
    ensures
        vstd::bytes::spec_u128_from_le_bytes(a) != vstd::bytes::spec_u128_from_le_bytes(b),
{
    vstd::bytes::lemma_auto_spec_u128_to_from_le_bytes();
    assert(vstd::bytes::spec_u128_to_le_bytes(vstd::bytes::spec_u128_from_le_bytes(a)) == a);
    assert(vstd::bytes::spec_u128_to_le_bytes(vstd::bytes::spec_u128_from_le_bytes(b)) == b);
}

/// What became of an inbound frame.
pub enum Routed {
    /// It went nowhere.
    Dropped,
    /// It waits on a live connection.
    Delivered,
    /// It opened a connection from this peer.
    Accepted(RelayStream, [u8; 32]),
}

/// Routes inbound frames to the right stream and surfaces new connections. A live connection is
/// kept under the number that its identifier spells, with the frames that arrived for it and wait to
/// be read, oldest first.
pub struct Router {
    live: HashMap<u128, VecDeque<RdFrame>>,
    accepting: bool,
}

impl Router {
    /// The frames that wait on connection `conn`, if it is live.
    pub closed spec fn inbox_of(&self, conn: Seq<u8>) -> Option<Seq<RdFrame>> {
        let number = vstd::bytes::spec_u128_from_le_bytes(conn);
        if conn.len() == 16 && self.live@.contains_key(number) {
            Some(self.live@[number]@)
        } else {
            None
        }
    }

    /// Peers may open connections to this process.
    pub closed spec fn is_accepting(&self) -> bool {
        self.accepting
    }

    /// A router without streams that accepts nobody.
    pub fn new() -> (r: Self)
        ensures
            !r.is_accepting(),
            forall|c: Seq<u8>| #[trigger] r.inbox_of(c) is None,
    {
        Router { live: HashMap::new(), accepting: false }
    }

    /// Forget connection `conn`, and hand out what waited on it.
    fn take_out(&mut self, conn: &ConnId) -> (r: Option<VecDeque<RdFrame>>)
        ensures
            final(self).is_accepting() == old(self).is_accepting(),
            match r {
                Some(frames) => old(self).inbox_of(conn@) == Some(frames@),
                None => old(self).inbox_of(conn@) is None,
            },
            final(self).inbox_of(conn@) is None,
            forall|c: Seq<u8>| c != conn@ ==> #[trigger] final(self).inbox_of(c) == old(self).inbox_of(c),
    {
        let number: u128 = u128_from_le_bytes(conn.as_slice());
        let r = self.live.remove(&number);
        proof {
            assert forall|c: Seq<u8>| c != conn@ implies #[trigger] self.inbox_of(c) == old(self).inbox_of(c) by {
                if c.len() == 16 {
                    lemma_numbers_differ(c, conn@);
                }
            }
        }
        r
    }

    /// List connection `conn` with the frames of `inbox` waiting, in place of an earlier entry.
    fn put(&mut self, conn: ConnId, inbox: VecDeque<RdFrame>)
        ensures
            final(self).is_accepting() == old(self).is_accepting(),
            final(self).inbox_of(conn@) == Some(inbox@),
            forall|c: Seq<u8>| c != conn@ ==> #[trigger] final(self).inbox_of(c) == old(self).inbox_of(c),
    {
        let number: u128 = u128_from_le_bytes(conn.as_slice());
        let _ = self.live.insert(number, inbox);
        proof {
            assert forall|c: Seq<u8>| c != conn@ implies #[trigger] self.inbox_of(c) == old(self).inbox_of(c) by {
                if c.len() == 16 {
                    lemma_numbers_differ(c, conn@);
                }
            }
        }
    }

    /// Forget connection `conn`.
    pub fn unregister(&mut self, conn: &ConnId)
        ensures
            final(self).is_accepting() == old(self).is_accepting(),
            final(self).inbox_of(conn@) is None,
            forall|c: Seq<u8>| c != conn@ ==> #[trigger] final(self).inbox_of(c) == old(self).inbox_of(c),
    {
        let _ = self.take_out(conn);
    }

    /// Make connection `conn` live, with nothing waiting.
    pub fn register(&mut self, conn: ConnId)
        ensures
            final(self).is_accepting() == old(self).is_accepting(),
            final(self).inbox_of(conn@) == Some(Seq::<RdFrame>::empty()),
            forall|c: Seq<u8>| c != conn@ ==> #[trigger] final(self).inbox_of(c) == old(self).inbox_of(c),
    {
        self.put(conn, VecDeque::new());
    }

    /// Let peers open connections from now on.
    pub fn accept(&mut self)
        ensures
            final(self).is_accepting(),
            forall|c: Seq<u8>| #[trigger] final(self).inbox_of(c) == old(self).inbox_of(c),
    {
        self.accepting = true;
    }

    /// Take everything that waits on connection `conn`. `None` when it is not live.
    pub fn take_waiting(&mut self, conn: &ConnId) -> (r: Option<VecDeque<RdFrame>>)
        ensures
            final(self).is_accepting() == old(self).is_accepting(),
            match r {
                Some(frames) => old(self).inbox_of(conn@) == Some(frames@) && final(self).inbox_of(conn@) == Some(
                    Seq::<RdFrame>::empty(),
                ),
                None => old(self).inbox_of(conn@) is None && final(self).inbox_of(conn@) is None,
            },
            forall|c: Seq<u8>| c != conn@ ==> #[trigger] final(self).inbox_of(c) == old(self).inbox_of(c),
    {
        match self.take_out(conn) {
            Some(frames) => {
                self.put(*conn, VecDeque::new());
                Some(frames)
            },
            None => None,
        }
    }

    /// Hand one frame from `sender` to its stream: to the live connection it names; or, when it
    /// opens one and this process accepts and is ready to answer, to a new stream. Anything else
    /// is a straggler and goes nowhere.
    pub fn route_frame(&mut self, sender: [u8; 32], frame: RdFrame, ready: bool) -> (r: Routed)
        ensures
            final(self).is_accepting() == old(self).is_accepting(),
            forall|c: Seq<u8>| c != frame.conn@ ==> #[trigger] final(self).inbox_of(c) == old(self).inbox_of(c),
            match old(self).inbox_of(frame.conn@) {
                Some(frames) => r is Delivered && final(self).inbox_of(frame.conn@) == Some(frames.push(frame)),
                None => if frame.is_syn() && old(self).is_accepting() && ready {
                    &&& r matches Routed::Accepted(stream, peer)
                    &&& peer == sender
                    &&& stream.is_fresh(sender@, frame.conn, 0)
                    &&& final(self).inbox_of(frame.conn@) == Some(seq![frame])
                } else {
                    r is Dropped && final(self).inbox_of(frame.conn@) is None
                },
            },
    {
        let conn = frame.conn;
        match self.take_out(&conn) {
            Some(mut frames) => {
                frames.push_back(frame);
                self.put(conn, frames);
                Routed::Delivered
            },
            None => {
                if frame.flags & RD_FLAG_SYN != 0 && self.accepting && ready {
                    let mut frames: VecDeque<RdFrame> = VecDeque::new();
                    frames.push_back(frame);
                    assert(frames@ == seq![frame]);
                    self.put(conn, frames);
                    Routed::Accepted(RelayStream::new(sender, conn, 0), sender)
                } else {
                    Routed::Dropped
                }
            },
        }
    }

    /// Peel one inbound envelope and hand its frame to the right stream. Bytes that do not verify
    /// or hold no frame are dropped.
    pub fn route_inbound(&mut self, data: &[u8], ready: bool) -> (r: Routed)
        ensures
            final(self).is_accepting() == old(self).is_accepting(),
            match crate::envelope::peeled(data@) {
                None => r is Dropped && forall|c: Seq<u8>| #[trigger] final(self).inbox_of(c) == old(self).inbox_of(c),
                Some((sender, inner)) => {
                    ||| {
                        &&& forall|f: RdFrame| #[trigger] f.wire() != inner
                        &&& r is Dropped
                        &&& forall|c: Seq<u8>| #[trigger] final(self).inbox_of(c) == old(self).inbox_of(c)
                    }
                    ||| exists|f: RdFrame| #[trigger]
                        f.wire() == inner && old(self).routes(*final(self), sender, f, ready, r)
                },
            },
    {
        match open_envelope(data) {
            Some((sender, inner)) => match decode_frame(inner.as_slice()) {
                Some(frame) => {
                    let ghost f = frame;
                    let ghost before = *self;
                    let r = self.route_frame(sender, frame, ready);
                    assert(before.routes(*self, sender@, f, ready, r));
                    assert(f.wire() == inner@);
                    r
                },
                None => Routed::Dropped,
            },
            None => Routed::Dropped,
        }
    }

    /// `after` and `r` are what routing `frame` from `sender` makes of this router.
    pub open spec fn routes(self, after: Router, sender: Seq<u8>, frame: RdFrame, ready: bool, r: Routed) -> bool {
        &&& forall|c: Seq<u8>| c != frame.conn@ ==> #[trigger] after.inbox_of(c) == self.inbox_of(c)
        &&& match self.inbox_of(frame.conn@) {
            Some(frames) => r is Delivered && after.inbox_of(frame.conn@) == Some(frames.push(frame)),
            None => if frame.is_syn() && self.is_accepting() && ready {
                &&& r matches Routed::Accepted(stream, peer)
                &&& peer@ == sender
                &&& stream.is_fresh(sender, frame.conn, 0)
                &&& after.inbox_of(frame.conn@) == Some(seq![frame])
            } else {
                r is Dropped && after.inbox_of(frame.conn@) is None
            },
        }
    }
}

// ── the client ──

/// The live pipe of one process.
pub struct PipeClient {
    pub key: DeviceKey,
    pub outbox: Outbox,
    pub router: Router,
    /// How many connections this process has opened, modulo 2^64.
    pub salt: u64,
}

/// `conn` is the identifier of a connection to `peer`, the `salt`th, opened at some moment.
pub open spec fn is_dial(conn: Seq<u8>, peer: Seq<u8>, salt: u64) -> bool {
    exists|time: u64| conn == crate::keys::blake3_hash(#[trigger] conn_preimage(peer, salt, time)).take(16)
}

impl PipeClient {
    /// A pipe for the device with `key`, with an empty queue and no streams.
    pub fn connect(key: DeviceKey) -> (r: Self)
        ensures
            r.key == key,
            r.salt == 0,
            r.outbox.open,
            r.outbox.queue@.len() == 0,
            !r.router.is_accepting(),
            forall|c: Seq<u8>| #[trigger] r.router.inbox_of(c) is None,
    {
        PipeClient { key, outbox: Outbox { open: true, queue: Vec::new() }, router: Router::new(), salt: 0 }
    }

    /// Open a stream to a peer device. The opening frame leaves at once, so that the peer learns
    /// of the connection before it is asked to read; the stream's own frames follow it.
    pub fn open(&mut self, peer: [u8; 32]) -> (r: RelayStream)
        ensures
            final(self).key == old(self).key,
            final(self).salt == (if old(self).salt == u64::MAX { 0 } else { (old(self).salt + 1) as u64 }),
            is_dial(r.conn_id()@, peer@, old(self).salt),
            r.is_fresh(peer@, r.conn_id(), 1),
            final(self).router.is_accepting() == old(self).router.is_accepting(),
            final(self).router.inbox_of(r.conn_id()@) == Some(Seq::<RdFrame>::empty()),
            forall|c: Seq<u8>|
                c != r.conn_id()@ ==> #[trigger] final(self).router.inbox_of(c) == old(self).router.inbox_of(c),
            crate::outbox::attempted(
                old(self).outbox,
                final(self).outbox,
                old(self).key,
                peer@,
                crate::frame::frame_bytes(r.conn_id()@, 0, RD_FLAG_SYN, Seq::empty()),
            ),
    {
        let salt: u64 = self.salt;
        self.salt = if salt == u64::MAX { 0 } else { salt + 1 };
        let time: u64 = eagle_time() as u64;
        let conn = conn_id_at(&peer, salt, time);
        assert(is_dial(conn@, peer@, salt)) by {
            assert(conn@ == crate::keys::blake3_hash(conn_preimage(peer@, salt, time)).take(16));
        }
        self.router.register(conn);
        let syn = RdFrame { conn, seq: 0, flags: RD_FLAG_SYN, data: Vec::new() };
        assert(syn.data@ == Seq::<u8>::empty());
        try_send(&self.key, &mut self.outbox, &peer, &syn);
        RelayStream::new(peer, conn, 1)
    }

    /// Let peers open connections to this process from now on.
    pub fn accept_channel(&mut self)
        ensures
            final(self).router.is_accepting(),
            forall|c: Seq<u8>| #[trigger] final(self).router.inbox_of(c) == old(self).router.inbox_of(c),
            final(self).key == old(self).key,
            final(self).outbox == old(self).outbox,
            final(self).salt == old(self).salt,
    {
        self.router.accept();
    }
}

// ── keeping the socket alive ──

/// Seconds between two keepalive pings.
pub const KEEPALIVE_SECS: u64 = 20;

/// The longest wait between two attempts to connect, in seconds.
pub const BACKOFF_MAX: u64 = 30;

/// What happens to the pipe's socket.
pub enum PumpEvent {
    /// The socket is up.
    Connected,
    /// It could not be brought up.
    ConnectFailed,
    /// An envelope wants to leave.
    Outgoing(Vec<u8>),
    /// Nobody will send anything any more.
    ClientGone,
    /// What was to be sent is sent.
    SendDone,
    /// It could not be sent.
    SendFailed,
    /// A binary message arrived.
    Binary(Vec<u8>),
    /// A message of another kind arrived.
    OtherMessage,
    /// Receiving failed, or the other end closed the socket.
    Disconnected,
    /// It is time for a keepalive.
    Tick,
    /// The wait is over.
    Waited,
}

/// What the pipe does next.
pub enum PumpAction {
    Connect,
    Listen,
    Send(Vec<u8>),
    Route(Vec<u8>),
    Ping,
    Wait(u64),
    Stop,
}

/// How long the pipe will wait before its next attempt to connect, in seconds.
pub struct Pump {
    pub backoff: u64,
}

/// The wait that follows a wait of `secs`: twice as long, up to the bound.
pub open spec fn longer(secs: u64) -> u64 {
    if secs * 2 < BACKOFF_MAX {
        (secs * 2) as u64
    } else {
        BACKOFF_MAX
    }
}

impl Pump {
    /// The wait is between one second and the bound.
    pub open spec fn wf(&self) -> bool {
        1 <= self.backoff <= BACKOFF_MAX
    }

    pub fn new() -> (r: Self)
        ensures
            r.wf(),
            r.backoff == 1,
    {
        Pump { backoff: 1 }
    }

    /// Wait before the next attempt, and twice as long before the one after it.
    fn wait(&mut self) -> (r: PumpAction)
        requires
            old(self).wf(),
        ensures
            final(self).wf(),
            r == PumpAction::Wait(old(self).backoff),
            final(self).backoff == longer(old(self).backoff),
    {
        let secs: u64 = self.backoff;
        self.backoff = if secs * 2 < BACKOFF_MAX { secs * 2 } else { BACKOFF_MAX };
        PumpAction::Wait(secs)
    }

    /// What to do about `event`. A socket that came up resets the wait; one that went down or did
    /// not come up is tried again after the wait.
    pub fn step(&mut self, event: PumpEvent) -> (r: PumpAction)
        requires
            old(self).wf(),
        ensures
            final(self).wf(),
            match event {
                PumpEvent::Connected => r == PumpAction::Listen && final(self).backoff == 1,
                PumpEvent::ConnectFailed | PumpEvent::SendFailed | PumpEvent::Disconnected => {
                    &&& r == PumpAction::Wait(old(self).backoff)
                    &&& final(self).backoff == longer(old(self).backoff)
                },
                PumpEvent::Outgoing(bytes) => r == PumpAction::Send(bytes) && final(self).backoff == old(self).backoff,
                PumpEvent::ClientGone => r == PumpAction::Stop && final(self).backoff == old(self).backoff,
                PumpEvent::SendDone | PumpEvent::OtherMessage => r == PumpAction::Listen && final(self).backoff == old(
                    self,
                ).backoff,
                PumpEvent::Binary(bytes) => r == PumpAction::Route(bytes) && final(self).backoff == old(self).backoff,
                PumpEvent::Tick => r == PumpAction::Ping && final(self).backoff == old(self).backoff,
                PumpEvent::Waited => r == PumpAction::Connect && final(self).backoff == old(self).backoff,
            },
    {
        match event {
            PumpEvent::Connected => {
                self.backoff = 1;
                PumpAction::Listen
            },
            PumpEvent::ConnectFailed => self.wait(),
            PumpEvent::SendFailed => self.wait(),
            PumpEvent::Disconnected => self.wait(),
            PumpEvent::Outgoing(bytes) => PumpAction::Send(bytes),
            PumpEvent::ClientGone => PumpAction::Stop,
            PumpEvent::SendDone => PumpAction::Listen,
            PumpEvent::OtherMessage => PumpAction::Listen,
            PumpEvent::Binary(bytes) => PumpAction::Route(bytes),
            PumpEvent::Tick => PumpAction::Ping,
            PumpEvent::Waited => PumpAction::Connect,
        }
    }
}

/// The wait after `n` failures in a row that follow a success.
pub open spec fn wait_after(n: nat) -> u64
    decreases n,
{
    if n == 0 {
        1
    } else {
        longer(wait_after((n - 1) as nat))
    }
}

/// However often connecting fails, the wait stays within its bounds and never gets shorter; from
/// the fifth failure on it is the bound.
pub proof fn law_backoff(n: nat)
    ensures
        1 <= wait_after(n) <= BACKOFF_MAX,
        wait_after(n) <= wait_after(n + 1),
        n >= 5 ==> wait_after(n) == BACKOFF_MAX,
    decreases n,
{
    if n > 0 {
        law_backoff((n - 1) as nat);
    }
    reveal_with_fuel(wait_after, 7);
}

// ── the seams to the remote desktop service ──

/// The key that the pipe is opened with: a machine that is not enrolled has none.
pub fn client_key(enrolled: bool, key: Result<DeviceKey, String>) -> (r: Result<DeviceKey, String>)
    ensures
        !enrolled ==> (r matches Err(text) && text@ == "not enrolled"@),
        enrolled ==> r == key,
{
    if enrolled {
        key
    } else {
        Err("not enrolled".to_owned())
    }
}

/// The fleet-native path is tried: this machine is enrolled and the option does not forbid it.
pub fn enabled(enrolled: bool, option: &str) -> (r: bool)
    ensures
        r == (enrolled && option@ != "N"@),
{
    enrolled && !same_text(option, "N")
}

/// A failure of the fleet-native path is final rather than a reason to fall back.
pub fn native_only(option: &str) -> (r: bool)
    ensures
        r == (option@ == "Y"@),
{
    same_text(option, "Y")
}

/// The device to dial for a remote desktop id, or why there is none.
pub fn connect_target(peer_id: &str, device: Option<[u8; 32]>) -> (r: Result<[u8; 32], String>)
    ensures
        match device {
            Some(pk) => r == Ok::<[u8; 32], String>(pk),
            None => r matches Err(text) && text@ == peer_id@ + " is not a fleet peer with a published id"@,
        },
{
    match device {
        Some(pk) => Ok(pk),
        None => {
            let mut text = peer_id.to_owned();
            text.append(" is not a fleet peer with a published id");
            Err(text)
        },
    }
}

/// What the accepting side does next.
#[derive(Debug, Clone, Copy, PartialEq, Eq, Structural)]
pub enum ServerAction {
    /// Wait this many seconds, then look again.
    Wait(u64),
    /// Accept connections until the channel closes.
    Accept,
}

/// Accept when the fleet-native path is enabled and the pipe is there; else look again later.
pub fn fleet_server_step(enabled: bool, pipe_available: bool) -> (r: ServerAction)
    ensures
        r == (if !enabled {
            ServerAction::Wait(5)
        } else if !pipe_available {
            ServerAction::Wait(10)
        } else {
            ServerAction::Accept
        }),
{
    if !enabled {
        ServerAction::Wait(5)
    } else if !pipe_available {
        ServerAction::Wait(10)
    } else {
        ServerAction::Accept
    }
}

// ── addresses, identifiers and waits, in characters and numbers ──

proof fn lemma_no_scheme(text: Seq<char>, scheme: Seq<char>, i: int)
    requires
        0 <= i,
        i + 1 < scheme.len(),
        scheme[i] == '/' && scheme[i + 1] == '/',
        forall|k: int| 0 <= k < text.len() - 1 ==> #[trigger] text[k] != '/',
    ensures
        crate::text::without_leading(text, scheme) == text,
{
    if text.len() >= scheme.len() && text.subrange(0, scheme.len() as int) == scheme {
        assert(text.subrange(0, scheme.len() as int)[i] == text[i]);
    }
    crate::text::law_leading_is_taken_off(scheme, text);
}

/// The host to dial is the server's address without the scheme in front of it, be it repeated, and
/// without the slashes behind it.
pub proof fn law_host(host: Seq<char>)
    requires
        forall|i: int| 0 <= i < host.len() ==> #[trigger] host[i] != '/',
    ensures
        host_of(host) == host,
        host_of(host.push('/')) == host,
        host_of("https://"@ + host) == host,
        host_of("https://"@ + host.push('/')) == host,
        host_of("http://"@ + host) == host,
        host_of("http://"@ + host.push('/')) == host,
{
    reveal_strlit("https://");
    reveal_strlit("http://");
    let (tls, plain) = ("https://"@, "http://"@);
    assert(tls.len() == 8 && tls[6] == '/' && tls[7] == '/');
    assert(plain.len() == 7 && plain[5] == '/' && plain[6] == '/');
    assert(tls[4] == 's' && plain[4] == ':');
    let behind = host.push('/');
    assert forall|k: int| 0 <= k < behind.len() - 1 implies #[trigger] behind[k] != '/' by {
        assert(behind[k] == host[k]);
    }
    lemma_no_scheme(host, tls, 6);
    lemma_no_scheme(host, plain, 5);
    lemma_no_scheme(behind, tls, 6);
    lemma_no_scheme(behind, plain, 5);
    crate::text::law_leading_is_taken_off(tls, host);
    crate::text::law_leading_is_taken_off(tls, behind);
    crate::text::law_leading_is_taken_off(plain, host);
    crate::text::law_leading_is_taken_off(plain, behind);
    lemma_other_scheme(host, tls, plain);
    lemma_other_scheme(behind, tls, plain);
    crate::text::law_trailing_is_taken_off(host, '/');
    if host.len() > 0 {
        assert(host[host.len() - 1] != '/');
    }
}

proof fn lemma_other_scheme(text: Seq<char>, tls: Seq<char>, plain: Seq<char>)
    requires
        tls.len() == 8,
        plain.len() == 7,
        tls[4] != plain[4],
    ensures
        crate::text::without_leading(plain + text, tls) == plain + text,
{
    let all = plain + text;
    if all.len() >= 8 {
        assert(all.subrange(0, 8)[4] == plain[4]);
    }
    crate::text::law_leading_is_taken_off(tls, all);
}

/// What a connection identifier is the hash of: the peer's key, the number of the connection, and the
/// moment, the latter two in eight bytes each with the least significant one first.
pub proof fn law_dial_bytes(peer: Seq<u8>, salt: u64, time: u64)
    requires
        peer.len() == 32,
    ensures
        conn_preimage(peer, salt, time).len() == 48,
        conn_preimage(peer, salt, time).take(32) == peer,
        vstd::bytes::spec_u64_from_le_bytes(conn_preimage(peer, salt, time).subrange(32, 40)) == salt,
        vstd::bytes::spec_u64_from_le_bytes(conn_preimage(peer, salt, time).subrange(40, 48)) == time,
{
    vstd::bytes::lemma_auto_spec_u64_to_from_le_bytes();
    let all = conn_preimage(peer, salt, time);
    assert(all.take(32) == peer);
    assert(all.subrange(32, 40) == vstd::bytes::spec_u64_to_le_bytes(salt));
    assert(all.subrange(40, 48) == vstd::bytes::spec_u64_to_le_bytes(time));
}

/// A dialled connection's identifier is the first sixteen bytes of the hash for its peer, its number and
/// some moment.
pub proof fn law_dial(conn: Seq<u8>, peer: Seq<u8>, salt: u64)
    requires
        is_dial(conn, peer, salt),
    ensures
        exists|time: u64|
            conn == crate::keys::blake3_hash(
                peer + vstd::bytes::spec_u64_to_le_bytes(salt) + (#[trigger] vstd::bytes::spec_u64_to_le_bytes(time)),
            ).take(16),
{
    let time = choose|time: u64| conn == crate::keys::blake3_hash(#[trigger] conn_preimage(peer, salt, time)).take(16);
    let last = vstd::bytes::spec_u64_to_le_bytes(time);
    assert(conn == crate::keys::blake3_hash(peer + vstd::bytes::spec_u64_to_le_bytes(salt) + last).take(16));
}

/// A frame on a live connection goes behind those that wait there. One that opens a connection, its lowest
/// flag up, is accepted from its sender where this process accepts and is ready, and is the first that
/// waits. Any other goes nowhere. No other connection is touched.
pub proof fn law_routing(before: Router, after: Router, sender: Seq<u8>, frame: RdFrame, ready: bool, r: Routed, other: Seq<u8>)
    requires
        before.routes(after, sender, frame, ready, r),
    ensures
        other != frame.conn@ ==> after.inbox_of(other) == before.inbox_of(other),
        before.inbox_of(frame.conn@) matches Some(frames) ==> r is Delivered && after.inbox_of(frame.conn@) == Some(
            frames.push(frame),
        ),
        before.inbox_of(frame.conn@) is None && frame.flags % 2 == 1 && before.is_accepting() && ready ==> {
            &&& r is Accepted
            &&& r->Accepted_1@ == sender
            &&& r->Accepted_0.is_fresh(sender, frame.conn, 0)
            &&& after.inbox_of(frame.conn@) == Some(seq![frame])
        },
        before.inbox_of(frame.conn@) is None && !(frame.flags % 2 == 1 && before.is_accepting() && ready) ==> {
            &&& r is Dropped
            &&& after.inbox_of(frame.conn@) is None
        },
{
    crate::frame::law_flag_bits(frame);
}

/// The waits, in seconds, one after the other while connecting fails: 1, 2, 4, 8, 16, and 30 from there on.
pub proof fn law_waits(n: nat, secs: u64)
    ensures
        wait_after(0) == 1,
        wait_after(1) == 2,
        wait_after(2) == 4,
        wait_after(3) == 8,
        wait_after(4) == 16,
        n >= 5 ==> wait_after(n) == 30,
        secs < 15 ==> longer(secs) == 2 * secs,
        secs >= 15 ==> longer(secs) == 30,
        KEEPALIVE_SECS == 20,
        BACKOFF_MAX == 30,
        FGTW_URL_DEFAULT@ == "https://fgtw.org"@,
{
    reveal_with_fuel(wait_after, 7);
    law_backoff(n);
}

} // verus!
