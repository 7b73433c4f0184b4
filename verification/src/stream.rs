//! A logical byte stream over the relay pipe: writes are cut into numbered frames, and frames
//! that arrive in any order are put back into the order in which they were sent.
use crate::buffer::{buffer_extend, buffer_len, buffer_take, new_buffer};
use crate::frame::{ConnId, RdFrame, RD_FLAG_FIN};
use crate::keys::DeviceKey;
use crate::outbox::{send_frame, try_send, Outbox, PipeError};
use bytes::BytesMut;
use std::collections::{BTreeMap, VecDeque};
use vstd::prelude::*;

verus! {

/// The most stream bytes that one frame carries.
pub const CHUNK: usize = 61440;

/// How many frames a write of `len` bytes takes.
pub open spec fn chunk_count(len: nat) -> nat {
    (len + CHUNK - 1) as nat / CHUNK as nat
}

/// The bytes that the `i`th frame of a write carries.
pub open spec fn chunk(buf: Seq<u8>, i: int) -> Seq<u8> {
    buf.subrange(i * CHUNK, if (i + 1) * CHUNK < buf.len() { (i + 1) * CHUNK } else { buf.len() as int })
}

/// The bytes of the `i`th frame of a write that starts at number `start` on connection `conn`.
pub open spec fn chunk_wire(conn: ConnId, start: u64, buf: Seq<u8>, i: int) -> Seq<u8> {
    crate::frame::frame_bytes(conn@, (start + i) as u64, 0, chunk(buf, i))
}

/// What the reading half of a stream knows.
#[verifier::ext_equal]
pub ghost struct ReadState {
    /// Bytes in order that the reader has not taken yet.
    pub buf: Seq<u8>,
    /// The number of the frame that comes next.
    pub next: u64,
    /// Frames that arrived ahead of `next`, by number.
    pub held: Map<u64, RdFrame>,
    /// The peer has closed its side.
    pub finished: bool,
}

/// The state after the frame that comes next has been folded in.
pub open spec fn consumed(st: ReadState, frame: RdFrame) -> ReadState {
    ReadState {
        buf: st.buf + frame.data@,
        next: (st.next + 1) as u64,
        held: st.held,
        finished: st.finished || frame.is_fin(),
    }
}

/// The state after a frame has arrived: the one that was awaited is folded in, one from ahead is
/// held back, one that has been served already is dropped.
pub open spec fn received(st: ReadState, frame: RdFrame) -> ReadState {
    if frame.seq == st.next {
        consumed(st, frame)
    } else if frame.seq > st.next {
        ReadState { held: st.held.insert(frame.seq, frame), ..st }
    } else {
        st
    }
}

/// The state in which the next held frame has left the held ones and been folded in.
pub open spec fn unheld(st: ReadState) -> ReadState {
    consumed(ReadState { held: st.held.remove(st.next), ..st }, st.held[st.next])
}

/// Fold frames in, held ones before newly arrived ones, until there are bytes to serve, the peer
/// has finished, or nothing more is there. Gives the state and the arrivals left untouched.
pub open spec fn settled(st: ReadState, inbox: Seq<RdFrame>) -> (ReadState, Seq<RdFrame>)
    decreases inbox.len(), st.held.dom().len(),
    when st.held.dom().finite()
{
    if st.buf.len() > 0 || st.finished {
        (st, inbox)
    } else if st.held.contains_key(st.next) {
        settled(unheld(st), inbox)
    } else if inbox.len() > 0 {
        settled(received(st, inbox[0]), inbox.skip(1))
    } else {
        (st, inbox)
    }
}

/// What a poll of the reading half gives.
pub enum ReadPoll {
    /// Bytes for the reader.
    Ready(Vec<u8>),
    /// No more bytes will come.
    Eof,
    /// Nothing to read yet.
    Pending,
}

/// One logical stream to a peer device.
pub struct RelayStream {
    peer: [u8; 32],
    conn: ConnId,
    read_buf: BytesMut,
    tx_seq: u64,
    rx_next: u64,
    reorder: BTreeMap<u64, RdFrame>,
    peer_finished: bool,
}

impl RelayStream {
    /// The peer's device key.
    pub closed spec fn peer_key(&self) -> Seq<u8> {
        self.peer@
    }

    /// The connection.
    pub closed spec fn conn_id(&self) -> ConnId {
        self.conn
    }

    /// The number that the next outbound frame gets.
    pub closed spec fn next_out(&self) -> u64 {
        self.tx_seq
    }

    /// The reading half.
    pub closed spec fn reading(&self) -> ReadState {
        ReadState { buf: crate::buffer::buffered(self.read_buf), next: self.rx_next, held: self.reorder@, finished: self.peer_finished }
    }

    /// A stream to `peer` on connection `conn` that has read nothing, and whose first outbound
    /// frame is numbered `start_seq`.
    pub open spec fn is_fresh(&self, peer: Seq<u8>, conn: ConnId, start_seq: u64) -> bool {
        &&& self.peer_key() == peer
        &&& self.conn_id() == conn
        &&& self.next_out() == start_seq
        &&& self.reading() == unread()
    }

    /// A stream to `peer` on connection `conn` whose first outbound frame is numbered
    /// `start_seq`.
    pub fn new(peer: [u8; 32], conn: ConnId, start_seq: u64) -> (r: Self)
        ensures
            r.is_fresh(peer@, conn, start_seq),
    {
        RelayStream {
            peer,
            conn,
            read_buf: new_buffer(),
            tx_seq: start_seq,
            rx_next: 0,
            reorder: BTreeMap::new(),
            peer_finished: false,
        }
    }

    /// The connection that this stream runs on.
    pub fn conn(&self) -> (r: ConnId)
        ensures
            r == self.conn_id(),
    {
        self.conn
    }

    /// Whether the numbers suffice to read what is held back and what has arrived.
    pub fn can_read(&self, inbox: &VecDeque<RdFrame>) -> (r: bool)
        ensures
            r == (self.reading().next + self.reading().held.len() + inbox@.len() <= u64::MAX),
    {
        let count: u128 = self.rx_next as u128 + self.reorder.len() as u128 + inbox.len() as u128;
        count <= u64::MAX as u128
    }

    /// Whether the numbers suffice to write `len` bytes.
    pub fn can_write(&self, len: usize) -> (r: bool)
        ensures
            r == (self.next_out() + chunk_count(len as nat) <= u64::MAX),
    {
        let frames: u64 = (len / CHUNK) as u64 + if len % CHUNK != 0 { 1 } else { 0 };
        assert(frames == chunk_count(len as nat));
        self.tx_seq <= u64::MAX - frames
    }

    /// Whether there is a number left for the final frame.
    pub fn can_close(&self) -> (r: bool)
        ensures
            r == (self.next_out() < u64::MAX),
    {
        self.tx_seq < u64::MAX
    }

    /// Fold one in-order frame into the read buffer and go on to the next number.
    fn consume(&mut self, frame: RdFrame)
        requires
            old(self).reading().next < u64::MAX,
            old(self).reading().buf.len() == 0,
        ensures
            final(self).reading() == consumed(old(self).reading(), frame),
            final(self).peer_key() == old(self).peer_key(),
            final(self).conn_id() == old(self).conn_id(),
            final(self).next_out() == old(self).next_out(),
    {
        if frame.flags & RD_FLAG_FIN != 0 {
            self.peer_finished = true;
        }
        if frame.data.len() > 0 {
            buffer_extend(&mut self.read_buf, frame.data.as_slice());
        }
        self.rx_next = self.rx_next + 1;
    }

    /// Read up to `room` bytes. `inbox` holds the frames that have arrived and not been looked
    /// at, oldest first; `closed` says that no more will arrive.
    pub fn poll_read(&mut self, room: usize, inbox: &mut VecDeque<RdFrame>, closed: bool) -> (r: ReadPoll)
        requires
            old(self).reading().next + old(self).reading().held.len() + old(inbox)@.len() <= u64::MAX,
        ensures
            final(inbox)@ == settled(old(self).reading(), old(inbox)@).1,
            ({
                let (st, left, served) = polled(old(self).reading(), old(inbox)@, seq![room]);
                &&& final(self).reading() == st
                &&& final(inbox)@ == left
                &&& served == (match r {
                    ReadPoll::Ready(bytes) => bytes@,
                    _ => Seq::empty(),
                })
            }),
            final(self).peer_key() == old(self).peer_key(),
            final(self).conn_id() == old(self).conn_id(),
            final(self).next_out() == old(self).next_out(),
            ({
                let st = settled(old(self).reading(), old(inbox)@).0;
                match r {
                    ReadPoll::Ready(bytes) => {
                        let n = if room < st.buf.len() { room as int } else { st.buf.len() as int };
                        &&& st.buf.len() > 0
                        &&& bytes@ == st.buf.take(n)
                        &&& final(self).reading() == (ReadState { buf: st.buf.skip(n), ..st })
                    },
                    ReadPoll::Eof => {
                        &&& st.buf.len() == 0
                        &&& st.finished || closed
                        &&& final(self).reading() == st
                    },
                    ReadPoll::Pending => {
                        &&& st.buf.len() == 0
                        &&& !st.finished && !closed
                        &&& final(self).reading() == st
                    },
                }
            }),
    {
        loop
            invariant
                settled(self.reading(), inbox@) == settled(old(self).reading(), old(inbox)@),
                self.reading().next + self.reading().held.len() + inbox@.len() <= u64::MAX,
                self.peer_key() == old(self).peer_key(),
                self.conn_id() == old(self).conn_id(),
                self.next_out() == old(self).next_out(),
            decreases inbox@.len(), self.reorder@.dom().len(),
        {
            proof {
                lemma_one_poll(old(self).reading(), old(inbox)@, room);
            }
            let ready: usize = buffer_len(&self.read_buf);
            if ready > 0 {
                let n: usize = if room < ready { room } else { ready };
                return ReadPoll::Ready(buffer_take(&mut self.read_buf, n));
            }
            if self.peer_finished {
                return ReadPoll::Eof;
            }
            let next: u64 = self.rx_next;
            let ghost before = self.reading();
            if let Some(frame) = self.reorder.remove(&next) {
                assert(before.held.contains_key(next) && before.held[next] == frame);
                assert(self.reading().held == before.held.remove(next));
                self.consume(frame);
                assert(self.reading() == unheld(before));
                continue;
            }
            assert(self.reorder@ == before.held);
            match inbox.pop_front() {
                Some(frame) => {
                    if frame.seq == self.rx_next {
                        self.consume(frame);
                    } else if frame.seq > self.rx_next {
                        let seq: u64 = frame.seq;
                        self.reorder.insert(seq, frame);
                    }
                    assert(self.reading() == received(before, frame));
                },
                None => {
                    return if closed {
                        ReadPoll::Eof
                    } else {
                        ReadPoll::Pending
                    };
                },
            }
        }
    }

    /// Cut `buf` into frames and queue each for the peer. All of it is taken, unless a frame
    /// cannot be queued: then the frames before it are on their way and the error says why.
    pub fn poll_write(&mut self, key: &DeviceKey, outbox: &mut Outbox, buf: &[u8]) -> (r: Result<usize, PipeError>)
        requires
            old(self).next_out() + chunk_count(buf@.len()) <= u64::MAX,
        ensures
            final(self).reading() == old(self).reading(),
            final(self).peer_key() == old(self).peer_key(),
            final(self).conn_id() == old(self).conn_id(),
            final(outbox).open == old(outbox).open,
            ({
                let before = old(outbox).queue@.len() as int;
                let sent = final(outbox).queue@.len() - before;
                let start = old(self).next_out();
                let next = chunk_wire(old(self).conn_id(), start, buf@, sent);
                &&& 0 <= sent
                &&& final(outbox).queue@.take(before) == old(outbox).queue@
                &&& final(self).next_out() == start + sent
                &&& forall|j: int|
                    before <= j < before + sent ==> crate::outbox::brings(
                        (#[trigger] final(outbox).queue@[j])@,
                        *key,
                        old(self).peer_key(),
                        chunk_wire(old(self).conn_id(), start, buf@, j - before),
                    )
                &&& sent > 0 ==> old(outbox).open
                &&& match r {
                    Ok(n) => n == buf@.len() && sent == chunk_count(buf@.len()),
                    Err(PipeError::Envelope(text)) => {
                        &&& sent < chunk_count(buf@.len())
                        &&& crate::outbox::refused(text@, *key, old(self).peer_key(), next)
                    },
                    Err(PipeError::WriterGone) => buf@.len() > 0 && sent == 0 && !old(outbox).open,
                }
            }),
    {
        let ghost start = self.tx_seq;
        let ghost before = outbox.queue@.len() as int;
        let mut sent: usize = 0;
        let ghost mut done: int = 0;
        while sent < buf.len()
            invariant
                sent <= buf@.len(),
                0 <= done <= chunk_count(buf@.len()),
                sent == (if done * CHUNK < buf@.len() { done * CHUNK } else { buf@.len() as int }),
                sent == buf@.len() ==> done == chunk_count(buf@.len()),
                start == old(self).next_out(),
                before == old(outbox).queue@.len(),
                start + chunk_count(buf@.len()) <= u64::MAX,
                self.reading() == old(self).reading(),
                self.peer_key() == old(self).peer_key(),
                self.conn_id() == old(self).conn_id(),
                self.next_out() == start + done,
                outbox.open == old(outbox).open,
                outbox.queue@.len() == before + done,
                outbox.queue@.take(before) == old(outbox).queue@,
                done > 0 ==> old(outbox).open,
                forall|j: int|
                    before <= j < before + done ==> crate::outbox::brings(
                        (#[trigger] outbox.queue@[j])@,
                        *key,
                        old(self).peer_key(),
                        chunk_wire(old(self).conn_id(), start, buf@, j - before),
                    ),
            decreases buf@.len() - sent,
        {
            let end: usize = if buf.len() - sent > CHUNK { sent + CHUNK } else { buf.len() };
            let mut data: Vec<u8> = Vec::new();
            data.extend_from_slice(vstd::slice::slice_subrange(buf, sent, end));
            assert(data@ == chunk(buf@, done));
            let frame = RdFrame { conn: self.conn, seq: self.tx_seq, flags: 0, data };
            assert(frame.wire() == chunk_wire(old(self).conn_id(), start, buf@, done));
            let ghost queued = outbox.queue@;
            match send_frame(key, outbox, &self.peer, &frame) {
                Ok(()) => {},
                Err(e) => return Err(e),
            }
            proof {
                assert forall|j: int| 0 <= j < before + done implies #[trigger] outbox.queue@[j] == queued[j] by {
                    assert(outbox.queue@.drop_last()[j] == queued[j]);
                }
                assert(outbox.queue@.take(before) == outbox.queue@.drop_last().take(before));
                done = done + 1;
            }
            self.tx_seq = self.tx_seq + 1;
            sent = end;
        }
        Ok(buf.len())
    }

    /// Close this side: queue a final frame. A frame that cannot be queued is given up; its
    /// number is used all the same.
    pub fn poll_shutdown(&mut self, key: &DeviceKey, outbox: &mut Outbox)
        requires
            old(self).next_out() < u64::MAX,
        ensures
            final(self).reading() == old(self).reading(),
            final(self).peer_key() == old(self).peer_key(),
            final(self).conn_id() == old(self).conn_id(),
            final(self).next_out() == old(self).next_out() + 1,
            crate::outbox::attempted(
                *old(outbox),
                *final(outbox),
                *key,
                old(self).peer_key(),
                crate::frame::frame_bytes(old(self).conn_id()@, old(self).next_out(), RD_FLAG_FIN, Seq::empty()),
            ),
    {
        let fin = RdFrame { conn: self.conn, seq: self.tx_seq, flags: RD_FLAG_FIN, data: Vec::new() };
        assert(fin.data@ == Seq::<u8>::empty());
        try_send(key, outbox, &self.peer, &fin);
        self.tx_seq = self.tx_seq + 1;
    }
}

// ── laws ──

/// The frames are numbered from zero in the order in which they stand, and none but the last one
/// closes the stream.
pub open spec fn numbered(sent: Seq<RdFrame>) -> bool {
    &&& sent.len() < u64::MAX
    &&& forall|i: int| 0 <= i < sent.len() ==> (#[trigger] sent[i]).seq == i
    &&& forall|i: int| 0 <= i < sent.len() - 1 ==> !(#[trigger] sent[i]).is_fin()
}

/// All bytes that the frames carry, in order.
pub open spec fn payload(sent: Seq<RdFrame>) -> Seq<u8>
    decreases sent.len(),
{
    if sent.len() == 0 {
        Seq::empty()
    } else {
        payload(sent.drop_last()) + sent.last().data@
    }
}

/// `frame` is one of the frames that were sent.
pub open spec fn was_sent(sent: Seq<RdFrame>, frame: RdFrame) -> bool {
    frame.seq < sent.len() && sent[frame.seq as int] == frame
}

/// The reader has handed out `delivered` and is in step with the sender: what it has handed out
/// and what it holds ready are the bytes of the first `next` frames, and it holds back nothing
/// that was not sent.
pub open spec fn in_step(st: ReadState, sent: Seq<RdFrame>, delivered: Seq<u8>) -> bool {
    &&& st.held.dom().finite()
    &&& st.next <= sent.len()
    &&& delivered + st.buf == payload(sent.take(st.next as int))
    &&& forall|k: u64| #[trigger] st.held.contains_key(k) ==> was_sent(sent, st.held[k]) && st.held[k].seq == k
    &&& st.finished ==> st.next == sent.len()
}

proof fn lemma_consumed_in_step(st: ReadState, sent: Seq<RdFrame>, delivered: Seq<u8>, frame: RdFrame)
    requires
        numbered(sent),
        in_step(st, sent, delivered),
        !st.finished,
        was_sent(sent, frame),
        frame.seq == st.next,
    ensures
        in_step(consumed(st, frame), sent, delivered),
{
    let after = consumed(st, frame);
    assert(sent.take(after.next as int).drop_last() == sent.take(st.next as int));
    assert(sent.take(after.next as int).last() == frame);
    assert(delivered + after.buf == (delivered + st.buf) + frame.data@);
}

/// Whatever the order in which frames arrive, and however often, the reader stays in step with
/// the sender: so what it hands out is at all times a prefix of what was sent, in order, with
/// nothing lost or doubled.
pub proof fn law_arrival_order_does_not_matter(st: ReadState, inbox: Seq<RdFrame>, sent: Seq<RdFrame>, delivered: Seq<u8>)
    requires
        numbered(sent),
        in_step(st, sent, delivered),
        forall|i: int| 0 <= i < inbox.len() ==> was_sent(sent, #[trigger] inbox[i]),
    ensures
        in_step(settled(st, inbox).0, sent, delivered),
    decreases inbox.len(), st.held.dom().len(),
{
    if st.buf.len() > 0 || st.finished {
    } else if st.held.contains_key(st.next) {
        let frame = st.held[st.next];
        let taken = ReadState { held: st.held.remove(st.next), ..st };
        assert(in_step(taken, sent, delivered));
        lemma_consumed_in_step(taken, sent, delivered, frame);
        law_arrival_order_does_not_matter(unheld(st), inbox, sent, delivered);
    } else if inbox.len() > 0 {
        let frame = inbox[0];
        assert(was_sent(sent, frame));
        if frame.seq == st.next {
            lemma_consumed_in_step(st, sent, delivered, frame);
        }
        assert(in_step(received(st, frame), sent, delivered));
        assert forall|i: int| 0 <= i < inbox.skip(1).len() implies was_sent(sent, #[trigger] inbox.skip(1)[i]) by {
            assert(inbox.skip(1)[i] == inbox[i + 1]);
        }
        law_arrival_order_does_not_matter(received(st, frame), inbox.skip(1), sent, delivered);
    }
}

/// Handing out the first `n` bytes that are ready keeps the reader in step.
pub proof fn law_serving_keeps_step(st: ReadState, sent: Seq<RdFrame>, delivered: Seq<u8>, n: int)
    requires
        in_step(st, sent, delivered),
        0 <= n <= st.buf.len(),
    ensures
        in_step(ReadState { buf: st.buf.skip(n), ..st }, sent, delivered + st.buf.take(n)),
{
    assert((delivered + st.buf.take(n)) + st.buf.skip(n) == delivered + st.buf);
}

/// Every frame from `next` on is held back or has just arrived.
pub open spec fn all_here(st: ReadState, inbox: Seq<RdFrame>, sent: Seq<RdFrame>) -> bool {
    forall|k: int|
        st.next <= k < sent.len() ==> st.held.contains_key((#[trigger] sent[k]).seq) || inbox.contains(sent[k])
}

/// Once every frame has arrived the reader does not stall: it has bytes ready, or it has come to
/// the end of what was sent.
pub proof fn law_no_stall(st: ReadState, inbox: Seq<RdFrame>, sent: Seq<RdFrame>, delivered: Seq<u8>)
    requires
        numbered(sent),
        in_step(st, sent, delivered),
        forall|i: int| 0 <= i < inbox.len() ==> was_sent(sent, #[trigger] inbox[i]),
        all_here(st, inbox, sent),
    ensures
        settled(st, inbox).0.buf.len() > 0 || settled(st, inbox).0.next == sent.len(),
        all_here(settled(st, inbox).0, settled(st, inbox).1, sent),
    decreases inbox.len(), st.held.dom().len(),
{
    if st.buf.len() > 0 || st.finished {
    } else if st.held.contains_key(st.next) {
        let taken = ReadState { held: st.held.remove(st.next), ..st };
        assert(in_step(taken, sent, delivered));
        lemma_consumed_in_step(taken, sent, delivered, st.held[st.next]);
        law_no_stall(unheld(st), inbox, sent, delivered);
    } else if inbox.len() > 0 {
        let frame = inbox[0];
        let rest = inbox.skip(1);
        assert(was_sent(sent, frame));
        if frame.seq == st.next {
            lemma_consumed_in_step(st, sent, delivered, frame);
        }
        let after = received(st, frame);
        assert(in_step(after, sent, delivered));
        assert forall|i: int| 0 <= i < rest.len() implies was_sent(sent, #[trigger] rest[i]) by {
            assert(rest[i] == inbox[i + 1]);
        }
        assert forall|k: int| after.next <= k < sent.len() implies after.held.contains_key((#[trigger] sent[k]).seq)
            || rest.contains(sent[k]) by {
            if inbox.contains(sent[k]) {
                let i = choose|i: int| 0 <= i < inbox.len() && inbox[i] == sent[k];
                if i > 0 {
                    assert(rest[i - 1] == sent[k]);
                }
            }
        }
        law_no_stall(after, rest, sent, delivered);
    } else {
        if st.next < sent.len() {
            assert(st.held.contains_key(sent[st.next as int].seq) || inbox.contains(sent[st.next as int]));
        }
    }
}

/// The frames of a write carry exactly the bytes that were written, in order.
pub proof fn law_chunks_carry_the_write(buf: Seq<u8>, frames: Seq<RdFrame>, n: int)
    requires
        0 <= n <= chunk_count(buf.len()),
        frames.len() == n,
        forall|i: int| 0 <= i < n ==> (#[trigger] frames[i]).data@ == chunk(buf, i),
    ensures
        payload(frames) == buf.take(if n * CHUNK < buf.len() { n * CHUNK } else { buf.len() as int }),
        n == chunk_count(buf.len()) ==> payload(frames) == buf,
    decreases n,
{
    if n == 0 {
        assert(buf.take(0) == Seq::<u8>::empty());
    } else {
        law_chunks_carry_the_write(buf, frames.drop_last(), n - 1);
        assert((n - 1) * CHUNK < buf.len());
        let end = if n * CHUNK < buf.len() { n * CHUNK } else { buf.len() as int };
        assert(buf.take((n - 1) * CHUNK) + chunk(buf, n - 1) == buf.take(end));
    }
    assert(buf.take(buf.len() as int) == buf);
}

/// The frames are numbered from zero in order and none of them closes the stream: more may follow.
pub open spec fn open_ended(sent: Seq<RdFrame>) -> bool {
    numbered(sent) && forall|i: int| 0 <= i < sent.len() ==> !(#[trigger] sent[i]).is_fin()
}

proof fn lemma_payload_joins(a: Seq<RdFrame>, b: Seq<RdFrame>)
    ensures
        payload(a + b) == payload(a) + payload(b),
    decreases b.len(),
{
    if b.len() == 0 {
        assert(a + b == a);
        assert(payload(a) + payload(b) == payload(a));
    } else {
        lemma_payload_joins(a, b.drop_last());
        assert((a + b).drop_last() == a + b.drop_last());
        assert((a + b).last() == b.last());
        assert(payload(a + b) == payload(a) + payload(b));
    }
}

/// A write goes on where the stream stopped: the frames that carry it continue the numbering, and
/// the bytes of all frames together are what was sent before and then what was written.
pub proof fn law_write_continues_the_stream(sent: Seq<RdFrame>, conn: ConnId, buf: Seq<u8>, frames: Seq<RdFrame>)
    requires
        open_ended(sent),
        frames.len() == chunk_count(buf.len()),
        sent.len() + frames.len() < u64::MAX,
        forall|i: int| 0 <= i < frames.len() ==> (#[trigger] frames[i]).wire() == chunk_wire(conn, sent.len() as u64, buf, i),
    ensures
        open_ended(sent + frames),
        payload(sent + frames) == payload(sent) + buf,
{
    assert forall|i: int| 0 <= i < frames.len() implies (#[trigger] frames[i]).seq == sent.len() + i && !frames[i].is_fin()
        && frames[i].data@ == chunk(buf, i) by {
        crate::frame::lemma_wire_parts(
            frames[i].conn@,
            frames[i].seq,
            frames[i].flags,
            frames[i].data@,
            conn@,
            (sent.len() + i) as u64,
            0,
            chunk(buf, i),
        );
        assert(0u8 & 2 == 0) by (bit_vector);
    }
    let all = sent + frames;
    assert forall|i: int| 0 <= i < all.len() implies (#[trigger] all[i]).seq == i && !all[i].is_fin() by {
        if i >= sent.len() {
            assert(all[i] == frames[i - sent.len()]);
        }
    }
    law_chunks_carry_the_write(buf, frames, frames.len() as int);
    lemma_payload_joins(sent, frames);
}

/// Closing the stream adds one frame and no bytes, and nothing follows it.
pub proof fn law_close_ends_the_stream(sent: Seq<RdFrame>, conn: ConnId, fin: RdFrame)
    requires
        open_ended(sent),
        sent.len() + 1 < u64::MAX,
        fin.wire() == crate::frame::frame_bytes(conn@, sent.len() as u64, RD_FLAG_FIN, Seq::empty()),
    ensures
        numbered(sent.push(fin)),
        fin.is_fin(),
        payload(sent.push(fin)) == payload(sent),
{
    crate::frame::lemma_wire_parts(
        fin.conn@,
        fin.seq,
        fin.flags,
        fin.data@,
        conn@,
        sent.len() as u64,
        RD_FLAG_FIN,
        Seq::empty(),
    );
    assert(2u8 & 2 != 0) by (bit_vector);
    let all = sent.push(fin);
    assert(all.drop_last() == sent);
    assert(all.last() == fin);
    assert(payload(sent) + fin.data@ == payload(sent));
    assert forall|i: int| 0 <= i < all.len() - 1 implies !(#[trigger] all[i]).is_fin() by {
        assert(all[i] == sent[i]);
    }
}

/// A reader that is in step and has taken everything up to the end has received all that was
/// sent.
pub proof fn law_everything_arrives(st: ReadState, sent: Seq<RdFrame>, delivered: Seq<u8>)
    requires
        in_step(st, sent, delivered),
        st.next == sent.len(),
        st.buf.len() == 0,
    ensures
        delivered == payload(sent),
{
    assert(sent.take(sent.len() as int) == sent);
    assert(delivered + st.buf == delivered);
}

// ── a stream with a gap ──

/// The frame at each place has the number of that place.
pub open spec fn placed(all: Seq<RdFrame>) -> bool {
    all.len() < u64::MAX && forall|i: int| 0 <= i < all.len() ==> (#[trigger] all[i]).seq == i
}

/// How far the frames that arrived reach from number `k` on: up to the least number that is
/// missing, or through the first frame that closes the stream.
pub open spec fn front(arrived: Seq<RdFrame>, all: Seq<RdFrame>, k: int) -> int
    decreases all.len() - k,
{
    if 0 <= k < all.len() && arrived.contains(all[k]) {
        if all[k].is_fin() {
            k + 1
        } else {
            front(arrived, all, k + 1)
        }
    } else {
        k
    }
}

/// The reader after one poll for each entry of `rooms`, with `inbox` arrived and not looked at: its
/// state, the arrivals left, and all bytes that it has handed out.
pub open spec fn polled(st: ReadState, inbox: Seq<RdFrame>, rooms: Seq<usize>) -> (ReadState, Seq<RdFrame>, Seq<u8>)
    decreases rooms.len(),
{
    if rooms.len() == 0 {
        (st, inbox, Seq::empty())
    } else {
        let (before, waiting, delivered) = polled(st, inbox, rooms.drop_last());
        let (now, left) = settled(before, waiting);
        let n = if rooms.last() < now.buf.len() { rooms.last() as int } else { now.buf.len() as int };
        (ReadState { buf: now.buf.skip(n), ..now }, left, delivered + now.buf.take(n))
    }
}

proof fn lemma_one_poll(st: ReadState, inbox: Seq<RdFrame>, room: usize)
    ensures
        ({
            let (now, left) = settled(st, inbox);
            let n = if room < now.buf.len() { room as int } else { now.buf.len() as int };
            &&& polled(st, inbox, seq![room]) == (
                ReadState { buf: now.buf.skip(n), ..now },
                left,
                now.buf.take(n),
            )
            &&& now.buf.len() == 0 ==> now.buf.skip(n) == now.buf && now.buf.take(n) == Seq::<u8>::empty()
        }),
{
    let rooms = seq![room];
    assert(rooms.drop_last() == Seq::<usize>::empty());
    reveal_with_fuel(polled, 2);
    let (now, _) = settled(st, inbox);
    let n = if room < now.buf.len() { room as int } else { now.buf.len() as int };
    assert(Seq::<u8>::empty() + now.buf.take(n) == now.buf.take(n));
    if now.buf.len() == 0 {
        assert(now.buf.skip(n) == now.buf);
    }
}

/// The reader has handed out `delivered` of what arrived, is as far as its number says, and has
/// lost none of the frames that are still to be served.
spec fn on_course(
    st: ReadState,
    inbox: Seq<RdFrame>,
    arrived: Seq<RdFrame>,
    all: Seq<RdFrame>,
    delivered: Seq<u8>,
) -> bool {
    &&& st.held.dom().finite()
    &&& st.next <= all.len()
    &&& delivered + st.buf == payload(all.take(st.next as int))
    &&& forall|k: u64| #[trigger]
        st.held.contains_key(k) ==> was_sent(all, st.held[k]) && st.held[k].seq == k && arrived.contains(st.held[k])
    &&& forall|i: int| 0 <= i < inbox.len() ==> arrived.contains(#[trigger] inbox[i]) && was_sent(all, inbox[i])
    &&& forall|k: int|
        st.next <= k < all.len() && arrived.contains(#[trigger] all[k]) ==> st.held.contains_key(k as u64)
            || inbox.contains(all[k])
    &&& front(arrived, all, 0) == (if st.finished { st.next as int } else { front(arrived, all, st.next as int) })
    &&& st.finished ==> st.next > 0 && all[st.next - 1].is_fin()
    &&& !st.finished ==> no_fin(all, st.next as int)
}

/// None of the first `n` frames closes the stream.
spec fn no_fin(all: Seq<RdFrame>, n: int) -> bool {
    forall|i: int| 0 <= i < n ==> !(#[trigger] all[i]).is_fin()
}

proof fn lemma_front(arrived: Seq<RdFrame>, all: Seq<RdFrame>, k: int)
    requires
        0 <= k <= all.len(),
    ensures
        k <= front(arrived, all, k) <= all.len(),
    decreases all.len() - k,
{
    if k < all.len() && arrived.contains(all[k]) && !all[k].is_fin() {
        lemma_front(arrived, all, k + 1);
    }
}

proof fn lemma_consumed_on_course(
    st: ReadState,
    inbox: Seq<RdFrame>,
    arrived: Seq<RdFrame>,
    all: Seq<RdFrame>,
    delivered: Seq<u8>,
    frame: RdFrame,
)
    requires
        placed(all),
        !st.finished,
        was_sent(all, frame),
        frame.seq == st.next,
        arrived.contains(frame),
        st.held.dom().finite(),
        delivered + st.buf == payload(all.take(st.next as int)),
        forall|k: u64| #[trigger]
            st.held.contains_key(k) ==> was_sent(all, st.held[k]) && st.held[k].seq == k && arrived.contains(st.held[k]),
        forall|i: int| 0 <= i < inbox.len() ==> arrived.contains(#[trigger] inbox[i]) && was_sent(all, inbox[i]),
        forall|k: int|
            st.next < k < all.len() && arrived.contains(#[trigger] all[k]) ==> st.held.contains_key(k as u64)
                || inbox.contains(all[k]),
        front(arrived, all, 0) == front(arrived, all, st.next as int),
        no_fin(all, st.next as int),
    ensures
        on_course(consumed(st, frame), inbox, arrived, all, delivered),
{
    let after = consumed(st, frame);
    assert(all.take(after.next as int).drop_last() == all.take(st.next as int));
    assert(all.take(after.next as int).last() == frame);
    assert(delivered + after.buf == (delivered + st.buf) + frame.data@);
}

proof fn lemma_settled_on_course(
    st: ReadState,
    inbox: Seq<RdFrame>,
    arrived: Seq<RdFrame>,
    all: Seq<RdFrame>,
    delivered: Seq<u8>,
)
    requires
        placed(all),
        on_course(st, inbox, arrived, all, delivered),
    ensures
        on_course(settled(st, inbox).0, settled(st, inbox).1, arrived, all, delivered),
        ({
            let (now, left) = settled(st, inbox);
            now.buf.len() > 0 || now.finished || (left.len() == 0 && !now.held.contains_key(now.next))
        }),
    decreases inbox.len(), st.held.dom().len(),
{
    if st.buf.len() > 0 || st.finished {
    } else if st.held.contains_key(st.next) {
        let taken = ReadState { held: st.held.remove(st.next), ..st };
        lemma_consumed_on_course(taken, inbox, arrived, all, delivered, st.held[st.next]);
        lemma_settled_on_course(unheld(st), inbox, arrived, all, delivered);
    } else if inbox.len() > 0 {
        let frame = inbox[0];
        let rest = inbox.skip(1);
        let after = received(st, frame);
        assert(arrived.contains(frame) && was_sent(all, frame));
        assert forall|i: int| 0 <= i < rest.len() implies arrived.contains(#[trigger] rest[i]) && was_sent(all, rest[i]) by {
            assert(rest[i] == inbox[i + 1]);
        }
        assert forall|k: int| after.next <= k < all.len() && arrived.contains(#[trigger] all[k]) implies after.held.contains_key(
            k as u64,
        ) || rest.contains(all[k]) by {
            if inbox.contains(all[k]) {
                let i = choose|i: int| 0 <= i < inbox.len() && inbox[i] == all[k];
                if i > 0 {
                    assert(rest[i - 1] == all[k]);
                }
            }
        }
        if frame.seq == st.next {
            lemma_consumed_on_course(st, rest, arrived, all, delivered, frame);
        }
        assert(on_course(after, rest, arrived, all, delivered));
        lemma_settled_on_course(after, rest, arrived, all, delivered);
    }
}

proof fn lemma_polled_on_course(
    st: ReadState,
    inbox: Seq<RdFrame>,
    arrived: Seq<RdFrame>,
    all: Seq<RdFrame>,
    rooms: Seq<usize>,
)
    requires
        placed(all),
        on_course(st, inbox, arrived, all, Seq::empty()),
    ensures
        ({
            let (now, left, delivered) = polled(st, inbox, rooms);
            on_course(now, left, arrived, all, delivered)
        }),
    decreases rooms.len(),
{
    if rooms.len() > 0 {
        lemma_polled_on_course(st, inbox, arrived, all, rooms.drop_last());
        let (before, waiting, delivered) = polled(st, inbox, rooms.drop_last());
        lemma_settled_on_course(before, waiting, arrived, all, delivered);
        let (now, left) = settled(before, waiting);
        let n = if rooms.last() < now.buf.len() { rooms.last() as int } else { now.buf.len() as int };
        assert((delivered + now.buf.take(n)) + now.buf.skip(n) == delivered + now.buf);
    }
}

/// A stream that has read nothing.
pub open spec fn unread() -> ReadState {
    ReadState { buf: Seq::empty(), next: 0, held: Map::empty(), finished: false }
}

/// The reader of a new stream comes exactly as far as the frames that arrived reach without a gap.
///
/// The frames arrive in any order and any number of times, and the stream is polled any number of
/// times with any room. All the time the bytes that were handed out are a prefix of what the frames
/// in front of the least missing number carry, or of what they carry through the first one that
/// closes the stream. Once a poll has no bytes for the reader they are all of it, and the stream is
/// at its end if and only if that last frame closes it.
pub proof fn law_reader_stops_at_the_gap(arrived: Seq<RdFrame>, all: Seq<RdFrame>, rooms: Seq<usize>)
    requires
        placed(all),
        forall|i: int| 0 <= i < arrived.len() ==> was_sent(all, #[trigger] arrived[i]),
    ensures
        ({
            let (st, left, delivered) = polled(unread(), arrived, rooms);
            let (now, _) = settled(st, left);
            let reach = front(arrived, all, 0);
            &&& 0 <= reach <= all.len()
            &&& exists|rest: Seq<u8>| delivered + rest == payload(all.take(reach))
            &&& now.buf.len() == 0 ==> {
                &&& delivered == payload(all.take(reach))
                &&& now.next == reach
                &&& now.finished <==> reach > 0 && all[reach - 1].is_fin()
            }
        }),
{
    assert(all.take(0) == Seq::<RdFrame>::empty());
    assert(on_course(unread(), arrived, arrived, all, Seq::empty()));
    lemma_polled_on_course(unread(), arrived, arrived, all, rooms);
    let (st, left, delivered) = polled(unread(), arrived, rooms);
    lemma_settled_on_course(st, left, arrived, all, delivered);
    let (now, last) = settled(st, left);
    let reach = front(arrived, all, 0);
    lemma_front(arrived, all, 0);
    if st.finished {
        assert(delivered + st.buf == payload(all.take(reach)));
    } else {
        lemma_front(arrived, all, st.next as int);
        let rest = all.subrange(st.next as int, reach);
        lemma_payload_joins(all.take(st.next as int), rest);
        assert(all.take(st.next as int) + rest == all.take(reach));
        assert(delivered + (st.buf + payload(rest)) == (delivered + st.buf) + payload(rest));
    }
    if now.buf.len() == 0 {
        assert(delivered + now.buf == delivered);
        if !now.finished {
            if now.next < all.len() && arrived.contains(all[now.next as int]) {
                assert(now.held.contains_key(now.next) || last.contains(all[now.next as int]));
            }
            assert(front(arrived, all, now.next as int) == now.next);
        }
    }
}

/// How far the frames reach depends on which of them arrived, not on when or how often: so does
/// what a reader of them is handed.
pub proof fn law_reach_is_of_the_set(one: Seq<RdFrame>, other: Seq<RdFrame>, all: Seq<RdFrame>, k: int)
    requires
        forall|f: RdFrame| #[trigger] one.contains(f) <==> other.contains(f),
    ensures
        front(one, all, k) == front(other, all, k),
    decreases all.len() - k,
{
    if 0 <= k < all.len() {
        assert(one.contains(all[k]) <==> other.contains(all[k]));
        if one.contains(all[k]) && !all[k].is_fin() {
            law_reach_is_of_the_set(one, other, all, k + 1);
        }
    }
}

/// Once the closing frame is served and its bytes are taken, the stream is at its end whatever
/// else arrives: a poll changes nothing and has no bytes.
pub proof fn law_end_is_the_end(st: ReadState, inbox: Seq<RdFrame>, room: usize)
    requires
        st.held.dom().finite(),
        st.finished,
        st.buf.len() == 0,
    ensures
        settled(st, inbox) == (st, inbox),
        polled(st, inbox, seq![room]) == (st, inbox, Seq::<u8>::empty()),
{
    lemma_one_poll(st, inbox, room);
}

// ── one frame, one poll, one write, in numbers ──

/// A write is cut into pieces of 61440 bytes, of which only the last may be shorter, and none is empty.
pub proof fn law_chunk_sizes(buf: Seq<u8>, i: int)
    requires
        0 <= i < chunk_count(buf.len()),
    ensures
        CHUNK == 61440,
        61440 * (chunk_count(buf.len()) - 1) < buf.len() <= 61440 * chunk_count(buf.len()),
        i + 1 < chunk_count(buf.len()) ==> chunk(buf, i).len() == 61440,
        i + 1 == chunk_count(buf.len()) ==> chunk(buf, i).len() == buf.len() - 61440 * i,
        0 < chunk(buf, i).len() <= 61440,
        forall|k: int| 0 <= k < chunk(buf, i).len() ==> #[trigger] chunk(buf, i)[k] == buf[61440 * i + k],
{
}

/// Writing nothing takes no frame.
pub proof fn law_empty_write()
    ensures
        chunk_count(0) == 0,
{
}

/// The `i`th frame of a write is numbered by its place, raises no flag, and carries the `i`th piece.
pub proof fn law_chunk_frames(conn: ConnId, start: u64, buf: Seq<u8>, i: int, frame: RdFrame)
    requires
        0 <= i < chunk_count(buf.len()),
        start + i <= 0xFFFF_FFFF_FFFF_FFFF,
        frame.wire() == chunk_wire(conn, start, buf, i),
    ensures
        frame.conn@ == conn@,
        frame.seq == start + i,
        frame.flags == 0,
        frame.data@ == chunk(buf, i),
{
    crate::frame::lemma_wire_parts(
        frame.conn@,
        frame.seq,
        frame.flags,
        frame.data@,
        conn@,
        (start + i) as u64,
        0,
        chunk(buf, i),
    );
}

/// The frame whose turn it is adds its bytes behind those that are ready, and ends the stream if its
/// second flag is up. One from ahead is held back under its number and changes nothing else. One whose
/// turn is over changes nothing.
pub proof fn law_one_frame(st: ReadState, frame: RdFrame)
    requires
        st.next < 0xFFFF_FFFF_FFFF_FFFF,
    ensures
        ({
            let after = received(st, frame);
            &&& frame.seq == st.next ==> {
                &&& after.buf == st.buf + frame.data@
                &&& after.next == st.next + 1
                &&& after.held == st.held
                &&& after.finished <==> st.finished || frame.flags / 2 % 2 == 1
            }
            &&& frame.seq > st.next ==> {
                &&& after.buf == st.buf
                &&& after.next == st.next
                &&& after.finished == st.finished
                &&& after.held == st.held.insert(frame.seq, frame)
            }
            &&& frame.seq < st.next ==> after == st
        }),
{
    crate::frame::law_flag_bits(frame);
}

/// Bytes that are ready are served before any other frame is looked at; a frame that was held back comes
/// before those that arrived later; and those are left alone as soon as there are bytes to serve.
pub proof fn law_oldest_bytes_first(st: ReadState, inbox: Seq<RdFrame>)
    requires
        st.held.dom().finite(),
        st.next < 0xFFFF_FFFF_FFFF_FFFF,
    ensures
        st.buf.len() > 0 ==> settled(st, inbox) == (st, inbox),
        st.buf.len() == 0 && !st.finished && st.held.contains_key(st.next) && st.held[st.next].data@.len() > 0 ==> ({
            let (after, left) = settled(st, inbox);
            &&& left == inbox
            &&& after.buf == st.held[st.next].data@
            &&& after.next == st.next + 1
            &&& after.held == st.held.remove(st.next)
        }),
        st.buf.len() == 0 && !st.finished && !st.held.contains_key(st.next) && inbox.len() > 0 && inbox[0].seq == st.next
            && inbox[0].data@.len() > 0 ==> ({
            let (after, left) = settled(st, inbox);
            &&& left == inbox.skip(1)
            &&& after.buf == inbox[0].data@
            &&& after.next == st.next + 1
            &&& after.held == st.held
        }),
{
    reveal_with_fuel(settled, 2);
    if st.buf.len() == 0 {
        assert(forall|more: Seq<u8>| #[trigger] (st.buf + more) == more);
    }
}

/// A poll hands out as many of the ready bytes as there is room for, from the front, and keeps the rest.
pub proof fn law_a_poll_fills_the_room(st: ReadState, inbox: Seq<RdFrame>, room: usize)
    ensures
        ({
            let ready = settled(st, inbox).0.buf;
            let (after, left, served) = polled(st, inbox, seq![room]);
            &&& served.len() == (if room < ready.len() { room as int } else { ready.len() as int })
            &&& served + after.buf == ready
            &&& left == settled(st, inbox).1
            &&& after.next == settled(st, inbox).0.next
            &&& after.held == settled(st, inbox).0.held
            &&& after.finished == settled(st, inbox).0.finished
        }),
{
    lemma_one_poll(st, inbox, room);
    let ready = settled(st, inbox).0.buf;
    let n = if room < ready.len() { room as int } else { ready.len() as int };
    assert(ready.take(n) + ready.skip(n) == ready);
}

/// A stream begins with nothing ready, nothing held back and the number zero, and is not at its end.
pub proof fn law_a_stream_begins()
    ensures
        unread().buf.len() == 0,
        unread().next == 0,
        forall|k: u64| !#[trigger] unread().held.contains_key(k),
        !unread().finished,
{
}

/// A fresh stream leads to its peer on its connection, sends from the given number on, and has read nothing.
pub proof fn law_fresh_stream(stream: RelayStream, peer: Seq<u8>, conn: ConnId, start: u64)
    requires
        stream.is_fresh(peer, conn, start),
    ensures
        stream.peer_key() == peer,
        stream.conn_id() == conn,
        stream.next_out() == start,
        stream.reading().buf.len() == 0,
        stream.reading().next == 0,
        stream.reading().held == Map::<u64, RdFrame>::empty(),
        !stream.reading().finished,
{
}

} // verus!
