//! The segment of a byte stream as it rides inside a relay envelope.
use vstd::bytes::*;
use vstd::prelude::*;

verus! {

/// First frame of a connection.
pub const RD_FLAG_SYN: u8 = 1;

/// Orderly close: no data after this frame.
pub const RD_FLAG_FIN: u8 = 2;

/// The identifier of one logical connection.
pub type ConnId = [u8; 16];

/// One stream segment: which connection, its place in that connection, flags and bytes.
#[derive(Debug, Clone, PartialEq, Eq)]
pub struct RdFrame {
    pub conn: ConnId,
    pub seq: u64,
    pub flags: u8,
    pub data: Vec<u8>,
}

/// A number as eight bytes, most significant first.
pub open spec fn be_bytes(n: u64) -> Seq<u8> {
    spec_u64_to_le_bytes(n).reverse()
}

/// The bytes of a frame: the magic `RDS1`, the connection, the sequence number, the flags, and
/// then the data to the end.
pub open spec fn frame_bytes(conn: Seq<u8>, seq: u64, flags: u8, data: Seq<u8>) -> Seq<u8> {
    seq![0x52u8, 0x44u8, 0x53u8, 0x31u8] + conn + be_bytes(seq) + seq![flags] + data
}

impl RdFrame {
    /// The bytes that stand for this frame on the wire.
    pub open spec fn wire(&self) -> Seq<u8> {
        frame_bytes(self.conn@, self.seq, self.flags, self.data@)
    }

    /// The frame ends its connection.
    pub open spec fn is_fin(&self) -> bool {
        self.flags & RD_FLAG_FIN != 0
    }

    /// The frame opens its connection.
    pub open spec fn is_syn(&self) -> bool {
        self.flags & RD_FLAG_SYN != 0
    }

    /// Two frames that say the same: equal connection, number, flags and bytes.
    pub open spec fn same_as(&self, other: &RdFrame) -> bool {
        self.conn@ == other.conn@ && self.seq == other.seq && self.flags == other.flags && self.data@ == other.data@
    }
}

/// `fgtw::pipe::RdFrame::encode`: the fixed header and the data, in the layout of
/// [`frame_bytes`].
#[verifier::external_body]
pub(crate) fn encode_frame(frame: &RdFrame) -> (r: Vec<u8>)
    ensures
        r@ == frame.wire(),
{
    fgtw::pipe::RdFrame { conn: frame.conn, seq: frame.seq, flags: frame.flags, data: frame.data.clone() }.encode()
}

/// `fgtw::pipe::RdFrame::decode`: the frame whose bytes these are, and `None` exactly when they
/// are the bytes of no frame.
#[verifier::external_body]
pub(crate) fn decode_frame(bytes: &[u8]) -> (r: Option<RdFrame>)
    ensures
        match r {
            Some(frame) => frame.wire() == bytes@,
            None => forall|frame: RdFrame| #[trigger] frame.wire() != bytes@,
        },
{
    fgtw::pipe::RdFrame::decode(bytes).map(|f| RdFrame { conn: f.conn, seq: f.seq, flags: f.flags, data: f.data })
}

/// The bytes of a frame give its parts away.
pub(crate) proof fn lemma_wire_parts(
    conn_a: Seq<u8>,
    seq_a: u64,
    flags_a: u8,
    data_a: Seq<u8>,
    conn_b: Seq<u8>,
    seq_b: u64,
    flags_b: u8,
    data_b: Seq<u8>,
)
    requires
        conn_a.len() == 16,
        conn_b.len() == 16,
        frame_bytes(conn_a, seq_a, flags_a, data_a) == frame_bytes(conn_b, seq_b, flags_b, data_b),
    ensures
        conn_a == conn_b,
        seq_a == seq_b,
        flags_a == flags_b,
        data_a == data_b,
{
    lemma_auto_spec_u64_to_from_le_bytes();
    let wa = frame_bytes(conn_a, seq_a, flags_a, data_a);
    let wb = frame_bytes(conn_b, seq_b, flags_b, data_b);
    assert(be_bytes(seq_a).len() == 8);
    assert(be_bytes(seq_b).len() == 8);
    assert(conn_a == wa.subrange(4, 20));
    assert(conn_b == wb.subrange(4, 20));
    assert(be_bytes(seq_a) == wa.subrange(20, 28));
    assert(be_bytes(seq_b) == wb.subrange(20, 28));
    assert(spec_u64_to_le_bytes(seq_a) == be_bytes(seq_a).reverse());
    assert(spec_u64_to_le_bytes(seq_b) == be_bytes(seq_b).reverse());
    assert(spec_u64_from_le_bytes(spec_u64_to_le_bytes(seq_a)) == seq_a);
    assert(flags_a == wa[28]);
    assert(flags_b == wb[28]);
    assert(data_a == wa.skip(29));
    assert(data_b == wb.skip(29));
}

/// Different frames never share their bytes.
pub proof fn law_wire_is_injective(a: RdFrame, b: RdFrame)
    requires
        a.wire() == b.wire(),
    ensures
        a.same_as(&b),
{
    lemma_wire_parts(a.conn@, a.seq, a.flags, a.data@, b.conn@, b.seq, b.flags, b.data@);
}

/// Where the parts of a frame stand on the wire: the letters `RDS1`, the connection from the fifth byte
/// on, its number in the eight bytes from the twenty-first on with the most significant one first, the
/// flags in the byte behind it, and the data from there to the end.
pub proof fn law_wire_layout(frame: RdFrame, i: int)
    ensures
        frame.wire().len() == 29 + frame.data@.len(),
        frame.wire()[0] == 0x52,
        frame.wire()[1] == 0x44,
        frame.wire()[2] == 0x53,
        frame.wire()[3] == 0x31,
        0 <= i < 16 ==> frame.wire()[4 + i] == frame.conn@[i],
        0 <= i < 8 ==> frame.wire()[20 + i] == be_bytes(frame.seq)[i],
        frame.wire()[28] == frame.flags,
        0 <= i < frame.data@.len() ==> frame.wire()[29 + i] == frame.data@[i],
{
    lemma_auto_spec_u64_to_from_le_bytes();
    assert(be_bytes(frame.seq).len() == 8);
}

/// The lowest bit of the flags opens a connection, the next one ends it, and no other has a meaning.
pub proof fn law_flag_bits(frame: RdFrame)
    ensures
        frame.is_syn() <==> frame.flags % 2 == 1,
        frame.is_fin() <==> frame.flags / 2 % 2 == 1,
{
    let f = frame.flags;
    assert((f & 1 != 0) == (f % 2 == 1) && (f & 2 != 0) == (f / 2 % 2 == 1)) by (bit_vector);
}

} // verus!
