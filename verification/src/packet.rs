//! The packet that the time server broadcasts.

use vstd::prelude::*;

use crate::bytes::{put_le, read_u128_le, read_u32_le};

verus! {

/// Bytes that mark a clock-sync packet: `CSY1`.
pub const MAGIC: [u8; 4] = [0x43, 0x53, 0x59, 0x31];

/// Default UDP port of the broadcasts.
pub const DEFAULT_PORT: u16 = 51234;

/// Default IPv4 destination: limited broadcast.
pub const DEFAULT_BROADCAST_ADDR: [u8; 4] = [255, 255, 255, 255];

/// One broadcast. On the wire it is 24 bytes, little-endian.
#[derive(Clone, Copy, Debug, PartialEq, Eq)]
pub struct SyncPacket {
    /// Always [`MAGIC`] in a packet that was parsed.
    pub magic: [u8; 4],
    /// Wrapping sequence counter.
    pub seq: u32,
    /// Server time of the packet, in nanoseconds.
    pub send_unix_ns: u128,
}

/// The wire form of a packet.
pub open spec fn wire(p: SyncPacket) -> Seq<u8> {
    p.magic@ + crate::bytes::le_bytes(p.seq as nat, 4) + crate::bytes::le_bytes(
        p.send_unix_ns as nat,
        16,
    )
}

/// Whether the mark stands at `i`.
pub open spec fn magic_at(buf: Seq<u8>, i: int) -> bool {
    &&& 0 <= i
    &&& i + 4 <= buf.len()
    &&& forall|k: int| 0 <= k < 4 ==> buf[i + k] == #[trigger] MAGIC@[k]
}

/// The packet at the start of a buffer: 24 bytes that begin with the mark.
pub open spec fn decode(buf: Seq<u8>) -> Option<SyncPacket> {
    if buf.len() < 24 || !magic_at(buf, 0) {
        None
    } else {
        Some(
            SyncPacket {
                magic: MAGIC,
                seq: crate::bytes::le_value(buf.subrange(4, 8)) as u32,
                send_unix_ns: crate::bytes::le_value(buf.subrange(8, 24)) as u128,
            },
        )
    }
}

/// Whether `i` is the first place where the mark stands with a whole packet's
/// worth of bytes behind it.
pub open spec fn first_packet_at(buf: Seq<u8>, i: int) -> bool {
    &&& magic_at(buf, i)
    &&& i + 24 <= buf.len()
    &&& forall|j: int| 0 <= j < i ==> !#[trigger] magic_at(buf, j)
}

/// The first packet within a frame.
pub open spec fn find(buf: Seq<u8>) -> Option<SyncPacket> {
    if exists|i: int| first_packet_at(buf, i) {
        decode(buf.skip(choose|i: int| first_packet_at(buf, i)))
    } else {
        None
    }
}

impl SyncPacket {
    /// Size of the wire form.
    pub const SIZE: usize = 24;

    /// The wire form, as it is sent.
    pub fn to_bytes(&self) -> (out: [u8; 24])
        ensures
            out@ == wire(*self),
    {
        let mut out: [u8; 24] = [0u8; 24];
        let mut i: usize = 0;
        while i < 4
            invariant
                i <= 4,
                forall|k: int| 0 <= k < i ==> out@[k] == self.magic@[k],
            decreases 4 - i,
        {
            out[i] = self.magic[i];
            i = i + 1;
        }
        put_le(&mut out, 4, 4, self.seq as u128);
        put_le(&mut out, 8, 16, self.send_unix_ns);
        proof {
            lemma_wire_len(*self);
            assert(out@ =~= wire(*self));
        }
        out
    }

    /// Parses the packet at the start of `buf`. `None` unless there are at
    /// least 24 bytes that begin with [`MAGIC`].
    pub fn parse(buf: &[u8]) -> (r: Option<SyncPacket>)
        ensures
            r == decode(buf@),
    {
        if buf.len() < 24 || !has_magic(buf, 0) {
            return None;
        }
        let seq: u32 = read_u32_le(buf, 4);
        let send_unix_ns: u128 = read_u128_le(buf, 8);
        Some(SyncPacket { magic: MAGIC, seq, send_unix_ns })
    }

    /// Finds the first packet within a captured frame, whatever headers stand
    /// before it.
    pub fn find_in_frame(buf: &[u8]) -> (r: Option<SyncPacket>)
        ensures
            r == find(buf@),
    {
        if buf.len() < 24 {
            return None;
        }
        let len: usize = buf.len();
        let last: usize = len - 24;
        let mut i: usize = 0;
        while i <= last
            invariant
                len == buf@.len(),
                last == len - 24,
                i <= last + 1,
                forall|j: int| 0 <= j < i ==> !#[trigger] magic_at(buf@, j),
            decreases last + 1 - i,
        {
            if has_magic(buf, i) {
                proof {
                    lemma_find(buf@, i as int);
                    assert(buf@.subrange(i as int, buf@.len() as int) =~= buf@.skip(i as int));
                }
                return SyncPacket::parse(vstd::slice::slice_subrange(buf, i, len));
            }
            i = i + 1;
        }
        None
    }
}

/// Whether the mark stands at `i`.
fn has_magic(buf: &[u8], i: usize) -> (b: bool)
    requires
        i + 4 <= buf@.len(),
    ensures
        b == magic_at(buf@, i as int),
{
    let b: bool = buf[i] == MAGIC[0] && buf[i + 1] == MAGIC[1] && buf[i + 2] == MAGIC[2] && buf[i
        + 3] == MAGIC[3];
    proof {
        if b {
            assert(magic_at(buf@, i as int));
        } else if magic_at(buf@, i as int) {
            assert(buf@[i + 0] == MAGIC@[0] && buf@[i + 1] == MAGIC@[1] && buf@[i + 2] == MAGIC@[2]
                && buf@[i + 3] == MAGIC@[3]);
        }
    }
    b
}

proof fn lemma_wire_len(p: SyncPacket)
    ensures
        wire(p).len() == 24,
        crate::bytes::le_bytes(p.seq as nat, 4).len() == 4,
        crate::bytes::le_bytes(p.send_unix_ns as nat, 16).len() == 16,
{
    crate::bytes::lemma_pow256_widths();
    crate::bytes::lemma_le_value_of_bytes(p.seq as nat, 4);
    crate::bytes::lemma_le_value_of_bytes(p.send_unix_ns as nat, 16);
}

proof fn lemma_find(buf: Seq<u8>, i: int)
    requires
        first_packet_at(buf, i),
    ensures
        find(buf) == decode(buf.skip(i)),
{
    let k = choose|k: int| first_packet_at(buf, k);
    assert(first_packet_at(buf, k));
    if k < i {
        assert(!magic_at(buf, k));
    } else if i < k {
        assert(!magic_at(buf, i));
    }
}

/// Parsing what was written gives the packet back, whatever follows it.
pub proof fn law_parse_inverts_to_bytes(p: SyncPacket, rest: Seq<u8>)
    requires
        p.magic@ == MAGIC@,
    ensures
        decode(wire(p) + rest) == Some(p),
{
    let buf = wire(p) + rest;
    lemma_wire_len(p);
    crate::bytes::lemma_pow256_widths();
    crate::bytes::lemma_le_value_of_bytes(p.seq as nat, 4);
    crate::bytes::lemma_le_value_of_bytes(p.send_unix_ns as nat, 16);
    assert(buf.subrange(4, 8) =~= crate::bytes::le_bytes(p.seq as nat, 4));
    assert(buf.subrange(8, 24) =~= crate::bytes::le_bytes(p.send_unix_ns as nat, 16));
    assert(forall|k: int| 0 <= k < 4 ==> buf[k] == #[trigger] p.magic@[k]);
    assert(magic_at(buf, 0));
    assert(p.magic =~= MAGIC);
}

/// Writing what was parsed gives back the first 24 bytes: no two wire forms
/// stand for one packet.
pub proof fn law_to_bytes_inverts_parse(buf: Seq<u8>)
    requires
        decode(buf) is Some,
    ensures
        wire(decode(buf)->0) == buf.take(24),
{
    let p = decode(buf)->0;
    crate::bytes::lemma_pow256_widths();
    crate::bytes::lemma_le_value_bound(buf.subrange(4, 8));
    crate::bytes::lemma_le_value_bound(buf.subrange(8, 24));
    crate::bytes::lemma_le_bytes_of_value(buf.subrange(4, 8));
    crate::bytes::lemma_le_bytes_of_value(buf.subrange(8, 24));
    assert(forall|k: int| 0 <= k < 4 ==> buf[0 + k] == #[trigger] MAGIC@[k]);
    assert(wire(p) =~= buf.take(24));
}

/// A packet wrapped in headers and a trailer is found, as long as the mark
/// does not begin among the headers.
pub proof fn law_found_behind_headers(headers: Seq<u8>, p: SyncPacket, trailer: Seq<u8>)
    requires
        p.magic@ == MAGIC@,
        forall|j: int|
            0 <= j < headers.len() ==> !#[trigger] magic_at(headers + wire(p) + trailer, j),
    ensures
        find(headers + wire(p) + trailer) == Some(p),
{
    let frame = headers + wire(p) + trailer;
    let at = headers.len() as int;
    lemma_wire_len(p);
    law_parse_inverts_to_bytes(p, trailer);
    assert(frame.skip(at) =~= wire(p) + trailer);
    assert forall|k: int| 0 <= k < 4 implies frame[at + k] == #[trigger] MAGIC@[k] by {
        assert(frame.skip(at)[k] == frame[at + k]);
        assert((wire(p) + trailer)[0 + k] == MAGIC@[k]);
    }
    assert(magic_at(frame, at));
    lemma_find(frame, at);
}

} // verus!
