//! What the wire form and its readers mean, byte by byte.

use vstd::prelude::*;

use crate::packet::SyncPacket;

verus! {

/// Whether the bytes `CSY1` stand at `i`.
pub open spec fn csy1_at(buf: Seq<u8>, i: int) -> bool {
    &&& 0 <= i
    &&& i + 4 <= buf.len()
    &&& buf[i] == 0x43
    &&& buf[i + 1] == 0x53
    &&& buf[i + 2] == 0x59
    &&& buf[i + 3] == 0x31
}

/// The number that eight little-endian bytes at `i` make.
pub open spec fn eight_at(b: Seq<u8>, i: int) -> int {
    b[i] + 0x100 * b[i + 1] + 0x1_0000 * b[i + 2] + 0x100_0000 * b[i + 3] + 0x1_0000_0000 * b[i
        + 4] + 0x100_0000_0000 * b[i + 5] + 0x1_0000_0000_0000 * b[i + 6] + 0x100_0000_0000_0000
        * b[i + 7]
}

proof fn lemma_mark(buf: Seq<u8>, i: int)
    ensures
        crate::packet::magic_at(buf, i) == csy1_at(buf, i),
{
    let m = crate::packet::MAGIC@;
    assert(m[0] == 0x43 && m[1] == 0x53 && m[2] == 0x59 && m[3] == 0x31);
    if crate::packet::magic_at(buf, i) {
        assert(buf[i + 0] == m[0] && buf[i + 1] == m[1] && buf[i + 2] == m[2] && buf[i + 3]
            == m[3]);
    }
    if csy1_at(buf, i) {
        assert forall|k: int| 0 <= k < 4 implies buf[i + k] == #[trigger] m[k] by {}
    }
}

/// On the wire a packet is its mark, then the four bytes of its number, then
/// the sixteen of its time, each least significant first.
pub proof fn law_wire_is_mark_number_and_time(p: SyncPacket, i: nat)
    requires
        i < 16,
    ensures
        crate::packet::wire(p).len() == 24,
        crate::packet::wire(p).take(4) == p.magic@,
        i < 4 ==> crate::packet::wire(p)[4 + i as int] == (p.seq as int / vstd::arithmetic::power::pow(
            256,
            i,
        )) % 256,
        crate::packet::wire(p)[8 + i as int] == (p.send_unix_ns as int / vstd::arithmetic::power::pow(
            256,
            i,
        )) % 256,
{
    let w = crate::packet::wire(p);
    crate::bytes::lemma_le_bytes_len(p.seq as nat, 4);
    crate::bytes::lemma_le_bytes_len(p.send_unix_ns as nat, 16);
    if i < 4 {
        crate::arith_laws::law_bytes_are_digits_of_256(p.seq as nat, 4, i);
    }
    crate::arith_laws::law_bytes_are_digits_of_256(p.send_unix_ns as nat, 16, i);
    assert(w.take(4) =~= p.magic@);
    assert(w[8 + i as int] == crate::bytes::le_bytes(p.send_unix_ns as nat, 16)[i as int]);
}

/// A buffer is parsed exactly when it has 24 bytes that begin with `CSY1`; the
/// number is in bytes 4 to 7 and the time in bytes 8 to 23, least significant
/// first. What follows does not matter.
pub proof fn law_parse_reads_number_and_time(buf: Seq<u8>)
    ensures
        crate::packet::decode(buf) is Some <==> buf.len() >= 24 && csy1_at(buf, 0),
        crate::packet::decode(buf) matches Some(p) ==> {
            &&& p.magic@ == seq![0x43u8, 0x53u8, 0x59u8, 0x31u8]
            &&& p.seq == buf[4] + 0x100 * buf[5] + 0x1_0000 * buf[6] + 0x100_0000 * buf[7]
            &&& p.send_unix_ns == eight_at(buf, 8) + 0x1_0000_0000_0000_0000 * eight_at(buf, 16)
        },
{
    lemma_mark(buf, 0);
    if buf.len() >= 24 && csy1_at(buf, 0) {
        let n = buf.subrange(4, 8);
        let t = buf.subrange(8, 24);
        crate::arith_laws::law_four_bytes_make_their_number(n);
        crate::arith_laws::law_sixteen_bytes_are_two_halves(t);
        crate::arith_laws::law_eight_bytes_make_their_number(t.take(8));
        crate::arith_laws::law_eight_bytes_make_their_number(t.skip(8));
        assert(crate::bytes::le_value(t.take(8)) == eight_at(buf, 8));
        assert(crate::bytes::le_value(t.skip(8)) == eight_at(buf, 16));
        assert(crate::packet::MAGIC@ =~= seq![0x43u8, 0x53u8, 0x59u8, 0x31u8]);
    }
}

/// In a frame the first `CSY1` with 24 bytes from there on is the packet; a
/// frame without one holds none.
pub proof fn law_frame_is_searched_from_the_front(buf: Seq<u8>, i: int)
    ensures
        csy1_at(buf, i) && i + 24 <= buf.len() && (forall|j: int|
            0 <= j < i ==> !#[trigger] csy1_at(buf, j)) ==> crate::packet::find(buf)
            == crate::packet::decode(buf.skip(i)) && crate::packet::find(buf) is Some,
        (forall|j: int| 0 <= j && j + 24 <= buf.len() ==> !#[trigger] csy1_at(buf, j))
            ==> crate::packet::find(buf) is None,
{
    lemma_mark(buf, i);
    if csy1_at(buf, i) && i + 24 <= buf.len() && (forall|j: int|
        0 <= j < i ==> !#[trigger] csy1_at(buf, j)) {
        assert forall|j: int| 0 <= j < i implies !#[trigger] crate::packet::magic_at(buf, j) by {
            lemma_mark(buf, j);
            assert(!csy1_at(buf, j));
        }
        assert(crate::packet::first_packet_at(buf, i));
        let k = choose|k: int| crate::packet::first_packet_at(buf, k);
        assert(crate::packet::first_packet_at(buf, k));
        lemma_mark(buf, k);
        if k < i {
            assert(!csy1_at(buf, k));
        } else if i < k {
            assert(!crate::packet::magic_at(buf, i));
        }
        let rest = buf.skip(i);
        assert(csy1_at(rest, 0));
        law_parse_reads_number_and_time(rest);
    }
    if forall|j: int| 0 <= j && j + 24 <= buf.len() ==> !#[trigger] csy1_at(buf, j) {
        assert forall|k: int| !crate::packet::first_packet_at(buf, k) by {
            lemma_mark(buf, k);
            if 0 <= k && k + 24 <= buf.len() {
                assert(!csy1_at(buf, k));
            }
        }
    }
}

} // verus!
