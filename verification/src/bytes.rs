//! Little-endian integers in byte buffers.

use vstd::prelude::*;

verus! {

/// The number that a little-endian byte sequence stands for.
pub open spec fn le_value(b: Seq<u8>) -> nat
    decreases b.len(),
{
    if b.len() == 0 {
        0
    } else {
        b[0] as nat + 256 * le_value(b.skip(1))
    }
}

/// The `n` low bytes of `v`, least significant first.
pub open spec fn le_bytes(v: nat, n: nat) -> Seq<u8>
    decreases n,
{
    if n == 0 {
        Seq::empty()
    } else {
        seq![(v % 256) as u8] + le_bytes(v / 256, (n - 1) as nat)
    }
}

/// 256 to the power `n`.
pub open spec fn pow256(n: nat) -> nat
    decreases n,
{
    if n == 0 {
        1
    } else {
        256 * pow256((n - 1) as nat)
    }
}

/// `n` bytes hold a number below 256 to the power `n`.
pub proof fn lemma_le_value_bound(b: Seq<u8>)
    ensures
        le_value(b) < pow256(b.len()),
    decreases b.len(),
{
    if b.len() > 0 {
        lemma_le_value_bound(b.skip(1));
    }
}

/// The powers of 256 that the integer widths reach.
pub proof fn lemma_pow256_widths()
    ensures
        pow256(4) == 0x1_0000_0000,
        pow256(8) == 0x1_0000_0000_0000_0000,
        pow256(16) == 0x1_0000_0000_0000_0000_0000_0000_0000_0000nat,
{
    reveal_with_fuel(pow256, 17);
}

proof fn lemma_pow256_monotone(m: nat, n: nat)
    requires
        m <= n,
    ensures
        pow256(m) <= pow256(n),
    decreases n,
{
    if m < n {
        lemma_pow256_monotone(m, (n - 1) as nat);
    }
}

/// Writing a number and reading it back gives the number.
pub proof fn lemma_le_value_of_bytes(v: nat, n: nat)
    requires
        v < pow256(n),
    ensures
        le_value(le_bytes(v, n)) == v,
        le_bytes(v, n).len() == n,
    decreases n,
{
    if n > 0 {
        let rest = le_bytes(v / 256, (n - 1) as nat);
        lemma_le_value_of_bytes(v / 256, (n - 1) as nat);
        assert(le_bytes(v, n).skip(1) =~= rest);
    }
}

/// Reading bytes and writing the number back gives the bytes.
pub proof fn lemma_le_bytes_of_value(b: Seq<u8>)
    ensures
        le_bytes(le_value(b), b.len()) == b,
    decreases b.len(),
{
    if b.len() > 0 {
        lemma_le_bytes_of_value(b.skip(1));
        assert(le_bytes(le_value(b), b.len()) =~= b);
    } else {
        assert(le_bytes(le_value(b), b.len()) =~= b);
    }
}

/// Reads `n` little-endian bytes at `at`.
fn read_le(buf: &[u8], at: usize, n: usize) -> (v: u128)
    requires
        n <= 16,
        at + n <= buf@.len(),
    ensures
        v == le_value(buf@.subrange(at as int, at + n)),
{
    let end: usize = buf.len();
    let mut v: u128 = 0;
    let mut i: usize = n;
    proof {
        assert(buf@.subrange(at + n, at + n) =~= Seq::<u8>::empty());
    }
    while i > 0
        invariant
            i <= n <= 16,
            at + n <= buf@.len(),
            end == buf@.len(),
            v == le_value(buf@.subrange(at + i, at + n)),
        decreases i,
    {
        i = i - 1;
        proof {
            let s = buf@.subrange(at + i, at + n);
            assert(s.skip(1) =~= buf@.subrange(at + i + 1, at + n));
            lemma_le_value_bound(s);
            lemma_pow256_monotone(s.len(), 16);
            lemma_pow256_widths();
        }
        v = v * 256 + buf[at + i] as u128;
    }
    v
}

/// Reads a 32-bit number at `at`.
pub fn read_u32_le(buf: &[u8], at: usize) -> (v: u32)
    requires
        at + 4 <= buf@.len(),
    ensures
        v == le_value(buf@.subrange(at as int, at + 4)),
{
    proof {
        lemma_le_value_bound(buf@.subrange(at as int, at + 4));
        lemma_pow256_widths();
    }
    read_le(buf, at, 4) as u32
}

/// Reads a 64-bit number at `at`.
pub fn read_u64_le(buf: &[u8], at: usize) -> (v: u64)
    requires
        at + 8 <= buf@.len(),
    ensures
        v == le_value(buf@.subrange(at as int, at + 8)),
{
    proof {
        lemma_le_value_bound(buf@.subrange(at as int, at + 8));
        lemma_pow256_widths();
    }
    read_le(buf, at, 8) as u64
}

/// Reads a 128-bit number at `at`.
pub fn read_u128_le(buf: &[u8], at: usize) -> (v: u128)
    requires
        at + 16 <= buf@.len(),
    ensures
        v == le_value(buf@.subrange(at as int, at + 16)),
{
    read_le(buf, at, 16)
}

/// `n` bytes are written for a width of `n`.
pub proof fn lemma_le_bytes_len(v: nat, n: nat)
    ensures
        le_bytes(v, n).len() == n,
    decreases n,
{
    if n > 0 {
        lemma_le_bytes_len(v / 256, (n - 1) as nat);
    }
}

/// Writes the `n` low bytes of `v` at `at`.
pub fn put_le<const N: usize>(out: &mut [u8; N], at: usize, n: usize, v: u128)
    requires
        at + n <= N,
    ensures
        final(out)@ == old(out)@.take(at as int) + le_bytes(v as nat, n as nat) + old(out)@.skip(
            at + n,
        ),
{
    let ghost start = out@;
    let ghost full = le_bytes(v as nat, n as nat);
    proof {
        lemma_le_bytes_len(v as nat, n as nat);
        assert(full.skip(0) =~= full);
    }
    let mut rest: u128 = v;
    let mut i: usize = 0;
    while i < n
        invariant
            i <= n,
            at + n <= N,
            start.len() == N,
            full.len() == n,
            le_bytes(rest as nat, (n - i) as nat) == full.skip(i as int),
            forall|j: int| 0 <= j < i ==> out@[at + j] == #[trigger] full[j],
            forall|j: int| 0 <= j < N && !(at <= j < at + i) ==> out@[j] == #[trigger] start[j],
        decreases n - i,
    {
        let ghost left = full.skip(i as int);
        assert(left[0] == full[i as int]);
        assert(left.skip(1) =~= full.skip(i + 1));
        assert(left.skip(1) =~= le_bytes(rest as nat / 256, (n - i - 1) as nat));
        out[at + i] = (rest % 256) as u8;
        rest = rest / 256;
        i = i + 1;
    }
    assert(out@ =~= start.take(at as int) + full + start.skip(at + n)) by {
        assert forall|j: int| at <= j < at + n implies out@[j] == full[j - at] by {
            assert(out@[at + (j - at)] == full[j - at]);
        }
    }
}

} // verus!
