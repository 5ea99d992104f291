//! Little-endian integers in byte sequences.
use vstd::prelude::*;

verus! {

/// The four little-endian bytes of `x`.
pub open spec fn le32(x: u32) -> Seq<u8> {
    seq![
        (x % 256) as u8,
        ((x / 256) % 256) as u8,
        ((x / 65536) % 256) as u8,
        (x / 16777216) as u8,
    ]
}

/// The `u32` stored little-endian at `off` in `data`.
pub open spec fn le32_at(data: Seq<u8>, off: int) -> u32 {
    (data[off] + data[off + 1] * 256 + data[off + 2] * 65536 + data[off + 3] * 16777216) as u32
}

/// `n` zero bytes.
pub open spec fn zeros(n: nat) -> Seq<u8> {
    Seq::new(n, |i: int| 0u8)
}

/// Reading back four written bytes gives the number written.
pub proof fn lemma_le32_roundtrip(x: u32, pre: Seq<u8>, post: Seq<u8>)
    ensures
        le32_at(pre + le32(x) + post, pre.len() as int) == x,
{
    let s = pre + le32(x) + post;
    let o = pre.len() as int;
    assert(s[o] == (x % 256) as u8);
    assert(s[o + 1] == ((x / 256) % 256) as u8);
    assert(s[o + 2] == ((x / 65536) % 256) as u8);
    assert(s[o + 3] == (x / 16777216) as u8);
    assert((x % 256) + ((x / 256) % 256) * 256 + ((x / 65536) % 256) * 65536 + (x / 16777216) * 16777216 == x)
        by (nonlinear_arith);
}

/// Appends the little-endian bytes of `x`.
pub fn push_le32(out: &mut Vec<u8>, x: u32)
    ensures
        final(out)@ == old(out)@ + le32(x),
{
    out.push((x % 256) as u8);
    out.push(((x / 256) % 256) as u8);
    out.push(((x / 65536) % 256) as u8);
    out.push((x / 16777216) as u8);
    proof {
        assert(final(out)@ =~= old(out)@ + le32(x));
    }
}

/// Reads the little-endian `u32` at `off`.
pub fn read_le32(data: &[u8], off: usize) -> (x: u32)
    requires
        off + 4 <= data@.len(),
    ensures
        x == le32_at(data@, off as int),
{
    let b0 = data[off] as u32;
    let b1 = data[off + 1] as u32;
    let b2 = data[off + 2] as u32;
    let b3 = data[off + 3] as u32;
    b0 + b1 * 256 + b2 * 65536 + b3 * 16777216
}

/// Appends all of `bytes`.
pub fn push_all(out: &mut Vec<u8>, bytes: &[u8])
    ensures
        final(out)@ == old(out)@ + bytes@,
{
    let mut i: usize = 0;
    proof {
        assert(old(out)@ + bytes@.take(0) =~= old(out)@);
    }
    while i < bytes.len()
        invariant
            i <= bytes@.len(),
            out@ == old(out)@ + bytes@.take(i as int),
        decreases bytes@.len() - i,
    {
        out.push(bytes[i]);
        i = i + 1;
        proof {
            assert(out@ =~= old(out)@ + bytes@.take(i as int));
        }
    }
    proof {
        assert(bytes@.take(i as int) =~= bytes@);
    }
}

/// `n` rounded up to a multiple of four.
pub open spec fn padded4(n: nat) -> nat {
    ((n + 3) / 4 * 4) as nat
}

/// Rounds `n` up to a multiple of four by clearing the low bits of `n + 3`.
pub fn pad4(n: usize) -> (r: usize)
    requires
        n + 3 <= usize::MAX,
    ensures
        r == padded4(n as nat),
{
    let m = n + 3;
    let r = m & !3usize;
    assert(m & !3usize == m - m % 4) by (bit_vector);
    r
}

/// Appends `n` zero bytes.
pub fn push_zeros(out: &mut Vec<u8>, n: usize)
    ensures
        final(out)@ == old(out)@ + zeros(n as nat),
{
    let mut i: usize = 0;
    proof {
        assert(old(out)@ + zeros(0) =~= old(out)@);
    }
    while i < n
        invariant
            i <= n,
            out@ == old(out)@ + zeros(i as nat),
        decreases n - i,
    {
        out.push(0u8);
        i = i + 1;
        proof {
            assert(out@ =~= old(out)@ + zeros(i as nat));
        }
    }
}

} // verus!
