//! The canonical byte encoding of integers: fixed width, most significant
//! byte first.

use vstd::prelude::*;

verus! {

/// The number that `bytes` spell, most significant byte first.
pub open spec fn be_value(bytes: Seq<u8>) -> nat
    decreases bytes.len(),
{
    if bytes.len() == 0 {
        0
    } else {
        be_value(bytes.drop_last()) * 256 + bytes.last() as nat
    }
}

/// The eight bytes of `x`, most significant byte first.
pub open spec fn be_bytes(x: u64) -> Seq<u8> {
    seq![
        (x >> 56) as u8,
        ((x >> 48) & 0xff) as u8,
        ((x >> 40) & 0xff) as u8,
        ((x >> 32) & 0xff) as u8,
        ((x >> 24) & 0xff) as u8,
        ((x >> 16) & 0xff) as u8,
        ((x >> 8) & 0xff) as u8,
        (x & 0xff) as u8,
    ]
}

/// The eight bytes of `x`, most significant byte first.
pub fn u64_be_bytes(x: u64) -> (bytes: [u8; 8])
    ensures
        bytes@ == be_bytes(x),
{
    let bytes = [
        (x >> 56) as u8,
        ((x >> 48) & 0xff) as u8,
        ((x >> 40) & 0xff) as u8,
        ((x >> 32) & 0xff) as u8,
        ((x >> 24) & 0xff) as u8,
        ((x >> 16) & 0xff) as u8,
        ((x >> 8) & 0xff) as u8,
        (x & 0xff) as u8,
    ];
    assert(bytes@ =~= be_bytes(x));
    bytes
}

/// Appends `bytes` to `out`.
pub fn append_bytes(out: &mut Vec<u8>, bytes: &[u8])
    ensures
        final(out)@ == old(out)@ + bytes@,
{
    out.extend_from_slice(bytes);
    assert(out@ =~= old(out)@ + bytes@);
}

/// The eight bytes of `x` spell `x`.
pub proof fn lemma_be_bytes_value(x: u64)
    ensures
        be_bytes(x).len() == 8,
        be_value(be_bytes(x)) == x,
{
    let b = be_bytes(x);
    let b7 = b.drop_last();
    let b6 = b7.drop_last();
    let b5 = b6.drop_last();
    let b4 = b5.drop_last();
    let b3 = b4.drop_last();
    let b2 = b3.drop_last();
    let b1 = b2.drop_last();
    let b0 = b1.drop_last();
    assert(b0.len() == 0);
    assert(be_value(b0) == 0);
    assert(be_value(b1) == b[0]);
    assert(be_value(b2) == be_value(b1) * 256 + b[1]);
    assert(be_value(b3) == be_value(b2) * 256 + b[2]);
    assert(be_value(b4) == be_value(b3) * 256 + b[3]);
    assert(be_value(b5) == be_value(b4) * 256 + b[4]);
    assert(be_value(b6) == be_value(b5) * 256 + b[5]);
    assert(be_value(b7) == be_value(b6) * 256 + b[6]);
    assert(be_value(b) == be_value(b7) * 256 + b[7]);
    let v0 = b[0] as u64;
    let v1 = b[1] as u64;
    let v2 = b[2] as u64;
    let v3 = b[3] as u64;
    let v4 = b[4] as u64;
    let v5 = b[5] as u64;
    let v6 = b[6] as u64;
    let v7 = b[7] as u64;
    assert(x == v0 * 0x100_0000_0000_0000 + v1 * 0x1_0000_0000_0000 + v2 * 0x100_0000_0000 + v3
        * 0x1_0000_0000 + v4 * 0x100_0000 + v5 * 0x1_0000 + v6 * 0x100 + v7) by (bit_vector)
        requires
            v0 == (x >> 56) as u8 as u64,
            v1 == ((x >> 48) & 0xff) as u8 as u64,
            v2 == ((x >> 40) & 0xff) as u8 as u64,
            v3 == ((x >> 32) & 0xff) as u8 as u64,
            v4 == ((x >> 24) & 0xff) as u8 as u64,
            v5 == ((x >> 16) & 0xff) as u8 as u64,
            v6 == ((x >> 8) & 0xff) as u8 as u64,
            v7 == (x & 0xff) as u8 as u64,
    ;
}

/// Distinct numbers have distinct encodings.
pub proof fn lemma_be_bytes_injective(x: u64, y: u64)
    ensures
        be_bytes(x) == be_bytes(y) <==> x == y,
{
    lemma_be_bytes_value(x);
    lemma_be_bytes_value(y);
}

/// One more byte at the end shifts the number by a byte and adds the byte.
pub proof fn lemma_be_value_step(bytes: Seq<u8>, k: int)
    requires
        0 <= k < bytes.len(),
    ensures
        be_value(bytes.take(k + 1)) == be_value(bytes.take(k)) * 256 + bytes[k],
{
    assert(bytes.take(k + 1).drop_last() =~= bytes.take(k));
}

/// Of two byte strings of one length, the one that spells the smaller number
/// on some prefix spells the smaller number as a whole.
pub proof fn lemma_be_value_order(a: Seq<u8>, b: Seq<u8>, k: int)
    requires
        a.len() == b.len(),
        0 <= k <= a.len(),
        be_value(a.take(k)) < be_value(b.take(k)),
    ensures
        be_value(a) < be_value(b),
    decreases a.len() - k,
{
    if k == a.len() {
        assert(a.take(k) =~= a);
        assert(b.take(k) =~= b);
    } else {
        lemma_be_value_step(a, k);
        lemma_be_value_step(b, k);
        lemma_be_value_order(a, b, k + 1);
    }
}

} // verus!
