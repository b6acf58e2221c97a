//! The frame checksum: the bitwise complement of the modulo-256 sum of the
//! frame body. Summation wraps; overflow is never an error.

use vstd::prelude::*;

verus! {

/// The modulo-256 sum of a byte sequence.
pub open spec fn sum_spec(s: Seq<u8>) -> u8
    decreases s.len(),
{
    if s.len() == 0 {
        0u8
    } else {
        ((sum_spec(s.drop_last()) + s.last()) % 256) as u8
    }
}

/// The checksum of a byte sequence: the one's complement of its modulo-256
/// sum.
pub open spec fn checksum_spec(s: Seq<u8>) -> u8 {
    sum_spec(s) ^ 0xFF
}

/// Computes the checksum of `bytes`: the wrapping sum of all bytes,
/// bit-inverted.
pub fn compute_checksum(bytes: &[u8]) -> (r: u8)
    ensures
        r == checksum_spec(bytes@),
{
    let mut sum: u8 = 0;
    let mut i: usize = 0;
    while i < bytes.len()
        invariant
            i <= bytes@.len(),
            sum == sum_spec(bytes@.take(i as int)),
        decreases bytes@.len() - i,
    {
        let b = bytes[i];
        proof {
            let pre = bytes@.take(i as int + 1);
            assert(pre.drop_last() =~= bytes@.take(i as int));
            assert(pre.last() == bytes@[i as int]);
        }
        sum = ((sum as u16 + b as u16) % 256) as u8;
        i = i + 1;
    }
    proof {
        assert(bytes@.take(bytes@.len() as int) =~= bytes@);
    }
    sum ^ 0xFF
}

/// Adding the same byte to two distinct modulo-256 sums keeps them distinct.
proof fn lemma_mod_add_injective(x: u8, y: u8, c: u8)
    requires
        x != y,
    ensures
        ((x + c) % 256) as u8 != ((y + c) % 256) as u8,
{
    assert(x != y ==> ((x + c) % 256) as u8 != ((y + c) % 256) as u8) by (bit_vector);
}

/// Changing any single byte of a sequence changes its modulo-256 sum: the sum
/// moves by the difference of the two bytes, which is not zero modulo 256.
pub proof fn lemma_sum_byte_sensitive(s: Seq<u8>, i: int, b: u8)
    requires
        0 <= i < s.len(),
        s[i] != b,
    ensures
        sum_spec(s.update(i, b)) != sum_spec(s),
    decreases s.len(),
{
    let t = s.update(i, b);
    if i == s.len() - 1 {
        assert(t.drop_last() =~= s.drop_last());
        assert(t.last() == b && s.last() == s[i]);
        lemma_mod_add_injective(b, s[i], sum_spec(s.drop_last()));
    } else {
        assert(t.drop_last() =~= s.drop_last().update(i, b));
        lemma_sum_byte_sensitive(s.drop_last(), i, b);
        assert(t.last() == s.last());
        lemma_mod_add_injective(
            sum_spec(s.drop_last().update(i, b)),
            sum_spec(s.drop_last()),
            s.last(),
        );
    }
}

/// Changing any single byte of a sequence changes its checksum.
pub proof fn lemma_checksum_byte_sensitive(s: Seq<u8>, i: int, b: u8)
    requires
        0 <= i < s.len(),
        s[i] != b,
    ensures
        checksum_spec(s.update(i, b)) != checksum_spec(s),
{
    lemma_sum_byte_sensitive(s, i, b);
    let x = sum_spec(s.update(i, b));
    let y = sum_spec(s);
    assert(x != y ==> x ^ 0xFF != y ^ 0xFF) by (bit_vector);
}

} // verus!
