//! The record checksum: one byte that balances the byte-wise sum of a
//! record, so that the whole record sums to zero modulo 256.

use vstd::arithmetic::div_mod::lemma_add_mod_noop;
use vstd::prelude::*;

verus! {

/// The integer sum of a byte sequence.
pub open spec fn sum_of_bytes(s: Seq<u8>) -> int
    decreases s.len(),
{
    if s.len() == 0 {
        0
    } else {
        sum_of_bytes(s.drop_last()) + s.last()
    }
}

/// The two's-complement checksum of a byte sequence: the byte that,
/// added to the sum of the sequence, makes the total divisible by 256.
pub open spec fn spec_checksum(s: Seq<u8>) -> u8 {
    ((256 - sum_of_bytes(s) % 256) % 256) as u8
}

/// The sum of a byte sequence is never negative.
pub proof fn lemma_sum_of_bytes_nonneg(s: Seq<u8>)
    ensures
        sum_of_bytes(s) >= 0,
    decreases s.len(),
{
    if s.len() > 0 {
        lemma_sum_of_bytes_nonneg(s.drop_last());
    }
}

/// Law: appending the checksum of a byte sequence to the sequence
/// itself makes the byte-wise sum divisible by 256.
pub proof fn lemma_checksum_neutralizes(s: Seq<u8>)
    ensures
        sum_of_bytes(s.push(spec_checksum(s))) % 256 == 0,
{
    lemma_sum_of_bytes_nonneg(s);
    let total = sum_of_bytes(s);
    let c = spec_checksum(s);
    assert(s.push(c).drop_last() =~= s);
    assert(sum_of_bytes(s.push(c)) == total + c);
    lemma_add_mod_noop(total, c as int, 256);
    assert((total % 256 + (c as int) % 256) % 256 == 0);
}

/// Computes the record checksum of `bytes`: the low eight bits of the
/// sum, negated in two's complement.
pub fn calc_checksum(bytes: &Vec<u8>) -> (r: u8)
    ensures
        r == spec_checksum(bytes@),
        (sum_of_bytes(bytes@) + r) % 256 == 0,
{
    let mut sum: u32 = 0;
    let mut i: usize = 0;
    while i < bytes.len()
        invariant
            i <= bytes.len(),
            sum < 256,
            sum == sum_of_bytes(bytes@.take(i as int)) % 256,
        decreases bytes.len() - i,
    {
        proof {
            assert(bytes@.take(i + 1).drop_last() =~= bytes@.take(i as int));
            lemma_sum_of_bytes_nonneg(bytes@.take(i as int));
            lemma_add_mod_noop(sum_of_bytes(bytes@.take(i as int)), bytes@[i as int] as int, 256);
        }
        sum = (sum + bytes[i] as u32) % 256;
        i += 1;
    }
    proof {
        assert(bytes@.take(bytes@.len() as int) =~= bytes@);
        lemma_sum_of_bytes_nonneg(bytes@);
        lemma_add_mod_noop(sum_of_bytes(bytes@), spec_checksum(bytes@) as int, 256);
    }
    ((256 - sum) % 256) as u8
}

} // verus!
