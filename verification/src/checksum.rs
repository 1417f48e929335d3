//! Fletcher-style 16-bit checksum over a byte sequence.

use vstd::prelude::*;

verus! {

/// First accumulator: the running sum of the bytes, reduced modulo 255 after
/// every byte.
pub open spec fn sum1_spec(data: Seq<u8>) -> nat
    decreases data.len(),
{
    if data.len() == 0 {
        0
    } else {
        ((sum1_spec(data.drop_last()) + data.last() as nat) % 255) as nat
    }
}

/// Second accumulator: the running sum of the first accumulator's values,
/// reduced modulo 255 after every byte.
pub open spec fn sum2_spec(data: Seq<u8>) -> nat
    decreases data.len(),
{
    if data.len() == 0 {
        0
    } else {
        ((sum2_spec(data.drop_last()) + sum1_spec(data)) % 255) as nat
    }
}

/// The checksum: the second accumulator in the high byte, the first in the
/// low byte.
pub open spec fn fletcher16_spec(data: Seq<u8>) -> nat {
    sum2_spec(data) * 256 + sum1_spec(data)
}

/// Both accumulators stay below 255, so the checksum's two bytes never carry
/// into each other and neither byte is ever 255.
pub proof fn lemma_sums_bounded(data: Seq<u8>)
    ensures
        sum1_spec(data) < 255,
        sum2_spec(data) < 255,
        fletcher16_spec(data) <= 254 * 256 + 254,
    decreases data.len(),
{
    if data.len() > 0 {
        lemma_sums_bounded(data.drop_last());
    }
}

/// Computes the checksum of `data`.
pub fn fletcher16(data: &[u8]) -> (sum: u16)
    ensures
        sum as nat == fletcher16_spec(data@),
{
    let mut sum1: u16 = 0;
    let mut sum2: u16 = 0;
    let mut index: usize = 0;
    while index < data.len()
        invariant
            index <= data.len(),
            sum1 as nat == sum1_spec(data@.take(index as int)),
            sum2 as nat == sum2_spec(data@.take(index as int)),
            sum1 < 255,
            sum2 < 255,
        decreases data.len() - index,
    {
        proof {
            assert(data@.take(index + 1).drop_last() =~= data@.take(index as int));
        }
        sum1 = (sum1 + data[index] as u16) % 255;
        sum2 = (sum2 + sum1) % 255;
        index += 1;
    }
    proof {
        assert(data@.take(index as int) =~= data@);
        assert((sum2 << 8) | sum1 == sum2 * 256 + sum1) by (bit_vector)
            requires
                sum1 < 255,
                sum2 < 255,
        ;
    }
    (sum2 << 8) | sum1
}

} // verus!
