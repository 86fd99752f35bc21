//! The audio that is sent: little-endian PCM of sixteen bits, which the requests declare as
//! `linear16`.

use vstd::prelude::*;

verus! {

/// A sample as a number from 0 to 65535, the negative ones above the others.
pub open spec fn unsigned(sample: i16) -> int {
    if sample < 0 {
        sample + 65536
    } else {
        sample as int
    }
}

/// The samples in order, each as its low and then its high byte.
pub open spec fn linear16_bytes(samples: Seq<i16>) -> Seq<u8> {
    Seq::new(
        2 * samples.len(),
        |k: int|
            if k % 2 == 0 {
                (unsigned(samples[k / 2]) % 256) as u8
            } else {
                (unsigned(samples[k / 2]) / 256) as u8
            },
    )
}

/// The samples in order, each as its low and then its high byte.
pub fn linear16(samples: &[i16]) -> (r: Vec<u8>)
    ensures
        r@ == linear16_bytes(samples@),
{
    let mut bytes: Vec<u8> = Vec::new();
    let mut i: usize = 0;
    while i < samples.len()
        invariant
            i <= samples@.len(),
            bytes@ == linear16_bytes(samples@.take(i as int)),
        decreases samples@.len() - i,
    {
        let sample: i32 = samples[i] as i32;
        let value: u32 = if sample < 0 {
            (sample + 65536) as u32
        } else {
            sample as u32
        };
        bytes.push((value % 256) as u8);
        bytes.push((value / 256) as u8);
        assert(bytes@ =~= linear16_bytes(samples@.take(i + 1)));
        i += 1;
    }
    assert(samples@.take(i as int) =~= samples@);
    bytes
}

/// The sample that a low and a high byte stand for.
pub open spec fn sample_of(low: u8, high: u8) -> int {
    let value = low + 256 * high;
    if value < 32768 {
        value
    } else {
        value - 65536
    }
}

/// Every sample can be read back from its two bytes, and there is nothing else.
pub proof fn law_samples_read_back(samples: Seq<i16>, i: int)
    requires
        0 <= i < samples.len(),
    ensures
        linear16_bytes(samples).len() == 2 * samples.len(),
        sample_of(linear16_bytes(samples)[2 * i], linear16_bytes(samples)[2 * i + 1])
            == samples[i],
{
    assert((2 * i) / 2 == i && (2 * i) % 2 == 0);
    assert((2 * i + 1) / 2 == i && (2 * i + 1) % 2 == 1);
}

/// The bytes are the samples in two's complement: each pair, low byte first, is its sample
/// up to a multiple of 65536, and samples do not bear on one another's bytes.
pub proof fn law_bytes_are_twos_complement(samples: Seq<i16>, i: int)
    requires
        0 <= i < samples.len(),
    ensures
        linear16_bytes(samples).len() == 2 * samples.len(),
        linear16_bytes(samples)[2 * i] + 256 * linear16_bytes(samples)[2 * i + 1] == if samples[i]
            < 0 {
            samples[i] + 65536
        } else {
            samples[i] as int
        },
{
    assert((2 * i) / 2 == i && (2 * i) % 2 == 0);
    assert((2 * i + 1) / 2 == i && (2 * i + 1) % 2 == 1);
}

/// Audio that is sent in pieces is the audio sent whole.
pub proof fn law_pieces_make_the_whole(a: Seq<i16>, b: Seq<i16>)
    ensures
        linear16_bytes(a + b) == linear16_bytes(a) + linear16_bytes(b),
{
    let whole = linear16_bytes(a + b);
    let parts = linear16_bytes(a) + linear16_bytes(b);
    assert forall|k: int| 0 <= k < whole.len() implies whole[k] == parts[k] by {
        if k < 2 * a.len() {
            assert((a + b)[k / 2] == a[k / 2]);
        } else {
            let at = k - 2 * a.len();
            assert(at / 2 == k / 2 - a.len() && at % 2 == k % 2);
            assert((a + b)[k / 2] == b[at / 2]);
        }
    }
    assert(whole =~= parts);
}

} // verus!
