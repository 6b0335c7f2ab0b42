//! Packing of rendered samples into the interleaved stereo byte stream of the DAC.
use vstd::prelude::*;

verus! {

/// The 16-bit two's-complement pattern of a sample, as an unsigned number.
pub open spec fn sample_bits(s: i16) -> int {
    if s < 0 {
        s + 65536
    } else {
        s as int
    }
}

/// The low byte of a sample in little-endian order.
pub open spec fn low_byte(s: i16) -> u8 {
    (sample_bits(s) % 256) as u8
}

/// The high byte of a sample in little-endian order.
pub open spec fn high_byte(s: i16) -> u8 {
    (sample_bits(s) / 256) as u8
}

/// How many frames fit: the whole frames of the byte buffer, at most the samples left.
pub open spec fn frames_to_copy(samples_left: int, buf_len: nat) -> int {
    let whole: int = (buf_len / 4) as int;
    if whole < samples_left {
        whole
    } else {
        samples_left
    }
}

/// Writes the samples from position `pushed` on as stereo frames, the same sample on both
/// channels, each channel a little-endian 16-bit word, for as many frames as fit in `buf`;
/// returns the number of bytes written.
pub fn fill_stereo_frames(samples: &[i16], pushed: usize, buf: &mut [u8]) -> (written: usize)
    requires
        pushed <= samples@.len(),
    ensures
        written == 4 * frames_to_copy(samples@.len() - pushed, old(buf)@.len()),
        old(buf)@.len() / 4 <= samples@.len() - pushed ==> written == 4 * (old(buf)@.len() / 4),
        samples@.len() - pushed <= old(buf)@.len() / 4 ==> written == 4 * (samples@.len() - pushed),
        final(buf)@.len() == old(buf)@.len(),
        forall|k: int|
            0 <= k < frames_to_copy(samples@.len() - pushed, old(buf)@.len()) ==> {
                let s = #[trigger] samples@[pushed + k];
                &&& final(buf)@[4 * k] == low_byte(s)
                &&& final(buf)@[4 * k + 1] == high_byte(s)
                &&& final(buf)@[4 * k + 2] == low_byte(s)
                &&& final(buf)@[4 * k + 3] == high_byte(s)
            },
        forall|j: int|
            4 * frames_to_copy(samples@.len() - pushed, old(buf)@.len()) <= j < old(buf)@.len()
                ==> #[trigger] final(buf)@[j] == old(buf)@[j],
{
    let space_in_dma = buf.len() / 4;
    let remaining = samples.len() - pushed;
    let to_copy = if space_in_dma < remaining {
        space_in_dma
    } else {
        remaining
    };
    let ghost b0 = buf@;
    let mut i: usize = 0;
    while i < to_copy
        invariant
            to_copy == frames_to_copy(samples@.len() - pushed, b0.len()),
            pushed + to_copy <= samples@.len(),
            samples@.len() == samples.len(),
            b0.len() == buf.len(),
            4 * to_copy <= b0.len(),
            buf@.len() == b0.len(),
            i <= to_copy,
            forall|k: int|
                0 <= k < i ==> {
                    let s = #[trigger] samples@[pushed + k];
                    &&& buf@[4 * k] == low_byte(s)
                    &&& buf@[4 * k + 1] == high_byte(s)
                    &&& buf@[4 * k + 2] == low_byte(s)
                    &&& buf@[4 * k + 3] == high_byte(s)
                },
            forall|j: int| 4 * i <= j < b0.len() ==> #[trigger] buf@[j] == b0[j],
        decreases to_copy - i,
    {
        let sample = samples[pushed + i];
        let bits = sample as u16;
        assert(bits as int == sample_bits(sample)) by (bit_vector)
            requires
                bits == sample as u16,
        ;
        assert(bits & 0xff == bits % 256) by (bit_vector);
        assert(bits >> 8 == bits / 256) by (bit_vector);
        let lo = (bits & 0xff) as u8;
        let hi = (bits >> 8) as u8;
        let base = i * 4;
        buf[base] = lo;
        buf[base + 1] = hi;
        buf[base + 2] = lo;
        buf[base + 3] = hi;
        i += 1;
    }
    to_copy * 4
}

/// The frames copied are as many as fit, `buf_len / 4` whole frames, or as many as there
/// are samples left, whichever is fewer; they never overrun the buffer, and a buffer of
/// `4 * k` bytes with at least `k` samples left is filled completely.
pub proof fn lemma_frames_to_copy(samples_left: int, buf_len: nat)
    requires
        samples_left >= 0,
    ensures
        frames_to_copy(samples_left, buf_len) == if buf_len / 4 <= samples_left {
            (buf_len / 4) as int
        } else {
            samples_left
        },
        0 <= 4 * frames_to_copy(samples_left, buf_len) <= buf_len,
        buf_len % 4 == 0 && samples_left >= buf_len / 4 ==> 4 * frames_to_copy(samples_left, buf_len)
            == buf_len,
{
}

} // verus!
