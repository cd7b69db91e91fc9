//! Peak amplitude of one buffer of interleaved 32-bit float samples.
//!
//! Samples are handled as their IEEE 754 binary32 bit patterns, stored
//! little-endian in the buffer. Clearing the sign bit gives a sample's
//! magnitude, and for magnitudes that are not NaN the order of the bit
//! patterns as unsigned integers is the numeric order of the values.
use vstd::prelude::*;

verus! {

/// Bit pattern of the smallest NaN magnitude: positive infinity is one below.
pub const NAN_MAGNITUDE_START: u32 = 0x7f80_0001;

/// One more than the largest magnitude: the position of the sign bit.
pub const SIGN_BIT: u32 = 0x8000_0000;

/// Bytes taken by one sample.
pub const SAMPLE_BYTES: u32 = 4;

/// The buffer's reported length cannot be read as whole float samples.
#[derive(Debug, Clone, Copy, PartialEq, Eq, Structural)]
pub enum MalformedBufferError {
    /// The chunk claims more bytes than the buffer holds.
    ChunkPastEnd,
    /// The chunk size is not a whole number of samples.
    PartialSample,
}

/// The bit pattern of `bits` with its sign bit cleared.
pub open spec fn magnitude(bits: u32) -> u32 {
    (bits % SIGN_BIT) as u32
}

/// Whether a magnitude is the pattern of a NaN.
pub open spec fn is_nan_magnitude(m: u32) -> bool {
    m >= NAN_MAGNITUDE_START
}

/// The sample at index `i`, read little-endian from four bytes.
pub open spec fn sample_bits(data: Seq<u8>, i: int) -> u32 {
    (data[4 * i] as int
        + data[4 * i + 1] as int * 0x100
        + data[4 * i + 2] as int * 0x1_0000
        + data[4 * i + 3] as int * 0x100_0000) as u32
}

/// Largest magnitude among the first `n` samples, NaNs left out; zero when
/// there is none.
pub open spec fn peak_of(data: Seq<u8>, n: nat) -> u32
    decreases n,
{
    if n == 0 {
        0
    } else {
        let m = peak_of(data, (n - 1) as nat);
        let a = magnitude(sample_bits(data, n - 1));
        if is_nan_magnitude(a) || a <= m {
            m
        } else {
            a
        }
    }
}

/// The peak of the first `n` samples is at least the magnitude of each of
/// them that is not NaN, and is zero or the magnitude of one of them.
pub proof fn lemma_peak_is_max(data: Seq<u8>, n: nat)
    ensures
        forall|i: int|
            0 <= i < n && !is_nan_magnitude(magnitude(#[trigger] sample_bits(data, i))) ==> magnitude(
                sample_bits(data, i),
            ) <= peak_of(data, n),
        !is_nan_magnitude(peak_of(data, n)),
        peak_of(data, n) == 0 || exists|i: int|
            0 <= i < n && peak_of(data, n) == magnitude(#[trigger] sample_bits(data, i)),
    decreases n,
{
    if n > 0 {
        lemma_peak_is_max(data, (n - 1) as nat);
        let a = magnitude(sample_bits(data, n - 1));
        if !(is_nan_magnitude(a) || a <= peak_of(data, (n - 1) as nat)) {
            assert(peak_of(data, n) == magnitude(sample_bits(data, n - 1)));
        }
    }
}

/// Whether `bits` has its sign bit set.
pub open spec fn is_negative(bits: u32) -> bool {
    bits >= SIGN_BIT
}

/// The comparison `a > b` of the binary32 values with bit patterns `a` and
/// `b`: false when either is NaN, and zeros of either sign are equal.
pub open spec fn f32_gt(a: u32, b: u32) -> bool {
    let ma = magnitude(a);
    let mb = magnitude(b);
    if is_nan_magnitude(ma) || is_nan_magnitude(mb) {
        false
    } else if ma == 0 && mb == 0 {
        false
    } else if !is_negative(a) && !is_negative(b) {
        ma > mb
    } else if is_negative(a) && is_negative(b) {
        ma < mb
    } else {
        !is_negative(a)
    }
}

/// Computes `a > b` on the binary32 values with bit patterns `a` and `b`.
pub fn gt_bits(a: u32, b: u32) -> (r: bool)
    ensures
        r == f32_gt(a, b),
{
    let ma = a % SIGN_BIT;
    let mb = b % SIGN_BIT;
    if ma >= NAN_MAGNITUDE_START || mb >= NAN_MAGNITUDE_START {
        false
    } else if ma == 0 && mb == 0 {
        false
    } else if a < SIGN_BIT && b < SIGN_BIT {
        ma > mb
    } else if a >= SIGN_BIT && b >= SIGN_BIT {
        ma < mb
    } else {
        a < SIGN_BIT
    }
}

/// Whether a chunk of `chunk_size` bytes within a buffer of `len` bytes
/// holds whole samples only.
pub open spec fn chunk_error(len: nat, chunk_size: nat) -> Option<MalformedBufferError> {
    if chunk_size > len {
        Some(MalformedBufferError::ChunkPastEnd)
    } else if chunk_size % 4 != 0 {
        Some(MalformedBufferError::PartialSample)
    } else {
        None
    }
}

/// Reads the sample at index `i` of `data`.
fn read_sample(data: &[u8], i: usize) -> (r: u32)
    requires
        4 * i + 4 <= data@.len(),
        4 * i + 4 <= u32::MAX,
    ensures
        r == sample_bits(data@, i as int),
{
    let b0 = data[4 * i] as u32;
    let b1 = data[4 * i + 1] as u32;
    let b2 = data[4 * i + 2] as u32;
    let b3 = data[4 * i + 3] as u32;
    b0 + b1 * 0x100 + b2 * 0x1_0000 + b3 * 0x100_0000
}

/// Peak magnitude, as a bit pattern, of the first `chunk_size` bytes of
/// `data`, read as little-endian binary32 samples of any number of
/// interleaved channels. NaN samples are passed over; an empty chunk has
/// peak zero.
pub fn frame_peak(data: &[u8], chunk_size: u32) -> (r: Result<u32, MalformedBufferError>)
    ensures
        match chunk_error(data@.len(), chunk_size as nat) {
            Some(e) => r == Err::<u32, MalformedBufferError>(e),
            None => r == Ok::<u32, MalformedBufferError>(peak_of(data@, (chunk_size / 4) as nat)),
        },
{
    if chunk_size as usize > data.len() {
        return Err(MalformedBufferError::ChunkPastEnd);
    }
    if chunk_size % SAMPLE_BYTES != 0 {
        return Err(MalformedBufferError::PartialSample);
    }
    let n: usize = (chunk_size / SAMPLE_BYTES) as usize;
    let mut peak: u32 = 0;
    let mut i: usize = 0;
    while i < n
        invariant
            i <= n,
            4 * n <= data@.len(),
            4 * n <= u32::MAX,
            peak == peak_of(data@, i as nat),
        decreases n - i,
    {
        let a = read_sample(data, i) % SIGN_BIT;
        if !(a >= NAN_MAGNITUDE_START || a <= peak) {
            peak = a;
        }
        i = i + 1;
    }
    Ok(peak)
}

} // verus!
