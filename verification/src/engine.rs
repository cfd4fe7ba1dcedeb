//! The peak-extraction engine: detail level, chunking, per-chunk peak
//! magnitude, and scaling to the signed 8-bit output range.

use vstd::prelude::*;
use vstd::arithmetic::power2::pow2;
use vstd::arithmetic::power2::lemma_pow2_pos;
use vstd::arithmetic::power2::lemma_pow2_strictly_increases;
use vstd::arithmetic::power2::lemma_pow2_unfold;
use vstd::arithmetic::power2::lemma2_to64;
use vstd::arithmetic::power2::lemma2_to64_rest;
use vstd::arithmetic::div_mod::lemma_basic_div;
use vstd::arithmetic::div_mod::lemma_div_by_multiple;
use vstd::arithmetic::div_mod::lemma_div_is_ordered;
use vstd::arithmetic::div_mod::lemma_div_of0;
use vstd::arithmetic::div_mod::lemma_fundamental_div_mod_converse;
use vstd::arithmetic::div_mod::lemma_small_mod;
use vstd::arithmetic::div_mod::lemma_mod_add_multiples_vanish;
use vstd::arithmetic::mul::lemma_mul_inequality;
use vstd::arithmetic::mul::lemma_mul_is_distributive_add_other_way;

verus! {

/// How finely a track is time-sliced, derived once from its duration.
/// Longer tracks get a coarser slicing so the output stays small.
#[derive(Clone, Copy, Debug, PartialEq, Eq, Structural)]
pub enum DetailLevel {
    Dense,
    Medium,
    Coarse,
}

impl DetailLevel {
    /// The divisor applied to the sample rate to obtain the chunk size.
    pub open spec fn spec_divisor(self) -> nat {
        match self {
            DetailLevel::Dense => 3,
            DetailLevel::Medium => 2,
            DetailLevel::Coarse => 1,
        }
    }

    pub fn divisor(self) -> (d: u32)
        ensures
            d as nat == self.spec_divisor(),
            1 <= d <= 3,
    {
        match self {
            DetailLevel::Dense => 3,
            DetailLevel::Medium => 2,
            DetailLevel::Coarse => 1,
        }
    }
}

/// Detail level as a function of the stream length and the sample rate.
/// The duration in seconds is `num_samples / sample_rate`; the thresholds are
/// half-open: durations in [0, 300) seconds are Dense, [300, 600) Medium and
/// [600, oo) Coarse, stated here without division as comparisons against
/// `300 * sample_rate` and `600 * sample_rate`. A sample rate of zero yields
/// Coarse (and later a zero chunk size, which the engine rejects).
pub open spec fn spec_detail_level(num_samples: nat, sample_rate: nat) -> DetailLevel {
    if num_samples < 300 * sample_rate {
        DetailLevel::Dense
    } else if num_samples < 600 * sample_rate {
        DetailLevel::Medium
    } else {
        DetailLevel::Coarse
    }
}

pub fn detail_level_for(num_samples: usize, sample_rate: u32) -> (d: DetailLevel)
    ensures
        d == spec_detail_level(num_samples as nat, sample_rate as nat),
{
    let n = num_samples as u64;
    let r = sample_rate as u64;
    if n < 300 * r {
        DetailLevel::Dense
    } else if n < 600 * r {
        DetailLevel::Medium
    } else {
        DetailLevel::Coarse
    }
}

/// The chunk size: the sample rate divided (flooring) by the detail divisor.
pub open spec fn spec_chunk_size(sample_rate: nat, num_samples: nat) -> nat {
    sample_rate / spec_detail_level(num_samples, sample_rate).spec_divisor()
}

pub fn chunk_size_for(sample_rate: u32, num_samples: usize) -> (cs: u32)
    ensures
        cs as nat == spec_chunk_size(sample_rate as nat, num_samples as nat),
{
    let d = detail_level_for(num_samples, sample_rate).divisor();
    sample_rate / d
}

/// The magnitude of one signed sample.
pub open spec fn sample_abs(s: i32) -> nat {
    if s >= 0 {
        s as nat
    } else {
        (-(s as int)) as nat
    }
}

pub fn sample_magnitude(s: i32) -> (m: u32)
    ensures
        m as nat == sample_abs(s),
{
    if s >= 0 {
        s as u32
    } else {
        (-(s as i64)) as u32
    }
}

/// The peak magnitude of a chunk: the largest sample magnitude in it,
/// zero for an empty chunk.
pub open spec fn spec_chunk_peak(chunk: Seq<i32>) -> nat
    decreases chunk.len(),
{
    if chunk.len() == 0 {
        0
    } else {
        let rest = spec_chunk_peak(chunk.drop_last());
        let m = sample_abs(chunk.last());
        if m > rest {
            m
        } else {
            rest
        }
    }
}

/// Every sample magnitude fits in 32 bits, so the peak does too.
proof fn lemma_chunk_peak_fits(chunk: Seq<i32>)
    ensures
        spec_chunk_peak(chunk) <= 0x8000_0000,
    decreases chunk.len(),
{
    if chunk.len() > 0 {
        lemma_chunk_peak_fits(chunk.drop_last());
    }
}

/// The peak of a chunk is bounded by any bound on its samples' magnitudes.
proof fn lemma_chunk_peak_le(chunk: Seq<i32>, bound: nat)
    requires
        forall|i: int| 0 <= i < chunk.len() ==> sample_abs(#[trigger] chunk[i]) <= bound,
    ensures
        spec_chunk_peak(chunk) <= bound,
    decreases chunk.len(),
{
    if chunk.len() > 0 {
        assert(forall|i: int|
            0 <= i < chunk.len() - 1 ==> sample_abs(#[trigger] chunk.drop_last()[i]) <= bound);
        lemma_chunk_peak_le(chunk.drop_last(), bound);
    }
}

pub fn peak_in_range(samples: &Vec<i32>, start: usize, end: usize) -> (p: u32)
    requires
        start <= end <= samples.len(),
    ensures
        p as nat == spec_chunk_peak(samples@.subrange(start as int, end as int)),
{
    let mut p: u32 = 0;
    let mut i: usize = start;
    proof {
        assert(samples@.subrange(start as int, start as int) =~= Seq::<i32>::empty());
    }
    while i < end
        invariant
            start <= i <= end <= samples.len(),
            p as nat == spec_chunk_peak(samples@.subrange(start as int, i as int)),
        decreases end - i,
    {
        let m = sample_magnitude(samples[i]);
        proof {
            let pre = samples@.subrange(start as int, i as int);
            let post = samples@.subrange(start as int, i as int + 1);
            assert(post.drop_last() =~= pre);
            assert(post.last() == samples@[i as int]);
        }
        if m > p {
            p = m;
        }
        i = i + 1;
    }
    p
}

/// The theoretical maximum magnitude of a signed sample at this bit depth.
pub open spec fn spec_amplitude_max(bits: nat) -> nat
    recommends
        1 <= bits,
{
    pow2((bits - 1) as nat)
}

/// The low eight bits of an integer read back as a signed byte: the value an
/// eight-bit truncating (wrapping) cast produces.
pub open spec fn i8_trunc(v: int) -> int {
    let m = v % 256;
    if m < 128 {
        m
    } else {
        m - 256
    }
}

/// The scaled peak before narrowing: `floor(peak * 127 / amplitude_max)`.
pub open spec fn spec_scaled_quotient(peak: nat, bits: nat) -> nat
    recommends
        1 <= bits,
{
    (peak * 127) / spec_amplitude_max(bits)
}

/// The positive entry of a waveform pair: the scaled peak, narrowed to a
/// signed byte by truncation.
pub open spec fn spec_scaled_peak(peak: nat, bits: nat) -> int
    recommends
        1 <= bits,
{
    i8_trunc(spec_scaled_quotient(peak, bits) as int)
}

/// The negative entry of a waveform pair: the positive entry negated, with
/// the same eight-bit wraparound (so -128 stays -128).
pub open spec fn spec_neg_point(s: int) -> int {
    i8_trunc(-s)
}

fn pow2_u64(e: u16) -> (p: u64)
    requires
        e < 64,
    ensures
        p as nat == pow2(e as nat),
        p >= 1,
{
    proof {
        lemma2_to64();
    }
    let mut p: u64 = 1;
    let mut i: u16 = 0;
    while i < e
        invariant
            i <= e < 64,
            p as nat == pow2(i as nat),
        decreases e - i,
    {
        proof {
            lemma_pow2_unfold((i + 1) as nat);
            lemma_pow2_strictly_increases((i + 1) as nat, 64);
            lemma2_to64();
            lemma2_to64_rest();
        }
        p = p * 2;
        i = i + 1;
    }
    proof {
        lemma_pow2_pos(e as nat);
    }
    p
}

pub fn scale_peak(peak: u32, bits: u16) -> (s: i8)
    requires
        1 <= bits,
        peak <= 0x8000_0000,
    ensures
        s as int == spec_scaled_peak(peak as nat, bits as nat),
{
    let wide: u64 = (peak as u64) * 127;
    let q: u64 = if bits >= 39 {
        proof {
            lemma2_to64();
            lemma2_to64_rest();
            if bits > 39 {
                lemma_pow2_strictly_increases(38, (bits - 1) as nat);
            }
            lemma_basic_div(wide as int, spec_amplitude_max(bits as nat) as int);
        }
        0
    } else {
        let p2 = pow2_u64(bits - 1);
        wide / p2
    };
    let m: u64 = q % 256;
    if m < 128 {
        m as i8
    } else {
        ((m as i64) - 256) as i8
    }
}

pub fn neg_point(s: i8) -> (n: i8)
    ensures
        n as int == spec_neg_point(s as int),
{
    proof {
        if s as int > 0 {
            lemma_mod_add_multiples_vanish(-(s as int), 256);
            lemma_small_mod((256 - s as int) as nat, 256);
        } else {
            lemma_small_mod((-(s as int)) as nat, 256);
        }
    }
    if s == -128 {
        -128i8
    } else {
        -s
    }
}

/// How many chunks a stream of `len` samples yields: `ceil(len / cs)`.
pub open spec fn spec_num_chunks(len: nat, cs: nat) -> nat
    recommends
        1 <= cs,
{
    (((len + cs) as int - 1) / (cs as int)) as nat
}

/// Chunk `k`: the window `[k*cs, (k+1)*cs)` of the stream, the tail cut to
/// the stream's length.
pub open spec fn spec_chunk_of(samples: Seq<i32>, cs: nat, k: int) -> Seq<i32>
    recommends
        1 <= cs,
        0 <= k,
        k * cs <= samples.len(),
{
    let lo = k * cs;
    let hi = if (k + 1) * cs <= samples.len() {
        (k + 1) * cs
    } else {
        samples.len() as int
    };
    samples.subrange(lo, hi)
}

/// The whole waveform: for chunk `k`, entry `2k` is the negated scaled peak
/// and entry `2k + 1` the scaled peak, in chunk order.
pub open spec fn spec_waveform(samples: Seq<i32>, sample_rate: nat, bits: nat) -> Seq<i8> {
    let cs = spec_chunk_size(sample_rate, samples.len());
    Seq::new(
        2 * spec_num_chunks(samples.len(), cs),
        |i: int|
            {
                let s = spec_scaled_peak(spec_chunk_peak(spec_chunk_of(samples, cs, i / 2)), bits);
                if i % 2 == 0 {
                    spec_neg_point(s) as i8
                } else {
                    s as i8
                }
            },
    )
}

/// A stream of `k` whole chunks yields exactly `k` of them.
proof fn lemma_num_chunks_exact(len: nat, cs: nat, k: nat)
    requires
        1 <= cs,
        len == k * cs,
    ensures
        spec_num_chunks(len, cs) == k,
{
    lemma_mul_is_distributive_add_other_way(cs as int, k as int, 1);
    lemma_fundamental_div_mod_converse(len as int + cs - 1, cs as int, k as int, cs as int - 1);
}

/// While `k` whole chunks do not cover the stream there is a chunk `k`; it is
/// the last one exactly when the next whole boundary reaches the end.
proof fn lemma_num_chunks_step(len: nat, cs: nat, k: nat)
    requires
        1 <= cs,
        k * cs < len,
    ensures
        spec_num_chunks(len, cs) > k,
        len <= (k + 1) * cs ==> spec_num_chunks(len, cs) == k + 1,
{
    lemma_mul_is_distributive_add_other_way(cs as int, k as int, 1);
    if len <= (k + 1) * cs {
        let r = len as int - k * cs - 1;
        assert(0 <= r < cs);
        lemma_fundamental_div_mod_converse(
            len as int + cs - 1,
            cs as int,
            k as int + 1,
            r,
        );
    } else {
        lemma_mul_is_distributive_add_other_way(cs as int, k as int + 1, 1);
        lemma_div_by_multiple(k as int + 2, cs as int);
        lemma_div_is_ordered((k as int + 2) * cs, len as int + cs - 1, cs as int);
    }
}

/// Why peak extraction refused a decoded stream. The degenerate descriptors
/// are rejected up front rather than left undefined: a sample rate below the
/// detail divisor floors the chunk size to zero, and a bit depth of zero
/// gives no amplitude to scale against.
#[derive(Clone, Copy, Debug, PartialEq, Eq, Structural)]
pub enum WaveformError {
    ZeroChunkSize,
    ZeroBitDepth,
}

impl WaveformError {
    pub open spec fn spec_message(self) -> Seq<char> {
        match self {
            WaveformError::ZeroChunkSize => "chunk size is zero for this sample rate"@,
            WaveformError::ZeroBitDepth => "bit depth is zero"@,
        }
    }

    /// A human-readable description of the error.
    pub fn message(&self) -> (m: String)
        ensures
            m@ == self.spec_message(),
    {
        match self {
            WaveformError::ZeroChunkSize => String::from_str(
                "chunk size is zero for this sample rate",
            ),
            WaveformError::ZeroBitDepth => String::from_str("bit depth is zero"),
        }
    }
}

/// The error, if any, that extraction reports for this input shape: a zero
/// chunk size first, then a zero bit depth.
pub open spec fn spec_engine_error(num_samples: nat, sample_rate: nat, bits: nat) -> Option<
    WaveformError,
> {
    if spec_chunk_size(sample_rate, num_samples) == 0 {
        Some(WaveformError::ZeroChunkSize)
    } else if bits == 0 {
        Some(WaveformError::ZeroBitDepth)
    } else {
        None
    }
}

/// Peak extraction: partition the decoded stream into chunks of
/// `sample_rate / detail_level` samples and emit, per chunk, the pair
/// (-scaled peak, scaled peak), the peak scaled by `127 / 2^(bits - 1)` and
/// floored to a signed byte.
pub fn process_audio_file(samples: &Vec<i32>, sample_rate: u32, bits_per_sample: u16) -> (r:
    Result<Vec<i8>, WaveformError>)
    ensures
        match spec_engine_error(samples@.len(), sample_rate as nat, bits_per_sample as nat) {
            Some(e) => r == Result::<Vec<i8>, WaveformError>::Err(e),
            None => r is Ok && r->Ok_0@ == spec_waveform(
                samples@,
                sample_rate as nat,
                bits_per_sample as nat,
            ),
        },
        r is Ok ==> r->Ok_0@.len() == 2 * spec_num_chunks(
            samples@.len(),
            spec_chunk_size(sample_rate as nat, samples@.len()),
        ),
{
    let cs_u32 = chunk_size_for(sample_rate, samples.len());
    if cs_u32 == 0 {
        return Err(WaveformError::ZeroChunkSize);
    }
    if bits_per_sample == 0 {
        return Err(WaveformError::ZeroBitDepth);
    }
    let cs = cs_u32 as usize;
    let ghost csn = cs as nat;
    let ghost n = spec_num_chunks(samples@.len(), csn);
    let ghost wf = spec_waveform(samples@, sample_rate as nat, bits_per_sample as nat);
    let mut out: Vec<i8> = Vec::new();
    let mut start: usize = 0;
    let ghost mut k: int = 0;
    proof {
        if samples@.len() == 0 {
            lemma_num_chunks_exact(0, csn, 0);
        } else {
            lemma_num_chunks_step(samples@.len(), csn, 0);
        }
    }
    while start < samples.len()
        invariant
            1 <= cs,
            csn == cs as nat,
            csn == spec_chunk_size(sample_rate as nat, samples@.len()),
            1 <= bits_per_sample,
            n == spec_num_chunks(samples@.len(), csn),
            wf == spec_waveform(samples@, sample_rate as nat, bits_per_sample as nat),
            wf.len() == 2 * n,
            0 <= k <= n,
            k < n ==> start == k * csn,
            k == n ==> start == samples@.len(),
            start <= samples@.len(),
            out@.len() == 2 * k,
            forall|i: int| 0 <= i < 2 * k ==> out@[i] == wf[i],
        decreases samples@.len() - start,
    {
        proof {
            lemma_num_chunks_step(samples@.len(), csn, k as nat);
        }
        let end: usize = if samples.len() - start < cs {
            samples.len()
        } else {
            start + cs
        };
        let peak = peak_in_range(samples, start, end);
        proof {
            lemma_mul_is_distributive_add_other_way(csn as int, k, 1);
            assert(samples@.subrange(start as int, end as int) =~= spec_chunk_of(
                samples@,
                csn,
                k,
            ));
            lemma_chunk_peak_fits(samples@.subrange(start as int, end as int));
        }
        let pos = scale_peak(peak, bits_per_sample);
        let neg = neg_point(pos);
        out.push(neg);
        out.push(pos);
        proof {
            assert((2 * k) / 2 == k && (2 * k) % 2 == 0) by {
                lemma_fundamental_div_mod_converse(2 * k, 2, k, 0);
            }
            assert((2 * k + 1) / 2 == k && (2 * k + 1) % 2 == 1) by {
                lemma_fundamental_div_mod_converse(2 * k + 1, 2, k, 1);
            }
            assert(out@[2 * k] == wf[2 * k]);
            assert(out@[2 * k + 1] == wf[2 * k + 1]);
            k = k + 1;
            if samples@.len() <= k * csn {
                lemma_num_chunks_step(samples@.len(), csn, (k - 1) as nat);
            } else {
                lemma_num_chunks_step(samples@.len(), csn, k as nat);
            }
        }
        start = end;
    }
    proof {
        if k < n {
            lemma_num_chunks_exact(samples@.len(), csn, k as nat);
        }
        assert(k == n);
        assert(out@ =~= wf);
    }
    Ok(out)
}

/// Every chunk index below the chunk count starts inside the stream.
proof fn lemma_chunk_in_stream(len: nat, cs: nat, k: int)
    requires
        1 <= cs,
        0 <= k < spec_num_chunks(len, cs),
    ensures
        k * cs < len,
        k * cs + cs == (k + 1) * cs,
{
    lemma_mul_is_distributive_add_other_way(cs as int, k, 1);
    if k * cs >= len {
        lemma_fundamental_div_mod_converse(k * cs + cs - 1, cs as int, k, cs as int - 1);
        lemma_div_is_ordered(len as int + cs - 1, k * cs + cs - 1, cs as int);
        assert(false);
    }
}

/// An entry index below twice the chunk count names a chunk below the count.
proof fn lemma_half_index(i: int, n: nat)
    requires
        0 <= i < 2 * n,
    ensures
        0 <= i / 2 < n,
{
    vstd::arithmetic::div_mod::lemma_div_pos_is_pos(i, 2);
    lemma_div_is_ordered(i, 2 * n - 1, 2);
    lemma_fundamental_div_mod_converse(2 * n - 1, 2, n as int - 1, 1);
}

/// For every chunk, the first entry of the emitted pair is the second one
/// negated under eight-bit wraparound, whatever the samples hold. (For
/// samples within the nominal amplitude the wraparound never bites; see
/// `lemma_pair_negation`.)
pub proof fn lemma_pair_wraparound(samples: Seq<i32>, sample_rate: nat, bits: nat, k: int)
    requires
        spec_chunk_size(sample_rate, samples.len()) >= 1,
        0 <= k < spec_num_chunks(samples.len(), spec_chunk_size(sample_rate, samples.len())),
    ensures
        ({
            let wf = spec_waveform(samples, sample_rate, bits);
            wf[2 * k] as int == spec_neg_point(wf[2 * k + 1] as int)
        }),
{
    assert((2 * k) / 2 == k && (2 * k) % 2 == 0) by {
        lemma_fundamental_div_mod_converse(2 * k, 2, k, 0);
    }
    assert((2 * k + 1) / 2 == k && (2 * k + 1) % 2 == 1) by {
        lemma_fundamental_div_mod_converse(2 * k + 1, 2, k, 1);
    }
}

/// For every chunk of a stream whose sample magnitudes stay within the
/// nominal amplitude of the bit depth, the emitted pair mirrors exactly: the
/// first entry is the negation of the second, which lies in [0, 127].
pub proof fn lemma_pair_negation(samples: Seq<i32>, sample_rate: nat, bits: nat, k: int)
    requires
        1 <= bits,
        spec_chunk_size(sample_rate, samples.len()) >= 1,
        0 <= k < spec_num_chunks(samples.len(), spec_chunk_size(sample_rate, samples.len())),
        forall|i: int|
            0 <= i < samples.len() ==> sample_abs(#[trigger] samples[i]) <= spec_amplitude_max(
                bits,
            ),
    ensures
        ({
            let wf = spec_waveform(samples, sample_rate, bits);
            &&& 0 <= wf[2 * k + 1] <= 127
            &&& wf[2 * k] as int == -(wf[2 * k + 1] as int)
        }),
{
    let cs = spec_chunk_size(sample_rate, samples.len());
    let chunk = spec_chunk_of(samples, cs, k);
    let amp = spec_amplitude_max(bits);
    lemma_pow2_pos((bits - 1) as nat);
    lemma_chunk_in_stream(samples.len(), cs, k);
    assert(forall|i: int| 0 <= i < chunk.len() ==> sample_abs(#[trigger] chunk[i]) <= amp);
    lemma_chunk_peak_le(chunk, amp);
    let peak = spec_chunk_peak(chunk);
    let q = spec_scaled_quotient(peak, bits);
    lemma_mul_inequality(peak as int, amp as int, 127);
    lemma_div_is_ordered((peak * 127) as int, (amp * 127) as int, amp as int);
    lemma_div_by_multiple(127, amp as int);
    assert(q <= 127);
    lemma_small_mod(q, 256);
    assert((2 * k) / 2 == k && (2 * k) % 2 == 0) by {
        lemma_fundamental_div_mod_converse(2 * k, 2, k, 0);
    }
    assert((2 * k + 1) / 2 == k && (2 * k + 1) % 2 == 1) by {
        lemma_fundamental_div_mod_converse(2 * k + 1, 2, k, 1);
    }
    if q > 0 {
        lemma_mod_add_multiples_vanish(-(q as int), 256);
        lemma_small_mod((256 - q) as nat, 256);
    } else {
        lemma_small_mod(0, 256);
    }
}

/// A stream of all-zero samples yields an all-zero waveform.
pub proof fn lemma_zero_samples(samples: Seq<i32>, sample_rate: nat, bits: nat, i: int)
    requires
        1 <= bits,
        spec_chunk_size(sample_rate, samples.len()) >= 1,
        forall|j: int| 0 <= j < samples.len() ==> samples[j] == 0i32,
        0 <= i < spec_waveform(samples, sample_rate, bits).len(),
    ensures
        spec_waveform(samples, sample_rate, bits)[i] == 0i8,
{
    let cs = spec_chunk_size(sample_rate, samples.len());
    let amp = spec_amplitude_max(bits);
    lemma_pow2_pos((bits - 1) as nat);
    let n = spec_num_chunks(samples.len(), cs);
    lemma_half_index(i, n);
    lemma_chunk_in_stream(samples.len(), cs, i / 2);
    let chunk = spec_chunk_of(samples, cs, i / 2);
    assert(forall|j: int| 0 <= j < chunk.len() ==> sample_abs(#[trigger] chunk[j]) <= 0);
    lemma_chunk_peak_le(chunk, 0);
    lemma_div_of0(amp as int);
    lemma_small_mod(0, 256);
    assert(spec_scaled_peak(0, bits) == 0);
}

/// The detail tiers are half-open at the boundary: a track of exactly 300
/// seconds is Medium, not Dense, and one of exactly 600 seconds is Coarse,
/// not Medium.
pub proof fn lemma_detail_level_boundaries(sample_rate: nat)
    requires
        1 <= sample_rate,
    ensures
        spec_detail_level(300 * sample_rate, sample_rate) == DetailLevel::Medium,
        spec_detail_level(600 * sample_rate, sample_rate) == DetailLevel::Coarse,
{
}

/// Extraction is deterministic: the contract pins the waveform to a function
/// of the decoded input alone, so running it twice on the same decoded input
/// yields identical output.
pub proof fn lemma_extraction_idempotent(
    samples: Seq<i32>,
    sample_rate: nat,
    bits: nat,
    w1: Seq<i8>,
    w2: Seq<i8>,
)
    requires
        w1 == spec_waveform(samples, sample_rate, bits),
        w2 == spec_waveform(samples, sample_rate, bits),
    ensures
        w1 == w2,
{
}

} // verus!
