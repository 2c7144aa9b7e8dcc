//! Level metering over captured sample buffers.
//!
//! Levels are kept in fixed point: a magnitude of `32767` is full scale.
//! Peak and root-mean-square power feed both the UI meter and the voice
//! activity detector; the zero-crossing count is a diagnostic.

use vstd::prelude::*;

verus! {

/// Magnitude of a sample.
pub open spec fn spec_abs(s: i16) -> int {
    if s >= 0 {
        s as int
    } else {
        -(s as int)
    }
}

/// Largest sample magnitude in a buffer, `0` when empty.
pub open spec fn spec_peak(s: Seq<i16>) -> int
    decreases s.len(),
{
    if s.len() == 0 {
        0
    } else {
        let rest = spec_peak(s.drop_last());
        if spec_abs(s.last()) > rest {
            spec_abs(s.last())
        } else {
            rest
        }
    }
}

pub proof fn lemma_peak_bound(s: Seq<i16>)
    ensures
        0 <= spec_peak(s) <= 32768,
    decreases s.len(),
{
    if s.len() > 0 {
        lemma_peak_bound(s.drop_last());
    }
}

/// Sum of squared samples.
pub open spec fn spec_sum_sq(s: Seq<i16>) -> int
    decreases s.len(),
{
    if s.len() == 0 {
        0
    } else {
        spec_sum_sq(s.drop_last()) + spec_abs(s.last()) * spec_abs(s.last())
    }
}

/// The integer square root: the largest `r` with `r * r <= n`.
pub open spec fn spec_isqrt(n: int) -> int
    decreases n,
{
    if n < 1 {
        0
    } else {
        let r = spec_isqrt(n - 1);
        if (r + 1) * (r + 1) <= n {
            r + 1
        } else {
            r
        }
    }
}

pub proof fn lemma_isqrt_bounds(n: int)
    requires
        n >= 0,
    ensures
        0 <= spec_isqrt(n),
        spec_isqrt(n) * spec_isqrt(n) <= n,
        n < (spec_isqrt(n) + 1) * (spec_isqrt(n) + 1),
    decreases n,
{
    if n >= 1 {
        lemma_isqrt_bounds(n - 1);
        let r = spec_isqrt(n - 1);
        if (r + 1) * (r + 1) <= n {
            assert((r + 1) * (r + 1) < (r + 2) * (r + 2)) by (nonlinear_arith)
                requires
                    r >= 0;
        } else {
        }
    }
}

pub proof fn lemma_isqrt_unique(n: int, r: int)
    requires
        n >= 0,
        r >= 0,
        r * r <= n,
        n < (r + 1) * (r + 1),
    ensures
        r == spec_isqrt(n),
{
    lemma_isqrt_bounds(n);
    let q = spec_isqrt(n);
    if r < q {
        assert((r + 1) * (r + 1) <= q * q) by (nonlinear_arith)
            requires
                0 <= r + 1 <= q;
    }
    if q < r {
        assert((q + 1) * (q + 1) <= r * r) by (nonlinear_arith)
            requires
                0 <= q + 1 <= r;
    }
}

/// Binary-search integer square root.
pub fn isqrt_u64(n: u64) -> (r: u64)
    requires
        n < 0x4000000000000000,
    ensures
        r as int == spec_isqrt(n as int),
        r * r <= n,
{
    let mut lo: u64 = 0;
    let mut hi: u64 = 0x80000000;
    proof {
        assert(0x80000000int * 0x80000000int == 0x4000000000000000int);
    }
    while hi - lo > 1
        invariant
            0 <= lo < hi <= 0x80000000u64,
            (lo as int) * (lo as int) <= n as int,
            (hi as int) * (hi as int) > n as int,
        decreases hi - lo,
    {
        let mid = lo + (hi - lo) / 2;
        assert(mid as int * mid as int <= 0x4000000000000000) by (nonlinear_arith)
            requires
                0 <= mid as int <= 0x80000000;
        if mid * mid <= n {
            lo = mid;
        } else {
            hi = mid;
        }
    }
    proof {
        lemma_isqrt_unique(n as int, lo as int);
    }
    lo
}

/// Peak magnitude of a buffer, in level units (full scale 32767, with the
/// most negative sample reading 32768).
pub fn chunk_peak(samples: &[i16]) -> (r: u16)
    ensures
        r as int == spec_peak(samples@),
{
    let len = samples.len();
    let mut peak: u16 = 0;
    let mut i: usize = 0;
    while i < len
        invariant
            i <= len,
            len == samples@.len(),
            peak as int == spec_peak(samples@.subrange(0, i as int)),
            peak <= 32768,
        decreases len - i,
    {
        let s = samples[i];
        let mag: u16 = if s >= 0 {
            s as u16
        } else {
            ((-(s as i32)) as u32) as u16
        };
        proof {
            assert(samples@.subrange(0, i as int + 1).drop_last() =~= samples@.subrange(
                0,
                i as int,
            ));
        }
        if mag > peak {
            peak = mag;
        }
        i = i + 1;
    }
    proof {
        assert(samples@.subrange(0, len as int) =~= samples@);
    }
    peak
}

/// Root-mean-square level of a buffer, in level units: the integer square
/// root of the mean squared sample, `0` for an empty buffer.
pub open spec fn spec_rms(s: Seq<i16>) -> int {
    if s.len() == 0 {
        0
    } else {
        spec_isqrt(spec_sum_sq(s) / s.len() as int)
    }
}

pub fn chunk_rms(samples: &[i16]) -> (r: u16)
    requires
        samples@.len() <= 0x1_0000_0000,
    ensures
        r as int == spec_rms(samples@),
        r <= 32768,
{
    let len = samples.len();
    if len == 0 {
        return 0;
    }
    let mut sum_sq: u64 = 0;
    let mut i: usize = 0;
    while i < len
        invariant
            i <= len,
            len == samples@.len(),
            len <= 0x1_0000_0000,
            sum_sq as int == spec_sum_sq(samples@.subrange(0, i as int)),
            sum_sq as int <= i as int * (32768 * 32768),
        decreases len - i,
    {
        let s = samples[i];
        let mag: u32 = if s >= 0 {
            s as u32
        } else {
            (-(s as i32)) as u32
        };
        proof {
            assert(samples@.subrange(0, i as int + 1).drop_last() =~= samples@.subrange(
                0,
                i as int,
            ));
            assert(mag as int * mag as int <= 32768 * 32768) by (nonlinear_arith)
                requires
                    0 <= mag as int <= 32768;
            assert((i as int + 1) * (32768 * 32768) == i as int * (32768 * 32768) + 32768 * 32768)
                by (nonlinear_arith);
            assert(i as int * (32768 * 32768) <= 0x1_0000_0000int * (32768 * 32768))
                by (nonlinear_arith)
                requires
                    0 <= i as int <= 0x1_0000_0000;
        }
        sum_sq = sum_sq + (mag as u64) * (mag as u64);
        i = i + 1;
    }
    proof {
        assert(samples@.subrange(0, len as int) =~= samples@);
        assert(sum_sq as int / len as int <= 32768 * 32768) by (nonlinear_arith)
            requires
                1 <= len as int,
                0 <= sum_sq as int <= len as int * (32768 * 32768);
    }
    let mean = sum_sq / (len as u64);
    let root = isqrt_u64(mean);
    proof {
        lemma_isqrt_bounds(mean as int);
        assert(spec_isqrt(mean as int) <= 32768) by {
            let r = spec_isqrt(mean as int);
            if r > 32768 {
                assert(32769 * 32769 <= r * r) by (nonlinear_arith)
                    requires
                        32769 <= r;
            }
        }
    }
    root as u16
}

/// Stepped view of an interleaved buffer: one sample per frame, as the
/// zero-crossing scan walks it.
pub open spec fn spec_stepped(s: Seq<i16>, step: int) -> Seq<i16> {
    Seq::new(((s.len() + step - 1) / step) as nat, |i: int| s[i * step])
}

/// Number of adjacent pairs whose signs differ, the zero-crossing count.
pub open spec fn spec_sign_changes(t: Seq<i16>) -> int
    decreases t.len(),
{
    if t.len() < 2 {
        0
    } else {
        spec_sign_changes(t.drop_last()) + if (t[t.len() - 2] < 0) != (t[t.len() - 1] < 0) {
            1int
        } else {
            0int
        }
    }
}

proof fn lemma_sign_changes_bound(t: Seq<i16>)
    ensures
        0 <= spec_sign_changes(t) <= if t.len() >= 1 {
            t.len() - 1
        } else {
            0int
        },
    decreases t.len(),
{
    if t.len() >= 2 {
        lemma_sign_changes_bound(t.drop_last());
    }
}

/// Counts sign changes between consecutive samples of one channel of an
/// interleaved buffer, stepping by the channel count.  A diagnostic for
/// constant-hum rejection; it does not gate voice detection.
pub fn zero_crossings(samples: &[i16], step: usize) -> (r: usize)
    requires
        step >= 1,
        samples@.len() + step <= usize::MAX,
    ensures
        r as int == spec_sign_changes(spec_stepped(samples@, step as int)),
{
    let len = samples.len();
    let ghost t = spec_stepped(samples@, step as int);
    let mut count: usize = 0;
    let mut idx: usize = 0;
    let ghost mut k: int = 0;
    let mut prev: i16 = 0;
    proof {
        lemma_ceil_mul_covers(len as int, step as int);
    }
    while idx < len
        invariant
            step >= 1,
            len == samples@.len(),
            len + step <= usize::MAX,
            t == spec_stepped(samples@, step as int),
            0 <= k <= t.len(),
            idx as int == k * step,
            (t.len() as int) * (step as int) >= len as int,
            k >= 1 ==> prev == t[k - 1],
            count as int == spec_sign_changes(t.subrange(0, k)),
            count as int <= k,
        decreases len + step - idx,
    {
        proof {
            if k == t.len() {
                assert(k * step >= (t.len() as int) * (step as int));
            }
            assert(k < t.len());
            assert(t.subrange(0, k + 1).drop_last() =~= t.subrange(0, k));
            lemma_sign_changes_bound(t.subrange(0, k + 1));
        }
        let s = samples[idx];
        assert(s == t[k]);
        if idx > 0 {
            if (s < 0) != (prev < 0) {
                count = count + 1;
            }
        }
        proof {
            assert(idx > 0 <==> k >= 1) by (nonlinear_arith)
                requires
                    idx as int == k * step,
                    step >= 1,
                    k >= 0;
            assert((k + 1) * step == k * step + step) by (nonlinear_arith);
        }
        prev = s;
        idx = idx + step;
        proof {
            k = k + 1;
        }
    }
    proof {
        if k < t.len() {
            crate::pcm::lemma_frame_start_in_range(len as int, step as int, k);
        }
        assert(k == t.len());
        assert(t.subrange(0, t.len() as int) =~= t);
    }
    count
}

/// The stepped length times the step covers the whole buffer.
proof fn lemma_ceil_mul_covers(len: int, step: int)
    requires
        len >= 0,
        step >= 1,
    ensures
        ((len + step - 1) / step) * step >= len,
        (len + step - 1) / step >= 0,
{
    let q = (len + step - 1) / step;
    let r = (len + step - 1) % step;
    vstd::arithmetic::div_mod::lemma_fundamental_div_mod(len + step - 1, step);
    assert(q * step == step * q) by (nonlinear_arith);
    vstd::arithmetic::div_mod::lemma_div_pos_is_pos(len + step - 1, step);
}

} // verus!
