//! Conversion of captured sample buffers to the streaming wire format:
//! 16-bit signed PCM, mono, 16 kHz, little-endian bytes.

use vstd::prelude::*;

verus! {

/// The sample rate of the wire format, in Hz.
pub const WIRE_RATE: u32 = 16000;

/// Division that rounds towards zero, as Rust's `/` does on machine integers.
pub open spec fn trunc_div(a: int, b: int) -> int {
    if a >= 0 {
        a / b
    } else {
        -((-a) / b)
    }
}

/// Sum of a sequence of samples.
pub open spec fn sample_sum(s: Seq<i16>) -> int
    decreases s.len(),
{
    if s.len() == 0 {
        0
    } else {
        sample_sum(s.drop_last()) + s.last()
    }
}

pub proof fn lemma_sample_sum_bounds(s: Seq<i16>)
    ensures
        -32768 * s.len() <= sample_sum(s) <= 32767 * s.len(),
    decreases s.len(),
{
    if s.len() > 0 {
        lemma_sample_sum_bounds(s.drop_last());
    }
}

/// Number of mono frames an interleaved buffer of `len` samples holds at
/// `ch` samples per frame, counting a trailing partial frame.
pub open spec fn frame_count(len: int, ch: int) -> int {
    (len + ch - 1) / ch
}

/// The interleaved samples that make up frame `i`: a full frame of `ch`
/// samples, or whatever is left of the buffer for the trailing frame.
pub open spec fn frame_slice(s: Seq<i16>, ch: int, i: int) -> Seq<i16> {
    s.subrange(i * ch, if (i + 1) * ch <= s.len() { (i + 1) * ch } else { s.len() as int })
}

/// The mono value of frame `i`: the integer average of its samples, always
/// divided by the full channel count, as the capture pipeline does.
pub open spec fn frame_avg(s: Seq<i16>, ch: int, i: int) -> int {
    trunc_div(sample_sum(frame_slice(s, ch, i)), ch)
}

/// Downmix of an interleaved buffer: identity for mono input, per-frame
/// integer average otherwise.
pub open spec fn spec_downmix(s: Seq<i16>, ch: int) -> Seq<i16> {
    if ch <= 1 {
        s
    } else {
        Seq::new(frame_count(s.len() as int, ch) as nat, |i: int| frame_avg(s, ch, i) as i16)
    }
}

pub(crate) proof fn lemma_frame_start_in_range(len: int, ch: int, i: int)
    requires
        ch >= 1,
        0 <= i < (len + ch - 1) / ch,
    ensures
        0 <= i * ch < len,
{
    let q = (len + ch - 1) / ch;
    let r = (len + ch - 1) % ch;
    vstd::arithmetic::div_mod::lemma_fundamental_div_mod(len + ch - 1, ch);
    assert(len + ch - 1 == ch * q + r);
    assert(0 <= r < ch);
    assert(i * ch < len) by (nonlinear_arith)
        requires
            len + ch - 1 == ch * q + r,
            0 <= r < ch,
            0 <= i < q,
            ch >= 1;
    assert(i * ch >= 0) by (nonlinear_arith)
        requires
            i >= 0,
            ch >= 1;
}

proof fn lemma_frame_avg_fits(s: Seq<i16>, ch: int, i: int)
    requires
        ch >= 1,
        0 <= i < frame_count(s.len() as int, ch),
    ensures
        -32768 <= frame_avg(s, ch, i) <= 32767,
{
    let fr = frame_slice(s, ch, i);
    lemma_frame_start_in_range(s.len() as int, ch, i);
    lemma_sample_sum_bounds(fr);
    assert(fr.len() <= ch) by {
        assert((i + 1) * ch == i * ch + ch) by (nonlinear_arith);
    }
    let sum = sample_sum(fr);
    assert(-32768 * ch <= sum <= 32767 * ch) by (nonlinear_arith)
        requires
            -32768 * fr.len() <= sum <= 32767 * fr.len(),
            0 <= fr.len() <= ch;
    if sum >= 0 {
        assert(sum / ch <= 32767) by (nonlinear_arith)
            requires ch >= 1 && 0 <= sum <= 32767 * ch;
    } else {
        assert((-sum) / ch <= 32768) by (nonlinear_arith)
            requires ch >= 1 && 0 <= -sum <= 32768 * ch;
    }
}

/// Downmixes an interleaved buffer to mono by integer-averaging each frame
/// of `channels` samples; mono input is returned unchanged.
pub fn downmix_to_mono(samples: &[i16], channels: u16) -> (r: Vec<i16>)
    requires
        channels >= 1,
        samples@.len() + channels as int <= usize::MAX,
    ensures
        r@ == spec_downmix(samples@, channels as int),
{
    let len = samples.len();
    if channels <= 1 {
        let mut out: Vec<i16> = Vec::new();
        let mut i: usize = 0;
        while i < len
            invariant
                i <= len,
                len == samples@.len(),
                out@ == samples@.subrange(0, i as int),
            decreases len - i,
        {
            out.push(samples[i]);
            i = i + 1;
        }
        assert(out@ =~= samples@);
        out
    } else {
        let ch = channels as usize;
        let n_frames = (len + ch - 1) / ch;
        let ghost chi = channels as int;
        let mut out: Vec<i16> = Vec::new();
        let mut i: usize = 0;
        while i < n_frames
            invariant
                i <= n_frames,
                channels >= 2,
                ch == channels as usize,
                len == samples@.len(),
                len as int + ch as int <= usize::MAX,
                n_frames == frame_count(len as int, chi),
                chi == channels as int,
                out@.len() == i,
                forall|k: int| 0 <= k < i ==> out@[k] as int == frame_avg(samples@, chi, k),
            decreases n_frames - i,
        {
            proof {
                lemma_frame_start_in_range(len as int, ch as int, i as int);
            }
            let start = i * ch;
            let end = if start + ch <= len { start + ch } else { len };
            let mut sum: i32 = 0;
            let mut j: usize = start;
            while j < end
                invariant
                    start <= j <= end <= len,
                    len == samples@.len(),
                    end - start <= ch,
                    ch == channels as usize,
                    channels >= 2,
                    sum == sample_sum(samples@.subrange(start as int, j as int)),
                    -32768 * (j - start) <= sum <= 32767 * (j - start),
                decreases end - j,
            {
                let ghost pre = samples@.subrange(start as int, j as int);
                assert(samples@.subrange(start as int, j as int + 1).drop_last() =~= pre);
                sum = sum + samples[j] as i32;
                j = j + 1;
            }
            proof {
                assert(samples@.subrange(start as int, end as int) =~= frame_slice(samples@, chi, i as int)) by {
                    assert((i as int + 1) * chi == start + chi) by (nonlinear_arith)
                        requires start as int == i as int * chi;
                }
                lemma_frame_avg_fits(samples@, chi, i as int);
            }
            let avg: i16 = if sum >= 0 {
                let q: u32 = (sum as u32) / (channels as u32);
                assert(q as int == frame_avg(samples@, chi, i as int));
                q as i16
            } else {
                let q: u32 = ((-sum) as u32) / (channels as u32);
                assert(-(q as int) == frame_avg(samples@, chi, i as int));
                (-(q as i32)) as i16
            };
            assert(avg as int == frame_avg(samples@, chi, i as int));
            out.push(avg);
            i = i + 1;
        }
        proof {
            assert(out@ =~= spec_downmix(samples@, chi));
        }
        out
    }
}

/// Number of samples linear resampling to the wire rate produces from `len`
/// source samples at `rate` Hz: the source length scaled by `16000 / rate`,
/// rounded up.
pub open spec fn resampled_count(len: int, rate: int) -> int {
    (len * 16000 + rate - 1) / rate
}

/// The source sample at `idx`, or silence outside the buffer.
pub open spec fn sample_at(m: Seq<i16>, idx: int) -> int {
    if 0 <= idx < m.len() {
        m[idx] as int
    } else {
        0
    }
}

/// Output sample `i` of linear resampling: the interpolation between the two
/// source samples nearest to position `i * rate / 16000`, with the
/// fractional part applied by truncating integer arithmetic.
pub open spec fn interp_at(m: Seq<i16>, rate: int, i: int) -> int {
    let idx = (i * rate) / 16000;
    let rem = (i * rate) % 16000;
    let s0 = sample_at(m, idx);
    let s1 = if m.len() == 0 {
        0
    } else {
        sample_at(m, if idx + 1 < m.len() { idx + 1 } else { m.len() - 1 })
    };
    s0 + trunc_div((s1 - s0) * rem, 16000)
}

/// Linear resampling of a mono buffer from `rate` Hz to the 16 kHz wire rate.
pub open spec fn spec_resample(m: Seq<i16>, rate: int) -> Seq<i16> {
    Seq::new(resampled_count(m.len() as int, rate) as nat, |i: int| interp_at(m, rate, i) as i16)
}

proof fn lemma_interp_fits(m: Seq<i16>, rate: int, i: int)
    requires
        rate >= 1,
        i >= 0,
    ensures
        -32768 <= interp_at(m, rate, i) <= 32767,
{
    let rem = (i * rate) % 16000;
    assert(0 <= rem < 16000);
    let idx = (i * rate) / 16000;
    let s0 = sample_at(m, idx);
    let s1 = if m.len() == 0 {
        0int
    } else {
        sample_at(m, if idx + 1 < m.len() { idx + 1 } else { m.len() - 1 })
    };
    let d = s1 - s0;
    lemma_scaled_fraction_bounds(d, rem);
    assert(-32768 <= s0 <= 32767);
    assert(-32768 <= s1 <= 32767);
}

/// The truncated product `d * rem / 16000` for `0 <= rem < 16000` lies
/// between `0` and `d`.
proof fn lemma_scaled_fraction_bounds(d: int, rem: int)
    requires
        0 <= rem < 16000,
    ensures
        d >= 0 ==> 0 <= trunc_div(d * rem, 16000) <= d,
        d < 0 ==> d <= trunc_div(d * rem, 16000) <= 0,
{
    if d >= 0 {
        assert(0 <= d * rem <= d * 16000) by (nonlinear_arith)
            requires
                0 <= rem < 16000,
                d >= 0;
        vstd::arithmetic::div_mod::lemma_div_is_ordered(d * rem, d * 16000, 16000);
        vstd::arithmetic::div_mod::lemma_fundamental_div_mod_converse(d * 16000, 16000, d, 0);
        vstd::arithmetic::div_mod::lemma_div_pos_is_pos(d * rem, 16000);
    } else {
        let n = -d;
        assert(0 <= n * rem <= n * 16000) by (nonlinear_arith)
            requires
                0 <= rem < 16000,
                n >= 0;
        vstd::arithmetic::div_mod::lemma_div_is_ordered(n * rem, n * 16000, 16000);
        vstd::arithmetic::div_mod::lemma_fundamental_div_mod_converse(n * 16000, 16000, n, 0);
        vstd::arithmetic::div_mod::lemma_div_pos_is_pos(n * rem, 16000);
        assert(d * rem == -(n * rem)) by (nonlinear_arith)
            requires
                n == -d;
        assert(trunc_div(d * rem, 16000) == -((n * rem) / 16000));
    }
}

/// Resamples a mono buffer to the 16 kHz wire rate by linear interpolation.
pub fn resample_to_16k(mono: &[i16], sample_rate: u32) -> (r: Vec<i16>)
    requires
        sample_rate >= 1,
        mono@.len() * 16000 + sample_rate as int <= usize::MAX,
    ensures
        r@ == spec_resample(mono@, sample_rate as int),
{
    let len = mono.len();
    let rate = sample_rate as u64;
    let scaled = (len as u64) * 16000;
    let out_len = ((scaled + rate - 1) / rate) as usize;
    let ghost ratei = sample_rate as int;
    let mut out: Vec<i16> = Vec::new();
    let mut i: usize = 0;
    while i < out_len
        invariant
            i <= out_len,
            len == mono@.len(),
            rate == sample_rate as u64,
            1 <= rate <= u32::MAX,
            ratei == sample_rate as int,
            scaled == len as int * 16000,
            scaled + rate <= usize::MAX,
            out_len as int == resampled_count(len as int, ratei),
            out@.len() == i,
            forall|k: int| 0 <= k < i ==> out@[k] as int == interp_at(mono@, ratei, k),
        decreases out_len - i,
    {
        proof {
            lemma_frame_start_in_range(scaled as int, ratei, i as int);
        }
        let pos = (i as u64) * rate;
        let idx_u = pos / 16000;
        let rem = pos % 16000;
        proof {
            vstd::arithmetic::div_mod::lemma_div_is_ordered(pos as int, scaled as int - 1, 16000);
            vstd::arithmetic::div_mod::lemma_fundamental_div_mod_converse(
                scaled as int - 1,
                16000,
                len as int - 1,
                15999,
            );
        }
        let idx = idx_u as usize;
        assert(idx < len);
        let s0 = mono[idx];
        let j = if idx + 1 < len { idx + 1 } else { len - 1 };
        let s1 = mono[j];
        let d: i32 = s1 as i32 - s0 as i32;
        let ghost di = d as int;
        let ghost remi = rem as int;
        proof {
            lemma_scaled_fraction_bounds(di, remi);
        }
        let t: i32 = if d >= 0 {
            (((d as u64) * rem) / 16000) as i32
        } else {
            let n = (-d) as u64;
            assert(n * rem == -(di * remi)) by (nonlinear_arith)
                requires
                    n == -di,
                    remi == rem;
            -(((n * rem) / 16000) as i32)
        };
        assert(t as int == trunc_div(di * remi, 16000));
        proof {
            lemma_interp_fits(mono@, ratei, i as int);
        }
        let val = (s0 as i32 + t) as i16;
        assert(val as int == interp_at(mono@, ratei, i as int));
        out.push(val);
        i = i + 1;
    }
    proof {
        assert(out@ =~= spec_resample(mono@, ratei));
    }
    out
}

/// The two little-endian bytes of a sample: low byte first.
pub open spec fn sample_bits(x: i16) -> int {
    if x >= 0 {
        x as int
    } else {
        x as int + 0x10000
    }
}

pub open spec fn lo_byte(x: i16) -> u8 {
    (sample_bits(x) % 256) as u8
}

pub open spec fn hi_byte(x: i16) -> u8 {
    (sample_bits(x) / 256) as u8
}

/// Little-endian encoding of a sample sequence: two bytes per sample, low
/// byte first.
pub open spec fn le_bytes(s: Seq<i16>) -> Seq<u8> {
    Seq::new(2 * s.len(), |i: int| if i % 2 == 0 { lo_byte(s[i / 2]) } else { hi_byte(s[i / 2]) })
}

/// Serializes samples as little-endian 16-bit values.
pub fn samples_to_le_bytes(samples: &[i16]) -> (r: Vec<u8>)
    requires
        samples@.len() * 2 <= usize::MAX,
    ensures
        r@ == le_bytes(samples@),
{
    let len = samples.len();
    let mut out: Vec<u8> = Vec::new();
    let mut i: usize = 0;
    while i < len
        invariant
            i <= len,
            len == samples@.len(),
            len * 2 <= usize::MAX,
            out@.len() == 2 * i,
            forall|k: int| 0 <= k < 2 * i ==> out@[k] == le_bytes(samples@)[k],
        decreases len - i,
    {
        let x = samples[i];
        let u: u16 = if x >= 0 {
            x as u16
        } else {
            ((x as i32) + 0x10000) as u16
        };
        assert(u as int == sample_bits(samples@[i as int]));
        out.push((u % 256) as u8);
        out.push((u / 256) as u8);
        assert forall|k: int| 0 <= k < 2 * (i + 1) implies out@[k] == le_bytes(samples@)[k] by {
            if k == 2 * i {
                assert(k % 2 == 0 && k / 2 == i);
            } else if k == 2 * i + 1 {
                assert(k % 2 == 1 && k / 2 == i);
            }
        }
        i = i + 1;
    }
    proof {
        assert(out@ =~= le_bytes(samples@));
    }
    out
}

/// The bytes the streaming path sends for one captured buffer: downmix to
/// mono, resample to 16 kHz unless already there, then encode little-endian.
pub open spec fn spec_wire_bytes(samples: Seq<i16>, ch: int, rate: int) -> Seq<u8> {
    let m = spec_downmix(samples, ch);
    if rate == 16000 {
        le_bytes(m)
    } else {
        le_bytes(spec_resample(m, rate))
    }
}

proof fn lemma_downmix_len(s: Seq<i16>, ch: int)
    requires
        ch >= 1,
    ensures
        spec_downmix(s, ch).len() <= s.len(),
{
    if ch > 1 {
        let len = s.len() as int;
        assert((len + ch - 1) / ch <= len) by (nonlinear_arith)
            requires
                ch >= 2,
                len >= 0;
    }
}

/// Converts one captured buffer of interleaved samples to the wire format:
/// mono, 16 kHz, 16-bit little-endian.  Input already in mono at 16 kHz is
/// re-encoded byte for byte.
pub fn to_pcm16_mono_16k(samples: &[i16], channels: u16, sample_rate: u32) -> (r: Vec<u8>)
    requires
        channels >= 1,
        sample_rate >= 1,
        samples@.len() * 32000 + sample_rate as int <= usize::MAX,
        samples@.len() + channels as int <= usize::MAX,
    ensures
        r@ == spec_wire_bytes(samples@, channels as int, sample_rate as int),
        r@.len() <= samples@.len() * 32000,
        channels == 1 && sample_rate == 16000 ==> r@ == le_bytes(samples@) && r@.len() == 2
            * samples@.len(),
{
    let mono = downmix_to_mono(samples, channels);
    proof {
        lemma_downmix_len(samples@, channels as int);
        assert(2 * samples@.len() <= samples@.len() * 32000) by (nonlinear_arith);
    }
    if sample_rate == 16000 {
        samples_to_le_bytes(mono.as_slice())
    } else {
        proof {
            assert(mono@.len() * 16000 <= samples@.len() * 16000) by (nonlinear_arith)
                requires
                    mono@.len() <= samples@.len();
        }
        let resampled = resample_to_16k(mono.as_slice(), sample_rate);
        proof {
            lemma_ceil_div_le(mono@.len() as int * 16000, sample_rate as int);
        }
        samples_to_le_bytes(resampled.as_slice())
    }
}

/// Ceiling division never exceeds a nonnegative dividend.
proof fn lemma_ceil_div_le(a: int, r: int)
    requires
        a >= 0,
        r >= 1,
    ensures
        (a + r - 1) / r <= a,
{
    assert((a + 1) * r - 1 == a * r + (r - 1)) by (nonlinear_arith);
    vstd::arithmetic::div_mod::lemma_fundamental_div_mod_converse((a + 1) * r - 1, r, a, r - 1);
    assert(a + r - 1 <= (a + 1) * r - 1) by (nonlinear_arith)
        requires
            a >= 0,
            r >= 1;
    vstd::arithmetic::div_mod::lemma_div_is_ordered(a + r - 1, (a + 1) * r - 1, r);
}

/// Resampling an 8 kHz buffer to the 16 kHz wire rate yields exactly twice
/// as many samples, and so at least twice as many.
pub proof fn lemma_upsample_8k_doubles(m: Seq<i16>)
    ensures
        spec_resample(m, 8000).len() == 2 * m.len(),
        spec_resample(m, 8000).len() >= 2 * m.len(),
{
    let len = m.len() as int;
    vstd::arithmetic::div_mod::lemma_fundamental_div_mod_converse(
        len * 16000 + 7999,
        8000,
        2 * len,
        7999,
    );
}

} // verus!
