//! The voice activity detector.
//!
//! Per captured chunk the detector smooths the measured level, calibrates a
//! noise floor over a fixed initial window, keeps a pre-roll of the most
//! recent samples, and drives start/stop hysteresis: speech must stay above
//! the effective threshold for `min_speech_ms` before a segment starts, and
//! must stay below it for `silence_ms` before the segment ends, after which
//! a cooldown suppresses immediate re-triggering.
//!
//! Levels are in fixed point with full scale `32767`; time is in
//! milliseconds of audio.  The whole per-chunk update is mirrored by the
//! spec function [`vad_step`], so properties of chunk sequences can be
//! stated and proved against it.

use vstd::prelude::*;
use crate::levels::{
    chunk_peak, chunk_rms, spec_peak, spec_rms, spec_sign_changes, spec_stepped, zero_crossings,
};

verus! {

/// Length of the initial noise-floor calibration window, in milliseconds of
/// audio time.
pub const CALIBRATION_WINDOW_MS: u32 = 1000;

/// Floor of the calibrated threshold: one hundredth of full scale.
pub const MIN_DYNAMIC_THRESHOLD: u32 = 328;

/// Tuning of one detector instance.
#[derive(Clone, Copy, Debug)]
pub struct VadConfig {
    /// The user's detection threshold, in level units.
    pub threshold: u16,
    /// Detection must persist this long before a segment starts.
    pub min_speech_ms: u32,
    /// Silence must persist this long before a segment ends.
    pub silence_ms: u32,
    /// After a segment ends, detection is suppressed this long.
    pub cooldown_ms: u32,
    /// Samples of recent audio kept for the pre-roll.
    pub pre_roll_capacity: usize,
}

/// The mathematical state of a detector.
#[verifier::ext_equal]
pub ghost struct VadView {
    pub threshold: int,
    pub min_speech_ms: int,
    pub silence_ms: int,
    pub cooldown_ms: int,
    pub pre_roll_capacity: int,
    pub smoothed: int,
    pub above_ms: int,
    pub below_ms: int,
    pub cooldown_left_ms: int,
    pub recording_voice: bool,
    pub calib_left_ms: int,
    pub noise_energy: int,
    pub noise_time_ms: int,
    pub noise_peak: int,
    pub threshold_eff: int,
    pub prebuf: Seq<i16>,
}

/// What one chunk produced, at the spec level.
pub ghost struct VadStepOut {
    pub rms: int,
    pub peak: int,
    pub chunk_ms: int,
    pub calibrated: bool,
    pub segment_started: bool,
    pub segment_ended: bool,
    pub write_chunk: bool,
}

/// Range sanity of a detector state.
pub open spec fn view_ok(v: VadView) -> bool {
    &&& 0 <= v.threshold <= u16::MAX
    &&& 0 <= v.min_speech_ms <= u32::MAX
    &&& 0 <= v.silence_ms <= u32::MAX
    &&& 0 <= v.cooldown_ms <= u32::MAX
    &&& 0 <= v.pre_roll_capacity <= usize::MAX
    &&& 0 <= v.smoothed <= 32768
    &&& 0 <= v.above_ms <= u32::MAX
    &&& 0 <= v.below_ms <= u32::MAX
    &&& 0 <= v.cooldown_left_ms <= u32::MAX
    &&& 0 <= v.calib_left_ms <= CALIBRATION_WINDOW_MS
    &&& 0 <= v.noise_peak <= 32768
    &&& 0 <= v.threshold_eff <= 196608
    &&& v.noise_time_ms + v.calib_left_ms <= CALIBRATION_WINDOW_MS
    &&& 0 <= v.noise_time_ms
    &&& 0 <= v.noise_energy <= 32768 * v.noise_time_ms
    &&& v.prebuf.len() <= spec_preroll_limit(v.pre_roll_capacity)
}

/// The pre-roll never holds more than its capacity, except that a capacity
/// of zero still admits the one sample pushed after the eviction check.
pub open spec fn spec_preroll_limit(cap: int) -> int {
    if cap >= 1 {
        cap
    } else {
        1
    }
}

/// Addition clamped to the counter range.
pub open spec fn sat_add_u32(a: int, b: int) -> int {
    if a + b > u32::MAX {
        u32::MAX as int
    } else {
        a + b
    }
}

/// Subtraction clamped at zero.
pub open spec fn sat_sub(a: int, b: int) -> int {
    if a >= b {
        a - b
    } else {
        0
    }
}

/// Milliseconds of audio time one chunk covers, clamped to the counter
/// range.
pub open spec fn spec_chunk_ms(len: int, ch: int, rate: int) -> int {
    let ms = len / ch * 1000 / rate;
    if ms > u32::MAX {
        u32::MAX as int
    } else {
        ms
    }
}

/// One eviction-then-push of the pre-roll ring.
pub open spec fn preroll_push(buf: Seq<i16>, cap: int, s: i16) -> Seq<i16> {
    let evicted = if buf.len() >= cap && buf.len() > 0 {
        buf.drop_first()
    } else {
        buf
    };
    evicted.push(s)
}

/// The pre-roll after a whole chunk has been pushed through it.
pub open spec fn preroll_extend(buf: Seq<i16>, cap: int, chunk: Seq<i16>) -> Seq<i16>
    decreases chunk.len(),
{
    if chunk.len() == 0 {
        buf
    } else {
        preroll_push(preroll_extend(buf, cap, chunk.drop_last()), cap, chunk.last())
    }
}

proof fn lemma_preroll_push_limit(buf: Seq<i16>, cap: int, s: i16)
    requires
        buf.len() <= spec_preroll_limit(cap),
    ensures
        preroll_push(buf, cap, s).len() <= spec_preroll_limit(cap),
{
}

proof fn lemma_preroll_extend_limit(buf: Seq<i16>, cap: int, chunk: Seq<i16>)
    requires
        buf.len() <= spec_preroll_limit(cap),
    ensures
        preroll_extend(buf, cap, chunk).len() <= spec_preroll_limit(cap),
    decreases chunk.len(),
{
    if chunk.len() > 0 {
        lemma_preroll_extend_limit(buf, cap, chunk.drop_last());
        lemma_preroll_push_limit(preroll_extend(buf, cap, chunk.drop_last()), cap, chunk.last());
    }
}

/// The whole per-chunk update of the detector: level smoothing, noise-floor
/// calibration, pre-roll maintenance, cooldown, and the start/stop
/// hysteresis, in the order the detector performs them.
pub open spec fn vad_step(v: VadView, chunk: Seq<i16>, ch: int, rate: int) -> (VadView, VadStepOut) {
    let rms = spec_rms(chunk);
    let peak = spec_peak(chunk);
    let ms = spec_chunk_ms(chunk.len() as int, ch, rate);
    let smoothed = (9 * v.smoothed + rms) / 10;
    let calibrating = v.calib_left_ms > 0;
    let used = if v.calib_left_ms < ms {
        v.calib_left_ms
    } else {
        ms
    };
    let noise_energy = if calibrating {
        v.noise_energy + rms * used
    } else {
        v.noise_energy
    };
    let noise_time_ms = if calibrating {
        v.noise_time_ms + used
    } else {
        v.noise_time_ms
    };
    let calib_left_ms = if calibrating {
        sat_sub(v.calib_left_ms, ms)
    } else {
        v.calib_left_ms
    };
    let noise_peak = if calibrating && peak > v.noise_peak {
        peak
    } else {
        v.noise_peak
    };
    let calibrated = calibrating && calib_left_ms == 0 && noise_time_ms > 0;
    let threshold_eff = if calibrated {
        let dynamic = spec_max3(
            6 * noise_energy / noise_time_ms,
            6 * noise_peak / 10,
            MIN_DYNAMIC_THRESHOLD as int,
        );
        if v.threshold_eff > dynamic {
            v.threshold_eff
        } else {
            dynamic
        }
    } else {
        v.threshold_eff
    };
    let prebuf = preroll_extend(v.prebuf, v.pre_roll_capacity, chunk);
    let cooldown0 = sat_sub(v.cooldown_left_ms, ms);
    let detected = cooldown0 == 0 && (smoothed > threshold_eff || 10 * peak > 8 * threshold_eff);
    if detected {
        let above_ms = sat_add_u32(v.above_ms, ms);
        let started = above_ms >= v.min_speech_ms && !v.recording_voice;
        let recording = v.recording_voice || started;
        (
            VadView {
                smoothed,
                above_ms,
                below_ms: 0,
                cooldown_left_ms: cooldown0,
                recording_voice: recording,
                calib_left_ms,
                noise_energy,
                noise_time_ms,
                noise_peak,
                threshold_eff,
                prebuf,
                ..v
            },
            VadStepOut {
                rms,
                peak,
                chunk_ms: ms,
                calibrated,
                segment_started: started,
                segment_ended: false,
                write_chunk: recording,
            },
        )
    } else if v.recording_voice {
        let below_ms = sat_add_u32(v.below_ms, ms);
        let ended = below_ms >= v.silence_ms;
        (
            VadView {
                smoothed,
                above_ms: 0,
                below_ms: if ended {
                    0
                } else {
                    below_ms
                },
                cooldown_left_ms: if ended {
                    v.cooldown_ms
                } else {
                    cooldown0
                },
                recording_voice: !ended,
                calib_left_ms,
                noise_energy,
                noise_time_ms,
                noise_peak,
                threshold_eff,
                prebuf,
                ..v
            },
            VadStepOut {
                rms,
                peak,
                chunk_ms: ms,
                calibrated,
                segment_started: false,
                segment_ended: ended,
                write_chunk: true,
            },
        )
    } else {
        (
            VadView {
                smoothed,
                above_ms: 0,
                below_ms: v.below_ms,
                cooldown_left_ms: cooldown0,
                recording_voice: false,
                calib_left_ms,
                noise_energy,
                noise_time_ms,
                noise_peak,
                threshold_eff,
                prebuf,
                ..v
            },
            VadStepOut {
                rms,
                peak,
                chunk_ms: ms,
                calibrated,
                segment_started: false,
                segment_ended: false,
                write_chunk: false,
            },
        )
    }
}

pub open spec fn spec_max3(a: int, b: int, c: int) -> int {
    if a >= b && a >= c {
        a
    } else if b >= c {
        b
    } else {
        c
    }
}

/// What one processed chunk asks the caller to do, beside the telemetry it
/// carries.  When a segment starts, `preroll` holds the samples to persist
/// before the chunk's own samples, so speech onset is not clipped.
pub struct VadOutcome {
    /// Root-mean-square level of the chunk, for the UI meter.
    pub rms: u16,
    /// Peak level of the chunk, for the UI meter.
    pub peak: u16,
    /// Milliseconds of audio time the chunk covered.
    pub chunk_ms: u32,
    /// Sign changes along one channel; a diagnostic, never gating.
    pub zero_crossings: usize,
    /// The newly frozen effective threshold, when the calibration window
    /// closed on this chunk.
    pub calibrated_threshold: Option<u32>,
    /// A speech segment began with this chunk.
    pub segment_started: bool,
    /// The current speech segment ended with this chunk.
    pub segment_ended: bool,
    /// The caller should persist this chunk's samples.
    pub write_chunk: bool,
    /// On segment start, the pre-roll to persist before the chunk.
    pub preroll: Option<Vec<i16>>,
}

/// The voice activity detector.
pub struct Vad {
    config: VadConfig,
    smoothed: u32,
    above_ms: u32,
    below_ms: u32,
    cooldown_left_ms: u32,
    recording_voice: bool,
    calib_left_ms: u32,
    noise_energy: u64,
    noise_time_ms: u32,
    noise_peak: u16,
    threshold_eff: u32,
    prebuf: Vec<i16>,
}

impl View for Vad {
    type V = VadView;

    closed spec fn view(&self) -> VadView {
        VadView {
            threshold: self.config.threshold as int,
            min_speech_ms: self.config.min_speech_ms as int,
            silence_ms: self.config.silence_ms as int,
            cooldown_ms: self.config.cooldown_ms as int,
            pre_roll_capacity: self.config.pre_roll_capacity as int,
            smoothed: self.smoothed as int,
            above_ms: self.above_ms as int,
            below_ms: self.below_ms as int,
            cooldown_left_ms: self.cooldown_left_ms as int,
            recording_voice: self.recording_voice,
            calib_left_ms: self.calib_left_ms as int,
            noise_energy: self.noise_energy as int,
            noise_time_ms: self.noise_time_ms as int,
            noise_peak: self.noise_peak as int,
            threshold_eff: self.threshold_eff as int,
            prebuf: self.prebuf@,
        }
    }
}

impl Vad {
    pub open spec fn wf(self) -> bool {
        view_ok(self@)
    }

    pub fn new(config: VadConfig) -> (r: Vad)
        ensures
            r.wf(),
            r@.threshold == config.threshold as int,
            r@.min_speech_ms == config.min_speech_ms as int,
            r@.silence_ms == config.silence_ms as int,
            r@.cooldown_ms == config.cooldown_ms as int,
            r@.pre_roll_capacity == config.pre_roll_capacity as int,
            r@.smoothed == 0,
            r@.above_ms == 0,
            r@.below_ms == 0,
            r@.cooldown_left_ms == 0,
            !r@.recording_voice,
            r@.calib_left_ms == CALIBRATION_WINDOW_MS as int,
            r@.noise_energy == 0,
            r@.noise_time_ms == 0,
            r@.noise_peak == 0,
            r@.threshold_eff == config.threshold as int,
            r@.prebuf == Seq::<i16>::empty(),
    {
        Vad {
            config,
            smoothed: 0,
            above_ms: 0,
            below_ms: 0,
            cooldown_left_ms: 0,
            recording_voice: false,
            calib_left_ms: CALIBRATION_WINDOW_MS,
            noise_energy: 0,
            noise_time_ms: 0,
            noise_peak: 0,
            threshold_eff: config.threshold as u32,
            prebuf: Vec::new(),
        }
    }

    /// Whether speech is currently being recorded.
    pub fn is_recording_voice(&self) -> (r: bool)
        ensures
            r == self@.recording_voice,
    {
        self.recording_voice
    }

    /// The effective threshold currently in force.
    pub fn effective_threshold(&self) -> (r: u32)
        ensures
            r as int == self@.threshold_eff,
    {
        self.threshold_eff
    }

    /// Consumes one captured chunk and advances the detector exactly as
    /// [`vad_step`] describes, returning telemetry and the actions the
    /// caller must take.
    #[verifier::rlimit(80)]
    pub fn process_chunk(&mut self, samples: &[i16], channels: u16, sample_rate: u32) -> (outcome:
        VadOutcome)
        requires
            old(self).wf(),
            channels >= 1,
            sample_rate >= 1,
            samples@.len() <= 0x1_0000_0000,
            samples@.len() + channels as int <= usize::MAX,
        ensures
            final(self).wf(),
            final(self)@ == vad_step(
                old(self)@,
                samples@,
                channels as int,
                sample_rate as int,
            ).0,
            ({
                let out = vad_step(old(self)@, samples@, channels as int, sample_rate as int).1;
                &&& outcome.rms as int == out.rms
                &&& outcome.peak as int == out.peak
                &&& outcome.chunk_ms as int == out.chunk_ms
                &&& outcome.segment_started == out.segment_started
                &&& outcome.segment_ended == out.segment_ended
                &&& outcome.write_chunk == out.write_chunk
                &&& (outcome.calibrated_threshold is Some <==> out.calibrated)
                &&& (outcome.calibrated_threshold matches Some(t) ==> t as int == vad_step(
                    old(self)@,
                    samples@,
                    channels as int,
                    sample_rate as int,
                ).0.threshold_eff)
                &&& (outcome.preroll is Some <==> out.segment_started)
                &&& (outcome.preroll matches Some(p) ==> p@ == vad_step(
                    old(self)@,
                    samples@,
                    channels as int,
                    sample_rate as int,
                ).0.prebuf)
                &&& outcome.zero_crossings as int == spec_sign_changes(
                    spec_stepped(samples@, channels as int),
                )
            }),
    {
        let ghost v0 = self@;
        let ghost chi = channels as int;
        let ghost ratei = sample_rate as int;
        let rms = chunk_rms(samples);
        let peak = chunk_peak(samples);
        proof {
            crate::levels::lemma_peak_bound(samples@);
        }
        let zc = zero_crossings(samples, channels as usize);

        // Milliseconds of audio this chunk covers.
        let ms64: u64 = (samples.len() / (channels as usize)) as u64 * 1000 / (sample_rate as u64);
        let ms: u32 = if ms64 > 0xffffffff {
            0xffffffffu32
        } else {
            ms64 as u32
        };
        assert(ms as int == spec_chunk_ms(samples@.len() as int, chi, ratei));

        // Exponential smoothing of the level estimate.
        self.smoothed = (9 * self.smoothed + rms as u32) / 10;

        // Noise-floor calibration during the initial window.
        let calibrating = self.calib_left_ms > 0;
        let mut newly_calibrated: Option<u32> = None;
        if calibrating {
            let used: u32 = if self.calib_left_ms < ms {
                self.calib_left_ms
            } else {
                ms
            };
            proof {
                assert(used as int <= 1000);
                assert((rms as int) * (used as int) <= 32768 * 1000) by (nonlinear_arith)
                    requires
                        0 <= rms as int <= 32768,
                        0 <= used as int <= 1000;
                assert((rms as int) * (used as int) <= 32768 * (used as int)) by (nonlinear_arith)
                    requires
                        0 <= rms as int <= 32768,
                        0 <= used as int;
            }
            self.noise_energy = self.noise_energy + (rms as u64) * (used as u64);
            self.noise_time_ms = self.noise_time_ms + used;
            self.calib_left_ms = self.calib_left_ms.saturating_sub(ms);
            if peak > self.noise_peak {
                self.noise_peak = peak;
            }
            if self.calib_left_ms == 0 && self.noise_time_ms > 0 {
                proof {
                    assert(self.noise_energy as int <= 32768 * self.noise_time_ms as int);
                    assert(6 * self.noise_energy as int / self.noise_time_ms as int <= 6 * 32768)
                        by (nonlinear_arith)
                        requires
                            self.noise_time_ms as int >= 1,
                            0 <= self.noise_energy as int <= 32768 * self.noise_time_ms as int;
                }
                let from_avg: u32 = (6 * self.noise_energy / (self.noise_time_ms as u64)) as u32;
                let from_peak: u32 = 6 * (self.noise_peak as u32) / 10;
                let mut dynamic: u32 = MIN_DYNAMIC_THRESHOLD;
                if from_avg >= from_peak && from_avg >= MIN_DYNAMIC_THRESHOLD {
                    dynamic = from_avg;
                } else if from_peak >= MIN_DYNAMIC_THRESHOLD {
                    dynamic = from_peak;
                }
                if dynamic > self.threshold_eff {
                    self.threshold_eff = dynamic;
                }
                newly_calibrated = Some(self.threshold_eff);
            }
        }
        assert(self.threshold_eff as int <= 196608);

        // Pre-roll ring: evict oldest, append the chunk.
        let cap = self.config.pre_roll_capacity;
        let ghost prebuf0 = self.prebuf@;
        let ghost mid = self@;
        let mut j: usize = 0;
        while j < samples.len()
            invariant
                j <= samples@.len(),
                cap == self.config.pre_roll_capacity,
                self.prebuf@ == preroll_extend(prebuf0, cap as int, samples@.subrange(0, j as int)),
                self.prebuf@.len() <= spec_preroll_limit(cap as int),
                self@ == (VadView { prebuf: self.prebuf@, ..mid }),
            decreases samples@.len() - j,
        {
            proof {
                assert(samples@.subrange(0, j as int + 1).drop_last() =~= samples@.subrange(
                    0,
                    j as int,
                ));
            }
            if self.prebuf.len() >= cap && self.prebuf.len() > 0 {
                self.prebuf.remove(0);
                proof {
                    assert(self.prebuf@ =~= preroll_extend(
                        prebuf0,
                        cap as int,
                        samples@.subrange(0, j as int),
                    ).drop_first());
                }
            }
            self.prebuf.push(samples[j]);
            j = j + 1;
        }
        proof {
            assert(samples@.subrange(0, samples@.len() as int) =~= samples@);
        }

        // Cooldown after a recently ended segment.
        self.cooldown_left_ms = self.cooldown_left_ms.saturating_sub(ms);

        let detected = self.cooldown_left_ms == 0 && (self.smoothed > self.threshold_eff || 10 * (
        peak as u32) > 8 * self.threshold_eff);

        let mut outcome = VadOutcome {
            rms,
            peak,
            chunk_ms: ms,
            zero_crossings: zc,
            calibrated_threshold: newly_calibrated,
            segment_started: false,
            segment_ended: false,
            write_chunk: false,
            preroll: None,
        };

        if detected {
            self.above_ms = self.above_ms.saturating_add(ms);
            if self.above_ms >= self.config.min_speech_ms && !self.recording_voice {
                self.recording_voice = true;
                outcome.segment_started = true;
                outcome.preroll = Some(copy_samples(&self.prebuf));
            }
            outcome.write_chunk = self.recording_voice;
            self.below_ms = 0;
        } else {
            self.above_ms = 0;
            if self.recording_voice {
                self.below_ms = self.below_ms.saturating_add(ms);
                outcome.write_chunk = true;
                if self.below_ms >= self.config.silence_ms {
                    self.recording_voice = false;
                    self.below_ms = 0;
                    self.cooldown_left_ms = self.config.cooldown_ms;
                    outcome.segment_ended = true;
                }
            }
        }

        proof {
            let target = vad_step(v0, samples@, chi, ratei).0;
            assert(self@ =~= target);
            lemma_preroll_extend_limit(prebuf0, cap as int, samples@);
        }
        outcome
    }
}

/// Copies a sample buffer.
fn copy_samples(buffer: &Vec<i16>) -> (r: Vec<i16>)
    ensures
        r@ == buffer@,
{
    let mut out: Vec<i16> = Vec::new();
    let mut i: usize = 0;
    while i < buffer.len()
        invariant
            i <= buffer@.len(),
            out@ == buffer@.subrange(0, i as int),
        decreases buffer@.len() - i,
    {
        out.push(buffer[i]);
        i = i + 1;
    }
    proof {
        assert(out@ =~= buffer@);
    }
    out
}

/// The detector state after a whole sequence of chunks has been processed.
pub open spec fn vad_run(v: VadView, chunks: Seq<Seq<i16>>, ch: int, rate: int) -> VadView
    decreases chunks.len(),
{
    if chunks.len() == 0 {
        v
    } else {
        vad_step(vad_run(v, chunks.drop_last(), ch, rate), chunks.last(), ch, rate).0
    }
}

/// How many of the chunks started a segment.
pub open spec fn run_start_count(v: VadView, chunks: Seq<Seq<i16>>, ch: int, rate: int) -> int
    decreases chunks.len(),
{
    if chunks.len() == 0 {
        0
    } else {
        run_start_count(v, chunks.drop_last(), ch, rate) + if vad_step(
            vad_run(v, chunks.drop_last(), ch, rate),
            chunks.last(),
            ch,
            rate,
        ).1.segment_started {
            1int
        } else {
            0int
        }
    }
}

/// Total audio time of a sequence of chunks.
pub open spec fn total_ms(chunks: Seq<Seq<i16>>, ch: int, rate: int) -> int
    decreases chunks.len(),
{
    if chunks.len() == 0 {
        0
    } else {
        total_ms(chunks.drop_last(), ch, rate) + spec_chunk_ms(chunks.last().len() as int, ch, rate)
    }
}

/// Clamp to the counter range.
pub open spec fn sat_cap_u32(x: int) -> int {
    if x > u32::MAX {
        u32::MAX as int
    } else {
        x
    }
}

proof fn lemma_chunk_ms_bounds(len: int, ch: int, rate: int)
    requires
        len >= 0,
        ch >= 1,
        rate >= 1,
    ensures
        0 <= spec_chunk_ms(len, ch, rate) <= u32::MAX,
{
    vstd::arithmetic::div_mod::lemma_div_pos_is_pos(len, ch);
    vstd::arithmetic::div_mod::lemma_div_pos_is_pos(len / ch * 1000, rate);
}

proof fn lemma_total_ms_nonneg(chunks: Seq<Seq<i16>>, ch: int, rate: int)
    requires
        ch >= 1,
        rate >= 1,
    ensures
        total_ms(chunks, ch, rate) >= 0,
    decreases chunks.len(),
{
    if chunks.len() > 0 {
        lemma_total_ms_nonneg(chunks.drop_last(), ch, rate);
        lemma_chunk_ms_bounds(chunks.last().len() as int, ch, rate);
    }
}

/// Detection that persists for less audio time than `min_speech_ms` never
/// starts a segment: however the chunks look, a detector that is not yet
/// recording and whose accumulated detection time plus the whole run's
/// audio time stays below the speech threshold starts nothing.
pub proof fn lemma_short_run_never_starts(v: VadView, chunks: Seq<Seq<i16>>, ch: int, rate: int)
    requires
        ch >= 1,
        rate >= 1,
        !v.recording_voice,
        0 <= v.above_ms,
        v.above_ms + total_ms(chunks, ch, rate) < v.min_speech_ms,
    ensures
        run_start_count(v, chunks, ch, rate) == 0,
        !vad_run(v, chunks, ch, rate).recording_voice,
        vad_run(v, chunks, ch, rate).above_ms <= v.above_ms + total_ms(chunks, ch, rate),
        0 <= vad_run(v, chunks, ch, rate).above_ms,
        vad_run(v, chunks, ch, rate).min_speech_ms == v.min_speech_ms,
    decreases chunks.len(),
{
    if chunks.len() > 0 {
        let pre = chunks.drop_last();
        let last = chunks.last();
        let ms = spec_chunk_ms(last.len() as int, ch, rate);
        lemma_chunk_ms_bounds(last.len() as int, ch, rate);
        lemma_total_ms_nonneg(pre, ch, rate);
        lemma_short_run_never_starts(v, pre, ch, rate);
    }
}

/// Sustained detection starts exactly one segment.  After calibration, with
/// no cooldown pending and the smoothed level already above the effective
/// threshold, a run of chunks whose levels all exceed that threshold starts
/// a segment exactly once as soon as the accumulated audio time reaches
/// `min_speech_ms`, and never again while it stays in speech.
pub proof fn lemma_sustained_run_starts_once(v: VadView, chunks: Seq<Seq<i16>>, ch: int, rate: int)
    requires
        ch >= 1,
        rate >= 1,
        view_ok(v),
        !v.recording_voice,
        v.above_ms == 0,
        v.min_speech_ms >= 1,
        v.calib_left_ms == 0,
        v.cooldown_left_ms == 0,
        v.smoothed > v.threshold_eff,
        forall|i: int| 0 <= i < chunks.len() ==> spec_rms(#[trigger] chunks[i]) > v.threshold_eff,
    ensures
        ({
            let vr = vad_run(v, chunks, ch, rate);
            &&& vr.threshold_eff == v.threshold_eff
            &&& vr.min_speech_ms == v.min_speech_ms
            &&& vr.calib_left_ms == 0
            &&& vr.cooldown_left_ms == 0
            &&& vr.smoothed > v.threshold_eff
            &&& vr.above_ms == sat_cap_u32(total_ms(chunks, ch, rate))
            &&& (vr.recording_voice <==> sat_cap_u32(total_ms(chunks, ch, rate))
                >= v.min_speech_ms)
            &&& run_start_count(v, chunks, ch, rate) == (if sat_cap_u32(
                total_ms(chunks, ch, rate),
            ) >= v.min_speech_ms {
                1int
            } else {
                0int
            })
        }),
    decreases chunks.len(),
{
    if chunks.len() > 0 {
        let pre = chunks.drop_last();
        let last = chunks.last();
        assert(forall|i: int|
            0 <= i < pre.len() ==> spec_rms(#[trigger] pre[i]) > v.threshold_eff);
        lemma_sustained_run_starts_once(v, pre, ch, rate);
        let v1 = vad_run(v, pre, ch, rate);
        let ms = spec_chunk_ms(last.len() as int, ch, rate);
        lemma_chunk_ms_bounds(last.len() as int, ch, rate);
        lemma_total_ms_nonneg(pre, ch, rate);
        let t = v.threshold_eff;
        let rms = spec_rms(last);
        assert(rms > t);
        // The smoothed level stays above the threshold.
        let sm = (9 * v1.smoothed + rms) / 10;
        assert(sm > t) by {
            assert(9 * v1.smoothed + rms >= 10 * (t + 1));
            vstd::arithmetic::div_mod::lemma_fundamental_div_mod_converse(10 * (t + 1), 10, t + 1, 0);
            vstd::arithmetic::div_mod::lemma_div_is_ordered(10 * (t + 1), 9 * v1.smoothed + rms, 10);
        }
        let st = vad_step(v1, last, ch, rate);
        assert(total_ms(chunks, ch, rate) == total_ms(pre, ch, rate) + ms);
        assert(sat_sub(v1.cooldown_left_ms, ms) == 0);
        assert(st.0.threshold_eff == t);
        assert(sat_add_u32(v1.above_ms, ms) == sat_cap_u32(total_ms(chunks, ch, rate)));
        assert(st.1.segment_started == (sat_cap_u32(total_ms(chunks, ch, rate))
            >= v.min_speech_ms && !(sat_cap_u32(total_ms(pre, ch, rate)) >= v.min_speech_ms)));
    }
}

/// Samples of pre-roll to keep for a wanted span of recent audio.
pub fn pre_roll_capacity(pre_roll_ms: u32, sample_rate: u32, channels: u16) -> (r: usize)
    requires
        pre_roll_ms as int * sample_rate as int <= usize::MAX,
        pre_roll_ms as int * sample_rate as int / 1000 * channels as int <= usize::MAX,
    ensures
        r as int == pre_roll_ms as int * sample_rate as int / 1000 * channels as int,
{
    (pre_roll_ms as usize) * (sample_rate as usize) / 1000 * (channels as usize)
}

} // verus!
