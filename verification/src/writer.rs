//! Frame chunking for the compressed segment writer.
//!
//! The compressed sink accepts samples one at a time and hands the encoder
//! whole codec frames of `1152 * channels` samples.  The buffering, the
//! frame boundary and the split of the interleaved buffer into the two
//! channel sequences the encoder takes are verified here; the encoder call
//! itself and the file write stay outside the library.

use vstd::prelude::*;

verus! {

/// Samples per channel in one codec frame.
pub const FRAME_SAMPLES_PER_CHANNEL: usize = 1152;

/// The left channel the encoder is handed for an interleaved buffer: mono
/// input is duplicated, otherwise the first sample of each pair.
pub open spec fn spec_left_channel(s: Seq<i16>, ch: int) -> Seq<i16> {
    if ch == 1 {
        s
    } else {
        Seq::new(((s.len() + 1) / 2) as nat, |i: int| s[2 * i])
    }
}

/// The right channel: mono input is duplicated, otherwise the second sample
/// of each pair, with a lone trailing sample padded by silence.
pub open spec fn spec_right_channel(s: Seq<i16>, ch: int) -> Seq<i16> {
    if ch == 1 {
        s
    } else {
        Seq::new(((s.len() + 1) / 2) as nat, |i: int| if 2 * i + 1 < s.len() { s[2 * i + 1] } else { 0 })
    }
}

/// One codec frame ready for the encoder: two channel buffers of equal
/// length, as the encoder's contract demands.
pub struct EncodeFrame {
    pub left: Vec<i16>,
    pub right: Vec<i16>,
}

impl EncodeFrame {
    /// The split the writer performs on a pending buffer.
    pub open spec fn is_split_of(self, s: Seq<i16>, ch: int) -> bool {
        &&& self.left@ == spec_left_channel(s, ch)
        &&& self.right@ == spec_right_channel(s, ch)
        &&& self.left@.len() == self.right@.len()
    }
}

/// The pending-sample buffer of a compressed segment writer.  Samples
/// accumulate until a full codec frame is available; the frame is then
/// split into channel buffers and handed out for encoding.
pub struct Mp3FrameBuffer {
    buffer: Vec<i16>,
    channels: u16,
}

impl Mp3FrameBuffer {
    /// The buffer never holds a full frame between calls.
    pub closed spec fn wf(self) -> bool {
        &&& self.channels >= 1
        &&& self.buffer@.len() < 1152 * self.channels as int
    }

    pub closed spec fn spec_channels(self) -> int {
        self.channels as int
    }

    pub closed spec fn pending(self) -> Seq<i16> {
        self.buffer@
    }

    /// Samples in one full codec frame at this writer's channel count.
    pub open spec fn spec_frame_size(self) -> int {
        1152 * self.spec_channels()
    }

    pub fn new(channels: u16) -> (r: Self)
        requires
            channels >= 1,
        ensures
            r.wf(),
            r.spec_channels() == channels as int,
            r.pending() == Seq::<i16>::empty(),
    {
        Mp3FrameBuffer { buffer: Vec::new(), channels }
    }

    pub fn channels(&self) -> (r: u16)
        ensures
            r as int == self.spec_channels(),
    {
        self.channels
    }

    /// Accepts one sample.  Exactly when the buffer reaches a full frame of
    /// `1152 * channels` samples, the whole buffer is split into channel
    /// sequences, returned for encoding, and cleared; otherwise the sample
    /// is only buffered.
    pub fn push_sample(&mut self, sample: i16) -> (r: Option<EncodeFrame>)
        requires
            old(self).wf(),
        ensures
            final(self).wf(),
            final(self).spec_channels() == old(self).spec_channels(),
            ({
                let grown = old(self).pending().push(sample);
                if grown.len() == old(self).spec_frame_size() {
                    &&& r is Some
                    &&& r->0.is_split_of(grown, old(self).spec_channels())
                    &&& final(self).pending() == Seq::<i16>::empty()
                } else {
                    &&& r is None
                    &&& final(self).pending() == grown
                }
            }),
    {
        self.buffer.push(sample);
        let frame_size = 1152 * (self.channels as usize);
        if self.buffer.len() >= frame_size {
            let frame = split_channels(&self.buffer, self.channels);
            self.buffer = Vec::new();
            Some(frame)
        } else {
            None
        }
    }

    /// Finalizes the writer, consuming it so no further samples can arrive.
    /// A trailing partial frame is split and returned for one last encoder
    /// call; an empty buffer yields nothing, leaving only the encoder's own
    /// flush output.
    pub fn finalize(self) -> (r: Option<EncodeFrame>)
        requires
            self.wf(),
        ensures
            self.pending().len() == 0 ==> r is None,
            self.pending().len() > 0 ==> r is Some && r->0.is_split_of(
                self.pending(),
                self.spec_channels(),
            ),
    {
        if self.buffer.len() == 0 {
            None
        } else {
            Some(split_channels(&self.buffer, self.channels))
        }
    }
}

/// Splits an interleaved buffer into the two channel sequences the encoder
/// takes: mono duplicated to both channels, stereo deinterleaved with a lone
/// trailing sample padded by silence on the right.
pub fn split_channels(buffer: &Vec<i16>, channels: u16) -> (r: EncodeFrame)
    requires
        channels >= 1,
        buffer@.len() + 1 <= usize::MAX,
    ensures
        r.is_split_of(buffer@, channels as int),
{
    let len = buffer.len();
    if channels == 1 {
        let left = clone_samples(buffer);
        let right = clone_samples(buffer);
        EncodeFrame { left, right }
    } else {
        let pairs = (len + 1) / 2;
        let mut left: Vec<i16> = Vec::new();
        let mut right: Vec<i16> = Vec::new();
        let mut i: usize = 0;
        while i < pairs
            invariant
                i <= pairs,
                len == buffer@.len(),
                len + 1 <= usize::MAX,
                pairs == (len + 1) / 2,
                left@.len() == i,
                right@.len() == i,
                forall|k: int| 0 <= k < i ==> left@[k] == buffer@[2 * k],
                forall|k: int|
                    0 <= k < i ==> right@[k] == (if 2 * k + 1 < len {
                        buffer@[2 * k + 1]
                    } else {
                        0i16
                    }),
            decreases pairs - i,
        {
            assert(2 * i < len);
            left.push(buffer[2 * i]);
            if 2 * i + 1 < len {
                right.push(buffer[2 * i + 1]);
            } else {
                right.push(0);
            }
            i = i + 1;
        }
        proof {
            assert(left@ =~= spec_left_channel(buffer@, channels as int));
            assert(right@ =~= spec_right_channel(buffer@, channels as int));
        }
        EncodeFrame { left, right }
    }
}

/// Copies a sample buffer.
fn clone_samples(buffer: &Vec<i16>) -> (r: Vec<i16>)
    ensures
        r@ == buffer@,
{
    let mut out: Vec<i16> = Vec::new();
    let mut i: usize = 0;
    while i < buffer.len()
        invariant
            i <= buffer@.len(),
            out@ == buffer@.subrange(0, i as int),
        decreases buffer@.len() - i,
    {
        out.push(buffer[i]);
        i = i + 1;
    }
    proof {
        assert(out@ =~= buffer@);
    }
    out
}

/// The encoder settings a quality tier names: bitrate in kilobits per
/// second and the encoder's quality level.
pub fn quality_settings(quality: &str) -> (r: (u32, u8))
    ensures
        quality@ == "verylow"@ ==> r == (64u32, 9u8),
        quality@ == "low"@ ==> r == (128u32, 7u8),
        quality@ == "medium"@ ==> r == (192u32, 5u8),
        quality@ == "high"@ ==> r == (320u32, 2u8),
        (quality@ != "verylow"@ && quality@ != "low"@ && quality@ != "medium"@ && quality@
            != "high"@) ==> r == (192u32, 5u8),
{
    proof {
        reveal_strlit("verylow");
        reveal_strlit("low");
        reveal_strlit("medium");
        reveal_strlit("high");
        assert("verylow"@.len() == 7 && "low"@.len() == 3 && "medium"@.len() == 6 && "high"@.len()
            == 4);
    }
    if crate::text::str_eq(quality, "verylow") {
        (64, 9)
    } else if crate::text::str_eq(quality, "low") {
        (128, 7)
    } else if crate::text::str_eq(quality, "medium") {
        (192, 5)
    } else if crate::text::str_eq(quality, "high") {
        (320, 2)
    } else {
        (192, 5)
    }
}

/// The output-buffer size the writer allocates for one encoder call on
/// `samples_per_channel` samples: a quarter again over the sample count plus
/// codec headroom, never below the fixed floor.
pub fn encode_buffer_size(samples_per_channel: usize) -> (r: usize)
    requires
        samples_per_channel * 5 + 7200 <= usize::MAX,
    ensures
        r as int == if samples_per_channel as int * 5 / 4 + 7200 >= 16384 {
            samples_per_channel as int * 5 / 4 + 7200
        } else {
            16384int
        },
{
    let sized = samples_per_channel * 5 / 4 + 7200;
    if sized >= 16384 {
        sized
    } else {
        16384
    }
}

} // verus!
