//! A fixed-capacity planar audio buffer. Allocated once, reused every
//! callback.
//!
//! PLANAR layout: each channel is a contiguous run of samples. A *prepared
//! frame count* (set per callback) bounds every accessor; the allocated
//! capacity only bounds `prepare` itself, so varying callback sizes never
//! touch more memory than they need.

use vstd::prelude::*;
use vstd::slice::slice_subrange;

use crate::sample::{sat_add, sat_i64, scale, scaled};

verus! {

pub struct AudioBuffer {
    data: Vec<Vec<i64>>,
    frames: usize,
}

impl AudioBuffer {
    /// The full per-channel sample storage, capacity included.
    pub closed spec fn chans(&self) -> Seq<Seq<i64>> {
        Seq::new(self.data@.len(), |c: int| self.data@[c]@)
    }

    /// How many channels the buffer holds.
    pub open spec fn channel_count(&self) -> int {
        self.chans().len() as int
    }

    /// The prepared frame count: the region accessors may touch.
    pub closed spec fn frame_count(&self) -> int {
        self.frames as int
    }

    /// The allocated per-channel capacity in frames.
    pub open spec fn capacity(&self) -> int {
        if self.chans().len() == 0 {
            0
        } else {
            self.chans()[0].len() as int
        }
    }

    /// Every channel owns exactly `capacity` samples, and the prepared
    /// region never exceeds the capacity.
    pub open spec fn wf(&self) -> bool {
        &&& forall|c: int|
            0 <= c < self.chans().len() ==> (#[trigger] self.chans()[c]).len()
                == self.capacity()
        &&& 0 <= self.frame_count() <= self.capacity()
    }

    /// Both buffers present the same number of channels and prepared frames.
    pub open spec fn same_shape(&self, other: &AudioBuffer) -> bool {
        &&& self.channel_count() == other.channel_count()
        &&& self.frame_count() == other.frame_count()
    }

    /// The buffer's shape (channels, capacity, prepared frames) is unchanged.
    pub open spec fn shape_preserved(&self, old_buf: &AudioBuffer) -> bool {
        &&& self.channel_count() == old_buf.channel_count()
        &&& self.capacity() == old_buf.capacity()
        &&& self.frame_count() == old_buf.frame_count()
    }

    /// Allocate `channels` channels of `max_frames` samples each, all zero,
    /// with no frames prepared yet.
    pub fn new(channels: usize, max_frames: usize) -> (r: AudioBuffer)
        ensures
            r.wf(),
            r.channel_count() == channels,
            channels > 0 ==> r.capacity() == max_frames,
            channels == 0 ==> r.capacity() == 0,
            r.frame_count() == 0,
            forall|c: int, i: int|
                0 <= c < channels && 0 <= i < max_frames ==> #[trigger] r.chans()[c][i] == 0,
    {
        let mut data: Vec<Vec<i64>> = Vec::new();
        let mut c: usize = 0;
        while c < channels
            invariant
                c <= channels,
                data@.len() == c,
                forall|k: int| 0 <= k < c ==> (#[trigger] data@[k])@.len() == max_frames,
                forall|k: int, i: int|
                    0 <= k < c && 0 <= i < max_frames ==> (#[trigger] data@[k]@[i]) == 0,
            decreases channels - c,
        {
            let chan: Vec<i64> = vec![0i64; max_frames];
            data.push(chan);
            c = c + 1;
        }
        AudioBuffer { data, frames: 0 }
    }

    /// How many channels the buffer holds.
    pub fn channels(&self) -> (r: usize)
        ensures
            r == self.channel_count(),
    {
        self.data.len()
    }

    /// The prepared frame count.
    pub fn frames(&self) -> (r: usize)
        ensures
            r == self.frame_count(),
    {
        self.frames
    }

    /// Read one sample inside the prepared region.
    pub fn sample(&self, ch: usize, frame: usize) -> (r: i64)
        requires
            self.wf(),
            ch < self.channel_count(),
            frame < self.frame_count(),
        ensures
            r == self.chans()[ch as int][frame as int],
    {
        proof {
            assert(self.chans()[ch as int] == self.data@[ch as int]@);
            assert(self.chans()[ch as int].len() == self.capacity());
        }
        self.data[ch][frame]
    }

    /// Write one sample inside the prepared region.
    pub fn set_sample(&mut self, ch: usize, frame: usize, value: i64)
        requires
            old(self).wf(),
            ch < old(self).channel_count(),
            frame < old(self).frame_count(),
        ensures
            final(self).wf(),
            final(self).shape_preserved(old(self)),
            final(self).chans() == old(self).chans().update(
                ch as int,
                old(self).chans()[ch as int].update(frame as int, value),
            ),
    {
        proof {
            assert(old(self).chans()[ch as int] == old(self).data@[ch as int]@);
            assert(old(self).chans()[ch as int].len() == old(self).capacity());
        }
        self.data[ch][frame] = value;
        proof {
            assert(self.chans() =~~= old(self).chans().update(
                ch as int,
                old(self).chans()[ch as int].update(frame as int, value),
            ));
        }
    }

    /// Prepare for a new callback: set the active frame count and zero-fill
    /// exactly that many samples per channel. Samples beyond the prepared
    /// region keep their previous values.
    pub fn prepare(&mut self, frames: usize)
        requires
            old(self).wf(),
            frames <= old(self).capacity(),
        ensures
            final(self).wf(),
            final(self).channel_count() == old(self).channel_count(),
            final(self).capacity() == old(self).capacity(),
            final(self).frame_count() == frames,
            forall|c: int, i: int|
                0 <= c < final(self).channel_count() && 0 <= i < frames
                    ==> #[trigger] final(self).chans()[c][i] == 0,
            forall|c: int, i: int|
                0 <= c < final(self).channel_count() && frames <= i < final(self).capacity()
                    ==> #[trigger] final(self).chans()[c][i] == old(self).chans()[c][i],
    {
        self.frames = frames;
        let channels = self.data.len();
        let mut c: usize = 0;
        while c < channels
            invariant
                self.wf(),
                c <= channels,
                channels == self.channel_count(),
                self.channel_count() == old(self).channel_count(),
                self.capacity() == old(self).capacity(),
                self.frame_count() == frames,
                frames <= self.capacity(),
                forall|k: int, i: int|
                    0 <= k < c && 0 <= i < frames ==> #[trigger] self.chans()[k][i] == 0,
                forall|k: int, i: int|
                    0 <= k < self.channel_count() && frames <= i < self.capacity()
                        ==> #[trigger] self.chans()[k][i] == old(self).chans()[k][i],
                forall|k: int, i: int|
                    c <= k < self.channel_count() && 0 <= i < self.capacity()
                        ==> #[trigger] self.chans()[k][i] == old(self).chans()[k][i],
            decreases channels - c,
        {
            let mut i: usize = 0;
            while i < frames
                invariant
                    self.wf(),
                    c < channels,
                    i <= frames,
                    channels == self.channel_count(),
                    self.channel_count() == old(self).channel_count(),
                    self.capacity() == old(self).capacity(),
                    self.frame_count() == frames,
                    frames <= self.capacity(),
                    forall|k: int, j: int|
                        0 <= k < c && 0 <= j < frames ==> #[trigger] self.chans()[k][j] == 0,
                    forall|j: int| 0 <= j < i ==> #[trigger] self.chans()[c as int][j] == 0,
                    forall|k: int, j: int|
                        0 <= k < self.channel_count() && frames <= j < self.capacity()
                            ==> #[trigger] self.chans()[k][j] == old(self).chans()[k][j],
                    forall|k: int, j: int|
                        c < k < self.channel_count() && 0 <= j < self.capacity()
                            ==> #[trigger] self.chans()[k][j] == old(self).chans()[k][j],
                decreases frames - i,
            {
                self.set_sample(c, i, 0);
                i = i + 1;
            }
            c = c + 1;
        }
    }

    /// A channel's prepared region as a contiguous slice.
    pub fn channel(&self, ch: usize) -> (r: &[i64])
        requires
            self.wf(),
            ch < self.channel_count(),
        ensures
            r@ == self.chans()[ch as int].subrange(0, self.frame_count()),
    {
        proof {
            assert(self.chans()[ch as int] == self.data@[ch as int]@);
            assert(self.chans()[ch as int].len() == self.capacity());
        }
        slice_subrange(self.data[ch].as_slice(), 0, self.frames)
    }

    /// Additive mix: sums `other`'s prepared samples into this buffer
    /// elementwise, saturating at the `i64` range. Used to combine track
    /// outputs into a master bus; mixing twice accumulates twice.
    pub fn mix_from(&mut self, other: &AudioBuffer)
        requires
            old(self).wf(),
            other.wf(),
            old(self).same_shape(other),
        ensures
            final(self).wf(),
            final(self).shape_preserved(old(self)),
            forall|c: int, i: int|
                0 <= c < final(self).channel_count() && 0 <= i < final(self).frame_count()
                    ==> #[trigger] final(self).chans()[c][i] == sat_i64(
                    old(self).chans()[c][i] + other.chans()[c][i],
                ),
            forall|c: int, i: int|
                0 <= c < final(self).channel_count() && final(self).frame_count() <= i < final(self).capacity()
                    ==> #[trigger] final(self).chans()[c][i] == old(self).chans()[c][i],
    {
        let channels = self.data.len();
        let frames = self.frames;
        let mut c: usize = 0;
        while c < channels
            invariant
                self.wf(),
                c <= channels,
                other.wf(),
                channels == self.channel_count(),
                frames == self.frame_count(),
                self.shape_preserved(old(self)),
                old(self).same_shape(other),
                forall|k: int, j: int|
                    0 <= k < c && 0 <= j < frames ==> #[trigger] self.chans()[k][j] == sat_i64(
                        old(self).chans()[k][j] + other.chans()[k][j],
                    ),
                forall|k: int, j: int|
                    0 <= k < self.channel_count() && frames <= j < self.capacity()
                        ==> #[trigger] self.chans()[k][j] == old(self).chans()[k][j],
                forall|k: int, j: int|
                    c <= k < self.channel_count() && 0 <= j < self.capacity()
                        ==> #[trigger] self.chans()[k][j] == old(self).chans()[k][j],
            decreases channels - c,
        {
            let mut i: usize = 0;
            while i < frames
                invariant
                    self.wf(),
                    c < channels,
                    i <= frames,
                    other.wf(),
                    channels == self.channel_count(),
                    frames == self.frame_count(),
                    self.shape_preserved(old(self)),
                    old(self).same_shape(other),
                    forall|k: int, j: int|
                        0 <= k < c && 0 <= j < frames ==> #[trigger] self.chans()[k][j]
                            == sat_i64(old(self).chans()[k][j] + other.chans()[k][j]),
                    forall|j: int|
                        0 <= j < i ==> #[trigger] self.chans()[c as int][j] == sat_i64(
                            old(self).chans()[c as int][j] + other.chans()[c as int][j],
                        ),
                    forall|j: int|
                        i <= j < frames ==> #[trigger] self.chans()[c as int][j] == old(
                            self,
                        ).chans()[c as int][j],
                    forall|k: int, j: int|
                        0 <= k < self.channel_count() && frames <= j < self.capacity()
                            ==> #[trigger] self.chans()[k][j] == old(self).chans()[k][j],
                    forall|k: int, j: int|
                        c < k < self.channel_count() && 0 <= j < self.capacity()
                            ==> #[trigger] self.chans()[k][j] == old(self).chans()[k][j],
                decreases frames - i,
            {
                let mixed = sat_add(self.sample(c, i), other.sample(c, i));
                self.set_sample(c, i, mixed);
                i = i + 1;
            }
            c = c + 1;
        }
    }

    /// Scale channel 0 by `gain_l` and channel 1 by `gain_r` (fixed-point
    /// gains in `UNIT`ths), saturating at the `i64` range. Assumes stereo:
    /// channels beyond the first two are untouched.
    pub fn apply_stereo_gain(&mut self, gain_l: u64, gain_r: u64)
        requires
            old(self).wf(),
            old(self).channel_count() >= 2,
            gain_l <= 1_000_000_000_000,
            gain_r <= 1_000_000_000_000,
        ensures
            final(self).wf(),
            final(self).shape_preserved(old(self)),
            forall|i: int|
                0 <= i < final(self).frame_count() ==> #[trigger] final(self).chans()[0][i] == sat_i64(
                    scaled(old(self).chans()[0][i], gain_l),
                ),
            forall|i: int|
                0 <= i < final(self).frame_count() ==> #[trigger] final(self).chans()[1][i] == sat_i64(
                    scaled(old(self).chans()[1][i], gain_r),
                ),
            forall|c: int, i: int|
                2 <= c < final(self).channel_count() && 0 <= i < final(self).capacity()
                    ==> #[trigger] final(self).chans()[c][i] == old(self).chans()[c][i],
            forall|c: int, i: int|
                0 <= c < 2 && final(self).frame_count() <= i < final(self).capacity()
                    ==> #[trigger] final(self).chans()[c][i] == old(self).chans()[c][i],
    {
        let frames = self.frames;
        let mut ch: usize = 0;
        while ch < 2
            invariant
                self.wf(),
                ch <= 2,
                self.channel_count() >= 2,
                frames == self.frame_count(),
                self.shape_preserved(old(self)),
                gain_l <= 1_000_000_000_000,
                gain_r <= 1_000_000_000_000,
                ch >= 1 ==> forall|j: int|
                    0 <= j < frames ==> #[trigger] self.chans()[0][j] == sat_i64(
                        scaled(old(self).chans()[0][j], gain_l),
                    ),
                ch >= 2 ==> forall|j: int|
                    0 <= j < frames ==> #[trigger] self.chans()[1][j] == sat_i64(
                        scaled(old(self).chans()[1][j], gain_r),
                    ),
                forall|k: int, j: int|
                    ch <= k < self.channel_count() && 0 <= j < self.capacity()
                        ==> #[trigger] self.chans()[k][j] == old(self).chans()[k][j],
                forall|k: int, j: int|
                    2 <= k < self.channel_count() && 0 <= j < self.capacity()
                        ==> #[trigger] self.chans()[k][j] == old(self).chans()[k][j],
                forall|k: int, j: int|
                    0 <= k < 2 && frames <= j < self.capacity() ==> #[trigger] self.chans()[k][j]
                        == old(self).chans()[k][j],
            decreases 2 - ch,
        {
            let gain = if ch == 0 {
                gain_l
            } else {
                gain_r
            };
            let mut i: usize = 0;
            while i < frames
                invariant
                    self.wf(),
                    ch < 2,
                    i <= frames,
                    self.channel_count() >= 2,
                    frames == self.frame_count(),
                    self.shape_preserved(old(self)),
                    gain <= 1_000_000_000_000,
                    gain == if ch == 0 { gain_l } else { gain_r },
                    gain_l <= 1_000_000_000_000,
                    gain_r <= 1_000_000_000_000,
                    ch >= 1 ==> forall|j: int|
                        0 <= j < frames ==> #[trigger] self.chans()[0][j] == sat_i64(
                            scaled(old(self).chans()[0][j], gain_l),
                        ),
                    forall|j: int|
                        0 <= j < i ==> #[trigger] self.chans()[ch as int][j] == sat_i64(
                            scaled(old(self).chans()[ch as int][j], gain),
                        ),
                    forall|j: int|
                        i <= j < frames ==> #[trigger] self.chans()[ch as int][j] == old(
                            self,
                        ).chans()[ch as int][j],
                    forall|k: int, j: int|
                        ch < k < self.channel_count() && 0 <= j < self.capacity()
                            ==> #[trigger] self.chans()[k][j] == old(self).chans()[k][j],
                    forall|k: int, j: int|
                        2 <= k < self.channel_count() && 0 <= j < self.capacity()
                            ==> #[trigger] self.chans()[k][j] == old(self).chans()[k][j],
                    forall|k: int, j: int|
                        0 <= k < 2 && frames <= j < self.capacity()
                            ==> #[trigger] self.chans()[k][j] == old(self).chans()[k][j],
                decreases frames - i,
            {
                let scaled_sample = scale(self.sample(ch, i), gain);
                self.set_sample(ch, i, scaled_sample);
                i = i + 1;
            }
            ch = ch + 1;
        }
    }

    /// Transpose the prepared planar samples into one interleaved run
    /// (frame-major) for a host audio callback. `output` must hold exactly
    /// `frames * channels` samples.
    pub fn write_interleaved(&self, output: &mut Vec<i64>)
        requires
            self.wf(),
            old(output)@.len() == self.frame_count() * self.channel_count(),
        ensures
            final(output)@.len() == old(output)@.len(),
            forall|f: int, c: int|
                0 <= f < self.frame_count() && 0 <= c < self.channel_count()
                    ==> #[trigger] final(output)@[f * self.channel_count() + c]
                    == self.chans()[c][f],
    {
        let channels = self.data.len();
        let frames = self.frames;
        let out_len: usize = output.len();
        proof {
            lemma_interleave_bounds(frames as int, channels as int);
        }
        let mut f: usize = 0;
        while f < frames
            invariant
                self.wf(),
                f <= frames,
                channels == self.channel_count(),
                frames == self.frame_count(),
                output@.len() == frames * channels,
                out_len == frames * channels,
                forall|g: int, c: int|
                    0 <= g < f && 0 <= c < channels ==> #[trigger] output@[g * channels + c]
                        == self.chans()[c][g],
            decreases frames - f,
        {
            let mut c: usize = 0;
            while c < channels
                invariant
                    self.wf(),
                    f < frames,
                    c <= channels,
                    channels == self.channel_count(),
                    frames == self.frame_count(),
                    output@.len() == frames * channels,
                    out_len == frames * channels,
                    forall|g: int, k: int|
                        0 <= g < f && 0 <= k < channels ==> #[trigger] output@[g * channels + k]
                            == self.chans()[k][g],
                    forall|k: int|
                        0 <= k < c ==> #[trigger] output@[f as int * channels + k]
                            == self.chans()[k][f as int],
                decreases channels - c,
            {
                proof {
                    lemma_interleave_index_in_range(
                        f as int,
                        c as int,
                        frames as int,
                        channels as int,
                    );
                }
                let idx = f * channels + c;
                let value = self.sample(c, f);
                let ghost prev = output@;
                output[idx] = value;
                proof {
                    assert forall|g: int, k: int| 0 <= g < f && 0 <= k < channels implies
                        #[trigger] output@[g * channels + k] == self.chans()[k][g] by {
                        assert(0 <= g * channels + k < f * channels) by (nonlinear_arith)
                            requires
                                0 <= g < f,
                                0 <= k < channels,
                        ;
                        assert(output@[g * channels + k] == prev[g * channels + k]);
                    }
                }
                c = c + 1;
            }
            f = f + 1;
        }
    }
}

/// Additive mixing accumulates: mixing a source of constant value `v`
/// into a zeroed destination (as `mix_from`'s contract describes the
/// result, elementwise) yields `v` in every prepared slot, and mixing the
/// same source in a second time yields `2v` — provided `2v` itself fits
/// the sample range, so no saturation interferes.
pub proof fn lemma_mix_additive(
    dst0: &AudioBuffer,
    dst1: &AudioBuffer,
    dst2: &AudioBuffer,
    src: &AudioBuffer,
    v: i64,
)
    requires
        i64::MIN <= 2 * v <= i64::MAX,
        dst0.same_shape(src),
        dst1.same_shape(dst0),
        dst2.same_shape(dst0),
        forall|c: int, i: int|
            0 <= c < dst0.channel_count() && 0 <= i < dst0.frame_count()
                ==> #[trigger] dst0.chans()[c][i] == 0,
        forall|c: int, i: int|
            0 <= c < src.channel_count() && 0 <= i < src.frame_count()
                ==> #[trigger] src.chans()[c][i] == v,
        forall|c: int, i: int|
            0 <= c < dst1.channel_count() && 0 <= i < dst1.frame_count()
                ==> #[trigger] dst1.chans()[c][i] == sat_i64(
                dst0.chans()[c][i] + src.chans()[c][i],
            ),
        forall|c: int, i: int|
            0 <= c < dst2.channel_count() && 0 <= i < dst2.frame_count()
                ==> #[trigger] dst2.chans()[c][i] == sat_i64(
                dst1.chans()[c][i] + src.chans()[c][i],
            ),
    ensures
        forall|c: int, i: int|
            0 <= c < dst1.channel_count() && 0 <= i < dst1.frame_count()
                ==> #[trigger] dst1.chans()[c][i] == v,
        forall|c: int, i: int|
            0 <= c < dst2.channel_count() && 0 <= i < dst2.frame_count()
                ==> #[trigger] dst2.chans()[c][i] == 2 * v,
{
    assert forall|c: int, i: int|
        0 <= c < dst1.channel_count() && 0 <= i < dst1.frame_count() implies #[trigger] dst1
        .chans()[c][i] == v by {
        assert(dst0.chans()[c][i] == 0);
        assert(src.chans()[c][i] == v);
    }
    assert forall|c: int, i: int|
        0 <= c < dst2.channel_count() && 0 <= i < dst2.frame_count() implies #[trigger] dst2
        .chans()[c][i] == 2 * v by {
        assert(dst1.chans()[c][i] == v);
        assert(src.chans()[c][i] == v);
    }
}

/// `frames * channels` never overflows when both fit in `usize`.
proof fn lemma_interleave_bounds(frames: int, channels: int)
    requires
        frames >= 0,
        channels >= 0,
    ensures
        frames * channels >= 0,
{
    assert(frames * channels >= 0) by (nonlinear_arith)
        requires
            frames >= 0,
            channels >= 0,
    ;
}

/// The interleaved index of a frame/channel pair is in range.
proof fn lemma_interleave_index_in_range(f: int, c: int, frames: int, channels: int)
    requires
        0 <= f < frames,
        0 <= c < channels,
    ensures
        0 <= f * channels + c < frames * channels,
{
    assert(0 <= f * channels + c < frames * channels) by (nonlinear_arith)
        requires
            0 <= f < frames,
            0 <= c < channels,
    ;
}

} // verus!
