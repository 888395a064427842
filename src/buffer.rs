use vstd::prelude::*;
use crate::error::AudioError;
use crate::sample::{Sample, clamp, floor_div, scale_sample, mix_sample, scaled, mixed};
use crate::effects::{Effect, effect_valid, effect_sample, run_effect};

verus! {

/// Every channel of `data` has the length of the first one, and there is one.
pub open spec fn rectangular(data: Seq<Seq<Sample>>) -> bool {
    data.len() >= 1 && forall|c: int| 0 <= c < data.len() ==> #[trigger] data[c].len() == data[0].len()
}

/// `data` with `extra` appended to every channel.
pub open spec fn broadcast_append(data: Seq<Seq<Sample>>, extra: Seq<Sample>) -> Seq<Seq<Sample>> {
    Seq::new(data.len(), |c: int| data[c] + extra)
}

/// A channel cut or zero-padded to `n` samples.
pub open spec fn fit(ch: Seq<Sample>, n: nat) -> Seq<Sample> {
    Seq::new(n, |i: int| if i < ch.len() { ch[i] } else { 0i32 })
}

/// Sample `i` of a channel, zero past its end.
pub open spec fn at_or_zero(ch: Seq<Sample>, i: int) -> Sample {
    if 0 <= i < ch.len() { ch[i] } else { 0i32 }
}

/// Channel `a` padded to `n` samples with `b` added in, scaled by `gain`.
pub open spec fn mixed_channel(a: Seq<Sample>, b: Seq<Sample>, gain: i32, n: nat) -> Seq<Sample> {
    Seq::new(n, |i: int| if i < b.len() { mixed(at_or_zero(a, i), b[i], gain) } else { at_or_zero(a, i) })
}

/// Sum of sample `i` over the first `n` channels.
pub open spec fn channel_sum(data: Seq<Seq<Sample>>, i: int, n: int) -> int
    decreases n,
{
    if n <= 0 { 0 } else { channel_sum(data, i, n - 1) + data[n - 1][i] }
}

/// The mean of sample `i` over all channels, rounded down.
pub open spec fn channel_mean(data: Seq<Seq<Sample>>, i: int) -> Sample {
    clamp(channel_sum(data, i, data.len() as int) / (data.len() as int))
}

/// Mixing at gain zero changes no sample: every channel of the target only
/// gains zero padding up to the mixed length `n`.
pub proof fn lemma_mix_zero_gain_only_pads(a: Seq<Seq<Sample>>, b: Seq<Seq<Sample>>, n: nat)
    requires
        rectangular(a),
        a[0].len() <= n,
    ensures
        Seq::new(a.len(), |c: int| mixed_channel(a[c], b[c], 0, n)) == Seq::new(a.len(), |c: int| fit(a[c], n)),
{
    assert forall|c: int| 0 <= c < a.len() implies #[trigger] mixed_channel(a[c], b[c], 0, n) == fit(a[c], n) by {
        assert forall|i: int| 0 <= i < n implies #[trigger] mixed_channel(a[c], b[c], 0, n)[i] == fit(a[c], n)[i] by {
            if i < b[c].len() {
                assert(b[c][i] * 0 == 0);
            }
        }
        assert(mixed_channel(a[c], b[c], 0, n) =~= fit(a[c], n));
    }
    assert(Seq::new(a.len(), |c: int| mixed_channel(a[c], b[c], 0, n)) =~= Seq::new(a.len(), |c: int| fit(a[c], n)));
}

/// Multi-channel sample storage with a fixed sample rate.
#[derive(Clone, Debug)]
pub struct AudioBuffer {
    samples: Vec<Vec<Sample>>,
    sample_rate: u32,
}

impl View for AudioBuffer {
    type V = Seq<Seq<Sample>>;

    closed spec fn view(&self) -> Seq<Seq<Sample>> {
        Seq::new(self.samples@.len(), |c: int| self.samples@[c]@)
    }
}

impl AudioBuffer {
    /// The sample rate in Hz.
    pub closed spec fn rate(&self) -> u32 {
        self.sample_rate
    }

    /// Frames per channel.
    pub open spec fn frames(&self) -> nat {
        self@[0].len()
    }

    /// Every channel has the same length, and there is at least one channel.
    pub open spec fn wf(&self) -> bool {
        rectangular(self@)
    }

    /// An empty buffer with `channels` channels.
    pub fn new(sample_rate: u32, channels: usize) -> (r: AudioBuffer)
        requires
            channels >= 1,
        ensures
            r.wf(),
            r.rate() == sample_rate,
            r@ == Seq::new(channels as nat, |c: int| Seq::<Sample>::empty()),
            r.frames() == 0,
    {
        let mut samples: Vec<Vec<Sample>> = Vec::new();
        let mut c: usize = 0;
        while c < channels
            invariant
                c <= channels,
                samples@.len() == c,
                forall|k: int| 0 <= k < c ==> (#[trigger] samples@[k])@ == Seq::<Sample>::empty(),
            decreases channels - c,
        {
            samples.push(Vec::new());
            c += 1;
        }
        let r = AudioBuffer { samples, sample_rate };
        assert(r@ =~= Seq::new(channels as nat, |c: int| Seq::<Sample>::empty()));
        r
    }

    /// A buffer holding `data`, one vector per channel.
    pub fn from_data(data: Vec<Vec<Sample>>, sample_rate: u32) -> (r: Result<AudioBuffer, AudioError>)
        ensures
            match r {
                Ok(b) => rectangular(Seq::new(data@.len(), |c: int| data@[c]@))
                    && b.wf() && b@ == Seq::new(data@.len(), |c: int| data@[c]@)
                    && b.rate() == sample_rate,
                Err(e) => !rectangular(Seq::new(data@.len(), |c: int| data@[c]@))
                    && e is InvalidBuffer,
            },
    {
        let ghost d = Seq::new(data@.len(), |c: int| data@[c]@);
        if data.len() == 0 {
            return Err(AudioError::InvalidBuffer);
        }
        let first = data[0].len();
        let mut c: usize = 1;
        while c < data.len()
            invariant
                1 <= c <= data@.len(),
                first == data@[0]@.len(),
                d == Seq::new(data@.len(), |c: int| data@[c]@),
                forall|k: int| 0 <= k < c ==> #[trigger] d[k].len() == d[0].len(),
            decreases data@.len() - c,
        {
            if data[c].len() != first {
                assert(d[c as int].len() != d[0].len());
                return Err(AudioError::InvalidBuffer);
            }
            c += 1;
        }
        let r = AudioBuffer { samples: data, sample_rate };
        assert(r@ =~= d);
        Ok(r)
    }

    /// The samples, one vector per channel.
    pub fn samples(&self) -> (r: &Vec<Vec<Sample>>)
        ensures
            r@.len() == self@.len(),
            forall|c: int| 0 <= c < r@.len() ==> (#[trigger] r@[c])@ == self@[c],
    {
        &self.samples
    }

    /// Frames per channel.
    pub fn len(&self) -> (r: usize)
        requires
            self.wf(),
        ensures
            r == self.frames(),
    {
        self.samples[0].len()
    }

    /// Whether the buffer holds no frames.
    pub fn is_empty(&self) -> (r: bool)
        requires
            self.wf(),
        ensures
            r == (self.frames() == 0),
    {
        self.len() == 0
    }

    /// The sample rate in Hz.
    pub fn sample_rate(&self) -> (r: u32)
        ensures
            r == self.rate(),
    {
        self.sample_rate
    }

    /// The number of channels.
    pub fn channels(&self) -> (r: usize)
        ensures
            r == self@.len(),
    {
        self.samples.len()
    }

    /// Sample `i` of channel `c`.
    pub fn get(&self, c: usize, i: usize) -> (r: Sample)
        requires
            c < self@.len(),
            i < self@[c as int].len(),
        ensures
            r == self@[c as int][i as int],
    {
        self.samples[c][i]
    }

    /// Appends the same samples to every channel.
    pub fn append_mono(&mut self, samples: &[Sample])
        requires
            old(self).wf(),
        ensures
            final(self).wf(),
            final(self).rate() == old(self).rate(),
            final(self)@ == broadcast_append(old(self)@, samples@),
    {
        let n = self.samples.len();
        let mut c: usize = 0;
        while c < n
            invariant
                n == self.samples@.len(),
                c <= n,
                self.sample_rate == old(self).sample_rate,
                self.samples@.len() == old(self)@.len(),
                forall|k: int| 0 <= k < c ==> (#[trigger] self.samples@[k])@ == old(self)@[k] + samples@,
                forall|k: int| c <= k < n ==> (#[trigger] self.samples@[k])@ == old(self)@[k],
            decreases n - c,
        {
            self.samples[c].extend_from_slice(samples);
            c += 1;
        }
        assert(self@ =~= broadcast_append(old(self)@, samples@));
    }
    /// Appends `samples[c]` to channel `c`; fails unless there is one slice per channel.
    pub fn append(&mut self, samples: &[&[Sample]]) -> (r: Result<(), AudioError>)
        requires
            old(self).wf(),
        ensures
            final(self).rate() == old(self).rate(),
            samples@.len() != old(self)@.len() ==> r is Err && r->Err_0 is ChannelMismatch
                && final(self)@ == old(self)@,
            samples@.len() == old(self)@.len() ==> r is Ok
                && final(self)@ == Seq::new(old(self)@.len(), |c: int| old(self)@[c] + samples@[c]@),
            final(self)@.len() == old(self)@.len(),
            // the channels stay of equal length when the appended slices are
            (forall|c: int| 0 <= c < samples@.len() ==> (#[trigger] samples@[c])@.len() == samples@[0]@.len())
                ==> final(self).wf(),
    {
        if samples.len() != self.samples.len() {
            return Err(AudioError::ChannelMismatch);
        }
        let n = self.samples.len();
        let mut c: usize = 0;
        while c < n
            invariant
                n == self.samples@.len(),
                n == samples@.len(),
                c <= n,
                self.sample_rate == old(self).sample_rate,
                forall|k: int| 0 <= k < c ==> (#[trigger] self.samples@[k])@ == old(self)@[k] + samples@[k]@,
                forall|k: int| c <= k < n ==> (#[trigger] self.samples@[k])@ == old(self)@[k],
            decreases n - c,
        {
            self.samples[c].extend_from_slice(samples[c]);
            c += 1;
        }
        assert(self@ =~= Seq::new(old(self)@.len(), |c: int| old(self)@[c] + samples@[c]@));
        Ok(())
    }

    /// Empties every channel, keeping the channel count and the storage.
    pub fn clear(&mut self)
        requires
            old(self).wf(),
        ensures
            final(self).wf(),
            final(self).rate() == old(self).rate(),
            final(self)@ == Seq::new(old(self)@.len(), |c: int| Seq::<Sample>::empty()),
    {
        let n = self.samples.len();
        let mut c: usize = 0;
        while c < n
            invariant
                n == self.samples@.len(),
                n == old(self)@.len(),
                c <= n,
                self.sample_rate == old(self).sample_rate,
                forall|k: int| 0 <= k < c ==> (#[trigger] self.samples@[k])@ == Seq::<Sample>::empty(),
            decreases n - c,
        {
            self.samples[c].clear();
            c += 1;
        }
        assert(self@ =~= Seq::new(old(self)@.len(), |c: int| Seq::<Sample>::empty()));
    }

    /// Cuts every channel to `new_len` frames, or pads it with zeros.
    pub fn resize(&mut self, new_len: usize)
        requires
            old(self).wf(),
        ensures
            final(self).wf(),
            final(self).rate() == old(self).rate(),
            final(self)@ == Seq::new(old(self)@.len(), |c: int| fit(old(self)@[c], new_len as nat)),
    {
        let n = self.samples.len();
        let mut c: usize = 0;
        while c < n
            invariant
                n == self.samples@.len(),
                n == old(self)@.len(),
                c <= n,
                self.sample_rate == old(self).sample_rate,
                forall|k: int| 0 <= k < c ==> (#[trigger] self.samples@[k])@ == fit(old(self)@[k], new_len as nat),
                forall|k: int| c <= k < n ==> (#[trigger] self.samples@[k])@ == old(self)@[k],
            decreases n - c,
        {
            self.samples[c].resize(new_len, 0i32);
            assert(self.samples@[c as int]@ =~= fit(old(self)@[c as int], new_len as nat));
            c += 1;
        }
        assert(self@ =~= Seq::new(old(self)@.len(), |c: int| fit(old(self)@[c], new_len as nat)));
    }

    /// Multiplies every sample by the fixed-point gain `gain`.
    pub fn apply_gain(&mut self, gain: i32)
        requires
            old(self).wf(),
        ensures
            final(self).wf(),
            final(self).rate() == old(self).rate(),
            final(self)@ == Seq::new(old(self)@.len(),
                |c: int| Seq::new(old(self)@[c].len(), |i: int| scaled(old(self)@[c][i], gain))),
    {
        let n = self.samples.len();
        let mut c: usize = 0;
        while c < n
            invariant
                n == self.samples@.len(),
                n == old(self)@.len(),
                c <= n,
                self.sample_rate == old(self).sample_rate,
                forall|k: int| 0 <= k < c ==> (#[trigger] self.samples@[k])@
                    == Seq::new(old(self)@[k].len(), |i: int| scaled(old(self)@[k][i], gain)),
                forall|k: int| c <= k < n ==> (#[trigger] self.samples@[k])@ == old(self)@[k],
            decreases n - c,
        {
            let len = self.samples[c].len();
            let mut i: usize = 0;
            while i < len
                invariant
                    n == self.samples@.len(),
                    n == old(self)@.len(),
                    c < n,
                    i <= len,
                    len == old(self)@[c as int].len(),
                    self.sample_rate == old(self).sample_rate,
                    self.samples@[c as int]@.len() == len,
                    forall|j: int| 0 <= j < i ==> #[trigger] self.samples@[c as int]@[j] == scaled(old(self)@[c as int][j], gain),
                    forall|j: int| i <= j < len ==> #[trigger] self.samples@[c as int]@[j] == old(self)@[c as int][j],
                    forall|k: int| 0 <= k < c ==> (#[trigger] self.samples@[k])@
                        == Seq::new(old(self)@[k].len(), |i: int| scaled(old(self)@[k][i], gain)),
                    forall|k: int| c < k < n ==> (#[trigger] self.samples@[k])@ == old(self)@[k],
                decreases len - i,
            {
                let v = scale_sample(self.samples[c][i], gain);
                self.samples[c][i] = v;
                i += 1;
            }
            assert(self.samples@[c as int]@ =~= Seq::new(old(self)@[c as int].len(), |i: int| scaled(old(self)@[c as int][i], gain)));
            c += 1;
        }
        assert(self@ =~= Seq::new(old(self)@.len(),
            |c: int| Seq::new(old(self)@[c].len(), |i: int| scaled(old(self)@[c][i], gain))));
    }
    /// A deep copy of the buffer.
    pub fn snapshot(&self) -> (r: AudioBuffer)
        ensures
            r@ == self@,
            r.rate() == self.rate(),
    {
        let n = self.samples.len();
        let mut samples: Vec<Vec<Sample>> = Vec::new();
        let mut c: usize = 0;
        while c < n
            invariant
                n == self.samples@.len(),
                c <= n,
                samples@.len() == c,
                forall|k: int| 0 <= k < c ==> (#[trigger] samples@[k])@ == self@[k],
            decreases n - c,
        {
            let ch = self.samples[c].clone();
            samples.push(ch);
            c += 1;
        }
        let r = AudioBuffer { samples, sample_rate: self.sample_rate };
        assert(r@ =~= self@);
        r
    }

    /// Adds `other`, scaled by the fixed-point gain `gain`, into this buffer,
    /// first padding it with zeros to the longer of the two lengths.
    pub fn mix(&mut self, other: &AudioBuffer, gain: i32) -> (r: Result<(), AudioError>)
        requires
            old(self).wf(),
            other.wf(),
        ensures
            final(self).wf(),
            final(self).rate() == old(self).rate(),
            (other@.len() != old(self)@.len() || other.rate() != old(self).rate()) ==> r is Err
                && r->Err_0 is BufferMismatch && final(self)@ == old(self)@,
            (other@.len() == old(self)@.len() && other.rate() == old(self).rate()) ==> r is Ok
                && final(self)@ == Seq::new(old(self)@.len(), |c: int| mixed_channel(old(self)@[c],
                    other@[c], gain, if old(self).frames() >= other.frames() { old(self).frames() } else { other.frames() })),
    {
        if other.samples.len() != self.samples.len() || other.sample_rate != self.sample_rate {
            return Err(AudioError::BufferMismatch);
        }
        let olen = other.len();
        let target = if self.len() >= olen { self.len() } else { olen };
        let ghost padded = Seq::new(old(self)@.len(), |c: int| fit(old(self)@[c], target as nat));
        self.resize(target);
        let n = self.samples.len();
        let mut c: usize = 0;
        while c < n
            invariant
                n == self.samples@.len(),
                n == old(self)@.len(),
                n == other@.len(),
                c <= n,
                olen <= target,
                olen == other.frames(),
                other.wf(),
                self.sample_rate == old(self).sample_rate,
                padded == Seq::new(old(self)@.len(), |c: int| fit(old(self)@[c], target as nat)),
                forall|k: int| 0 <= k < c ==> (#[trigger] self.samples@[k])@
                    == mixed_channel(old(self)@[k], other@[k], gain, target as nat),
                forall|k: int| c <= k < n ==> (#[trigger] self.samples@[k])@ == padded[k],
            decreases n - c,
        {
            assert(other@[c as int].len() == olen);
            let mut i: usize = 0;
            while i < olen
                invariant
                    n == self.samples@.len(),
                    n == old(self)@.len(),
                    c < n,
                    i <= olen,
                    olen <= target,
                    olen == other@[c as int].len(),
                    n == other@.len(),
                    self.sample_rate == old(self).sample_rate,
                    padded == Seq::new(old(self)@.len(), |c: int| fit(old(self)@[c], target as nat)),
                    self.samples@[c as int]@.len() == target,
                    forall|j: int| 0 <= j < i ==> #[trigger] self.samples@[c as int]@[j]
                        == mixed(at_or_zero(old(self)@[c as int], j), other@[c as int][j], gain),
                    forall|j: int| i <= j < target ==> #[trigger] self.samples@[c as int]@[j] == padded[c as int][j],
                    forall|k: int| 0 <= k < c ==> (#[trigger] self.samples@[k])@
                        == mixed_channel(old(self)@[k], other@[k], gain, target as nat),
                    forall|k: int| c < k < n ==> (#[trigger] self.samples@[k])@ == padded[k],
                decreases olen - i,
            {
                let v = mix_sample(self.samples[c][i], other.samples[c][i], gain);
                self.samples[c][i] = v;
                i += 1;
            }
            assert(self.samples@[c as int]@ =~= mixed_channel(old(self)@[c as int], other@[c as int], gain, target as nat));
            c += 1;
        }
        assert(self@ =~= Seq::new(old(self)@.len(), |c: int| mixed_channel(old(self)@[c], other@[c], gain, target as nat)));
        Ok(())
    }

    fn mean_at(&self, i: usize) -> (r: Sample)
        requires
            self.wf(),
            i < self.frames(),
        ensures
            r == channel_mean(self@, i as int),
    {
        let n = self.samples.len();
        let mut acc: i128 = 0;
        let mut c: usize = 0;
        while c < n
            invariant
                self.wf(),
                n == self@.len(),
                i < self.frames(),
                c <= n,
                acc == channel_sum(self@, i as int, c as int),
                -(c * 0x8000_0000) <= acc <= c * 0x7FFF_FFFF,
            decreases n - c,
        {
            assert(self@[c as int].len() == self.frames());
            let x = self.samples[c][i];
            proof {
                assert(c * 0x8000_0000 <= 0x8000_0000_0000_0000_0000_0000) by (nonlinear_arith)
                    requires c <= usize::MAX;
            }
            acc = acc + x as i128;
            c += 1;
        }
        let m = floor_div(acc, n as i128);
        proof {
            let s = channel_sum(self@, i as int, n as int);
            let d = n as int;
            vstd::arithmetic::div_mod::lemma_div_is_ordered(s, d * 0x7FFF_FFFF, d);
            vstd::arithmetic::div_mod::lemma_div_is_ordered(d * (-0x8000_0000), s, d);
            vstd::arithmetic::div_mod::lemma_div_multiples_vanish(0x7FFF_FFFF, d);
            vstd::arithmetic::div_mod::lemma_div_multiples_vanish(-0x8000_0000, d);
            assert(-(n * 0x8000_0000) == d * (-0x8000_0000));
        }
        m as i32
    }

    /// Replaces the channels with one channel holding their mean, rounded down.
    pub fn to_mono(&mut self)
        requires
            old(self).wf(),
        ensures
            final(self).wf(),
            final(self).rate() == old(self).rate(),
            final(self)@ == seq![Seq::new(old(self).frames(), |i: int| channel_mean(old(self)@, i))],
    {
        let len = self.len();
        let mut mono: Vec<Sample> = Vec::new();
        let mut i: usize = 0;
        while i < len
            invariant
                self.wf(),
                self@ == old(self)@,
                len == self.frames(),
                i <= len,
                mono@ == Seq::new(i as nat, |j: int| channel_mean(old(self)@, j)),
            decreases len - i,
        {
            let m = self.mean_at(i);
            mono.push(m);
            assert(mono@ =~= Seq::new((i + 1) as nat, |j: int| channel_mean(old(self)@, j)));
            i += 1;
        }
        let mut samples: Vec<Vec<Sample>> = Vec::new();
        samples.push(mono);
        self.samples = samples;
        assert(self@ =~= seq![Seq::new(old(self).frames(), |i: int| channel_mean(old(self)@, i))]);
    }
        /// Runs one valid effect over every sample of every channel.
    pub fn apply_effect(&mut self, e: &Effect)
        requires
            old(self).wf(),
            effect_valid(*e),
        ensures
            final(self).wf(),
            final(self).rate() == old(self).rate(),
            final(self)@ == Seq::new(old(self)@.len(),
                |c: int| Seq::new(old(self)@[c].len(), |i: int| effect_sample(*e, old(self)@[c][i]))),
    {
        let n = self.samples.len();
        let mut c: usize = 0;
        while c < n
            invariant
                n == self.samples@.len(),
                n == old(self)@.len(),
                c <= n,
                self.sample_rate == old(self).sample_rate,
                effect_valid(*e),
                forall|k: int| 0 <= k < c ==> (#[trigger] self.samples@[k])@
                    == Seq::new(old(self)@[k].len(), |i: int| effect_sample(*e, old(self)@[k][i])),
                forall|k: int| c <= k < n ==> (#[trigger] self.samples@[k])@ == old(self)@[k],
            decreases n - c,
        {
            let len = self.samples[c].len();
            let mut i: usize = 0;
            while i < len
                invariant
                    n == self.samples@.len(),
                    n == old(self)@.len(),
                    c < n,
                    i <= len,
                    len == old(self)@[c as int].len(),
                    self.sample_rate == old(self).sample_rate,
                    effect_valid(*e),
                    self.samples@[c as int]@.len() == len,
                    forall|j: int| 0 <= j < i ==> #[trigger] self.samples@[c as int]@[j] == effect_sample(*e, old(self)@[c as int][j]),
                    forall|j: int| i <= j < len ==> #[trigger] self.samples@[c as int]@[j] == old(self)@[c as int][j],
                    forall|k: int| 0 <= k < c ==> (#[trigger] self.samples@[k])@
                        == Seq::new(old(self)@[k].len(), |i: int| effect_sample(*e, old(self)@[k][i])),
                    forall|k: int| c < k < n ==> (#[trigger] self.samples@[k])@ == old(self)@[k],
                decreases len - i,
            {
                let v = run_effect(e, self.samples[c][i]);
                self.samples[c][i] = v;
                i += 1;
            }
            assert(self.samples@[c as int]@ =~= Seq::new(old(self)@[c as int].len(), |i: int| effect_sample(*e, old(self)@[c as int][i])));
            c += 1;
        }
        assert(self@ =~= Seq::new(old(self)@.len(),
            |c: int| Seq::new(old(self)@[c].len(), |i: int| effect_sample(*e, old(self)@[c][i]))));
    }
        /// Adds `v`, scaled by the fixed-point gain `gain`, into sample `i` of channel `c`.
    pub fn mix_at(&mut self, c: usize, i: usize, v: Sample, gain: i32)
        requires
            old(self).wf(),
            c < old(self)@.len(),
            i < old(self)@[c as int].len(),
        ensures
            final(self).wf(),
            final(self).rate() == old(self).rate(),
            final(self)@ == old(self)@.update(c as int,
                old(self)@[c as int].update(i as int, mixed(old(self)@[c as int][i as int], v, gain))),
    {
        let x = mix_sample(self.samples[c][i], v, gain);
        self.samples[c][i] = x;
        assert(self@ =~= old(self)@.update(c as int,
            old(self)@[c as int].update(i as int, mixed(old(self)@[c as int][i as int], v, gain))));
    }
}

} // verus!
