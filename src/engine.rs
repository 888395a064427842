use vstd::prelude::*;
use crate::error::AudioError;
use crate::sample::{Sample, UNITY, mix_sample, mixed, scale_sample, scaled};
use crate::effects::EffectsProcessor;
use crate::clock::MasterClock;
use crate::pool::BufferPool;
use crate::detect::BpmDetector;
use crate::track::{Track, TrackEffects, TrackState, TrackView, input_step, output_step, rendered, plays};
use crate::effects::chain_ok;

verus! {

/// Mix blocks the engine's pool keeps for reuse.
pub const MIX_BLOCKS_KEPT: usize = 4;

/// `n` samples of silence.
pub open spec fn silence(n: nat) -> Seq<Sample> {
    Seq::new(n, |i: int| 0i32)
}

/// Block `b`, scaled by the fixed-point gain `g`, added into block `a`
/// sample by sample, saturating.
pub open spec fn summed(a: Seq<Sample>, b: Seq<Sample>, g: i32) -> Seq<Sample> {
    Seq::new(a.len(), |i: int| mixed(a[i], b[i], g))
}

/// A block scaled by the fixed-point gain `g`.
pub open spec fn scaled_block(b: Seq<Sample>, g: i32) -> Seq<Sample> {
    Seq::new(b.len(), |i: int| scaled(b[i], g))
}

/// The pan setting held within `-UNITY..=UNITY`.
pub open spec fn clamped_pan(pan: i32) -> int {
    if pan > UNITY { UNITY as int } else if pan < -UNITY { -UNITY } else { pan as int }
}

/// The gain a track's block gets on output channel `c` of `outs`: its
/// post-gain, and with two outputs also its pan, which turns the far side
/// down linearly (full left silences the right channel).
pub open spec fn channel_gain(m: TrackEffects, c: int, outs: int) -> i32 {
    if outs == 2 && c == 0 {
        scaled(m.post_gain, (UNITY - (if clamped_pan(m.pan) > 0 { clamped_pan(m.pan) } else { 0 })) as i32)
    } else if outs == 2 && c == 1 {
        scaled(m.post_gain, (UNITY + (if clamped_pan(m.pan) < 0 { clamped_pan(m.pan) } else { 0 })) as i32)
    } else {
        m.post_gain
    }
}

/// The track sits out the callback: its state is `Muted` or its mute flag is set.
pub open spec fn silenced(v: TrackView) -> bool {
    v.state == TrackState::Muted || v.mixing.mute
}

/// The frame count of a callback: the length of the first output channel,
/// else of the first input channel, else zero.
pub open spec fn callback_frames(input: Seq<Vec<Sample>>, output: Seq<Vec<Sample>>) -> nat {
    if output.len() > 0 { output[0]@.len() } else if input.len() > 0 { input[0]@.len() } else { 0 }
}

/// Input goes to a track that records or overdubs, when there is an input
/// channel and its cursor can move on by `n`.
pub open spec fn takes_input(v: TrackView, has_input: bool, n: nat) -> bool {
    (v.state == TrackState::Recording || v.state == TrackState::Overdubbing) && has_input && v.cursor + n <= usize::MAX
}

/// A track's view once input has been routed to it.
pub open spec fn after_routing(v: TrackView, input0: Seq<Sample>, has_input: bool, n: nat) -> TrackView {
    if silenced(v) {
        v
    } else if takes_input(v, has_input, n) {
        input_step(v, scaled_block(input0, v.mixing.pre_gain))
    } else {
        v
    }
}

/// A track's view at the end of a callback.
pub open spec fn after_callback(v: TrackView, p: EffectsProcessor, input0: Seq<Sample>, has_input: bool, n: nat) -> TrackView {
    if silenced(v) {
        v
    } else {
        output_step(after_routing(v, input0, has_input, n), p, n)
    }
}

/// What a track plays in a callback, before its gain: silence when muted or failing.
pub open spec fn contribution(v: TrackView, p: EffectsProcessor, input0: Seq<Sample>, has_input: bool, n: nat) -> Seq<Sample> {
    if silenced(v) {
        silence(n)
    } else {
        rendered(after_routing(v, input0, has_input, n), p, silence(n))
    }
}

/// A track's playback fails in a callback: it is not muted, it plays, its
/// effects cannot run, and there are frames to fill.
pub open spec fn fails_in_callback(v: TrackView, p: EffectsProcessor, input0: Seq<Sample>, has_input: bool, n: nat) -> bool {
    !silenced(v) && plays(after_routing(v, input0, has_input, n)) && !chain_ok(p) && n > 0
}

/// The indices, in order, of the first `k` tracks whose playback fails.
pub open spec fn failures_upto(views: Seq<TrackView>, procs: Seq<EffectsProcessor>, input0: Seq<Sample>, has_input: bool,
    n: nat, k: int) -> Seq<usize>
    decreases k,
{
    if k <= 0 {
        Seq::empty()
    } else if fails_in_callback(views[k - 1], procs[k - 1], input0, has_input, n) {
        failures_upto(views, procs, input0, has_input, n, k - 1).push((k - 1) as usize)
    } else {
        failures_upto(views, procs, input0, has_input, n, k - 1)
    }
}

/// Output channel `c` of `outs` mixed from the first `k` tracks.
pub open spec fn mix_upto(views: Seq<TrackView>, procs: Seq<EffectsProcessor>, input0: Seq<Sample>, has_input: bool,
    n: nat, c: int, outs: int, k: int) -> Seq<Sample>
    decreases k,
{
    if k <= 0 {
        silence(n)
    } else {
        summed(mix_upto(views, procs, input0, has_input, n, c, outs, k - 1),
            contribution(views[k - 1], procs[k - 1], input0, has_input, n), channel_gain(views[k - 1].mixing, c, outs))
    }
}

/// The first input channel, or nothing.
pub open spec fn first_channel(input: Seq<Vec<Sample>>) -> Seq<Sample> {
    if input.len() > 0 { input[0]@ } else { Seq::empty() }
}

/// Every partial mix is `n` samples long.
pub proof fn lemma_mix_len(views: Seq<TrackView>, procs: Seq<EffectsProcessor>, input0: Seq<Sample>, has_input: bool,
    n: nat, c: int, outs: int, k: int)
    ensures
        mix_upto(views, procs, input0, has_input, n, c, outs, k).len() == n,
    decreases k,
{
    if k > 0 {
        lemma_mix_len(views, procs, input0, has_input, n, c, outs, k - 1);
    }
}

/// A track's gain on output channel `c` of `outs`.
fn gain_for(m: &TrackEffects, c: usize, outs: usize) -> (r: i32)
    ensures
        r == channel_gain(*m, c as int, outs as int),
{
    let pan: i32 = if m.pan > UNITY { UNITY } else if m.pan < -UNITY { -UNITY } else { m.pan };
    if outs == 2 && c == 0 {
        scale_sample(m.post_gain, UNITY - (if pan > 0 { pan } else { 0 }))
    } else if outs == 2 && c == 1 {
        scale_sample(m.post_gain, UNITY + (if pan < 0 { pan } else { 0 }))
    } else {
        m.post_gain
    }
}

/// Replaces `dst` with `src` scaled by `g`.
fn fill_scaled(dst: &mut Vec<Sample>, src: &Vec<Sample>, g: i32)
    ensures
        final(dst)@ == scaled_block(src@, g),
{
    dst.clear();
    let n = src.len();
    let mut k: usize = 0;
    while k < n
        invariant
            n == src@.len(),
            k <= n,
            dst@ == scaled_block(src@, g).take(k as int),
        decreases n - k,
    {
        dst.push(scale_sample(src[k], g));
        k += 1;
        assert(dst@ =~= scaled_block(src@, g).take(k as int));
    }
    assert(dst@ =~= scaled_block(src@, g));
}

/// Adds `src`, scaled by `g`, into `dst`, saturating.
fn accumulate(dst: &mut Vec<Sample>, src: &Vec<Sample>, g: i32)
    requires
        old(dst)@.len() == src@.len(),
    ensures
        final(dst)@ == summed(old(dst)@, src@, g),
{
    let n = src.len();
    let mut k: usize = 0;
    while k < n
        invariant
            n == src@.len(),
            dst@.len() == n,
            k <= n,
            forall|j: int| 0 <= j < k ==> #[trigger] dst@[j] == mixed(old(dst)@[j], src@[j], g),
            forall|j: int| k <= j < n ==> #[trigger] dst@[j] == old(dst)@[j],
        decreases n - k,
    {
        let v = mix_sample(dst[k], src[k], g);
        dst.set(k, v);
        k += 1;
    }
    assert(dst@ =~= summed(old(dst)@, src@, g));
}

/// Copies `src` over `dst`, sample by sample, without growing it.
fn copy_block(dst: &mut Vec<Sample>, src: &Vec<Sample>)
    requires
        old(dst)@.len() == src@.len(),
    ensures
        final(dst)@ == src@,
{
    let n = src.len();
    let mut k: usize = 0;
    while k < n
        invariant
            n == src@.len(),
            dst@.len() == n,
            k <= n,
            forall|j: int| 0 <= j < k ==> #[trigger] dst@[j] == src@[j],
        decreases n - k,
    {
        dst.set(k, src[k]);
        k += 1;
    }
    assert(dst@ =~= src@);
}

/// Tracks, master clock, buffer pool and default effects of a looper.
pub struct AudioEngine {
    /// The tracks, in mixing order.
    pub tracks: Vec<Track>,
    /// Tempo estimation.
    pub bpm_detector: BpmDetector,
    /// Effects settings given to new tracks.
    pub effects_processor: EffectsProcessor,
    /// The master tempo clock.
    pub clock: MasterClock,
    /// Storage for the callback's mix blocks.
    pub pool: BufferPool,
    /// Most tracks the engine holds.
    pub max_tracks: usize,
    /// The sample rate in Hz.
    pub sample_rate: u32,
    /// Indices of the tracks whose effects failed in the last callback;
    /// they were silent for that callback.
    pub failed_tracks: Vec<usize>,
}

impl AudioEngine {
    /// The views of all tracks.
    pub open spec fn views(&self) -> Seq<TrackView> {
        Seq::new(self.tracks@.len(), |i: int| self.tracks@[i]@)
    }

    /// The effects settings of all tracks.
    pub open spec fn processors(&self) -> Seq<EffectsProcessor> {
        Seq::new(self.tracks@.len(), |i: int| self.tracks@[i].processor())
    }

    /// Clock, pool and every track are well formed, and the track count is within bounds.
    pub open spec fn wf(&self) -> bool {
        &&& self.clock.wf()
        &&& self.pool.wf()
        &&& self.tracks@.len() <= self.max_tracks
        &&& forall|i: int| 0 <= i < self.tracks@.len() ==> (#[trigger] self.tracks@[i]).wf()
    }

    /// An engine with no tracks, room for `max_tracks`, and a clock at 120 BPM.
    pub fn new(sample_rate: u32, max_tracks: usize) -> (r: Result<AudioEngine, AudioError>)
        ensures
            r is Ok,
            r is Ok ==> r->Ok_0.wf(),
            r is Ok ==> r->Ok_0.tracks@.len() == 0,
            r is Ok ==> r->Ok_0.max_tracks == max_tracks,
            r is Ok ==> r->Ok_0.sample_rate == sample_rate,
            r is Ok ==> r->Ok_0.clock.bpm() == 120_000,
            r is Ok ==> r->Ok_0.clock.rate() == sample_rate,
            r is Ok ==> r->Ok_0.clock.counter() == 0,
            r is Ok ==> r->Ok_0.effects_processor.sample_rate == sample_rate,
            r is Ok ==> r->Ok_0.effects_processor.chain.effects@.len() == 0,
            r is Ok ==> r->Ok_0.failed_tracks@.len() == 0,
    {
        Ok(AudioEngine {
            tracks: Vec::with_capacity(max_tracks),
            bpm_detector: BpmDetector::new(sample_rate),
            effects_processor: EffectsProcessor::new(sample_rate),
            clock: MasterClock::new(sample_rate, 120_000),
            pool: BufferPool::new(MIX_BLOCKS_KEPT),
            max_tracks,
            sample_rate,
            failed_tracks: Vec::new(),
        })
    }

    /// Adds an idle track with `channels` empty channels and a copy of the
    /// default effects settings, and returns its index; fails, changing
    /// nothing, when the engine is full.
    pub fn add_track(&mut self, name: String, channels: usize) -> (r: Result<usize, AudioError>)
        requires
            old(self).wf(),
            channels >= 1,
        ensures
            final(self).wf(),
            final(self).clock == old(self).clock,
            final(self).max_tracks == old(self).max_tracks,
            old(self).tracks@.len() < old(self).max_tracks ==> r == Ok::<usize, AudioError>(old(self).tracks@.len() as usize)
                && final(self).tracks@.len() == old(self).tracks@.len() + 1
                && final(self).views().take(old(self).tracks@.len() as int) == old(self).views()
                && final(self).tracks@.last()@.state == TrackState::Idle
                && final(self).tracks@.last()@.metadata.id == old(self).tracks@.len()
                && final(self).tracks@.last()@.metadata.name == name
                && final(self).tracks@.last()@.metadata.color == (255u8, 0u8, 0u8)
                && final(self).tracks@.last()@.cursor == 0
                && final(self).tracks@.last()@.loop_length == None::<usize>
                && final(self).tracks@.last()@.undo.len() == 0
                && final(self).tracks@.last()@.redo.len() == 0
                && final(self).tracks@.last()@.mixing
                    == (TrackEffects { pre_gain: UNITY, post_gain: UNITY, pan: 0, mute: false, solo: false })
                && final(self).tracks@.last()@.content == Seq::new(channels as nat, |c: int| Seq::<Sample>::empty())
                && final(self).tracks@.last().rate() == old(self).sample_rate
                && final(self).tracks@.last().processor().chain.effects@ == old(self).effects_processor.chain.effects@
                && final(self).tracks@.last().processor().chain.enabled == old(self).effects_processor.chain.enabled,
            old(self).tracks@.len() >= old(self).max_tracks ==> r is Err && r->Err_0 is TrackError
                && final(self).tracks@ == old(self).tracks@,
    {
        let n = self.tracks.len();
        if n >= self.max_tracks {
            return Err(AudioError::TrackError(String::from_str("track limit reached")));
        }
        let mut t = Track::new(n, name, self.sample_rate, channels);
        t.set_effects(self.effects_processor.duplicate());
        self.tracks.push(t);
        assert(self.views().take(n as int) =~= old(self).views());
        Ok(n)
    }
    /// Runs one audio callback. Each track that is not muted gets the first
    /// input channel, scaled by its pre-gain, if it records or overdubs, then
    /// plays into a block of silence. A track whose effects fail adds
    /// silence. Each output channel gets, from a mix block taken from the
    /// pool, the sum, saturating, of the tracks' blocks scaled by their gain
    /// for that channel (post-gain, and pan with two outputs). The clock
    /// moves on by the frame count.
    pub fn process(&mut self, input: &Vec<Vec<Sample>>, output: &mut Vec<Vec<Sample>>) -> (r: Result<(), AudioError>)
        requires
            old(self).wf(),
            forall|c: int| 0 <= c < input@.len() ==> (#[trigger] input@[c])@.len() == callback_frames(input@, old(output)@),
            forall|c: int| 0 <= c < old(output)@.len() ==> (#[trigger] old(output)@[c])@.len()
                == callback_frames(input@, old(output)@),
        ensures
            r is Ok,
            final(self).wf(),
            final(self).max_tracks == old(self).max_tracks,
            final(self).sample_rate == old(self).sample_rate,
            final(self).tracks@.len() == old(self).tracks@.len(),
            final(self).processors() == old(self).processors(),
            forall|i: int| 0 <= i < old(self).tracks@.len() ==> #[trigger] final(self).views()[i]
                == after_callback(old(self).views()[i], old(self).processors()[i], first_channel(input@), input@.len() > 0,
                    callback_frames(input@, old(output)@)),
            final(self).failed_tracks@ == failures_upto(old(self).views(), old(self).processors(), first_channel(input@),
                input@.len() > 0, callback_frames(input@, old(output)@), old(self).tracks@.len() as int),
            final(output)@.len() == old(output)@.len(),
            forall|c: int| 0 <= c < old(output)@.len() ==> (#[trigger] final(output)@[c])@
                == mix_upto(old(self).views(), old(self).processors(), first_channel(input@), input@.len() > 0,
                    callback_frames(input@, old(output)@), c, old(output)@.len() as int, old(self).tracks@.len() as int),
            final(self).clock.bpm() == old(self).clock.bpm(),
            final(self).clock.rate() == old(self).clock.rate(),
            final(self).clock.counter() == if old(self).clock.counter() + callback_frames(input@, old(output)@) > u64::MAX {
                u64::MAX as int } else { old(self).clock.counter() + callback_frames(input@, old(output)@) },
    {
        let n: usize = if output.len() > 0 {
            output[0].len()
        } else if input.len() > 0 {
            input[0].len()
        } else {
            0
        };
        let oc = output.len();
        let has_input = input.len() > 0;
        let ghost input0 = first_channel(input@);
        let ghost views0 = old(self).views();
        let ghost procs0 = old(self).processors();
        let mut mix = self.pool.get(oc, n);
        let mut c: usize = 0;
        while c < oc
            invariant
                oc == old(output)@.len(),
                mix@.len() == oc,
                c <= oc,
                forall|j: int| 0 <= j < c ==> (#[trigger] mix@[j]) == silence(n as nat),
            decreases oc - c,
        {
            {
                let ch = mix.channel_mut(c);
                ch.clear();
                ch.resize(n, 0i32);
            }
            assert(mix@[c as int] =~= silence(n as nat));
            c += 1;
        }
        let mut scratch = self.pool.get(1, n);
        let mut routed = self.pool.get(1, n);
        self.failed_tracks.clear();
        let t = self.tracks.len();
        let mut i: usize = 0;
        while i < t
            invariant
                self.wf(),
                self.clock == old(self).clock,
                self.max_tracks == old(self).max_tracks,
                self.sample_rate == old(self).sample_rate,
                t == self.tracks@.len(),
                t == old(self).tracks@.len(),
                i <= t,
                n == callback_frames(input@, old(output)@),
                oc == old(output)@.len(),
                has_input == (input@.len() > 0),
                input0 == first_channel(input@),
                forall|c: int| 0 <= c < input@.len() ==> (#[trigger] input@[c])@.len() == n,
                views0 == old(self).views(),
                procs0 == old(self).processors(),
                mix@.len() == oc,
                forall|c: int| 0 <= c < oc ==> (#[trigger] mix@[c])
                    == mix_upto(views0, procs0, input0, has_input, n as nat, c, oc as int, i as int),
                scratch@.len() == 1,
                routed@.len() == 1,
                self.failed_tracks@ == failures_upto(views0, procs0, input0, has_input, n as nat, i as int),
                forall|j: int| 0 <= j < i ==> (#[trigger] self.tracks@[j])@
                    == after_callback(views0[j], procs0[j], input0, has_input, n as nat),
                forall|j: int| 0 <= j < t ==> (#[trigger] self.tracks@[j]).processor() == procs0[j],
                forall|j: int| i <= j < t ==> #[trigger] self.tracks@[j] == old(self).tracks@[j],
            decreases t - i,
        {
            let ghost v0 = self.tracks@[i as int]@;
            let ghost p0 = self.tracks@[i as int].processor();
            assert(v0 == views0[i as int]);
            let st = self.tracks[i].state();
            let settings = self.tracks[i].mixing();
            let ghost mix_before = mix@;
            assert forall|c: int| 0 <= c < oc implies (#[trigger] mix_before[c]).len() == n by {
                lemma_mix_len(views0, procs0, input0, has_input, n as nat, c, oc as int, i as int);
            }
            if st == TrackState::Muted || settings.mute {
                assert forall|c: int| 0 <= c < oc implies (#[trigger] mix@[c])
                    == mix_upto(views0, procs0, input0, has_input, n as nat, c, oc as int, i + 1) by {
                    lemma_mix_len(views0, procs0, input0, has_input, n as nat, c, oc as int, i as int);
                    let g = channel_gain(settings, c, oc as int);
                    assert forall|j: int| 0 <= j < n implies #[trigger] summed(mix@[c], silence(n as nat), g)[j]
                        == mix@[c][j] by {
                        assert(0 * g == 0);
                    }
                    assert(mix@[c] =~= summed(mix@[c], silence(n as nat), g));
                }
            } else {
                if (st == TrackState::Recording || st == TrackState::Overdubbing) && has_input
                    && self.tracks[i].cursor_position() <= usize::MAX - n {
                    fill_scaled(routed.channel_mut(0), &input[0], settings.pre_gain);
                    self.tracks[i].process_input(routed.channel(0).as_slice());
                }
                let ghost v1 = self.tracks@[i as int]@;
                assert(v1 == after_routing(v0, input0, has_input, n as nat));
                {
                    let ch = scratch.channel_mut(0);
                    ch.clear();
                    ch.resize(n, 0i32);
                }
                assert(scratch@[0] =~= silence(n as nat));
                {
                    let ch = scratch.channel_mut(0);
                    let played = self.tracks[i].process_output(ch.as_mut_slice());
                    if played.is_err() {
                        self.failed_tracks.push(i);
                    }
                }
                assert(scratch@[0] == rendered(v1, p0, silence(n as nat)));
                let mut c: usize = 0;
                while c < oc
                    invariant
                        oc == old(output)@.len(),
                        mix@.len() == oc,
                        scratch@.len() == 1,
                        scratch@[0].len() == n,
                        c <= oc,
                        mix_before.len() == oc,
                        forall|j: int| 0 <= j < oc ==> (#[trigger] mix_before[j]).len() == n,
                        forall|j: int| 0 <= j < c ==> (#[trigger] mix@[j])
                            == summed(mix_before[j], scratch@[0], channel_gain(settings, j, oc as int)),
                        forall|j: int| c <= j < oc ==> (#[trigger] mix@[j]) == mix_before[j],
                    decreases oc - c,
                {
                    let g = gain_for(&settings, c, oc);
                    accumulate(mix.channel_mut(c), scratch.channel(0), g);
                    c += 1;
                }
            }
            i += 1;
        }
        assert forall|c: int| 0 <= c < oc implies (#[trigger] mix@[c]).len() == n by {
            lemma_mix_len(views0, procs0, input0, has_input, n as nat, c, oc as int, t as int);
        }
        let mut c: usize = 0;
        while c < oc
            invariant
                oc == output@.len(),
                oc == old(output)@.len(),
                c <= oc,
                mix@.len() == oc,
                forall|j: int| 0 <= j < oc ==> (#[trigger] mix@[j]).len() == n,
                forall|j: int| 0 <= j < c ==> (#[trigger] output@[j])@ == mix@[j],
                forall|j: int| c <= j < oc ==> (#[trigger] output@[j])@.len() == n,
            decreases oc - c,
        {
            copy_block(&mut output[c], mix.channel(c));
            c += 1;
        }
        self.clock.advance(n);
        self.pool.release(scratch);
        self.pool.release(routed);
        self.pool.release(mix);
        assert forall|j: int| 0 <= j < t implies #[trigger] self.views()[j]
            == after_callback(views0[j], procs0[j], input0, has_input, n as nat) by {
            assert(self.views()[j] == self.tracks@[j]@);
        }
        assert(self.processors() =~= procs0);
        Ok(())
    }
}

} // verus!
