use vstd::prelude::*;
use crate::error::AudioError;
use crate::sample::{Sample, scale_sample, scaled};
use crate::buffer::AudioBuffer;

verus! {

/// One effect unit.
#[derive(Clone, Copy, Debug, PartialEq, Eq, Structural)]
pub enum Effect {
    /// Multiplies every sample by a fixed-point gain.
    Gain(i32),
    /// Holds every sample within `-threshold..=threshold`; a negative
    /// threshold is an invalid setting.
    Limiter(i32),
}

/// Whether the effect's settings allow it to run.
pub open spec fn effect_valid(e: Effect) -> bool {
    match e {
        Effect::Gain(_) => true,
        Effect::Limiter(t) => t >= 0,
    }
}

/// What a valid effect makes of one sample.
pub open spec fn effect_sample(e: Effect, s: Sample) -> Sample {
    match e {
        Effect::Gain(g) => scaled(s, g),
        Effect::Limiter(t) => if s > t { t } else if s < -t { (-t) as i32 } else { s },
    }
}

/// One sample after the first `n` effects of `effects`, in order.
pub open spec fn chain_sample(effects: Seq<Effect>, n: int, s: Sample) -> Sample
    decreases n,
{
    if n <= 0 { s } else { effect_sample(effects[n - 1], chain_sample(effects, n - 1, s)) }
}

/// A block of samples after the first `n` effects of `effects`.
pub open spec fn chain_block(effects: Seq<Effect>, n: int, block: Seq<Sample>) -> Seq<Sample> {
    Seq::new(block.len(), |i: int| chain_sample(effects, n, block[i]))
}

/// The first `k` effects are valid.
pub open spec fn valid_upto(effects: Seq<Effect>, k: int) -> bool {
    forall|j: int| 0 <= j < k ==> effect_valid(#[trigger] effects[j])
}

/// The chain fails at effect `k`: all before it are valid and it is not.
pub open spec fn fails_at(effects: Seq<Effect>, k: int) -> bool {
    0 <= k < effects.len() && valid_upto(effects, k) && !effect_valid(effects[k])
}

/// Applies one valid effect to one sample.
pub fn run_effect(e: &Effect, s: Sample) -> (r: Sample)
    requires
        effect_valid(*e),
    ensures
        r == effect_sample(*e, s),
{
    match e {
        Effect::Gain(g) => scale_sample(s, *g),
        Effect::Limiter(t) => {
            if s > *t {
                *t
            } else if s < -*t {
                -*t
            } else {
                s
            }
        },
    }
}

/// Checks an effect's settings.
pub fn check_effect(e: &Effect) -> (r: Result<(), AudioError>)
    ensures
        r is Ok <==> effect_valid(*e),
        r is Err ==> r->Err_0 is EffectError,
{
    match e {
        Effect::Gain(_) => Ok(()),
        Effect::Limiter(t) => {
            if *t < 0 {
                Err(AudioError::EffectError(String::from_str("limiter threshold is negative")))
            } else {
                Ok(())
            }
        },
    }
}

/// An ordered list of effects applied one after another.
pub struct EffectsChain {
    /// The effects, in the order they run.
    pub effects: Vec<Effect>,
    /// When false, processing leaves its input untouched.
    pub enabled: bool,
}

impl EffectsChain {
    /// Runs every effect over `buffer`, in order. A disabled chain does
    /// nothing. The first invalid effect stops the run with its error; the
    /// effects before it stay applied.
    pub fn process(&self, buffer: &mut Vec<Sample>) -> (r: Result<(), AudioError>)
        ensures
            !self.enabled ==> r is Ok && final(buffer)@ == old(buffer)@,
            self.enabled && valid_upto(self.effects@, self.effects@.len() as int) ==> r is Ok
                && final(buffer)@ == chain_block(self.effects@, self.effects@.len() as int, old(buffer)@),
            r is Err ==> r->Err_0 is EffectError && self.enabled && exists|k: int| fails_at(self.effects@, k)
                && final(buffer)@ == chain_block(self.effects@, k, old(buffer)@),
            r is Ok ==> !self.enabled || valid_upto(self.effects@, self.effects@.len() as int),
    {
        if !self.enabled {
            return Ok(());
        }
        let n = self.effects.len();
        let mut k: usize = 0;
        assert(buffer@ =~= chain_block(self.effects@, 0, old(buffer)@));
        while k < n
            invariant
                self.enabled,
                n == self.effects@.len(),
                k <= n,
                valid_upto(self.effects@, k as int),
                buffer@ == chain_block(self.effects@, k as int, old(buffer)@),
            decreases n - k,
        {
            let e = self.effects[k];
            match check_effect(&e) {
                Err(err) => {
                    assert(fails_at(self.effects@, k as int));
                    return Err(err);
                },
                Ok(()) => {},
            }
            let len = buffer.len();
            let mut i: usize = 0;
            while i < len
                invariant
                    n == self.effects@.len(),
                    k < n,
                    e == self.effects@[k as int],
                    effect_valid(e),
                    len == old(buffer)@.len(),
                    buffer@.len() == len,
                    i <= len,
                    forall|j: int| 0 <= j < i ==> #[trigger] buffer@[j] == chain_sample(self.effects@, k + 1, old(buffer)@[j]),
                    forall|j: int| i <= j < len ==> #[trigger] buffer@[j] == chain_sample(self.effects@, k as int, old(buffer)@[j]),
                decreases len - i,
            {
                let v = run_effect(&e, buffer[i]);
                buffer.set(i, v);
                i += 1;
            }
            assert(buffer@ =~= chain_block(self.effects@, k + 1, old(buffer)@));
            k += 1;
        }
        Ok(())
    }
}

/// Each channel of a buffer after the first `n` effects.
pub open spec fn chain_channels(effects: Seq<Effect>, n: int, data: Seq<Seq<Sample>>) -> Seq<Seq<Sample>> {
    Seq::new(data.len(), |c: int| chain_block(effects, n, data[c]))
}

/// The processor can run: its chain is disabled, or every effect is valid.
pub open spec fn chain_ok(p: EffectsProcessor) -> bool {
    !p.chain.enabled || valid_upto(p.chain.effects@, p.chain.effects@.len() as int)
}

/// How many effects run before the chain stops: up to the first invalid one.
pub open spec fn applied_count(effects: Seq<Effect>) -> int {
    if exists|k: int| fails_at(effects, k) { choose|k: int| fails_at(effects, k) } else { effects.len() as int }
}

/// A sample after a processor that can run.
pub open spec fn processed(p: EffectsProcessor, s: Sample) -> Sample {
    if p.chain.enabled { chain_sample(p.chain.effects@, p.chain.effects@.len() as int, s) } else { s }
}

/// Buffer channels after the processor, including a run stopped by an invalid effect.
pub open spec fn processed_channels(p: EffectsProcessor, data: Seq<Seq<Sample>>) -> Seq<Seq<Sample>> {
    if p.chain.enabled { chain_channels(p.chain.effects@, applied_count(p.chain.effects@), data) } else { data }
}

/// The chain can fail at one effect only.
pub proof fn lemma_fails_at_unique(effects: Seq<Effect>, k: int, j: int)
    requires
        fails_at(effects, k),
        fails_at(effects, j),
    ensures
        k == j,
{
    if k < j {
        assert(effect_valid(effects[k]));
    } else if j < k {
        assert(effect_valid(effects[j]));
    }
}

/// The effects settings a track starts with, at a given sample rate.
pub struct EffectsProcessor {
    /// The sample rate in Hz.
    pub sample_rate: u32,
    /// The effects this processor runs.
    pub chain: EffectsChain,
}

impl EffectsProcessor {
    /// A processor with an empty, enabled chain.
    pub fn new(sample_rate: u32) -> (r: EffectsProcessor)
        ensures
            r.sample_rate == sample_rate,
            r.chain.effects@ == Seq::<Effect>::empty(),
            r.chain.enabled,
    {
        EffectsProcessor { sample_rate, chain: EffectsChain { effects: Vec::new(), enabled: true } }
    }

    /// A copy of these settings.
    pub fn duplicate(&self) -> (r: EffectsProcessor)
        ensures
            r.sample_rate == self.sample_rate,
            r.chain.effects@ == self.chain.effects@,
            r.chain.enabled == self.chain.enabled,
    {
        let n = self.chain.effects.len();
        let mut effects: Vec<Effect> = Vec::new();
        let mut k: usize = 0;
        while k < n
            invariant
                n == self.chain.effects@.len(),
                k <= n,
                effects@ == self.chain.effects@.take(k as int),
            decreases n - k,
        {
            effects.push(self.chain.effects[k]);
            k += 1;
            assert(effects@ =~= self.chain.effects@.take(k as int));
        }
        assert(effects@ =~= self.chain.effects@);
        EffectsProcessor { sample_rate: self.sample_rate, chain: EffectsChain { effects, enabled: self.chain.enabled } }
    }

    /// The sample rate in Hz.
    pub fn sample_rate(&self) -> (r: u32)
        ensures
            r == self.sample_rate,
    {
        self.sample_rate
    }

    /// One sample through the chain; the sample itself when the chain is
    /// disabled. Fails when one of the effects is invalid.
    pub fn process_sample(&self, sample: Sample) -> (r: Result<Sample, AudioError>)
        ensures
            !self.chain.enabled ==> r == Ok::<Sample, AudioError>(sample),
            self.chain.enabled ==> (r is Ok <==> valid_upto(self.chain.effects@, self.chain.effects@.len() as int)),
            self.chain.enabled && r is Ok ==> r->Ok_0 == chain_sample(self.chain.effects@, self.chain.effects@.len() as int, sample),
            r is Err ==> r->Err_0 is EffectError,
            r is Ok <==> chain_ok(*self),
            r is Ok ==> r->Ok_0 == processed(*self, sample),
    {
        if !self.chain.enabled {
            return Ok(sample);
        }
        let n = self.chain.effects.len();
        let mut k: usize = 0;
        let mut s = sample;
        while k < n
            invariant
                self.chain.enabled,
                n == self.chain.effects@.len(),
                k <= n,
                valid_upto(self.chain.effects@, k as int),
                s == chain_sample(self.chain.effects@, k as int, sample),
            decreases n - k,
        {
            let e = self.chain.effects[k];
            match check_effect(&e) {
                Err(err) => {
                    return Err(err);
                },
                Ok(()) => {},
            }
            s = run_effect(&e, s);
            k += 1;
        }
        Ok(s)
    }

    /// Runs the chain over every channel of `buffer`, effect by effect, with
    /// the policy of `EffectsChain::process`.
    pub fn process_buffer(&self, buffer: &mut AudioBuffer) -> (r: Result<(), AudioError>)
        requires
            old(buffer).wf(),
        ensures
            final(buffer).wf(),
            final(buffer).rate() == old(buffer).rate(),
            !self.chain.enabled ==> r is Ok && final(buffer)@ == old(buffer)@,
            self.chain.enabled && valid_upto(self.chain.effects@, self.chain.effects@.len() as int) ==> r is Ok
                && final(buffer)@ == chain_channels(self.chain.effects@, self.chain.effects@.len() as int, old(buffer)@),
            r is Err ==> r->Err_0 is EffectError && self.chain.enabled && exists|k: int| fails_at(self.chain.effects@, k)
                && final(buffer)@ == chain_channels(self.chain.effects@, k, old(buffer)@),
            r is Ok ==> !self.chain.enabled || valid_upto(self.chain.effects@, self.chain.effects@.len() as int),
            r is Ok <==> chain_ok(*self),
            final(buffer)@ == processed_channels(*self, old(buffer)@),
    {
        if !self.chain.enabled {
            return Ok(());
        }
        let n = self.chain.effects.len();
        let mut k: usize = 0;
        assert(buffer@ =~= chain_channels(self.chain.effects@, 0, old(buffer)@)) by {
            assert forall|c: int| 0 <= c < old(buffer)@.len() implies
                old(buffer)@[c] =~= chain_block(self.chain.effects@, 0, old(buffer)@[c]) by {}
        }
        while k < n
            invariant
                self.chain.enabled,
                n == self.chain.effects@.len(),
                k <= n,
                buffer.wf(),
                buffer.rate() == old(buffer).rate(),
                valid_upto(self.chain.effects@, k as int),
                buffer@ == chain_channels(self.chain.effects@, k as int, old(buffer)@),
            decreases n - k,
        {
            let e = self.chain.effects[k];
            match check_effect(&e) {
                Err(err) => {
                    assert(fails_at(self.chain.effects@, k as int));
                    proof {
                        let j = choose|j: int| fails_at(self.chain.effects@, j);
                        lemma_fails_at_unique(self.chain.effects@, k as int, j);
                    }
                    return Err(err);
                },
                Ok(()) => {},
            }
            buffer.apply_effect(&e);
            assert(buffer@ =~= chain_channels(self.chain.effects@, k + 1, old(buffer)@)) by {
                assert forall|c: int| 0 <= c < old(buffer)@.len() implies
                    buffer@[c] =~= chain_block(self.chain.effects@, k + 1, old(buffer)@[c]) by {}
            }
            k += 1;
        }
        assert(!exists|j: int| fails_at(self.chain.effects@, j));
        Ok(())
    }
}

} // verus!
