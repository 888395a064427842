use vstd::prelude::*;
use crate::error::AudioError;
use crate::buffer::{AudioBuffer, fit};

verus! {

/// Samples per beat at `bpm_milli` thousandths of a beat per minute:
/// `60 / bpm * rate`, rounded to the nearest integer (halves up).
pub open spec fn beat_samples(bpm_milli: u32, rate: u32) -> nat {
    ((120_000 * rate + bpm_milli) / (2 * bpm_milli as int)) as nat
}

/// The beat length that positions are measured in: the beat length, or
/// one sample where a beat rounds to no sample at all.
pub open spec fn position_unit(bpm_milli: u32, rate: u32) -> nat {
    if beat_samples(bpm_milli, rate) == 0 { 1 } else { beat_samples(bpm_milli, rate) }
}

/// The beat length in samples, as `beat_samples` gives it.
fn beat_length(bpm_milli: u32, rate: u32) -> (r: u64)
    requires
        bpm_milli > 0,
    ensures
        r == beat_samples(bpm_milli, rate),
{
    let num: u64 = 120_000u64 * (rate as u64) + (bpm_milli as u64);
    proof {
        vstd::arithmetic::div_mod::lemma_div_is_ordered(num as int, 120_000int * 0x1_0000_0000 + 0x1_0000_0000, 2 * bpm_milli as int);
        vstd::arithmetic::div_mod::lemma_div_is_ordered_by_denominator(120_000int * 0x1_0000_0000 + 0x1_0000_0000, 2, 2 * bpm_milli as int);
    }
    num / (2 * bpm_milli as u64)
}

/// The multiple of `beat` nearest to `len` (halves up).
pub open spec fn nearest_multiple(len: nat, beat: nat) -> nat {
    if len % beat * 2 >= beat { (len / beat + 1) * beat } else { (len / beat) * beat }
}

/// The master tempo: BPM in thousandths, the sample rate, and a running
/// count of the samples played.
pub struct MasterClock {
    bpm_milli: u32,
    sample_rate: u32,
    sample_counter: u64,
}

impl MasterClock {
    /// Thousandths of a beat per minute.
    pub closed spec fn bpm(&self) -> u32 {
        self.bpm_milli
    }

    /// The sample rate in Hz.
    pub closed spec fn rate(&self) -> u32 {
        self.sample_rate
    }

    /// Samples counted since the clock was made.
    pub closed spec fn counter(&self) -> u64 {
        self.sample_counter
    }

    /// The tempo is positive.
    pub open spec fn wf(&self) -> bool {
        self.bpm() > 0
    }

    /// A clock at `initial_bpm_milli` thousandths of a beat per minute, at sample zero.
    pub fn new(sample_rate: u32, initial_bpm_milli: u32) -> (r: MasterClock)
        requires
            initial_bpm_milli > 0,
        ensures
            r.wf(),
            r.bpm() == initial_bpm_milli,
            r.rate() == sample_rate,
            r.counter() == 0,
    {
        MasterClock { bpm_milli: initial_bpm_milli, sample_rate, sample_counter: 0 }
    }

    /// Thousandths of a beat per minute.
    pub fn bpm_milli(&self) -> (r: u32)
        ensures
            r == self.bpm(),
    {
        self.bpm_milli
    }

    /// The sample rate in Hz.
    pub fn sample_rate(&self) -> (r: u32)
        ensures
            r == self.rate(),
    {
        self.sample_rate
    }

    /// Samples counted so far.
    pub fn sample_count(&self) -> (r: u64)
        ensures
            r == self.counter(),
    {
        self.sample_counter
    }

    /// The length of one beat in samples at the current tempo.
    pub fn samples_per_beat(&self) -> (r: u64)
        requires
            self.wf(),
        ensures
            r == beat_samples(self.bpm(), self.rate()),
    {
        beat_length(self.bpm_milli, self.sample_rate)
    }

    /// The beat the counter is in, and how far into it, in 65536ths of a beat.
    /// Both come from the current tempo; a beat that rounds to no sample
    /// counts as one sample.
    pub fn get_position(&self) -> (r: (u64, u32))
        requires
            self.wf(),
        ensures
            r.0 == (self.counter() as nat) / position_unit(self.bpm(), self.rate()),
            r.1 == ((self.counter() as nat) % position_unit(self.bpm(), self.rate())) * 65536
                / position_unit(self.bpm(), self.rate()),
    {
        let beat_len = self.samples_per_beat();
        let spb: u64 = if beat_len == 0 { 1 } else { beat_len };
        let beat = self.sample_counter / spb;
        let rem = self.sample_counter % spb;
        proof {
            assert(rem * 65536 < spb * 65536) by (nonlinear_arith)
                requires rem < spb;
            vstd::arithmetic::div_mod::lemma_div_is_ordered(rem * 65536, spb * 65536, spb as int);
            vstd::arithmetic::div_mod::lemma_div_multiples_vanish(65536, spb as int);
            assert(spb * 65536 == (spb as int) * 65536);
        }
        let frac = (rem as u128 * 65536) / spb as u128;
        (beat, frac as u32)
    }

    /// Moves the counter on by `samples`, stopping at the largest count.
    pub fn advance(&mut self, samples: usize)
        ensures
            final(self).bpm() == old(self).bpm(),
            final(self).rate() == old(self).rate(),
            final(self).counter() == if old(self).counter() + samples > u64::MAX { u64::MAX as int } else {
                old(self).counter() + samples },
    {
        self.sample_counter = self.sample_counter.saturating_add(samples as u64);
    }

    /// Sets the tempo; a tempo of zero is refused and leaves the clock as it was.
    pub fn set_bpm(&mut self, new_bpm_milli: u32) -> (r: Result<(), AudioError>)
        ensures
            new_bpm_milli == 0 ==> r is Err && r->Err_0 is InvalidParameter && *final(self) == *old(self),
            new_bpm_milli > 0 ==> r is Ok && final(self).bpm() == new_bpm_milli,
            final(self).rate() == old(self).rate(),
            final(self).counter() == old(self).counter(),
            old(self).wf() ==> final(self).wf(),
    {
        if new_bpm_milli == 0 {
            return Err(AudioError::InvalidParameter);
        }
        self.bpm_milli = new_bpm_milli;
        Ok(())
    }
}

/// Snaps buffer lengths to the beat grid.
#[derive(Clone, Copy, Debug, Default)]
pub struct Quantizer;

impl Quantizer {
    /// Cuts or zero-pads every channel of `buffer` to the multiple of
    /// `beat_length` nearest its length. A beat length of zero leaves it as it is.
    pub fn quantize(&self, buffer: &mut AudioBuffer, beat_length: usize) -> (r: Result<(), AudioError>)
        requires
            old(buffer).wf(),
            old(buffer).frames() + beat_length <= usize::MAX,
        ensures
            r is Ok,
            final(buffer).wf(),
            final(buffer).rate() == old(buffer).rate(),
            beat_length == 0 ==> final(buffer)@ == old(buffer)@,
            beat_length > 0 ==> final(buffer)@ == Seq::new(old(buffer)@.len(),
                |c: int| fit(old(buffer)@[c], nearest_multiple(old(buffer).frames(), beat_length as nat))),
    {
        if beat_length == 0 {
            return Ok(());
        }
        let len = buffer.len();
        let q = len / beat_length;
        let rem = len % beat_length;
        let target = if rem >= beat_length - rem {
            proof {
                vstd::arithmetic::div_mod::lemma_fundamental_div_mod(len as int, beat_length as int);
                assert((q + 1) * beat_length == beat_length * q + beat_length) by (nonlinear_arith);
            }
            (q + 1) * beat_length
        } else {
            proof {
                vstd::arithmetic::div_mod::lemma_fundamental_div_mod(len as int, beat_length as int);
                assert(q * beat_length == beat_length * q) by (nonlinear_arith);
            }
            q * beat_length
        };
        buffer.resize(target);
        Ok(())
    }

    /// Called by a track each time its playback wraps to the loop start.
    pub fn on_loop(&self) {
    }
}

} // verus!
