use vstd::prelude::*;
use crate::error::AudioError;
use crate::sample::Sample;

verus! {

/// Samples per analysis frame.
pub const HOP: usize = 512;

/// Slowest tempo considered, in beats per minute.
pub const MIN_BPM: u64 = 70;

/// Fastest tempo considered, in beats per minute.
pub const MAX_BPM: u64 = 180;

/// The magnitude of a sample.
pub open spec fn magnitude(s: Sample) -> int {
    if s < 0 { -s } else { s as int }
}

/// Sum of the magnitudes of `k` samples from `start`.
pub open spec fn magnitude_sum(x: Seq<Sample>, start: int, k: int) -> int
    decreases k,
{
    if k <= 0 { 0 } else { magnitude_sum(x, start, k - 1) + magnitude(x[start + k - 1]) }
}

/// The number of whole frames in `x`.
pub open spec fn frame_count(x: Seq<Sample>) -> int {
    x.len() as int / HOP as int
}

/// The energy of frame `j`: the sum of its sample magnitudes.
pub open spec fn energy(x: Seq<Sample>, j: int) -> int {
    magnitude_sum(x, j * HOP, HOP as int)
}

/// Frame `j` starts a note: its energy is more than twice the previous frame's.
pub open spec fn onset(x: Seq<Sample>, j: int) -> bool {
    energy(x, j) > 2 * (if j == 0 { 0 } else { energy(x, j - 1) })
}

/// How many of the first `m` frames `j` have onsets at both `j` and `j + lag`.
pub open spec fn pairs_upto(x: Seq<Sample>, lag: int, m: int) -> nat
    decreases m,
{
    if m <= 0 {
        0
    } else {
        pairs_upto(x, lag, m - 1) + if onset(x, m - 1) && onset(x, m - 1 + lag) { 1nat } else { 0nat }
    }
}

/// The periodicity score of a lag, in frames: onset pairs that far apart.
pub open spec fn score(x: Seq<Sample>, lag: int) -> nat {
    if frame_count(x) > lag { pairs_upto(x, lag, frame_count(x) - lag) } else { 0 }
}

/// The shortest lag considered: one beat at `MAX_BPM`, rounded up, at least one.
pub open spec fn lag_lo(rate: u32) -> int {
    let l = (60 * rate + MAX_BPM * HOP - 1) / (MAX_BPM * HOP) as int;
    if l < 1 { 1 } else { l }
}

/// The longest lag considered: one beat at `MIN_BPM`, rounded down.
pub open spec fn lag_hi(rate: u32) -> int {
    (60 * rate) / (MIN_BPM * HOP) as int
}

/// The tempo, in thousandths of a beat per minute, of a beat `lag` frames long.
pub open spec fn bpm_of(rate: u32, lag: int) -> int {
    (60_000 * rate) / (lag * HOP)
}

/// `lag` has the highest score in the range, and no shorter lag in the range
/// scores as high.
pub open spec fn best_lag(x: Seq<Sample>, rate: u32, lag: int) -> bool {
    &&& lag_lo(rate) <= lag <= lag_hi(rate)
    &&& forall|l: int| lag_lo(rate) <= l <= lag_hi(rate) ==> #[trigger] score(x, l) <= score(x, lag)
    &&& forall|l: int| lag_lo(rate) <= l < lag ==> #[trigger] score(x, l) < score(x, lag)
}

/// Estimates the tempo of audio by onset autocorrelation.
#[derive(Clone, Copy, Debug)]
pub struct BpmDetector {
    /// The sample rate in Hz.
    pub sample_rate: u32,
}

impl BpmDetector {
    /// A detector for audio at `sample_rate` Hz.
    pub fn new(sample_rate: u32) -> (r: BpmDetector)
        ensures
            r.sample_rate == sample_rate,
    {
        BpmDetector { sample_rate }
    }

    fn energies(samples: &[Sample]) -> (r: Vec<u64>)
        ensures
            r@.len() == frame_count(samples@),
            forall|j: int| 0 <= j < r@.len() ==> #[trigger] r@[j] == energy(samples@, j),
            forall|j: int| 0 <= j < r@.len() ==> #[trigger] r@[j] <= HOP * 0x8000_0000,
    {
        let n = samples.len();
        let f = n / HOP;
        let mut r: Vec<u64> = Vec::new();
        let mut j: usize = 0;
        while j < f
            invariant
                n == samples@.len(),
                f == n / 512,
                f == frame_count(samples@),
                j <= f,
                r@.len() == j,
                forall|k: int| 0 <= k < j ==> #[trigger] r@[k] == energy(samples@, k),
                forall|k: int| 0 <= k < j ==> #[trigger] r@[k] <= HOP * 0x8000_0000,
            decreases f - j,
        {
            proof {
                assert(j * 512 + 512 <= samples@.len()) by (nonlinear_arith)
                    requires j < f, f == n as int / 512, n == samples@.len();
            }
            let start = j * HOP;
            let mut acc: u64 = 0;
            let mut i: usize = 0;
            while i < HOP
                invariant
                    start == j * HOP,
                    start + HOP <= samples@.len(),
                    i <= HOP,
                    acc == magnitude_sum(samples@, start as int, i as int),
                    acc <= i * 0x8000_0000,
                decreases HOP - i,
            {
                let s = samples[start + i];
                let m: u64 = if s < 0 { (-(s as i64)) as u64 } else { s as u64 };
                acc = acc + m;
                i += 1;
            }
            r.push(acc);
            j += 1;
        }
        r
    }

    /// The tempo of `samples` in thousandths of a beat per minute: that of
    /// the best-scoring lag between one beat at `MAX_BPM` and one at
    /// `MIN_BPM`. Fails when no lag in that range has any onset pair.
    pub fn detect(&self, samples: &[Sample]) -> (r: Result<u64, AudioError>)
        ensures
            r is Ok ==> exists|lag: int| best_lag(samples@, self.sample_rate, lag) && score(samples@, lag) > 0
                && r->Ok_0 == bpm_of(self.sample_rate, lag),
            r is Err <==> forall|l: int| lag_lo(self.sample_rate) <= l <= lag_hi(self.sample_rate)
                ==> #[trigger] score(samples@, l) == 0,
            r is Err ==> r->Err_0 is InvalidBuffer,
    {
        let e = Self::energies(samples);
        let f = e.len();
        let mut onsets: Vec<bool> = Vec::new();
        let mut j: usize = 0;
        while j < f
            invariant
                f == e@.len(),
                f == frame_count(samples@),
                forall|k: int| 0 <= k < f ==> #[trigger] e@[k] == energy(samples@, k),
                forall|k: int| 0 <= k < f ==> #[trigger] e@[k] <= HOP * 0x8000_0000,
                j <= f,
                onsets@.len() == j,
                forall|k: int| 0 <= k < j ==> #[trigger] onsets@[k] == onset(samples@, k),
            decreases f - j,
        {
            let prev: u64 = if j == 0 { 0 } else { e[j - 1] };
            onsets.push(e[j] > 2 * prev);
            j += 1;
        }
        let rate = self.sample_rate as u64;
        let lo0: u64 = (60 * rate + MAX_BPM * (HOP as u64) - 1) / (MAX_BPM * (HOP as u64));
        let lo: u64 = if lo0 < 1 { 1 } else { lo0 };
        let hi: u64 = (60 * rate) / (MIN_BPM * (HOP as u64));
        proof {
            vstd::arithmetic::div_mod::lemma_div_is_ordered_by_denominator(60 * rate as int, 1, (MIN_BPM * 512) as int);
        }
        let mut best: u64 = 0;
        let mut best_score: usize = 0;
        let mut lag: u64 = lo;
        while lag <= hi
            invariant
                f == frame_count(samples@),
                onsets@.len() == f,
                forall|k: int| 0 <= k < f ==> #[trigger] onsets@[k] == onset(samples@, k),
                lo == lag_lo(self.sample_rate),
                hi == lag_hi(self.sample_rate),
                hi <= 60 * 0xFFFF_FFFFu64,
                lo <= lag <= hi + 1,
                best_score == 0 ==> forall|l: int| lo <= l < lag ==> #[trigger] score(samples@, l) == 0,
                best_score > 0 ==> lo <= best < lag && score(samples@, best as int) == best_score
                    && (forall|l: int| lo <= l < lag ==> #[trigger] score(samples@, l) <= best_score)
                    && (forall|l: int| lo <= l < best ==> #[trigger] score(samples@, l) < best_score),
            decreases hi + 1 - lag,
        {
            let mut count: usize = 0;
            if lag < f as u64 {
                let m = f - lag as usize;
                let mut k: usize = 0;
                while k < m
                    invariant
                        f == frame_count(samples@),
                        onsets@.len() == f,
                        forall|q: int| 0 <= q < f ==> #[trigger] onsets@[q] == onset(samples@, q),
                        m == f - lag,
                        k <= m,
                        count == pairs_upto(samples@, lag as int, k as int),
                        count <= k,
                    decreases m - k,
                {
                    if onsets[k] && onsets[k + lag as usize] {
                        count = count + 1;
                    }
                    k += 1;
                }
            }
            assert(count == score(samples@, lag as int));
            if count > best_score {
                best = lag;
                best_score = count;
            }
            lag += 1;
        }
        if best_score == 0 {
            return Err(AudioError::InvalidBuffer);
        }
        assert(best_lag(samples@, self.sample_rate, best as int));
        assert(score(samples@, best as int) > 0);
        proof {
            assert(best * 512 <= 60 * 0xFFFF_FFFFu64 * 512) by (nonlinear_arith)
                requires best <= 60 * 0xFFFF_FFFFu64;
        }
        let bpm = (60_000 * rate) / (best * (HOP as u64));
        assert(best_lag(samples@, self.sample_rate, best as int) && score(samples@, best as int) > 0
            && bpm == bpm_of(self.sample_rate, best as int));
        Ok(bpm)
    }
}

} // verus!
