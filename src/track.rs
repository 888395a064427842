use vstd::prelude::*;
use std::collections::VecDeque;
use std::time::Instant;
use crate::error::AudioError;
use crate::sample::{Sample, UNITY, mixed};
use crate::buffer::{AudioBuffer, at_or_zero, broadcast_append, fit, rectangular};
use crate::effects::{EffectsProcessor, chain_ok, processed, processed_channels};
use crate::clock::{MasterClock, Quantizer, beat_samples, nearest_multiple};

verus! {

#[verifier::external_type_specification]
#[verifier::external_body]
pub struct ExInstant(Instant);

/// Relies on Instant::now: the current instant; nothing is known of its value.
#[verifier::external_body]
fn instant_now() -> (r: Instant)
{
    Instant::now()
}

/// Most entries each history keeps.
pub const HISTORY_LIMIT: usize = 32;

/// The recording/playback state of a track.
#[derive(Debug, Clone, Copy, PartialEq, Eq, Structural)]
pub enum TrackState {
    /// Ready for recording or playback
    Idle,
    /// Currently recording audio
    Recording,
    /// Playing back audio
    Playing,
    /// Recording over existing audio
    Overdubbing,
    /// Stopped with audio retained
    Stopped,
    /// Muted during playback
    Muted,
}

/// Mixing settings of a track, as fixed-point values. The engine applies
/// all but `solo`, which is kept for front ends.
#[derive(Debug, Clone, Copy)]
pub struct TrackEffects {
    /// Gain applied to input before it is recorded.
    pub pre_gain: i32,
    /// Gain applied when the track is summed into the output.
    pub post_gain: i32,
    /// Stereo position, from `-UNITY` (left) to `UNITY` (right).
    pub pan: i32,
    /// Excluded from the output.
    pub mute: bool,
    /// Heard alone.
    pub solo: bool,
}

/// Descriptive data of a track.
pub struct TrackMetadata {
    /// Numeric id.
    pub id: usize,
    /// Display name.
    pub name: String,
    /// RGB colour tag.
    pub color: (u8, u8, u8),
    /// When the track was made.
    pub created_at: Instant,
}

/// A saved buffer and cursor position.
pub type Snapshot = (Seq<Seq<Sample>>, usize);

/// The observable state of a track.
pub struct TrackView {
    /// The recording/playback state.
    pub state: TrackState,
    /// The mixing settings.
    pub mixing: TrackEffects,
    /// Id, name, colour and creation time.
    pub metadata: TrackMetadata,
    /// The buffer's channels.
    pub content: Seq<Seq<Sample>>,
    /// The playback or recording position.
    pub cursor: usize,
    /// The loop length, once set.
    pub loop_length: Option<usize>,
    /// Saved states that undo restores, most recent last.
    pub undo: Seq<Snapshot>,
    /// Undone states that redo restores, most recent last.
    pub redo: Seq<Snapshot>,
}

/// `h` with `s` pushed on top, the oldest entry dropped when `HISTORY_LIMIT` are held.
pub open spec fn push_capped(h: Seq<Snapshot>, s: Snapshot) -> Seq<Snapshot> {
    if h.len() >= HISTORY_LIMIT { h.drop_first().push(s) } else { h.push(s) }
}

/// The view after the current buffer and cursor are saved for undo.
pub open spec fn saved(v: TrackView) -> TrackView {
    TrackView {
        state: v.state,
        mixing: v.mixing,
        metadata: v.metadata,
        content: v.content,
        cursor: v.cursor,
        loop_length: v.loop_length,
        undo: push_capped(v.undo, (v.content, v.cursor)),
        redo: Seq::empty(),
    }
}

/// The view after an undo, when there is something to undo.
pub open spec fn after_undo(v: TrackView) -> TrackView {
    TrackView {
        state: v.state,
        mixing: v.mixing,
        metadata: v.metadata,
        content: v.undo.last().0,
        cursor: v.undo.last().1,
        loop_length: v.loop_length,
        undo: v.undo.drop_last(),
        redo: v.redo.push((v.content, v.cursor)),
    }
}

/// The view after a redo, when there is something to redo.
pub open spec fn after_redo(v: TrackView) -> TrackView {
    TrackView {
        state: v.state,
        mixing: v.mixing,
        metadata: v.metadata,
        content: v.redo.last().0,
        cursor: v.redo.last().1,
        loop_length: v.loop_length,
        undo: v.undo.push((v.content, v.cursor)),
        redo: v.redo.drop_last(),
    }
}

/// The view with another state, buffer, cursor and loop length, history kept.
pub open spec fn with_play(v: TrackView, state: TrackState, content: Seq<Seq<Sample>>, cursor: usize,
    loop_length: Option<usize>) -> TrackView {
    TrackView { state, mixing: v.mixing, metadata: v.metadata, content, cursor, loop_length, undo: v.undo, redo: v.redo }
}

/// Recording may start: the track is idle or stopped.
pub open spec fn can_start_recording(v: TrackView) -> bool {
    v.state == TrackState::Idle || v.state == TrackState::Stopped
}

/// The view after recording starts: buffer saved, then emptied, cursor at zero.
pub open spec fn recording_started(v: TrackView) -> TrackView {
    with_play(saved(v), TrackState::Recording, cleared(v.content), 0, v.loop_length)
}

/// Each snapshot of `s` saved in turn, starting from history `h`.
pub open spec fn saved_all(h: Seq<Snapshot>, s: Seq<Snapshot>) -> Seq<Snapshot>
    decreases s.len(),
{
    if s.len() == 0 { h } else { push_capped(saved_all(h, s.drop_last()), s.last()) }
}

/// A second `start_recording` without a `stop_recording` between is refused.
pub proof fn lemma_start_recording_twice_refused(v: TrackView)
    requires
        can_start_recording(v),
    ensures
        !can_start_recording(recording_started(v)),
{
}

/// Undo right after a save brings back the buffer and cursor that were saved.
pub proof fn lemma_undo_restores_saved(v: TrackView)
    ensures
        after_undo(saved(v)).content == v.content,
        after_undo(saved(v)).cursor == v.cursor,
{
}

/// Redo right after undo brings back exactly the state before the undo.
pub proof fn lemma_redo_after_undo(v: TrackView)
    requires
        v.undo.len() > 0,
    ensures
        after_redo(after_undo(v)) == v,
{
    assert(after_redo(after_undo(v)).undo =~= v.undo);
    assert(after_redo(after_undo(v)).redo =~= v.redo);
}

/// Saving snapshots one after another onto a history `h` (of at most
/// `HISTORY_LIMIT` entries) keeps the most recent `HISTORY_LIMIT` entries of
/// `h` followed by the snapshots, oldest first; older ones are gone.
pub proof fn lemma_history_keeps_latest(h: Seq<Snapshot>, s: Seq<Snapshot>)
    requires
        h.len() <= HISTORY_LIMIT,
    ensures
        saved_all(h, s) == (h + s).subrange(
            if h.len() + s.len() > HISTORY_LIMIT { h.len() + s.len() - HISTORY_LIMIT } else { 0int },
            (h.len() + s.len()) as int),
    decreases s.len(),
{
    let w = h + s;
    if s.len() == 0 {
        assert(w.subrange(0, h.len() as int) =~= h);
    } else {
        let p = s.drop_last();
        lemma_history_keeps_latest(h, p);
        let wp = h + p;
        assert(wp =~= w.drop_last());
        let lo: int = if wp.len() > HISTORY_LIMIT { wp.len() - HISTORY_LIMIT } else { 0 };
        let prev = wp.subrange(lo, wp.len() as int);
        if prev.len() >= HISTORY_LIMIT {
            assert(prev.drop_first().push(s.last()) =~= w.subrange(w.len() - HISTORY_LIMIT, w.len() as int));
        } else {
            assert(prev.push(s.last()) =~= w.subrange(
                if w.len() > HISTORY_LIMIT { w.len() - HISTORY_LIMIT } else { 0 }, w.len() as int));
        }
    }
}

/// The view after `k` undos in a row.
pub open spec fn undone(v: TrackView, k: nat) -> TrackView
    decreases k,
{
    if k == 0 { v } else { after_undo(undone(v, (k - 1) as nat)) }
}

/// `k` undos in a row walk back through the undo history, most recent first.
pub proof fn lemma_undone(v: TrackView, k: nat)
    requires
        k <= v.undo.len(),
    ensures
        undone(v, k).undo == v.undo.take(v.undo.len() - k),
        k >= 1 ==> undone(v, k).content == v.undo[v.undo.len() - k].0,
        k >= 1 ==> undone(v, k).cursor == v.undo[v.undo.len() - k].1,
    decreases k,
{
    if k == 0 {
        assert(v.undo.take(v.undo.len() as int) =~= v.undo);
    } else {
        lemma_undone(v, (k - 1) as nat);
        assert(undone(v, (k - 1) as nat).undo.drop_last() =~= v.undo.take(v.undo.len() - k));
    }
}

/// Undo after destructive operations. Let `v` be a track whose undo history
/// is what saving the snapshots `s` in turn onto an earlier history `h` leaves
/// (each of `start_recording`, `start_overdub`, `apply_effects` and
/// `quantize` saves the buffer and cursor it found; `process_input`,
/// `process_output` and `stop_recording` leave the history as it is). Then
/// undo number `k`, for `k` up to the smaller of `s.len()` and
/// `HISTORY_LIMIT`, brings back exactly snapshot `s[s.len() - k]`. After
/// `HISTORY_LIMIT` undos from at least `HISTORY_LIMIT` saves the history is
/// empty: snapshots saved before the last `HISTORY_LIMIT` cannot be brought
/// back.
pub proof fn lemma_undo_walks_back(v: TrackView, h: Seq<Snapshot>, s: Seq<Snapshot>, k: nat)
    requires
        h.len() <= HISTORY_LIMIT,
        v.undo == saved_all(h, s),
        1 <= k <= s.len(),
        k <= HISTORY_LIMIT,
    ensures
        undone(v, k).content == s[s.len() - k].0,
        undone(v, k).cursor == s[s.len() - k].1,
        s.len() >= HISTORY_LIMIT && k == HISTORY_LIMIT ==> undone(v, k).undo.len() == 0,
        h.len() == 0 && k == s.len() ==> undone(v, k).undo.len() == 0,
{
    lemma_history_keeps_latest(h, s);
    let w = h + s;
    let lo: int = if w.len() > HISTORY_LIMIT { w.len() - HISTORY_LIMIT } else { 0 };
    assert(v.undo.len() == w.len() - lo);
    lemma_undone(v, k);
    assert(v.undo[v.undo.len() - k] == w[w.len() - k]);
    assert(w[w.len() - k] == s[s.len() - k]);
}

/// Every channel cut or zero-padded to the multiple of `beat` nearest the
/// buffer's length; unchanged when `beat` is zero.
pub open spec fn quantized(content: Seq<Seq<Sample>>, beat: nat) -> Seq<Seq<Sample>> {
    if beat == 0 {
        content
    } else {
        Seq::new(content.len(), |c: int| fit(content[c], nearest_multiple(content[0].len(), beat)))
    }
}

/// The playback position after one frame of a loop of `len` samples.
pub open spec fn step(c: usize, len: usize) -> usize {
    if (c % len) + 1 >= len { 0 } else { ((c % len) + 1) as usize }
}

/// The playback position after `k` frames.
pub open spec fn cursor_after(c: usize, len: usize, k: nat) -> usize
    decreases k,
{
    if k == 0 { c } else { step(cursor_after(c, len, (k - 1) as nat), len) }
}

/// The first channel after the first `k` input samples are added in at
/// `(cursor + i) mod len`, one after another.
pub open spec fn overdub_channel(ch: Seq<Sample>, input: Seq<Sample>, cursor: int, k: int) -> Seq<Sample>
    decreases k,
{
    if k <= 0 {
        ch
    } else {
        let prev = overdub_channel(ch, input, cursor, k - 1);
        let p = (cursor + k - 1) % (ch.len() as int);
        prev.update(p, mixed(prev[p], input[k - 1], UNITY))
    }
}

/// Every channel emptied.
pub open spec fn cleared(content: Seq<Seq<Sample>>) -> Seq<Seq<Sample>> {
    Seq::new(content.len(), |c: int| Seq::<Sample>::empty())
}

/// The length playback loops over: the loop length if set, else the buffer's.
pub open spec fn effective_length(v: TrackView) -> usize {
    match v.loop_length {
        Some(n) => n,
        None => v.content[0].len() as usize,
    }
}

/// Playback happens: the track plays or overdubs, and neither the buffer
/// nor the loop is empty.
pub open spec fn plays(v: TrackView) -> bool {
    (v.state == TrackState::Playing || v.state == TrackState::Overdubbing) && v.content[0].len() > 0
        && effective_length(v) > 0
}

/// Output frame `k` of a playback that starts from view `v`.
pub open spec fn played(v: TrackView, p: EffectsProcessor, k: nat) -> Sample {
    processed(p, at_or_zero(v.content[0], (cursor_after(v.cursor, effective_length(v), k) % effective_length(v)) as int))
}

/// Every channel with all of `input` overdubbed from `cursor`.
pub open spec fn overdubbed(content: Seq<Seq<Sample>>, input: Seq<Sample>, cursor: int) -> Seq<Seq<Sample>> {
    Seq::new(content.len(), |c: int| overdub_channel(content[c], input, cursor, input.len() as int))
}

/// Overdubbing keeps a channel's length.
pub proof fn lemma_overdub_len(ch: Seq<Sample>, input: Seq<Sample>, cursor: int, k: int)
    requires
        ch.len() > 0,
        0 <= cursor,
        k <= input.len(),
    ensures
        overdub_channel(ch, input, cursor, k).len() == ch.len(),
    decreases k,
{
    if k > 0 {
        lemma_overdub_len(ch, input, cursor, k - 1);
    }
}

/// The view after `process_input`.
pub open spec fn input_step(v: TrackView, input: Seq<Sample>) -> TrackView {
    if v.state == TrackState::Recording {
        with_play(v, v.state, broadcast_append(v.content, input), (v.cursor + input.len()) as usize, v.loop_length)
    } else if v.state == TrackState::Overdubbing && v.content[0].len() > 0 {
        with_play(v, v.state, overdubbed(v.content, input, v.cursor as int),
            ((v.cursor + input.len()) % (v.content[0].len() as int)) as usize, v.loop_length)
    } else if v.state == TrackState::Overdubbing {
        with_play(v, v.state, v.content, (v.cursor + input.len()) as usize, v.loop_length)
    } else {
        v
    }
}

/// The view after `process_output` into `n` frames.
pub open spec fn output_step(v: TrackView, p: EffectsProcessor, n: nat) -> TrackView {
    if plays(v) && (chain_ok(p) || n == 0) {
        with_play(v, v.state, v.content, cursor_after(v.cursor, effective_length(v), n), v.loop_length)
    } else {
        v
    }
}

/// What `process_output` leaves in an output block that held `out`.
pub open spec fn rendered(v: TrackView, p: EffectsProcessor, out: Seq<Sample>) -> Seq<Sample> {
    if plays(v) && chain_ok(p) { Seq::new(out.len(), |k: int| played(v, p, k as nat)) } else { out }
}

struct BufferHistory {
    buffer: AudioBuffer,
    cursor_pos: usize,
}

spec fn snap_of(h: BufferHistory) -> Snapshot {
    (h.buffer@, h.cursor_pos)
}

/// One loop track: a buffer, its recording state machine, playback cursor,
/// effects, and bounded undo and redo histories.
pub struct Track {
    state: TrackState,
    buffer: AudioBuffer,
    effects: EffectsProcessor,
    cursor_pos: usize,
    loop_length: Option<usize>,
    undo_stack: VecDeque<BufferHistory>,
    redo_stack: VecDeque<BufferHistory>,
    mixing: TrackEffects,
    metadata: TrackMetadata,
    quantizer: Quantizer,
    sample_rate: u32,
}

impl View for Track {
    type V = TrackView;

    closed spec fn view(&self) -> TrackView {
        TrackView {
            state: self.state,
            mixing: self.mixing,
            metadata: self.metadata,
            content: self.buffer@,
            cursor: self.cursor_pos,
            loop_length: self.loop_length,
            undo: self.undo_stack@.map_values(|h: BufferHistory| snap_of(h)),
            redo: self.redo_stack@.map_values(|h: BufferHistory| snap_of(h)),
        }
    }
}

impl Track {
    /// The effects settings.
    pub closed spec fn processor(&self) -> EffectsProcessor {
        self.effects
    }

    /// The sample rate in Hz.
    pub closed spec fn rate(&self) -> u32 {
        self.sample_rate
    }

    /// The buffer and every saved one are well formed at the track's
    /// sample rate, and the two histories hold at most `HISTORY_LIMIT`
    /// entries together.
    pub closed spec fn wf(&self) -> bool {
        &&& self.buffer.wf()
        &&& self.buffer.rate() == self.sample_rate
        &&& self.undo_stack@.len() + self.redo_stack@.len() <= HISTORY_LIMIT
        &&& forall|i: int| 0 <= i < self.undo_stack@.len() ==> (#[trigger] self.undo_stack@[i]).buffer.wf()
            && self.undo_stack@[i].buffer.rate() == self.sample_rate
        &&& forall|i: int| 0 <= i < self.redo_stack@.len() ==> (#[trigger] self.redo_stack@[i]).buffer.wf()
            && self.redo_stack@[i].buffer.rate() == self.sample_rate
    }

    /// What a well-formed track guarantees of its view.
    pub proof fn lemma_wf(&self)
        requires
            self.wf(),
        ensures
            self@.content.len() >= 1,
            forall|c: int| 0 <= c < self@.content.len() ==> #[trigger] self@.content[c].len() == self@.content[0].len(),
            self@.undo.len() + self@.redo.len() <= HISTORY_LIMIT,
            forall|i: int| 0 <= i < self@.undo.len() ==> rectangular(#[trigger] self@.undo[i].0),
            forall|i: int| 0 <= i < self@.redo.len() ==> rectangular(#[trigger] self@.redo[i].0),
    {
        assert forall|i: int| 0 <= i < self@.undo.len() implies rectangular(#[trigger] self@.undo[i].0) by {
            assert(self.undo_stack@[i].buffer.wf());
        }
        assert forall|i: int| 0 <= i < self@.redo.len() implies rectangular(#[trigger] self@.redo[i].0) by {
            assert(self.redo_stack@[i].buffer.wf());
        }
    }

    /// An idle track with an empty buffer of `channels` channels.
    pub fn new(id: usize, name: String, sample_rate: u32, channels: usize) -> (r: Track)
        requires
            channels >= 1,
        ensures
            r.wf(),
            r.rate() == sample_rate,
            r@.state == TrackState::Idle,
            r@.mixing == (TrackEffects { pre_gain: UNITY, post_gain: UNITY, pan: 0, mute: false, solo: false }),
            r@.metadata.id == id,
            r@.metadata.name == name,
            r@.metadata.color == (255u8, 0u8, 0u8),
            r@.content == Seq::new(channels as nat, |c: int| Seq::<Sample>::empty()),
            r@.cursor == 0,
            r@.loop_length == None::<usize>,
            r@.undo.len() == 0,
            r@.redo.len() == 0,
            r.processor().sample_rate == sample_rate,
            r.processor().chain.effects@.len() == 0,
            r.processor().chain.enabled,
    {
        let r = Track {
            state: TrackState::Idle,
            buffer: AudioBuffer::new(sample_rate, channels),
            effects: EffectsProcessor::new(sample_rate),
            cursor_pos: 0,
            loop_length: None,
            undo_stack: VecDeque::with_capacity(HISTORY_LIMIT),
            redo_stack: VecDeque::with_capacity(HISTORY_LIMIT),
            mixing: TrackEffects { pre_gain: UNITY, post_gain: UNITY, pan: 0, mute: false, solo: false },
            metadata: TrackMetadata { id, name, color: (255, 0, 0), created_at: instant_now() },
            quantizer: Quantizer,
            sample_rate,
        };
        assert(r@.undo =~= Seq::empty());
        assert(r@.redo =~= Seq::empty());
        r
    }

    fn save_to_history(&mut self)
        requires
            old(self).wf(),
        ensures
            final(self).wf(),
            final(self)@ == saved(old(self)@),
            final(self).processor() == old(self).processor(),
            final(self).rate() == old(self).rate(),
    {
        if self.undo_stack.len() >= HISTORY_LIMIT {
            self.undo_stack.pop_front();
        }
        let snap = BufferHistory { buffer: self.buffer.snapshot(), cursor_pos: self.cursor_pos };
        self.undo_stack.push_back(snap);
        self.redo_stack.clear();
        assert(self@.undo =~= push_capped(old(self)@.undo, (old(self)@.content, old(self)@.cursor)));
        assert(self@.redo =~= Seq::empty());
    }
        /// Starts recording from `Idle` or `Stopped`: saves the buffer for undo,
    /// empties it and puts the cursor at zero. From any other state it fails
    /// and changes nothing.
    pub fn start_recording(&mut self) -> (r: Result<(), AudioError>)
        requires
            old(self).wf(),
        ensures
            final(self).wf(),
            final(self).processor() == old(self).processor(),
            final(self).rate() == old(self).rate(),
            can_start_recording(old(self)@) ==> r is Ok && final(self)@ == recording_started(old(self)@),
            !can_start_recording(old(self)@) ==> r is Err && r->Err_0 is InvalidStateTransition
                && final(self)@ == old(self)@,
    {
        match self.state {
            TrackState::Idle | TrackState::Stopped => {
                self.save_to_history();
                self.buffer.clear();
                self.cursor_pos = 0;
                self.state = TrackState::Recording;
                Ok(())
            },
            _ => Err(AudioError::InvalidStateTransition),
        }
    }

    /// Ends recording or overdubbing and plays. Leaving `Recording` sets the
    /// loop length to the cursor position and puts the cursor back at the
    /// loop start; leaving `Overdubbing` keeps both.
    /// From any other state it fails and changes nothing.
    pub fn stop_recording(&mut self) -> (r: Result<(), AudioError>)
        requires
            old(self).wf(),
        ensures
            final(self).wf(),
            final(self).processor() == old(self).processor(),
            final(self).rate() == old(self).rate(),
            old(self)@.state == TrackState::Recording ==> r is Ok && final(self)@ == with_play(old(self)@,
                TrackState::Playing, old(self)@.content, 0, Some(old(self)@.cursor)),
            old(self)@.state == TrackState::Overdubbing ==> r is Ok && final(self)@ == with_play(old(self)@,
                TrackState::Playing, old(self)@.content, old(self)@.cursor, old(self)@.loop_length),
            !(old(self)@.state == TrackState::Recording || old(self)@.state == TrackState::Overdubbing) ==> r is Err
                && r->Err_0 is InvalidStateTransition && final(self)@ == old(self)@,
    {
        match self.state {
            TrackState::Recording => {
                self.loop_length = Some(self.cursor_pos);
                self.cursor_pos = 0;
                self.state = TrackState::Playing;
                Ok(())
            },
            TrackState::Overdubbing => {
                self.state = TrackState::Playing;
                Ok(())
            },
            _ => Err(AudioError::InvalidStateTransition),
        }
    }

    /// Starts overdubbing from `Playing`, saving the buffer for undo. From
    /// any other state it fails and changes nothing.
    pub fn start_overdub(&mut self) -> (r: Result<(), AudioError>)
        requires
            old(self).wf(),
        ensures
            final(self).wf(),
            final(self).processor() == old(self).processor(),
            final(self).rate() == old(self).rate(),
            old(self)@.state == TrackState::Playing ==> r is Ok && final(self)@ == with_play(saved(old(self)@),
                TrackState::Overdubbing, old(self)@.content, old(self)@.cursor, old(self)@.loop_length),
            old(self)@.state != TrackState::Playing ==> r is Err && r->Err_0 is InvalidStateTransition
                && final(self)@ == old(self)@,
    {
        match self.state {
            TrackState::Playing => {
                self.save_to_history();
                self.state = TrackState::Overdubbing;
                Ok(())
            },
            _ => Err(AudioError::InvalidStateTransition),
        }
    }

    /// Restores the most recently saved buffer and cursor, saving the
    /// current ones for redo.
    pub fn undo(&mut self) -> (r: Result<(), AudioError>)
        requires
            old(self).wf(),
        ensures
            final(self).wf(),
            final(self).processor() == old(self).processor(),
            final(self).rate() == old(self).rate(),
            old(self)@.undo.len() == 0 ==> r is Err && r->Err_0 is NothingToUndo && final(self)@ == old(self)@,
            old(self)@.undo.len() > 0 ==> r is Ok && final(self)@ == after_undo(old(self)@),
    {
        match self.undo_stack.pop_back() {
            Some(history) => {
                let current = BufferHistory { buffer: self.buffer.snapshot(), cursor_pos: self.cursor_pos };
                self.redo_stack.push_back(current);
                assert(old(self).undo_stack@[old(self).undo_stack@.len() - 1].buffer.wf());
                self.buffer = history.buffer;
                self.cursor_pos = history.cursor_pos;
                assert(self@.undo =~= old(self)@.undo.drop_last());
                assert(self@.redo =~= old(self)@.redo.push((old(self)@.content, old(self)@.cursor)));
                Ok(())
            },
            None => Err(AudioError::NothingToUndo),
        }
    }

    /// Restores the most recently undone buffer and cursor, saving the
    /// current ones for undo.
    pub fn redo(&mut self) -> (r: Result<(), AudioError>)
        requires
            old(self).wf(),
        ensures
            final(self).wf(),
            final(self).processor() == old(self).processor(),
            final(self).rate() == old(self).rate(),
            old(self)@.redo.len() == 0 ==> r is Err && r->Err_0 is NothingToRedo && final(self)@ == old(self)@,
            old(self)@.redo.len() > 0 ==> r is Ok && final(self)@ == after_redo(old(self)@),
    {
        match self.redo_stack.pop_back() {
            Some(history) => {
                let current = BufferHistory { buffer: self.buffer.snapshot(), cursor_pos: self.cursor_pos };
                self.undo_stack.push_back(current);
                assert(old(self).redo_stack@[old(self).redo_stack@.len() - 1].buffer.wf());
                self.buffer = history.buffer;
                self.cursor_pos = history.cursor_pos;
                assert(self@.redo =~= old(self)@.redo.drop_last());
                assert(self@.undo =~= old(self)@.undo.push((old(self)@.content, old(self)@.cursor)));
                Ok(())
            },
            None => Err(AudioError::NothingToRedo),
        }
    }

    /// Takes input samples. In `Recording` they are appended to every
    /// channel; in `Overdubbing` sample `i` is added into every channel at
    /// `(cursor + i) mod length`. Either way the cursor moves on by the
    /// input length, wrapping around the buffer when overdubbing. In other
    /// states nothing happens.
    pub fn process_input(&mut self, input: &[Sample])
        requires
            old(self).wf(),
            old(self)@.cursor + input@.len() <= usize::MAX,
        ensures
            final(self).wf(),
            final(self).processor() == old(self).processor(),
            final(self).rate() == old(self).rate(),
            final(self)@ == input_step(old(self)@, input@),
    {
        match self.state {
            TrackState::Recording => {
                self.buffer.append_mono(input);
                self.cursor_pos = self.cursor_pos + input.len();
            },
            TrackState::Overdubbing => {
                let len = self.buffer.len();
                if len == 0 {
                    self.cursor_pos = self.cursor_pos + input.len();
                    return;
                }
                let ghost content0 = old(self)@.content;
                let n = input.len();
                let nch = self.buffer.channels();
                let mut c: usize = 0;
                while c < nch
                    invariant
                        self.wf(),
                        self.effects == old(self).effects,
                        self.mixing == old(self).mixing,
                        self.metadata == old(self).metadata,
                        self.state == old(self).state,
                        self.loop_length == old(self).loop_length,
                        self.undo_stack == old(self).undo_stack,
                        self.redo_stack == old(self).redo_stack,
                        self.sample_rate == old(self).sample_rate,
                        self.buffer.wf(),
                        self.buffer.frames() == len,
                        content0 == old(self)@.content,
                        rectangular(content0),
                        len == content0[0].len(),
                        len > 0,
                        nch == content0.len(),
                        self.buffer@.len() == nch,
                        n == input@.len(),
                        c <= nch,
                        self.cursor_pos == old(self)@.cursor,
                        self.cursor_pos + n <= usize::MAX,
                        forall|k: int| 0 <= k < c ==> #[trigger] self.buffer@[k]
                            == overdub_channel(content0[k], input@, self.cursor_pos as int, n as int),
                        forall|k: int| c <= k < nch ==> #[trigger] self.buffer@[k] == content0[k],
                    decreases nch - c,
                {
                    assert(content0[c as int].len() == len);
                    let mut i: usize = 0;
                    while i < n
                        invariant
                            self.wf(),
                            self.effects == old(self).effects,
                            self.mixing == old(self).mixing,
                            self.metadata == old(self).metadata,
                            self.state == old(self).state,
                            self.loop_length == old(self).loop_length,
                            self.undo_stack == old(self).undo_stack,
                            self.redo_stack == old(self).redo_stack,
                            self.sample_rate == old(self).sample_rate,
                            self.buffer.wf(),
                            self.buffer.frames() == len,
                            content0 == old(self)@.content,
                            len == content0[c as int].len(),
                            len > 0,
                            nch == content0.len(),
                            self.buffer@.len() == nch,
                            c < nch,
                            n == input@.len(),
                            i <= n,
                            self.cursor_pos == old(self)@.cursor,
                            self.cursor_pos + n <= usize::MAX,
                            self.buffer@[c as int] == overdub_channel(content0[c as int], input@, self.cursor_pos as int, i as int),
                            forall|k: int| 0 <= k < c ==> #[trigger] self.buffer@[k]
                                == overdub_channel(content0[k], input@, self.cursor_pos as int, n as int),
                            forall|k: int| c < k < nch ==> #[trigger] self.buffer@[k] == content0[k],
                        decreases n - i,
                    {
                        proof {
                            lemma_overdub_len(content0[c as int], input@, self.cursor_pos as int, i as int);
                        }
                        let pos = (self.cursor_pos + i) % len;
                        self.buffer.mix_at(c, pos, input[i], UNITY);
                        i += 1;
                    }
                    c += 1;
                }
                assert(self.buffer@ =~= overdubbed(content0, input@, self.cursor_pos as int));
                self.cursor_pos = (self.cursor_pos + n) % len;
            },
            _ => {},
        }
    }

    /// Plays into `output` in `Playing` or `Overdubbing`, when the buffer
    /// and the loop are not empty: each frame reads the first channel at
    /// `cursor mod loop length` (silence past the buffer's end), runs it
    /// through the effects, and moves the cursor on, back to zero at the
    /// loop's end. Fails, writing nothing, when an effect is invalid. In
    /// other cases nothing happens.
    pub fn process_output(&mut self, output: &mut [Sample]) -> (r: Result<(), AudioError>)
        requires
            old(self).wf(),
        ensures
            final(self).wf(),
            final(self).processor() == old(self).processor(),
            final(self).rate() == old(self).rate(),
            final(self)@ == output_step(old(self)@, old(self).processor(), old(output)@.len()),
            r is Err <==> plays(old(self)@) && !chain_ok(old(self).processor()) && old(output)@.len() > 0,
            r is Err ==> r->Err_0 is EffectError && final(output)@ == old(output)@,
            r is Ok ==> final(output)@ == rendered(old(self)@, old(self).processor(), old(output)@),
    {
        let playing = self.state == TrackState::Playing || self.state == TrackState::Overdubbing;
        if !playing || self.buffer.is_empty() {
            return Ok(());
        }
        let len = match self.loop_length {
            Some(n) => n,
            None => self.buffer.len(),
        };
        if len == 0 {
            return Ok(());
        }
        let n = output.len();
        let mut k: usize = 0;
        while k < n
            invariant
                self.wf(),
                self.processor() == old(self).processor(),
                self.rate() == old(self).rate(),
                plays(old(self)@),
                len == effective_length(old(self)@),
                n == old(output)@.len(),
                output@.len() == n,
                k <= n,
                k > 0 ==> chain_ok(old(self).processor()),
                k == 0 ==> output@ == old(output)@,
                self@ == with_play(old(self)@, old(self)@.state, old(self)@.content,
                    cursor_after(old(self)@.cursor, len, k as nat), old(self)@.loop_length),
                forall|j: int| 0 <= j < k ==> #[trigger] output@[j] == played(old(self)@, old(self).processor(), j as nat),
            decreases n - k,
        {
            let idx = self.cursor_pos % len;
            let x = if idx < self.buffer.len() {
                self.buffer.get(0, idx)
            } else {
                0
            };
            let y = match self.effects.process_sample(x) {
                Ok(y) => y,
                Err(e) => {
                    return Err(e);
                },
            };
            output[k] = y;
            self.cursor_pos = if idx + 1 >= len {
                self.quantizer.on_loop();
                0
            } else {
                idx + 1
            };
            k += 1;
        }
        assert(output@ =~= rendered(old(self)@, old(self).processor(), old(output)@));
        Ok(())
    }

    /// Saves the buffer for undo, then runs the effects over all of it.
    pub fn apply_effects(&mut self) -> (r: Result<(), AudioError>)
        requires
            old(self).wf(),
        ensures
            final(self).wf(),
            final(self).processor() == old(self).processor(),
            final(self).rate() == old(self).rate(),
            r is Ok <==> chain_ok(old(self).processor()),
            r is Err ==> r->Err_0 is EffectError,
            final(self)@ == with_play(saved(old(self)@), old(self)@.state,
                processed_channels(old(self).processor(), old(self)@.content), old(self)@.cursor,
                old(self)@.loop_length),
    {
        self.save_to_history();
        self.effects.process_buffer(&mut self.buffer)
    }

    /// Saves the buffer for undo, then cuts or pads it to the nearest whole
    /// number of beats at the clock's tempo (a beat of no samples leaves it
    /// as it is). Fails, changing nothing, when that length could not be
    /// addressed.
    pub fn quantize(&mut self, clock: &MasterClock) -> (r: Result<(), AudioError>)
        requires
            old(self).wf(),
            clock.wf(),
        ensures
            final(self).wf(),
            final(self).processor() == old(self).processor(),
            final(self).rate() == old(self).rate(),
            old(self)@.content[0].len() + beat_samples(clock.bpm(), clock.rate()) <= usize::MAX ==> r is Ok
                && final(self)@ == with_play(saved(old(self)@), old(self)@.state,
                    quantized(old(self)@.content, beat_samples(clock.bpm(), clock.rate())),
                    old(self)@.cursor, old(self)@.loop_length),
            old(self)@.content[0].len() + beat_samples(clock.bpm(), clock.rate()) > usize::MAX ==> r is Err
                && r->Err_0 is BufferError && final(self)@ == old(self)@,
    {
        let beat = clock.samples_per_beat();
        let len = self.buffer.len();
        if beat > (usize::MAX - len) as u64 {
            return Err(AudioError::BufferError(String::from_str("beat length out of range")));
        }
        self.save_to_history();
        let r = self.quantizer.quantize(&mut self.buffer, beat as usize);
        assert(self.buffer@ =~= quantized(old(self)@.content, beat as nat));
        r
    }

    /// The current state.
    pub fn state(&self) -> (r: TrackState)
        ensures
            r == self@.state,
    {
        self.state
    }

    /// The playback or recording position, in samples.
    pub fn cursor_position(&self) -> (r: usize)
        ensures
            r == self@.cursor,
    {
        self.cursor_pos
    }

    /// The loop length in samples, once recording has ended.
    pub fn loop_length(&self) -> (r: Option<usize>)
        ensures
            r == self@.loop_length,
    {
        self.loop_length
    }

    /// The track's buffer.
    pub fn buffer(&self) -> (r: &AudioBuffer)
        requires
            self.wf(),
        ensures
            r.wf(),
            r@ == self@.content,
            r.rate() == self.rate(),
    {
        &self.buffer
    }

    /// The number of entries that can be undone.
    pub fn undo_depth(&self) -> (r: usize)
        ensures
            r == self@.undo.len(),
    {
        self.undo_stack.len()
    }

    /// The number of entries that can be redone.
    pub fn redo_depth(&self) -> (r: usize)
        ensures
            r == self@.redo.len(),
    {
        self.redo_stack.len()
    }

    /// The track's descriptive data.
    pub fn metadata(&self) -> (r: &TrackMetadata)
        ensures
            *r == self@.metadata,
    {
        &self.metadata
    }

    /// The mixing settings.
    pub fn mixing(&self) -> (r: TrackEffects)
        ensures
            r == self@.mixing,
    {
        self.mixing
    }

    /// Replaces the mixing settings.
    pub fn set_mixing(&mut self, mixing: TrackEffects)
        requires
            old(self).wf(),
        ensures
            final(self).wf(),
            final(self)@ == (TrackView { mixing, ..old(self)@ }),
            final(self).processor() == old(self).processor(),
            final(self).rate() == old(self).rate(),
    {
        self.mixing = mixing;
    }

    /// The effects settings.
    pub fn effects(&self) -> (r: &EffectsProcessor)
        ensures
            *r == self.processor(),
    {
        &self.effects
    }

    /// Replaces the effects settings.
    pub fn set_effects(&mut self, effects: EffectsProcessor)
        requires
            old(self).wf(),
        ensures
            final(self).wf(),
            final(self)@ == old(self)@,
            final(self).processor() == effects,
            final(self).rate() == old(self).rate(),
    {
        self.effects = effects;
    }
}

} // verus!
