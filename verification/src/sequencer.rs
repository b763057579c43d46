//! Pattern scheduling: a looped, beat-indexed pattern of notes is mapped onto
//! the sample frames of each render block.

use crate::cycle::{lemma_wrap_unique, wrap};
use std::collections::HashMap;
use vstd::prelude::*;

verus! {

broadcast use vstd::std_specs::hash::group_hash_axioms;

/// Resolution of musical time: beat positions and durations are counted in
/// ticks, and this many ticks make one quarter-note beat.
pub const TICKS_PER_BEAT: u32 = 960;

/// Tempos are given in thousandths of a beat per minute, so 120 BPM is
/// `120 * TEMPO_SCALE`.
pub const TEMPO_SCALE: u32 = 1000;

/// The largest sample position a conversion can yield; longer spans saturate
/// here.
pub const MAX_SAMPLES: i32 = 0x7fff_ffff;

/// The number of whole samples that `ticks` of musical time last at `tempo`
/// and `sample_rate`: `beats / bpm * 60 * sample_rate`, computed exactly and
/// truncated once at the end. The result saturates at `MAX_SAMPLES`. At tempo
/// zero a span of no length lasts zero samples and any other span saturates.
pub open spec fn beats_to_samples(ticks: nat, tempo: nat, sample_rate: nat) -> int {
    let numerator = ticks * sample_rate * 60 * (TEMPO_SCALE as nat);
    let denominator = (TICKS_PER_BEAT as nat) * tempo;
    if denominator == 0 {
        if numerator == 0 {
            0
        } else {
            MAX_SAMPLES as int
        }
    } else if numerator / denominator > MAX_SAMPLES {
        MAX_SAMPLES as int
    } else {
        (numerator / denominator) as int
    }
}

/// The musical time, in whole ticks, that `samples` samples last at `tempo`
/// and `sample_rate`: the inverse direction of [`beats_to_samples`], again
/// truncated once at the end and saturating at `u32::MAX`. With a sample rate
/// of zero no time passes.
pub open spec fn samples_to_beats(samples: nat, tempo: nat, sample_rate: nat) -> int {
    let numerator = samples * tempo * (TICKS_PER_BEAT as nat);
    let denominator = sample_rate * 60 * (TEMPO_SCALE as nat);
    if denominator == 0 {
        0
    } else if numerator / denominator > u32::MAX {
        u32::MAX as int
    } else {
        (numerator / denominator) as int
    }
}

/// Converts a span of musical time to samples.
pub fn ticks_to_samples(ticks: u32, tempo: u32, sample_rate: u32) -> (samples: i32)
    ensures
        samples == beats_to_samples(ticks as nat, tempo as nat, sample_rate as nat),
        0 <= samples <= MAX_SAMPLES,
{
    assert((ticks as int) * (sample_rate as int) <= 0xffff_ffff * 0xffff_ffff) by (nonlinear_arith)
        requires
            0 <= ticks <= 0xffff_ffff,
            0 <= sample_rate <= 0xffff_ffff,
    ;
    let product: u128 = (ticks as u128) * (sample_rate as u128);
    // sixty seconds in thousandths, and the ticks of a beat
    let numerator: u128 = product * 60_000;
    let denominator: u128 = 960 * (tempo as u128);
    if denominator == 0 {
        if numerator == 0 {
            0
        } else {
            MAX_SAMPLES
        }
    } else {
        let quotient: u128 = numerator / denominator;
        if quotient > MAX_SAMPLES as u128 {
            MAX_SAMPLES
        } else {
            quotient as i32
        }
    }
}

/// The highest pitch, velocity or other seven-bit controller value.
pub const MIDI_MAX: u8 = 127;

/// One note of a pattern. Times are in ticks from the start of the loop; the
/// two continuous parameters are in thousandths, like every control value of
/// this crate.
#[derive(Clone, Copy, Debug, PartialEq, Eq, Structural)]
pub struct Event {
    pub beat_time: u32,
    pub pitch: u8,
    pub velocity: u8,
    pub param1: i32,
    pub param2: i32,
    pub track: u8,
    pub duration: u32,
}

/// What the control side may ask of the render side: to schedule an event,
/// to set a parameter of a track to a value in thousandths, to play a note
/// at once, or to clear the pattern.
#[derive(Clone, Copy, Debug, PartialEq, Eq, Structural)]
pub enum Message {
    Schedule(Event),
    ParameterChange(i8, i32, u8),
    NoteOn { track: u8, velocity: u8 },
    Clear,
}

/// A note boundary with the sample position in the loop at which it fires.
#[derive(Clone, Copy, Debug, PartialEq, Eq, Structural)]
pub enum ScheduledEvent {
    NoteOn { time: i32, pitch: u8, velocity: u8, track: u8 },
    NoteOff { time: i32, pitch: u8, track: u8 },
}

impl ScheduledEvent {
    /// The sample position in the loop at which the event fires.
    pub open spec fn fire_time(self) -> int {
        match self {
            ScheduledEvent::NoteOn { time, .. } => time as int,
            ScheduledEvent::NoteOff { time, .. } => time as int,
        }
    }

    /// The sample position in the loop at which the event fires.
    pub fn time(&self) -> (time: i32)
        ensures
            time == self.fire_time(),
    {
        match *self {
            ScheduledEvent::NoteOn { time, .. } => time,
            ScheduledEvent::NoteOff { time, .. } => time,
        }
    }
}

/// A value limited to the seven-bit range.
pub open spec fn clamp_midi(value: u8) -> u8 {
    if value > MIDI_MAX {
        MIDI_MAX
    } else {
        value
    }
}

/// Limits a value to the seven-bit range.
pub fn limit_midi(value: u8) -> (limited: u8)
    ensures
        limited == clamp_midi(value),
{
    if value > MIDI_MAX {
        MIDI_MAX
    } else {
        value
    }
}

/// The event as the pattern stores it: pitch and velocity limited to the
/// seven-bit range, everything else as given.
pub open spec fn stored_event(event: Event) -> Event {
    Event { pitch: clamp_midi(event.pitch), velocity: clamp_midi(event.velocity), ..event }
}

/// Whether loop position `time` lies in the block of `frames` samples that
/// begins at loop position `start`: either between the block's start and its
/// end, the end excluded, or, where the block runs past the end of the loop, in
/// the part that continues from the loop's beginning. Positions outside the
/// loop are in no block.
pub open spec fn is_due(time: int, start: int, frames: int, length: int) -> bool {
    &&& 0 <= time < length
    &&& {
        ||| start <= time < start + frames
        ||| (start + frames > length && time < start + frames - length)
    }
}

/// The frame of a block starting at loop position `start` on which loop
/// position `time` first comes round.
pub open spec fn frame_of(time: int, start: int, length: int) -> int {
    wrap(time - start, length)
}

/// The boundaries that one pattern event contributes to a block: nothing
/// unless its start is due, else its NoteOn at the start and its NoteOff at
/// the start plus the duration, folded into the loop.
pub open spec fn notes_of(
    event: Event,
    tempo: nat,
    sample_rate: nat,
    start: int,
    frames: int,
    length: int,
) -> Seq<ScheduledEvent> {
    let on = beats_to_samples(event.beat_time as nat, tempo, sample_rate);
    let held = beats_to_samples(event.duration as nat, tempo, sample_rate);
    if is_due(on, start, frames, length) {
        seq![
            ScheduledEvent::NoteOn {
                time: on as i32,
                pitch: event.pitch,
                velocity: event.velocity,
                track: event.track,
            },
            ScheduledEvent::NoteOff {
                time: wrap(on + held, length) as i32,
                pitch: event.pitch,
                track: event.track,
            },
        ]
    } else {
        Seq::empty()
    }
}

/// The boundaries that a whole pattern contributes to a block, event by event
/// in pattern order.
pub open spec fn scheduled(
    pattern: Seq<Event>,
    tempo: nat,
    sample_rate: nat,
    start: int,
    frames: int,
    length: int,
) -> Seq<ScheduledEvent>
    decreases pattern.len(),
{
    if pattern.len() == 0 {
        Seq::empty()
    } else {
        scheduled(pattern.drop_last(), tempo, sample_rate, start, frames, length) + notes_of(
            pattern.last(),
            tempo,
            sample_rate,
            start,
            frames,
            length,
        )
    }
}

/// Selects the boundaries that fire on frame `offset` of a block.
pub open spec fn fires_on(start: int, frames: int, length: int, offset: int) -> spec_fn(
    ScheduledEvent,
) -> bool {
    |e: ScheduledEvent|
        is_due(e.fire_time(), start, frames, length) && frame_of(e.fire_time(), start, length)
            == offset
}

/// Selects the boundaries that do not fire in a block.
pub open spec fn stays(start: int, frames: int, length: int) -> spec_fn(ScheduledEvent) -> bool {
    |e: ScheduledEvent| !is_due(e.fire_time(), start, frames, length)
}

/// Of the boundaries `waiting`, those delivered on frame `offset`, in the
/// order in which they waited.
pub open spec fn delivered(
    waiting: Seq<ScheduledEvent>,
    start: int,
    frames: int,
    length: int,
    offset: int,
) -> Seq<ScheduledEvent> {
    waiting.filter(fires_on(start, frames, length, offset))
}

/// Of the boundaries `waiting`, those still waiting after the block, in the
/// order in which they waited.
pub open spec fn retained(waiting: Seq<ScheduledEvent>, start: int, frames: int, length: int) -> Seq<
    ScheduledEvent,
> {
    waiting.filter(stays(start, frames, length))
}

/// What a frame's bucket held before a block was processed.
pub open spec fn bucket_of(buckets: Map<usize, Vec<ScheduledEvent>>, frame: usize) -> Seq<
    ScheduledEvent,
> {
    if buckets.contains_key(frame) {
        buckets[frame]@
    } else {
        Seq::empty()
    }
}

/// `after` is `before` with the boundaries of `waiting` that fire in the block
/// appended, each to the bucket of its frame. A bucket exists afterwards if it
/// existed before or received something.
pub open spec fn delivered_into(
    before: Map<usize, Vec<ScheduledEvent>>,
    after: Map<usize, Vec<ScheduledEvent>>,
    waiting: Seq<ScheduledEvent>,
    start: int,
    frames: int,
    length: int,
) -> bool {
    forall|frame: usize|
        {
            &&& #[trigger] after.contains_key(frame) <==> before.contains_key(frame) || delivered(
                waiting,
                start,
                frames,
                length,
                frame as int,
            ).len() > 0
            &&& bucket_of(after, frame) == bucket_of(before, frame) + delivered(
                waiting,
                start,
                frames,
                length,
                frame as int,
            )
        }
}

/// A due position first comes round on the frame that lies as far behind the
/// block's start as the position lies behind the start's position in the loop.
proof fn lemma_frame_of_due(time: int, start: int, frames: int, length: int)
    requires
        0 <= start < length,
        0 <= frames,
        is_due(time, start, frames, length),
    ensures
        frame_of(time, start, length) == if time >= start {
            time - start
        } else {
            time - start + length
        },
        0 <= frame_of(time, start, length) < frames,
{
    if time >= start {
        lemma_wrap_unique(time - start, length, 0, time - start);
    } else {
        lemma_wrap_unique(time - start, length, -1, time - start + length);
    }
}

/// The total number of samples in a run of blocks.
pub open spec fn span(blocks: Seq<nat>) -> nat
    decreases blocks.len(),
{
    if blocks.len() == 0 {
        0
    } else {
        blocks[0] + span(blocks.drop_first())
    }
}

/// In how many of the consecutive blocks `blocks`, the first of which begins
/// at transport position `at`, loop position `time` is due.
pub open spec fn firings(time: int, length: int, at: int, blocks: Seq<nat>) -> nat
    decreases blocks.len(),
{
    if blocks.len() == 0 {
        0
    } else {
        let here: nat = if is_due(time, wrap(at, length), blocks[0] as int, length) {
            1
        } else {
            0
        };
        here + firings(time, length, at + blocks[0], blocks.drop_first())
    }
}

/// The first transport position at or after `at` that falls on loop position
/// `time`.
pub open spec fn next_pass(time: int, length: int, at: int) -> int {
    at + frame_of(time, wrap(at, length), length)
}

/// A loop position is due in a block exactly if it comes round on one of the
/// block's frames, and the frame on which it is delivered is the one whose
/// position in the loop it is.
pub proof fn law_due_on_its_frame(time: int, start: int, frames: int, length: int)
    requires
        0 <= start < length,
        0 <= frames,
    ensures
        is_due(time, start, frames, length) <==> (0 <= time < length && frame_of(
            time,
            start,
            length,
        ) < frames),
        0 <= time < length ==> 0 <= frame_of(time, start, length) < length && wrap(
            start + frame_of(time, start, length),
            length,
        ) == time,
{
    if 0 <= time < length {
        if time >= start {
            lemma_wrap_unique(time - start, length, 0, time - start);
            lemma_wrap_unique(time, length, 0, time);
        } else {
            lemma_wrap_unique(time - start, length, -1, time - start + length);
            lemma_wrap_unique(time + length, length, 1, time);
        }
    }
}

/// Among any `length` consecutive transport positions exactly one falls on a
/// given loop position: the next pass.
pub proof fn law_one_pass_per_loop(time: int, length: int, at: int, position: int)
    requires
        0 < length,
        0 <= time < length,
    ensures
        at <= next_pass(time, length, at) < at + length,
        wrap(next_pass(time, length, at), length) == time,
        at <= position < at + length && wrap(position, length) == time ==> position == next_pass(
            time,
            length,
            at,
        ),
{
    let start = wrap(at, length);
    let turns = at / length;
    vstd::arithmetic::div_mod::lemma_fundamental_div_mod(at, length);
    vstd::arithmetic::div_mod::lemma_mod_bound(at, length);
    law_due_on_its_frame(time, start, 0, length);
    let frame = frame_of(time, start, length);
    // The pass lies `frame` samples behind `at`, and `start + frame` folds to `time`.
    let over = (start + frame) / length;
    vstd::arithmetic::div_mod::lemma_fundamental_div_mod(start + frame, length);
    assert(length * (turns + over) == length * turns + length * over) by (nonlinear_arith);
    lemma_wrap_unique(at + frame, length, turns + over, time);
    if at <= position < at + length && wrap(position, length) == time {
        let behind = position - at;
        let laps = position / length;
        vstd::arithmetic::div_mod::lemma_fundamental_div_mod(position, length);
        assert(length * (turns - laps) == length * turns - length * laps) by (nonlinear_arith);
        lemma_wrap_unique(time - start, length, turns - laps, behind);
    }
}

/// A loop position is due in the block that holds its next pass and in no
/// other: whatever the block's length, it is due exactly if the next pass at
/// or after the block's first sample comes before the block's end.
pub proof fn law_due_holds_next_pass(time: int, length: int, at: int, frames: int)
    requires
        0 < length,
        0 <= time < length,
        0 <= frames,
    ensures
        is_due(time, wrap(at, length), frames, length) <==> next_pass(time, length, at) < at
            + frames,
{
    vstd::arithmetic::div_mod::lemma_mod_bound(at, length);
    law_due_on_its_frame(time, wrap(at, length), frames, length);
}

proof fn lemma_firings_until(time: int, length: int, at: int, blocks: Seq<nat>)
    requires
        0 < length,
        0 <= time < length,
        span(blocks) <= length,
    ensures
        firings(time, length, at, blocks) == if next_pass(time, length, at) < at + span(blocks) {
            1nat
        } else {
            0nat
        },
    decreases blocks.len(),
{
    law_one_pass_per_loop(time, length, at, at);
    if blocks.len() > 0 {
        let first = blocks[0] as int;
        let pass = next_pass(time, length, at);
        law_due_holds_next_pass(time, length, at, first);
        lemma_firings_until(time, length, at + first, blocks.drop_first());
        if pass < at + first {
            vstd::arithmetic::div_mod::lemma_mod_add_multiples_vanish(pass, length);
            law_one_pass_per_loop(time, length, at + first, pass + length);
        } else {
            law_one_pass_per_loop(time, length, at + first, pass);
        }
    }
}

/// Blocks that tile one pass of the loop, wherever it begins and however it
/// is cut, see a given loop position due exactly once: a pattern event is
/// scheduled in one block of the pass, neither left out nor repeated.
pub proof fn law_fires_once_per_loop(time: int, length: int, at: int, blocks: Seq<nat>)
    requires
        0 < length,
        0 <= time < length,
        span(blocks) == length,
    ensures
        firings(time, length, at, blocks) == 1,
{
    lemma_firings_until(time, length, at, blocks);
    law_one_pass_per_loop(time, length, at, at);
}

proof fn lemma_filter_count<A>(s: Seq<A>, pred: spec_fn(A) -> bool, x: A)
    ensures
        s.filter(pred).to_multiset().count(x) == if pred(x) {
            s.to_multiset().count(x)
        } else {
            0
        },
    decreases s.len(),
{
    broadcast use vstd::multiset::group_multiset_axioms;

    if s.len() == 0 {
        reveal(Seq::filter);
        s.to_multiset_ensures();
        s.filter(pred).to_multiset_ensures();
        assert(s.to_multiset().len() == 0);
    } else {
        let front = s.drop_last();
        assert(s == front.push(s.last()));
        lemma_filter_count(front, pred, x);
        front.lemma_filter_push(s.last(), pred);
        vstd::seq_lib::to_multiset_build(front, s.last());
        if pred(s.last()) {
            vstd::seq_lib::to_multiset_build(front.filter(pred), s.last());
        }
    }
}

/// Processing a block neither loses nor repeats a waiting boundary: one that
/// is due leaves the waiting list and arrives, as often as it waited, in the
/// bucket of its frame and in no other; one that is not due waits on as often
/// as before and arrives nowhere.
pub proof fn law_waiting_conserved(
    waiting: Seq<ScheduledEvent>,
    start: int,
    frames: int,
    length: int,
    boundary: ScheduledEvent,
    frame: int,
)
    ensures
        retained(waiting, start, frames, length).to_multiset().count(boundary) == if is_due(
            boundary.fire_time(),
            start,
            frames,
            length,
        ) {
            0
        } else {
            waiting.to_multiset().count(boundary)
        },
        delivered(waiting, start, frames, length, frame).to_multiset().count(boundary) == if is_due(
            boundary.fire_time(),
            start,
            frames,
            length,
        ) && frame == frame_of(boundary.fire_time(), start, length) {
            waiting.to_multiset().count(boundary)
        } else {
            0
        },
{
    lemma_filter_count(waiting, stays(start, frames, length), boundary);
    lemma_filter_count(waiting, fires_on(start, frames, length, frame), boundary);
}

/// A boundary that is not due in one block and due in a later one is
/// delivered in the later block on the frame of its position in the loop,
/// exactly as often as it waited before the first block and was scheduled
/// since: it was neither dropped while it waited nor delivered twice.
pub proof fn law_late_boundary_arrives_once(
    waiting: Seq<ScheduledEvent>,
    since: Seq<ScheduledEvent>,
    boundary: ScheduledEvent,
    length: int,
    start: int,
    frames: int,
    later_start: int,
    later_frames: int,
)
    requires
        !is_due(boundary.fire_time(), start, frames, length),
        is_due(boundary.fire_time(), later_start, later_frames, length),
    ensures
        delivered(
            retained(waiting, start, frames, length) + since,
            later_start,
            later_frames,
            length,
            frame_of(boundary.fire_time(), later_start, length),
        ).to_multiset().count(boundary) == waiting.to_multiset().count(boundary)
            + since.to_multiset().count(boundary),
        retained(
            retained(waiting, start, frames, length) + since,
            later_start,
            later_frames,
            length,
        ).to_multiset().count(boundary) == 0,
{
    broadcast use vstd::multiset::group_multiset_axioms;

    let kept = retained(waiting, start, frames, length);
    law_waiting_conserved(waiting, start, frames, length, boundary, 0);
    law_waiting_conserved(
        kept + since,
        later_start,
        later_frames,
        length,
        boundary,
        frame_of(boundary.fire_time(), later_start, length),
    );
    vstd::seq_lib::lemma_multiset_commutative(kept, since);
}

proof fn lemma_scheduled_push(
    pattern: Seq<Event>,
    i: int,
    tempo: nat,
    sample_rate: nat,
    start: int,
    frames: int,
    length: int,
)
    requires
        0 <= i < pattern.len(),
    ensures
        scheduled(pattern.take(i + 1), tempo, sample_rate, start, frames, length) == scheduled(
            pattern.take(i),
            tempo,
            sample_rate,
            start,
            frames,
            length,
        ) + notes_of(pattern[i], tempo, sample_rate, start, frames, length),
{
    assert(pattern.take(i + 1).drop_last() =~= pattern.take(i));
}

struct Sequence {
    events: Vec<Event>,
    length: u32,
}

/// A looped pattern together with the note boundaries that have been
/// scheduled but have not fired yet.
pub struct Sequencer {
    sequence: Sequence,
    scheduled_events: Vec<ScheduledEvent>,
    sample_rate: u32,
}

impl Sequencer {
    /// The pattern's events in the order in which they were added.
    pub closed spec fn pattern(&self) -> Seq<Event> {
        self.sequence.events@
    }

    /// The boundaries scheduled by earlier blocks that have not fired yet.
    pub closed spec fn pending(&self) -> Seq<ScheduledEvent> {
        self.scheduled_events@
    }

    /// The loop length in ticks.
    pub closed spec fn loop_ticks(&self) -> u32 {
        self.sequence.length
    }

    /// The sample rate in samples per second.
    pub closed spec fn rate(&self) -> u32 {
        self.sample_rate
    }

    /// The loop length in samples at `tempo`.
    pub open spec fn loop_samples(&self, tempo: u32) -> int {
        beats_to_samples(self.loop_ticks() as nat, tempo as nat, self.rate() as nat)
    }

    /// An empty pattern that loops after `length` ticks.
    pub fn new(length: u32, sample_rate: u32) -> (sequencer: Self)
        ensures
            sequencer.pattern() == Seq::<Event>::empty(),
            sequencer.pending() == Seq::<ScheduledEvent>::empty(),
            sequencer.loop_ticks() == length,
            sequencer.rate() == sample_rate,
    {
        Sequencer {
            sequence: Sequence { events: Vec::new(), length },
            scheduled_events: Vec::new(),
            sample_rate,
        }
    }

    /// The pattern's events in the order in which they were added.
    pub fn events(&self) -> (events: &Vec<Event>)
        ensures
            events@ == self.pattern(),
    {
        &self.sequence.events
    }

    /// The boundaries that wait for their sample.
    pub fn pending_events(&self) -> (pending: &Vec<ScheduledEvent>)
        ensures
            pending@ == self.pending(),
    {
        &self.scheduled_events
    }

    /// The loop length in ticks.
    pub fn length(&self) -> (length: u32)
        ensures
            length == self.loop_ticks(),
    {
        self.sequence.length
    }

    /// The sample position at which a beat position falls at `tempo`.
    pub fn beat_to_sample(&self, beat_time: u32, tempo: u32) -> (samples: i32)
        ensures
            samples == beats_to_samples(beat_time as nat, tempo as nat, self.rate() as nat),
            0 <= samples <= MAX_SAMPLES,
    {
        ticks_to_samples(beat_time, tempo, self.sample_rate)
    }

    /// The beat position, in ticks, that a sample position has reached at
    /// `tempo`. Positions before the start count as the start.
    pub fn sample_to_beat(&self, sample_time: i64, tempo: u32) -> (ticks: u32)
        ensures
            ticks == samples_to_beats(
                if sample_time > 0 {
                    sample_time as nat
                } else {
                    0
                },
                tempo as nat,
                self.rate() as nat,
            ),
    {
        let samples: u128 = if sample_time > 0 {
            sample_time as u128
        } else {
            0
        };
        assert((samples as int) * (tempo as int) <= 0x7fff_ffff_ffff_ffff * 0xffff_ffff)
            by (nonlinear_arith)
            requires
                0 <= samples <= 0x7fff_ffff_ffff_ffff,
                0 <= tempo <= 0xffff_ffff,
        ;
        // the ticks of a beat, and sixty seconds in thousandths
        let numerator: u128 = samples * (tempo as u128) * 960;
        let denominator: u128 = (self.sample_rate as u128) * 60_000;
        if denominator == 0 {
            0
        } else {
            let quotient: u128 = numerator / denominator;
            if quotient > u32::MAX as u128 {
                u32::MAX
            } else {
                quotient as u32
            }
        }
    }

    /// The loop length in samples at `tempo`.
    pub fn length_in_samples(&self, tempo: u32) -> (length: i32)
        ensures
            length == self.loop_samples(tempo),
            0 <= length <= MAX_SAMPLES,
    {
        ticks_to_samples(self.sequence.length, tempo, self.sample_rate)
    }

    /// Where in the loop the transport position `sample_time` lies at
    /// `tempo`, in samples from the loop's start.
    pub fn loop_position(&self, sample_time: i64, tempo: u32) -> (position: i32)
        ensures
            position == wrap(sample_time as int, self.loop_samples(tempo)),
            0 <= position,
            self.loop_samples(tempo) > 0 ==> position < self.loop_samples(tempo),
    {
        let length = ticks_to_samples(self.sequence.length, tempo, self.sample_rate);
        fold_position(sample_time, length)
    }

    /// Appends an event to the pattern, its pitch and velocity limited to the
    /// seven-bit range.
    pub fn add_event(&mut self, event: Event)
        ensures
            final(self).pattern() == old(self).pattern().push(stored_event(event)),
            final(self).pending() == old(self).pending(),
            final(self).loop_ticks() == old(self).loop_ticks(),
            final(self).rate() == old(self).rate(),
    {
        let Event { beat_time, pitch, velocity, param1, param2, track, duration } = event;
        let stored = Event {
            beat_time,
            pitch: limit_midi(pitch),
            velocity: limit_midi(velocity),
            param1,
            param2,
            track,
            duration,
        };
        self.sequence.events.push(stored);
    }

    /// Empties the pattern. Boundaries that already wait stay, so that notes
    /// that sound are still released.
    pub fn clear(&mut self)
        ensures
            final(self).pattern() == Seq::<Event>::empty(),
            final(self).pending() == old(self).pending(),
            final(self).loop_ticks() == old(self).loop_ticks(),
            final(self).rate() == old(self).rate(),
    {
        self.sequence.events.clear();
    }
}

impl Sequencer {
    fn is_in_buffer(time: i32, buffer_start: i32, buffer_end: i64) -> (inside: bool)
        ensures
            inside == (buffer_start <= time < buffer_end),
    {
        time >= buffer_start && (time as i64) < buffer_end
    }

    fn loops_around(time: i32, buffer_end: i64, length: i32) -> (wrapped: bool)
        ensures
            wrapped == (buffer_end > length && time < buffer_end - length),
    {
        buffer_end > length as i64 && time as i64 + (length as i64) < buffer_end
    }

    fn due(time: i32, start: i32, frames: i32, length: i32) -> (due: bool)
        requires
            0 <= start,
            0 <= frames,
        ensures
            due == is_due(time as int, start as int, frames as int, length as int),
    {
        let buffer_end: i64 = start as i64 + frames as i64;
        0 <= time && time < length && (Self::is_in_buffer(time, start, buffer_end)
            || Self::loops_around(time, buffer_end, length))
    }

    /// Renders the schedule of one block: the `num_frames` samples that begin
    /// at transport position `sample_time`, at `tempo`.
    ///
    /// Every pattern event whose start is due in the block is scheduled, its
    /// NoteOn and its NoteOff joining the boundaries that already wait. Then
    /// every waiting boundary that fires in the block is appended to the
    /// bucket of its frame in `events` and waits no longer; the others wait
    /// on, in their order. A block of no frames and a loop of no length
    /// deliver nothing.
    pub fn process(
        &mut self,
        events: &mut HashMap<usize, Vec<ScheduledEvent>>,
        sample_time: i64,
        tempo: u32,
        num_frames: i32,
    )
        ensures
            final(self).pattern() == old(self).pattern(),
            final(self).loop_ticks() == old(self).loop_ticks(),
            final(self).rate() == old(self).rate(),
            ({
                let length = old(self).loop_samples(tempo);
                let start = wrap(sample_time as int, length);
                let frames = if num_frames > 0 {
                    num_frames as int
                } else {
                    0
                };
                let waiting = old(self).pending() + scheduled(
                    old(self).pattern(),
                    tempo as nat,
                    old(self).rate() as nat,
                    start,
                    frames,
                    length,
                );
                &&& final(self).pending() == retained(waiting, start, frames, length)
                &&& delivered_into(old(events)@, final(events)@, waiting, start, frames, length)
            }),
    {
        let length = ticks_to_samples(self.sequence.length, tempo, self.sample_rate);
        let start = fold_position(sample_time, length);
        let frames: i32 = if num_frames > 0 {
            num_frames
        } else {
            0
        };
        let ghost pattern = self.sequence.events@;
        let ghost earlier = self.scheduled_events@;
        let ghost rate = self.sample_rate as nat;

        let mut i: usize = 0;
        while i < self.sequence.events.len()
            invariant
                0 <= i <= pattern.len(),
                0 <= start,
                0 <= frames,
                0 <= length,
                self.sequence.events@ == pattern,
                self.sequence.length == old(self).sequence.length,
                self.sample_rate == rate,
                self.scheduled_events@ == earlier + scheduled(
                    pattern.take(i as int),
                    tempo as nat,
                    rate,
                    start as int,
                    frames as int,
                    length as int,
                ),
            decreases pattern.len() - i,
        {
            let on = ticks_to_samples(self.sequence.events[i].beat_time, tempo, self.sample_rate);
            let ghost before = self.scheduled_events@;
            proof {
                lemma_scheduled_push(
                    pattern,
                    i as int,
                    tempo as nat,
                    rate,
                    start as int,
                    frames as int,
                    length as int,
                );
            }
            if Self::due(on, start, frames, length) {
                let held = ticks_to_samples(
                    self.sequence.events[i].duration,
                    tempo,
                    self.sample_rate,
                );
                let off = fold_position(on as i64 + held as i64, length);
                let note_on = ScheduledEvent::NoteOn {
                    time: on,
                    pitch: self.sequence.events[i].pitch,
                    velocity: self.sequence.events[i].velocity,
                    track: self.sequence.events[i].track,
                };
                let note_off = ScheduledEvent::NoteOff {
                    time: off,
                    pitch: self.sequence.events[i].pitch,
                    track: self.sequence.events[i].track,
                };
                self.scheduled_events.push(note_on);
                self.scheduled_events.push(note_off);
                assert(self.scheduled_events@ =~= before + seq![note_on, note_off]);
                assert(seq![note_on, note_off] == notes_of(
                    pattern[i as int],
                    tempo as nat,
                    rate,
                    start as int,
                    frames as int,
                    length as int,
                ));
            }
            assert(self.scheduled_events@ =~= earlier + scheduled(
                pattern.take(i + 1),
                tempo as nat,
                rate,
                start as int,
                frames as int,
                length as int,
            ));
            i += 1;
        }
        assert(pattern.take(pattern.len() as int) == pattern);

        let ghost waiting = self.scheduled_events@;
        let ghost buckets = events@;
        let mut kept: Vec<ScheduledEvent> = Vec::new();
        let mut j: usize = 0;
        assert(waiting.take(0).filter(stays(start as int, frames as int, length as int))
            == Seq::<ScheduledEvent>::empty()) by {
            reveal(Seq::filter);
        }
        assert(delivered_into(
            buckets,
            events@,
            waiting.take(0),
            start as int,
            frames as int,
            length as int,
        )) by {
            reveal(Seq::filter);
        }
        while j < self.scheduled_events.len()
            invariant
                0 <= j <= waiting.len(),
                0 <= start,
                0 <= frames,
                0 <= length,
                length > 0 ==> start < length,
                self.scheduled_events@ == waiting,
                self.sequence.events@ == pattern,
                self.sequence.length == old(self).sequence.length,
                self.sample_rate == old(self).sample_rate,
                kept@ == retained(waiting.take(j as int), start as int, frames as int, length as int),
                delivered_into(
                    buckets,
                    events@,
                    waiting.take(j as int),
                    start as int,
                    frames as int,
                    length as int,
                ),
            decreases waiting.len() - j,
        {
            let event = self.scheduled_events[j];
            let time = event.time();
            let ghost sofar = waiting.take(j as int);
            let ghost prior = events@;
            assert(waiting.take(j + 1) == sofar.push(event));
            proof {
                sofar.lemma_filter_push(event, stays(start as int, frames as int, length as int));
            }
            if Self::due(time, start, frames, length) {
                let offset: i32 = if time >= start {
                    time - start
                } else {
                    time - start + length
                };
                proof {
                    lemma_frame_of_due(time as int, start as int, frames as int, length as int);
                }
                deliver(events, offset as usize, event);
            } else {
                kept.push(event);
            }
            assert(delivered_into(
                buckets,
                events@,
                waiting.take(j + 1),
                start as int,
                frames as int,
                length as int,
            )) by {
                assert forall|frame: usize|
                    {
                        &&& #[trigger] events@.contains_key(frame) <==> buckets.contains_key(frame)
                            || delivered(
                            waiting.take(j + 1),
                            start as int,
                            frames as int,
                            length as int,
                            frame as int,
                        ).len() > 0
                        &&& bucket_of(events@, frame) == bucket_of(buckets, frame) + delivered(
                            waiting.take(j + 1),
                            start as int,
                            frames as int,
                            length as int,
                            frame as int,
                        )
                    } by {
                    sofar.lemma_filter_push(
                        event,
                        fires_on(start as int, frames as int, length as int, frame as int),
                    );
                    assert(prior.contains_key(frame) <==> buckets.contains_key(frame) || delivered(
                        sofar,
                        start as int,
                        frames as int,
                        length as int,
                        frame as int,
                    ).len() > 0);
                }
            }
            j += 1;
        }
        assert(waiting.take(waiting.len() as int) == waiting);
        self.scheduled_events = kept;
    }
}

/// Appends `event` to the bucket of `frame`, which is made if it is not there.
fn deliver(events: &mut HashMap<usize, Vec<ScheduledEvent>>, frame: usize, event: ScheduledEvent)
    ensures
        forall|other: usize| #[trigger]
            final(events)@.contains_key(other) <==> old(events)@.contains_key(other) || other
                == frame,
        bucket_of(final(events)@, frame) == bucket_of(old(events)@, frame).push(event),
        forall|other: usize|
            other != frame ==> #[trigger] bucket_of(final(events)@, other) == bucket_of(
                old(events)@,
                other,
            ),
{
    let mut bucket = match events.remove(&frame) {
        Some(bucket) => bucket,
        None => Vec::new(),
    };
    bucket.push(event);
    events.insert(frame, bucket);
}

/// Folds a transport position into a loop of `length` samples.
fn fold_position(sample_time: i64, length: i32) -> (position: i32)
    requires
        0 <= length,
    ensures
        position == wrap(sample_time as int, length as int),
        0 <= position,
        length > 0 ==> position < length,
{
    if length <= 0 {
        0
    } else if sample_time >= 0 {
        (sample_time % (length as i64)) as i32
    } else {
        let behind: i64 = (-(sample_time + 1)) % (length as i64);
        proof {
            let passed = -(sample_time + 1);
            let turns = passed / (length as int);
            vstd::arithmetic::div_mod::lemma_fundamental_div_mod(passed, length as int);
            assert((length as int) * (-turns - 1) == -((length as int) * turns) - length)
                by (nonlinear_arith);
            lemma_wrap_unique(sample_time as int, length as int, -turns - 1, length - 1 - behind);
        }
        (length as i64 - 1 - behind) as i32
    }
}

} // verus!
