//! What a run of consecutive blocks does to a pattern and to the boundaries
//! that wait, and in particular what one pass of the loop does: every note of
//! the pattern is scheduled once, every boundary that waited is delivered,
//! and nothing is lost or doubled on the way.
//!
//! The run is described with the same functions that describe what the
//! sequencer does in one block, so that the blocks of a run are the
//! sequencer's calls in a row at one tempo.

use crate::cycle::wrap;
use crate::sequencer::{
    beats_to_samples, delivered, firings, frame_of, is_due, law_due_holds_next_pass,
    law_fires_once_per_loop, law_one_pass_per_loop, law_waiting_conserved, next_pass, notes_of,
    retained, scheduled, span, Event, ScheduledEvent,
};
use vstd::prelude::*;

verus! {

/// How often a boundary occurs in a list.
pub open spec fn occurrences(list: Seq<ScheduledEvent>, boundary: ScheduledEvent) -> nat {
    list.to_multiset().count(boundary)
}

/// The boundaries that wait in a block of `frames` samples at transport
/// position `at`, once the block's pattern events have been scheduled.
pub open spec fn waiting_in(
    pending: Seq<ScheduledEvent>,
    pattern: Seq<Event>,
    tempo: nat,
    rate: nat,
    length: int,
    at: int,
    frames: nat,
) -> Seq<ScheduledEvent> {
    pending + scheduled(pattern, tempo, rate, wrap(at, length), frames as int, length)
}

/// The boundaries that wait on after a block.
pub open spec fn left_by(
    pending: Seq<ScheduledEvent>,
    pattern: Seq<Event>,
    tempo: nat,
    rate: nat,
    length: int,
    at: int,
    frames: nat,
) -> Seq<ScheduledEvent> {
    retained(
        waiting_in(pending, pattern, tempo, rate, length, at, frames),
        wrap(at, length),
        frames as int,
        length,
    )
}

/// The boundaries that wait on after the consecutive blocks `blocks`, the
/// first of which begins at transport position `at`.
pub open spec fn left_after(
    pending: Seq<ScheduledEvent>,
    pattern: Seq<Event>,
    tempo: nat,
    rate: nat,
    length: int,
    at: int,
    blocks: Seq<nat>,
) -> Seq<ScheduledEvent>
    decreases blocks.len(),
{
    if blocks.len() == 0 {
        pending
    } else {
        left_after(
            left_by(pending, pattern, tempo, rate, length, at, blocks[0]),
            pattern,
            tempo,
            rate,
            length,
            at + blocks[0],
            blocks.drop_first(),
        )
    }
}

/// How often `boundary` is delivered during the blocks: block by block, how
/// often it arrives in the bucket of its frame.
pub open spec fn sent_during(
    pending: Seq<ScheduledEvent>,
    pattern: Seq<Event>,
    tempo: nat,
    rate: nat,
    length: int,
    at: int,
    blocks: Seq<nat>,
    boundary: ScheduledEvent,
) -> nat
    decreases blocks.len(),
{
    if blocks.len() == 0 {
        0
    } else {
        let start = wrap(at, length);
        occurrences(
            delivered(
                waiting_in(pending, pattern, tempo, rate, length, at, blocks[0]),
                start,
                blocks[0] as int,
                length,
                frame_of(boundary.fire_time(), start, length),
            ),
            boundary,
        ) + sent_during(
            left_by(pending, pattern, tempo, rate, length, at, blocks[0]),
            pattern,
            tempo,
            rate,
            length,
            at + blocks[0],
            blocks.drop_first(),
            boundary,
        )
    }
}

/// How often `boundary` is scheduled during the blocks.
pub open spec fn scheduled_during(
    pattern: Seq<Event>,
    tempo: nat,
    rate: nat,
    length: int,
    at: int,
    blocks: Seq<nat>,
    boundary: ScheduledEvent,
) -> nat
    decreases blocks.len(),
{
    if blocks.len() == 0 {
        0
    } else {
        occurrences(
            scheduled(pattern, tempo, rate, wrap(at, length), blocks[0] as int, length),
            boundary,
        ) + scheduled_during(
            pattern,
            tempo,
            rate,
            length,
            at + blocks[0],
            blocks.drop_first(),
            boundary,
        )
    }
}

/// The boundaries of all notes of the pattern that begin inside the loop:
/// what a block that covers the loop from its start to its end schedules.
pub open spec fn all_notes(pattern: Seq<Event>, tempo: nat, rate: nat, length: int) -> Seq<
    ScheduledEvent,
> {
    scheduled(pattern, tempo, rate, 0, length, length)
}

proof fn lemma_occurrences_add(
    one: Seq<ScheduledEvent>,
    other: Seq<ScheduledEvent>,
    boundary: ScheduledEvent,
)
    ensures
        occurrences(one + other, boundary) == occurrences(one, boundary) + occurrences(
            other,
            boundary,
        ),
{
    broadcast use vstd::multiset::group_multiset_axioms;

    vstd::seq_lib::lemma_multiset_commutative(one, other);
}

proof fn lemma_occurrences_none(boundary: ScheduledEvent)
    ensures
        occurrences(Seq::<ScheduledEvent>::empty(), boundary) == 0,
{
    vstd::seq_lib::to_multiset_contains(Seq::<ScheduledEvent>::empty(), boundary);
}

proof fn lemma_samples_in_range(ticks: nat, tempo: nat, rate: nat)
    ensures
        0 <= beats_to_samples(ticks, tempo, rate) <= 0x7fff_ffff,
{
    let numerator = ticks * rate * 60 * 1000;
    let denominator = 960 * tempo;
    if denominator != 0 {
        assert(0 <= numerator) by (nonlinear_arith)
            requires
                numerator == ticks * rate * 60 * 1000,
        ;
        vstd::arithmetic::div_mod::lemma_div_pos_is_pos(numerator as int, denominator as int);
    }
}

/// The notes of an event are the same in every block in which its start is
/// due: those it has in the loop.
proof fn lemma_notes_in_block(
    event: Event,
    tempo: nat,
    rate: nat,
    length: int,
    start: int,
    frames: int,
)
    ensures
        notes_of(event, tempo, rate, start, frames, length) == if is_due(
            beats_to_samples(event.beat_time as nat, tempo, rate),
            start,
            frames,
            length,
        ) {
            notes_of(event, tempo, rate, 0, length, length)
        } else {
            Seq::empty()
        },
{
}

/// A NoteOn is scheduled only in a block in which it is due.
proof fn lemma_scheduled_note_on_is_due(
    pattern: Seq<Event>,
    tempo: nat,
    rate: nat,
    length: int,
    start: int,
    frames: int,
    note_on: ScheduledEvent,
)
    requires
        note_on is NoteOn,
        occurrences(scheduled(pattern, tempo, rate, start, frames, length), note_on) > 0,
    ensures
        is_due(note_on.fire_time(), start, frames, length),
    decreases pattern.len(),
{
    if pattern.len() == 0 {
        lemma_occurrences_none(note_on);
    } else {
        let earlier = scheduled(pattern.drop_last(), tempo, rate, start, frames, length);
        let notes = notes_of(pattern.last(), tempo, rate, start, frames, length);
        lemma_occurrences_add(earlier, notes, note_on);
        if occurrences(earlier, note_on) > 0 {
            lemma_scheduled_note_on_is_due(
                pattern.drop_last(),
                tempo,
                rate,
                length,
                start,
                frames,
                note_on,
            );
        } else {
            vstd::seq_lib::to_multiset_contains(notes, note_on);
            lemma_samples_in_range(pattern.last().beat_time as nat, tempo, rate);
            let found = choose|i: int| 0 <= i < notes.len() && notes[i] == note_on;
            assert(notes[found] == note_on);
        }
    }
}

/// Nothing is lost and nothing doubled in a run of blocks: as often as a
/// boundary waited before the run or was scheduled during it, so often it was
/// delivered during the run or waits after it.
pub proof fn law_run_conserves(
    pending: Seq<ScheduledEvent>,
    pattern: Seq<Event>,
    tempo: nat,
    rate: nat,
    length: int,
    at: int,
    blocks: Seq<nat>,
    boundary: ScheduledEvent,
)
    ensures
        sent_during(pending, pattern, tempo, rate, length, at, blocks, boundary) + occurrences(
            left_after(pending, pattern, tempo, rate, length, at, blocks),
            boundary,
        ) == occurrences(pending, boundary) + scheduled_during(
            pattern,
            tempo,
            rate,
            length,
            at,
            blocks,
            boundary,
        ),
    decreases blocks.len(),
{
    if blocks.len() > 0 {
        let start = wrap(at, length);
        let frames = blocks[0] as int;
        let waiting = waiting_in(pending, pattern, tempo, rate, length, at, blocks[0]);
        lemma_occurrences_add(
            pending,
            scheduled(pattern, tempo, rate, start, frames, length),
            boundary,
        );
        law_waiting_conserved(
            waiting,
            start,
            frames,
            length,
            boundary,
            frame_of(boundary.fire_time(), start, length),
        );
        law_run_conserves(
            left_by(pending, pattern, tempo, rate, length, at, blocks[0]),
            pattern,
            tempo,
            rate,
            length,
            at + blocks[0],
            blocks.drop_first(),
            boundary,
        );
    }
}

/// How often the blocks schedule `boundary` for one event.
spec fn noted_during(
    event: Event,
    tempo: nat,
    rate: nat,
    length: int,
    at: int,
    blocks: Seq<nat>,
    boundary: ScheduledEvent,
) -> nat
    decreases blocks.len(),
{
    if blocks.len() == 0 {
        0
    } else {
        occurrences(
            notes_of(event, tempo, rate, wrap(at, length), blocks[0] as int, length),
            boundary,
        ) + noted_during(event, tempo, rate, length, at + blocks[0], blocks.drop_first(), boundary)
    }
}

proof fn lemma_scheduled_during_splits(
    pattern: Seq<Event>,
    tempo: nat,
    rate: nat,
    length: int,
    at: int,
    blocks: Seq<nat>,
    boundary: ScheduledEvent,
)
    requires
        pattern.len() > 0,
    ensures
        scheduled_during(pattern, tempo, rate, length, at, blocks, boundary) == scheduled_during(
            pattern.drop_last(),
            tempo,
            rate,
            length,
            at,
            blocks,
            boundary,
        ) + noted_during(pattern.last(), tempo, rate, length, at, blocks, boundary),
    decreases blocks.len(),
{
    if blocks.len() > 0 {
        let start = wrap(at, length);
        let frames = blocks[0] as int;
        lemma_occurrences_add(
            scheduled(pattern.drop_last(), tempo, rate, start, frames, length),
            notes_of(pattern.last(), tempo, rate, start, frames, length),
            boundary,
        );
        lemma_scheduled_during_splits(
            pattern,
            tempo,
            rate,
            length,
            at + blocks[0],
            blocks.drop_first(),
            boundary,
        );
    }
}

proof fn lemma_scheduled_during_nothing(
    tempo: nat,
    rate: nat,
    length: int,
    at: int,
    blocks: Seq<nat>,
    boundary: ScheduledEvent,
)
    ensures
        scheduled_during(Seq::<Event>::empty(), tempo, rate, length, at, blocks, boundary) == 0,
    decreases blocks.len(),
{
    if blocks.len() > 0 {
        lemma_occurrences_none(boundary);
        lemma_scheduled_during_nothing(
            tempo,
            rate,
            length,
            at + blocks[0],
            blocks.drop_first(),
            boundary,
        );
    }
}

/// The blocks schedule the notes of an event as often as its start is due
/// in them.
proof fn lemma_noted_as_often_as_due(
    event: Event,
    tempo: nat,
    rate: nat,
    length: int,
    at: int,
    blocks: Seq<nat>,
    boundary: ScheduledEvent,
)
    ensures
        noted_during(event, tempo, rate, length, at, blocks, boundary) == firings(
            beats_to_samples(event.beat_time as nat, tempo, rate),
            length,
            at,
            blocks,
        ) * occurrences(notes_of(event, tempo, rate, 0, length, length), boundary),
    decreases blocks.len(),
{
    let on = beats_to_samples(event.beat_time as nat, tempo, rate);
    let each = occurrences(notes_of(event, tempo, rate, 0, length, length), boundary);
    if blocks.len() == 0 {
        assert(0 * each == 0) by (nonlinear_arith);
    } else {
        let start = wrap(at, length);
        let frames = blocks[0] as int;
        let later = firings(on, length, at + blocks[0], blocks.drop_first());
        lemma_notes_in_block(event, tempo, rate, length, start, frames);
        lemma_occurrences_none(boundary);
        lemma_noted_as_often_as_due(
            event,
            tempo,
            rate,
            length,
            at + blocks[0],
            blocks.drop_first(),
            boundary,
        );
        if is_due(on, start, frames, length) {
            assert((1 + later) * each == each + later * each) by (nonlinear_arith);
        } else {
            assert((0 + later) * each == later * each) by (nonlinear_arith);
        }
    }
}

/// Blocks that tile one pass of the loop schedule the boundaries of every
/// note of the pattern that begins inside the loop exactly once, however the
/// pass is cut and wherever it begins.
pub proof fn law_pass_schedules_pattern_once(
    pattern: Seq<Event>,
    tempo: nat,
    rate: nat,
    length: int,
    at: int,
    blocks: Seq<nat>,
    boundary: ScheduledEvent,
)
    requires
        0 < length,
        span(blocks) == length,
    ensures
        scheduled_during(pattern, tempo, rate, length, at, blocks, boundary) == occurrences(
            all_notes(pattern, tempo, rate, length),
            boundary,
        ),
    decreases pattern.len(),
{
    if pattern.len() == 0 {
        lemma_scheduled_during_nothing(tempo, rate, length, at, blocks, boundary);
        lemma_occurrences_none(boundary);
        assert(pattern == Seq::<Event>::empty());
        assert(all_notes(pattern, tempo, rate, length) == Seq::<ScheduledEvent>::empty());
    } else {
        let event = pattern.last();
        let on = beats_to_samples(event.beat_time as nat, tempo, rate);
        let each = occurrences(notes_of(event, tempo, rate, 0, length, length), boundary);
        law_pass_schedules_pattern_once(
            pattern.drop_last(),
            tempo,
            rate,
            length,
            at,
            blocks,
            boundary,
        );
        lemma_scheduled_during_splits(pattern, tempo, rate, length, at, blocks, boundary);
        lemma_noted_as_often_as_due(event, tempo, rate, length, at, blocks, boundary);
        lemma_occurrences_add(
            all_notes(pattern.drop_last(), tempo, rate, length),
            notes_of(event, tempo, rate, 0, length, length),
            boundary,
        );
        let times = firings(on, length, at, blocks);
        if 0 <= on < length {
            law_fires_once_per_loop(on, length, at, blocks);
        } else {
            lemma_occurrences_none(boundary);
        }
        assert(times * each == each) by (nonlinear_arith)
            requires
                times == 1 || each == 0,
        ;
        assert(all_notes(pattern, tempo, rate, length) == all_notes(
            pattern.drop_last(),
            tempo,
            rate,
            length,
        ) + notes_of(event, tempo, rate, 0, length, length));
    }
}

/// A boundary whose position in the loop comes round within a run of blocks
/// does not wait beyond the run unless the run itself scheduled it.
proof fn lemma_sent_when_it_comes_round(
    pending: Seq<ScheduledEvent>,
    pattern: Seq<Event>,
    tempo: nat,
    rate: nat,
    length: int,
    at: int,
    blocks: Seq<nat>,
    boundary: ScheduledEvent,
)
    requires
        0 < length,
        0 <= boundary.fire_time() < length,
        next_pass(boundary.fire_time(), length, at) < at + span(blocks),
    ensures
        occurrences(left_after(pending, pattern, tempo, rate, length, at, blocks), boundary)
            <= scheduled_during(pattern, tempo, rate, length, at, blocks, boundary),
    decreases blocks.len(),
{
    let time = boundary.fire_time();
    law_one_pass_per_loop(time, length, at, at);
    if blocks.len() > 0 {
        let start = wrap(at, length);
        let frames = blocks[0] as int;
        let waiting = waiting_in(pending, pattern, tempo, rate, length, at, blocks[0]);
        let left = left_by(pending, pattern, tempo, rate, length, at, blocks[0]);
        law_due_holds_next_pass(time, length, at, frames);
        if is_due(time, start, frames, length) {
            law_waiting_conserved(waiting, start, frames, length, boundary, 0);
            law_run_conserves(
                left,
                pattern,
                tempo,
                rate,
                length,
                at + blocks[0],
                blocks.drop_first(),
                boundary,
            );
        } else {
            law_one_pass_per_loop(time, length, at + blocks[0], next_pass(time, length, at));
            lemma_sent_when_it_comes_round(
                left,
                pattern,
                tempo,
                rate,
                length,
                at + blocks[0],
                blocks.drop_first(),
                boundary,
            );
        }
    }
}

/// Over one pass of the loop every boundary that waited before the pass is
/// delivered, and of the boundaries that the pass schedules each is either
/// delivered in the pass or waits for the next one: as often as a boundary
/// waited or is a boundary of the pattern, so often it is delivered or waits.
pub proof fn law_pass_delivers_what_waited(
    pending: Seq<ScheduledEvent>,
    pattern: Seq<Event>,
    tempo: nat,
    rate: nat,
    length: int,
    at: int,
    blocks: Seq<nat>,
    boundary: ScheduledEvent,
)
    requires
        0 < length,
        span(blocks) == length,
        0 <= boundary.fire_time() < length,
    ensures
        sent_during(pending, pattern, tempo, rate, length, at, blocks, boundary) >= occurrences(
            pending,
            boundary,
        ),
        sent_during(pending, pattern, tempo, rate, length, at, blocks, boundary) + occurrences(
            left_after(pending, pattern, tempo, rate, length, at, blocks),
            boundary,
        ) == occurrences(pending, boundary) + occurrences(
            all_notes(pattern, tempo, rate, length),
            boundary,
        ),
{
    law_one_pass_per_loop(boundary.fire_time(), length, at, at);
    lemma_sent_when_it_comes_round(pending, pattern, tempo, rate, length, at, blocks, boundary);
    law_run_conserves(pending, pattern, tempo, rate, length, at, blocks, boundary);
    law_pass_schedules_pattern_once(pattern, tempo, rate, length, at, blocks, boundary);
}

/// A NoteOn never waits from one block to the next: where none waited before
/// a run of blocks, none waits after it, and the run delivers each as often
/// as it schedules it.
pub proof fn law_note_on_never_waits(
    pending: Seq<ScheduledEvent>,
    pattern: Seq<Event>,
    tempo: nat,
    rate: nat,
    length: int,
    at: int,
    blocks: Seq<nat>,
    note_on: ScheduledEvent,
)
    requires
        note_on is NoteOn,
        occurrences(pending, note_on) == 0,
    ensures
        occurrences(left_after(pending, pattern, tempo, rate, length, at, blocks), note_on) == 0,
        sent_during(pending, pattern, tempo, rate, length, at, blocks, note_on)
            == scheduled_during(pattern, tempo, rate, length, at, blocks, note_on),
    decreases blocks.len(),
{
    law_run_conserves(pending, pattern, tempo, rate, length, at, blocks, note_on);
    if blocks.len() > 0 {
        let start = wrap(at, length);
        let frames = blocks[0] as int;
        let new = scheduled(pattern, tempo, rate, start, frames, length);
        let waiting = waiting_in(pending, pattern, tempo, rate, length, at, blocks[0]);
        lemma_occurrences_add(pending, new, note_on);
        law_waiting_conserved(waiting, start, frames, length, note_on, 0);
        if occurrences(new, note_on) > 0 {
            lemma_scheduled_note_on_is_due(pattern, tempo, rate, length, start, frames, note_on);
        }
        law_note_on_never_waits(
            left_by(pending, pattern, tempo, rate, length, at, blocks[0]),
            pattern,
            tempo,
            rate,
            length,
            at + blocks[0],
            blocks.drop_first(),
            note_on,
        );
    }
}

/// One pass of the loop, cut into blocks in any way and begun anywhere,
/// delivers the NoteOn of every note of the pattern that begins inside the
/// loop exactly once: none is left out and none comes twice.
pub proof fn law_pass_plays_every_note_once(
    pending: Seq<ScheduledEvent>,
    pattern: Seq<Event>,
    tempo: nat,
    rate: nat,
    length: int,
    at: int,
    blocks: Seq<nat>,
    note_on: ScheduledEvent,
)
    requires
        0 < length,
        span(blocks) == length,
        note_on is NoteOn,
        occurrences(pending, note_on) == 0,
    ensures
        sent_during(pending, pattern, tempo, rate, length, at, blocks, note_on) == occurrences(
            all_notes(pattern, tempo, rate, length),
            note_on,
        ),
{
    law_note_on_never_waits(pending, pattern, tempo, rate, length, at, blocks, note_on);
    law_pass_schedules_pattern_once(pattern, tempo, rate, length, at, blocks, note_on);
}

} // verus!
