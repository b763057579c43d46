//! The render loop's control side: control messages are drained and applied,
//! the sequencer is asked for the block's note boundaries, and frame by frame
//! the boundaries are dispatched to the voices and the voices that sound are
//! advanced. What comes out is the plan of the block: for every frame the
//! notes to announce and the levels of the sounding voices.

use crate::plaits_voice::{FmVoice, VoiceLevels, VoiceView};
use crate::sequencer::{
    bucket_of, clamp_midi, delivered_into, limit_midi, retained, scheduled, stored_event, Event,
    Message, ScheduledEvent, Sequencer,
};
use crate::cycle::wrap;
use crossbeam::channel::{Receiver, TryRecvError};
use std::collections::HashMap;
use vstd::prelude::*;

verus! {

broadcast use vstd::std_specs::hash::group_hash_axioms;

/// The number of voices, one for each track.
pub const TRACK_COUNT: usize = 16;

/// The loop length of a new engine: four beats.
pub const DEFAULT_LOOP_TICKS: u32 = 3840;

/// The most control messages that one drain takes, so that a block's work
/// has a bound however fast the senders are. What is left waits for the next
/// block.
pub const DRAIN_LIMIT: usize = 4096;

/// `crossbeam::channel::Receiver`: the receiving end of a channel. It is
/// held and handed to the call below; nothing is known of what it holds.
#[verifier::external_type_specification]
#[verifier::external_body]
#[verifier::reject_recursive_types(T)]
pub struct ExReceiver<T>(Receiver<T>);

/// `crossbeam::channel::TryRecvError`: why nothing was received. Whatever
/// the reason, the drain ends.
#[verifier::external_type_specification]
#[verifier::external_body]
pub struct ExTryRecvError(TryRecvError);

/// `crossbeam::channel::Receiver::try_recv`: takes one message off the
/// channel without blocking, or fails where none is there. What arrives is the
/// senders' business, so nothing is claimed of it.
#[verifier::external_body]
fn try_receive(rx: &Receiver<Message>) -> (received: Result<Message, TryRecvError>) {
    rx.try_recv()
}

/// A note that began or ended, for whoever observes the engine.
#[derive(Clone, Copy, Debug, PartialEq, Eq, Structural)]
pub struct NotePlayed {
    pub note_on: bool,
    pub pitch: u8,
    pub track: u8,
}

/// One frame of a block's plan: the notes that begin or end on it, in the
/// order of their delivery, and for every voice its levels if it sounds.
#[derive(Debug)]
pub struct Frame {
    pub notes: Vec<NotePlayed>,
    pub levels: Vec<Option<VoiceLevels>>,
}

/// The plan of one block: the control messages that were applied before it,
/// the note boundaries by frame, and the frames.
#[derive(Debug)]
pub struct Block {
    pub messages: Vec<Message>,
    pub events: HashMap<usize, Vec<ScheduledEvent>>,
    pub frames: Vec<Frame>,
}

/// The voice that plays a track: its own, or the last one for a track beyond
/// the last.
pub open spec fn voice_of(track: u8) -> int {
    if track >= TRACK_COUNT {
        TRACK_COUNT - 1
    } else {
        track as int
    }
}

/// What a boundary announces.
pub open spec fn note_of(event: ScheduledEvent) -> NotePlayed {
    match event {
        ScheduledEvent::NoteOn { pitch, track, .. } => NotePlayed { note_on: true, pitch, track },
        ScheduledEvent::NoteOff { pitch, track, .. } => NotePlayed { note_on: false, pitch, track },
    }
}

/// What a control message announces: a note played at once is announced
/// with pitch zero, the other messages are silent.
pub open spec fn notice_of(message: Message) -> Option<NotePlayed> {
    match message {
        Message::NoteOn { track, .. } => Some(NotePlayed { note_on: true, pitch: 0, track }),
        _ => None,
    }
}

/// The voices once the boundaries `events` have been dispatched in order:
/// every NoteOn triggers the voice of its track at its velocity, a NoteOff
/// leaves the voices as they are.
pub open spec fn dispatched(voices: Seq<VoiceView>, events: Seq<ScheduledEvent>) -> Seq<VoiceView>
    decreases events.len(),
{
    if events.len() == 0 {
        voices
    } else {
        let before = dispatched(voices, events.drop_last());
        match events.last() {
            ScheduledEvent::NoteOn { velocity, track, .. } => before.update(
                voice_of(track),
                before[voice_of(track)].triggered(velocity),
            ),
            ScheduledEvent::NoteOff { .. } => before,
        }
    }
}

/// For every voice the levels of its next step if it sounds.
pub open spec fn sounding(voices: Seq<VoiceView>) -> Seq<Option<VoiceLevels>> {
    Seq::new(
        voices.len(),
        |i: int|
            if voices[i].is_active() {
                Some(voices[i].output())
            } else {
                None
            },
    )
}

/// The voices after one frame: those that sound have taken a step.
pub open spec fn advanced(voices: Seq<VoiceView>) -> Seq<VoiceView> {
    Seq::new(
        voices.len(),
        |i: int|
            if voices[i].is_active() {
                voices[i].step()
            } else {
                voices[i]
            },
    )
}

/// The voices at the start of frame `frames` of a block whose boundaries are
/// `buckets`: frame by frame the boundaries were dispatched and the sounding
/// voices advanced.
pub open spec fn voices_at(
    voices: Seq<VoiceView>,
    buckets: Map<usize, Vec<ScheduledEvent>>,
    frames: nat,
) -> Seq<VoiceView>
    decreases frames,
{
    if frames == 0 {
        voices
    } else {
        let frame = (frames - 1) as nat;
        advanced(dispatched(voices_at(voices, buckets, frame), bucket_of(buckets, frame as usize)))
    }
}

/// What the boundaries announce, one by one.
pub open spec fn announced(events: Seq<ScheduledEvent>) -> Seq<NotePlayed> {
    events.map_values(|e: ScheduledEvent| note_of(e))
}

/// Frame number `frame` of the plan is what the boundaries in its bucket and
/// the voices at its start make it.
pub open spec fn frame_planned(
    planned: Frame,
    voices: Seq<VoiceView>,
    buckets: Map<usize, Vec<ScheduledEvent>>,
    frame: nat,
) -> bool {
    let events = bucket_of(buckets, frame as usize);
    &&& planned.notes@ == announced(events)
    &&& planned.levels@ == sounding(dispatched(voices_at(voices, buckets, frame), events))
}

/// What an engine is, apart from how it is stored.
pub struct EngineView {
    pub playing: bool,
    pub pattern: Seq<Event>,
    pub pending: Seq<ScheduledEvent>,
    pub loop_ticks: u32,
    pub rate: u32,
    pub voices: Seq<VoiceView>,
}

impl EngineView {
    /// The engine once a control message has been applied: an event joins
    /// the pattern, a parameter of a track's voice is set, a track's voice is
    /// triggered, or the pattern is cleared.
    pub open spec fn applied(self, message: Message) -> EngineView {
        match message {
            Message::Schedule(event) => EngineView {
                pattern: self.pattern.push(stored_event(event)),
                ..self
            },
            Message::ParameterChange(parameter, value, track) => EngineView {
                voices: self.voices.update(
                    voice_of(track),
                    self.voices[voice_of(track)].with_parameter(parameter, value),
                ),
                ..self
            },
            Message::NoteOn { track, velocity } => EngineView {
                voices: self.voices.update(
                    voice_of(track),
                    self.voices[voice_of(track)].triggered(velocity),
                ),
                ..self
            },
            Message::Clear => EngineView { pattern: Seq::empty(), ..self },
        }
    }

    /// The engine once the control messages have been applied in order.
    pub open spec fn applied_all(self, messages: Seq<Message>) -> EngineView
        decreases messages.len(),
    {
        if messages.len() == 0 {
            self
        } else {
            self.applied_all(messages.drop_last()).applied(messages.last())
        }
    }

    /// The loop length in samples at `tempo`.
    pub open spec fn loop_samples(self, tempo: u32) -> int {
        crate::sequencer::beats_to_samples(self.loop_ticks as nat, tempo as nat, self.rate as nat)
    }

    /// The boundaries that wait once the block's pattern events have been
    /// scheduled.
    pub open spec fn waiting(self, sample_time: i64, tempo: u32, frames: int) -> Seq<
        ScheduledEvent,
    > {
        let length = self.loop_samples(tempo);
        self.pending + scheduled(
            self.pattern,
            tempo as nat,
            self.rate as nat,
            wrap(sample_time as int, length),
            frames,
            length,
        )
    }
}

/// Control messages touch the pattern and the voices and nothing else:
/// whether the engine plays, what waits, the loop's length and the sample
/// rate are as before, and sixteen voices stay sixteen.
pub proof fn law_messages_keep_transport(engine: EngineView, messages: Seq<Message>)
    ensures
        engine.applied_all(messages).playing == engine.playing,
        engine.applied_all(messages).pending == engine.pending,
        engine.applied_all(messages).loop_ticks == engine.loop_ticks,
        engine.applied_all(messages).rate == engine.rate,
        engine.voices.len() == TRACK_COUNT ==> engine.applied_all(messages).voices.len()
            == TRACK_COUNT,
    decreases messages.len(),
{
    if messages.len() > 0 {
        law_messages_keep_transport(engine, messages.drop_last());
    }
}

/// The number of frames that a block of `num_frames` has: none if the
/// number is negative.
pub open spec fn frame_count(num_frames: i32) -> int {
    if num_frames > 0 {
        num_frames as int
    } else {
        0
    }
}

/// The control side of the render loop.
pub struct Engine {
    pub is_playing: bool,
    sequencer: Sequencer,
    voices: Vec<FmVoice>,
    rx: Receiver<Message>,
}

impl View for Engine {
    type V = EngineView;

    closed spec fn view(&self) -> EngineView {
        EngineView {
            playing: self.is_playing,
            pattern: self.sequencer.pattern(),
            pending: self.sequencer.pending(),
            loop_ticks: self.sequencer.loop_ticks(),
            rate: self.sequencer.rate(),
            voices: views(self.voices@),
        }
    }
}

/// The views of a pool of voices.
pub open spec fn views(voices: Seq<FmVoice>) -> Seq<VoiceView> {
    Seq::new(voices.len(), |i: int| voices[i]@)
}

fn voice_index(track: u8) -> (index: usize)
    ensures
        index == voice_of(track),
        index < TRACK_COUNT,
{
    if track as usize >= TRACK_COUNT {
        TRACK_COUNT - 1
    } else {
        track as usize
    }
}

impl Engine {
    /// The engine has its sixteen voices. Every engine that this module
    /// hands out is well formed.
    pub open spec fn wf(&self) -> bool {
        self@.voices.len() == TRACK_COUNT
    }

    /// Whether the engine plays its pattern.
    pub fn is_playing(&self) -> (playing: bool)
        ensures
            playing == self@.playing,
    {
        self.is_playing
    }

    /// Starts or stops the playing of the pattern. Nothing else changes:
    /// what waits keeps waiting and the voices run on.
    pub fn set_playing(&mut self, playing: bool)
        ensures
            final(self)@ == (EngineView { playing, ..old(self)@ }),
    {
        self.is_playing = playing;
    }

    /// The number of voices: one for each track.
    pub fn voice_count(&self) -> (count: usize)
        requires
            self.wf(),
        ensures
            count == self@.voices.len(),
            count == TRACK_COUNT,
    {
        self.voices.len()
    }

    /// An engine that is stopped, with an empty pattern of four beats and
    /// voices at rest, fed by `rx`.
    pub fn new(rx: Receiver<Message>, sample_rate: u32) -> (engine: Self)
        ensures
            engine.wf(),
            !engine@.playing,
            engine@.pattern == Seq::<Event>::empty(),
            engine@.pending == Seq::<ScheduledEvent>::empty(),
            engine@.loop_ticks == DEFAULT_LOOP_TICKS,
            engine@.rate == sample_rate,
            engine@.voices == Seq::new(TRACK_COUNT as nat, |i: int| FmVoice::new_view(sample_rate)),
    {
        let mut voices: Vec<FmVoice> = Vec::new();
        while voices.len() < TRACK_COUNT
            invariant
                voices@.len() <= TRACK_COUNT,
                forall|i: int|
                    0 <= i < voices@.len() ==> (#[trigger] voices@[i])@ == FmVoice::new_view(
                        sample_rate,
                    ),
            decreases TRACK_COUNT - voices@.len(),
        {
            voices.push(FmVoice::new(sample_rate));
        }
        let engine = Engine {
            is_playing: false,
            sequencer: Sequencer::new(DEFAULT_LOOP_TICKS, sample_rate),
            voices,
            rx,
        };
        assert(engine@.voices =~= Seq::new(
            TRACK_COUNT as nat,
            |i: int| FmVoice::new_view(sample_rate),
        ));
        engine
    }

    /// The sequencer inside.
    pub fn sequencer(&self) -> (sequencer: &Sequencer)
        ensures
            sequencer.pattern() == self@.pattern,
            sequencer.pending() == self@.pending,
            sequencer.loop_ticks() == self@.loop_ticks,
            sequencer.rate() == self@.rate,
    {
        &self.sequencer
    }

    /// The voice that plays `track`.
    pub fn voice(&self, track: u8) -> (voice: FmVoice)
        requires
            self.wf(),
        ensures
            voice@ == self@.voices[voice_of(track)],
    {
        self.voices[voice_index(track)]
    }

    /// Applies one control message and returns what it announces.
    pub fn apply(&mut self, message: Message) -> (notice: Option<NotePlayed>)
        requires
            old(self).wf(),
        ensures
            final(self).wf(),
            final(self)@ == old(self)@.applied(message),
            notice == notice_of(message),
    {
        match message {
            Message::Schedule(event) => {
                self.sequencer.add_event(event);
                None
            },
            Message::ParameterChange(parameter, value, track) => {
                let index = voice_index(track);
                let mut voice = self.voices[index];
                voice.set_parameter(parameter, value);
                self.voices.set(index, voice);
                assert(self@.voices =~= old(self)@.voices.update(
                    voice_of(track),
                    old(self)@.voices[voice_of(track)].with_parameter(parameter, value),
                ));
                None
            },
            Message::NoteOn { track, velocity } => {
                let index = voice_index(track);
                let mut voice = self.voices[index];
                voice.trigger(velocity);
                self.voices.set(index, voice);
                assert(self@.voices =~= old(self)@.voices.update(
                    voice_of(track),
                    old(self)@.voices[voice_of(track)].triggered(velocity),
                ));
                Some(NotePlayed { note_on: true, pitch: 0, track })
            },
            Message::Clear => {
                self.sequencer.clear();
                None
            },
        }
    }

    /// Drains the control channel without blocking and applies what it
    /// held, in the order of arrival. Messages are taken until none is there
    /// or `DRAIN_LIMIT` have been taken; the rest is for the next block. The
    /// messages are returned so that the renderer can follow them.
    pub fn get_msgs(&mut self) -> (messages: Vec<Message>)
        requires
            old(self).wf(),
        ensures
            final(self).wf(),
            final(self)@ == old(self)@.applied_all(messages@),
            final(self)@.playing == old(self)@.playing,
            messages@.len() <= DRAIN_LIMIT,
    {
        proof {
            assert forall|received: Seq<Message>|
                #[trigger] old(self)@.applied_all(received).playing == old(self)@.playing by {
                law_messages_keep_transport(old(self)@, received);
            }
        }
        let mut messages: Vec<Message> = Vec::new();
        let mut taken: usize = 0;
        while taken < DRAIN_LIMIT
            invariant
                self.wf(),
                self@ == old(self)@.applied_all(messages@),
                messages@.len() == taken,
                taken <= DRAIN_LIMIT,
            decreases DRAIN_LIMIT - taken,
        {
            match try_receive(&self.rx) {
                Ok(message) => {
                    let ghost earlier = messages@;
                    let _ = self.apply(message);
                    messages.push(message);
                    assert(messages@.drop_last() =~= earlier);
                },
                Err(_) => {
                    break ;
                },
            }
            taken += 1;
        }
        messages
    }
    /// Plays a note at once: triggers the voice of `track` at `velocity` and
    /// returns what to announce, the pitch limited to the seven-bit range.
    pub fn note_on(&mut self, pitch: u8, velocity: u8, track: u8) -> (notice: NotePlayed)
        requires
            old(self).wf(),
        ensures
            final(self).wf(),
            final(self)@ == (EngineView {
                voices: old(self)@.voices.update(
                    voice_of(track),
                    old(self)@.voices[voice_of(track)].triggered(velocity),
                ),
                ..old(self)@
            }),
            notice == (NotePlayed { note_on: true, pitch: clamp_midi(pitch), track }),
    {
        let index = voice_index(track);
        let mut voice = self.voices[index];
        voice.trigger(velocity);
        self.voices.set(index, voice);
        assert(self@.voices =~= old(self)@.voices.update(
            voice_of(track),
            old(self)@.voices[voice_of(track)].triggered(velocity),
        ));
        NotePlayed { note_on: true, pitch: limit_midi(pitch), track }
    }

    /// Ends a note that was played at once: the voices run on as they are,
    /// and the end is announced, the pitch limited to the seven-bit range.
    pub fn note_off(&self, pitch: u8, track: u8) -> (notice: NotePlayed)
        ensures
            notice == (NotePlayed { note_on: false, pitch: clamp_midi(pitch), track }),
    {
        NotePlayed { note_on: false, pitch: limit_midi(pitch), track }
    }

    /// Plans one frame: dispatches the boundaries in the frame's bucket,
    /// then takes the levels of every voice that sounds and advances it.
    fn plan_frame(&mut self, events: &HashMap<usize, Vec<ScheduledEvent>>, frame: usize) -> (planned:
        Frame)
        requires
            old(self).wf(),
        ensures
            final(self).wf(),
            planned.notes@ == announced(bucket_of(events@, frame)),
            planned.levels@ == sounding(dispatched(old(self)@.voices, bucket_of(events@, frame))),
            final(self)@ == (EngineView {
                voices: advanced(dispatched(old(self)@.voices, bucket_of(events@, frame))),
                ..old(self)@
            }),
    {
        let ghost before = self@;
        let mut notes: Vec<NotePlayed> = Vec::new();
        match events.get(&frame) {
            Some(bucket) => {
                let mut i: usize = 0;
                assert(bucket@ == bucket_of(events@, frame));
                assert(announced(bucket@.take(0)) =~= Seq::<NotePlayed>::empty());
                while i < bucket.len()
                    invariant
                        0 <= i <= bucket@.len(),
                        self.wf(),
                        self@ == (EngineView {
                            voices: dispatched(before.voices, bucket@.take(i as int)),
                            ..before
                        }),
                        notes@ == announced(bucket@.take(i as int)),
                    decreases bucket@.len() - i,
                {
                    let event = bucket[i];
                    assert(bucket@.take(i + 1).drop_last() =~= bucket@.take(i as int));
                    assert(announced(bucket@.take(i + 1)) =~= announced(
                        bucket@.take(i as int),
                    ).push(note_of(event)));
                    match event {
                        ScheduledEvent::NoteOn { pitch, velocity, track, .. } => {
                            notes.push(NotePlayed { note_on: true, pitch, track });
                            let _ = self.note_on(pitch, velocity, track);
                        },
                        ScheduledEvent::NoteOff { pitch, track, .. } => {
                            notes.push(NotePlayed { note_on: false, pitch, track });
                        },
                    }
                    i += 1;
                }
                assert(bucket@.take(bucket@.len() as int) == bucket@);
            },
            None => {
                assert(announced(bucket_of(events@, frame)) =~= Seq::<NotePlayed>::empty());
            },
        }
        let ghost ready = self@.voices;
        let mut levels: Vec<Option<VoiceLevels>> = Vec::new();
        let mut v: usize = 0;
        while v < TRACK_COUNT
            invariant
                0 <= v <= TRACK_COUNT,
                self.wf(),
                ready.len() == TRACK_COUNT,
                levels@.len() == v,
                forall|j: int| 0 <= j < v ==> levels@[j] == sounding(ready)[j],
                self@.voices.len() == TRACK_COUNT,
                forall|j: int|
                    0 <= j < TRACK_COUNT ==> self@.voices[j] == if j < v {
                        advanced(ready)[j]
                    } else {
                        ready[j]
                    },
                self@.playing == before.playing,
                self@.pattern == before.pattern,
                self@.pending == before.pending,
                self@.loop_ticks == before.loop_ticks,
                self@.rate == before.rate,
            decreases TRACK_COUNT - v,
        {
            let ghost pool = self@.voices;
            let mut voice = self.voices[v];
            assert(voice@ == pool[v as int]);
            if voice.is_active() {
                let sounded = voice.process();
                self.voices.set(v, voice);
                levels.push(Some(sounded));
                assert(self@.voices =~= pool.update(v as int, voice@));
            } else {
                levels.push(None);
            }
            v += 1;
        }
        assert(levels@ =~= sounding(ready));
        assert(self@.voices =~= advanced(ready));
        Frame { notes, levels }
    }

    /// Plans one block: the `num_frames` samples that begin at transport
    /// position `sample_time`, at `tempo`.
    ///
    /// The control messages that wait are applied first, so that they come
    /// before everything the block schedules. An engine that plays then asks
    /// its sequencer for the block's boundaries; one that is stopped has
    /// none. Frame by frame the boundaries are dispatched and the sounding
    /// voices advanced.
    pub fn process(&mut self, sample_time: i64, tempo: u32, num_frames: i32) -> (block: Block)
        requires
            old(self).wf(),
        ensures
            final(self).wf(),
            ({
                let ready = old(self)@.applied_all(block.messages@);
                let frames = frame_count(num_frames);
                let length = ready.loop_samples(tempo);
                let start = wrap(sample_time as int, length);
                let waiting = ready.waiting(sample_time, tempo, frames);
                &&& block.messages@.len() <= DRAIN_LIMIT
                &&& ready.playing == old(self)@.playing
                &&& final(self)@.playing == ready.playing
                &&& final(self)@.pattern == ready.pattern
                &&& final(self)@.loop_ticks == ready.loop_ticks
                &&& final(self)@.rate == ready.rate
                &&& ready.playing ==> final(self)@.pending == retained(
                    waiting,
                    start,
                    frames,
                    length,
                ) && delivered_into(
                    Map::<usize, Vec<ScheduledEvent>>::empty(),
                    block.events@,
                    waiting,
                    start,
                    frames,
                    length,
                )
                &&& !ready.playing ==> final(self)@.pending == ready.pending && block.events@
                    == Map::<usize, Vec<ScheduledEvent>>::empty()
                &&& block.frames@.len() == frames
                &&& forall|f: int|
                    0 <= f < frames ==> frame_planned(
                        #[trigger] block.frames@[f],
                        ready.voices,
                        block.events@,
                        f as nat,
                    )
                &&& final(self)@.voices == voices_at(ready.voices, block.events@, frames as nat)
            }),
    {
        let messages = self.get_msgs();
        let ghost ready = self@;
        let mut events: HashMap<usize, Vec<ScheduledEvent>> = HashMap::new();
        if self.is_playing {
            self.sequencer.process(&mut events, sample_time, tempo, num_frames);
        }
        let ghost scheduled = self@;
        let count: usize = if num_frames > 0 {
            num_frames as usize
        } else {
            0
        };
        let mut frames: Vec<Frame> = Vec::new();
        let mut frame: usize = 0;
        while frame < count
            invariant
                0 <= frame <= count,
                self.wf(),
                frames@.len() == frame,
                forall|f: int|
                    0 <= f < frame ==> frame_planned(
                        #[trigger] frames@[f],
                        ready.voices,
                        events@,
                        f as nat,
                    ),
                self@ == (EngineView {
                    voices: voices_at(ready.voices, events@, frame as nat),
                    ..scheduled
                }),
                scheduled.voices == ready.voices,
            decreases count - frame,
        {
            let planned = self.plan_frame(&events, frame);
            frames.push(planned);
            frame += 1;
        }
        Block { messages, events, frames }
    }
}

/// What a control message announces.
pub fn announce(message: &Message) -> (notice: Option<NotePlayed>)
    ensures
        notice == notice_of(*message),
{
    match *message {
        Message::NoteOn { track, .. } => Some(NotePlayed { note_on: true, pitch: 0, track }),
        _ => None,
    }
}

} // verus!
