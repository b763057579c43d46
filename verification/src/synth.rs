//! The capability that every sound generator offers, and a pool of voices
//! that hands its voices out in turn.

use vstd::prelude::*;

verus! {

/// The number of voices in a pool.
pub const VOICE_COUNT: usize = 1;

/// What a sound generator can do, and what each of its operations promises.
///
/// Every operation comes with a relation that says what it promises. A kind
/// of voice states its promises by defining the relations; one that defines
/// none promises nothing.
pub trait SynthVoice: Sized {
    /// What one step of the voice yields.
    type Output;

    /// What `new` promises of the voice it makes for a sample rate.
    open spec fn made(voice: Self, sample_rate: u32) -> bool {
        true
    }

    /// What `init` promises of the voice before and after.
    open spec fn prepared(before: Self, after: Self) -> bool {
        true
    }

    /// What `get_pitch` promises of the pitch it returns.
    open spec fn reports_pitch(voice: Self, pitch: u8) -> bool {
        true
    }

    /// What `play` promises of the voice before and after.
    open spec fn played(
        before: Self,
        after: Self,
        pitch: u8,
        velocity: u8,
        param1: i32,
        param2: i32,
    ) -> bool {
        true
    }

    /// What `stop` promises of the voice before and after.
    open spec fn stopped(before: Self, after: Self) -> bool {
        true
    }

    /// What `set_parameter` promises of the voice before and after.
    open spec fn parameter_set(before: Self, after: Self, parameter: i8, value: i32) -> bool {
        true
    }

    /// What `reset` promises of the voice before and after.
    open spec fn was_reset(before: Self, after: Self) -> bool {
        true
    }

    /// What `is_active` promises of the answer it returns.
    open spec fn reports_active(voice: Self, active: bool) -> bool {
        true
    }

    /// What `process` promises of the voice before and after and of what
    /// the step yields.
    open spec fn stepped(before: Self, after: Self, output: Self::Output) -> bool {
        true
    }

    /// A voice for the given sample rate, in samples per second.
    fn new(sample_rate: u32) -> (voice: Self)
        ensures
            Self::made(voice, sample_rate),
    ;

    /// Prepares a new voice for use.
    fn init(&mut self)
        ensures
            Self::prepared(*old(self), *final(self)),
    ;

    /// The pitch that the voice plays.
    fn get_pitch(&self) -> (pitch: u8)
        ensures
            Self::reports_pitch(*self, pitch),
    ;

    /// Starts a note. The two parameters are in thousandths.
    fn play(&mut self, pitch: u8, velocity: u8, param1: i32, param2: i32)
        ensures
            Self::played(*old(self), *final(self), pitch, velocity, param1, param2),
    ;

    /// Ends the note.
    fn stop(&mut self)
        ensures
            Self::stopped(*old(self), *final(self)),
    ;

    /// Sets a parameter to a value in thousandths.
    fn set_parameter(&mut self, parameter: i8, value: i32)
        ensures
            Self::parameter_set(*old(self), *final(self), parameter, value),
    ;

    /// Returns the voice to its initial state.
    fn reset(&mut self)
        ensures
            Self::was_reset(*old(self), *final(self)),
    ;

    /// Whether the voice sounds.
    fn is_active(&self) -> (active: bool)
        ensures
            Self::reports_active(*self, active),
    ;

    /// Advances the voice by one sample.
    fn process(&mut self) -> (output: Self::Output)
        ensures
            Self::stepped(*old(self), *final(self), output),
    ;
}

/// A pool of voices of one kind. A note is given to the voice whose turn it
/// is, whether that voice sounds or not, and the turn passes on.
pub struct Synth<V: SynthVoice> {
    voices: Vec<V>,
    current_voice_index: usize,
}

impl<V: SynthVoice> Synth<V> {
    /// The voices of the pool in their order.
    pub closed spec fn pool(&self) -> Seq<V> {
        self.voices@
    }

    /// The number of the voice whose turn it is.
    pub closed spec fn turn(&self) -> int {
        self.current_voice_index as int
    }

    /// The pool is full and the turn is a voice's. Every pool that this
    /// module hands out is well formed.
    pub open spec fn wf(&self) -> bool {
        self.pool().len() == VOICE_COUNT && 0 <= self.turn() < VOICE_COUNT
    }

    /// A voice as the pool makes it: made for the sample rate, then
    /// prepared.
    pub open spec fn fresh(voice: V, sample_rate: u32) -> bool {
        exists|made: V| V::made(made, sample_rate) && #[trigger] V::prepared(made, voice)
    }

    /// A pool of new voices for the given sample rate; the first voice has
    /// the first turn.
    pub fn new(sample_rate: u32) -> (synth: Self)
        ensures
            synth.wf(),
            synth.turn() == 0,
            forall|i: int|
                0 <= i < VOICE_COUNT ==> Self::fresh(#[trigger] synth.pool()[i], sample_rate),
    {
        let mut voices: Vec<V> = Vec::new();
        while voices.len() < VOICE_COUNT
            invariant
                voices@.len() <= VOICE_COUNT,
                forall|i: int| 0 <= i < voices@.len() ==> Self::fresh(#[trigger] voices@[i], sample_rate),
            decreases VOICE_COUNT - voices@.len(),
        {
            let mut voice = V::new(sample_rate);
            let ghost made = voice;
            voice.init();
            assert(V::prepared(made, voice));
            voices.push(voice);
        }
        Synth { voices, current_voice_index: 0 }
    }

    /// The number of voices in the pool.
    pub fn voice_count(&self) -> (count: usize)
        ensures
            count == self.pool().len(),
    {
        self.voices.len()
    }

    /// The number of the voice whose turn it is.
    pub fn current_voice_index(&self) -> (index: usize)
        ensures
            index == self.turn(),
    {
        self.current_voice_index
    }

    /// Starts a note on the voice whose turn it is, whether that voice
    /// sounds or not, and passes the turn to the next voice, from the last to
    /// the first. No other voice is touched.
    pub fn play(&mut self, pitch: u8, velocity: u8, param1: i32, param2: i32)
        requires
            old(self).wf(),
        ensures
            final(self).wf(),
            final(self).turn() == (old(self).turn() + 1) % (VOICE_COUNT as int),
            V::played(
                old(self).pool()[old(self).turn()],
                final(self).pool()[old(self).turn()],
                pitch,
                velocity,
                param1,
                param2,
            ),
            forall|i: int|
                0 <= i < VOICE_COUNT && i != old(self).turn() ==> final(self).pool()[i] == old(
                    self,
                ).pool()[i],
    {
        let index = self.current_voice_index;
        self.voices[index].play(pitch, velocity, param1, param2);
        self.current_voice_index = if index + 1 == VOICE_COUNT {
            0
        } else {
            index + 1
        };
    }

    /// Ends the note on every voice that reports `pitch` and returns, voice
    /// by voice, whether the voice was stopped. A voice that reports another
    /// pitch is as it was. The turn stays where it is.
    pub fn stop(&mut self, pitch: u8) -> (stopped: Vec<bool>)
        requires
            old(self).wf(),
        ensures
            final(self).wf(),
            final(self).turn() == old(self).turn(),
            stopped@.len() == VOICE_COUNT,
            forall|i: int|
                0 <= i < VOICE_COUNT && #[trigger] stopped@[i] ==> V::reports_pitch(
                    old(self).pool()[i],
                    pitch,
                ) && V::stopped(old(self).pool()[i], final(self).pool()[i]),
            forall|i: int|
                0 <= i < VOICE_COUNT && !#[trigger] stopped@[i] ==> final(self).pool()[i] == old(
                    self,
                ).pool()[i] && exists|other: u8|
                    other != pitch && #[trigger] V::reports_pitch(old(self).pool()[i], other),
    {
        let mut stopped: Vec<bool> = Vec::new();
        let mut i: usize = 0;
        while i < VOICE_COUNT
            invariant
                0 <= i <= VOICE_COUNT,
                stopped@.len() == i,
                self.wf(),
                self.turn() == old(self).turn(),
                forall|k: int| i <= k < VOICE_COUNT ==> self.pool()[k] == old(self).pool()[k],
                forall|k: int|
                    0 <= k < i && #[trigger] stopped@[k] ==> V::reports_pitch(
                        old(self).pool()[k],
                        pitch,
                    ) && V::stopped(old(self).pool()[k], self.pool()[k]),
                forall|k: int|
                    0 <= k < i && !#[trigger] stopped@[k] ==> self.pool()[k] == old(self).pool()[k]
                        && exists|other: u8|
                        other != pitch && #[trigger] V::reports_pitch(old(self).pool()[k], other),
            decreases VOICE_COUNT - i,
        {
            let held = self.voices[i].get_pitch();
            if held == pitch {
                self.voices[i].stop();
                stopped.push(true);
            } else {
                assert(V::reports_pitch(old(self).pool()[i as int], held));
                stopped.push(false);
            }
            i += 1;
        }
        stopped
    }

    /// Advances every voice that reports that it sounds by one sample and
    /// returns, voice by voice, what the voice yielded, or nothing for a voice
    /// that does not sound. A voice that does not sound is as it was.
    pub fn process(&mut self) -> (outputs: Vec<Option<V::Output>>)
        requires
            old(self).wf(),
        ensures
            final(self).wf(),
            final(self).turn() == old(self).turn(),
            outputs@.len() == VOICE_COUNT,
            forall|i: int|
                0 <= i < VOICE_COUNT ==> match #[trigger] outputs@[i] {
                    Some(output) => V::reports_active(old(self).pool()[i], true) && V::stepped(
                        old(self).pool()[i],
                        final(self).pool()[i],
                        output,
                    ),
                    None => V::reports_active(old(self).pool()[i], false) && final(self).pool()[i]
                        == old(self).pool()[i],
                },
    {
        let mut outputs: Vec<Option<V::Output>> = Vec::new();
        let mut i: usize = 0;
        while i < VOICE_COUNT
            invariant
                0 <= i <= VOICE_COUNT,
                outputs@.len() == i,
                self.wf(),
                self.turn() == old(self).turn(),
                forall|k: int| i <= k < VOICE_COUNT ==> self.pool()[k] == old(self).pool()[k],
                forall|k: int|
                    0 <= k < i ==> match #[trigger] outputs@[k] {
                        Some(output) => V::reports_active(old(self).pool()[k], true) && V::stepped(
                            old(self).pool()[k],
                            self.pool()[k],
                            output,
                        ),
                        None => V::reports_active(old(self).pool()[k], false) && self.pool()[k]
                            == old(self).pool()[k],
                    },
            decreases VOICE_COUNT - i,
        {
            if self.voices[i].is_active() {
                let output = self.voices[i].process();
                outputs.push(Some(output));
            } else {
                outputs.push(None);
            }
            i += 1;
        }
        outputs
    }

    /// Sets a parameter of every voice to a value in thousandths.
    pub fn set_parameter(&mut self, parameter: i8, value: i32)
        requires
            old(self).wf(),
        ensures
            final(self).wf(),
            final(self).turn() == old(self).turn(),
            forall|i: int|
                0 <= i < VOICE_COUNT ==> V::parameter_set(
                    old(self).pool()[i],
                    #[trigger] final(self).pool()[i],
                    parameter,
                    value,
                ),
    {
        let mut i: usize = 0;
        while i < VOICE_COUNT
            invariant
                0 <= i <= VOICE_COUNT,
                self.wf(),
                self.turn() == old(self).turn(),
                forall|k: int| i <= k < VOICE_COUNT ==> self.pool()[k] == old(self).pool()[k],
                forall|k: int|
                    0 <= k < i ==> V::parameter_set(
                        old(self).pool()[k],
                        #[trigger] self.pool()[k],
                        parameter,
                        value,
                    ),
            decreases VOICE_COUNT - i,
        {
            self.voices[i].set_parameter(parameter, value);
            i += 1;
        }
    }
}

} // verus!
