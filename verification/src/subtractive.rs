//! The control side of a subtractive voice: one envelope, the pitch that is
//! held, and the settings of the filter.

use crate::envelopes::{CurveType, EnvelopeState, EnvelopeView, Level, AR};
use crate::sequencer::{clamp_midi, limit_midi, MIDI_MAX};
use crate::synth::SynthVoice;
use vstd::prelude::*;

verus! {

/// A value in thousandths multiplied by a whole factor, kept within what the
/// value's type can hold.
pub open spec fn scaled(value: i32, factor: int) -> i32 {
    if value * factor > i32::MAX {
        i32::MAX
    } else if value * factor < i32::MIN {
        i32::MIN
    } else {
        (value * factor) as i32
    }
}

/// Multiplies a value in thousandths by a small whole factor.
pub fn scale(value: i32, factor: u16) -> (product: i32)
    ensures
        product == scaled(value, factor as int),
{
    assert(-0x8000_0000 * 0xffff <= (value as int) * (factor as int) <= 0x7fff_ffff * 0xffff)
        by (nonlinear_arith)
        requires
            -0x8000_0000 <= value <= 0x7fff_ffff,
            0 <= factor <= 0xffff,
    ;
    let product: i64 = (value as i64) * (factor as i64);
    if product > i32::MAX as i64 {
        i32::MAX
    } else if product < i32::MIN as i64 {
        i32::MIN
    } else {
        product as i32
    }
}

/// The control side of a subtractive voice.
#[derive(Clone, Copy, Debug)]
pub struct SubtractiveVoice {
    env: AR,
    velocity: u8,
    filter_freq: i32,
    filter_q: i32,
    pitch: Option<u8>,
    sample_rate: u32,
}

/// What a subtractive voice is, apart from how it is stored: its envelope,
/// the velocity and the pitch of the note it holds, and the filter's
/// frequency and resonance in thousandths.
pub struct SubtractiveView {
    pub envelope: EnvelopeView,
    pub velocity: u8,
    pub filter_freq: i32,
    pub filter_q: i32,
    pub pitch: Option<u8>,
}

impl View for SubtractiveVoice {
    type V = SubtractiveView;

    closed spec fn view(&self) -> SubtractiveView {
        SubtractiveView {
            envelope: self.env@,
            velocity: self.velocity,
            filter_freq: self.filter_freq,
            filter_q: self.filter_q,
            pitch: self.pitch,
        }
    }
}

impl SubtractiveVoice {
    /// The filter's frequency and resonance, in thousandths.
    pub fn filter(&self) -> (filter: (i32, i32))
        ensures
            filter == (self@.filter_freq, self@.filter_q),
    {
        (self.filter_freq, self.filter_q)
    }

    /// The velocity of the note that the voice holds.
    pub fn velocity(&self) -> (velocity: u8)
        ensures
            velocity == self@.velocity,
    {
        self.velocity
    }
}

impl SubtractiveView {
    /// A voice that has just been made: at rest and holding no pitch, no
    /// attack, thirty seconds of release on a steep curve, the filter at five
    /// kilohertz.
    pub open spec fn initial(sample_rate: u32) -> SubtractiveView {
        SubtractiveView {
            envelope: EnvelopeView {
                state: EnvelopeState::Off,
                time: 0,
                velocity: 127,
                attack_ms: 0,
                release_ms: 30000,
                rate: sample_rate as nat,
                exponent: 8,
            },
            velocity: MIDI_MAX,
            filter_freq: 5_000_000,
            filter_q: 707,
            pitch: None,
        }
    }

    /// The pitch that the voice reports: the one it holds, or zero where it
    /// holds none.
    pub open spec fn reported_pitch(self) -> u8 {
        match self.pitch {
            Some(held) => held,
            None => 0,
        }
    }

    /// The voice once a note has been started: the pitch and the velocity,
    /// limited to the seven-bit range, are held, the first parameter sets
    /// the filter's frequency on a scale of ten kilohertz and the second its
    /// resonance on a scale of twenty, and the envelope is triggered.
    pub open spec fn playing(self, pitch: u8, velocity: u8, param1: i32, param2: i32) -> SubtractiveView {
        SubtractiveView {
            envelope: self.envelope.triggered(velocity),
            velocity: clamp_midi(velocity),
            filter_freq: scaled(param1, 10000),
            filter_q: scaled(param2, 20),
            pitch: Some(clamp_midi(pitch)),
        }
    }

    /// The voice with its envelope silenced.
    pub open spec fn silenced(self) -> SubtractiveView {
        SubtractiveView {
            envelope: EnvelopeView { state: EnvelopeState::Off, ..self.envelope },
            ..self
        }
    }
}

impl SynthVoice for SubtractiveVoice {
    type Output = Level;

    open spec fn made(voice: Self, sample_rate: u32) -> bool {
        voice@ == SubtractiveView::initial(sample_rate)
    }

    open spec fn prepared(before: Self, after: Self) -> bool {
        after@ == before@
    }

    open spec fn reports_pitch(voice: Self, pitch: u8) -> bool {
        pitch == voice@.reported_pitch()
    }

    open spec fn played(
        before: Self,
        after: Self,
        pitch: u8,
        velocity: u8,
        param1: i32,
        param2: i32,
    ) -> bool {
        after@ == before@.playing(pitch, velocity, param1, param2)
    }

    /// The envelope is silenced and the pitch let go.
    open spec fn stopped(before: Self, after: Self) -> bool {
        after@ == (SubtractiveView { pitch: None, ..before@.silenced() })
    }

    /// The voice has no numbered parameters: nothing changes.
    open spec fn parameter_set(before: Self, after: Self, parameter: i8, value: i32) -> bool {
        after@ == before@
    }

    /// The envelope is silenced.
    open spec fn was_reset(before: Self, after: Self) -> bool {
        after@ == before@.silenced()
    }

    /// The voice sounds while its envelope is in a stage.
    open spec fn reports_active(voice: Self, active: bool) -> bool {
        active == (voice@.envelope.state != EnvelopeState::Off)
    }

    /// The envelope takes a step, and its level is what the step yields.
    open spec fn stepped(before: Self, after: Self, output: Level) -> bool {
        &&& output == before@.envelope.output()
        &&& after@ == (SubtractiveView { envelope: before@.envelope.step(), ..before@ })
    }

    fn new(sample_rate: u32) -> (voice: Self) {
        SubtractiveVoice {
            env: AR::new(0, 30000, CurveType::Exponential { pow: 8 }, sample_rate),
            velocity: MIDI_MAX,
            filter_freq: 5_000_000,
            filter_q: 707,
            pitch: None,
            sample_rate,
        }
    }

    fn init(&mut self) {
    }

    fn get_pitch(&self) -> (pitch: u8) {
        match self.pitch {
            Some(held) => held,
            None => 0,
        }
    }

    fn play(&mut self, pitch: u8, velocity: u8, param1: i32, param2: i32) {
        self.velocity = limit_midi(velocity);
        self.pitch = Some(limit_midi(pitch));
        self.filter_freq = scale(param1, 10000);
        self.filter_q = scale(param2, 20);
        self.env.trigger(velocity);
    }

    fn stop(&mut self) {
        self.env.release();
        self.pitch = None;
    }

    fn set_parameter(&mut self, parameter: i8, value: i32) {
    }

    fn reset(&mut self) {
        self.env.release();
    }

    fn is_active(&self) -> (active: bool) {
        self.env.is_active()
    }

    fn process(&mut self) -> (level: Level) {
        self.env.process()
    }
}

} // verus!
