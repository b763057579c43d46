//! The control side of a two-operator FM voice: its two envelopes and its
//! settings. The oscillators and the filter that the levels and settings
//! drive are the renderer's.

use crate::envelopes::{CurveType, EnvelopeState, EnvelopeView, Level, AR};
use crate::subtractive::{scale, scaled};
use crate::synth::SynthVoice;
use vstd::prelude::*;

verus! {

/// The settings of a voice, each in thousandths of its unit: frequencies in
/// hertz, the rest plain amounts.
#[derive(Clone, Copy, Debug, PartialEq, Eq, Structural)]
pub struct FmSettings {
    pub carrier_freq: i32,
    pub modulator_freq: i32,
    pub filter_freq: i32,
    pub filter_q: i32,
    pub fm_amt: i32,
    pub mod_index: i32,
    pub carrier_feedback: i32,
    pub modulator_feedback: i32,
    pub filter_mod_env_amt: i32,
    pub pitch_carrier_env_amt: i32,
    pub pitch_mod_env_amt: i32,
    pub reverb_amt: i32,
    pub delay_amt: i32,
}

/// A time in whole milliseconds, read from a value in thousandths of a
/// millisecond. There is no time below zero.
pub open spec fn millis(value: i32) -> u32 {
    if value <= 0 {
        0
    } else {
        (value / 1000) as u32
    }
}

/// The levels of a voice's two envelopes on one sample.
#[derive(Clone, Copy, Debug, PartialEq, Eq, Structural)]
pub struct VoiceLevels {
    pub carrier: Level,
    pub modulator: Level,
}

/// What a voice is, apart from how it is stored.
pub struct VoiceView {
    pub carrier: EnvelopeView,
    pub modulator: EnvelopeView,
    pub settings: FmSettings,
}

impl VoiceView {
    /// Both envelopes are well formed.
    pub open spec fn wf(self) -> bool {
        self.carrier.wf() && self.modulator.wf()
    }

    /// The voice sounds as long as its carrier envelope does.
    pub open spec fn is_active(self) -> bool {
        self.carrier.state != EnvelopeState::Off
    }

    /// The voice once both envelopes have been triggered at `velocity`.
    pub open spec fn triggered(self, velocity: u8) -> VoiceView {
        VoiceView {
            carrier: self.carrier.triggered(velocity),
            modulator: self.modulator.triggered(velocity),
            ..self
        }
    }

    /// The levels that the next step returns.
    pub open spec fn output(self) -> VoiceLevels {
        VoiceLevels { carrier: self.carrier.output(), modulator: self.modulator.output() }
    }

    /// The voice after the next step: both envelopes have moved on.
    pub open spec fn step(self) -> VoiceView {
        VoiceView { carrier: self.carrier.step(), modulator: self.modulator.step(), ..self }
    }

    /// The voice once parameter number `parameter` has been set to `value`.
    /// Numbers 8 to 11 are the envelope times, given in thousandths of a
    /// millisecond; a number that the voice does not know changes nothing.
    pub open spec fn with_parameter(self, parameter: i8, value: i32) -> VoiceView {
        let settings = self.settings;
        match parameter {
            0 => VoiceView { settings: FmSettings { carrier_freq: value, ..settings }, ..self },
            1 => VoiceView { settings: FmSettings { modulator_freq: value, ..settings }, ..self },
            2 => VoiceView { settings: FmSettings { filter_freq: value, ..settings }, ..self },
            3 => VoiceView { settings: FmSettings { filter_q: value, ..settings }, ..self },
            4 => VoiceView { settings: FmSettings { fm_amt: value, ..settings }, ..self },
            5 => VoiceView { settings: FmSettings { mod_index: value, ..settings }, ..self },
            6 => VoiceView { settings: FmSettings { carrier_feedback: value, ..settings }, ..self },
            7 => VoiceView {
                settings: FmSettings { modulator_feedback: value, ..settings },
                ..self
            },
            8 => VoiceView {
                carrier: EnvelopeView { attack_ms: millis(value) as nat, ..self.carrier },
                ..self
            },
            9 => VoiceView {
                carrier: EnvelopeView { release_ms: millis(value) as nat, ..self.carrier },
                ..self
            },
            10 => VoiceView {
                modulator: EnvelopeView { attack_ms: millis(value) as nat, ..self.modulator },
                ..self
            },
            11 => VoiceView {
                modulator: EnvelopeView { release_ms: millis(value) as nat, ..self.modulator },
                ..self
            },
            12 => VoiceView {
                settings: FmSettings { filter_mod_env_amt: value, ..settings },
                ..self
            },
            13 => VoiceView {
                settings: FmSettings { pitch_carrier_env_amt: value, ..settings },
                ..self
            },
            14 => VoiceView {
                settings: FmSettings { pitch_mod_env_amt: value, ..settings },
                ..self
            },
            15 => VoiceView { settings: FmSettings { reverb_amt: value, ..settings }, ..self },
            16 => VoiceView { settings: FmSettings { delay_amt: value, ..settings }, ..self },
            _ => self,
        }
    }
}

/// The settings of a voice that has just been made.
pub open spec fn initial_settings() -> FmSettings {
    FmSettings {
        carrier_freq: 200_000,
        modulator_freq: 200_000,
        filter_freq: 4_000_000,
        filter_q: 1_717,
        fm_amt: 0,
        mod_index: 0,
        carrier_feedback: 0,
        modulator_feedback: 0,
        filter_mod_env_amt: 0,
        pitch_carrier_env_amt: 0,
        pitch_mod_env_amt: 0,
        reverb_amt: 0,
        delay_amt: 0,
    }
}

/// The envelope of a voice that has just been made: at rest, one millisecond
/// of attack, a cubic curve.
pub open spec fn initial_envelope(release_ms: nat, sample_rate: u32) -> EnvelopeView {
    EnvelopeView {
        state: EnvelopeState::Off,
        time: 0,
        velocity: 127,
        attack_ms: 1,
        release_ms,
        rate: sample_rate as nat,
        exponent: 3,
    }
}

fn to_millis(value: i32) -> (ms: u32)
    ensures
        ms == millis(value),
{
    if value <= 0 {
        0
    } else {
        (value / 1000) as u32
    }
}

/// The control side of an FM voice.
#[derive(Clone, Copy, Debug)]
pub struct FmVoice {
    pub carrier_env: AR,
    pub mod_env: AR,
    pub settings: FmSettings,
}

impl View for FmVoice {
    type V = VoiceView;

    open spec fn view(&self) -> VoiceView {
        VoiceView {
            carrier: self.carrier_env@,
            modulator: self.mod_env@,
            settings: self.settings,
        }
    }
}

impl FmVoice {
    /// A voice that has just been made: at rest with its initial settings,
    /// the carrier releasing in half a second, the modulator in a tenth.
    pub open spec fn new_view(sample_rate: u32) -> VoiceView {
        VoiceView {
            carrier: initial_envelope(500, sample_rate),
            modulator: initial_envelope(100, sample_rate),
            settings: initial_settings(),
        }
    }

    /// A voice at rest with its initial settings.
    pub fn new(sample_rate: u32) -> (voice: Self)
        ensures
            voice@ == Self::new_view(sample_rate),
            voice@.wf(),
    {
        FmVoice {
            carrier_env: AR::new(1, 500, CurveType::Exponential { pow: 3 }, sample_rate),
            mod_env: AR::new(1, 100, CurveType::Exponential { pow: 3 }, sample_rate),
            settings: FmSettings {
                carrier_freq: 200_000,
                modulator_freq: 200_000,
                filter_freq: 4_000_000,
                filter_q: 1_717,
                fm_amt: 0,
                mod_index: 0,
                carrier_feedback: 0,
                modulator_feedback: 0,
                filter_mod_env_amt: 0,
                pitch_carrier_env_amt: 0,
                pitch_mod_env_amt: 0,
                reverb_amt: 0,
                delay_amt: 0,
            },
        }
    }

    /// Triggers both envelopes at `velocity`.
    pub fn trigger(&mut self, velocity: u8)
        ensures
            final(self)@ == old(self)@.triggered(velocity),
            final(self)@.wf(),
    {
        self.carrier_env.trigger(velocity);
        self.mod_env.trigger(velocity);
    }

    /// Advances both envelopes by one sample, the modulator's first, and
    /// returns their levels.
    pub fn process(&mut self) -> (levels: VoiceLevels)
        ensures
            levels == old(self)@.output(),
            final(self)@ == old(self)@.step(),
            old(self)@.wf(),
            final(self)@.wf(),
    {
        let modulator = self.mod_env.process();
        let carrier = self.carrier_env.process();
        VoiceLevels { carrier, modulator }
    }

    /// Sets parameter number `parameter` to `value`, in thousandths.
    pub fn set_parameter(&mut self, parameter: i8, value: i32)
        ensures
            final(self)@ == old(self)@.with_parameter(parameter, value),
    {
        match parameter {
            0 => self.settings.carrier_freq = value,
            1 => self.settings.modulator_freq = value,
            2 => self.settings.filter_freq = value,
            3 => self.settings.filter_q = value,
            4 => self.settings.fm_amt = value,
            5 => self.settings.mod_index = value,
            6 => self.settings.carrier_feedback = value,
            7 => self.settings.modulator_feedback = value,
            8 => self.carrier_env.set_attack(to_millis(value)),
            9 => self.carrier_env.set_release(to_millis(value)),
            10 => self.mod_env.set_attack(to_millis(value)),
            11 => self.mod_env.set_release(to_millis(value)),
            12 => self.settings.filter_mod_env_amt = value,
            13 => self.settings.pitch_carrier_env_amt = value,
            14 => self.settings.pitch_mod_env_amt = value,
            15 => self.settings.reverb_amt = value,
            16 => self.settings.delay_amt = value,
            _ => (),
        }
    }

    /// Whether the voice sounds: whether its carrier envelope is in a stage.
    pub fn is_active(&self) -> (active: bool)
        ensures
            active == self@.is_active(),
    {
        self.carrier_env.is_active()
    }
}

/// The control side of a band-limited sawtooth voice: one envelope and the
/// settings of the filter.
#[derive(Clone, Copy, Debug)]
pub struct BLITVoice {
    env: AR,
    filter_freq: i32,
    filter_q: i32,
    sample_rate: u32,
}

/// What a sawtooth voice is, apart from how it is stored: its envelope and
/// the filter's frequency and resonance in thousandths.
pub struct BlitView {
    pub envelope: EnvelopeView,
    pub filter_freq: i32,
    pub filter_q: i32,
}

impl BlitView {
    /// The voice once parameter number `parameter` has been set to `value`:
    /// number 0 is the filter's frequency on a scale of ten kilohertz, number
    /// 1 its resonance on a scale of ten, numbers 2 and 3 are the envelope's
    /// attack and release in thousandths of a millisecond. Other numbers
    /// change nothing.
    pub open spec fn with_parameter(self, parameter: i8, value: i32) -> BlitView {
        match parameter {
            0 => BlitView { filter_freq: scaled(value, 10000), ..self },
            1 => BlitView { filter_q: scaled(value, 10), ..self },
            2 => BlitView {
                envelope: EnvelopeView { attack_ms: millis(value) as nat, ..self.envelope },
                ..self
            },
            3 => BlitView {
                envelope: EnvelopeView { release_ms: millis(value) as nat, ..self.envelope },
                ..self
            },
            _ => self,
        }
    }
}

impl View for BLITVoice {
    type V = BlitView;

    closed spec fn view(&self) -> BlitView {
        BlitView { envelope: self.env@, filter_freq: self.filter_freq, filter_q: self.filter_q }
    }
}

impl BLITVoice {
    /// The filter's frequency and resonance, in thousandths.
    pub fn filter(&self) -> (filter: (i32, i32))
        ensures
            filter == (self@.filter_freq, self@.filter_q),
    {
        (self.filter_freq, self.filter_q)
    }
}

impl BlitView {
    /// A voice that has just been made: at rest, ten milliseconds of attack,
    /// half a second of release on a cubic curve, the filter at five hundred
    /// hertz.
    pub open spec fn initial(sample_rate: u32) -> BlitView {
        BlitView {
            envelope: EnvelopeView {
                state: EnvelopeState::Off,
                time: 0,
                velocity: 127,
                attack_ms: 10,
                release_ms: 500,
                rate: sample_rate as nat,
                exponent: 3,
            },
            filter_freq: 500_000,
            filter_q: 1_717,
        }
    }
}

impl SynthVoice for BLITVoice {
    type Output = Level;

    open spec fn made(voice: Self, sample_rate: u32) -> bool {
        voice@ == BlitView::initial(sample_rate)
    }

    open spec fn prepared(before: Self, after: Self) -> bool {
        after@ == before@
    }

    /// The voice holds no pitch and reports zero.
    open spec fn reports_pitch(voice: Self, pitch: u8) -> bool {
        pitch == 0
    }

    /// The envelope is triggered at the velocity.
    open spec fn played(
        before: Self,
        after: Self,
        pitch: u8,
        velocity: u8,
        param1: i32,
        param2: i32,
    ) -> bool {
        after@ == (BlitView { envelope: before@.envelope.triggered(velocity), ..before@ })
    }

    /// The note runs out by itself: nothing changes.
    open spec fn stopped(before: Self, after: Self) -> bool {
        after@ == before@
    }

    open spec fn parameter_set(before: Self, after: Self, parameter: i8, value: i32) -> bool {
        after@ == before@.with_parameter(parameter, value)
    }

    /// There is nothing to return to: nothing changes.
    open spec fn was_reset(before: Self, after: Self) -> bool {
        after@ == before@
    }

    /// The voice sounds while its envelope is in a stage.
    open spec fn reports_active(voice: Self, active: bool) -> bool {
        active == (voice@.envelope.state != EnvelopeState::Off)
    }

    /// The envelope takes a step, and its level is what the step yields.
    open spec fn stepped(before: Self, after: Self, output: Level) -> bool {
        &&& output == before@.envelope.output()
        &&& after@ == (BlitView { envelope: before@.envelope.step(), ..before@ })
    }

    fn new(sample_rate: u32) -> (voice: Self) {
        BLITVoice {
            env: AR::new(10, 500, CurveType::Exponential { pow: 3 }, sample_rate),
            filter_freq: 500_000,
            filter_q: 1_717,
            sample_rate,
        }
    }

    fn init(&mut self) {
    }

    fn get_pitch(&self) -> (pitch: u8) {
        0
    }

    fn play(&mut self, pitch: u8, velocity: u8, param1: i32, param2: i32) {
        self.env.trigger(velocity);
    }

    fn stop(&mut self) {
    }

    fn set_parameter(&mut self, parameter: i8, value: i32) {
        match parameter {
            0 => self.filter_freq = scale(value, 10000),
            1 => self.filter_q = scale(value, 10),
            2 => self.env.set_attack(to_millis(value)),
            3 => self.env.set_release(to_millis(value)),
            _ => (),
        }
    }

    fn reset(&mut self) {
    }

    fn is_active(&self) -> (active: bool) {
        self.env.is_active()
    }

    fn process(&mut self) -> (level: Level) {
        self.env.process()
    }
}

} // verus!
