use synth_core::envelopes::{CurveType, EnvelopeState, Level, AR};
use synth_core::plaits_voice::{BLITVoice, FmVoice, VoiceLevels};
use synth_core::subtractive::{scale, SubtractiveVoice};
use synth_core::synth::{Synth, SynthVoice, VOICE_COUNT};
use synth_core::consts::{A4_FREQ, A4_MIDI};
use synth_core::drums::{Burst, Kick};

/// A voice that records what is asked of it.
struct Probe {
    pitch: u8,
    playing: bool,
    steps: u32,
    parameter: (i8, i32),
}

impl SynthVoice for Probe {
    type Output = u32;

    fn new(_sample_rate: u32) -> Self {
        Probe { pitch: 0, playing: false, steps: 0, parameter: (0, 0) }
    }

    fn init(&mut self) {
        self.steps = 100;
    }

    fn get_pitch(&self) -> u8 {
        self.pitch
    }

    fn play(&mut self, pitch: u8, _velocity: u8, _param1: i32, _param2: i32) {
        self.pitch = pitch;
        self.playing = true;
    }

    fn stop(&mut self) {
        self.playing = false;
    }

    fn set_parameter(&mut self, parameter: i8, value: i32) {
        self.parameter = (parameter, value);
    }

    fn reset(&mut self) {
        self.steps = 0;
    }

    fn is_active(&self) -> bool {
        self.playing
    }

    fn process(&mut self) -> u32 {
        self.steps += 1;
        self.steps
    }
}

#[test]
fn new_creates_synth() {
    let synth = Synth::<SubtractiveVoice>::new(48000);
    assert_eq!(synth.voice_count(), VOICE_COUNT);
    assert_eq!(synth.current_voice_index(), 0);
}

#[test]
fn pool_hands_voices_out_in_turn() {
    let mut synth = Synth::<Probe>::new(48000);
    assert_eq!(synth.process(), vec![None; VOICE_COUNT]);
    for note in 0..5 {
        synth.play(60 + note, 100, 0, 0);
        assert_eq!(synth.current_voice_index(), (note as usize + 1) % VOICE_COUNT);
    }
    // the voice was prepared when the pool was made, and sounds now
    assert_eq!(synth.process(), vec![Some(101)]);
    assert_eq!(synth.stop(3), vec![false]);
    assert_eq!(synth.process(), vec![Some(102)]);
    assert_eq!(synth.stop(64), vec![true]);
    assert_eq!(synth.process(), vec![None]);
    synth.set_parameter(3, 77);
    assert_eq!(synth.voice_count(), VOICE_COUNT);
}

#[test]
fn subtractive_voice_holds_its_note() {
    let mut voice = SubtractiveVoice::new(48000);
    voice.init();
    assert!(!voice.is_active());
    assert_eq!(voice.get_pitch(), 0);
    assert_eq!(voice.filter(), (5_000_000, 707));
    voice.play(200, 130, 500, 250);
    assert!(voice.is_active());
    assert_eq!(voice.get_pitch(), 127);
    assert_eq!(voice.velocity(), 127);
    assert_eq!(voice.filter(), (5_000_000, 5_000));
    assert_eq!(voice.process(), Level { numerator: 1, denominator: 1, exponent: 8, velocity: 127 });
    assert_eq!(
        voice.process(),
        Level { numerator: 1_439_999_000, denominator: 1_440_000_000, exponent: 8, velocity: 127 }
    );
    voice.set_parameter(0, 1);
    assert_eq!(voice.filter(), (5_000_000, 5_000));
    voice.stop();
    assert!(!voice.is_active());
    assert_eq!(voice.get_pitch(), 0);
    voice.play(61, 1, 0, 0);
    voice.reset();
    assert!(!voice.is_active());
    assert_eq!(voice.get_pitch(), 61);
}

#[test]
fn scaling_saturates() {
    assert_eq!(scale(500, 10000), 5_000_000);
    assert_eq!(scale(-3, 20), -60);
    assert_eq!(scale(i32::MAX, 2), i32::MAX);
    assert_eq!(scale(i32::MIN, 65535), i32::MIN);
    assert_eq!(scale(214_748, 10000), 2_147_480_000);
    assert_eq!(scale(214_749, 10000), i32::MAX);
}

#[test]
fn sawtooth_voice_follows_its_envelope() {
    let mut voice = BLITVoice::new(48000);
    voice.init();
    assert!(!voice.is_active());
    assert_eq!(voice.get_pitch(), 0);
    assert_eq!(voice.filter(), (500_000, 1_717));
    voice.set_parameter(0, 250);
    voice.set_parameter(1, 100);
    voice.set_parameter(2, 2_000);
    voice.set_parameter(3, 3_999);
    voice.set_parameter(4, 5);
    assert_eq!(voice.filter(), (2_500_000, 1_000));
    voice.play(60, 127, 0, 0);
    voice.stop();
    voice.reset();
    assert!(voice.is_active());
    assert_eq!(voice.process(), Level { numerator: 1000, denominator: 96_000, exponent: 3, velocity: 127 });
    for _ in 2..96 {
        voice.process();
    }
    assert_eq!(voice.process(), Level { numerator: 1, denominator: 1, exponent: 3, velocity: 127 });
    assert_eq!(
        voice.process(),
        Level { numerator: 143_000, denominator: 144_000, exponent: 3, velocity: 127 }
    );
}

#[test]
fn fm_voice_steps_both_envelopes() {
    let mut voice = FmVoice::new(48000);
    assert!(!voice.is_active());
    voice.trigger(80);
    assert!(voice.is_active());
    let rising = Level { numerator: 1000, denominator: 48_000, exponent: 3, velocity: 80 };
    assert_eq!(voice.process(), VoiceLevels { carrier: rising, modulator: rising });
    for _ in 2..48 {
        voice.process();
    }
    let peak = Level { numerator: 1, denominator: 1, exponent: 3, velocity: 127 };
    assert_eq!(voice.process(), VoiceLevels { carrier: peak, modulator: peak });
    assert_eq!(
        voice.process(),
        VoiceLevels {
            carrier: Level { numerator: 23_999_000, denominator: 24_000_000, exponent: 3, velocity: 80 },
            modulator: Level { numerator: 4_799_000, denominator: 4_800_000, exponent: 3, velocity: 80 },
        }
    );
    for parameter in 0..=16 {
        voice.set_parameter(parameter, 1000 * (parameter as i32 + 1));
    }
    let s = voice.settings;
    assert_eq!(
        (s.carrier_freq, s.modulator_freq, s.filter_freq, s.filter_q, s.fm_amt, s.mod_index),
        (1000, 2000, 3000, 4000, 5000, 6000)
    );
    assert_eq!((s.carrier_feedback, s.modulator_feedback), (7000, 8000));
    assert_eq!((voice.carrier_env.attack_ms(), voice.carrier_env.release_ms()), (9, 10));
    assert_eq!((voice.mod_env.attack_ms(), voice.mod_env.release_ms()), (11, 12));
    assert_eq!(
        (s.filter_mod_env_amt, s.pitch_carrier_env_amt, s.pitch_mod_env_amt, s.reverb_amt, s.delay_amt),
        (13000, 14000, 15000, 16000, 17000)
    );
    voice.set_parameter(17, 5);
    voice.set_parameter(-128, 5);
    assert_eq!(voice.settings, s);
}

#[test]
fn kick_and_burst_follow_their_envelopes() {
    let mut kick = Kick::new(55_000, 500, 250, 5, 48000);
    assert_eq!(kick.settings(), (55_000, 500, 250));
    kick.trigger(127);
    let first = kick.process();
    assert_eq!(first.amp, Level { numerator: 1000, denominator: 48_000, exponent: 3, velocity: 127 });
    assert_eq!(first.pitch, Level { numerator: 1, denominator: 1, exponent: 3, velocity: 127 });
    assert_eq!(first.click, Level { numerator: 1, denominator: 1, exponent: 3, velocity: 127 });
    let second = kick.process();
    assert_eq!(second.amp.numerator, 2000);
    assert_eq!(second.pitch, Level { numerator: 239_000, denominator: 240_000, exponent: 3, velocity: 127 });
    assert_eq!(second.click, Level { numerator: 479_000, denominator: 480_000, exponent: 3, velocity: 127 });

    let mut burst = Burst::new(5, 48000);
    burst.trigger(127);
    assert_eq!(burst.process(), Level { numerator: 1, denominator: 1, exponent: 2, velocity: 127 });
    assert_eq!(burst.process(), Level { numerator: 239_000, denominator: 240_000, exponent: 2, velocity: 127 });
}

#[test]
fn envelope_of_a_voice_is_an_ordinary_envelope() {
    let voice = FmVoice::new(44100);
    let same = AR::new(1, 500, CurveType::Exponential { pow: 3 }, 44100);
    assert_eq!(voice.carrier_env.attack_ms(), same.attack_ms());
    assert_eq!(voice.carrier_env.release_ms(), same.release_ms());
    assert!(matches!(voice.carrier_env.state(), EnvelopeState::Off));
    assert_eq!((A4_MIDI, A4_FREQ), (69, 440_000));
}
