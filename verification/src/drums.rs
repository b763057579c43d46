//! The control side of the two drum generators: their envelopes, triggered
//! together and advanced together.

use crate::envelopes::{CurveType, EnvelopeState, EnvelopeView, Level, AR};
use vstd::prelude::*;

verus! {

/// The levels of a kick's three envelopes on one sample.
#[derive(Clone, Copy, Debug, PartialEq, Eq, Structural)]
pub struct KickLevels {
    pub amp: Level,
    pub pitch: Level,
    pub click: Level,
}

/// What a kick is, apart from how it is stored: its envelopes and, in
/// thousandths, its pitch in hertz and the amounts of pitch sweep and click.
pub struct KickView {
    pub amp: EnvelopeView,
    pub pitch: EnvelopeView,
    pub click: EnvelopeView,
    pub pitch_hz: i32,
    pub pitch_env_amt: i32,
    pub click_amt: i32,
}

/// An envelope of a drum that has just been made: at rest, on a curve of the
/// given power.
pub open spec fn drum_envelope(
    attack_ms: nat,
    release_ms: u32,
    exponent: nat,
    sample_rate: u32,
) -> EnvelopeView {
    EnvelopeView {
        state: EnvelopeState::Off,
        time: 0,
        velocity: 127,
        attack_ms,
        release_ms: release_ms as nat,
        rate: sample_rate as nat,
        exponent,
    }
}

/// The control side of a kick drum.
#[derive(Clone, Copy, Debug)]
pub struct Kick {
    pitch_hz: i32,
    pitch_env_amt: i32,
    amp_env: AR,
    pitch_env: AR,
    click_amt: i32,
    click_env: AR,
}

impl View for Kick {
    type V = KickView;

    closed spec fn view(&self) -> KickView {
        KickView {
            amp: self.amp_env@,
            pitch: self.pitch_env@,
            click: self.click_env@,
            pitch_hz: self.pitch_hz,
            pitch_env_amt: self.pitch_env_amt,
            click_amt: self.click_amt,
        }
    }
}

impl Kick {
    /// A kick at rest. The amplitude rises within a millisecond and falls
    /// within `release_ms`, the pitch sweep falls within `release_ms`, the
    /// click within ten milliseconds, all on cubic curves. The amounts are in
    /// thousandths.
    pub fn new(
        pitch_hz: i32,
        pitch_env_amt: i32,
        click_amt: i32,
        release_ms: u32,
        sample_rate: u32,
    ) -> (kick: Self)
        ensures
            kick@ == (KickView {
                amp: drum_envelope(1, release_ms, 3, sample_rate),
                pitch: drum_envelope(0, release_ms, 3, sample_rate),
                click: drum_envelope(0, 10, 3, sample_rate),
                pitch_hz,
                pitch_env_amt,
                click_amt,
            }),
    {
        Kick {
            pitch_hz,
            pitch_env_amt,
            amp_env: AR::new(1, release_ms, CurveType::Exponential { pow: 3 }, sample_rate),
            pitch_env: AR::new(0, release_ms, CurveType::Exponential { pow: 3 }, sample_rate),
            click_amt,
            click_env: AR::new(0, 10, CurveType::Exponential { pow: 3 }, sample_rate),
        }
    }

    /// Triggers the three envelopes at `velocity`.
    pub fn trigger(&mut self, velocity: u8)
        ensures
            final(self)@ == (KickView {
                amp: old(self)@.amp.triggered(velocity),
                pitch: old(self)@.pitch.triggered(velocity),
                click: old(self)@.click.triggered(velocity),
                ..old(self)@
            }),
    {
        self.amp_env.trigger(velocity);
        self.pitch_env.trigger(velocity);
        self.click_env.trigger(velocity);
    }

    /// Advances the three envelopes by one sample and returns their levels.
    pub fn process(&mut self) -> (levels: KickLevels)
        ensures
            levels == (KickLevels {
                amp: old(self)@.amp.output(),
                pitch: old(self)@.pitch.output(),
                click: old(self)@.click.output(),
            }),
            final(self)@ == (KickView {
                amp: old(self)@.amp.step(),
                pitch: old(self)@.pitch.step(),
                click: old(self)@.click.step(),
                ..old(self)@
            }),
    {
        let pitch = self.pitch_env.process();
        let click = self.click_env.process();
        let amp = self.amp_env.process();
        KickLevels { amp, pitch, click }
    }

    /// The pitch in hertz and the amounts of pitch sweep and click, in
    /// thousandths.
    pub fn settings(&self) -> (settings: (i32, i32, i32))
        ensures
            settings == (self@.pitch_hz, self@.pitch_env_amt, self@.click_amt),
    {
        (self.pitch_hz, self.pitch_env_amt, self.click_amt)
    }
}

/// The control side of a noise burst.
#[derive(Clone, Copy, Debug)]
pub struct Burst {
    env: AR,
}

impl View for Burst {
    type V = EnvelopeView;

    closed spec fn view(&self) -> EnvelopeView {
        self.env@
    }
}

impl Burst {
    /// A burst at rest that falls within `release` milliseconds on a
    /// squared curve.
    pub fn new(release: u32, sample_rate: u32) -> (burst: Self)
        ensures
            burst@ == drum_envelope(0, release, 2, sample_rate),
    {
        Burst { env: AR::new(0, release, CurveType::Exponential { pow: 2 }, sample_rate) }
    }

    /// Triggers the envelope at `velocity`.
    pub fn trigger(&mut self, velocity: u8)
        ensures
            final(self)@ == old(self)@.triggered(velocity),
    {
        self.env.trigger(velocity);
    }

    /// Advances the envelope by one sample and returns its level.
    pub fn process(&mut self) -> (level: Level)
        ensures
            level == old(self)@.output(),
            final(self)@ == old(self)@.step(),
    {
        self.env.process()
    }
}

} // verus!
