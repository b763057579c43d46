//! An attack/release envelope that advances one sample per step and reports
//! its level as an exact fraction.

use vstd::arithmetic::power::pow;
use vstd::prelude::*;

verus! {

/// The velocity at which an envelope plays at full scale.
pub const FULL_VELOCITY: u8 = 127;

/// The largest value that the step counter takes: one step past the longest
/// stage that can be configured.
pub const TIME_LIMIT: u64 = 18_446_744_065_119_618;

#[derive(Clone, Copy, Debug, PartialEq, Eq, Structural)]
pub enum EnvelopeState {
    Attack,
    Release,
    Off,
}

#[derive(Clone, Copy, Debug, PartialEq, Eq, Structural)]
pub enum CurveType {
    Linear,
    Exponential { pow: i8 },
}

impl CurveType {
    /// The power to which the curve raises the fraction of the stage that
    /// has passed: one for a straight line, and no power below zero.
    pub open spec fn exponent(self) -> nat {
        match self {
            CurveType::Linear => 1,
            CurveType::Exponential { pow } => if pow > 0 {
                pow as nat
            } else {
                0
            },
        }
    }

    fn power(&self) -> (power: u8)
        ensures
            power == self.exponent(),
    {
        match *self {
            CurveType::Linear => 1,
            CurveType::Exponential { pow } => if pow > 0 {
                pow as u8
            } else {
                0
            },
        }
    }
}

/// An envelope level, exactly: the fraction `numerator / denominator` raised
/// to `exponent` and scaled by `velocity / 127`.
#[derive(Clone, Copy, Debug, PartialEq, Eq, Structural)]
pub struct Level {
    pub numerator: u64,
    pub denominator: u64,
    pub exponent: u8,
    pub velocity: u8,
}

impl Level {
    /// The fraction is proper and the velocity in range, so the level lies
    /// between zero and one.
    pub open spec fn wf(self) -> bool {
        &&& 0 < self.denominator
        &&& self.numerator <= self.denominator
        &&& self.velocity <= FULL_VELOCITY
    }

    /// The level is `top() / bottom()`.
    pub open spec fn top(self) -> int {
        self.velocity * pow(self.numerator as int, self.exponent as nat)
    }

    /// The level is `top() / bottom()`.
    pub open spec fn bottom(self) -> int {
        FULL_VELOCITY * pow(self.denominator as int, self.exponent as nat)
    }

    /// The level is no higher than `other`.
    pub open spec fn le(self, other: Level) -> bool {
        self.top() * other.bottom() <= other.top() * self.bottom()
    }

    /// The level is one.
    pub open spec fn is_full(self) -> bool {
        self.top() == self.bottom()
    }

    /// The level is zero.
    pub open spec fn is_zero(self) -> bool {
        self.top() == 0
    }

    /// The level zero.
    pub open spec fn silent(exponent: nat) -> Level {
        Level { numerator: 0, denominator: 1, exponent: exponent as u8, velocity: 0 }
    }

    /// The level one.
    pub open spec fn full(exponent: nat) -> Level {
        Level { numerator: 1, denominator: 1, exponent: exponent as u8, velocity: FULL_VELOCITY }
    }
}

/// What an envelope is, apart from how it is stored: its stage, the steps
/// counted in it, the velocity of the last trigger, the lengths of the two
/// stages in milliseconds, the sample rate in samples per second, and the
/// curve's power.
pub struct EnvelopeView {
    pub state: EnvelopeState,
    pub time: nat,
    pub velocity: nat,
    pub attack_ms: nat,
    pub release_ms: nat,
    pub rate: nat,
    pub exponent: nat,
}

impl EnvelopeView {
    /// The velocity is in range, the step counter within its limit, and the
    /// configuration what thirty-two bits can hold.
    pub open spec fn wf(self) -> bool {
        &&& self.velocity <= FULL_VELOCITY
        &&& self.time <= TIME_LIMIT
        &&& self.attack_ms <= 0xffff_ffff
        &&& self.release_ms <= 0xffff_ffff
        &&& self.rate <= 0xffff_ffff
        &&& self.exponent <= 127
    }

    /// The length of the attack in thousandths of a sample.
    pub open spec fn attack(self) -> nat {
        self.attack_ms * self.rate
    }

    /// The length of the release in thousandths of a sample.
    pub open spec fn release(self) -> nat {
        self.release_ms * self.rate
    }

    /// The level that the next step returns.
    ///
    /// In the attack the level rises along the curve with the fraction of the
    /// stage that has passed, scaled by the velocity, and is exactly one on
    /// the step on which the stage is over, whatever the velocity; a stage of
    /// no length is over at once. In the release it falls with the fraction of
    /// the stage that remains, scaled by the velocity, down to silence. Off is
    /// silent.
    pub open spec fn output(self) -> Level {
        match self.state {
            EnvelopeState::Attack => if 1000 * self.time >= self.attack() {
                Level::full(self.exponent)
            } else {
                Level {
                    numerator: (1000 * self.time) as u64,
                    denominator: self.attack() as u64,
                    exponent: self.exponent as u8,
                    velocity: self.velocity as u8,
                }
            },
            EnvelopeState::Release => if 1000 * self.time >= self.release() {
                Level::silent(self.exponent)
            } else {
                Level {
                    numerator: (self.release() - 1000 * self.time) as u64,
                    denominator: self.release() as u64,
                    exponent: self.exponent as u8,
                    velocity: self.velocity as u8,
                }
            },
            EnvelopeState::Off => Level::silent(self.exponent),
        }
    }

    /// The envelope after the next step: a stage that is over gives way to
    /// the next one and the count starts again; every step counts one.
    pub open spec fn step(self) -> EnvelopeView {
        match self.state {
            EnvelopeState::Attack => if 1000 * self.time >= self.attack() {
                EnvelopeView { state: EnvelopeState::Release, time: 1, ..self }
            } else {
                EnvelopeView { time: self.time + 1, ..self }
            },
            EnvelopeState::Release => if 1000 * self.time >= self.release() {
                EnvelopeView { state: EnvelopeState::Off, time: 1, ..self }
            } else {
                EnvelopeView { time: self.time + 1, ..self }
            },
            EnvelopeState::Off => EnvelopeView { time: 1, ..self },
        }
    }

    /// The envelope after `steps` steps.
    pub open spec fn after(self, steps: nat) -> EnvelopeView
        decreases steps,
    {
        if steps == 0 {
            self
        } else {
            self.step().after((steps - 1) as nat)
        }
    }

    /// The envelope once it has been triggered at `velocity`: the attack
    /// begins and its count starts at one, whatever was counted before, so
    /// that the step on which the attack is over is the one that bears the
    /// number of its samples.
    pub open spec fn triggered(self, velocity: u8) -> EnvelopeView {
        EnvelopeView {
            state: EnvelopeState::Attack,
            time: 1,
            velocity: if velocity > FULL_VELOCITY {
                FULL_VELOCITY as nat
            } else {
                velocity as nat
            },
            ..self
        }
    }

    /// The number of steps that a stage of `length` thousandths of a sample
    /// takes: its length in samples, rounded up.
    pub open spec fn steps_of(length: nat) -> nat {
        (length + 999) / 1000
    }

    /// The level that step number `n` from here returns, counting from one.
    pub open spec fn level_of_step(self, n: nat) -> Level
        recommends
            n >= 1,
    {
        self.after((n - 1) as nat).output()
    }

    /// The number of the step, counting from one, on which an envelope in
    /// its attack returns the peak: the first step on which the count has
    /// reached the length of the attack.
    pub open spec fn steps_to_peak(self) -> nat {
        if Self::steps_of(self.attack()) > self.time {
            (Self::steps_of(self.attack()) - self.time + 1) as nat
        } else {
            1
        }
    }

    /// A number of steps after which the envelope is at rest, whatever its
    /// stage.
    pub open spec fn steps_to_rest(self) -> nat {
        let release = if Self::steps_of(self.release()) > self.time {
            (Self::steps_of(self.release()) - self.time + 1) as nat
        } else {
            1
        };
        match self.state {
            EnvelopeState::Attack => self.steps_to_peak() + Self::steps_of(self.release()) + 1,
            EnvelopeState::Release => release,
            EnvelopeState::Off => 0,
        }
    }
}

proof fn lemma_pow_of_base(low: int, high: int, e: nat)
    requires
        0 <= low <= high,
    ensures
        0 <= pow(low, e) <= pow(high, e),
    decreases e,
{
    reveal(pow);
    if e > 0 {
        lemma_pow_of_base(low, high, (e - 1) as nat);
        vstd::arithmetic::mul::lemma_mul_upper_bound(
            low,
            high,
            pow(low, (e - 1) as nat),
            pow(high, (e - 1) as nat),
        );
        vstd::arithmetic::mul::lemma_mul_nonnegative(low, pow(low, (e - 1) as nat));
    }
}

/// Of two proper levels on one curve, the one with the smaller fraction and
/// the lower velocity is no higher.
proof fn lemma_le_on_curve(low: Level, high: Level)
    requires
        low.exponent == high.exponent,
        low.velocity <= high.velocity,
        0 < low.denominator,
        0 < high.denominator,
        low.numerator * high.denominator <= high.numerator * low.denominator,
    ensures
        low.le(high),
{
    let e = low.exponent as nat;
    let v = low.velocity as int;
    let w = high.velocity as int;
    let left = pow(low.numerator as int, e) * pow(high.denominator as int, e);
    let right = pow(high.numerator as int, e) * pow(low.denominator as int, e);
    vstd::arithmetic::power::lemma_pow_distributes(low.numerator as int, high.denominator as int, e);
    vstd::arithmetic::power::lemma_pow_distributes(high.numerator as int, low.denominator as int, e);
    assert(0 <= low.numerator * high.denominator) by (nonlinear_arith)
        requires
            0 <= low.numerator,
            0 <= high.denominator,
    ;
    lemma_pow_of_base(low.numerator * high.denominator, high.numerator * low.denominator, e);
    assert(left <= right);
    assert(low.top() * high.bottom() <= high.top() * low.bottom()) by (nonlinear_arith)
        requires
            low.top() == v * pow(low.numerator as int, e),
            high.top() == w * pow(high.numerator as int, e),
            low.bottom() == 127 * pow(low.denominator as int, e),
            high.bottom() == 127 * pow(high.denominator as int, e),
            left == pow(low.numerator as int, e) * pow(high.denominator as int, e),
            right == pow(high.numerator as int, e) * pow(low.denominator as int, e),
            left <= right,
            0 <= left,
            0 <= v <= w,
    ;
}

proof fn lemma_silent_is_zero(exponent: nat)
    ensures
        Level::silent(exponent).is_zero(),
{
    let level = Level::silent(exponent);
    assert(level.velocity * pow(level.numerator as int, level.exponent as nat) == 0)
        by (nonlinear_arith)
        requires
            level.velocity == 0,
    ;
}

proof fn lemma_attack_run(envelope: EnvelopeView, steps: nat)
    requires
        envelope.state == EnvelopeState::Attack,
        steps > 0 ==> 1000 * (envelope.time + steps - 1) < envelope.attack(),
    ensures
        envelope.after(steps) == (EnvelopeView { time: envelope.time + steps, ..envelope }),
    decreases steps,
{
    if steps > 0 {
        lemma_attack_run(envelope.step(), (steps - 1) as nat);
    }
}

/// An envelope in its attack returns exactly one on the step on which the
/// count reaches the attack's length, whatever its velocity, and from step
/// to step before that its level never falls.
pub proof fn law_attack_rises_to_peak(envelope: EnvelopeView, n: nat)
    requires
        envelope.wf(),
        envelope.state == EnvelopeState::Attack,
    ensures
        envelope.level_of_step(envelope.steps_to_peak()) == Level::full(envelope.exponent),
        envelope.level_of_step(envelope.steps_to_peak()).is_full(),
        1 <= n < envelope.steps_to_peak() ==> envelope.level_of_step(n).le(
            envelope.level_of_step(n + 1),
        ),
{
    let last = (envelope.steps_to_peak() - 1) as nat;
    lemma_stage_bound(envelope.attack_ms, envelope.rate);
    lemma_attack_run(envelope, last);
    if 1 <= n < envelope.steps_to_peak() {
        lemma_attack_run(envelope, (n - 1) as nat);
        lemma_attack_run(envelope, n);
        let low = envelope.level_of_step(n);
        let high = envelope.level_of_step(n + 1);
        assert(low.numerator == 1000 * (envelope.time + n - 1));
        assert(low.denominator == envelope.attack());
        if n + 1 < envelope.steps_to_peak() {
            assert(high.numerator == 1000 * (envelope.time + n));
            assert(low.numerator * high.denominator <= high.numerator * low.denominator)
                by (nonlinear_arith)
                requires
                    low.numerator <= high.numerator,
                    low.denominator == high.denominator,
            ;
        } else {
            assert(high == Level::full(envelope.exponent));
            assert(low.numerator * high.denominator <= high.numerator * low.denominator)
                by (nonlinear_arith)
                requires
                    low.numerator <= low.denominator,
                    high.denominator == 1,
                    high.numerator == 1,
            ;
        }
        lemma_le_on_curve(low, high);
    }
}

/// Whatever an envelope did before, once it is triggered, at full velocity
/// or any other, and its attack is `samples` whole samples long, step number
/// `samples` returns exactly one, and the level never falls on the way
/// there. An attack of no length returns one on the first step.
pub proof fn law_attack_reaches_one(envelope: EnvelopeView, velocity: u8, samples: nat, n: nat)
    requires
        envelope.wf(),
        envelope.attack() == 1000 * samples,
    ensures
        envelope.triggered(velocity).level_of_step(
            if samples == 0 {
                1
            } else {
                samples
            },
        ) == Level::full(envelope.exponent),
        envelope.triggered(velocity).level_of_step(
            if samples == 0 {
                1
            } else {
                samples
            },
        ).is_full(),
        1 <= n < samples ==> envelope.triggered(velocity).level_of_step(n).le(
            envelope.triggered(velocity).level_of_step(n + 1),
        ),
{
    let begun = envelope.triggered(velocity);
    assert(begun.steps_to_peak() == if samples == 0 {
        1
    } else {
        samples
    });
    law_attack_rises_to_peak(begun, n);
}

/// After `steps_to_rest` steps or more, an envelope that is not triggered
/// again is at rest.
pub proof fn law_comes_to_rest(envelope: EnvelopeView, steps: nat)
    requires
        envelope.wf(),
        steps >= envelope.steps_to_rest(),
    ensures
        envelope.after(steps).state == EnvelopeState::Off,
        envelope.after(steps).output().is_zero(),
    decreases steps,
{
    lemma_stage_bound(envelope.attack_ms, envelope.rate);
    lemma_stage_bound(envelope.release_ms, envelope.rate);
    if steps > 0 {
        law_comes_to_rest(envelope.step(), (steps - 1) as nat);
    }
    lemma_silent_is_zero(envelope.after(steps).exponent);
}

/// The release ends on the step that returns silence and on no other: with
/// that step the envelope is at rest, before it the envelope sounds.
pub proof fn law_release_ends_in_silence(envelope: EnvelopeView)
    requires
        envelope.wf(),
        envelope.state == EnvelopeState::Release,
    ensures
        envelope.step().state == EnvelopeState::Off <==> envelope.output() == Level::silent(
            envelope.exponent,
        ),
        envelope.step().state != EnvelopeState::Off ==> envelope.step().state
            == EnvelopeState::Release && envelope.output().numerator > 0,
{
    lemma_stage_bound(envelope.release_ms, envelope.rate);
}

/// An envelope at rest stays at rest and silent until it is triggered.
pub proof fn law_rest_lasts(envelope: EnvelopeView, steps: nat)
    requires
        envelope.state == EnvelopeState::Off,
    ensures
        envelope.after(steps).state == EnvelopeState::Off,
        envelope.after(steps).output().is_zero(),
    decreases steps,
{
    if steps > 0 {
        law_rest_lasts(envelope.step(), (steps - 1) as nat);
    }
    lemma_silent_is_zero(envelope.after(steps).exponent);
}

/// An attack/release envelope.
#[derive(Clone, Copy, Debug)]
pub struct AR {
    attack_ms: u32,
    release_ms: u32,
    time: u64,
    velocity: u8,
    state: EnvelopeState,
    curve_type: CurveType,
    sample_rate: u32,
}

impl View for AR {
    type V = EnvelopeView;

    closed spec fn view(&self) -> EnvelopeView {
        EnvelopeView {
            state: self.state,
            time: self.time as nat,
            velocity: self.velocity as nat,
            attack_ms: self.attack_ms as nat,
            release_ms: self.release_ms as nat,
            rate: self.sample_rate as nat,
            exponent: self.curve_type.exponent(),
        }
    }
}

proof fn lemma_stage_bound(ms: nat, rate: nat)
    requires
        ms <= 0xffff_ffff,
        rate <= 0xffff_ffff,
    ensures
        0 <= ms * rate <= 0xffff_ffff * 0xffff_ffff,
{
    assert(0 <= ms * rate <= 0xffff_ffff * 0xffff_ffff) by (nonlinear_arith)
        requires
            0 <= ms <= 0xffff_ffff,
            0 <= rate <= 0xffff_ffff,
    ;
}

impl AR {
    #[verifier::type_invariant]
    spec fn well_formed(self) -> bool {
        &&& self.velocity <= FULL_VELOCITY
        &&& self.time <= TIME_LIMIT
    }

    /// An envelope at rest, with stages of `attack_ms` and `release_ms`
    /// milliseconds at `sample_rate` samples per second.
    pub fn new(attack_ms: u32, release_ms: u32, curve_type: CurveType, sample_rate: u32) -> (ar:
        Self)
        ensures
            ar@ == (EnvelopeView {
                state: EnvelopeState::Off,
                time: 0,
                velocity: FULL_VELOCITY as nat,
                attack_ms: attack_ms as nat,
                release_ms: release_ms as nat,
                rate: sample_rate as nat,
                exponent: curve_type.exponent(),
            }),
            ar@.wf(),
    {
        AR {
            attack_ms,
            release_ms,
            time: 0,
            velocity: FULL_VELOCITY,
            state: EnvelopeState::Off,
            curve_type,
            sample_rate,
        }
    }

    /// Starts the attack at `velocity`, which is limited to the seven-bit
    /// range, and starts the count of its steps at one.
    pub fn trigger(&mut self, velocity: u8)
        ensures
            final(self)@ == old(self)@.triggered(velocity),
            final(self)@.wf(),
    {
        proof {
            use_type_invariant(&*self);
        }
        self.velocity = if velocity > FULL_VELOCITY {
            FULL_VELOCITY
        } else {
            velocity
        };
        self.state = EnvelopeState::Attack;
        self.time = 1;
    }

    /// Silences the envelope at once.
    pub fn release(&mut self)
        ensures
            final(self)@ == (EnvelopeView { state: EnvelopeState::Off, ..old(self)@ }),
            final(self)@.wf(),
    {
        proof {
            use_type_invariant(&*self);
        }
        self.state = EnvelopeState::Off;
    }

    /// Advances the envelope by one sample and returns its level.
    pub fn process(&mut self) -> (level: Level)
        ensures
            level == old(self)@.output(),
            level.wf(),
            final(self)@ == old(self)@.step(),
            old(self)@.wf(),
            final(self)@.wf(),
    {
        proof {
            use_type_invariant(&*self);
            lemma_stage_bound(self.attack_ms as nat, self.sample_rate as nat);
            lemma_stage_bound(self.release_ms as nat, self.sample_rate as nat);
        }
        let power = self.curve_type.power();
        let passed: u64 = 1000 * self.time;
        let level = match self.state {
            EnvelopeState::Attack => {
                let length: u64 = self.attack_ms as u64 * self.sample_rate as u64;
                if passed >= length {
                    self.time = 0;
                    self.state = EnvelopeState::Release;
                    Level { numerator: 1, denominator: 1, exponent: power, velocity: FULL_VELOCITY }
                } else {
                    Level {
                        numerator: passed,
                        denominator: length,
                        exponent: power,
                        velocity: self.velocity,
                    }
                }
            },
            EnvelopeState::Release => {
                let length: u64 = self.release_ms as u64 * self.sample_rate as u64;
                if passed >= length {
                    self.time = 0;
                    self.state = EnvelopeState::Off;
                    Level { numerator: 0, denominator: 1, exponent: power, velocity: 0 }
                } else {
                    Level {
                        numerator: length - passed,
                        denominator: length,
                        exponent: power,
                        velocity: self.velocity,
                    }
                }
            },
            EnvelopeState::Off => {
                self.time = 0;
                Level { numerator: 0, denominator: 1, exponent: power, velocity: 0 }
            },
        };
        self.time = self.time + 1;
        level
    }

    /// Whether the envelope is in a stage that sounds.
    pub fn is_active(&self) -> (active: bool)
        ensures
            active == (self@.state != EnvelopeState::Off),
            self@.wf(),
    {
        proof {
            use_type_invariant(self);
        }
        match self.state {
            EnvelopeState::Attack => true,
            EnvelopeState::Release => true,
            _ => false,
        }
    }

    /// Sets the length of the attack in milliseconds.
    pub fn set_attack(&mut self, attack_ms: u32)
        ensures
            final(self)@ == (EnvelopeView { attack_ms: attack_ms as nat, ..old(self)@ }),
            final(self)@.wf(),
    {
        proof {
            use_type_invariant(&*self);
        }
        self.attack_ms = attack_ms;
    }

    /// Sets the length of the release in milliseconds.
    pub fn set_release(&mut self, release_ms: u32)
        ensures
            final(self)@ == (EnvelopeView { release_ms: release_ms as nat, ..old(self)@ }),
            final(self)@.wf(),
    {
        proof {
            use_type_invariant(&*self);
        }
        self.release_ms = release_ms;
    }

    /// The stage the envelope is in.
    pub fn state(&self) -> (state: EnvelopeState)
        ensures
            state == self@.state,
    {
        self.state
    }

    /// The length of the attack in milliseconds.
    pub fn attack_ms(&self) -> (attack_ms: u32)
        ensures
            attack_ms == self@.attack_ms,
    {
        self.attack_ms
    }

    /// The length of the release in milliseconds.
    pub fn release_ms(&self) -> (release_ms: u32)
        ensures
            release_ms == self@.release_ms,
    {
        self.release_ms
    }
}

} // verus!
