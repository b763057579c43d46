use synth_core::envelopes::{CurveType, EnvelopeState, Level, AR};

fn value(level: Level) -> f32 {
    let passed = level.numerator as f32 / level.denominator as f32;
    let curve = if level.exponent == 1 { passed } else { passed.powf(level.exponent as f32) };
    curve * (level.velocity as f32 / 127.0)
}

#[test]
fn creates_new_ar_envelope() {
    let attack = 10;
    let release = 500;
    let sample_rate = 48000;
    let ar = AR::new(attack, release, CurveType::Exponential { pow: 2 }, sample_rate);

    assert_eq!(ar.attack_ms(), attack);
    assert_eq!(ar.release_ms(), release);
}

#[test]
fn test_lin_attack() {
    let attack_ms = 10;
    let release_ms = 500;
    let sample_rate = 48000;
    let mut ar = AR::new(attack_ms, release_ms, CurveType::Linear, sample_rate);

    ar.trigger(127);
    assert!(matches!(ar.state(), EnvelopeState::Attack));
    assert_eq!(value(ar.process()), 0.0020833334);
    assert_eq!(value(ar.process()), 0.004166667);
}

#[test]
fn test_exp_attack() {
    let attack = 10;
    let release = 500;
    let sample_rate = 48000;
    let mut ar = AR::new(attack, release, CurveType::Exponential { pow: 2 }, sample_rate);

    ar.trigger(127);
    assert!(matches!(ar.state(), EnvelopeState::Attack));
    assert_eq!(value(ar.process()), 4.3402783e-6);
    assert_eq!(value(ar.process()), 1.7361113e-5);
}

#[test]
fn test_lin_release() {
    let attack = 0;
    let release = 5;
    let sample_rate = 48000;
    let mut ar = AR::new(attack, release, CurveType::Linear, sample_rate);

    ar.trigger(127);
    assert_eq!(value(ar.process()), 1.0);
    assert!(matches!(ar.state(), EnvelopeState::Release));
    assert_eq!(value(ar.process()), 0.99583334);
}

#[test]
fn test_exp_release() {
    let attack = 0;
    let release = 5;
    let sample_rate = 48000;
    let mut ar = AR::new(attack, release, CurveType::Exponential { pow: 2 }, sample_rate);

    ar.trigger(127);
    assert_eq!(value(ar.process()), 1.0);
    assert!(matches!(ar.state(), EnvelopeState::Release));
    assert_eq!(value(ar.process()), 0.991684);
}

#[test]
fn test_is_active() {
    let attack = 1;
    let release = 1;
    let sample_rate = 48000;
    let mut ar = AR::new(attack, release, CurveType::Exponential { pow: 2 }, sample_rate);
    assert_eq!(ar.is_active(), false);

    ar.trigger(127);
    assert_eq!(ar.is_active(), true);

    for _ in 0..100 {
        ar.process();
    }
    assert_eq!(ar.is_active(), false);
}

#[test]
fn levels_are_exact_fractions() {
    let mut ar = AR::new(10, 5, CurveType::Exponential { pow: 3 }, 48000);
    ar.trigger(100);
    assert_eq!(ar.process(), Level { numerator: 1000, denominator: 480_000, exponent: 3, velocity: 100 });
    assert_eq!(ar.process(), Level { numerator: 2000, denominator: 480_000, exponent: 3, velocity: 100 });
    for _ in 3..480 {
        ar.process();
    }
    assert!(matches!(ar.state(), EnvelopeState::Attack));
    assert_eq!(ar.process(), Level { numerator: 1, denominator: 1, exponent: 3, velocity: 127 });
    assert!(matches!(ar.state(), EnvelopeState::Release));
    assert_eq!(ar.process(), Level { numerator: 239_000, denominator: 240_000, exponent: 3, velocity: 100 });
}

fn rises_to_one_on_step(ar: &mut AR, velocity: u8, samples: u32) {
    ar.trigger(velocity);
    let mut last = 0.0;
    for _ in 1..samples {
        let now = value(ar.process());
        assert!(now >= last);
        assert!(now < 1.0);
        last = now;
    }
    assert_eq!(value(ar.process()), 1.0);
    assert!(matches!(ar.state(), EnvelopeState::Release));
}

#[test]
fn attack_reaches_one_on_the_last_of_its_steps() {
    // 10 ms at 48 kHz are 480 samples
    let mut fresh = AR::new(10, 500, CurveType::Exponential { pow: 2 }, 48000);
    rises_to_one_on_step(&mut fresh, 127, 480);
    let mut linear = AR::new(10, 500, CurveType::Linear, 48000);
    rises_to_one_on_step(&mut linear, 127, 480);
}

#[test]
fn attack_reaches_one_whatever_came_before() {
    let mut ar = AR::new(10, 500, CurveType::Linear, 48000);
    // after steps at rest
    for _ in 0..7 {
        ar.process();
    }
    rises_to_one_on_step(&mut ar, 127, 480);
    // in the middle of the release
    for _ in 0..1000 {
        ar.process();
    }
    rises_to_one_on_step(&mut ar, 127, 480);
    // in the middle of the attack
    ar.trigger(127);
    for _ in 0..200 {
        ar.process();
    }
    rises_to_one_on_step(&mut ar, 127, 480);
}

#[test]
fn attack_reaches_one_at_any_velocity() {
    let mut ar = AR::new(1, 5, CurveType::Linear, 48000);
    rises_to_one_on_step(&mut ar, 64, 48);
    // the release then falls from the level of the velocity
    assert_eq!(ar.process(), Level { numerator: 239_000, denominator: 240_000, exponent: 1, velocity: 64 });
    let mut none = AR::new(0, 5, CurveType::Linear, 48000);
    none.trigger(1);
    assert_eq!(value(none.process()), 1.0);
}

#[test]
fn zero_length_attack_peaks_at_once() {
    let mut ar = AR::new(0, 0, CurveType::Linear, 48000);
    ar.trigger(127);
    assert_eq!(value(ar.process()), 1.0);
    assert_eq!(value(ar.process()), 0.0);
    assert!(matches!(ar.state(), EnvelopeState::Off));
    assert_eq!(ar.is_active(), false);
}

#[test]
fn envelope_comes_to_rest_and_stays_silent() {
    let mut ar = AR::new(1, 2, CurveType::Linear, 1000);
    assert_eq!(ar.is_active(), false);
    ar.trigger(64);
    // the step that ends the attack, one step of release, the step that ends it
    let mut steps = 0;
    while ar.is_active() {
        ar.process();
        steps += 1;
        assert!(steps <= 5);
    }
    assert_eq!(steps, 3);
    for _ in 0..10 {
        assert_eq!(value(ar.process()), 0.0);
        assert_eq!(ar.is_active(), false);
    }
}

#[test]
fn velocity_is_clamped_and_scales_the_level() {
    let mut ar = AR::new(0, 10, CurveType::Linear, 48000);
    ar.trigger(200);
    assert_eq!(ar.process(), Level { numerator: 1, denominator: 1, exponent: 1, velocity: 127 });
    assert_eq!(ar.process().velocity, 127);
    ar.trigger(64);
    assert_eq!(ar.process(), Level { numerator: 1, denominator: 1, exponent: 1, velocity: 127 });
    assert_eq!(ar.process(), Level { numerator: 479_000, denominator: 480_000, exponent: 1, velocity: 64 });
}

#[test]
fn release_silences_at_once() {
    let mut ar = AR::new(10, 10, CurveType::Linear, 48000);
    ar.trigger(127);
    ar.process();
    ar.release();
    assert_eq!(ar.is_active(), false);
    assert_eq!(value(ar.process()), 0.0);
}

#[test]
fn stage_lengths_can_be_set() {
    let mut ar = AR::new(10, 10, CurveType::Exponential { pow: -4 }, 48000);
    ar.set_attack(1);
    ar.set_release(2);
    assert_eq!(ar.attack_ms(), 1);
    assert_eq!(ar.release_ms(), 2);
    ar.trigger(127);
    // a power below zero counts as zero
    assert_eq!(ar.process(), Level { numerator: 1000, denominator: 48_000, exponent: 0, velocity: 127 });
}
