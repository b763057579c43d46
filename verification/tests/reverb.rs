use synth_core::reverb::{
    Reverb, ReverbPath, ALLPASS_COUNT, DELAY_COUNT, MAX_PATH_DELAY, MIN_PATH_DELAY,
};

const IMPULSE_SIGNAL: [f32; 7] = [1.0, 0.0, 0.0, 0.0, 0.0, 0.0, 0.0];

/// The state of a trapezoidal low-pass filter.
#[derive(Clone, Copy)]
struct Svf {
    a1: f32,
    a2: f32,
    a3: f32,
    ic1eq: f32,
    ic2eq: f32,
}

fn svf(freq: f32, q: f32, sample_rate: f32) -> Svf {
    let g = (std::f32::consts::PI * freq / sample_rate).tan();
    let k = 1.0 / q;
    let a1 = 1.0 / (1.0 + g * (g + k));
    let a2 = g * a1;
    let a3 = g * a2;
    Svf { a1, a2, a3, ic1eq: 0.0, ic2eq: 0.0 }
}

fn low_pass(mut f: Svf, x: f32) -> (f32, Svf) {
    let v3 = x - f.ic2eq;
    let v1 = f.a1 * f.ic1eq + f.a2 * v3;
    let v2 = f.ic2eq + f.a2 * f.ic1eq + f.a3 * v3;
    f.ic1eq = 2.0 * v1 - f.ic1eq;
    f.ic2eq = 2.0 * v2 - f.ic2eq;
    (v2, f)
}

fn cross(x: f32, delayed: f32, gain: f32) -> (f32, f32) {
    (-x + delayed, x + delayed * gain)
}

fn recirculate(x: f32, delayed: f32, gain: f32, inverted: bool, filter: Svf) -> (f32, Svf) {
    let mut y = x + delayed * gain;
    if inverted {
        y = -y;
    }
    low_pass(filter, y)
}

fn householder(xs: &mut Vec<f32>) {
    let mut sum = 0.0;
    for x in xs.iter() {
        sum += *x;
    }
    sum *= -2.0 / xs.len() as f32;
    for x in xs.iter_mut() {
        *x += sum;
    }
}

fn process(reverb: &mut Reverb<f32, Svf>, x: f32) -> f32 {
    let diffused = reverb.diffuse(x, &cross);
    let x = diffused[ALLPASS_COUNT - 1].0 / ALLPASS_COUNT as f32;
    let mut xs = reverb.fan_out(x, &recirculate);
    householder(&mut xs);
    xs.iter().fold(0.0, |acc, x| acc + *x) / DELAY_COUNT as f32
}

fn network(seed: u64) -> Reverb<f32, Svf> {
    Reverb::new(seed, 0.5, 0.9, svf(5000.0, 0.707, 48000.0), 0.0)
}

#[test]
fn test_reverb() {
    let mut reverb = network(1);
    for i in IMPULSE_SIGNAL.iter() {
        let y = process(&mut reverb, *i);
        println!("y: {}", y);
        assert!(y >= -1.0 && y <= 1.0);
    }
}

#[test]
fn impulse_response_stays_bounded() {
    let mut reverb = network(7);
    let mut heard = false;
    for n in 0..10_000 {
        let y = process(&mut reverb, if n == 0 { 1.0 } else { 0.0 });
        assert!(y >= -1.0 && y <= 1.0);
        heard = heard || y != 0.0;
    }
    assert!(heard);
}

#[test]
fn path_delays_are_drawn_within_bounds() {
    let reverb = network(42);
    let delays: Vec<usize> = (0..DELAY_COUNT).map(|path| reverb.path_delay(path).unwrap()).collect();
    for delay in delays.iter() {
        assert!(*delay >= MIN_PATH_DELAY as usize && *delay < MAX_PATH_DELAY as usize);
    }
    // drawn, not copied from a bound
    assert!(delays.iter().any(|delay| *delay != MIN_PATH_DELAY as usize));
    assert!(delays.iter().any(|delay| *delay != delays[0]));
    assert_eq!(reverb.path_delay(DELAY_COUNT), None);
    assert_eq!(reverb.path_inverted(DELAY_COUNT), None);
}

#[test]
fn some_paths_invert_and_some_do_not() {
    let reverb = network(42);
    let inverted = (0..DELAY_COUNT).filter(|path| reverb.path_inverted(*path).unwrap()).count();
    assert!(inverted > 0);
    assert!(inverted < DELAY_COUNT);
}

#[test]
fn same_seed_same_network() {
    let one = network(2024);
    let other = network(2024);
    for path in 0..DELAY_COUNT {
        assert_eq!(one.path_delay(path), other.path_delay(path));
        assert_eq!(one.path_inverted(path), other.path_inverted(path));
    }
}

#[test]
fn diffusion_chain_delays_by_its_stage_lengths() {
    let mut reverb: Reverb<i64, ()> = Reverb::new(3, 0, 0, (), 0);
    // with no feedback a stage hands on what entered it as many samples ago as it is long
    let pass = |x: i64, delayed: i64, _gain: i64| (delayed, x);
    let lengths = [861, 732, 642, 562, 410, 352, 285, 199];
    let total: usize = lengths.iter().sum();
    for n in 0..=total {
        let crossed = reverb.diffuse(if n == 0 { 1 } else { 0 }, &pass);
        assert_eq!(crossed.len(), ALLPASS_COUNT);
        let mut behind = 0;
        for (stage, length) in lengths.iter().enumerate() {
            behind += length;
            assert_eq!(crossed[stage].0, if n == behind { 1 } else { 0 });
        }
    }
}

#[test]
fn every_path_delays_by_its_own_length() {
    let mut reverb: Reverb<i64, u32> = Reverb::new(11, 0, 1, 0, 0);
    let delays: Vec<usize> = (0..DELAY_COUNT).map(|path| reverb.path_delay(path).unwrap()).collect();
    let inverted: Vec<bool> =
        (0..DELAY_COUNT).map(|path| reverb.path_inverted(path).unwrap()).collect();
    // each path adds its input to what it wrote one delay ago and counts its steps
    let comb = |x: i64, delayed: i64, gain: i64, inverted: bool, steps: u32| {
        (if inverted { -(x + gain * delayed) } else { x + gain * delayed }, steps + 1)
    };
    for n in 0..20_001usize {
        let outputs = reverb.fan_out(if n == 0 { 1 } else { 0 }, &comb);
        assert_eq!(outputs.len(), DELAY_COUNT);
        for path in 0..DELAY_COUNT {
            let expected = if n % delays[path] == 0 {
                if inverted[path] && (n / delays[path]) % 2 == 0 { -1 } else { 1 }
            } else {
                0
            };
            assert_eq!(outputs[path], expected);
        }
    }
}

#[test]
fn a_path_is_made_of_its_draws() {
    let mut path: ReverbPath<i64, u8> = ReverbPath::with_draw(12, true, 1, 0, 0);
    assert_eq!(path.delay_time(), 12);
    assert!(path.is_inverted());
    let comb = |x: i64, delayed: i64, gain: i64, inverted: bool, steps: u8| {
        (if inverted { -(x + gain * delayed) } else { x + gain * delayed }, steps + 1)
    };
    let outputs: Vec<i64> = (0..37).map(|n| path.process(if n == 0 { 1 } else { 0 }, comb)).collect();
    for (n, output) in outputs.iter().enumerate() {
        let expected = if n % 12 == 0 { if (n / 12) % 2 == 0 { -1 } else { 1 } } else { 0 };
        assert_eq!(*output, expected);
    }
    let short: ReverbPath<i64, u8> = ReverbPath::with_draw(3, false, 1, 0, 0);
    assert_eq!(short.delay_time(), MIN_PATH_DELAY as usize);
    assert!(!short.is_inverted());
    let long: ReverbPath<i64, u8> = ReverbPath::with_draw(usize::MAX, false, 1, 0, 0);
    assert_eq!(long.delay_time(), MAX_PATH_DELAY as usize - 1);
}
