use synth_core::delay::{capacity_for, Delay, DelayLine, InterpolationType, Taps};

const BUFFER_LENGTH: usize = 48000;

fn linear(s0: f32, s1: f32, frac: f32) -> f32 {
    (1.0 - frac) * s0 + frac * s1
}

fn cubic(s0: f32, s1: f32, s2: f32, s3: f32, frac: f32) -> f32 {
    let a = (3.0 * (s1 - s2) - s0 + s3) / 2.0;
    let b = 2.0 * s2 + s0 - (5.0 / 2.0) * s1 - s3 / 2.0;
    let c = (s2 - s0) / 2.0;
    let d = s1;
    a * frac.powi(3) + b * frac.powi(2) + c * frac + d
}

fn weigh(taps: Taps<f32>, frac: f32) -> f32 {
    match taps {
        Taps::Nearest(s0) => s0,
        Taps::Linear(s0, s1) => linear(s0, s1, frac),
        Taps::Cubic(s0, s1, s2, s3) => cubic(s0, s1, s2, s3, frac),
    }
}

fn read(line: &DelayLine<f32>, delay: f32) -> f32 {
    let whole = delay.ceil();
    weigh(line.read(whole as usize), whole - delay)
}

#[test]
fn new_creates_delay() {
    let delay = Delay::new(1, 0.5, 0.5, BUFFER_LENGTH, 0.0);
    assert_eq!(delay.time_samples() as f32 - delay.fraction(), 0.5);
    assert_eq!(delay.feedback(), 0.5);
}

#[test]
fn new_creates_delay_line() {
    let delay_line = DelayLine::new(InterpolationType::Nearest, BUFFER_LENGTH, 0.0);
    assert_eq!(delay_line.index(), 0);
    assert_eq!(delay_line.stored(), vec![0.0; BUFFER_LENGTH]);
}

#[test]
fn delay_line_write_and_increment() {
    let mut delay_line = DelayLine::new(InterpolationType::Nearest, BUFFER_LENGTH, 0.0);
    delay_line.write_and_increment(0.5);
    assert_eq!(delay_line.index(), 1);
    assert_eq!(delay_line.stored()[BUFFER_LENGTH - 1], 0.5);
}

#[test]
fn delay_line_read() {
    let mut delay_line = DelayLine::new(InterpolationType::Nearest, BUFFER_LENGTH, 0.0);
    for _ in 0..BUFFER_LENGTH {
        delay_line.write_and_increment(0.5);
    }
    for i in 0..BUFFER_LENGTH {
        assert_eq!(read(&delay_line, i as f32), 0.5);
    }
}

#[test]
fn test_delay_line_linear_interpolate() {
    let mut delay_line = DelayLine::new(InterpolationType::Linear, BUFFER_LENGTH, 0.0);
    delay_line.write_and_increment(1.0);
    delay_line.write_and_increment(0.5);
    assert_eq!(read(&delay_line, 0.5), 0.25);
    assert_eq!(read(&delay_line, 1.0), 0.5);
    assert_eq!(read(&delay_line, 1.5), 0.75);
    assert_eq!(read(&delay_line, 2.0), 1.0);
    assert_eq!(read(&delay_line, 2.5), 0.5);
}

#[test]
fn test_delay_line_cubic_interpolate() {
    let mut delay_line = DelayLine::new(InterpolationType::Cubic, BUFFER_LENGTH, 0.0);
    delay_line.write_and_increment(1.0);
    delay_line.write_and_increment(0.75);
    delay_line.write_and_increment(0.5);
    delay_line.write_and_increment(0.25);
    assert_eq!(read(&delay_line, 1.0), 0.25);
    assert_eq!(read(&delay_line, 1.5), 0.375);
    assert_eq!(read(&delay_line, 2.0), 0.5);
    assert_eq!(read(&delay_line, 2.5), 0.625);
    assert_eq!(read(&delay_line, 3.0), 0.75);
    // The first slot of the buffer has its neighbour in the last one, and a
    // whole delay reads the stored sample.
    assert_eq!(read(&delay_line, 3.5), 0.953125);
    assert_eq!(read(&delay_line, 4.0), 1.0);
    assert_eq!(read(&delay_line, 4.5), 0.515625);
    assert_eq!(read(&delay_line, 5.0), 0.0);
}

#[test]
fn capacity_is_at_least_one() {
    let mut line = DelayLine::new(InterpolationType::Nearest, 0, 0i32);
    assert_eq!(line.capacity(), 1);
    line.write_and_increment(7);
    assert_eq!(line.index(), 0);
    assert!(matches!(line.read(0), Taps::Nearest(7)));
    assert!(matches!(line.read(5), Taps::Nearest(7)));
}

#[test]
fn read_finds_what_was_written_delay_writes_ago() {
    let capacity = 8;
    let mut line = DelayLine::new(InterpolationType::Nearest, capacity, 0i32);
    for written in 1..=20 {
        line.write_and_increment(written);
        for delay in 1..capacity {
            let found = written - delay as i32 + 1;
            let expected = if found >= 1 { found } else { 0 };
            assert!(matches!(line.read(delay), Taps::Nearest(s) if s == expected));
        }
        let oldest = if written >= capacity as i32 { written - capacity as i32 + 1 } else { 0 };
        assert!(matches!(line.read(0), Taps::Nearest(s) if s == oldest));
    }
}

#[test]
fn read_after_filling_half_the_line() {
    // capacity 8, delay 4: after 5 writes the read finds the sample written
    // 8 - 4 - 1 = 3 writes before the last one.
    let mut line = DelayLine::new(InterpolationType::Nearest, 8, 0i32);
    for written in [10, 20, 30, 40, 50] {
        line.write_and_increment(written);
    }
    assert!(matches!(line.read(4), Taps::Nearest(20)));
}

#[test]
fn delay_beyond_capacity_is_clamped() {
    let mut line = DelayLine::new(InterpolationType::Nearest, 4, 0i32);
    for written in [1, 2, 3, 4, 5, 6] {
        line.write_and_increment(written);
    }
    assert!(matches!(line.read(3), Taps::Nearest(4)));
    assert!(matches!(line.read(4), Taps::Nearest(4)));
    assert!(matches!(line.read(usize::MAX), Taps::Nearest(4)));
}

#[test]
fn every_policy_anchors_at_the_stored_sample() {
    for policy in [InterpolationType::Nearest, InterpolationType::Linear, InterpolationType::Cubic] {
        let mut line = DelayLine::new(policy, 6, 0i32);
        for written in [11, 22, 33, 44, 55, 66, 77] {
            line.write_and_increment(written);
        }
        for delay in 1..6usize {
            assert_eq!(line.read(delay).at_position(), 77 - 11 * (delay as i32 - 1));
        }
        assert_eq!(line.read(0).at_position(), 22);
    }
}

#[test]
fn cubic_taps_wrap_round_the_buffer() {
    let mut line = DelayLine::new(InterpolationType::Cubic, 4, 0i32);
    for written in [1, 2, 3, 4] {
        line.write_and_increment(written);
    }
    // stored, oldest first: 1 2 3 4; the cursor stands on 1
    assert!(matches!(line.read(0), Taps::Cubic(4, 1, 2, 3)));
    assert!(matches!(line.read(1), Taps::Cubic(3, 4, 1, 2)));
    assert!(matches!(line.read(2), Taps::Cubic(2, 3, 4, 1)));
    assert!(matches!(line.read(3), Taps::Cubic(1, 2, 3, 4)));
}

#[test]
fn tick_feeds_the_output_back() {
    let mut delay = Delay::new(2, 0.0f32, 0.5, 4, 0.0);
    let comb = |input: f32, taps: Taps<f32>, frac: f32, gain: f32| input + gain * weigh(taps, frac);
    let outputs: Vec<f32> = [1.0, 0.0, 0.0, 0.0, 0.0, 0.0, 0.0].iter().map(|x| delay.tick(*x, comb)).collect();
    assert_eq!(outputs, vec![1.0, 0.0, 0.5, 0.0, 0.25, 0.0, 0.125]);
    delay.set_feedback(0.25);
    delay.set_delay_time(1, 0.0);
    assert_eq!(delay.feedback(), 0.25);
    assert_eq!(delay.time_samples(), 1);
}

#[test]
fn capacity_follows_rate_and_longest_delay() {
    assert_eq!(capacity_for(48000, 5), 240_001);
    assert_eq!(capacity_for(44100, 0), 1);
    assert_eq!(capacity_for(0, 9), 1);
    // a delay of the whole span of two seconds at 8 samples per second is not cut short
    let mut delay = Delay::for_span(16, 0i64, 1, 8, 2, 0);
    let comb = |input: i64, taps: Taps<i64>, _frac: i64, gain: i64| input + gain * taps.at_position();
    let outputs: Vec<i64> = (0..40).map(|n| delay.tick(if n == 0 { 1 } else { 0 }, comb)).collect();
    for (n, output) in outputs.iter().enumerate() {
        assert_eq!(*output, if n % 16 == 0 { 1 } else { 0 });
    }
    assert_eq!(delay.time_samples(), 16);
}
