use crossbeam::channel::unbounded;
use synth_core::engine::{
    announce, Engine, NotePlayed, DEFAULT_LOOP_TICKS, DRAIN_LIMIT, TRACK_COUNT,
};
use synth_core::envelopes::{EnvelopeState, Level};
use synth_core::plaits_voice::VoiceLevels;
use synth_core::sequencer::{Event, Message, ScheduledEvent, TEMPO_SCALE, TICKS_PER_BEAT};

const TEMPO: u32 = 120 * TEMPO_SCALE;

fn note(beat_time: u32, pitch: u8, track: u8) -> Event {
    Event { beat_time, pitch, velocity: 100, track, param1: 0, param2: 0, duration: 1 }
}

#[test]
fn new_engine_is_stopped_and_silent() {
    let (_tx, rx) = unbounded();
    let mut engine = Engine::new(rx, 48000);
    assert!(!engine.is_playing);
    assert!(!engine.is_playing());
    assert_eq!(engine.voice_count(), TRACK_COUNT);
    assert_eq!(engine.sequencer().events().len(), 0);
    assert_eq!(engine.sequencer().length(), DEFAULT_LOOP_TICKS);
    assert_eq!(DEFAULT_LOOP_TICKS, 4 * TICKS_PER_BEAT);
    for track in 0..TRACK_COUNT {
        assert!(!engine.voice(track as u8).is_active());
    }
    let block = engine.process(0, TEMPO, 8);
    assert!(block.messages.is_empty());
    assert!(block.events.is_empty());
    assert_eq!(block.frames.len(), 8);
    for frame in block.frames.iter() {
        assert!(frame.notes.is_empty());
        assert_eq!(frame.levels, vec![None; TRACK_COUNT]);
    }
}

#[test]
fn messages_are_drained_in_order_before_the_block() {
    let (tx, rx) = unbounded();
    let mut engine = Engine::new(rx, 48000);
    tx.send(Message::Schedule(note(0, 60, 0))).unwrap();
    tx.send(Message::Schedule(note(1, 62, 1))).unwrap();
    tx.send(Message::Clear).unwrap();
    tx.send(Message::Schedule(note(0, 64, 2))).unwrap();
    let received = engine.get_msgs();
    assert_eq!(
        received,
        vec![
            Message::Schedule(note(0, 60, 0)),
            Message::Schedule(note(1, 62, 1)),
            Message::Clear,
            Message::Schedule(note(0, 64, 2)),
        ]
    );
    assert_eq!(engine.sequencer().events(), &vec![note(0, 64, 2)]);
    assert!(engine.get_msgs().is_empty());
}

#[test]
fn stopped_engine_schedules_nothing() {
    let (tx, rx) = unbounded();
    let mut engine = Engine::new(rx, 48000);
    tx.send(Message::Schedule(note(0, 60, 0))).unwrap();
    let block = engine.process(0, TEMPO, 4);
    assert_eq!(block.messages.len(), 1);
    assert!(block.events.is_empty());
    assert!(block.frames.iter().all(|frame| frame.notes.is_empty()));
    assert!(engine.sequencer().pending_events().is_empty());
}

#[test]
fn scheduled_notes_trigger_their_track_on_their_frame() {
    let (tx, rx) = unbounded();
    let mut engine = Engine::new(rx, 48000);
    engine.set_playing(true);
    assert!(engine.is_playing());
    // one tick is 25 samples at this tempo and rate
    tx.send(Message::Schedule(note(0, 60, 3))).unwrap();
    tx.send(Message::Schedule(note(1, 72, 200))).unwrap();
    let block = engine.process(0, TEMPO, 32);
    assert_eq!(block.frames.len(), 32);
    assert_eq!(
        block.events.get(&0).unwrap(),
        &vec![ScheduledEvent::NoteOn { time: 0, pitch: 60, velocity: 100, track: 3 }]
    );
    let first = &block.frames[0];
    assert_eq!(first.notes, vec![NotePlayed { note_on: true, pitch: 60, track: 3 }]);
    // its first levels are the first step of a cubic attack of 48 samples
    let rising = Level { numerator: 1000, denominator: 48_000, exponent: 3, velocity: 100 };
    for (voice, levels) in first.levels.iter().enumerate() {
        if voice == 3 {
            assert_eq!(*levels, Some(VoiceLevels { carrier: rising, modulator: rising }));
        } else {
            assert_eq!(*levels, None);
        }
    }
    for (number, frame) in block.frames.iter().enumerate() {
        let sounding: Vec<usize> =
            (0..TRACK_COUNT).filter(|voice| frame.levels[*voice].is_some()).collect();
        if number < 25 {
            assert_eq!(sounding, vec![3]);
        } else {
            assert_eq!(sounding, vec![3, 15]);
        }
        assert_eq!(frame.levels[3].unwrap().carrier.numerator, 1000 * (number as u64 + 1));
    }
    assert_eq!(
        block.frames[25].notes,
        vec![
            NotePlayed { note_on: false, pitch: 60, track: 3 },
            NotePlayed { note_on: true, pitch: 72, track: 200 },
        ]
    );
    assert!(engine.voice(15).is_active());
    assert!(engine.voice(200).is_active());
    assert!(!engine.voice(14).is_active());
}

#[test]
fn voices_run_out_and_fall_silent() {
    let (tx, rx) = unbounded();
    let mut engine = Engine::new(rx, 1000);
    tx.send(Message::NoteOn { track: 5, velocity: 127 }).unwrap();
    // attack 1 ms and release 500 ms at 1 kHz: 1 + 499 + 1 steps
    let block = engine.process(0, TEMPO, 600);
    assert_eq!(block.messages, vec![Message::NoteOn { track: 5, velocity: 127 }]);
    assert_eq!(
        announce(&block.messages[0]),
        Some(NotePlayed { note_on: true, pitch: 0, track: 5 })
    );
    let sounded = block.frames.iter().filter(|frame| frame.levels[5].is_some()).count();
    assert_eq!(sounded, 501);
    assert!(block.frames[..501].iter().all(|frame| frame.levels[5].is_some()));
    let peak = block.frames[0].levels[5].unwrap();
    assert_eq!(peak.carrier, Level { numerator: 1, denominator: 1, exponent: 3, velocity: 127 });
    // the modulator releases in 100 ms and is silent from then on
    let late = block.frames[300].levels[5].unwrap();
    assert_eq!(late.modulator, Level { numerator: 0, denominator: 1, exponent: 3, velocity: 0 });
    assert_eq!(late.carrier.numerator, 500_000 - 300_000);
    assert!(!engine.voice(5).is_active());
    assert!(matches!(engine.voice(5).carrier_env.state(), EnvelopeState::Off));
}

#[test]
fn parameter_changes_reach_the_voice_of_the_track() {
    let (tx, rx) = unbounded();
    let mut engine = Engine::new(rx, 48000);
    tx.send(Message::ParameterChange(0, 440_000, 2)).unwrap();
    tx.send(Message::ParameterChange(9, 250_500, 2)).unwrap();
    tx.send(Message::ParameterChange(10, -4, 2)).unwrap();
    tx.send(Message::ParameterChange(16, 300, 99)).unwrap();
    tx.send(Message::ParameterChange(17, 1, 2)).unwrap();
    tx.send(Message::ParameterChange(-1, 1, 2)).unwrap();
    assert_eq!(engine.get_msgs().len(), 6);
    let voice = engine.voice(2);
    assert_eq!(voice.settings.carrier_freq, 440_000);
    assert_eq!(voice.settings.modulator_freq, 200_000);
    assert_eq!(voice.carrier_env.release_ms(), 250);
    assert_eq!(voice.carrier_env.attack_ms(), 1);
    assert_eq!(voice.mod_env.attack_ms(), 0);
    assert_eq!(voice.mod_env.release_ms(), 100);
    assert_eq!(engine.voice(15).settings.delay_amt, 300);
    assert_eq!(engine.voice(3).settings, engine.voice(4).settings);
}

#[test]
fn notes_played_at_once_are_announced() {
    let (_tx, rx) = unbounded();
    let mut engine = Engine::new(rx, 48000);
    let on = engine.note_on(64, 90, 1);
    assert_eq!(on, NotePlayed { note_on: true, pitch: 64, track: 1 });
    assert!(engine.voice(1).is_active());
    let off = engine.note_off(64, 1);
    assert_eq!(off, NotePlayed { note_on: false, pitch: 64, track: 1 });
    assert!(engine.voice(1).is_active());
    assert_eq!(engine.apply(Message::Clear), None);
    assert_eq!(
        engine.apply(Message::NoteOn { track: 7, velocity: 1 }),
        Some(NotePlayed { note_on: true, pitch: 0, track: 7 })
    );
}

#[test]
fn block_without_frames_has_no_frames() {
    let (_tx, rx) = unbounded();
    let mut engine = Engine::new(rx, 48000);
    engine.is_playing = true;
    assert!(engine.process(0, TEMPO, 0).frames.is_empty());
    assert!(engine.process(0, TEMPO, -3).frames.is_empty());
}

#[test]
fn a_drain_takes_no_more_than_its_limit() {
    let (tx, rx) = unbounded();
    let mut engine = Engine::new(rx, 48000);
    for beat in 0..(DRAIN_LIMIT as u32 + 904) {
        tx.send(Message::Schedule(note(beat, 60, 0))).unwrap();
    }
    assert_eq!(engine.get_msgs().len(), DRAIN_LIMIT);
    assert_eq!(engine.sequencer().events().len(), DRAIN_LIMIT);
    assert_eq!(engine.get_msgs().len(), 904);
    assert_eq!(engine.sequencer().events().len(), DRAIN_LIMIT + 904);
    assert!(engine.get_msgs().is_empty());
}

#[test]
fn stopping_keeps_what_waits() {
    let (tx, rx) = unbounded();
    let mut engine = Engine::new(rx, 48000);
    engine.set_playing(true);
    tx.send(Message::Schedule(note(0, 60, 0))).unwrap();
    engine.process(0, TEMPO, 8);
    assert_eq!(engine.sequencer().pending_events().len(), 1);
    engine.set_playing(false);
    let block = engine.process(8, TEMPO, 64);
    assert!(block.events.is_empty());
    assert_eq!(engine.sequencer().pending_events().len(), 1);
    engine.set_playing(true);
    let block = engine.process(0, TEMPO, 64);
    assert_eq!(block.frames[25].notes[0], NotePlayed { note_on: false, pitch: 60, track: 0 });
}
