use mimi_engine::engine::{EngineAction, EngineState, MimiCommand, PlayerState};
use mimi_engine::rhythm_engine::{Rhythm, RhythmEngine};
use mimi_engine::sequencer::{MidiEngineEvent, MidiMessage};

fn on(port: u8, channel: u8, key: u8) -> MidiEngineEvent {
    MidiEngineEvent::MidiPlay { port, channel, is_drum_channel: channel == 9, message: MidiMessage::NoteOn { key, vel: 100 } }
}

fn engine() -> EngineState {
    EngineState::new(RhythmEngine::new(Rhythm::Original))
}

#[test]
fn a_new_engine_is_stopped_at_half_volume() {
    let e = engine();
    assert_eq!(e.current_state, PlayerState::Stopped);
    assert_eq!(e.master_volume, 50);
    assert_eq!(e.status.key, 0);
    assert_eq!(e.status.current_tempo, 500_000);
    assert!(e.midi.active_notes.is_empty());
}

#[test]
fn notes_are_transposed_except_drums() {
    let mut e = engine();
    let (a, ui) = e.handle_event(&on(0, 0, 60));
    assert_eq!(a, vec![EngineAction::NoteOn { port: 0, channel: 0, key: 60, vel: 100 }]);
    assert!(ui.is_none());
    let off = e.set_key(20);
    assert_eq!(off, vec![EngineAction::NoteOff { port: 0, channel: 0, key: 60 }]);
    assert_eq!(e.status.key, 15);
    assert!(e.midi.active_notes.is_empty());
    let (a, _) = e.handle_event(&on(0, 0, 60));
    assert_eq!(a, vec![EngineAction::NoteOn { port: 0, channel: 0, key: 75, vel: 100 }]);
    let (d, _) = e.handle_event(&on(0, 9, 36));
    assert_eq!(d, vec![EngineAction::NoteOn { port: 0, channel: 9, key: 36, vel: 100 }]);
    let (p, _) = e.handle_event(&on(3, 2, 50));
    assert_eq!(p, vec![EngineAction::NoteOn { port: 1, channel: 2, key: 65, vel: 100 }]);
    assert_eq!(e.set_key(-100).len(), 3);
    assert_eq!(e.status.key, -15);
}

#[test]
fn pause_and_stop_release_every_sounding_note() {
    let mut e = engine();
    e.play(0);
    assert_eq!(e.current_state, PlayerState::Playing);
    e.handle_event(&on(0, 0, 60));
    e.handle_event(&on(0, 1, 64));
    let a = e.pause();
    assert_eq!(
        a,
        vec![
            EngineAction::NoteOff { port: 0, channel: 0, key: 60 },
            EngineAction::NoteOff { port: 0, channel: 1, key: 64 },
        ]
    );
    assert_eq!(e.current_state, PlayerState::Paused);
    assert!(e.midi.active_notes.is_empty());
    e.handle_event(&on(0, 0, 62));
    let s = e.stop();
    assert_eq!(
        s,
        vec![EngineAction::Position { tick: 0 }, EngineAction::NoteOff { port: 0, channel: 0, key: 62 }]
    );
    assert_eq!(e.current_state, PlayerState::Stopped);
}

#[test]
fn note_off_and_zero_velocity_end_a_note() {
    let mut e = engine();
    e.handle_event(&on(0, 0, 60));
    let zero = MidiEngineEvent::MidiPlay {
        port: 0,
        channel: 0,
        is_drum_channel: false,
        message: MidiMessage::NoteOn { key: 60, vel: 0 },
    };
    let (a, _) = e.handle_event(&zero);
    assert_eq!(a, vec![EngineAction::NoteOff { port: 0, channel: 0, key: 60 }]);
    assert!(e.midi.active_notes.is_empty());
}

#[test]
fn volume_commands_are_clamped() {
    let mut e = engine();
    assert_eq!(e.process_command(MimiCommand::SetVolume(150), 0), vec![EngineAction::SetGain { volume: 100 }]);
    assert_eq!(e.master_volume, 100);
    assert_eq!(e.status.volume, 100);
    assert!(e.process_command(MimiCommand::Play, 0).is_empty());
    assert_eq!(e.status.state, PlayerState::Playing);
}

#[test]
fn tempo_and_key_signature_go_to_the_user_interface() {
    let mut e = engine();
    let (a, ui) = e.handle_event(&MidiEngineEvent::TempoChange { tempo: 400_000 });
    assert!(a.is_empty());
    assert!(matches!(ui, Some(MidiEngineEvent::TempoChange { tempo: 400_000 })));
    assert_eq!(e.status.current_tempo, 400_000);
    let (_, ui) = e.handle_event(&MidiEngineEvent::KeySignature { key: -2, is_sharp: false });
    assert!(matches!(ui, Some(MidiEngineEvent::KeySignature { key: -2, is_sharp: false })));
    assert_eq!(e.status.song_key_sig, Some((-2, false)));
}

#[test]
fn loading_a_song_resets_and_stops() {
    let mut e = engine();
    e.handle_event(&on(0, 0, 60));
    // One track at 96 ticks per quarter note: a tempo, a note-on 96 ticks later, end of track.
    let mut smf: Vec<u8> = vec![b'M', b'T', b'h', b'd', 0, 0, 0, 6, 0, 0, 0, 1, 0, 96];
    smf.extend_from_slice(&[b'M', b'T', b'r', b'k', 0, 0, 0, 15]);
    smf.extend_from_slice(&[0, 0xFF, 0x51, 3, 0x06, 0x1A, 0x80, 96, 0x90, 64, 80, 0, 0xFF, 0x2F, 0]);
    let a = e.process_command(MimiCommand::LoadSong(smf), 0);
    assert_eq!(a[0], EngineAction::Position { tick: 0 });
    assert_eq!(a[1], EngineAction::NoteOff { port: 0, channel: 0, key: 60 });
    assert_eq!(a[2], EngineAction::SystemReset { port: 0 });
    assert_eq!(a[3], EngineAction::SystemReset { port: 1 });
    assert_eq!(*a.last().unwrap(), EngineAction::SetGain { volume: 50 });
    assert_eq!(e.current_state, PlayerState::Stopped);
    assert_eq!(e.sequencer.event.len(), 2);
    assert_eq!(e.sequencer.ppq, 96);
    assert_eq!(e.sequencer.total_ticks, 96);
    let s = e.seek(50);
    assert_eq!(e.sequencer.current_event_index, 1);
    assert_eq!(e.sequencer.tempo, 400_000);
    assert!(s.contains(&EngineAction::Position { tick: 50 }));
    assert_eq!(*s.last().unwrap(), EngineAction::SetGain { volume: 50 });
}

#[test]
fn choosing_a_rhythm_is_remembered() {
    let mut e = engine();
    e.process_command(MimiCommand::SetRhythm(Rhythm::Disco), 0);
    assert_eq!(e.user_selected_rhythm, Rhythm::Disco);
    assert_eq!(e.status.current_rhythm, Rhythm::Disco);
    e.stop();
    assert_eq!(e.rhythm_engine.current_rhythm, Rhythm::Disco);
}

#[test]
fn bytes_that_are_no_song_keep_the_current_one() {
    let mut e = engine();
    let mut smf: Vec<u8> = vec![b'M', b'T', b'h', b'd', 0, 0, 0, 6, 0, 0, 0, 1, 0, 96];
    smf.extend_from_slice(&[b'M', b'T', b'r', b'k', 0, 0, 0, 8, 0, 0x90, 60, 100, 0, 0xFF, 0x2F, 0]);
    e.process_command(MimiCommand::LoadSong(smf), 0);
    assert_eq!(e.sequencer.event.len(), 1);
    let a = e.process_command(MimiCommand::LoadSong(b"not a midi file".to_vec()), 0);
    assert_eq!(a[0], EngineAction::Position { tick: 0 });
    assert_eq!(e.current_state, PlayerState::Stopped);
    assert_eq!(e.sequencer.event.len(), 1);
    assert_eq!(e.sequencer.ppq, 96);
}

#[test]
fn pausing_then_playing_resumes_where_it_was() {
    let mut e = engine();
    let mut smf: Vec<u8> = vec![b'M', b'T', b'h', b'd', 0, 0, 0, 6, 0, 0, 0, 1, 0, 96];
    smf.extend_from_slice(&[b'M', b'T', b'r', b'k', 0, 0, 0, 16]);
    smf.extend_from_slice(&[0, 0x90, 60, 100, 96, 0x80, 60, 0, 96, 0x90, 62, 100, 0, 0xFF, 0x2F, 0]);
    e.process_command(MimiCommand::LoadSong(smf), 0);
    e.process_command(MimiCommand::Play, 0);
    for ev in e.sequencer.marching(100) {
        e.handle_event(&ev.inner);
    }
    assert_eq!(e.sequencer.current_event_index, 2);
    let a = e.process_command(MimiCommand::Pause, 100);
    assert!(a.is_empty());
    assert_eq!(e.current_state, PlayerState::Paused);
    let b = e.process_command(MimiCommand::Play, 100);
    assert!(b.is_empty());
    assert_eq!(e.current_state, PlayerState::Playing);
    assert_eq!(e.sequencer.current_event_index, 2);
    assert_eq!(e.sequencer.event.len(), 3);
}
