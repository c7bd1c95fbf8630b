use mimi_engine::rhythm_engine::BsChordEvent;
use mimi_engine::sequencer::{MidiEngineEvent, MidiFormat, MidiMessage, MimiSequencer};
use mimi_engine::smf_file::SequencerError;

fn chunk(tag: &[u8], body: &[u8]) -> Vec<u8> {
    let mut out = tag.to_vec();
    out.extend_from_slice(&(body.len() as u32).to_be_bytes());
    out.extend_from_slice(body);
    out
}

/// A format-1 file at 480 ticks per quarter note: a conductor track with a
/// tempo, a GS reset and a lyric, and a bass track named `$BS`.
fn karaoke_file() -> Vec<u8> {
    let mut f = chunk(b"MThd", &[0, 1, 0, 2, 0x01, 0xE0]);
    let conductor = [
        0, 0xFF, 0x51, 3, 0x07, 0xA1, 0x20, // tempo 500000
        0, 0xF0, 10, 0x41, 0x10, 0x42, 0x12, 0x40, 0x00, 0x7F, 0x00, 0x41, 0xF7, // GS reset
        0, 0xFF, 0x05, 5, b'A', b'm', b' ', b'l', b'a', // lyric
        0, 0xFF, 0x2F, 0,
    ];
    let bass = [
        0, 0xFF, 0x03, 3, b'$', b'B', b'S', // track name
        0, 0x91, 45, 90, // note on, channel 1
        0x83, 0x60, 0x81, 45, 0, // 480 ticks later: note off
        0, 0xFF, 0x2F, 0,
    ];
    f.extend(chunk(b"MTrk", &conductor));
    f.extend(chunk(b"MTrk", &bass));
    f
}

#[test]
fn a_file_becomes_the_merged_timeline() {
    let s = match MimiSequencer::from_byte(&karaoke_file()) {
        Ok(s) => s,
        Err(_) => panic!("the file is a valid MIDI file"),
    };
    assert_eq!(s.ppq, 480);
    assert_eq!(s.format, MidiFormat::GS);
    assert!(s.is_bs_track_detected);
    assert_eq!(s.total_ticks, 480);
    assert_eq!(s.event.len(), 5);
    assert!(matches!(s.event[0].inner, MidiEngineEvent::TempoChange { tempo: 500_000 }));
    assert!(matches!(s.event[1].inner, MidiEngineEvent::MidiReset));
    match &s.event[2].inner {
        MidiEngineEvent::SmfKaraokeText { text } => assert_eq!(text, "Am la"),
        _ => panic!("the lyric comes third"),
    }
    assert!(matches!(
        s.event[3].inner,
        MidiEngineEvent::MidiPlay { port: 0, channel: 1, is_drum_channel: false, message: MidiMessage::NoteOn { key: 45, vel: 90 } }
    ));
    assert_eq!((s.event[4].absolute_tick, s.event[4].priority), (480, 2));
    assert_eq!(
        s.chord_timeline,
        vec![BsChordEvent { tick: 0, root_pitch: 9, is_minor: true, is_7th: false, is_maj7: false }]
    );
}

#[test]
fn bytes_that_are_no_midi_file_are_refused() {
    assert!(matches!(MimiSequencer::from_byte(b"RIFX nothing here"), Err(SequencerError::InvalidSmf { .. })));
    assert!(matches!(MimiSequencer::try_from_byte(b""), Some(Err(SequencerError::InvalidSmf { .. }))));
}

#[test]
fn smpte_timing_falls_back_to_480_ticks() {
    let mut f = chunk(b"MThd", &[0, 0, 0, 1, 0xE7, 0x28]);
    f.extend(chunk(b"MTrk", &[0, 0x90, 60, 100, 10, 0x80, 60, 0, 0, 0xFF, 0x2F, 0]));
    let s = match MimiSequencer::try_from_byte(&f) {
        Some(Ok(s)) => s,
        _ => panic!("the file loads"),
    };
    assert_eq!(s.ppq, 480);
    assert_eq!(s.total_ticks, 10);
    assert_eq!(s.event.len(), 2);
    assert!(!s.is_bs_track_detected);
}

#[test]
fn a_track_longer_than_32_bit_ticks_is_not_loaded() {
    let mut f = chunk(b"MThd", &[0, 0, 0, 1, 0x01, 0xE0]);
    let mut track = Vec::new();
    for _ in 0..17 {
        // The longest delta time (2^28 - 1 ticks), then an empty text event.
        track.extend_from_slice(&[0xFF, 0xFF, 0xFF, 0x7F, 0xFF, 0x01, 0]);
    }
    track.extend_from_slice(&[0, 0xFF, 0x2F, 0]);
    f.extend(chunk(b"MTrk", &track));
    assert!(MimiSequencer::try_from_byte(&f).is_none());
    track.clear();
    for _ in 0..15 {
        track.extend_from_slice(&[0xFF, 0xFF, 0xFF, 0x7F, 0xFF, 0x01, 0]);
    }
    track.extend_from_slice(&[0, 0x90, 60, 100, 0, 0xFF, 0x2F, 0]);
    let mut g = chunk(b"MThd", &[0, 0, 0, 1, 0x01, 0xE0]);
    g.extend(chunk(b"MTrk", &track));
    let s = match MimiSequencer::try_from_byte(&g) {
        Some(Ok(s)) => s,
        _ => panic!("fifteen long deltas fit in 32 bits"),
    };
    assert_eq!(s.total_ticks, 15 * 0x0FFF_FFFF);
    assert_eq!(s.event.len(), 1);
}

#[test]
fn the_error_of_an_unreadable_file_names_the_failure() {
    match MimiSequencer::from_byte(b"RIFX nothing here") {
        Err(SequencerError::InvalidSmf { detail }) => assert!(detail.starts_with("SMF 파싱 실패: ")),
        _ => panic!("the bytes are no MIDI file"),
    }
}
