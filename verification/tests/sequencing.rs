use mimi_engine::rhythm_engine::{
    AdvancedRhythmPattern, BsChordEvent, MidiNote, Rhythm, RhythmEngine, RhythmTrack, TrackType,
    parse_rhythm_name,
};
use mimi_engine::sequencer::{
    chord_of_upper, fits, parse_single_chord_name, MetaEvent, MidiEngineEvent, MidiFormat, MidiMessage, MimiSequencer,
    SmfData, SmfEventKind, SmfTrackEvent,
};

fn ev(delta: u32, kind: SmfEventKind) -> SmfTrackEvent {
    SmfTrackEvent { delta, kind }
}

fn note_on(channel: u8, key: u8, vel: u8) -> SmfEventKind {
    SmfEventKind::Midi { channel, message: MidiMessage::NoteOn { key, vel } }
}

fn song() -> SmfData {
    SmfData {
        ppq: Some(480),
        tracks: vec![vec![
            ev(0, SmfEventKind::Meta(MetaEvent::Tempo(600_000))),
            ev(0, note_on(0, 60, 100)),
            ev(480, SmfEventKind::Midi { channel: 0, message: MidiMessage::NoteOff { key: 60, vel: 0 } }),
            ev(0, note_on(1, 45, 90)),
        ]],
    }
}

#[test]
fn from_smf_merges_the_timeline() {
    let smf = song();
    assert!(fits(&smf));
    let s = MimiSequencer::from_smf(&smf);
    assert_eq!(s.event.len(), 4);
    assert_eq!(s.total_ticks, 480);
    assert_eq!(s.ppq, 480);
    assert_eq!(s.tempo, 500_000);
    assert_eq!(s.current_event_index, 0);
    assert_eq!(s.format, MidiFormat::GM);
    assert!(!s.is_bs_track_detected);
    assert!(matches!(s.event[0].inner, MidiEngineEvent::TempoChange { tempo: 600_000 }));
    assert_eq!((s.event[1].absolute_tick, s.event[1].priority), (0, 2));
    assert_eq!(s.event[3].absolute_tick, 480);
    assert_eq!(
        s.chord_timeline,
        vec![BsChordEvent { tick: 480, root_pitch: 9, is_minor: true, is_7th: false, is_maj7: false }]
    );
}

#[test]
fn marching_plays_due_events_and_takes_their_tempo() {
    let mut s = MimiSequencer::from_smf(&song());
    let first = s.marching(0);
    assert_eq!(first.len(), 2);
    assert_eq!(s.tempo, 600_000);
    assert_eq!(s.marching(479).len(), 0);
    assert!(!s.is_finished());
    assert_eq!(s.marching(480).len(), 2);
    assert!(s.is_finished());
}

#[test]
fn marching_in_two_steps_plays_what_one_step_plays() {
    let mut a = MimiSequencer::from_smf(&song());
    let mut in_two = a.marching(100).len();
    in_two += a.marching(480).len();
    let mut b = MimiSequencer::from_smf(&song());
    assert_eq!(b.marching(480).len(), in_two);
    assert_eq!(a.current_event_index, b.current_event_index);
    assert_eq!(a.tempo, b.tempo);
}

#[test]
fn seek_restores_the_tempo_before_the_tick() {
    let mut s = MimiSequencer::from_smf(&song());
    s.seek_to(1);
    assert_eq!(s.current_event_index, 2);
    assert_eq!(s.tempo, 600_000);
    assert_eq!(s.find_next_event_index(480), 2);
    s.seek_to(0);
    assert_eq!(s.current_event_index, 0);
    assert_eq!(s.tempo, 500_000);
    s.seek_to(481);
    assert!(s.is_finished());
    s.reset();
    assert_eq!((s.current_event_index, s.tempo), (0, 500_000));
}

#[test]
fn empty_sequencer() {
    let s = MimiSequencer::empty();
    assert!(s.event.is_empty());
    assert!(s.is_finished());
    assert_eq!(s.total_ticks, 0);
}

#[test]
fn chord_words_in_lyrics() {
    assert_eq!(parse_single_chord_name("Am"), Some((9, true)));
    assert_eq!(parse_single_chord_name("Bb7"), Some((10, false)));
    assert_eq!(parse_single_chord_name("F#m"), Some((6, true)));
    assert_eq!(parse_single_chord_name("Cmaj7"), Some((0, false)));
    assert_eq!(parse_single_chord_name("Dmin"), Some((2, true)));
    assert_eq!(parse_single_chord_name("Cb"), Some((11, false)));
    assert_eq!(parse_single_chord_name("H"), None);
    assert_eq!(parse_single_chord_name(""), None);
}

fn bass_pattern() -> AdvancedRhythmPattern {
    AdvancedRhythmPattern {
        length_ticks: 1920,
        tracks: vec![RhythmTrack {
            track_type: TrackType::Bass,
            instrument_program: 33,
            notes: vec![
                MidiNote { tick: 0, note_number: 36, velocity: 100, channel: 1 },
                MidiNote { tick: 240, note_number: 36, velocity: 0, channel: 1 },
            ],
        }],
    }
}

fn timeline() -> Vec<BsChordEvent> {
    vec![
        BsChordEvent { tick: 0, root_pitch: 0, is_minor: false, is_7th: false, is_maj7: false },
        BsChordEvent { tick: 1920, root_pitch: 9, is_minor: true, is_7th: false, is_maj7: false },
    ]
}

#[test]
fn chord_at_tick_is_the_last_started_chord() {
    let e = RhythmEngine::new(Rhythm::Disco);
    let t = timeline();
    assert_eq!(e.get_chord_at_tick(100, &t).map(|c| c.root_pitch), Some(0));
    assert_eq!(e.get_chord_at_tick(1920, &t).map(|c| c.root_pitch), Some(9));
    assert_eq!(e.get_chord_at_tick(5000, &t).map(|c| c.root_pitch), Some(9));
    let late = vec![BsChordEvent { tick: 10, root_pitch: 2, is_minor: true, is_7th: false, is_maj7: false }];
    assert!(e.get_chord_at_tick(5, &late).is_none());
    assert!(e.get_chord_at_tick(5, &[]).is_none());
}

#[test]
fn accompaniment_follows_the_chords_and_ends_the_song() {
    let mut e = RhythmEngine::new(Rhythm::Disco);
    e.insert_pattern(Rhythm::Disco, bass_pattern());
    let t = timeline();
    assert!(e.can_generate(3841, &t, 480));
    let notes = e.generate_accompaniment_tracks(3841, &t, 480);
    let got: Vec<(u32, u8, u8)> = notes.iter().map(|n| (n.tick, n.note_number, n.velocity)).collect();
    assert_eq!(
        got,
        vec![(0, 36, 100), (240, 36, 0), (1920, 45, 100), (2160, 45, 0), (3840, 45, 110), (4800, 45, 0)]
    );
}

#[test]
fn no_accompaniment_without_chords_or_pattern() {
    let mut e = RhythmEngine::new(Rhythm::Disco);
    assert!(e.generate_accompaniment_tracks(1000, &timeline(), 480).is_empty());
    e.insert_pattern(Rhythm::Disco, bass_pattern());
    assert!(e.generate_accompaniment_tracks(1000, &[], 480).is_empty());
}

#[test]
fn patterns_are_registered_by_name() {
    assert_eq!(parse_rhythm_name("GoGo"), Some(Rhythm::GoGo));
    assert_eq!(parse_rhythm_name("Edm2"), Some(Rhythm::Edm2));
    assert_eq!(parse_rhythm_name("Polka"), None);
    let mut e = RhythmEngine::new(Rhythm::Original);
    e.register_default_patterns(vec![
        ("Disco".to_string(), bass_pattern()),
        ("Polka".to_string(), bass_pattern()),
        ("Disco".to_string(), AdvancedRhythmPattern { length_ticks: 960, tracks: vec![] }),
    ]);
    assert_eq!(e.pattern_library.len(), 1);
    assert_eq!(e.pattern_library[0].0, Rhythm::Disco);
    assert_eq!(e.pattern_library[0].1.length_ticks, 960);
    assert!(e.find_pattern(Rhythm::GoGo).is_none());
}

#[test]
fn chord_words_are_read_in_any_case() {
    assert_eq!(parse_single_chord_name("am"), Some((9, true)));
    assert_eq!(parse_single_chord_name("  f#m "), Some((6, true)));
    assert_eq!(parse_single_chord_name("g"), Some((7, false)));
}

#[test]
fn flat_chords_read_their_minor_mark() {
    assert_eq!(parse_single_chord_name("B\u{266D}m"), Some((10, true)));
    assert_eq!(parse_single_chord_name("Bbm"), Some((10, true)));
    assert_eq!(parse_single_chord_name("Ebmaj7"), Some((3, false)));
    assert_eq!(chord_of_upper(&['D', '#', 'M', 'I', 'N']), Some((3, true)));
    assert_eq!(chord_of_upper(&['H']), None);
    assert_eq!(chord_of_upper(&[]), None);
}
