use mimi_engine::rythm_engine::{
    AdvancedRhythmPattern, BsChordEvent, MidiNote, Rhythm, RhythmEngine, RhythmTrack, TrackType,
};

#[test]
fn built_in_library_has_four_rhythms() {
    let e = RhythmEngine::new(Rhythm::Disco);
    assert!(e.is_enable);
    assert_eq!(e.pattern_library.len(), 4);
    assert!(e.find_pattern(Rhythm::Disco).is_some());
    assert!(e.find_pattern(Rhythm::GoGo).is_some());
    assert!(e.find_pattern(Rhythm::Techno).is_some());
    assert!(e.find_pattern(Rhythm::Dance).is_some());
    assert!(e.find_pattern(Rhythm::Original).is_none());
}

#[test]
fn first_engine_moves_bass_onto_chords() {
    let mut e = RhythmEngine::new(Rhythm::Disco);
    e.pattern_library = vec![(
        Rhythm::Disco,
        AdvancedRhythmPattern {
            length_ticks: 1920,
            tracks: vec![RhythmTrack {
                track_type: TrackType::Bass,
                instrument_program: 33,
                notes: vec![
                    MidiNote { tick: 0, note_number: 40, velocity: 100, channel: 1 },
                    MidiNote { tick: 240, note_number: 40, velocity: 0, channel: 1 },
                ],
            }],
        },
    )];
    let t = vec![
        BsChordEvent { tick: 0, root_pitch: 0, is_minor: false },
        BsChordEvent { tick: 1920, root_pitch: 9, is_minor: true },
    ];
    let notes = e.generate_accompaniment_tracks(3000, &t);
    let got: Vec<(u32, u8, u8)> = notes.iter().map(|n| (n.tick, n.note_number, n.velocity)).collect();
    assert_eq!(got, vec![(0, 40, 100), (240, 40, 0), (1920, 48, 100), (2160, 48, 0)]);
    assert_eq!(e.get_chord_at_tick(2000, &t).map(|c| c.root_pitch), Some(9));
}

#[test]
fn disco_accompaniment_is_sorted_and_inside_the_song() {
    let e = RhythmEngine::new(Rhythm::Disco);
    let t = vec![BsChordEvent { tick: 0, root_pitch: 7, is_minor: false }];
    let notes = e.generate_accompaniment_tracks(3840, &t);
    assert!(!notes.is_empty());
    assert!(notes.windows(2).all(|w| w[0].tick <= w[1].tick));
    assert!(notes.iter().all(|n| n.tick < 3840));
}
