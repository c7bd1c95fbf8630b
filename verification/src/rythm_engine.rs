//! The first rhythm engine: four built-in patterns (disco, go-go, techno,
//! dance) looped over the song and moved onto the chords of the bass timeline.
use vstd::prelude::*;
use crate::sort::{SortKey, sorted_by_key, stable_sort, upper_bound, sort_stable_by_key};

verus! {

/// Rhythm styles of the built-in library.
#[derive(Debug, Clone, Copy, PartialEq, Eq, Hash, Structural)]
pub enum Rhythm {
    Disco,
    GoGo,
    Dance,
    Techno,
    /// The original song (transformation off).
    Original,
}

/// Role of a pattern track.
#[derive(Debug, Clone, Copy, PartialEq, Eq, Structural)]
pub enum TrackType {
    /// Played as written.
    Drum,
    /// Moved to the root of the current chord.
    Bass,
    /// Moved onto the current chord.
    Accompaniment,
}

/// A note of a pattern or of the generated accompaniment.
#[derive(Debug, Clone, Copy, PartialEq, Eq, Structural)]
pub struct MidiNote {
    pub tick: u32,
    pub note_number: u8,
    pub velocity: u8,
    pub channel: u8,
}

/// One instrument of a pattern.
#[derive(Debug, Clone)]
pub struct RhythmTrack {
    pub track_type: TrackType,
    /// General MIDI program.
    pub instrument_program: u8,
    pub notes: Vec<MidiNote>,
}

/// A looping multi-track pattern.
#[derive(Debug, Clone)]
pub struct AdvancedRhythmPattern {
    /// Length of one loop in ticks (one 4/4 measure is 1920).
    pub length_ticks: u32,
    pub tracks: Vec<RhythmTrack>,
}

/// A chord of the bass timeline.
#[derive(Debug, Clone, Copy, PartialEq, Eq, Structural)]
pub struct BsChordEvent {
    pub tick: u32,
    /// C=0, C#=1, ... B=11
    pub root_pitch: u8,
    pub is_minor: bool,
}

/// The engine: on/off switch, current rhythm and pattern library (one entry
/// per rhythm).
pub struct RhythmEngine {
    pub is_enable: bool,
    pub current_rhythm: Rhythm,
    pub pattern_library: Vec<(Rhythm, AdvancedRhythmPattern)>,
}

/// Mathematical form of a pattern track.
pub struct TrackView {
    pub track_type: TrackType,
    pub instrument_program: u8,
    pub notes: Seq<MidiNote>,
}

/// Mathematical form of a pattern.
pub struct PatternView {
    pub length_ticks: u32,
    pub tracks: Seq<TrackView>,
}

impl View for RhythmTrack {
    type V = TrackView;

    open spec fn view(&self) -> TrackView {
        TrackView {
            track_type: self.track_type,
            instrument_program: self.instrument_program,
            notes: self.notes@,
        }
    }
}

impl View for AdvancedRhythmPattern {
    type V = PatternView;

    open spec fn view(&self) -> PatternView {
        PatternView {
            length_ticks: self.length_ticks,
            tracks: self.tracks@.map_values(|t: RhythmTrack| t@),
        }
    }
}

impl SortKey for MidiNote {
    /// Generated notes are ordered by tick.
    open spec fn sort_key(&self) -> int {
        self.tick as int
    }

    fn key(&self) -> (k: u64) {
        self.tick as u64
    }
}

impl SortKey for BsChordEvent {
    open spec fn sort_key(&self) -> int {
        self.tick as int
    }

    fn key(&self) -> (k: u64) {
        self.tick as u64
    }
}

/// The library as mathematical values.
pub open spec fn library_view(lib: Seq<(Rhythm, AdvancedRhythmPattern)>) -> Seq<(Rhythm, PatternView)> {
    lib.map_values(|e: (Rhythm, AdvancedRhythmPattern)| (e.0, e.1@))
}

// ---------------------------------------------------------------------------
// The built-in patterns

/// A note.
pub open spec fn nt(tick: u32, note_number: u8, velocity: u8, channel: u8) -> MidiNote {
    MidiNote { tick, note_number, velocity, channel }
}

/// The same note struck at each tick.
pub open spec fn hits(ticks: Seq<u32>, note: u8, vel: u8, ch: u8) -> Seq<MidiNote> {
    ticks.map_values(|t: u32| nt(t, note, vel, ch))
}

/// Notes given as (tick, note number) pairs.
pub open spec fn line(pairs: Seq<(u32, u8)>, vel: u8, ch: u8) -> Seq<MidiNote> {
    pairs.map_values(|p: (u32, u8)| nt(p.0, p.1, vel, ch))
}

/// A C major triad (C4, E4, G4) struck at each tick.
pub open spec fn triads(ticks: Seq<u32>, vel: u8, ch: u8) -> Seq<MidiNote>
    decreases ticks.len(),
{
    if ticks.len() == 0 {
        Seq::empty()
    } else {
        seq![nt(ticks[0], 60, vel, ch), nt(ticks[0], 64, vel, ch), nt(ticks[0], 67, vel, ch)] + triads(
            ticks.drop_first(),
            vel,
            ch,
        )
    }
}

pub open spec fn beats() -> Seq<u32> {
    seq![0u32, 480, 960, 1440]
}

pub open spec fn backbeats() -> Seq<u32> {
    seq![480u32, 1440]
}

pub open spec fn offbeats() -> Seq<u32> {
    seq![240u32, 720, 1200, 1680]
}

pub open spec fn eighths() -> Seq<u32> {
    seq![0u32, 240, 480, 720, 960, 1200, 1440, 1680]
}

pub open spec fn track_view(tt: TrackType, program: u8, notes: Seq<MidiNote>) -> TrackView {
    TrackView { track_type: tt, instrument_program: program, notes }
}

/// Disco: four-on-the-floor kick, backbeat snare, off-beat open and on-beat
/// closed hi-hat; octave-jumping bass; off-beat piano triads.
pub open spec fn disco_pattern() -> PatternView {
    PatternView {
        length_ticks: 1920,
        tracks: seq![
            track_view(
                TrackType::Drum,
                0,
                hits(beats(), 36, 110, 9) + hits(backbeats(), 38, 105, 9) + hits(offbeats(), 46, 90, 9)
                    + hits(beats(), 42, 85, 9),
            ),
            track_view(
                TrackType::Bass,
                33,
                line(
                    seq![
                        (0u32, 36u8),
                        (240, 48),
                        (480, 36),
                        (720, 48),
                        (960, 36),
                        (1200, 48),
                        (1440, 36),
                        (1680, 48),
                    ],
                    100,
                    1,
                ),
            ),
            track_view(TrackType::Accompaniment, 0, triads(offbeats(), 85, 2)),
        ],
    }
}

/// Go-go: syncopated kick, backbeat snare, eighth hi-hat; bouncing bass;
/// on-beat piano triads.
pub open spec fn gogo_pattern() -> PatternView {
    PatternView {
        length_ticks: 1920,
        tracks: seq![
            track_view(
                TrackType::Drum,
                0,
                hits(seq![0u32, 720, 960, 1200], 36, 110, 9) + hits(backbeats(), 38, 105, 9) + hits(
                    eighths(),
                    42,
                    80,
                    9,
                ),
            ),
            track_view(
                TrackType::Bass,
                33,
                line(seq![(0u32, 36u8), (480, 40), (720, 43), (960, 36), (1440, 40), (1680, 43)], 100, 1),
            ),
            track_view(TrackType::Accompaniment, 0, triads(beats(), 85, 2)),
        ],
    }
}

/// Kick on each beat followed by a closed hi-hat an eighth later.
pub open spec fn kick_hat(ticks: Seq<u32>) -> Seq<MidiNote>
    decreases ticks.len(),
{
    if ticks.len() == 0 {
        Seq::empty()
    } else {
        seq![nt(ticks[0], 36, 120, 9), nt((ticks[0] + 240) as u32, 42, 90, 9)] + kick_hat(ticks.drop_first())
    }
}

/// Techno: kick and hi-hat on every eighth, backbeat snare; sixteenth bass
/// alternating octaves.
pub open spec fn techno_pattern() -> PatternView {
    PatternView {
        length_ticks: 1920,
        tracks: seq![
            track_view(TrackType::Drum, 0, kick_hat(beats()) + hits(backbeats(), 40, 110, 9)),
            track_view(
                TrackType::Bass,
                38,
                Seq::new(16, |i: int| nt((i * 120) as u32, if i % 2 == 0 { 36 } else { 48 }, 95, 1)),
            ),
        ],
    }
}

/// Dance: four-on-the-floor kick, backbeat snare, off-beat open hi-hat;
/// eighth bass with a minor-third push on each fourth note.
pub open spec fn dance_pattern() -> PatternView {
    PatternView {
        length_ticks: 1920,
        tracks: seq![
            track_view(
                TrackType::Drum,
                0,
                hits(beats(), 36, 115, 9) + hits(backbeats(), 38, 110, 9) + hits(offbeats(), 46, 95, 9),
            ),
            track_view(
                TrackType::Bass,
                39,
                Seq::new(8, |i: int| nt((i * 240) as u32, if i % 4 == 3 { 39 } else { 36 }, 100, 1)),
            ),
        ],
    }
}

/// The built-in library, in registration order.
pub open spec fn default_library() -> Seq<(Rhythm, PatternView)> {
    seq![
        (Rhythm::Disco, disco_pattern()),
        (Rhythm::GoGo, gogo_pattern()),
        (Rhythm::Techno, techno_pattern()),
        (Rhythm::Dance, dance_pattern()),
    ]
}

// ---------------------------------------------------------------------------
// Generation

/// The pattern registered for `r` (the first entry with that key).
pub open spec fn pattern_of(lib: Seq<(Rhythm, PatternView)>, r: Rhythm) -> Option<PatternView>
    decreases lib.len(),
{
    if lib.len() == 0 {
        None
    } else if lib[0].0 == r {
        Some(lib[0].1)
    } else {
        pattern_of(lib.drop_first(), r)
    }
}

/// The chord sounding at `tick`: the last chord of the tick-sorted timeline
/// that starts at or before `tick`.
pub open spec fn chord_at(timeline: Seq<BsChordEvent>, tick: int) -> Option<BsChordEvent> {
    let n = upper_bound(timeline, tick);
    if n == 0 {
        None
    } else {
        Some(timeline[n - 1])
    }
}

/// Clamps into 0..=127.
pub open spec fn clamp_note(v: int) -> u8 {
    if v < 0 {
        0
    } else if v > 127 {
        127
    } else {
        v as u8
    }
}

/// A generated note: drums as written; other tracks shifted by the chord
/// root, with the major third (E) lowered a semitone on a minor chord.
pub open spec fn place_note(n: MidiNote, tt: TrackType, target: int, timeline: Seq<BsChordEvent>) -> MidiNote {
    let chord = match chord_at(timeline, target) {
        Some(c) => c,
        None => timeline[0],
    };
    let fin = match tt {
        TrackType::Drum => n.note_number,
        _ => clamp_note(
            n.note_number + chord.root_pitch - (if chord.is_minor && n.note_number % 12 == 4 { 1int } else { 0 }),
        ),
    };
    MidiNote { tick: target as u32, note_number: fin, velocity: n.velocity, channel: n.channel }
}

/// Notes of a track from note `k` on in the loop at `offset`, until the first
/// that would fall at or after the end of the song.
pub open spec fn track_from(
    out: Seq<MidiNote>,
    track: TrackView,
    offset: int,
    total: int,
    timeline: Seq<BsChordEvent>,
    k: int,
) -> Seq<MidiNote>
    decreases track.notes.len() - k,
{
    if k < 0 || k >= track.notes.len() || offset + track.notes[k].tick >= total {
        out
    } else {
        track_from(
            out.push(place_note(track.notes[k], track.track_type, offset + track.notes[k].tick, timeline)),
            track,
            offset,
            total,
            timeline,
            k + 1,
        )
    }
}

/// The tracks from `t` on, in the loop at `offset`.
pub open spec fn loop_from(
    out: Seq<MidiNote>,
    p: PatternView,
    offset: int,
    total: int,
    timeline: Seq<BsChordEvent>,
    t: int,
) -> Seq<MidiNote>
    decreases p.tracks.len() - t,
{
    if t < 0 || t >= p.tracks.len() {
        out
    } else {
        loop_from(track_from(out, p.tracks[t], offset, total, timeline, 0), p, offset, total, timeline, t + 1)
    }
}

/// The loops starting at `offset`, `offset + length`, ... before the end of the song.
pub open spec fn loops_from(
    out: Seq<MidiNote>,
    p: PatternView,
    offset: int,
    total: int,
    timeline: Seq<BsChordEvent>,
) -> Seq<MidiNote>
    decreases (if offset < total { total - offset } else { 0 }),
{
    if offset >= total || p.length_ticks == 0 {
        out
    } else {
        loops_from(loop_from(out, p, offset, total, timeline, 0), p, offset + p.length_ticks, total, timeline)
    }
}

/// The accompaniment: the loops of the current rhythm's pattern over the
/// song, sorted by tick; none when the engine is off, the timeline empty or
/// the rhythm has no pattern.
pub open spec fn accompaniment(
    enabled: bool,
    lib: Seq<(Rhythm, PatternView)>,
    rhythm: Rhythm,
    total: int,
    timeline: Seq<BsChordEvent>,
) -> Seq<MidiNote> {
    if !enabled || timeline.len() == 0 {
        Seq::empty()
    } else {
        match pattern_of(lib, rhythm) {
            None => Seq::empty(),
            Some(p) => stable_sort(loops_from(Seq::empty(), p, 0, total, timeline)),
        }
    }
}

/// Generation needs a looping pattern and ticks that fit in 32 bits.
pub open spec fn generation_fits(p: PatternView, total: int) -> bool {
    &&& p.length_ticks > 0
    &&& total + p.length_ticks <= u32::MAX
    &&& forall|t: int, k: int|
        0 <= t < p.tracks.len() && 0 <= k < p.tracks[t].notes.len() ==> total + #[trigger] p.tracks[t].notes[k].tick
            <= u32::MAX
}

/// Inputs on which the accompaniment is generated.
pub open spec fn accompaniment_defined(
    enabled: bool,
    lib: Seq<(Rhythm, PatternView)>,
    rhythm: Rhythm,
    total: int,
    timeline: Seq<BsChordEvent>,
) -> bool {
    enabled && timeline.len() > 0 ==> match pattern_of(lib, rhythm) {
        None => true,
        Some(p) => generation_fits(p, total),
    }
}

// ---------------------------------------------------------------------------
// Building the library

fn push_hits(v: &mut Vec<MidiNote>, ticks: &[u32], note: u8, vel: u8, ch: u8)
    ensures
        final(v)@ == old(v)@ + hits(ticks@, note, vel, ch),
{
    let ghost start = v@;
    let mut i: usize = 0;
    while i < ticks.len()
        invariant
            0 <= i <= ticks@.len(),
            v@ == start + hits(ticks@.take(i as int), note, vel, ch),
        decreases ticks.len() - i,
    {
        v.push(MidiNote { tick: ticks[i], note_number: note, velocity: vel, channel: ch });
        i = i + 1;
        assert(hits(ticks@.take(i as int), note, vel, ch) =~= hits(ticks@.take(i - 1), note, vel, ch).push(
            nt(ticks@[i - 1], note, vel, ch),
        ));
    }
    assert(ticks@.take(ticks@.len() as int) =~= ticks@);
}

fn push_line(v: &mut Vec<MidiNote>, pairs: &[(u32, u8)], vel: u8, ch: u8)
    ensures
        final(v)@ == old(v)@ + line(pairs@, vel, ch),
{
    let ghost start = v@;
    let mut i: usize = 0;
    while i < pairs.len()
        invariant
            0 <= i <= pairs@.len(),
            v@ == start + line(pairs@.take(i as int), vel, ch),
        decreases pairs.len() - i,
    {
        let (tick, note) = pairs[i];
        v.push(MidiNote { tick, note_number: note, velocity: vel, channel: ch });
        i = i + 1;
        assert(line(pairs@.take(i as int), vel, ch) =~= line(pairs@.take(i - 1), vel, ch).push(
            nt(tick, note, vel, ch),
        ));
    }
    assert(pairs@.take(pairs@.len() as int) =~= pairs@);
}

proof fn lemma_triads_push(ticks: Seq<u32>, x: u32, vel: u8, ch: u8)
    ensures
        triads(ticks.push(x), vel, ch) == triads(ticks, vel, ch) + seq![
            nt(x, 60, vel, ch),
            nt(x, 64, vel, ch),
            nt(x, 67, vel, ch),
        ],
    decreases ticks.len(),
{
    if ticks.len() == 0 {
        assert(ticks.push(x).drop_first() =~= Seq::<u32>::empty());
        assert(ticks.push(x)[0] == x);
        assert(triads(Seq::<u32>::empty(), vel, ch) =~= Seq::<MidiNote>::empty());
        assert(triads(ticks.push(x), vel, ch) =~= seq![
            nt(x, 60, vel, ch),
            nt(x, 64, vel, ch),
            nt(x, 67, vel, ch),
        ]);
    } else {
        assert(ticks.push(x).drop_first() =~= ticks.drop_first().push(x));
        lemma_triads_push(ticks.drop_first(), x, vel, ch);
        assert(triads(ticks.push(x), vel, ch) =~= triads(ticks, vel, ch) + seq![
            nt(x, 60, vel, ch),
            nt(x, 64, vel, ch),
            nt(x, 67, vel, ch),
        ]);
    }
}

fn push_triads(v: &mut Vec<MidiNote>, ticks: &[u32], vel: u8, ch: u8)
    ensures
        final(v)@ == old(v)@ + triads(ticks@, vel, ch),
{
    let ghost start = v@;
    let mut i: usize = 0;
    while i < ticks.len()
        invariant
            0 <= i <= ticks@.len(),
            v@ == start + triads(ticks@.take(i as int), vel, ch),
        decreases ticks.len() - i,
    {
        let t = ticks[i];
        v.push(MidiNote { tick: t, note_number: 60, velocity: vel, channel: ch });
        v.push(MidiNote { tick: t, note_number: 64, velocity: vel, channel: ch });
        v.push(MidiNote { tick: t, note_number: 67, velocity: vel, channel: ch });
        proof {
            assert(ticks@.take(i + 1) =~= ticks@.take(i as int).push(t));
            lemma_triads_push(ticks@.take(i as int), t, vel, ch);
        }
        i = i + 1;
        assert(v@ =~= start + triads(ticks@.take(i as int), vel, ch));
    }
    assert(ticks@.take(ticks@.len() as int) =~= ticks@);
}

fn make_track(track_type: TrackType, instrument_program: u8, notes: Vec<MidiNote>) -> (t: RhythmTrack)
    ensures
        t@ == track_view(track_type, instrument_program, notes@),
{
    RhythmTrack { track_type, instrument_program, notes }
}

fn disco() -> (p: AdvancedRhythmPattern)
    ensures
        p@ == disco_pattern(),
{
    let beats_a = [0u32, 480, 960, 1440];
    let back_a = [480u32, 1440];
    let off_a = [240u32, 720, 1200, 1680];
    assert(beats_a@ == beats());
    assert(back_a@ == backbeats());
    assert(off_a@ == offbeats());
    let mut drum: Vec<MidiNote> = Vec::new();
    push_hits(&mut drum, &beats_a, 36, 110, 9);
    push_hits(&mut drum, &back_a, 38, 105, 9);
    push_hits(&mut drum, &off_a, 46, 90, 9);
    push_hits(&mut drum, &beats_a, 42, 85, 9);
    let bass_a = [
        (0u32, 36u8),
        (240, 48),
        (480, 36),
        (720, 48),
        (960, 36),
        (1200, 48),
        (1440, 36),
        (1680, 48),
    ];
    let mut bass: Vec<MidiNote> = Vec::new();
    push_line(&mut bass, &bass_a, 100, 1);
    let mut piano: Vec<MidiNote> = Vec::new();
    push_triads(&mut piano, &off_a, 85, 2);
    let mut tracks: Vec<RhythmTrack> = Vec::new();
    tracks.push(make_track(TrackType::Drum, 0, drum));
    tracks.push(make_track(TrackType::Bass, 33, bass));
    tracks.push(make_track(TrackType::Accompaniment, 0, piano));
    let p = AdvancedRhythmPattern { length_ticks: 1920, tracks };
    assert(p@.tracks =~= disco_pattern().tracks);
    p
}

fn gogo() -> (p: AdvancedRhythmPattern)
    ensures
        p@ == gogo_pattern(),
{
    let kick_a = [0u32, 720, 960, 1200];
    let back_a = [480u32, 1440];
    let eighths_a = [0u32, 240, 480, 720, 960, 1200, 1440, 1680];
    let beats_a = [0u32, 480, 960, 1440];
    assert(kick_a@ == seq![0u32, 720, 960, 1200]);
    assert(back_a@ == backbeats());
    assert(eighths_a@ == eighths());
    assert(beats_a@ == beats());
    let mut drum: Vec<MidiNote> = Vec::new();
    push_hits(&mut drum, &kick_a, 36, 110, 9);
    push_hits(&mut drum, &back_a, 38, 105, 9);
    push_hits(&mut drum, &eighths_a, 42, 80, 9);
    let bass_a = [(0u32, 36u8), (480, 40), (720, 43), (960, 36), (1440, 40), (1680, 43)];
    let mut bass: Vec<MidiNote> = Vec::new();
    push_line(&mut bass, &bass_a, 100, 1);
    let mut piano: Vec<MidiNote> = Vec::new();
    push_triads(&mut piano, &beats_a, 85, 2);
    let mut tracks: Vec<RhythmTrack> = Vec::new();
    tracks.push(make_track(TrackType::Drum, 0, drum));
    tracks.push(make_track(TrackType::Bass, 33, bass));
    tracks.push(make_track(TrackType::Accompaniment, 0, piano));
    let p = AdvancedRhythmPattern { length_ticks: 1920, tracks };
    assert(p@.tracks =~= gogo_pattern().tracks);
    p
}

fn techno() -> (p: AdvancedRhythmPattern)
    ensures
        p@ == techno_pattern(),
{
    let beats_a = [0u32, 480, 960, 1440];
    let back_a = [480u32, 1440];
    assert(beats_a@ == beats());
    assert(back_a@ == backbeats());
    let mut drum: Vec<MidiNote> = Vec::new();
    let mut i: usize = 0;
    while i < 4
        invariant
            0 <= i <= 4,
            beats_a@ == beats(),
            drum@ == kick_hat(beats().take(i as int)),
        decreases 4 - i,
    {
        let t = beats_a[i];
        drum.push(MidiNote { tick: t, note_number: 36, velocity: 120, channel: 9 });
        drum.push(MidiNote { tick: t + 240, note_number: 42, velocity: 90, channel: 9 });
        proof {
            assert(beats().take(i + 1) =~= beats().take(i as int).push(t));
            lemma_kick_hat_push(beats().take(i as int), t);
        }
        i = i + 1;
    }
    assert(beats().take(4) =~= beats());
    push_hits(&mut drum, &back_a, 40, 110, 9);
    let mut bass: Vec<MidiNote> = Vec::new();
    let mut k: u32 = 0;
    while k < 16
        invariant
            0 <= k <= 16,
            bass@ =~= Seq::new(k as nat, |i: int| nt((i * 120) as u32, if i % 2 == 0 { 36 } else { 48 }, 95, 1)),
        decreases 16 - k,
    {
        let note: u8 = if k % 2 == 0 {
            36
        } else {
            48
        };
        bass.push(MidiNote { tick: k * 120, note_number: note, velocity: 95, channel: 1 });
        k = k + 1;
    }
    let mut tracks: Vec<RhythmTrack> = Vec::new();
    tracks.push(make_track(TrackType::Drum, 0, drum));
    tracks.push(make_track(TrackType::Bass, 38, bass));
    let p = AdvancedRhythmPattern { length_ticks: 1920, tracks };
    assert(p@.tracks =~= techno_pattern().tracks);
    p
}

proof fn lemma_kick_hat_push(ticks: Seq<u32>, x: u32)
    ensures
        kick_hat(ticks.push(x)) == kick_hat(ticks) + seq![nt(x, 36, 120, 9), nt((x + 240) as u32, 42, 90, 9)],
    decreases ticks.len(),
{
    if ticks.len() == 0 {
        assert(ticks.push(x).drop_first() =~= Seq::<u32>::empty());
        assert(ticks.push(x)[0] == x);
        assert(kick_hat(Seq::<u32>::empty()) =~= Seq::<MidiNote>::empty());
        assert(kick_hat(ticks.push(x)) =~= seq![nt(x, 36, 120, 9), nt((x + 240) as u32, 42, 90, 9)]);
    } else {
        assert(ticks.push(x).drop_first() =~= ticks.drop_first().push(x));
        lemma_kick_hat_push(ticks.drop_first(), x);
        assert(kick_hat(ticks.push(x)) =~= kick_hat(ticks) + seq![
            nt(x, 36, 120, 9),
            nt((x + 240) as u32, 42, 90, 9),
        ]);
    }
}

fn dance() -> (p: AdvancedRhythmPattern)
    ensures
        p@ == dance_pattern(),
{
    let beats_a = [0u32, 480, 960, 1440];
    let back_a = [480u32, 1440];
    let off_a = [240u32, 720, 1200, 1680];
    assert(beats_a@ == beats());
    assert(back_a@ == backbeats());
    assert(off_a@ == offbeats());
    let mut drum: Vec<MidiNote> = Vec::new();
    push_hits(&mut drum, &beats_a, 36, 115, 9);
    push_hits(&mut drum, &back_a, 38, 110, 9);
    push_hits(&mut drum, &off_a, 46, 95, 9);
    let mut bass: Vec<MidiNote> = Vec::new();
    let mut k: u32 = 0;
    while k < 8
        invariant
            0 <= k <= 8,
            bass@ =~= Seq::new(k as nat, |i: int| nt((i * 240) as u32, if i % 4 == 3 { 39 } else { 36 }, 100, 1)),
        decreases 8 - k,
    {
        let note: u8 = if k % 4 == 3 {
            39
        } else {
            36
        };
        bass.push(MidiNote { tick: k * 240, note_number: note, velocity: 100, channel: 1 });
        k = k + 1;
    }
    let mut tracks: Vec<RhythmTrack> = Vec::new();
    tracks.push(make_track(TrackType::Drum, 0, drum));
    tracks.push(make_track(TrackType::Bass, 39, bass));
    let p = AdvancedRhythmPattern { length_ticks: 1920, tracks };
    assert(p@.tracks =~= dance_pattern().tracks);
    p
}

impl RhythmEngine {
    /// An enabled engine on `current_rhythm` with the built-in library.
    pub fn new(current_rhythm: Rhythm) -> (engine: Self)
        ensures
            engine.is_enable,
            engine.current_rhythm == current_rhythm,
            library_view(engine.pattern_library@) == default_library(),
    {
        let mut engine = RhythmEngine { is_enable: true, current_rhythm, pattern_library: Vec::new() };
        engine.register_default_patterns();
        engine
    }

    /// Registers the built-in patterns: disco, go-go, techno and dance.
    fn register_default_patterns(&mut self)
        requires
            old(self).pattern_library@.len() == 0,
        ensures
            library_view(final(self).pattern_library@) == default_library(),
            final(self).is_enable == old(self).is_enable,
            final(self).current_rhythm == old(self).current_rhythm,
    {
        self.pattern_library.push((Rhythm::Disco, disco()));
        self.pattern_library.push((Rhythm::GoGo, gogo()));
        self.pattern_library.push((Rhythm::Techno, techno()));
        self.pattern_library.push((Rhythm::Dance, dance()));
        assert(library_view(self.pattern_library@) =~= default_library());
    }
}


proof fn lemma_search_bound(timeline: Seq<BsChordEvent>, tick: int, lo: int)
    requires
        sorted_by_key(timeline),
        0 <= lo <= timeline.len(),
        forall|i: int| 0 <= i < lo ==> timeline[i].tick <= tick,
        forall|i: int| lo <= i < timeline.len() ==> timeline[i].tick > tick,
    ensures
        upper_bound(timeline, tick) == lo,
{
    crate::sort::lemma_upper_bound(timeline, tick);
    let ub = upper_bound(timeline, tick) as int;
    if ub < lo {
        assert(timeline[ub].sort_key() > tick);
    }
    if ub > lo {
        assert(timeline[lo].sort_key() <= tick);
    }
}

fn place_note_exec(
    engine: &RhythmEngine,
    n: MidiNote,
    tt: TrackType,
    target: u32,
    timeline: &[BsChordEvent],
) -> (r: MidiNote)
    requires
        sorted_by_key(timeline@),
        timeline@.len() > 0,
    ensures
        r == place_note(n, tt, target as int, timeline@),
{
    let chord = match engine.get_chord_at_tick(target, timeline) {
        Some(c) => *c,
        None => timeline[0],
    };
    let fin = match tt {
        TrackType::Drum => n.note_number,
        _ => {
            let mut shifted: i16 = n.note_number as i16 + chord.root_pitch as i16;
            if chord.is_minor && n.note_number % 12 == 4 {
                shifted = shifted - 1;
            }
            if shifted < 0 {
                0
            } else if shifted > 127 {
                127
            } else {
                shifted as u8
            }
        },
    };
    MidiNote { tick: target, note_number: fin, velocity: n.velocity, channel: n.channel }
}

fn track_exec(
    out: &mut Vec<MidiNote>,
    engine: &RhythmEngine,
    track: &RhythmTrack,
    offset: u32,
    total: u32,
    timeline: &[BsChordEvent],
)
    requires
        sorted_by_key(timeline@),
        timeline@.len() > 0,
        forall|k: int| 0 <= k < track.notes@.len() ==> total + #[trigger] track.notes@[k].tick <= u32::MAX,
        offset < total,
    ensures
        final(out)@ == track_from(old(out)@, track@, offset as int, total as int, timeline@, 0),
{
    let ghost goal = track_from(out@, track@, offset as int, total as int, timeline@, 0);
    let n = track.notes.len();
    let mut k: usize = 0;
    let mut stopped = false;
    while k < n && !stopped
        invariant
            0 <= k <= n,
            n == track.notes@.len(),
            sorted_by_key(timeline@),
            timeline@.len() > 0,
            forall|k: int| 0 <= k < track.notes@.len() ==> total + #[trigger] track.notes@[k].tick <= u32::MAX,
            offset < total,
            stopped ==> goal == out@,
            !stopped ==> goal == track_from(out@, track@, offset as int, total as int, timeline@, k as int),
        decreases n - k, (if stopped { 0int } else { 1int }),
    {
        let note = track.notes[k];
        assert(total + track.notes@[k as int].tick <= u32::MAX);
        let target = offset + note.tick;
        if target >= total {
            stopped = true;
        } else {
            let placed = place_note_exec(engine, note, track.track_type, target, timeline);
            out.push(placed);
            k = k + 1;
        }
    }
}

impl RhythmEngine {
    /// The chord sounding at `tick`: the last chord of the timeline that
    /// starts at or before it (binary search), `None` before the first chord.
    /// On an unsorted timeline the result is only known to be one of its chords.
    pub fn get_chord_at_tick<'a>(&self, tick: u32, timeline: &'a [BsChordEvent]) -> (r: Option<
        &'a BsChordEvent,
    >)
        ensures
            sorted_by_key(timeline@) ==> match r {
                None => chord_at(timeline@, tick as int) is None,
                Some(c) => chord_at(timeline@, tick as int) == Some(*c),
            },
            r matches Some(c) ==> timeline@.contains(*c),
    {
        if timeline.len() == 0 {
            return None;
        }
        let mut lo: usize = 0;
        let mut hi: usize = timeline.len();
        while lo < hi
            invariant
                0 <= lo <= hi <= timeline.len(),
                sorted_by_key(timeline@) ==> forall|i: int|
                    0 <= i < lo ==> #[trigger] timeline@[i].tick <= tick,
                sorted_by_key(timeline@) ==> forall|i: int|
                    hi <= i < timeline.len() ==> #[trigger] timeline@[i].tick > tick,
            decreases hi - lo,
        {
            let mid = lo + (hi - lo) / 2;
            if timeline[mid].tick <= tick {
                proof {
                    if sorted_by_key(timeline@) {
                        assert forall|i: int| 0 <= i < mid + 1 implies #[trigger] timeline@[i].tick
                            <= tick by {
                            assert(timeline@[i].sort_key() <= timeline@[mid as int].sort_key());
                        }
                    }
                }
                lo = mid + 1;
            } else {
                proof {
                    if sorted_by_key(timeline@) {
                        assert forall|i: int| mid <= i < timeline.len() implies #[trigger] timeline@[i].tick
                            > tick by {
                            assert(timeline@[mid as int].sort_key() <= timeline@[i].sort_key());
                        }
                    }
                }
                hi = mid;
            }
        }
        proof {
            if sorted_by_key(timeline@) {
                lemma_search_bound(timeline@, tick as int, lo as int);
            }
        }
        if lo == 0 {
            None
        } else {
            Some(&timeline[lo - 1])
        }
    }

    /// The pattern registered for `rhythm`.
    pub fn find_pattern(&self, rhythm: Rhythm) -> (res: Option<&AdvancedRhythmPattern>)
        ensures
            match res {
                None => pattern_of(library_view(self.pattern_library@), rhythm) is None,
                Some(p) => pattern_of(library_view(self.pattern_library@), rhythm) == Some(p@),
            },
    {
        let ghost lib = library_view(self.pattern_library@);
        let n = self.pattern_library.len();
        let mut i: usize = 0;
        assert(lib.skip(0) =~= lib);
        while i < n
            invariant
                0 <= i <= n,
                n == self.pattern_library@.len(),
                lib == library_view(self.pattern_library@),
                pattern_of(lib, rhythm) == pattern_of(lib.skip(i as int), rhythm),
            decreases n - i,
        {
            assert(lib.skip(i as int)[0] == (self.pattern_library@[i as int].0, self.pattern_library@[i as int].1@));
            if self.pattern_library[i].0 == rhythm {
                return Some(&self.pattern_library[i].1);
            }
            assert(lib.skip(i as int).drop_first() =~= lib.skip(i + 1));
            i = i + 1;
        }
        None
    }

    /// The accompaniment of a song of `total_duration_ticks` ticks: the
    /// current rhythm's pattern looped from tick 0 on, each note moved onto the
    /// chord of the bass timeline at its tick, sorted by tick.
    pub fn generate_accompaniment_tracks(&self, total_duration_ticks: u32, bs_timeline: &[BsChordEvent]) -> (notes:
        Vec<MidiNote>)
        requires
            sorted_by_key(bs_timeline@),
            accompaniment_defined(
                self.is_enable,
                library_view(self.pattern_library@),
                self.current_rhythm,
                total_duration_ticks as int,
                bs_timeline@,
            ),
        ensures
            notes@ == accompaniment(
                self.is_enable,
                library_view(self.pattern_library@),
                self.current_rhythm,
                total_duration_ticks as int,
                bs_timeline@,
            ),
            sorted_by_key(notes@),
    {
        if !self.is_enable || bs_timeline.len() == 0 {
            return Vec::new();
        }
        match self.find_pattern(self.current_rhythm) {
            None => Vec::new(),
            Some(pattern) => {
                let total = total_duration_ticks;
                let ghost pv = pattern@;
                let ghost goal = loops_from(Seq::empty(), pv, 0, total as int, bs_timeline@);
                let mut out: Vec<MidiNote> = Vec::new();
                let len = pattern.length_ticks;
                let ntracks = pattern.tracks.len();
                let mut offset: u32 = 0;
                while offset < total
                    invariant
                        sorted_by_key(bs_timeline@),
                        bs_timeline@.len() > 0,
                        pv == pattern@,
                        generation_fits(pv, total as int),
                        len == pv.length_ticks,
                        ntracks == pattern.tracks@.len(),
                        goal == loops_from(out@, pv, offset as int, total as int, bs_timeline@),
                    decreases (if offset < total { total - offset } else { 0int }),
                {
                    let ghost loop_goal = loop_from(out@, pv, offset as int, total as int, bs_timeline@, 0);
                    let mut t: usize = 0;
                    while t < ntracks
                        invariant
                            0 <= t <= ntracks,
                            ntracks == pattern.tracks@.len(),
                            pv == pattern@,
                            sorted_by_key(bs_timeline@),
                            bs_timeline@.len() > 0,
                            offset < total,
                            generation_fits(pv, total as int),
                            loop_goal == loop_from(out@, pv, offset as int, total as int, bs_timeline@, t as int),
                        decreases ntracks - t,
                    {
                        let track = &pattern.tracks[t];
                        assert(pv.tracks[t as int] == track@);
                        assert forall|k: int| 0 <= k < track.notes@.len() implies total
                            + #[trigger] track.notes@[k].tick <= u32::MAX by {
                            assert(pv.tracks[t as int].notes[k] == track.notes@[k]);
                        }
                        track_exec(&mut out, self, track, offset, total, bs_timeline);
                        t = t + 1;
                    }
                    offset = offset + len;
                }
                let sorted = sort_stable_by_key(out);
                sorted
            },
        }
    }
}

} // verus!
