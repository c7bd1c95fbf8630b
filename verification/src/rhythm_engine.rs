//! Rhythm engine: rebuilds an accompaniment (drums, bass, chords) from a
//! pattern library, following the chord progression of the bass timeline.
use vstd::prelude::*;
use crate::text::str_eq;
use crate::sort::{SortKey, sorted_by_key, stable_sort, upper_bound, sort_stable_by_key};

verus! {

/// Rhythm styles the engine can play.
#[derive(Debug, Clone, Copy, PartialEq, Eq, Hash, Structural)]
pub enum Rhythm {
    Disco,
    GoGo,
    Dance,
    Techno,
    Hiphop,
    Jitterbug,
    Edm,
    Edm2,
    /// The original song, without transformation.
    Original,
}

/// Role of a pattern track.
#[derive(Debug, Clone, Copy, PartialEq, Eq, Structural)]
pub enum TrackType {
    /// Played as written.
    Drum,
    /// Transposed to the root of the current chord.
    Bass,
    /// Transposed to the current chord.
    Accompaniment,
}

/// A note of a pattern or of the generated accompaniment.
/// A velocity of zero stands for a note-off.
#[derive(Debug, Clone, Copy, PartialEq, Eq, Structural)]
pub struct MidiNote {
    pub tick: u32,
    pub note_number: u8,
    pub velocity: u8,
    pub channel: u8,
}

/// One instrument of a pattern.
#[derive(Debug, Clone)]
pub struct RhythmTrack {
    pub track_type: TrackType,
    pub instrument_program: u8,
    pub notes: Vec<MidiNote>,
}

/// A looping multi-track pattern, written for 480 ticks per quarter note.
#[derive(Debug, Clone)]
pub struct AdvancedRhythmPattern {
    pub length_ticks: u32,
    pub tracks: Vec<RhythmTrack>,
}

/// A chord taken from the bass timeline of the song.
#[derive(Debug, Clone, Copy, PartialEq, Eq, Structural)]
pub struct BsChordEvent {
    pub tick: u32,
    /// C=0, C#=1, ... B=11
    pub root_pitch: u8,
    pub is_minor: bool,
    pub is_7th: bool,
    pub is_maj7: bool,
}

/// The rhythm engine and its pattern library (one pattern per rhythm).
pub struct RhythmEngine {
    pub is_enable: bool,
    pub current_rhythm: Rhythm,
    pub pattern_library: Vec<(Rhythm, AdvancedRhythmPattern)>,
}

impl SortKey for MidiNote {
    /// Generated notes are ordered by tick, then by velocity (note-offs first).
    open spec fn sort_key(&self) -> int {
        self.tick * 256 + self.velocity
    }

    fn key(&self) -> (k: u64) {
        self.tick as u64 * 256 + self.velocity as u64
    }
}

impl SortKey for BsChordEvent {
    open spec fn sort_key(&self) -> int {
        self.tick as int
    }

    fn key(&self) -> (k: u64) {
        self.tick as u64
    }
}

/// The chord that sounds at `tick`: the last chord of the (tick-sorted)
/// timeline that starts at or before `tick`.
pub open spec fn chord_at(timeline: Seq<BsChordEvent>, tick: int) -> Option<BsChordEvent> {
    let n = upper_bound(timeline, tick);
    if n == 0 {
        None
    } else {
        Some(timeline[n - 1])
    }
}

/// The chord at `tick`, or the first chord when none has started yet.
pub open spec fn chord_or_first(timeline: Seq<BsChordEvent>, tick: int) -> BsChordEvent {
    match chord_at(timeline, tick) {
        Some(c) => c,
        None => timeline[0],
    }
}

/// A pattern tick (480 per quarter note) scaled to the song's resolution,
/// rounded to the nearest tick (halves upward), computed exactly in
/// integers. A floating-point product `x * (ppq / 480.0)` rounds the ratio
/// first and can land one tick lower on a half: with 11 ticks per quarter
/// note, tick 1200 gives 28 here where it gives 27 in floating point. For
/// the usual resolutions (24 to 1920 ticks per quarter note) both agree.
pub open spec fn scale_ticks(x: int, ppq: int) -> int {
    (x * ppq + 240) / 480
}

/// Clamps a note number into 0..=127.
pub open spec fn clamp_note(v: int) -> u8 {
    if v < 0 {
        0
    } else if v > 127 {
        127
    } else {
        v as u8
    }
}

/// A pattern note (written in C major) moved onto a chord: shifted by the
/// root, the major third lowered for a minor chord, the major seventh lowered
/// for a dominant or minor seventh chord.
pub open spec fn fit_to_chord(note_number: u8, chord: BsChordEvent) -> u8 {
    let third: int = if chord.is_minor && note_number % 12 == 4 { 1 } else { 0 };
    let seventh: int = if chord.is_7th && !chord.is_maj7 && note_number % 12 == 11 { 1 } else { 0 };
    clamp_note(note_number + chord.root_pitch - third - seventh)
}

/// Fitting a pattern note to a chord: the patterns are written in C major,
/// so a note is moved up by the chord's root; over a minor chord the pattern's
/// major third (pitch class 4, E) becomes the chord's minor third, three
/// semitones above the root, and over a major chord it stays the major third,
/// four above. The pattern's major seventh (pitch class 11, B) becomes a
/// minor seventh over a dominant or minor seventh chord and stays otherwise;
/// all other pitch classes keep their distance to the root.
pub proof fn lemma_fit_to_chord_thirds(n: u8, c: BsChordEvent)
    requires
        n + c.root_pitch <= 127,
    ensures
        n % 12 == 4 && c.is_minor ==> fit_to_chord(n, c) == n + c.root_pitch - 1,
        n % 12 == 4 && c.is_minor ==> (fit_to_chord(n, c) - c.root_pitch) % 12 == 3,
        n % 12 == 4 && !c.is_minor ==> fit_to_chord(n, c) == n + c.root_pitch,
        n % 12 == 4 && !c.is_minor ==> (fit_to_chord(n, c) - c.root_pitch) % 12 == 4,
        n % 12 != 4 && n % 12 != 11 ==> fit_to_chord(n, c) == n + c.root_pitch,
        n % 12 == 11 && c.is_7th && !c.is_maj7 ==> fit_to_chord(n, c) == n + c.root_pitch - 1,
        n % 12 == 11 && !(c.is_7th && !c.is_maj7) ==> fit_to_chord(n, c) == n + c.root_pitch,
{
}

/// The pattern registered for `r` (the first entry with that key).
pub open spec fn pattern_of(lib: Seq<(Rhythm, AdvancedRhythmPattern)>, r: Rhythm) -> Option<
    AdvancedRhythmPattern,
>
    decreases lib.len(),
{
    if lib.len() == 0 {
        None
    } else if lib[0].0 == r {
        Some(lib[0].1)
    } else {
        pattern_of(lib.drop_first(), r)
    }
}

/// Index of the last-transposition table for (track, note number).
pub open spec fn slot(t: int, n: int) -> int {
    t * 256 + n
}

/// One note of a regular measure. The state holds the notes generated so far,
/// the last transposition applied to each (track, note number), and whether
/// the track has passed the end of the song.
pub open spec fn regular_step(
    st: (Seq<MidiNote>, Seq<Option<u8>>, bool),
    note: MidiNote,
    tt: TrackType,
    t: int,
    offset: int,
    total: int,
    timeline: Seq<BsChordEvent>,
    ppq: int,
) -> (Seq<MidiNote>, Seq<Option<u8>>, bool) {
    let target = offset + scale_ticks(note.tick as int, ppq);
    if target >= total {
        (st.0, st.1, true)
    } else if note.velocity > 0 {
        let fin = if tt == TrackType::Drum {
            note.note_number
        } else {
            fit_to_chord(note.note_number, chord_or_first(timeline, target))
        };
        (
            st.0.push(
                MidiNote {
                    tick: target as u32,
                    note_number: fin,
                    velocity: note.velocity,
                    channel: note.channel,
                },
            ),
            st.1.update(slot(t, note.note_number as int), Some(fin)),
            false,
        )
    } else {
        let fin = match st.1[slot(t, note.note_number as int)] {
            Some(v) => v,
            None => note.note_number,
        };
        (
            st.0.push(
                MidiNote {
                    tick: target as u32,
                    note_number: fin,
                    velocity: note.velocity,
                    channel: note.channel,
                },
            ),
            st.1,
            false,
        )
    }
}

/// The notes of track `t` from index `k` on, in a regular measure: stops at
/// the first note that falls at or after the end of the song.
pub open spec fn regular_track_from(
    st: (Seq<MidiNote>, Seq<Option<u8>>, bool),
    track: RhythmTrack,
    t: int,
    offset: int,
    total: int,
    timeline: Seq<BsChordEvent>,
    ppq: int,
    k: int,
) -> (Seq<MidiNote>, Seq<Option<u8>>, bool)
    decreases track.notes@.len() - k,
{
    if k < 0 || k >= track.notes@.len() || st.2 {
        st
    } else {
        regular_track_from(
            regular_step(st, track.notes@[k], track.track_type, t, offset, total, timeline, ppq),
            track,
            t,
            offset,
            total,
            timeline,
            ppq,
            k + 1,
        )
    }
}

/// Drum notes of the first half of the last measure, from index `k` on.
pub open spec fn drum_first_half_from(
    out: Seq<MidiNote>,
    notes: Seq<MidiNote>,
    offset: int,
    total: int,
    ppq: int,
    k: int,
) -> Seq<MidiNote>
    decreases notes.len() - k,
{
    if k < 0 || k >= notes.len() {
        out
    } else {
        let n = notes[k];
        let target = offset + scale_ticks(n.tick as int, ppq);
        let out2 = if n.tick < 960 && target < total {
            out.push(
                MidiNote {
                    tick: target as u32,
                    note_number: n.note_number,
                    velocity: n.velocity,
                    channel: n.channel,
                },
            )
        } else {
            out
        };
        drum_first_half_from(out2, notes, offset, total, ppq, k + 1)
    }
}

/// Ticks (at 480 per quarter) of the snare roll that closes the song.
pub open spec fn fill_tick(i: int) -> int {
    if i == 0 {
        960
    } else if i == 1 {
        1080
    } else if i == 2 {
        1200
    } else if i == 3 {
        1320
    } else if i == 4 {
        1440
    } else if i == 5 {
        1500
    } else if i == 6 {
        1560
    } else {
        1620
    }
}

/// The snare roll, from step `i` of 8 on: each step a snare hit (velocity
/// rising 70..105) and its release 80 ticks later.
pub open spec fn snare_roll_from(out: Seq<MidiNote>, offset: int, total: int, ppq: int, i: int) -> Seq<
    MidiNote,
>
    decreases 8 - i,
{
    if i < 0 || i >= 8 {
        out
    } else {
        let target = offset + scale_ticks(fill_tick(i), ppq);
        let out2 = if target < total {
            out.push(
                MidiNote { tick: target as u32, note_number: 38, velocity: (70 + i * 5) as u8, channel: 9 },
            ).push(MidiNote { tick: (target + 80) as u32, note_number: 38, velocity: 0, channel: 9 })
        } else {
            out
        };
        snare_roll_from(out2, offset, total, ppq, i + 1)
    }
}

/// A note played at `on_tick` with `vel` and released at `off_tick`.
pub open spec fn hit(out: Seq<MidiNote>, on_tick: int, off_tick: int, note: u8, vel: u8, ch: u8) -> Seq<
    MidiNote,
> {
    out.push(MidiNote { tick: on_tick as u32, note_number: note, velocity: vel, channel: ch }).push(
        MidiNote { tick: off_tick as u32, note_number: note, velocity: 0, channel: ch },
    )
}

/// Last measure, drum track: the first half of the pattern, the snare roll,
/// and a final kick and crash at beat 4.5 (tick 1680).
pub open spec fn drum_ending(out: Seq<MidiNote>, track: RhythmTrack, offset: int, total: int, ppq: int) -> Seq<
    MidiNote,
> {
    let a = drum_first_half_from(out, track.notes@, offset, total, ppq, 0);
    let b = snare_roll_from(a, offset, total, ppq, 0);
    let target = offset + scale_ticks(1680, ppq);
    if target < total {
        hit(hit(b, target, target + 200, 36, 127, 9), target, target + 200, 49, 127, 9)
    } else {
        b
    }
}

/// A note that starts a chord at the beginning of the measure.
pub open spec fn is_downbeat(n: MidiNote) -> bool {
    n.tick == 0 && n.velocity > 0
}

/// Index of the first downbeat note at or after `k`, if any.
pub open spec fn first_downbeat_from(notes: Seq<MidiNote>, k: int) -> Option<int>
    decreases notes.len() - k,
{
    if k < 0 || k >= notes.len() {
        None
    } else if is_downbeat(notes[k]) {
        Some(k)
    } else {
        first_downbeat_from(notes, k + 1)
    }
}

/// A held note at the start of the last measure (released at beat 3) and,
/// when it falls inside the song, a final hit at tick 1680.
pub open spec fn closing_notes(
    out: Seq<MidiNote>,
    note: u8,
    v1: u8,
    v2: u8,
    ch: u8,
    offset: int,
    total: int,
    ppq: int,
) -> Seq<MidiNote> {
    let a = hit(out, offset, offset + scale_ticks(960, ppq), note, v1, ch);
    let e = offset + scale_ticks(1680, ppq);
    if e < total {
        hit(a, e, e + 200, note, v2, ch)
    } else {
        a
    }
}

/// Last measure, bass track: the first downbeat note, on the root of the chord.
pub open spec fn bass_ending(
    out: Seq<MidiNote>,
    track: RhythmTrack,
    offset: int,
    total: int,
    timeline: Seq<BsChordEvent>,
    ppq: int,
) -> Seq<MidiNote> {
    match first_downbeat_from(track.notes@, 0) {
        None => out,
        Some(j) => {
            let n = track.notes@[j];
            let shifted = clamp_note(n.note_number + chord_or_first(timeline, offset).root_pitch);
            closing_notes(out, shifted, 110, 120, n.channel, offset, total, ppq)
        },
    }
}

/// Last measure, accompaniment track: every downbeat note from `k` on, fitted to the chord.
pub open spec fn accompaniment_ending_from(
    out: Seq<MidiNote>,
    notes: Seq<MidiNote>,
    offset: int,
    total: int,
    timeline: Seq<BsChordEvent>,
    ppq: int,
    k: int,
) -> Seq<MidiNote>
    decreases notes.len() - k,
{
    if k < 0 || k >= notes.len() {
        out
    } else {
        let n = notes[k];
        let out2 = if is_downbeat(n) {
            closing_notes(
                out,
                fit_to_chord(n.note_number, chord_or_first(timeline, offset)),
                95,
                115,
                n.channel,
                offset,
                total,
                ppq,
            )
        } else {
            out
        };
        accompaniment_ending_from(out2, notes, offset, total, timeline, ppq, k + 1)
    }
}

/// The notes a track adds in the last measure.
pub open spec fn ending_track(
    out: Seq<MidiNote>,
    track: RhythmTrack,
    offset: int,
    total: int,
    timeline: Seq<BsChordEvent>,
    ppq: int,
) -> Seq<MidiNote> {
    match track.track_type {
        TrackType::Drum => drum_ending(out, track, offset, total, ppq),
        TrackType::Bass => bass_ending(out, track, offset, total, timeline, ppq),
        TrackType::Accompaniment => accompaniment_ending_from(
            out,
            track.notes@,
            offset,
            total,
            timeline,
            ppq,
            0,
        ),
    }
}

/// The tracks of one measure, from track `t` on.
pub open spec fn measure_from(
    st: (Seq<MidiNote>, Seq<Option<u8>>),
    pattern: AdvancedRhythmPattern,
    offset: int,
    is_last: bool,
    total: int,
    timeline: Seq<BsChordEvent>,
    ppq: int,
    t: int,
) -> (Seq<MidiNote>, Seq<Option<u8>>)
    decreases pattern.tracks@.len() - t,
{
    if t < 0 || t >= pattern.tracks@.len() {
        st
    } else {
        let track = pattern.tracks@[t];
        let st2 = if is_last {
            (ending_track(st.0, track, offset, total, timeline, ppq), st.1)
        } else {
            let r = regular_track_from(
                (st.0, st.1, false),
                track,
                t,
                offset,
                total,
                timeline,
                ppq,
                0,
            );
            (r.0, r.1)
        };
        measure_from(st2, pattern, offset, is_last, total, timeline, ppq, t + 1)
    }
}

/// The measures of the song from `offset` on, each one pattern long.
pub open spec fn measures_from(
    st: (Seq<MidiNote>, Seq<Option<u8>>),
    pattern: AdvancedRhythmPattern,
    offset: int,
    total: int,
    timeline: Seq<BsChordEvent>,
    ppq: int,
) -> (Seq<MidiNote>, Seq<Option<u8>>)
    decreases (if offset < total { total - offset } else { 0int }),
    when scale_ticks(pattern.length_ticks as int, ppq) > 0
{
    let len = scale_ticks(pattern.length_ticks as int, ppq);
    if offset >= total {
        st
    } else {
        let st2 = measure_from(st, pattern, offset, offset + len >= total, total, timeline, ppq, 0);
        measures_from(st2, pattern, offset + len, total, timeline, ppq)
    }
}

/// The accompaniment of the song in generation order (before sorting).
pub open spec fn raw_accompaniment(
    pattern: AdvancedRhythmPattern,
    total: int,
    timeline: Seq<BsChordEvent>,
    ppq: int,
) -> Seq<MidiNote> {
    let table = Seq::new((pattern.tracks@.len() * 256) as nat, |i: int| None::<u8>);
    if total <= 0 {
        Seq::empty()
    } else {
        measures_from((Seq::empty(), table), pattern, 0, total, timeline, ppq).0
    }
}

/// The generated accompaniment: empty when the engine is disabled, there is
/// no chord or no pattern for the rhythm; otherwise the notes of every
/// measure, stably sorted by tick and velocity.
pub open spec fn accompaniment(
    is_enable: bool,
    lib: Seq<(Rhythm, AdvancedRhythmPattern)>,
    rhythm: Rhythm,
    total: int,
    timeline: Seq<BsChordEvent>,
    ppq: int,
) -> Seq<MidiNote> {
    if !is_enable || timeline.len() == 0 {
        Seq::empty()
    } else {
        match pattern_of(lib, rhythm) {
            None => Seq::empty(),
            Some(p) => stable_sort(raw_accompaniment(p, total, timeline, ppq)),
        }
    }
}

/// Inputs on which the generation ends and its ticks fit in 32 bits.
pub open spec fn accompaniment_defined(
    is_enable: bool,
    lib: Seq<(Rhythm, AdvancedRhythmPattern)>,
    rhythm: Rhythm,
    total: int,
    timeline: Seq<BsChordEvent>,
    ppq: int,
) -> bool {
    is_enable && timeline.len() > 0 && total > 0 ==> match pattern_of(lib, rhythm) {
        None => true,
        Some(p) => scale_ticks(p.length_ticks as int, ppq) > 0 && total + scale_ticks(1920, ppq)
            + 200 <= u32::MAX && p.tracks@.len() * 256 <= usize::MAX,
    }
}

proof fn lemma_scale_bounds(a: int, b: int, ppq: int)
    requires
        0 <= a <= b,
        0 <= ppq,
    ensures
        0 <= scale_ticks(a, ppq) <= scale_ticks(b, ppq),
{
    assert(a * ppq <= b * ppq) by (nonlinear_arith)
        requires
            0 <= a <= b,
            0 <= ppq,
    ;
    assert(0 <= a * ppq) by (nonlinear_arith)
        requires
            0 <= a,
            0 <= ppq,
    ;
}

/// `x` scaled from 480 ticks per quarter note to `ppq`, rounded.
fn scaled(x: u32, ppq: u16) -> (r: u64)
    ensures
        r == scale_ticks(x as int, ppq as int),
        r <= 0x1_0000_0000_0000,
{
    assert((x as int) * (ppq as int) <= 0xFFFF_FFFFint * 0xFFFFint) by (nonlinear_arith)
        requires
            x <= 0xFFFF_FFFF,
            ppq <= 0xFFFF,
    ;
    assert(0 <= (x as int) * (ppq as int)) by (nonlinear_arith);
    (x as u64 * ppq as u64 + 240) / 480
}

fn clamp_note_exec(v: i32) -> (r: u8)
    ensures
        r == clamp_note(v as int),
{
    if v < 0 {
        0
    } else if v > 127 {
        127
    } else {
        v as u8
    }
}

fn fit_to_chord_exec(note_number: u8, chord: &BsChordEvent) -> (r: u8)
    ensures
        r == fit_to_chord(note_number, *chord),
{
    let mut shifted: i32 = note_number as i32 + chord.root_pitch as i32;
    if chord.is_minor && note_number % 12 == 4 {
        shifted = shifted - 1;
    }
    if chord.is_7th && !chord.is_maj7 && note_number % 12 == 11 {
        shifted = shifted - 1;
    }
    clamp_note_exec(shifted)
}

proof fn lemma_binary_search_bound(timeline: Seq<BsChordEvent>, tick: int, lo: int)
    requires
        sorted_by_key(timeline),
        0 <= lo <= timeline.len(),
        forall|i: int| 0 <= i < lo ==> timeline[i].tick <= tick,
        forall|i: int| lo <= i < timeline.len() ==> timeline[i].tick > tick,
    ensures
        upper_bound(timeline, tick) == lo,
{
    crate::sort::lemma_upper_bound(timeline, tick);
    let ub = upper_bound(timeline, tick) as int;
    if ub < lo {
        assert(timeline[ub].sort_key() > tick);
    }
    if ub > lo {
        assert(timeline[lo].sort_key() <= tick);
    }
}

impl RhythmEngine {
    /// An enabled engine on `current_rhythm`, with an empty pattern library.
    pub fn new(current_rhythm: Rhythm) -> (engine: Self)
        ensures
            engine.is_enable,
            engine.current_rhythm == current_rhythm,
            engine.pattern_library@.len() == 0,
    {
        RhythmEngine { is_enable: true, current_rhythm, pattern_library: Vec::new() }
    }

    /// The chord sounding at `tick`: the last chord of the timeline that starts
    /// at or before `tick` (found by binary search), `None` when none has started.
    /// The timeline is meant to be sorted by tick; on an unsorted one the
    /// result is only known to be a chord of the timeline.
    pub fn get_chord_at_tick<'a>(&self, tick: u32, timeline: &'a [BsChordEvent]) -> (r: Option<
        &'a BsChordEvent,
    >)
        ensures
            sorted_by_key(timeline@) ==> match r {
                None => chord_at(timeline@, tick as int) is None,
                Some(c) => chord_at(timeline@, tick as int) == Some(*c),
            },
            r matches Some(c) ==> timeline@.contains(*c),
    {
        if timeline.len() == 0 {
            return None;
        }
        let mut lo: usize = 0;
        let mut hi: usize = timeline.len();
        while lo < hi
            invariant
                0 <= lo <= hi <= timeline.len(),
                sorted_by_key(timeline@) ==> forall|i: int|
                    0 <= i < lo ==> #[trigger] timeline@[i].tick <= tick,
                sorted_by_key(timeline@) ==> forall|i: int|
                    hi <= i < timeline.len() ==> #[trigger] timeline@[i].tick > tick,
            decreases hi - lo,
        {
            let mid = lo + (hi - lo) / 2;
            if timeline[mid].tick <= tick {
                proof {
                    if sorted_by_key(timeline@) {
                        assert forall|i: int| 0 <= i < mid + 1 implies #[trigger] timeline@[i].tick
                            <= tick by {
                            assert(timeline@[i].sort_key() <= timeline@[mid as int].sort_key());
                        }
                    }
                }
                lo = mid + 1;
            } else {
                proof {
                    if sorted_by_key(timeline@) {
                        assert forall|i: int| mid <= i < timeline.len() implies #[trigger] timeline@[i].tick
                            > tick by {
                            assert(timeline@[mid as int].sort_key() <= timeline@[i].sort_key());
                        }
                    }
                }
                hi = mid;
            }
        }
        proof {
            if sorted_by_key(timeline@) {
                lemma_binary_search_bound(timeline@, tick as int, lo as int);
            }
        }
        if lo == 0 {
            None
        } else {
            Some(&timeline[lo - 1])
        }
    }
}

/// Appends a note and its release.
fn push_hit(out: &mut Vec<MidiNote>, on_tick: u64, off_tick: u64, note: u8, vel: u8, ch: u8)
    requires
        off_tick <= u32::MAX,
        on_tick <= u32::MAX,
    ensures
        final(out)@ == hit(old(out)@, on_tick as int, off_tick as int, note, vel, ch),
{
    out.push(MidiNote { tick: on_tick as u32, note_number: note, velocity: vel, channel: ch });
    out.push(MidiNote { tick: off_tick as u32, note_number: note, velocity: 0, channel: ch });
}

/// The notes of one track in a regular measure.
fn regular_track(
    out: &mut Vec<MidiNote>,
    last: &mut Vec<Option<u8>>,
    engine: &RhythmEngine,
    track: &RhythmTrack,
    t: usize,
    offset: u64,
    total: u32,
    timeline: &[BsChordEvent],
    ppq: u16,
)
    requires
        sorted_by_key(timeline@),
        timeline@.len() > 0,
        offset < total,
        t * 256 + 256 <= old(last).len(),
    ensures
        final(last)@.len() == old(last)@.len(),
        ({
            let r = regular_track_from(
                (old(out)@, old(last)@, false),
                *track,
                t as int,
                offset as int,
                total as int,
                timeline@,
                ppq as int,
                0,
            );
            final(out)@ == r.0 && final(last)@ == r.1
        }),
{
    let ghost target_state = regular_track_from(
        (out@, last@, false),
        *track,
        t as int,
        offset as int,
        total as int,
        timeline@,
        ppq as int,
        0,
    );
    assert(target_state == regular_track_from(
        (old(out)@, old(last)@, false),
        *track,
        t as int,
        offset as int,
        total as int,
        timeline@,
        ppq as int,
        0,
    ));
    let n = track.notes.len();
    let mut k: usize = 0;
    let mut stopped = false;
    while k < n && !stopped
        invariant
            0 <= k <= n,
            n == track.notes@.len(),
            sorted_by_key(timeline@),
            timeline@.len() > 0,
            offset < total,
            t * 256 + 256 <= last.len(),
            last@.len() == old(last)@.len(),
            target_state == regular_track_from(
                (out@, last@, stopped),
                *track,
                t as int,
                offset as int,
                total as int,
                timeline@,
                ppq as int,
                k as int,
            ),
        decreases n - k,
    {
        let note = track.notes[k];
        let target = offset + scaled(note.tick, ppq);
        if target >= total as u64 {
            stopped = true;
        } else {
            let chord = match engine.get_chord_at_tick(target as u32, timeline) {
                Some(c) => *c,
                None => timeline[0],
            };
            let idx = t * 256 + note.note_number as usize;
            if note.velocity > 0 {
                let fin = match track.track_type {
                    TrackType::Drum => note.note_number,
                    _ => fit_to_chord_exec(note.note_number, &chord),
                };
                out.push(
                    MidiNote {
                        tick: target as u32,
                        note_number: fin,
                        velocity: note.velocity,
                        channel: note.channel,
                    },
                );
                last.set(idx, Some(fin));
            } else {
                let fin = match last[idx] {
                    Some(v) => v,
                    None => note.note_number,
                };
                out.push(
                    MidiNote {
                        tick: target as u32,
                        note_number: fin,
                        velocity: note.velocity,
                        channel: note.channel,
                    },
                );
            }
        }
        k = k + 1;
    }
}

/// The drum track of the last measure.
fn drum_ending_exec(out: &mut Vec<MidiNote>, track: &RhythmTrack, offset: u64, total: u32, ppq: u16)
    requires
        offset < total,
        total + scale_ticks(1920, ppq as int) + 200 <= u32::MAX,
    ensures
        final(out)@ == drum_ending(old(out)@, *track, offset as int, total as int, ppq as int),
{
    proof {
        lemma_scale_bounds(1680, 1920, ppq as int);
    }
    let n = track.notes.len();
        let ghost start = out@;
        let mut k: usize = 0;
        while k < n
            invariant
                0 <= k <= n,
                n == track.notes@.len(),
                offset < total,
                drum_first_half_from(start, track.notes@, offset as int, total as int, ppq as int, 0)
                    == drum_first_half_from(
                    out@,
                    track.notes@,
                    offset as int,
                    total as int,
                    ppq as int,
                    k as int,
                ),
            decreases n - k,
        {
            let note = track.notes[k];
            let target = offset + scaled(note.tick, ppq);
            if note.tick < 960 && target < total as u64 {
                out.push(
                    MidiNote {
                        tick: target as u32,
                        note_number: note.note_number,
                        velocity: note.velocity,
                        channel: note.channel,
                    },
                );
            }
            k = k + 1;
        }
        assert(out@ == drum_first_half_from(start, track.notes@, offset as int, total as int, ppq as int, 0));
        let ghost mid = out@;
        let fills: [u32; 8] = [960, 1080, 1200, 1320, 1440, 1500, 1560, 1620];
        let mut i: usize = 0;
        while i < 8
            invariant
                0 <= i <= 8,
                offset < total,
                total + scale_ticks(1920, ppq as int) + 200 <= u32::MAX,
                fills@ == seq![960u32, 1080, 1200, 1320, 1440, 1500, 1560, 1620],
                snare_roll_from(mid, offset as int, total as int, ppq as int, 0) == snare_roll_from(
                    out@,
                    offset as int,
                    total as int,
                    ppq as int,
                    i as int,
                ),
            decreases 8 - i,
        {
            assert(fills@[i as int] == fill_tick(i as int));
            let target = offset + scaled(fills[i], ppq);
            if target < total as u64 {
                let vel: u8 = 70 + (i as u8) * 5;
                out.push(MidiNote { tick: target as u32, note_number: 38, velocity: vel, channel: 9 });
                out.push(
                    MidiNote { tick: (target + 80) as u32, note_number: 38, velocity: 0, channel: 9 },
                );
            }
            i = i + 1;
        }
        assert(out@ == snare_roll_from(mid, offset as int, total as int, ppq as int, 0));
        let target = offset + scaled(1680, ppq);
        if target < total as u64 {
            push_hit(out, target, target + 200, 36, 127, 9);
            push_hit(out, target, target + 200, 49, 127, 9);
        }
        assert(out@ == drum_ending(start, *track, offset as int, total as int, ppq as int));
        assert(start == old(out)@);
    
}

/// The bass track of the last measure.
fn bass_ending_exec(
    out: &mut Vec<MidiNote>,
    engine: &RhythmEngine,
    track: &RhythmTrack,
    offset: u64,
    total: u32,
    timeline: &[BsChordEvent],
    ppq: u16,
)
    requires
        sorted_by_key(timeline@),
        timeline@.len() > 0,
        offset < total,
        total + scale_ticks(1920, ppq as int) + 200 <= u32::MAX,
    ensures
        final(out)@ == bass_ending(old(out)@, *track, offset as int, total as int, timeline@, ppq as int),
{
    proof {
        lemma_scale_bounds(960, 1920, ppq as int);
        lemma_scale_bounds(1680, 1920, ppq as int);
    }
    let n = track.notes.len();
    let mut k: usize = 0;
    while k < n && !(track.notes[k].tick == 0 && track.notes[k].velocity > 0)
        invariant
            0 <= k <= n,
            n == track.notes@.len(),
            first_downbeat_from(track.notes@, 0) == first_downbeat_from(track.notes@, k as int),
        decreases n - k,
    {
        k = k + 1;
    }
    if k < n {
        let note = track.notes[k];
        let chord = match engine.get_chord_at_tick(offset as u32, timeline) {
            Some(c) => *c,
            None => timeline[0],
        };
        let shifted = clamp_note_exec(note.note_number as i32 + chord.root_pitch as i32);
        push_hit(out, offset, offset + scaled(960, ppq), shifted, 110, note.channel);
        let e = offset + scaled(1680, ppq);
        if e < total as u64 {
            push_hit(out, e, e + 200, shifted, 120, note.channel);
        }
    }

}

/// The accompaniment track of the last measure.
fn accompaniment_ending_exec(
    out: &mut Vec<MidiNote>,
    engine: &RhythmEngine,
    track: &RhythmTrack,
    offset: u64,
    total: u32,
    timeline: &[BsChordEvent],
    ppq: u16,
)
    requires
        sorted_by_key(timeline@),
        timeline@.len() > 0,
        offset < total,
        total + scale_ticks(1920, ppq as int) + 200 <= u32::MAX,
    ensures
        final(out)@ == accompaniment_ending_from(old(out)@, track.notes@, offset as int, total as int, timeline@, ppq as int, 0),
{
    proof {
        lemma_scale_bounds(960, 1920, ppq as int);
        lemma_scale_bounds(1680, 1920, ppq as int);
    }
    let n = track.notes.len();
    let chord = match engine.get_chord_at_tick(offset as u32, timeline) {
        Some(c) => *c,
        None => timeline[0],
    };
    let ghost start = out@;
    let mut k: usize = 0;
    while k < n
        invariant
            0 <= k <= n,
            n == track.notes@.len(),
            offset < total,
            total + scale_ticks(1920, ppq as int) + 200 <= u32::MAX,
            scale_ticks(960, ppq as int) <= scale_ticks(1920, ppq as int),
            chord == chord_or_first(timeline@, offset as int),
            accompaniment_ending_from(
                start,
                track.notes@,
                offset as int,
                total as int,
                timeline@,
                ppq as int,
                0,
            ) == accompaniment_ending_from(
                out@,
                track.notes@,
                offset as int,
                total as int,
                timeline@,
                ppq as int,
                k as int,
            ),
        decreases n - k,
    {
        let note = track.notes[k];
        if note.tick == 0 && note.velocity > 0 {
            let fin = fit_to_chord_exec(note.note_number, &chord);
            push_hit(out, offset, offset + scaled(960, ppq), fin, 95, note.channel);
            let e = offset + scaled(1680, ppq);
            if e < total as u64 {
                push_hit(out, e, e + 200, fin, 115, note.channel);
            }
        }
        k = k + 1;
    }

}

/// The notes of one track in the last measure.
fn ending_track_exec(
    out: &mut Vec<MidiNote>,
    engine: &RhythmEngine,
    track: &RhythmTrack,
    offset: u64,
    total: u32,
    timeline: &[BsChordEvent],
    ppq: u16,
)
    requires
        sorted_by_key(timeline@),
        timeline@.len() > 0,
        offset < total,
        total + scale_ticks(1920, ppq as int) + 200 <= u32::MAX,
    ensures
        final(out)@ == ending_track(old(out)@, *track, offset as int, total as int, timeline@, ppq as int),
{
    match track.track_type {
        TrackType::Drum => drum_ending_exec(out, track, offset, total, ppq),
        TrackType::Bass => bass_ending_exec(out, engine, track, offset, total, timeline, ppq),
        TrackType::Accompaniment => accompaniment_ending_exec(out, engine, track, offset, total, timeline, ppq),
    }
}

impl RhythmEngine {
    /// The pattern registered for `rhythm`.
    pub fn find_pattern(&self, rhythm: Rhythm) -> (res: Option<&AdvancedRhythmPattern>)
        ensures
            match res {
                None => pattern_of(self.pattern_library@, rhythm) is None,
                Some(p) => pattern_of(self.pattern_library@, rhythm) == Some(*p),
            },
    {
        let n = self.pattern_library.len();
        let mut i: usize = 0;
        assert(self.pattern_library@.skip(0) =~= self.pattern_library@);
        while i < n
            invariant
                0 <= i <= n,
                n == self.pattern_library@.len(),
                pattern_of(self.pattern_library@, rhythm) == pattern_of(
                    self.pattern_library@.skip(i as int),
                    rhythm,
                ),
            decreases n - i,
        {
            assert(self.pattern_library@.skip(i as int)[0] == self.pattern_library@[i as int]);
            if self.pattern_library[i].0 == rhythm {
                return Some(&self.pattern_library[i].1);
            }
            assert(self.pattern_library@.skip(i as int).drop_first() =~= self.pattern_library@.skip(
                i + 1,
            ));
            i = i + 1;
        }
        None
    }

    /// Builds the accompaniment of a song of `total_duration_ticks` ticks from
    /// the pattern of the current rhythm, following the chords of `bs_timeline`;
    /// pattern ticks are scaled from 480 to `source_ppq` ticks per quarter note.
    pub fn generate_accompaniment_tracks(
        &self,
        total_duration_ticks: u32,
        bs_timeline: &[BsChordEvent],
        source_ppq: u16,
    ) -> (notes: Vec<MidiNote>)
        requires
            sorted_by_key(bs_timeline@),
            accompaniment_defined(
                self.is_enable,
                self.pattern_library@,
                self.current_rhythm,
                total_duration_ticks as int,
                bs_timeline@,
                source_ppq as int,
            ),
        ensures
            notes@ == accompaniment(
                self.is_enable,
                self.pattern_library@,
                self.current_rhythm,
                total_duration_ticks as int,
                bs_timeline@,
                source_ppq as int,
            ),
            sorted_by_key(notes@),
    {
        if !self.is_enable || bs_timeline.len() == 0 {
            return Vec::new();
        }
        match self.find_pattern(self.current_rhythm) {
            None => Vec::new(),
            Some(pattern) => {
                let raw = generate_raw(self, pattern, total_duration_ticks, bs_timeline, source_ppq);
                sort_stable_by_key(raw)
            },
        }
    }
}

/// The accompaniment in generation order.
fn generate_raw(
    engine: &RhythmEngine,
    pattern: &AdvancedRhythmPattern,
    total: u32,
    timeline: &[BsChordEvent],
    ppq: u16,
) -> (raw: Vec<MidiNote>)
    requires
        sorted_by_key(timeline@),
        timeline@.len() > 0,
        total > 0 ==> scale_ticks(pattern.length_ticks as int, ppq as int) > 0,
        total > 0 ==> total + scale_ticks(1920, ppq as int) + 200 <= u32::MAX,
        total > 0 ==> pattern.tracks@.len() * 256 <= usize::MAX,
    ensures
        raw@ == raw_accompaniment(*pattern, total as int, timeline@, ppq as int),
{
    let mut out: Vec<MidiNote> = Vec::new();
    if total == 0 {
        return out;
    }
    let ntracks = pattern.tracks.len();
    let table_len = ntracks * 256;
    let mut last: Vec<Option<u8>> = Vec::new();
    let mut z: usize = 0;
    while z < table_len
        invariant
            0 <= z <= table_len,
            last@ == Seq::new(z as nat, |i: int| None::<u8>),
        decreases table_len - z,
    {
        last.push(None);
        z = z + 1;
        assert(last@ =~= Seq::new(z as nat, |i: int| None::<u8>));
    }
    let len = scaled(pattern.length_ticks, ppq);
    let ghost goal = raw_accompaniment(*pattern, total as int, timeline@, ppq as int);
    let mut offset: u64 = 0;
    while offset < total as u64
        invariant
            sorted_by_key(timeline@),
            timeline@.len() > 0,
            total > 0,
            len == scale_ticks(pattern.length_ticks as int, ppq as int),
            len > 0,
            len <= 0x1_0000_0000_0000,
            offset <= total as int + 0x1_0000_0000_0000,
            total + scale_ticks(1920, ppq as int) + 200 <= u32::MAX,
            ntracks == pattern.tracks@.len(),
            last@.len() == ntracks * 256,
            goal == measures_from(
                (out@, last@),
                *pattern,
                offset as int,
                total as int,
                timeline@,
                ppq as int,
            ).0,
        decreases (if offset < total { total - offset } else { 0int }),
    {
        let is_last = offset + len >= total as u64;
        let ghost before = (out@, last@);
        let ghost measure_goal = measure_from(
            before,
            *pattern,
            offset as int,
            is_last,
            total as int,
            timeline@,
            ppq as int,
            0,
        );
        let mut t: usize = 0;
        while t < ntracks
            invariant
                0 <= t <= ntracks,
                ntracks == pattern.tracks@.len(),
                sorted_by_key(timeline@),
                timeline@.len() > 0,
                offset < total,
                total + scale_ticks(1920, ppq as int) + 200 <= u32::MAX,
                last@.len() == ntracks * 256,
                measure_goal == measure_from(
                    (out@, last@),
                    *pattern,
                    offset as int,
                    is_last,
                    total as int,
                    timeline@,
                    ppq as int,
                    t as int,
                ),
            decreases ntracks - t,
        {
            let track = &pattern.tracks[t];
            if is_last {
                ending_track_exec(&mut out, engine, track, offset, total, timeline, ppq);
            } else {
                regular_track(&mut out, &mut last, engine, track, t, offset, total, timeline, ppq);
            }
            t = t + 1;
        }
        offset = offset + len;
    }
    out
}

/// Position of the entry for `r` in the library, if any.
pub open spec fn index_of(lib: Seq<(Rhythm, AdvancedRhythmPattern)>, r: Rhythm) -> Option<int>
    decreases lib.len(),
{
    if lib.len() == 0 {
        None
    } else if lib[0].0 == r {
        Some(0)
    } else {
        match index_of(lib.drop_first(), r) {
            Some(i) => Some(i + 1),
            None => None,
        }
    }
}

/// The library with `p` registered for `r`: an existing entry for `r` is
/// replaced in place, otherwise the entry is appended.
pub open spec fn library_insert(
    lib: Seq<(Rhythm, AdvancedRhythmPattern)>,
    r: Rhythm,
    p: AdvancedRhythmPattern,
) -> Seq<(Rhythm, AdvancedRhythmPattern)> {
    match index_of(lib, r) {
        Some(i) => lib.update(i, (r, p)),
        None => lib.push((r, p)),
    }
}

/// The rhythm a pattern file names by `name`.
pub open spec fn rhythm_named(name: Seq<char>) -> Option<Rhythm> {
    if name == "Disco"@ {
        Some(Rhythm::Disco)
    } else if name == "GoGo"@ {
        Some(Rhythm::GoGo)
    } else if name == "Dance"@ {
        Some(Rhythm::Dance)
    } else if name == "Techno"@ {
        Some(Rhythm::Techno)
    } else if name == "Hiphop"@ {
        Some(Rhythm::Hiphop)
    } else if name == "Jitterbug"@ {
        Some(Rhythm::Jitterbug)
    } else if name == "Edm"@ {
        Some(Rhythm::Edm)
    } else if name == "Edm2"@ {
        Some(Rhythm::Edm2)
    } else if name == "Original"@ {
        Some(Rhythm::Original)
    } else {
        None
    }
}

/// The library after registering the named patterns of `entries` in order;
/// entries whose name is no rhythm are skipped.
pub open spec fn register_all(
    lib: Seq<(Rhythm, AdvancedRhythmPattern)>,
    entries: Seq<(Seq<char>, AdvancedRhythmPattern)>,
) -> Seq<(Rhythm, AdvancedRhythmPattern)>
    decreases entries.len(),
{
    if entries.len() == 0 {
        lib
    } else {
        let lib2 = match rhythm_named(entries[0].0) {
            Some(r) => library_insert(lib, r, entries[0].1),
            None => lib,
        };
        register_all(lib2, entries.drop_first())
    }
}

proof fn lemma_index_of(lib: Seq<(Rhythm, AdvancedRhythmPattern)>, r: Rhythm)
    ensures
        match index_of(lib, r) {
            Some(i) => 0 <= i < lib.len() && lib[i].0 == r && pattern_of(lib, r) == Some(lib[i].1)
                && forall|j: int| 0 <= j < i ==> lib[j].0 != r,
            None => pattern_of(lib, r) is None && forall|j: int| 0 <= j < lib.len() ==> lib[j].0 != r,
        },
    decreases lib.len(),
{
    if lib.len() > 0 && lib[0].0 != r {
        lemma_index_of(lib.drop_first(), r);
        assert forall|j: int| 1 <= j < lib.len() implies lib[j] == lib.drop_first()[j - 1] by {}
    }
}

proof fn lemma_pattern_of_prefix(lib: Seq<(Rhythm, AdvancedRhythmPattern)>, q: Rhythm, i: int)
    requires
        0 <= i < lib.len(),
        forall|j: int| 0 <= j < i ==> lib[j].0 != q,
        lib[i].0 == q,
    ensures
        pattern_of(lib, q) == Some(lib[i].1),
    decreases i,
{
    if i > 0 {
        lemma_pattern_of_prefix(lib.drop_first(), q, i - 1);
    }
}

proof fn lemma_pattern_of_absent(lib: Seq<(Rhythm, AdvancedRhythmPattern)>, q: Rhythm)
    requires
        forall|j: int| 0 <= j < lib.len() ==> lib[j].0 != q,
    ensures
        pattern_of(lib, q) is None,
    decreases lib.len(),
{
    if lib.len() > 0 {
        lemma_pattern_of_absent(lib.drop_first(), q);
    }
}

/// Registering a pattern for `r` makes it the pattern of `r` and leaves the
/// patterns of every other rhythm unchanged.
pub proof fn lemma_library_insert(
    lib: Seq<(Rhythm, AdvancedRhythmPattern)>,
    r: Rhythm,
    p: AdvancedRhythmPattern,
    q: Rhythm,
)
    ensures
        pattern_of(library_insert(lib, r, p), q) == if q == r {
            Some(p)
        } else {
            pattern_of(lib, q)
        },
{
    lemma_index_of(lib, r);
    lemma_index_of(lib, q);
    let l2 = library_insert(lib, r, p);
    match index_of(lib, r) {
        Some(i) => {
            if q == r {
                lemma_pattern_of_prefix(l2, q, i);
            } else {
                match index_of(lib, q) {
                    Some(k) => {
                        lemma_pattern_of_prefix(l2, q, k);
                    },
                    None => {
                        lemma_pattern_of_absent(l2, q);
                    },
                }
            }
        },
        None => {
            if q == r {
                lemma_pattern_of_prefix(l2, q, lib.len() as int);
            } else {
                match index_of(lib, q) {
                    Some(k) => {
                        lemma_pattern_of_prefix(l2, q, k);
                    },
                    None => {
                        lemma_pattern_of_absent(l2, q);
                    },
                }
            }
        },
    }
}

/// The rhythm named `name` in a pattern file, if any.
pub fn parse_rhythm_name(name: &str) -> (r: Option<Rhythm>)
    ensures
        r == rhythm_named(name@),
{
    if str_eq(name, "Disco") {
        Some(Rhythm::Disco)
    } else if str_eq(name, "GoGo") {
        Some(Rhythm::GoGo)
    } else if str_eq(name, "Dance") {
        Some(Rhythm::Dance)
    } else if str_eq(name, "Techno") {
        Some(Rhythm::Techno)
    } else if str_eq(name, "Hiphop") {
        Some(Rhythm::Hiphop)
    } else if str_eq(name, "Jitterbug") {
        Some(Rhythm::Jitterbug)
    } else if str_eq(name, "Edm") {
        Some(Rhythm::Edm)
    } else if str_eq(name, "Edm2") {
        Some(Rhythm::Edm2)
    } else if str_eq(name, "Original") {
        Some(Rhythm::Original)
    } else {
        None
    }
}

impl RhythmEngine {
    /// Registers `pattern` for `rhythm`, replacing any earlier one.
    pub fn insert_pattern(&mut self, rhythm: Rhythm, pattern: AdvancedRhythmPattern)
        ensures
            final(self).pattern_library@ == library_insert(old(self).pattern_library@, rhythm, pattern),
            final(self).is_enable == old(self).is_enable,
            final(self).current_rhythm == old(self).current_rhythm,
    {
        let n = self.pattern_library.len();
        let mut i: usize = 0;
        assert(self.pattern_library@.skip(0) =~= self.pattern_library@);
        while i < n
            invariant
                0 <= i <= n,
                n == self.pattern_library@.len(),
                self.pattern_library@ == old(self).pattern_library@,
                self.is_enable == old(self).is_enable,
                self.current_rhythm == old(self).current_rhythm,
                forall|j: int| 0 <= j < i ==> self.pattern_library@[j].0 != rhythm,
            decreases n - i,
        {
            if self.pattern_library[i].0 == rhythm {
                proof {
                    lemma_index_of(self.pattern_library@, rhythm);
                    match index_of(self.pattern_library@, rhythm) {
                        Some(k) => {
                            if k < i {
                                assert(self.pattern_library@[k].0 != rhythm);
                            }
                            if k > i {
                                assert(self.pattern_library@[i as int].0 != rhythm);
                            }
                        },
                        None => {
                            assert(self.pattern_library@[i as int].0 != rhythm);
                        },
                    }
                }
                self.pattern_library.set(i, (rhythm, pattern));
                return;
            }
            i = i + 1;
        }
        proof {
            lemma_index_of(self.pattern_library@, rhythm);
        }
        self.pattern_library.push((rhythm, pattern));
    }

    /// Registers the patterns of a pattern file (name and pattern, in file
    /// order); names that are no rhythm are skipped.
    pub fn register_default_patterns(&mut self, entries: Vec<(String, AdvancedRhythmPattern)>)
        ensures
            final(self).pattern_library@ == register_all(
                old(self).pattern_library@,
                entries@.map_values(|e: (String, AdvancedRhythmPattern)| (e.0@, e.1)),
            ),
            final(self).is_enable == old(self).is_enable,
            final(self).current_rhythm == old(self).current_rhythm,
    {
        let ghost all = entries@.map_values(|e: (String, AdvancedRhythmPattern)| (e.0@, e.1));
        let ghost goal = register_all(self.pattern_library@, all);
        let mut rest = entries;
        let n = rest.len();
        let mut i: usize = 0;
        assert(all.skip(0) =~= all);
        while i < n
            invariant
                0 <= i <= n,
                n == all.len(),
                rest@.map_values(|e: (String, AdvancedRhythmPattern)| (e.0@, e.1)) =~= all.skip(
                    i as int,
                ),
                goal == register_all(self.pattern_library@, all.skip(i as int)),
                self.is_enable == old(self).is_enable,
                self.current_rhythm == old(self).current_rhythm,
            decreases n - i,
        {
            let ghost before = rest@;
            let (name, pattern) = rest.remove(0);
            assert(all.skip(i as int)[0] == (name@, pattern));
            assert(all.skip(i as int).drop_first() =~= all.skip(i + 1));
            assert(rest@ =~= before.drop_first());
            match parse_rhythm_name(name.as_str()) {
                Some(r) => self.insert_pattern(r, pattern),
                None => {},
            }
            i = i + 1;
        }
    }
}


impl RhythmEngine {
    /// Whether the accompaniment of a song can be generated: the pattern of
    /// the current rhythm loops (non-zero length at the song's resolution)
    /// and the generated ticks fit in 32 bits.
    pub fn can_generate(&self, total_duration_ticks: u32, bs_timeline: &[BsChordEvent], source_ppq: u16) -> (r: bool)
        ensures
            r == accompaniment_defined(
                self.is_enable,
                self.pattern_library@,
                self.current_rhythm,
                total_duration_ticks as int,
                bs_timeline@,
                source_ppq as int,
            ),
    {
        if !self.is_enable || bs_timeline.len() == 0 || total_duration_ticks == 0 {
            return true;
        }
        match self.find_pattern(self.current_rhythm) {
            None => true,
            Some(p) => {
                let len = scaled(p.length_ticks, source_ppq);
                let bar = scaled(1920, source_ppq);
                len > 0 && (total_duration_ticks as u64) + bar + 200 <= 0xFFFF_FFFF && p.tracks.len() <= usize::MAX / 256
            },
        }
    }
}

} // verus!
