//! The MIDI sequencer: merges the tracks of a Standard MIDI File into one
//! tick-ordered event timeline, detects the MIDI standard (GM/GS/XG) and
//! extracts the chord progression of the bass ($BS) track.
use vstd::prelude::*;
use crate::rhythm_engine::BsChordEvent;
use crate::sort::{SortKey, sorted_by_key, stable_sort, sort_stable_by_key, lemma_stable_sort_map, lemma_stable_sort};
use crate::text::{
    spec_utf8_lossy, utf8_lossy, chars_of, spec_to_uppercase, to_uppercase_string, string_from_chars, spec_trim,
    trim_chars, spec_is_whitespace, is_whitespace,
};
use vstd::string::StrSliceExecFns;

verus! {

/// MIDI standard of a song, as announced by its reset SysEx messages.
#[derive(Debug, Clone, Copy, PartialEq, Eq, Structural)]
pub enum MidiFormat {
    GM,
    GS,
    XG,
}

/// A MIDI channel message (key, velocity, controller and program in 0..=127,
/// pitch bend in -8192..=8191 with 0 at the centre).
#[derive(Debug, Clone, Copy, PartialEq, Eq, Structural)]
pub enum MidiMessage {
    NoteOff { key: u8, vel: u8 },
    NoteOn { key: u8, vel: u8 },
    Aftertouch { key: u8, vel: u8 },
    Controller { controller: u8, value: u8 },
    ProgramChange { program: u8 },
    ChannelAftertouch { vel: u8 },
    PitchBend { bend: i16 },
}

/// A meta message of a Standard MIDI File, as far as the sequencer reads it.
#[derive(Debug, Clone)]
pub enum MetaEvent {
    TrackName(Vec<u8>),
    MidiPort(u8),
    Lyric(Vec<u8>),
    Text(Vec<u8>),
    /// Microseconds per quarter note.
    Tempo(u32),
    Other,
}

/// The kind of an event of a Standard MIDI File track.
#[derive(Debug, Clone)]
pub enum SmfEventKind {
    Midi { channel: u8, message: MidiMessage },
    /// System-exclusive data, without the leading F0.
    SysEx(Vec<u8>),
    Escape(Vec<u8>),
    Meta(MetaEvent),
}

/// An event of a track, `delta` ticks after the previous one.
#[derive(Debug, Clone)]
pub struct SmfTrackEvent {
    pub delta: u32,
    pub kind: SmfEventKind,
}

/// A parsed Standard MIDI File: ticks per quarter note (metrical timing
/// only) and its tracks.
#[derive(Debug, Clone)]
pub struct SmfData {
    pub ppq: Option<u16>,
    pub tracks: Vec<Vec<SmfTrackEvent>>,
}

/// An event of the engine's timeline or of its UI channel.
#[derive(Debug, Clone)]
pub enum MidiEngineEvent {
    MidiPlay { port: u8, channel: u8, is_drum_channel: bool, message: MidiMessage },
    TempoChange { tempo: u32 },
    /// Karaoke lyric or text.
    SmfKaraokeText { text: String },
    MidiReset,
    TickUpdate { current_tick: u64, total_tick: u64 },
    ChannelLevel { port: u8, levels: [u8; 16] },
    SetDrumChannel { port: u8, channel: u8, is_drum: bool },
    ChordUpdate { root_pitch: u8, is_minor: bool, is_7th: bool, is_maj7: bool },
    KeySignature { key: i8, is_sharp: bool },
    RhythmEngineControl { command: u8, mask_lo: u8, mask_hi: u8 },
    FluidsynthWarning { message: String },
}

/// An event of the timeline at an absolute tick; at equal ticks lower
/// priorities come first (0: meta and setup, 1: program and drum setup, 2: notes).
#[derive(Debug, Clone)]
pub struct SequenceEvent {
    pub absolute_tick: u32,
    pub priority: u8,
    pub inner: MidiEngineEvent,
}

/// Mathematical form of an engine event: texts are character sequences.
pub enum EventView {
    MidiPlay { port: u8, channel: u8, is_drum_channel: bool, message: MidiMessage },
    TempoChange { tempo: u32 },
    SmfKaraokeText { text: Seq<char> },
    MidiReset,
    TickUpdate { current_tick: u64, total_tick: u64 },
    ChannelLevel { port: u8, levels: Seq<u8> },
    SetDrumChannel { port: u8, channel: u8, is_drum: bool },
    ChordUpdate { root_pitch: u8, is_minor: bool, is_7th: bool, is_maj7: bool },
    KeySignature { key: i8, is_sharp: bool },
    RhythmEngineControl { command: u8, mask_lo: u8, mask_hi: u8 },
    FluidsynthWarning { message: Seq<char> },
}

impl View for MidiEngineEvent {
    type V = EventView;

    open spec fn view(&self) -> EventView {
        match self {
            MidiEngineEvent::MidiPlay { port, channel, is_drum_channel, message } => EventView::MidiPlay {
                port: *port,
                channel: *channel,
                is_drum_channel: *is_drum_channel,
                message: *message,
            },
            MidiEngineEvent::TempoChange { tempo } => EventView::TempoChange { tempo: *tempo },
            MidiEngineEvent::SmfKaraokeText { text } => EventView::SmfKaraokeText { text: text@ },
            MidiEngineEvent::MidiReset => EventView::MidiReset,
            MidiEngineEvent::TickUpdate { current_tick, total_tick } => EventView::TickUpdate {
                current_tick: *current_tick,
                total_tick: *total_tick,
            },
            MidiEngineEvent::ChannelLevel { port, levels } => EventView::ChannelLevel {
                port: *port,
                levels: levels@,
            },
            MidiEngineEvent::SetDrumChannel { port, channel, is_drum } => EventView::SetDrumChannel {
                port: *port,
                channel: *channel,
                is_drum: *is_drum,
            },
            MidiEngineEvent::ChordUpdate { root_pitch, is_minor, is_7th, is_maj7 } => EventView::ChordUpdate {
                root_pitch: *root_pitch,
                is_minor: *is_minor,
                is_7th: *is_7th,
                is_maj7: *is_maj7,
            },
            MidiEngineEvent::KeySignature { key, is_sharp } => EventView::KeySignature {
                key: *key,
                is_sharp: *is_sharp,
            },
            MidiEngineEvent::RhythmEngineControl { command, mask_lo, mask_hi } => EventView::RhythmEngineControl {
                command: *command,
                mask_lo: *mask_lo,
                mask_hi: *mask_hi,
            },
            MidiEngineEvent::FluidsynthWarning { message } => EventView::FluidsynthWarning {
                message: message@,
            },
        }
    }
}

/// Mathematical form of a timeline event.
pub struct SequenceEventView {
    pub absolute_tick: u32,
    pub priority: u8,
    pub inner: EventView,
}

impl View for SequenceEvent {
    type V = SequenceEventView;

    open spec fn view(&self) -> SequenceEventView {
        SequenceEventView { absolute_tick: self.absolute_tick, priority: self.priority, inner: self.inner@ }
    }
}

impl SortKey for SequenceEvent {
    /// Timeline order: tick, then priority.
    open spec fn sort_key(&self) -> int {
        self.absolute_tick * 256 + self.priority
    }

    fn key(&self) -> (k: u64) {
        self.absolute_tick as u64 * 256 + self.priority as u64
    }
}

impl SortKey for SequenceEventView {
    open spec fn sort_key(&self) -> int {
        self.absolute_tick * 256 + self.priority
    }

    fn key(&self) -> (k: u64) {
        self.absolute_tick as u64 * 256 + self.priority as u64
    }
}

/// A copy of an engine event.
pub fn clone_event(e: &MidiEngineEvent) -> (r: MidiEngineEvent)
    ensures
        r@ == e@,
{
    match e {
        MidiEngineEvent::MidiPlay { port, channel, is_drum_channel, message } => MidiEngineEvent::MidiPlay {
            port: *port,
            channel: *channel,
            is_drum_channel: *is_drum_channel,
            message: *message,
        },
        MidiEngineEvent::TempoChange { tempo } => MidiEngineEvent::TempoChange { tempo: *tempo },
        MidiEngineEvent::SmfKaraokeText { text } => MidiEngineEvent::SmfKaraokeText { text: text.clone() },
        MidiEngineEvent::MidiReset => MidiEngineEvent::MidiReset,
        MidiEngineEvent::TickUpdate { current_tick, total_tick } => MidiEngineEvent::TickUpdate {
            current_tick: *current_tick,
            total_tick: *total_tick,
        },
        MidiEngineEvent::ChannelLevel { port, levels } => MidiEngineEvent::ChannelLevel {
            port: *port,
            levels: *levels,
        },
        MidiEngineEvent::SetDrumChannel { port, channel, is_drum } => MidiEngineEvent::SetDrumChannel {
            port: *port,
            channel: *channel,
            is_drum: *is_drum,
        },
        MidiEngineEvent::ChordUpdate { root_pitch, is_minor, is_7th, is_maj7 } => MidiEngineEvent::ChordUpdate {
            root_pitch: *root_pitch,
            is_minor: *is_minor,
            is_7th: *is_7th,
            is_maj7: *is_maj7,
        },
        MidiEngineEvent::KeySignature { key, is_sharp } => MidiEngineEvent::KeySignature {
            key: *key,
            is_sharp: *is_sharp,
        },
        MidiEngineEvent::RhythmEngineControl { command, mask_lo, mask_hi } => MidiEngineEvent::RhythmEngineControl {
            command: *command,
            mask_lo: *mask_lo,
            mask_hi: *mask_hi,
        },
        MidiEngineEvent::FluidsynthWarning { message } => MidiEngineEvent::FluidsynthWarning {
            message: message.clone(),
        },
    }
}

// ---------------------------------------------------------------------------
// Chord names in lyric text

/// Pitch class of a chord letter.
pub open spec fn letter_root(c: char) -> Option<int> {
    if c == 'C' {
        Some(0)
    } else if c == 'D' {
        Some(2)
    } else if c == 'E' {
        Some(4)
    } else if c == 'F' {
        Some(5)
    } else if c == 'G' {
        Some(7)
    } else if c == 'A' {
        Some(9)
    } else if c == 'B' {
        Some(11)
    } else {
        None
    }
}

/// `s` begins with `p`.
pub open spec fn starts_with(s: Seq<char>, p: Seq<char>) -> bool {
    p.len() <= s.len() && s.subrange(0, p.len() as int) == p
}

/// The chord an upper-cased word names (`C`, `AM`, `F#M`, `BB7`, ...): its
/// root pitch class and whether it is minor. A sharp (`#`) after the letter
/// raises and a flat (`B` or `♭`) lowers the root; the chord is minor when
/// the rest of the word starts with `M` but not `MAJ`, or with `MIN`.
pub open spec fn chord_of_upper_spec(u: Seq<char>) -> Option<(u8, bool)> {
    if u.len() == 0 {
        None
    } else {
        match letter_root(u[0]) {
            None => None,
            Some(root) => {
                let sharp = u.len() > 1 && u[1] == '#';
                let flat = u.len() > 1 && (u[1] == 'B' || u[1] == '♭');
                let modifier: int = if sharp { 1 } else if flat { -1 } else { 0 };
                let idx: int = if sharp || flat { 2 } else { 1 };
                let rest = u.skip(idx);
                let minor = (starts_with(rest, seq!['M']) && !starts_with(rest, seq!['M', 'A', 'J']))
                    || starts_with(rest, seq!['M', 'I', 'N']);
                Some((((root + modifier + 12) % 12) as u8, minor))
            },
        }
    }
}

/// The chord a single word of lyric text names: the word trimmed and
/// upper-cased, read by `chord_of_upper_spec`; none for an empty word.
pub open spec fn chord_of_word(word: Seq<char>) -> Option<(u8, bool)> {
    if word.len() == 0 {
        None
    } else {
        chord_of_upper_spec(spec_to_uppercase(spec_trim(word)))
    }
}

fn starts_with_exec(s: &[char], from: usize, p: &[char]) -> (b: bool)
    requires
        from <= s@.len(),
    ensures
        b == starts_with(s@.skip(from as int), p@),
{
    if p.len() > s.len() - from {
        return false;
    }
    let mut i: usize = 0;
    while i < p.len()
        invariant
            0 <= i <= p.len(),
            p.len() <= s.len() - from,
            from <= s@.len(),
            forall|j: int| 0 <= j < i ==> s@[from + j] == p@[j],
        decreases p.len() - i,
    {
        if s[from + i] != p[i] {
            assert(s@.skip(from as int).subrange(0, p@.len() as int)[i as int] != p@[i as int]);
            return false;
        }
        i = i + 1;
    }
    assert(s@.skip(from as int).subrange(0, p@.len() as int) =~= p@);
    true
}

/// The chord named by a single word of lyric text, if any.
pub fn parse_single_chord_name(word: &str) -> (r: Option<(u8, bool)>)
    ensures
        r == chord_of_word(word@),
{
    let chars = chars_of(word);
    chord_of_chars(&chars)
}

/// The chord named by a word given as characters.
fn chord_of_chars(chars: &Vec<char>) -> (r: Option<(u8, bool)>)
    ensures
        r == chord_of_word(chars@),
{
    if chars.len() == 0 {
        return None;
    }
    let trimmed = trim_chars(&chars);
    let t = string_from_chars(trimmed.as_slice());
    let u = chars_of(to_uppercase_string(t.as_str()).as_str());
    chord_of_upper(u.as_slice())
}

/// The chord an upper-cased word names (see `chord_of_upper_spec`).
pub fn chord_of_upper(u: &[char]) -> (r: Option<(u8, bool)>)
    ensures
        r == chord_of_upper_spec(u@),
{
    if u.len() == 0 {
        return None;
    }
    let first = u[0];
    let root: i32 = if first == 'C' {
        0
    } else if first == 'D' {
        2
    } else if first == 'E' {
        4
    } else if first == 'F' {
        5
    } else if first == 'G' {
        7
    } else if first == 'A' {
        9
    } else if first == 'B' {
        11
    } else {
        return None;
    };
    let sharp = u.len() > 1 && u[1] == '#';
    let flat = u.len() > 1 && (u[1] == 'B' || u[1] == '♭');
    let modifier: i32 = if sharp {
        1
    } else if flat {
        -1
    } else {
        0
    };
    let idx: usize = if sharp || flat {
        2
    } else {
        1
    };
    let m = ['M'];
    let maj = ['M', 'A', 'J'];
    let min = ['M', 'I', 'N'];
    assert(m@ == seq!['M']);
    assert(maj@ == seq!['M', 'A', 'J']);
    assert(min@ == seq!['M', 'I', 'N']);
    let minor = (starts_with_exec(u, idx, &m) && !starts_with_exec(u, idx, &maj)) || starts_with_exec(
        u,
        idx,
        &min,
    );
    Some((((root + modifier + 12) % 12) as u8, minor))
}

// ---------------------------------------------------------------------------
// Building the timeline of a Standard MIDI File

/// Lower-case form of an ASCII byte.
pub open spec fn ascii_lower(b: u8) -> u8 {
    if 65 <= b <= 90 {
        (b + 32) as u8
    } else {
        b
    }
}

/// A track name marks the bass track when it holds `bs` or `bass` in any
/// ASCII case (this covers `$BS`, and survives names in legacy encodings).
pub open spec fn names_bass(b: Seq<u8>) -> bool {
    (exists|i: int| #[trigger] bs_at(b, i)) || (exists|i: int| #[trigger] bass_at(b, i))
}

/// `bs` (any case) at position `i`.
pub open spec fn bs_at(b: Seq<u8>, i: int) -> bool {
    0 <= i && i + 1 < b.len() && ascii_lower(b[i]) == 98 && ascii_lower(b[i + 1]) == 115
}

/// `bass` (any case) at position `i`.
pub open spec fn bass_at(b: Seq<u8>, i: int) -> bool {
    0 <= i && i + 3 < b.len() && ascii_lower(b[i]) == 98 && ascii_lower(b[i + 1]) == 97
        && ascii_lower(b[i + 2]) == 115 && ascii_lower(b[i + 3]) == 115
}

/// A track is the bass ($BS) track when one of its track names marks it so.
pub open spec fn is_bs_track(track: Seq<SmfTrackEvent>) -> bool {
    exists|j: int| 0 <= j < track.len() && marks_bass(#[trigger] track[j])
}

/// A track-name event that marks the bass track.
pub open spec fn marks_bass(e: SmfTrackEvent) -> bool {
    match e.kind {
        SmfEventKind::Meta(MetaEvent::TrackName(b)) => names_bass(b@),
        _ => false,
    }
}

/// Sum of the delta times of a track from event `j` on.
pub open spec fn delta_sum(track: Seq<SmfTrackEvent>, j: int) -> int
    decreases track.len() - j,
{
    if j < 0 || j >= track.len() {
        0
    } else {
        track[j].delta + delta_sum(track, j + 1)
    }
}

pub open spec fn is_gm_reset(d: Seq<u8>) -> bool {
    d.len() >= 4 && d[0] == 0x7E && d[2] == 0x09
}

pub open spec fn is_gs_reset(d: Seq<u8>) -> bool {
    d.len() >= 7 && d[0] == 0x41 && d[2] == 0x42 && d[3] == 0x12 && d[4] == 0x40 && d[5] == 0x00
        && d[6] == 0x7F
}

pub open spec fn is_xg_on(d: Seq<u8>) -> bool {
    d.len() >= 7 && d[0] == 0x43 && d[2] == 0x4C && d[3] == 0x00 && d[4] == 0x00 && d[5] == 0x7E
        && d[6] == 0x00
}

/// Roland GS "rhythm part assign": F0 41 dev 42 12 40 1x 15 value ...
pub open spec fn is_gs_part_assign(d: Seq<u8>) -> bool {
    d.len() >= 9 && d[0] == 0x41 && d[2] == 0x42 && d[3] == 0x12 && d[4] == 0x40 && (d[5] & 0xF0u8)
        == 0x10 && d[6] == 0x15
}

/// Channel of a GS part: part 0 is channel 9, parts 1..9 are channels 0..8,
/// parts 10..15 keep their number.
pub open spec fn gs_part_channel(part: u8) -> u8 {
    if part == 0 {
        9
    } else if 1 <= part <= 9 {
        (part - 1) as u8
    } else if 10 <= part <= 15 {
        part
    } else {
        9
    }
}

/// The channels of the GS parts: GS numbers its parts 1 to 16 with part 10
/// (the drum part) in the first slot, so the part in slot 0 is MIDI channel 10
/// (0-based 9), slots 1 to 9 are parts 1 to 9 and slots 10 to 15 are parts 11
/// to 16. Each part has a channel of its own: the mapping is one to one onto
/// the sixteen channels, and the channel is the part number minus one.
pub proof fn lemma_gs_part_channels(p: u8, q: u8)
    requires
        p < 16,
        q < 16,
    ensures
        gs_part_channel(p) < 16,
        p != q ==> gs_part_channel(p) != gs_part_channel(q),
        gs_part_channel(p) + 1 == (if p == 0 { 10 } else if p <= 9 { p as int } else { p + 1 }),
{
}

/// A GS rhythm part assign message for the part in slot 1 to 9 adds a
/// drum-channel event for MIDI channel slot - 1, at the current tick and
/// port, marking it a drum channel for drum set values 1 and 2.
pub proof fn lemma_gs_part_assign_event(st: ScanState, d: Seq<u8>)
    requires
        is_gs_part_assign(d),
        1 <= (d[5] & 0x0Fu8) <= 9,
    ensures
        scan_sysex(st, d).events.contains(
            event_at(
                st.tick,
                1,
                EventView::SetDrumChannel {
                    port: st.port,
                    channel: ((d[5] & 0x0Fu8) - 1) as u8,
                    is_drum: d[7] == 1 || d[7] == 2,
                },
            ),
        ),
{
    let r = scan_sysex(st, d);
    let gm = is_gm_reset(d);
    let gs = is_gs_reset(d);
    let xg = is_xg_on(d);
    let e1 = if gm || gs || xg {
        st.events.push(event_at(st.tick, 0, EventView::MidiReset))
    } else {
        st.events
    };
    let ev = event_at(
        st.tick,
        1,
        EventView::SetDrumChannel {
            port: st.port,
            channel: ((d[5] & 0x0Fu8) - 1) as u8,
            is_drum: d[7] == 1 || d[7] == 2,
        },
    );
    let e2 = e1.push(ev);
    assert(e2[e1.len() as int] == ev);
    if is_xg_part_mode(d) {
        assert(r.events[e1.len() as int] == ev);
    } else {
        assert(r.events[e1.len() as int] == ev);
    }
}

/// Yamaha XG "part mode": F0 43 dev 4C 08 1x 0E value
pub open spec fn is_xg_part_mode(d: Seq<u8>) -> bool {
    d.len() >= 7 && d[0] == 0x43 && d[2] == 0x4C && d[3] == 0x08 && (d[4] & 0xF0u8) == 0x10 && d[5]
        == 0x0E
}

pub open spec fn event_at(tick: int, priority: u8, inner: EventView) -> SequenceEventView {
    SequenceEventView { absolute_tick: tick as u32, priority, inner }
}

/// State while reading the tracks: timeline so far, detected format, tick
/// and port of the current track, bass notes of the current track, and the
/// lyric texts so far.
pub struct ScanState {
    pub events: Seq<SequenceEventView>,
    pub format: MidiFormat,
    pub tick: int,
    pub port: u8,
    pub bass: Seq<(u32, u8)>,
    pub lyrics: Seq<(u32, Seq<char>)>,
}

/// A SysEx message: resets (GM, GS, XG) set the format and add a reset
/// event; GS rhythm part assign and XG part mode add a drum-channel event.
pub open spec fn scan_sysex(st: ScanState, d: Seq<u8>) -> ScanState {
    let gm = is_gm_reset(d);
    let gs = is_gs_reset(d);
    let xg = is_xg_on(d);
    let format = if xg {
        MidiFormat::XG
    } else if gs {
        MidiFormat::GS
    } else if gm {
        MidiFormat::GM
    } else {
        st.format
    };
    let e1 = if gm || gs || xg {
        st.events.push(event_at(st.tick, 0, EventView::MidiReset))
    } else {
        st.events
    };
    let e2 = if is_gs_part_assign(d) {
        e1.push(
            event_at(
                st.tick,
                1,
                EventView::SetDrumChannel {
                    port: st.port,
                    channel: gs_part_channel(d[5] & 0x0Fu8),
                    is_drum: d[7] == 1 || d[7] == 2,
                },
            ),
        )
    } else {
        e1
    };
    let e3 = if is_xg_part_mode(d) {
        e2.push(
            event_at(
                st.tick,
                1,
                EventView::SetDrumChannel { port: st.port, channel: d[4] & 0x0Fu8, is_drum: d[6] >= 1 },
            ),
        )
    } else {
        e2
    };
    ScanState { events: e3, format, ..st }
}

/// Priority of a channel message: program changes 1, notes 2, others 0.
pub open spec fn message_priority(m: MidiMessage) -> u8 {
    match m {
        MidiMessage::ProgramChange { .. } => 1,
        MidiMessage::NoteOn { .. } => 2,
        MidiMessage::NoteOff { .. } => 2,
        _ => 0,
    }
}

/// A channel message: added to the timeline; a sounding note-on of the bass
/// part (the $BS track when the song has one, else channels 1 and 10 and
/// ports 1 and 15), drums excepted, is kept as a bass note.
pub open spec fn scan_midi(st: ScanState, channel: u8, m: MidiMessage, is_bass: bool, detected: bool) -> ScanState {
    let is_drum = channel == 9;
    let is_bs = if detected {
        is_bass
    } else {
        channel == 1 || channel == 10 || st.port == 15 || st.port == 1
    };
    let bass = match m {
        MidiMessage::NoteOn { key, vel } => if is_bs && !is_drum && vel > 0 {
            st.bass.push((st.tick as u32, key))
        } else {
            st.bass
        },
        _ => st.bass,
    };
    ScanState {
        events: st.events.push(
            event_at(
                st.tick,
                message_priority(m),
                EventView::MidiPlay { port: st.port, channel, is_drum_channel: is_drum, message: m },
            ),
        ),
        bass,
        ..st
    }
}

/// A lyric or text meta event: a non-empty text not starting with `@` is
/// added to the timeline and kept for chord names.
pub open spec fn scan_text(st: ScanState, b: Seq<u8>) -> ScanState {
    let text = spec_utf8_lossy(b);
    if text.len() > 0 && text[0] != '@' {
        ScanState {
            events: st.events.push(event_at(st.tick, 0, EventView::SmfKaraokeText { text })),
            lyrics: st.lyrics.push((st.tick as u32, text)),
            ..st
        }
    } else {
        st
    }
}

/// One event of a track.
pub open spec fn scan_event(st: ScanState, e: SmfTrackEvent, is_bass: bool, detected: bool) -> ScanState {
    let st1 = ScanState { tick: st.tick + e.delta, ..st };
    match e.kind {
        SmfEventKind::SysEx(d) => scan_sysex(st1, d@),
        SmfEventKind::Midi { channel, message } => scan_midi(st1, channel, message, is_bass, detected),
        SmfEventKind::Meta(MetaEvent::MidiPort(p)) => ScanState { port: p, ..st1 },
        SmfEventKind::Meta(MetaEvent::Lyric(b)) => scan_text(st1, b@),
        SmfEventKind::Meta(MetaEvent::Text(b)) => scan_text(st1, b@),
        SmfEventKind::Meta(MetaEvent::Tempo(t)) => ScanState {
            events: st1.events.push(event_at(st1.tick, 0, EventView::TempoChange { tempo: t })),
            ..st1
        },
        _ => st1,
    }
}

/// The events of a track from index `j` on.
pub open spec fn scan_track_from(
    st: ScanState,
    track: Seq<SmfTrackEvent>,
    is_bass: bool,
    detected: bool,
    j: int,
) -> ScanState
    decreases track.len() - j,
{
    if j < 0 || j >= track.len() {
        st
    } else {
        scan_track_from(scan_event(st, track[j], is_bass, detected), track, is_bass, detected, j + 1)
    }
}

/// The chord of a bass note: its pitch class, taken as minor for D, A and B.
pub open spec fn bass_chord(n: (u32, u8)) -> BsChordEvent {
    let root = (n.1 % 12) as u8;
    BsChordEvent {
        tick: n.0,
        root_pitch: root,
        is_minor: root == 2 || root == 9 || root == 11,
        is_7th: false,
        is_maj7: false,
    }
}

/// The tracks from index `t` on; each track starts at tick 0 on port 0, and
/// its bass notes become chords when the track ends.
pub open spec fn scan_tracks_from(
    st: ScanState,
    chords: Seq<BsChordEvent>,
    tracks: Seq<Vec<SmfTrackEvent>>,
    detected: bool,
    t: int,
) -> (ScanState, Seq<BsChordEvent>)
    decreases tracks.len() - t,
{
    if t < 0 || t >= tracks.len() {
        (st, chords)
    } else {
        let st0 = ScanState { tick: 0, port: 0, bass: Seq::empty(), ..st };
        let st1 = scan_track_from(st0, tracks[t]@, is_bs_track(tracks[t]@), detected, 0);
        scan_tracks_from(st1, chords + st1.bass.map_values(|n: (u32, u8)| bass_chord(n)), tracks, detected, t + 1)
    }
}

/// Characters of a lyric without brackets and parentheses.
pub open spec fn strip_brackets(s: Seq<char>) -> Seq<char> {
    s.filter(|c: char| c != '[' && c != ']' && c != '(' && c != ')')
}

/// The chord named by the first word (white-space separated) of `s[i..]` that
/// names one, `cur` being the word read so far.
pub open spec fn first_chord_from(s: Seq<char>, i: int, cur: Seq<char>) -> Option<(u8, bool)>
    decreases s.len() - i,
{
    if i < 0 || i >= s.len() {
        if cur.len() > 0 {
            chord_of_word(cur)
        } else {
            None
        }
    } else if spec_is_whitespace(s[i]) {
        if cur.len() > 0 && chord_of_word(cur) is Some {
            chord_of_word(cur)
        } else {
            first_chord_from(s, i + 1, Seq::empty())
        }
    } else {
        first_chord_from(s, i + 1, cur.push(s[i]))
    }
}

/// Chords named in the lyrics (the first chord word of each lyric), from lyric `k` on.
pub open spec fn lyric_chords_from(lyrics: Seq<(u32, Seq<char>)>, k: int) -> Seq<BsChordEvent>
    decreases lyrics.len() - k,
{
    if k < 0 || k >= lyrics.len() {
        Seq::empty()
    } else {
        let rest = lyric_chords_from(lyrics, k + 1);
        match first_chord_from(strip_brackets(lyrics[k].1), 0, Seq::empty()) {
            Some((root, minor)) => seq![
                BsChordEvent {
                    tick: lyrics[k].0,
                    root_pitch: root,
                    is_minor: minor,
                    is_7th: false,
                    is_maj7: false,
                },
            ] + rest,
            None => rest,
        }
    }
}

/// Some track of the song is its bass ($BS) track.
pub open spec fn has_bs_track(tracks: Seq<Vec<SmfTrackEvent>>) -> bool {
    exists|t: int| 0 <= t < tracks.len() && is_bs_track(#[trigger] tracks[t]@)
}

/// Reading all tracks of the file.
pub open spec fn scan_song(smf: SmfData) -> (ScanState, Seq<BsChordEvent>) {
    let detected = has_bs_track(smf.tracks@);
    let st = ScanState {
        events: Seq::empty(),
        format: MidiFormat::GM,
        tick: 0,
        port: 0,
        bass: Seq::empty(),
        lyrics: Seq::empty(),
    };
    scan_tracks_from(st, Seq::empty(), smf.tracks@, detected, 0)
}

/// The chord timeline of a song: from its bass notes, or from chord names in
/// its lyrics when it has no bass notes; sorted by tick.
pub open spec fn song_chords(smf: SmfData) -> Seq<BsChordEvent> {
    let (st, chords) = scan_song(smf);
    if chords.len() == 0 && st.lyrics.len() > 0 {
        stable_sort(lyric_chords_from(st.lyrics, 0))
    } else {
        stable_sort(chords)
    }
}

/// The timeline of a song: all events, ordered by tick and priority (equal
/// keys keep track order).
pub open spec fn song_events(smf: SmfData) -> Seq<SequenceEventView> {
    stable_sort(scan_song(smf).0.events)
}

/// Inputs the sequencer reads: every track's length in ticks fits in 32 bits.
pub open spec fn smf_fits(smf: SmfData) -> bool {
    forall|t: int| 0 <= t < smf.tracks@.len() ==> delta_sum(#[trigger] smf.tracks@[t]@, 0) <= u32::MAX
}

/// `r` is the sequencer of the song `smf` at its start: the merged timeline,
/// the chord timeline, the detected MIDI standard, the resolution (480 ticks
/// per quarter note where the file gives none), the length of the song and
/// whether it has a bass ($BS) track.
pub open spec fn loaded_from(r: MimiSequencer, smf: SmfData) -> bool {
    &&& events_view(r.event@) == song_events(smf)
    &&& r.chord_timeline@ == song_chords(smf)
    &&& r.format == scan_song(smf).0.format
    &&& r.ppq == (match smf.ppq {
        Some(p) => p,
        None => 480u16,
    })
    &&& r.total_ticks == last_tick(song_events(smf))
    &&& r.current_event_index == 0
    &&& r.tempo == DEFAULT_TEMPO
    &&& r.melody_channels@ == seq![(0u8, 0u8), (0u8, 3u8)]
    &&& r.is_bs_track_detected == has_bs_track(smf.tracks@)
    &&& r.wf()
}

/// The sequencer: the merged timeline of a song and the playback position.
/// Tick positions with fractions and the tempo scaling belong to the caller;
/// the sequencer keeps the index of the next event and the current tempo.
pub struct MimiSequencer {
    pub event: Vec<SequenceEvent>,
    pub ppq: u16,
    pub current_event_index: usize,
    /// Current tempo in microseconds per quarter note.
    pub tempo: u32,
    pub total_ticks: u32,
    pub format: MidiFormat,
    /// Chords of the bass line, sorted by tick.
    pub chord_timeline: Vec<BsChordEvent>,
    /// (port, channel) pairs that carry the melody.
    pub melody_channels: Vec<(u8, u8)>,
    /// Whether a $BS (bass) track was found.
    pub is_bs_track_detected: bool,
}

/// Tempo before any tempo event: 120 beats per minute.
pub const DEFAULT_TEMPO: u32 = 500_000;

/// Views of a list of timeline events.
pub open spec fn events_view(v: Seq<SequenceEvent>) -> Seq<SequenceEventView> {
    v.map_values(|e: SequenceEvent| e@)
}

/// Exec state while reading tracks.
struct Scan {
    events: Vec<SequenceEvent>,
    format: MidiFormat,
    tick: u32,
    port: u8,
    bass: Vec<(u32, u8)>,
    lyrics: Vec<(u32, String)>,
}

impl Scan {
    spec fn sv(&self) -> ScanState {
        ScanState {
            events: events_view(self.events@),
            format: self.format,
            tick: self.tick as int,
            port: self.port,
            bass: self.bass@,
            lyrics: self.lyrics@.map_values(|l: (u32, String)| (l.0, l.1@)),
        }
    }

    fn push_event(&mut self, priority: u8, inner: MidiEngineEvent)
        ensures
            final(self).sv() == (ScanState {
                events: old(self).sv().events.push(event_at(old(self).tick as int, priority, inner@)),
                ..old(self).sv()
            }),
    {
        let ghost before = self.events@;
        self.events.push(SequenceEvent { absolute_tick: self.tick, priority, inner });
        assert(events_view(self.events@) =~= events_view(before).push(
            event_at(self.tick as int, priority, inner@),
        ));
    }
}

fn ascii_lower_exec(b: u8) -> (r: u8)
    ensures
        r == ascii_lower(b),
{
    if 65 <= b && b <= 90 {
        b + 32
    } else {
        b
    }
}

fn names_bass_exec(b: &Vec<u8>) -> (r: bool)
    ensures
        r == names_bass(b@),
{
    let n = b.len();
    if n >= 2 {
        let mut i: usize = 0;
        while i + 1 < n
            invariant
                n == b@.len(),
                n >= 2,
                0 <= i <= n - 1,
                forall|j: int| 0 <= j < i ==> !bs_at(b@, j),
            decreases n - i,
        {
            if ascii_lower_exec(b[i]) == 98 && ascii_lower_exec(b[i + 1]) == 115 {
                assert(bs_at(b@, i as int));
                return true;
            }
            i = i + 1;
        }
        assert(forall|j: int| !bs_at(b@, j));
    } else {
        assert(forall|j: int| !bs_at(b@, j));
    }
    if n >= 4 {
        let mut i: usize = 0;
        while i + 3 < n
            invariant
                n == b@.len(),
                n >= 4,
                0 <= i <= n - 3,
                forall|j: int| 0 <= j < i ==> !bass_at(b@, j),
            decreases n - i,
        {
            if ascii_lower_exec(b[i]) == 98 && ascii_lower_exec(b[i + 1]) == 97
                && ascii_lower_exec(b[i + 2]) == 115 && ascii_lower_exec(b[i + 3]) == 115 {
                assert(bass_at(b@, i as int));
                return true;
            }
            i = i + 1;
        }
    }
    assert(forall|j: int| !bass_at(b@, j));
    false
}

fn track_is_bs(track: &Vec<SmfTrackEvent>) -> (r: bool)
    ensures
        r == is_bs_track(track@),
{
    let n = track.len();
    let mut j: usize = 0;
    while j < n
        invariant
            0 <= j <= n,
            n == track@.len(),
            forall|k: int| 0 <= k < j ==> !marks_bass(#[trigger] track@[k]),
        decreases n - j,
    {
        if let SmfEventKind::Meta(MetaEvent::TrackName(b)) = &track[j].kind {
            if names_bass_exec(b) {
                assert(marks_bass(track@[j as int]));
                return true;
            }
        }
        j = j + 1;
    }
    false
}

fn scan_sysex_exec(sc: &mut Scan, d: &Vec<u8>)
    ensures
        final(sc).sv() == scan_sysex(old(sc).sv(), d@),
{
    let n = d.len();
    let gm = n >= 4 && d[0] == 0x7E && d[2] == 0x09;
    let gs = n >= 7 && d[0] == 0x41 && d[2] == 0x42 && d[3] == 0x12 && d[4] == 0x40 && d[5] == 0x00
        && d[6] == 0x7F;
    let xg = n >= 7 && d[0] == 0x43 && d[2] == 0x4C && d[3] == 0x00 && d[4] == 0x00 && d[5] == 0x7E
        && d[6] == 0x00;
    if xg {
        sc.format = MidiFormat::XG;
    } else if gs {
        sc.format = MidiFormat::GS;
    } else if gm {
        sc.format = MidiFormat::GM;
    }
    if gm || gs || xg {
        sc.push_event(0, MidiEngineEvent::MidiReset);
    }
    if n >= 9 && d[0] == 0x41 && d[2] == 0x42 && d[3] == 0x12 && d[4] == 0x40 && (d[5] & 0xF0) == 0x10
        && d[6] == 0x15 {
        let part = d[5] & 0x0F;
        let ch: u8 = if part == 0 {
            9
        } else if part >= 1 && part <= 9 {
            part - 1
        } else if part >= 10 && part <= 15 {
            part
        } else {
            9
        };
        let is_drum = d[7] == 1 || d[7] == 2;
        let port = sc.port;
        sc.push_event(1, MidiEngineEvent::SetDrumChannel { port, channel: ch, is_drum });
    }
    if n >= 7 && d[0] == 0x43 && d[2] == 0x4C && d[3] == 0x08 && (d[4] & 0xF0) == 0x10 && d[5] == 0x0E {
        let part = d[4] & 0x0F;
        let is_drum = d[6] >= 1;
        let port = sc.port;
        sc.push_event(1, MidiEngineEvent::SetDrumChannel { port, channel: part, is_drum });
    }
}

fn scan_event_exec(sc: &mut Scan, e: &SmfTrackEvent, is_bass: bool, detected: bool)
    requires
        old(sc).tick + e.delta <= u32::MAX,
    ensures
        final(sc).sv() == scan_event(old(sc).sv(), *e, is_bass, detected),
        final(sc).tick == old(sc).tick + e.delta,
{
    sc.tick = sc.tick + e.delta;
    match &e.kind {
        SmfEventKind::SysEx(d) => scan_sysex_exec(sc, d),
        SmfEventKind::Midi { channel, message } => {
            let ch = *channel;
            let is_drum = ch == 9;
            let is_bs = if detected {
                is_bass
            } else {
                ch == 1 || ch == 10 || sc.port == 15 || sc.port == 1
            };
            if let MidiMessage::NoteOn { key, vel } = message {
                if is_bs && !is_drum && *vel > 0 {
                    let t = sc.tick;
                    sc.bass.push((t, *key));
                }
            }
            let priority: u8 = match message {
                MidiMessage::ProgramChange { .. } => 1,
                MidiMessage::NoteOn { .. } => 2,
                MidiMessage::NoteOff { .. } => 2,
                _ => 0,
            };
            let port = sc.port;
            sc.push_event(
                priority,
                MidiEngineEvent::MidiPlay { port, channel: ch, is_drum_channel: is_drum, message: *message },
            );
        },
        SmfEventKind::Meta(MetaEvent::MidiPort(p)) => {
            sc.port = *p;
        },
        SmfEventKind::Meta(MetaEvent::Lyric(b)) => scan_text_exec(sc, b),
        SmfEventKind::Meta(MetaEvent::Text(b)) => scan_text_exec(sc, b),
        SmfEventKind::Meta(MetaEvent::Tempo(t)) => {
            sc.push_event(0, MidiEngineEvent::TempoChange { tempo: *t });
        },
        _ => {},
    }
}

fn scan_text_exec(sc: &mut Scan, b: &Vec<u8>)
    ensures
        final(sc).sv() == scan_text(old(sc).sv(), b@),
{
    let text = utf8_lossy(b.as_slice());
    if text.as_str().unicode_len() > 0 && text.as_str().get_char(0) != '@' {
        let t = sc.tick;
        let ghost before = sc.lyrics@;
        sc.lyrics.push((t, text.clone()));
        assert(sc.lyrics@.map_values(|l: (u32, String)| (l.0, l.1@)) =~= before.map_values(
            |l: (u32, String)| (l.0, l.1@),
        ).push((t, text@)));
        sc.push_event(0, MidiEngineEvent::SmfKaraokeText { text });
    }
}

/// The chord named by the first chord word of a text.
fn first_chord_exec(s: &Vec<char>) -> (r: Option<(u8, bool)>)
    ensures
        r == first_chord_from(s@, 0, Seq::empty()),
{
    let n = s.len();
    let mut cur: Vec<char> = Vec::new();
    let mut i: usize = 0;
    while i < n
        invariant
            0 <= i <= n,
            n == s@.len(),
            first_chord_from(s@, 0, Seq::empty()) == first_chord_from(s@, i as int, cur@),
        decreases n - i,
    {
        if is_whitespace(s[i]) {
            if cur.len() > 0 {
                let c = chord_of_chars(&cur);
                if c.is_some() {
                    return c;
                }
            }
            cur = Vec::new();
        } else {
            cur.push(s[i]);
        }
        i = i + 1;
    }
    if cur.len() > 0 {
        chord_of_chars(&cur)
    } else {
        None
    }
}

/// Characters of a text, without brackets and parentheses.
fn strip_brackets_exec(s: &Vec<char>) -> (r: Vec<char>)
    ensures
        r@ == strip_brackets(s@),
{
    let n = s.len();
    let mut r: Vec<char> = Vec::new();
    let mut i: usize = 0;
    while i < n
        invariant
            0 <= i <= n,
            n == s@.len(),
            r@ == strip_brackets(s@.take(i as int)),
        decreases n - i,
    {
        let c = s[i];
        proof {
            let t = s@.take(i as int + 1);
            assert(t.drop_last() =~= s@.take(i as int));
            assert(t.last() == c);
            reveal_with_fuel(vstd::seq::Seq::filter, 1);
        }
        if c != '[' && c != ']' && c != '(' && c != ')' {
            r.push(c);
        }
        i = i + 1;
    }
    assert(s@.take(n as int) =~= s@);
    r
}


/// Tick of the last event of a timeline (0 for an empty one).
pub open spec fn last_tick(events: Seq<SequenceEventView>) -> u32 {
    if events.len() == 0 {
        0
    } else {
        events.last().absolute_tick
    }
}

/// Index of the first event at or after `i` that is later than `due`
/// (playback emits events in timeline order while they are due).
pub open spec fn next_due_index(events: Seq<SequenceEventView>, i: int, due: int) -> int
    decreases events.len() - i,
{
    if 0 <= i < events.len() && events[i].absolute_tick <= due {
        next_due_index(events, i + 1, due)
    } else {
        i
    }
}

/// Tempo after playing the events `i..j`: that of the last tempo change
/// among them, else `tempo`.
pub open spec fn tempo_through(events: Seq<SequenceEventView>, i: int, j: int, tempo: u32) -> u32
    decreases j - i,
{
    if i >= j || i < 0 || j > events.len() {
        tempo
    } else {
        let t = match events[j - 1].inner {
            EventView::TempoChange { tempo: t } => Some(t),
            _ => None,
        };
        match t {
            Some(t) => t,
            None => tempo_through(events, i, j - 1, tempo),
        }
    }
}

/// Events sorted by tick (what the timeline of a song is).
pub open spec fn tick_sorted(events: Seq<SequenceEventView>) -> bool {
    forall|i: int, j: int| 0 <= i <= j < events.len() ==> events[i].absolute_tick <= events[j].absolute_tick
}

proof fn lemma_key_sorted_is_tick_sorted(events: Seq<SequenceEventView>)
    requires
        sorted_by_key(events),
    ensures
        tick_sorted(events),
{
    assert forall|i: int, j: int| 0 <= i <= j < events.len() implies events[i].absolute_tick
        <= events[j].absolute_tick by {
        assert(events[i].sort_key() <= events[j].sort_key());
    }
}

fn bass_chord_exec(n: (u32, u8)) -> (c: BsChordEvent)
    ensures
        c == bass_chord(n),
{
    let root = n.1 % 12;
    BsChordEvent {
        tick: n.0,
        root_pitch: root,
        is_minor: root == 2 || root == 9 || root == 11,
        is_7th: false,
        is_maj7: false,
    }
}

fn has_bs_track_exec(tracks: &Vec<Vec<SmfTrackEvent>>) -> (r: bool)
    ensures
        r == has_bs_track(tracks@),
{
    let n = tracks.len();
    let mut t: usize = 0;
    while t < n
        invariant
            0 <= t <= n,
            n == tracks@.len(),
            forall|k: int| 0 <= k < t ==> !is_bs_track(#[trigger] tracks@[k]@),
        decreases n - t,
    {
        if track_is_bs(&tracks[t]) {
            return true;
        }
        t = t + 1;
    }
    false
}

proof fn lemma_delta_sum_nonneg(track: Seq<SmfTrackEvent>, j: int)
    ensures
        delta_sum(track, j) >= 0,
    decreases track.len() - j,
{
    if 0 <= j < track.len() {
        lemma_delta_sum_nonneg(track, j + 1);
    }
}

fn scan_track(sc: &mut Scan, track: &Vec<SmfTrackEvent>, is_bass: bool, detected: bool)
    requires
        old(sc).tick + delta_sum(track@, 0) <= u32::MAX,
    ensures
        final(sc).sv() == scan_track_from(old(sc).sv(), track@, is_bass, detected, 0),
{
    let ghost start = sc.sv();
    let ghost end_tick = sc.tick + delta_sum(track@, 0);
    let n = track.len();
    let mut j: usize = 0;
    while j < n
        invariant
            0 <= j <= n,
            n == track@.len(),
            sc.tick + delta_sum(track@, j as int) == end_tick,
            end_tick <= u32::MAX,
            scan_track_from(sc.sv(), track@, is_bass, detected, j as int) == scan_track_from(
                start,
                track@,
                is_bass,
                detected,
                0,
            ),
        decreases n - j,
    {
        proof {
            lemma_delta_sum_nonneg(track@, j as int + 1);
        }
        scan_event_exec(sc, &track[j], is_bass, detected);
        j = j + 1;
    }
}

fn lyric_chords_exec(lyrics: &Vec<(u32, String)>) -> (r: Vec<BsChordEvent>)
    ensures
        r@ == lyric_chords_from(lyrics@.map_values(|l: (u32, String)| (l.0, l.1@)), 0),
{
    let ghost ls = lyrics@.map_values(|l: (u32, String)| (l.0, l.1@));
    let n = lyrics.len();
    let mut out: Vec<BsChordEvent> = Vec::new();
    let mut k: usize = 0;
    while k < n
        invariant
            0 <= k <= n,
            n == lyrics@.len(),
            ls == lyrics@.map_values(|l: (u32, String)| (l.0, l.1@)),
            out@ + lyric_chords_from(ls, k as int) == lyric_chords_from(ls, 0),
        decreases n - k,
    {
        let tick = lyrics[k].0;
        let chars = chars_of(lyrics[k].1.as_str());
        let stripped = strip_brackets_exec(&chars);
        let found = first_chord_exec(&stripped);
        let ghost rest = lyric_chords_from(ls, k + 1);
        assert(ls[k as int] == (tick, lyrics@[k as int].1@));
        match found {
            Some((root, minor)) => {
                let c = BsChordEvent { tick, root_pitch: root, is_minor: minor, is_7th: false, is_maj7: false };
                assert(lyric_chords_from(ls, k as int) == seq![c] + rest);
                let ghost before = out@;
                out.push(c);
                assert(out@ + rest =~= before + (seq![c] + rest));
            },
            None => {},
        }
        k = k + 1;
    }
    assert(out@ + lyric_chords_from(ls, n as int) =~= out@);
    out
}

impl MimiSequencer {
    /// Well-formed: events in timeline order and the position inside them.
    pub open spec fn wf(&self) -> bool {
        &&& sorted_by_key(events_view(self.event@))
        &&& self.current_event_index <= self.event@.len()
        &&& sorted_by_key(self.chord_timeline@)
    }

    /// A sequencer with no song.
    pub fn empty() -> (r: Self)
        ensures
            r.event@.len() == 0,
            r.ppq == 480,
            r.current_event_index == 0,
            r.tempo == DEFAULT_TEMPO,
            r.total_ticks == 0,
            r.format == MidiFormat::GM,
            r.chord_timeline@.len() == 0,
            r.melody_channels@.len() == 0,
            !r.is_bs_track_detected,
            r.wf(),
    {
        let r = MimiSequencer {
            event: Vec::new(),
            ppq: 480,
            current_event_index: 0,
            tempo: DEFAULT_TEMPO,
            total_ticks: 0,
            format: MidiFormat::GM,
            chord_timeline: Vec::new(),
            melody_channels: Vec::new(),
            is_bs_track_detected: false,
        };
        assert(events_view(r.event@) =~= Seq::<SequenceEventView>::empty());
        r
    }

    /// The sequencer of a parsed Standard MIDI File, at its start: the merged
    /// timeline, the detected MIDI standard and the chord timeline.
    pub fn from_smf(smf: &SmfData) -> (r: Self)
        requires
            smf_fits(*smf),
        ensures
            loaded_from(r, *smf),
    {
        let ppq: u16 = match smf.ppq {
            Some(p) => p,
            None => 480,
        };
        let detected = has_bs_track_exec(&smf.tracks);
        let mut sc = Scan {
            events: Vec::new(),
            format: MidiFormat::GM,
            tick: 0,
            port: 0,
            bass: Vec::new(),
            lyrics: Vec::new(),
        };
        let ghost init = sc.sv();
        proof {
            assert(events_view(sc.events@) =~= Seq::<SequenceEventView>::empty());
            assert(sc.lyrics@.map_values(|l: (u32, String)| (l.0, l.1@)) =~= Seq::<
                (u32, Seq<char>),
            >::empty());
            assert(init == (ScanState {
                events: Seq::empty(),
                format: MidiFormat::GM,
                tick: 0,
                port: 0,
                bass: Seq::empty(),
                lyrics: Seq::empty(),
            }));
        }
        let mut chords: Vec<BsChordEvent> = Vec::new();
        let nt = smf.tracks.len();
        let mut t: usize = 0;
        while t < nt
            invariant
                0 <= t <= nt,
                nt == smf.tracks@.len(),
                smf_fits(*smf),
                detected == has_bs_track(smf.tracks@),
                scan_tracks_from(sc.sv(), chords@, smf.tracks@, detected, t as int) == scan_tracks_from(
                    init,
                    Seq::empty(),
                    smf.tracks@,
                    detected,
                    0,
                ),
            decreases nt - t,
        {
            let ghost st_t = sc.sv();
            let ghost ch_t = chords@;
            sc.tick = 0;
            sc.port = 0;
            sc.bass = Vec::new();
            assert(sc.sv() == ScanState { tick: 0, port: 0, bass: Seq::empty(), ..st_t });
            let track = &smf.tracks[t];
            let is_bass = track_is_bs(track);
            assert(delta_sum(smf.tracks@[t as int]@, 0) <= u32::MAX);
            scan_track(&mut sc, track, is_bass, detected);
            let nb = sc.bass.len();
            let mut b: usize = 0;
            while b < nb
                invariant
                    0 <= b <= nb,
                    nb == sc.bass@.len(),
                    chords@ == ch_t + sc.bass@.take(b as int).map_values(|n: (u32, u8)| bass_chord(n)),
                decreases nb - b,
            {
                let c = bass_chord_exec(sc.bass[b]);
                chords.push(c);
                b = b + 1;
                assert(sc.bass@.take(b as int).map_values(|n: (u32, u8)| bass_chord(n)) =~= sc.bass@.take(
                    b - 1,
                ).map_values(|n: (u32, u8)| bass_chord(n)).push(c));
            }
            assert(sc.bass@.take(nb as int) =~= sc.bass@);
            t = t + 1;
        }
        let ghost scanned = scan_song(*smf);
        assert(scanned == (sc.sv(), chords@));
        let found = if chords.len() == 0 && sc.lyrics.len() > 0 {
            lyric_chords_exec(&sc.lyrics)
        } else {
            chords
        };
        let chord_timeline = sort_stable_by_key(found);
        let events = sort_stable_by_key(sc.events);
        proof {
            lemma_stable_sort_map(sc.events@, |e: SequenceEvent| e@);
            lemma_stable_sort(events_view(sc.events@));
        }
        let total_ticks: u32 = if events.len() == 0 {
            0
        } else {
            events[events.len() - 1].absolute_tick
        };
        let mut melody_channels: Vec<(u8, u8)> = Vec::new();
        melody_channels.push((0, 0));
        melody_channels.push((0, 3));
        assert(melody_channels@ =~= seq![(0u8, 0u8), (0u8, 3u8)]);
        MimiSequencer {
            event: events,
            ppq,
            current_event_index: 0,
            tempo: DEFAULT_TEMPO,
            total_ticks,
            format: sc.format,
            chord_timeline,
            melody_channels,
            is_bs_track_detected: detected,
        }
    }
}


proof fn lemma_next_due_index_bounds(events: Seq<SequenceEventView>, i: int, due: int)
    requires
        0 <= i <= events.len(),
    ensures
        i <= next_due_index(events, i, due) <= events.len(),
        forall|k: int| i <= k < next_due_index(events, i, due) ==> events[k].absolute_tick <= due,
        next_due_index(events, i, due) < events.len() ==> events[next_due_index(events, i, due)].absolute_tick
            > due,
    decreases events.len() - i,
{
    if i < events.len() && events[i].absolute_tick <= due {
        lemma_next_due_index_bounds(events, i + 1, due);
    }
}

impl MimiSequencer {
    /// Plays on up to tick `due` (the caller's position, rounded down):
    /// returns the events from the current one on while they are due, in
    /// order, and takes over the tempo of each tempo change among them.
    pub fn marching(&mut self, due: u64) -> (triggered: Vec<SequenceEvent>)
        requires
            old(self).current_event_index <= old(self).event@.len(),
        ensures
            final(self).current_event_index == next_due_index(
                events_view(old(self).event@),
                old(self).current_event_index as int,
                due as int,
            ),
            events_view(triggered@) == events_view(old(self).event@).subrange(
                old(self).current_event_index as int,
                final(self).current_event_index as int,
            ),
            final(self).tempo == tempo_through(
                events_view(old(self).event@),
                old(self).current_event_index as int,
                final(self).current_event_index as int,
                old(self).tempo,
            ),
            final(self).event == old(self).event,
            final(self).ppq == old(self).ppq,
            final(self).total_ticks == old(self).total_ticks,
            final(self).format == old(self).format,
            final(self).chord_timeline == old(self).chord_timeline,
            final(self).melody_channels == old(self).melody_channels,
            final(self).is_bs_track_detected == old(self).is_bs_track_detected,
    {
        let ghost ev = events_view(self.event@);
        let ghost start = self.current_event_index as int;
        let ghost tempo0 = self.tempo;
        let mut triggered: Vec<SequenceEvent> = Vec::new();
        let n = self.event.len();
        let mut go = true;
        while go && self.current_event_index < n
            invariant
                n == self.event@.len(),
                ev == events_view(self.event@),
                ev.len() == n,
                0 <= start <= self.current_event_index <= n,
                go ==> next_due_index(ev, start, due as int) == next_due_index(
                    ev,
                    self.current_event_index as int,
                    due as int,
                ),
                !go ==> next_due_index(ev, start, due as int) == self.current_event_index,
                events_view(triggered@) == ev.subrange(start, self.current_event_index as int),
                self.tempo == tempo_through(ev, start, self.current_event_index as int, tempo0),
                self.event == old(self).event,
                self.ppq == old(self).ppq,
                self.total_ticks == old(self).total_ticks,
                self.format == old(self).format,
                self.chord_timeline == old(self).chord_timeline,
                self.melody_channels == old(self).melody_channels,
                self.is_bs_track_detected == old(self).is_bs_track_detected,
            decreases n - self.current_event_index, if go { 1int } else { 0int },
        {
            let i = self.current_event_index;
            assert(ev[i as int] == self.event@[i as int]@);
            if (self.event[i].absolute_tick as u64) <= due {
                if let MidiEngineEvent::TempoChange { tempo } = &self.event[i].inner {
                    self.tempo = *tempo;
                }
                let e = SequenceEvent {
                    absolute_tick: self.event[i].absolute_tick,
                    priority: self.event[i].priority,
                    inner: clone_event(&self.event[i].inner),
                };
                let ghost before = triggered@;
                triggered.push(e);
                assert(events_view(triggered@) =~= events_view(before).push(ev[i as int]));
                assert(ev.subrange(start, i + 1) =~= ev.subrange(start, i as int).push(ev[i as int]));
                self.current_event_index = i + 1;
            } else {
                go = false;
            }
        }
        triggered
    }

    /// Back to the start of the song at the initial tempo.
    pub fn reset(&mut self)
        ensures
            final(self).current_event_index == 0,
            final(self).tempo == DEFAULT_TEMPO,
            final(self).event == old(self).event,
            final(self).ppq == old(self).ppq,
            final(self).total_ticks == old(self).total_ticks,
            final(self).format == old(self).format,
            final(self).chord_timeline == old(self).chord_timeline,
            final(self).melody_channels == old(self).melody_channels,
            final(self).is_bs_track_detected == old(self).is_bs_track_detected,
    {
        self.current_event_index = 0;
        self.tempo = DEFAULT_TEMPO;
    }

    /// All events have been played.
    pub fn is_finished(&self) -> (r: bool)
        ensures
            r == (self.current_event_index >= self.event@.len()),
    {
        self.current_event_index >= self.event.len()
    }

    /// Index of the first event at or after `tick`.
    pub fn find_next_event_index(&self, tick: u32) -> (r: usize)
        requires
            self.wf(),
        ensures
            r <= self.event@.len(),
            forall|i: int| 0 <= i < r ==> self.event@[i].absolute_tick < tick,
            forall|i: int| r <= i < self.event@.len() ==> self.event@[i].absolute_tick >= tick,
    {
        proof {
            lemma_key_sorted_is_tick_sorted(events_view(self.event@));
        }
        let ghost ev = events_view(self.event@);
        let mut lo: usize = 0;
        let mut hi: usize = self.event.len();
        while lo < hi
            invariant
                0 <= lo <= hi <= self.event@.len(),
                ev == events_view(self.event@),
                tick_sorted(ev),
                forall|i: int| 0 <= i < lo ==> self.event@[i].absolute_tick < tick,
                forall|i: int| hi <= i < self.event@.len() ==> self.event@[i].absolute_tick >= tick,
            decreases hi - lo,
        {
            let mid = lo + (hi - lo) / 2;
            if self.event[mid].absolute_tick < tick {
                proof {
                    assert forall|i: int| 0 <= i < mid + 1 implies self.event@[i].absolute_tick
                        < tick by {
                        assert(ev[i].absolute_tick <= ev[mid as int].absolute_tick);
                    }
                }
                lo = mid + 1;
            } else {
                proof {
                    assert forall|i: int| mid <= i < self.event@.len() implies self.event@[i].absolute_tick
                        >= tick by {
                        assert(ev[mid as int].absolute_tick <= ev[i].absolute_tick);
                    }
                }
                hi = mid;
            }
        }
        lo
    }

    /// Jumps to `tick`: the next event is the first at or after it, and the
    /// tempo is that of the last tempo change before it (else the initial one).
    pub fn seek_to(&mut self, tick: u32)
        requires
            old(self).wf(),
        ensures
            final(self).wf(),
            final(self).current_event_index <= old(self).event@.len(),
            forall|i: int| 0 <= i < final(self).current_event_index ==> old(self).event@[i].absolute_tick < tick,
            forall|i: int| final(self).current_event_index <= i < old(self).event@.len() ==> old(self).event@[i].absolute_tick
                >= tick,
            final(self).tempo == tempo_through(
                events_view(old(self).event@),
                0,
                final(self).current_event_index as int,
                DEFAULT_TEMPO,
            ),
            final(self).event == old(self).event,
            final(self).ppq == old(self).ppq,
            final(self).total_ticks == old(self).total_ticks,
            final(self).format == old(self).format,
            final(self).chord_timeline == old(self).chord_timeline,
            final(self).melody_channels == old(self).melody_channels,
            final(self).is_bs_track_detected == old(self).is_bs_track_detected,
    {
        let idx = self.find_next_event_index(tick);
        let ghost ev = events_view(self.event@);
        let mut last_tempo: u32 = DEFAULT_TEMPO;
        let mut i: usize = 0;
        while i < idx
            invariant
                0 <= i <= idx <= self.event@.len(),
                ev == events_view(self.event@),
                last_tempo == tempo_through(ev, 0, i as int, DEFAULT_TEMPO),
                ev.len() == self.event@.len(),
            decreases idx - i,
        {
            assert(ev[i as int] == self.event@[i as int]@);
            if let MidiEngineEvent::TempoChange { tempo } = &self.event[i].inner {
                last_tempo = *tempo;
            }
            i = i + 1;
        }
        self.current_event_index = idx;
        self.tempo = last_tempo;
    }
}

/// Playing up to one tick and then up to a later one plays the same events,
/// and ends at the same position and tempo, as playing up to the later tick
/// at once.
pub proof fn lemma_marching_composes(events: Seq<SequenceEventView>, i: int, d1: int, d2: int, tempo: u32)
    requires
        0 <= i <= events.len(),
        d1 <= d2,
    ensures
        next_due_index(events, next_due_index(events, i, d1), d2) == next_due_index(events, i, d2),
        tempo_through(
            events,
            next_due_index(events, i, d1),
            next_due_index(events, i, d2),
            tempo_through(events, i, next_due_index(events, i, d1), tempo),
        ) == tempo_through(events, i, next_due_index(events, i, d2), tempo),
        events.subrange(i, next_due_index(events, i, d1)) + events.subrange(
            next_due_index(events, i, d1),
            next_due_index(events, i, d2),
        ) == events.subrange(i, next_due_index(events, i, d2)),
    decreases events.len() - i,
{
    lemma_next_due_index_bounds(events, i, d1);
    lemma_next_due_index_bounds(events, i, d2);
    let j1 = next_due_index(events, i, d1);
    lemma_next_due_index_bounds(events, j1, d2);
    if i < events.len() && events[i].absolute_tick <= d1 {
        lemma_marching_composes(events, i + 1, d1, d2, tempo);
        lemma_next_due_index_bounds(events, i + 1, d2);
    }
    let j2 = next_due_index(events, i, d2);
    lemma_tempo_through_split(events, i, j1, j2, tempo);
    assert(events.subrange(i, j1) + events.subrange(j1, j2) =~= events.subrange(i, j2));
}

/// The tempo after `i..k` is the tempo after `j..k` started from the tempo after `i..j`.
pub proof fn lemma_tempo_through_split(events: Seq<SequenceEventView>, i: int, j: int, k: int, tempo: u32)
    requires
        0 <= i <= j <= k <= events.len(),
    ensures
        tempo_through(events, j, k, tempo_through(events, i, j, tempo)) == tempo_through(events, i, k, tempo),
    decreases k - j,
{
    if j < k {
        lemma_tempo_through_split(events, i, j, k - 1, tempo);
    }
}


proof fn lemma_delta_sum_mono(track: Seq<SmfTrackEvent>, i: int, j: int)
    requires
        0 <= i <= j,
    ensures
        delta_sum(track, i) >= delta_sum(track, j),
    decreases j - i,
{
    lemma_delta_sum_nonneg(track, j);
    if i < j {
        lemma_delta_sum_mono(track, i + 1, j);
        lemma_delta_sum_nonneg(track, i + 1);
    }
}

/// Whether every track's length in ticks fits in 32 bits (what `from_smf` needs).
pub fn fits(smf: &SmfData) -> (r: bool)
    ensures
        r == smf_fits(*smf),
{
    let nt = smf.tracks.len();
    let mut t: usize = 0;
    while t < nt
        invariant
            0 <= t <= nt,
            nt == smf.tracks@.len(),
            forall|k: int| 0 <= k < t ==> delta_sum(#[trigger] smf.tracks@[k]@, 0) <= u32::MAX,
        decreases nt - t,
    {
        let track = &smf.tracks[t];
        assert(smf.tracks@[t as int]@ == track@);
        let n = track.len();
        let mut acc: u64 = 0;
        let mut j: usize = n;
        while j > 0
            invariant
                0 <= j <= n,
                n == track@.len(),
                t < nt,
                nt == smf.tracks@.len(),
                track@ == smf.tracks@[t as int]@,
                acc == delta_sum(track@, j as int),
                acc <= u32::MAX,
            decreases j,
        {
            assert(delta_sum(track@, j - 1) == track@[j - 1].delta + delta_sum(track@, j as int));
            acc = acc + track[j - 1].delta as u64;
            j = j - 1;
            if acc > 0xFFFF_FFFF {
                proof {
                    lemma_delta_sum_mono(track@, 0, j as int);
                    assert(smf.tracks@[t as int]@ == track@);
                    assert(delta_sum(smf.tracks@[t as int]@, 0) > u32::MAX);
                }
                return false;
            }
        }
        t = t + 1;
    }
    true
}

} // verus!
