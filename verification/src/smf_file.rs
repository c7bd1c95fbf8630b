//! Standard MIDI Files read with `midly`: the parsed file becomes the
//! sequencer's `SmfData`, and a song's bytes become a sequencer.
use vstd::prelude::*;
use crate::sequencer::{
    MidiMessage, MetaEvent, SmfEventKind, SmfTrackEvent, SmfData, MimiSequencer, ScanState, scan_event,
    scan_track_from, scan_tracks_from, scan_song, song_events, song_chords, has_bs_track, is_bs_track,
    marks_bass, delta_sum, smf_fits, fits, loaded_from,
};
use crate::rhythm_engine::BsChordEvent;
use vstd::string::StringExecFns;

verus! {

/// A parsed Standard MIDI File of `midly`.
#[verifier::external_type_specification]
#[verifier::external_body]
pub struct ExSmf<'a>(midly::Smf<'a>);

/// The kind of a track event, byte strings taken as sequences.
pub enum SmfKindView {
    Midi { channel: u8, message: MidiMessage },
    SysEx(Seq<u8>),
    Escape(Seq<u8>),
    TrackName(Seq<u8>),
    MidiPort(u8),
    Lyric(Seq<u8>),
    Text(Seq<u8>),
    Tempo(u32),
    OtherMeta,
}

/// A track event as a value: its delta time and its kind.
pub struct SmfEventView {
    pub delta: u32,
    pub kind: SmfKindView,
}

/// The ticks per quarter note (metrical timing only) and the tracks of a file.
pub type SmfFileView = (Option<u16>, Seq<Seq<SmfEventView>>);

/// What `midly::Smf::parse` reads from a file's bytes: `None` where it
/// refuses them, else the file's resolution and tracks.
pub uninterp spec fn midly_parse(raw: Seq<u8>) -> Option<(Option<u16>, Seq<Seq<SmfEventView>>)>;

/// The tracks of a parsed file, event by event.
pub uninterp spec fn smf_tracks(smf: midly::Smf) -> Seq<Seq<SmfEventView>>;

/// The ticks per quarter note of a parsed file; `None` for SMPTE timing.
pub uninterp spec fn smf_ppq(smf: midly::Smf) -> Option<u16>;

pub open spec fn kind_view(k: SmfEventKind) -> SmfKindView {
    match k {
        SmfEventKind::Midi { channel, message } => SmfKindView::Midi { channel, message },
        SmfEventKind::SysEx(d) => SmfKindView::SysEx(d@),
        SmfEventKind::Escape(d) => SmfKindView::Escape(d@),
        SmfEventKind::Meta(MetaEvent::TrackName(b)) => SmfKindView::TrackName(b@),
        SmfEventKind::Meta(MetaEvent::MidiPort(p)) => SmfKindView::MidiPort(p),
        SmfEventKind::Meta(MetaEvent::Lyric(b)) => SmfKindView::Lyric(b@),
        SmfEventKind::Meta(MetaEvent::Text(b)) => SmfKindView::Text(b@),
        SmfEventKind::Meta(MetaEvent::Tempo(t)) => SmfKindView::Tempo(t),
        SmfEventKind::Meta(MetaEvent::Other) => SmfKindView::OtherMeta,
    }
}

pub open spec fn event_view(e: SmfTrackEvent) -> SmfEventView {
    SmfEventView { delta: e.delta, kind: kind_view(e.kind) }
}

pub open spec fn track_view(t: Seq<SmfTrackEvent>) -> Seq<SmfEventView> {
    t.map_values(|e: SmfTrackEvent| event_view(e))
}

pub open spec fn tracks_view(ts: Seq<Vec<SmfTrackEvent>>) -> Seq<Seq<SmfEventView>> {
    ts.map_values(|t: Vec<SmfTrackEvent>| track_view(t@))
}

/// A file of the sequencer as a value.
pub open spec fn smf_file_view(smf: SmfData) -> SmfFileView {
    (smf.ppq, tracks_view(smf.tracks@))
}

/// A file of the sequencer with the view `v` (all such files read alike,
/// see `lemma_same_view_same_song`).
pub open spec fn smf_of(v: SmfFileView) -> SmfData {
    choose|smf: SmfData| smf_file_view(smf) == v
}

/// Channel messages with a key: note off, note on, polyphonic aftertouch.
pub open spec fn is_key_message(m: MidiMessage) -> bool {
    ||| m is NoteOff
    ||| m is NoteOn
    ||| m is Aftertouch
}

/// Reason a song's bytes were not loaded.
#[derive(Debug, Clone)]
pub enum SequencerError {
    /// The bytes are no Standard MIDI File; `detail` is `SMF 파싱 실패: `
    /// ("SMF parsing failed") followed by the reader's message.
    InvalidSmf { detail: String },
}

// ---------------------------------------------------------------------------
// Calls into midly

/// Calls `midly::Smf::parse`, its error turned into the error's `Debug`
/// text. Claims: the result is `Ok` exactly where the named parse of the
/// bytes is some file, and then its resolution and tracks are that file's;
/// nothing is claimed of the error text.
#[verifier::external_body]
fn parse_smf(raw: &[u8]) -> (r: Result<midly::Smf<'_>, String>)
    ensures
        match r {
            Ok(smf) => midly_parse(raw@) == Some((smf_ppq(smf), smf_tracks(smf))),
            Err(_) => midly_parse(raw@) is None,
        },
{
    match midly::Smf::parse(raw) {
        Ok(smf) => Ok(smf),
        Err(e) => Err(format!("{:?}", e)),
    }
}

/// Reads `header.timing` of a parsed file. Claims: metrical timing gives its
/// ticks per quarter note, any other timing `None`, as `smf_ppq` names.
#[verifier::external_body]
fn read_ppq(smf: &midly::Smf) -> (r: Option<u16>)
    ensures
        r == smf_ppq(*smf),
{
    match smf.header.timing {
        midly::Timing::Metrical(t) => Some(t.as_int()),
        _ => None,
    }
}

/// Reads `tracks.len()` of a parsed file. Claims: the number of its tracks.
#[verifier::external_body]
fn read_track_count(smf: &midly::Smf) -> (r: usize)
    ensures
        r == smf_tracks(*smf).len(),
{
    smf.tracks.len()
}

/// Reads the length of track `t` of a parsed file. Claims: its number of events.
#[verifier::external_body]
fn read_track_len(smf: &midly::Smf, t: usize) -> (r: usize)
    requires
        t < smf_tracks(*smf).len(),
    ensures
        r == smf_tracks(*smf)[t as int].len(),
{
    smf.tracks[t].len()
}

/// Reads the delta time (`u28::as_int`) of event `i` of track `t`.
#[verifier::external_body]
fn read_delta(smf: &midly::Smf, t: usize, i: usize) -> (r: u32)
    requires
        t < smf_tracks(*smf).len(),
        i < smf_tracks(*smf)[t as int].len(),
    ensures
        r == smf_tracks(*smf)[t as int][i as int].delta,
{
    smf.tracks[t][i].delta.as_int()
}

/// Reads event `i` of track `t` where it is a note-off, note-on or
/// polyphonic aftertouch message. Claims: `Some` exactly for those, with the
/// event's channel and message.
#[verifier::external_body]
fn read_key_message(smf: &midly::Smf, t: usize, i: usize) -> (r: Option<SmfEventKind>)
    requires
        t < smf_tracks(*smf).len(),
        i < smf_tracks(*smf)[t as int].len(),
    ensures
        r is Some <==> (smf_tracks(*smf)[t as int][i as int].kind matches SmfKindView::Midi { message, .. }
            && is_key_message(message)),
        r matches Some(k) ==> kind_view(k) == smf_tracks(*smf)[t as int][i as int].kind,
{
    match smf.tracks[t][i].kind {
        midly::TrackEventKind::Midi { channel, message } => match message {
            midly::MidiMessage::NoteOff { key, vel } => Some(SmfEventKind::Midi {
                channel: channel.as_int(), message: MidiMessage::NoteOff { key: key.as_int(), vel: vel.as_int() } }),
            midly::MidiMessage::NoteOn { key, vel } => Some(SmfEventKind::Midi {
                channel: channel.as_int(), message: MidiMessage::NoteOn { key: key.as_int(), vel: vel.as_int() } }),
            midly::MidiMessage::Aftertouch { key, vel } => Some(SmfEventKind::Midi {
                channel: channel.as_int(), message: MidiMessage::Aftertouch { key: key.as_int(), vel: vel.as_int() } }),
            _ => None,
        },
        _ => None,
    }
}

/// Reads event `i` of track `t` where it is a controller, program change,
/// channel aftertouch or pitch bend message (the bend by `PitchBend::as_int`,
/// centred on 0). Claims: `Some` exactly for those, with the event's channel
/// and message.
#[verifier::external_body]
fn read_channel_message(smf: &midly::Smf, t: usize, i: usize) -> (r: Option<SmfEventKind>)
    requires
        t < smf_tracks(*smf).len(),
        i < smf_tracks(*smf)[t as int].len(),
    ensures
        r is Some <==> (smf_tracks(*smf)[t as int][i as int].kind matches SmfKindView::Midi { message, .. }
            && !is_key_message(message)),
        r matches Some(k) ==> kind_view(k) == smf_tracks(*smf)[t as int][i as int].kind,
{
    let m = match smf.tracks[t][i].kind {
        midly::TrackEventKind::Midi { channel, message } => (channel.as_int(), message),
        _ => return None,
    };
    let message = match m.1 {
        midly::MidiMessage::Controller { controller, value } =>
            MidiMessage::Controller { controller: controller.as_int(), value: value.as_int() },
        midly::MidiMessage::ProgramChange { program } => MidiMessage::ProgramChange { program: program.as_int() },
        midly::MidiMessage::ChannelAftertouch { vel } => MidiMessage::ChannelAftertouch { vel: vel.as_int() },
        midly::MidiMessage::PitchBend { bend } => MidiMessage::PitchBend { bend: bend.as_int() },
        _ => return None,
    };
    Some(SmfEventKind::Midi { channel: m.0, message })
}

/// Reads event `i` of track `t` where it is a SysEx or escape message.
/// Claims: `Some` exactly for those, with the event's data bytes.
#[verifier::external_body]
fn read_data_message(smf: &midly::Smf, t: usize, i: usize) -> (r: Option<SmfEventKind>)
    requires
        t < smf_tracks(*smf).len(),
        i < smf_tracks(*smf)[t as int].len(),
    ensures
        r is Some <==> (smf_tracks(*smf)[t as int][i as int].kind is SysEx
            || smf_tracks(*smf)[t as int][i as int].kind is Escape),
        r matches Some(k) ==> kind_view(k) == smf_tracks(*smf)[t as int][i as int].kind,
{
    match smf.tracks[t][i].kind {
        midly::TrackEventKind::SysEx(d) => Some(SmfEventKind::SysEx(d.to_vec())),
        midly::TrackEventKind::Escape(d) => Some(SmfEventKind::Escape(d.to_vec())),
        _ => None,
    }
}

/// Reads event `i` of track `t` where it is a meta message: track name, MIDI
/// port, lyric, text and tempo with their data, every other meta message as
/// `Other`. Claims: `Some` exactly for meta messages, with the event's data.
#[verifier::external_body]
fn read_meta_message(smf: &midly::Smf, t: usize, i: usize) -> (r: Option<SmfEventKind>)
    requires
        t < smf_tracks(*smf).len(),
        i < smf_tracks(*smf)[t as int].len(),
    ensures
        r is Some <==> !(smf_tracks(*smf)[t as int][i as int].kind is Midi
            || smf_tracks(*smf)[t as int][i as int].kind is SysEx
            || smf_tracks(*smf)[t as int][i as int].kind is Escape),
        r matches Some(k) ==> kind_view(k) == smf_tracks(*smf)[t as int][i as int].kind,
{
    match smf.tracks[t][i].kind {
        midly::TrackEventKind::Meta(m) => Some(SmfEventKind::Meta(match m {
            midly::MetaMessage::TrackName(b) => MetaEvent::TrackName(b.to_vec()),
            midly::MetaMessage::MidiPort(p) => MetaEvent::MidiPort(p.as_int()),
            midly::MetaMessage::Lyric(b) => MetaEvent::Lyric(b.to_vec()),
            midly::MetaMessage::Text(b) => MetaEvent::Text(b.to_vec()),
            midly::MetaMessage::Tempo(v) => MetaEvent::Tempo(v.as_int()),
            _ => MetaEvent::Other,
        })),
        _ => None,
    }
}

// ---------------------------------------------------------------------------
// Files with equal views read alike

proof fn lemma_event_congr(st: ScanState, e1: SmfTrackEvent, e2: SmfTrackEvent, is_bass: bool, detected: bool)
    requires
        event_view(e1) == event_view(e2),
    ensures
        scan_event(st, e1, is_bass, detected) == scan_event(st, e2, is_bass, detected),
        marks_bass(e1) == marks_bass(e2),
{
    match e1.kind {
        SmfEventKind::Midi { .. } => { assert(e2.kind is Midi); },
        SmfEventKind::SysEx(d1) => { assert(e2.kind is SysEx); },
        SmfEventKind::Escape(d1) => { assert(e2.kind is Escape); },
        SmfEventKind::Meta(m1) => {
            assert(e2.kind is Meta);
            match m1 {
                MetaEvent::TrackName(_) => { assert(e2.kind->Meta_0 is TrackName); },
                MetaEvent::MidiPort(_) => { assert(e2.kind->Meta_0 is MidiPort); },
                MetaEvent::Lyric(_) => { assert(e2.kind->Meta_0 is Lyric); },
                MetaEvent::Text(_) => { assert(e2.kind->Meta_0 is Text); },
                MetaEvent::Tempo(_) => { assert(e2.kind->Meta_0 is Tempo); },
                MetaEvent::Other => { assert(e2.kind->Meta_0 is Other); },
            }
        },
    }
}

proof fn lemma_track_congr(st: ScanState, t1: Seq<SmfTrackEvent>, t2: Seq<SmfTrackEvent>, is_bass: bool, detected: bool, j: int)
    requires
        track_view(t1) == track_view(t2),
    ensures
        scan_track_from(st, t1, is_bass, detected, j) == scan_track_from(st, t2, is_bass, detected, j),
        delta_sum(t1, j) == delta_sum(t2, j),
    decreases t1.len() - j,
{
    assert(t1.len() == track_view(t1).len() && t2.len() == track_view(t2).len());
    if 0 <= j < t1.len() {
        assert(track_view(t1)[j] == event_view(t1[j]) && track_view(t2)[j] == event_view(t2[j]));
        lemma_event_congr(st, t1[j], t2[j], is_bass, detected);
        lemma_track_congr(scan_event(st, t1[j], is_bass, detected), t1, t2, is_bass, detected, j + 1);
    }
}

proof fn lemma_bs_track_congr(t1: Seq<SmfTrackEvent>, t2: Seq<SmfTrackEvent>)
    requires
        track_view(t1) == track_view(t2),
    ensures
        is_bs_track(t1) == is_bs_track(t2),
{
    assert(t1.len() == track_view(t1).len() && t2.len() == track_view(t2).len());
    assert forall|j: int| 0 <= j < t1.len() implies marks_bass(#[trigger] t1[j]) == marks_bass(t2[j]) by {
        assert(track_view(t1)[j] == event_view(t1[j]) && track_view(t2)[j] == event_view(t2[j]));
        lemma_event_congr(ScanState { events: Seq::empty(), format: crate::sequencer::MidiFormat::GM, tick: 0, port: 0,
            bass: Seq::empty(), lyrics: Seq::empty() }, t1[j], t2[j], false, false);
    }
    if is_bs_track(t1) {
        let j = choose|j: int| 0 <= j < t1.len() && marks_bass(#[trigger] t1[j]);
        assert(marks_bass(t2[j]));
    }
    if is_bs_track(t2) {
        let j = choose|j: int| 0 <= j < t2.len() && marks_bass(#[trigger] t2[j]);
        assert(marks_bass(t1[j]));
    }
}

proof fn lemma_tracks_congr(
    st: ScanState,
    chords: Seq<BsChordEvent>,
    ts1: Seq<Vec<SmfTrackEvent>>,
    ts2: Seq<Vec<SmfTrackEvent>>,
    detected: bool,
    t: int,
)
    requires
        tracks_view(ts1) == tracks_view(ts2),
    ensures
        scan_tracks_from(st, chords, ts1, detected, t) == scan_tracks_from(st, chords, ts2, detected, t),
    decreases ts1.len() - t,
{
    assert(ts1.len() == tracks_view(ts1).len());
    if 0 <= t < ts1.len() {
        assert(tracks_view(ts1)[t] == tracks_view(ts2)[t]);
        let st0 = ScanState { tick: 0, port: 0, bass: Seq::empty(), ..st };
        lemma_bs_track_congr(ts1[t]@, ts2[t]@);
        lemma_track_congr(st0, ts1[t]@, ts2[t]@, is_bs_track(ts1[t]@), detected, 0);
        let st1 = scan_track_from(st0, ts1[t]@, is_bs_track(ts1[t]@), detected, 0);
        lemma_tracks_congr(st1, chords + st1.bass.map_values(|n: (u32, u8)| crate::sequencer::bass_chord(n)), ts1, ts2, detected, t + 1);
    }
}

/// Two files with the same view are the same song: the same timeline, chord
/// timeline, MIDI standard, resolution, bass track and track lengths.
pub proof fn lemma_same_view_same_song(s1: SmfData, s2: SmfData)
    requires
        smf_file_view(s1) == smf_file_view(s2),
    ensures
        scan_song(s1) == scan_song(s2),
        song_events(s1) == song_events(s2),
        song_chords(s1) == song_chords(s2),
        has_bs_track(s1.tracks@) == has_bs_track(s2.tracks@),
        smf_fits(s1) == smf_fits(s2),
        s1.ppq == s2.ppq,
{
    let ts1 = s1.tracks@;
    let ts2 = s2.tracks@;
    assert(ts1.len() == tracks_view(ts1).len());
    assert forall|t: int| 0 <= t < ts1.len() implies #[trigger] is_bs_track(ts1[t]@) == is_bs_track(ts2[t]@)
        && delta_sum(ts1[t]@, 0) == delta_sum(ts2[t]@, 0) by {
        assert(tracks_view(ts1)[t] == tracks_view(ts2)[t]);
        lemma_bs_track_congr(ts1[t]@, ts2[t]@);
        lemma_track_congr(ScanState { events: Seq::empty(), format: crate::sequencer::MidiFormat::GM, tick: 0, port: 0,
            bass: Seq::empty(), lyrics: Seq::empty() }, ts1[t]@, ts2[t]@, false, false, 0);
    }
    if has_bs_track(ts1) {
        let t = choose|t: int| 0 <= t < ts1.len() && is_bs_track(#[trigger] ts1[t]@);
        assert(is_bs_track(ts2[t]@));
    }
    if has_bs_track(ts2) {
        let t = choose|t: int| 0 <= t < ts2.len() && is_bs_track(#[trigger] ts2[t]@);
        assert(is_bs_track(ts1[t]@));
    }
    assert(smf_fits(s1) == smf_fits(s2)) by {
        if smf_fits(s1) {
            assert forall|t: int| 0 <= t < ts2.len() implies delta_sum(#[trigger] ts2[t]@, 0) <= u32::MAX by {
                assert(is_bs_track(ts1[t]@) == is_bs_track(ts2[t]@));
                assert(delta_sum(ts1[t]@, 0) <= u32::MAX);
            }
        }
        if smf_fits(s2) {
            assert forall|t: int| 0 <= t < ts1.len() implies delta_sum(#[trigger] ts1[t]@, 0) <= u32::MAX by {
                assert(is_bs_track(ts1[t]@) == is_bs_track(ts2[t]@));
                assert(delta_sum(ts2[t]@, 0) <= u32::MAX);
            }
        }
    }
    let st = ScanState { events: Seq::empty(), format: crate::sequencer::MidiFormat::GM, tick: 0, port: 0,
        bass: Seq::empty(), lyrics: Seq::empty() };
    lemma_tracks_congr(st, Seq::empty(), ts1, ts2, has_bs_track(ts1), 0);
}

// ---------------------------------------------------------------------------
// From a parsed file to the sequencer's file

fn read_event(smf: &midly::Smf, t: usize, i: usize) -> (e: SmfTrackEvent)
    requires
        t < smf_tracks(*smf).len(),
        i < smf_tracks(*smf)[t as int].len(),
    ensures
        event_view(e) == smf_tracks(*smf)[t as int][i as int],
{
    let delta = read_delta(smf, t, i);
    let kind = if let Some(k) = read_key_message(smf, t, i) {
        k
    } else if let Some(k) = read_channel_message(smf, t, i) {
        k
    } else if let Some(k) = read_data_message(smf, t, i) {
        k
    } else if let Some(k) = read_meta_message(smf, t, i) {
        k
    } else {
        proof {
            let kv = smf_tracks(*smf)[t as int][i as int].kind;
            if let SmfKindView::Midi { message, .. } = kv {
                assert(is_key_message(message) || !is_key_message(message));
            }
        }
        SmfEventKind::Meta(MetaEvent::Other)
    };
    SmfTrackEvent { delta, kind }
}

/// The sequencer's file of a parsed file: its resolution and every event of
/// every track, in order.
fn read_smf(smf: &midly::Smf) -> (r: SmfData)
    ensures
        smf_file_view(r) == (smf_ppq(*smf), smf_tracks(*smf)),
{
    let ppq = read_ppq(smf);
    let nt = read_track_count(smf);
    let mut tracks: Vec<Vec<SmfTrackEvent>> = Vec::new();
    let mut t: usize = 0;
    while t < nt
        invariant
            t <= nt,
            nt == smf_tracks(*smf).len(),
            tracks@.len() == t,
            forall|k: int| 0 <= k < t ==> track_view(#[trigger] tracks@[k]@) == smf_tracks(*smf)[k],
        decreases nt - t,
    {
        let n = read_track_len(smf, t);
        let mut track: Vec<SmfTrackEvent> = Vec::new();
        let mut i: usize = 0;
        while i < n
            invariant
                i <= n,
                t < nt,
                nt == smf_tracks(*smf).len(),
                n == smf_tracks(*smf)[t as int].len(),
                track@.len() == i,
                forall|k: int| 0 <= k < i ==> event_view(#[trigger] track@[k]) == smf_tracks(*smf)[t as int][k],
            decreases n - i,
        {
            let e = read_event(smf, t, i);
            track.push(e);
            i = i + 1;
        }
        assert(track_view(track@) =~= smf_tracks(*smf)[t as int]);
        tracks.push(track);
        t = t + 1;
    }
    let r = SmfData { ppq, tracks };
    assert(tracks_view(r.tracks@) =~= smf_tracks(*smf));
    r
}

/// The song the bytes hold can be loaded: `midly` reads them and every track
/// is at most `u32::MAX` ticks long.
pub open spec fn loadable(bytes: Seq<u8>) -> bool {
    midly_parse(bytes) matches Some(v) && smf_fits(smf_of(v))
}

/// The song the bytes hold, where `midly` reads them.
pub open spec fn song_of(bytes: Seq<u8>) -> SmfData {
    smf_of(midly_parse(bytes).unwrap())
}

/// The text of an unreadable file's error: `SMF 파싱 실패: ` and the reader's message.
pub open spec fn invalid_smf_text(detail: Seq<char>) -> bool {
    detail.len() >= "SMF 파싱 실패: "@.len() && detail.subrange(0, "SMF 파싱 실패: "@.len() as int)
        == "SMF 파싱 실패: "@
}

impl MimiSequencer {
    /// The sequencer of a Standard MIDI File's bytes, at the song's start;
    /// an error where `midly` cannot read the bytes.
    pub fn from_byte(bytes: &[u8]) -> (r: Result<Self, SequencerError>)
        requires
            midly_parse(bytes@) matches Some(v) ==> smf_fits(smf_of(v)),
        ensures
            r is Ok <==> midly_parse(bytes@) is Some,
            r matches Ok(s) ==> loaded_from(s, smf_of(midly_parse(bytes@).unwrap())),
            r matches Err(SequencerError::InvalidSmf { detail }) ==> invalid_smf_text(detail@),
    {
        match parse_smf(bytes) {
            Ok(parsed) => {
                let smf = read_smf(&parsed);
                let ghost v = midly_parse(bytes@).unwrap();
                proof {
                    assert(smf_file_view(smf_of(v)) == v);
                    lemma_same_view_same_song(smf, smf_of(v));
                }
                Ok(MimiSequencer::from_smf(&smf))
            },
            Err(message) => {
                proof {
                    reveal_strlit("SMF 파싱 실패: ");
                }
                let detail = String::from_str("SMF 파싱 실패: ").concat(message.as_str());
                assert(detail@.subrange(0, "SMF 파싱 실패: "@.len() as int) =~= "SMF 파싱 실패: "@);
                Err(SequencerError::InvalidSmf { detail })
            },
        }
    }

    /// `from_byte` where the song's tracks fit in 32-bit ticks; `None` where
    /// `midly` reads the bytes but a track is longer.
    pub fn try_from_byte(bytes: &[u8]) -> (r: Option<Result<Self, SequencerError>>)
        ensures
            r is None <==> (midly_parse(bytes@) is Some && !loadable(bytes@)),
            r matches Some(Ok(s)) ==> loadable(bytes@) && loaded_from(s, smf_of(midly_parse(bytes@).unwrap())),
            r matches Some(Err(_)) ==> midly_parse(bytes@) is None,
    {
        let fits_or_unread = match parse_smf(bytes) {
            Ok(parsed) => {
                let smf = read_smf(&parsed);
                let ghost v = midly_parse(bytes@).unwrap();
                proof {
                    assert(smf_file_view(smf_of(v)) == v);
                    lemma_same_view_same_song(smf, smf_of(v));
                }
                fits(&smf)
            },
            Err(_) => true,
        };
        if fits_or_unread {
            Some(MimiSequencer::from_byte(bytes))
        } else {
            None
        }
    }
}

} // verus!
