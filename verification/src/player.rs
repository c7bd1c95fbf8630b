//! The decisions of the terminal player: what a key asks of the engine, how
//! the screen state follows, and the names shown for chords and keys.
use vstd::prelude::*;
use crate::engine::{PlayerState, KEY_MIN, KEY_MAX, VOLUME_MIN, VOLUME_MAX};
use crate::rhythm_engine::Rhythm;
use crate::text::{chars_of, string_from_chars};

verus! {

/// What the player shows.
#[derive(Debug, Clone, Copy, PartialEq, Eq, Structural)]
pub enum UiMode {
    Browsing,
    Loading,
    Playing,
}

/// The keys the player reacts to.
#[derive(Debug, Clone, Copy, PartialEq, Eq, Structural)]
pub enum PlayerKey {
    Up,
    Down,
    Enter,
    /// Space: play or pause.
    PlayPause,
    /// `s`.
    Stop,
    /// `r`: the next rhythm.
    NextRhythm,
    /// `,`.
    KeyDown,
    /// `.`.
    KeyUp,
    /// `[`.
    TempoDown,
    /// `]`.
    TempoUp,
    /// `-`.
    VolumeDown,
    /// `=`.
    VolumeUp,
    /// Left arrow (with Shift: a longer step).
    Left(bool),
    /// Right arrow (with Shift: a longer step).
    Right(bool),
    Esc,
    Other,
}

/// What the player knows when a key comes.
#[derive(Debug, Clone, Copy, PartialEq, Eq, Structural)]
pub struct PlayerView {
    pub mode: UiMode,
    pub selected_index: usize,
    pub file_count: usize,
    pub browsing_toggle: bool,
    /// Whether the engine is running.
    pub has_engine: bool,
    pub state: PlayerState,
    pub rhythm: Rhythm,
    pub key: i8,
    pub volume: u8,
    pub current_tick: u64,
    pub total_tick: u64,
}

/// What a key asks of the engine (or of the file system, for a song).
#[derive(Debug, Clone, Copy, PartialEq, Eq, Structural)]
pub enum PlayerRequest {
    /// Load the song at this index of the file list and play it.
    LoadAndPlay(usize),
    Play,
    Pause,
    Stop,
    SetRhythm(Rhythm),
    SetKey(i8),
    /// Lower (false) or raise (true) the tempo by one step.
    TempoStep(bool),
    SetVolume(u8),
    Seek(u32),
}

/// The rhythm after `r` in the player's cycle.
pub open spec fn next_rhythm_of(r: Rhythm) -> Rhythm {
    match r {
        Rhythm::Original => Rhythm::Disco,
        Rhythm::Disco => Rhythm::GoGo,
        Rhythm::GoGo => Rhythm::Techno,
        Rhythm::Techno => Rhythm::Dance,
        Rhythm::Dance => Rhythm::Hiphop,
        Rhythm::Hiphop => Rhythm::Jitterbug,
        Rhythm::Jitterbug => Rhythm::Edm,
        Rhythm::Edm => Rhythm::Original,
        Rhythm::Edm2 => Rhythm::Original,
    }
}

pub fn next_rhythm(r: Rhythm) -> (n: Rhythm)
    ensures
        n == next_rhythm_of(r),
{
    match r {
        Rhythm::Original => Rhythm::Disco,
        Rhythm::Disco => Rhythm::GoGo,
        Rhythm::GoGo => Rhythm::Techno,
        Rhythm::Techno => Rhythm::Dance,
        Rhythm::Dance => Rhythm::Hiphop,
        Rhythm::Hiphop => Rhythm::Jitterbug,
        Rhythm::Jitterbug => Rhythm::Edm,
        Rhythm::Edm => Rhythm::Original,
        Rhythm::Edm2 => Rhythm::Original,
    }
}

/// The seek step of an arrow key: 500 ticks with Shift, else 100.
pub open spec fn seek_step(shift: bool) -> u64 {
    if shift {
        500
    } else {
        100
    }
}

/// The request a key makes, if any. Keys are ignored while loading; with no
/// engine only the list keys and Esc act.
pub open spec fn key_request(v: PlayerView, k: PlayerKey) -> Option<PlayerRequest> {
    if v.mode == UiMode::Loading || !v.has_engine {
        None
    } else {
        match k {
            PlayerKey::Enter => if v.mode != UiMode::Playing && v.selected_index < v.file_count {
                Some(PlayerRequest::LoadAndPlay(v.selected_index))
            } else {
                None
            },
            PlayerKey::PlayPause => if v.state == PlayerState::Playing {
                Some(PlayerRequest::Pause)
            } else {
                Some(PlayerRequest::Play)
            },
            PlayerKey::Stop => if v.state != PlayerState::Stopped {
                Some(PlayerRequest::Stop)
            } else {
                None
            },
            PlayerKey::NextRhythm => Some(PlayerRequest::SetRhythm(next_rhythm_of(v.rhythm))),
            PlayerKey::KeyDown => Some(
                PlayerRequest::SetKey(if v.key - 1 < KEY_MIN { KEY_MIN } else { (v.key - 1) as i8 }),
            ),
            PlayerKey::KeyUp => Some(
                PlayerRequest::SetKey(if v.key + 1 > KEY_MAX { KEY_MAX } else { (v.key + 1) as i8 }),
            ),
            PlayerKey::TempoDown => Some(PlayerRequest::TempoStep(false)),
            PlayerKey::TempoUp => Some(PlayerRequest::TempoStep(true)),
            PlayerKey::VolumeDown => Some(
                PlayerRequest::SetVolume(if v.volume < 5 { VOLUME_MIN } else { (v.volume - 5) as u8 }),
            ),
            PlayerKey::VolumeUp => Some(
                PlayerRequest::SetVolume(if v.volume + 5 > VOLUME_MAX { VOLUME_MAX } else { (v.volume + 5) as u8 }),
            ),
            PlayerKey::Left(shift) => if v.current_tick > 0 {
                Some(
                    PlayerRequest::Seek(
                        (if v.current_tick < seek_step(shift) { 0 } else { v.current_tick - seek_step(shift) }) as u32,
                    ),
                )
            } else {
                None
            },
            PlayerKey::Right(shift) => if v.current_tick < v.total_tick {
                Some(
                    PlayerRequest::Seek(
                        (if v.current_tick + seek_step(shift) > v.total_tick {
                            v.total_tick as int
                        } else {
                            v.current_tick + seek_step(shift)
                        }) as u32,
                    ),
                )
            } else {
                None
            },
            _ => None,
        }
    }
}

/// The view after key `k`, its request (if any) having been delivered
/// (`delivered`; for a song: its file read) or not, and whether the screen
/// is to be drawn again.
pub open spec fn key_outcome(v: PlayerView, k: PlayerKey, delivered: bool) -> (PlayerView, bool) {
    if v.mode == UiMode::Loading {
        (v, false)
    } else {
        match k {
            PlayerKey::Up => if v.selected_index > 0 {
                (PlayerView { selected_index: (v.selected_index - 1) as usize, ..v }, true)
            } else {
                (v, false)
            },
            PlayerKey::Down => if v.file_count > 0 && v.selected_index < v.file_count - 1 {
                (PlayerView { selected_index: (v.selected_index + 1) as usize, ..v }, true)
            } else {
                (v, false)
            },
            PlayerKey::Esc => (
                PlayerView {
                    mode: if !v.browsing_toggle { UiMode::Browsing } else { UiMode::Playing },
                    browsing_toggle: !v.browsing_toggle,
                    ..v
                },
                true,
            ),
            PlayerKey::KeyDown | PlayerKey::KeyUp | PlayerKey::TempoDown | PlayerKey::TempoUp
            | PlayerKey::VolumeDown | PlayerKey::VolumeUp => (v, true),
            PlayerKey::Left(_) | PlayerKey::Right(_) => match key_request(v, k) {
                Some(PlayerRequest::Seek(t)) => if delivered {
                    (PlayerView { current_tick: t as u64, ..v }, true)
                } else {
                    (v, true)
                },
                _ => (v, true),
            },
            _ => match key_request(v, k) {
                Some(r) => if delivered {
                    match r {
                        PlayerRequest::LoadAndPlay(_) => (
                            PlayerView {
                                mode: UiMode::Playing,
                                state: PlayerState::Playing,
                                browsing_toggle: false,
                                ..v
                            },
                            true,
                        ),
                        PlayerRequest::Play => (PlayerView { state: PlayerState::Playing, ..v }, true),
                        PlayerRequest::Pause => (PlayerView { state: PlayerState::Paused, ..v }, true),
                        PlayerRequest::Stop => (PlayerView { state: PlayerState::Stopped, ..v }, true),
                        PlayerRequest::SetRhythm(n) => (PlayerView { rhythm: n, ..v }, true),
                        _ => (v, false),
                    }
                } else {
                    (v, false)
                },
                None => (v, false),
            },
        }
    }
}

/// The character that lights up for a key (none for other keys and while
/// loading).
pub open spec fn key_mark(v: PlayerView, k: PlayerKey) -> Option<char> {
    if v.mode == UiMode::Loading {
        None
    } else {
        match k {
            PlayerKey::Up => Some('U'),
            PlayerKey::Down => Some('D'),
            PlayerKey::Enter => if v.mode == UiMode::Playing { None } else { Some('E') },
            PlayerKey::PlayPause => Some(' '),
            PlayerKey::Stop => Some('s'),
            PlayerKey::NextRhythm => Some('r'),
            PlayerKey::KeyDown => Some(','),
            PlayerKey::KeyUp => Some('.'),
            PlayerKey::TempoDown => Some('['),
            PlayerKey::TempoUp => Some(']'),
            PlayerKey::VolumeDown => Some('-'),
            PlayerKey::VolumeUp => Some('='),
            PlayerKey::Left(_) => Some('L'),
            PlayerKey::Right(_) => Some('R'),
            PlayerKey::Esc => Some('C'),
            PlayerKey::Other => None,
        }
    }
}

/// What a key asks of the engine (see `key_request`).
pub fn player_key_request(v: PlayerView, k: PlayerKey) -> (r: Option<PlayerRequest>)
    ensures
        r == key_request(v, k),
{
    if v.mode == UiMode::Loading || !v.has_engine {
        return None;
    }
    match k {
        PlayerKey::Enter => if v.mode != UiMode::Playing && v.selected_index < v.file_count {
            Some(PlayerRequest::LoadAndPlay(v.selected_index))
        } else {
            None
        },
        PlayerKey::PlayPause => if v.state == PlayerState::Playing {
            Some(PlayerRequest::Pause)
        } else {
            Some(PlayerRequest::Play)
        },
        PlayerKey::Stop => if v.state != PlayerState::Stopped {
            Some(PlayerRequest::Stop)
        } else {
            None
        },
        PlayerKey::NextRhythm => Some(PlayerRequest::SetRhythm(next_rhythm(v.rhythm))),
        PlayerKey::KeyDown => Some(
            PlayerRequest::SetKey(if (v.key as i16) - 1 < KEY_MIN as i16 { KEY_MIN } else { v.key - 1 }),
        ),
        PlayerKey::KeyUp => Some(
            PlayerRequest::SetKey(if (v.key as i16) + 1 > KEY_MAX as i16 { KEY_MAX } else { v.key + 1 }),
        ),
        PlayerKey::TempoDown => Some(PlayerRequest::TempoStep(false)),
        PlayerKey::TempoUp => Some(PlayerRequest::TempoStep(true)),
        PlayerKey::VolumeDown => Some(
            PlayerRequest::SetVolume(if v.volume < 5 { VOLUME_MIN } else { v.volume - 5 }),
        ),
        PlayerKey::VolumeUp => Some(
            PlayerRequest::SetVolume(
                if v.volume as u16 + 5 > VOLUME_MAX as u16 { VOLUME_MAX } else { v.volume + 5 },
            ),
        ),
        PlayerKey::Left(shift) => if v.current_tick > 0 {
            let step: u64 = if shift {
                500
            } else {
                100
            };
            let target = if v.current_tick < step {
                0
            } else {
                v.current_tick - step
            };
            Some(PlayerRequest::Seek(target as u32))
        } else {
            None
        },
        PlayerKey::Right(shift) => if v.current_tick < v.total_tick {
            let step: u64 = if shift {
                500
            } else {
                100
            };
            let target = if v.current_tick as u128 + step as u128 > v.total_tick as u128 {
                v.total_tick
            } else {
                v.current_tick + step
            };
            Some(PlayerRequest::Seek(target as u32))
        } else {
            None
        },
        _ => None,
    }
}

/// How the view follows a key (see `key_outcome`).
pub fn player_key_outcome(v: PlayerView, k: PlayerKey, delivered: bool) -> (r: (PlayerView, bool))
    ensures
        r == key_outcome(v, k, delivered),
{
    if v.mode == UiMode::Loading {
        return (v, false);
    }
    match k {
        PlayerKey::Up => if v.selected_index > 0 {
            (PlayerView { selected_index: v.selected_index - 1, ..v }, true)
        } else {
            (v, false)
        },
        PlayerKey::Down => if v.file_count > 0 && v.selected_index < v.file_count - 1 {
            (PlayerView { selected_index: v.selected_index + 1, ..v }, true)
        } else {
            (v, false)
        },
        PlayerKey::Esc => (
            PlayerView {
                mode: if !v.browsing_toggle { UiMode::Browsing } else { UiMode::Playing },
                browsing_toggle: !v.browsing_toggle,
                ..v
            },
            true,
        ),
        PlayerKey::KeyDown | PlayerKey::KeyUp | PlayerKey::TempoDown | PlayerKey::TempoUp
        | PlayerKey::VolumeDown | PlayerKey::VolumeUp => (v, true),
        PlayerKey::Left(_) | PlayerKey::Right(_) => match player_key_request(v, k) {
            Some(PlayerRequest::Seek(t)) => if delivered {
                (PlayerView { current_tick: t as u64, ..v }, true)
            } else {
                (v, true)
            },
            _ => (v, true),
        },
        _ => match player_key_request(v, k) {
            Some(r) => if delivered {
                match r {
                    PlayerRequest::LoadAndPlay(_) => (
                        PlayerView { mode: UiMode::Playing, state: PlayerState::Playing, browsing_toggle: false, ..v },
                        true,
                    ),
                    PlayerRequest::Play => (PlayerView { state: PlayerState::Playing, ..v }, true),
                    PlayerRequest::Pause => (PlayerView { state: PlayerState::Paused, ..v }, true),
                    PlayerRequest::Stop => (PlayerView { state: PlayerState::Stopped, ..v }, true),
                    PlayerRequest::SetRhythm(n) => (PlayerView { rhythm: n, ..v }, true),
                    _ => (v, false),
                }
            } else {
                (v, false)
            },
            None => (v, false),
        },
    }
}

/// The character that lights up for a key (see `key_mark`).
pub fn player_key_mark(v: PlayerView, k: PlayerKey) -> (r: Option<char>)
    ensures
        r == key_mark(v, k),
{
    if v.mode == UiMode::Loading {
        return None;
    }
    match k {
        PlayerKey::Up => Some('U'),
        PlayerKey::Down => Some('D'),
        PlayerKey::Enter => if v.mode == UiMode::Playing {
            None
        } else {
            Some('E')
        },
        PlayerKey::PlayPause => Some(' '),
        PlayerKey::Stop => Some('s'),
        PlayerKey::NextRhythm => Some('r'),
        PlayerKey::KeyDown => Some(','),
        PlayerKey::KeyUp => Some('.'),
        PlayerKey::TempoDown => Some('['),
        PlayerKey::TempoUp => Some(']'),
        PlayerKey::VolumeDown => Some('-'),
        PlayerKey::VolumeUp => Some('='),
        PlayerKey::Left(_) => Some('L'),
        PlayerKey::Right(_) => Some('R'),
        PlayerKey::Esc => Some('C'),
        PlayerKey::Other => None,
    }
}

/// The names of the twelve pitch classes from C.
pub open spec fn pitch_name(p: int) -> Seq<char> {
    if p == 0 {
        "C"@
    } else if p == 1 {
        "C#"@
    } else if p == 2 {
        "D"@
    } else if p == 3 {
        "D#"@
    } else if p == 4 {
        "E"@
    } else if p == 5 {
        "F"@
    } else if p == 6 {
        "F#"@
    } else if p == 7 {
        "G"@
    } else if p == 8 {
        "G#"@
    } else if p == 9 {
        "A"@
    } else if p == 10 {
        "A#"@
    } else if p == 11 {
        "B"@
    } else {
        "?"@
    }
}

fn pitch_name_str(p: u8) -> (r: &'static str)
    ensures
        r@ == pitch_name(p as int),
{
    match p {
        0 => "C",
        1 => "C#",
        2 => "D",
        3 => "D#",
        4 => "E",
        5 => "F",
        6 => "F#",
        7 => "G",
        8 => "G#",
        9 => "A",
        10 => "A#",
        11 => "B",
        _ => "?",
    }
}

/// The name of a chord: root, `m` for minor, `Maj7` or `7` for sevenths.
pub open spec fn chord_name(root: u8, is_minor: bool, is_7th: bool, is_maj7: bool) -> Seq<char> {
    pitch_name(root as int) + (if is_minor { "m"@ } else { ""@ }) + (if is_7th {
        if is_maj7 {
            "Maj7"@
        } else {
            "7"@
        }
    } else {
        ""@
    })
}

fn concat_strs(parts: &[&str]) -> (r: String)
    ensures
        r@ == parts@.fold_left(Seq::<char>::empty(), |acc: Seq<char>, s: &str| acc + s@),
{
    let mut out: Vec<char> = Vec::new();
    let mut k: usize = 0;
    while k < parts.len()
        invariant
            0 <= k <= parts@.len(),
            out@ == parts@.take(k as int).fold_left(Seq::<char>::empty(), |acc: Seq<char>, s: &str| acc + s@),
        decreases parts@.len() - k,
    {
        let cs = chars_of(parts[k]);
        let mut j: usize = 0;
        let ghost before = out@;
        while j < cs.len()
            invariant
                0 <= j <= cs@.len(),
                out@ == before + cs@.take(j as int),
            decreases cs@.len() - j,
        {
            out.push(cs[j]);
            j = j + 1;
            assert(out@ =~= before + cs@.take(j as int));
        }
        assert(cs@.take(cs@.len() as int) =~= cs@);
        assert(parts@.take(k + 1).drop_last() =~= parts@.take(k as int));
        k = k + 1;
    }
    assert(parts@.take(parts@.len() as int) =~= parts@);
    string_from_chars(out.as_slice())
}

/// The name shown for a chord (see `chord_name`).
pub fn chord_display_name(root: u8, is_minor: bool, is_7th: bool, is_maj7: bool) -> (r: String)
    ensures
        r@ == chord_name(root, is_minor, is_7th, is_maj7),
{
    let m = if is_minor {
        "m"
    } else {
        ""
    };
    let sev = if is_7th {
        if is_maj7 {
            "Maj7"
        } else {
            "7"
        }
    } else {
        ""
    };
    let parts = [pitch_name_str(root), m, sev];
    let r = concat_strs(&parts);
    assert(parts@.take(0) =~= Seq::<&str>::empty());
    reveal_with_fuel(vstd::seq::Seq::fold_left, 4);
    assert(parts@.drop_last().drop_last().drop_last() =~= Seq::<&str>::empty());
    assert(parts@.drop_last().drop_last() =~= seq![parts@[0]]);
    assert(parts@.drop_last() =~= seq![parts@[0], parts@[1]]);
    r
}

/// The major-key roots for 7 flats to 7 sharps.
pub open spec fn major_root(sf: int) -> int {
    let i = sf + 7;
    if i == 0 || i == 12 {
        11
    } else if i == 1 || i == 13 {
        6
    } else if i == 2 || i == 14 {
        1
    } else if i == 3 {
        8
    } else if i == 4 {
        3
    } else if i == 5 {
        10
    } else if i == 6 {
        5
    } else if i == 7 {
        0
    } else if i == 8 {
        7
    } else if i == 9 {
        2
    } else if i == 10 {
        9
    } else {
        4
    }
}

/// The remainder of `k` by 12 with the sign of `k` (as Rust's `%`).
pub open spec fn rem12(k: int) -> int {
    if k >= 0 {
        k % 12
    } else {
        -((-k) % 12)
    }
}

/// The root of the key after transposition: the key signature `sf`
/// (clamped to -7..7) gives the major root, a minor key lies three semitones
/// below, and `key_offset` semitones are added.
pub open spec fn transposed_root(sf: i8, is_minor: bool, key_offset: i8) -> int {
    let s: int = if sf < -7 { -7 } else if sf > 7 { 7 } else { sf as int };
    let m = major_root(s);
    let base = if is_minor { (m - 3 + 12) % 12 } else { m };
    (base + rem12(key_offset as int) + 12) % 12
}

/// Whether the key suits a female (true) or male voice: a song known as
/// female turns male from 4 semitones down; one known as male turns female
/// from 4 semitones up; without that knowledge, roots from F# up count as
/// female.
pub open spec fn female_key(root: int, key_offset: i8, is_female: Option<bool>) -> bool {
    match is_female {
        Some(true) => !(key_offset <= -4),
        Some(false) => key_offset >= 4,
        None => root >= 6,
    }
}

/// The name of the transposed key and whether it suits a female or male
/// voice, as `"<root>[m] (Female|Male)"`.
pub open spec fn key_label(sf: i8, is_minor: bool, key_offset: i8, is_female: Option<bool>) -> Seq<char> {
    let root = transposed_root(sf, is_minor, key_offset);
    pitch_name(root) + (if is_minor { "m"@ } else { ""@ }) + " ("@ + (if female_key(root, key_offset, is_female) {
        "Female"@
    } else {
        "Male"@
    }) + ")"@
}

/// The key label (see `key_label`).
pub fn key_name_with_gender(sf: i8, is_minor: bool, key_offset: i8, is_female: Option<bool>) -> (r: String)
    ensures
        r@ == key_label(sf, is_minor, key_offset, is_female),
{
    let major_roots: [u8; 15] = [11, 6, 1, 8, 3, 10, 5, 0, 7, 2, 9, 4, 11, 6, 1];
    let s: i8 = if sf < -7 {
        -7
    } else if sf > 7 {
        7
    } else {
        sf
    };
    let idx = (s + 7) as usize;
    let major = major_roots[idx];
    assert(major == major_root(s as int));
    let base_root: u8 = if is_minor {
        ((major as i8 - 3 + 12) % 12) as u8
    } else {
        major
    };
    let r: i8 = if key_offset >= 0 {
        key_offset % 12
    } else {
        -((-(key_offset as i16)) % 12) as i8
    };
    let final_root = ((base_root as i8 + r + 12) % 12) as u8;
    let mode = if is_minor {
        "m"
    } else {
        ""
    };
    let gender = match is_female {
        Some(true) => if key_offset <= -4 {
            "Male"
        } else {
            "Female"
        },
        Some(false) => if key_offset >= 4 {
            "Female"
        } else {
            "Male"
        },
        None => if final_root >= 6 {
            "Female"
        } else {
            "Male"
        },
    };
    let parts = [pitch_name_str(final_root), mode, " (", gender, ")"];
    let out = concat_strs(&parts);
    proof {
        reveal_with_fuel(vstd::seq::Seq::fold_left, 6);
        assert(parts@.drop_last().drop_last().drop_last().drop_last().drop_last() =~= Seq::<&str>::empty());
        assert(parts@.drop_last().drop_last().drop_last().drop_last() =~= seq![parts@[0]]);
        assert(parts@.drop_last().drop_last().drop_last() =~= seq![parts@[0], parts@[1]]);
        assert(parts@.drop_last().drop_last() =~= seq![parts@[0], parts@[1], parts@[2]]);
        assert(parts@.drop_last() =~= seq![parts@[0], parts@[1], parts@[2], parts@[3]]);
    }
    out
}

/// The rhythm key walks through the eight rhythms of the cycle and comes
/// back to the original song after eight presses.
pub proof fn lemma_rhythm_cycle()
    ensures
        next_rhythm_of(next_rhythm_of(next_rhythm_of(next_rhythm_of(next_rhythm_of(next_rhythm_of(
            next_rhythm_of(next_rhythm_of(Rhythm::Original)),
        )))))) == Rhythm::Original,
        forall|r: Rhythm| #[trigger] next_rhythm_of(r) != r,
{
}

/// The key and volume keys ask only for values inside the engine's ranges,
/// and a seek never goes past the end of the song.
pub proof fn lemma_requests_in_range(v: PlayerView, k: PlayerKey)
    requires
        KEY_MIN <= v.key <= KEY_MAX,
        v.volume <= VOLUME_MAX,
        v.current_tick <= v.total_tick <= u32::MAX,
    ensures
        key_request(v, k) matches Some(PlayerRequest::SetKey(x)) ==> KEY_MIN <= x <= KEY_MAX,
        key_request(v, k) matches Some(PlayerRequest::SetVolume(x)) ==> VOLUME_MIN <= x <= VOLUME_MAX,
        key_request(v, k) matches Some(PlayerRequest::Seek(t)) ==> t <= v.total_tick,
{
}

/// The list keys keep the selection inside the file list.
pub proof fn lemma_selection_stays_in_list(v: PlayerView, k: PlayerKey, delivered: bool)
    requires
        v.selected_index < v.file_count || v.selected_index == 0,
    ensures
        ({
            let w = key_outcome(v, k, delivered).0;
            w.selected_index < w.file_count || w.selected_index == 0
        }),
        key_outcome(v, k, delivered).0.file_count == v.file_count,
{
}

/// The transposed root is the key's base root plus the offset, modulo 12.
pub proof fn lemma_transposed_root_mod12(sf: i8, is_minor: bool, key_offset: i8)
    ensures
        ({
            let s: int = if sf < -7 { -7 } else if sf > 7 { 7 } else { sf as int };
            let m = major_root(s);
            let base = if is_minor { (m - 3 + 12) % 12 } else { m };
            transposed_root(sf, is_minor, key_offset) == (base + key_offset) % 12
        }),
        0 <= transposed_root(sf, is_minor, key_offset) < 12,
{
    let k = key_offset as int;
    let r = rem12(k);
    assert((r - k) % 12 == 0) by {
        if k >= 0 {
        } else {
            assert(((-k) % 12) + 12 * ((-k) / 12) == -k);
        }
    }
    let s: int = if sf < -7 { -7 } else if sf > 7 { 7 } else { sf as int };
    let m = major_root(s);
    let base = if is_minor { (m - 3 + 12) % 12 } else { m };
    assert((base + r + 12) % 12 == (base + k) % 12) by {
        let q = (r - k) / 12;
        assert(r - k == 12 * q);
        assert(base + r + 12 == (base + k) + 12 * (q + 1));
        vstd::arithmetic::div_mod::lemma_mod_multiples_vanish(q + 1, base + k, 12);
    }
}

} // verus!
