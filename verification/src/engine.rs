//! Decision logic of the playback engine: what each command and each
//! timeline event does to the engine state, and which synthesizer actions
//! it asks for. The caller owns the synthesizers and the audio clock.
use vstd::prelude::*;
use crate::sequencer::{
    MidiFormat, MidiMessage, MidiEngineEvent, EventView, SequenceEvent, SequenceEventView, events_view,
    MimiSequencer, DEFAULT_TEMPO, tempo_through, loaded_from,
};
use crate::smf_file::{loadable, song_of};
use crate::rhythm_engine::{
    Rhythm, RhythmEngine, MidiNote, TrackType, RhythmTrack, AdvancedRhythmPattern, BsChordEvent, pattern_of,
    accompaniment, accompaniment_defined, chord_at,
};
use vstd::array::ArrayAdditionalExecFns;

verus! {

/// Transposition limits in semitones.
pub const KEY_MIN: i8 = -15;
pub const KEY_MAX: i8 = 15;

/// Master volume limits.
pub const VOLUME_MIN: u8 = 0;
pub const VOLUME_MAX: u8 = 100;

/// State of the player.
#[derive(Debug, Clone, Copy, PartialEq, Eq, Structural)]
pub enum PlayerState {
    Stopped,
    Playing,
    Paused,
}

/// What the engine asks of its two synthesizers (port 0 and port 1) and of
/// the audio clock.
#[derive(Debug, Clone, Copy, PartialEq, Eq, Structural)]
pub enum EngineAction {
    NoteOn { port: u8, channel: u8, key: u8, vel: u8 },
    NoteOff { port: u8, channel: u8, key: u8 },
    Cc { port: u8, channel: u8, ctrl: u8, value: u8 },
    ProgramChange { port: u8, channel: u8, program: u8 },
    BankSelect { port: u8, channel: u8, bank: u32 },
    PitchBend { port: u8, channel: u8, value: u16 },
    PitchWheelSens { port: u8, channel: u8, value: u8 },
    SystemReset { port: u8 },
    /// Both synthesizers' gain for a master volume (gain 2.0 at volume 100).
    SetGain { volume: u8 },
    /// Playback position back to a tick (clock and elapsed time follow).
    Position { tick: u32 },
}

/// Per-channel MIDI state of both ports (index `port * 16 + channel`) and
/// the notes that sound.
#[derive(Debug, Clone)]
pub struct MidiState {
    /// Transposition in semitones.
    pub key: i8,
    pub format: MidiFormat,
    /// Sounding notes: (port, channel, key).
    pub active_notes: Vec<(u8, u8, u8)>,
    pub bank_msb: Vec<u8>,
    pub bank_lsb: Vec<u8>,
    pub drum: Vec<bool>,
    pub rpn_msb: Vec<u8>,
    pub rpn_lsb: Vec<u8>,
    pub nrpn: Vec<bool>,
    /// Peak velocity per channel, for level meters.
    pub velocity: Vec<u8>,
}

/// Mathematical form of the MIDI state.
pub struct MidiModel {
    pub key: i8,
    pub format: MidiFormat,
    pub active: Seq<(u8, u8, u8)>,
    pub bank_msb: Seq<u8>,
    pub bank_lsb: Seq<u8>,
    pub drum: Seq<bool>,
    pub rpn_msb: Seq<u8>,
    pub rpn_lsb: Seq<u8>,
    pub nrpn: Seq<bool>,
    pub velocity: Seq<u8>,
}

impl View for MidiState {
    type V = MidiModel;

    open spec fn view(&self) -> MidiModel {
        MidiModel {
            key: self.key,
            format: self.format,
            active: self.active_notes@,
            bank_msb: self.bank_msb@,
            bank_lsb: self.bank_lsb@,
            drum: self.drum@,
            rpn_msb: self.rpn_msb@,
            rpn_lsb: self.rpn_lsb@,
            nrpn: self.nrpn@,
            velocity: self.velocity@,
        }
    }
}

/// Every table has one entry per channel of the two ports.
pub open spec fn tables_ok(m: MidiModel) -> bool {
    &&& m.bank_msb.len() == 32
    &&& m.bank_lsb.len() == 32
    &&& m.drum.len() == 32
    &&& m.rpn_msb.len() == 32
    &&& m.rpn_lsb.len() == 32
    &&& m.nrpn.len() == 32
    &&& m.velocity.len() == 32
}

/// Table index of a channel of a port.
pub open spec fn idx(port: int, channel: int) -> int {
    port * 16 + channel
}

/// Drum table after a reset: channel 10 of both ports (and channel 16 of
/// port 1 when `rhythm_lane`) are drums.
pub open spec fn reset_drums(rhythm_lane: bool) -> Seq<bool> {
    Seq::new(32, |i: int| i == 9 || i == 25 || (rhythm_lane && i == 31))
}

/// A key moved by the transposition (drums are not moved), clamped to 0..=127.
pub open spec fn transpose(raw: u8, key: i8, drum: bool) -> u8 {
    if drum {
        raw
    } else {
        let v = raw + key;
        if v < 0 {
            0
        } else if v > 127 {
            127
        } else {
            v as u8
        }
    }
}

/// The sounding notes without (port, channel, key).
pub open spec fn without_note(active: Seq<(u8, u8, u8)>, n: (u8, u8, u8)) -> Seq<(u8, u8, u8)> {
    active.filter(|t: (u8, u8, u8)| t != n)
}

/// Note-offs for the sounding notes, in order.
pub open spec fn notes_off(active: Seq<(u8, u8, u8)>) -> Seq<EngineAction> {
    active.map_values(|t: (u8, u8, u8)| EngineAction::NoteOff { port: t.0, channel: t.1, key: t.2 })
}

/// Bank of a program change: the drum bank (128) on a drum channel, else bank
/// 0 for GM and GS songs and the bank-select MSB for XG songs.
pub open spec fn resolved_bank(drum: bool, format: MidiFormat, msb: u8) -> u32 {
    if drum {
        128
    } else {
        match format {
            MidiFormat::XG => msb as u32,
            _ => 0,
        }
    }
}

/// A pitch bend as the synthesizer takes it: centred at 8192, clamped to 0..=16383.
pub open spec fn bend_value(bend: i16) -> u16 {
    let v = bend + 8192;
    if v < 0 {
        0
    } else if v > 16383 {
        16383
    } else {
        v as u16
    }
}

fn bend_value_exec(bend: i16) -> (r: u16)
    ensures
        r == bend_value(bend),
{
    let v: i32 = bend as i32 + 8192;
    if v < 0 {
        0
    } else if v > 16383 {
        16383
    } else {
        v as u16
    }
}

/// Pitch bends reach the synthesizer centred on 8192: a bend of `b` in
/// -8192..=8191 is sent as `b + 8192` (so no bend is the centre 8192), bends
/// beyond that range are clamped to 0 and 16383, and a larger bend is never
/// sent as a smaller value. A song's pitch-bend message on port `p`, channel
/// `ch` sends exactly that value and changes nothing else.
pub proof fn lemma_pitch_bend_centred(m: MidiModel, p: u8, ch: u8, b: i16, c: i16)
    ensures
        -8192 <= b <= 8191 ==> bend_value(b) == b + 8192,
        b < -8192 ==> bend_value(b) == 0,
        b > 8191 ==> bend_value(b) == 16383,
        bend_value(b) <= 16383,
        b < c ==> bend_value(b) <= bend_value(c),
        -8192 <= b < c <= 8191 ==> bend_value(b) < bend_value(c),
        -8192 <= b <= 8191 ==> play_message(m, p, ch, MidiMessage::PitchBend { bend: b }) == (
            m,
            seq![EngineAction::PitchBend { port: p, channel: ch, value: (b + 8192) as u16 }],
        ),
{
}

/// A bank-select MSB of 120, 126 or 127 names a drum bank.
pub open spec fn is_drum_bank(v: u8) -> bool {
    v == 120 || v == 126 || v == 127
}

/// What a channel message of the song does on synthesizer port `p` (0 or 1).
pub open spec fn play_message(m: MidiModel, p: u8, ch: u8, msg: MidiMessage) -> (MidiModel, Seq<EngineAction>) {
    let i = idx(p as int, ch as int);
    let drum = m.drum[i];
    match msg {
        MidiMessage::NoteOn { key, vel } => {
            let k = transpose(key, m.key, drum);
            if vel > 0 {
                let velocity = if vel > m.velocity[i] { m.velocity.update(i, vel) } else { m.velocity };
                (
                    MidiModel { velocity, active: m.active.push((p, ch, k)), ..m },
                    seq![EngineAction::NoteOn { port: p, channel: ch, key: k, vel }],
                )
            } else {
                (
                    MidiModel { active: without_note(m.active, (p, ch, k)), ..m },
                    seq![EngineAction::NoteOff { port: p, channel: ch, key: k }],
                )
            }
        },
        MidiMessage::NoteOff { key, vel } => {
            let k = transpose(key, m.key, drum);
            (
                MidiModel { active: without_note(m.active, (p, ch, k)), ..m },
                seq![EngineAction::NoteOff { port: p, channel: ch, key: k }],
            )
        },
        MidiMessage::Controller { controller, value } => control_change(m, p, ch, controller, value),
        MidiMessage::ProgramChange { program } => {
            let bank = resolved_bank(drum, m.format, m.bank_msb[i]);
            if drum {
                (
                    m,
                    seq![
                        EngineAction::BankSelect { port: p, channel: ch, bank: 128 },
                        EngineAction::ProgramChange { port: p, channel: ch, program },
                    ],
                )
            } else {
                (
                    m,
                    seq![
                        EngineAction::BankSelect { port: p, channel: ch, bank },
                        EngineAction::Cc { port: p, channel: ch, ctrl: 32, value: m.bank_lsb[i] },
                        EngineAction::ProgramChange { port: p, channel: ch, program },
                    ],
                )
            }
        },
        MidiMessage::PitchBend { bend } => (
            m,
            seq![EngineAction::PitchBend { port: p, channel: ch, value: bend_value(bend) }],
        ),
        _ => (m, Seq::empty()),
    }
}

/// A controller of the song: bank selects are noted (a drum bank makes the
/// channel a drum channel unless it already is one; channel 10 keeps its
/// role); data entry sets the pitch-bend range under RPN 0/0, goes to the
/// synthesizer under an NRPN and is dropped otherwise; RPN and NRPN numbers
/// are tracked and passed on; all other controllers are passed on.
pub open spec fn control_change(m: MidiModel, p: u8, ch: u8, cc: u8, val: u8) -> (MidiModel, Seq<EngineAction>) {
    let i = idx(p as int, ch as int);
    let pass = seq![EngineAction::Cc { port: p, channel: ch, ctrl: cc, value: val }];
    if cc == 0 {
        let drum = if ch != 9 && !m.drum[i] { m.drum.update(i, is_drum_bank(val)) } else { m.drum };
        (MidiModel { bank_msb: m.bank_msb.update(i, val), drum, ..m }, Seq::empty())
    } else if cc == 32 {
        (MidiModel { bank_lsb: m.bank_lsb.update(i, val), ..m }, Seq::empty())
    } else if cc == 6 {
        if m.nrpn[i] {
            (m, pass)
        } else if m.rpn_msb[i] == 0 && m.rpn_lsb[i] == 0 {
            (m, seq![EngineAction::PitchWheelSens { port: p, channel: ch, value: val }])
        } else {
            (m, Seq::empty())
        }
    } else if cc == 99 {
        (MidiModel { nrpn: m.nrpn.update(i, true), ..m }, pass)
    } else if cc == 101 {
        (MidiModel { rpn_msb: m.rpn_msb.update(i, val), nrpn: m.nrpn.update(i, false), ..m }, pass)
    } else if cc == 100 {
        (MidiModel { rpn_lsb: m.rpn_lsb.update(i, val), nrpn: m.nrpn.update(i, false), ..m }, pass)
    } else {
        (m, pass)
    }
}

fn transpose_exec(raw: u8, key: i8, drum: bool) -> (r: u8)
    ensures
        r == transpose(raw, key, drum),
{
    if drum {
        raw
    } else {
        let v: i16 = raw as i16 + key as i16;
        if v < 0 {
            0
        } else if v > 127 {
            127
        } else {
            v as u8
        }
    }
}

/// Removes every (port, channel, key) entry equal to `n`.
fn remove_note(active: &mut Vec<(u8, u8, u8)>, n: (u8, u8, u8))
    ensures
        final(active)@ == without_note(old(active)@, n),
{
    let ghost orig = active@;
    let mut out: Vec<(u8, u8, u8)> = Vec::new();
    let mut i: usize = 0;
    while i < active.len()
        invariant
            0 <= i <= active@.len(),
            active@ == orig,
            out@ == without_note(orig.take(i as int), n),
        decreases active.len() - i,
    {
        let t = active[i];
        proof {
            let s = orig.take(i + 1);
            assert(s.drop_last() =~= orig.take(i as int));
            assert(s.last() == t);
            reveal_with_fuel(vstd::seq::Seq::filter, 1);
        }
        if !(t.0 == n.0 && t.1 == n.1 && t.2 == n.2) {
            out.push(t);
        }
        i = i + 1;
    }
    assert(orig.take(orig.len() as int) =~= orig);
    *active = out;
}

impl MidiState {
    /// Note-offs for every sounding note; none sounds afterwards.
    pub fn all_notes_off(&mut self) -> (actions: Vec<EngineAction>)
        ensures
            actions@ == notes_off(old(self)@.active),
            final(self)@ == (MidiModel { active: Seq::empty(), ..old(self)@ }),
    {
        let mut actions: Vec<EngineAction> = Vec::new();
        let n = self.active_notes.len();
        let mut i: usize = 0;
        while i < n
            invariant
                0 <= i <= n,
                n == self.active_notes@.len(),
                actions@ == notes_off(self.active_notes@.take(i as int)),
            decreases n - i,
        {
            let (p, ch, k) = self.active_notes[i];
            actions.push(EngineAction::NoteOff { port: p, channel: ch, key: k });
            i = i + 1;
            assert(notes_off(self.active_notes@.take(i as int)) =~= notes_off(self.active_notes@.take(i - 1)).push(
                EngineAction::NoteOff { port: p, channel: ch, key: k },
            ));
        }
        assert(self.active_notes@.take(n as int) =~= self.active_notes@);
        self.active_notes = Vec::new();
        actions
    }

    /// A controller of the song on synthesizer port `p`.
    pub fn control_change(&mut self, p: u8, ch: u8, cc: u8, val: u8) -> (actions: Vec<EngineAction>)
        requires
            tables_ok(old(self)@),
            p < 2,
            ch < 16,
        ensures
            (final(self)@, actions@) == control_change(old(self)@, p, ch, cc, val),
    {
        let i = (p as usize) * 16 + ch as usize;
        let mut actions: Vec<EngineAction> = Vec::new();
        if cc == 0 {
            self.bank_msb.set(i, val);
            if ch != 9 && !self.drum[i] {
                self.drum.set(i, val == 120 || val == 126 || val == 127);
            }
        } else if cc == 32 {
            self.bank_lsb.set(i, val);
        } else if cc == 6 {
            if self.nrpn[i] {
                actions.push(EngineAction::Cc { port: p, channel: ch, ctrl: cc, value: val });
            } else if self.rpn_msb[i] == 0 && self.rpn_lsb[i] == 0 {
                actions.push(EngineAction::PitchWheelSens { port: p, channel: ch, value: val });
            }
        } else if cc == 99 {
            self.nrpn.set(i, true);
            actions.push(EngineAction::Cc { port: p, channel: ch, ctrl: cc, value: val });
        } else if cc == 101 {
            self.rpn_msb.set(i, val);
            self.nrpn.set(i, false);
            actions.push(EngineAction::Cc { port: p, channel: ch, ctrl: cc, value: val });
        } else if cc == 100 {
            self.rpn_lsb.set(i, val);
            self.nrpn.set(i, false);
            actions.push(EngineAction::Cc { port: p, channel: ch, ctrl: cc, value: val });
        } else {
            actions.push(EngineAction::Cc { port: p, channel: ch, ctrl: cc, value: val });
        }
        proof {
            let r = control_change(old(self)@, p, ch, cc, val);
            assert(actions@ =~= r.1);
        }
        actions
    }

    /// A channel message of the song on synthesizer port `p`.
    pub fn play_message(&mut self, p: u8, ch: u8, msg: MidiMessage) -> (actions: Vec<EngineAction>)
        requires
            tables_ok(old(self)@),
            p < 2,
            ch < 16,
        ensures
            (final(self)@, actions@) == play_message(old(self)@, p, ch, msg),
    {
        let i = (p as usize) * 16 + ch as usize;
        let drum = self.drum[i];
        let mut actions: Vec<EngineAction> = Vec::new();
        match msg {
            MidiMessage::NoteOn { key, vel } => {
                let k = transpose_exec(key, self.key, drum);
                if vel > 0 {
                    if vel > self.velocity[i] {
                        self.velocity.set(i, vel);
                    }
                    self.active_notes.push((p, ch, k));
                    actions.push(EngineAction::NoteOn { port: p, channel: ch, key: k, vel });
                } else {
                    remove_note(&mut self.active_notes, (p, ch, k));
                    actions.push(EngineAction::NoteOff { port: p, channel: ch, key: k });
                }
            },
            MidiMessage::NoteOff { key, vel: _ } => {
                let k = transpose_exec(key, self.key, drum);
                remove_note(&mut self.active_notes, (p, ch, k));
                actions.push(EngineAction::NoteOff { port: p, channel: ch, key: k });
            },
            MidiMessage::Controller { controller, value } => {
                actions = self.control_change(p, ch, controller, value);
            },
            MidiMessage::ProgramChange { program } => {
                if drum {
                    actions.push(EngineAction::BankSelect { port: p, channel: ch, bank: 128 });
                    actions.push(EngineAction::ProgramChange { port: p, channel: ch, program });
                } else {
                    let bank: u32 = match self.format {
                        MidiFormat::XG => self.bank_msb[i] as u32,
                        _ => 0,
                    };
                    actions.push(EngineAction::BankSelect { port: p, channel: ch, bank });
                    actions.push(EngineAction::Cc { port: p, channel: ch, ctrl: 32, value: self.bank_lsb[i] });
                    actions.push(EngineAction::ProgramChange { port: p, channel: ch, program });
                }
            },
            MidiMessage::PitchBend { bend } => {
                let v = bend_value_exec(bend);
                actions.push(EngineAction::PitchBend { port: p, channel: ch, value: v });
            },
            _ => {},
        }
        proof {
            let r = play_message(old(self)@, p, ch, msg);
            assert(actions@ =~= r.1);
        }
        actions
    }
}


/// What the events before a position left on a channel.
#[derive(Debug, Clone, Copy, PartialEq, Eq, Structural)]
pub struct ChannelSetup {
    pub program: Option<u8>,
    pub bank_msb: u8,
    pub bank_lsb: u8,
    pub volume: Option<u8>,
    pub pan: Option<u8>,
    pub expression: Option<u8>,
    pub pitch_bend: Option<u16>,
    pub pitch_bend_range: Option<u8>,
}

pub open spec fn empty_setup() -> ChannelSetup {
    ChannelSetup {
        program: None,
        bank_msb: 0,
        bank_lsb: 0,
        volume: None,
        pan: None,
        expression: None,
        pitch_bend: None,
        pitch_bend_range: None,
    }
}

/// State of the backward scan: channel setups, RPN/NRPN selection, and
/// (when the scan also rebuilds them) bank tables and drum channels.
pub struct SetupScan {
    pub setups: Seq<ChannelSetup>,
    pub rpn_msb: Seq<u8>,
    pub rpn_lsb: Seq<u8>,
    pub nrpn: Seq<bool>,
    pub bank_msb: Seq<u8>,
    pub bank_lsb: Seq<u8>,
    pub drum: Seq<bool>,
}

/// Tables of 32 entries.
pub open spec fn scan_ok(s: SetupScan) -> bool {
    &&& s.setups.len() == 32
    &&& s.rpn_msb.len() == 32
    &&& s.rpn_lsb.len() == 32
    &&& s.nrpn.len() == 32
    &&& s.bank_msb.len() == 32
    &&& s.bank_lsb.len() == 32
    &&& s.drum.len() == 32
}

/// Scan state at the start, or after a reset event.
pub open spec fn scan_reset(s: SetupScan, banks: bool) -> SetupScan {
    let base = SetupScan {
        setups: Seq::new(32, |i: int| empty_setup()),
        rpn_msb: Seq::new(32, |i: int| 127u8),
        rpn_lsb: Seq::new(32, |i: int| 127u8),
        nrpn: Seq::new(32, |i: int| false),
        ..s
    };
    if banks {
        SetupScan {
            bank_msb: Seq::new(32, |i: int| 0u8),
            bank_lsb: Seq::new(32, |i: int| 0u8),
            drum: reset_drums(false),
            ..base
        }
    } else {
        base
    }
}

/// Table index of an event's port and channel (ports above 1 and channels
/// above 15 are taken as 1 and 15).
pub open spec fn event_idx(port: u8, channel: u8) -> int {
    idx(if port >= 1 { 1 } else { 0 }, if channel >= 15 { 15 } else { channel as int })
}

/// A controller seen by the scan.
pub open spec fn scan_cc(s: SetupScan, i: int, ch: u8, cc: u8, val: u8, banks: bool) -> SetupScan {
    let st = s.setups[i];
    if cc == 0 {
        let s2 = SetupScan { setups: s.setups.update(i, ChannelSetup { bank_msb: val, ..st }), ..s };
        if banks {
            let drum = if ch != 9 && !s.drum[i] { s.drum.update(i, is_drum_bank(val)) } else { s.drum };
            SetupScan { bank_msb: s.bank_msb.update(i, val), drum, ..s2 }
        } else {
            s2
        }
    } else if cc == 32 {
        let s2 = SetupScan { setups: s.setups.update(i, ChannelSetup { bank_lsb: val, ..st }), ..s };
        if banks {
            SetupScan { bank_lsb: s.bank_lsb.update(i, val), ..s2 }
        } else {
            s2
        }
    } else if cc == 7 {
        SetupScan { setups: s.setups.update(i, ChannelSetup { volume: Some(val), ..st }), ..s }
    } else if cc == 10 {
        SetupScan { setups: s.setups.update(i, ChannelSetup { pan: Some(val), ..st }), ..s }
    } else if cc == 11 {
        SetupScan { setups: s.setups.update(i, ChannelSetup { expression: Some(val), ..st }), ..s }
    } else if cc == 6 {
        if !s.nrpn[i] && s.rpn_msb[i] == 0 && s.rpn_lsb[i] == 0 {
            SetupScan { setups: s.setups.update(i, ChannelSetup { pitch_bend_range: Some(val), ..st }), ..s }
        } else {
            s
        }
    } else if cc == 99 {
        SetupScan { nrpn: s.nrpn.update(i, true), ..s }
    } else if cc == 101 {
        SetupScan { rpn_msb: s.rpn_msb.update(i, val), nrpn: s.nrpn.update(i, false), ..s }
    } else if cc == 100 {
        SetupScan { rpn_lsb: s.rpn_lsb.update(i, val), nrpn: s.nrpn.update(i, false), ..s }
    } else {
        s
    }
}

/// One event seen by the scan.
pub open spec fn scan_step(s: SetupScan, e: EventView, banks: bool) -> SetupScan {
    match e {
        EventView::MidiReset => scan_reset(s, banks),
        EventView::MidiPlay { port, channel, is_drum_channel, message } => {
            let i = event_idx(port, channel);
            let st = s.setups[i];
            match message {
                MidiMessage::Controller { controller, value } => scan_cc(s, i, channel, controller, value, banks),
                MidiMessage::ProgramChange { program } => SetupScan {
                    setups: s.setups.update(i, ChannelSetup { program: Some(program), ..st }),
                    ..s
                },
                MidiMessage::PitchBend { bend } => SetupScan {
                    setups: s.setups.update(i, ChannelSetup { pitch_bend: Some(bend_value(bend)), ..st }),
                    ..s
                },
                _ => s,
            }
        },
        EventView::SetDrumChannel { port, channel, is_drum } => SetupScan {
            drum: s.drum.update(event_idx(port, channel), is_drum),
            ..s
        },
        _ => s,
    }
}

/// The scan over events `k..end`.
pub open spec fn scan_from(events: Seq<SequenceEventView>, k: int, end: int, s: SetupScan, banks: bool) -> SetupScan
    decreases end - k,
{
    if k >= end || k < 0 || k >= events.len() {
        s
    } else {
        scan_from(events, k + 1, end, scan_step(s, events[k].inner, banks), banks)
    }
}

/// The controllers a setup restores: volume, pan, expression, pitch-bend
/// range and pitch bend, those that were set.
pub open spec fn setup_controls(st: ChannelSetup, p: u8, ch: u8) -> Seq<EngineAction> {
    let vol = match st.volume {
        Some(v) => seq![EngineAction::Cc { port: p, channel: ch, ctrl: 7, value: v }],
        None => Seq::empty(),
    };
    let pan = match st.pan {
        Some(v) => seq![EngineAction::Cc { port: p, channel: ch, ctrl: 10, value: v }],
        None => Seq::empty(),
    };
    let exp = match st.expression {
        Some(v) => seq![EngineAction::Cc { port: p, channel: ch, ctrl: 11, value: v }],
        None => Seq::empty(),
    };
    let pbr = match st.pitch_bend_range {
        Some(v) => seq![EngineAction::PitchWheelSens { port: p, channel: ch, value: v }],
        None => Seq::empty(),
    };
    let pb = match st.pitch_bend {
        Some(v) => seq![EngineAction::PitchBend { port: p, channel: ch, value: v }],
        None => Seq::empty(),
    };
    vol + pan + exp + pbr + pb
}

/// Bank and program of a channel after a seek: the bank is selected (with
/// its LSB), selected again (the drum bank on a drum channel), and the
/// program (0 when none was seen) set.
pub open spec fn seek_head(st: ChannelSetup, drum: bool, format: MidiFormat, p: u8, ch: u8) -> Seq<EngineAction> {
    let bank = resolved_bank(drum, format, st.bank_msb);
    let first = seq![
        EngineAction::BankSelect { port: p, channel: ch, bank },
        EngineAction::Cc { port: p, channel: ch, ctrl: 32, value: st.bank_lsb },
    ];
    let second = if drum {
        seq![EngineAction::BankSelect { port: p, channel: ch, bank: 128 }]
    } else {
        seq![
            EngineAction::BankSelect { port: p, channel: ch, bank },
            EngineAction::Cc { port: p, channel: ch, ctrl: 32, value: st.bank_lsb },
        ]
    };
    let prog = match st.program {
        Some(v) => v,
        None => 0,
    };
    first + second + seq![EngineAction::ProgramChange { port: p, channel: ch, program: prog }]
}

/// Bank and program of a channel when the original song is restored: only
/// where a program change was seen.
pub open spec fn restore_head(st: ChannelSetup, drum: bool, format: MidiFormat, p: u8, ch: u8) -> Seq<EngineAction> {
    let prog = match st.program {
        Some(v) => {
            let bank = if drum {
                seq![EngineAction::BankSelect { port: p, channel: ch, bank: 128 }]
            } else {
                seq![
                    EngineAction::BankSelect { port: p, channel: ch, bank: resolved_bank(drum, format, st.bank_msb) },
                    EngineAction::Cc { port: p, channel: ch, ctrl: 32, value: st.bank_lsb },
                ]
            };
            bank + seq![EngineAction::ProgramChange { port: p, channel: ch, program: v }]
        },
        None => Seq::empty(),
    };
    prog
}

/// All actions of a channel after a seek.
pub open spec fn seek_channel(st: ChannelSetup, drum: bool, format: MidiFormat, p: u8, ch: u8) -> Seq<EngineAction> {
    seek_head(st, drum, format, p, ch) + setup_controls(st, p, ch)
}

/// All actions of a channel when the original song is restored.
pub open spec fn restore_channel(st: ChannelSetup, drum: bool, format: MidiFormat, p: u8, ch: u8) -> Seq<EngineAction> {
    restore_head(st, drum, format, p, ch) + setup_controls(st, p, ch)
}

/// The actions of channels `i..32` (port 0 first, then port 1).
pub open spec fn setup_actions_from(s: SetupScan, format: MidiFormat, seek: bool, i: int) -> Seq<EngineAction>
    decreases 32 - i,
{
    if i < 0 || i >= 32 {
        Seq::empty()
    } else {
        let p = (i / 16) as u8;
        let ch = (i % 16) as u8;
        let a = if seek {
            seek_channel(s.setups[i], s.drum[i], format, p, ch)
        } else {
            restore_channel(s.setups[i], s.drum[i], format, p, ch)
        };
        a + setup_actions_from(s, format, seek, i + 1)
    }
}

/// Exec state of the backward scan.
struct ScanTables {
    setups: Vec<ChannelSetup>,
    rpn_msb: Vec<u8>,
    rpn_lsb: Vec<u8>,
    nrpn: Vec<bool>,
    bank_msb: Vec<u8>,
    bank_lsb: Vec<u8>,
    drum: Vec<bool>,
}

impl ScanTables {
    spec fn view(&self) -> SetupScan {
        SetupScan {
            setups: self.setups@,
            rpn_msb: self.rpn_msb@,
            rpn_lsb: self.rpn_lsb@,
            nrpn: self.nrpn@,
            bank_msb: self.bank_msb@,
            bank_lsb: self.bank_lsb@,
            drum: self.drum@,
        }
    }
}

fn filled_u8(v: u8) -> (r: Vec<u8>)
    ensures
        r@ == Seq::new(32, |i: int| v),
{
    let mut r: Vec<u8> = Vec::new();
    let mut k: usize = 0;
    while k < 32
        invariant
            0 <= k <= 32,
            r@ == Seq::new(k as nat, |i: int| v),
        decreases 32 - k,
    {
        r.push(v);
        k = k + 1;
        assert(r@ =~= Seq::new(k as nat, |i: int| v));
    }
    r
}

fn filled_bool(v: bool) -> (r: Vec<bool>)
    ensures
        r@ == Seq::new(32, |i: int| v),
{
    let mut r: Vec<bool> = Vec::new();
    let mut k: usize = 0;
    while k < 32
        invariant
            0 <= k <= 32,
            r@ == Seq::new(k as nat, |i: int| v),
        decreases 32 - k,
    {
        r.push(v);
        k = k + 1;
        assert(r@ =~= Seq::new(k as nat, |i: int| v));
    }
    r
}

fn empty_setups() -> (r: Vec<ChannelSetup>)
    ensures
        r@ == Seq::new(32, |i: int| empty_setup()),
{
    let mut r: Vec<ChannelSetup> = Vec::new();
    let mut k: usize = 0;
    while k < 32
        invariant
            0 <= k <= 32,
            r@ == Seq::new(k as nat, |i: int| empty_setup()),
        decreases 32 - k,
    {
        r.push(
            ChannelSetup {
                program: None,
                bank_msb: 0,
                bank_lsb: 0,
                volume: None,
                pan: None,
                expression: None,
                pitch_bend: None,
                pitch_bend_range: None,
            },
        );
        k = k + 1;
        assert(r@ =~= Seq::new(k as nat, |i: int| empty_setup()));
    }
    r
}

/// The drum table after a reset.
fn drums_after_reset(rhythm_lane: bool) -> (r: Vec<bool>)
    ensures
        r@ == reset_drums(rhythm_lane),
{
    let mut r = filled_bool(false);
    r.set(9, true);
    r.set(25, true);
    if rhythm_lane {
        r.set(31, true);
    }
    assert(r@ =~= reset_drums(rhythm_lane));
    r
}

fn event_idx_exec(port: u8, channel: u8) -> (i: usize)
    ensures
        i == event_idx(port, channel),
        i < 32,
{
    let p: usize = if port >= 1 {
        1
    } else {
        0
    };
    let ch: usize = if channel >= 15 {
        15
    } else {
        channel as usize
    };
    p * 16 + ch
}

impl ScanTables {
    fn reset(&mut self, banks: bool)
        requires
            scan_ok(old(self).view()),
        ensures
            final(self).view() == scan_reset(old(self).view(), banks),
            scan_ok(final(self).view()),
    {
        self.setups = empty_setups();
        self.rpn_msb = filled_u8(127);
        self.rpn_lsb = filled_u8(127);
        self.nrpn = filled_bool(false);
        if banks {
            self.bank_msb = filled_u8(0);
            self.bank_lsb = filled_u8(0);
            self.drum = drums_after_reset(false);
        }
    }

    fn cc(&mut self, i: usize, ch: u8, cc: u8, val: u8, banks: bool)
        requires
            scan_ok(old(self).view()),
            i < 32,
        ensures
            final(self).view() == scan_cc(old(self).view(), i as int, ch, cc, val, banks),
            scan_ok(final(self).view()),
    {
        let st = self.setups[i];
        if cc == 0 {
            self.setups.set(i, ChannelSetup { bank_msb: val, ..st });
            if banks {
                self.bank_msb.set(i, val);
                if ch != 9 && !self.drum[i] {
                    self.drum.set(i, val == 120 || val == 126 || val == 127);
                }
            }
        } else if cc == 32 {
            self.setups.set(i, ChannelSetup { bank_lsb: val, ..st });
            if banks {
                self.bank_lsb.set(i, val);
            }
        } else if cc == 7 {
            self.setups.set(i, ChannelSetup { volume: Some(val), ..st });
        } else if cc == 10 {
            self.setups.set(i, ChannelSetup { pan: Some(val), ..st });
        } else if cc == 11 {
            self.setups.set(i, ChannelSetup { expression: Some(val), ..st });
        } else if cc == 6 {
            if !self.nrpn[i] && self.rpn_msb[i] == 0 && self.rpn_lsb[i] == 0 {
                self.setups.set(i, ChannelSetup { pitch_bend_range: Some(val), ..st });
            }
        } else if cc == 99 {
            self.nrpn.set(i, true);
        } else if cc == 101 {
            self.rpn_msb.set(i, val);
            self.nrpn.set(i, false);
        } else if cc == 100 {
            self.rpn_lsb.set(i, val);
            self.nrpn.set(i, false);
        }
    }

    fn step(&mut self, e: &MidiEngineEvent, banks: bool)
        requires
            scan_ok(old(self).view()),
        ensures
            final(self).view() == scan_step(old(self).view(), e@, banks),
            scan_ok(final(self).view()),
    {
        match e {
            MidiEngineEvent::MidiReset => self.reset(banks),
            MidiEngineEvent::MidiPlay { port, channel, is_drum_channel: _, message } => {
                let i = event_idx_exec(*port, *channel);
                let st = self.setups[i];
                match message {
                    MidiMessage::Controller { controller, value } => self.cc(i, *channel, *controller, *value, banks),
                    MidiMessage::ProgramChange { program } => {
                        self.setups.set(i, ChannelSetup { program: Some(*program), ..st });
                    },
                    MidiMessage::PitchBend { bend } => {
                        self.setups.set(i, ChannelSetup { pitch_bend: Some(bend_value_exec(*bend)), ..st });
                    },
                    _ => {},
                }
            },
            MidiEngineEvent::SetDrumChannel { port, channel, is_drum } => {
                let i = event_idx_exec(*port, *channel);
                self.drum.set(i, *is_drum);
            },
            _ => {},
        }
    }

    /// Scans events `0..end`.
    fn scan(&mut self, events: &Vec<SequenceEvent>, end: usize, banks: bool)
        requires
            scan_ok(old(self).view()),
            end <= events@.len(),
        ensures
            final(self).view() == scan_from(events_view(events@), 0, end as int, old(self).view(), banks),
            scan_ok(final(self).view()),
    {
        let ghost ev = events_view(events@);
        let ghost goal = scan_from(ev, 0, end as int, self.view(), banks);
        let mut k: usize = 0;
        while k < end
            invariant
                0 <= k <= end,
                end <= events@.len(),
                ev == events_view(events@),
                ev.len() == events@.len(),
                scan_ok(self.view()),
                goal == scan_from(ev, k as int, end as int, self.view(), banks),
            decreases end - k,
        {
            assert(ev[k as int] == events@[k as int]@);
            self.step(&events[k].inner, banks);
            k = k + 1;
        }
    }
}

fn setup_controls_exec(out: &mut Vec<EngineAction>, st: ChannelSetup, p: u8, ch: u8)
    ensures
        final(out)@ == old(out)@ + setup_controls(st, p, ch),
{
    let ghost start = out@;
    if let Some(v) = st.volume {
        out.push(EngineAction::Cc { port: p, channel: ch, ctrl: 7, value: v });
    }
    if let Some(v) = st.pan {
        out.push(EngineAction::Cc { port: p, channel: ch, ctrl: 10, value: v });
    }
    if let Some(v) = st.expression {
        out.push(EngineAction::Cc { port: p, channel: ch, ctrl: 11, value: v });
    }
    if let Some(v) = st.pitch_bend_range {
        out.push(EngineAction::PitchWheelSens { port: p, channel: ch, value: v });
    }
    if let Some(v) = st.pitch_bend {
        out.push(EngineAction::PitchBend { port: p, channel: ch, value: v });
    }
    assert(out@ =~= start + setup_controls(st, p, ch));
}

fn seek_head_exec(out: &mut Vec<EngineAction>, st: ChannelSetup, drum: bool, format: MidiFormat, p: u8, ch: u8)
    ensures
        final(out)@ == old(out)@ + seek_head(st, drum, format, p, ch),
{
    let ghost start = out@;
    let bank: u32 = if drum {
        128
    } else {
        match format {
            MidiFormat::XG => st.bank_msb as u32,
            _ => 0,
        }
    };
    out.push(EngineAction::BankSelect { port: p, channel: ch, bank });
    out.push(EngineAction::Cc { port: p, channel: ch, ctrl: 32, value: st.bank_lsb });
    if drum {
        out.push(EngineAction::BankSelect { port: p, channel: ch, bank: 128 });
    } else {
        out.push(EngineAction::BankSelect { port: p, channel: ch, bank });
        out.push(EngineAction::Cc { port: p, channel: ch, ctrl: 32, value: st.bank_lsb });
    }
    let prog = match st.program {
        Some(v) => v,
        None => 0,
    };
    out.push(EngineAction::ProgramChange { port: p, channel: ch, program: prog });
    assert(out@ =~= start + seek_head(st, drum, format, p, ch));
}

fn restore_head_exec(out: &mut Vec<EngineAction>, st: ChannelSetup, drum: bool, format: MidiFormat, p: u8, ch: u8)
    ensures
        final(out)@ == old(out)@ + restore_head(st, drum, format, p, ch),
{
    let ghost start = out@;
    if let Some(v) = st.program {
        if drum {
            out.push(EngineAction::BankSelect { port: p, channel: ch, bank: 128 });
        } else {
            let bank: u32 = match format {
                MidiFormat::XG => st.bank_msb as u32,
                _ => 0,
            };
            out.push(EngineAction::BankSelect { port: p, channel: ch, bank });
            out.push(EngineAction::Cc { port: p, channel: ch, ctrl: 32, value: st.bank_lsb });
        }
        out.push(EngineAction::ProgramChange { port: p, channel: ch, program: v });
    }
    assert(out@ =~= start + restore_head(st, drum, format, p, ch));
}

fn channel_actions(out: &mut Vec<EngineAction>, st: ChannelSetup, drum: bool, format: MidiFormat, p: u8, ch: u8, seek: bool)
    ensures
        final(out)@ == old(out)@ + (if seek {
            seek_channel(st, drum, format, p, ch)
        } else {
            restore_channel(st, drum, format, p, ch)
        }),
{
    let ghost start = out@;
    if seek {
        seek_head_exec(out, st, drum, format, p, ch);
    } else {
        restore_head_exec(out, st, drum, format, p, ch);
    }
    let ghost mid = out@;
    setup_controls_exec(out, st, p, ch);
    proof {
        if seek {
            assert(out@ =~= start + seek_channel(st, drum, format, p, ch));
        } else {
            assert(out@ =~= start + restore_channel(st, drum, format, p, ch));
        }
    }
}

impl ScanTables {
    /// The actions of all 32 channels.
    fn actions(&self, format: MidiFormat, seek: bool) -> (r: Vec<EngineAction>)
        requires
            scan_ok(self.view()),
        ensures
            r@ == setup_actions_from(self.view(), format, seek, 0),
    {
        let mut out: Vec<EngineAction> = Vec::new();
        let mut i: usize = 0;
        while i < 32
            invariant
                0 <= i <= 32,
                scan_ok(self.view()),
                out@ + setup_actions_from(self.view(), format, seek, i as int) == setup_actions_from(
                    self.view(),
                    format,
                    seek,
                    0,
                ),
            decreases 32 - i,
        {
            let p = (i / 16) as u8;
            let ch = (i % 16) as u8;
            let ghost before = out@;
            channel_actions(&mut out, self.setups[i], self.drum[i], format, p, ch, seek);
            proof {
                let a = if seek {
                    seek_channel(self.setups@[i as int], self.drum@[i as int], format, p, ch)
                } else {
                    restore_channel(self.setups@[i as int], self.drum@[i as int], format, p, ch)
                };
                assert(setup_actions_from(self.view(), format, seek, i as int) == a + setup_actions_from(
                    self.view(),
                    format,
                    seek,
                    i + 1,
                ));
                assert(out@ + setup_actions_from(self.view(), format, seek, i + 1) =~= before + (a
                    + setup_actions_from(self.view(), format, seek, i + 1)));
            }
            i = i + 1;
        }
        assert(out@ + setup_actions_from(self.view(), format, seek, 32) =~= out@);
        out
    }
}


/// What the user interface reads of the engine (positions and times are
/// kept by the caller's clock).
#[derive(Debug, Clone, Copy)]
pub struct EngineStatus {
    pub state: PlayerState,
    pub key: i8,
    pub volume: u8,
    pub current_rhythm: Rhythm,
    /// Whether the song has a bass ($BS) track.
    pub is_bs_detected: bool,
    /// Current tempo of the song in microseconds per quarter note.
    pub current_tempo: i32,
    /// Key signature of the song: number of sharps or flats, and which.
    pub song_key_sig: Option<(i8, bool)>,
    pub total_tick: u64,
}

/// The engine: sequencer, player state, MIDI state of both synthesizers and
/// the rhythm transformation.
pub struct EngineState {
    pub sequencer: MimiSequencer,
    pub current_state: PlayerState,
    pub master_volume: u8,
    pub midi: MidiState,
    pub rhythm_engine: RhythmEngine,
    /// Accompaniment generated for the current rhythm, sorted by tick.
    pub generated_rhythm_notes: Vec<MidiNote>,
    /// Next accompaniment note to play.
    pub next_rhythm_note_index: usize,
    /// Channels of port 0 muted while the rhythm transformation runs (bit per channel).
    pub rhythm_mute_mask: u16,
    /// The rhythm the user chose (the song may switch the transformation on and off).
    pub user_selected_rhythm: Rhythm,
    pub status: EngineStatus,
}

/// The engine state apart from the sequencer and the accompaniment.
pub struct EngineModel {
    pub state: PlayerState,
    pub volume: u8,
    pub midi: MidiModel,
    pub rhythm: Rhythm,
    pub mask: u16,
    pub user: Rhythm,
    pub next_note: int,
    pub status: EngineStatus,
}

impl EngineState {
    pub open spec fn model(&self) -> EngineModel {
        EngineModel {
            state: self.current_state,
            volume: self.master_volume,
            midi: self.midi@,
            rhythm: self.rhythm_engine.current_rhythm,
            mask: self.rhythm_mute_mask,
            user: self.user_selected_rhythm,
            next_note: self.next_rhythm_note_index as int,
            status: self.status,
        }
    }

    /// Well-formed: full channel tables, a well-formed sequencer, and the
    /// accompaniment position within the accompaniment.
    pub open spec fn wf(&self) -> bool {
        &&& tables_ok(self.midi@)
        &&& self.sequencer.wf()
        &&& self.next_rhythm_note_index <= self.generated_rhythm_notes@.len()
    }
}

/// Number of leading notes that start before `tick` (for a tick-sorted
/// accompaniment: the first note at or after `tick`).
pub open spec fn notes_before(notes: Seq<MidiNote>, tick: int) -> int
    decreases notes.len(),
{
    if notes.len() == 0 || notes[0].tick >= tick {
        0
    } else {
        1 + notes_before(notes.drop_first(), tick)
    }
}

proof fn lemma_notes_before(notes: Seq<MidiNote>, tick: int, i: int)
    requires
        0 <= i <= notes.len(),
        forall|j: int| 0 <= j < i ==> notes[j].tick < tick,
        i == notes.len() || notes[i].tick >= tick,
    ensures
        notes_before(notes, tick) == i,
    decreases i,
{
    if i > 0 {
        lemma_notes_before(notes.drop_first(), tick, i - 1);
    }
}

fn notes_before_exec(notes: &Vec<MidiNote>, tick: u32) -> (r: usize)
    ensures
        r == notes_before(notes@, tick as int),
        r <= notes@.len(),
{
    let mut i: usize = 0;
    while i < notes.len() && notes[i].tick < tick
        invariant
            0 <= i <= notes@.len(),
            forall|j: int| 0 <= j < i ==> notes@[j].tick < tick,
        decreases notes.len() - i,
    {
        i = i + 1;
    }
    proof {
        lemma_notes_before(notes@, tick as int, i as int);
    }
    i
}

/// The defaults a MIDI reset event sets on a channel of a port.
pub open spec fn reset_defaults(p: u8, ch: u8) -> Seq<EngineAction> {
    seq![
        EngineAction::Cc { port: p, channel: ch, ctrl: 0, value: 0 },
        EngineAction::Cc { port: p, channel: ch, ctrl: 32, value: 0 },
        EngineAction::ProgramChange { port: p, channel: ch, program: 0 },
        EngineAction::Cc { port: p, channel: ch, ctrl: 7, value: 100 },
        EngineAction::Cc { port: p, channel: ch, ctrl: 11, value: 127 },
        EngineAction::Cc { port: p, channel: ch, ctrl: 10, value: 64 },
        EngineAction::PitchBend { port: p, channel: ch, value: 8192 },
    ]
}

/// Defaults of channels `ch..16` of both ports, channel by channel.
pub open spec fn reset_defaults_from(ch: int) -> Seq<EngineAction>
    decreases 16 - ch,
{
    if ch < 0 || ch >= 16 {
        Seq::empty()
    } else {
        reset_defaults(0, ch as u8) + reset_defaults(1, ch as u8) + reset_defaults_from(ch + 1)
    }
}

/// The defaults a new song sets on a channel of a port: all controllers
/// reset, then the reset defaults.
pub open spec fn song_defaults(p: u8, ch: u8) -> Seq<EngineAction> {
    seq![EngineAction::Cc { port: p, channel: ch, ctrl: 121, value: 0 }] + reset_defaults(p, ch)
}

/// Song defaults of channels `i..32` (port 0, then port 1).
pub open spec fn song_defaults_from(i: int) -> Seq<EngineAction>
    decreases 32 - i,
{
    if i < 0 || i >= 32 {
        Seq::empty()
    } else {
        song_defaults((i / 16) as u8, (i % 16) as u8) + song_defaults_from(i + 1)
    }
}

/// All notes off and all sound off on channels `i..32` (port 0, then port 1).
pub open spec fn sound_off_from(i: int) -> Seq<EngineAction>
    decreases 32 - i,
{
    if i < 0 || i >= 32 {
        Seq::empty()
    } else {
        seq![
            EngineAction::Cc { port: (i / 16) as u8, channel: (i % 16) as u8, ctrl: 123, value: 0 },
            EngineAction::Cc { port: (i / 16) as u8, channel: (i % 16) as u8, ctrl: 120, value: 0 },
        ] + sound_off_from(i + 1)
    }
}

/// The MIDI state after a MIDI reset event of the song.
pub open spec fn midi_after_reset(m: MidiModel, format: MidiFormat) -> MidiModel {
    MidiModel {
        format,
        bank_msb: Seq::new(32, |i: int| 0u8),
        bank_lsb: Seq::new(32, |i: int| 0u8),
        drum: reset_drums(true),
        rpn_msb: Seq::new(32, |i: int| 127u8),
        rpn_lsb: Seq::new(32, |i: int| 127u8),
        nrpn: Seq::new(32, |i: int| false),
        ..m
    }
}

/// Whether channel `ch` is muted in `mask`.
pub open spec fn mask_bit(mask: u16, ch: u8) -> bool {
    (mask >> (ch as u16)) & 1u16 == 1u16
}

/// A channel message of the song is dropped while the rhythm transformation
/// runs: on a muted channel of port 0, or, when no channel is muted, on any
/// channel that does not carry the melody.
pub open spec fn play_dropped(m: EngineModel, melody: Seq<(u8, u8)>, port: u8, ch: u8) -> bool {
    m.rhythm != Rhythm::Original && ((port == 0 && mask_bit(m.mask, ch)) || (!melody.contains((port, ch))
        && m.mask == 0))
}

/// The scan that restores the original song: setups from the start up to
/// the current event, starting from the current drum channels.
pub open spec fn restore_scan(m: MidiModel, seq: MimiSequencer) -> SetupScan {
    scan_from(
        events_view(seq.event@),
        0,
        seq.current_event_index as int,
        SetupScan {
            setups: Seq::new(32, |i: int| empty_setup()),
            rpn_msb: Seq::new(32, |i: int| 127u8),
            rpn_lsb: Seq::new(32, |i: int| 127u8),
            nrpn: Seq::new(32, |i: int| false),
            bank_msb: m.bank_msb,
            bank_lsb: m.bank_lsb,
            drum: m.drum,
        },
        false,
    )
}

impl EngineState {
    /// Restores the original song's programs and controllers up to the
    /// current position (after the rhythm transformation is switched off).
    pub fn restore_original_states(&mut self) -> (actions: Vec<EngineAction>)
        requires
            old(self).wf(),
        ensures
            final(self).wf(),
            actions@ == setup_actions_from(restore_scan(old(self).midi@, old(self).sequencer), old(self).midi@.format, false, 0),
            final(self).model() == (EngineModel {
                midi: MidiModel { drum: restore_scan(old(self).midi@, old(self).sequencer).drum, ..old(self).midi@ },
                ..old(self).model()
            }),
            final(self).sequencer == old(self).sequencer,
            final(self).generated_rhythm_notes == old(self).generated_rhythm_notes,
            final(self).rhythm_engine == old(self).rhythm_engine,
    {
        let mut scan = ScanTables {
            setups: empty_setups(),
            rpn_msb: filled_u8(127),
            rpn_lsb: filled_u8(127),
            nrpn: filled_bool(false),
            bank_msb: self.midi.bank_msb.clone(),
            bank_lsb: self.midi.bank_lsb.clone(),
            drum: self.midi.drum.clone(),
        };
        scan.scan(&self.sequencer.event, self.sequencer.current_event_index, false);
        let actions = scan.actions(self.midi.format, false);
        self.midi.drum = scan.drum;
        actions
    }
}


/// Synthesizer port of a song port: port 0 plays on the first synthesizer,
/// all others on the second.
pub open spec fn synth_port(port: u8) -> u8 {
    if port >= 1 {
        1
    } else {
        0
    }
}

/// The engine model and synthesizer actions after a timeline event, and the
/// event handed on to the user interface, if any. A MIDI reset also needs
/// the song's format; restoring the original song needs the sequencer.
pub open spec fn event_step(m: EngineModel, seq: MimiSequencer, e: EventView) -> (EngineModel, Seq<EngineAction>, Option<EventView>) {
    match e {
        EventView::MidiReset => (
            EngineModel { midi: midi_after_reset(m.midi, seq.format), ..m },
            seq![EngineAction::SystemReset { port: 0 }, EngineAction::SystemReset { port: 1 }] + reset_defaults_from(0),
            None,
        ),
        EventView::MidiPlay { port, channel, is_drum_channel, message } => {
            if play_dropped(m, seq.melody_channels@, port, channel) {
                (m, Seq::empty(), None)
            } else {
                let r = play_message(m.midi, synth_port(port), channel, message);
                (EngineModel { midi: r.0, ..m }, r.1, None)
            }
        },
        EventView::SetDrumChannel { port, channel, is_drum } => (
            EngineModel { midi: MidiModel { drum: m.midi.drum.update(event_idx(port, channel), is_drum), ..m.midi }, ..m },
            Seq::empty(),
            None,
        ),
        EventView::TempoChange { tempo } => (
            EngineModel { status: EngineStatus { current_tempo: tempo as i32, ..m.status }, ..m },
            Seq::empty(),
            Some(EventView::TempoChange { tempo }),
        ),
        EventView::RhythmEngineControl { command, mask_lo, mask_hi } => {
            if m.user == Rhythm::Original {
                (m, Seq::empty(), None)
            } else if command == 1 {
                (EngineModel { mask: (mask_hi * 256 + mask_lo) as u16, rhythm: m.user, ..m }, Seq::empty(), None)
            } else if command == 0 {
                let cleared = MidiModel { active: Seq::empty(), ..m.midi };
                let sc = restore_scan(cleared, seq);
                (
                    EngineModel { mask: 0, rhythm: Rhythm::Original, midi: MidiModel { drum: sc.drum, ..cleared }, ..m },
                    sound_off_from(0) + setup_actions_from(sc, cleared.format, false, 0),
                    None,
                )
            } else {
                (m, Seq::empty(), None)
            }
        },
        EventView::KeySignature { key, is_sharp } => (
            EngineModel { status: EngineStatus { song_key_sig: Some((key, is_sharp)), ..m.status }, ..m },
            Seq::empty(),
            Some(EventView::KeySignature { key, is_sharp }),
        ),
        other => (m, Seq::empty(), Some(other)),
    }
}

/// Channel messages of the song carry channels 0..=15.
pub open spec fn event_channel_ok(e: EventView) -> bool {
    e matches EventView::MidiPlay { channel, .. } ==> channel < 16
}

fn reset_defaults_exec(out: &mut Vec<EngineAction>, p: u8, ch: u8)
    ensures
        final(out)@ == old(out)@ + reset_defaults(p, ch),
{
    let ghost start = out@;
    out.push(EngineAction::Cc { port: p, channel: ch, ctrl: 0, value: 0 });
    out.push(EngineAction::Cc { port: p, channel: ch, ctrl: 32, value: 0 });
    out.push(EngineAction::ProgramChange { port: p, channel: ch, program: 0 });
    out.push(EngineAction::Cc { port: p, channel: ch, ctrl: 7, value: 100 });
    out.push(EngineAction::Cc { port: p, channel: ch, ctrl: 11, value: 127 });
    out.push(EngineAction::Cc { port: p, channel: ch, ctrl: 10, value: 64 });
    out.push(EngineAction::PitchBend { port: p, channel: ch, value: 8192 });
    assert(out@ =~= start + reset_defaults(p, ch));
}

fn sound_off_all(out: &mut Vec<EngineAction>)
    ensures
        final(out)@ == old(out)@ + sound_off_from(0),
{
    let ghost start = out@;
    let mut i: usize = 0;
    while i < 32
        invariant
            0 <= i <= 32,
            out@ + sound_off_from(i as int) == start + sound_off_from(0),
        decreases 32 - i,
    {
        let ghost before = out@;
        let p = (i / 16) as u8;
        let ch = (i % 16) as u8;
        out.push(EngineAction::Cc { port: p, channel: ch, ctrl: 123, value: 0 });
        out.push(EngineAction::Cc { port: p, channel: ch, ctrl: 120, value: 0 });
        assert(out@ + sound_off_from(i + 1) =~= before + sound_off_from(i as int));
        i = i + 1;
    }
    assert(out@ + sound_off_from(32) =~= out@);
}

fn mask_bit_exec(mask: u16, ch: u8) -> (r: bool)
    requires
        ch < 16,
    ensures
        r == mask_bit(mask, ch),
{
    (mask >> (ch as u16)) & 1u16 == 1u16
}

fn contains_pair(v: &Vec<(u8, u8)>, x: (u8, u8)) -> (r: bool)
    ensures
        r == v@.contains(x),
{
    let mut i: usize = 0;
    while i < v.len()
        invariant
            0 <= i <= v@.len(),
            forall|j: int| 0 <= j < i ==> v@[j] != x,
        decreases v.len() - i,
    {
        if v[i].0 == x.0 && v[i].1 == x.1 {
            assert(v@[i as int] == x);
            return true;
        }
        i = i + 1;
    }
    false
}

impl MidiState {
    /// The MIDI state and actions of a MIDI reset event.
    fn midi_reset(&mut self, format: MidiFormat) -> (actions: Vec<EngineAction>)
        requires
            tables_ok(old(self)@),
        ensures
            final(self)@ == midi_after_reset(old(self)@, format),
            actions@ == seq![EngineAction::SystemReset { port: 0 }, EngineAction::SystemReset { port: 1 }]
                + reset_defaults_from(0),
    {
        let mut out: Vec<EngineAction> = Vec::new();
        out.push(EngineAction::SystemReset { port: 0 });
        out.push(EngineAction::SystemReset { port: 1 });
        self.format = format;
        self.bank_msb = filled_u8(0);
        self.bank_lsb = filled_u8(0);
        self.drum = drums_after_reset(true);
        self.rpn_msb = filled_u8(127);
        self.rpn_lsb = filled_u8(127);
        self.nrpn = filled_bool(false);
        let ghost head = out@;
        let mut ch: usize = 0;
        while ch < 16
            invariant
                0 <= ch <= 16,
                out@ + reset_defaults_from(ch as int) == head + reset_defaults_from(0),
            decreases 16 - ch,
        {
            let ghost before = out@;
            reset_defaults_exec(&mut out, 0, ch as u8);
            reset_defaults_exec(&mut out, 1, ch as u8);
            assert(out@ + reset_defaults_from(ch + 1) =~= before + reset_defaults_from(ch as int));
            ch = ch + 1;
        }
        assert(out@ + reset_defaults_from(16) =~= out@);
        out
    }
}

impl EngineState {
    /// Handles one event of the timeline: what the synthesizers are asked to
    /// do, and the event to hand on to the user interface.
    pub fn handle_event(&mut self, e: &MidiEngineEvent) -> (r: (Vec<EngineAction>, Option<MidiEngineEvent>))
        requires
            old(self).wf(),
            event_channel_ok(e@),
        ensures
            final(self).wf(),
            ({
                let s = event_step(old(self).model(), old(self).sequencer, e@);
                &&& final(self).model() == s.0
                &&& r.0@ == s.1
                &&& match r.1 {
                    Some(u) => s.2 == Some(u@),
                    None => s.2 is None,
                }
            }),
            final(self).sequencer == old(self).sequencer,
            final(self).generated_rhythm_notes == old(self).generated_rhythm_notes,
            final(self).rhythm_engine.pattern_library == old(self).rhythm_engine.pattern_library,
            final(self).rhythm_engine.is_enable == old(self).rhythm_engine.is_enable,
    {
        match e {
            MidiEngineEvent::MidiReset => {
                let actions = self.midi.midi_reset(self.sequencer.format);
                (actions, None)
            },
            MidiEngineEvent::MidiPlay { port, channel, is_drum_channel: _, message } => {
                let port = *port;
                let channel = *channel;
                if self.rhythm_engine.current_rhythm != Rhythm::Original {
                    if port == 0 && mask_bit_exec(self.rhythm_mute_mask, channel) {
                        return (Vec::new(), None);
                    }
                    let is_melody = contains_pair(&self.sequencer.melody_channels, (port, channel));
                    if !is_melody && self.rhythm_mute_mask == 0 {
                        return (Vec::new(), None);
                    }
                }
                let sp: u8 = if port >= 1 {
                    1
                } else {
                    0
                };
                let actions = self.midi.play_message(sp, channel, *message);
                (actions, None)
            },
            MidiEngineEvent::SetDrumChannel { port, channel, is_drum } => {
                let i = event_idx_exec(*port, *channel);
                self.midi.drum.set(i, *is_drum);
                (Vec::new(), None)
            },
            MidiEngineEvent::TempoChange { tempo } => {
                self.status.current_tempo = *tempo as i32;
                (Vec::new(), Some(MidiEngineEvent::TempoChange { tempo: *tempo }))
            },
            MidiEngineEvent::RhythmEngineControl { command, mask_lo, mask_hi } => {
                if self.user_selected_rhythm == Rhythm::Original {
                    return (Vec::new(), None);
                }
                if *command == 1 {
                    self.rhythm_mute_mask = (*mask_hi as u16) * 256 + (*mask_lo as u16);
                    self.rhythm_engine.current_rhythm = self.user_selected_rhythm;
                    (Vec::new(), None)
                } else if *command == 0 {
                    self.rhythm_mute_mask = 0;
                    self.rhythm_engine.current_rhythm = Rhythm::Original;
                    let mut actions: Vec<EngineAction> = Vec::new();
                    sound_off_all(&mut actions);
                    self.midi.active_notes = Vec::new();
                    let restore = self.restore_original_states();
                    let ghost a1 = actions@;
                    let mut restore = restore;
                    actions.append(&mut restore);
                    (actions, None)
                } else {
                    (Vec::new(), None)
                }
            },
            MidiEngineEvent::KeySignature { key, is_sharp } => {
                self.status.song_key_sig = Some((*key, *is_sharp));
                (Vec::new(), Some(MidiEngineEvent::KeySignature { key: *key, is_sharp: *is_sharp }))
            },
            other => (Vec::new(), Some(crate::sequencer::clone_event(other))),
        }
    }
}


/// The scan of a seek: setups up to the new position, starting from reset
/// bank tables and drum channels.
pub open spec fn seek_scan(seq: MimiSequencer, end: int) -> SetupScan {
    scan_from(
        events_view(seq.event@),
        0,
        end,
        SetupScan {
            setups: Seq::new(32, |i: int| empty_setup()),
            rpn_msb: Seq::new(32, |i: int| 127u8),
            rpn_lsb: Seq::new(32, |i: int| 127u8),
            nrpn: Seq::new(32, |i: int| false),
            bank_msb: Seq::new(32, |i: int| 0u8),
            bank_lsb: Seq::new(32, |i: int| 0u8),
            drum: reset_drums(false),
        },
        true,
    )
}

/// A transposition clamped to the supported range.
pub open spec fn clamp_key(k: i8) -> i8 {
    if k < KEY_MIN {
        KEY_MIN
    } else if k > KEY_MAX {
        KEY_MAX
    } else {
        k
    }
}

/// A volume clamped to the supported range.
pub open spec fn clamp_volume(v: u8) -> u8 {
    if v > VOLUME_MAX {
        VOLUME_MAX
    } else {
        v
    }
}

fn song_defaults_all(out: &mut Vec<EngineAction>)
    ensures
        final(out)@ == old(out)@ + song_defaults_from(0),
{
    let ghost start = out@;
    let mut i: usize = 0;
    while i < 32
        invariant
            0 <= i <= 32,
            out@ + song_defaults_from(i as int) == start + song_defaults_from(0),
        decreases 32 - i,
    {
        let ghost before = out@;
        let p = (i / 16) as u8;
        let ch = (i % 16) as u8;
        out.push(EngineAction::Cc { port: p, channel: ch, ctrl: 121, value: 0 });
        reset_defaults_exec(out, p, ch);
        assert(out@ + song_defaults_from(i + 1) =~= before + song_defaults_from(i as int));
        i = i + 1;
    }
    assert(out@ + song_defaults_from(32) =~= out@);
}

impl EngineState {
    /// A stopped engine with no song, at volume 50, on the original rhythm,
    /// with the rhythm patterns of `rhythm_engine`.
    pub fn new(rhythm_engine: RhythmEngine) -> (e: EngineState)
        ensures
            e.wf(),
            e.current_state == PlayerState::Stopped,
            e.master_volume == 50,
            e.midi@.key == 0,
            e.midi@.format == MidiFormat::GM,
            e.midi@.active.len() == 0,
            e.midi@.bank_msb == Seq::new(32, |i: int| 0u8),
            e.midi@.bank_lsb == Seq::new(32, |i: int| 0u8),
            e.midi@.drum == reset_drums(true),
            e.midi@.rpn_msb == Seq::new(32, |i: int| 127u8),
            e.midi@.rpn_lsb == Seq::new(32, |i: int| 127u8),
            e.midi@.nrpn == Seq::new(32, |i: int| false),
            e.midi@.velocity == Seq::new(32, |i: int| 0u8),
            e.rhythm_engine.current_rhythm == Rhythm::Original,
            e.rhythm_engine.pattern_library == rhythm_engine.pattern_library,
            e.rhythm_engine.is_enable == rhythm_engine.is_enable,
            e.generated_rhythm_notes@.len() == 0,
            e.next_rhythm_note_index == 0,
            e.rhythm_mute_mask == 0,
            e.user_selected_rhythm == Rhythm::Original,
            e.sequencer.event@.len() == 0,
            e.status.state == PlayerState::Stopped,
            e.status.key == 0,
            e.status.volume == 50,
            e.status.current_rhythm == Rhythm::Original,
            !e.status.is_bs_detected,
            e.status.current_tempo == 500_000,
            e.status.song_key_sig is None,
            e.status.total_tick == 0,
    {
        let sequencer = MimiSequencer::empty();
        let format = sequencer.format;
        let mut rhythm_engine = rhythm_engine;
        rhythm_engine.current_rhythm = Rhythm::Original;
        EngineState {
            sequencer,
            current_state: PlayerState::Stopped,
            master_volume: 50,
            midi: MidiState {
                key: 0,
                format,
                active_notes: Vec::new(),
                bank_msb: filled_u8(0),
                bank_lsb: filled_u8(0),
                drum: drums_after_reset(true),
                rpn_msb: filled_u8(127),
                rpn_lsb: filled_u8(127),
                nrpn: filled_bool(false),
                velocity: filled_u8(0),
            },
            rhythm_engine,
            generated_rhythm_notes: Vec::new(),
            next_rhythm_note_index: 0,
            rhythm_mute_mask: 0,
            user_selected_rhythm: Rhythm::Original,
            status: EngineStatus {
                state: PlayerState::Stopped,
                key: 0,
                volume: 50,
                current_rhythm: Rhythm::Original,
                is_bs_detected: false,
                current_tempo: 500_000,
                song_key_sig: None,
                total_tick: 0,
            },
        }
    }

    /// Starts playing at `current_tick`; the accompaniment continues from its
    /// first note at or after that tick.
    pub fn play(&mut self, current_tick: u32)
        requires
            old(self).wf(),
        ensures
            final(self).wf(),
            played(*old(self), *final(self), current_tick),
    {
        self.current_state = PlayerState::Playing;
        self.status.state = PlayerState::Playing;
        self.next_rhythm_note_index = notes_before_exec(&self.generated_rhythm_notes, current_tick);
    }

    /// Pauses: every sounding note is released.
    pub fn pause(&mut self) -> (actions: Vec<EngineAction>)
        requires
            old(self).wf(),
        ensures
            final(self).wf(),
            paused(*old(self), *final(self), actions@),
    {
        self.current_state = PlayerState::Paused;
        self.status.state = PlayerState::Paused;
        self.midi.all_notes_off()
    }

    /// Stops: back to the start of the song and to the user's rhythm, with
    /// no channel muted and every sounding note released.
    pub fn stop(&mut self) -> (actions: Vec<EngineAction>)
        requires
            old(self).wf(),
        ensures
            final(self).wf(),
            stopped(*old(self), *final(self), actions@),
    {
        self.current_state = PlayerState::Stopped;
        self.rhythm_engine.current_rhythm = self.user_selected_rhythm;
        self.rhythm_mute_mask = 0;
        self.status.state = PlayerState::Stopped;
        self.status.current_rhythm = self.rhythm_engine.current_rhythm;
        let mut actions: Vec<EngineAction> = Vec::new();
        actions.push(EngineAction::Position { tick: 0 });
        let mut off = self.midi.all_notes_off();
        actions.append(&mut off);
        self.sequencer.reset();
        self.next_rhythm_note_index = 0;
        actions
    }

    /// Sets the transposition (clamped to -15..=15) after releasing every
    /// sounding note.
    pub fn set_key(&mut self, key: i8) -> (actions: Vec<EngineAction>)
        requires
            old(self).wf(),
        ensures
            final(self).wf(),
            key_set(*old(self), *final(self), key, actions@),
    {
        let actions = self.midi.all_notes_off();
        let k = if key < KEY_MIN {
            KEY_MIN
        } else if key > KEY_MAX {
            KEY_MAX
        } else {
            key
        };
        self.midi.key = k;
        self.status.key = k;
        actions
    }

    /// Sets the master volume (clamped to 0..=100) and both synthesizers' gain.
    pub fn set_volume(&mut self, vol: u8) -> (actions: Vec<EngineAction>)
        requires
            old(self).wf(),
        ensures
            final(self).wf(),
            volume_set(*old(self), *final(self), vol, actions@),
    {
        let v = if vol > VOLUME_MAX {
            VOLUME_MAX
        } else {
            vol
        };
        self.master_volume = v;
        self.status.volume = v;
        let mut actions: Vec<EngineAction> = Vec::new();
        actions.push(EngineAction::SetGain { volume: v });
        actions
    }

    /// Jumps to `tick`: every sounding note is released, both synthesizers
    /// reset, and the programs and controllers the song set before that tick
    /// restored on every channel; the tempo is that of the last tempo change
    /// before the tick.
    pub fn seek(&mut self, tick: u32) -> (actions: Vec<EngineAction>)
        requires
            old(self).wf(),
        ensures
            final(self).wf(),
            sought(*old(self), *final(self), tick, actions@),
    {
        let mut actions = self.midi.all_notes_off();
        actions.push(EngineAction::SystemReset { port: 0 });
        actions.push(EngineAction::SystemReset { port: 1 });
        self.midi.format = self.sequencer.format;
        self.sequencer.seek_to(tick);
        self.next_rhythm_note_index = notes_before_exec(&self.generated_rhythm_notes, tick);
        let mut scan = ScanTables {
            setups: empty_setups(),
            rpn_msb: filled_u8(127),
            rpn_lsb: filled_u8(127),
            nrpn: filled_bool(false),
            bank_msb: filled_u8(0),
            bank_lsb: filled_u8(0),
            drum: drums_after_reset(false),
        };
        scan.scan(&self.sequencer.event, self.sequencer.current_event_index, true);
        let mut setup = scan.actions(self.midi.format, true);
        actions.append(&mut setup);
        self.midi.bank_msb = scan.bank_msb;
        self.midi.bank_lsb = scan.bank_lsb;
        self.midi.drum = scan.drum;
        self.status.current_tempo = self.sequencer.tempo as i32;
        actions.push(EngineAction::Position { tick });
        actions.push(EngineAction::SetGain { volume: self.master_volume });
        actions
    }
}


/// `s1` is `s0` playing from `current_tick`: the accompaniment resumes
/// at its first note at or after that tick.
pub open spec fn played(s0: EngineState, s1: EngineState, current_tick: u32) -> bool {
    &&& (s1.model() == (EngineModel {
            state: PlayerState::Playing,
            status: EngineStatus { state: PlayerState::Playing, ..s0.status },
            next_note: notes_before(s0.generated_rhythm_notes@, current_tick as int),
            ..s0.model()
        }))
    &&& (s1.sequencer == s0.sequencer)
    &&& (s1.generated_rhythm_notes == s0.generated_rhythm_notes)
    &&& (s1.rhythm_engine == s0.rhythm_engine)
}

/// `s1` is `s0` paused, every sounding note released by `actions`.
pub open spec fn paused(s0: EngineState, s1: EngineState, actions: Seq<EngineAction>) -> bool {
    &&& (actions =~= notes_off(s0.midi@.active))
    &&& (s1.model() == (EngineModel {
            state: PlayerState::Paused,
            status: EngineStatus { state: PlayerState::Paused, ..s0.status },
            midi: MidiModel { active: Seq::empty(), ..s0.midi@ },
            ..s0.model()
        }))
    &&& (s1.sequencer == s0.sequencer)
    &&& (s1.generated_rhythm_notes == s0.generated_rhythm_notes)
    &&& (s1.rhythm_engine == s0.rhythm_engine)
}

/// `s1` is `s0` stopped: back to the start of the song and to the user's
/// rhythm, no channel muted, every sounding note released by `actions`.
pub open spec fn stopped(s0: EngineState, s1: EngineState, actions: Seq<EngineAction>) -> bool {
    &&& (actions =~= seq![EngineAction::Position { tick: 0 }] + notes_off(s0.midi@.active))
    &&& (s1.model() == (EngineModel {
            state: PlayerState::Stopped,
            rhythm: s0.user_selected_rhythm,
            mask: 0,
            next_note: 0,
            status: EngineStatus {
                state: PlayerState::Stopped,
                current_rhythm: s0.user_selected_rhythm,
                ..s0.status
            },
            midi: MidiModel { active: Seq::empty(), ..s0.midi@ },
            ..s0.model()
        }))
    &&& (s1.sequencer.current_event_index == 0)
    &&& (s1.sequencer.tempo == DEFAULT_TEMPO)
    &&& (s1.sequencer.event == s0.sequencer.event)
    &&& (s1.sequencer.chord_timeline == s0.sequencer.chord_timeline)
    &&& (s1.sequencer.melody_channels == s0.sequencer.melody_channels)
    &&& (s1.sequencer.format == s0.sequencer.format)
    &&& (s1.sequencer.ppq == s0.sequencer.ppq)
    &&& (s1.sequencer.total_ticks == s0.sequencer.total_ticks)
    &&& (s1.generated_rhythm_notes == s0.generated_rhythm_notes)
    &&& (s1.rhythm_engine.pattern_library == s0.rhythm_engine.pattern_library)
    &&& (s1.rhythm_engine.is_enable == s0.rhythm_engine.is_enable)
}

/// `s1` is `s0` transposed by `key` semitones (clamped), every sounding
/// note released by `actions`.
pub open spec fn key_set(s0: EngineState, s1: EngineState, key: i8, actions: Seq<EngineAction>) -> bool {
    &&& (actions =~= notes_off(s0.midi@.active))
    &&& (s1.model() == (EngineModel {
            midi: MidiModel { active: Seq::empty(), key: clamp_key(key), ..s0.midi@ },
            status: EngineStatus { key: clamp_key(key), ..s0.status },
            ..s0.model()
        }))
    &&& (s1.sequencer == s0.sequencer)
    &&& (s1.generated_rhythm_notes == s0.generated_rhythm_notes)
    &&& (s1.rhythm_engine == s0.rhythm_engine)
}

/// `s1` is `s0` at master volume `vol` (clamped); `actions` set the gain.
pub open spec fn volume_set(s0: EngineState, s1: EngineState, vol: u8, actions: Seq<EngineAction>) -> bool {
    &&& (actions =~= seq![EngineAction::SetGain { volume: clamp_volume(vol) }])
    &&& (s1.model() == (EngineModel {
            volume: clamp_volume(vol),
            status: EngineStatus { volume: clamp_volume(vol), ..s0.status },
            ..s0.model()
        }))
    &&& (s1.sequencer == s0.sequencer)
    &&& (s1.generated_rhythm_notes == s0.generated_rhythm_notes)
    &&& (s1.rhythm_engine == s0.rhythm_engine)
}

/// `s1` is `s0` moved to `tick`: the synthesizers reset, the setup of every
/// channel up to the tick restored by `actions`, the tempo that of the last
/// tempo change before the tick.
pub open spec fn sought(s0: EngineState, s1: EngineState, tick: u32, actions: Seq<EngineAction>) -> bool {
    &&& (s1.sequencer.current_event_index <= s0.sequencer.event@.len())
    &&& (forall|i: int| 0 <= i < s1.sequencer.current_event_index ==> s0.sequencer.event@[i].absolute_tick < tick)
    &&& (forall|i: int| s1.sequencer.current_event_index <= i < s0.sequencer.event@.len() ==> s0.sequencer.event@[i].absolute_tick >= tick)
    &&& (s1.sequencer.tempo == tempo_through(
            events_view(s0.sequencer.event@),
            0,
            s1.sequencer.current_event_index as int,
            DEFAULT_TEMPO,
        ))
    &&& (s1.sequencer.event == s0.sequencer.event)
    &&& (s1.sequencer.chord_timeline == s0.sequencer.chord_timeline)
    &&& (s1.sequencer.melody_channels == s0.sequencer.melody_channels)
    &&& (s1.sequencer.format == s0.sequencer.format)
    &&& (({
            let sc = seek_scan(s0.sequencer, s1.sequencer.current_event_index as int);
            &&& actions =~= notes_off(s0.midi@.active) + seq![
                EngineAction::SystemReset { port: 0 },
                EngineAction::SystemReset { port: 1 },
            ] + setup_actions_from(sc, s0.sequencer.format, true, 0) + seq![
                EngineAction::Position { tick },
                EngineAction::SetGain { volume: s0.master_volume },
            ]
            &&& s1.model() == (EngineModel {
                midi: MidiModel {
                    active: Seq::empty(),
                    format: s0.sequencer.format,
                    bank_msb: sc.bank_msb,
                    bank_lsb: sc.bank_lsb,
                    drum: sc.drum,
                    ..s0.midi@
                },
                next_note: notes_before(s0.generated_rhythm_notes@, tick as int),
                status: EngineStatus { current_tempo: s1.sequencer.tempo as i32, ..s0.status },
                ..s0.model()
            })
        }))
    &&& (s1.generated_rhythm_notes == s0.generated_rhythm_notes)
    &&& (s1.rhythm_engine == s0.rhythm_engine)
}

/// `s1` is `s0` after loading the song in `bytes`: stopped, the
/// synthesizers reset to their defaults by `actions`, the channel tables
/// cleared, the song replaced where it can be loaded, the accompaniment
/// generated anew.
pub open spec fn song_loaded(s0: EngineState, s1: EngineState, bytes: Seq<u8>, actions: Seq<EngineAction>) -> bool {
    &&& (actions =~= seq![EngineAction::Position { tick: 0 }] + notes_off(s0.midi@.active) + seq![
            EngineAction::SystemReset { port: 0 },
            EngineAction::SystemReset { port: 1 },
        ] + song_defaults_from(0) + seq![EngineAction::SetGain { volume: s0.master_volume }])
    &&& (loadable(bytes) ==> loaded_from(s1.sequencer, song_of(bytes)))
    &&& (!loadable(bytes) ==> s1.sequencer == s0.sequencer)
    &&& (s1.generated_rhythm_notes@ == regenerated(s0.rhythm_engine, s1.sequencer))
    &&& (s1.model() == (EngineModel {
            state: PlayerState::Stopped,
            mask: 0,
            next_note: 0,
            midi: MidiModel {
                active: Seq::empty(),
                format: if loadable(bytes) { s1.sequencer.format } else { s0.midi@.format },
                bank_msb: Seq::new(32, |i: int| 0u8),
                bank_lsb: Seq::new(32, |i: int| 0u8),
                drum: reset_drums(false),
                rpn_msb: Seq::new(32, |i: int| 127u8),
                rpn_lsb: Seq::new(32, |i: int| 127u8),
                nrpn: Seq::new(32, |i: int| false),
                velocity: Seq::new(32, |i: int| 0u8),
                ..s0.midi@
            },
            status: if loadable(bytes) {
                EngineStatus {
                    state: PlayerState::Stopped,
                    total_tick: s1.sequencer.total_ticks as u64,
                    is_bs_detected: s1.sequencer.is_bs_track_detected,
                    song_key_sig: None,
                    ..s0.status
                }
            } else {
                s0.status
            },
            ..s0.model()
        }))
    &&& (s1.rhythm_engine == s0.rhythm_engine)
}

/// `s1` is `s0` switched to `rhythm` at `current_tick`: every note silenced
/// by `actions`; the accompaniment generated for a rhythm other than the
/// original, the song's setup restored for the original.
pub open spec fn rhythm_set(s0: EngineState, s1: EngineState, rhythm: Rhythm, current_tick: u32, actions: Seq<EngineAction>) -> bool {
    &&& (s1.user_selected_rhythm == rhythm)
    &&& (s1.rhythm_engine.current_rhythm == rhythm)
    &&& (s1.status.current_rhythm == rhythm)
    &&& (s1.rhythm_engine.pattern_library == s0.rhythm_engine.pattern_library)
    &&& (s1.rhythm_engine.is_enable == s0.rhythm_engine.is_enable)
    &&& (s1.sequencer == s0.sequencer)
    &&& (s1.generated_rhythm_notes@ == regenerated(
            RhythmEngine { current_rhythm: rhythm, ..s0.rhythm_engine },
            s0.sequencer,
        ))
    &&& (rhythm != Rhythm::Original ==> {
            &&& actions =~= sound_off_from(0)
            &&& s1.next_rhythm_note_index == notes_before(s1.generated_rhythm_notes@, current_tick as int)
            &&& s1.midi@ == (MidiModel { active: Seq::empty(), ..s0.midi@ })
        })
    &&& (rhythm == Rhythm::Original ==> {
            let cleared = MidiModel { active: Seq::empty(), ..s0.midi@ };
            let sc = restore_scan(cleared, s0.sequencer);
            &&& actions =~= sound_off_from(0) + setup_actions_from(sc, cleared.format, false, 0)
            &&& s1.next_rhythm_note_index == 0
            &&& s1.midi@ == (MidiModel { drum: sc.drum, ..cleared })
        })
    &&& (s1.current_state == s0.current_state)
    &&& (s1.master_volume == s0.master_volume)
    &&& (s1.rhythm_mute_mask == s0.rhythm_mute_mask)
    &&& (s1.status == (EngineStatus { current_rhythm: rhythm, ..s0.status }))
}

/// `s1` and `actions` are what command `cmd` makes of `s0` at playback tick
/// `current_tick`.
pub open spec fn command_done(s0: EngineState, s1: EngineState, cmd: MimiCommand, current_tick: u32, actions: Seq<EngineAction>) -> bool {
    match cmd {
        MimiCommand::Play => actions.len() == 0 && played(s0, s1, current_tick),
        MimiCommand::Pause => paused(s0, s1, actions),
        MimiCommand::Stop => stopped(s0, s1, actions),
        MimiCommand::SetKey(k) => key_set(s0, s1, k, actions),
        MimiCommand::SetVolume(v) => volume_set(s0, s1, v, actions),
        MimiCommand::Seek(t) => sought(s0, s1, t, actions),
        MimiCommand::LoadSong(bytes) => song_loaded(s0, s1, bytes@, actions),
        MimiCommand::SetRhythm(r) => rhythm_set(s0, s1, r, current_tick, actions),
    }
}


/// No stuck notes: after a key change, a pause or a stop, every note that
/// sounded before has its note-off among the actions, and no note sounds.
pub proof fn lemma_no_stuck_notes(
    s0: EngineState,
    s1: EngineState,
    cmd: MimiCommand,
    current_tick: u32,
    actions: Seq<EngineAction>,
)
    requires
        command_done(s0, s1, cmd, current_tick, actions),
        cmd is SetKey || cmd is Pause || cmd is Stop,
    ensures
        s1.midi@.active.len() == 0,
        forall|i: int| 0 <= i < s0.midi@.active.len() ==> actions.contains(
            EngineAction::NoteOff {
                port: #[trigger] s0.midi@.active[i].0,
                channel: s0.midi@.active[i].1,
                key: s0.midi@.active[i].2,
            },
        ),
{
    let off = notes_off(s0.midi@.active);
    assert forall|i: int| 0 <= i < s0.midi@.active.len() implies actions.contains(
        EngineAction::NoteOff {
            port: #[trigger] s0.midi@.active[i].0,
            channel: s0.midi@.active[i].1,
            key: s0.midi@.active[i].2,
        },
    ) by {
        let n = EngineAction::NoteOff {
            port: s0.midi@.active[i].0,
            channel: s0.midi@.active[i].1,
            key: s0.midi@.active[i].2,
        };
        assert(off[i] == n);
        if cmd is Stop {
            assert(actions[i + 1] == n);
        } else {
            assert(actions[i] == n);
        }
    }
}

/// Pausing and then playing resumes the song where it was: the same
/// timeline at the same position and tempo, the same accompaniment.
pub proof fn lemma_pause_then_play_resumes(
    s0: EngineState,
    s1: EngineState,
    s2: EngineState,
    t1: u32,
    t2: u32,
    a1: Seq<EngineAction>,
    a2: Seq<EngineAction>,
)
    requires
        command_done(s0, s1, MimiCommand::Pause, t1, a1),
        command_done(s1, s2, MimiCommand::Play, t2, a2),
    ensures
        s2.sequencer == s0.sequencer,
        s2.generated_rhythm_notes == s0.generated_rhythm_notes,
        s2.rhythm_engine == s0.rhythm_engine,
        s2.current_state == PlayerState::Playing,
        s2.midi@.active.len() == 0,
        s2.master_volume == s0.master_volume,
        s2.midi@.key == s0.midi@.key,
{
}

/// Commands of the user interface (the tempo scale is the caller's clock).
pub enum MimiCommand {
    Play,
    Pause,
    Stop,
    /// Transposition in semitones (clamped to -15..=15).
    SetKey(i8),
    /// Master volume (clamped to 0..=100).
    SetVolume(u8),
    /// Jump to an absolute tick.
    Seek(u32),
    /// A new song.
    LoadSong(Vec<u8>),
    SetRhythm(Rhythm),
}

/// The accompaniment of the current rhythm over the song, or none when the
/// rhythm is the original or its pattern cannot be looped over the song.
pub open spec fn regenerated(eng: RhythmEngine, seq: MimiSequencer) -> Seq<MidiNote> {
    if eng.current_rhythm == Rhythm::Original || !accompaniment_defined(
        eng.is_enable,
        eng.pattern_library@,
        eng.current_rhythm,
        seq.total_ticks as int,
        seq.chord_timeline@,
        seq.ppq as int,
    ) {
        Seq::empty()
    } else {
        accompaniment(
            eng.is_enable,
            eng.pattern_library@,
            eng.current_rhythm,
            seq.total_ticks as int,
            seq.chord_timeline@,
            seq.ppq as int,
        )
    }
}

impl EngineState {
    fn regenerate(&mut self)
        requires
            old(self).wf(),
        ensures
            final(self).wf(),
            final(self).generated_rhythm_notes@ == regenerated(old(self).rhythm_engine, old(self).sequencer),
            final(self).next_rhythm_note_index == 0,
            final(self).model() == (EngineModel { next_note: 0, ..old(self).model() }),
            final(self).sequencer == old(self).sequencer,
            final(self).rhythm_engine == old(self).rhythm_engine,
    {
        self.next_rhythm_note_index = 0;
        if self.rhythm_engine.current_rhythm != Rhythm::Original && self.rhythm_engine.can_generate(
            self.sequencer.total_ticks,
            self.sequencer.chord_timeline.as_slice(),
            self.sequencer.ppq,
        ) {
            self.generated_rhythm_notes = self.rhythm_engine.generate_accompaniment_tracks(
                self.sequencer.total_ticks,
                self.sequencer.chord_timeline.as_slice(),
                self.sequencer.ppq,
            );
        } else {
            self.generated_rhythm_notes = Vec::new();
        }
    }

    /// Loads a new song from the bytes of a Standard MIDI File: the player
    /// stops, every sounding note is released, both synthesizers are reset to
    /// their defaults and the channel tables cleared; a song that `midly`
    /// reads and whose tracks fit in 32-bit ticks replaces the current one;
    /// the accompaniment of the current rhythm is generated anew.
    pub fn load_song(&mut self, bytes: &[u8]) -> (actions: Vec<EngineAction>)
        requires
            old(self).wf(),
        ensures
            final(self).wf(),
            song_loaded(*old(self), *final(self), bytes@, actions@),
    {
        self.current_state = PlayerState::Stopped;
        let mut actions: Vec<EngineAction> = Vec::new();
        actions.push(EngineAction::Position { tick: 0 });
        let mut off = self.midi.all_notes_off();
        actions.append(&mut off);
        self.rhythm_mute_mask = 0;
        actions.push(EngineAction::SystemReset { port: 0 });
        actions.push(EngineAction::SystemReset { port: 1 });
        song_defaults_all(&mut actions);
        self.midi.bank_msb = filled_u8(0);
        self.midi.bank_lsb = filled_u8(0);
        self.midi.rpn_msb = filled_u8(127);
        self.midi.rpn_lsb = filled_u8(127);
        self.midi.nrpn = filled_bool(false);
        self.midi.drum = drums_after_reset(false);
        self.midi.velocity = filled_u8(0);
        if let Some(Ok(new_seq)) = MimiSequencer::try_from_byte(bytes) {
            self.midi.format = new_seq.format;
            let bs_detected = new_seq.is_bs_track_detected;
            self.sequencer = new_seq;
            self.status.state = PlayerState::Stopped;
            self.status.total_tick = self.sequencer.total_ticks as u64;
            self.status.is_bs_detected = bs_detected;
            self.status.song_key_sig = None;
        }
        actions.push(EngineAction::SetGain { volume: self.master_volume });
        self.regenerate();
        actions
    }

    /// Switches the rhythm: every note is silenced; for a rhythm other than
    /// the original the accompaniment is generated and continues from
    /// `current_tick`; for the original the song's programs and controllers
    /// are restored.
    pub fn set_rhythm(&mut self, rhythm: Rhythm, current_tick: u32) -> (actions: Vec<EngineAction>)
        requires
            old(self).wf(),
        ensures
            final(self).wf(),
            rhythm_set(*old(self), *final(self), rhythm, current_tick, actions@),
    {
        self.user_selected_rhythm = rhythm;
        self.rhythm_engine.current_rhythm = rhythm;
        self.status.current_rhythm = rhythm;
        let mut actions: Vec<EngineAction> = Vec::new();
        sound_off_all(&mut actions);
        self.midi.active_notes = Vec::new();
        self.regenerate();
        if rhythm != Rhythm::Original {
            self.next_rhythm_note_index = notes_before_exec(&self.generated_rhythm_notes, current_tick);
        } else {
            let mut restore = self.restore_original_states();
            actions.append(&mut restore);
        }
        actions
    }

    /// One command of the user interface; `current_tick` is the playback
    /// position (where playing resumes the accompaniment).
    pub fn process_command(&mut self, cmd: MimiCommand, current_tick: u32) -> (actions: Vec<EngineAction>)
        requires
            old(self).wf(),
        ensures
            final(self).wf(),
            command_done(*old(self), *final(self), cmd, current_tick, actions@),
    {
        match cmd {
            MimiCommand::Play => {
                self.play(current_tick);
                Vec::new()
            },
            MimiCommand::Pause => self.pause(),
            MimiCommand::Stop => self.stop(),
            MimiCommand::SetKey(k) => self.set_key(k),
            MimiCommand::SetVolume(v) => self.set_volume(v),
            MimiCommand::Seek(t) => self.seek(t),
            MimiCommand::LoadSong(bytes) => self.load_song(bytes.as_slice()),
            MimiCommand::SetRhythm(r) => self.set_rhythm(r, current_tick),
        }
    }

    /// At the end of the song the player stops (as on a stop command).
    pub fn finish_if_done(&mut self) -> (r: (bool, Vec<EngineAction>))
        requires
            old(self).wf(),
        ensures
            final(self).wf(),
            r.0 == (old(self).sequencer.current_event_index >= old(self).sequencer.event@.len()),
            !r.0 ==> r.1@.len() == 0 && final(self).model() == old(self).model() && final(self).sequencer
                == old(self).sequencer,
            r.0 ==> r.1@ == seq![EngineAction::Position { tick: 0 }] + notes_off(old(self).midi@.active)
                && final(self).model() == (EngineModel {
                state: PlayerState::Stopped,
                rhythm: old(self).user_selected_rhythm,
                mask: 0,
                next_note: 0,
                status: EngineStatus {
                    state: PlayerState::Stopped,
                    current_rhythm: old(self).user_selected_rhythm,
                    ..old(self).status
                },
                midi: MidiModel { active: Seq::empty(), ..old(self).midi@ },
                ..old(self).model()
            }) && final(self).sequencer.current_event_index == 0,
            final(self).generated_rhythm_notes == old(self).generated_rhythm_notes,
    {
        if self.sequencer.is_finished() {
            let actions = self.stop();
            (true, actions)
        } else {
            (false, Vec::new())
        }
    }

    /// Level meters fall by 4 per audio buffer; the levels of both ports go
    /// to the user interface.
    pub fn decay_levels(&mut self) -> (ui: Vec<MidiEngineEvent>)
        requires
            old(self).wf(),
        ensures
            final(self).wf(),
            final(self).model() == (EngineModel {
                midi: MidiModel {
                    velocity: Seq::new(32, |i: int| (if old(self).midi@.velocity[i] >= 4 { old(self).midi@.velocity[i] - 4 } else { 0 }) as u8),
                    ..old(self).midi@
                },
                ..old(self).model()
            }),
            ui@.len() == 2,
            ui@[0]@ == (EventView::ChannelLevel { port: 0, levels: final(self).midi@.velocity.subrange(0, 16) }),
            ui@[1]@ == (EventView::ChannelLevel { port: 1, levels: final(self).midi@.velocity.subrange(16, 32) }),
            final(self).sequencer == old(self).sequencer,
            final(self).generated_rhythm_notes == old(self).generated_rhythm_notes,
            final(self).rhythm_engine == old(self).rhythm_engine,
    {
        let ghost v0 = self.midi.velocity@;
        let mut vel: Vec<u8> = self.midi.velocity.clone();
        let mut i: usize = 0;
        while i < 32
            invariant
                0 <= i <= 32,
                vel@.len() == 32,
                v0.len() == 32,
                forall|j: int| 0 <= j < i ==> vel@[j] == (if v0[j] >= 4 { v0[j] - 4 } else { 0 }) as u8,
                forall|j: int| i <= j < 32 ==> vel@[j] == v0[j],
            decreases 32 - i,
        {
            let v = vel[i];
            vel.set(i, v.saturating_sub(4));
            i = i + 1;
        }
        assert(vel@ =~= Seq::new(32, |i: int| (if v0[i] >= 4 { v0[i] - 4 } else { 0 }) as u8));
        let mut ui: Vec<MidiEngineEvent> = Vec::new();
        let mut p: usize = 0;
        while p < 2
            invariant
                0 <= p <= 2,
                vel@.len() == 32,
                ui@.len() == p,
                forall|q: int| 0 <= q < p ==> ui@[q]@ == (EventView::ChannelLevel {
                    port: q as u8,
                    levels: vel@.subrange(q * 16, q * 16 + 16),
                }),
            decreases 2 - p,
        {
            let mut levels = [0u8; 16];
            let mut c: usize = 0;
            while c < 16
                invariant
                    0 <= c <= 16,
                    p < 2,
                    vel@.len() == 32,
                    forall|j: int| 0 <= j < c ==> levels@[j] == vel@[p * 16 + j],
                decreases 16 - c,
            {
                levels.set(c, vel[p * 16 + c]);
                c = c + 1;
            }
            assert(levels@ =~= vel@.subrange(p * 16, p * 16 + 16));
            ui.push(MidiEngineEvent::ChannelLevel { port: p as u8, levels });
            p = p + 1;
        }
        self.midi.velocity = vel;
        ui
    }
}


/// A pattern track plays the accompaniment channel: drums (channel 10),
/// bass (channel 2) or chords (channel 3).
pub open spec fn track_plays(tt: TrackType, drum: bool, ch: u8) -> bool {
    match tt {
        TrackType::Drum => drum,
        TrackType::Bass => ch == 1,
        TrackType::Accompaniment => ch == 2,
    }
}

/// Index of the first pattern track that plays the channel.
pub open spec fn first_track(tracks: Seq<RhythmTrack>, drum: bool, ch: u8) -> Option<int>
    decreases tracks.len(),
{
    if tracks.len() == 0 {
        None
    } else if track_plays(tracks[0].track_type, drum, ch) {
        Some(0)
    } else {
        match first_track(tracks.drop_first(), drum, ch) {
            Some(i) => Some(i + 1),
            None => None,
        }
    }
}

/// Channel of the second synthesizer that plays an accompaniment channel:
/// 16 for drums, 15 for the bass, 14 for everything else.
pub open spec fn rhythm_channel(ch: u8) -> u8 {
    if ch == 9 {
        15
    } else if ch == 1 {
        14
    } else {
        13
    }
}

/// The instrument set before an accompaniment note: the pattern track's
/// program (drum bank on drums) with volume, expression and pan fixed.
pub open spec fn rhythm_patch(lib: Seq<(Rhythm, AdvancedRhythmPattern)>, rhythm: Rhythm, drum: bool, ch: u8, target: u8) -> Seq<EngineAction> {
    match pattern_of(lib, rhythm) {
        None => Seq::empty(),
        Some(p) => match first_track(p.tracks@, drum, ch) {
            None => Seq::empty(),
            Some(t) => seq![
                EngineAction::BankSelect { port: 1, channel: target, bank: if drum { 128 } else { 0 } },
                EngineAction::ProgramChange { port: 1, channel: target, program: p.tracks@[t].instrument_program },
                EngineAction::Cc { port: 1, channel: target, ctrl: 7, value: 100 },
                EngineAction::Cc { port: 1, channel: target, ctrl: 11, value: 127 },
                EngineAction::Cc { port: 1, channel: target, ctrl: 10, value: 64 },
            ],
        },
    }
}

/// One accompaniment note on the second synthesizer: a note-on first
/// releases the same key, then sets the instrument; a note-off releases it.
pub open spec fn rhythm_note(m: MidiModel, lib: Seq<(Rhythm, AdvancedRhythmPattern)>, rhythm: Rhythm, n: MidiNote) -> (MidiModel, Seq<EngineAction>) {
    let drum = n.channel == 9;
    let target = rhythm_channel(n.channel);
    let velocity = if n.channel < 16 && n.velocity > m.velocity[16 + n.channel] {
        m.velocity.update(16 + n.channel, n.velocity)
    } else {
        m.velocity
    };
    let k = transpose(n.note_number, m.key, drum);
    let released = without_note(m.active, (1u8, target, k));
    if n.velocity > 0 {
        (
            MidiModel { velocity, active: released.push((1u8, target, k)), ..m },
            seq![EngineAction::NoteOff { port: 1, channel: target, key: k }] + rhythm_patch(lib, rhythm, drum, n.channel, target)
                + seq![EngineAction::NoteOn { port: 1, channel: target, key: k, vel: n.velocity }],
        )
    } else {
        (MidiModel { velocity, active: released, ..m }, seq![EngineAction::NoteOff { port: 1, channel: target, key: k }])
    }
}

/// The accompaniment notes due at `tick` from note `k` on: the MIDI state,
/// the actions and the next note.
pub open spec fn rhythm_notes_from(
    m: MidiModel,
    lib: Seq<(Rhythm, AdvancedRhythmPattern)>,
    rhythm: Rhythm,
    notes: Seq<MidiNote>,
    k: int,
    tick: int,
) -> (MidiModel, Seq<EngineAction>, int)
    decreases notes.len() - k,
{
    if 0 <= k < notes.len() && notes[k].tick <= tick {
        let a = rhythm_note(m, lib, rhythm, notes[k]);
        let r = rhythm_notes_from(a.0, lib, rhythm, notes, k + 1, tick);
        (r.0, a.1 + r.1, r.2)
    } else {
        (m, Seq::empty(), k)
    }
}

fn first_track_exec(tracks: &Vec<RhythmTrack>, drum: bool, ch: u8) -> (r: Option<usize>)
    ensures
        match r {
            Some(i) => first_track(tracks@, drum, ch) == Some(i as int) && i < tracks@.len(),
            None => first_track(tracks@, drum, ch) is None,
        },
{
    let mut i: usize = 0;
    assert(tracks@.skip(0) =~= tracks@);
    while i < tracks.len()
        invariant
            0 <= i <= tracks@.len(),
            first_track(tracks@, drum, ch) == (match first_track(tracks@.skip(i as int), drum, ch) {
                Some(j) => Some(j + i),
                None => None::<int>,
            }),
        decreases tracks.len() - i,
    {
        assert(tracks@.skip(i as int)[0] == tracks@[i as int]);
        let plays = match tracks[i].track_type {
            TrackType::Drum => drum,
            TrackType::Bass => ch == 1,
            TrackType::Accompaniment => ch == 2,
        };
        if plays {
            return Some(i);
        }
        assert(tracks@.skip(i as int).drop_first() =~= tracks@.skip(i + 1));
        i = i + 1;
    }
    assert(tracks@.skip(i as int) =~= Seq::<RhythmTrack>::empty());
    None
}

impl EngineState {
    /// The note actions of one accompaniment note.
    fn rhythm_note_exec(&mut self, n: MidiNote) -> (actions: Vec<EngineAction>)
        requires
            tables_ok(old(self).midi@),
        ensures
            (final(self).midi@, actions@) == rhythm_note(old(self).midi@, old(self).rhythm_engine.pattern_library@, old(self).rhythm_engine.current_rhythm, n),
            tables_ok(final(self).midi@),
            final(self).sequencer == old(self).sequencer,
            final(self).generated_rhythm_notes == old(self).generated_rhythm_notes,
            final(self).rhythm_engine == old(self).rhythm_engine,
            final(self).next_rhythm_note_index == old(self).next_rhythm_note_index,
            final(self).current_state == old(self).current_state,
            final(self).master_volume == old(self).master_volume,
            final(self).rhythm_mute_mask == old(self).rhythm_mute_mask,
            final(self).user_selected_rhythm == old(self).user_selected_rhythm,
            final(self).status == old(self).status,
    {
        let drum = n.channel == 9;
        let target: u8 = if drum {
            15
        } else if n.channel == 1 {
            14
        } else {
            13
        };
        if n.channel < 16 {
            let ci = 16 + n.channel as usize;
            if n.velocity > self.midi.velocity[ci] {
                self.midi.velocity.set(ci, n.velocity);
            }
        }
        let k = transpose_exec(n.note_number, self.midi.key, drum);
        let mut actions: Vec<EngineAction> = Vec::new();
        if n.velocity > 0 {
            actions.push(EngineAction::NoteOff { port: 1, channel: target, key: k });
            remove_note(&mut self.midi.active_notes, (1, target, k));
            self.midi.active_notes.push((1, target, k));
            let ghost before = actions@;
            match self.rhythm_engine.find_pattern(self.rhythm_engine.current_rhythm) {
                Some(p) => {
                    match first_track_exec(&p.tracks, drum, n.channel) {
                        Some(t) => {
                            let bank: u32 = if drum {
                                128
                            } else {
                                0
                            };
                            actions.push(EngineAction::BankSelect { port: 1, channel: target, bank });
                            actions.push(EngineAction::ProgramChange { port: 1, channel: target, program: p.tracks[t].instrument_program });
                            actions.push(EngineAction::Cc { port: 1, channel: target, ctrl: 7, value: 100 });
                            actions.push(EngineAction::Cc { port: 1, channel: target, ctrl: 11, value: 127 });
                            actions.push(EngineAction::Cc { port: 1, channel: target, ctrl: 10, value: 64 });
                        },
                        None => {},
                    }
                },
                None => {},
            }
            assert(actions@ =~= before + rhythm_patch(self.rhythm_engine.pattern_library@, self.rhythm_engine.current_rhythm, drum, n.channel, target));
            actions.push(EngineAction::NoteOn { port: 1, channel: target, key: k, vel: n.velocity });
        } else {
            remove_note(&mut self.midi.active_notes, (1, target, k));
            actions.push(EngineAction::NoteOff { port: 1, channel: target, key: k });
        }
        proof {
            let r = rhythm_note(old(self).midi@, old(self).rhythm_engine.pattern_library@, old(self).rhythm_engine.current_rhythm, n);
            assert(actions@ =~= r.1);
        }
        actions
    }

    /// The accompaniment at playback tick `current_tick` (when the rhythm
    /// transformation runs): the chord sounding there goes to the user
    /// interface, and the accompaniment notes due by then are played.
    pub fn rhythm_step(&mut self, current_tick: u32) -> (r: (Vec<EngineAction>, Option<MidiEngineEvent>))
        requires
            old(self).wf(),
        ensures
            final(self).wf(),
            old(self).rhythm_engine.current_rhythm == Rhythm::Original ==> r.0@.len() == 0 && r.1 is None
                && final(self).model() == old(self).model(),
            old(self).rhythm_engine.current_rhythm != Rhythm::Original ==> {
                let s = rhythm_notes_from(
                    old(self).midi@,
                    old(self).rhythm_engine.pattern_library@,
                    old(self).rhythm_engine.current_rhythm,
                    old(self).generated_rhythm_notes@,
                    old(self).next_rhythm_note_index as int,
                    current_tick as int,
                );
                &&& r.0@ == s.1
                &&& final(self).model() == (EngineModel { midi: s.0, next_note: s.2, ..old(self).model() })
                &&& match chord_at(old(self).sequencer.chord_timeline@, current_tick as int) {
                    Some(c) => r.1 matches Some(u) && u@ == (EventView::ChordUpdate {
                        root_pitch: c.root_pitch,
                        is_minor: c.is_minor,
                        is_7th: c.is_7th,
                        is_maj7: c.is_maj7,
                    }),
                    None => r.1 is None,
                }
            },
            final(self).sequencer == old(self).sequencer,
            final(self).generated_rhythm_notes == old(self).generated_rhythm_notes,
            final(self).rhythm_engine == old(self).rhythm_engine,
    {
        if self.rhythm_engine.current_rhythm == Rhythm::Original {
            return (Vec::new(), None);
        }
        let ui = match self.rhythm_engine.get_chord_at_tick(current_tick, self.sequencer.chord_timeline.as_slice()) {
            Some(c) => Some(MidiEngineEvent::ChordUpdate {
                root_pitch: c.root_pitch,
                is_minor: c.is_minor,
                is_7th: c.is_7th,
                is_maj7: c.is_maj7,
            }),
            None => None,
        };
        let ghost lib = self.rhythm_engine.pattern_library@;
        let ghost rh = self.rhythm_engine.current_rhythm;
        let ghost notes = self.generated_rhythm_notes@;
        let ghost goal = rhythm_notes_from(self.midi@, lib, rh, notes, self.next_rhythm_note_index as int, current_tick as int);
        let mut actions: Vec<EngineAction> = Vec::new();
        let n = self.generated_rhythm_notes.len();
        while self.next_rhythm_note_index < n && self.generated_rhythm_notes[self.next_rhythm_note_index].tick <= current_tick
            invariant
                self.wf(),
                n == self.generated_rhythm_notes@.len(),
                notes == self.generated_rhythm_notes@,
                lib == self.rhythm_engine.pattern_library@,
                rh == self.rhythm_engine.current_rhythm,
                self.sequencer == old(self).sequencer,
                self.generated_rhythm_notes == old(self).generated_rhythm_notes,
                self.rhythm_engine == old(self).rhythm_engine,
                self.current_state == old(self).current_state,
                self.master_volume == old(self).master_volume,
                self.rhythm_mute_mask == old(self).rhythm_mute_mask,
                self.user_selected_rhythm == old(self).user_selected_rhythm,
                self.status == old(self).status,
                ({
                    let cur = rhythm_notes_from(self.midi@, lib, rh, notes, self.next_rhythm_note_index as int, current_tick as int);
                    goal == (cur.0, actions@ + cur.1, cur.2)
                }),
            decreases n - self.next_rhythm_note_index,
        {
            let note = self.generated_rhythm_notes[self.next_rhythm_note_index];
            let ghost before = actions@;
            let ghost m0 = self.midi@;
            let mut a = self.rhythm_note_exec(note);
            actions.append(&mut a);
            proof {
                let k = self.next_rhythm_note_index as int;
                let st = rhythm_note(m0, lib, rh, notes[k]);
                let rest = rhythm_notes_from(st.0, lib, rh, notes, k + 1, current_tick as int);
                assert(before + (st.1 + rest.1) =~= actions@ + rest.1);
            }
            self.next_rhythm_note_index = self.next_rhythm_note_index + 1;
        }
        proof {
            let cur = rhythm_notes_from(self.midi@, lib, rh, notes, self.next_rhythm_note_index as int, current_tick as int);
            assert(actions@ + cur.1 =~= actions@);
        }
        (actions, ui)
    }
}

} // verus!
