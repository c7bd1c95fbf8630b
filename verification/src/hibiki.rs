//! The decisions of the Hibiki synthesizer: channel controller state, which
//! sample a note plays, which voice sounds it, and what the voices and
//! effects are told to do. The sound itself is rendered outside.
use vstd::prelude::*;
use crate::sf2::parser::Sf2File;
use crate::sf2::types::{PresetView, PresetZoneView, InstrumentView, InstrumentZoneView, Preset, PresetZone, Instrument, InstrumentZone};

verus! {

/// State of a voice.
#[derive(Debug, Clone, Copy, PartialEq, Eq, Structural)]
pub enum VoiceState {
    /// Silent.
    Off,
    Attack,
    Decay,
    Sustain,
    Release,
}

/// Kinds of biquad filter.
#[derive(Debug, Clone, Copy, PartialEq, Eq, Structural)]
pub enum FilterType {
    LowPass,
    HighPass,
    BandPass,
    Notch,
    Peak,
    LowShelf,
    HighShelf,
}

/// The voice that a new note gets.
#[derive(Debug, Clone, Copy, PartialEq, Eq, Structural)]
pub enum VoicePick {
    /// A silent voice at this index.
    Free(usize),
    /// A new voice, added at the end.
    Add,
    /// A sounding voice at this index, released and reused.
    Steal(usize),
    /// No voice can be had.
    NoVoice,
}

/// The first index at or after `k` whose state is `Off` (`a`) or, with
/// `a` false, `Sustain` or `Decay`.
pub open spec fn first_state(states: Seq<VoiceState>, k: int, off: bool) -> Option<int>
    decreases states.len() - k,
{
    if k >= states.len() || k < 0 {
        None
    } else if (off && states[k] == VoiceState::Off) || (!off && (states[k] == VoiceState::Sustain
        || states[k] == VoiceState::Decay)) {
        Some(k)
    } else {
        first_state(states, k + 1, off)
    }
}

/// The voice for a new note: the first silent voice; else a new one while
/// fewer than `max_voices` exist; else the first one sustaining or decaying.
pub open spec fn voice_pick(states: Seq<VoiceState>, max_voices: int) -> VoicePick {
    match first_state(states, 0, true) {
        Some(i) => VoicePick::Free(i as usize),
        None => if states.len() < max_voices {
            VoicePick::Add
        } else {
            match first_state(states, 0, false) {
                Some(i) => VoicePick::Steal(i as usize),
                None => VoicePick::NoVoice,
            }
        },
    }
}

/// The number of sounding voices.
pub open spec fn sounding(states: Seq<VoiceState>) -> nat
    decreases states.len(),
{
    if states.len() == 0 {
        0
    } else {
        sounding(states.drop_last()) + if states.last() == VoiceState::Off { 0nat } else { 1nat }
    }
}

fn first_state_exec(states: &[VoiceState], off: bool) -> (r: Option<usize>)
    ensures
        match r {
            Some(i) => first_state(states@, 0, off) == Some(i as int),
            None => first_state(states@, 0, off) is None,
        },
{
    let n = states.len();
    let mut k: usize = 0;
    while k < n
        invariant
            0 <= k <= n,
            n == states@.len(),
            first_state(states@, 0, off) == first_state(states@, k as int, off),
        decreases n - k,
    {
        let s = states[k];
        if (off && s == VoiceState::Off) || (!off && (s == VoiceState::Sustain || s == VoiceState::Decay)) {
            return Some(k);
        }
        k = k + 1;
    }
    None
}

/// Chooses the voice for a new note (see `voice_pick`).
pub fn pick_voice(states: &[VoiceState], max_voices: usize) -> (r: VoicePick)
    ensures
        r == voice_pick(states@, max_voices as int),
{
    match first_state_exec(states, true) {
        Some(i) => VoicePick::Free(i),
        None => if states.len() < max_voices {
            VoicePick::Add
        } else {
            match first_state_exec(states, false) {
                Some(i) => VoicePick::Steal(i),
                None => VoicePick::NoVoice,
            }
        },
    }
}

/// The number of sounding voices.
pub fn active_count(states: &[VoiceState]) -> (r: usize)
    ensures
        r == sounding(states@),
{
    let n = states.len();
    let mut c: usize = 0;
    let mut k: usize = 0;
    while k < n
        invariant
            0 <= k <= n,
            n == states@.len(),
            c == sounding(states@.take(k as int)),
            c <= k,
        decreases n - k,
    {
        assert(states@.take(k + 1).drop_last() =~= states@.take(k as int));
        if states[k] != VoiceState::Off {
            c = c + 1;
        }
        k = k + 1;
    }
    assert(states@.take(n as int) =~= states@);
    c
}

/// The voices a note-off releases: every voice that is not silent (the
/// note-off does not look at the channel or the key).
pub open spec fn note_off_mask(states: Seq<VoiceState>) -> Seq<bool> {
    states.map_values(|st: VoiceState| st != VoiceState::Off)
}

/// For each voice, whether a note-off releases it (see `note_off_mask`).
pub fn note_off_voices(states: &[VoiceState]) -> (r: Vec<bool>)
    ensures
        r@ == note_off_mask(states@),
{
    let n = states.len();
    let mut r: Vec<bool> = Vec::new();
    let mut k: usize = 0;
    while k < n
        invariant
            0 <= k <= n,
            n == states@.len(),
            r@ == note_off_mask(states@.take(k as int)),
        decreases n - k,
    {
        r.push(states[k] != VoiceState::Off);
        k = k + 1;
        assert(note_off_mask(states@.take(k as int)) =~= r@);
    }
    assert(states@.take(n as int) =~= states@);
    r
}

/// A pending registered or non-registered parameter number: the next
/// controller change is taken as its data.
#[derive(Debug, Clone, Copy, PartialEq, Eq, Structural)]
pub enum RpnState {
    /// No parameter pending.
    Idle,
    Rpn(u16),
    Nrpn(u16),
}

/// The controller state of a MIDI channel.
#[derive(Debug, Clone, Copy, PartialEq, Eq, Structural)]
pub struct ChannelState {
    pub program: u8,
    pub bank: u16,
    pub volume: u8,
    pub pan: u8,
    pub expression: u8,
    /// Bend from the center (-8192..8191).
    pub pitch_bend: i16,
    /// Bend range in semitones.
    pub pitch_bend_sens: u8,
    pub modulation: u8,
    pub portamento_time: u8,
    pub portamento_on: bool,
    pub portamento_control: u8,
    pub last_note: u8,
    pub reverb_send: u8,
    pub chorus_send: u8,
    pub scale_tune: u8,
    pub rpn_state: RpnState,
    pub vibrato_rate: u8,
    pub vibrato_depth: u8,
    pub vibrato_delay: u8,
    pub filter_cutoff: u8,
    pub filter_resonance: u8,
}

/// The state of a channel after a reset.
pub open spec fn default_channel() -> ChannelState {
    ChannelState {
        program: 0,
        bank: 0,
        volume: 100,
        pan: 64,
        expression: 127,
        pitch_bend: 0,
        pitch_bend_sens: 2,
        modulation: 0,
        portamento_time: 0,
        portamento_on: false,
        portamento_control: 0,
        last_note: 60,
        reverb_send: 40,
        chorus_send: 0,
        scale_tune: 0,
        rpn_state: RpnState::Idle,
        vibrato_rate: 64,
        vibrato_depth: 64,
        vibrato_delay: 64,
        filter_cutoff: 127,
        filter_resonance: 0,
    }
}

impl Default for ChannelState {
    fn default() -> (r: Self)
        ensures
            r == default_channel(),
    {
        ChannelState {
            program: 0,
            bank: 0,
            volume: 100,
            pan: 64,
            expression: 127,
            pitch_bend: 0,
            pitch_bend_sens: 2,
            modulation: 0,
            portamento_time: 0,
            portamento_on: false,
            portamento_control: 0,
            last_note: 60,
            reverb_send: 40,
            chorus_send: 0,
            scale_tune: 0,
            rpn_state: RpnState::Idle,
            vibrato_rate: 64,
            vibrato_depth: 64,
            vibrato_delay: 64,
            filter_cutoff: 127,
            filter_resonance: 0,
        }
    }
}

/// Which effects are on.
#[derive(Debug, Clone, Copy, PartialEq, Eq, Structural)]
pub struct EffectEnable {
    pub reverb: bool,
    pub chorus: bool,
    pub delay: bool,
    pub tremolo: bool,
    pub phaser: bool,
    pub celeste: bool,
}

/// Reverb and chorus on, the others off.
pub open spec fn default_effects() -> EffectEnable {
    EffectEnable { reverb: true, chorus: true, delay: false, tremolo: false, phaser: false, celeste: false }
}

impl Default for EffectEnable {
    fn default() -> (r: Self)
        ensures
            r == default_effects(),
    {
        EffectEnable { reverb: true, chorus: true, delay: false, tremolo: false, phaser: false, celeste: false }
    }
}

/// What the voices and effects are told to do after a controller change.
#[derive(Debug, Clone, Copy, PartialEq, Eq, Structural)]
pub enum SynthAction {
    Nothing,
    /// Release every sounding voice.
    ReleaseAll,
    /// Silence and drop every voice.
    ResetVoices,
    /// Set the filter of the sounding voices (controller values).
    Filter { cutoff: u8, resonance: u8 },
    /// Set the vibrato depth of the sounding voices.
    Vibrato { depth: u8 },
    /// Set the reverb room from a send level.
    Reverb { level: u8 },
    /// Set the tremolo depth.
    Tremolo { depth: u8 },
    /// Set the chorus from a send level.
    Chorus { level: u8 },
    /// Set the celeste detune (64 is none).
    Celeste { value: u8 },
    /// Set the phaser depth.
    Phaser { depth: u8 },
}

/// A controller change on a channel: the channel's new state, the effects
/// switched on or off, and what the voices and effects are told. While a
/// parameter number is pending, the change is its data: data for RPN 0 sets
/// the bend range; the pending number is cleared either way.
pub open spec fn cc_step(ch: ChannelState, e: EffectEnable, controller: u8, v: u8) -> (ChannelState, EffectEnable, SynthAction) {
    match ch.rpn_state {
        RpnState::Rpn(n) => (
            if n == 0 {
                ChannelState { pitch_bend_sens: v, rpn_state: RpnState::Idle, ..ch }
            } else {
                ChannelState { rpn_state: RpnState::Idle, ..ch }
            },
            e,
            SynthAction::Nothing,
        ),
        RpnState::Nrpn(_) => (ChannelState { rpn_state: RpnState::Idle, ..ch }, e, SynthAction::Nothing),
        RpnState::Idle => {
            if controller == 0 {
                (ChannelState { bank: ((ch.bank & 0x7F) | ((v as u16) << 7u16)) as u16, ..ch }, e, SynthAction::Nothing)
            } else if controller == 1 {
                (ChannelState { modulation: v, ..ch }, e, SynthAction::Nothing)
            } else if controller == 5 {
                (ChannelState { portamento_time: v, ..ch }, e, SynthAction::Nothing)
            } else if controller == 7 {
                (ChannelState { volume: v, ..ch }, e, SynthAction::Nothing)
            } else if controller == 10 {
                (ChannelState { pan: v, ..ch }, e, SynthAction::Nothing)
            } else if controller == 11 {
                (ChannelState { expression: v, ..ch }, e, SynthAction::Nothing)
            } else if controller == 32 {
                (ChannelState { bank: ((ch.bank & 0x3F80) | (v as u16)) as u16, ..ch }, e, SynthAction::Nothing)
            } else if controller == 64 {
                (ch, e, if v >= 64 { SynthAction::Nothing } else { SynthAction::ReleaseAll })
            } else if controller == 65 {
                (ChannelState { portamento_on: v >= 64, ..ch }, e, SynthAction::Nothing)
            } else if controller == 71 {
                (
                    ChannelState { filter_resonance: v, ..ch },
                    e,
                    SynthAction::Filter { cutoff: ch.filter_cutoff, resonance: v },
                )
            } else if controller == 74 {
                (
                    ChannelState { filter_cutoff: v, ..ch },
                    e,
                    SynthAction::Filter { cutoff: v, resonance: ch.filter_resonance },
                )
            } else if controller == 76 {
                (ChannelState { vibrato_depth: v, ..ch }, e, SynthAction::Vibrato { depth: v })
            } else if controller == 84 {
                (ChannelState { portamento_control: v, ..ch }, e, SynthAction::Nothing)
            } else if controller == 91 {
                (ChannelState { reverb_send: v, ..ch }, e, SynthAction::Reverb { level: v })
            } else if controller == 92 {
                (ch, EffectEnable { tremolo: v > 0, ..e }, SynthAction::Tremolo { depth: v })
            } else if controller == 93 {
                (ChannelState { chorus_send: v, ..ch }, e, SynthAction::Chorus { level: v })
            } else if controller == 94 {
                (ch, EffectEnable { celeste: v != 64, ..e }, SynthAction::Celeste { value: v })
            } else if controller == 95 {
                (ch, EffectEnable { phaser: v > 0, ..e }, SynthAction::Phaser { depth: v })
            } else if controller == 98 || controller == 99 {
                (ChannelState { rpn_state: RpnState::Nrpn(v as u16), ..ch }, e, SynthAction::Nothing)
            } else if controller == 100 {
                (
                    ChannelState { rpn_state: if v == 127 { RpnState::Idle } else { RpnState::Rpn(v as u16) }, ..ch },
                    e,
                    SynthAction::Nothing,
                )
            } else if controller == 101 {
                (
                    ChannelState {
                        rpn_state: if v == 127 { RpnState::Idle } else { RpnState::Rpn(((v as u16) << 7u16) as u16) },
                        ..ch
                    },
                    e,
                    SynthAction::Nothing,
                )
            } else if controller == 120 {
                (ch, e, SynthAction::ResetVoices)
            } else if controller == 121 {
                (default_channel(), e, SynthAction::Nothing)
            } else if controller == 123 {
                (ch, e, SynthAction::ReleaseAll)
            } else {
                (ch, e, SynthAction::Nothing)
            }
        },
    }
}

/// What a note-on asks of the voices.
#[derive(Debug, Clone, Copy, PartialEq, Eq, Structural)]
pub enum NoteOnChoice {
    /// Velocity 0: release the sounding voices, as a note-off does.
    Release,
    /// Sound the sample at this index.
    Play(usize),
    /// The preset has no zone that sounds this note.
    Silent,
}

/// The first preset at or after `k` with this bank and number.
pub open spec fn find_preset_from(presets: Seq<PresetView>, bank: u16, num: u16, k: int) -> Option<int>
    decreases presets.len() - k,
{
    if k >= presets.len() || k < 0 {
        None
    } else if presets[k].bank == bank && presets[k].preset_num == num {
        Some(k)
    } else {
        find_preset_from(presets, bank, num, k + 1)
    }
}

/// The preset a channel plays: its bank and program; else bank 0 with the
/// program; else its bank with program 0; else bank 128 (drums) with the
/// program.
pub open spec fn channel_preset(presets: Seq<PresetView>, bank: u16, program: u16) -> Option<int> {
    match find_preset_from(presets, bank, program, 0) {
        Some(i) => Some(i),
        None => match find_preset_from(presets, 0, program, 0) {
            Some(i) => Some(i),
            None => match find_preset_from(presets, bank, 0, 0) {
                Some(i) => Some(i),
                None => find_preset_from(presets, 128, program, 0),
            },
        },
    }
}

/// The first instrument zone at or after `k` whose sample index is below
/// `sample_count`.
pub open spec fn first_sample_from(zones: Seq<InstrumentZoneView>, sample_count: int, k: int) -> Option<usize>
    decreases zones.len() - k,
{
    if k >= zones.len() || k < 0 {
        None
    } else {
        match zones[k].sample_index {
            Some(s) => if s < sample_count {
                Some(s)
            } else {
                first_sample_from(zones, sample_count, k + 1)
            },
            None => first_sample_from(zones, sample_count, k + 1),
        }
    }
}

/// Whether a preset zone covers the note and velocity.
pub open spec fn zone_covers(z: PresetZoneView, note: u8, velocity: u8) -> bool {
    z.key_range.0 <= note <= z.key_range.1 && z.velocity_range.0 <= velocity <= z.velocity_range.1
}

/// The sample a note plays from preset zones `k..`: the first zone that
/// covers the note and velocity and points at an instrument with a zone
/// holding a sample gives that zone's sample.
pub open spec fn zone_sample_from(
    zones: Seq<PresetZoneView>,
    instruments: Seq<InstrumentView>,
    sample_count: int,
    note: u8,
    velocity: u8,
    k: int,
) -> Option<usize>
    decreases zones.len() - k,
{
    if k >= zones.len() || k < 0 {
        None
    } else {
        let z = zones[k];
        let here: Option<usize> = if zone_covers(z, note, velocity) {
            match z.instrument_index {
                Some(i) => if i < instruments.len() {
                    first_sample_from(instruments[i as int].zones, sample_count, 0)
                } else {
                    None
                },
                None => None,
            }
        } else {
            None
        };
        match here {
            Some(s) => Some(s),
            None => zone_sample_from(zones, instruments, sample_count, note, velocity, k + 1),
        }
    }
}

/// A note sounds only a sample of a preset zone that covers it: when the
/// zones from `k` on give a sample, some zone from `k` on has the note in its
/// key range and the velocity in its velocity range, points at an existing
/// instrument, and that instrument has a zone holding the sample, an index
/// below `sample_count`. A zone whose key range lies below or above the note
/// never supplies the sample.
pub proof fn lemma_zone_sample_covers_note(
    zones: Seq<PresetZoneView>,
    instruments: Seq<InstrumentView>,
    sample_count: int,
    note: u8,
    velocity: u8,
    k: int,
)
    requires
        0 <= k,
    ensures
        zone_sample_from(zones, instruments, sample_count, note, velocity, k) matches Some(s) ==> exists|j: int|
            #![trigger zones[j]]
            {
                &&& k <= j < zones.len()
                &&& zones[j].key_range.0 <= note <= zones[j].key_range.1
                &&& zones[j].velocity_range.0 <= velocity <= zones[j].velocity_range.1
                &&& zones[j].instrument_index matches Some(i)
                &&& i < instruments.len()
                &&& exists|m: int|
                    #![trigger instruments[i as int].zones[m]]
                    0 <= m < instruments[i as int].zones.len() && instruments[i as int].zones[m].sample_index
                        == Some(s)
                &&& s < sample_count
            },
    decreases zones.len() - k,
{
    if k < zones.len() {
        lemma_zone_sample_covers_note(zones, instruments, sample_count, note, velocity, k + 1);
        let z = zones[k];
        if zone_covers(z, note, velocity) {
            if let Some(i) = z.instrument_index {
                if i < instruments.len() {
                    lemma_first_sample_in(instruments[i as int].zones, sample_count, 0);
                }
            }
        }
    }
}

proof fn lemma_first_sample_in(zones: Seq<InstrumentZoneView>, sample_count: int, k: int)
    requires
        0 <= k,
    ensures
        first_sample_from(zones, sample_count, k) matches Some(s) ==> s < sample_count && exists|m: int|
            #![trigger zones[m]]
            k <= m < zones.len() && zones[m].sample_index == Some(s),
    decreases zones.len() - k,
{
    if k < zones.len() {
        lemma_first_sample_in(zones, sample_count, k + 1);
    }
}

/// The text of the error for values out of range.
pub open spec fn invalid_parameter() -> Seq<char> {
    "Invalid parameter"@
}

/// The channel controls of the synthesizer: one state per MIDI channel and
/// the effect switches.
pub struct ChannelControls {
    pub channels: Vec<ChannelState>,
    pub effects: EffectEnable,
}

impl ChannelControls {
    /// Sixteen channels.
    pub open spec fn wf(&self) -> bool {
        self.channels@.len() == 16
    }

    /// All channels and effects as after a start.
    pub fn new() -> (r: ChannelControls)
        ensures
            r.wf(),
            forall|c: int| 0 <= c < 16 ==> r.channels@[c] == default_channel(),
            r.effects == default_effects(),
    {
        let mut channels: Vec<ChannelState> = Vec::new();
        let mut k: usize = 0;
        while k < 16
            invariant
                0 <= k <= 16,
                channels@.len() == k,
                forall|c: int| 0 <= c < k ==> channels@[c] == default_channel(),
            decreases 16 - k,
        {
            channels.push(ChannelState::default());
            k = k + 1;
        }
        ChannelControls { channels, effects: EffectEnable::default() }
    }

    /// The state of channel `c`.
    pub fn channel(&self, c: usize) -> (r: ChannelState)
        requires
            self.wf(),
            c < 16,
        ensures
            r == self.channels@[c as int],
    {
        self.channels[c]
    }

    /// A controller change (see `cc_step`); values out of the MIDI ranges
    /// are refused and change nothing.
    pub fn cc(&mut self, channel: u32, controller: u32, value: u32) -> (r: Result<SynthAction, String>)
        requires
            old(self).wf(),
        ensures
            final(self).wf(),
            channel >= 16 || controller > 127 || value > 127 ==> (r matches Err(s) && s@ == invalid_parameter())
                && *final(self) == *old(self),
            channel < 16 && controller <= 127 && value <= 127 ==> {
                let step = cc_step(old(self).channels@[channel as int], old(self).effects, controller as u8, value as u8);
                &&& r == Ok::<SynthAction, String>(step.2)
                &&& final(self).channels@ == old(self).channels@.update(channel as int, step.0)
                &&& final(self).effects == step.1
            },
    {
        if channel >= 16 || controller > 127 || value > 127 {
            return Err("Invalid parameter".to_owned());
        }
        let c = channel as usize;
        let controller = controller as u8;
        let value = value as u8;
        let mut ch = self.channels[c];
        let mut e = self.effects;
        let mut action = SynthAction::Nothing;
        match ch.rpn_state {
            RpnState::Rpn(rpn) => {
                if rpn == 0 {
                    ch.pitch_bend_sens = value;
                }
                ch.rpn_state = RpnState::Idle;
            },
            RpnState::Nrpn(_) => {
                ch.rpn_state = RpnState::Idle;
            },
            RpnState::Idle => {
                match controller {
                    0 => {
                        ch.bank = (ch.bank & 0x7F) | ((value as u16) << 7u16);
                    },
                    1 => {
                        ch.modulation = value;
                    },
                    5 => {
                        ch.portamento_time = value;
                    },
                    7 => {
                        ch.volume = value;
                    },
                    10 => {
                        ch.pan = value;
                    },
                    11 => {
                        ch.expression = value;
                    },
                    32 => {
                        ch.bank = (ch.bank & 0x3F80) | (value as u16);
                    },
                    64 => {
                        if value < 64 {
                            action = SynthAction::ReleaseAll;
                        }
                    },
                    65 => {
                        ch.portamento_on = value >= 64;
                    },
                    71 => {
                        ch.filter_resonance = value;
                        action = SynthAction::Filter { cutoff: ch.filter_cutoff, resonance: value };
                    },
                    74 => {
                        ch.filter_cutoff = value;
                        action = SynthAction::Filter { cutoff: value, resonance: ch.filter_resonance };
                    },
                    76 => {
                        ch.vibrato_depth = value;
                        action = SynthAction::Vibrato { depth: value };
                    },
                    84 => {
                        ch.portamento_control = value;
                    },
                    91 => {
                        ch.reverb_send = value;
                        action = SynthAction::Reverb { level: value };
                    },
                    92 => {
                        e.tremolo = value > 0;
                        action = SynthAction::Tremolo { depth: value };
                    },
                    93 => {
                        ch.chorus_send = value;
                        action = SynthAction::Chorus { level: value };
                    },
                    94 => {
                        e.celeste = value != 64;
                        action = SynthAction::Celeste { value };
                    },
                    95 => {
                        e.phaser = value > 0;
                        action = SynthAction::Phaser { depth: value };
                    },
                    98 => {
                        ch.rpn_state = RpnState::Nrpn(value as u16);
                    },
                    99 => {
                        ch.rpn_state = RpnState::Nrpn(value as u16);
                    },
                    100 => {
                        if value == 127 {
                            ch.rpn_state = RpnState::Idle;
                        } else {
                            ch.rpn_state = RpnState::Rpn(value as u16);
                        }
                    },
                    101 => {
                        if value == 127 {
                            ch.rpn_state = RpnState::Idle;
                        } else {
                            ch.rpn_state = RpnState::Rpn((value as u16) << 7u16);
                        }
                    },
                    120 => {
                        action = SynthAction::ResetVoices;
                    },
                    121 => {
                        ch = ChannelState::default();
                    },
                    123 => {
                        action = SynthAction::ReleaseAll;
                    },
                    _ => {},
                }
            },
        }
        self.channels.set(c, ch);
        self.effects = e;
        Ok(action)
    }

    /// Sets a channel's program (0..127).
    pub fn program_change(&mut self, channel: u32, program: u32) -> (r: Result<(), String>)
        requires
            old(self).wf(),
        ensures
            final(self).wf(),
            channel >= 16 || program > 127 ==> (r matches Err(s) && s@ == invalid_parameter()) && *final(self)
                == *old(self),
            channel < 16 && program <= 127 ==> r is Ok && final(self).effects == old(self).effects
                && final(self).channels@ == old(self).channels@.update(
                channel as int,
                ChannelState { program: program as u8, ..old(self).channels@[channel as int] },
            ),
    {
        if channel >= 16 || program > 127 {
            return Err("Invalid parameter".to_owned());
        }
        let c = channel as usize;
        let mut ch = self.channels[c];
        ch.program = program as u8;
        self.channels.set(c, ch);
        Ok(())
    }

    /// Sets a channel's pitch bend from a 14-bit value (8192 is the center).
    pub fn pitch_bend(&mut self, channel: u32, value: u32) -> (r: Result<(), String>)
        requires
            old(self).wf(),
        ensures
            final(self).wf(),
            channel >= 16 || value > 16383 ==> (r matches Err(s) && s@ == invalid_parameter()) && *final(self)
                == *old(self),
            channel < 16 && value <= 16383 ==> r is Ok && final(self).effects == old(self).effects
                && final(self).channels@ == old(self).channels@.update(
                channel as int,
                ChannelState { pitch_bend: (value - 8192) as i16, ..old(self).channels@[channel as int] },
            ),
    {
        if channel >= 16 || value > 16383 {
            return Err("Invalid parameter".to_owned());
        }
        let c = channel as usize;
        let mut ch = self.channels[c];
        ch.pitch_bend = (value as i32 - 8192) as i16;
        self.channels.set(c, ch);
        Ok(())
    }

    /// Sets a channel's bend range in semitones (0..24).
    pub fn pitch_wheel_sens(&mut self, channel: u32, value: u32) -> (r: Result<(), String>)
        requires
            old(self).wf(),
        ensures
            final(self).wf(),
            channel >= 16 || value > 24 ==> (r matches Err(s) && s@ == invalid_parameter()) && *final(self)
                == *old(self),
            channel < 16 && value <= 24 ==> r is Ok && final(self).effects == old(self).effects
                && final(self).channels@ == old(self).channels@.update(
                channel as int,
                ChannelState { pitch_bend_sens: value as u8, ..old(self).channels@[channel as int] },
            ),
    {
        if channel >= 16 || value > 24 {
            return Err("Invalid parameter".to_owned());
        }
        let c = channel as usize;
        let mut ch = self.channels[c];
        ch.pitch_bend_sens = value as u8;
        self.channels.set(c, ch);
        Ok(())
    }

    /// Sets a channel's bank (0..16383).
    pub fn bank_select(&mut self, channel: u32, bank: u32) -> (r: Result<(), String>)
        requires
            old(self).wf(),
        ensures
            final(self).wf(),
            channel >= 16 || bank > 16383 ==> (r matches Err(s) && s@ == invalid_parameter()) && *final(self)
                == *old(self),
            channel < 16 && bank <= 16383 ==> r is Ok && final(self).effects == old(self).effects
                && final(self).channels@ == old(self).channels@.update(
                channel as int,
                ChannelState { bank: bank as u16, ..old(self).channels@[channel as int] },
            ),
    {
        if channel >= 16 || bank > 16383 {
            return Err("Invalid parameter".to_owned());
        }
        let c = channel as usize;
        let mut ch = self.channels[c];
        ch.bank = bank as u16;
        self.channels.set(c, ch);
        Ok(())
    }

    /// Resets every channel; the effect switches stay.
    pub fn system_reset(&mut self)
        requires
            old(self).wf(),
        ensures
            final(self).wf(),
            forall|c: int| 0 <= c < 16 ==> final(self).channels@[c] == default_channel(),
            final(self).effects == old(self).effects,
    {
        let mut k: usize = 0;
        while k < 16
            invariant
                0 <= k <= 16,
                self.channels@.len() == 16,
                self.effects == old(self).effects,
                forall|c: int| 0 <= c < k ==> self.channels@[c] == default_channel(),
            decreases 16 - k,
        {
            self.channels.set(k, ChannelState::default());
            k = k + 1;
        }
    }

    /// Checks a note-off; the voices it releases are those of `note_off_voices`.
    pub fn note_off(&self, channel: u32, note: u32) -> (r: Result<(), String>)
        ensures
            channel >= 16 || note > 127 ==> (r matches Err(s) && s@ == invalid_parameter()),
            channel < 16 && note <= 127 ==> r is Ok,
    {
        if channel >= 16 || note > 127 {
            return Err("Invalid parameter".to_owned());
        }
        Ok(())
    }

    /// Switches reverb, chorus and delay.
    pub fn enable_effect(&mut self, reverb: bool, chorus: bool, delay: bool)
        ensures
            final(self).channels == old(self).channels,
            final(self).effects == (EffectEnable { reverb, chorus, delay, ..old(self).effects }),
    {
        self.effects.reverb = reverb;
        self.effects.chorus = chorus;
        self.effects.delay = delay;
    }

    pub fn enable_tremolo(&mut self, on: bool)
        ensures
            final(self).channels == old(self).channels,
            final(self).effects == (EffectEnable { tremolo: on, ..old(self).effects }),
    {
        self.effects.tremolo = on;
    }

    pub fn enable_phaser(&mut self, on: bool)
        ensures
            final(self).channels == old(self).channels,
            final(self).effects == (EffectEnable { phaser: on, ..old(self).effects }),
    {
        self.effects.phaser = on;
    }

    pub fn enable_celeste(&mut self, on: bool)
        ensures
            final(self).channels == old(self).channels,
            final(self).effects == (EffectEnable { celeste: on, ..old(self).effects }),
    {
        self.effects.celeste = on;
    }
}

fn find_preset(presets: &Vec<Preset>, bank: u16, num: u16) -> (r: Option<usize>)
    ensures
        match r {
            Some(i) => find_preset_from(presets@.map_values(|p: Preset| p@), bank, num, 0) == Some(i as int)
                && i < presets@.len(),
            None => find_preset_from(presets@.map_values(|p: Preset| p@), bank, num, 0) is None,
        },
{
    let ghost ps = presets@.map_values(|p: Preset| p@);
    let n = presets.len();
    let mut k: usize = 0;
    while k < n
        invariant
            0 <= k <= n,
            n == presets@.len(),
            ps == presets@.map_values(|p: Preset| p@),
            find_preset_from(ps, bank, num, 0) == find_preset_from(ps, bank, num, k as int),
        decreases n - k,
    {
        if presets[k].bank == bank && presets[k].preset_num == num {
            return Some(k);
        }
        k = k + 1;
    }
    None
}

fn first_sample(zones: &Vec<InstrumentZone>, sample_count: usize) -> (r: Option<usize>)
    ensures
        r == first_sample_from(zones@.map_values(|z: InstrumentZone| z@), sample_count as int, 0),
{
    let ghost zs = zones@.map_values(|z: InstrumentZone| z@);
    let n = zones.len();
    let mut k: usize = 0;
    while k < n
        invariant
            0 <= k <= n,
            n == zones@.len(),
            zs == zones@.map_values(|z: InstrumentZone| z@),
            first_sample_from(zs, sample_count as int, 0) == first_sample_from(zs, sample_count as int, k as int),
        decreases n - k,
    {
        match zones[k].sample_index {
            Some(s) => if s < sample_count {
                return Some(s);
            },
            None => {},
        }
        k = k + 1;
    }
    None
}

fn zone_sample(
    zones: &Vec<PresetZone>,
    instruments: &Vec<Instrument>,
    sample_count: usize,
    note: u8,
    velocity: u8,
) -> (r: Option<usize>)
    ensures
        r == zone_sample_from(
            zones@.map_values(|z: PresetZone| z@),
            instruments@.map_values(|i: Instrument| i@),
            sample_count as int,
            note,
            velocity,
            0,
        ),
{
    let ghost zs = zones@.map_values(|z: PresetZone| z@);
    let ghost is = instruments@.map_values(|i: Instrument| i@);
    let n = zones.len();
    let mut k: usize = 0;
    while k < n
        invariant
            0 <= k <= n,
            n == zones@.len(),
            zs == zones@.map_values(|z: PresetZone| z@),
            is == instruments@.map_values(|i: Instrument| i@),
            zone_sample_from(zs, is, sample_count as int, note, velocity, 0) == zone_sample_from(
                zs,
                is,
                sample_count as int,
                note,
                velocity,
                k as int,
            ),
        decreases n - k,
    {
        let z = &zones[k];
        if note >= z.key_range.0 && note <= z.key_range.1 && velocity >= z.velocity_range.0 && velocity
            <= z.velocity_range.1 {
            match z.instrument_index {
                Some(i) => if i < instruments.len() {
                    match first_sample(&instruments[i].zones, sample_count) {
                        Some(s) => {
                            return Some(s);
                        },
                        None => {},
                    }
                },
                None => {},
            }
        }
        k = k + 1;
    }
    None
}

/// The text of the error for a note-on without a SoundFont.
pub open spec fn no_soundfont() -> Seq<char> {
    "No soundfont loaded"@
}

/// The text of the error for a channel whose preset the SoundFont lacks.
pub open spec fn preset_not_found() -> Seq<char> {
    "Preset not found"@
}

impl ChannelControls {
    /// What a note-on on `channel` asks: velocity 0 releases like a
    /// note-off; otherwise the channel's preset (see `channel_preset`) gives
    /// the sample to sound (see `zone_sample_from`).
    pub fn note_on(&self, sf: Option<&Sf2File>, channel: u32, note: u32, velocity: u32) -> (r: Result<
        NoteOnChoice,
        String,
    >)
        requires
            self.wf(),
        ensures
            channel >= 16 || note > 127 || velocity > 127 ==> (r matches Err(s) && s@ == invalid_parameter()),
            channel < 16 && note <= 127 && velocity == 0 ==> r == Ok::<NoteOnChoice, String>(NoteOnChoice::Release),
            channel < 16 && note <= 127 && 0 < velocity <= 127 ==> match sf {
                None => (r matches Err(s) && s@ == no_soundfont()),
                Some(f) => {
                    let ch = self.channels@[channel as int];
                    match channel_preset(f@.presets, ch.bank, ch.program as u16) {
                        None => (r matches Err(s) && s@ == preset_not_found()),
                        Some(p) => r == Ok::<NoteOnChoice, String>(
                            match zone_sample_from(
                                f@.presets[p].zones,
                                f@.instruments,
                                f@.samples.len() as int,
                                note as u8,
                                velocity as u8,
                                0,
                            ) {
                                Some(s) => NoteOnChoice::Play(s),
                                None => NoteOnChoice::Silent,
                            },
                        ),
                    }
                },
            },
    {
        if channel >= 16 || note > 127 || velocity > 127 {
            return Err("Invalid parameter".to_owned());
        }
        if velocity == 0 {
            return Ok(NoteOnChoice::Release);
        }
        let f = match sf {
            Some(f) => f,
            None => return Err("No soundfont loaded".to_owned()),
        };
        let ch = self.channels[channel as usize];
        let bank = ch.bank;
        let program = ch.program as u16;
        let found = match find_preset(&f.presets, bank, program) {
            Some(i) => Some(i),
            None => match find_preset(&f.presets, 0, program) {
                Some(i) => Some(i),
                None => match find_preset(&f.presets, bank, 0) {
                    Some(i) => Some(i),
                    None => find_preset(&f.presets, 128, program),
                },
            },
        };
        let p = match found {
            Some(p) => p,
            None => return Err("Preset not found".to_owned()),
        };
        let preset = &f.presets[p];
        assert(f@.presets[p as int] == preset@);
        match zone_sample(&preset.zones, &f.instruments, f.samples.len(), note as u8, velocity as u8) {
            Some(s) => Ok(NoteOnChoice::Play(s)),
            None => Ok(NoteOnChoice::Silent),
        }
    }
}

/// Receives the synthesizer's log messages.
pub struct HibikiLogger;

impl HibikiLogger {
    /// A logger for `_callback`; the synthesizer sends it no messages.
    pub fn new<F>(_callback: F) -> (r: Self) where F: Fn(u32, &str) + Send + 'static {
        HibikiLogger
    }
}

/// Log levels: panic.
pub const LOG_PANIC: u32 = 1;
/// Log levels: error.
pub const LOG_ERROR: u32 = 2;
/// Log levels: warning.
pub const LOG_WARNING: u32 = 3;
/// Log levels: information.
pub const LOG_INFO: u32 = 4;
/// Log levels: debugging.
pub const LOG_DEBUG: u32 = 5;

/// Chooses the levels that reach the handler; the synthesizer logs
/// nothing, so this has no effect.
pub fn set_log_levels(_levels: &[u32], _handler: HibikiLogger) {
}

/// Bank select: an MSB (controller 0) and then an LSB (controller 32) set
/// the bank to `msb * 128 + lsb`, whatever the bank was.
pub proof fn lemma_bank_select_msb_lsb(ch: ChannelState, e: EffectEnable, msb: u8, lsb: u8)
    requires
        ch.rpn_state == RpnState::Idle,
        msb <= 127,
        lsb <= 127,
    ensures
        cc_step(cc_step(ch, e, 0, msb).0, cc_step(ch, e, 0, msb).1, 32, lsb).0.bank == msb * 128 + lsb,
{
    let b = ch.bank;
    let b1 = ((b & 0x7F) | ((msb as u16) << 7u16)) as u16;
    assert(b1 == ((b & 0x7F) | ((msb as u16) << 7u16)));
    assert((((b & 0x7F) | ((msb as u16) << 7u16)) & 0x3F80) | (lsb as u16) == (msb as u16) * 128 + (lsb as u16))
        by (bit_vector)
        requires
            msb <= 127,
            lsb <= 127,
    ;
}

/// The voice chosen for a note is a silent voice, a new one only while
/// fewer than `max_voices` exist, or a sustaining or decaying voice; a
/// sounding voice is taken only when no silent one exists and the maximum is
/// reached.
pub proof fn lemma_voice_pick_valid(states: Seq<VoiceState>, max_voices: int)
    requires
        states.len() <= usize::MAX,
    ensures
        voice_pick(states, max_voices) matches VoicePick::Free(i) ==> i < states.len() && states[i as int]
            == VoiceState::Off,
        voice_pick(states, max_voices) is Add ==> states.len() < max_voices,
        voice_pick(states, max_voices) matches VoicePick::Steal(i) ==> i < states.len() && states.len()
            >= max_voices && (states[i as int] == VoiceState::Sustain || states[i as int] == VoiceState::Decay)
            && forall|j: int| 0 <= j < states.len() ==> states[j] != VoiceState::Off,
{
    lemma_first_state(states, 0, true);
    lemma_first_state(states, 0, false);
}

proof fn lemma_first_state(states: Seq<VoiceState>, k: int, off: bool)
    requires
        0 <= k,
    ensures
        first_state(states, k, off) matches Some(i) ==> k <= i < states.len() && ((off && states[i]
            == VoiceState::Off) || (!off && (states[i] == VoiceState::Sustain || states[i] == VoiceState::Decay))),
        first_state(states, k, off) is None ==> forall|j: int|
            k <= j < states.len() ==> !((off && states[j] == VoiceState::Off) || (!off && (states[j]
                == VoiceState::Sustain || states[j] == VoiceState::Decay))),
    decreases states.len() - k,
{
    if k < states.len() {
        lemma_first_state(states, k + 1, off);
    }
}

} // verus!
