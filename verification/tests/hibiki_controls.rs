use mimi_engine::hibiki::{
    active_count, note_off_voices, pick_voice, ChannelControls, ChannelState, EffectEnable, NoteOnChoice, RpnState,
    SynthAction, VoicePick, VoiceState, HibikiLogger, set_log_levels,
};
use mimi_engine::sf2::parser::Sf2Parser;

fn chunk(id: &[u8; 4], data: &[u8]) -> Vec<u8> {
    let mut v = id.to_vec();
    v.extend_from_slice(&(data.len() as u32).to_le_bytes());
    v.extend_from_slice(data);
    if data.len() % 2 == 1 {
        v.push(0);
    }
    v
}

fn name20(s: &str) -> Vec<u8> {
    let mut v = s.as_bytes().to_vec();
    v.resize(20, 0);
    v
}

fn phdr_rec(name: &str, preset: u16, bank: u16, bag: u16) -> Vec<u8> {
    let mut v = name20(name);
    v.extend_from_slice(&preset.to_le_bytes());
    v.extend_from_slice(&bank.to_le_bytes());
    v.extend_from_slice(&bag.to_le_bytes());
    v.extend_from_slice(&[0u8; 12]);
    v
}

fn font_with_presets(presets: &[(u16, u16)]) -> Vec<u8> {
    // Every preset has one zone playing instrument 0, whose one zone plays sample 0.
    let mut phdr = Vec::new();
    for (i, (bank, num)) in presets.iter().enumerate() {
        phdr.extend(phdr_rec("P", *num, *bank, i as u16));
    }
    phdr.extend(phdr_rec("EOP", 0xFFFF, 0xFFFF, presets.len() as u16));
    let mut pbag = Vec::new();
    for i in 0..presets.len() {
        pbag.extend_from_slice(&(i as u16).to_le_bytes());
        pbag.extend_from_slice(&[0, 0]);
    }
    let mut pgen = Vec::new();
    for _ in 0..presets.len() {
        pgen.extend_from_slice(&[41, 0, 0, 0]);
    }
    let mut inst = name20("I");
    inst.extend_from_slice(&[0, 0]);
    inst.extend(name20("EOI"));
    inst.extend_from_slice(&[1, 0]);
    let ibag = [1u8, 0, 0, 0, 2, 0, 0, 0];
    let igen = [17u8, 0, 0, 0, 53, 0, 0, 0];
    let mut shdr = name20("S");
    for x in [0u32, 2, 0, 2, 44100] {
        shdr.extend_from_slice(&x.to_le_bytes());
    }
    shdr.extend_from_slice(&[60, 0, 0, 0, 1, 0]);
    shdr.extend(vec![0u8; 46]);
    let mut pd = b"pdta".to_vec();
    for (id, d) in [
        (b"phdr", &phdr[..]),
        (b"pbag", &pbag[..]),
        (b"pgen", &pgen[..]),
        (b"inst", &inst[..]),
        (b"ibag", &ibag[..]),
        (b"igen", &igen[..]),
        (b"shdr", &shdr[..]),
    ] {
        pd.extend(chunk(id, d));
    }
    let mut body = b"sfbk".to_vec();
    body.extend(chunk(b"LIST", &pd));
    chunk(b"RIFF", &body)
}

#[test]
fn controls_start_with_default_channels() {
    let c = ChannelControls::new();
    assert_eq!(c.channels.len(), 16);
    let ch = c.channel(3);
    assert_eq!(ch, ChannelState::default());
    assert_eq!((ch.volume, ch.pan, ch.expression, ch.pitch_bend_sens), (100, 64, 127, 2));
    assert_eq!(ch.rpn_state, RpnState::Idle);
    assert_eq!(c.effects, EffectEnable::default());
    assert!(c.effects.reverb && c.effects.chorus && !c.effects.tremolo);
}

#[test]
fn cc_out_of_range_is_refused() {
    let mut c = ChannelControls::new();
    assert_eq!(c.cc(16, 7, 1).unwrap_err(), "Invalid parameter");
    assert_eq!(c.cc(0, 128, 1).unwrap_err(), "Invalid parameter");
    assert_eq!(c.cc(0, 7, 128).unwrap_err(), "Invalid parameter");
    assert_eq!(c.channel(0).volume, 100);
}

#[test]
fn cc_sets_volume_pan_expression_and_modulation() {
    let mut c = ChannelControls::new();
    assert_eq!(c.cc(2, 7, 90), Ok(SynthAction::Nothing));
    assert_eq!(c.cc(2, 10, 0), Ok(SynthAction::Nothing));
    assert_eq!(c.cc(2, 11, 50), Ok(SynthAction::Nothing));
    assert_eq!(c.cc(2, 1, 33), Ok(SynthAction::Nothing));
    let ch = c.channel(2);
    assert_eq!((ch.volume, ch.pan, ch.expression, ch.modulation), (90, 0, 50, 33));
    assert_eq!(c.channel(1).volume, 100);
}

#[test]
fn bank_select_msb_then_lsb_gives_the_fourteen_bit_bank() {
    let mut c = ChannelControls::new();
    c.bank_select(0, 16383).unwrap();
    c.cc(0, 0, 5).unwrap();
    c.cc(0, 32, 3).unwrap();
    assert_eq!(c.channel(0).bank, 5 * 128 + 3);
    c.cc(0, 0, 1).unwrap();
    assert_eq!(c.channel(0).bank, 128 + 3);
}

#[test]
fn pending_rpn_zero_takes_the_next_change_as_bend_range() {
    let mut c = ChannelControls::new();
    c.cc(0, 101, 0).unwrap();
    assert_eq!(c.channel(0).rpn_state, RpnState::Rpn(0));
    assert_eq!(c.cc(0, 6, 12), Ok(SynthAction::Nothing));
    assert_eq!(c.channel(0).pitch_bend_sens, 12);
    assert_eq!(c.channel(0).rpn_state, RpnState::Idle);
    // the data change is not applied as a controller
    c.cc(0, 101, 0).unwrap();
    c.cc(0, 7, 20).unwrap();
    assert_eq!(c.channel(0).volume, 100);
    assert_eq!(c.channel(0).pitch_bend_sens, 20);
}

#[test]
fn pending_nrpn_is_consumed_without_effect() {
    let mut c = ChannelControls::new();
    c.cc(1, 99, 3).unwrap();
    assert_eq!(c.channel(1).rpn_state, RpnState::Nrpn(3));
    c.cc(1, 7, 10).unwrap();
    assert_eq!(c.channel(1).rpn_state, RpnState::Idle);
    assert_eq!(c.channel(1).volume, 100);
    c.cc(1, 101, 127).unwrap();
    assert_eq!(c.channel(1).rpn_state, RpnState::Idle);
    c.cc(1, 100, 2).unwrap();
    assert_eq!(c.channel(1).rpn_state, RpnState::Rpn(2));
    c.cc(1, 5, 9).unwrap();
    assert_eq!(c.channel(1).pitch_bend_sens, 2);
}

#[test]
fn cc_actions_for_voices_and_effects() {
    let mut c = ChannelControls::new();
    assert_eq!(c.cc(0, 64, 10), Ok(SynthAction::ReleaseAll));
    assert_eq!(c.cc(0, 64, 100), Ok(SynthAction::Nothing));
    assert_eq!(c.cc(0, 123, 0), Ok(SynthAction::ReleaseAll));
    assert_eq!(c.cc(0, 120, 0), Ok(SynthAction::ResetVoices));
    assert_eq!(c.cc(0, 74, 40), Ok(SynthAction::Filter { cutoff: 40, resonance: 0 }));
    assert_eq!(c.cc(0, 71, 9), Ok(SynthAction::Filter { cutoff: 40, resonance: 9 }));
    assert_eq!(c.cc(0, 76, 70), Ok(SynthAction::Vibrato { depth: 70 }));
    assert_eq!(c.cc(0, 91, 30), Ok(SynthAction::Reverb { level: 30 }));
    assert_eq!(c.channel(0).reverb_send, 30);
    assert_eq!(c.cc(0, 93, 20), Ok(SynthAction::Chorus { level: 20 }));
    assert_eq!(c.cc(0, 92, 5), Ok(SynthAction::Tremolo { depth: 5 }));
    assert!(c.effects.tremolo);
    assert_eq!(c.cc(0, 94, 64), Ok(SynthAction::Celeste { value: 64 }));
    assert!(!c.effects.celeste);
    assert_eq!(c.cc(0, 95, 1), Ok(SynthAction::Phaser { depth: 1 }));
    assert!(c.effects.phaser);
    assert_eq!(c.cc(0, 65, 64), Ok(SynthAction::Nothing));
    assert!(c.channel(0).portamento_on);
    assert_eq!(c.cc(0, 121, 0), Ok(SynthAction::Nothing));
    assert_eq!(c.channel(0), ChannelState::default());
}

#[test]
fn program_bend_and_range_setters() {
    let mut c = ChannelControls::new();
    c.program_change(4, 25).unwrap();
    assert_eq!(c.channel(4).program, 25);
    assert_eq!(c.program_change(4, 128).unwrap_err(), "Invalid parameter");
    c.pitch_bend(4, 0).unwrap();
    assert_eq!(c.channel(4).pitch_bend, -8192);
    c.pitch_bend(4, 16383).unwrap();
    assert_eq!(c.channel(4).pitch_bend, 8191);
    assert!(c.pitch_bend(4, 16384).is_err());
    c.pitch_wheel_sens(4, 24).unwrap();
    assert_eq!(c.channel(4).pitch_bend_sens, 24);
    assert!(c.pitch_wheel_sens(4, 25).is_err());
    assert!(c.bank_select(4, 16384).is_err());
    assert!(c.note_off(0, 128).is_err());
    assert!(c.note_off(15, 127).is_ok());
}

#[test]
fn system_reset_restores_every_channel() {
    let mut c = ChannelControls::new();
    c.cc(7, 7, 1).unwrap();
    c.program_change(9, 3).unwrap();
    c.enable_tremolo(true);
    c.system_reset();
    for k in 0..16 {
        assert_eq!(c.channel(k), ChannelState::default());
    }
    assert!(c.effects.tremolo);
    c.enable_effect(false, false, true);
    assert!(!c.effects.reverb && !c.effects.chorus && c.effects.delay);
    c.enable_phaser(true);
    c.enable_celeste(true);
    assert!(c.effects.phaser && c.effects.celeste);
}

#[test]
fn note_on_finds_the_preset_with_fallbacks() {
    let data = font_with_presets(&[(0, 0), (0, 5)]);
    let f = Sf2Parser::parse(&data).unwrap();
    assert_eq!(f.presets.len(), 2);
    let mut c = ChannelControls::new();
    assert_eq!(c.note_on(Some(&f), 0, 60, 100), Ok(NoteOnChoice::Play(0)));
    c.program_change(0, 5).unwrap();
    c.bank_select(0, 3).unwrap();
    // bank 3 program 5 is missing: bank 0 program 5 is used
    assert_eq!(c.note_on(Some(&f), 0, 60, 100), Ok(NoteOnChoice::Play(0)));
    c.program_change(0, 7).unwrap();
    assert_eq!(c.note_on(Some(&f), 0, 60, 100).unwrap_err(), "Preset not found");
    c.bank_select(0, 0).unwrap();
    // bank 0 program 7 is missing: bank 0 program 0 is used
    assert_eq!(c.note_on(Some(&f), 0, 60, 100), Ok(NoteOnChoice::Play(0)));
}

#[test]
fn note_on_edge_cases() {
    let c = ChannelControls::new();
    assert_eq!(c.note_on(None, 0, 60, 0), Ok(NoteOnChoice::Release));
    assert_eq!(c.note_on(None, 0, 60, 1).unwrap_err(), "No soundfont loaded");
    assert_eq!(c.note_on(None, 16, 60, 1).unwrap_err(), "Invalid parameter");
    assert_eq!(c.note_on(None, 0, 128, 1).unwrap_err(), "Invalid parameter");
    let data = font_with_presets(&[(0, 0)]);
    let f = Sf2Parser::parse(&data).unwrap();
    assert_eq!(c.note_on(Some(&f), 0, 60, 127), Ok(NoteOnChoice::Play(0)));
}

#[test]
fn voices_are_reused_added_then_stolen() {
    assert_eq!(pick_voice(&[VoiceState::Attack, VoiceState::Off, VoiceState::Off], 4), VoicePick::Free(1));
    assert_eq!(pick_voice(&[VoiceState::Attack, VoiceState::Release], 4), VoicePick::Add);
    assert_eq!(pick_voice(&[VoiceState::Attack, VoiceState::Release, VoiceState::Sustain, VoiceState::Decay], 4), VoicePick::Steal(2));
    assert_eq!(pick_voice(&[VoiceState::Attack, VoiceState::Release], 2), VoicePick::NoVoice);
    assert_eq!(pick_voice(&[], 0), VoicePick::NoVoice);
    assert_eq!(active_count(&[VoiceState::Attack, VoiceState::Off, VoiceState::Release, VoiceState::Off, VoiceState::Sustain]), 3);
    assert_eq!(active_count(&[]), 0);
}

#[test]
fn logger_accepts_a_callback() {
    let logger = HibikiLogger::new(|_level: u32, _msg: &str| {});
    set_log_levels(&[1, 2, 3], logger);
}

#[test]
fn a_note_off_releases_every_sounding_voice() {
    let states = [VoiceState::Off, VoiceState::Attack, VoiceState::Sustain, VoiceState::Off, VoiceState::Release];
    assert_eq!(note_off_voices(&states), vec![false, true, true, false, true]);
    assert!(note_off_voices(&[]).is_empty());
}
