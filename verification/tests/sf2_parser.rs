use mimi_engine::sf2::parser::{ParseError, Sf2Parser, Cursor, four_cc_to_string};
use mimi_engine::sf2::types::SampleType;

fn chunk(id: &[u8; 4], data: &[u8]) -> Vec<u8> {
    let mut v = id.to_vec();
    v.extend_from_slice(&(data.len() as u32).to_le_bytes());
    v.extend_from_slice(data);
    if data.len() % 2 == 1 {
        v.push(0);
    }
    v
}

fn list(form: &[u8; 4], subs: &[Vec<u8>]) -> Vec<u8> {
    let mut d = form.to_vec();
    for s in subs {
        d.extend_from_slice(s);
    }
    chunk(b"LIST", &d)
}

fn name20(s: &str) -> Vec<u8> {
    let mut v = s.as_bytes().to_vec();
    v.resize(20, 0);
    v
}

fn phdr_rec(name: &str, preset: u16, bank: u16, bag: u16) -> Vec<u8> {
    let mut v = name20(name);
    v.extend_from_slice(&preset.to_le_bytes());
    v.extend_from_slice(&bank.to_le_bytes());
    v.extend_from_slice(&bag.to_le_bytes());
    v.extend_from_slice(&[0u8; 12]);
    v
}

fn inst_rec(name: &str, bag: u16) -> Vec<u8> {
    let mut v = name20(name);
    v.extend_from_slice(&bag.to_le_bytes());
    v
}

fn bag_rec(gen: u16, modu: u16) -> Vec<u8> {
    let mut v = gen.to_le_bytes().to_vec();
    v.extend_from_slice(&modu.to_le_bytes());
    v
}

fn gen_rec(t: u16, lo: u8, hi: u8) -> Vec<u8> {
    let mut v = t.to_le_bytes().to_vec();
    v.push(lo);
    v.push(hi);
    v
}

fn shdr_rec(name: &str, start: u32, end: u32, sl: u32, el: u32, rate: u32, pitch: u8, corr: u8, link: u16, ty: u16) -> Vec<u8> {
    let mut v = name20(name);
    for x in [start, end, sl, el, rate] {
        v.extend_from_slice(&x.to_le_bytes());
    }
    v.push(pitch);
    v.push(corr);
    v.extend_from_slice(&link.to_le_bytes());
    v.extend_from_slice(&ty.to_le_bytes());
    v
}

fn test_font() -> Vec<u8> {
    let info = list(
        b"INFO",
        &[chunk(b"ifil", &[2, 0, 1, 0]), chunk(b"INAM", b"Test\0\0"), chunk(b"isng", b"EMU8000\0")],
    );
    let sdta = list(b"sdta", &[chunk(b"smpl", &[1, 0, 0xFF, 0xFF, 0, 1, 0, 0])]);
    let phdr = [phdr_rec("Piano", 0, 0, 0), phdr_rec("EOP", 0xFFFF, 0xFFFF, 1)].concat();
    let pbag = [bag_rec(0, 0), bag_rec(2, 0)].concat();
    let pgen = [gen_rec(44, 0, 127), gen_rec(41, 0, 0)].concat();
    let inst = [inst_rec("Inst1", 0), inst_rec("EOI", 1)].concat();
    let ibag = [bag_rec(1, 0), bag_rec(3, 0)].concat();
    let igen = [gen_rec(17, 0, 0), gen_rec(44, 36, 96), gen_rec(53, 0, 0)].concat();
    let shdr = [
        shdr_rec("Sine", 0, 4, 1, 3, 22050, 60, 0xFE, 0, 1),
        shdr_rec("EOS", 0, 0, 0, 0, 0, 0, 0, 0, 0),
    ]
    .concat();
    let pdta = list(
        b"pdta",
        &[
            chunk(b"phdr", &phdr),
            chunk(b"pbag", &pbag),
            chunk(b"pgen", &pgen),
            chunk(b"inst", &inst),
            chunk(b"ibag", &ibag),
            chunk(b"igen", &igen),
            chunk(b"shdr", &shdr),
        ],
    );
    let mut body = b"sfbk".to_vec();
    body.extend_from_slice(&info);
    body.extend_from_slice(&sdta);
    body.extend_from_slice(&pdta);
    chunk(b"RIFF", &body)
}

#[test]
fn parse_reads_info_samples_presets_and_instruments() {
    let data = test_font();
    let f = Sf2Parser::parse(&data).expect("the font parses");
    assert_eq!(f.header.name, "Test");
    assert_eq!(f.header.software, "EMU8000");
    assert_eq!(f.header.internal_version, (2, 1));
    assert_eq!(f.header.rom_version, (0, 0));
    assert_eq!(f.header.sample_rate, 44100);
    assert_eq!(*f.smpl_data, vec![1i16, -1, 256, 0]);
    assert_eq!(f.samples.len(), 1);
    let s = &f.samples[0];
    assert_eq!(s.name, "Sine");
    assert_eq!((s.start, s.end, s.start_loop, s.end_loop), (0, 4, 1, 3));
    assert_eq!(s.sample_rate, 22050);
    assert_eq!(s.original_pitch, 60);
    assert_eq!(s.pitch_correction, -2);
    assert_eq!(s.sample_type, SampleType::Mono);
    assert_eq!(f.instruments.len(), 1);
    assert_eq!(f.instruments[0].name, "Inst1");
    assert_eq!(f.instruments[0].zones.len(), 1);
    let z = &f.instruments[0].zones[0];
    assert_eq!(z.sample_index, Some(0));
    assert_eq!(z.key_range, (36, 96));
    assert_eq!(z.velocity_range, (0, 127));
    assert_eq!(f.presets.len(), 1);
    let p = &f.presets[0];
    assert_eq!(p.name, "Piano");
    assert_eq!((p.bank, p.preset_num), (0, 0));
    assert_eq!(p.zones.len(), 1);
    assert_eq!(p.zones[0].instrument_index, Some(0));
    assert_eq!(p.zones[0].key_range, (0, 127));
}

#[test]
fn parse_refuses_a_non_riff_file() {
    let mut data = test_font();
    data[3] = b'X';
    match Sf2Parser::parse(&data) {
        Err(ParseError::InvalidFormat(m)) => assert_eq!(m, "Expected RIFF, got: RIFX"),
        other => panic!("unexpected: {:?}", other.map(|_| ())),
    }
}

#[test]
fn parse_refuses_a_riff_file_of_another_form() {
    let mut data = test_font();
    data[11] = b'x';
    match Sf2Parser::parse(&data) {
        Err(ParseError::InvalidFormat(m)) => assert_eq!(m, "Expected sfbk, got: sfbx"),
        other => panic!("unexpected: {:?}", other.map(|_| ())),
    }
}

#[test]
fn parse_of_a_cut_header_is_an_io_error() {
    assert!(matches!(Sf2Parser::parse(b"RIF"), Err(ParseError::IoError)));
    assert!(matches!(Sf2Parser::parse(b"RIFF\0\0\0\0sf"), Err(ParseError::IoError)));
}

#[test]
fn parse_of_a_cut_hydra_chunk_is_an_io_error() {
    let mut data = test_font();
    data.truncate(data.len() - 10);
    assert!(matches!(Sf2Parser::parse(&data), Err(ParseError::IoError)));
}

#[test]
fn parse_of_an_empty_font_gives_defaults() {
    let data = chunk(b"RIFF", b"sfbk");
    let f = Sf2Parser::parse(&data).expect("parses");
    assert_eq!(f.header.name, "");
    assert_eq!(f.header.sample_rate, 44100);
    assert!(f.smpl_data.is_empty());
    assert!(f.samples.is_empty());
    assert!(f.presets.is_empty());
    assert!(f.instruments.is_empty());
}

#[test]
fn samples_without_headers_cover_all_points() {
    let points = vec![0i16; 10];
    let v = Sf2Parser::parse_shdr_and_samples(&[], &points).unwrap();
    assert_eq!(v.len(), 1);
    assert_eq!(v[0].name, "Default");
    assert_eq!((v[0].start, v[0].end, v[0].end_loop), (0, 10, 10));
    assert_eq!(v[0].original_pitch, 60);
    assert!(Sf2Parser::parse_shdr_and_samples(&[], &Vec::new()).unwrap().is_empty());
}

#[test]
fn a_single_sample_header_is_kept() {
    let shdr = shdr_rec("One", 5, 9, 6, 8, 8000, 69, 3, 0, 0x8004);
    let v = Sf2Parser::parse_shdr_and_samples(&shdr, &Vec::new()).unwrap();
    assert_eq!(v.len(), 1);
    assert_eq!(v[0].sample_type, SampleType::RomLeft);
    assert_eq!(v[0].pitch_correction, 3);
}

#[test]
fn unknown_sample_type_is_mono() {
    let shdr = [shdr_rec("A", 0, 1, 0, 1, 1, 1, 0, 0, 7), shdr_rec("EOS", 0, 0, 0, 0, 0, 0, 0, 0, 0)].concat();
    let v = Sf2Parser::parse_shdr_and_samples(&shdr, &Vec::new()).unwrap();
    assert_eq!(v[0].sample_type, SampleType::Mono);
}

#[test]
fn preset_zone_ignores_instrument_index_out_of_range() {
    let phdr = [phdr_rec("P", 1, 2, 0), phdr_rec("EOP", 0xFFFF, 0xFFFF, 1)].concat();
    let pbag = bag_rec(0, 0);
    let pgen = [gen_rec(41, 5, 0), gen_rec(45, 10, 20)].concat();
    let v = Sf2Parser::parse_presets(&phdr, &pbag, &pgen, 5).unwrap();
    assert_eq!(v.len(), 1);
    assert_eq!((v[0].preset_num, v[0].bank), (1, 2));
    assert_eq!(v[0].zones.len(), 1);
    assert_eq!(v[0].zones[0].instrument_index, None);
    assert_eq!(v[0].zones[0].velocity_range, (10, 20));
    let w = Sf2Parser::parse_presets(&phdr, &pbag, &pgen, 6).unwrap();
    assert_eq!(w[0].zones[0].instrument_index, Some(5));
}

#[test]
fn presets_stop_at_the_closing_record() {
    let phdr = [phdr_rec("A", 0, 0, 0), phdr_rec("EOP", 0xFFFF, 0xFFFF, 0), phdr_rec("B", 1, 0, 0)].concat();
    let v = Sf2Parser::parse_presets(&phdr, &[], &[], 0).unwrap();
    assert_eq!(v.len(), 1);
    assert_eq!(v[0].name, "A");
    assert!(v[0].zones.is_empty());
}

#[test]
fn read_pstring_cuts_at_nul_and_trailing_spaces() {
    let data = b"Hi  \0xyz";
    let mut c = Cursor { data: &data[..], pos: 0 };
    let s = Sf2Parser::read_pstring(&mut c, 8).unwrap();
    assert_eq!(s, "Hi");
    assert_eq!(c.pos, 8);
    let mut c2 = Cursor { data: &data[..], pos: 4 };
    assert!(matches!(Sf2Parser::read_pstring(&mut c2, 8), Err(ParseError::IoError)));
    assert_eq!(c2.pos, 8);
}

#[test]
fn four_cc_text_replaces_invalid_utf8() {
    assert_eq!(four_cc_to_string(b"LIST"), "LIST");
    assert_eq!(four_cc_to_string(&[0x41, 0xFF, 0x42, 0x43]), "A\u{FFFD}BC");
}

#[test]
fn info_chunk_reads_versions_names_and_rate() {
    let data = [
        chunk(b"iver", &[3, 0, 4, 0]),
        chunk(b"irom", b"ROM1"),
        chunk(b"srfo", &48000u32.to_le_bytes()),
    ]
    .concat();
    let mut c = Cursor { data: &data, pos: 0 };
    let h = Sf2Parser::parse_info_chunk(&mut c, data.len() as u32).unwrap();
    assert_eq!(h.rom_version, (3, 4));
    assert_eq!(h.rom_name, "ROM1");
    assert_eq!(h.sample_rate, 48000);
    assert_eq!(h.internal_version, (0, 0));
}

#[test]
fn record_names_are_trimmed_on_both_sides() {
    let shdr = shdr_rec("  Pad ", 0, 1, 0, 1, 1, 1, 0, 0, 1);
    let v = Sf2Parser::parse_shdr_and_samples(&shdr, &Vec::new()).unwrap();
    assert_eq!(v[0].name, "Pad");
}
