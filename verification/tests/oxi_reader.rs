use mimi_engine::sf2_oxi::adapter::{SampleType as AdaptedType, Sf2File};
use mimi_engine::sf2_oxi::error::{Error, MissingChunk};
use mimi_engine::sf2_oxi::raw::is_loadable;
use mimi_engine::sf2_oxi::modulator::{default_modulators, ModulatorTransform};
use mimi_engine::sf2_oxi::records::SampleLink;
use mimi_engine::sf2_oxi::soundfont::{zones_ok, RawSoundFontData, SoundFont2};
use mimi_engine::sf2_oxi::riff::Chunk;

fn chunk(id: &[u8; 4], data: &[u8]) -> Vec<u8> {
    let mut v = id.to_vec();
    v.extend_from_slice(&(data.len() as u32).to_le_bytes());
    v.extend_from_slice(data);
    if data.len() % 2 == 1 {
        v.push(0);
    }
    v
}

fn list(form: &[u8; 4], subs: &[Vec<u8>]) -> Vec<u8> {
    let mut d = form.to_vec();
    for s in subs {
        d.extend_from_slice(s);
    }
    chunk(b"LIST", &d)
}

fn name20(s: &str) -> Vec<u8> {
    let mut v = s.as_bytes().to_vec();
    v.resize(20, 0);
    v
}

fn u16s(xs: &[u16]) -> Vec<u8> {
    xs.iter().flat_map(|x| x.to_le_bytes()).collect()
}

fn phdr(name: &str, preset: u16, bank: u16, bag: u16) -> Vec<u8> {
    let mut v = name20(name);
    v.extend(u16s(&[preset, bank, bag]));
    v.extend_from_slice(&[0u8; 12]);
    v
}

fn inst(name: &str, bag: u16) -> Vec<u8> {
    let mut v = name20(name);
    v.extend(u16s(&[bag]));
    v
}

fn shdr(name: &str, start: u32, end: u32, ty: u16) -> Vec<u8> {
    let mut v = name20(name);
    for x in [start, end, 0, end, 44100] {
        v.extend_from_slice(&x.to_le_bytes());
    }
    v.extend_from_slice(&[60, 0]);
    v.extend(u16s(&[0, ty]));
    v
}

fn font(presets: &[(&str, u16, u16)]) -> Vec<u8> {
    let info = list(b"INFO", &[chunk(b"ifil", &[2, 0, 1, 0]), chunk(b"INAM", b"Bank\0\0")]);
    let sdta = list(b"sdta", &[chunk(b"smpl", &[1, 0, 2, 0])]);
    let mut ph = Vec::new();
    for (i, (n, p, b)) in presets.iter().enumerate() {
        ph.extend(phdr(n, *p, *b, i as u16));
    }
    ph.extend(phdr("EOP", 0, 0, presets.len() as u16));
    let mut pbag = Vec::new();
    let mut pgen = Vec::new();
    for i in 0..presets.len() {
        pbag.extend(u16s(&[(2 * i) as u16, 0]));
        pgen.extend(u16s(&[43]));
        pgen.extend_from_slice(&[0, 127]);
        pgen.extend(u16s(&[41, 0]));
    }
    pbag.extend(u16s(&[(2 * presets.len()) as u16, 0]));
    pgen.extend(u16s(&[0, 0]));
    let pdta = list(
        b"pdta",
        &[
            chunk(b"phdr", &ph),
            chunk(b"pbag", &pbag),
            chunk(b"pmod", &[0u8; 10]),
            chunk(b"pgen", &pgen),
            chunk(b"inst", &[inst("Inst", 0), inst("EOI", 1)].concat()),
            chunk(b"ibag", &u16s(&[0, 0, 3, 0])),
            chunk(b"imod", &[0u8; 10]),
            chunk(b"igen", &[u16s(&[34, (-1200i16) as u16]), u16s(&[44]), vec![10, 100], u16s(&[53, 0]), u16s(&[0, 0])].concat()),
            chunk(b"shdr", &[shdr("Sine", 0, 2, 1), shdr("EOS", 0, 0, 0)].concat()),
        ],
    );
    let mut body = b"sfbk".to_vec();
    body.extend(info);
    body.extend(sdta);
    body.extend(pdta);
    chunk(b"RIFF", &body)
}

#[test]
fn raw_load_reads_the_three_lists() {
    let data = font(&[("Piano", 0, 0)]);
    assert!(is_loadable(&data));
    let raw = RawSoundFontData::load(&data).expect("loads");
    assert_eq!((raw.info.version.major, raw.info.version.minor), (2, 1));
    assert_eq!(raw.info.bank_name, "Bank");
    assert_eq!(raw.hydra.preset_headers.len(), 2);
    assert_eq!(raw.hydra.sample_headers.len(), 2);
    assert_eq!(raw.hydra.sample_headers[0].sample_type, SampleLink::MonoSample);
    let smpl = raw.sample_data.smpl.expect("smpl chunk");
    assert_eq!(smpl.len, 4);
    assert_eq!(&data[smpl.offset as usize..smpl.offset as usize + 4], &[1, 0, 2, 0]);
    assert!(zones_ok(&raw.hydra));
}

#[test]
fn soundfont_drops_terminal_records() {
    let data = font(&[("Piano", 0, 0)]);
    let sf = SoundFont2::load(&data).unwrap();
    assert_eq!(sf.presets.len(), 1);
    assert_eq!(sf.presets[0].header.name, "Piano");
    // the instrument terminal record is only left out when named "EOS"
    assert_eq!(sf.instruments.len(), 2);
    assert_eq!(sf.sample_headers.len(), 1);
    let z = &sf.presets[0].zones[0];
    assert_eq!(z.gen_list.len(), 2);
    assert_eq!(z.instrument().copied(), Some(0));
    assert!(z.key_range().is_none());
    assert!(z.sample().is_none());
    let iz = &sf.instruments[0].zones[0];
    assert_eq!(iz.sample().copied(), Some(0));
    let vr = iz.vel_range().unwrap();
    assert_eq!((vr.low, vr.high), (10, 100));
}

#[test]
fn presets_sort_by_bank_then_program_stably() {
    let data = font(&[("B", 5, 1), ("A", 3, 0), ("C", 1, 1), ("D", 3, 0)]);
    let sf = SoundFont2::load(&data).unwrap().sort_presets();
    let names: Vec<&str> = sf.presets.iter().map(|p| p.header.name.as_str()).collect();
    assert_eq!(names, vec!["A", "D", "C", "B"]);
}

#[test]
fn adapter_keeps_ranges_and_envelope_amounts() {
    let data = font(&[("Piano", 0, 0)]);
    let sf = SoundFont2::load(&data).unwrap();
    let f = Sf2File::from_oxi(sf, Some(vec![1, 0, 0xFF, 0xFF]));
    assert_eq!(f.name, "Bank");
    assert_eq!(*f.smpl_data, vec![1i16, -1]);
    assert_eq!(f.samples.len(), 1);
    assert_eq!(f.samples[0].sample_type, AdaptedType::Mono);
    assert_eq!(f.samples[0].data_slice(&f.smpl_data), &[1i16, -1][..]);
    let z = &f.instruments[0].zones[0];
    assert_eq!(z.sample_index, Some(0));
    assert_eq!(z.key_range, (0, 127));
    assert_eq!(z.velocity_range, (10, 100));
    assert_eq!(z.attack, Some(-1200));
    assert_eq!(z.decay, None);
    assert_eq!(f.presets[0].zones[0].instrument_index, Some(0));
    assert_eq!(f.presets[0].zones[0].key_range, (0, 127));
    let empty = Sf2File::from_oxi(SoundFont2::load(&data).unwrap(), None);
    assert!(empty.smpl_data.is_empty());
}

#[test]
fn missing_lists_are_reported() {
    let mut body = b"sfbk".to_vec();
    let name = [b"Bank".to_vec(), vec![0u8; 36]].concat();
    body.extend(list(b"INFO", &[chunk(b"ifil", &[2, 0, 1, 0]), chunk(b"INAM", &name)]));
    let data = chunk(b"RIFF", &body);
    assert!(is_loadable(&data));
    assert!(matches!(RawSoundFontData::load(&data), Err(Error::MissingChunk(MissingChunk::SampleData))));
    let short = [b"sfbk".to_vec(), list(b"INFO", &[chunk(b"ifil", &[2, 0, 1, 0])])].concat();
    assert!(matches!(RawSoundFontData::load(&chunk(b"RIFF", &short)), Err(Error::Io)));
    let cut = chunk(b"RIFF", b"sfbk");
    assert!(matches!(RawSoundFontData::load(&cut), Err(Error::MissingChunk(MissingChunk::Info))));
    assert!(matches!(RawSoundFontData::load(b"RIFF"), Err(Error::Io)));
}

#[test]
fn an_unknown_root_list_is_an_error() {
    let mut body = b"sfbk".to_vec();
    body.extend(list(b"JUNK", &[]));
    let data = chunk(b"RIFF", &body);
    assert!(is_loadable(&data));
    assert!(matches!(RawSoundFontData::load(&data), Err(Error::UnexpectedMemberOfRoot(_))));
    let mut bad = b"sfbk".to_vec();
    bad.extend(chunk(b"JUNK", b"xx"));
    assert!(!is_loadable(&chunk(b"RIFF", &bad)));
}

#[test]
fn chunk_headers_are_read_in_place() {
    let data = chunk(b"LIST", b"INFOab");
    let c = Chunk::read(&data, 0).unwrap();
    assert_eq!(c.len(), 6);
    assert_eq!(c.content_offset(), 8);
    assert!(c.id().is(76, 73, 83, 84));
    assert!(c.read_type(&data).unwrap().is(73, 78, 70, 79));
    assert_eq!(c.read_contents(&data).unwrap(), b"INFOab".to_vec());
    assert!(matches!(Chunk::read(&data, 10), Err(Error::Io)));
}

#[test]
fn record_names_lose_trailing_spaces() {
    let data = font(&[("Organ   ", 0, 0)]);
    let sf = SoundFont2::load(&data).unwrap();
    assert_eq!(sf.presets[0].header.name, "Organ");
}

#[test]
fn the_default_modulators_are_those_of_the_specification() {
    let m = default_modulators();
    assert_eq!(m.len(), 10);
    let dests: Vec<u16> = m.iter().map(|x| x.destination).collect();
    assert_eq!(dests, vec![48, 8, 6, 6, 48, 17, 48, 16, 15, 59]);
    let amounts: Vec<i16> = m.iter().map(|x| x.amount).collect();
    assert_eq!(amounts, vec![960, -2400, 50, 50, 960, 1000, 960, 200, 200, 12700]);
    assert_eq!(m[0].source.index, 2);
    assert_eq!(m[4].source.index, 7);
    assert_eq!(m[9].amt_source.index, 16);
    assert!(m.iter().all(|x| x.transform == ModulatorTransform::Linear));
}
