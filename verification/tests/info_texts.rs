use mimi_engine::engine_info::get_engine_info;
use mimi_engine::sfinfo::{parse_sf2_info, SfInfoError, SoundFontInfo};

fn chunk(id: &[u8; 4], data: &[u8]) -> Vec<u8> {
    let mut v = id.to_vec();
    v.extend_from_slice(&(data.len() as u32).to_le_bytes());
    v.extend_from_slice(data);
    if data.len() % 2 == 1 {
        v.push(0);
    }
    v
}

fn font(first: Vec<u8>) -> Vec<u8> {
    let mut v = b"RIFF\0\0\0\0sfbk".to_vec();
    v.extend(first);
    v
}

#[test]
fn engine_info_names_the_first_author() {
    let i = get_engine_info("0.1.0", "Alice <a@x>, Bob", "MIT");
    assert_eq!(i.name, "MimiEngine");
    assert_eq!(i.version, "0.1.0");
    assert_eq!(i.author, "Alice <a@x>");
    assert_eq!(i.license, "MIT");
    assert_eq!(get_engine_info("1", "Solo", "").author, "Solo");
    assert_eq!(get_engine_info("1", "", "").author, "");
}

#[test]
fn info_texts_are_read_by_code() {
    let mut d = b"INFO".to_vec();
    d.extend(chunk(b"ifil", &[2, 0, 1, 0]));
    d.extend(chunk(b"INAM", b"Test\0\0"));
    d.extend(chunk(b"IENG", b"Me\0"));
    d.extend(chunk(b"ICOP", b"(c) 2020"));
    d.extend(chunk(b"ISFT", b"Tool"));
    let data = font(chunk(b"LIST", &d));
    let info = parse_sf2_info(&data).unwrap();
    assert_eq!(info.target.as_deref(), Some("Test"));
    assert_eq!(info.author.as_deref(), Some("Me"));
    assert_eq!(info.copyright.as_deref(), Some("(c) 2020"));
    assert_eq!(info.tool.as_deref(), Some("Tool"));
    assert_eq!(info.version, None);
    assert_eq!(info.comments, None);
    assert_eq!(info.created, None);
}

#[test]
fn a_first_chunk_that_is_no_info_list_gives_no_texts() {
    let data = font(chunk(b"LIST", b"sdta"));
    let info = parse_sf2_info(&data).unwrap();
    assert!(info.target.is_none() && info.author.is_none());
    let data2 = font(chunk(b"JUNK", b"abcd"));
    assert!(parse_sf2_info(&data2).unwrap().tool.is_none());
    let d = SoundFontInfo::default();
    assert!(d.version.is_none() && d.copyright.is_none());
}

#[test]
fn a_cut_file_is_unexpected_eof() {
    assert_eq!(parse_sf2_info(b"RIFF").unwrap_err(), SfInfoError::UnexpectedEof);
    let mut d = b"INFO".to_vec();
    d.extend(chunk(b"INAM", b"Test"));
    let mut data = font(chunk(b"LIST", &d));
    data.truncate(data.len() - 2);
    assert_eq!(parse_sf2_info(&data).unwrap_err(), SfInfoError::UnexpectedEof);
}
