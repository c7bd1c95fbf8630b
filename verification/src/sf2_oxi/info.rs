//! The INFO list (version and texts) and the sample-data list of a SoundFont.
use vstd::prelude::*;
use crate::bytes::{le_u16, read_le_u16};
use crate::sf2_oxi::error::{Error, ErrorView, MissingChunk};
use crate::sf2_oxi::riff::{Chunk, ChunkView, ChunkId, Iter, fourcc, file_fits, chunk_at, next_chunk_pos};
use crate::sf2_oxi::utils::{Reader, field_text};

verus! {

/// A format or ROM version.
#[derive(Debug, Clone, Copy, PartialEq, Eq, Structural)]
pub struct Version {
    pub major: u16,
    pub minor: u16,
}

/// The version in the first four bytes of a 32-byte block.
pub open spec fn version_of(b: Seq<u8>) -> Version {
    Version { major: le_u16(b, 0), minor: le_u16(b, 2) }
}

impl Version {
    /// Reads a version from the 32 bytes that start a version chunk.
    pub fn from_bytes(bytes: &[u8]) -> (v: Version)
        requires
            bytes@.len() == 32,
        ensures
            v == version_of(bytes@),
    {
        Version { major: read_le_u16(bytes, 0), minor: read_le_u16(bytes, 2) }
    }
}

/// The INFO list: format version and descriptive texts.
#[derive(Debug, Clone)]
pub struct Info {
    pub version: Version,
    pub sound_engine: String,
    pub bank_name: String,
    pub rom_name: Option<String>,
    pub rom_version: Option<Version>,
    pub creation_date: Option<String>,
    pub engineers: Option<String>,
    pub product: Option<String>,
    pub copyright: Option<String>,
    pub comments: Option<String>,
    pub software: Option<String>,
}

pub open spec fn opt_text(s: Option<String>) -> Option<Seq<char>> {
    match s {
        Some(t) => Some(t@),
        None => None,
    }
}

/// The INFO values read so far: version, ROM version, and the texts in the
/// order isng, INAM, irom, ICRD, IENG, IPRD, ICOP, ICMT, ISFT.
pub struct InfoAcc {
    pub version: Option<Version>,
    pub rom_version: Option<Version>,
    pub texts: Seq<Option<Seq<char>>>,
}

/// Mathematical form of the INFO list.
pub struct InfoView {
    pub version: Version,
    pub rom_version: Option<Version>,
    pub texts: Seq<Option<Seq<char>>>,
}

impl View for Info {
    type V = InfoView;

    open spec fn view(&self) -> InfoView {
        InfoView {
            version: self.version,
            rom_version: self.rom_version,
            texts: seq![
                Some(self.sound_engine@),
                Some(self.bank_name@),
                opt_text(self.rom_name),
                opt_text(self.creation_date),
                opt_text(self.engineers),
                opt_text(self.product),
                opt_text(self.copyright),
                opt_text(self.comments),
                opt_text(self.software),
            ],
        }
    }
}

/// The slot of a text chunk of the INFO list.
pub open spec fn text_slot_of(id: Seq<u8>) -> Option<int> {
    if id == fourcc(105, 115, 110, 103) {
        Some(0)
    } else if id == fourcc(73, 78, 65, 77) {
        Some(1)
    } else if id == fourcc(105, 114, 111, 109) {
        Some(2)
    } else if id == fourcc(73, 67, 82, 68) {
        Some(3)
    } else if id == fourcc(73, 69, 78, 71) {
        Some(4)
    } else if id == fourcc(73, 80, 82, 68) {
        Some(5)
    } else if id == fourcc(73, 67, 79, 80) {
        Some(6)
    } else if id == fourcc(73, 67, 77, 84) {
        Some(7)
    } else if id == fourcc(73, 83, 70, 84) {
        Some(8)
    } else {
        None
    }
}

/// One member of the INFO list: a version chunk reads the 32 bytes at its
/// contents, a text chunk its contents as a text field; any other chunk is
/// an error.
pub open spec fn info_step(acc: InfoAcc, file: Seq<u8>, c: ChunkView) -> Result<InfoAcc, ErrorView> {
    if c.id == fourcc(105, 102, 105, 108) || c.id == fourcc(105, 118, 101, 114) {
        if c.pos + 8 + 32 > file.len() {
            Err(ErrorView::Io)
        } else {
            let v = version_of(file.subrange(c.pos + 8, c.pos + 40));
            if c.id == fourcc(105, 102, 105, 108) {
                Ok(InfoAcc { version: Some(v), ..acc })
            } else {
                Ok(InfoAcc { rom_version: Some(v), ..acc })
            }
        }
    } else {
        match text_slot_of(c.id) {
            None => Err(ErrorView::UnexpectedMemberOfInfo(c)),
            Some(k) => if c.pos + 8 + c.len > file.len() {
                Err(ErrorView::Io)
            } else {
                match field_text(file.subrange(c.pos + 8, c.pos + 8 + c.len)) {
                    None => Err(ErrorView::StringError),
                    Some(t) => Ok(InfoAcc { texts: acc.texts.update(k, Some(t)), ..acc }),
                }
            },
        }
    }
}

/// The members of the INFO list from `cur` to `end`.
pub open spec fn info_fold(file: Seq<u8>, cur: int, end: int, acc: InfoAcc) -> Result<InfoAcc, ErrorView>
    decreases (if cur < end { end - cur } else { 0 }),
{
    if cur >= end {
        Ok(acc)
    } else {
        match chunk_at(file, cur) {
            None => Err(ErrorView::Io),
            Some(c) => match info_step(acc, file, c) {
                Err(e) => Err(e),
                Ok(a) => info_fold(file, next_chunk_pos(cur, c.len as int), end, a),
            },
        }
    }
}

/// Nothing read yet.
pub open spec fn empty_info() -> InfoAcc {
    InfoAcc { version: None, rom_version: None, texts: Seq::new(9, |i: int| None::<Seq<char>>) }
}

/// The outcome of reading an INFO list: the version is required; the engine
/// and bank names default to empty.
pub open spec fn info_result(file: Seq<u8>, info: ChunkView) -> Result<InfoView, ErrorView> {
    match info_fold(file, info.pos + 12, info.pos + 4 + info.len, empty_info()) {
        Err(e) => Err(e),
        Ok(acc) => match acc.version {
            None => Err(ErrorView::MissingChunk(MissingChunk::Version)),
            Some(v) => Ok(
                InfoView {
                    version: v,
                    rom_version: acc.rom_version,
                    texts: acc.texts.update(0, Some(acc.texts[0].unwrap_or(Seq::empty()))).update(
                        1,
                        Some(acc.texts[1].unwrap_or(Seq::empty())),
                    ),
                },
            ),
        },
    }
}

/// A list chunk that the reader can walk: positions stay within 64 bits.
pub open spec fn list_fits(file: Seq<u8>, c: Chunk) -> bool {
    &&& file_fits(file)
    &&& c.pos + 12 + c.len <= u64::MAX
}

/// The list type of a list chunk is `t` whenever it can be read.
pub open spec fn list_type_is(file: Seq<u8>, c: Chunk, t: Seq<u8>) -> bool {
    c.pos + 12 <= file.len() ==> file.subrange(c.pos + 8, c.pos + 12) == t
}

fn text_slot(id: &ChunkId) -> (r: Option<usize>)
    ensures
        match text_slot_of(id.0@) {
            Some(k) => r == Some(k as usize),
            None => r is None,
        },
{
    if id.is(105, 115, 110, 103) {
        Some(0)
    } else if id.is(73, 78, 65, 77) {
        Some(1)
    } else if id.is(105, 114, 111, 109) {
        Some(2)
    } else if id.is(73, 67, 82, 68) {
        Some(3)
    } else if id.is(73, 69, 78, 71) {
        Some(4)
    } else if id.is(73, 80, 82, 68) {
        Some(5)
    } else if id.is(73, 67, 79, 80) {
        Some(6)
    } else if id.is(73, 67, 77, 84) {
        Some(7)
    } else if id.is(73, 83, 70, 84) {
        Some(8)
    } else {
        None
    }
}

fn take_text(texts: &mut Vec<Option<String>>, k: usize) -> (r: Option<String>)
    requires
        k < old(texts)@.len(),
    ensures
        r == old(texts)@[k as int],
        final(texts)@ == old(texts)@.update(k as int, None),
{
    let mut v: Option<String> = None;
    std::mem::swap(&mut v, &mut texts[k]);
    v
}

pub open spec fn texts_view(t: Seq<Option<String>>) -> Seq<Option<Seq<char>>> {
    t.map_values(|x: Option<String>| opt_text(x))
}

impl Info {
    /// Reads an INFO list chunk.
    pub fn read(info: &Chunk, file: &[u8]) -> (r: Result<Info, Error>)
        requires
            info.id.0@ == fourcc(76, 73, 83, 84),
            list_type_is(file@, *info, fourcc(73, 78, 70, 79)),
            list_fits(file@, *info),
        ensures
            info.pos + 12 > file@.len() ==> r matches Err(Error::Io),
            info.pos + 12 <= file@.len() ==> match info_result(file@, info@) {
                Ok(v) => (r matches Ok(x) && x@ == v),
                Err(e) => (r matches Err(x) && x@ == e),
            },
    {
        match info.read_type(file) {
            Ok(_) => {},
            Err(e) => return Err(e),
        }
        let mut version: Option<Version> = None;
        let mut rom_version: Option<Version> = None;
        let mut texts: Vec<Option<String>> = Vec::new();
        let mut z: usize = 0;
        while z < 9
            invariant
                0 <= z <= 9,
                texts_view(texts@) == Seq::new(z as nat, |i: int| None::<Seq<char>>),
            decreases 9 - z,
        {
            let ghost before = texts@;
            texts.push(None);
            proof {
                assert(texts@ =~= before.push(None));
                assert(texts_view(texts@) =~= texts_view(before).push(None));
            }
            z = z + 1;
            assert(texts_view(texts@) =~= Seq::new(z as nat, |i: int| None::<Seq<char>>));
        }
        let ghost goal = info_fold(file@, info.pos + 12, info.pos + 4 + info.len, empty_info());
        let mut iter = info.iter();
        let mut done = false;
        while !done
            invariant
                file_fits(file@),
                texts@.len() == 9,
                iter.end() == info.pos + 4 + info.len,
                goal == info_fold(file@, info.pos + 12, info.pos + 4 + info.len, empty_info()),
                info.pos + 12 <= file@.len(),
                !done ==> goal == info_fold(
                    file@,
                    iter.cur(),
                    iter.end(),
                    InfoAcc { version, rom_version, texts: texts_view(texts@) },
                ),
                done ==> goal == Ok::<InfoAcc, ErrorView>(InfoAcc { version, rom_version, texts: texts_view(texts@) }),
            decreases (if iter.cur() < iter.end() { iter.end() - iter.cur() } else { 0 }), (if done { 0int } else { 1int }),
        {
            let ghost acc = InfoAcc { version, rom_version, texts: texts_view(texts@) };
            let ghost cur = iter.cur();
            match iter.next(file) {
                None => {
                    done = true;
                },
                Some(Err(e)) => {
                    proof {
                        assert(chunk_at(file@, cur) is None);
                        assert(goal == Err::<InfoAcc, ErrorView>(ErrorView::Io));
                    }
                    return Err(e);
                },
                Some(Ok(ch)) => {
                    let id = ch.id();
                    if id.is(105, 102, 105, 108) || id.is(105, 118, 101, 114) {
                        let bytes = match ch.read_to(file, 32) {
                            Ok(b) => b,
                            Err(e) => return Err(e),
                        };
                        let v = Version::from_bytes(bytes.as_slice());
                        if id.is(105, 102, 105, 108) {
                            version = Some(v);
                        } else {
                            rom_version = Some(v);
                        }
                        proof {
                            assert(info_step(acc, file@, ch@) == Ok::<InfoAcc, ErrorView>(
                                InfoAcc { version, rom_version, texts: texts_view(texts@) },
                            ));
                        }
                    } else {
                        match text_slot(&id) {
                            None => return Err(Error::UnexpectedMemberOfInfo(ch)),
                            Some(k) => {
                                let data = match ch.read_contents(file) {
                                    Ok(d) => d,
                                    Err(e) => return Err(e),
                                };
                                let mut reader = Reader::new(data.as_slice());
                                proof {
                                    assert(data@ =~= file@.subrange(ch.pos + 8, ch.pos + 8 + ch.len));
                                    assert(data@.subrange(0, ch.len as int) =~= data@);
                                }
                                let t = match reader.read_string(ch.len() as usize) {
                                    Ok(t) => t,
                                    Err(e) => {
                                        proof {
                                            assert(info_step(acc, file@, ch@) == Err::<InfoAcc, ErrorView>(ErrorView::StringError));
                                        }
                                        return Err(e);
                                    },
                                };
                                let ghost before = texts@;
                                let ghost tv = t@;
                                texts.set(k, Some(t));
                                proof {
                                    assert(texts_view(texts@) =~= texts_view(before).update(k as int, Some(tv)));
                                    assert(data@ =~= file@.subrange(ch.pos + 8, ch.pos + 8 + ch.len));
                                    assert(info_step(acc, file@, ch@) == Ok::<InfoAcc, ErrorView>(
                                        InfoAcc { version, rom_version, texts: texts_view(texts@) },
                                    ));
                                }
                            },
                        }
                    }
                },
            }
        }
        let v = match version {
            Some(v) => v,
            None => return Err(Error::missing(MissingChunk::Version)),
        };
        let ghost tv = texts_view(texts@);
        let ghost t0 = texts@;
        let sound_engine = match take_text(&mut texts, 0) {
            Some(s) => s,
            None => String::new(),
        };
        let bank_name = match take_text(&mut texts, 1) {
            Some(s) => s,
            None => String::new(),
        };
        let rom_name = take_text(&mut texts, 2);
        let creation_date = take_text(&mut texts, 3);
        let engineers = take_text(&mut texts, 4);
        let product = take_text(&mut texts, 5);
        let copyright = take_text(&mut texts, 6);
        let comments = take_text(&mut texts, 7);
        let software = take_text(&mut texts, 8);
        let r = Info {
            version: v,
            sound_engine,
            bank_name,
            rom_name,
            rom_version,
            creation_date,
            engineers,
            product,
            copyright,
            comments,
            software,
        };
        assert(tv[0] == opt_text(t0[0]));
        assert(tv[1] == opt_text(t0[1]));
        assert(tv[2] == opt_text(t0[2]));
        assert(tv[3] == opt_text(t0[3]));
        assert(tv[4] == opt_text(t0[4]));
        assert(tv[5] == opt_text(t0[5]));
        assert(tv[6] == opt_text(t0[6]));
        assert(tv[7] == opt_text(t0[7]));
        assert(tv[8] == opt_text(t0[8]));
        assert(r@.texts =~= tv.update(0, Some(tv[0].unwrap_or(Seq::empty()))).update(
            1,
            Some(tv[1].unwrap_or(Seq::empty())),
        ));
        Ok(r)
    }
}

} // verus!
