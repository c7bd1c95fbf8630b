//! Header records of the hydra: presets (`phdr`), instruments (`inst`),
//! zones (`pbag`, `ibag`) and samples (`shdr`).
use vstd::prelude::*;
use crate::bytes::{le_u16, le_u32, as_i8};
use crate::sf2_oxi::error::Error;
use crate::sf2_oxi::riff::{Chunk, ChunkView, fourcc};
use crate::sf2_oxi::utils::{Reader, name_field, read_name};

verus! {

/// Records `k..n` read by `f`, or the first error among them.
pub open spec fn collect_records<T>(f: spec_fn(int) -> Result<T, Error>, k: int, n: int) -> Result<Seq<T>, Error>
    decreases n - k,
{
    if k >= n {
        Ok(Seq::empty())
    } else {
        match f(k) {
            Err(e) => Err(e),
            Ok(x) => match collect_records(f, k + 1, n) {
                Ok(rest) => Ok(seq![x] + rest),
                Err(e) => Err(e),
            },
        }
    }
}

/// `p` put in front of a successful result.
pub open spec fn prepend_ok<T>(p: Seq<T>, r: Result<Seq<T>, Error>) -> Result<Seq<T>, Error> {
    match r {
        Ok(s) => Ok(p + s),
        Err(e) => Err(e),
    }
}

/// The contents of chunk `c` of the file.
pub open spec fn contents(file: Seq<u8>, c: ChunkView) -> Seq<u8> {
    file.subrange(c.pos + 8, c.pos + 8 + c.len)
}

/// How reading a record chunk can fail before any record is read: a length
/// that is not a non-zero multiple of the record size (error `bad`), or
/// contents beyond the end of the file.
pub open spec fn chunk_shape_error(file: Seq<u8>, c: ChunkView, size: int, bad: Error) -> Option<Error> {
    if (c.len as int) % size != 0 || c.len == 0 {
        Some(bad)
    } else if c.pos + 8 + c.len > file.len() {
        Some(Error::Io)
    } else {
        None
    }
}

proof fn lemma_collect_ok<T>(f: spec_fn(int) -> Result<T, Error>, i: int, n: int, p: Seq<T>, x: T)
    requires
        0 <= i < n,
        f(i) == Ok::<T, Error>(x),
    ensures
        prepend_ok(p, collect_records(f, i, n)) == prepend_ok(p.push(x), collect_records(f, i + 1, n)),
{
    match collect_records(f, i + 1, n) {
        Ok(rest) => {
            assert(p + (seq![x] + rest) =~= p.push(x) + rest);
        },
        Err(e) => {},
    }
}

proof fn lemma_collect_err<T>(f: spec_fn(int) -> Result<T, Error>, i: int, n: int, p: Seq<T>, e: Error)
    requires
        0 <= i < n,
        f(i) == Err::<T, Error>(e),
    ensures
        prepend_ok(p, collect_records(f, i, n)) == Err::<Seq<T>, Error>(e),
{
}

proof fn lemma_record_in_bounds(i: int, amount: int, len: int, size: int)
    by (nonlinear_arith)
    requires
        0 <= i < amount,
        size > 0,
        amount == len / size,
        len % size == 0,
        len >= 0,
    ensures
        size * i + size <= len,
{
}

/// A preset header.
#[derive(Debug, Clone)]
pub struct PresetHeader {
    pub name: String,
    pub preset: u16,
    pub bank: u16,
    pub bag_id: u16,
    pub library: u32,
    pub genre: u32,
    pub morphology: u32,
}

pub struct PresetHeaderView {
    pub name: Seq<char>,
    pub preset: u16,
    pub bank: u16,
    pub bag_id: u16,
    pub library: u32,
    pub genre: u32,
    pub morphology: u32,
}

impl View for PresetHeader {
    type V = PresetHeaderView;

    open spec fn view(&self) -> PresetHeaderView {
        PresetHeaderView {
            name: self.name@,
            preset: self.preset,
            bank: self.bank,
            bag_id: self.bag_id,
            library: self.library,
            genre: self.genre,
            morphology: self.morphology,
        }
    }
}

/// The preset header record at `off` (38 bytes).
pub open spec fn parse_preset_header(b: Seq<u8>, off: int) -> Result<PresetHeaderView, Error> {
    match name_field(b.subrange(off, off + 20)) {
        None => Err(Error::StringError),
        Some(name) => Ok(
            PresetHeaderView {
                name,
                preset: le_u16(b, off + 20),
                bank: le_u16(b, off + 22),
                bag_id: le_u16(b, off + 24),
                library: le_u32(b, off + 26),
                genre: le_u32(b, off + 30),
                morphology: le_u32(b, off + 34),
            },
        ),
    }
}

/// The outcome of reading a `phdr` chunk.
pub open spec fn preset_header_chunk(file: Seq<u8>, c: ChunkView) -> Result<Seq<PresetHeaderView>, Error> {
    match chunk_shape_error(file, c, 38, Error::InvalidPresetChunkSize(c.len)) {
        Some(e) => Err(e),
        None => collect_records(|i: int| parse_preset_header(contents(file, c), 38 * i), 0, (c.len / 38) as int),
    }
}

pub open spec fn views_of_presets(v: Seq<PresetHeader>) -> Seq<PresetHeaderView> {
    v.map_values(|h: PresetHeader| h@)
}

impl PresetHeader {
    /// Reads one preset header record.
    pub fn read(reader: &mut Reader) -> (r: Result<PresetHeader, Error>)
        ensures
            final(reader).data == old(reader).data,
            old(reader).has(38) ==> final(reader).curr == old(reader).curr + 38 && match parse_preset_header(
                old(reader).data@,
                old(reader).curr as int,
            ) {
                Ok(h) => r matches Ok(x) && x@ == h,
                Err(e) => r == Err::<PresetHeader, Error>(e),
            },
            !old(reader).has(38) ==> r matches Err(Error::NumSliceError),
    {
        if reader.curr > reader.data.len() || reader.data.len() - reader.curr < 38 {
            return Err(Error::NumSliceError);
        }
        let ghost start = reader.curr as int;
        let name = match read_name(reader, 20) {
            Ok(s) => s,
            Err(e) => {
                reader.curr = reader.curr + 18;
                return Err(e);
            },
        };
        let preset = match reader.read_u16() {
            Ok(v) => v,
            Err(e) => return Err(e),
        };
        let bank = match reader.read_u16() {
            Ok(v) => v,
            Err(e) => return Err(e),
        };
        let bag_id = match reader.read_u16() {
            Ok(v) => v,
            Err(e) => return Err(e),
        };
        let library = match reader.read_u32() {
            Ok(v) => v,
            Err(e) => return Err(e),
        };
        let genre = match reader.read_u32() {
            Ok(v) => v,
            Err(e) => return Err(e),
        };
        let morphology = match reader.read_u32() {
            Ok(v) => v,
            Err(e) => return Err(e),
        };
        assert(reader.data@.subrange(start, start + 20) =~= reader.data@.subrange(start, start + 20));
        Ok(PresetHeader { name, preset, bank, bag_id, library, genre, morphology })
    }

    /// Reads the preset headers of a `phdr` chunk.
    pub fn read_all(phdr: &Chunk, file: &[u8]) -> (r: Result<Vec<PresetHeader>, Error>)
        requires
            phdr.id.0@ == fourcc(112, 104, 100, 114),
        ensures
            match preset_header_chunk(file@, phdr@) {
                Ok(h) => r matches Ok(v) && views_of_presets(v@) == h,
                Err(e) => r == Err::<Vec<PresetHeader>, Error>(e),
            },
    {
        let size = phdr.len();
        if size % 38 != 0 || size == 0 {
            return Err(Error::InvalidPresetChunkSize(size));
        }
        let data = match phdr.read_contents(file) {
            Ok(d) => d,
            Err(e) => return Err(e),
        };
        let amount = (size / 38) as usize;
        let ghost f = |i: int| parse_preset_header(contents(file@, phdr@), 38 * i);
        let mut reader = Reader::new(data.as_slice());
        let mut out: Vec<PresetHeader> = Vec::new();
        let mut i: usize = 0;
        while i < amount
            invariant
                0 <= i <= amount,
                amount == data@.len() / 38,
                data@.len() % 38 == 0,
                reader.data@ == data@,
                reader.curr == 38 * i,
                f == (|i: int| parse_preset_header(contents(file@, phdr@), 38 * i)),
                data@ == contents(file@, phdr@),
                preset_header_chunk(file@, phdr@) == collect_records(f, 0, amount as int),
                prepend_ok(views_of_presets(out@), collect_records(f, i as int, amount as int)) == collect_records(f, 0, amount as int),
            decreases amount - i,
        {
            proof {
                lemma_record_in_bounds(i as int, amount as int, data@.len() as int, 38);
            }
            let h = match PresetHeader::read(&mut reader) {
                Ok(h) => h,
                Err(e) => {
                    proof {
                        lemma_collect_err(f, i as int, amount as int, views_of_presets(out@), e);
                    }
                    return Err(e);
                },
            };
            proof {
                lemma_collect_ok(f, i as int, amount as int, views_of_presets(out@), h@);
            }
            let ghost before = out@;
            out.push(h);
            assert(views_of_presets(out@) =~= views_of_presets(before).push(h@));
            i = i + 1;
        }
        assert(views_of_presets(out@) + Seq::<PresetHeaderView>::empty() =~= views_of_presets(out@));
        Ok(out)
    }
}

/// A zone record: first generator and first modulator of the zone.
#[derive(Debug, Clone, Copy, PartialEq, Eq, Structural)]
pub struct Bag {
    pub generator_id: u16,
    pub modulator_id: u16,
}

pub open spec fn parse_bag(b: Seq<u8>, off: int) -> Result<Bag, Error> {
    Ok(Bag { generator_id: le_u16(b, off), modulator_id: le_u16(b, off + 2) })
}

/// The outcome of reading a `pbag` or `ibag` chunk.
pub open spec fn bag_chunk(file: Seq<u8>, c: ChunkView) -> Result<Seq<Bag>, Error> {
    match chunk_shape_error(file, c, 4, Error::InvalidBagChunkSize(c.len)) {
        Some(e) => Err(e),
        None => collect_records(|i: int| parse_bag(contents(file, c), 4 * i), 0, (c.len / 4) as int),
    }
}

impl Bag {
    /// Reads one zone record.
    pub fn read(reader: &mut Reader) -> (r: Result<Bag, Error>)
        ensures
            final(reader).data == old(reader).data,
            old(reader).has(4) ==> final(reader).curr == old(reader).curr + 4 && r == parse_bag(
                old(reader).data@,
                old(reader).curr as int,
            ),
            !old(reader).has(4) ==> r matches Err(Error::NumSliceError),
    {
        if reader.curr > reader.data.len() || reader.data.len() - reader.curr < 4 {
            return Err(Error::NumSliceError);
        }
        let generator_id = match reader.read_u16() {
            Ok(v) => v,
            Err(e) => return Err(e),
        };
        let modulator_id = match reader.read_u16() {
            Ok(v) => v,
            Err(e) => return Err(e),
        };
        Ok(Bag { generator_id, modulator_id })
    }

    /// Reads the zone records of a `pbag` or `ibag` chunk.
    pub fn read_all(bag: &Chunk, file: &[u8]) -> (r: Result<Vec<Bag>, Error>)
        requires
            bag.id.0@ == fourcc(112, 98, 97, 103) || bag.id.0@ == fourcc(105, 98, 97, 103),
        ensures
            match bag_chunk(file@, bag@) {
                Ok(h) => r matches Ok(v) && v@ == h,
                Err(e) => r == Err::<Vec<Bag>, Error>(e),
            },
    {
        let size = bag.len();
        if size % 4 != 0 || size == 0 {
            return Err(Error::InvalidBagChunkSize(size));
        }
        let data = match bag.read_contents(file) {
            Ok(d) => d,
            Err(e) => return Err(e),
        };
        let amount = (size / 4) as usize;
        let ghost f = |i: int| parse_bag(contents(file@, bag@), 4 * i);
        let mut reader = Reader::new(data.as_slice());
        let mut out: Vec<Bag> = Vec::new();
        let mut i: usize = 0;
        while i < amount
            invariant
                0 <= i <= amount,
                amount == data@.len() / 4,
                data@.len() % 4 == 0,
                reader.data@ == data@,
                reader.curr == 4 * i,
                f == (|i: int| parse_bag(contents(file@, bag@), 4 * i)),
                data@ == contents(file@, bag@),
                bag_chunk(file@, bag@) == collect_records(f, 0, amount as int),
                prepend_ok(out@, collect_records(f, i as int, amount as int)) == collect_records(f, 0, amount as int),
            decreases amount - i,
        {
            proof {
                lemma_record_in_bounds(i as int, amount as int, data@.len() as int, 4);
            }
            let h = match Bag::read(&mut reader) {
                Ok(h) => h,
                Err(e) => {
                    proof {
                        lemma_collect_err(f, i as int, amount as int, out@, e);
                    }
                    return Err(e);
                },
            };
            proof {
                lemma_collect_ok(f, i as int, amount as int, out@, h);
            }
            let ghost before = out@;
            out.push(h);
            assert(out@ =~= before.push(h));
            i = i + 1;
        }
        assert(out@ + Seq::<Bag>::empty() =~= out@);
        Ok(out)
    }
}

/// An instrument header: name and first zone.
#[derive(Debug, Clone)]
pub struct InstrumentHeader {
    pub name: String,
    pub bag_id: u16,
}

pub struct InstrumentHeaderView {
    pub name: Seq<char>,
    pub bag_id: u16,
}

impl View for InstrumentHeader {
    type V = InstrumentHeaderView;

    open spec fn view(&self) -> InstrumentHeaderView {
        InstrumentHeaderView { name: self.name@, bag_id: self.bag_id }
    }
}

/// The instrument header record at `off` (22 bytes).
pub open spec fn parse_instrument_header(b: Seq<u8>, off: int) -> Result<InstrumentHeaderView, Error> {
    match name_field(b.subrange(off, off + 20)) {
        None => Err(Error::StringError),
        Some(name) => Ok(InstrumentHeaderView { name, bag_id: le_u16(b, off + 20) }),
    }
}

/// The outcome of reading an `inst` chunk.
pub open spec fn instrument_header_chunk(file: Seq<u8>, c: ChunkView) -> Result<Seq<InstrumentHeaderView>, Error> {
    match chunk_shape_error(file, c, 22, Error::InvalidInstrumentChunkSize(c.len)) {
        Some(e) => Err(e),
        None => collect_records(|i: int| parse_instrument_header(contents(file, c), 22 * i), 0, (c.len / 22) as int),
    }
}

pub open spec fn views_of_instruments(v: Seq<InstrumentHeader>) -> Seq<InstrumentHeaderView> {
    v.map_values(|h: InstrumentHeader| h@)
}

impl InstrumentHeader {
    /// Reads one instrument header record.
    pub fn read(reader: &mut Reader) -> (r: Result<InstrumentHeader, Error>)
        ensures
            final(reader).data == old(reader).data,
            old(reader).has(22) ==> final(reader).curr == old(reader).curr + 22 && match parse_instrument_header(
                old(reader).data@,
                old(reader).curr as int,
            ) {
                Ok(h) => r matches Ok(x) && x@ == h,
                Err(e) => r == Err::<InstrumentHeader, Error>(e),
            },
            !old(reader).has(22) ==> r matches Err(Error::NumSliceError),
    {
        if reader.curr > reader.data.len() || reader.data.len() - reader.curr < 22 {
            return Err(Error::NumSliceError);
        }
        let name = match read_name(reader, 20) {
            Ok(s) => s,
            Err(e) => {
                reader.curr = reader.curr + 2;
                return Err(e);
            },
        };
        let bag_id = match reader.read_u16() {
            Ok(v) => v,
            Err(e) => return Err(e),
        };
        Ok(InstrumentHeader { name, bag_id })
    }

    /// Reads the instrument headers of an `inst` chunk.
    pub fn read_all(inst: &Chunk, file: &[u8]) -> (r: Result<Vec<InstrumentHeader>, Error>)
        requires
            inst.id.0@ == fourcc(105, 110, 115, 116),
        ensures
            match instrument_header_chunk(file@, inst@) {
                Ok(h) => r matches Ok(v) && views_of_instruments(v@) == h,
                Err(e) => r == Err::<Vec<InstrumentHeader>, Error>(e),
            },
    {
        let size = inst.len();
        if size % 22 != 0 || size == 0 {
            return Err(Error::InvalidInstrumentChunkSize(size));
        }
        let data = match inst.read_contents(file) {
            Ok(d) => d,
            Err(e) => return Err(e),
        };
        let amount = (size / 22) as usize;
        let ghost f = |i: int| parse_instrument_header(contents(file@, inst@), 22 * i);
        let mut reader = Reader::new(data.as_slice());
        let mut out: Vec<InstrumentHeader> = Vec::new();
        let mut i: usize = 0;
        while i < amount
            invariant
                0 <= i <= amount,
                amount == data@.len() / 22,
                data@.len() % 22 == 0,
                reader.data@ == data@,
                reader.curr == 22 * i,
                f == (|i: int| parse_instrument_header(contents(file@, inst@), 22 * i)),
                data@ == contents(file@, inst@),
                instrument_header_chunk(file@, inst@) == collect_records(f, 0, amount as int),
                prepend_ok(views_of_instruments(out@), collect_records(f, i as int, amount as int)) == collect_records(f, 0, amount as int),
            decreases amount - i,
        {
            proof {
                lemma_record_in_bounds(i as int, amount as int, data@.len() as int, 22);
            }
            let h = match InstrumentHeader::read(&mut reader) {
                Ok(h) => h,
                Err(e) => {
                    proof {
                        lemma_collect_err(f, i as int, amount as int, views_of_instruments(out@), e);
                    }
                    return Err(e);
                },
            };
            proof {
                lemma_collect_ok(f, i as int, amount as int, views_of_instruments(out@), h@);
            }
            let ghost before = out@;
            out.push(h);
            assert(views_of_instruments(out@) =~= views_of_instruments(before).push(h@));
            i = i + 1;
        }
        assert(views_of_instruments(out@) + Seq::<InstrumentHeaderView>::empty() =~= views_of_instruments(out@));
        Ok(out)
    }
}

/// Kind and channel role of a sample.
#[derive(Debug, Clone, Copy, PartialEq, Eq, Structural)]
pub enum SampleLink {
    NoLink,
    MonoSample,
    RightSample,
    LeftSample,
    LinkedSample,
    RomMonoSample,
    RomRightSample,
    RomLeftSample,
    RomLinkedSample,
    VorbisMonoSample,
    VorbisRightSample,
    VorbisLeftSample,
    VorbisLinkedSample,
}

/// The sample kind numbered `v`.
pub open spec fn sample_link_of(v: u16) -> Option<SampleLink> {
    match v {
        0 => Some(SampleLink::NoLink),
        1 => Some(SampleLink::MonoSample),
        2 => Some(SampleLink::RightSample),
        4 => Some(SampleLink::LeftSample),
        8 => Some(SampleLink::LinkedSample),
        0x8001 => Some(SampleLink::RomMonoSample),
        0x8002 => Some(SampleLink::RomRightSample),
        0x8004 => Some(SampleLink::RomLeftSample),
        0x8008 => Some(SampleLink::RomLinkedSample),
        0x11 => Some(SampleLink::VorbisMonoSample),
        0x12 => Some(SampleLink::VorbisRightSample),
        0x14 => Some(SampleLink::VorbisLeftSample),
        0x18 => Some(SampleLink::VorbisLinkedSample),
        _ => None,
    }
}

fn sample_link_exec(v: u16) -> (r: Option<SampleLink>)
    ensures
        r == sample_link_of(v),
{
    match v {
        0 => Some(SampleLink::NoLink),
        1 => Some(SampleLink::MonoSample),
        2 => Some(SampleLink::RightSample),
        4 => Some(SampleLink::LeftSample),
        8 => Some(SampleLink::LinkedSample),
        0x8001 => Some(SampleLink::RomMonoSample),
        0x8002 => Some(SampleLink::RomRightSample),
        0x8004 => Some(SampleLink::RomLeftSample),
        0x8008 => Some(SampleLink::RomLinkedSample),
        0x11 => Some(SampleLink::VorbisMonoSample),
        0x12 => Some(SampleLink::VorbisRightSample),
        0x14 => Some(SampleLink::VorbisLeftSample),
        0x18 => Some(SampleLink::VorbisLinkedSample),
        _ => None,
    }
}

/// A sample header.
#[derive(Debug, Clone)]
pub struct SampleHeader {
    pub name: String,
    pub start: u32,
    pub end: u32,
    pub loop_start: u32,
    pub loop_end: u32,
    pub sample_rate: u32,
    pub origpitch: u8,
    pub pitchadj: i8,
    pub sample_link: u16,
    pub sample_type: SampleLink,
}

pub struct SampleHeaderView {
    pub name: Seq<char>,
    pub start: u32,
    pub end: u32,
    pub loop_start: u32,
    pub loop_end: u32,
    pub sample_rate: u32,
    pub origpitch: u8,
    pub pitchadj: i8,
    pub sample_link: u16,
    pub sample_type: SampleLink,
}

impl View for SampleHeader {
    type V = SampleHeaderView;

    open spec fn view(&self) -> SampleHeaderView {
        SampleHeaderView {
            name: self.name@,
            start: self.start,
            end: self.end,
            loop_start: self.loop_start,
            loop_end: self.loop_end,
            sample_rate: self.sample_rate,
            origpitch: self.origpitch,
            pitchadj: self.pitchadj,
            sample_link: self.sample_link,
            sample_type: self.sample_type,
        }
    }
}

/// The sample header record at `off` (46 bytes); an unknown sample kind is an error.
pub open spec fn parse_sample_header(b: Seq<u8>, off: int) -> Result<SampleHeaderView, Error> {
    match name_field(b.subrange(off, off + 20)) {
        None => Err(Error::StringError),
        Some(name) => match sample_link_of(le_u16(b, off + 44)) {
            None => Err(Error::UnknownSampleType(le_u16(b, off + 44))),
            Some(kind) => Ok(
                SampleHeaderView {
                    name,
                    start: le_u32(b, off + 20),
                    end: le_u32(b, off + 24),
                    loop_start: le_u32(b, off + 28),
                    loop_end: le_u32(b, off + 32),
                    sample_rate: le_u32(b, off + 36),
                    origpitch: b[off + 40],
                    pitchadj: as_i8(b[off + 41]),
                    sample_link: le_u16(b, off + 42),
                    sample_type: kind,
                },
            ),
        },
    }
}

/// The outcome of reading an `shdr` chunk.
pub open spec fn sample_header_chunk(file: Seq<u8>, c: ChunkView) -> Result<Seq<SampleHeaderView>, Error> {
    match chunk_shape_error(file, c, 46, Error::InvalidSampleChunkSize(c.len)) {
        Some(e) => Err(e),
        None => collect_records(|i: int| parse_sample_header(contents(file, c), 46 * i), 0, (c.len / 46) as int),
    }
}

pub open spec fn views_of_samples(v: Seq<SampleHeader>) -> Seq<SampleHeaderView> {
    v.map_values(|h: SampleHeader| h@)
}

impl SampleHeader {
    /// Reads one sample header record.
    pub fn read(reader: &mut Reader) -> (r: Result<SampleHeader, Error>)
        ensures
            final(reader).data == old(reader).data,
            old(reader).has(46) ==> final(reader).curr == old(reader).curr + 46 && match parse_sample_header(
                old(reader).data@,
                old(reader).curr as int,
            ) {
                Ok(h) => r matches Ok(x) && x@ == h,
                Err(e) => r == Err::<SampleHeader, Error>(e),
            },
            !old(reader).has(46) ==> r matches Err(Error::NumSliceError),
    {
        if reader.curr > reader.data.len() || reader.data.len() - reader.curr < 46 {
            return Err(Error::NumSliceError);
        }
        let name = match read_name(reader, 20) {
            Ok(s) => s,
            Err(e) => {
                reader.curr = reader.curr + 26;
                return Err(e);
            },
        };
        let start = match reader.read_u32() {
            Ok(v) => v,
            Err(e) => return Err(e),
        };
        let end = match reader.read_u32() {
            Ok(v) => v,
            Err(e) => return Err(e),
        };
        let loop_start = match reader.read_u32() {
            Ok(v) => v,
            Err(e) => return Err(e),
        };
        let loop_end = match reader.read_u32() {
            Ok(v) => v,
            Err(e) => return Err(e),
        };
        let sample_rate = match reader.read_u32() {
            Ok(v) => v,
            Err(e) => return Err(e),
        };
        let origpitch = match reader.read_u8() {
            Ok(v) => v,
            Err(e) => return Err(e),
        };
        let pitchadj = match reader.read_i8() {
            Ok(v) => v,
            Err(e) => return Err(e),
        };
        let sample_link = match reader.read_u16() {
            Ok(v) => v,
            Err(e) => return Err(e),
        };
        let sample_type = match reader.read_u16() {
            Ok(v) => v,
            Err(e) => return Err(e),
        };
        let sample_type = match sample_link_exec(sample_type) {
            Some(k) => k,
            None => return Err(Error::UnknownSampleType(sample_type)),
        };
        Ok(SampleHeader {
            name,
            start,
            end,
            loop_start,
            loop_end,
            sample_rate,
            origpitch,
            pitchadj,
            sample_link,
            sample_type,
        })
    }

    /// Reads the sample headers of an `shdr` chunk.
    pub fn read_all(shdr: &Chunk, file: &[u8]) -> (r: Result<Vec<SampleHeader>, Error>)
        requires
            shdr.id.0@ == fourcc(115, 104, 100, 114),
        ensures
            match sample_header_chunk(file@, shdr@) {
                Ok(h) => r matches Ok(v) && views_of_samples(v@) == h,
                Err(e) => r == Err::<Vec<SampleHeader>, Error>(e),
            },
    {
        let size = shdr.len();
        if size % 46 != 0 || size == 0 {
            return Err(Error::InvalidSampleChunkSize(size));
        }
        let data = match shdr.read_contents(file) {
            Ok(d) => d,
            Err(e) => return Err(e),
        };
        let amount = (size / 46) as usize;
        let ghost f = |i: int| parse_sample_header(contents(file@, shdr@), 46 * i);
        let mut reader = Reader::new(data.as_slice());
        let mut out: Vec<SampleHeader> = Vec::new();
        let mut i: usize = 0;
        while i < amount
            invariant
                0 <= i <= amount,
                amount == data@.len() / 46,
                data@.len() % 46 == 0,
                reader.data@ == data@,
                reader.curr == 46 * i,
                f == (|i: int| parse_sample_header(contents(file@, shdr@), 46 * i)),
                data@ == contents(file@, shdr@),
                sample_header_chunk(file@, shdr@) == collect_records(f, 0, amount as int),
                prepend_ok(views_of_samples(out@), collect_records(f, i as int, amount as int)) == collect_records(f, 0, amount as int),
            decreases amount - i,
        {
            proof {
                lemma_record_in_bounds(i as int, amount as int, data@.len() as int, 46);
            }
            let h = match SampleHeader::read(&mut reader) {
                Ok(h) => h,
                Err(e) => {
                    proof {
                        lemma_collect_err(f, i as int, amount as int, views_of_samples(out@), e);
                    }
                    return Err(e);
                },
            };
            proof {
                lemma_collect_ok(f, i as int, amount as int, views_of_samples(out@), h@);
            }
            let ghost before = out@;
            out.push(h);
            assert(views_of_samples(out@) =~= views_of_samples(before).push(h@));
            i = i + 1;
        }
        assert(views_of_samples(out@) + Seq::<SampleHeaderView>::empty() =~= views_of_samples(out@));
        Ok(out)
    }
}

} // verus!
