//! The SoundFont 2 parser of the synthesizer: walks the RIFF chunks of a file
//! held in memory and builds samples, instruments and presets.
use vstd::prelude::*;
use crate::bytes::{le_u16, le_i16, le_u32, as_i8, read_le_u16, read_le_i16, read_le_u32, byte_as_i8};
use crate::sf2::types::{
    SoundFontHeader, SoundFontHeaderView, Sample, SampleView, SampleType, Instrument, InstrumentView,
    InstrumentZone, InstrumentZoneView, Preset, PresetView, PresetZone, PresetZoneView,
};
use crate::sf2_oxi::utils::first_nul;
use crate::text::{spec_utf8_lossy, utf8_lossy, spec_trim, trim_string, expected_got};
use crate::sf2::records::{shdr_samples, instruments_of, presets_of};
use std::sync::Arc;

verus! {

/// Why a file could not be parsed.
#[derive(Debug, Clone)]
pub enum ParseError {
    /// The file ends before a value that must be read.
    IoError,
    /// The file is no SoundFont (the text says what was found).
    InvalidFormat(String),
    InvalidChunk(String),
    UnexpectedEof,
}

/// Mathematical form of a parse error.
pub enum ParseErrorView {
    IoError,
    InvalidFormat(Seq<char>),
    InvalidChunk(Seq<char>),
    UnexpectedEof,
}

impl View for ParseError {
    type V = ParseErrorView;

    open spec fn view(&self) -> ParseErrorView {
        match self {
            ParseError::IoError => ParseErrorView::IoError,
            ParseError::InvalidFormat(s) => ParseErrorView::InvalidFormat(s@),
            ParseError::InvalidChunk(s) => ParseErrorView::InvalidChunk(s@),
            ParseError::UnexpectedEof => ParseErrorView::UnexpectedEof,
        }
    }
}

/// The bytes at `pos..pos + n`, if the file holds them.
pub open spec fn bytes_at(file: Seq<u8>, pos: int, n: int) -> Option<Seq<u8>> {
    if 0 <= pos && 0 <= n && pos + n <= file.len() {
        Some(file.subrange(pos, pos + n))
    } else {
        None
    }
}

/// A four-character code as text (invalid UTF-8 replaced).
pub open spec fn four_cc_text(id: Seq<u8>) -> Seq<char> {
    spec_utf8_lossy(id)
}

/// The text of a padded string: the bytes before the first NUL without
/// trailing spaces, decoded as UTF-8 (invalid sequences replaced).
pub open spec fn pstring(b: Seq<u8>) -> Seq<char> {
    spec_utf8_lossy(without_trailing_spaces(b.take(first_nul(b))))
}

/// The bytes without trailing spaces and NULs.
pub open spec fn without_trailing_spaces(b: Seq<u8>) -> Seq<u8>
    decreases b.len(),
{
    if b.len() > 0 && (b.last() == 32 || b.last() == 0) {
        without_trailing_spaces(b.drop_last())
    } else {
        b
    }
}

/// The name of a 20-byte record field: the bytes before the first NUL,
/// decoded (invalid sequences replaced) and trimmed.
pub open spec fn field_name(b: Seq<u8>) -> Seq<char> {
    spec_trim(spec_utf8_lossy(b.take(first_nul(b))))
}

/// A cursor over the file. A failed read leaves it at the end of the file.
pub struct Cursor<'a> {
    pub data: &'a [u8],
    pub pos: u64,
}

/// Files the parser handles: positions stay well within 64 bits.
pub open spec fn parse_fits(file: Seq<u8>) -> bool {
    file.len() <= 0x1_0000_0000_0000
}

impl<'a> Cursor<'a> {
    pub open spec fn end(&self) -> int {
        self.data@.len() as int
    }

    /// Reads `n` bytes.
    pub fn read_exact(&mut self, n: usize) -> (r: Result<Vec<u8>, ParseError>)
        requires
            parse_fits(old(self).data@),
            old(self).pos <= 0x2_0000_0000_0000,
        ensures
            final(self).data == old(self).data,
            match bytes_at(old(self).data@, old(self).pos as int, n as int) {
                Some(b) => (r matches Ok(v) && v@ == b) && final(self).pos == old(self).pos + n,
                None => (r matches Err(ParseError::IoError)) && final(self).pos == old(self).data@.len(),
            },
    {
        let len = self.data.len() as u64;
        if self.pos > len || len - self.pos < n as u64 {
            self.pos = len;
            return Err(ParseError::IoError);
        }
        let start = self.pos as usize;
        let mut out: Vec<u8> = Vec::new();
        let mut i: usize = 0;
        while i < n
            invariant
                0 <= i <= n,
                start + n <= self.data@.len(),
                self.data@.len() == self.data.len(),
                out@ == self.data@.subrange(start as int, start + i),
            decreases n - i,
        {
            out.push(self.data[start + i]);
            i = i + 1;
            assert(out@ =~= self.data@.subrange(start as int, start + i));
        }
        self.pos = self.pos + n as u64;
        Ok(out)
    }

    /// Reads a little-endian 16-bit value.
    pub fn read_u16(&mut self) -> (r: Result<u16, ParseError>)
        requires
            parse_fits(old(self).data@),
            old(self).pos <= 0x2_0000_0000_0000,
        ensures
            final(self).data == old(self).data,
            old(self).pos + 2 <= old(self).data@.len() ==> r == Ok::<u16, ParseError>(le_u16(old(self).data@, old(self).pos as int))
                && final(self).pos == old(self).pos + 2,
            old(self).pos + 2 > old(self).data@.len() ==> (r matches Err(ParseError::IoError)) && final(self).pos == old(self).data@.len(),
    {
        let len = self.data.len() as u64;
        if self.pos > len || len - self.pos < 2 {
            self.pos = len;
            return Err(ParseError::IoError);
        }
        let v = read_le_u16(self.data, self.pos as usize);
        self.pos = self.pos + 2;
        Ok(v)
    }

    /// Reads a little-endian 32-bit value.
    pub fn read_u32(&mut self) -> (r: Result<u32, ParseError>)
        requires
            parse_fits(old(self).data@),
            old(self).pos <= 0x2_0000_0000_0000,
        ensures
            final(self).data == old(self).data,
            old(self).pos + 4 <= old(self).data@.len() ==> r == Ok::<u32, ParseError>(le_u32(old(self).data@, old(self).pos as int))
                && final(self).pos == old(self).pos + 4,
            old(self).pos + 4 > old(self).data@.len() ==> (r matches Err(ParseError::IoError)) && final(self).pos == old(self).data@.len(),
    {
        let len = self.data.len() as u64;
        if self.pos > len || len - self.pos < 4 {
            self.pos = len;
            return Err(ParseError::IoError);
        }
        let v = read_le_u32(self.data, self.pos as usize);
        self.pos = self.pos + 4;
        Ok(v)
    }
}

/// A four-character code as text.
pub fn four_cc_to_string(id: &[u8]) -> (s: String)
    ensures
        s@ == four_cc_text(id@),
{
    utf8_lossy(id)
}

/// The text of `buf` before the first NUL, decoded and trimmed.
pub(crate) fn extract_string(buf: &[u8]) -> (s: String)
    ensures
        s@ == field_name(buf@),
{
    let n = buf.len();
    let mut k: usize = 0;
    while k < n && buf[k] != 0
        invariant
            0 <= k <= n,
            n == buf@.len(),
            forall|j: int| 0 <= j < k ==> buf@[j] != 0,
        decreases n - k,
    {
        k = k + 1;
    }
    proof {
        lemma_first_nul_at(buf@, k as int);
    }
    let text = utf8_lossy(&buf[0..k]);
    assert(buf@.subrange(0, k as int) =~= buf@.take(k as int));
    trim_string(text.as_str())
}

proof fn lemma_first_nul_at(b: Seq<u8>, i: int)
    requires
        0 <= i <= b.len(),
        forall|j: int| 0 <= j < i ==> b[j] != 0,
        i == b.len() || b[i] == 0,
    ensures
        first_nul(b) == i,
    decreases i,
{
    if i > 0 {
        lemma_first_nul_at(b.drop_first(), i - 1);
    }
}

proof fn lemma_strip_spaces(b: Seq<u8>, k: int)
    requires
        0 <= k <= b.len(),
        forall|j: int| k <= j < b.len() ==> (b[j] == 32 || b[j] == 0),
        k == 0 || (b[k - 1] != 32 && b[k - 1] != 0),
    ensures
        without_trailing_spaces(b) == b.take(k),
    decreases b.len(),
{
    if b.len() > k {
        assert(b.drop_last().len() == b.len() - 1);
        lemma_strip_spaces(b.drop_last(), k);
        assert(b.drop_last().take(k) =~= b.take(k));
    } else {
        assert(b.take(k) =~= b);
    }
}

impl Sf2Parser {
    /// Reads a padded string of `size` bytes.
    pub fn read_pstring(reader: &mut Cursor, size: usize) -> (r: Result<String, ParseError>)
        requires
            parse_fits(old(reader).data@),
            old(reader).pos <= 0x2_0000_0000_0000,
        ensures
            final(reader).data == old(reader).data,
            match bytes_at(old(reader).data@, old(reader).pos as int, size as int) {
                Some(b) => (r matches Ok(s) && s@ == pstring(b)) && final(reader).pos == old(reader).pos + size,
                None => (r matches Err(ParseError::IoError)) && final(reader).pos == old(reader).data@.len(),
            },
    {
        let buf = match reader.read_exact(size) {
            Ok(b) => b,
            Err(e) => return Err(e),
        };
        let n = buf.len();
        let mut k: usize = 0;
        while k < n && buf[k] != 0
            invariant
                0 <= k <= n,
                n == buf@.len(),
                forall|j: int| 0 <= j < k ==> buf@[j] != 0,
            decreases n - k,
        {
            k = k + 1;
        }
        proof {
            lemma_first_nul_at(buf@, k as int);
        }
        let ghost t = buf@.take(k as int);
        let mut e = k;
        while e > 0 && (buf[e - 1] == 32 || buf[e - 1] == 0)
            invariant
                0 <= e <= k <= n,
                n == buf@.len(),
                t == buf@.take(k as int),
                forall|j: int| e <= j < k ==> (buf@[j] == 32 || buf@[j] == 0),
            decreases e,
        {
            e = e - 1;
        }
        proof {
            lemma_strip_spaces(t, e as int);
            assert(t.take(e as int) =~= buf@.subrange(0, e as int));
        }
        Ok(utf8_lossy(&buf.as_slice()[0..e]))
    }

    /// Reads a four-character code.
    pub fn read_four_cc(reader: &mut Cursor) -> (r: Result<Vec<u8>, ParseError>)
        requires
            parse_fits(old(reader).data@),
            old(reader).pos <= 0x2_0000_0000_0000,
        ensures
            final(reader).data == old(reader).data,
            match bytes_at(old(reader).data@, old(reader).pos as int, 4) {
                Some(b) => (r matches Ok(v) && v@ == b) && final(reader).pos == old(reader).pos + 4,
                None => (r matches Err(ParseError::IoError)) && final(reader).pos == old(reader).data@.len(),
            },
    {
        reader.read_exact(4)
    }
}

/// The SoundFont parser.
pub struct Sf2Parser;


/// The default INFO data.
pub open spec fn default_header() -> SoundFontHeaderView {
    SoundFontHeaderView {
        name: Seq::empty(),
        rom_name: Seq::empty(),
        rom_version: (0, 0),
        internal_version: (0, 0),
        software: Seq::empty(),
        sample_rate: 44100,
    }
}

/// The INFO sub-chunks read from `pos` on, `consumed` bytes of `size` being
/// used up: the position after the walk and the INFO data. The walk stops
/// when fewer than 8 bytes of the list remain, at the end of the file, or at
/// a sub-chunk over 1 MiB. Version chunks read their first 4 bytes only;
/// chunks are padded to even length (except `srfo`).
pub open spec fn info_walk(file: Seq<u8>, pos: int, consumed: int, size: int, h: SoundFontHeaderView) -> Result<
    (int, SoundFontHeaderView),
    ParseErrorView,
>
    decreases (if consumed <= size { size - consumed } else { 0 }),
{
    if consumed + 8 > size {
        Ok((pos, h))
    } else {
        match bytes_at(file, pos, 4) {
            None => Ok((file.len() as int, h)),
            Some(id) => if pos + 8 > file.len() {
                Err(ParseErrorView::IoError)
            } else {
                let n = le_u32(file, pos + 4) as int;
                let p = pos + 8;
                let c = consumed + 8;
                let pad: int = if n % 2 == 1 { 1 } else { 0 };
                if n > 1024 * 1024 {
                    Ok((p, h))
                } else if id == seq![105u8, 102, 105, 108] || id == seq![105u8, 118, 101, 114] {
                    if p + 4 > file.len() {
                        Err(ParseErrorView::IoError)
                    } else {
                        let v = (le_u16(file, p), le_u16(file, p + 2));
                        let h2 = if id == seq![105u8, 102, 105, 108] {
                            SoundFontHeaderView { internal_version: v, ..h }
                        } else {
                            SoundFontHeaderView { rom_version: v, ..h }
                        };
                        info_walk(file, p + 4 + pad, c + n + pad, size, h2)
                    }
                } else if id == seq![73u8, 78, 65, 77] || id == seq![105u8, 114, 111, 109] || id == seq![105u8, 115, 110, 103] {
                    match bytes_at(file, p, n) {
                        None => Err(ParseErrorView::IoError),
                        Some(b) => {
                            let t = pstring(b);
                            let h2 = if id == seq![73u8, 78, 65, 77] {
                                SoundFontHeaderView { name: t, ..h }
                            } else if id == seq![105u8, 114, 111, 109] {
                                SoundFontHeaderView { rom_name: t, ..h }
                            } else {
                                SoundFontHeaderView { software: t, ..h }
                            };
                            info_walk(file, p + n + pad, c + n + pad, size, h2)
                        },
                    }
                } else if id == seq![115u8, 114, 102, 111] {
                    if p + 4 > file.len() {
                        Err(ParseErrorView::IoError)
                    } else {
                        info_walk(file, p + 4, c + n, size, SoundFontHeaderView { sample_rate: le_u32(file, p), ..h })
                    }
                } else {
                    info_walk(file, p + n + pad, c + n + pad, size, h)
                }
            },
        }
    }
}

fn id_is(id: &Vec<u8>, a: u8, b: u8, c: u8, d: u8) -> (r: bool)
    requires
        id@.len() == 4,
    ensures
        r == (id@ == seq![a, b, c, d]),
{
    let r = id[0] == a && id[1] == b && id[2] == c && id[3] == d;
    if r {
        assert(id@ =~= seq![a, b, c, d]);
    }
    r
}

impl Sf2Parser {
    /// Parses the sub-chunks of an INFO list of `info_size` bytes.
    pub fn parse_info_chunk(reader: &mut Cursor, info_size: u32) -> (r: Result<SoundFontHeader, ParseError>)
        requires
            parse_fits(old(reader).data@),
            old(reader).pos <= 0x1_0000_0000_0000,
        ensures
            final(reader).data == old(reader).data,
            final(reader).pos <= 0x1_0000_0000_0000 + 0x1_0000_0000,
            match info_walk(old(reader).data@, old(reader).pos as int, 0, info_size as int, default_header()) {
                Ok((p, h)) => (r matches Ok(x) && x@ == h) && final(reader).pos == p,
                Err(e) => (r matches Err(x) && x@ == e),
            },
    {
        let mut name = String::new();
        let mut rom_name = String::new();
        let mut rom_version: (u16, u16) = (0, 0);
        let mut internal_version: (u16, u16) = (0, 0);
        let mut software = String::new();
        let mut sample_rate: u32 = 44100;
        let ghost file = reader.data@;
        let ghost goal = info_walk(file, reader.pos as int, 0, info_size as int, default_header());
        let mut consumed: u64 = 0;
        let mut done = false;
        while !done && consumed + 8 <= info_size as u64
            invariant
                reader.data@ == file,
                reader.data == old(reader).data,
                file == old(reader).data@,
                goal == info_walk(file, old(reader).pos as int, 0, info_size as int, default_header()),
                parse_fits(file),
                consumed <= info_size as int + 0x1_0000_0000,
                reader.pos <= 0x1_0000_0000_0000 + consumed + 0x1_0000_0000,
                reader.pos <= 0x1_0000_0000_0000 + 0x1_0000_0000,
                !done ==> goal == info_walk(
                    file,
                    reader.pos as int,
                    consumed as int,
                    info_size as int,
                    SoundFontHeaderView { name: name@, rom_name: rom_name@, rom_version, internal_version, software: software@, sample_rate },
                ),
                done ==> goal == Ok::<(int, SoundFontHeaderView), ParseErrorView>((
                    reader.pos as int,
                    SoundFontHeaderView { name: name@, rom_name: rom_name@, rom_version, internal_version, software: software@, sample_rate },
                )),
            decreases info_size as int + 0x1_0000_0000 - consumed, (if done { 0int } else { 1int }),
        {
            let chunk_id = match Sf2Parser::read_four_cc(reader) {
                Ok(id) => id,
                Err(_) => {
                    done = true;
                    continue;
                },
            };
            let chunk_size = match reader.read_u32() {
                Ok(v) => v,
                Err(e) => return Err(e),
            };
            consumed = consumed + 8;
            if chunk_size > 1024 * 1024 {
                done = true;
                continue;
            }
            let pad: u64 = if chunk_size % 2 == 1 {
                1
            } else {
                0
            };
            if id_is(&chunk_id, 105, 102, 105, 108) || id_is(&chunk_id, 105, 118, 101, 114) {
                let major = match reader.read_u16() {
                    Ok(v) => v,
                    Err(e) => return Err(e),
                };
                let minor = match reader.read_u16() {
                    Ok(v) => v,
                    Err(e) => return Err(e),
                };
                if id_is(&chunk_id, 105, 102, 105, 108) {
                    internal_version = (major, minor);
                } else {
                    rom_version = (major, minor);
                }
                consumed = consumed + chunk_size as u64 + pad;
                reader.pos = reader.pos + pad;
            } else if id_is(&chunk_id, 73, 78, 65, 77) || id_is(&chunk_id, 105, 114, 111, 109) || id_is(
                &chunk_id,
                105,
                115,
                110,
                103,
            ) {
                let t = match Sf2Parser::read_pstring(reader, chunk_size as usize) {
                    Ok(t) => t,
                    Err(e) => return Err(e),
                };
                if id_is(&chunk_id, 73, 78, 65, 77) {
                    name = t;
                } else if id_is(&chunk_id, 105, 114, 111, 109) {
                    rom_name = t;
                } else {
                    software = t;
                }
                consumed = consumed + chunk_size as u64 + pad;
                reader.pos = reader.pos + pad;
            } else if id_is(&chunk_id, 115, 114, 102, 111) {
                sample_rate = match reader.read_u32() {
                    Ok(v) => v,
                    Err(e) => return Err(e),
                };
                consumed = consumed + chunk_size as u64;
            } else {
                reader.pos = reader.pos + chunk_size as u64 + pad;
                consumed = consumed + chunk_size as u64 + pad;
            }
        }
        Ok(SoundFontHeader { name, rom_name, rom_version, internal_version, software, sample_rate })
    }
}


/// What the walk over the file collects: the INFO data, the sample bytes and
/// the contents of the hydra sub-chunks.
pub struct Chunks {
    pub header: Option<SoundFontHeaderView>,
    pub smpl: Seq<u8>,
    pub phdr: Seq<u8>,
    pub pbag: Seq<u8>,
    pub pgen: Seq<u8>,
    pub ihdr: Seq<u8>,
    pub ibag: Seq<u8>,
    pub igen: Seq<u8>,
    pub shdr: Seq<u8>,
}

/// A 32-bit difference, wrapping as unsigned arithmetic does.
pub open spec fn wrap32(x: int) -> int {
    if x < 0 {
        x + 0x1_0000_0000
    } else {
        x
    }
}

/// Keeps a hydra sub-chunk by its code; instrument headers are `inst` inside
/// a LIST and `ihdr` in a bare `pdta` chunk; other codes are dropped.
pub open spec fn keep_sub(c: Chunks, id: Seq<u8>, data: Seq<u8>, in_list: bool) -> Chunks {
    if id == seq![112u8, 104, 100, 114] {
        Chunks { phdr: data, ..c }
    } else if id == seq![112u8, 98, 97, 103] {
        Chunks { pbag: data, ..c }
    } else if id == seq![112u8, 103, 101, 110] {
        Chunks { pgen: data, ..c }
    } else if (in_list && id == seq![105u8, 110, 115, 116]) || (!in_list && id == seq![105u8, 104, 100, 114]) {
        Chunks { ihdr: data, ..c }
    } else if id == seq![105u8, 98, 97, 103] {
        Chunks { ibag: data, ..c }
    } else if id == seq![105u8, 103, 101, 110] {
        Chunks { igen: data, ..c }
    } else if id == seq![115u8, 104, 100, 114] {
        Chunks { shdr: data, ..c }
    } else {
        c
    }
}

/// What a sub-chunk of `n` bytes at `pos` with code `id` adds inside a
/// LIST: in `pdta` every sub-chunk is read and the hydra ones kept; in
/// `sdta` only `smpl` is read.
pub open spec fn list_keep(file: Seq<u8>, pos: int, n: int, id: Seq<u8>, c: Chunks, hydra: bool) -> Result<Chunks, ParseErrorView> {
    if hydra {
        match bytes_at(file, pos, n) {
            None => Err(ParseErrorView::IoError),
            Some(b) => Ok(keep_sub(c, id, b, true)),
        }
    } else if id == seq![115u8, 109, 112, 108] {
        match bytes_at(file, pos, n) {
            None => Err(ParseErrorView::IoError),
            Some(b) => Ok(Chunks { smpl: b, ..c }),
        }
    } else {
        Ok(c)
    }
}

/// The sub-chunks of a `sdta` or `pdta` LIST from `pos`, `remaining` bytes
/// of it left, at most 100 of them: `smpl` (sdta) or the hydra sub-chunks
/// (pdta) are kept, others skipped; a sub-chunk larger than what remains
/// stops the walk; what remains is skipped at the end.
pub open spec fn list_walk(file: Seq<u8>, pos: int, remaining: int, iter: int, c: Chunks, hydra: bool) -> Result<
    (int, Chunks),
    ParseErrorView,
>
    decreases 100 - iter,
{
    if !(remaining > 8 && iter < 100) {
        Ok((pos + remaining, c))
    } else {
        match bytes_at(file, pos, 4) {
            None => Err(ParseErrorView::IoError),
            Some(id) => if pos + 8 > file.len() {
                Err(ParseErrorView::IoError)
            } else {
                let n = le_u32(file, pos + 4) as int;
                let rem = remaining - 8;
                if n > rem + 8 {
                    Ok((pos + 8 + rem, c))
                } else {
                    match list_keep(file, pos + 8, n, id, c, hydra) {
                        Err(e) => Err(e),
                        Ok(c2) => {
                            let r2 = wrap32(rem - n);
                            if n % 2 == 1 && r2 > 0 {
                                list_walk(file, pos + 8 + n + 1, r2 - 1, iter + 1, c2, hydra)
                            } else {
                                list_walk(file, pos + 8 + n, r2, iter + 1, c2, hydra)
                            }
                        },
                    }
                }
            },
        }
    }
}

/// The sub-chunks of a bare `pdta` chunk from `pos`, `remaining` bytes of
/// it left: every sub-chunk is read and the hydra ones kept.
pub open spec fn bare_pdta_walk(file: Seq<u8>, pos: int, remaining: int, c: Chunks) -> Result<(int, Chunks), ParseErrorView>
    decreases (if pos <= file.len() { file.len() - pos } else { 0 }),
{
    if remaining <= 8 {
        Ok((pos, c))
    } else {
        match bytes_at(file, pos, 4) {
            None => Err(ParseErrorView::IoError),
            Some(id) => if pos + 8 > file.len() {
                Err(ParseErrorView::IoError)
            } else {
                let n = le_u32(file, pos + 4) as int;
                match bytes_at(file, pos + 8, n) {
                    None => Err(ParseErrorView::IoError),
                    Some(b) => {
                        let c2 = keep_sub(c, id, b, false);
                        let r2 = wrap32(remaining - 8 - n);
                        if n % 2 == 1 && r2 > 0 {
                            bare_pdta_walk(file, pos + 8 + n + 1, r2 - 1, c2)
                        } else {
                            bare_pdta_walk(file, pos + 8 + n, r2, c2)
                        }
                    },
                }
            },
        }
    }
}

/// The INFO walk ends at or after where it started, or at the end of the file.
proof fn lemma_info_walk_after(file: Seq<u8>, pos: int, consumed: int, size: int, h: SoundFontHeaderView)
    requires
        0 <= pos,
    ensures
        info_walk(file, pos, consumed, size, h) matches Ok((p, _)) ==> (p >= pos || p == file.len()),
    decreases (if consumed <= size { size - consumed } else { 0 }),
{
    if consumed + 8 <= size {
        match bytes_at(file, pos, 4) {
            None => {},
            Some(id) => if pos + 8 <= file.len() {
                let n = le_u32(file, pos + 4) as int;
                let p = pos + 8;
                let c = consumed + 8;
                let pad: int = if n % 2 == 1 { 1 } else { 0 };
                if n <= 1024 * 1024 {
                    if id == seq![105u8, 102, 105, 108] || id == seq![105u8, 118, 101, 114] {
                        if p + 4 <= file.len() {
                            let v = (le_u16(file, p), le_u16(file, p + 2));
                            let h2 = if id == seq![105u8, 102, 105, 108] {
                                SoundFontHeaderView { internal_version: v, ..h }
                            } else {
                                SoundFontHeaderView { rom_version: v, ..h }
                            };
                            lemma_info_walk_after(file, p + 4 + pad, c + n + pad, size, h2);
                        }
                    } else if id == seq![73u8, 78, 65, 77] || id == seq![105u8, 114, 111, 109] || id == seq![105u8, 115, 110, 103] {
                        match bytes_at(file, p, n) {
                            None => {},
                            Some(b) => {
                                let t = pstring(b);
                                let h2 = if id == seq![73u8, 78, 65, 77] {
                                    SoundFontHeaderView { name: t, ..h }
                                } else if id == seq![105u8, 114, 111, 109] {
                                    SoundFontHeaderView { rom_name: t, ..h }
                                } else {
                                    SoundFontHeaderView { software: t, ..h }
                                };
                                lemma_info_walk_after(file, p + n + pad, c + n + pad, size, h2);
                            },
                        }
                    } else if id == seq![115u8, 114, 102, 111] {
                        if p + 4 <= file.len() {
                            lemma_info_walk_after(file, p + 4, c + n, size, SoundFontHeaderView { sample_rate: le_u32(file, p), ..h });
                        }
                    } else {
                        lemma_info_walk_after(file, p + n + pad, c + n + pad, size, h);
                    }
                }
            },
        }
    }
}

proof fn lemma_list_walk_after(file: Seq<u8>, pos: int, remaining: int, iter: int, c: Chunks, hydra: bool)
    requires
        0 <= remaining,
    ensures
        list_walk(file, pos, remaining, iter, c, hydra) matches Ok((p, _)) ==> p >= pos,
    decreases 100 - iter,
{
    if remaining > 8 && iter < 100 && pos + 8 <= file.len() {
        match bytes_at(file, pos, 4) {
            None => {},
            Some(id) => {
                let n = le_u32(file, pos + 4) as int;
                let rem = remaining - 8;
                if n <= rem + 8 {
                    match list_keep(file, pos + 8, n, id, c, hydra) {
                        Err(e) => {},
                        Ok(c2) => {
                            let r2 = wrap32(rem - n);
                            if n % 2 == 1 && r2 > 0 {
                                lemma_list_walk_after(file, pos + 8 + n + 1, r2 - 1, iter + 1, c2, hydra);
                            } else {
                                lemma_list_walk_after(file, pos + 8 + n, r2, iter + 1, c2, hydra);
                            }
                        },
                    }
                }
            },
        }
    }
}

proof fn lemma_bare_pdta_walk_after(file: Seq<u8>, pos: int, remaining: int, c: Chunks)
    ensures
        bare_pdta_walk(file, pos, remaining, c) matches Ok((p, _)) ==> p >= pos,
    decreases (if pos <= file.len() { file.len() - pos } else { 0 }),
{
    if remaining > 8 && pos + 8 <= file.len() && 0 <= pos {
        let id = file.subrange(pos, pos + 4);
        let n = le_u32(file, pos + 4) as int;
        match bytes_at(file, pos + 8, n) {
            None => {},
            Some(b) => {
                let c2 = keep_sub(c, id, b, false);
                let r2 = wrap32(remaining - 8 - n);
                if n % 2 == 1 && r2 > 0 {
                    lemma_bare_pdta_walk_after(file, pos + 8 + n + 1, r2 - 1, c2);
                } else {
                    lemma_bare_pdta_walk_after(file, pos + 8 + n, r2, c2);
                }
            },
        }
    }
}

/// The contents of a LIST chunk of form `form`, `ls` bytes from `q`: where
/// the walk goes on and what it has collected. INFO is read and then
/// skipped as a whole (padded to even length); `sdta` and `pdta` are walked;
/// other lists are skipped.
pub open spec fn list_body(file: Seq<u8>, q: int, form: Seq<u8>, ls: int, c: Chunks) -> Result<(int, Chunks), ParseErrorView> {
    if form == seq![73u8, 78, 70, 79] {
        match info_walk(file, q, 0, ls, default_header()) {
            Err(e) => Err(e),
            Ok((_, h)) => Ok((q + ls + ls % 2, Chunks { header: Some(h), ..c })),
        }
    } else if form == seq![115u8, 100, 116, 97] {
        list_walk(file, q, ls, 0, c, false)
    } else if form == seq![112u8, 100, 116, 97] {
        list_walk(file, q, ls, 0, c, true)
    } else {
        Ok((q + ls, c))
    }
}

/// A top-level chunk with code `id` and size `n` whose contents start at
/// `p`: where the walk goes on and what it has collected. A LIST is read by
/// its form (`n - 4` bytes, as 32-bit unsigned arithmetic gives it); a bare
/// INFO is read as INFO data; a bare `sdta` holds a sub-chunk header and
/// then `n - 8` sample bytes; a bare `pdta` holds hydra sub-chunks; other
/// chunks are skipped. Chunks are padded to even length.
pub open spec fn top_chunk(file: Seq<u8>, p: int, id: Seq<u8>, n: int, c: Chunks) -> Result<(int, Chunks), ParseErrorView> {
    let pad = n % 2;
    if id == seq![76u8, 73, 83, 84] {
        match bytes_at(file, p, 4) {
            None => Err(ParseErrorView::IoError),
            Some(form) => match list_body(file, p + 4, form, wrap32(n - 4), c) {
                Err(e) => Err(e),
                Ok((np, c2)) => Ok((np + pad, c2)),
            },
        }
    } else if id == seq![73u8, 78, 70, 79] {
        match info_walk(file, p, 0, n, default_header()) {
            Err(e) => Err(e),
            Ok((np, h)) => Ok((np, Chunks { header: Some(h), ..c })),
        }
    } else if id == seq![115u8, 100, 116, 97] {
        if p + 8 > file.len() {
            Err(ParseErrorView::IoError)
        } else {
            match bytes_at(file, p + 8, wrap32(n - 8)) {
                None => Err(ParseErrorView::IoError),
                Some(b) => Ok((p + 8 + wrap32(n - 8) + pad, Chunks { smpl: b, ..c })),
            }
        }
    } else if id == seq![112u8, 100, 116, 97] {
        bare_pdta_walk(file, p, n, c)
    } else {
        Ok((p + n + pad, c))
    }
}

pub proof fn lemma_top_chunk_after(file: Seq<u8>, p: int, id: Seq<u8>, n: int, c: Chunks)
    requires
        8 <= p <= file.len(),
        0 < n < 0x1_0000_0000,
    ensures
        top_chunk(file, p, id, n, c) matches Ok((np, _)) ==> np >= p - 7,
{
    if id == seq![76u8, 73, 83, 84] {
        match bytes_at(file, p, 4) {
            None => {},
            Some(form) => {
                let ls = wrap32(n - 4);
                if form == seq![115u8, 100, 116, 97] {
                    lemma_list_walk_after(file, p + 4, ls, 0, c, false);
                } else if form == seq![112u8, 100, 116, 97] {
                    lemma_list_walk_after(file, p + 4, ls, 0, c, true);
                }
            },
        }
    } else if id == seq![73u8, 78, 70, 79] {
        lemma_info_walk_after(file, p, 0, n, default_header());
    } else if id == seq![112u8, 100, 116, 97] {
        lemma_bare_pdta_walk_after(file, p, n, c);
    }
}

/// The top-level chunks from `pos` on. The walk ends at the end of the
/// file, at 2 GiB, where no chunk code can be read, and at a chunk that is
/// empty or larger than 500 MB.
pub open spec fn top_walk(file: Seq<u8>, pos: int, c: Chunks) -> Result<Chunks, ParseErrorView>
    decreases (if pos < file.len() { file.len() - pos } else { 0 }),
{
    if pos >= file.len() || pos >= 0x8000_0000 || pos < 0 {
        Ok(c)
    } else if pos + 4 > file.len() {
        Ok(c)
    } else if pos + 8 > file.len() {
        Err(ParseErrorView::IoError)
    } else {
        let id = file.subrange(pos, pos + 4);
        let n = le_u32(file, pos + 4) as int;
        if n > 524_288_000 || n == 0 {
            Ok(c)
        } else {
            match top_chunk(file, pos + 8, id, n, c) {
                Err(e) => Err(e),
                Ok((np, c2)) => {
                    proof {
                        lemma_top_chunk_after(file, pos + 8, id, n, c);
                    }
                    top_walk(file, np, c2)
                },
            }
        }
    }
}

/// The collected chunks as the walk holds them.
pub struct ChunkData {
    pub header: Option<SoundFontHeader>,
    pub smpl: Vec<u8>,
    pub phdr: Vec<u8>,
    pub pbag: Vec<u8>,
    pub pgen: Vec<u8>,
    pub ihdr: Vec<u8>,
    pub ibag: Vec<u8>,
    pub igen: Vec<u8>,
    pub shdr: Vec<u8>,
}

impl View for ChunkData {
    type V = Chunks;

    open spec fn view(&self) -> Chunks {
        Chunks {
            header: match self.header {
                Some(h) => Some(h@),
                None => None,
            },
            smpl: self.smpl@,
            phdr: self.phdr@,
            pbag: self.pbag@,
            pgen: self.pgen@,
            ihdr: self.ihdr@,
            ibag: self.ibag@,
            igen: self.igen@,
            shdr: self.shdr@,
        }
    }
}

/// Nothing collected yet.
pub open spec fn no_chunks() -> Chunks {
    Chunks {
        header: None,
        smpl: Seq::empty(),
        phdr: Seq::empty(),
        pbag: Seq::empty(),
        pgen: Seq::empty(),
        ihdr: Seq::empty(),
        ibag: Seq::empty(),
        igen: Seq::empty(),
        shdr: Seq::empty(),
    }
}

/// `a - b` in 32-bit unsigned wrapping arithmetic.
fn sub_wrap32(a: u32, b: u32) -> (r: u32)
    ensures
        r == wrap32(a - b),
{
    if b <= a {
        a - b
    } else {
        (a as u64 + 0x1_0000_0000 - b as u64) as u32
    }
}

/// Keeps a hydra sub-chunk (see `keep_sub`).
fn keep_chunk(out: &mut ChunkData, id: &Vec<u8>, data: Vec<u8>, in_list: bool)
    requires
        id@.len() == 4,
    ensures
        final(out)@ == keep_sub(old(out)@, id@, data@, in_list),
{
    if id_is(id, 112, 104, 100, 114) {
        out.phdr = data;
    } else if id_is(id, 112, 98, 97, 103) {
        out.pbag = data;
    } else if id_is(id, 112, 103, 101, 110) {
        out.pgen = data;
    } else if (in_list && id_is(id, 105, 110, 115, 116)) || (!in_list && id_is(id, 105, 104, 100, 114)) {
        out.ihdr = data;
    } else if id_is(id, 105, 98, 97, 103) {
        out.ibag = data;
    } else if id_is(id, 105, 103, 101, 110) {
        out.igen = data;
    } else if id_is(id, 115, 104, 100, 114) {
        out.shdr = data;
    }
}

/// Walks the sub-chunks of a `sdta` (`hydra` false) or `pdta` LIST.
fn walk_list(reader: &mut Cursor, list_size: u32, hydra: bool, out: &mut ChunkData) -> (r: Result<(), ParseError>)
    requires
        parse_fits(old(reader).data@),
        old(reader).pos <= 0x100_0000_0000,
    ensures
        final(reader).data == old(reader).data,
        match list_walk(old(reader).data@, old(reader).pos as int, list_size as int, 0, old(out)@, hydra) {
            Ok((p, c)) => r is Ok && final(reader).pos == p && final(out)@ == c,
            Err(e) => (r matches Err(x) && x@ == e),
        },
        r is Ok ==> final(reader).pos <= 0x200_0000_0000,
{
    let ghost file = reader.data@;
    let ghost goal = list_walk(file, reader.pos as int, list_size as int, 0, out@, hydra);
    let mut remaining: u32 = list_size;
    let mut iter: u32 = 0;
    let mut done = false;
    while !done && remaining > 8 && iter < 100
        invariant
            reader.data == old(reader).data,
            file == reader.data@,
            parse_fits(file),
            goal == list_walk(file, old(reader).pos as int, list_size as int, 0, old(out)@, hydra),
            iter <= 100,
            reader.pos <= 0x100_0000_0000 + iter * 0x2_0000_0000,
            !done ==> goal == list_walk(file, reader.pos as int, remaining as int, iter as int, out@, hydra),
            done ==> goal == Ok::<(int, Chunks), ParseErrorView>((reader.pos + remaining, out@)),
        decreases 100 - iter, (if done { 0int } else { 1int }),
    {
        let id = match Sf2Parser::read_four_cc(reader) {
            Ok(v) => v,
            Err(e) => return Err(e),
        };
        let sub = match reader.read_u32() {
            Ok(v) => v,
            Err(e) => return Err(e),
        };
        iter = iter + 1;
        remaining = remaining - 8;
        if sub as u64 > remaining as u64 + 8 {
            done = true;
        } else {
            if hydra {
                let b = match reader.read_exact(sub as usize) {
                    Ok(b) => b,
                    Err(e) => return Err(e),
                };
                keep_chunk(out, &id, b, true);
            } else if id_is(&id, 115, 109, 112, 108) {
                let b = match reader.read_exact(sub as usize) {
                    Ok(b) => b,
                    Err(e) => return Err(e),
                };
                out.smpl = b;
            } else {
                reader.pos = reader.pos + sub as u64;
            }
            remaining = sub_wrap32(remaining, sub);
            if sub % 2 == 1 && remaining > 0 {
                reader.pos = reader.pos + 1;
                remaining = remaining - 1;
            }
        }
    }
    reader.pos = reader.pos + remaining as u64;
    Ok(())
}

/// Walks the sub-chunks of a bare `pdta` chunk.
fn walk_bare_pdta(reader: &mut Cursor, size: u32, out: &mut ChunkData) -> (r: Result<(), ParseError>)
    requires
        parse_fits(old(reader).data@),
        old(reader).pos <= old(reader).data@.len(),
    ensures
        final(reader).data == old(reader).data,
        match bare_pdta_walk(old(reader).data@, old(reader).pos as int, size as int, old(out)@) {
            Ok((p, c)) => r is Ok && final(reader).pos == p && final(out)@ == c,
            Err(e) => (r matches Err(x) && x@ == e),
        },
{
    let ghost file = reader.data@;
    let ghost goal = bare_pdta_walk(file, reader.pos as int, size as int, out@);
    let len = reader.data.len() as u64;
    let mut remaining: u32 = size;
    while remaining > 8
        invariant
            reader.data == old(reader).data,
            file == reader.data@,
            parse_fits(file),
            len == file.len(),
            reader.pos <= len + 1,
            goal == bare_pdta_walk(file, old(reader).pos as int, size as int, old(out)@),
            goal == bare_pdta_walk(file, reader.pos as int, remaining as int, out@),
        decreases (if reader.pos <= len { len - reader.pos } else { 0 }),
    {
        let id = match Sf2Parser::read_four_cc(reader) {
            Ok(v) => v,
            Err(e) => return Err(e),
        };
        let sub = match reader.read_u32() {
            Ok(v) => v,
            Err(e) => return Err(e),
        };
        remaining = remaining - 8;
        let b = match reader.read_exact(sub as usize) {
            Ok(b) => b,
            Err(e) => return Err(e),
        };
        keep_chunk(out, &id, b, false);
        remaining = sub_wrap32(remaining, sub);
        if sub % 2 == 1 && remaining > 0 {
            reader.pos = reader.pos + 1;
            remaining = remaining - 1;
        }
    }
    Ok(())
}

/// Reads one top-level chunk whose contents start at the reader's position.
fn read_top_chunk(reader: &mut Cursor, id: &Vec<u8>, n: u32, out: &mut ChunkData) -> (r: Result<(), ParseError>)
    requires
        parse_fits(old(reader).data@),
        8 <= old(reader).pos <= 0x8000_0008,
        old(reader).pos <= old(reader).data@.len(),
        id@.len() == 4,
        0 < n <= 524_288_000,
    ensures
        final(reader).data == old(reader).data,
        match top_chunk(old(reader).data@, old(reader).pos as int, id@, n as int, old(out)@) {
            Ok((p, c)) => r is Ok && final(reader).pos == p && final(out)@ == c,
            Err(e) => (r matches Err(x) && x@ == e),
        },
{
    if id_is(id, 76, 73, 83, 84) {
        let form = match Sf2Parser::read_four_cc(reader) {
            Ok(v) => v,
            Err(e) => return Err(e),
        };
        let ls = sub_wrap32(n, 4);
        if id_is(&form, 73, 78, 70, 79) {
            let start = reader.pos;
            let h = match Sf2Parser::parse_info_chunk(reader, ls) {
                Ok(h) => h,
                Err(e) => return Err(e),
            };
            out.header = Some(h);
            reader.pos = start + ls as u64 + (ls % 2) as u64;
        } else if id_is(&form, 115, 100, 116, 97) {
            match walk_list(reader, ls, false, out) {
                Ok(()) => {},
                Err(e) => return Err(e),
            }
        } else if id_is(&form, 112, 100, 116, 97) {
            match walk_list(reader, ls, true, out) {
                Ok(()) => {},
                Err(e) => return Err(e),
            }
        } else {
            reader.pos = reader.pos + ls as u64;
        }
        if n % 2 == 1 {
            reader.pos = reader.pos + 1;
        }
    } else if id_is(id, 73, 78, 70, 79) {
        let h = match Sf2Parser::parse_info_chunk(reader, n) {
            Ok(h) => h,
            Err(e) => return Err(e),
        };
        out.header = Some(h);
    } else if id_is(id, 115, 100, 116, 97) {
        match Sf2Parser::read_four_cc(reader) {
            Ok(_) => {},
            Err(e) => return Err(e),
        }
        match reader.read_u32() {
            Ok(_) => {},
            Err(e) => return Err(e),
        }
        let b = match reader.read_exact(sub_wrap32(n, 8) as usize) {
            Ok(b) => b,
            Err(e) => return Err(e),
        };
        out.smpl = b;
        if n % 2 == 1 {
            reader.pos = reader.pos + 1;
        }
    } else if id_is(id, 112, 100, 116, 97) {
        match walk_bare_pdta(reader, n, out) {
            Ok(()) => {},
            Err(e) => return Err(e),
        }
    } else {
        reader.pos = reader.pos + n as u64 + (n % 2) as u64;
    }
    Ok(())
}

/// Walks the top-level chunks from the reader's position.
fn walk_chunks(reader: &mut Cursor, out: &mut ChunkData) -> (r: Result<(), ParseError>)
    requires
        parse_fits(old(reader).data@),
    ensures
        final(reader).data == old(reader).data,
        match top_walk(old(reader).data@, old(reader).pos as int, old(out)@) {
            Ok(c) => r is Ok && final(out)@ == c,
            Err(e) => (r matches Err(x) && x@ == e),
        },
{
    let file_end = reader.data.len() as u64;
    let ghost file = reader.data@;
    let ghost goal = top_walk(file, reader.pos as int, out@);
    let mut done = false;
    while !done
        invariant
            reader.data == old(reader).data,
            file == reader.data@,
            parse_fits(file),
            file_end == file.len(),
            goal == top_walk(file, old(reader).pos as int, old(out)@),
            !done ==> goal == top_walk(file, reader.pos as int, out@),
            done ==> goal == Ok::<Chunks, ParseErrorView>(out@),
        decreases (if reader.pos < file_end { file_end - reader.pos } else { 0 }), (if done { 0int } else { 1int }),
    {
        let pos = reader.pos;
        if pos >= file_end || pos >= 2_147_483_648 {
            done = true;
        } else {
            match Sf2Parser::read_four_cc(reader) {
                Err(_) => {
                    done = true;
                },
                Ok(id) => {
                    let n = match reader.read_u32() {
                        Ok(v) => v,
                        Err(e) => return Err(e),
                    };
                    if n > 524_288_000 || n == 0 {
                        done = true;
                    } else {
                        let ghost before = out@;
                        match read_top_chunk(reader, &id, n, out) {
                            Ok(()) => {},
                            Err(e) => return Err(e),
                        }
                        proof {
                            lemma_top_chunk_after(file, pos + 8, id@, n as int, before);
                        }
                    }
                },
            }
        }
    }
    Ok(())
}

/// A parsed SoundFont.
#[derive(Debug)]
pub struct Sf2File {
    pub header: SoundFontHeader,
    /// The sample points that all samples share.
    pub smpl_data: Arc<Vec<i16>>,
    pub samples: Vec<Sample>,
    pub instruments: Vec<Instrument>,
    pub presets: Vec<Preset>,
}

pub struct Sf2FileView {
    pub header: SoundFontHeaderView,
    pub smpl_data: Seq<i16>,
    pub samples: Seq<SampleView>,
    pub instruments: Seq<InstrumentView>,
    pub presets: Seq<PresetView>,
}

impl View for Sf2File {
    type V = Sf2FileView;

    open spec fn view(&self) -> Sf2FileView {
        Sf2FileView {
            header: self.header@,
            smpl_data: self.smpl_data@,
            samples: self.samples@.map_values(|x: Sample| x@),
            instruments: self.instruments@.map_values(|x: Instrument| x@),
            presets: self.presets@.map_values(|x: Preset| x@),
        }
    }
}

/// The sample points of the `smpl` bytes: 16-bit little-endian values, an
/// odd last byte ignored.
pub open spec fn sample_points(smpl: Seq<u8>) -> Seq<i16> {
    Seq::new(smpl.len() / 2, |k: int| le_i16(smpl, 2 * k))
}

/// The font built from the collected chunks.
pub open spec fn font_of(c: Chunks) -> Sf2FileView {
    let points = sample_points(c.smpl);
    let samples = shdr_samples(c.shdr, points.len());
    let instruments = instruments_of(c.ihdr, c.ibag, c.igen, samples.len() as int);
    Sf2FileView {
        header: match c.header {
            Some(h) => h,
            None => default_header(),
        },
        smpl_data: points,
        samples,
        instruments,
        presets: presets_of(c.phdr, c.pbag, c.pgen, instruments.len() as int),
    }
}

/// The error for a file whose code at some place is `got` where `what` was expected.
pub open spec fn wrong_code(what: Seq<char>, got: Seq<u8>) -> ParseErrorView {
    ParseErrorView::InvalidFormat("Expected "@ + what + ", got: "@ + four_cc_text(got))
}

/// What parsing a file gives: it must start with `RIFF`, a size and the
/// form `sfbk`; then the top-level chunks are walked from byte 12.
pub open spec fn sf2_parse(file: Seq<u8>) -> Result<Sf2FileView, ParseErrorView> {
    if file.len() < 4 {
        Err(ParseErrorView::IoError)
    } else if file.subrange(0, 4) != seq![82u8, 73, 70, 70] {
        Err(wrong_code("RIFF"@, file.subrange(0, 4)))
    } else if file.len() < 12 {
        Err(ParseErrorView::IoError)
    } else if file.subrange(8, 12) != seq![115u8, 102, 98, 107] {
        Err(wrong_code("sfbk"@, file.subrange(8, 12)))
    } else {
        match top_walk(file, 12, no_chunks()) {
            Err(e) => Err(e),
            Ok(c) => Ok(font_of(c)),
        }
    }
}

pub(crate) fn points_from_bytes(b: &[u8]) -> (r: Vec<i16>)
    ensures
        r@ == sample_points(b@),
{
    let len = b.len();
    let n = len / 2;
    let mut out: Vec<i16> = Vec::new();
    let mut k: usize = 0;
    while k < n
        invariant
            0 <= k <= n,
            len == b@.len(),
            n == len / 2,
            out@.len() == k,
            forall|j: int| 0 <= j < k ==> out@[j] == le_i16(b@, 2 * j),
        decreases n - k,
    {
        out.push(read_le_i16(b, 2 * k));
        k = k + 1;
    }
    assert(out@ =~= sample_points(b@));
    out
}

impl Sf2Parser {
    /// Parses a SoundFont file held in memory (see `sf2_parse`).
    pub fn parse(data: &[u8]) -> (r: Result<Sf2File, ParseError>)
        requires
            parse_fits(data@),
        ensures
            match sf2_parse(data@) {
                Ok(f) => (r matches Ok(x) && x@ == f),
                Err(e) => (r matches Err(x) && x@ == e),
            },
    {
        let mut reader = Cursor { data, pos: 0 };
        let riff = match Sf2Parser::read_four_cc(&mut reader) {
            Ok(v) => v,
            Err(e) => return Err(e),
        };
        if !id_is(&riff, 82, 73, 70, 70) {
            let got = four_cc_to_string(riff.as_slice());
            return Err(ParseError::InvalidFormat(expected_got("RIFF", got.as_str())));
        }
        match reader.read_u32() {
            Ok(_) => {},
            Err(e) => return Err(e),
        }
        let form = match Sf2Parser::read_four_cc(&mut reader) {
            Ok(v) => v,
            Err(e) => return Err(e),
        };
        if !id_is(&form, 115, 102, 98, 107) {
            let got = four_cc_to_string(form.as_slice());
            return Err(ParseError::InvalidFormat(expected_got("sfbk", got.as_str())));
        }
        let mut out = ChunkData {
            header: None,
            smpl: Vec::new(),
            phdr: Vec::new(),
            pbag: Vec::new(),
            pgen: Vec::new(),
            ihdr: Vec::new(),
            ibag: Vec::new(),
            igen: Vec::new(),
            shdr: Vec::new(),
        };
        assert(out@ == no_chunks());
        match walk_chunks(&mut reader, &mut out) {
            Ok(()) => {},
            Err(e) => return Err(e),
        }
        let ChunkData { header, smpl, phdr, pbag, pgen, ihdr, ibag, igen, shdr } = out;
        let points = points_from_bytes(smpl.as_slice());
        let samples = match Sf2Parser::parse_shdr_and_samples(shdr.as_slice(), &points) {
            Ok(v) => v,
            Err(e) => return Err(e),
        };
        let (presets, instruments) = match Sf2Parser::process_preset_data(
            phdr.as_slice(),
            pbag.as_slice(),
            pgen.as_slice(),
            ihdr.as_slice(),
            ibag.as_slice(),
            igen.as_slice(),
            samples.len(),
        ) {
            Ok(v) => v,
            Err(e) => return Err(e),
        };
        let header = match header {
            Some(h) => h,
            None => SoundFontHeader {
                name: String::new(),
                rom_name: String::new(),
                rom_version: (0, 0),
                internal_version: (0, 0),
                software: String::new(),
                sample_rate: 44100,
            },
        };
        assert(samples@.len() == samples@.map_values(|x: Sample| x@).len());
        Ok(Sf2File { header, smpl_data: Arc::new(points), samples, instruments, presets })
    }
}

} // verus!
