//! The INFO texts of a SoundFont file: version, author, name, comments,
//! date, tool and copyright, read from the first chunk after the RIFF header.
use vstd::prelude::*;
use crate::bytes::{le_u32, read_le_u32};
use crate::text::{spec_utf8_lossy, utf8_lossy, chars_of, string_from_chars};

verus! {

/// The INFO texts of a SoundFont (each absent when the file has none).
#[derive(Debug, Clone)]
pub struct SoundFontInfo {
    /// `IFIL`.
    pub version: Option<String>,
    /// `IENG`.
    pub author: Option<String>,
    /// `INAM`.
    pub target: Option<String>,
    /// `ICMT`.
    pub comments: Option<String>,
    /// `ICRD`.
    pub created: Option<String>,
    /// `ISFT`.
    pub tool: Option<String>,
    /// `ICOP` or `ICMV`.
    pub copyright: Option<String>,
}

pub struct SoundFontInfoView {
    pub version: Option<Seq<char>>,
    pub author: Option<Seq<char>>,
    pub target: Option<Seq<char>>,
    pub comments: Option<Seq<char>>,
    pub created: Option<Seq<char>>,
    pub tool: Option<Seq<char>>,
    pub copyright: Option<Seq<char>>,
}

pub open spec fn text_view(s: Option<String>) -> Option<Seq<char>> {
    match s {
        Some(t) => Some(t@),
        None => None,
    }
}

impl View for SoundFontInfo {
    type V = SoundFontInfoView;

    open spec fn view(&self) -> SoundFontInfoView {
        SoundFontInfoView {
            version: text_view(self.version),
            author: text_view(self.author),
            target: text_view(self.target),
            comments: text_view(self.comments),
            created: text_view(self.created),
            tool: text_view(self.tool),
            copyright: text_view(self.copyright),
        }
    }
}

/// No text found.
pub open spec fn empty_sf_info() -> SoundFontInfoView {
    SoundFontInfoView {
        version: None,
        author: None,
        target: None,
        comments: None,
        created: None,
        tool: None,
        copyright: None,
    }
}

impl Default for SoundFontInfo {
    fn default() -> (r: Self)
        ensures
            r@ == empty_sf_info(),
    {
        SoundFontInfo {
            version: None,
            author: None,
            target: None,
            comments: None,
            created: None,
            tool: None,
            copyright: None,
        }
    }
}

/// The file ended before a value that must be read.
#[derive(Debug, Clone, Copy, PartialEq, Eq, Structural)]
pub enum SfInfoError {
    UnexpectedEof,
}

/// The text without its trailing NUL characters.
pub open spec fn without_trailing_nuls(s: Seq<char>) -> Seq<char>
    decreases s.len(),
{
    if s.len() > 0 && s.last() == '\0' {
        without_trailing_nuls(s.drop_last())
    } else {
        s
    }
}

/// A sub-chunk's text: its bytes decoded (invalid UTF-8 replaced), trailing
/// NULs dropped.
pub open spec fn info_text(b: Seq<u8>) -> Seq<char> {
    without_trailing_nuls(spec_utf8_lossy(b))
}

/// Records text `t` of a sub-chunk with code `id`; other codes are ignored.
pub open spec fn set_info_text(info: SoundFontInfoView, id: Seq<u8>, t: Seq<char>) -> SoundFontInfoView {
    if id == seq![73u8, 70, 73, 76] {
        SoundFontInfoView { version: Some(t), ..info }
    } else if id == seq![73u8, 69, 78, 71] {
        SoundFontInfoView { author: Some(t), ..info }
    } else if id == seq![73u8, 78, 65, 77] {
        SoundFontInfoView { target: Some(t), ..info }
    } else if id == seq![73u8, 67, 77, 84] {
        SoundFontInfoView { comments: Some(t), ..info }
    } else if id == seq![73u8, 67, 82, 68] {
        SoundFontInfoView { created: Some(t), ..info }
    } else if id == seq![73u8, 83, 70, 84] {
        SoundFontInfoView { tool: Some(t), ..info }
    } else if id == seq![73u8, 67, 79, 80] || id == seq![73u8, 67, 77, 86] {
        SoundFontInfoView { copyright: Some(t), ..info }
    } else {
        info
    }
}

/// The INFO sub-chunks from `pos` while `pos` is before `end`; each is read
/// whole (the file must hold it) and padded to even length.
pub open spec fn sf_info_walk(file: Seq<u8>, pos: int, end: int, info: SoundFontInfoView) -> Result<SoundFontInfoView, SfInfoError>
    decreases (if pos <= file.len() { file.len() - pos } else { 0 }),
{
    if pos >= end {
        Ok(info)
    } else if pos < 0 || pos + 8 > file.len() {
        Err(SfInfoError::UnexpectedEof)
    } else {
        let id = file.subrange(pos, pos + 4);
        let n = le_u32(file, pos + 4) as int;
        if pos + 8 + n > file.len() {
            Err(SfInfoError::UnexpectedEof)
        } else {
            let info2 = set_info_text(info, id, info_text(file.subrange(pos + 8, pos + 8 + n)));
            sf_info_walk(file, pos + 8 + n + n % 2, end, info2)
        }
    }
}

/// The INFO texts of a SoundFont file: after the 12-byte RIFF header, the
/// first chunk, when it is a LIST of type INFO, is walked.
pub open spec fn sf_info(file: Seq<u8>) -> Result<SoundFontInfoView, SfInfoError> {
    if file.len() < 20 {
        Err(SfInfoError::UnexpectedEof)
    } else if file.subrange(12, 16) != seq![76u8, 73, 83, 84] {
        Ok(empty_sf_info())
    } else if file.len() < 24 {
        Err(SfInfoError::UnexpectedEof)
    } else if file.subrange(20, 24) != seq![73u8, 78, 70, 79] {
        Ok(empty_sf_info())
    } else {
        sf_info_walk(file, 24, 20 + le_u32(file, 16), empty_sf_info())
    }
}

fn tag_is(data: &[u8], pos: usize, a: u8, b: u8, c: u8, d: u8) -> (r: bool)
    requires
        pos + 4 <= data@.len(),
    ensures
        r == (data@.subrange(pos as int, pos + 4) == seq![a, b, c, d]),
{
    let r = data[pos] == a && data[pos + 1] == b && data[pos + 2] == c && data[pos + 3] == d;
    if r {
        assert(data@.subrange(pos as int, pos + 4) =~= seq![a, b, c, d]);
    }
    r
}

/// A sub-chunk's text (see `info_text`).
fn read_info_text(b: &[u8]) -> (r: String)
    ensures
        r@ == info_text(b@),
{
    let text = utf8_lossy(b);
    let chars = chars_of(text.as_str());
    let mut k = chars.len();
    assert(chars@.take(k as int) =~= chars@);
    while k > 0 && chars[k - 1] == '\0'
        invariant
            k <= chars@.len(),
            without_trailing_nuls(chars@) == without_trailing_nuls(chars@.take(k as int)),
        decreases k,
    {
        assert(chars@.take(k as int).drop_last() =~= chars@.take(k - 1));
        k = k - 1;
    }
    assert(chars@.take(chars@.len() as int) =~= chars@);
    assert(without_trailing_nuls(chars@.take(k as int)) == chars@.take(k as int));
    assert(chars@.subrange(0, k as int) =~= chars@.take(k as int));
    string_from_chars(&chars.as_slice()[0..k])
}

fn set_text(info: &mut SoundFontInfo, data: &[u8], pos: usize, t: String)
    requires
        pos + 4 <= data@.len(),
    ensures
        final(info)@ == set_info_text(old(info)@, data@.subrange(pos as int, pos + 4), t@),
{
    if tag_is(data, pos, 73, 70, 73, 76) {
        info.version = Some(t);
    } else if tag_is(data, pos, 73, 69, 78, 71) {
        info.author = Some(t);
    } else if tag_is(data, pos, 73, 78, 65, 77) {
        info.target = Some(t);
    } else if tag_is(data, pos, 73, 67, 77, 84) {
        info.comments = Some(t);
    } else if tag_is(data, pos, 73, 67, 82, 68) {
        info.created = Some(t);
    } else if tag_is(data, pos, 73, 83, 70, 84) {
        info.tool = Some(t);
    } else if tag_is(data, pos, 73, 67, 79, 80) || tag_is(data, pos, 73, 67, 77, 86) {
        info.copyright = Some(t);
    }
}

/// Reads the INFO texts of a SoundFont file held in memory (see `sf_info`).
pub fn parse_sf2_info(data: &[u8]) -> (r: Result<SoundFontInfo, SfInfoError>)
    requires
        data@.len() <= 0x1_0000_0000_0000,
    ensures
        match sf_info(data@) {
            Ok(v) => (r matches Ok(x) && x@ == v),
            Err(e) => r == Err::<SoundFontInfo, SfInfoError>(e),
        },
{
    let len = data.len();
    let mut info = SoundFontInfo::default();
    if len < 20 {
        return Err(SfInfoError::UnexpectedEof);
    }
    if !tag_is(data, 12, 76, 73, 83, 84) {
        return Ok(info);
    }
    if len < 24 {
        return Err(SfInfoError::UnexpectedEof);
    }
    if !tag_is(data, 20, 73, 78, 70, 79) {
        return Ok(info);
    }
    let end: u64 = 20 + read_le_u32(data, 16) as u64;
    let ghost file = data@;
    let mut pos: u64 = 24;
    while pos < end
        invariant
            file == data@,
            len == file.len(),
            len <= 0x1_0000_0000_0000,
            pos <= len + 1,
            end == 20 + le_u32(file, 16),
            sf_info(file) == sf_info_walk(file, pos as int, end as int, info@),
        decreases len + 1 - pos,
    {
        if pos + 8 > len as u64 {
            return Err(SfInfoError::UnexpectedEof);
        }
        let p = pos as usize;
        let n = read_le_u32(data, p + 4) as u64;
        if pos + 8 + n > len as u64 {
            return Err(SfInfoError::UnexpectedEof);
        }
        let t = read_info_text(&data[p + 8..p + 8 + n as usize]);
        set_text(&mut info, data, p, t);
        pos = pos + 8 + n + n % 2;
    }
    Ok(info)
}

} // verus!
