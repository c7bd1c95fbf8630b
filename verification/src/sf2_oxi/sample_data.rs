//! The sample-data list (`sdta`) of a SoundFont.
use vstd::prelude::*;
use crate::sf2_oxi::error::{Error, ErrorView};
use crate::sf2_oxi::riff::{Chunk, ChunkView, fourcc, file_fits, chunk_at, next_chunk_pos};
use crate::sf2_oxi::info::{list_fits, list_type_is};

verus! {

/// Where the contents of a sample chunk lie in the file.
#[derive(PartialEq, Eq, Debug, Clone, Copy, Structural)]
pub struct SampleChunk {
    pub offset: u64,
    pub len: u32,
}

impl SampleChunk {
    /// The place of the contents of `chunk`.
    pub fn new(chunk: Chunk) -> (s: SampleChunk)
        requires
            chunk.pos + 8 <= u64::MAX,
        ensures
            s.offset == chunk.pos + 8,
            s.len == chunk.len,
    {
        SampleChunk { offset: chunk.content_offset(), len: chunk.len() }
    }
}

/// The 16-bit (`smpl`) and 24-bit extension (`sm24`) sample chunks.
#[derive(Debug, Clone, Copy)]
pub struct SampleData {
    pub smpl: Option<SampleChunk>,
    pub sm24: Option<SampleChunk>,
}

/// The sample chunk of a chunk header.
pub open spec fn sample_chunk_of(c: ChunkView) -> SampleChunk {
    SampleChunk { offset: (c.pos + 8) as u64, len: c.len }
}

/// The members of the sample-data list from `cur` to `end`: `smpl` and
/// `sm24` are noted (a later one replaces an earlier one); others are errors.
pub open spec fn sdta_fold(
    file: Seq<u8>,
    cur: int,
    end: int,
    acc: (Option<SampleChunk>, Option<SampleChunk>),
) -> Result<(Option<SampleChunk>, Option<SampleChunk>), ErrorView>
    decreases (if cur < end { end - cur } else { 0 }),
{
    if cur >= end {
        Ok(acc)
    } else {
        match chunk_at(file, cur) {
            None => Err(ErrorView::Io),
            Some(c) => if c.id == fourcc(115, 109, 112, 108) {
                sdta_fold(file, next_chunk_pos(cur, c.len as int), end, (Some(sample_chunk_of(c)), acc.1))
            } else if c.id == fourcc(115, 109, 50, 52) {
                sdta_fold(file, next_chunk_pos(cur, c.len as int), end, (acc.0, Some(sample_chunk_of(c))))
            } else {
                Err(ErrorView::UnexpectedMemberOfSampleData(c))
            },
        }
    }
}

impl SampleData {
    /// Reads a sample-data list chunk.
    pub fn read(sdta: &Chunk, file: &[u8]) -> (r: Result<SampleData, Error>)
        requires
            sdta.id.0@ == fourcc(76, 73, 83, 84),
            list_type_is(file@, *sdta, fourcc(115, 100, 116, 97)),
            list_fits(file@, *sdta),
        ensures
            sdta.pos + 12 > file@.len() ==> r matches Err(Error::Io),
            sdta.pos + 12 <= file@.len() ==> match sdta_fold(
                file@,
                sdta.pos + 12,
                sdta.pos + 4 + sdta.len,
                (None, None),
            ) {
                Ok(acc) => (r matches Ok(x) && x.smpl == acc.0 && x.sm24 == acc.1),
                Err(e) => (r matches Err(x) && x@ == e),
            },
    {
        match sdta.read_type(file) {
            Ok(_) => {},
            Err(e) => return Err(e),
        }
        let ghost goal = sdta_fold(file@, sdta.pos + 12, sdta.pos + 4 + sdta.len, (None, None));
        let mut smpl: Option<SampleChunk> = None;
        let mut sm24: Option<SampleChunk> = None;
        let mut iter = sdta.iter();
        let mut done = false;
        while !done
            invariant
                file_fits(file@),
                iter.end() == sdta.pos + 4 + sdta.len,
                goal == sdta_fold(file@, sdta.pos + 12, sdta.pos + 4 + sdta.len, (None, None)),
                !done ==> goal == sdta_fold(file@, iter.cur(), iter.end(), (smpl, sm24)),
                done ==> goal == Ok::<(Option<SampleChunk>, Option<SampleChunk>), ErrorView>((smpl, sm24)),
            decreases (if iter.cur() < iter.end() { iter.end() - iter.cur() } else { 0 }), (if done { 0int } else { 1int }),
        {
            match iter.next(file) {
                None => {
                    done = true;
                },
                Some(Err(e)) => {
                    return Err(e);
                },
                Some(Ok(ch)) => {
                    let id = ch.id();
                    if id.is(115, 109, 112, 108) {
                        smpl = Some(SampleChunk::new(ch));
                    } else if id.is(115, 109, 50, 52) {
                        sm24 = Some(SampleChunk::new(ch));
                    } else {
                        return Err(Error::UnexpectedMemberOfSampleData(ch));
                    }
                },
            }
        }
        Ok(SampleData { smpl, sm24 })
    }
}

} // verus!
