//! RIFF chunks of a SoundFont file held in memory.
use vstd::prelude::*;
use crate::bytes::{le_u32, read_le_u32};
use crate::sf2_oxi::error::Error;

verus! {

/// A reader together with a scratch buffer for chunk contents.
pub struct ScratchReader<T> {
    pub buff: Vec<u8>,
    pub io: T,
}

impl<T> ScratchReader<T> {
    /// A reader over `io` with an empty buffer.
    pub fn new(io: T) -> (r: Self)
        ensures
            r.buff@.len() == 0,
            r.io == io,
    {
        ScratchReader { buff: Vec::new(), io }
    }
}

/// A four-character chunk code.
#[derive(Debug, Clone, Copy)]
pub struct ChunkId(pub [u8; 4]);

/// The four bytes `a b c d` as a chunk code.
pub open spec fn fourcc(a: u8, b: u8, c: u8, d: u8) -> Seq<u8> {
    seq![a, b, c, d]
}

impl ChunkId {
    /// The code is `a b c d`.
    pub fn is(&self, a: u8, b: u8, c: u8, d: u8) -> (r: bool)
        ensures
            r == (self.0@ == fourcc(a, b, c, d)),
    {
        let r = self.0[0] == a && self.0[1] == b && self.0[2] == c && self.0[3] == d;
        proof {
            if r {
                assert(self.0@ =~= fourcc(a, b, c, d));
            }
        }
        r
    }
}

/// A chunk header: its position in the file, its code and the length of its contents.
#[derive(Debug, Clone, Copy)]
pub struct Chunk {
    pub pos: u64,
    pub id: ChunkId,
    pub len: u32,
}

/// Mathematical form of a chunk header.
pub struct ChunkView {
    pub pos: u64,
    pub id: Seq<u8>,
    pub len: u32,
}

impl View for Chunk {
    type V = ChunkView;

    open spec fn view(&self) -> ChunkView {
        ChunkView { pos: self.pos, id: self.id.0@, len: self.len }
    }
}

/// Iterator over the sub-chunks of a list chunk: the position of the next
/// header and the end of the list.
pub struct Iter {
    end: u64,
    cur: u64,
}

/// Files the reader handles: positions plus a chunk length stay within 64 bits.
pub open spec fn file_fits(file: Seq<u8>) -> bool {
    file.len() + 0x1_0000_0010 <= u64::MAX
}

/// The chunk header at `pos`, if the file holds its 8 bytes.
pub open spec fn chunk_at(file: Seq<u8>, pos: int) -> Option<ChunkView> {
    if 0 <= pos && pos + 8 <= file.len() {
        Some(ChunkView { pos: pos as u64, id: file.subrange(pos, pos + 4), len: le_u32(file, pos + 4) })
    } else {
        None
    }
}

/// Position of the header after a chunk (contents are padded to even length).
pub open spec fn next_chunk_pos(pos: int, len: int) -> int {
    pos + len + 8 + len % 2
}

/// The sub-chunks from `cur` to `end`, or the error that stops the walk.
pub open spec fn chunks_from(file: Seq<u8>, cur: int, end: int) -> Result<Seq<ChunkView>, Error>
    decreases (if cur < end { end - cur } else { 0 }),
{
    if cur >= end {
        Ok(Seq::empty())
    } else {
        match chunk_at(file, cur) {
            None => Err(Error::Io),
            Some(c) => match chunks_from(file, next_chunk_pos(cur, c.len as int), end) {
                Ok(rest) => Ok(seq![c] + rest),
                Err(e) => Err(e),
            },
        }
    }
}

impl Chunk {
    pub open spec fn content_start(&self) -> int {
        self.pos + 8
    }

    /// The chunk code.
    pub fn id(&self) -> (r: ChunkId)
        ensures
            r == self.id,
    {
        self.id
    }

    /// Length of the contents.
    pub fn len(&self) -> (r: u32)
        ensures
            r == self.len,
    {
        self.len
    }

    /// Position of the contents.
    pub fn content_offset(&self) -> (r: u64)
        requires
            self.pos + 8 <= u64::MAX,
        ensures
            r == self.pos + 8,
    {
        self.pos + 8
    }

    /// Reads the chunk header at `pos`.
    pub fn read(file: &[u8], pos: u64) -> (r: Result<Chunk, Error>)
        ensures
            match chunk_at(file@, pos as int) {
                Some(c) => (r matches Ok(d) && d@ == c),
                None => r matches Err(Error::Io),
            },
    {
        if pos > file.len() as u64 || file.len() as u64 - pos < 8 {
            return Err(Error::Io);
        }
        let p = pos as usize;
        let id = ChunkId([file[p], file[p + 1], file[p + 2], file[p + 3]]);
        assert(id.0@ =~= file@.subrange(pos as int, pos + 4));
        let len = read_le_u32(file, p + 4);
        Ok(Chunk { pos, id, len })
    }

    /// Reads the list type that starts the contents.
    pub fn read_type(&self, file: &[u8]) -> (r: Result<ChunkId, Error>)
        ensures
            self.pos + 12 <= file@.len() ==> (r matches Ok(id) && id.0@ == file@.subrange(
                self.pos + 8,
                self.pos + 12,
            )),
            self.pos + 12 > file@.len() ==> r matches Err(Error::Io),
    {
        if self.pos > file.len() as u64 || file.len() as u64 - self.pos < 12 {
            return Err(Error::Io);
        }
        let p = self.pos as usize + 8;
        let id = ChunkId([file[p], file[p + 1], file[p + 2], file[p + 3]]);
        assert(id.0@ =~= file@.subrange(self.pos + 8, self.pos + 12));
        Ok(id)
    }

    /// Reads `n` bytes from the start of the contents.
    pub fn read_to(&self, file: &[u8], n: usize) -> (r: Result<Vec<u8>, Error>)
        ensures
            self.pos + 8 + n <= file@.len() ==> (r matches Ok(b) && b@ == file@.subrange(
                self.pos + 8,
                self.pos + 8 + n,
            )),
            self.pos + 8 + n > file@.len() ==> r matches Err(Error::Io),
    {
        if self.pos > file.len() as u64 || (file.len() as u64 - self.pos) < 8 || ((file.len() as u64
            - self.pos - 8) as usize) < n {
            return Err(Error::Io);
        }
        let start = self.pos as usize + 8;
        let mut out: Vec<u8> = Vec::new();
        let mut i: usize = 0;
        while i < n
            invariant
                0 <= i <= n,
                start + n <= file@.len(),
                file@.len() == file.len(),
                start == self.pos + 8,
                out@ == file@.subrange(start as int, start + i),
            decreases n - i,
        {
            out.push(file[start + i]);
            i = i + 1;
            assert(out@ =~= file@.subrange(start as int, start + i));
        }
        Ok(out)
    }

    /// Reads the contents.
    pub fn read_contents(&self, file: &[u8]) -> (r: Result<Vec<u8>, Error>)
        ensures
            self.pos + 8 + self.len <= file@.len() ==> (r matches Ok(b) && b@ == file@.subrange(
                self.pos + 8,
                self.pos + 8 + self.len,
            )),
            self.pos + 8 + self.len > file@.len() ==> r matches Err(Error::Io),
    {
        self.read_to(file, self.len as usize)
    }

    /// Iterator over the sub-chunks of a list chunk.
    pub fn iter(&self) -> (it: Iter)
        requires
            self.pos + 12 + self.len <= u64::MAX,
        ensures
            it.cur() == self.pos + 12,
            it.end() == self.pos + 4 + self.len,
    {
        Iter { cur: self.pos + 12, end: self.pos + 4 + self.len as u64 }
    }
}

impl Iter {
    pub closed spec fn cur(&self) -> int {
        self.cur as int
    }

    pub closed spec fn end(&self) -> int {
        self.end as int
    }

    /// The next sub-chunk header, `None` at the end of the list; a header
    /// past the end of the file is an error (and the position stays).
    pub fn next(&mut self, file: &[u8]) -> (r: Option<Result<Chunk, Error>>)
        requires
            file_fits(file@),
        ensures
            final(self).end() == old(self).end(),
            old(self).cur() >= old(self).end() ==> (r is None && final(self).cur() == old(self).cur()),
            old(self).cur() < old(self).end() ==> match chunk_at(file@, old(self).cur()) {
                None => (r matches Some(Err(Error::Io)) && final(self).cur() == old(self).cur()),
                Some(c) => (r matches Some(Ok(d)) && d@ == c && final(self).cur() == next_chunk_pos(
                    old(self).cur(),
                    c.len as int,
                )),
            },
    {
        if self.cur >= self.end {
            return None;
        }
        let chunk = match Chunk::read(file, self.cur) {
            Ok(chunk) => chunk,
            Err(err) => return Some(Err(err)),
        };
        let len = chunk.len() as u64;
        self.cur = self.cur + len + 8 + (len % 2);
        Some(Ok(chunk))
    }
}

} // verus!
