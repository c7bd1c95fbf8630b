//! A cursor over the contents of a chunk.
use vstd::prelude::*;
use crate::bytes::{le_u16, le_i16, le_u32, as_i8, read_le_u16, read_le_i16, read_le_u32, byte_as_i8};
use crate::sf2_oxi::error::Error;
use crate::text::{spec_trim_end, trim_end_string, utf8_strict};

verus! {

/// Index of the first NUL byte (the length when there is none).
pub open spec fn first_nul(b: Seq<u8>) -> int
    decreases b.len(),
{
    if b.len() == 0 || b[0] == 0 {
        0
    } else {
        1 + first_nul(b.drop_first())
    }
}

/// A fixed-size text field: the bytes before the first NUL, decoded as
/// UTF-8 (`None` when they are not valid UTF-8).
pub open spec fn field_text(b: Seq<u8>) -> Option<Seq<char>> {
    let t = b.take(first_nul(b));
    if vstd::utf8::valid_utf8(t) {
        Some(vstd::utf8::decode_utf8(t))
    } else {
        None
    }
}

/// A record name: the text field without trailing white space.
pub open spec fn name_field(b: Seq<u8>) -> Option<Seq<char>> {
    match field_text(b) {
        Some(t) => Some(spec_trim_end(t)),
        None => None,
    }
}

proof fn lemma_first_nul(b: Seq<u8>, i: int)
    requires
        0 <= i <= b.len(),
        forall|j: int| 0 <= j < i ==> b[j] != 0,
        i == b.len() || b[i] == 0,
    ensures
        first_nul(b) == i,
    decreases i,
{
    if i > 0 {
        lemma_first_nul(b.drop_first(), i - 1);
    }
}

/// A cursor over bytes.
pub struct Reader<'a> {
    pub data: &'a [u8],
    pub curr: usize,
}

impl<'a> Reader<'a> {
    /// A cursor at the start of `data`.
    pub fn new(data: &'a [u8]) -> (r: Self)
        ensures
            r.data@ == data@,
            r.curr == 0,
    {
        Reader { data, curr: 0 }
    }

    /// `n` more bytes are left.
    pub open spec fn has(&self, n: int) -> bool {
        self.curr + n <= self.data@.len()
    }

    pub fn read_u8(&mut self) -> (r: Result<u8, Error>)
        ensures
            final(self).data == old(self).data,
            old(self).has(1) ==> r == Ok::<u8, Error>(old(self).data@[old(self).curr as int]) && final(self).curr
                == old(self).curr + 1,
            !old(self).has(1) ==> (r matches Err(Error::NumSliceError) && final(self).curr == old(self).curr),
    {
        if self.curr >= self.data.len() {
            return Err(Error::NumSliceError);
        }
        let v = self.data[self.curr];
        self.curr = self.curr + 1;
        Ok(v)
    }

    pub fn read_i8(&mut self) -> (r: Result<i8, Error>)
        ensures
            final(self).data == old(self).data,
            old(self).has(1) ==> r == Ok::<i8, Error>(as_i8(old(self).data@[old(self).curr as int]))
                && final(self).curr == old(self).curr + 1,
            !old(self).has(1) ==> (r matches Err(Error::NumSliceError) && final(self).curr == old(self).curr),
    {
        if self.curr >= self.data.len() {
            return Err(Error::NumSliceError);
        }
        let v = byte_as_i8(self.data[self.curr]);
        self.curr = self.curr + 1;
        Ok(v)
    }

    pub fn read_u16(&mut self) -> (r: Result<u16, Error>)
        ensures
            final(self).data == old(self).data,
            old(self).has(2) ==> r == Ok::<u16, Error>(le_u16(old(self).data@, old(self).curr as int))
                && final(self).curr == old(self).curr + 2,
            !old(self).has(2) ==> (r matches Err(Error::NumSliceError) && final(self).curr == old(self).curr),
    {
        if self.curr > self.data.len() || self.data.len() - self.curr < 2 {
            return Err(Error::NumSliceError);
        }
        let v = read_le_u16(self.data, self.curr);
        self.curr = self.curr + 2;
        Ok(v)
    }

    pub fn read_i16(&mut self) -> (r: Result<i16, Error>)
        ensures
            final(self).data == old(self).data,
            old(self).has(2) ==> r == Ok::<i16, Error>(le_i16(old(self).data@, old(self).curr as int))
                && final(self).curr == old(self).curr + 2,
            !old(self).has(2) ==> (r matches Err(Error::NumSliceError) && final(self).curr == old(self).curr),
    {
        if self.curr > self.data.len() || self.data.len() - self.curr < 2 {
            return Err(Error::NumSliceError);
        }
        let v = read_le_i16(self.data, self.curr);
        self.curr = self.curr + 2;
        Ok(v)
    }

    pub fn read_u32(&mut self) -> (r: Result<u32, Error>)
        ensures
            final(self).data == old(self).data,
            old(self).has(4) ==> r == Ok::<u32, Error>(le_u32(old(self).data@, old(self).curr as int))
                && final(self).curr == old(self).curr + 4,
            !old(self).has(4) ==> (r matches Err(Error::NumSliceError) && final(self).curr == old(self).curr),
    {
        if self.curr > self.data.len() || self.data.len() - self.curr < 4 {
            return Err(Error::NumSliceError);
        }
        let v = read_le_u32(self.data, self.curr);
        self.curr = self.curr + 4;
        Ok(v)
    }

    /// A text field of `len` bytes (see `field_text`); the cursor moves past
    /// the field also when it is not valid UTF-8.
    pub fn read_string(&mut self, len: usize) -> (r: Result<String, Error>)
        ensures
            final(self).data == old(self).data,
            old(self).has(len as int) ==> final(self).curr == old(self).curr + len && match field_text(
                old(self).data@.subrange(old(self).curr as int, old(self).curr + len),
            ) {
                Some(t) => (r matches Ok(s) && s@ == t),
                None => (r matches Err(Error::StringError)),
            },
            !old(self).has(len as int) ==> (r matches Err(Error::NumSliceError) && final(self).curr == old(self).curr),
    {
        if self.curr > self.data.len() || self.data.len() - self.curr < len {
            return Err(Error::NumSliceError);
        }
        let start = self.curr;
        let ghost field = self.data@.subrange(start as int, start + len);
        let mut k: usize = 0;
        while k < len && self.data[start + k] != 0
            invariant
                0 <= k <= len,
                start + len <= self.data@.len(),
                self.data@.len() == self.data.len(),
                field == self.data@.subrange(start as int, start + len),
                forall|j: int| 0 <= j < k ==> field[j] != 0,
            decreases len - k,
        {
            k = k + 1;
        }
        proof {
            lemma_first_nul(field, k as int);
        }
        let mut t: Vec<u8> = Vec::new();
        let mut i: usize = 0;
        while i < k
            invariant
                0 <= i <= k <= len,
                start + len <= self.data@.len(),
                self.data@.len() == self.data.len(),
                field == self.data@.subrange(start as int, start + len),
                t@ == field.take(i as int),
            decreases k - i,
        {
            t.push(self.data[start + i]);
            i = i + 1;
            assert(t@ =~= field.take(i as int));
        }
        self.curr = start + len;
        match utf8_strict(t.as_slice()) {
            Some(s) => Ok(s),
            None => Err(Error::StringError),
        }
    }
}

/// Reads a record name: a text field of `len` bytes without trailing white space.
pub fn read_name(reader: &mut Reader, len: usize) -> (r: Result<String, Error>)
    ensures
        final(reader).data == old(reader).data,
        old(reader).has(len as int) ==> final(reader).curr == old(reader).curr + len && match name_field(
            old(reader).data@.subrange(old(reader).curr as int, old(reader).curr + len),
        ) {
            Some(t) => (r matches Ok(s) && s@ == t),
            None => (r matches Err(Error::StringError)),
        },
        !old(reader).has(len as int) ==> (r matches Err(Error::NumSliceError) && final(reader).curr == old(reader).curr),
{
    match reader.read_string(len) {
        Ok(s) => Ok(trim_end_string(s.as_str())),
        Err(e) => Err(e),
    }
}

} // verus!
