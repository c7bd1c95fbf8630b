//! Loading the three lists of a SoundFont file (INFO, sample data, hydra).
use vstd::prelude::*;
use crate::bytes::le_u32;
use crate::sf2_oxi::error::{Error, ErrorView, MissingChunk};
use crate::sf2_oxi::riff::{Chunk, ChunkView, fourcc, file_fits, chunk_at, next_chunk_pos};
use crate::sf2_oxi::info::{Info, InfoView, info_result};
use crate::sf2_oxi::sample_data::{SampleData, sdta_fold};
use crate::sf2_oxi::hydra::{Hydra, HydraView, hydra_result};
use crate::sf2_oxi::soundfont::RawSoundFontData;

verus! {

/// The lists found so far among the members of the root chunk.
pub struct RootAcc {
    pub info: Option<InfoView>,
    pub sample_data: Option<SampleData>,
    pub hydra: Option<HydraView>,
}

/// One member list `c` of the root chunk, read by its list type: INFO,
/// `sdta` and `pdta` replace what was found before; any other type is an
/// error, as is a list whose type cannot be read.
#[verifier::opaque]
pub open spec fn root_step(file: Seq<u8>, c: ChunkView, acc: RootAcc) -> Result<RootAcc, ErrorView> {
    if c.pos + 12 > file.len() {
        Err(ErrorView::Io)
    } else {
        let ty = file.subrange(c.pos + 8, c.pos + 12);
        if ty == fourcc(73, 78, 70, 79) {
            match info_result(file, c) {
                Err(e) => Err(e),
                Ok(i) => Ok(RootAcc { info: Some(i), ..acc }),
            }
        } else if ty == fourcc(115, 100, 116, 97) {
            match sdta_fold(file, c.pos + 12, c.pos + 4 + c.len, (None, None)) {
                Err(e) => Err(e),
                Ok(s) => Ok(RootAcc { sample_data: Some(SampleData { smpl: s.0, sm24: s.1 }), ..acc }),
            }
        } else if ty == fourcc(112, 100, 116, 97) {
            match hydra_result(file, c) {
                Err(e) => Err(e),
                Ok(h) => Ok(RootAcc { hydra: Some(h), ..acc }),
            }
        } else {
            Err(ErrorView::UnexpectedMemberOfRoot(c))
        }
    }
}

/// The members of the root chunk from `cur` to `end` (see `root_step`).
pub open spec fn root_fold(file: Seq<u8>, cur: int, end: int, acc: RootAcc) -> Result<RootAcc, ErrorView>
    decreases (if cur < end { end - cur } else { 0 }),
{
    if cur >= end {
        Ok(acc)
    } else {
        match chunk_at(file, cur) {
            None => Err(ErrorView::Io),
            Some(c) => match root_step(file, c, acc) {
                Err(e) => Err(e),
                Ok(a) => root_fold(file, next_chunk_pos(cur, c.len as int), end, a),
            },
        }
    }
}

/// The lists found, by their views.
pub open spec fn acc_of(info: Option<Info>, sample_data: Option<SampleData>, hydra: Option<Hydra>) -> RootAcc {
    RootAcc {
        info: match info {
            Some(x) => Some(x@),
            None => None,
        },
        sample_data,
        hydra: match hydra {
            Some(x) => Some(x@),
            None => None,
        },
    }
}

/// Reads one member list of the root chunk (see `root_step`).
fn read_member(
    ch: &Chunk,
    file: &[u8],
    info: &mut Option<Info>,
    sample_data: &mut Option<SampleData>,
    hydra: &mut Option<Hydra>,
) -> (r: Result<(), Error>)
    requires
        file_fits(file@),
        ch.id.0@ == fourcc(76, 73, 83, 84),
        ch.pos <= file@.len(),
    ensures
        match root_step(file@, ch@, acc_of(*old(info), *old(sample_data), *old(hydra))) {
            Ok(a) => r is Ok && acc_of(*final(info), *final(sample_data), *final(hydra)) == a,
            Err(e) => (r matches Err(x) && x@ == e),
        },
{
    reveal(root_step);
    let ty = match ch.read_type(file) {
        Ok(t) => t,
        Err(e) => return Err(e),
    };
    if ty.is(73, 78, 70, 79) {
        match Info::read(ch, file) {
            Ok(i) => {
                *info = Some(i);
                Ok(())
            },
            Err(e) => Err(e),
        }
    } else if ty.is(115, 100, 116, 97) {
        match SampleData::read(ch, file) {
            Ok(s) => {
                *sample_data = Some(s);
                Ok(())
            },
            Err(e) => Err(e),
        }
    } else if ty.is(112, 100, 116, 97) {
        match Hydra::read(ch, file) {
            Ok(h) => {
                *hydra = Some(h);
                Ok(())
            },
            Err(e) => Err(e),
        }
    } else {
        Err(Error::UnexpectedMemberOfRoot(*ch))
    }
}

/// Every member header of the root chunk that can be read is a LIST.
pub open spec fn members_are_lists(file: Seq<u8>, cur: int, end: int) -> bool
    decreases (if cur < end { end - cur } else { 0 }),
{
    if cur >= end {
        true
    } else {
        match chunk_at(file, cur) {
            None => true,
            Some(c) => c.id == fourcc(76, 73, 83, 84) && members_are_lists(file, next_chunk_pos(cur, c.len as int), end),
        }
    }
}

/// Files the loader takes: a RIFF chunk of form `sfbk` (as far as the file
/// holds them) whose members are lists.
pub open spec fn loadable(file: Seq<u8>) -> bool {
    &&& file_fits(file)
    &&& file.len() >= 8 ==> file.subrange(0, 4) == fourcc(82, 73, 70, 70)
    &&& file.len() >= 12 ==> file.subrange(8, 12) == fourcc(115, 102, 98, 107)
    &&& file.len() >= 8 ==> members_are_lists(file, 12, 4 + le_u32(file, 4))
}

/// What loading a file gives: the three lists, each required.
pub open spec fn load_outcome(file: Seq<u8>) -> Result<(InfoView, SampleData, HydraView), ErrorView> {
    if file.len() < 12 {
        Err(ErrorView::Io)
    } else {
        match root_fold(file, 12, 4 + le_u32(file, 4), RootAcc { info: None, sample_data: None, hydra: None }) {
            Err(e) => Err(e),
            Ok(acc) => match acc.info {
                None => Err(ErrorView::MissingChunk(MissingChunk::Info)),
                Some(i) => match acc.sample_data {
                    None => Err(ErrorView::MissingChunk(MissingChunk::SampleData)),
                    Some(s) => match acc.hydra {
                        None => Err(ErrorView::MissingChunk(MissingChunk::Hydra)),
                        Some(h) => Ok((i, s, h)),
                    },
                },
            },
        }
    }
}

fn members_check(file: &[u8], start: u64, end: u64) -> (r: bool)
    requires
        file_fits(file@),
    ensures
        r == members_are_lists(file@, start as int, end as int),
{
    let mut cur = start;
    while cur < end
        invariant
            file_fits(file@),
            members_are_lists(file@, start as int, end as int) == members_are_lists(file@, cur as int, end as int),
        decreases end - cur,
    {
        match Chunk::read(file, cur) {
            Err(_) => {
                return true;
            },
            Ok(c) => {
                if !c.id.is(76, 73, 83, 84) {
                    return false;
                }
                let len = c.len as u64;
                let next = cur + len + 8 + len % 2;
                if next >= end {
                    proof {
                        assert(members_are_lists(file@, next as int, end as int));
                    }
                    return true;
                }
                cur = next;
            },
        }
    }
    true
}

/// Whether the loader takes a file (see `loadable`).
pub fn is_loadable(file: &[u8]) -> (r: bool)
    requires
        file_fits(file@),
    ensures
        r == loadable(file@),
{
    if file.len() < 8 {
        return true;
    }
    if !(file[0] == 82 && file[1] == 73 && file[2] == 70 && file[3] == 70) {
        assert(file@.subrange(0, 4)[0] == file@[0]);
        assert(file@.subrange(0, 4)[1] == file@[1]);
        assert(file@.subrange(0, 4)[2] == file@[2]);
        assert(file@.subrange(0, 4)[3] == file@[3]);
        return false;
    }
    assert(file@.subrange(0, 4) =~= fourcc(82, 73, 70, 70));
    if file.len() >= 12 {
        if !(file[8] == 115 && file[9] == 102 && file[10] == 98 && file[11] == 107) {
            assert(file@.subrange(8, 12)[0] == file@[8]);
            assert(file@.subrange(8, 12)[1] == file@[9]);
            assert(file@.subrange(8, 12)[2] == file@[10]);
            assert(file@.subrange(8, 12)[3] == file@[11]);
            return false;
        }
        assert(file@.subrange(8, 12) =~= fourcc(115, 102, 98, 107));
    }
    let len = crate::bytes::read_le_u32(file, 4) as u64;
    members_check(file, 12, 4 + len)
}

impl RawSoundFontData {
    /// Loads the INFO, sample-data and hydra lists of a SoundFont file held
    /// in memory (see `load_outcome`).
    pub fn load(file: &[u8]) -> (r: Result<RawSoundFontData, Error>)
        requires
            loadable(file@),
        ensures
            match load_outcome(file@) {
                Ok((i, s, h)) => (r matches Ok(d) && d.info@ == i && d.sample_data == s && d.hydra@ == h),
                Err(e) => (r matches Err(x) && x@ == e),
            },
    {
        let sfbk = match Chunk::read(file, 0) {
            Ok(c) => c,
            Err(e) => return Err(e),
        };
        match sfbk.read_type(file) {
            Ok(_) => {},
            Err(e) => return Err(e),
        }
        let ghost end = 4 + le_u32(file@, 4);
        let ghost goal = root_fold(file@, 12, end, RootAcc { info: None, sample_data: None, hydra: None });
        let mut iter = sfbk.iter();
        let mut info: Option<Info> = None;
        let mut sample_data: Option<SampleData> = None;
        let mut hydra: Option<Hydra> = None;
        let mut done = false;
        while !done
            invariant
                file_fits(file@),
                loadable(file@),
                file@.len() >= 12,
                end == 4 + le_u32(file@, 4),
                iter.end() == end,
                goal == root_fold(file@, 12, end, RootAcc { info: None, sample_data: None, hydra: None }),
                members_are_lists(file@, iter.cur(), end),
                !done ==> goal == root_fold(file@, iter.cur(), end, acc_of(info, sample_data, hydra)),
                done ==> goal == Ok::<RootAcc, ErrorView>(acc_of(info, sample_data, hydra)),
            decreases (if iter.cur() < iter.end() { iter.end() - iter.cur() } else { 0 }), (if done { 0int } else { 1int }),
        {
            let ch = match iter.next(file) {
                None => {
                    done = true;
                    continue;
                },
                Some(Err(e)) => return Err(e),
                Some(Ok(ch)) => ch,
            };
            match read_member(&ch, file, &mut info, &mut sample_data, &mut hydra) {
                Ok(()) => {},
                Err(e) => return Err(e),
            }
        }
        let info = match info {
            Some(i) => i,
            None => return Err(Error::missing(MissingChunk::Info)),
        };
        let sample_data = match sample_data {
            Some(s) => s,
            None => return Err(Error::missing(MissingChunk::SampleData)),
        };
        let hydra = match hydra {
            Some(h) => h,
            None => return Err(Error::missing(MissingChunk::Hydra)),
        };
        Ok(RawSoundFontData { info, sample_data, hydra })
    }
}

} // verus!
