//! The hydra (`pdta` list): the header, zone, modulator and generator
//! records of presets and instruments, and the sample headers.
use vstd::prelude::*;
use crate::sf2_oxi::error::{Error, ErrorView, MissingChunk};
use crate::sf2_oxi::riff::{Chunk, ChunkView, fourcc, file_fits, chunk_at, next_chunk_pos};
use crate::sf2_oxi::info::{list_fits, list_type_is};
use crate::sf2_oxi::generator::{Generator, generator_chunk};
use crate::sf2_oxi::modulator::{Modulator, modulator_chunk};
use crate::sf2_oxi::records::{
    Bag, InstrumentHeader, InstrumentHeaderView, PresetHeader, PresetHeaderView, SampleHeader,
    SampleHeaderView, bag_chunk, instrument_header_chunk, preset_header_chunk, sample_header_chunk,
    views_of_instruments, views_of_presets, views_of_samples,
};

verus! {

/// The records of the hydra.
#[derive(Debug, Clone)]
pub struct Hydra {
    pub preset_headers: Vec<PresetHeader>,
    pub preset_bags: Vec<Bag>,
    pub preset_modulators: Vec<Modulator>,
    pub preset_generators: Vec<Generator>,
    pub instrument_headers: Vec<InstrumentHeader>,
    pub instrument_bags: Vec<Bag>,
    pub instrument_modulators: Vec<Modulator>,
    pub instrument_generators: Vec<Generator>,
    pub sample_headers: Vec<SampleHeader>,
}

/// Mathematical form of the hydra.
pub struct HydraView {
    pub preset_headers: Seq<PresetHeaderView>,
    pub preset_bags: Seq<Bag>,
    pub preset_modulators: Seq<Modulator>,
    pub preset_generators: Seq<Generator>,
    pub instrument_headers: Seq<InstrumentHeaderView>,
    pub instrument_bags: Seq<Bag>,
    pub instrument_modulators: Seq<Modulator>,
    pub instrument_generators: Seq<Generator>,
    pub sample_headers: Seq<SampleHeaderView>,
}

impl View for Hydra {
    type V = HydraView;

    open spec fn view(&self) -> HydraView {
        HydraView {
            preset_headers: views_of_presets(self.preset_headers@),
            preset_bags: self.preset_bags@,
            preset_modulators: self.preset_modulators@,
            preset_generators: self.preset_generators@,
            instrument_headers: views_of_instruments(self.instrument_headers@),
            instrument_bags: self.instrument_bags@,
            instrument_modulators: self.instrument_modulators@,
            instrument_generators: self.instrument_generators@,
            sample_headers: views_of_samples(self.sample_headers@),
        }
    }
}

/// The hydra records read so far.
pub struct HydraAcc {
    pub preset_headers: Option<Seq<PresetHeaderView>>,
    pub preset_bags: Option<Seq<Bag>>,
    pub preset_modulators: Option<Seq<Modulator>>,
    pub preset_generators: Option<Seq<Generator>>,
    pub instrument_headers: Option<Seq<InstrumentHeaderView>>,
    pub instrument_bags: Option<Seq<Bag>>,
    pub instrument_modulators: Option<Seq<Modulator>>,
    pub instrument_generators: Option<Seq<Generator>>,
    pub sample_headers: Option<Seq<SampleHeaderView>>,
}

pub open spec fn no_hydra() -> HydraAcc {
    HydraAcc {
        preset_headers: None,
        preset_bags: None,
        preset_modulators: None,
        preset_generators: None,
        instrument_headers: None,
        instrument_bags: None,
        instrument_modulators: None,
        instrument_generators: None,
        sample_headers: None,
    }
}

/// One member of the hydra list: each record chunk is read (a later one
/// replaces an earlier one); any other chunk is an error.
pub open spec fn hydra_step(acc: HydraAcc, file: Seq<u8>, c: ChunkView) -> Result<HydraAcc, ErrorView> {
    if c.id == fourcc(112, 104, 100, 114) {
        match preset_header_chunk(file, c) {
            Ok(v) => Ok(HydraAcc { preset_headers: Some(v), ..acc }),
            Err(e) => Err(e@),
        }
    } else if c.id == fourcc(112, 98, 97, 103) {
        match bag_chunk(file, c) {
            Ok(v) => Ok(HydraAcc { preset_bags: Some(v), ..acc }),
            Err(e) => Err(e@),
        }
    } else if c.id == fourcc(112, 109, 111, 100) {
        match modulator_chunk(file, c) {
            Ok(v) => Ok(HydraAcc { preset_modulators: Some(v), ..acc }),
            Err(e) => Err(e@),
        }
    } else if c.id == fourcc(112, 103, 101, 110) {
        match generator_chunk(file, c) {
            Ok(v) => Ok(HydraAcc { preset_generators: Some(v), ..acc }),
            Err(e) => Err(e@),
        }
    } else if c.id == fourcc(105, 110, 115, 116) {
        match instrument_header_chunk(file, c) {
            Ok(v) => Ok(HydraAcc { instrument_headers: Some(v), ..acc }),
            Err(e) => Err(e@),
        }
    } else if c.id == fourcc(105, 98, 97, 103) {
        match bag_chunk(file, c) {
            Ok(v) => Ok(HydraAcc { instrument_bags: Some(v), ..acc }),
            Err(e) => Err(e@),
        }
    } else if c.id == fourcc(105, 109, 111, 100) {
        match modulator_chunk(file, c) {
            Ok(v) => Ok(HydraAcc { instrument_modulators: Some(v), ..acc }),
            Err(e) => Err(e@),
        }
    } else if c.id == fourcc(105, 103, 101, 110) {
        match generator_chunk(file, c) {
            Ok(v) => Ok(HydraAcc { instrument_generators: Some(v), ..acc }),
            Err(e) => Err(e@),
        }
    } else if c.id == fourcc(115, 104, 100, 114) {
        match sample_header_chunk(file, c) {
            Ok(v) => Ok(HydraAcc { sample_headers: Some(v), ..acc }),
            Err(e) => Err(e@),
        }
    } else {
        Err(ErrorView::UnexpectedMemberOfHydra(c))
    }
}

/// The members of the hydra list from `cur` to `end`.
pub open spec fn hydra_fold(file: Seq<u8>, cur: int, end: int, acc: HydraAcc) -> Result<HydraAcc, ErrorView>
    decreases (if cur < end { end - cur } else { 0 }),
{
    if cur >= end {
        Ok(acc)
    } else {
        match chunk_at(file, cur) {
            None => Err(ErrorView::Io),
            Some(c) => match hydra_step(acc, file, c) {
                Err(e) => Err(e),
                Ok(a) => hydra_fold(file, next_chunk_pos(cur, c.len as int), end, a),
            },
        }
    }
}

/// The hydra of a complete walk: every record chunk is required; the first
/// missing one (in the order of the fields) is reported.
pub open spec fn hydra_complete(acc: HydraAcc) -> Result<HydraView, ErrorView> {
    if acc.preset_headers is None {
        Err(ErrorView::MissingChunk(MissingChunk::PresetHeaders))
    } else 
    if acc.preset_bags is None {
        Err(ErrorView::MissingChunk(MissingChunk::PresetBags))
    } else 
    if acc.preset_modulators is None {
        Err(ErrorView::MissingChunk(MissingChunk::PresetModulators))
    } else 
    if acc.preset_generators is None {
        Err(ErrorView::MissingChunk(MissingChunk::PresetGenerators))
    } else 
    if acc.instrument_headers is None {
        Err(ErrorView::MissingChunk(MissingChunk::InstrumentHeaders))
    } else 
    if acc.instrument_bags is None {
        Err(ErrorView::MissingChunk(MissingChunk::InstrumentBags))
    } else 
    if acc.instrument_modulators is None {
        Err(ErrorView::MissingChunk(MissingChunk::InstrumentModulators))
    } else 
    if acc.instrument_generators is None {
        Err(ErrorView::MissingChunk(MissingChunk::InstrumentGenerators))
    } else 
    if acc.sample_headers is None {
        Err(ErrorView::MissingChunk(MissingChunk::SampleHeaders))
    } else 
    {
        Ok(
            HydraView {
                preset_headers: acc.preset_headers.unwrap(),
                preset_bags: acc.preset_bags.unwrap(),
                preset_modulators: acc.preset_modulators.unwrap(),
                preset_generators: acc.preset_generators.unwrap(),
                instrument_headers: acc.instrument_headers.unwrap(),
                instrument_bags: acc.instrument_bags.unwrap(),
                instrument_modulators: acc.instrument_modulators.unwrap(),
                instrument_generators: acc.instrument_generators.unwrap(),
                sample_headers: acc.sample_headers.unwrap(),
            },
        )
    }
}

/// The outcome of reading a hydra list chunk.
pub open spec fn hydra_result(file: Seq<u8>, pdta: ChunkView) -> Result<HydraView, ErrorView> {
    match hydra_fold(file, pdta.pos + 12, pdta.pos + 4 + pdta.len, no_hydra()) {
        Err(e) => Err(e),
        Ok(acc) => hydra_complete(acc),
    }
}

pub open spec fn opt_preset_headers(o: Option<Vec<PresetHeader>>) -> Option<Seq<PresetHeaderView>> {
    match o {
        Some(v) => Some(views_of_presets(v@)),
        None => None,
    }
}

pub open spec fn opt_preset_bags(o: Option<Vec<Bag>>) -> Option<Seq<Bag>> {
    match o {
        Some(v) => Some(v@),
        None => None,
    }
}

pub open spec fn opt_preset_modulators(o: Option<Vec<Modulator>>) -> Option<Seq<Modulator>> {
    match o {
        Some(v) => Some(v@),
        None => None,
    }
}

pub open spec fn opt_preset_generators(o: Option<Vec<Generator>>) -> Option<Seq<Generator>> {
    match o {
        Some(v) => Some(v@),
        None => None,
    }
}

pub open spec fn opt_instrument_headers(o: Option<Vec<InstrumentHeader>>) -> Option<Seq<InstrumentHeaderView>> {
    match o {
        Some(v) => Some(views_of_instruments(v@)),
        None => None,
    }
}

pub open spec fn opt_instrument_bags(o: Option<Vec<Bag>>) -> Option<Seq<Bag>> {
    match o {
        Some(v) => Some(v@),
        None => None,
    }
}

pub open spec fn opt_instrument_modulators(o: Option<Vec<Modulator>>) -> Option<Seq<Modulator>> {
    match o {
        Some(v) => Some(v@),
        None => None,
    }
}

pub open spec fn opt_instrument_generators(o: Option<Vec<Generator>>) -> Option<Seq<Generator>> {
    match o {
        Some(v) => Some(v@),
        None => None,
    }
}

pub open spec fn opt_sample_headers(o: Option<Vec<SampleHeader>>) -> Option<Seq<SampleHeaderView>> {
    match o {
        Some(v) => Some(views_of_samples(v@)),
        None => None,
    }
}

/// The hydra records read so far.
struct HydraParts {
    preset_headers: Option<Vec<PresetHeader>>,
    preset_bags: Option<Vec<Bag>>,
    preset_modulators: Option<Vec<Modulator>>,
    preset_generators: Option<Vec<Generator>>,
    instrument_headers: Option<Vec<InstrumentHeader>>,
    instrument_bags: Option<Vec<Bag>>,
    instrument_modulators: Option<Vec<Modulator>>,
    instrument_generators: Option<Vec<Generator>>,
    sample_headers: Option<Vec<SampleHeader>>,
}

impl HydraParts {
    spec fn view(&self) -> HydraAcc {
        HydraAcc {
            preset_headers: opt_preset_headers(self.preset_headers),
            preset_bags: opt_preset_bags(self.preset_bags),
            preset_modulators: opt_preset_modulators(self.preset_modulators),
            preset_generators: opt_preset_generators(self.preset_generators),
            instrument_headers: opt_instrument_headers(self.instrument_headers),
            instrument_bags: opt_instrument_bags(self.instrument_bags),
            instrument_modulators: opt_instrument_modulators(self.instrument_modulators),
            instrument_generators: opt_instrument_generators(self.instrument_generators),
            sample_headers: opt_sample_headers(self.sample_headers),
        }
    }

    /// Reads one member of the hydra list.
    fn read_member(&mut self, ch: &Chunk, file: &[u8]) -> (r: Result<(), Error>)
        ensures
            match hydra_step(old(self).view(), file@, ch@) {
                Ok(a) => r is Ok && final(self).view() == a,
                Err(e) => (r matches Err(x) && x@ == e),
            },
    {
        let id = ch.id();
        if id.is(112, 104, 100, 114) {
            match PresetHeader::read_all(ch, file) {
                Ok(v) => {
                    self.preset_headers = Some(v);
                    Ok(())
                },
                Err(e) => Err(e),
            }
        } else if id.is(112, 98, 97, 103) {
            match Bag::read_all(ch, file) {
                Ok(v) => {
                    self.preset_bags = Some(v);
                    Ok(())
                },
                Err(e) => Err(e),
            }
        } else if id.is(112, 109, 111, 100) {
            match Modulator::read_all(ch, file) {
                Ok(v) => {
                    self.preset_modulators = Some(v);
                    Ok(())
                },
                Err(e) => Err(e),
            }
        } else if id.is(112, 103, 101, 110) {
            match Generator::read_all(ch, file) {
                Ok(v) => {
                    self.preset_generators = Some(v);
                    Ok(())
                },
                Err(e) => Err(e),
            }
        } else if id.is(105, 110, 115, 116) {
            match InstrumentHeader::read_all(ch, file) {
                Ok(v) => {
                    self.instrument_headers = Some(v);
                    Ok(())
                },
                Err(e) => Err(e),
            }
        } else if id.is(105, 98, 97, 103) {
            match Bag::read_all(ch, file) {
                Ok(v) => {
                    self.instrument_bags = Some(v);
                    Ok(())
                },
                Err(e) => Err(e),
            }
        } else if id.is(105, 109, 111, 100) {
            match Modulator::read_all(ch, file) {
                Ok(v) => {
                    self.instrument_modulators = Some(v);
                    Ok(())
                },
                Err(e) => Err(e),
            }
        } else if id.is(105, 103, 101, 110) {
            match Generator::read_all(ch, file) {
                Ok(v) => {
                    self.instrument_generators = Some(v);
                    Ok(())
                },
                Err(e) => Err(e),
            }
        } else if id.is(115, 104, 100, 114) {
            match SampleHeader::read_all(ch, file) {
                Ok(v) => {
                    self.sample_headers = Some(v);
                    Ok(())
                },
                Err(e) => Err(e),
            }
        } else {
            Err(Error::UnexpectedMemberOfHydra(*ch))
        }
    }
}

impl Hydra {
    /// Reads a hydra list chunk.
    pub fn read(pdta: &Chunk, file: &[u8]) -> (r: Result<Hydra, Error>)
        requires
            pdta.id.0@ == fourcc(76, 73, 83, 84),
            list_type_is(file@, *pdta, fourcc(112, 100, 116, 97)),
            list_fits(file@, *pdta),
        ensures
            pdta.pos + 12 > file@.len() ==> r matches Err(Error::Io),
            pdta.pos + 12 <= file@.len() ==> match hydra_result(file@, pdta@) {
                Ok(v) => (r matches Ok(x) && x@ == v),
                Err(e) => (r matches Err(x) && x@ == e),
            },
    {
        match pdta.read_type(file) {
            Ok(_) => {},
            Err(e) => return Err(e),
        }
        let mut parts = HydraParts {
            preset_headers: None,
            preset_bags: None,
            preset_modulators: None,
            preset_generators: None,
            instrument_headers: None,
            instrument_bags: None,
            instrument_modulators: None,
            instrument_generators: None,
            sample_headers: None,
        };
        let ghost goal = hydra_fold(file@, pdta.pos + 12, pdta.pos + 4 + pdta.len, no_hydra());
        let mut iter = pdta.iter();
        let mut done = false;
        while !done
            invariant
                file_fits(file@),
                pdta.pos + 12 <= file@.len(),
                iter.end() == pdta.pos + 4 + pdta.len,
                goal == hydra_fold(file@, pdta.pos + 12, pdta.pos + 4 + pdta.len, no_hydra()),
                !done ==> goal == hydra_fold(file@, iter.cur(), iter.end(), parts.view()),
                done ==> goal == Ok::<HydraAcc, ErrorView>(parts.view()),
            decreases (if iter.cur() < iter.end() { iter.end() - iter.cur() } else { 0 }), (if done { 0int } else { 1int }),
        {
            match iter.next(file) {
                None => {
                    done = true;
                },
                Some(Err(e)) => {
                    return Err(e);
                },
                Some(Ok(ch)) => {
                    match parts.read_member(&ch, file) {
                        Ok(()) => {},
                        Err(e) => return Err(e),
                    }
                },
            }
        }
        let preset_headers = match parts.preset_headers {
            Some(v) => v,
            None => return Err(Error::missing(MissingChunk::PresetHeaders)),
        };
        let preset_bags = match parts.preset_bags {
            Some(v) => v,
            None => return Err(Error::missing(MissingChunk::PresetBags)),
        };
        let preset_modulators = match parts.preset_modulators {
            Some(v) => v,
            None => return Err(Error::missing(MissingChunk::PresetModulators)),
        };
        let preset_generators = match parts.preset_generators {
            Some(v) => v,
            None => return Err(Error::missing(MissingChunk::PresetGenerators)),
        };
        let instrument_headers = match parts.instrument_headers {
            Some(v) => v,
            None => return Err(Error::missing(MissingChunk::InstrumentHeaders)),
        };
        let instrument_bags = match parts.instrument_bags {
            Some(v) => v,
            None => return Err(Error::missing(MissingChunk::InstrumentBags)),
        };
        let instrument_modulators = match parts.instrument_modulators {
            Some(v) => v,
            None => return Err(Error::missing(MissingChunk::InstrumentModulators)),
        };
        let instrument_generators = match parts.instrument_generators {
            Some(v) => v,
            None => return Err(Error::missing(MissingChunk::InstrumentGenerators)),
        };
        let sample_headers = match parts.sample_headers {
            Some(v) => v,
            None => return Err(Error::missing(MissingChunk::SampleHeaders)),
        };
        Ok(Hydra { preset_headers, preset_bags, preset_modulators, preset_generators, instrument_headers, instrument_bags, instrument_modulators, instrument_generators, sample_headers })
    }
}

} // verus!
