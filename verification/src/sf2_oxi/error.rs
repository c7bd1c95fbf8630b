//! Errors of the SoundFont reader.
use vstd::prelude::*;
use crate::sf2_oxi::riff::{Chunk, ChunkView};

verus! {

/// Why a SoundFont could not be read.
#[derive(Debug, Clone)]
pub enum Error {
    /// A text field is not valid UTF-8.
    StringError,
    /// The file ends before a read position.
    Io,
    /// A record is shorter than the value it should hold.
    NumSliceError,
    InvalidBagChunkSize(u32),
    InvalidGeneratorChunkSize(u32),
    InvalidInstrumentChunkSize(u32),
    InvalidModulatorChunkSize(u32),
    InvalidPresetChunkSize(u32),
    InvalidSampleChunkSize(u32),
    UnknownGeneratorType(u16),
    UnknownSampleType(u16),
    UnknownModulatorTransform(u16),
    UnexpectedMemberOfRoot(Chunk),
    UnexpectedMemberOfHydra(Chunk),
    UnexpectedMemberOfInfo(Chunk),
    UnexpectedMemberOfSampleData(Chunk),
    MissingChunk(MissingChunk),
}

/// A chunk that a SoundFont must have.
#[derive(Debug, Clone, Copy, PartialEq, Eq, Structural)]
pub enum MissingChunk {
    Info,
    SampleData,
    Hydra,
    Version,
    PresetHeaders,
    PresetBags,
    PresetModulators,
    PresetGenerators,
    InstrumentHeaders,
    InstrumentBags,
    InstrumentModulators,
    InstrumentGenerators,
    SampleHeaders,
}

/// Mathematical form of an error: chunks by their view.
pub enum ErrorView {
    StringError,
    Io,
    NumSliceError,
    InvalidBagChunkSize(u32),
    InvalidGeneratorChunkSize(u32),
    InvalidInstrumentChunkSize(u32),
    InvalidModulatorChunkSize(u32),
    InvalidPresetChunkSize(u32),
    InvalidSampleChunkSize(u32),
    UnknownGeneratorType(u16),
    UnknownSampleType(u16),
    UnknownModulatorTransform(u16),
    UnexpectedMemberOfRoot(ChunkView),
    UnexpectedMemberOfHydra(ChunkView),
    UnexpectedMemberOfInfo(ChunkView),
    UnexpectedMemberOfSampleData(ChunkView),
    MissingChunk(MissingChunk),
}

impl View for Error {
    type V = ErrorView;

    open spec fn view(&self) -> ErrorView {
        match self {
            Error::StringError => ErrorView::StringError,
            Error::Io => ErrorView::Io,
            Error::NumSliceError => ErrorView::NumSliceError,
            Error::InvalidBagChunkSize(v) => ErrorView::InvalidBagChunkSize(*v),
            Error::InvalidGeneratorChunkSize(v) => ErrorView::InvalidGeneratorChunkSize(*v),
            Error::InvalidInstrumentChunkSize(v) => ErrorView::InvalidInstrumentChunkSize(*v),
            Error::InvalidModulatorChunkSize(v) => ErrorView::InvalidModulatorChunkSize(*v),
            Error::InvalidPresetChunkSize(v) => ErrorView::InvalidPresetChunkSize(*v),
            Error::InvalidSampleChunkSize(v) => ErrorView::InvalidSampleChunkSize(*v),
            Error::UnknownGeneratorType(v) => ErrorView::UnknownGeneratorType(*v),
            Error::UnknownSampleType(v) => ErrorView::UnknownSampleType(*v),
            Error::UnknownModulatorTransform(v) => ErrorView::UnknownModulatorTransform(*v),
            Error::UnexpectedMemberOfRoot(c) => ErrorView::UnexpectedMemberOfRoot(c@),
            Error::UnexpectedMemberOfHydra(c) => ErrorView::UnexpectedMemberOfHydra(c@),
            Error::UnexpectedMemberOfInfo(c) => ErrorView::UnexpectedMemberOfInfo(c@),
            Error::UnexpectedMemberOfSampleData(c) => ErrorView::UnexpectedMemberOfSampleData(c@),
            Error::MissingChunk(m) => ErrorView::MissingChunk(*m),
        }
    }
}

impl Error {
    /// The error that reports a missing chunk.
    pub fn missing(m: MissingChunk) -> (e: Error)
        ensures
            e == Error::MissingChunk(m),
    {
        Error::MissingChunk(m)
    }
}

} // verus!
