//! Generator records of the hydra (`pgen`, `igen`).
use vstd::prelude::*;
use crate::bytes::{le_u16, le_i16};
use crate::sf2_oxi::error::Error;
use crate::sf2_oxi::riff::{Chunk, ChunkView, fourcc};
use crate::sf2_oxi::utils::Reader;
use crate::sf2_oxi::SfEnum;

verus! {

/// The amount of a generator: signed, unsigned, or a low..high range.
#[derive(Debug, Clone, Copy)]
pub enum GeneratorAmount {
    I16(i16),
    U16(u16),
    Range(GeneratorAmountRange),
}

impl GeneratorAmount {
    /// The signed amount.
    pub fn as_i16(&self) -> (r: Option<&i16>)
        ensures
            match self {
                GeneratorAmount::I16(v) => r == Some(v),
                _ => r is None,
            },
    {
        if let GeneratorAmount::I16(v) = self {
            Some(v)
        } else {
            None
        }
    }

    /// The unsigned amount.
    pub fn as_u16(&self) -> (r: Option<&u16>)
        ensures
            match self {
                GeneratorAmount::U16(v) => r == Some(v),
                _ => r is None,
            },
    {
        if let GeneratorAmount::U16(v) = self {
            Some(v)
        } else {
            None
        }
    }

    /// The range amount.
    pub fn as_range(&self) -> (r: Option<&GeneratorAmountRange>)
        ensures
            match self {
                GeneratorAmount::Range(v) => r == Some(v),
                _ => r is None,
            },
    {
        if let GeneratorAmount::Range(v) = self {
            Some(v)
        } else {
            None
        }
    }
}

/// A key or velocity range.
#[derive(Debug, Clone, Copy)]
pub struct GeneratorAmountRange {
    pub low: u8,
    pub high: u8,
}

/// A generator: its type (known or a raw number) and its amount.
#[derive(Debug, Clone, Copy)]
pub struct Generator {
    pub ty: SfEnum<GeneratorType, u16>,
    pub amount: GeneratorAmount,
}

/// Generator types of the SoundFont 2 specification, numbered 0 to 60 in
/// declaration order.
#[derive(Debug, PartialEq, Eq, Copy, Clone, Structural)]
pub enum GeneratorType {
    StartAddrsOffset,
    EndAddrsOffset,
    StartloopAddrsOffset,
    EndloopAddrsOffset,
    StartAddrsCoarseOffset,
    ModLfoToPitch,
    VibLfoToPitch,
    ModEnvToPitch,
    InitialFilterFc,
    InitialFilterQ,
    ModLfoToFilterFc,
    ModEnvToFilterFc,
    EndAddrsCoarseOffset,
    ModLfoToVolume,
    Unused1,
    ChorusEffectsSend,
    ReverbEffectsSend,
    Pan,
    Unused2,
    Unused3,
    Unused4,
    DelayModLFO,
    FreqModLFO,
    DelayVibLFO,
    FreqVibLFO,
    DelayModEnv,
    AttackModEnv,
    HoldModEnv,
    DecayModEnv,
    SustainModEnv,
    ReleaseModEnv,
    KeynumToModEnvHold,
    KeynumToModEnvDecay,
    DelayVolEnv,
    AttackVolEnv,
    HoldVolEnv,
    DecayVolEnv,
    SustainVolEnv,
    ReleaseVolEnv,
    KeynumToVolEnvHold,
    KeynumToVolEnvDecay,
    Instrument,
    Reserved1,
    KeyRange,
    VelRange,
    StartloopAddrsCoarseOffset,
    Keynum,
    Velocity,
    InitialAttenuation,
    Reserved2,
    EndloopAddrsCoarseOffset,
    CoarseTune,
    FineTune,
    SampleID,
    SampleModes,
    Reserved3,
    ScaleTuning,
    ExclusiveClass,
    OverridingRootKey,
    Unused5,
    EndOper,
}

/// The generator type numbered `id`.
pub open spec fn generator_type_of(id: u16) -> Option<GeneratorType> {
    match id {
        0 => Some(GeneratorType::StartAddrsOffset),
        1 => Some(GeneratorType::EndAddrsOffset),
        2 => Some(GeneratorType::StartloopAddrsOffset),
        3 => Some(GeneratorType::EndloopAddrsOffset),
        4 => Some(GeneratorType::StartAddrsCoarseOffset),
        5 => Some(GeneratorType::ModLfoToPitch),
        6 => Some(GeneratorType::VibLfoToPitch),
        7 => Some(GeneratorType::ModEnvToPitch),
        8 => Some(GeneratorType::InitialFilterFc),
        9 => Some(GeneratorType::InitialFilterQ),
        10 => Some(GeneratorType::ModLfoToFilterFc),
        11 => Some(GeneratorType::ModEnvToFilterFc),
        12 => Some(GeneratorType::EndAddrsCoarseOffset),
        13 => Some(GeneratorType::ModLfoToVolume),
        14 => Some(GeneratorType::Unused1),
        15 => Some(GeneratorType::ChorusEffectsSend),
        16 => Some(GeneratorType::ReverbEffectsSend),
        17 => Some(GeneratorType::Pan),
        18 => Some(GeneratorType::Unused2),
        19 => Some(GeneratorType::Unused3),
        20 => Some(GeneratorType::Unused4),
        21 => Some(GeneratorType::DelayModLFO),
        22 => Some(GeneratorType::FreqModLFO),
        23 => Some(GeneratorType::DelayVibLFO),
        24 => Some(GeneratorType::FreqVibLFO),
        25 => Some(GeneratorType::DelayModEnv),
        26 => Some(GeneratorType::AttackModEnv),
        27 => Some(GeneratorType::HoldModEnv),
        28 => Some(GeneratorType::DecayModEnv),
        29 => Some(GeneratorType::SustainModEnv),
        30 => Some(GeneratorType::ReleaseModEnv),
        31 => Some(GeneratorType::KeynumToModEnvHold),
        32 => Some(GeneratorType::KeynumToModEnvDecay),
        33 => Some(GeneratorType::DelayVolEnv),
        34 => Some(GeneratorType::AttackVolEnv),
        35 => Some(GeneratorType::HoldVolEnv),
        36 => Some(GeneratorType::DecayVolEnv),
        37 => Some(GeneratorType::SustainVolEnv),
        38 => Some(GeneratorType::ReleaseVolEnv),
        39 => Some(GeneratorType::KeynumToVolEnvHold),
        40 => Some(GeneratorType::KeynumToVolEnvDecay),
        41 => Some(GeneratorType::Instrument),
        42 => Some(GeneratorType::Reserved1),
        43 => Some(GeneratorType::KeyRange),
        44 => Some(GeneratorType::VelRange),
        45 => Some(GeneratorType::StartloopAddrsCoarseOffset),
        46 => Some(GeneratorType::Keynum),
        47 => Some(GeneratorType::Velocity),
        48 => Some(GeneratorType::InitialAttenuation),
        49 => Some(GeneratorType::Reserved2),
        50 => Some(GeneratorType::EndloopAddrsCoarseOffset),
        51 => Some(GeneratorType::CoarseTune),
        52 => Some(GeneratorType::FineTune),
        53 => Some(GeneratorType::SampleID),
        54 => Some(GeneratorType::SampleModes),
        55 => Some(GeneratorType::Reserved3),
        56 => Some(GeneratorType::ScaleTuning),
        57 => Some(GeneratorType::ExclusiveClass),
        58 => Some(GeneratorType::OverridingRootKey),
        59 => Some(GeneratorType::Unused5),
        60 => Some(GeneratorType::EndOper),
        _ => None,
    }
}

/// The number of a generator type.
pub open spec fn generator_type_id(t: GeneratorType) -> u16 {
    match t {
        GeneratorType::StartAddrsOffset => 0,
        GeneratorType::EndAddrsOffset => 1,
        GeneratorType::StartloopAddrsOffset => 2,
        GeneratorType::EndloopAddrsOffset => 3,
        GeneratorType::StartAddrsCoarseOffset => 4,
        GeneratorType::ModLfoToPitch => 5,
        GeneratorType::VibLfoToPitch => 6,
        GeneratorType::ModEnvToPitch => 7,
        GeneratorType::InitialFilterFc => 8,
        GeneratorType::InitialFilterQ => 9,
        GeneratorType::ModLfoToFilterFc => 10,
        GeneratorType::ModEnvToFilterFc => 11,
        GeneratorType::EndAddrsCoarseOffset => 12,
        GeneratorType::ModLfoToVolume => 13,
        GeneratorType::Unused1 => 14,
        GeneratorType::ChorusEffectsSend => 15,
        GeneratorType::ReverbEffectsSend => 16,
        GeneratorType::Pan => 17,
        GeneratorType::Unused2 => 18,
        GeneratorType::Unused3 => 19,
        GeneratorType::Unused4 => 20,
        GeneratorType::DelayModLFO => 21,
        GeneratorType::FreqModLFO => 22,
        GeneratorType::DelayVibLFO => 23,
        GeneratorType::FreqVibLFO => 24,
        GeneratorType::DelayModEnv => 25,
        GeneratorType::AttackModEnv => 26,
        GeneratorType::HoldModEnv => 27,
        GeneratorType::DecayModEnv => 28,
        GeneratorType::SustainModEnv => 29,
        GeneratorType::ReleaseModEnv => 30,
        GeneratorType::KeynumToModEnvHold => 31,
        GeneratorType::KeynumToModEnvDecay => 32,
        GeneratorType::DelayVolEnv => 33,
        GeneratorType::AttackVolEnv => 34,
        GeneratorType::HoldVolEnv => 35,
        GeneratorType::DecayVolEnv => 36,
        GeneratorType::SustainVolEnv => 37,
        GeneratorType::ReleaseVolEnv => 38,
        GeneratorType::KeynumToVolEnvHold => 39,
        GeneratorType::KeynumToVolEnvDecay => 40,
        GeneratorType::Instrument => 41,
        GeneratorType::Reserved1 => 42,
        GeneratorType::KeyRange => 43,
        GeneratorType::VelRange => 44,
        GeneratorType::StartloopAddrsCoarseOffset => 45,
        GeneratorType::Keynum => 46,
        GeneratorType::Velocity => 47,
        GeneratorType::InitialAttenuation => 48,
        GeneratorType::Reserved2 => 49,
        GeneratorType::EndloopAddrsCoarseOffset => 50,
        GeneratorType::CoarseTune => 51,
        GeneratorType::FineTune => 52,
        GeneratorType::SampleID => 53,
        GeneratorType::SampleModes => 54,
        GeneratorType::Reserved3 => 55,
        GeneratorType::ScaleTuning => 56,
        GeneratorType::ExclusiveClass => 57,
        GeneratorType::OverridingRootKey => 58,
        GeneratorType::Unused5 => 59,
        GeneratorType::EndOper => 60,
    }
}

impl GeneratorType {
    /// The generator type numbered `id`; numbers above 60 are unknown.
    pub fn try_from_id(id: u16) -> (r: Result<GeneratorType, Error>)
        ensures
            match generator_type_of(id) {
                Some(t) => r == Ok::<GeneratorType, Error>(t),
                None => r matches Err(Error::UnknownGeneratorType(v)) && v == id,
            },
    {
        let t = match id {
            0 => GeneratorType::StartAddrsOffset,
            1 => GeneratorType::EndAddrsOffset,
            2 => GeneratorType::StartloopAddrsOffset,
            3 => GeneratorType::EndloopAddrsOffset,
            4 => GeneratorType::StartAddrsCoarseOffset,
            5 => GeneratorType::ModLfoToPitch,
            6 => GeneratorType::VibLfoToPitch,
            7 => GeneratorType::ModEnvToPitch,
            8 => GeneratorType::InitialFilterFc,
            9 => GeneratorType::InitialFilterQ,
            10 => GeneratorType::ModLfoToFilterFc,
            11 => GeneratorType::ModEnvToFilterFc,
            12 => GeneratorType::EndAddrsCoarseOffset,
            13 => GeneratorType::ModLfoToVolume,
            14 => GeneratorType::Unused1,
            15 => GeneratorType::ChorusEffectsSend,
            16 => GeneratorType::ReverbEffectsSend,
            17 => GeneratorType::Pan,
            18 => GeneratorType::Unused2,
            19 => GeneratorType::Unused3,
            20 => GeneratorType::Unused4,
            21 => GeneratorType::DelayModLFO,
            22 => GeneratorType::FreqModLFO,
            23 => GeneratorType::DelayVibLFO,
            24 => GeneratorType::FreqVibLFO,
            25 => GeneratorType::DelayModEnv,
            26 => GeneratorType::AttackModEnv,
            27 => GeneratorType::HoldModEnv,
            28 => GeneratorType::DecayModEnv,
            29 => GeneratorType::SustainModEnv,
            30 => GeneratorType::ReleaseModEnv,
            31 => GeneratorType::KeynumToModEnvHold,
            32 => GeneratorType::KeynumToModEnvDecay,
            33 => GeneratorType::DelayVolEnv,
            34 => GeneratorType::AttackVolEnv,
            35 => GeneratorType::HoldVolEnv,
            36 => GeneratorType::DecayVolEnv,
            37 => GeneratorType::SustainVolEnv,
            38 => GeneratorType::ReleaseVolEnv,
            39 => GeneratorType::KeynumToVolEnvHold,
            40 => GeneratorType::KeynumToVolEnvDecay,
            41 => GeneratorType::Instrument,
            42 => GeneratorType::Reserved1,
            43 => GeneratorType::KeyRange,
            44 => GeneratorType::VelRange,
            45 => GeneratorType::StartloopAddrsCoarseOffset,
            46 => GeneratorType::Keynum,
            47 => GeneratorType::Velocity,
            48 => GeneratorType::InitialAttenuation,
            49 => GeneratorType::Reserved2,
            50 => GeneratorType::EndloopAddrsCoarseOffset,
            51 => GeneratorType::CoarseTune,
            52 => GeneratorType::FineTune,
            53 => GeneratorType::SampleID,
            54 => GeneratorType::SampleModes,
            55 => GeneratorType::Reserved3,
            56 => GeneratorType::ScaleTuning,
            57 => GeneratorType::ExclusiveClass,
            58 => GeneratorType::OverridingRootKey,
            59 => GeneratorType::Unused5,
            60 => GeneratorType::EndOper,
            _ => {
                return Err(Error::UnknownGeneratorType(id));
            },
        };
        Ok(t)
    }

    /// The number of the type.
    pub fn id(&self) -> (r: u16)
        ensures
            r == generator_type_id(*self),
    {
        match self {
            GeneratorType::StartAddrsOffset => 0,
            GeneratorType::EndAddrsOffset => 1,
            GeneratorType::StartloopAddrsOffset => 2,
            GeneratorType::EndloopAddrsOffset => 3,
            GeneratorType::StartAddrsCoarseOffset => 4,
            GeneratorType::ModLfoToPitch => 5,
            GeneratorType::VibLfoToPitch => 6,
            GeneratorType::ModEnvToPitch => 7,
            GeneratorType::InitialFilterFc => 8,
            GeneratorType::InitialFilterQ => 9,
            GeneratorType::ModLfoToFilterFc => 10,
            GeneratorType::ModEnvToFilterFc => 11,
            GeneratorType::EndAddrsCoarseOffset => 12,
            GeneratorType::ModLfoToVolume => 13,
            GeneratorType::Unused1 => 14,
            GeneratorType::ChorusEffectsSend => 15,
            GeneratorType::ReverbEffectsSend => 16,
            GeneratorType::Pan => 17,
            GeneratorType::Unused2 => 18,
            GeneratorType::Unused3 => 19,
            GeneratorType::Unused4 => 20,
            GeneratorType::DelayModLFO => 21,
            GeneratorType::FreqModLFO => 22,
            GeneratorType::DelayVibLFO => 23,
            GeneratorType::FreqVibLFO => 24,
            GeneratorType::DelayModEnv => 25,
            GeneratorType::AttackModEnv => 26,
            GeneratorType::HoldModEnv => 27,
            GeneratorType::DecayModEnv => 28,
            GeneratorType::SustainModEnv => 29,
            GeneratorType::ReleaseModEnv => 30,
            GeneratorType::KeynumToModEnvHold => 31,
            GeneratorType::KeynumToModEnvDecay => 32,
            GeneratorType::DelayVolEnv => 33,
            GeneratorType::AttackVolEnv => 34,
            GeneratorType::HoldVolEnv => 35,
            GeneratorType::DecayVolEnv => 36,
            GeneratorType::SustainVolEnv => 37,
            GeneratorType::ReleaseVolEnv => 38,
            GeneratorType::KeynumToVolEnvHold => 39,
            GeneratorType::KeynumToVolEnvDecay => 40,
            GeneratorType::Instrument => 41,
            GeneratorType::Reserved1 => 42,
            GeneratorType::KeyRange => 43,
            GeneratorType::VelRange => 44,
            GeneratorType::StartloopAddrsCoarseOffset => 45,
            GeneratorType::Keynum => 46,
            GeneratorType::Velocity => 47,
            GeneratorType::InitialAttenuation => 48,
            GeneratorType::Reserved2 => 49,
            GeneratorType::EndloopAddrsCoarseOffset => 50,
            GeneratorType::CoarseTune => 51,
            GeneratorType::FineTune => 52,
            GeneratorType::SampleID => 53,
            GeneratorType::SampleModes => 54,
            GeneratorType::Reserved3 => 55,
            GeneratorType::ScaleTuning => 56,
            GeneratorType::ExclusiveClass => 57,
            GeneratorType::OverridingRootKey => 58,
            GeneratorType::Unused5 => 59,
            GeneratorType::EndOper => 60,
        }
    }
}

impl SfEnum<GeneratorType, u16> {
    /// The raw generator number.
    pub fn as_raw(&self) -> (r: u16)
        ensures
            r == match self {
                SfEnum::Value(v) => generator_type_id(*v),
                SfEnum::Unknown(v) => *v,
            },
    {
        match *self {
            SfEnum::Value(v) => v.id(),
            SfEnum::Unknown(v) => v,
        }
    }

    /// The known type, or the error naming the unknown number.
    pub fn into_result(&self) -> (r: Result<GeneratorType, Error>)
        ensures
            match self {
                SfEnum::Value(v) => r == Ok::<GeneratorType, Error>(*v),
                SfEnum::Unknown(v) => r matches Err(Error::UnknownGeneratorType(w)) && w == *v,
            },
    {
        match *self {
            SfEnum::Value(v) => Ok(v),
            SfEnum::Unknown(v) => Err(Error::UnknownGeneratorType(v)),
        }
    }
}

/// The type field of a generator record.
pub open spec fn generator_type_field(id: u16) -> SfEnum<GeneratorType, u16> {
    match generator_type_of(id) {
        Some(t) => SfEnum::Value(t),
        None => SfEnum::Unknown(id),
    }
}

/// The generator record at `off`: a type number, then two bytes read as a
/// low..high range (key and velocity ranges), as unsigned (instrument and
/// sample), or as signed (all others, unknown types included).
pub open spec fn parse_generator(b: Seq<u8>, off: int) -> Generator {
    let id = le_u16(b, off);
    let ty = generator_type_field(id);
    let amount = match generator_type_of(id) {
        Some(GeneratorType::KeyRange) => GeneratorAmount::Range(GeneratorAmountRange { low: b[off + 2], high: b[off + 3] }),
        Some(GeneratorType::VelRange) => GeneratorAmount::Range(GeneratorAmountRange { low: b[off + 2], high: b[off + 3] }),
        Some(GeneratorType::Instrument) => GeneratorAmount::U16(le_u16(b, off + 2)),
        Some(GeneratorType::SampleID) => GeneratorAmount::U16(le_u16(b, off + 2)),
        _ => GeneratorAmount::I16(le_i16(b, off + 2)),
    };
    Generator { ty, amount }
}

/// The generator records of a chunk's contents.
pub open spec fn generators_of(b: Seq<u8>) -> Seq<Generator> {
    Seq::new((b.len() / 4) as nat, |i: int| parse_generator(b, 4 * i))
}

/// The outcome of reading a `pgen` or `igen` chunk of the file: its length
/// must be a non-zero multiple of 4, and its contents must be in the file.
pub open spec fn generator_chunk(file: Seq<u8>, c: ChunkView) -> Result<Seq<Generator>, Error> {
    if c.len % 4 != 0 || c.len == 0 {
        Err(Error::InvalidGeneratorChunkSize(c.len))
    } else if c.pos + 8 + c.len > file.len() {
        Err(Error::Io)
    } else {
        Ok(generators_of(file.subrange(c.pos + 8, c.pos + 8 + c.len)))
    }
}

impl Generator {
    /// Reads one generator record (4 bytes).
    pub fn read(reader: &mut Reader) -> (r: Result<Generator, Error>)
        ensures
            final(reader).data == old(reader).data,
            old(reader).has(4) ==> r == Ok::<Generator, Error>(parse_generator(old(reader).data@, old(reader).curr as int))
                && final(reader).curr == old(reader).curr + 4,
            !old(reader).has(4) ==> r matches Err(Error::NumSliceError),
    {
        if reader.curr > reader.data.len() || reader.data.len() - reader.curr < 4 {
            return Err(Error::NumSliceError);
        }
        let id = match reader.read_u16() {
            Ok(v) => v,
            Err(e) => return Err(e),
        };
        let ty = match GeneratorType::try_from_id(id) {
            Ok(t) => SfEnum::Value(t),
            Err(_) => SfEnum::Unknown(id),
        };
        let kind = match ty.into_result() {
            Ok(t) => t,
            Err(_) => GeneratorType::EndOper,
        };
        let amount = match kind {
            GeneratorType::KeyRange | GeneratorType::VelRange => {
                let low = match reader.read_u8() {
                    Ok(v) => v,
                    Err(e) => return Err(e),
                };
                let high = match reader.read_u8() {
                    Ok(v) => v,
                    Err(e) => return Err(e),
                };
                GeneratorAmount::Range(GeneratorAmountRange { low, high })
            },
            GeneratorType::Instrument | GeneratorType::SampleID => {
                match reader.read_u16() {
                    Ok(v) => GeneratorAmount::U16(v),
                    Err(e) => return Err(e),
                }
            },
            _ => {
                match reader.read_i16() {
                    Ok(v) => GeneratorAmount::I16(v),
                    Err(e) => return Err(e),
                }
            },
        };
        Ok(Generator { ty, amount })
    }

    /// Reads the generator records of a `pgen` or `igen` chunk.
    pub fn read_all(pmod: &Chunk, file: &[u8]) -> (r: Result<Vec<Generator>, Error>)
        requires
            pmod.id.0@ == fourcc(112, 103, 101, 110) || pmod.id.0@ == fourcc(105, 103, 101, 110),
        ensures
            match generator_chunk(file@, pmod@) {
                Ok(g) => r matches Ok(v) && v@ == g,
                Err(e) => r == Err::<Vec<Generator>, Error>(e),
            },
    {
        let size = pmod.len();
        if size % 4 != 0 || size == 0 {
            return Err(Error::InvalidGeneratorChunkSize(size));
        }
        let data = match pmod.read_contents(file) {
            Ok(d) => d,
            Err(e) => return Err(e),
        };
        let amount = (size / 4) as usize;
        let mut reader = Reader::new(data.as_slice());
        let mut out: Vec<Generator> = Vec::new();
        let mut i: usize = 0;
        while i < amount
            invariant
                0 <= i <= amount,
                amount == data@.len() / 4,
                data@.len() % 4 == 0,
                reader.data@ == data@,
                reader.curr == 4 * i,
                out@ == generators_of(data@).take(i as int),
            decreases amount - i,
        {
            let g = match Generator::read(&mut reader) {
                Ok(g) => g,
                Err(e) => return Err(e),
            };
            out.push(g);
            i = i + 1;
            assert(out@ =~= generators_of(data@).take(i as int));
        }
        assert(out@ =~= generators_of(data@));
        Ok(out)
    }
}

} // verus!
