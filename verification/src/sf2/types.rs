//! Data types of a parsed SoundFont: header, samples, instruments, presets.
use vstd::prelude::*;

verus! {

/// The INFO data of a SoundFont.
#[derive(Debug)]
pub struct SoundFontHeader {
    pub name: String,
    pub rom_name: String,
    /// ROM version (major, minor).
    pub rom_version: (u16, u16),
    /// Format version (major, minor).
    pub internal_version: (u16, u16),
    /// The sound engine the font targets (`isng`).
    pub software: String,
    /// Default sample rate.
    pub sample_rate: u32,
}

pub struct SoundFontHeaderView {
    pub name: Seq<char>,
    pub rom_name: Seq<char>,
    pub rom_version: (u16, u16),
    pub internal_version: (u16, u16),
    pub software: Seq<char>,
    pub sample_rate: u32,
}

impl View for SoundFontHeader {
    type V = SoundFontHeaderView;

    open spec fn view(&self) -> SoundFontHeaderView {
        SoundFontHeaderView {
            name: self.name@,
            rom_name: self.rom_name@,
            rom_version: self.rom_version,
            internal_version: self.internal_version,
            software: self.software@,
            sample_rate: self.sample_rate,
        }
    }
}

/// A sample: its place in the shared sample data and how to play it.
#[derive(Debug, Clone)]
pub struct Sample {
    pub name: String,
    /// First sample point (index into the sample data).
    pub start: u32,
    /// End of the sample points (exclusive).
    pub end: u32,
    pub start_loop: u32,
    pub end_loop: u32,
    pub sample_rate: u32,
    /// Key at which the sample sounds as recorded.
    pub original_pitch: u8,
    /// Pitch correction in cents.
    pub pitch_correction: i8,
    pub sample_link: u16,
    pub sample_type: SampleType,
}

pub struct SampleView {
    pub name: Seq<char>,
    pub start: u32,
    pub end: u32,
    pub start_loop: u32,
    pub end_loop: u32,
    pub sample_rate: u32,
    pub original_pitch: u8,
    pub pitch_correction: i8,
    pub sample_link: u16,
    pub sample_type: SampleType,
}

impl View for Sample {
    type V = SampleView;

    open spec fn view(&self) -> SampleView {
        SampleView {
            name: self.name@,
            start: self.start,
            end: self.end,
            start_loop: self.start_loop,
            end_loop: self.end_loop,
            sample_rate: self.sample_rate,
            original_pitch: self.original_pitch,
            pitch_correction: self.pitch_correction,
            sample_link: self.sample_link,
            sample_type: self.sample_type,
        }
    }
}

impl Sample {
    /// The sample's points: from its start to its end, cut at the end of the
    /// sample data.
    pub fn data_slice<'a>(&self, smpl_data: &'a [i16]) -> (r: &'a [i16])
        requires
            self.start <= self.end,
            self.start <= smpl_data@.len(),
        ensures
            r@ == smpl_data@.subrange(
                self.start as int,
                if self.end <= smpl_data@.len() { self.end as int } else { smpl_data@.len() as int },
            ),
    {
        let start = self.start as usize;
        let end = if (self.end as usize) < smpl_data.len() {
            self.end as usize
        } else {
            smpl_data.len()
        };
        &smpl_data[start..end]
    }
}

/// Kind of a sample (numbered 1, 2, 4, 8 and, for ROM samples, 0x8001 to 0x8008).
#[derive(Debug, Clone, Copy, PartialEq, Eq, Structural)]
pub enum SampleType {
    Mono,
    Right,
    Left,
    Linked,
    RomMono,
    RomRight,
    RomLeft,
    RomLinked,
}

/// A zone of an instrument: the sample it plays and the keys and velocities it covers.
#[derive(Debug)]
pub struct InstrumentZone {
    pub sample_index: Option<usize>,
    pub key_range: (u8, u8),
    pub velocity_range: (u8, u8),
    pub generators: Vec<Generator>,
}

pub struct InstrumentZoneView {
    pub sample_index: Option<usize>,
    pub key_range: (u8, u8),
    pub velocity_range: (u8, u8),
    pub generators: Seq<Generator>,
}

impl View for InstrumentZone {
    type V = InstrumentZoneView;

    open spec fn view(&self) -> InstrumentZoneView {
        InstrumentZoneView {
            sample_index: self.sample_index,
            key_range: self.key_range,
            velocity_range: self.velocity_range,
            generators: self.generators@,
        }
    }
}

/// An instrument.
#[derive(Debug)]
pub struct Instrument {
    pub name: String,
    pub zones: Vec<InstrumentZone>,
}

pub struct InstrumentView {
    pub name: Seq<char>,
    pub zones: Seq<InstrumentZoneView>,
}

impl View for Instrument {
    type V = InstrumentView;

    open spec fn view(&self) -> InstrumentView {
        InstrumentView { name: self.name@, zones: self.zones@.map_values(|z: InstrumentZone| z@) }
    }
}

/// A zone of a preset: the instrument it plays and the keys and velocities it covers.
#[derive(Debug)]
pub struct PresetZone {
    pub instrument_index: Option<usize>,
    pub key_range: (u8, u8),
    pub velocity_range: (u8, u8),
    pub generators: Vec<Generator>,
}

pub struct PresetZoneView {
    pub instrument_index: Option<usize>,
    pub key_range: (u8, u8),
    pub velocity_range: (u8, u8),
    pub generators: Seq<Generator>,
}

impl View for PresetZone {
    type V = PresetZoneView;

    open spec fn view(&self) -> PresetZoneView {
        PresetZoneView {
            instrument_index: self.instrument_index,
            key_range: self.key_range,
            velocity_range: self.velocity_range,
            generators: self.generators@,
        }
    }
}

/// A preset (program) of a bank.
#[derive(Debug)]
pub struct Preset {
    pub name: String,
    pub bank: u16,
    pub preset_num: u16,
    pub zones: Vec<PresetZone>,
}

pub struct PresetView {
    pub name: Seq<char>,
    pub bank: u16,
    pub preset_num: u16,
    pub zones: Seq<PresetZoneView>,
}

impl View for Preset {
    type V = PresetView;

    open spec fn view(&self) -> PresetView {
        PresetView {
            name: self.name@,
            bank: self.bank,
            preset_num: self.preset_num,
            zones: self.zones@.map_values(|z: PresetZone| z@),
        }
    }
}

/// Generator kinds, numbered 0 to 64 in declaration order.
#[derive(Debug, Clone, Copy, PartialEq, Eq, Structural)]
pub enum GeneratorType {
    StartAddressOffset,
    EndAddressOffset,
    StartAddressCoarseOffset,
    ModLfoToPitch,
    VibLfoToPitch,
    ModEnvelopeToPitch,
    InitialFilterFc,
    InitialFilterQ,
    ModLfoToFilterFc,
    ModEnvelopeToFilterFc,
    EndAddressCoarseOffset,
    ModLfoToVolume,
    Unused1,
    Unused2,
    ModLfoToFilterQ,
    Unused3,
    Unused4,
    Pan,
    Unused5,
    Unused6,
    Unused7,
    DelayModLfo,
    FreqModLfo,
    DelayVibLfo,
    FreqVibLfo,
    DelayModEnv,
    AttackModEnv,
    HoldModEnv,
    DecayModEnv,
    SustainModEnv,
    ReleaseModEnv,
    KeynumToModEnvHold,
    KeynumToModEnvDecay,
    DelayVolEnv,
    AttackVolEnv,
    HoldVolEnv,
    DecayVolEnv,
    SustainVolEnv,
    ReleaseVolEnv,
    KeynumToVolEnvHold,
    KeynumToVolEnvDecay,
    Instrument,
    Reserved1,
    Reserved2,
    KeyRange,
    VelocityRange,
    StartAddressCoarseOffsetRight,
    EndAddressCoarseOffsetRight,
    StartAddressCoarseOffsetLeft,
    EndAddressCoarseOffsetLeft,
    Keynum,
    Velocity,
    InitialAttenuation,
    Reserved3,
    Reserved4,
    EndLoopAddressCoarseOffset,
    CoarseTune,
    FineTune,
    SampleId,
    SampleMode,
    Reserved5,
    ScaleTuning,
    SampleExceptionCount,
    ExclusiveClass,
    OverrideRootKey,
}

/// A key or velocity range.
#[derive(Debug, Clone, Copy, PartialEq, Eq, Structural)]
pub struct GeneratorRange {
    pub lo: u8,
    pub hi: u8,
}

/// The value of a generator.
#[derive(Debug, Clone, Copy, PartialEq, Eq, Structural)]
pub enum GeneratorValue {
    Uint16(u16),
    Int16(i16),
    Range(GeneratorRange),
}

/// A generator: its kind and value.
#[derive(Debug, Clone, Copy, PartialEq, Eq, Structural)]
pub struct Generator {
    pub gen_type: GeneratorType,
    pub value: GeneratorValue,
}

} // verus!
