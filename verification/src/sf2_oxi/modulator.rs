//! Modulator records of the hydra (`pmod`, `imod`).
use vstd::prelude::*;
use vstd::std_specs::convert::FromSpecImpl;
use crate::bytes::{le_u16, le_i16};
use crate::sf2_oxi::error::Error;
use crate::sf2_oxi::riff::{Chunk, ChunkView, fourcc};
use crate::sf2_oxi::utils::Reader;

verus! {

/// Sources of the general controller palette.
#[derive(Debug, Clone, Copy, PartialEq, Eq, Structural)]
pub enum GeneralPalette {
    NoController,
    NoteOnVelocity,
    NoteOnKeyNumber,
    PolyPressure,
    ChannelPressure,
    PitchWheel,
    PitchWheelSensitivity,
    Link,
    Unknown(u8),
}

/// The general source numbered `ty`.
pub open spec fn general_palette_of(ty: u8) -> GeneralPalette {
    match ty {
        0 => GeneralPalette::NoController,
        2 => GeneralPalette::NoteOnVelocity,
        3 => GeneralPalette::NoteOnKeyNumber,
        10 => GeneralPalette::PolyPressure,
        13 => GeneralPalette::ChannelPressure,
        14 => GeneralPalette::PitchWheel,
        16 => GeneralPalette::PitchWheelSensitivity,
        127 => GeneralPalette::Link,
        v => GeneralPalette::Unknown(v),
    }
}

impl From<u8> for GeneralPalette {
    fn from(ty: u8) -> (r: Self) {
        match ty {
            0 => GeneralPalette::NoController,
            2 => GeneralPalette::NoteOnVelocity,
            3 => GeneralPalette::NoteOnKeyNumber,
            10 => GeneralPalette::PolyPressure,
            13 => GeneralPalette::ChannelPressure,
            14 => GeneralPalette::PitchWheel,
            16 => GeneralPalette::PitchWheelSensitivity,
            127 => GeneralPalette::Link,
            v => GeneralPalette::Unknown(v),
        }
    }
}

impl FromSpecImpl<u8> for GeneralPalette {
    open spec fn obeys_from_spec() -> bool {
        true
    }

    open spec fn from_spec(ty: u8) -> GeneralPalette {
        general_palette_of(ty)
    }
}

/// Sources of a modulator, as the synthesizer names them.
#[derive(Debug, Clone, Copy, PartialEq, Eq, Structural)]
pub enum ControllerPalette {
    NoController,
    NoteOnVelocity,
    NoteOnKeyNumber,
    PolyPressure,
    ChannelPressure,
    PitchWheel,
    PitchWheelSensitivity,
    Link,
    Unknown(u8),
}

/// The controller source of a general source (same variant).
pub open spec fn controller_palette_of(g: GeneralPalette) -> ControllerPalette {
    match g {
        GeneralPalette::NoController => ControllerPalette::NoController,
        GeneralPalette::NoteOnVelocity => ControllerPalette::NoteOnVelocity,
        GeneralPalette::NoteOnKeyNumber => ControllerPalette::NoteOnKeyNumber,
        GeneralPalette::PolyPressure => ControllerPalette::PolyPressure,
        GeneralPalette::ChannelPressure => ControllerPalette::ChannelPressure,
        GeneralPalette::PitchWheel => ControllerPalette::PitchWheel,
        GeneralPalette::PitchWheelSensitivity => ControllerPalette::PitchWheelSensitivity,
        GeneralPalette::Link => ControllerPalette::Link,
        GeneralPalette::Unknown(v) => ControllerPalette::Unknown(v),
    }
}

impl From<GeneralPalette> for ControllerPalette {
    fn from(g: GeneralPalette) -> (r: Self) {
        match g {
            GeneralPalette::NoController => ControllerPalette::NoController,
            GeneralPalette::NoteOnVelocity => ControllerPalette::NoteOnVelocity,
            GeneralPalette::NoteOnKeyNumber => ControllerPalette::NoteOnKeyNumber,
            GeneralPalette::PolyPressure => ControllerPalette::PolyPressure,
            GeneralPalette::ChannelPressure => ControllerPalette::ChannelPressure,
            GeneralPalette::PitchWheel => ControllerPalette::PitchWheel,
            GeneralPalette::PitchWheelSensitivity => ControllerPalette::PitchWheelSensitivity,
            GeneralPalette::Link => ControllerPalette::Link,
            GeneralPalette::Unknown(v) => ControllerPalette::Unknown(v),
        }
    }
}

impl FromSpecImpl<GeneralPalette> for ControllerPalette {
    open spec fn obeys_from_spec() -> bool {
        true
    }

    open spec fn from_spec(g: GeneralPalette) -> ControllerPalette {
        controller_palette_of(g)
    }
}

/// Direction of a source: set bit means positive.
#[derive(Debug, Clone, Copy, PartialEq, Eq, Structural)]
pub enum SourceDirection {
    Positive,
    Negative,
    Unknown(bool),
}

impl From<bool> for SourceDirection {
    fn from(d: bool) -> (r: Self) {
        if d {
            SourceDirection::Positive
        } else {
            SourceDirection::Negative
        }
    }
}

impl FromSpecImpl<bool> for SourceDirection {
    open spec fn obeys_from_spec() -> bool {
        true
    }

    open spec fn from_spec(d: bool) -> SourceDirection {
        if d {
            SourceDirection::Positive
        } else {
            SourceDirection::Negative
        }
    }
}

/// Polarity of a source: set bit means bipolar.
#[derive(Debug, Clone, Copy, PartialEq, Eq, Structural)]
pub enum SourcePolarity {
    Unipolar,
    Bipolar,
    Unknown(bool),
}

impl From<bool> for SourcePolarity {
    fn from(p: bool) -> (r: Self) {
        if p {
            SourcePolarity::Bipolar
        } else {
            SourcePolarity::Unipolar
        }
    }
}

impl FromSpecImpl<bool> for SourcePolarity {
    open spec fn obeys_from_spec() -> bool {
        true
    }

    open spec fn from_spec(p: bool) -> SourcePolarity {
        if p {
            SourcePolarity::Bipolar
        } else {
            SourcePolarity::Unipolar
        }
    }
}

/// Palette of a source: set bit means a MIDI controller.
#[derive(Debug, Clone, Copy, PartialEq, Eq, Structural)]
pub enum SourceType {
    General,
    Controller,
    Unknown(bool),
}

impl From<bool> for SourceType {
    fn from(t: bool) -> (r: Self) {
        if t {
            SourceType::Controller
        } else {
            SourceType::General
        }
    }
}

impl FromSpecImpl<bool> for SourceType {
    open spec fn obeys_from_spec() -> bool {
        true
    }

    open spec fn from_spec(t: bool) -> SourceType {
        if t {
            SourceType::Controller
        } else {
            SourceType::General
        }
    }
}

/// A modulator source, decoded from its 16-bit field.
#[derive(Debug, Clone, Copy, PartialEq, Eq, Structural)]
pub struct ModulatorSource {
    pub ctrl: ControllerPalette,
    pub direction: SourceDirection,
    pub polarity: SourcePolarity,
    pub typ: SourceType,
    pub index: u16,
}

/// Decoding of a source field: bits 0-6 index, bit 7 direction, bit 8
/// polarity, bit 9 type, bits 10-15 palette entry.
pub open spec fn modulator_source_of(src: u16) -> ModulatorSource {
    ModulatorSource {
        ctrl: controller_palette_of(general_palette_of(((src / 1024) % 64) as u8)),
        direction: if (src / 128) % 2 == 1 {
            SourceDirection::Positive
        } else {
            SourceDirection::Negative
        },
        polarity: if (src / 256) % 2 == 1 {
            SourcePolarity::Bipolar
        } else {
            SourcePolarity::Unipolar
        },
        typ: if (src / 512) % 2 == 1 {
            SourceType::Controller
        } else {
            SourceType::General
        },
        index: (src % 128) as u16,
    }
}

impl From<u16> for ModulatorSource {
    fn from(src: u16) -> (r: Self) {
        let index = src % 128;
        let direction = SourceDirection::from((src / 128) % 2 == 1);
        let polarity = SourcePolarity::from((src / 256) % 2 == 1);
        let typ = SourceType::from((src / 512) % 2 == 1);
        let ctrl = ((src / 1024) % 64) as u8;
        ModulatorSource {
            ctrl: ControllerPalette::from(GeneralPalette::from(ctrl)),
            direction,
            polarity,
            typ,
            index,
        }
    }
}

impl FromSpecImpl<u16> for ModulatorSource {
    open spec fn obeys_from_spec() -> bool {
        true
    }

    open spec fn from_spec(src: u16) -> ModulatorSource {
        modulator_source_of(src)
    }
}

/// How a modulator's output is shaped.
#[derive(Debug, Clone, Copy, PartialEq, Eq, Structural)]
pub enum ModulatorTransform {
    Linear,
    AbsoluteValue,
    Unknown(u16),
}

impl ModulatorTransform {
    /// The transform numbered `id` (0 linear, 2 absolute value).
    pub fn try_from_id(id: u16) -> (r: Result<ModulatorTransform, Error>)
        ensures
            id == 0 ==> r == Ok::<ModulatorTransform, Error>(ModulatorTransform::Linear),
            id == 2 ==> r == Ok::<ModulatorTransform, Error>(ModulatorTransform::AbsoluteValue),
            id != 0 && id != 2 ==> (r matches Err(Error::UnknownModulatorTransform(v)) && v == id),
    {
        match id {
            0 => Ok(ModulatorTransform::Linear),
            2 => Ok(ModulatorTransform::AbsoluteValue),
            v => Err(Error::UnknownModulatorTransform(v)),
        }
    }
}

/// A modulator record.
#[derive(Debug, Clone, Copy, PartialEq, Eq, Structural)]
pub struct Modulator {
    pub source: ModulatorSource,
    pub destination: u16,
    pub amount: i16,
    pub amt_source: ModulatorSource,
    pub transform: ModulatorTransform,
}

/// The modulator record at `off` (10 bytes: source, destination, amount,
/// amount source, transform); transforms other than 2 are read as linear.
pub open spec fn parse_modulator(b: Seq<u8>, off: int) -> Modulator {
    Modulator {
        source: modulator_source_of(le_u16(b, off)),
        destination: le_u16(b, off + 2),
        amount: le_i16(b, off + 4),
        amt_source: modulator_source_of(le_u16(b, off + 6)),
        transform: if le_u16(b, off + 8) == 2 {
            ModulatorTransform::AbsoluteValue
        } else {
            ModulatorTransform::Linear
        },
    }
}

/// The modulator records of a chunk's contents.
pub open spec fn modulators_of(b: Seq<u8>) -> Seq<Modulator> {
    Seq::new((b.len() / 10) as nat, |i: int| parse_modulator(b, 10 * i))
}

/// The outcome of reading a `pmod` or `imod` chunk: empty when its length is
/// zero, else its length must be a multiple of 10 and its contents in the file.
pub open spec fn modulator_chunk(file: Seq<u8>, c: ChunkView) -> Result<Seq<Modulator>, Error> {
    if c.len == 0 {
        Ok(Seq::empty())
    } else if c.len % 10 != 0 {
        Err(Error::InvalidModulatorChunkSize(c.len))
    } else if c.pos + 8 + c.len > file.len() {
        Err(Error::Io)
    } else {
        Ok(modulators_of(file.subrange(c.pos + 8, c.pos + 8 + c.len)))
    }
}

impl Modulator {
    /// Reads one modulator record.
    pub fn read(reader: &mut Reader) -> (r: Result<Modulator, Error>)
        ensures
            final(reader).data == old(reader).data,
            old(reader).has(10) ==> r == Ok::<Modulator, Error>(parse_modulator(old(reader).data@, old(reader).curr as int))
                && final(reader).curr == old(reader).curr + 10,
            !old(reader).has(10) ==> r matches Err(Error::NumSliceError),
    {
        if reader.curr > reader.data.len() || reader.data.len() - reader.curr < 10 {
            return Err(Error::NumSliceError);
        }
        let src = match reader.read_u16() {
            Ok(v) => v,
            Err(e) => return Err(e),
        };
        let dest = match reader.read_u16() {
            Ok(v) => v,
            Err(e) => return Err(e),
        };
        let amount = match reader.read_i16() {
            Ok(v) => v,
            Err(e) => return Err(e),
        };
        let amt_src = match reader.read_u16() {
            Ok(v) => v,
            Err(e) => return Err(e),
        };
        let transform = match reader.read_u16() {
            Ok(v) => v,
            Err(e) => return Err(e),
        };
        let transform = if transform == 2 {
            ModulatorTransform::AbsoluteValue
        } else {
            ModulatorTransform::Linear
        };
        Ok(Modulator {
            source: ModulatorSource::from(src),
            destination: dest,
            amount,
            amt_source: ModulatorSource::from(amt_src),
            transform,
        })
    }

    /// Reads the modulator records of a `pmod` or `imod` chunk.
    pub fn read_all(pmod: &Chunk, file: &[u8]) -> (r: Result<Vec<Modulator>, Error>)
        requires
            pmod.id.0@ == fourcc(112, 109, 111, 100) || pmod.id.0@ == fourcc(105, 109, 111, 100),
        ensures
            match modulator_chunk(file@, pmod@) {
                Ok(m) => r matches Ok(v) && v@ == m,
                Err(e) => r == Err::<Vec<Modulator>, Error>(e),
            },
    {
        let size = pmod.len();
        if size == 0 {
            return Ok(Vec::new());
        }
        if size % 10 != 0 {
            return Err(Error::InvalidModulatorChunkSize(size));
        }
        let data = match pmod.read_contents(file) {
            Ok(d) => d,
            Err(e) => return Err(e),
        };
        let amount = (size / 10) as usize;
        let mut reader = Reader::new(data.as_slice());
        let mut out: Vec<Modulator> = Vec::new();
        let mut i: usize = 0;
        while i < amount
            invariant
                0 <= i <= amount,
                amount == data@.len() / 10,
                data@.len() % 10 == 0,
                reader.data@ == data@,
                reader.curr == 10 * i,
                out@ == modulators_of(data@).take(i as int),
            decreases amount - i,
        {
            let m = match Modulator::read(&mut reader) {
                Ok(m) => m,
                Err(e) => return Err(e),
            };
            out.push(m);
            i = i + 1;
            assert(out@ =~= modulators_of(data@).take(i as int));
        }
        assert(out@ =~= modulators_of(data@));
        Ok(out)
    }
}

/// A default modulator from its raw fields: source, destination generator,
/// amount and amount source, with a linear transform.
pub open spec fn default_modulator(src: u16, dest: u16, amount: i16, amt_src: u16) -> Modulator {
    Modulator {
        source: modulator_source_of(src),
        destination: dest,
        amount,
        amt_source: modulator_source_of(amt_src),
        transform: ModulatorTransform::Linear,
    }
}

/// The default modulators of the SoundFont 2 specification (section 8.4),
/// in its order:
/// note-on velocity to initial attenuation (48) and to filter cutoff (8),
/// channel pressure and controller 1 to vibrato LFO pitch depth (6),
/// controller 7 to initial attenuation, controller 10 to pan (17),
/// controller 11 to initial attenuation, controller 91 to reverb send (16),
/// controller 93 to chorus send (15), and the pitch wheel, scaled by the
/// pitch wheel sensitivity, to the initial pitch (59).
pub open spec fn sf2_default_modulators() -> Seq<Modulator> {
    seq![
        default_modulator(0x0502, 48, 960, 0),
        default_modulator(0x0102, 8, -2400i16, 0),
        default_modulator(0x000D, 6, 50, 0),
        default_modulator(0x0081, 6, 50, 0),
        default_modulator(0x0587, 48, 960, 0),
        default_modulator(0x028A, 17, 1000, 0),
        default_modulator(0x058B, 48, 960, 0),
        default_modulator(0x00DB, 16, 200, 0),
        default_modulator(0x00DD, 15, 200, 0),
        default_modulator(0x020E, 59, 12700, 0x0010),
    ]
}

fn make_default_modulator(src: u16, dest: u16, amount: i16, amt_src: u16) -> (m: Modulator)
    ensures
        m == default_modulator(src, dest, amount, amt_src),
{
    Modulator {
        source: ModulatorSource::from(src),
        destination: dest,
        amount,
        amt_source: ModulatorSource::from(amt_src),
        transform: ModulatorTransform::Linear,
    }
}

/// The default modulator list of the SoundFont 2 specification.
pub fn default_modulators() -> (r: Vec<Modulator>)
    ensures
        r@ == sf2_default_modulators(),
{
    let mut v: Vec<Modulator> = Vec::new();
    v.push(make_default_modulator(0x0502, 48, 960, 0));
    v.push(make_default_modulator(0x0102, 8, -2400, 0));
    v.push(make_default_modulator(0x000D, 6, 50, 0));
    v.push(make_default_modulator(0x0081, 6, 50, 0));
    v.push(make_default_modulator(0x0587, 48, 960, 0));
    v.push(make_default_modulator(0x028A, 17, 1000, 0));
    v.push(make_default_modulator(0x058B, 48, 960, 0));
    v.push(make_default_modulator(0x00DB, 16, 200, 0));
    v.push(make_default_modulator(0x00DD, 15, 200, 0));
    v.push(make_default_modulator(0x020E, 59, 12700, 0x0010));
    assert(v@ =~= sf2_default_modulators());
    v
}

} // verus!
