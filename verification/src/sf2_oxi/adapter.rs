//! The synthesizer's view of a SoundFont read by the `sf2_oxi` reader:
//! samples over shared sample points, presets and instruments with the key
//! and velocity ranges and the volume-envelope amounts of their zones.
use vstd::prelude::*;
use std::sync::Arc;
use crate::sf2_oxi::SfEnum;
use crate::sf2_oxi::generator::{Generator, GeneratorAmount, GeneratorType};
use crate::sf2_oxi::records::{SampleHeader, SampleHeaderView, SampleLink, sample_link_of};
use crate::sf2_oxi::soundfont::{
    SoundFont2, Zone, ZoneView, first_i16, first_u16, first_range, Instrument as OxiInstrument,
    Preset as OxiPreset,
};
use crate::sf2::parser::{sample_points, points_from_bytes};

verus! {

/// A SoundFont as the synthesizer uses it.
#[derive(Debug)]
pub struct Sf2File {
    /// The bank name.
    pub name: String,
    /// The sample points that all samples share.
    pub smpl_data: Arc<Vec<i16>>,
    pub samples: Vec<Sample>,
    pub presets: Vec<Preset>,
    pub instruments: Vec<Instrument>,
}

/// A sample: its place in the shared sample points and how to play it.
#[derive(Debug, Clone)]
pub struct Sample {
    pub name: String,
    pub start: u32,
    pub end: u32,
    pub start_loop: u32,
    pub end_loop: u32,
    pub sample_rate: u32,
    pub original_pitch: u8,
    pub pitch_correction: i8,
    pub sample_link: u16,
    pub sample_type: SampleType,
}

pub struct SampleView {
    pub name: Seq<char>,
    pub start: u32,
    pub end: u32,
    pub start_loop: u32,
    pub end_loop: u32,
    pub sample_rate: u32,
    pub original_pitch: u8,
    pub pitch_correction: i8,
    pub sample_link: u16,
    pub sample_type: SampleType,
}

impl View for Sample {
    type V = SampleView;

    open spec fn view(&self) -> SampleView {
        SampleView {
            name: self.name@,
            start: self.start,
            end: self.end,
            start_loop: self.start_loop,
            end_loop: self.end_loop,
            sample_rate: self.sample_rate,
            original_pitch: self.original_pitch,
            pitch_correction: self.pitch_correction,
            sample_link: self.sample_link,
            sample_type: self.sample_type,
        }
    }
}

impl Sample {
    /// The sample's points: from its start to its end, cut at the end of the
    /// sample points.
    pub fn data_slice<'a>(&self, smpl_data: &'a [i16]) -> (r: &'a [i16])
        requires
            self.start <= self.end,
            self.start <= smpl_data@.len(),
        ensures
            r@ == smpl_data@.subrange(
                self.start as int,
                if self.end <= smpl_data@.len() { self.end as int } else { smpl_data@.len() as int },
            ),
    {
        let start = self.start as usize;
        let end = if (self.end as usize) < smpl_data.len() {
            self.end as usize
        } else {
            smpl_data.len()
        };
        &smpl_data[start..end]
    }
}

/// Channel role of a sample.
#[derive(Debug, Clone, Copy, PartialEq, Eq, Structural)]
pub enum SampleType {
    Mono,
    Right,
    Left,
    Linked,
    RomMono,
    RomRight,
    RomLeft,
    RomLinked,
}

/// A preset (program) of a bank.
#[derive(Debug)]
pub struct Preset {
    pub name: String,
    pub bank: u16,
    pub preset_num: u16,
    pub zones: Vec<PresetZone>,
}

pub struct PresetView {
    pub name: Seq<char>,
    pub bank: u16,
    pub preset_num: u16,
    pub zones: Seq<PresetZone>,
}

impl View for Preset {
    type V = PresetView;

    open spec fn view(&self) -> PresetView {
        PresetView { name: self.name@, bank: self.bank, preset_num: self.preset_num, zones: self.zones@ }
    }
}

/// A zone of a preset: the instrument it plays and the keys and velocities it covers.
#[derive(Debug, Clone, Copy)]
pub struct PresetZone {
    pub instrument_index: Option<usize>,
    pub key_range: (u8, u8),
    pub velocity_range: (u8, u8),
}

/// An instrument.
#[derive(Debug)]
pub struct Instrument {
    pub name: String,
    pub zones: Vec<InstrumentZone>,
}

pub struct InstrumentView {
    pub name: Seq<char>,
    pub zones: Seq<InstrumentZone>,
}

impl View for Instrument {
    type V = InstrumentView;

    open spec fn view(&self) -> InstrumentView {
        InstrumentView { name: self.name@, zones: self.zones@ }
    }
}

/// A zone of an instrument: the sample it plays, the keys and velocities it
/// covers, and the amounts of its volume envelope as the file gives them
/// (`None` where neither the zone nor any zone of its instrument sets one).
#[derive(Debug, Clone, Copy)]
pub struct InstrumentZone {
    pub sample_index: Option<usize>,
    pub key_range: (u8, u8),
    pub velocity_range: (u8, u8),
    /// Attack time in timecents.
    pub attack: Option<i16>,
    /// Decay time in timecents.
    pub decay: Option<i16>,
    /// Sustain attenuation in tenths of a percent.
    pub sustain: Option<i16>,
    /// Release time in timecents.
    pub release: Option<i16>,
    /// Initial attenuation in centibels.
    pub attenuation: Option<i16>,
}

pub struct Sf2FileView {
    pub name: Seq<char>,
    pub smpl_data: Seq<i16>,
    pub samples: Seq<SampleView>,
    pub presets: Seq<PresetView>,
    pub instruments: Seq<InstrumentView>,
}

impl View for Sf2File {
    type V = Sf2FileView;

    open spec fn view(&self) -> Sf2FileView {
        Sf2FileView {
            name: self.name@,
            smpl_data: self.smpl_data@,
            samples: self.samples@.map_values(|s: Sample| s@),
            presets: self.presets@.map_values(|p: Preset| p@),
            instruments: self.instruments@.map_values(|i: Instrument| i@),
        }
    }
}

/// The channel role of a sample kind; Vorbis kinds map to their plain
/// counterparts, an unlinked sample is mono.
pub open spec fn sample_type_of_link(t: SampleLink) -> SampleType {
    match t {
        SampleLink::NoLink => SampleType::Mono,
        SampleLink::MonoSample => SampleType::Mono,
        SampleLink::RightSample => SampleType::Right,
        SampleLink::LeftSample => SampleType::Left,
        SampleLink::LinkedSample => SampleType::Linked,
        SampleLink::RomMonoSample => SampleType::RomMono,
        SampleLink::RomRightSample => SampleType::RomRight,
        SampleLink::RomLeftSample => SampleType::RomLeft,
        SampleLink::RomLinkedSample => SampleType::RomLinked,
        SampleLink::VorbisMonoSample => SampleType::Mono,
        SampleLink::VorbisRightSample => SampleType::Right,
        SampleLink::VorbisLeftSample => SampleType::Left,
        SampleLink::VorbisLinkedSample => SampleType::Linked,
    }
}

/// The adapted sample kinds follow the SoundFont 2 numbering of the
/// sample-header type word: 2 (or 0x12, its Vorbis-compressed form) is a
/// right channel, 4 (0x14) a left channel, 8 (0x18) a linked sample, and
/// 0x8002, 0x8004, 0x8008, 0x8001 the ROM right, left, linked and mono
/// samples; the remaining known words (0, 1, 0x11) are mono.
pub proof fn lemma_adapted_sample_types(v: u16)
    ensures
        sample_link_of(v) matches Some(l) ==> {
            let t = sample_type_of_link(l);
            &&& (t == SampleType::Right <==> (v == 2 || v == 0x12))
            &&& (t == SampleType::Left <==> (v == 4 || v == 0x14))
            &&& (t == SampleType::Linked <==> (v == 8 || v == 0x18))
            &&& (t == SampleType::RomRight <==> v == 0x8002)
            &&& (t == SampleType::RomLeft <==> v == 0x8004)
            &&& (t == SampleType::RomLinked <==> v == 0x8008)
            &&& (t == SampleType::RomMono <==> v == 0x8001)
            &&& (t == SampleType::Mono <==> (v == 0 || v == 1 || v == 0x11))
        },
{
}

fn sample_type_to_oxi(t: SampleLink) -> (r: SampleType)
    ensures
        r == sample_type_of_link(t),
{
    match t {
        SampleLink::NoLink => SampleType::Mono,
        SampleLink::MonoSample => SampleType::Mono,
        SampleLink::RightSample => SampleType::Right,
        SampleLink::LeftSample => SampleType::Left,
        SampleLink::LinkedSample => SampleType::Linked,
        SampleLink::RomMonoSample => SampleType::RomMono,
        SampleLink::RomRightSample => SampleType::RomRight,
        SampleLink::RomLeftSample => SampleType::RomLeft,
        SampleLink::RomLinkedSample => SampleType::RomLinked,
        SampleLink::VorbisMonoSample => SampleType::Mono,
        SampleLink::VorbisRightSample => SampleType::Right,
        SampleLink::VorbisLeftSample => SampleType::Left,
        SampleLink::VorbisLinkedSample => SampleType::Linked,
    }
}

/// The sample of a sample header.
pub open spec fn sample_of_header(h: SampleHeaderView) -> SampleView {
    SampleView {
        name: h.name,
        start: h.start,
        end: h.end,
        start_loop: h.loop_start,
        end_loop: h.loop_end,
        sample_rate: h.sample_rate,
        original_pitch: h.origpitch,
        pitch_correction: h.pitchadj,
        sample_link: h.sample_link,
        sample_type: sample_type_of_link(h.sample_type),
    }
}

/// The signed amount of the last generator of type `t` that holds one.
pub open spec fn last_i16(gens: Seq<Generator>, t: GeneratorType) -> Option<i16>
    decreases gens.len(),
{
    if gens.len() == 0 {
        None
    } else {
        let g = gens.last();
        match g.amount {
            GeneratorAmount::I16(v) => if g.ty == SfEnum::<GeneratorType, u16>::Value(t) {
                Some(v)
            } else {
                last_i16(gens.drop_last(), t)
            },
            _ => last_i16(gens.drop_last(), t),
        }
    }
}

/// The signed amount of type `t` last set in any of the zones, in order.
pub open spec fn zones_last_i16(zones: Seq<ZoneView>, t: GeneratorType) -> Option<i16>
    decreases zones.len(),
{
    if zones.len() == 0 {
        None
    } else {
        match last_i16(zones.last().gen_list, t) {
            Some(v) => Some(v),
            None => zones_last_i16(zones.drop_last(), t),
        }
    }
}

/// The envelope amount of type `t` of a zone: its own last setting, else
/// the last setting in the zones of its instrument.
pub open spec fn envelope_amount(z: ZoneView, zones: Seq<ZoneView>, t: GeneratorType) -> Option<i16> {
    match last_i16(z.gen_list, t) {
        Some(v) => Some(v),
        None => zones_last_i16(zones, t),
    }
}

/// The low and high bytes of a signed 16-bit amount.
pub open spec fn amount_bytes(v: i16) -> (u8, u8) {
    let u: int = if v < 0 { v + 65536 } else { v as int };
    ((u % 256) as u8, (u / 256) as u8)
}

/// A key range from a zone's first key-range generator ((0, 127) without one).
pub open spec fn zone_key_range(z: ZoneView) -> (u8, u8) {
    match first_i16(z.gen_list, GeneratorType::KeyRange) {
        Some(v) => amount_bytes(v),
        None => (0u8, 127u8),
    }
}

/// A velocity range from a zone's first velocity-range generator ((0, 127)
/// without one).
pub open spec fn zone_vel_range(z: ZoneView) -> (u8, u8) {
    match first_range(z.gen_list, GeneratorType::VelRange) {
        Some(r) => (r.low, r.high),
        None => (0u8, 127u8),
    }
}

/// The index held by a zone's first generator of type `t`.
pub open spec fn zone_index(z: ZoneView, t: GeneratorType) -> Option<usize> {
    match first_u16(z.gen_list, t) {
        Some(x) => Some(x as usize),
        None => None,
    }
}

/// An instrument zone adapted from zone `z` of an instrument with `zones`.
pub open spec fn adapted_instrument_zone(z: ZoneView, zones: Seq<ZoneView>) -> InstrumentZone {
    InstrumentZone {
        sample_index: zone_index(z, GeneratorType::SampleID),
        key_range: zone_key_range(z),
        velocity_range: zone_vel_range(z),
        attack: envelope_amount(z, zones, GeneratorType::AttackVolEnv),
        decay: envelope_amount(z, zones, GeneratorType::DecayVolEnv),
        sustain: envelope_amount(z, zones, GeneratorType::SustainVolEnv),
        release: envelope_amount(z, zones, GeneratorType::ReleaseVolEnv),
        attenuation: envelope_amount(z, zones, GeneratorType::InitialAttenuation),
    }
}

/// A preset zone adapted from zone `z`.
pub open spec fn adapted_preset_zone(z: ZoneView) -> PresetZone {
    PresetZone {
        instrument_index: zone_index(z, GeneratorType::Instrument),
        key_range: zone_key_range(z),
        velocity_range: zone_vel_range(z),
    }
}

pub open spec fn adapted_instrument(i: OxiInstrument) -> InstrumentView {
    let zones = i.zones@.map_values(|z: Zone| z@);
    InstrumentView { name: i.header.name@, zones: zones.map_values(|z: ZoneView| adapted_instrument_zone(z, zones)) }
}

pub open spec fn adapted_preset(p: OxiPreset) -> PresetView {
    PresetView {
        name: p.header.name@,
        bank: p.header.bank,
        preset_num: p.header.preset,
        zones: p.zones@.map_values(|z: Zone| adapted_preset_zone(z@)),
    }
}

/// The signed amount of the last generator of type `t` that holds one.
fn last_amount(gens: &Vec<Generator>, t: GeneratorType) -> (r: Option<i16>)
    ensures
        r == last_i16(gens@, t),
{
    let mut k = gens.len();
    assert(gens@.take(k as int) =~= gens@);
    while k > 0
        invariant
            k <= gens@.len(),
            last_i16(gens@, t) == last_i16(gens@.take(k as int), t),
        decreases k,
    {
        let g = gens[k - 1];
        assert(gens@.take(k as int).drop_last() =~= gens@.take(k - 1));
        match g.amount {
            GeneratorAmount::I16(v) => {
                match g.ty {
                    SfEnum::Value(ty) => if ty == t {
                        return Some(v);
                    },
                    SfEnum::Unknown(_) => {},
                }
            },
            _ => {},
        }
        k = k - 1;
    }
    None
}

/// The signed amount of type `t` last set in any of the zones.
fn zones_last_amount(zones: &Vec<Zone>, t: GeneratorType) -> (r: Option<i16>)
    ensures
        r == zones_last_i16(zones@.map_values(|z: Zone| z@), t),
{
    let ghost all = zones@.map_values(|z: Zone| z@);
    let mut k = zones.len();
    assert(all.take(k as int) =~= all);
    while k > 0
        invariant
            k <= zones@.len(),
            all == zones@.map_values(|z: Zone| z@),
            zones_last_i16(all, t) == zones_last_i16(all.take(k as int), t),
        decreases k,
    {
        assert(all.take(k as int).drop_last() =~= all.take(k - 1));
        assert(all.take(k as int).last() == zones@[k - 1]@);
        match last_amount(&zones[k - 1].gen_list, t) {
            Some(v) => {
                return Some(v);
            },
            None => {},
        }
        k = k - 1;
    }
    None
}

fn or_else(a: Option<i16>, b: Option<i16>) -> (r: Option<i16>)
    ensures
        r == (match a {
            Some(v) => Some(v),
            None => b,
        }),
{
    match a {
        Some(v) => Some(v),
        None => b,
    }
}

fn key_range_of(z: &Zone) -> (r: (u8, u8))
    ensures
        r == zone_key_range(z@),
{
    match z.key_range() {
        Some(v) => {
            let v = *v;
            let u: u32 = if v < 0 {
                (v as i32 + 65536) as u32
            } else {
                v as u32
            };
            ((u % 256) as u8, (u / 256) as u8)
        },
        None => (0, 127),
    }
}

fn vel_range_of(z: &Zone) -> (r: (u8, u8))
    ensures
        r == zone_vel_range(z@),
{
    match z.vel_range() {
        Some(r) => (r.low, r.high),
        None => (0, 127),
    }
}

fn adapt_instrument(i: &OxiInstrument) -> (r: Instrument)
    ensures
        r@ == adapted_instrument(*i),
{
    let ghost zones = i.zones@.map_values(|z: Zone| z@);
    let default_attack = zones_last_amount(&i.zones, GeneratorType::AttackVolEnv);
    let default_decay = zones_last_amount(&i.zones, GeneratorType::DecayVolEnv);
    let default_sustain = zones_last_amount(&i.zones, GeneratorType::SustainVolEnv);
    let default_release = zones_last_amount(&i.zones, GeneratorType::ReleaseVolEnv);
    let default_attenuation = zones_last_amount(&i.zones, GeneratorType::InitialAttenuation);
    let mut out: Vec<InstrumentZone> = Vec::new();
    let n = i.zones.len();
    let mut k: usize = 0;
    while k < n
        invariant
            0 <= k <= n,
            n == i.zones@.len(),
            zones == i.zones@.map_values(|z: Zone| z@),
            default_attack == zones_last_i16(zones, GeneratorType::AttackVolEnv),
            default_decay == zones_last_i16(zones, GeneratorType::DecayVolEnv),
            default_sustain == zones_last_i16(zones, GeneratorType::SustainVolEnv),
            default_release == zones_last_i16(zones, GeneratorType::ReleaseVolEnv),
            default_attenuation == zones_last_i16(zones, GeneratorType::InitialAttenuation),
            out@.len() == k,
            forall|j: int| 0 <= j < k ==> out@[j] == adapted_instrument_zone(zones[j], zones),
        decreases n - k,
    {
        let z = &i.zones[k];
        let sample_index = match z.sample() {
            Some(x) => Some(*x as usize),
            None => None,
        };
        let zone = InstrumentZone {
            sample_index,
            key_range: key_range_of(z),
            velocity_range: vel_range_of(z),
            attack: or_else(last_amount(&z.gen_list, GeneratorType::AttackVolEnv), default_attack),
            decay: or_else(last_amount(&z.gen_list, GeneratorType::DecayVolEnv), default_decay),
            sustain: or_else(last_amount(&z.gen_list, GeneratorType::SustainVolEnv), default_sustain),
            release: or_else(last_amount(&z.gen_list, GeneratorType::ReleaseVolEnv), default_release),
            attenuation: or_else(last_amount(&z.gen_list, GeneratorType::InitialAttenuation), default_attenuation),
        };
        out.push(zone);
        k = k + 1;
    }
    let r = Instrument { name: i.header.name.clone(), zones: out };
    assert(r@.zones =~= adapted_instrument(*i).zones);
    r
}

fn adapt_preset(p: &OxiPreset) -> (r: Preset)
    ensures
        r@ == adapted_preset(*p),
{
    let mut out: Vec<PresetZone> = Vec::new();
    let n = p.zones.len();
    let mut k: usize = 0;
    while k < n
        invariant
            0 <= k <= n,
            n == p.zones@.len(),
            out@.len() == k,
            forall|j: int| 0 <= j < k ==> out@[j] == adapted_preset_zone(p.zones@[j]@),
        decreases n - k,
    {
        let z = &p.zones[k];
        let instrument_index = match z.instrument() {
            Some(x) => Some(*x as usize),
            None => None,
        };
        out.push(PresetZone { instrument_index, key_range: key_range_of(z), velocity_range: vel_range_of(z) });
        k = k + 1;
    }
    let r = Preset { name: p.header.name.clone(), bank: p.header.bank, preset_num: p.header.preset, zones: out };
    assert(r@.zones =~= adapted_preset(*p).zones);
    r
}

impl Sf2File {
    /// Adapts a SoundFont read by the `sf2_oxi` reader; `smpl_bytes` are the
    /// bytes of its sample chunk, when it has one (16-bit little-endian
    /// points).
    pub fn from_oxi(sf: SoundFont2, smpl_bytes: Option<Vec<u8>>) -> (r: Sf2File)
        ensures
            r@.name == sf.info.bank_name@,
            r@.smpl_data == (match smpl_bytes {
                Some(b) => sample_points(b@),
                None => Seq::<i16>::empty(),
            }),
            r@.samples == sf.sample_headers@.map_values(|h: SampleHeader| sample_of_header(h@)),
            r@.instruments == sf.instruments@.map_values(|i: OxiInstrument| adapted_instrument(i)),
            r@.presets == sf.presets@.map_values(|p: OxiPreset| adapted_preset(p)),
    {
        let smpl_data = match smpl_bytes {
            Some(b) => points_from_bytes(b.as_slice()),
            None => Vec::new(),
        };
        let mut samples: Vec<Sample> = Vec::new();
        let ns = sf.sample_headers.len();
        let mut k: usize = 0;
        while k < ns
            invariant
                0 <= k <= ns,
                ns == sf.sample_headers@.len(),
                samples@.len() == k,
                forall|j: int| 0 <= j < k ==> (#[trigger] samples@[j])@ == sample_of_header(sf.sample_headers@[j]@),
            decreases ns - k,
        {
            let s = &sf.sample_headers[k];
            samples.push(Sample {
                name: s.name.clone(),
                start: s.start,
                end: s.end,
                start_loop: s.loop_start,
                end_loop: s.loop_end,
                sample_rate: s.sample_rate,
                original_pitch: s.origpitch,
                pitch_correction: s.pitchadj,
                sample_link: s.sample_link,
                sample_type: sample_type_to_oxi(s.sample_type),
            });
            k = k + 1;
        }
        let mut instruments: Vec<Instrument> = Vec::new();
        let ni = sf.instruments.len();
        let mut k: usize = 0;
        while k < ni
            invariant
                0 <= k <= ni,
                ni == sf.instruments@.len(),
                instruments@.len() == k,
                forall|j: int| 0 <= j < k ==> (#[trigger] instruments@[j])@ == adapted_instrument(sf.instruments@[j]),
            decreases ni - k,
        {
            instruments.push(adapt_instrument(&sf.instruments[k]));
            k = k + 1;
        }
        let mut presets: Vec<Preset> = Vec::new();
        let np = sf.presets.len();
        let mut k: usize = 0;
        while k < np
            invariant
                0 <= k <= np,
                np == sf.presets@.len(),
                presets@.len() == k,
                forall|j: int| 0 <= j < k ==> (#[trigger] presets@[j])@ == adapted_preset(sf.presets@[j]),
            decreases np - k,
        {
            presets.push(adapt_preset(&sf.presets[k]));
            k = k + 1;
        }
        let r = Sf2File { name: sf.info.bank_name, smpl_data: Arc::new(smpl_data), samples, presets, instruments };
        assert(r@.samples =~= sf.sample_headers@.map_values(|h: SampleHeader| sample_of_header(h@)));
        assert(r@.instruments =~= sf.instruments@.map_values(|i: OxiInstrument| adapted_instrument(i)));
        assert(r@.presets =~= sf.presets@.map_values(|p: OxiPreset| adapted_preset(p)));
        r
    }
}

} // verus!
