//! Presets and instruments assembled from the hydra records.
use vstd::prelude::*;
use crate::sf2_oxi::SfEnum;
use crate::sf2_oxi::generator::{Generator, GeneratorAmount, GeneratorAmountRange, GeneratorType};
use crate::sf2_oxi::modulator::Modulator;
use crate::sf2_oxi::records::{
    Bag, InstrumentHeader, InstrumentHeaderView, PresetHeader, PresetHeaderView, SampleHeader,
    SampleHeaderView, views_of_samples,
};
use crate::sf2_oxi::info::{Info, InfoView};
use crate::sf2_oxi::sample_data::SampleData;
use crate::sf2_oxi::hydra::{Hydra, HydraView};
use crate::text::str_eq;
use crate::sort::{SortKey, stable_sort, sort_stable_by_key};
use crate::sf2_oxi::error::Error;
use crate::sf2_oxi::raw::{loadable, load_outcome};

verus! {

/// A zone: its modulators and generators.
#[derive(Debug, Clone)]
pub struct Zone {
    pub mod_list: Vec<Modulator>,
    pub gen_list: Vec<Generator>,
}

pub struct ZoneView {
    pub mod_list: Seq<Modulator>,
    pub gen_list: Seq<Generator>,
}

impl View for Zone {
    type V = ZoneView;

    open spec fn view(&self) -> ZoneView {
        ZoneView { mod_list: self.mod_list@, gen_list: self.gen_list@ }
    }
}

/// Index of the first generator of known type `t`.
pub open spec fn first_of_type(gens: Seq<Generator>, t: GeneratorType) -> Option<int>
    decreases gens.len(),
{
    if gens.len() == 0 {
        None
    } else if gens[0].ty == SfEnum::<GeneratorType, u16>::Value(t) {
        Some(0)
    } else {
        match first_of_type(gens.drop_first(), t) {
            Some(i) => Some(i + 1),
            None => None,
        }
    }
}

proof fn lemma_first_of_type(gens: Seq<Generator>, t: GeneratorType, i: int)
    requires
        0 <= i <= gens.len(),
        forall|j: int| 0 <= j < i ==> gens[j].ty != SfEnum::<GeneratorType, u16>::Value(t),
        i < gens.len() ==> gens[i].ty == SfEnum::<GeneratorType, u16>::Value(t),
    ensures
        first_of_type(gens, t) == (if i < gens.len() { Some(i) } else { None::<int> }),
    decreases i,
{
    if i > 0 {
        lemma_first_of_type(gens.drop_first(), t, i - 1);
    }
}

/// The signed amount of the first generator of type `t`, if it holds one.
pub open spec fn first_i16(gens: Seq<Generator>, t: GeneratorType) -> Option<i16> {
    match first_of_type(gens, t) {
        Some(i) => match gens[i].amount {
            GeneratorAmount::I16(v) => Some(v),
            _ => None,
        },
        None => None,
    }
}

/// The unsigned amount of the first generator of type `t`, if it holds one.
pub open spec fn first_u16(gens: Seq<Generator>, t: GeneratorType) -> Option<u16> {
    match first_of_type(gens, t) {
        Some(i) => match gens[i].amount {
            GeneratorAmount::U16(v) => Some(v),
            _ => None,
        },
        None => None,
    }
}

/// The range amount of the first generator of type `t`, if it holds one.
pub open spec fn first_range(gens: Seq<Generator>, t: GeneratorType) -> Option<GeneratorAmountRange> {
    match first_of_type(gens, t) {
        Some(i) => match gens[i].amount {
            GeneratorAmount::Range(v) => Some(v),
            _ => None,
        },
        None => None,
    }
}

fn is_type(ty: &SfEnum<GeneratorType, u16>, t: GeneratorType) -> (r: bool)
    ensures
        r == (*ty == SfEnum::<GeneratorType, u16>::Value(t)),
{
    match ty {
        SfEnum::Value(v) => *v == t,
        SfEnum::Unknown(_) => false,
    }
}

impl Zone {
    /// Position of the first generator of type `t`.
    fn find_type(&self, t: GeneratorType) -> (r: Option<usize>)
        ensures
            match r {
                Some(i) => first_of_type(self.gen_list@, t) == Some(i as int) && i < self.gen_list@.len(),
                None => first_of_type(self.gen_list@, t) is None,
            },
    {
        let n = self.gen_list.len();
        let mut i: usize = 0;
        while i < n
            invariant
                0 <= i <= n,
                n == self.gen_list@.len(),
                forall|j: int| 0 <= j < i ==> self.gen_list@[j].ty != SfEnum::<GeneratorType, u16>::Value(t),
            decreases n - i,
        {
            if is_type(&self.gen_list[i].ty, t) {
                proof {
                    lemma_first_of_type(self.gen_list@, t, i as int);
                }
                return Some(i);
            }
            i = i + 1;
        }
        proof {
            lemma_first_of_type(self.gen_list@, t, n as int);
        }
        None
    }

    /// The signed amount of the first key-range generator (key ranges are
    /// stored as ranges, so this is `None` for generators read from a file).
    pub fn key_range(&self) -> (r: Option<&i16>)
        ensures
            match r {
                Some(x) => first_i16(self.gen_list@, GeneratorType::KeyRange) == Some(*x),
                None => first_i16(self.gen_list@, GeneratorType::KeyRange) is None,
            },
    {
        match self.find_type(GeneratorType::KeyRange) {
            Some(i) => {
                let g = &self.gen_list[i];
                proof {
                    assert(*g == self.gen_list@[i as int]);
                }
                match &g.amount {
                    GeneratorAmount::I16(v) => Some(v),
                    _ => None,
                }
            },
            None => None,
        }
    }

    /// The range of the first velocity-range generator.
    pub fn vel_range(&self) -> (r: Option<&GeneratorAmountRange>)
        ensures
            match r {
                Some(x) => first_range(self.gen_list@, GeneratorType::VelRange) == Some(*x),
                None => first_range(self.gen_list@, GeneratorType::VelRange) is None,
            },
    {
        match self.find_type(GeneratorType::VelRange) {
            Some(i) => {
                let g = &self.gen_list[i];
                proof {
                    assert(*g == self.gen_list@[i as int]);
                }
                match &g.amount {
                    GeneratorAmount::Range(v) => Some(v),
                    _ => None,
                }
            },
            None => None,
        }
    }

    /// The instrument index of the first instrument generator.
    pub fn instrument(&self) -> (r: Option<&u16>)
        ensures
            match r {
                Some(x) => first_u16(self.gen_list@, GeneratorType::Instrument) == Some(*x),
                None => first_u16(self.gen_list@, GeneratorType::Instrument) is None,
            },
    {
        match self.find_type(GeneratorType::Instrument) {
            Some(i) => {
                let g = &self.gen_list[i];
                proof {
                    assert(*g == self.gen_list@[i as int]);
                }
                match &g.amount {
                    GeneratorAmount::U16(v) => Some(v),
                    _ => None,
                }
            },
            None => None,
        }
    }

    /// The sample index of the first sample generator.
    pub fn sample(&self) -> (r: Option<&u16>)
        ensures
            match r {
                Some(x) => first_u16(self.gen_list@, GeneratorType::SampleID) == Some(*x),
                None => first_u16(self.gen_list@, GeneratorType::SampleID) is None,
            },
    {
        match self.find_type(GeneratorType::SampleID) {
            Some(i) => {
                let g = &self.gen_list[i];
                proof {
                    assert(*g == self.gen_list@[i as int]);
                }
                match &g.amount {
                    GeneratorAmount::U16(v) => Some(v),
                    _ => None,
                }
            },
            None => None,
        }
    }
}


/// The items of `s` at positions `a..b` that exist.
pub open spec fn items_in<T>(s: Seq<T>, a: int, b: int) -> Seq<T> {
    let hi = if b < s.len() {
        b
    } else {
        s.len() as int
    };
    if a < hi {
        s.subrange(a, hi)
    } else {
        Seq::empty()
    }
}

/// Zone `j`: the modulators and generators from its record up to the next
/// zone's (the last zone ends at the number of zones).
pub open spec fn zone_at(bags: Seq<Bag>, mods: Seq<Modulator>, gens: Seq<Generator>, j: int) -> ZoneView {
    let last = j + 1 >= bags.len();
    let mod_end: int = if last { bags.len() as int } else { bags[j + 1].modulator_id as int };
    let gen_end: int = if last { bags.len() as int } else { bags[j + 1].generator_id as int };
    ZoneView {
        mod_list: items_in(mods, bags[j].modulator_id as int, mod_end),
        gen_list: items_in(gens, bags[j].generator_id as int, gen_end),
    }
}

/// Zones `a..b`.
pub open spec fn zones_in(bags: Seq<Bag>, mods: Seq<Modulator>, gens: Seq<Generator>, a: int, b: int) -> Seq<ZoneView> {
    Seq::new((if a < b { b - a } else { 0 }) as nat, |k: int| zone_at(bags, mods, gens, a + k))
}

/// Zones `a..b` exist whenever the range is not empty.
pub open spec fn zone_range_ok(nbags: int, a: int, b: int) -> bool {
    a < b ==> b <= nbags
}

fn items_in_exec<T: Copy>(s: &Vec<T>, a: usize, b: usize) -> (r: Vec<T>)
    ensures
        r@ == items_in(s@, a as int, b as int),
{
    let mut out: Vec<T> = Vec::new();
    let mut i = a;
    let hi = if b < s.len() {
        b
    } else {
        s.len()
    };
    while i < hi
        invariant
            a <= i,
            hi <= s@.len(),
            hi == (if b < s@.len() { b as int } else { s@.len() as int }),
            i <= hi || i == a,
            out@ == (if a < i { s@.subrange(a as int, i as int) } else { Seq::<T>::empty() }),
        decreases hi - i,
    {
        out.push(s[i]);
        i = i + 1;
        assert(out@ =~= s@.subrange(a as int, i as int));
    }
    out
}

/// The zones `start..end` of a header list (`get_zones`).
fn get_zones(zones: &Vec<Bag>, modulators: &Vec<Modulator>, generators: &Vec<Generator>, start: usize, end: usize) -> (r: Vec<Zone>)
    requires
        zone_range_ok(zones@.len() as int, start as int, end as int),
    ensures
        r@.map_values(|z: Zone| z@) == zones_in(zones@, modulators@, generators@, start as int, end as int),
{
    let mut out: Vec<Zone> = Vec::new();
    let mut j = start;
    while j < end
        invariant
            start <= j,
            j <= end || j == start,
            zone_range_ok(zones@.len() as int, start as int, end as int),
            out@.map_values(|z: Zone| z@) == Seq::new((j - start) as nat, |k: int| zone_at(zones@, modulators@, generators@, start + k)),
        decreases end - j,
    {
        let curr = zones[j];
        let last = j + 1 >= zones.len();
        let mod_end: usize = if last {
            zones.len()
        } else {
            zones[j + 1].modulator_id as usize
        };
        let gen_end: usize = if last {
            zones.len()
        } else {
            zones[j + 1].generator_id as usize
        };
        let mod_list = items_in_exec(modulators, curr.modulator_id as usize, mod_end);
        let gen_list = items_in_exec(generators, curr.generator_id as usize, gen_end);
        let ghost before = out@;
        let z = Zone { mod_list, gen_list };
        assert(curr == zones@[j as int]);
        assert(z@ == zone_at(zones@, modulators@, generators@, j as int));
        out.push(z);
        assert(out@.map_values(|z: Zone| z@) =~= before.map_values(|z: Zone| z@).push(z@));
        j = j + 1;
        assert(out@.map_values(|z: Zone| z@) =~= Seq::new((j - start) as nat, |k: int| zone_at(zones@, modulators@, generators@, start + k)));
    }
    assert(out@.map_values(|z: Zone| z@) =~= zones_in(zones@, modulators@, generators@, start as int, end as int));
    out
}

/// A preset: its header and zones.
#[derive(Debug, Clone)]
pub struct Preset {
    pub header: PresetHeader,
    pub zones: Vec<Zone>,
}

pub struct PresetView {
    pub header: PresetHeaderView,
    pub zones: Seq<ZoneView>,
}

impl View for Preset {
    type V = PresetView;

    open spec fn view(&self) -> PresetView {
        PresetView { header: self.header@, zones: self.zones@.map_values(|z: Zone| z@) }
    }
}

/// An instrument: its header and zones.
#[derive(Debug, Clone)]
pub struct Instrument {
    pub header: InstrumentHeader,
    pub zones: Vec<Zone>,
}

pub struct InstrumentView {
    pub header: InstrumentHeaderView,
    pub zones: Seq<ZoneView>,
}

impl View for Instrument {
    type V = InstrumentView;

    open spec fn view(&self) -> InstrumentView {
        InstrumentView { header: self.header@, zones: self.zones@.map_values(|z: Zone| z@) }
    }
}

/// The records of a SoundFont as read from its three lists.
#[derive(Debug, Clone)]
pub struct RawSoundFontData {
    pub info: Info,
    pub sample_data: SampleData,
    pub hydra: Hydra,
}

/// A SoundFont: presets and instruments with their zones, sample headers and
/// the place of the sample data.
#[derive(Debug, Clone)]
pub struct SoundFont2 {
    pub info: Info,
    pub presets: Vec<Preset>,
    pub instruments: Vec<Instrument>,
    pub sample_headers: Vec<SampleHeader>,
    pub sample_data: SampleData,
}

/// End of the zones of header `k`: the next header's first zone, or the
/// number of zones for the last header.
pub open spec fn zone_end(bag_ids: Seq<u16>, nbags: int, k: int) -> int {
    if k + 1 < bag_ids.len() {
        bag_ids[k + 1] as int
    } else {
        nbags
    }
}

/// Every header's zone range exists.
pub open spec fn headers_ok(bag_ids: Seq<u16>, nbags: int) -> bool {
    forall|k: int| 0 <= k < bag_ids.len() ==> zone_range_ok(nbags, #[trigger] bag_ids[k] as int, zone_end(bag_ids, nbags, k))
}

/// Presets of headers `k..`; the terminal record (named `EOP`) is left out.
pub open spec fn presets_from(h: HydraView, k: int) -> Seq<PresetView>
    decreases h.preset_headers.len() - k,
{
    if k < 0 || k >= h.preset_headers.len() {
        Seq::empty()
    } else {
        let ids = h.preset_headers.map_values(|x: PresetHeaderView| x.bag_id);
        let p = PresetView {
            header: h.preset_headers[k],
            zones: zones_in(
                h.preset_bags,
                h.preset_modulators,
                h.preset_generators,
                h.preset_headers[k].bag_id as int,
                zone_end(ids, h.preset_bags.len() as int, k),
            ),
        };
        let rest = presets_from(h, k + 1);
        if h.preset_headers[k].name == "EOP"@ {
            rest
        } else {
            seq![p] + rest
        }
    }
}

/// Instruments of headers `k..`; the terminal record (named `EOS`) is left out.
pub open spec fn instruments_from(h: HydraView, k: int) -> Seq<InstrumentView>
    decreases h.instrument_headers.len() - k,
{
    if k < 0 || k >= h.instrument_headers.len() {
        Seq::empty()
    } else {
        let ids = h.instrument_headers.map_values(|x: InstrumentHeaderView| x.bag_id);
        let p = InstrumentView {
            header: h.instrument_headers[k],
            zones: zones_in(
                h.instrument_bags,
                h.instrument_modulators,
                h.instrument_generators,
                h.instrument_headers[k].bag_id as int,
                zone_end(ids, h.instrument_bags.len() as int, k),
            ),
        };
        let rest = instruments_from(h, k + 1);
        if h.instrument_headers[k].name == "EOS"@ {
            rest
        } else {
            seq![p] + rest
        }
    }
}

/// Sample headers from `k` on without the terminal record (named `EOS`).
pub open spec fn samples_from(s: Seq<SampleHeaderView>, k: int) -> Seq<SampleHeaderView>
    decreases s.len() - k,
{
    if k < 0 || k >= s.len() {
        Seq::empty()
    } else if s[k].name == "EOS"@ {
        samples_from(s, k + 1)
    } else {
        seq![s[k]] + samples_from(s, k + 1)
    }
}

/// The zone ranges of all headers exist.
pub open spec fn hydra_zones_ok(h: HydraView) -> bool {
    &&& headers_ok(h.preset_headers.map_values(|x: PresetHeaderView| x.bag_id), h.preset_bags.len() as int)
    &&& headers_ok(h.instrument_headers.map_values(|x: InstrumentHeaderView| x.bag_id), h.instrument_bags.len() as int)
}

fn clone_preset_header(h: &PresetHeader) -> (r: PresetHeader)
    ensures
        r@ == h@,
{
    PresetHeader {
        name: h.name.clone(),
        preset: h.preset,
        bank: h.bank,
        bag_id: h.bag_id,
        library: h.library,
        genre: h.genre,
        morphology: h.morphology,
    }
}

fn clone_instrument_header(h: &InstrumentHeader) -> (r: InstrumentHeader)
    ensures
        r@ == h@,
{
    InstrumentHeader { name: h.name.clone(), bag_id: h.bag_id }
}

fn clone_sample_header(h: &SampleHeader) -> (r: SampleHeader)
    ensures
        r@ == h@,
{
    SampleHeader {
        name: h.name.clone(),
        start: h.start,
        end: h.end,
        loop_start: h.loop_start,
        loop_end: h.loop_end,
        sample_rate: h.sample_rate,
        origpitch: h.origpitch,
        pitchadj: h.pitchadj,
        sample_link: h.sample_link,
        sample_type: h.sample_type,
    }
}


pub open spec fn preset_views(v: Seq<Preset>) -> Seq<PresetView> {
    v.map_values(|p: Preset| p@)
}

pub open spec fn instrument_views(v: Seq<Instrument>) -> Seq<InstrumentView> {
    v.map_values(|p: Instrument| p@)
}

/// Order of a preset: `(bank << 16) | preset` as a signed 32-bit number.
pub open spec fn preset_order(h: PresetHeaderView) -> int {
    if h.bank < 32768 {
        h.bank * 65536 + h.preset
    } else {
        h.bank * 65536 + h.preset - 0x1_0000_0000
    }
}

impl SortKey for Preset {
    /// Presets are ordered by bank, then program (banks from 32768 on come
    /// first, as negative numbers).
    open spec fn sort_key(&self) -> int {
        preset_order(self.header@) + 0x8000_0000
    }

    fn key(&self) -> (k: u64) {
        let b = self.header.bank as u64;
        let p = self.header.preset as u64;
        if b < 32768 {
            b * 65536 + p + 0x8000_0000
        } else {
            b * 65536 + p - 0x8000_0000
        }
    }
}

/// The differences of preset orders that the comparison computes fit in
/// 32 bits.
pub open spec fn preset_orders_fit(v: Seq<Preset>) -> bool {
    forall|i: int, j: int|
        0 <= i < v.len() && 0 <= j < v.len() ==> i32::MIN <= #[trigger] preset_order(v[i].header@) - #[trigger] preset_order(
            v[j].header@,
        ) <= i32::MAX
}

impl SoundFont2 {
    /// Assembles presets and instruments from the hydra records: each header
    /// owns the zones from its first zone up to the next header's; each zone
    /// owns the modulators and generators from its record up to the next
    /// zone's. The terminal records (`EOP`, `EOS`) are left out.
    pub fn from_raw(data: RawSoundFontData) -> (sf: SoundFont2)
        requires
            hydra_zones_ok(data.hydra@),
        ensures
            preset_views(sf.presets@) == presets_from(data.hydra@, 0),
            instrument_views(sf.instruments@) == instruments_from(data.hydra@, 0),
            views_of_samples(sf.sample_headers@) == samples_from(data.hydra@.sample_headers, 0),
            sf.info@ == data.info@,
            sf.sample_data == data.sample_data,
    {
        let ghost h = data.hydra@;
        let hy = &data.hydra;
        let mut instruments: Vec<Instrument> = Vec::new();
        let n = hy.instrument_headers.len();
        let mut k: usize = 0;
        while k < n
            invariant
                0 <= k <= n,
                n == h.instrument_headers.len(),
                h == hy@,
                hydra_zones_ok(h),
                instrument_views(instruments@) + instruments_from(h, k as int) == instruments_from(h, 0),
            decreases n - k,
        {
            let header = &hy.instrument_headers[k];
            let start = header.bag_id as usize;
            let end: usize = if k + 1 < n {
                hy.instrument_headers[k + 1].bag_id as usize
            } else {
                hy.instrument_bags.len()
            };
            let ghost ids = h.instrument_headers.map_values(|x: InstrumentHeaderView| x.bag_id);
            proof {
                assert(h.instrument_headers[k as int] == header@);
                assert(ids[k as int] == header.bag_id);
                if k + 1 < n {
                    assert(ids[k + 1] == hy.instrument_headers@[k + 1].bag_id);
                }
                assert(zone_range_ok(h.instrument_bags.len() as int, ids[k as int] as int, zone_end(ids, h.instrument_bags.len() as int, k as int)));
            }
            let zones = get_zones(&hy.instrument_bags, &hy.instrument_modulators, &hy.instrument_generators, start, end);
            let ghost before = instruments@;
            if !str_eq(header.name.as_str(), "EOS") {
                let inst = Instrument { header: clone_instrument_header(header), zones };
                instruments.push(inst);
                assert(instrument_views(instruments@) =~= instrument_views(before).push(inst@));
                assert(instrument_views(before) + instruments_from(h, k as int) =~= instrument_views(instruments@) + instruments_from(h, k + 1));
            }
            k = k + 1;
        }
        assert(instrument_views(instruments@) + instruments_from(h, n as int) =~= instrument_views(instruments@));
        let mut presets: Vec<Preset> = Vec::new();
        let m = hy.preset_headers.len();
        let mut k: usize = 0;
        while k < m
            invariant
                0 <= k <= m,
                m == h.preset_headers.len(),
                h == hy@,
                hydra_zones_ok(h),
                preset_views(presets@) + presets_from(h, k as int) == presets_from(h, 0),
            decreases m - k,
        {
            let header = &hy.preset_headers[k];
            let start = header.bag_id as usize;
            let end: usize = if k + 1 < m {
                hy.preset_headers[k + 1].bag_id as usize
            } else {
                hy.preset_bags.len()
            };
            let ghost ids = h.preset_headers.map_values(|x: PresetHeaderView| x.bag_id);
            proof {
                assert(h.preset_headers[k as int] == header@);
                assert(ids[k as int] == header.bag_id);
                if k + 1 < m {
                    assert(ids[k + 1] == hy.preset_headers@[k + 1].bag_id);
                }
                assert(zone_range_ok(h.preset_bags.len() as int, ids[k as int] as int, zone_end(ids, h.preset_bags.len() as int, k as int)));
            }
            let zones = get_zones(&hy.preset_bags, &hy.preset_modulators, &hy.preset_generators, start, end);
            let ghost before = presets@;
            if !str_eq(header.name.as_str(), "EOP") {
                let p = Preset { header: clone_preset_header(header), zones };
                presets.push(p);
                assert(preset_views(presets@) =~= preset_views(before).push(p@));
                assert(preset_views(before) + presets_from(h, k as int) =~= preset_views(presets@) + presets_from(h, k + 1));
            }
            k = k + 1;
        }
        assert(preset_views(presets@) + presets_from(h, m as int) =~= preset_views(presets@));
        let mut sample_headers: Vec<SampleHeader> = Vec::new();
        let ns = hy.sample_headers.len();
        let mut k: usize = 0;
        while k < ns
            invariant
                0 <= k <= ns,
                ns == h.sample_headers.len(),
                h == hy@,
                views_of_samples(sample_headers@) + samples_from(h.sample_headers, k as int) == samples_from(h.sample_headers, 0),
            decreases ns - k,
        {
            let sh = &hy.sample_headers[k];
            assert(h.sample_headers[k as int] == sh@);
            let ghost before = sample_headers@;
            if !str_eq(sh.name.as_str(), "EOS") {
                let c = clone_sample_header(sh);
                sample_headers.push(c);
                assert(views_of_samples(sample_headers@) =~= views_of_samples(before).push(c@));
                assert(views_of_samples(before) + samples_from(h.sample_headers, k as int) =~= views_of_samples(sample_headers@) + samples_from(h.sample_headers, k + 1));
            }
            k = k + 1;
        }
        assert(views_of_samples(sample_headers@) + samples_from(h.sample_headers, ns as int) =~= views_of_samples(sample_headers@));
        SoundFont2 { info: data.info, presets, instruments, sample_headers, sample_data: data.sample_data }
    }

    /// Sorts the presets by bank, then program; equal presets keep their order.
    pub fn sort_presets(self) -> (sf: SoundFont2)
        requires
            preset_orders_fit(self.presets@),
        ensures
            sf.presets@ == stable_sort(self.presets@),
            sf.instruments == self.instruments,
            sf.sample_headers == self.sample_headers,
            sf.info == self.info,
            sf.sample_data == self.sample_data,
    {
        let SoundFont2 { info, presets, instruments, sample_headers, sample_data } = self;
        let presets = sort_stable_by_key(presets);
        SoundFont2 { info, presets, instruments, sample_headers, sample_data }
    }
}


fn headers_check(bag_ids: &Vec<u16>, nbags: usize) -> (r: bool)
    ensures
        r == headers_ok(bag_ids@, nbags as int),
{
    let n = bag_ids.len();
    let mut k: usize = 0;
    while k < n
        invariant
            0 <= k <= n,
            n == bag_ids@.len(),
            forall|j: int| 0 <= j < k ==> zone_range_ok(nbags as int, #[trigger] bag_ids@[j] as int, zone_end(bag_ids@, nbags as int, j)),
        decreases n - k,
    {
        let start = bag_ids[k] as usize;
        let end: usize = if k + 1 < n {
            bag_ids[k + 1] as usize
        } else {
            nbags
        };
        if start < end && end > nbags {
            return false;
        }
        k = k + 1;
    }
    true
}

/// Whether every header's zone range exists in the hydra (what `from_raw`
/// needs).
pub fn zones_ok(hydra: &Hydra) -> (r: bool)
    ensures
        r == hydra_zones_ok(hydra@),
{
    let mut pids: Vec<u16> = Vec::new();
    let mut k: usize = 0;
    while k < hydra.preset_headers.len()
        invariant
            0 <= k <= hydra.preset_headers@.len(),
            pids@ == hydra@.preset_headers.map_values(|x: PresetHeaderView| x.bag_id).take(k as int),
        decreases hydra.preset_headers@.len() - k,
    {
        pids.push(hydra.preset_headers[k].bag_id);
        k = k + 1;
        assert(pids@ =~= hydra@.preset_headers.map_values(|x: PresetHeaderView| x.bag_id).take(k as int));
    }
    assert(pids@ =~= hydra@.preset_headers.map_values(|x: PresetHeaderView| x.bag_id));
    let mut iids: Vec<u16> = Vec::new();
    let mut k: usize = 0;
    while k < hydra.instrument_headers.len()
        invariant
            0 <= k <= hydra.instrument_headers@.len(),
            iids@ == hydra@.instrument_headers.map_values(|x: InstrumentHeaderView| x.bag_id).take(k as int),
        decreases hydra.instrument_headers@.len() - k,
    {
        iids.push(hydra.instrument_headers[k].bag_id);
        k = k + 1;
        assert(iids@ =~= hydra@.instrument_headers.map_values(|x: InstrumentHeaderView| x.bag_id).take(k as int));
    }
    assert(iids@ =~= hydra@.instrument_headers.map_values(|x: InstrumentHeaderView| x.bag_id));
    headers_check(&pids, hydra.preset_bags.len()) && headers_check(&iids, hydra.instrument_bags.len())
}

impl SoundFont2 {
    /// Loads a SoundFont file held in memory and assembles its presets and
    /// instruments (see `RawSoundFontData::load` and `from_raw`).
    pub fn load(file: &[u8]) -> (r: Result<SoundFont2, Error>)
        requires
            loadable(file@),
            load_outcome(file@) matches Ok((i, s, h)) ==> hydra_zones_ok(h),
        ensures
            match load_outcome(file@) {
                Ok((i, s, h)) => (r matches Ok(sf) && sf.info@ == i && sf.sample_data == s
                    && preset_views(sf.presets@) == presets_from(h, 0) && instrument_views(sf.instruments@)
                    == instruments_from(h, 0) && views_of_samples(sf.sample_headers@) == samples_from(
                    h.sample_headers,
                    0,
                )),
                Err(e) => (r matches Err(x) && x@ == e),
            },
    {
        match RawSoundFontData::load(file) {
            Ok(data) => Ok(SoundFont2::from_raw(data)),
            Err(e) => Err(e),
        }
    }
}

} // verus!
