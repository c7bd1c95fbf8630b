//! The hydra records of a SoundFont: sample headers, instruments and presets.
use vstd::prelude::*;
use crate::bytes::{le_u16, le_i16, le_u32, as_i8, read_le_u16, read_le_i16, read_le_u32, byte_as_i8};
use crate::sf2::types::{
    Sample, SampleView, SampleType, Instrument, InstrumentView, InstrumentZone, InstrumentZoneView,
    Preset, PresetView, PresetZone, PresetZoneView,
};
use crate::sf2::parser::{Sf2Parser, ParseError, field_name, extract_string};

verus! {

/// The kind of a sample from its type number; unknown numbers give `Mono`.
pub open spec fn sample_type_of(v: u16) -> SampleType {
    if v == 2 {
        SampleType::Right
    } else if v == 4 {
        SampleType::Left
    } else if v == 8 {
        SampleType::Linked
    } else if v == 0x8001 {
        SampleType::RomMono
    } else if v == 0x8002 {
        SampleType::RomRight
    } else if v == 0x8004 {
        SampleType::RomLeft
    } else if v == 0x8008 {
        SampleType::RomLinked
    } else {
        SampleType::Mono
    }
}

/// The sample types follow the SoundFont 2 numbering of the sample-header
/// type word: 2 is a right channel, 4 a left channel, 8 a linked sample,
/// the same with bit 15 set their ROM variants, 0x8001 a ROM mono sample;
/// every other word reads as mono. Read from the header record `i` of a
/// `shdr` chunk, the type is that of the record's word at offset 44.
pub proof fn lemma_sample_type_numbering(shdr: Seq<u8>, i: int)
    ensures
        ({
            let w = le_u16(shdr, i * 46 + 44);
            let t = sample_record(shdr, i).sample_type;
            &&& (t == SampleType::Right <==> w == 2)
            &&& (t == SampleType::Left <==> w == 4)
            &&& (t == SampleType::Linked <==> w == 8)
            &&& (t == SampleType::RomMono <==> w == 0x8001)
            &&& (t == SampleType::RomRight <==> w == 0x8002)
            &&& (t == SampleType::RomLeft <==> w == 0x8004)
            &&& (t == SampleType::RomLinked <==> w == 0x8008)
            &&& (t == SampleType::Mono <==> (w != 2 && w != 4 && w != 8 && w != 0x8001 && w != 0x8002
                && w != 0x8004 && w != 0x8008))
        }),
{
}

fn sample_type_from(v: u16) -> (t: SampleType)
    ensures
        t == sample_type_of(v),
{
    match v {
        2 => SampleType::Right,
        4 => SampleType::Left,
        8 => SampleType::Linked,
        0x8001 => SampleType::RomMono,
        0x8002 => SampleType::RomRight,
        0x8004 => SampleType::RomLeft,
        0x8008 => SampleType::RomLinked,
        _ => SampleType::Mono,
    }
}

/// The sample header in record `i` of the `shdr` data (46 bytes a record).
pub open spec fn sample_record(shdr: Seq<u8>, i: int) -> SampleView {
    let o = i * 46;
    SampleView {
        name: field_name(shdr.subrange(o, o + 20)),
        start: le_u32(shdr, o + 20),
        end: le_u32(shdr, o + 24),
        start_loop: le_u32(shdr, o + 28),
        end_loop: le_u32(shdr, o + 32),
        sample_rate: le_u32(shdr, o + 36),
        original_pitch: shdr[o + 40],
        pitch_correction: as_i8(shdr[o + 41]),
        sample_link: le_u16(shdr, o + 42),
        sample_type: sample_type_of(le_u16(shdr, o + 44)),
    }
}

/// The one sample that stands for all the sample data of a font without
/// sample headers.
pub open spec fn whole_data_sample(points: nat) -> SampleView {
    SampleView {
        name: "Default"@,
        start: 0,
        end: points as u32,
        start_loop: 0,
        end_loop: points as u32,
        sample_rate: 44100,
        original_pitch: 60,
        pitch_correction: 0,
        sample_link: 0,
        sample_type: SampleType::Mono,
    }
}

/// The samples of a font: one per whole sample-header record, the closing
/// record dropped when there are two or more; without headers, one sample
/// over all the data (none when there is no data).
pub open spec fn shdr_samples(shdr: Seq<u8>, points: nat) -> Seq<SampleView> {
    if shdr.len() == 0 {
        if points > 0 {
            seq![whole_data_sample(points)]
        } else {
            Seq::empty()
        }
    } else {
        let all = Seq::new(shdr.len() / 46, |i: int| sample_record(shdr, i));
        if all.len() > 1 {
            all.drop_last()
        } else {
            all
        }
    }
}

/// What the generators of one zone set: the target (sample or instrument
/// index), the key range and the velocity range. Generators `lo..hi` of
/// `gens` (4 bytes each) are applied in order: `target_type` sets the target
/// when its value is an index below `count`; 44 and 45 set the key and
/// velocity ranges from the value's two bytes (low, high).
pub open spec fn gen_fold(gens: Seq<u8>, lo: int, hi: int, target_type: u16, count: int) -> (Option<usize>, (u8, u8), (u8, u8))
    decreases hi - lo,
{
    if hi <= lo {
        (None, (0u8, 127u8), (0u8, 127u8))
    } else {
        let acc = gen_fold(gens, lo, hi - 1, target_type, count);
        let o = (hi - 1) * 4;
        let t = le_u16(gens, o);
        let v = le_i16(gens, o + 2);
        if t == target_type {
            if 0 <= v < count {
                (Some(v as usize), acc.1, acc.2)
            } else {
                acc
            }
        } else if t == 44 {
            (acc.0, (gens[o + 2], gens[o + 3]), acc.2)
        } else if t == 45 {
            (acc.0, acc.1, (gens[o + 2], gens[o + 3]))
        } else {
            acc
        }
    }
}

/// The generators of bag `b`: from its own first generator index to the next
/// bag's (to the end of the generators for the last bag), cut at the last
/// whole generator record.
pub open spec fn bag_gens(bags: Seq<u8>, gens: Seq<u8>, b: int) -> (int, int) {
    let start = le_u16(bags, b * 4) as int;
    let end = if b + 1 < bags.len() / 4 {
        le_u16(bags, (b + 1) * 4) as int
    } else {
        (gens.len() / 4) as int
    };
    let n = (gens.len() / 4) as int;
    (start, if end < n { end } else { n })
}

/// What bag `b` sets (see `gen_fold`).
pub open spec fn bag_zone(bags: Seq<u8>, gens: Seq<u8>, b: int, target_type: u16, count: int) -> (Option<usize>, (u8, u8), (u8, u8)) {
    let r = bag_gens(bags, gens, b);
    gen_fold(gens, r.0, r.1, target_type, count)
}

/// How many of the bags `start..end` are present in `bags`.
pub open spec fn bag_span(bags: Seq<u8>, start: int, end: int) -> int {
    let n = (bags.len() / 4) as int;
    let hi = if end < n { end } else { n };
    if hi > start {
        hi - start
    } else {
        0
    }
}

pub open spec fn inst_zone_view(z: (Option<usize>, (u8, u8), (u8, u8))) -> InstrumentZoneView {
    InstrumentZoneView { sample_index: z.0, key_range: z.1, velocity_range: z.2, generators: Seq::empty() }
}

pub open spec fn preset_zone_view(z: (Option<usize>, (u8, u8), (u8, u8))) -> PresetZoneView {
    PresetZoneView { instrument_index: z.0, key_range: z.1, velocity_range: z.2, generators: Seq::empty() }
}

/// The bags of instrument `i`, as the parser reads them: from the first
/// generator index of bag `i - 1` (0 for the first instrument, and when bag
/// `i` is missing) to that of bag `i` (to the number of bags when bag `i + 1`
/// is missing).
pub open spec fn inst_bags(ibag: Seq<u8>, i: int) -> (int, int) {
    let start = if i == 0 {
        0
    } else if i * 4 < ibag.len() {
        le_u16(ibag, (i - 1) * 4) as int
    } else {
        0
    };
    let end = if (i + 1) * 4 < ibag.len() {
        le_u16(ibag, i * 4) as int
    } else {
        (ibag.len() / 4) as int
    };
    (start, end)
}

/// Instrument `i`: its name (record `i` of `inst`, 22 bytes a record) and one
/// zone per bag present in its bag range.
pub open spec fn instrument_record(ihdr: Seq<u8>, ibag: Seq<u8>, igen: Seq<u8>, i: int, sample_count: int) -> InstrumentView {
    let b = inst_bags(ibag, i);
    InstrumentView {
        name: field_name(ihdr.subrange(i * 22, i * 22 + 20)),
        zones: Seq::new(
            bag_span(ibag, b.0, b.1) as nat,
            |k: int| inst_zone_view(bag_zone(ibag, igen, b.0 + k, 53, sample_count)),
        ),
    }
}

/// The instruments: one per instrument record but the closing one.
pub open spec fn instruments_of(ihdr: Seq<u8>, ibag: Seq<u8>, igen: Seq<u8>, sample_count: int) -> Seq<InstrumentView> {
    let n = ihdr.len() / 22;
    Seq::new(
        if n > 0 { (n - 1) as nat } else { 0 },
        |i: int| instrument_record(ihdr, ibag, igen, i, sample_count),
    )
}

/// Whether preset record `i` (38 bytes a record) is the closing record
/// (preset and bank both 0xFFFF).
pub open spec fn is_closing_preset(phdr: Seq<u8>, i: int) -> bool {
    le_u16(phdr, i * 38 + 20) == 0xFFFF && le_u16(phdr, i * 38 + 22) == 0xFFFF
}

/// The first closing preset record at or after `i` (`count` when none).
pub open spec fn preset_end(phdr: Seq<u8>, i: int, count: int) -> int
    decreases count - i,
{
    if i >= count {
        count
    } else if is_closing_preset(phdr, i) {
        i
    } else {
        preset_end(phdr, i + 1, count)
    }
}

/// Preset `i`: name, number, bank, and one zone per bag present from its
/// bag index to the next record's (to the number of bags for the last
/// record).
pub open spec fn preset_record(phdr: Seq<u8>, pbag: Seq<u8>, pgen: Seq<u8>, i: int, instrument_count: int) -> PresetView {
    let o = i * 38;
    let count = (phdr.len() / 38) as int;
    let start = le_u16(phdr, o + 24) as int;
    let end = if i + 1 < count {
        le_u16(phdr, o + 38 + 24) as int
    } else {
        (pbag.len() / 4) as int
    };
    PresetView {
        name: field_name(phdr.subrange(o, o + 20)),
        bank: le_u16(phdr, o + 22),
        preset_num: le_u16(phdr, o + 20),
        zones: Seq::new(
            bag_span(pbag, start, end) as nat,
            |k: int| preset_zone_view(bag_zone(pbag, pgen, start + k, 41, instrument_count)),
        ),
    }
}

/// The presets: the records before the first closing record.
pub open spec fn presets_of(phdr: Seq<u8>, pbag: Seq<u8>, pgen: Seq<u8>, instrument_count: int) -> Seq<PresetView> {
    Seq::new(
        preset_end(phdr, 0, (phdr.len() / 38) as int) as nat,
        |i: int| preset_record(phdr, pbag, pgen, i, instrument_count),
    )
}

/// Record `i` of a table of `n`-byte records lies inside it.
proof fn lemma_record_inside(i: int, n: int, len: int)
    requires
        0 <= i < len / n,
        0 < n,
        0 <= len,
    ensures
        0 <= i * n,
        i * n + n <= len,
{
    assert(i * n + n <= len) by (nonlinear_arith)
        requires
            0 <= i < len / n,
            0 < n,
            0 <= len,
    {
        assert(i + 1 <= len / n);
        assert((i + 1) * n <= (len / n) * n);
    }
    assert(0 <= i * n) by (nonlinear_arith)
        requires
            0 <= i,
            0 < n,
    ;
}

proof fn lemma_preset_end_bounds(phdr: Seq<u8>, i: int, count: int)
    requires
        i <= count,
    ensures
        i <= preset_end(phdr, i, count) <= count,
        forall|j: int| i <= j < preset_end(phdr, i, count) ==> !is_closing_preset(phdr, j),
        preset_end(phdr, i, count) < count ==> is_closing_preset(phdr, preset_end(phdr, i, count)),
    decreases count - i,
{
    if i < count && !is_closing_preset(phdr, i) {
        lemma_preset_end_bounds(phdr, i + 1, count);
    }
}

/// Applies the generators `lo..hi` of one zone.
fn fold_gens(gens: &[u8], lo: usize, hi: usize, target_type: u16, count: usize) -> (r: (Option<usize>, (u8, u8), (u8, u8)))
    requires
        hi <= gens@.len() / 4,
    ensures
        r == gen_fold(gens@, lo as int, hi as int, target_type, count as int),
{
    let mut acc: (Option<usize>, (u8, u8), (u8, u8)) = (None, (0, 127), (0, 127));
    if hi <= lo {
        return acc;
    }
    let len = gens.len();
    let mut g = lo;
    while g < hi
        invariant
            len == gens@.len(),
            lo <= g <= hi,
            hi <= gens@.len() / 4,
            acc == gen_fold(gens@, lo as int, g as int, target_type, count as int),
        decreases hi - g,
    {
        proof {
            lemma_record_inside(g as int, 4, len as int);
        }
        let o = g * 4;
        let t = read_le_u16(gens, o);
        let v = read_le_i16(gens, o + 2);
        if t == target_type {
            if v >= 0 && (v as usize) < count {
                acc = (Some(v as usize), acc.1, acc.2);
            }
        } else if t == 44 {
            acc = (acc.0, (gens[o + 2], gens[o + 3]), acc.2);
        } else if t == 45 {
            acc = (acc.0, acc.1, (gens[o + 2], gens[o + 3]));
        }
        g = g + 1;
    }
    acc
}

/// What bag `b` sets (see `bag_zone`).
fn read_bag_zone(bags: &[u8], gens: &[u8], b: usize, target_type: u16, count: usize) -> (r: (Option<usize>, (u8, u8), (u8, u8)))
    requires
        b < bags@.len() / 4,
    ensures
        r == bag_zone(bags@, gens@, b as int, target_type, count as int),
{
    let bag_count = bags.len() / 4;
    let start = read_le_u16(bags, b * 4) as usize;
    let end = if b + 1 < bag_count {
        read_le_u16(bags, (b + 1) * 4) as usize
    } else {
        gens.len() / 4
    };
    let hi = if end < gens.len() / 4 {
        end
    } else {
        gens.len() / 4
    };
    fold_gens(gens, start, hi, target_type, count)
}

/// The zones of the bags `start..end` present in `bags`.
fn read_zones(bags: &[u8], gens: &[u8], start: usize, end: usize, target_type: u16, count: usize) -> (r: Vec<(Option<usize>, (u8, u8), (u8, u8))>)
    ensures
        r@ == Seq::new(
            bag_span(bags@, start as int, end as int) as nat,
            |k: int| bag_zone(bags@, gens@, start + k, target_type, count as int),
        ),
{
    let bag_count = bags.len() / 4;
    let hi = if end < bag_count {
        end
    } else {
        bag_count
    };
    let mut out: Vec<(Option<usize>, (u8, u8), (u8, u8))> = Vec::new();
    let mut b = start;
    while b < hi
        invariant
            start <= b,
            b <= hi || b == start,
            hi <= bags@.len() / 4,
            out@.len() == b - start,
            forall|k: int| 0 <= k < out@.len() ==> out@[k] == bag_zone(bags@, gens@, start + k, target_type, count as int),
        decreases hi - b,
    {
        let z = read_bag_zone(bags, gens, b, target_type, count);
        out.push(z);
        b = b + 1;
    }
    assert(out@ =~= Seq::new(
        bag_span(bags@, start as int, end as int) as nat,
        |k: int| bag_zone(bags@, gens@, start + k, target_type, count as int),
    ));
    out
}

impl Sf2Parser {
    /// The samples described by the `shdr` data over `smpl_data` (see
    /// `shdr_samples`).
    pub fn parse_shdr_and_samples(shdr_data: &[u8], smpl_data: &Vec<i16>) -> (r: Result<Vec<Sample>, ParseError>)
        ensures
            r matches Ok(v) && v@.map_values(|s: Sample| s@) == shdr_samples(shdr_data@, smpl_data@.len()),
    {
        if shdr_data.len() == 0 {
            if smpl_data.len() > 0 {
                let points = smpl_data.len() as u32;
                let mut v: Vec<Sample> = Vec::new();
                v.push(Sample {
                    name: "Default".to_owned(),
                    start: 0,
                    end: points,
                    start_loop: 0,
                    end_loop: points,
                    sample_rate: 44100,
                    original_pitch: 60,
                    pitch_correction: 0,
                    sample_link: 0,
                    sample_type: SampleType::Mono,
                });
                assert(v@.map_values(|s: Sample| s@) =~= shdr_samples(shdr_data@, smpl_data@.len()));
                return Ok(v);
            }
            let v: Vec<Sample> = Vec::new();
            assert(v@.map_values(|s: Sample| s@) =~= shdr_samples(shdr_data@, smpl_data@.len()));
            return Ok(v);
        }
        let len = shdr_data.len();
        let count = len / 46;
        let mut samples: Vec<Sample> = Vec::new();
        let mut i: usize = 0;
        while i < count
            invariant
                len == shdr_data@.len(),
                0 <= i <= count,
                count == shdr_data@.len() / 46,
                samples@.len() == i,
                forall|k: int| 0 <= k < i ==> (#[trigger] samples@[k])@ == sample_record(shdr_data@, k),
            decreases count - i,
        {
            proof {
                lemma_record_inside(i as int, 46, len as int);
            }
            let o = i * 46;
            let name = extract_string(&shdr_data[o..o + 20]);
            assert(shdr_data@.subrange(o as int, o + 20) == shdr_data@.subrange(o as int, o + 20));
            let t = read_le_u16(shdr_data, o + 44);
            let s = Sample {
                name,
                start: read_le_u32(shdr_data, o + 20),
                end: read_le_u32(shdr_data, o + 24),
                start_loop: read_le_u32(shdr_data, o + 28),
                end_loop: read_le_u32(shdr_data, o + 32),
                sample_rate: read_le_u32(shdr_data, o + 36),
                original_pitch: shdr_data[o + 40],
                pitch_correction: byte_as_i8(shdr_data[o + 41]),
                sample_link: read_le_u16(shdr_data, o + 42),
                sample_type: sample_type_from(t),
            };
            samples.push(s);
            i = i + 1;
        }
        if samples.len() > 1 {
            samples.pop();
        }
        assert(samples@.map_values(|s: Sample| s@) =~= shdr_samples(shdr_data@, smpl_data@.len()));
        Ok(samples)
    }
}

proof fn lemma_preset_end_at(phdr: Seq<u8>, k: int, i: int, count: int)
    requires
        0 <= k <= i <= count,
        forall|j: int| k <= j < i ==> !is_closing_preset(phdr, j),
        i == count || is_closing_preset(phdr, i),
    ensures
        preset_end(phdr, k, count) == i,
    decreases i - k,
{
    if k < i {
        lemma_preset_end_at(phdr, k + 1, i, count);
    }
}

fn instrument_zones(zs: Vec<(Option<usize>, (u8, u8), (u8, u8))>) -> (r: Vec<InstrumentZone>)
    ensures
        r@.map_values(|z: InstrumentZone| z@) == zs@.map_values(|z: (Option<usize>, (u8, u8), (u8, u8))| inst_zone_view(z)),
{
    let mut out: Vec<InstrumentZone> = Vec::new();
    let mut k: usize = 0;
    while k < zs.len()
        invariant
            0 <= k <= zs@.len(),
            out@.len() == k,
            forall|j: int| 0 <= j < k ==> (#[trigger] out@[j])@ == inst_zone_view(zs@[j]),
        decreases zs@.len() - k,
    {
        let z = zs[k];
        out.push(InstrumentZone { sample_index: z.0, key_range: z.1, velocity_range: z.2, generators: Vec::new() });
        k = k + 1;
    }
    assert(out@.map_values(|z: InstrumentZone| z@) =~= zs@.map_values(
        |z: (Option<usize>, (u8, u8), (u8, u8))| inst_zone_view(z),
    ));
    out
}

fn preset_zones(zs: Vec<(Option<usize>, (u8, u8), (u8, u8))>) -> (r: Vec<PresetZone>)
    ensures
        r@.map_values(|z: PresetZone| z@) == zs@.map_values(|z: (Option<usize>, (u8, u8), (u8, u8))| preset_zone_view(z)),
{
    let mut out: Vec<PresetZone> = Vec::new();
    let mut k: usize = 0;
    while k < zs.len()
        invariant
            0 <= k <= zs@.len(),
            out@.len() == k,
            forall|j: int| 0 <= j < k ==> (#[trigger] out@[j])@ == preset_zone_view(zs@[j]),
        decreases zs@.len() - k,
    {
        let z = zs[k];
        out.push(PresetZone { instrument_index: z.0, key_range: z.1, velocity_range: z.2, generators: Vec::new() });
        k = k + 1;
    }
    assert(out@.map_values(|z: PresetZone| z@) =~= zs@.map_values(
        |z: (Option<usize>, (u8, u8), (u8, u8))| preset_zone_view(z),
    ));
    out
}

impl Sf2Parser {
    /// The instruments of the `inst`, `ibag` and `igen` data (see
    /// `instruments_of`); sample indices at or above `sample_count` are
    /// ignored.
    pub fn parse_instruments(ihdr_data: &[u8], ibag_data: &[u8], igen_data: &[u8], sample_count: usize) -> (r: Result<
        Vec<Instrument>,
        ParseError,
    >)
        ensures
            r matches Ok(v) && v@.map_values(|x: Instrument| x@) == instruments_of(
                ihdr_data@,
                ibag_data@,
                igen_data@,
                sample_count as int,
            ),
    {
        let len = ihdr_data.len();
        let count = len / 22;
        let n = if count > 0 {
            count - 1
        } else {
            0
        };
        let blen = ibag_data.len();
        let bag_count = blen / 4;
        let ghost target = instruments_of(ihdr_data@, ibag_data@, igen_data@, sample_count as int);
        let mut instruments: Vec<Instrument> = Vec::new();
        let mut i: usize = 0;
        while i < n
            invariant
                len == ihdr_data@.len(),
                blen == ibag_data@.len(),
                bag_count == blen / 4,
                count == len / 22,
                n == target.len(),
                target == instruments_of(ihdr_data@, ibag_data@, igen_data@, sample_count as int),
                0 <= i <= n,
                instruments@.len() == i,
                forall|k: int| 0 <= k < i ==> (#[trigger] instruments@[k])@ == target[k],
            decreases n - i,
        {
            proof {
                lemma_record_inside(i as int, 22, len as int);
            }
            let o = i * 22;
            let name = extract_string(&ihdr_data[o..o + 20]);
            let start_bag: usize = if i == 0 {
                0
            } else if i * 4 < blen {
                read_le_u16(ibag_data, (i - 1) * 4) as usize
            } else {
                0
            };
            let end_bag: usize = if (i + 1) * 4 < blen {
                read_le_u16(ibag_data, i * 4) as usize
            } else {
                bag_count
            };
            let zs = read_zones(ibag_data, igen_data, start_bag, end_bag, 53, sample_count);
            let zones = instrument_zones(zs);
            let inst = Instrument { name, zones };
            assert(inst@.zones =~= target[i as int].zones);
            instruments.push(inst);
            i = i + 1;
        }
        assert(instruments@.map_values(|x: Instrument| x@) =~= target);
        Ok(instruments)
    }

    /// The presets of the `phdr`, `pbag` and `pgen` data (see `presets_of`);
    /// instrument indices at or above `instrument_count` are ignored.
    pub fn parse_presets(phdr_data: &[u8], pbag_data: &[u8], pgen_data: &[u8], instrument_count: usize) -> (r: Result<
        Vec<Preset>,
        ParseError,
    >)
        ensures
            r matches Ok(v) && v@.map_values(|x: Preset| x@) == presets_of(
                phdr_data@,
                pbag_data@,
                pgen_data@,
                instrument_count as int,
            ),
    {
        let len = phdr_data.len();
        let count = len / 38;
        let bag_count = pbag_data.len() / 4;
        let ghost phdr = phdr_data@;
        let mut presets: Vec<Preset> = Vec::new();
        let mut i: usize = 0;
        let mut stop = false;
        while i < count && !stop
            invariant
                len == phdr_data@.len(),
                phdr == phdr_data@,
                count == len / 38,
                bag_count == pbag_data@.len() / 4,
                0 <= i <= count,
                stop ==> i < count && is_closing_preset(phdr, i as int),
                forall|j: int| 0 <= j < i ==> !is_closing_preset(phdr, j),
                presets@.len() == i,
                forall|k: int| 0 <= k < i ==> (#[trigger] presets@[k])@ == preset_record(
                    phdr,
                    pbag_data@,
                    pgen_data@,
                    k,
                    instrument_count as int,
                ),
            decreases count - i, (if stop { 0int } else { 1int }),
        {
            proof {
                lemma_record_inside(i as int, 38, len as int);
            }
            let o = i * 38;
            let name = extract_string(&phdr_data[o..o + 20]);
            let preset_num = read_le_u16(phdr_data, o + 20);
            let bank = read_le_u16(phdr_data, o + 22);
            let bag_index = read_le_u16(phdr_data, o + 24);
            if preset_num == 0xFFFF && bank == 0xFFFF {
                stop = true;
            } else {
                let start_bag = bag_index as usize;
                let end_bag: usize = if i + 1 < count {
                    proof {
                        lemma_record_inside(i + 1, 38, len as int);
                    }
                    read_le_u16(phdr_data, o + 38 + 24) as usize
                } else {
                    bag_count
                };
                let zs = read_zones(pbag_data, pgen_data, start_bag, end_bag, 41, instrument_count);
                let zones = preset_zones(zs);
                let p = Preset { name, bank, preset_num, zones };
                assert(p@.zones =~= preset_record(phdr, pbag_data@, pgen_data@, i as int, instrument_count as int).zones);
                presets.push(p);
                i = i + 1;
            }
        }
        proof {
            lemma_preset_end_at(phdr, 0, i as int, count as int);
        }
        assert(presets@.map_values(|x: Preset| x@) =~= presets_of(
            phdr_data@,
            pbag_data@,
            pgen_data@,
            instrument_count as int,
        ));
        Ok(presets)
    }

    /// The presets and the instruments; preset zones may point at the
    /// instruments read, instrument zones at the `sample_count` samples.
    pub fn process_preset_data(
        phdr_data: &[u8],
        pbag_data: &[u8],
        pgen_data: &[u8],
        ihdr_data: &[u8],
        ibag_data: &[u8],
        igen_data: &[u8],
        sample_count: usize,
    ) -> (r: Result<(Vec<Preset>, Vec<Instrument>), ParseError>)
        ensures
            r matches Ok((p, i)) && {
                let insts = instruments_of(ihdr_data@, ibag_data@, igen_data@, sample_count as int);
                &&& i@.map_values(|x: Instrument| x@) == insts
                &&& p@.map_values(|x: Preset| x@) == presets_of(phdr_data@, pbag_data@, pgen_data@, insts.len() as int)
            },
    {
        let instruments = match Sf2Parser::parse_instruments(ihdr_data, ibag_data, igen_data, sample_count) {
            Ok(v) => v,
            Err(e) => return Err(e),
        };
        assert(instruments@.len() == instruments@.map_values(|x: Instrument| x@).len());
        let presets = match Sf2Parser::parse_presets(phdr_data, pbag_data, pgen_data, instruments.len()) {
            Ok(v) => v,
            Err(e) => return Err(e),
        };
        Ok((presets, instruments))
    }
}

} // verus!
