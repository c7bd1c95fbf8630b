//! SoundFont 2 reader: RIFF chunks, the INFO, sample-data and hydra lists,
//! and presets and instruments assembled from them.
pub mod error;
pub mod riff;
pub mod utils;
pub mod generator;
pub mod modulator;
pub mod records;
pub mod info;
pub mod sample_data;
pub mod hydra;
pub mod raw;

use vstd::prelude::*;

verus! {

/// A value read from the file: a known enumerator or the raw number.
#[derive(Debug, Copy, Clone)]
pub enum SfEnum<T, RAW> {
    Value(T),
    Unknown(RAW),
}

} // verus!
pub mod soundfont;
pub mod adapter;
