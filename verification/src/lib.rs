//! MIMI engine library: MIDI sequencing, rhythm transformation, SoundFont
//! parsing and the decision logic of the playback engine.
use vstd::prelude::*;

pub mod sort;
pub mod bytes;
pub mod sf2_oxi;
pub mod text;
pub mod rhythm_engine;
pub mod sequencer;
pub mod smf_file;
pub mod rythm_engine;
pub mod engine;
pub mod sf2;
pub mod hibiki;
pub mod engine_info;
pub mod sfinfo;
pub mod player;

verus! {
} // verus!
