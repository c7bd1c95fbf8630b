//! SoundFont 2 files: data types and the parser.
pub mod types;
pub mod parser;
pub mod records;
