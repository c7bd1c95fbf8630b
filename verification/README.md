# mimi_engine

A MIDI engine for karaoke-style playback: a sequencer that merges the tracks
of a Standard MIDI File into one timeline, detects GM/GS/XG and the chord
progression of the bass ($BS) track, a rhythm engine that rebuilds the
accompaniment in another style, the decision logic of the playback engine
over two synthesizer ports, and SoundFont 2 readers.

## Layout

- `src/` — the library, verified with Verus:
  - `sequencer.rs`, `smf_file.rs` — the timeline of a song (files read with `midly`);
  - `rhythm_engine.rs`, `rythm_engine.rs` — accompaniment generation;
  - `engine.rs` — what each command and timeline event does to the engine
    state and which synthesizer actions it asks for;
  - `sf2/`, `sf2_oxi/`, `sfinfo.rs` — SoundFont 2 parsing;
  - `hibiki.rs` — channel state and voice choice of the Hibiki synthesizer;
  - `player.rs` — the decisions of the terminal player;
  - `sort.rs`, `bytes.rs`, `text.rs` — shared helpers.
- `tests/` — tests of the library.
- `app/` — the program around it: the terminal player, the audio thread over
  fluidlite and cpal, the C ABI and the Godot node, the floating-point voice and effect
  processing of the Hibiki synthesizer, and file reading.
