//! Pico-8 style sound effects: packed notes, the text and binary cart
//! encodings, the note sequencer and the offline recorder.
pub mod note;
pub mod sfx;
pub mod record;
