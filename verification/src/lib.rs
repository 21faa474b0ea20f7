//! A verified decoder for a dictionary markup dialect, together with a
//! pitch-accent renderer: markup pages are parsed into a typed entry tree,
//! entry text is projected back to annotated accent strings, and accent
//! strings are tokenized into morae, classified, and drawn as vector
//! diagrams.
pub mod accent;
pub mod ast;
pub mod audio;
pub mod body;
pub mod chars;
pub mod circle;
pub mod entry;
pub mod error;
pub mod gen_svg;
pub mod head;
pub mod josushi;
pub mod laws;
pub mod lookup;
pub mod mora;
pub mod project;
pub mod rules;
pub mod strutil;
pub mod unpack;
pub mod xml;
