//! Chord charts: parsing, canonical rendering and transposition.
//!
//! The model is layered: a `Note` is the leaf, a `Chord` holds notes, a `Bar`
//! holds chords, a `BarLine` holds bars and a `Chart` holds bar lines.

pub mod bar;
pub mod bar_line;
pub mod canonical;
pub mod chart;
pub mod chord;
pub mod error;
pub mod note;
pub mod text;
pub mod text_laws;
pub mod transpose;

pub use bar::Bar;
pub use bar_line::BarLine;
pub use chart::{transpose_chart, validate_chart, Chart};
pub use chord::Chord;
pub use error::Error;
pub use note::{Accidental, Natural, Note};
pub use transpose::{Scale, Transpose};
