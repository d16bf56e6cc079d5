//! A model of Western musical pitch, intervals, and rational durations,
//! together with a renderer that turns notes, chords, rests, and nested
//! score containers into LilyPond source text.

pub mod chord;
pub mod container;
pub mod duration;
pub mod error;
pub mod gcd;
pub mod interval;
pub mod leaf;
pub mod lilypond;
pub mod lilypond_file;
pub mod multiplier;
pub mod note;
pub mod notehead;
pub mod pitch;
pub mod rest;
pub mod score;
pub mod score_object;
pub mod spacer;
pub mod text;
pub mod transpose;
pub mod tuplet;
