//! Fuzzy application of unified-diff hunks to text held in memory.
//!
//! A hunk records where it once stood in a file. The file may have drifted
//! since, so each hunk is looked for within a few lines of its recorded
//! place, and the first place that fits is rewritten. Hunks are applied in
//! the order given, each to the text that the hunks before it left behind.
//!
//! - [`hunk`]: hunks, their lines, and the models that contracts speak of.
//! - [`text`]: splitting a text into lines and joining lines into a text.
//! - [`search`]: finding the place of a hunk in the lines.
//! - [`splice`]: rewriting the lines at the place that was found.
//! - [`apply`]: applying all hunks of a file to a text.
//! - [`error`]: what is returned when a hunk fits nowhere or a diff cannot
//!   be read.
//! - [`parser`], [`guard`], [`patch_set`]: reading hunks from the text of a
//!   diff with the `unidiff` crate.
//! - [`laws`]: what holds of every application, with proofs.

pub mod apply;
pub mod error;
pub mod guard;
pub mod hunk;
pub mod laws;
pub mod parser;
pub mod patch_set;
pub mod search;
pub mod splice;
pub mod text;
