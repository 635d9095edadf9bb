//! The logic of a small collection of text utilities, each in a module of
//! its own: what a utility computes from the text it is given, stated over
//! sequences of bytes and characters and proved.
//!
//! - `tailr` selects the end of a source, by lines or by bytes, from a
//!   signed take value.
//! - `headr` selects the start of a source.
//! - `cutr` cuts characters, bytes or fields out of lines.
//! - `wcr` counts lines, words, bytes and characters.
//! - `grepr` finds the lines that a regular expression matches.
//! - `findr` chooses among the entries of a directory tree.
//! - `uniqr` folds runs of equal lines.
//! - `commr` compares two texts line by line.
//!
//! `lines`, `digits`, `text` and `pattern` hold what the utilities share.
//! Reading and writing files is left to the program around the library.

pub mod commr;
pub mod cutr;
pub mod digits;
pub mod findr;
pub mod grepr;
pub mod headr;
pub mod lines;
pub mod pattern;
pub mod tailr;
pub mod text;
pub mod uniqr;
pub mod wcr;
