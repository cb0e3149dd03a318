//! Writes a parsed PDF document back out as the bytes of a PDF file.
//!
//! [`object`] holds the document model, [`lifter`] the rule by which each
//! part of it is written, [`text`] the numbers and strings that the rules
//! are made of, and [`laws`] what has been proved of the rules together.

pub mod laws;
pub mod lifter;
pub mod object;
pub mod text;
