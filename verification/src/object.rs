//! The document model: what a parser has read out of a PDF file, and what the
//! lifter writes back.
//!
//! The model is plain data. Nothing in it is validated: a name may hold a
//! delimiter, an offset may be negative, a reference may point nowhere. Text
//! is held ready to be written, so whoever builds a value has already
//! escaped what needs escaping.

use vstd::prelude::*;

verus! {

/// The version that the file's first line announces.
#[derive(Debug, Clone, Copy, PartialEq, Eq)]
pub struct Header {
    pub major: i64,
    pub minor: i64,
}

/// A name, without the slash that is written before it.
#[derive(Debug, PartialEq, Eq)]
pub struct NameObject(pub String);

/// A dictionary: names and their values, in the order in which they were
/// inserted.
#[derive(Debug, PartialEq, Eq)]
pub struct Dictionary {
    pub entries: Vec<(NameObject, Object)>,
}

/// One object of a document.
#[derive(Debug, PartialEq, Eq)]
pub enum Object {
    Boolean(bool),
    Integer(i64),
    /// A real number, held as its decimal text.
    Real(String),
    /// The text between the round brackets, already escaped.
    LiteralString(String),
    /// The hexadecimal digits between the angle brackets.
    HexadecimalString(String),
    Name(NameObject),
    Array(Vec<Object>),
    Dictionary(Dictionary),
    /// The payload of a stream, byte for byte.
    Stream(Vec<u8>),
    Null,
    /// The text of a comment, without the percent sign before it.
    Comment(String),
    IndirectReference { id: i64, generation: i64 },
    IndirectObject { id: i64, generation: i64, dictionary: Dictionary, stream: Option<Vec<u8>> },
}

/// One line of a cross-reference table.
#[derive(Debug, Clone, Copy, PartialEq, Eq)]
pub struct CrossReferenceEntry {
    /// The byte offset of the object in the file.
    pub offset: i64,
    pub generation: i64,
    /// Whether the slot is free rather than in use.
    pub free: bool,
}

/// A cross-reference table: the entries of consecutive object numbers, of
/// which `id` is the first.
#[derive(Debug, PartialEq, Eq)]
pub struct CrossReferenceTable {
    pub id: i64,
    pub entries: Vec<CrossReferenceEntry>,
}

/// The trailer: its dictionary, and the byte offset at which the
/// cross-reference section starts. The offset is written as it is given and
/// never compared with where that section ends up.
#[derive(Debug, PartialEq, Eq)]
pub struct Trailer {
    pub dictionary: Dictionary,
    pub startxref: i64,
}

/// A document: header, body, cross-reference tables and trailer. The order
/// of the body and of the tables is the order in which they are written.
#[derive(Debug, PartialEq, Eq)]
pub struct PDF {
    pub header: Header,
    pub body: Vec<Object>,
    pub cross_reference_tables: Vec<CrossReferenceTable>,
    pub trailer: Trailer,
}

} // verus!
