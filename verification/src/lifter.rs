//! Lifting: from the document model to the bytes of a PDF file.
//!
//! Every type of the model has one rule that says which bytes it is written
//! as. The rule is the spec function `lifted`; `lift` computes it. A rule
//! reads nothing but the value it is applied to, so the bytes of a composite
//! are the bytes of its parts, in their order, between fixed markers.

use vstd::prelude::*;
use crate::object::{
    CrossReferenceEntry,
    CrossReferenceTable,
    Dictionary,
    NameObject,
    Object,
    Trailer,
    PDF,
};
use crate::text::{
    decimal,
    push_bytes,
    push_decimal,
    push_digits,
    push_str,
    push_zero_padded,
    utf8,
    zero_padded,
};

verus! {

/// A value that can be written as PDF bytes.
pub trait Liftable {
    /// The bytes that the value is written as.
    spec fn lifted(&self) -> Seq<u8>;

    /// Writes the value. This cannot fail, and the result depends on the
    /// value alone.
    fn lift(&self) -> (bytes: Vec<u8>)
        ensures
            bytes@ == self.lifted(),
    ;
}

/// The bytes of a sequence of values: those of each value, one after the
/// other, with nothing between them and nothing left out.
pub open spec fn lifted_all<T: Liftable>(items: Seq<T>) -> Seq<u8>
    decreases items.len(),
{
    if items.len() == 0 {
        Seq::empty()
    } else {
        lifted_all(items.drop_last()) + items.last().lifted()
    }
}

/// The elements of an array: each is followed by one space, the last one
/// too.
pub open spec fn lifted_items(items: Seq<Object>) -> Seq<u8>
    decreases items,
{
    if items.len() == 0 {
        Seq::empty()
    } else {
        lifted_items(items.drop_last()) + items.last().lifted() + utf8(" "@)
    }
}

/// The entries of a dictionary: each is a line of its own, made of the name,
/// one space and the value.
pub open spec fn lifted_entries(entries: Seq<(NameObject, Object)>) -> Seq<u8>
    decreases entries,
{
    if entries.len() == 0 {
        Seq::empty()
    } else {
        lifted_entries(entries.drop_last()) + entries.last().0.lifted() + utf8(" "@)
            + entries.last().1.lifted() + utf8("\n"@)
    }
}

/// A stream: its payload, unchanged, between the two keywords.
pub open spec fn lifted_stream(payload: Seq<u8>) -> Seq<u8> {
    utf8("stream\n"@) + payload + utf8("\n"@) + utf8("endstream\n"@)
}

/// The stream that an indirect object carries, if it carries one.
pub open spec fn lifted_attached(stream: Option<Vec<u8>>) -> Seq<u8> {
    match stream {
        Some(payload) => lifted_stream(payload@),
        None => Seq::empty(),
    }
}

/// Writes every value of `items`, in order.
pub fn lift_all<T: Liftable>(items: &Vec<T>) -> (bytes: Vec<u8>)
    ensures
        bytes@ == lifted_all(items@),
{
    let mut bytes: Vec<u8> = Vec::new();
    let mut i: usize = 0;
    while i < items.len()
        invariant
            i <= items.len(),
            bytes@ == lifted_all(items@.take(i as int)),
        decreases items.len() - i,
    {
        let item = items[i].lift();
        push_bytes(&mut bytes, item.as_slice());
        proof {
            assert(items@.take(i + 1).drop_last() == items@.take(i as int));
        }
        i += 1;
    }
    proof {
        assert(items@.take(i as int) == items@);
    }
    bytes
}

/// Appends a stream with the given payload to `out`.
fn push_stream(out: &mut Vec<u8>, payload: &Vec<u8>)
    ensures
        final(out)@ == old(out)@ + lifted_stream(payload@),
{
    push_str(out, "stream\n");
    push_bytes(out, payload.as_slice());
    push_str(out, "\n");
    push_str(out, "endstream\n");
}

impl Liftable for NameObject {
    /// A slash, then the name as it is: no delimiter in it is escaped.
    open spec fn lifted(&self) -> Seq<u8> {
        utf8("/"@) + utf8(self.0@)
    }

    fn lift(&self) -> (bytes: Vec<u8>) {
        let mut bytes: Vec<u8> = Vec::new();
        push_str(&mut bytes, "/");
        push_str(&mut bytes, self.0.as_str());
        bytes
    }
}

impl Liftable for Dictionary {
    /// The opening marker and a line break, the entries, and the closing
    /// marker with no line break after it.
    open spec fn lifted(&self) -> Seq<u8>
        decreases self,
    {
        utf8("<<\n"@) + lifted_entries(self.entries@) + utf8(">>"@)
    }

    fn lift(&self) -> (bytes: Vec<u8>)
        decreases self,
    {
        let mut bytes: Vec<u8> = Vec::new();
        push_str(&mut bytes, "<<\n");
        let mut i: usize = 0;
        while i < self.entries.len()
            invariant
                i <= self.entries.len(),
                bytes@ == utf8("<<\n"@) + lifted_entries(self.entries@.take(i as int)),
            decreases self.entries.len() - i,
        {
            let key = self.entries[i].0.lift();
            let value = self.entries[i].1.lift();
            push_bytes(&mut bytes, key.as_slice());
            push_str(&mut bytes, " ");
            push_bytes(&mut bytes, value.as_slice());
            push_str(&mut bytes, "\n");
            proof {
                assert(self.entries@.take(i + 1).drop_last() == self.entries@.take(i as int));
            }
            i += 1;
        }
        proof {
            assert(self.entries@.take(i as int) == self.entries@);
        }
        push_str(&mut bytes, ">>");
        bytes
    }
}

impl Liftable for Object {
    /// One rule for each kind of object.
    open spec fn lifted(&self) -> Seq<u8>
        decreases self,
    {
        match self {
            Object::Boolean(b) => if *b {
                utf8("true"@)
            } else {
                utf8("false"@)
            },
            Object::Integer(i) => decimal(*i as int),
            Object::Real(text) => utf8(text@),
            Object::LiteralString(text) => utf8("("@) + utf8(text@) + utf8(")"@),
            Object::HexadecimalString(text) => utf8("<"@) + utf8(text@) + utf8(">"@),
            Object::Name(name) => name.lifted(),
            Object::Array(items) => utf8("["@) + lifted_items(items@) + utf8("]"@),
            Object::Dictionary(dictionary) => dictionary.lifted(),
            Object::Stream(payload) => lifted_stream(payload@),
            Object::Null => utf8("null"@),
            Object::Comment(text) => utf8("%"@) + utf8(text@),
            Object::IndirectReference { id, generation } => {
                decimal(*id as int) + utf8(" "@) + decimal(*generation as int) + utf8(" R"@)
            },
            Object::IndirectObject { id, generation, dictionary, stream } => {
                decimal(*id as int) + utf8(" "@) + decimal(*generation as int) + utf8(" obj "@)
                    + dictionary.lifted() + utf8("\n"@) + lifted_attached(*stream) + utf8(
                    "endobj\n"@,
                )
            },
        }
    }

    fn lift(&self) -> (bytes: Vec<u8>)
        decreases self,
    {
        let mut bytes: Vec<u8> = Vec::new();
        match self {
            Object::Boolean(b) => {
                push_str(&mut bytes, if *b { "true" } else { "false" });
            },
            Object::Integer(i) => {
                push_decimal(&mut bytes, *i);
            },
            Object::Real(text) => {
                push_str(&mut bytes, text.as_str());
            },
            Object::LiteralString(text) => {
                push_str(&mut bytes, "(");
                push_str(&mut bytes, text.as_str());
                push_str(&mut bytes, ")");
            },
            Object::HexadecimalString(text) => {
                push_str(&mut bytes, "<");
                push_str(&mut bytes, text.as_str());
                push_str(&mut bytes, ">");
            },
            Object::Name(name) => {
                push_bytes(&mut bytes, name.lift().as_slice());
            },
            Object::Array(items) => {
                push_str(&mut bytes, "[");
                let mut i: usize = 0;
                while i < items.len()
                    invariant
                        self is Array,
                        self->Array_0 == *items,
                        i <= items.len(),
                        bytes@ == utf8("["@) + lifted_items(items@.take(i as int)),
                    decreases items.len() - i,
                {
                    let item = items[i].lift();
                    push_bytes(&mut bytes, item.as_slice());
                    push_str(&mut bytes, " ");
                    proof {
                        assert(items@.take(i + 1).drop_last() == items@.take(i as int));
                    }
                    i += 1;
                }
                proof {
                    assert(items@.take(i as int) == items@);
                }
                push_str(&mut bytes, "]");
            },
            Object::Dictionary(dictionary) => {
                push_bytes(&mut bytes, dictionary.lift().as_slice());
            },
            Object::Stream(payload) => {
                push_stream(&mut bytes, payload);
            },
            Object::Null => {
                push_str(&mut bytes, "null");
            },
            Object::Comment(text) => {
                push_str(&mut bytes, "%");
                push_str(&mut bytes, text.as_str());
            },
            Object::IndirectReference { id, generation } => {
                push_decimal(&mut bytes, *id);
                push_str(&mut bytes, " ");
                push_decimal(&mut bytes, *generation);
                push_str(&mut bytes, " R");
            },
            Object::IndirectObject { id, generation, dictionary, stream } => {
                push_decimal(&mut bytes, *id);
                push_str(&mut bytes, " ");
                push_decimal(&mut bytes, *generation);
                push_str(&mut bytes, " obj ");
                push_bytes(&mut bytes, dictionary.lift().as_slice());
                push_str(&mut bytes, "\n");
                if let Some(payload) = stream {
                    push_stream(&mut bytes, payload);
                }
                push_str(&mut bytes, "endobj\n");
            },
        }
        bytes
    }
}

impl Liftable for CrossReferenceEntry {
    /// The offset in ten digits, the generation in five, and `f` for a free
    /// slot or `n` for one in use, with one space between them and a line
    /// break at the end.
    open spec fn lifted(&self) -> Seq<u8> {
        zero_padded(decimal(self.offset as int), 10) + utf8(" "@) + zero_padded(
            decimal(self.generation as int),
            5,
        ) + utf8(" "@) + (if self.free {
            utf8("f"@)
        } else {
            utf8("n"@)
        }) + utf8("\n"@)
    }

    fn lift(&self) -> (bytes: Vec<u8>) {
        let mut bytes: Vec<u8> = Vec::new();
        push_zero_padded(&mut bytes, self.offset, 10);
        push_str(&mut bytes, " ");
        push_zero_padded(&mut bytes, self.generation, 5);
        push_str(&mut bytes, " ");
        push_str(&mut bytes, if self.free { "f" } else { "n" });
        push_str(&mut bytes, "\n");
        bytes
    }
}

impl Liftable for CrossReferenceTable {
    /// The keyword, then a line with the first object number and the number
    /// of entries, counted here from the entries themselves, then the
    /// entries.
    open spec fn lifted(&self) -> Seq<u8> {
        utf8("xref\n"@) + decimal(self.id as int) + utf8(" "@) + decimal(
            self.entries@.len() as int,
        ) + utf8("\n"@) + lifted_all(self.entries@)
    }

    fn lift(&self) -> (bytes: Vec<u8>) {
        let mut bytes: Vec<u8> = Vec::new();
        push_str(&mut bytes, "xref\n");
        push_decimal(&mut bytes, self.id);
        push_str(&mut bytes, " ");
        push_digits(&mut bytes, self.entries.len() as u64);
        push_str(&mut bytes, "\n");
        push_bytes(&mut bytes, lift_all(&self.entries).as_slice());
        bytes
    }
}

impl Liftable for Trailer {
    /// The keyword, the dictionary, and the offset of the cross-reference
    /// section under its own keyword.
    open spec fn lifted(&self) -> Seq<u8> {
        utf8("trailer\n"@) + self.dictionary.lifted() + utf8("\n"@) + utf8("startxref\n"@)
            + decimal(self.startxref as int) + utf8("\n"@)
    }

    fn lift(&self) -> (bytes: Vec<u8>) {
        let mut bytes: Vec<u8> = Vec::new();
        push_str(&mut bytes, "trailer\n");
        push_bytes(&mut bytes, self.dictionary.lift().as_slice());
        push_str(&mut bytes, "\n");
        push_str(&mut bytes, "startxref\n");
        push_decimal(&mut bytes, self.startxref);
        push_str(&mut bytes, "\n");
        bytes
    }
}

impl Liftable for PDF {
    /// The header line, the body, the cross-reference tables, the trailer
    /// and the end-of-file marker, in this order.
    open spec fn lifted(&self) -> Seq<u8> {
        utf8("%PDF-"@) + decimal(self.header.major as int) + utf8("."@) + decimal(
            self.header.minor as int,
        ) + utf8("\n"@) + lifted_all(self.body@) + lifted_all(self.cross_reference_tables@)
            + self.trailer.lifted() + utf8("%%EOF\n"@)
    }

    fn lift(&self) -> (bytes: Vec<u8>) {
        let mut bytes: Vec<u8> = Vec::new();
        push_str(&mut bytes, "%PDF-");
        push_decimal(&mut bytes, self.header.major);
        push_str(&mut bytes, ".");
        push_decimal(&mut bytes, self.header.minor);
        push_str(&mut bytes, "\n");
        push_bytes(&mut bytes, lift_all(&self.body).as_slice());
        push_bytes(&mut bytes, lift_all(&self.cross_reference_tables).as_slice());
        push_bytes(&mut bytes, self.trailer.lift().as_slice());
        push_str(&mut bytes, "%%EOF\n");
        bytes
    }
}

} // verus!
