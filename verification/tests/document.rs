use pdf_lifter::lifter::{lift_all, Liftable};
use pdf_lifter::object::{
    CrossReferenceEntry, CrossReferenceTable, Dictionary, Header, NameObject, Object, Trailer,
    PDF,
};

fn name(text: &str) -> NameObject {
    NameObject(text.to_string())
}

fn trailer(startxref: i64) -> Trailer {
    Trailer {
        dictionary: Dictionary {
            entries: vec![
                (name("Size"), Object::Integer(2)),
                (name("Root"), Object::IndirectReference { id: 1, generation: 0 }),
            ],
        },
        startxref,
    }
}

#[test]
fn entry_free_all_zero() {
    let entry = CrossReferenceEntry { offset: 0, generation: 0, free: true };
    assert_eq!(entry.lift(), b"0000000000 00000 f\n".to_vec());
}

#[test]
fn entry_in_use() {
    let entry = CrossReferenceEntry { offset: 17, generation: 3, free: false };
    assert_eq!(entry.lift(), b"0000000017 00003 n\n".to_vec());
}

#[test]
fn entry_first_of_a_file() {
    let entry = CrossReferenceEntry { offset: 0, generation: 65535, free: true };
    assert_eq!(entry.lift(), b"0000000000 65535 f\n".to_vec());
}

#[test]
fn entry_fills_both_fields() {
    let entry = CrossReferenceEntry { offset: 9_999_999_999, generation: 99_999, free: false };
    assert_eq!(entry.lift(), b"9999999999 99999 n\n".to_vec());
}

#[test]
fn entry_is_nineteen_bytes() {
    let offsets: [i64; 5] = [0, 9, 10, 123_456, 9_999_999_999];
    let generations: [i64; 4] = [0, 1, 65_535, 99_999];
    for offset in offsets {
        for generation in generations {
            let bytes = CrossReferenceEntry { offset, generation, free: false }.lift();
            assert_eq!(bytes.len(), 19);
            assert_eq!(bytes, format!("{:0>10} {:0>5} n\n", offset, generation).into_bytes());
        }
    }
}

#[test]
fn entry_wider_than_its_field_is_not_cut() {
    let entry = CrossReferenceEntry { offset: 12_345_678_901, generation: 123_456, free: false };
    assert_eq!(entry.lift(), b"12345678901 123456 n\n".to_vec());
}

#[test]
fn entry_negative_is_written_as_it_is() {
    let entry = CrossReferenceEntry { offset: -5, generation: -1, free: true };
    assert_eq!(entry.lift(), b"00000000-5 000-1 f\n".to_vec());
    assert_eq!(entry.lift(), format!("{:0>10} {:0>5} f\n", -5, -1).into_bytes());
}

#[test]
fn table_counts_its_entries() {
    let table = CrossReferenceTable {
        id: 0,
        entries: vec![
            CrossReferenceEntry { offset: 0, generation: 65535, free: true },
            CrossReferenceEntry { offset: 9, generation: 0, free: false },
            CrossReferenceEntry { offset: 74, generation: 0, free: false },
        ],
    };
    assert_eq!(
        table.lift(),
        b"xref\n0 3\n0000000000 65535 f\n0000000009 00000 n\n0000000074 00000 n\n".to_vec()
    );
}

#[test]
fn table_without_entries() {
    let table = CrossReferenceTable { id: 5, entries: Vec::new() };
    assert_eq!(table.lift(), b"xref\n5 0\n".to_vec());
}

#[test]
fn table_with_many_entries() {
    let mut entries = Vec::new();
    let mut expected = b"xref\n100 12\n".to_vec();
    for i in 0..12 {
        entries.push(CrossReferenceEntry { offset: i * 100, generation: 0, free: false });
        expected.extend_from_slice(format!("{:0>10} 00000 n\n", i * 100).as_bytes());
    }
    let table = CrossReferenceTable { id: 100, entries };
    assert_eq!(table.lift(), expected);
}

#[test]
fn trailer_block() {
    assert_eq!(
        trailer(128).lift(),
        b"trailer\n<<\n/Size 2\n/Root 1 0 R\n>>\nstartxref\n128\n".to_vec()
    );
}

#[test]
fn trailer_offset_is_taken_as_given() {
    let block = Trailer { dictionary: Dictionary { entries: Vec::new() }, startxref: 0 };
    assert_eq!(block.lift(), b"trailer\n<<\n>>\nstartxref\n0\n".to_vec());
}

#[test]
fn document_with_empty_body() {
    let pdf = PDF {
        header: Header { major: 1, minor: 7 },
        body: Vec::new(),
        cross_reference_tables: Vec::new(),
        trailer: trailer(9),
    };
    let mut expected = b"%PDF-1.7\n".to_vec();
    expected.extend_from_slice(&trailer(9).lift());
    expected.extend_from_slice(b"%%EOF\n");
    assert_eq!(pdf.lift(), expected);
    assert_eq!(
        pdf.lift(),
        b"%PDF-1.7\ntrailer\n<<\n/Size 2\n/Root 1 0 R\n>>\nstartxref\n9\n%%EOF\n".to_vec()
    );
}

#[test]
fn document_header_versions() {
    let pdf = PDF {
        header: Header { major: 2, minor: 0 },
        body: Vec::new(),
        cross_reference_tables: Vec::new(),
        trailer: Trailer { dictionary: Dictionary { entries: Vec::new() }, startxref: 0 },
    };
    assert_eq!(
        pdf.lift(),
        b"%PDF-2.0\ntrailer\n<<\n>>\nstartxref\n0\n%%EOF\n".to_vec()
    );
}

#[test]
fn document_sections_in_order() {
    let pdf = PDF {
        header: Header { major: 1, minor: 4 },
        body: vec![
            Object::IndirectObject {
                id: 1,
                generation: 0,
                dictionary: Dictionary {
                    entries: vec![(name("Type"), Object::Name(name("Catalog")))],
                },
                stream: None,
            },
            Object::Comment("between\n".to_string()),
            Object::IndirectObject {
                id: 2,
                generation: 0,
                dictionary: Dictionary { entries: vec![(name("Length"), Object::Integer(2))] },
                stream: Some(b"ab".to_vec()),
            },
        ],
        cross_reference_tables: vec![
            CrossReferenceTable {
                id: 0,
                entries: vec![
                    CrossReferenceEntry { offset: 0, generation: 65535, free: true },
                    CrossReferenceEntry { offset: 9, generation: 0, free: false },
                ],
            },
            CrossReferenceTable {
                id: 2,
                entries: vec![CrossReferenceEntry { offset: 52, generation: 0, free: false }],
            },
        ],
        trailer: trailer(130),
    };
    let expected = concat_all(&[
        b"%PDF-1.4\n",
        b"1 0 obj <<\n/Type /Catalog\n>>\nendobj\n",
        b"%between\n",
        b"2 0 obj <<\n/Length 2\n>>\nstream\nab\nendstream\nendobj\n",
        b"xref\n0 2\n0000000000 65535 f\n0000000009 00000 n\n",
        b"xref\n2 1\n0000000052 00000 n\n",
        b"trailer\n<<\n/Size 2\n/Root 1 0 R\n>>\nstartxref\n130\n",
        b"%%EOF\n",
    ]);
    assert_eq!(pdf.lift(), expected);
}

fn concat_all(parts: &[&[u8]]) -> Vec<u8> {
    let mut all = Vec::new();
    for part in parts {
        all.extend_from_slice(part);
    }
    all
}

#[test]
fn document_body_is_not_reordered_or_deduplicated() {
    let pdf = PDF {
        header: Header { major: 1, minor: 0 },
        body: vec![Object::Integer(2), Object::Integer(1), Object::Integer(2)],
        cross_reference_tables: Vec::new(),
        trailer: Trailer { dictionary: Dictionary { entries: Vec::new() }, startxref: 0 },
    };
    assert_eq!(
        pdf.lift(),
        b"%PDF-1.0\n212trailer\n<<\n>>\nstartxref\n0\n%%EOF\n".to_vec()
    );
}

#[test]
fn document_lifted_twice() {
    let pdf = PDF {
        header: Header { major: 1, minor: 7 },
        body: vec![Object::Array(vec![Object::Integer(1), Object::Null])],
        cross_reference_tables: vec![CrossReferenceTable {
            id: 0,
            entries: vec![CrossReferenceEntry { offset: 0, generation: 65535, free: true }],
        }],
        trailer: trailer(25),
    };
    let first = pdf.lift();
    let second = pdf.lift();
    assert_eq!(first, second);
}

#[test]
fn lift_all_of_nothing() {
    let none: Vec<Object> = Vec::new();
    assert_eq!(lift_all(&none), Vec::<u8>::new());
}

#[test]
fn lift_all_joins_without_separator() {
    let items = vec![Object::Integer(1), Object::Null, Object::Boolean(false)];
    assert_eq!(lift_all(&items), b"1nullfalse".to_vec());
}

#[test]
fn lift_all_of_two_halves() {
    let first = vec![Object::Integer(1), Object::Name(name("A"))];
    let second = vec![Object::Null];
    let whole = vec![Object::Integer(1), Object::Name(name("A")), Object::Null];
    let mut joined = lift_all(&first);
    joined.extend_from_slice(&lift_all(&second));
    assert_eq!(lift_all(&whole), joined);
}

#[test]
fn lifted_document_is_utf8_text() {
    let pdf = PDF {
        header: Header { major: 1, minor: 7 },
        body: vec![Object::IndirectObject {
            id: 1,
            generation: 0,
            dictionary: Dictionary {
                entries: vec![
                    (name("Type"), Object::Name(name("Catalog"))),
                    (name("Title"), Object::LiteralString("Résumé".to_string())),
                ],
            },
            stream: None,
        }],
        cross_reference_tables: vec![CrossReferenceTable {
            id: 0,
            entries: vec![
                CrossReferenceEntry { offset: 0, generation: 65535, free: true },
                CrossReferenceEntry { offset: 9, generation: 0, free: false },
            ],
        }],
        trailer: trailer(68),
    };
    let pdf_bytes = pdf.lift();
    let pdf_string = String::from_utf8(pdf_bytes).unwrap();
    println!("pdf_string: \n{}", pdf_string);
    assert!(pdf_string.starts_with("%PDF-1.7\n1 0 obj <<\n/Type /Catalog\n/Title (Résumé)\n>>\nendobj\nxref\n0 2\n"));
    assert!(pdf_string.ends_with("startxref\n68\n%%EOF\n"));
}
