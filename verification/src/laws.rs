//! What holds of lifting as a whole: it is a function, it composes by
//! concatenation, and the fixed-width fields of a cross-reference entry can
//! be read back.

use vstd::prelude::*;
use crate::lifter::{lifted_all, lifted_entries, lifted_items, Liftable};
use crate::object::{CrossReferenceEntry, Dictionary, NameObject, Object, PDF};
use crate::text::{
    decimal,
    digits_value,
    is_digit,
    lemma_digits_len,
    lemma_digits_shape,
    lemma_digits_value,
    lemma_utf8_ascii,
    lemma_zero_padded,
    pow10,
    utf8,
    zero_padded,
};

verus! {

/// Lifting is a function of the value: whatever two calls of `lift` on one
/// value return, the bytes are the same.
pub proof fn lemma_lift_deterministic<T: Liftable>(value: &T, first: Vec<u8>, second: Vec<u8>)
    requires
        call_ensures(T::lift, (value,), first),
        call_ensures(T::lift, (value,), second),
    ensures
        first@ == second@,
{
}

/// A document with no body and no cross-reference table is its header
/// line, its trailer and the end-of-file marker.
pub proof fn lemma_empty_body(pdf: PDF)
    requires
        pdf.body@.len() == 0,
        pdf.cross_reference_tables@.len() == 0,
    ensures
        pdf.lifted() == utf8("%PDF-"@) + decimal(pdf.header.major as int) + utf8("."@) + decimal(
            pdf.header.minor as int,
        ) + utf8("\n"@) + pdf.trailer.lifted() + utf8("%%EOF\n"@),
{
}

/// A sequence of one value lifts to that value's bytes.
pub proof fn lemma_lifted_all_one<T: Liftable>(item: T)
    ensures
        lifted_all(seq![item]) == item.lifted(),
{
    assert(seq![item].drop_last() == Seq::<T>::empty());
    reveal_with_fuel(lifted_all, 2);
}

/// Two sequences, one after the other, lift to the bytes of the first
/// followed by the bytes of the second: no value changes what another is
/// written as.
pub proof fn lemma_lifted_all_concat<T: Liftable>(first: Seq<T>, second: Seq<T>)
    ensures
        lifted_all(first + second) == lifted_all(first) + lifted_all(second),
    decreases second.len(),
{
    if second.len() == 0 {
        assert(first + second == first);
    } else {
        lemma_lifted_all_concat(first, second.drop_last());
        assert((first + second).drop_last() == first + second.drop_last());
    }
}

/// The elements of two arrays, one after the other, lift to the bytes of
/// the first followed by the bytes of the second.
pub proof fn lemma_lifted_items_concat(first: Seq<Object>, second: Seq<Object>)
    ensures
        lifted_items(first + second) == lifted_items(first) + lifted_items(second),
    decreases second.len(),
{
    if second.len() == 0 {
        assert(first + second == first);
    } else {
        lemma_lifted_items_concat(first, second.drop_last());
        assert((first + second).drop_last() == first + second.drop_last());
        assert(lifted_items(first + second) == lifted_items(first) + (lifted_items(
            second.drop_last(),
        ) + second.last().lifted() + utf8(" "@)));
    }
}

/// The entries of two dictionaries, one after the other, lift to the bytes
/// of the first followed by the bytes of the second.
pub proof fn lemma_lifted_entries_concat(
    first: Seq<(NameObject, Object)>,
    second: Seq<(NameObject, Object)>,
)
    ensures
        lifted_entries(first + second) == lifted_entries(first) + lifted_entries(second),
    decreases second.len(),
{
    if second.len() == 0 {
        assert(first + second == first);
    } else {
        lemma_lifted_entries_concat(first, second.drop_last());
        assert((first + second).drop_last() == first + second.drop_last());
        assert(lifted_entries(first + second) == lifted_entries(first) + (lifted_entries(
            second.drop_last(),
        ) + second.last().0.lifted() + utf8(" "@) + second.last().1.lifted() + utf8("\n"@)));
    }
}

/// The bytes of an array's elements are those of the elements before the
/// `i`-th, the `i`-th itself with its space, and those of the elements
/// after it.
pub proof fn lemma_lifted_items_split(items: Seq<Object>, i: int)
    requires
        0 <= i < items.len(),
    ensures
        lifted_items(items) == lifted_items(items.take(i)) + items[i].lifted() + utf8(" "@)
            + lifted_items(items.skip(i + 1)),
{
    let one = seq![items[i]];
    assert(items == items.take(i) + one + items.skip(i + 1));
    lemma_lifted_items_concat(items.take(i) + one, items.skip(i + 1));
    lemma_lifted_items_concat(items.take(i), one);
    assert(one.drop_last() == Seq::<Object>::empty());
    reveal_with_fuel(lifted_items, 2);
}

/// The bytes of a dictionary's entries are those of the entries before the
/// `i`-th, the line of the `i`-th, and those of the entries after it.
pub proof fn lemma_lifted_entries_split(entries: Seq<(NameObject, Object)>, i: int)
    requires
        0 <= i < entries.len(),
    ensures
        lifted_entries(entries) == lifted_entries(entries.take(i)) + entries[i].0.lifted() + utf8(
            " "@,
        ) + entries[i].1.lifted() + utf8("\n"@) + lifted_entries(entries.skip(i + 1)),
{
    let one = seq![entries[i]];
    assert(entries == entries.take(i) + one + entries.skip(i + 1));
    lemma_lifted_entries_concat(entries.take(i) + one, entries.skip(i + 1));
    lemma_lifted_entries_concat(entries.take(i), one);
    assert(one.drop_last() == Seq::<(NameObject, Object)>::empty());
    reveal_with_fuel(lifted_entries, 2);
}

/// The bytes of a sequence are the bytes of its values, joined.
pub proof fn lemma_lifted_all_joins<T: Liftable>(items: Seq<T>)
    ensures
        lifted_all(items) == items.map_values(|item: T| item.lifted()).flatten(),
    decreases items.len(),
{
    let pieces = items.map_values(|item: T| item.lifted());
    pieces.lemma_flatten_and_flatten_alt_are_equivalent();
    if items.len() > 0 {
        let rest = items.drop_last().map_values(|item: T| item.lifted());
        lemma_lifted_all_joins(items.drop_last());
        rest.lemma_flatten_and_flatten_alt_are_equivalent();
        assert(pieces.drop_last() == rest);
    }
}

/// The bytes of an array's elements are the bytes of each element with its
/// space, joined.
pub proof fn lemma_lifted_items_joins(items: Seq<Object>)
    ensures
        lifted_items(items) == items.map_values(|item: Object| item.lifted() + utf8(" "@)).flatten(),
    decreases items.len(),
{
    let pieces = items.map_values(|item: Object| item.lifted() + utf8(" "@));
    pieces.lemma_flatten_and_flatten_alt_are_equivalent();
    if items.len() > 0 {
        let rest = items.drop_last().map_values(|item: Object| item.lifted() + utf8(" "@));
        lemma_lifted_items_joins(items.drop_last());
        rest.lemma_flatten_and_flatten_alt_are_equivalent();
        assert(pieces.drop_last() == rest);
    }
}

/// The bytes of a dictionary's entries are the lines of the entries,
/// joined.
pub proof fn lemma_lifted_entries_joins(entries: Seq<(NameObject, Object)>)
    ensures
        lifted_entries(entries) == entries.map_values(
            |entry: (NameObject, Object)|
                entry.0.lifted() + utf8(" "@) + entry.1.lifted() + utf8("\n"@),
        ).flatten(),
    decreases entries.len(),
{
    let line = |entry: (NameObject, Object)|
        entry.0.lifted() + utf8(" "@) + entry.1.lifted() + utf8("\n"@);
    let pieces = entries.map_values(line);
    pieces.lemma_flatten_and_flatten_alt_are_equivalent();
    if entries.len() > 0 {
        let rest = entries.drop_last().map_values(line);
        lemma_lifted_entries_joins(entries.drop_last());
        rest.lemma_flatten_and_flatten_alt_are_equivalent();
        assert(pieces.drop_last() == rest);
    }
}

/// A dictionary without entries is its two markers and the line break
/// between them, five bytes in all.
pub proof fn lemma_empty_dictionary(dictionary: Dictionary)
    requires
        dictionary.entries@.len() == 0,
    ensures
        dictionary.lifted() == seq!['<' as u8, '<' as u8, '\n' as u8, '>' as u8, '>' as u8],
{
    reveal_strlit("<<\n");
    reveal_strlit(">>");
    lemma_utf8_ascii("<<\n"@);
    lemma_utf8_ascii(">>"@);
}

/// An entry whose offset has at most ten digits and whose generation has at
/// most five is nineteen bytes long: ten digits that read as the offset, a
/// space, five digits that read as the generation, a space, the letter for
/// the slot's state, and a line break.
pub proof fn lemma_entry_layout(entry: CrossReferenceEntry)
    requires
        0 <= entry.offset < 10_000_000_000,
        0 <= entry.generation < 100_000,
    ensures
        entry.lifted().len() == 19,
        forall|i: int| 0 <= i < 10 ==> is_digit(#[trigger] entry.lifted()[i]),
        digits_value(entry.lifted().subrange(0, 10)) == entry.offset,
        entry.lifted()[10] == ' ' as u8,
        forall|i: int| 11 <= i < 16 ==> is_digit(#[trigger] entry.lifted()[i]),
        digits_value(entry.lifted().subrange(11, 16)) == entry.generation,
        entry.lifted()[16] == ' ' as u8,
        entry.lifted()[17] == if entry.free {
            'f' as u8
        } else {
            'n' as u8
        },
        entry.lifted()[18] == '\n' as u8,
{
    let offset = zero_padded(decimal(entry.offset as int), 10);
    let generation = zero_padded(decimal(entry.generation as int), 5);
    assert(pow10(10) == 10_000_000_000 && pow10(5) == 100_000) by {
        reveal_with_fuel(pow10, 11);
    }
    lemma_digits_len(entry.offset as nat, 10);
    lemma_digits_shape(entry.offset as nat);
    lemma_digits_value(entry.offset as nat);
    lemma_zero_padded(decimal(entry.offset as int), 10);
    lemma_digits_len(entry.generation as nat, 5);
    lemma_digits_shape(entry.generation as nat);
    lemma_digits_value(entry.generation as nat);
    lemma_zero_padded(decimal(entry.generation as int), 5);
    reveal_strlit(" ");
    reveal_strlit("f");
    reveal_strlit("n");
    reveal_strlit("\n");
    lemma_utf8_ascii(" "@);
    lemma_utf8_ascii("f"@);
    lemma_utf8_ascii("n"@);
    lemma_utf8_ascii("\n"@);
    assert(entry.lifted().subrange(0, 10) == offset);
    assert(entry.lifted().subrange(11, 16) == generation);
    assert forall|i: int| 0 <= i < 10 implies is_digit(#[trigger] entry.lifted()[i]) by {
        assert(entry.lifted()[i] == offset[i]);
    }
    assert forall|i: int| 11 <= i < 16 implies is_digit(#[trigger] entry.lifted()[i]) by {
        assert(entry.lifted()[i] == generation[i - 11]);
    }
}

} // verus!
