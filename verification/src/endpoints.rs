//! The text form of a backend set: addresses separated by commas, the empty
//! text standing for the empty set.

use vstd::prelude::*;
use vstd::std_specs::iter::IteratorSpec;

verus! {

/// The character between two addresses of a list.
pub open spec fn separator() -> char {
    ','
}

/// The fields of `text` between separators, read one character at a time:
/// a separator opens a new, empty field and any other character extends the
/// last one. A text of `k` separators has `k + 1` fields.
pub open spec fn split(text: Seq<char>, sep: char) -> Seq<Seq<char>>
    decreases text.len(),
{
    if text.len() == 0 {
        seq![Seq::<char>::empty()]
    } else {
        let before = split(text.drop_last(), sep);
        if text.last() == sep {
            before.push(Seq::<char>::empty())
        } else {
            before.drop_last().push(before.last().push(text.last()))
        }
    }
}

/// The fields written one after the other with `sep` between neighbours.
pub open spec fn join(fields: Seq<Seq<char>>, sep: char) -> Seq<char>
    decreases fields.len(),
{
    if fields.len() == 0 {
        Seq::<char>::empty()
    } else if fields.len() == 1 {
        fields[0]
    } else {
        join(fields.drop_last(), sep).push(sep) + fields.last()
    }
}

/// No field holds the separator.
pub open spec fn separator_free(fields: Seq<Seq<char>>, sep: char) -> bool {
    forall|i: int, j: int|
        0 <= i < fields.len() && 0 <= j < fields[i].len() ==> #[trigger] fields[i][j] != sep
}

/// The backend set that an annotation value denotes.
pub open spec fn endpoints_of(value: Seq<char>) -> Seq<Seq<char>> {
    if value.len() == 0 {
        Seq::<Seq<char>>::empty()
    } else {
        split(value, separator())
    }
}

/// Splitting never yields an empty list, and no field holds the separator.
pub proof fn lemma_split_fields(text: Seq<char>, sep: char)
    ensures
        split(text, sep).len() >= 1,
        separator_free(split(text, sep), sep),
    decreases text.len(),
{
    if text.len() > 0 {
        lemma_split_fields(text.drop_last(), sep);
    }
}

/// Joining the fields of a text gives the text back.
pub proof fn lemma_join_split(text: Seq<char>, sep: char)
    ensures
        join(split(text, sep), sep) == text,
    decreases text.len(),
{
    if text.len() > 0 {
        let shorter = text.drop_last();
        lemma_join_split(shorter, sep);
        lemma_split_fields(shorter, sep);
        let before = split(shorter, sep);
        let after = split(text, sep);
        if text.last() == sep {
            assert(after.drop_last() =~= before);
        } else if before.len() > 1 {
            assert(after.drop_last() =~= before.drop_last());
            let stem = join(before.drop_last(), sep).push(sep);
            assert(stem + before.last().push(text.last()) =~= (stem + before.last()).push(
                text.last(),
            ));
        }
    }
}

/// A non-empty list of separator-free fields is what its joined text splits
/// into: splitting and joining are inverse to each other.
pub proof fn lemma_split_join(fields: Seq<Seq<char>>, sep: char)
    requires
        fields.len() >= 1,
        separator_free(fields, sep),
    ensures
        split(join(fields, sep), sep) == fields,
    decreases fields.len(),
{
    if fields.len() == 1 {
        lemma_split_sep_free(fields[0], sep);
    } else {
        let front = fields.drop_last();
        lemma_split_join(front, sep);
        let stem = join(front, sep).push(sep);
        assert(stem.drop_last() =~= join(front, sep));
        lemma_split_append(stem, fields.last(), sep);
    }
}

/// A text without separator is its own single field.
proof fn lemma_split_sep_free(text: Seq<char>, sep: char)
    requires
        forall|j: int| 0 <= j < text.len() ==> text[j] != sep,
    ensures
        split(text, sep) == seq![text],
    decreases text.len(),
{
    if text.len() == 0 {
        assert(text =~= Seq::<char>::empty());
    } else {
        let shorter = text.drop_last();
        lemma_split_sep_free(shorter, sep);
        assert(shorter.push(text.last()) =~= text);
    }
}

/// Appending separator-free characters to a text extends its last field.
proof fn lemma_split_append(text: Seq<char>, tail: Seq<char>, sep: char)
    requires
        forall|j: int| 0 <= j < tail.len() ==> tail[j] != sep,
    ensures
        split(text + tail, sep) == split(text, sep).drop_last().push(
            split(text, sep).last() + tail,
        ),
    decreases tail.len(),
{
    lemma_split_fields(text, sep);
    if tail.len() > 0 {
        let shorter = tail.drop_last();
        lemma_split_append(text, shorter, sep);
        assert((text + tail).drop_last() =~= text + shorter);
        let last = split(text, sep).last();
        assert((last + shorter).push(tail.last()) =~= last + tail);
    }
}

/// Reads the address list that an annotation value holds: the addresses in
/// the order written, none for the empty text.
pub fn parse_endpoints(value: &str) -> (addresses: Vec<String>)
    ensures
        addresses.deep_view() == endpoints_of(value@),
{
    let total: usize = value.unicode_len();
    let mut addresses: Vec<String> = Vec::new();
    if total == 0 {
        return addresses;
    }
    let mut chars = value.chars();
    let mut start: usize = 0;
    let mut i: usize = 0;
    assert(value@.take(0) =~= Seq::<char>::empty());
    loop
        invariant
            total == value@.len(),
            start <= i <= total,
            chars.obeys_prophetic_iter_laws(),
            chars.remaining() == value@.skip(i as int),
            addresses.deep_view().push(value@.subrange(start as int, i as int)) == split(
                value@.take(i as int),
                separator(),
            ),
        ensures
            i == total,
            start <= total,
            total == value@.len(),
            addresses.deep_view().push(value@.subrange(start as int, total as int)) == split(
                value@.take(total as int),
                separator(),
            ),
        decreases total - i,
    {
        let ghost field = value@.subrange(start as int, i as int);
        match chars.next() {
            Some(c) => {
                assert(value@.take(i + 1).drop_last() =~= value@.take(i as int));
                if c == ',' {
                    let piece: String = value.substring_char(start, i).to_owned();
                    addresses.push(piece);
                    start = i + 1;
                    assert(value@.subrange(i + 1, i + 1) =~= Seq::<char>::empty());
                } else {
                    assert(field.push(c) =~= value@.subrange(start as int, i + 1));
                }
                i += 1;
            },
            None => {
                break ;
            },
        }
    }
    let piece: String = value.substring_char(start, total).to_owned();
    addresses.push(piece);
    assert(value@.take(total as int) =~= value@);
    addresses
}

} // verus!
