//! The order of entries: a key for each entry and sorting mode, compared
//! part by part.

use crate::config::SortingReference;
use crate::entry::ColoredEntry;
use crate::kind::{Kind, Timestamp};
use vstd::prelude::*;
use vstd::string::*;
use vstd::utf8::encode_utf8;

verus! {

/// `left` comes no later than `right` when both are read from `from` on and
/// agree before it: bytes decide in turn, and a text that ends first comes
/// first.
pub open spec fn bytes_le_from(left: Seq<u8>, right: Seq<u8>, from: int) -> bool
    decreases left.len() - from,
{
    if from < 0 || from >= left.len() {
        true
    } else if from >= right.len() {
        false
    } else if left[from] != right[from] {
        left[from] < right[from]
    } else {
        bytes_le_from(left, right, from + 1)
    }
}

/// `left` comes no later than `right` in the order of their bytes.
pub open spec fn bytes_le(left: Seq<u8>, right: Seq<u8>) -> bool {
    bytes_le_from(left, right, 0)
}

/// `left` comes no later than `right`, a missing text coming before any
/// text.
pub open spec fn text_le(left: Option<Seq<u8>>, right: Option<Seq<u8>>) -> bool {
    match (left, right) {
        (None, _) => true,
        (Some(_), None) => false,
        (Some(a), Some(b)) => bytes_le(a, b),
    }
}

/// The bytes of an optional string.
pub open spec fn optional_bytes(text: Option<String>) -> Option<Seq<u8>> {
    match text {
        Some(chars) => Some(encode_utf8(chars@)),
        None => None,
    }
}

/// The name begins with a lower-case letter of the basic alphabet.
pub open spec fn starts_lowercase(name: Seq<u8>) -> bool {
    name.len() > 0 && 97 <= name[0] <= 122
}

/// The numbers that stand for a point in time where there is one: a missing
/// point comes before any other.
pub open spec fn stamp_numbers(stamp: Option<Timestamp>) -> (int, int, int) {
    match stamp {
        Some(at) => (1, at.secs as int, at.nanos as int),
        None => (0, 0, 0),
    }
}

/// The first part of every key: 0 for the entries that are listed first as a
/// group, 1 for the others.
pub open spec fn group_of(group_directories: bool, entry: ColoredEntry) -> int {
    if group_directories && entry.kind == Kind::Directory {
        0
    } else {
        1
    }
}

/// The numbers by which `by` orders an entry.
pub open spec fn numbers_of(by: SortingReference, entry: ColoredEntry) -> (int, int, int) {
    match by {
        SortingReference::Default => (entry.kind.rank(), 0, 0),
        SortingReference::Name => (
            if starts_lowercase(encode_utf8(entry.name@)) {
                1
            } else {
                0
            },
            0,
            0,
        ),
        SortingReference::Size => match entry.size_bytes {
            Some(size) => (1, size as int, 0),
            None => (0, 0, 0),
        },
        SortingReference::Extension => (0, 0, 0),
        SortingReference::CreationDate => stamp_numbers(entry.created_at),
        SortingReference::AccessDate => stamp_numbers(entry.accessed_at),
        SortingReference::ModificationDate => stamp_numbers(entry.modified_at),
        SortingReference::Colour => (
            entry.colour.red as int,
            entry.colour.green as int,
            entry.colour.blue as int,
        ),
    }
}

/// The text by which `by` orders an entry, behind its numbers.
pub open spec fn text_of(by: SortingReference, entry: ColoredEntry) -> Option<Seq<u8>> {
    match by {
        SortingReference::Default | SortingReference::Extension => optional_bytes(
            entry.extension,
        ),
        _ => None,
    }
}

/// The bytes of the name, the last part of every key.
pub open spec fn name_of(entry: ColoredEntry) -> Seq<u8> {
    encode_utf8(entry.name@)
}

/// `left` comes before `right` in numbers.
pub open spec fn numbers_lt(left: (int, int, int), right: (int, int, int)) -> bool {
    left.0 < right.0 || (left.0 == right.0 && (left.1 < right.1 || (left.1 == right.1 && left.2
        < right.2)))
}

/// `left` comes no later than `right`: the group decides, then the numbers,
/// then the text, and the name at last.
pub open spec fn entry_le(
    by: SortingReference,
    group_directories: bool,
    left: ColoredEntry,
    right: ColoredEntry,
) -> bool {
    let left_group = group_of(group_directories, left);
    let right_group = group_of(group_directories, right);
    let left_numbers = numbers_of(by, left);
    let right_numbers = numbers_of(by, right);
    let left_text = text_of(by, left);
    let right_text = text_of(by, right);
    if left_group != right_group {
        left_group < right_group
    } else if left_numbers != right_numbers {
        numbers_lt(left_numbers, right_numbers)
    } else if !(text_le(left_text, right_text) && text_le(right_text, left_text)) {
        text_le(left_text, right_text)
    } else {
        bytes_le(name_of(left), name_of(right))
    }
}

/// Texts that agree before `from` are ordered one way or the other.
pub proof fn lemma_bytes_le_total(left: Seq<u8>, right: Seq<u8>, from: int)
    ensures
        bytes_le_from(left, right, from) || bytes_le_from(right, left, from),
    decreases left.len() - from,
{
    if 0 <= from < left.len() && from < right.len() && left[from] == right[from] {
        lemma_bytes_le_total(left, right, from + 1);
    }
}

/// The order of bytes passes through a text in the middle.
pub proof fn lemma_bytes_le_transitive(a: Seq<u8>, b: Seq<u8>, c: Seq<u8>, from: int)
    requires
        bytes_le_from(a, b, from),
        bytes_le_from(b, c, from),
    ensures
        bytes_le_from(a, c, from),
    decreases a.len() - from,
{
    if 0 <= from < a.len() && from < b.len() && from < c.len() && a[from] == b[from] && b[from]
        == c[from] {
        lemma_bytes_le_transitive(a, b, c, from + 1);
    }
}

/// The order of optional texts is total.
pub proof fn lemma_text_le_total(left: Option<Seq<u8>>, right: Option<Seq<u8>>)
    ensures
        text_le(left, right) || text_le(right, left),
{
    if left is Some && right is Some {
        lemma_bytes_le_total(left->0, right->0, 0);
    }
}

/// The order of optional texts passes through a text in the middle.
pub proof fn lemma_text_le_transitive(
    a: Option<Seq<u8>>,
    b: Option<Seq<u8>>,
    c: Option<Seq<u8>>,
)
    requires
        text_le(a, b),
        text_le(b, c),
    ensures
        text_le(a, c),
{
    if a is Some && b is Some && c is Some {
        lemma_bytes_le_transitive(a->0, b->0, c->0, 0);
    }
}

/// Any two entries are ordered one way or the other.
pub proof fn lemma_entry_le_total(
    by: SortingReference,
    group_directories: bool,
    left: ColoredEntry,
    right: ColoredEntry,
)
    ensures
        entry_le(by, group_directories, left, right) || entry_le(
            by,
            group_directories,
            right,
            left,
        ),
{
    lemma_text_le_total(text_of(by, left), text_of(by, right));
    lemma_bytes_le_total(name_of(left), name_of(right), 0);
}

/// Every entry comes no later than itself.
pub proof fn lemma_entry_le_reflexive(
    by: SortingReference,
    group_directories: bool,
    entry: ColoredEntry,
)
    ensures
        entry_le(by, group_directories, entry, entry),
{
    lemma_entry_le_total(by, group_directories, entry, entry);
}

/// The order of entries passes through an entry in the middle: if `a` comes
/// no later than `b` and `b` no later than `c`, then `a` comes no later than
/// `c`.
pub proof fn lemma_entry_le_transitive(
    by: SortingReference,
    group_directories: bool,
    a: ColoredEntry,
    b: ColoredEntry,
    c: ColoredEntry,
)
    requires
        entry_le(by, group_directories, a, b),
        entry_le(by, group_directories, b, c),
    ensures
        entry_le(by, group_directories, a, c),
{
    let ta = text_of(by, a);
    let tb = text_of(by, b);
    let tc = text_of(by, c);
    let na = name_of(a);
    let nb = name_of(b);
    let nc = name_of(c);
    if text_le(ta, tb) && text_le(tb, tc) {
        lemma_text_le_transitive(ta, tb, tc);
    }
    if text_le(tc, ta) && text_le(ta, tb) {
        lemma_text_le_transitive(tc, ta, tb);
    }
    if text_le(tb, tc) && text_le(tc, ta) {
        lemma_text_le_transitive(tb, tc, ta);
    }
    if text_le(tc, tb) && text_le(tb, ta) {
        lemma_text_le_transitive(tc, tb, ta);
    }
    lemma_text_le_total(ta, tb);
    lemma_text_le_total(tb, tc);
    lemma_text_le_total(ta, tc);
    if bytes_le(na, nb) && bytes_le(nb, nc) {
        lemma_bytes_le_transitive(na, nb, nc, 0);
    }
}

} // verus!
