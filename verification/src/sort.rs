//! Sorting a listing: a stable order by the configured key, directories
//! grouped first where asked for, the whole reversed where asked for.

use crate::config::{Config, SortingReference};
use crate::entry::ColoredEntry;
use crate::kind::{Kind, Timestamp};
use crate::order::{
    bytes_le, bytes_le_from, entry_le, lemma_entry_le_total, lemma_entry_le_transitive,
    numbers_of, optional_bytes, stamp_numbers, text_le,
};
use crate::utils::starts_with_lowercase;
use vstd::prelude::*;
use vstd::string::*;

verus! {

/// `sorted` with `entry` put in front of the first entry that it comes no
/// later than, looking from `from` on.
pub open spec fn placed_from(
    by: SortingReference,
    group_directories: bool,
    entry: ColoredEntry,
    sorted: Seq<ColoredEntry>,
    from: int,
) -> Seq<ColoredEntry>
    decreases sorted.len() - from,
{
    if from < 0 || from >= sorted.len() || entry_le(by, group_directories, entry, sorted[from]) {
        sorted.insert(from, entry)
    } else {
        placed_from(by, group_directories, entry, sorted, from + 1)
    }
}

/// The entries in order, entries that compare alike staying in the order in
/// which they came.
pub open spec fn ordered(
    by: SortingReference,
    group_directories: bool,
    entries: Seq<ColoredEntry>,
) -> Seq<ColoredEntry>
    decreases entries.len(),
{
    if entries.len() == 0 {
        Seq::empty()
    } else {
        placed_from(
            by,
            group_directories,
            entries.first(),
            ordered(by, group_directories, entries.drop_first()),
            0,
        )
    }
}

/// No entry comes later than one behind it.
pub open spec fn is_sorted(
    by: SortingReference,
    group_directories: bool,
    entries: Seq<ColoredEntry>,
) -> bool {
    forall|i: int, j: int|
        0 <= i < j < entries.len() ==> entry_le(by, group_directories, entries[i], entries[j])
}

/// The listing as `config` orders it.
pub open spec fn arranged(config: Config, entries: Seq<ColoredEntry>) -> Seq<ColoredEntry> {
    let sorted = ordered(config.sort_by, config.group_directories_first, entries);
    if config.reverse {
        sorted.reverse()
    } else {
        sorted
    }
}

fn bytes_precede(left: &[u8], right: &[u8]) -> (first: bool)
    ensures
        first == bytes_le(left@, right@),
{
    let mut i: usize = 0;
    while i < left.len() && i < right.len() && left[i] == right[i]
        invariant
            i <= left.len(),
            i <= right.len(),
            bytes_le(left@, right@) == bytes_le_from(left@, right@, i as int),
        decreases left.len() - i,
    {
        i = i + 1;
    }
    if i >= left.len() {
        true
    } else if i >= right.len() {
        false
    } else {
        left[i] < right[i]
    }
}

fn text_precedes(left: &Option<String>, right: &Option<String>) -> (first: bool)
    ensures
        first == text_le(optional_bytes(*left), optional_bytes(*right)),
{
    match left {
        None => true,
        Some(a) => match right {
            None => false,
            Some(b) => bytes_precede(a.as_str().as_bytes(), b.as_str().as_bytes()),
        },
    }
}

fn numbers_for_stamp(stamp: &Option<Timestamp>) -> (numbers: (i128, i128, i128))
    ensures
        (numbers.0 as int, numbers.1 as int, numbers.2 as int) == stamp_numbers(*stamp),
{
    match stamp {
        Some(at) => (1, at.secs as i128, at.nanos as i128),
        None => (0, 0, 0),
    }
}

fn numbers_for(by: SortingReference, entry: &ColoredEntry) -> (numbers: (i128, i128, i128))
    ensures
        (numbers.0 as int, numbers.1 as int, numbers.2 as int) == numbers_of(by, *entry),
{
    match by {
        SortingReference::Default => (entry.kind.position() as i128, 0, 0),
        SortingReference::Name => if starts_with_lowercase(entry.name.as_str()) {
            (1, 0, 0)
        } else {
            (0, 0, 0)
        },
        SortingReference::Size => match entry.size_bytes {
            Some(size) => (1, size as i128, 0),
            None => (0, 0, 0),
        },
        SortingReference::Extension => (0, 0, 0),
        SortingReference::CreationDate => numbers_for_stamp(&entry.created_at),
        SortingReference::AccessDate => numbers_for_stamp(&entry.accessed_at),
        SortingReference::ModificationDate => numbers_for_stamp(&entry.modified_at),
        SortingReference::Colour => (
            entry.colour.red as i128,
            entry.colour.green as i128,
            entry.colour.blue as i128,
        ),
    }
}

/// Whether `left` comes no later than `right` in the order of `config`,
/// before any reversal.
pub fn precedes(config: &Config, left: &ColoredEntry, right: &ColoredEntry) -> (first: bool)
    ensures
        first == entry_le(config.sort_by, config.group_directories_first, *left, *right),
{
    let by = config.sort_by;
    let left_group: u8 = if config.group_directories_first && left.kind.is_directory() {
        0
    } else {
        1
    };
    let right_group: u8 = if config.group_directories_first && right.kind.is_directory() {
        0
    } else {
        1
    };
    if left_group != right_group {
        return left_group < right_group;
    }
    let a = numbers_for(by, left);
    let b = numbers_for(by, right);
    if a.0 != b.0 {
        return a.0 < b.0;
    }
    if a.1 != b.1 {
        return a.1 < b.1;
    }
    if a.2 != b.2 {
        return a.2 < b.2;
    }
    let with_text = match by {
        SortingReference::Default | SortingReference::Extension => true,
        _ => false,
    };
    if with_text {
        let forth = text_precedes(&left.extension, &right.extension);
        let back = text_precedes(&right.extension, &left.extension);
        if !(forth && back) {
            return forth;
        }
    }
    bytes_precede(left.name.as_str().as_bytes(), right.name.as_str().as_bytes())
}

/// Orders a listing as `config` asks.
///
/// Entries are ordered by the key of `config.sort_by`, behind the group of
/// directories where `config.group_directories_first` is set; entries that
/// compare alike stay in the order in which they came. Where
/// `config.reverse` is set, the whole ordered listing is turned round.
/// Nothing is lost or added. Each entry is put in its place among those
/// before it, so the cost grows with the square of the number of entries.
pub fn sort_entries(config: &Config, entries: Vec<ColoredEntry>) -> (sorted: Vec<ColoredEntry>)
    ensures
        sorted@ == arranged(*config, entries@),
        sorted@.to_multiset() == entries@.to_multiset(),
        sorted@.len() == entries@.len(),
        !config.reverse ==> is_sorted(config.sort_by, config.group_directories_first, sorted@),
        config.reverse ==> is_sorted(
            config.sort_by,
            config.group_directories_first,
            sorted@.reverse(),
        ),
{
    let ghost by = config.sort_by;
    let ghost group = config.group_directories_first;
    let ghost all = entries@;
    let mut rest = entries;
    let mut out: Vec<ColoredEntry> = Vec::new();
    assert(all.skip(all.len() as int) =~= Seq::<ColoredEntry>::empty());
    while rest.len() > 0
        invariant
            by == config.sort_by,
            group == config.group_directories_first,
            rest@.len() <= all.len(),
            rest@ == all.take(rest@.len() as int),
            out@ == ordered(by, group, all.skip(rest@.len() as int)),
        decreases rest.len(),
    {
        let ghost before = rest@.len() as int;
        let entry = rest.pop().unwrap();
        proof {
            let tail = all.skip(before - 1);
            assert(tail.first() == entry);
            assert(tail.drop_first() =~= all.skip(before));
            assert(rest@ =~= all.take(before - 1));
        }
        let mut at: usize = 0;
        while at < out.len() && !precedes(config, &entry, &out[at])
            invariant
                by == config.sort_by,
                group == config.group_directories_first,
                at <= out.len(),
                placed_from(by, group, entry, out@, 0) == placed_from(
                    by,
                    group,
                    entry,
                    out@,
                    at as int,
                ),
            decreases out.len() - at,
        {
            at = at + 1;
        }
        out.insert(at, entry);
    }
    proof {
        assert(all.skip(0) =~= all);
        lemma_ordered_is_sorted(by, group, all);
        lemma_ordered_is_permutation(by, group, all);
    }
    if config.reverse {
        let ghost forward = out@;
        let mut turned: Vec<ColoredEntry> = Vec::new();
        while out.len() > 0
            invariant
                out@.len() <= forward.len(),
                out@ == forward.take(out@.len() as int),
                turned@ == forward.skip(out@.len() as int).reverse(),
            decreases out.len(),
        {
            let ghost before = out@.len() as int;
            let entry = out.pop().unwrap();
            turned.push(entry);
            proof {
                assert(out@ =~= forward.take(before - 1));
                assert(turned@ =~= forward.skip(before - 1).reverse());
            }
        }
        proof {
            assert(forward.skip(0) =~= forward);
            assert(forward.reverse().reverse() =~= forward);
            forward.lemma_reverse_to_multiset();
        }
        turned
    } else {
        out
    }
}

/// Putting an entry in its place keeps the others and adds that one.
pub proof fn lemma_placed_is_insertion(
    by: SortingReference,
    group_directories: bool,
    entry: ColoredEntry,
    sorted: Seq<ColoredEntry>,
    from: int,
)
    requires
        0 <= from <= sorted.len(),
    ensures
        placed_from(by, group_directories, entry, sorted, from).to_multiset()
            == sorted.to_multiset().insert(entry),
        placed_from(by, group_directories, entry, sorted, from).len() == sorted.len() + 1,
    decreases sorted.len() - from,
{
    if from >= sorted.len() || entry_le(by, group_directories, entry, sorted[from]) {
        vstd::seq_lib::to_multiset_insert(sorted, from, entry);
    } else {
        lemma_placed_is_insertion(by, group_directories, entry, sorted, from + 1);
    }
}

/// Ordering neither loses nor adds an entry.
pub proof fn lemma_ordered_is_permutation(
    by: SortingReference,
    group_directories: bool,
    entries: Seq<ColoredEntry>,
)
    ensures
        ordered(by, group_directories, entries).to_multiset() == entries.to_multiset(),
        ordered(by, group_directories, entries).len() == entries.len(),
    decreases entries.len(),
{
    if entries.len() > 0 {
        let rest = entries.drop_first();
        lemma_ordered_is_permutation(by, group_directories, rest);
        lemma_placed_is_insertion(
            by,
            group_directories,
            entries.first(),
            ordered(by, group_directories, rest),
            0,
        );
        assert(entries =~= rest.insert(0, entries.first()));
        vstd::seq_lib::to_multiset_insert(rest, 0, entries.first());
    } else {
        assert(ordered(by, group_directories, entries) =~= entries);
    }
}

/// Putting an entry in its place keeps a sorted listing sorted.
pub proof fn lemma_placed_keeps_sorted(
    by: SortingReference,
    group_directories: bool,
    entry: ColoredEntry,
    sorted: Seq<ColoredEntry>,
    from: int,
)
    requires
        0 <= from <= sorted.len(),
        is_sorted(by, group_directories, sorted),
        forall|k: int| 0 <= k < from ==> entry_le(by, group_directories, #[trigger] sorted[k], entry),
    ensures
        is_sorted(by, group_directories, placed_from(by, group_directories, entry, sorted, from)),
    decreases sorted.len() - from,
{
    if from >= sorted.len() || entry_le(by, group_directories, entry, sorted[from]) {
        let result = sorted.insert(from, entry);
        assert forall|i: int, j: int| 0 <= i < j < result.len() implies entry_le(
            by,
            group_directories,
            result[i],
            result[j],
        ) by {
            if i == from {
                // `entry` against one behind it
                let behind = sorted[j - 1];
                if j - 1 > from {
                    lemma_entry_le_transitive(by, group_directories, entry, sorted[from], behind);
                }
            } else if j == from {
                assert(result[i] == sorted[i]);
            } else {
                let a = if i < from { i } else { i - 1 };
                let b = if j < from { j } else { j - 1 };
                assert(result[i] == sorted[a]);
                assert(result[j] == sorted[b]);
            }
        }
    } else {
        lemma_entry_le_total(by, group_directories, entry, sorted[from]);
        lemma_placed_keeps_sorted(by, group_directories, entry, sorted, from + 1);
    }
}

/// The ordered listing is sorted.
pub proof fn lemma_ordered_is_sorted(
    by: SortingReference,
    group_directories: bool,
    entries: Seq<ColoredEntry>,
)
    ensures
        is_sorted(by, group_directories, ordered(by, group_directories, entries)),
    decreases entries.len(),
{
    if entries.len() > 0 {
        let rest = entries.drop_first();
        lemma_ordered_is_sorted(by, group_directories, rest);
        lemma_placed_keeps_sorted(
            by,
            group_directories,
            entries.first(),
            ordered(by, group_directories, rest),
            0,
        );
    }
}

/// A listing that is in order stays as it is: ordering moves no entry past
/// one that it does not come behind.
pub proof fn lemma_ordered_keeps_sorted(
    by: SortingReference,
    group_directories: bool,
    entries: Seq<ColoredEntry>,
)
    requires
        is_sorted(by, group_directories, entries),
    ensures
        ordered(by, group_directories, entries) == entries,
    decreases entries.len(),
{
    if entries.len() > 0 {
        let rest = entries.drop_first();
        assert forall|i: int, j: int| 0 <= i < j < rest.len() implies entry_le(
            by,
            group_directories,
            rest[i],
            rest[j],
        ) by {
            assert(rest[i] == entries[i + 1] && rest[j] == entries[j + 1]);
        }
        lemma_ordered_keeps_sorted(by, group_directories, rest);
        if rest.len() > 0 {
            assert(rest[0] == entries[1]);
        }
        assert(rest.insert(0, entries.first()) =~= entries);
    } else {
        assert(ordered(by, group_directories, entries) =~= entries);
    }
}

/// Ordering a listing twice gives what ordering it once gives.
pub proof fn lemma_ordered_twice(
    by: SortingReference,
    group_directories: bool,
    entries: Seq<ColoredEntry>,
)
    ensures
        ordered(by, group_directories, ordered(by, group_directories, entries)) == ordered(
            by,
            group_directories,
            entries,
        ),
{
    lemma_ordered_is_sorted(by, group_directories, entries);
    lemma_ordered_keeps_sorted(by, group_directories, ordered(by, group_directories, entries));
}

/// Entries that compare alike both ways are one and the same entry: the
/// order tells any two entries of the listing apart.
pub open spec fn told_apart(
    by: SortingReference,
    group_directories: bool,
    entries: Seq<ColoredEntry>,
) -> bool {
    forall|i: int, j: int|
        #![trigger entries[i], entries[j]]
        0 <= i < entries.len() && 0 <= j < entries.len() && entry_le(
            by,
            group_directories,
            entries[i],
            entries[j],
        ) && entry_le(by, group_directories, entries[j], entries[i]) ==> entries[i] == entries[j]
}

/// Two sorted listings of the same entries are the same listing, where the
/// order tells the entries apart.
pub proof fn lemma_sorted_is_unique(
    by: SortingReference,
    group_directories: bool,
    first: Seq<ColoredEntry>,
    second: Seq<ColoredEntry>,
)
    requires
        is_sorted(by, group_directories, first),
        is_sorted(by, group_directories, second),
        first.to_multiset() == second.to_multiset(),
        told_apart(by, group_directories, first),
    ensures
        first == second,
    decreases first.len(),
{
    broadcast use vstd::seq_lib::group_to_multiset_ensures;

    first.to_multiset_ensures();
    second.to_multiset_ensures();
    assert(first.len() == second.len());
    if first.len() == 0 {
        assert(first =~= second);
    } else {
        let head = first[0];
        assert(first.contains(head));
        assert(second.to_multiset().count(head) > 0);
        assert(second.contains(head));
        let j = choose|j: int| 0 <= j < second.len() && second[j] == head;
        lemma_entry_le_total(by, group_directories, second[0], second[0]);
        assert(entry_le(by, group_directories, second[0], head));

        let other = second[0];
        assert(second.contains(other));
        assert(first.to_multiset().count(other) > 0);
        assert(first.contains(other));
        let k = choose|k: int| 0 <= k < first.len() && first[k] == other;
        lemma_entry_le_total(by, group_directories, first[0], first[0]);
        assert(entry_le(by, group_directories, head, first[k]));
        assert(first[0] == first[k]);
        assert(head == other);

        let first_rest = first.drop_first();
        let second_rest = second.drop_first();
        assert(first.remove(0) =~= first_rest);
        assert(second.remove(0) =~= second_rest);
        assert(first_rest.to_multiset() == second_rest.to_multiset());
        assert forall|i: int, j: int| 0 <= i < j < first_rest.len() implies entry_le(
            by,
            group_directories,
            first_rest[i],
            first_rest[j],
        ) by {
            assert(first_rest[i] == first[i + 1] && first_rest[j] == first[j + 1]);
        }
        assert forall|i: int, j: int| 0 <= i < j < second_rest.len() implies entry_le(
            by,
            group_directories,
            second_rest[i],
            second_rest[j],
        ) by {
            assert(second_rest[i] == second[i + 1] && second_rest[j] == second[j + 1]);
        }
        assert forall|i: int, j: int|
            #![trigger first_rest[i], first_rest[j]]
            0 <= i < first_rest.len() && 0 <= j < first_rest.len() && entry_le(
                by,
                group_directories,
                first_rest[i],
                first_rest[j],
            ) && entry_le(
                by,
                group_directories,
                first_rest[j],
                first_rest[i],
            ) implies first_rest[i] == first_rest[j] by {
            assert(first_rest[i] == first[i + 1] && first_rest[j] == first[j + 1]);
        }
        lemma_sorted_is_unique(by, group_directories, first_rest, second_rest);
        assert(first =~= seq![head] + first_rest);
        assert(second =~= seq![other] + second_rest);
    }
}

/// The order in which the entries come does not matter: two listings of the
/// same entries are arranged alike, where the order tells the entries
/// apart.
pub proof fn lemma_input_order_does_not_matter(
    config: Config,
    first: Seq<ColoredEntry>,
    second: Seq<ColoredEntry>,
)
    requires
        first.to_multiset() == second.to_multiset(),
        told_apart(config.sort_by, config.group_directories_first, first),
    ensures
        arranged(config, first) == arranged(config, second),
{
    broadcast use vstd::seq_lib::group_to_multiset_ensures;

    let by = config.sort_by;
    let group = config.group_directories_first;
    let one = ordered(by, group, first);
    let two = ordered(by, group, second);
    lemma_ordered_is_sorted(by, group, first);
    lemma_ordered_is_sorted(by, group, second);
    lemma_ordered_is_permutation(by, group, first);
    lemma_ordered_is_permutation(by, group, second);
    assert forall|i: int, j: int|
        #![trigger one[i], one[j]]
        0 <= i < one.len() && 0 <= j < one.len() && entry_le(by, group, one[i], one[j])
            && entry_le(by, group, one[j], one[i]) implies one[i] == one[j] by {
        assert(one.contains(one[i]));
        assert(one.contains(one[j]));
        assert(first.to_multiset().count(one[i]) > 0);
        assert(first.to_multiset().count(one[j]) > 0);
        assert(first.contains(one[i]));
        assert(first.contains(one[j]));
        let a = choose|a: int| 0 <= a < first.len() && first[a] == one[i];
        let b = choose|b: int| 0 <= b < first.len() && first[b] == one[j];
        assert(first[a] == first[b]);
    }
    lemma_sorted_is_unique(by, group, one, two);
}

/// With directories grouped first and no reversal, every directory of the
/// arranged listing stands before every entry that is none.
pub proof fn lemma_directories_lead(config: Config, entries: Seq<ColoredEntry>, i: int, j: int)
    requires
        config.group_directories_first,
        !config.reverse,
        0 <= i < j < entries.len(),
        arranged(config, entries)[j].kind == Kind::Directory,
    ensures
        arranged(config, entries)[i].kind == Kind::Directory,
{
    let sorted = ordered(config.sort_by, true, entries);
    lemma_ordered_is_sorted(config.sort_by, true, entries);
    lemma_ordered_is_permutation(config.sort_by, true, entries);
    assert(entry_le(config.sort_by, true, sorted[i], sorted[j]));
}

/// With directories grouped first and the listing reversed, every directory
/// of the arranged listing stands behind every entry that is none: the group
/// stays together at the other end.
pub proof fn lemma_directories_trail(config: Config, entries: Seq<ColoredEntry>, i: int, j: int)
    requires
        config.group_directories_first,
        config.reverse,
        0 <= i < j < entries.len(),
        arranged(config, entries)[i].kind == Kind::Directory,
    ensures
        arranged(config, entries)[j].kind == Kind::Directory,
{
    let sorted = ordered(config.sort_by, true, entries);
    lemma_ordered_is_sorted(config.sort_by, true, entries);
    lemma_ordered_is_permutation(config.sort_by, true, entries);
    let n = sorted.len() as int;
    assert(sorted.reverse()[i] == sorted[n - 1 - i]);
    assert(sorted.reverse()[j] == sorted[n - 1 - j]);
    assert(entry_le(config.sort_by, true, sorted[n - 1 - j], sorted[n - 1 - i]));
}

} // verus!
