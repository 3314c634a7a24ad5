//! The long listing: permissions, links, owner, group, size and time of each
//! entry, as text.

use crate::config::{Config, SizeMeasurementUnit};
use crate::entry::ColoredEntry;
use crate::kind::Timestamp;
use crate::text::{decimal, optional_view, push_decimal, push_repeated, repeated};
use vstd::prelude::*;
use vstd::string::*;
use vstd::utf8::encode_utf8;

verus! {

/// The bits of a mode that name the type of the file.
pub const TYPE_MASK: u32 = 0o170000;

/// The time `secs` seconds after the epoch, written as `format` asks, where
/// there is such a time and `format` is a format.
pub uninterp spec fn formatted_time(secs: int, format: Seq<char>) -> Option<Seq<char>>;

/// Writes a time with `chrono`: `DateTime::from_timestamp` makes the time,
/// and `NaiveDateTime::format` with `DelayedFormat::write_to` writes it, in
/// universal time.
///
/// Trusted: the text depends on nothing but the seconds and the format, and
/// there is none where the seconds are out of range or the format is
/// refused.
#[verifier::external_body]
pub(crate) fn format_time(secs: i64, format: &str) -> (text: Option<String>)
    ensures
        optional_view(text) == formatted_time(secs as int, format@),
{
    let moment = chrono::DateTime::from_timestamp(secs, 0)?;
    let mut text = String::new();
    match moment.naive_utc().format(format).write_to(&mut text) {
        Ok(()) => Some(text),
        Err(_) => None,
    }
}

/// The number of decimal digits of `num`; zero has none.
pub open spec fn digits_in(num: nat) -> nat
    decreases num,
{
    if num == 0 {
        0
    } else {
        1 + digits_in(num / 10)
    }
}

/// The character that names the type of a file of mode `modes`.
pub open spec fn type_char(modes: u32) -> char {
    let kind = modes & 0o170000;
    if kind == 0o040000 {
        'd'
    } else if kind == 0o020000 {
        'c'
    } else if kind == 0o060000 {
        'b'
    } else if kind == 0o100000 {
        '-'
    } else if kind == 0o010000 {
        'p'
    } else if kind == 0o120000 {
        'l'
    } else if kind == 0o140000 {
        's'
    } else {
        '?'
    }
}

/// The three characters of one octal digit of permissions: read, write and
/// execute, each a dash where it is not granted.
pub open spec fn permission_text(digit: u32) -> Seq<char> {
    seq![
        if digit & 4 != 0 {
            'r'
        } else {
            '-'
        },
        if digit & 2 != 0 {
            'w'
        } else {
            '-'
        },
        if digit & 1 != 0 {
            'x'
        } else {
            '-'
        },
    ]
}

/// A mode as ten characters: the type of the file, and the permissions of
/// the owner, of the group and of everyone else.
pub open spec fn mode_text(modes: u32) -> Seq<char> {
    seq![type_char(modes)] + permission_text((modes >> 6) & 7) + permission_text((modes >> 3) & 7)
        + permission_text(modes & 7)
}

/// The size of a file in `unit`, where it fits the machine word.
pub open spec fn size_in(unit: SizeMeasurementUnit, bytes: usize) -> Option<usize> {
    match unit {
        SizeMeasurementUnit::Bytes => Some(bytes),
        SizeMeasurementUnit::Bits => if bytes * 8 <= usize::MAX {
            Some((bytes * 8) as usize)
        } else {
            None
        },
    }
}

/// The size of an entry as text: its size in `unit`, in decimal.
pub open spec fn size_text(unit: SizeMeasurementUnit, size: Option<usize>) -> Option<Seq<char>> {
    match size {
        Some(bytes) => match size_in(unit, bytes) {
            Some(amount) => Some(decimal(amount as nat)),
            None => None,
        },
        None => None,
    }
}

/// The time of the last change as text: none for an entry without such a
/// time or with one before the epoch.
pub open spec fn time_text(modified: Option<Timestamp>, format: Seq<char>) -> Option<Seq<char>> {
    match modified {
        Some(at) => if at.secs >= 0 {
            formatted_time(at.secs as int, format)
        } else {
            None
        },
        None => None,
    }
}

/// What the file system and the user database told of an entry for the long
/// listing.
pub struct Ownership {
    pub modes: u32,
    pub hard_link_count: u64,
    pub owner: Option<String>,
    pub group: Option<String>,
}

/// One line of the long listing.
pub struct LongListingEntry {
    pub inner: ColoredEntry,
    pub formatted_perms: String,
    pub hard_link_count: u64,
    pub formatted_size: Option<String>,
    pub owner: Option<String>,
    pub group: Option<String>,
    pub last_modified: Option<String>,
}

/// The widths of the columns of a long listing that differ from line to
/// line.
#[derive(Debug, Clone, Copy, PartialEq, Eq, Structural)]
pub struct ColumnWidths {
    pub links: usize,
    pub owner: usize,
    pub group: usize,
}

/// The number of decimal digits of `num`; zero has none.
pub fn numeral_amount(num: usize) -> (amount: usize)
    ensures
        amount == digits_in(num as nat),
{
    let mut rest = num;
    let mut amount: usize = 0;
    while rest >= 1
        invariant
            amount + digits_in(rest as nat) == digits_in(num as nat),
            amount <= num - rest,
        decreases rest,
    {
        rest = rest / 10;
        amount = amount + 1;
    }
    amount
}

fn push_permissions(out: &mut String, digit: u32)
    ensures
        final(out)@ == old(out)@ + permission_text(digit),
{
    proof {
        reveal_strlit("r");
        reveal_strlit("w");
        reveal_strlit("x");
        reveal_strlit("-");
    }
    let ghost before = out@;
    out.append(if digit & 4 != 0 {
        "r"
    } else {
        "-"
    });
    out.append(if digit & 2 != 0 {
        "w"
    } else {
        "-"
    });
    out.append(if digit & 1 != 0 {
        "x"
    } else {
        "-"
    });
    assert(out@ =~= before + permission_text(digit));
}

/// A mode as ten characters, as in `drwxr-xr-x`.
pub fn parse_modes(modes: u32) -> (text: String)
    ensures
        text@ == mode_text(modes),
{
    proof {
        reveal_strlit("d");
        reveal_strlit("c");
        reveal_strlit("b");
        reveal_strlit("-");
        reveal_strlit("p");
        reveal_strlit("l");
        reveal_strlit("s");
        reveal_strlit("?");
    }
    let kind = modes & TYPE_MASK;
    let file_type = if kind == 0o040000 {
        "d"
    } else if kind == 0o020000 {
        "c"
    } else if kind == 0o060000 {
        "b"
    } else if kind == 0o100000 {
        "-"
    } else if kind == 0o010000 {
        "p"
    } else if kind == 0o120000 {
        "l"
    } else if kind == 0o140000 {
        "s"
    } else {
        "?"
    };
    let mut text = String::from_str(file_type);
    assert(text@ =~= seq![type_char(modes)]);
    push_permissions(&mut text, (modes >> 6) & 7);
    push_permissions(&mut text, (modes >> 3) & 7);
    push_permissions(&mut text, modes & 7);
    text
}

fn format_size(unit: SizeMeasurementUnit, size: Option<usize>) -> (text: Option<String>)
    ensures
        optional_view(text) == size_text(unit, size),
{
    let amount = match size {
        Some(bytes) => match unit {
            SizeMeasurementUnit::Bytes => Some(bytes),
            SizeMeasurementUnit::Bits => bytes.checked_mul(8),
        },
        None => None,
    };
    match amount {
        Some(amount) => {
            let mut text = String::new();
            push_decimal(&mut text, amount);
            assert(text@ =~= decimal(amount as nat));
            Some(text)
        },
        None => None,
    }
}

impl LongListingEntry {
    /// The line of the long listing for `coloured_entry`.
    ///
    /// The permissions are written out, the size is given in the unit of
    /// `config`, and the time of the last change as `config` formats times.
    pub fn new(coloured_entry: ColoredEntry, ownership: Ownership, config: &Config) -> (line:
        LongListingEntry)
        ensures
            line.inner == coloured_entry,
            line.formatted_perms@ == mode_text(ownership.modes),
            line.hard_link_count == ownership.hard_link_count,
            optional_view(line.formatted_size) == size_text(
                config.unit_size,
                coloured_entry.size_bytes,
            ),
            line.owner == ownership.owner,
            line.group == ownership.group,
            optional_view(line.last_modified) == time_text(
                coloured_entry.modified_at,
                config.time_formatting@,
            ),
    {
        let last_modified = match coloured_entry.modified_at {
            Some(at) => if at.secs >= 0 {
                format_time(at.secs, config.time_formatting.as_str())
            } else {
                None
            },
            None => None,
        };
        let formatted_size = format_size(config.unit_size, coloured_entry.size_bytes);
        LongListingEntry {
            inner: coloured_entry,
            formatted_perms: parse_modes(ownership.modes),
            hard_link_count: ownership.hard_link_count,
            formatted_size,
            owner: ownership.owner,
            group: ownership.group,
            last_modified,
        }
    }
}

/// The length of an optional text in bytes, nothing where there is none.
pub open spec fn optional_len(text: Option<String>) -> usize {
    match text {
        Some(chars) => encode_utf8(chars@).len() as usize,
        None => 0,
    }
}

/// The larger of two widths.
pub open spec fn wider(left: int, right: int) -> int {
    if left >= right {
        left
    } else {
        right
    }
}

/// The widths that the first `upto` lines need: for the links the most
/// digits of a count, for owner and group the longest name in bytes.
pub open spec fn widths_of(lines: Seq<LongListingEntry>, upto: int) -> ColumnWidths
    decreases upto,
{
    if upto <= 0 || upto > lines.len() {
        ColumnWidths { links: 0, owner: 0, group: 0 }
    } else {
        let before = widths_of(lines, upto - 1);
        let line = lines[upto - 1];
        ColumnWidths {
            links: wider(
                before.links as int,
                digits_in(line.hard_link_count as usize as nat) as int,
            ) as usize,
            owner: wider(before.owner as int, optional_len(line.owner) as int) as usize,
            group: wider(before.group as int, optional_len(line.group) as int) as usize,
        }
    }
}

fn length_of(text: &Option<String>) -> (length: usize)
    ensures
        length == optional_len(*text),
{
    match text {
        Some(chars) => chars.as_str().len(),
        None => 0,
    }
}

/// The widths of the columns that a long listing of `lines` needs.
pub fn column_widths(lines: &Vec<LongListingEntry>) -> (widths: ColumnWidths)
    ensures
        widths == widths_of(lines@, lines@.len() as int),
{
    let mut widths = ColumnWidths { links: 0, owner: 0, group: 0 };
    let mut at: usize = 0;
    while at < lines.len()
        invariant
            at <= lines.len(),
            widths == widths_of(lines@, at as int),
        decreases lines.len() - at,
    {
        let line = &lines[at];
        let links = numeral_amount(line.hard_link_count as usize);
        let owner = length_of(&line.owner);
        let group = length_of(&line.group);
        widths = ColumnWidths {
            links: if widths.links >= links {
                widths.links
            } else {
                links
            },
            owner: if widths.owner >= owner {
                widths.owner
            } else {
                owner
            },
            group: if widths.group >= group {
                widths.group
            } else {
                group
            },
        };
        at = at + 1;
    }
    widths
}

/// A text of the long listing, or a question mark where there is none.
pub open spec fn text_or_unknown(text: Option<String>) -> Seq<char> {
    match text {
        Some(chars) => chars@,
        None => seq!['?'],
    }
}

/// The length of a text in bytes.
pub open spec fn byte_len(text: Seq<char>) -> usize {
    encode_utf8(text).len() as usize
}

/// A text of the long listing filled up with spaces behind it to `width`
/// bytes; a text that is longer stays as it is.
pub open spec fn left_aligned(text: Seq<char>, width: int) -> Seq<char> {
    text + repeated(seq![' '], width - byte_len(text))
}

/// A count in decimal with spaces before it, as many as its digits leave of
/// `width`.
pub open spec fn right_aligned(count: nat, width: int) -> Seq<char> {
    repeated(seq![' '], width - digits_in(count)) + decimal(count)
}

/// The text of one line of the long listing in columns of `widths`: the
/// permissions, the links, the owner, the group, the size, the time of the
/// last change and the styled name, a space between every two.
pub open spec fn line_text(line: LongListingEntry, widths: ColumnWidths) -> Seq<char> {
    line.formatted_perms@ + seq![' '] + right_aligned(
        line.hard_link_count as usize as nat,
        widths.links as int,
    ) + seq![' '] + left_aligned(text_or_unknown(line.owner), widths.owner as int) + seq![' ']
        + left_aligned(text_or_unknown(line.group), widths.group as int) + seq![' ']
        + text_or_unknown(line.formatted_size) + seq![' '] + text_or_unknown(line.last_modified)
        + seq![' '] + line.inner.formatted_name@
}

fn push_or_unknown(out: &mut String, text: &Option<String>) -> (length: usize)
    ensures
        final(out)@ == old(out)@ + text_or_unknown(*text),
        length == byte_len(text_or_unknown(*text)),
{
    proof {
        reveal_strlit("?");
    }
    match text {
        Some(chars) => {
            out.append(chars.as_str());
            chars.as_str().len()
        },
        None => {
            let unknown = "?";
            assert(unknown@ =~= seq!['?']);
            out.append(unknown);
            unknown.len()
        },
    }
}

fn push_left_aligned(out: &mut String, text: &Option<String>, width: usize)
    ensures
        final(out)@ == old(out)@ + left_aligned(text_or_unknown(*text), width as int),
{
    proof {
        reveal_strlit(" ");
    }
    let ghost before = out@;
    let length = push_or_unknown(out, text);
    let room = if width > length {
        width - length
    } else {
        0
    };
    let space = " ";
    assert(space@ =~= seq![' ']);
    push_repeated(out, space, room);
    proof {
        assert(repeated(seq![' '], width - length) == repeated(seq![' '], room as int));
        assert(out@ =~= before + left_aligned(text_or_unknown(*text), width as int));
    }
}

impl LongListingEntry {
    /// The text of the line in columns of `widths`.
    pub fn line(&self, widths: &ColumnWidths) -> (text: String)
        ensures
            text@ == line_text(*self, *widths),
    {
        proof {
            reveal_strlit(" ");
        }
        let space = " ";
        assert(space@ =~= seq![' ']);
        let links = self.hard_link_count as usize;
        let digits = numeral_amount(links);
        let room = if widths.links > digits {
            widths.links - digits
        } else {
            0
        };
        let mut text = String::new();
        text.append(self.formatted_perms.as_str());
        text.append(space);
        push_repeated(&mut text, space, room);
        push_decimal(&mut text, links);
        proof {
            assert(repeated(seq![' '], widths.links - digits) == repeated(
                seq![' '],
                room as int,
            ));
            assert(text@ =~= self.formatted_perms@ + seq![' '] + right_aligned(
                links as nat,
                widths.links as int,
            ));
        }
        text.append(space);
        push_left_aligned(&mut text, &self.owner, widths.owner);
        text.append(space);
        push_left_aligned(&mut text, &self.group, widths.group);
        text.append(space);
        let _ = push_or_unknown(&mut text, &self.formatted_size);
        text.append(space);
        let _ = push_or_unknown(&mut text, &self.last_modified);
        text.append(space);
        text.append(self.inner.formatted_name.as_str());
        assert(text@ =~= line_text(*self, *widths));
        text
    }
}

} // verus!
