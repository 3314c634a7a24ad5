//! The listing as a grid: entries run down each column, and the grid has as
//! many columns as fit the width of the terminal.
//!
//! The search tries every number of columns below the number of entries, and
//! measures every column for each: its cost grows with the square of the
//! number of entries.

use crate::config::Config;
use crate::entry::ColoredEntry;
use crate::text::{push_repeated, repeated};
use vstd::prelude::*;
use vstd::string::*;
use vstd::utf8::encode_utf8;

verus! {

/// The display widths of the entries, one by one.
pub open spec fn lens_of(entries: Seq<ColoredEntry>) -> Seq<int> {
    Seq::new(entries.len(), |i: int| entries[i].len as int)
}

/// The room that the separator takes between two columns: the number of its
/// bytes.
pub open spec fn separator_len(config: Config) -> usize {
    encode_utf8(config.separator@).len() as usize
}

/// The number of rows of a grid of `columns` columns for `count` entries.
pub open spec fn rows_for(count: int, columns: int) -> int {
    count / columns + 1
}

/// The largest of `lens` from position `from` up to, not including, `to`;
/// 0 where there is none.
pub open spec fn widest_in(lens: Seq<int>, from: int, to: int) -> int
    decreases to - from,
{
    if to <= from {
        0
    } else {
        let rest = widest_in(lens, from, to - 1);
        if 0 <= to - 1 < lens.len() && lens[to - 1] > rest {
            lens[to - 1]
        } else {
            rest
        }
    }
}

/// The position of the first entry of a column.
pub open spec fn column_start(count: int, columns: int, column: int) -> int {
    column * rows_for(count, columns)
}

/// The position behind the last entry of a column.
pub open spec fn column_end(count: int, columns: int, column: int) -> int {
    let end = column_start(count, columns, column) + rows_for(count, columns);
    if end < count {
        end
    } else {
        count
    }
}

/// The width of a column: the largest display width among its entries.
pub open spec fn column_width(lens: Seq<int>, columns: int, column: int) -> int {
    widest_in(
        lens,
        column_start(lens.len() as int, columns, column),
        column_end(lens.len() as int, columns, column),
    )
}

/// The widths of the first `upto` columns, added up.
pub open spec fn widths_sum(lens: Seq<int>, columns: int, upto: int) -> int
    decreases upto,
{
    if upto <= 0 {
        0
    } else {
        widths_sum(lens, columns, upto - 1) + column_width(lens, columns, upto - 1)
    }
}

/// The width of a grid of `columns` columns: its columns and the separators
/// between them.
pub open spec fn total_width(lens: Seq<int>, columns: int, separator: int) -> int {
    widths_sum(lens, columns, columns) + (columns - 1) * separator
}

/// A grid of `columns` columns is no wider than `width`.
pub open spec fn fits(lens: Seq<int>, separator: int, width: int, columns: int) -> bool {
    total_width(lens, columns, separator) <= width
}

/// The largest number of columns below `below`, and at least 1, whose grid
/// fits `width`; 0 where none does.
pub open spec fn best_columns(lens: Seq<int>, separator: int, width: int, below: int) -> int
    decreases below,
{
    if below <= 1 {
        0
    } else if fits(lens, separator, width, below - 1) {
        below - 1
    } else {
        best_columns(lens, separator, width, below - 1)
    }
}

/// No display width is negative.
pub open spec fn all_natural(lens: Seq<int>) -> bool {
    forall|i: int| 0 <= i < lens.len() ==> lens[i] >= 0
}

/// The largest of a range is no less than 0 and no less than any width in
/// the range.
pub proof fn lemma_widest_bounds(lens: Seq<int>, from: int, to: int, at: int)
    ensures
        widest_in(lens, from, to) >= 0,
        from <= at < to && 0 <= at < lens.len() ==> widest_in(lens, from, to) >= lens[at],
    decreases to - from,
{
    if to > from {
        lemma_widest_bounds(lens, from, to - 1, at);
    }
}

/// No sum of column widths is negative, and a longer sum is no smaller.
pub proof fn lemma_widths_sum_grows(lens: Seq<int>, columns: int, shorter: int, longer: int)
    requires
        shorter <= longer,
    ensures
        0 <= widths_sum(lens, columns, shorter) <= widths_sum(lens, columns, longer),
    decreases longer,
{
    if longer > 0 {
        lemma_widest_bounds(
            lens,
            column_start(lens.len() as int, columns, longer - 1),
            column_end(lens.len() as int, columns, longer - 1),
            0,
        );
        if shorter < longer {
            lemma_widths_sum_grows(lens, columns, shorter, longer - 1);
        } else {
            lemma_widths_sum_grows(lens, columns, shorter - 1, longer - 1);
        }
    }
}

/// The number of columns found is the largest that fits: it fits itself,
/// lies below `below`, and no number of columns between it and `below` fits.
pub proof fn lemma_best_columns_is_largest(
    lens: Seq<int>,
    separator: int,
    width: int,
    below: int,
    columns: int,
)
    ensures
        0 <= best_columns(lens, separator, width, below),
        below >= 1 ==> best_columns(lens, separator, width, below) < below,
        best_columns(lens, separator, width, below) > 0 ==> fits(
            lens,
            separator,
            width,
            best_columns(lens, separator, width, below),
        ),
        1 <= columns < below && fits(lens, separator, width, columns) ==> columns <= best_columns(
            lens,
            separator,
            width,
            below,
        ),
    decreases below,
{
    if below > 1 {
        lemma_best_columns_is_largest(lens, separator, width, below - 1, columns);
    }
}

/// The width of one column of a grid of `num_columns` columns.
pub fn get_column_length(entries: &Vec<ColoredEntry>, num_columns: usize, column: usize) -> (width:
    usize)
    requires
        num_columns > 0,
    ensures
        width == column_width(lens_of(entries@), num_columns as int, column as int),
{
    let ghost lens = lens_of(entries@);
    let count = entries.len();
    let full = count / num_columns;
    let ghost rows = rows_for(count as int, num_columns as int);
    let ghost first = column_start(count as int, num_columns as int, column as int);
    let ghost last = column_end(count as int, num_columns as int, column as int);
    let start_within: Option<usize> = if column == 0 {
        Some(0)
    } else {
        match full.checked_add(1) {
            Some(span) => span.checked_mul(column),
            None => None,
        }
    };
    proof {
        assert(rows == full + 1);
        assert(first == rows * column && (column >= 1 ==> first >= rows) && (column == 0
            ==> first == 0)) by (nonlinear_arith)
            requires
                first == column * rows,
                rows >= 1,
                column >= 0,
        ;
    }
    match start_within {
        None => {
            proof {
                assert(first > count);
            }
            0
        },
        Some(start) => {
            if start >= count {
                0
            } else {
                let remaining = count - start;
                let end = if full >= remaining - 1 {
                    count
                } else {
                    start + full + 1
                };
                assert(end == last);
                let mut widest: usize = 0;
                let mut i: usize = start;
                while i < end
                    invariant
                        start <= i <= end <= count,
                        count == entries@.len(),
                        lens == lens_of(entries@),
                        widest == widest_in(lens, start as int, i as int),
                    decreases end - i,
                {
                    let len = entries[i].len();
                    if len > widest {
                        widest = len;
                    }
                    i = i + 1;
                }
                widest
            }
        },
    }
}

/// A sum that may have gone beyond the machine word stands for `exact`.
pub open spec fn stands_for(sum: Option<usize>, exact: int) -> bool {
    match sum {
        Some(value) => value == exact,
        None => exact > usize::MAX,
    }
}

fn add_within(sum: Option<usize>, more: usize) -> (total: Option<usize>)
    ensures
        forall|exact: int| stands_for(sum, exact) ==> stands_for(total, exact + more),
{
    match sum {
        Some(value) => value.checked_add(more),
        None => None,
    }
}

/// The widths of the columns of the grid with the most columns that fits the
/// width of the terminal, or no widths where no grid fits. Grids of one
/// column up to one column less than there are entries are tried.
pub fn get_column_lengths(config: &Config, entries: &Vec<ColoredEntry>) -> (best: Vec<usize>)
    requires
        config.term_width is Some,
    ensures
        best@.len() == best_columns(
            lens_of(entries@),
            separator_len(*config) as int,
            config.term_width->0 as int,
            entries@.len() as int,
        ),
        forall|i: int|
            0 <= i < best@.len() ==> best@[i] == column_width(
                lens_of(entries@),
                best@.len() as int,
                i,
            ),
{
    let ghost lens = lens_of(entries@);
    let width = match config.term_width {
        Some(width) => width,
        None => 0,
    };
    let separator = config.separator.as_str().len();
    let count = entries.len();
    let mut best: Vec<usize> = Vec::new();
    let mut num_columns: usize = 1;
    while num_columns < count
        invariant
            1 <= num_columns,
            num_columns <= count || (count == 0 && num_columns == 1),
            count == entries@.len(),
            lens == lens_of(entries@),
            separator == separator_len(*config),
            best@.len() == best_columns(lens, separator as int, width as int, num_columns as int),
            forall|i: int|
                0 <= i < best@.len() ==> best@[i] == column_width(lens, best@.len() as int, i),
        decreases count - num_columns,
    {
        let mut column_lengths: Vec<usize> = Vec::new();
        let mut sum: Option<usize> = Some(0);
        let mut column: usize = 0;
        while column < num_columns
            invariant
                column <= num_columns,
                num_columns > 0,
                lens == lens_of(entries@),
                column_lengths@.len() == column,
                forall|i: int|
                    0 <= i < column ==> column_lengths@[i] == column_width(
                        lens,
                        num_columns as int,
                        i,
                    ),
                stands_for(sum, widths_sum(lens, num_columns as int, column as int)),
            decreases num_columns - column,
        {
            let column_length = get_column_length(entries, num_columns, column);
            column_lengths.push(column_length);
            sum = add_within(sum, column_length);
            column = column + 1;
        }
        let gaps = separator.checked_mul(num_columns - 1);
        let total: Option<usize> = match gaps {
            Some(room) => add_within(sum, room),
            None => None,
        };
        proof {
            lemma_widths_sum_grows(lens, num_columns as int, 0, num_columns as int);
            assert(stands_for(total, total_width(lens, num_columns as int, separator as int)));
        }
        let fit = match total {
            Some(needed) => needed <= width,
            None => false,
        };
        if fit {
            best = column_lengths;
        }
        num_columns = num_columns + 1;
    }
    proof {
        if count == 0 {
            assert(best_columns(lens, separator as int, width as int, 0) == 0);
            assert(best_columns(lens, separator as int, width as int, 1) == 0);
        }
    }
    best
}

/// The text of one entry in a column of width `width`: its styled name, and
/// the padding that fills what its display width leaves of the column.
pub open spec fn cell(entry: ColoredEntry, width: int, padding: Seq<char>) -> Seq<char> {
    entry.formatted_name@ + repeated(padding, width - entry.len)
}

/// The rest of a row of a grid of `columns` columns, from the entry at
/// position `at` in column `column` on: each entry in its cell, the
/// separator between two cells, and nothing behind the last.
pub open spec fn row_from(
    entries: Seq<ColoredEntry>,
    columns: int,
    at: int,
    column: int,
    padding: Seq<char>,
    separator: Seq<char>,
) -> Seq<char>
    decreases entries.len() - at,
{
    let rows = rows_for(entries.len() as int, columns);
    if at < 0 || at >= entries.len() || rows <= 0 || column >= columns {
        Seq::empty()
    } else {
        let this = cell(entries[at], column_width(lens_of(entries), columns, column), padding);
        if at + rows < entries.len() && column + 1 < columns {
            this + separator + row_from(
                entries,
                columns,
                at + rows,
                column + 1,
                padding,
                separator,
            )
        } else {
            this
        }
    }
}

/// The lines of a grid of `columns` columns: row after row, each starting
/// with the entry whose position is the number of the row.
pub open spec fn grid(
    entries: Seq<ColoredEntry>,
    columns: int,
    padding: Seq<char>,
    separator: Seq<char>,
) -> Seq<Seq<char>> {
    Seq::new(
        rows_for(entries.len() as int, columns) as nat,
        |row: int| row_from(entries, columns, row, 0, padding, separator),
    )
}

/// The number of columns of the grid that is shown: the largest that fits
/// the terminal, and a single column where none fits.
pub open spec fn shown_columns(config: Config, entries: Seq<ColoredEntry>) -> int {
    let best = best_columns(
        lens_of(entries),
        separator_len(config) as int,
        config.term_width->0 as int,
        entries.len() as int,
    );
    if best == 0 {
        1
    } else {
        best
    }
}

fn row_line(
    entries: &Vec<ColoredEntry>,
    widths: &Vec<usize>,
    row: usize,
    padding: &str,
    separator: &str,
) -> (line: String)
    requires
        widths@.len() > 0,
        forall|i: int|
            0 <= i < widths@.len() ==> widths@[i] == column_width(
                lens_of(entries@),
                widths@.len() as int,
                i,
            ),
    ensures
        line@ == row_from(entries@, widths@.len() as int, row as int, 0, padding@, separator@),
{
    let count = entries.len();
    let columns = widths.len();
    let full = count / columns;
    let ghost whole = row_from(entries@, columns as int, row as int, 0, padding@, separator@);
    let mut line = String::new();
    let mut at: usize = row;
    let mut column: usize = 0;
    let mut finished = row >= count;
    assert(line@ + whole =~= whole);
    while !finished
        invariant
            count == entries@.len(),
            columns == widths@.len(),
            columns > 0,
            full == count / columns,
            forall|i: int|
                0 <= i < widths@.len() ==> widths@[i] == column_width(
                    lens_of(entries@),
                    widths@.len() as int,
                    i,
                ),
            finished ==> line@ == whole,
            !finished ==> at < count && column < columns && line@ + row_from(
                entries@,
                columns as int,
                at as int,
                column as int,
                padding@,
                separator@,
            ) == whole,
        decreases count - at + (if finished { 0int } else { 1int }),
    {
        let ghost before = line@;
        let ghost rest = row_from(
            entries@,
            columns as int,
            at as int,
            column as int,
            padding@,
            separator@,
        );
        let entry = &entries[at];
        let width = widths[column];
        line.append(entry.formatted_name.as_str());
        let room = if width > entry.len() {
            width - entry.len()
        } else {
            0
        };
        push_repeated(&mut line, padding, room);
        proof {
            assert(repeated(padding@, width - entry.len) == repeated(padding@, room as int));
            assert(line@ =~= before + cell(*entry, width as int, padding@));
        }
        if count - at - 1 > full && column + 1 < columns {
            line.append(separator);
            proof {
                let next = row_from(
                    entries@,
                    columns as int,
                    at + full + 1,
                    column + 1,
                    padding@,
                    separator@,
                );
                assert(rest == cell(*entry, width as int, padding@) + separator@ + next);
                assert(line@ + next =~= before + rest);
            }
            at = at + full + 1;
            column = column + 1;
        } else {
            proof {
                assert(rest == cell(*entry, width as int, padding@));
            }
            finished = true;
        }
    }
    line
}

/// The lines of the listing as a grid with the most columns that fit the
/// width of the terminal, or with one column where even that is too wide:
/// nothing is cut off. Entries run down the columns; each is padded to the
/// width of its column, and the separator stands between two columns. The
/// grid has one row more than the entries fill evenly, so that a grid of a
/// single column ends with an empty row.
pub fn show(entries: Vec<ColoredEntry>, config: &Config) -> (lines: Vec<String>)
    requires
        config.term_width is Some,
    ensures
        lines.deep_view() == grid(
            entries@,
            shown_columns(*config, entries@),
            config.padding@,
            config.separator@,
        ),
{
    let found = get_column_lengths(config, &entries);
    let widths = if found.len() == 0 {
        let mut single: Vec<usize> = Vec::new();
        single.push(get_column_length(&entries, 1, 0));
        single
    } else {
        found
    };
    let count = entries.len();
    let columns = widths.len();
    let full = count / columns;
    let ghost target = grid(entries@, columns as int, config.padding@, config.separator@);
    let mut lines: Vec<String> = Vec::new();
    let mut row: usize = 0;
    let mut finished = false;
    while !finished
        invariant
            count == entries@.len(),
            columns == widths@.len(),
            columns > 0,
            full == count / columns,
            columns == shown_columns(*config, entries@),
            target == grid(entries@, columns as int, config.padding@, config.separator@),
            forall|i: int|
                0 <= i < widths@.len() ==> widths@[i] == column_width(
                    lens_of(entries@),
                    widths@.len() as int,
                    i,
                ),
            row <= full,
            !finished ==> lines@.len() == row,
            finished ==> lines@.len() == full + 1,
            forall|i: int| 0 <= i < lines@.len() ==> (#[trigger] lines@[i])@ == target[i],
        decreases full - row + (if finished { 0int } else { 1int }),
    {
        let line = row_line(
            &entries,
            &widths,
            row,
            config.padding.as_str(),
            config.separator.as_str(),
        );
        lines.push(line);
        if row == full {
            finished = true;
        } else {
            row = row + 1;
        }
    }
    assert(lines.deep_view() =~= target);
    lines
}

/// Every entry has its cell in the grid: the entry at position `at` stands
/// in row `at % rows` of column `at / rows`, and that column is one of the
/// grid.
pub proof fn lemma_every_entry_has_a_cell(count: int, columns: int, at: int)
    requires
        columns >= 1,
        0 <= at < count,
    ensures
        0 <= at % rows_for(count, columns) < rows_for(count, columns),
        0 <= at / rows_for(count, columns) < columns,
        at == at % rows_for(count, columns) + (at / rows_for(count, columns)) * rows_for(
            count,
            columns,
        ),
        column_start(count, columns, at / rows_for(count, columns)) <= at < column_end(
            count,
            columns,
            at / rows_for(count, columns),
        ),
{
    let rows = rows_for(count, columns);
    assert(rows >= 1 && rows * columns > count) by (nonlinear_arith)
        requires
            rows == count / columns + 1,
            columns >= 1,
            count >= 0,
    ;
    let column = at / rows;
    vstd::arithmetic::div_mod::lemma_fundamental_div_mod(at, rows);
    assert(0 <= at % rows < rows);
    assert(at == rows * column + at % rows);
    assert(column >= 0 && column < columns && column * rows == rows * column && column * rows
        + rows > at) by (nonlinear_arith)
        requires
            at == rows * column + at % rows,
            0 <= at % rows < rows,
            at < count,
            0 <= at,
            rows * columns > count,
            rows >= 1,
            columns >= 1,
    ;
}

/// The display width of a cell: that of its column, or that of its entry
/// where the entry is wider.
pub open spec fn cell_width(len: int, width: int) -> int {
    if width > len {
        width
    } else {
        len
    }
}

/// The display width of the rest of a row, from the entry at position `at`
/// in column `column` on, where the padding is one cell wide.
pub open spec fn row_width_from(
    lens: Seq<int>,
    columns: int,
    at: int,
    column: int,
    separator: int,
) -> int
    decreases lens.len() - at,
{
    let rows = rows_for(lens.len() as int, columns);
    if at < 0 || at >= lens.len() || rows <= 0 || column >= columns {
        0
    } else {
        let this = cell_width(lens[at], column_width(lens, columns, column));
        if at + rows < lens.len() && column + 1 < columns {
            this + separator + row_width_from(lens, columns, at + rows, column + 1, separator)
        } else {
            this
        }
    }
}

/// What is left of a row from some column on is no wider than the columns
/// from there on with the separators between them.
pub proof fn lemma_row_rest_fits(
    lens: Seq<int>,
    columns: int,
    row: int,
    column: int,
    separator: int,
)
    requires
        all_natural(lens),
        separator >= 0,
        columns >= 1,
        0 <= column < columns,
        0 <= row < rows_for(lens.len() as int, columns),
    ensures
        row_width_from(
            lens,
            columns,
            row + column * rows_for(lens.len() as int, columns),
            column,
            separator,
        ) <= widths_sum(lens, columns, columns) - widths_sum(lens, columns, column) + (columns - 1
            - column) * separator,
    decreases columns - column,
{
    let count = lens.len() as int;
    let rows = rows_for(count, columns);
    let at = row + column * rows;
    let width = column_width(lens, columns, column);
    lemma_widths_sum_grows(lens, columns, column + 1, columns);
    assert(widths_sum(lens, columns, column + 1) == widths_sum(lens, columns, column) + width);
    assert((columns - 1 - column) * separator >= 0 && (columns - 1 - column) * separator
        == separator + (columns - 2 - column) * separator) by (nonlinear_arith)
        requires
            columns - 1 - column >= 0,
            separator >= 0,
    ;
    assert(rows >= 1 && column * rows >= 0 && (column + 1) * rows == column * rows + rows)
        by (nonlinear_arith)
        requires
            rows == count / columns + 1,
            count >= 0,
            columns >= 1,
            column >= 0,
    ;
    if at < count {
        lemma_widest_bounds(
            lens,
            column_start(count, columns, column),
            column_end(count, columns, column),
            at,
        );
        assert(lens[at] <= width);
        if at + rows < count && column + 1 < columns {
            lemma_row_rest_fits(lens, columns, row, column + 1, separator);
        }
    }
}

/// In a grid that fits the terminal no row is wider than the terminal.
pub proof fn lemma_rows_fit(lens: Seq<int>, columns: int, separator: int, width: int, row: int)
    requires
        all_natural(lens),
        separator >= 0,
        columns >= 1,
        fits(lens, separator, width, columns),
        0 <= row < rows_for(lens.len() as int, columns),
    ensures
        row_width_from(lens, columns, row, 0, separator) <= width,
{
    lemma_row_rest_fits(lens, columns, row, 0, separator);
    assert(0 * rows_for(lens.len() as int, columns) == 0);
}

} // verus!
