//! Turning the entries of a directory into lines of text: which entries are
//! listed, in which order, and in which layout.

pub mod multiline;
pub mod one_line;
pub mod one_per_line;
pub mod utils;

use crate::config::Config;
use crate::display::multiline::{grid, lens_of, separator_len, shown_columns, stands_for};
use crate::display::one_line::joined;
use crate::display::one_per_line::names_of;
use crate::display::utils::{allowed, is_allowed_filename};
use crate::entry::ColoredEntry;
use crate::kind::{classified, classify, Metadata};
use crate::sort::{arranged, sort_entries};
use crate::text::optional_view;
use vstd::prelude::*;
use vstd::string::*;

verus! {

/// Why a listing could not be laid out.
#[derive(Debug, Clone, Copy, PartialEq, Eq, Structural)]
pub enum DisplayError {
    /// The width of the terminal is not known, and the layout depends on it.
    WidthUnknown,
}

/// The layouts of a listing.
#[derive(Debug, Clone, Copy, PartialEq, Eq, Structural)]
pub enum Layout {
    /// One entry on each line.
    OnePerLine,
    /// One entry on each line, with its permissions, links, owner, group,
    /// size and time.
    LongListing,
    /// One line where the listing fits the terminal, else a grid.
    Columns,
}

/// The layout that `config` asks for: one entry on each line where that is
/// asked for, else the long listing where that is asked for, else columns.
pub open spec fn layout_of(config: Config) -> Layout {
    if config.one_per_line {
        Layout::OnePerLine
    } else if config.is_long_listing {
        Layout::LongListing
    } else {
        Layout::Columns
    }
}

/// One entry of a directory as it was read: its name, its extension, where it
/// is, and its metadata where they could be read.
pub struct DirectoryItem {
    pub name: String,
    pub extension: Option<String>,
    pub path: String,
    pub metadata: Option<Metadata>,
}

/// The first `upto` display widths, added up.
pub open spec fn lens_sum(lens: Seq<int>, upto: int) -> int
    decreases upto,
{
    if upto <= 0 {
        0
    } else {
        lens_sum(lens, upto - 1) + lens[upto - 1]
    }
}

/// The width of the listing on one line: every entry, and a separator
/// between every two.
pub open spec fn one_line_width(lens: Seq<int>, separator: int) -> int {
    lens_sum(lens, lens.len() as int) + (lens.len() - 1) * separator
}

/// The listing goes on one line: it is no wider than the terminal, or it is
/// a single entry, which is never broken up.
pub open spec fn on_one_line(config: Config, entries: Seq<ColoredEntry>) -> bool {
    entries.len() == 1 || one_line_width(lens_of(entries), separator_len(config) as int)
        <= config.term_width->0
}

/// The lines of a listing of `entries`, in this order, or nothing where the
/// layout depends on a width that is not known.
///
/// Where one entry is asked for on each line, that is what is shown, and no
/// width is needed. Otherwise the width of the terminal must be known,
/// whatever is listed, and decides: no entry gives no line, a listing that
/// fits goes on one line, any other into a grid.
pub open spec fn rendered(config: Config, entries: Seq<ColoredEntry>) -> Option<Seq<Seq<char>>> {
    if config.one_per_line {
        Some(names_of(entries))
    } else if config.term_width is None {
        None
    } else if entries.len() == 0 {
        Some(Seq::empty())
    } else if on_one_line(config, entries) {
        Some(seq![joined(entries, config.separator@)])
    } else {
        Some(grid(entries, shown_columns(config, entries), config.padding@, config.separator@))
    }
}

/// Without a known width, and unless one entry is asked for on each line,
/// there are no lines to give, whatever is listed.
pub proof fn lemma_unknown_width_is_surfaced(config: Config, entries: Seq<ColoredEntry>)
    requires
        !config.one_per_line,
        config.term_width is None,
    ensures
        rendered(config, entries) is None,
{
}

/// The items that are listed, in their order.
pub open spec fn kept(config: Config, items: Seq<DirectoryItem>) -> Seq<DirectoryItem>
    decreases items.len(),
{
    if items.len() == 0 {
        Seq::empty()
    } else {
        let before = kept(config, items.drop_last());
        if allowed(config, items.last().name@) {
            before.push(items.last())
        } else {
            before
        }
    }
}

/// `entries` are the entries of the items that are listed, one for each and
/// in their order.
pub open spec fn built_from(
    config: Config,
    items: Seq<DirectoryItem>,
    entries: Seq<ColoredEntry>,
) -> bool {
    let listed = kept(config, items);
    &&& entries.len() == listed.len()
    &&& forall|i: int|
        0 <= i < entries.len() ==> (#[trigger] entries[i]).made_from(
            listed[i].name@,
            optional_view(listed[i].extension),
            listed[i].path@,
            classified(listed[i].metadata),
            config,
        )
}

fn fits_one_line(entries: &Vec<ColoredEntry>, config: &Config) -> (fitting: bool)
    requires
        config.term_width is Some,
        entries@.len() > 0,
    ensures
        fitting == on_one_line(*config, entries@),
{
    let ghost lens = lens_of(entries@);
    let count = entries.len();
    if count == 1 {
        return true;
    }
    let width = match config.term_width {
        Some(width) => width,
        None => 0,
    };
    let separator = config.separator.as_str().len();
    let mut sum: Option<usize> = Some(0);
    let mut at: usize = 0;
    while at < count
        invariant
            at <= count,
            count == entries@.len(),
            lens == lens_of(entries@),
            lens_sum(lens, at as int) >= 0,
            stands_for(sum, lens_sum(lens, at as int)),
        decreases count - at,
    {
        sum = match sum {
            Some(value) => value.checked_add(entries[at].len()),
            None => None,
        };
        at = at + 1;
    }
    let total: Option<usize> = match (sum, separator.checked_mul(count - 1)) {
        (Some(names), Some(gaps)) => names.checked_add(gaps),
        _ => None,
    };
    proof {
        assert((lens.len() - 1) * separator == separator * (count - 1) && (lens.len() - 1)
            * separator >= 0) by (nonlinear_arith)
            requires
                lens.len() == count,
                count >= 1,
                separator >= 0,
        ;
        assert(stands_for(total, one_line_width(lens, separator as int)));
    }
    match total {
        Some(needed) => needed <= width,
        None => false,
    }
}

/// The lines of a listing of `entries`, in this order.
///
/// Fails exactly where the layout depends on the width of the terminal and
/// that width is not known: whenever no width is known and one entry on each
/// line is not asked for, also where nothing is listed.
pub fn render(entries: Vec<ColoredEntry>, config: &Config) -> (outcome: Result<
    Vec<String>,
    DisplayError,
>)
    ensures
        match outcome {
            Ok(lines) => rendered(*config, entries@) == Some(lines.deep_view()),
            Err(error) => rendered(*config, entries@) is None && error
                == DisplayError::WidthUnknown,
        },
        outcome is Err <==> !config.one_per_line && config.term_width is None,
{
    if config.one_per_line {
        return Ok(one_per_line::show(entries));
    }
    if config.term_width.is_none() {
        return Err(DisplayError::WidthUnknown);
    }
    if entries.len() == 0 {
        let lines: Vec<String> = Vec::new();
        assert(lines.deep_view() =~= Seq::<Seq<char>>::empty());
        return Ok(lines);
    }
    if fits_one_line(&entries, config) {
        let ghost whole = joined(entries@, config.separator@);
        let line = one_line::show(entries, config);
        let mut lines: Vec<String> = Vec::new();
        lines.push(line);
        assert(lines.deep_view() =~= seq![whole]);
        Ok(lines)
    } else {
        Ok(multiline::show(entries, config))
    }
}

/// The layout that `config` asks for.
pub fn choose_layout(config: &Config) -> (layout: Layout)
    ensures
        layout == layout_of(*config),
{
    if config.one_per_line {
        Layout::OnePerLine
    } else if config.is_long_listing {
        Layout::LongListing
    } else {
        Layout::Columns
    }
}

/// The entries of the items that are listed.
pub fn build_entries(config: &Config, items: &Vec<DirectoryItem>) -> (entries: Vec<ColoredEntry>)
    ensures
        built_from(*config, items@, entries@),
{
    let mut entries: Vec<ColoredEntry> = Vec::new();
    let mut at: usize = 0;
    while at < items.len()
        invariant
            at <= items.len(),
            built_from(*config, items@.take(at as int), entries@),
        decreases items.len() - at,
    {
        let item = &items[at];
        proof {
            let next = items@.take(at + 1);
            assert(next.drop_last() =~= items@.take(at as int));
            assert(next.last() == items@[at as int]);
        }
        if is_allowed_filename(config, item.name.as_str()) {
            let extension = match &item.extension {
                Some(ending) => Some(ending.clone()),
                None => None,
            };
            let entry = ColoredEntry::new(
                item.name.clone(),
                extension,
                item.path.clone(),
                classify(item.metadata),
                config,
            );
            entries.push(entry);
        }
        at = at + 1;
    }
    assert(items@.take(at as int) =~= items@);
    entries
}

/// The lines that list a directory: the entries of the items that are
/// listed, ordered and laid out as `config` asks.
///
/// Fails exactly where the layout depends on the width of the terminal and
/// that width is not known: whenever no width is known and one entry on each
/// line is not asked for, also where nothing is listed.
pub fn display_path(config: &Config, items: &Vec<DirectoryItem>) -> (outcome: Result<
    Vec<String>,
    DisplayError,
>)
    ensures
        exists|built: Seq<ColoredEntry>|
            #![auto]
            built_from(*config, items@, built) && match outcome {
                Ok(lines) => rendered(*config, arranged(*config, built)) == Some(
                    lines.deep_view(),
                ),
                Err(error) => rendered(*config, arranged(*config, built)) is None && error
                    == DisplayError::WidthUnknown,
            },
        outcome is Err <==> !config.one_per_line && config.term_width is None,
{
    let entries = build_entries(config, items);
    let ghost built = entries@;
    let sorted = sort_entries(config, entries);
    let outcome = render(sorted, config);
    proof {
        assert(built_from(*config, items@, built) && match outcome {
            Ok(lines) => rendered(*config, arranged(*config, built)) == Some(lines.deep_view()),
            Err(error) => rendered(*config, arranged(*config, built)) is None && error
                == DisplayError::WidthUnknown,
        });
    }
    outcome
}

} // verus!
