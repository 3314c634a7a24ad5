//! The settings of a listing.

use crate::kind::Kind;
use crate::pattern::Pattern;
use crate::text::optional_view;
use vstd::prelude::*;
use vstd::string::*;

verus! {

/// The largest sum that three channels can reach.
pub const MAX_RGB_SUM: usize = 765;

/// The channel sum below which colours are brightened, unless another is
/// asked for.
pub const DEFAULT_RGB_SUM: usize = 512;

/// The field by which entries are ordered.
#[derive(Debug, Clone, Copy, PartialEq, Eq, Structural)]
pub enum SortingReference {
    Default,
    Name,
    Size,
    Extension,
    CreationDate,
    AccessDate,
    ModificationDate,
    Colour,
}

/// The unit in which sizes are shown.
#[derive(Debug, Clone, Copy, PartialEq, Eq, Structural)]
pub enum SizeMeasurementUnit {
    Bytes,
    Bits,
}

/// A decoration for the names of each kind of entry.
#[derive(Debug)]
pub struct AddedStr {
    pub files: Option<String>,
    pub directories: Option<String>,
    pub executables: Option<String>,
    pub symlinks: Option<String>,
    pub unknowns: Option<String>,
}

/// The settings of a listing. They are made once and read from then on.
pub struct Config {
    pub titles: Vec<u8>,
    pub files: Vec<u8>,
    pub directories: Vec<u8>,
    pub executables: Vec<u8>,
    pub symlinks: Vec<u8>,
    pub unknowns: Vec<u8>,
    pub prefix: AddedStr,
    pub suffix: AddedStr,
    pub color_seed: usize,
    pub minimal_rgb_sum: usize,
    pub one_per_line: bool,
    pub is_long_listing: bool,
    pub time_formatting: String,
    pub unit_size: SizeMeasurementUnit,
    pub sort_by: SortingReference,
    pub group_directories_first: bool,
    pub reverse: bool,
    pub separator: String,
    pub padding: String,
    pub show_dotfiles: bool,
    pub show_backups: bool,
    pub recursive: bool,
    pub follow_symlinks: bool,
    pub include_pattern: Option<Pattern>,
    pub exclude_pattern: Option<Pattern>,
    pub term_width: Option<usize>,
}

impl AddedStr {
    /// The decoration for entries of `kind`.
    pub open spec fn of(self, kind: Kind) -> Option<Seq<char>> {
        match kind {
            Kind::File => optional_view(self.files),
            Kind::Directory => optional_view(self.directories),
            Kind::Executable => optional_view(self.executables),
            Kind::Symlink => optional_view(self.symlinks),
            Kind::Unknown => optional_view(self.unknowns),
        }
    }

    /// No decoration for any kind.
    pub open spec fn is_bare(self) -> bool {
        forall|kind: Kind| self.of(kind) is None
    }

    /// The decoration for entries of `kind`.
    pub fn for_kind(&self, kind: Kind) -> (text: &Option<String>)
        ensures
            optional_view(*text) == self.of(kind),
    {
        match kind {
            Kind::File => &self.files,
            Kind::Directory => &self.directories,
            Kind::Executable => &self.executables,
            Kind::Symlink => &self.symlinks,
            Kind::Unknown => &self.unknowns,
        }
    }

    /// No decoration for any kind.
    pub fn bare() -> (added: AddedStr)
        ensures
            added.is_bare(),
    {
        let added = AddedStr {
            files: None,
            directories: None,
            executables: None,
            symlinks: None,
            unknowns: None,
        };
        assert forall|kind: Kind| added.of(kind) is None by {
            match kind {
                Kind::File => {},
                Kind::Directory => {},
                Kind::Executable => {},
                Kind::Symlink => {},
                Kind::Unknown => {},
            }
        }
        added
    }
}

impl Default for AddedStr {
    fn default() -> (added: AddedStr)
        ensures
            added.is_bare(),
    {
        AddedStr::bare()
    }
}

impl Config {
    /// The style codes for entries of `kind`.
    pub open spec fn codes_of(self, kind: Kind) -> Seq<u8> {
        match kind {
            Kind::File => self.files@,
            Kind::Directory => self.directories@,
            Kind::Executable => self.executables@,
            Kind::Symlink => self.symlinks@,
            Kind::Unknown => self.unknowns@,
        }
    }

    /// The style codes for entries of `kind`.
    pub fn codes_for(&self, kind: Kind) -> (codes: &Vec<u8>)
        ensures
            codes@ == self.codes_of(kind),
    {
        match kind {
            Kind::File => &self.files,
            Kind::Directory => &self.directories,
            Kind::Executable => &self.executables,
            Kind::Symlink => &self.symlinks,
            Kind::Unknown => &self.unknowns,
        }
    }

    /// The settings of a listing for which nothing was asked: executables in
    /// bold, symbolic links underlined, unknown entries in italics, a slash
    /// behind directories, colours brightened to a channel sum of 512, two
    /// spaces between columns and one space as padding.
    pub fn new(color_seed: usize, term_width: Option<usize>) -> (config: Config)
        ensures
            config.titles@ == Seq::<u8>::empty(),
            config.codes_of(Kind::File) == Seq::<u8>::empty(),
            config.codes_of(Kind::Directory) == Seq::<u8>::empty(),
            config.codes_of(Kind::Executable) == seq![1u8],
            config.codes_of(Kind::Symlink) == seq![4u8],
            config.codes_of(Kind::Unknown) == seq![3u8],
            config.prefix.is_bare(),
            forall|kind: Kind|
                kind != Kind::Directory ==> (#[trigger] config.suffix.of(kind)) is None,
            config.suffix.of(Kind::Directory) == Some(seq!['/']),
            config.color_seed == color_seed,
            config.minimal_rgb_sum == DEFAULT_RGB_SUM,
            !config.one_per_line,
            !config.is_long_listing,
            config.time_formatting@ == "%b %m %H:%M"@,
            config.unit_size == SizeMeasurementUnit::Bytes,
            config.sort_by == SortingReference::Default,
            !config.group_directories_first,
            !config.reverse,
            config.separator@ == seq![' ', ' '],
            config.padding@ == seq![' '],
            !config.show_dotfiles,
            !config.show_backups,
            !config.recursive,
            !config.follow_symlinks,
            config.include_pattern is None,
            config.exclude_pattern is None,
            config.term_width == term_width,
    {
        proof {
            reveal_strlit("/");
            reveal_strlit("  ");
            reveal_strlit(" ");
        }
        let mut executables: Vec<u8> = Vec::new();
        executables.push(1);
        let mut symlinks: Vec<u8> = Vec::new();
        symlinks.push(4);
        let mut unknowns: Vec<u8> = Vec::new();
        unknowns.push(3);
        let suffix = AddedStr {
            files: None,
            directories: Some(String::from_str("/")),
            executables: None,
            symlinks: None,
            unknowns: None,
        };
        let separator = String::from_str("  ");
        let padding = String::from_str(" ");
        assert(suffix.directories->0@ =~= seq!['/']);
        assert(separator@ =~= seq![' ', ' ']);
        assert(padding@ =~= seq![' ']);
        assert(executables@ =~= seq![1u8]);
        assert(symlinks@ =~= seq![4u8]);
        assert(unknowns@ =~= seq![3u8]);
        let config = Config {
            titles: Vec::new(),
            files: Vec::new(),
            directories: Vec::new(),
            executables,
            symlinks,
            unknowns,
            prefix: AddedStr::bare(),
            suffix,
            color_seed,
            minimal_rgb_sum: DEFAULT_RGB_SUM,
            one_per_line: false,
            is_long_listing: false,
            time_formatting: String::from_str("%b %m %H:%M"),
            unit_size: SizeMeasurementUnit::Bytes,
            sort_by: SortingReference::Default,
            group_directories_first: false,
            reverse: false,
            separator,
            padding,
            show_dotfiles: false,
            show_backups: false,
            recursive: false,
            follow_symlinks: false,
            include_pattern: None,
            exclude_pattern: None,
            term_width,
        };
        assert forall|kind: Kind| kind != Kind::Directory implies (#[trigger] config.suffix.of(
            kind,
        )) is None by {
            match kind {
                Kind::File => {},
                Kind::Directory => {},
                Kind::Executable => {},
                Kind::Symlink => {},
                Kind::Unknown => {},
            }
        }
        config
    }
}

} // verus!
