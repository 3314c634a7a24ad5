//! The settings that a command line asks for: each argument that was given
//! replaces one setting, and the first argument that cannot be read refuses
//! the whole command line.

use crate::config::{Config, SizeMeasurementUnit, SortingReference};
use crate::pattern::Pattern;
use crate::subparsers::{
    color_seed, formatting_args, minimal_rgb_sum, minimal_sum_of, number_within, padding,
    pattern_or_refusal, sort_by, sorting_reference_of, style_codes, unit_of, unit_size, width,
    ArgError,
};
use crate::text::{grapheme_count, lowercased, optional_view};
use vstd::prelude::*;
use vstd::string::*;
use vstd::utf8::encode_utf8;

verus! {

/// The arguments of a command line, each as the text that was given for it.
pub struct Arguments {
    pub one_per_line: bool,
    pub long_listing: bool,
    pub group_directories_first: bool,
    pub reverse: bool,
    pub show_dotfiles: bool,
    pub show_backups: bool,
    pub recursive: bool,
    pub follow_symlinks: bool,
    pub titles: Option<String>,
    pub files: Option<String>,
    pub directories: Option<String>,
    pub executables: Option<String>,
    pub symlinks: Option<String>,
    pub unknowns: Option<String>,
    pub files_prefix: Option<String>,
    pub directories_prefix: Option<String>,
    pub executables_prefix: Option<String>,
    pub symlinks_prefix: Option<String>,
    pub unknowns_prefix: Option<String>,
    pub files_suffix: Option<String>,
    pub directories_suffix: Option<String>,
    pub executables_suffix: Option<String>,
    pub symlinks_suffix: Option<String>,
    pub unknowns_suffix: Option<String>,
    pub color_seed: Option<String>,
    pub minimal_sum: Option<String>,
    pub time_formatting: Option<String>,
    pub unit_size: Option<String>,
    pub sort_by: Option<String>,
    pub separator: Option<String>,
    pub padding: Option<String>,
    pub include_pattern: Option<String>,
    pub exclude_pattern: Option<String>,
    pub width: Option<String>,
}

/// An argument whose text can be refused.
#[derive(Debug, Clone, Copy, PartialEq, Eq, Structural)]
pub enum Flag {
    Titles,
    Files,
    Directories,
    Executables,
    Symlinks,
    Unknowns,
    ColorSeed,
    Sum,
    UnitSize,
    SortBy,
    Padding,
    IncludePattern,
    ExcludePattern,
    Width,
}

/// An argument that was refused, and why.
#[derive(Debug, Clone, Copy, PartialEq, Eq, Structural)]
pub struct Refusal {
    pub flag: Flag,
    pub error: ArgError,
}

/// What compiling the pattern of an argument gave, where the argument was
/// given.
pub type Compiled = Option<Result<Pattern, regex::Error>>;

/// The bytes of a text.
pub open spec fn bytes_of(text: String) -> Seq<u8> {
    encode_utf8(text@)
}

/// The refusal of `flag` where `error` holds one.
pub open spec fn refused(flag: Flag, error: Option<ArgError>) -> Option<Refusal> {
    match error {
        Some(error) => Some(Refusal { flag, error }),
        None => None,
    }
}

/// Why a text of style codes is refused, where it is.
pub open spec fn codes_error(argument: Option<String>) -> Option<ArgError> {
    match argument {
        Some(text) => match style_codes(bytes_of(text)) {
            Ok(_) => None,
            Err(error) => Some(error),
        },
        None => None,
    }
}

/// Why a seed is refused, where it is.
pub open spec fn seed_error(argument: Option<String>) -> Option<ArgError> {
    match argument {
        Some(text) => if number_within(bytes_of(text), usize::MAX as nat) is None {
            Some(ArgError::InvalidSeed)
        } else {
            None
        },
        None => None,
    }
}

/// Why a minimal sum is refused, where it is.
pub open spec fn sum_error(argument: Option<String>) -> Option<ArgError> {
    match argument {
        Some(text) => match minimal_sum_of(bytes_of(text)) {
            Ok(_) => None,
            Err(error) => Some(error),
        },
        None => None,
    }
}

/// Why a unit is refused, where it is.
pub open spec fn unit_error(argument: Option<String>) -> Option<ArgError> {
    match argument {
        Some(text) => if unit_of(lowercased(text@)) is None {
            Some(ArgError::InvalidUnit)
        } else {
            None
        },
        None => None,
    }
}

/// Why a sorting key is refused, where it is.
pub open spec fn key_error(argument: Option<String>) -> Option<ArgError> {
    match argument {
        Some(text) => if sorting_reference_of(lowercased(text@)) is None {
            Some(ArgError::InvalidSortKey)
        } else {
            None
        },
        None => None,
    }
}

/// Why a padding is refused, where it is.
pub open spec fn padding_error(argument: Option<String>) -> Option<ArgError> {
    match argument {
        Some(text) => if grapheme_count(text@) != 1 {
            Some(ArgError::InvalidPadding)
        } else {
            None
        },
        None => None,
    }
}

/// Why a pattern is refused, where it is: it did not compile.
pub open spec fn pattern_error(compiled: Compiled) -> Option<ArgError> {
    match compiled {
        Some(Err(_)) => Some(ArgError::InvalidRegex),
        _ => None,
    }
}

/// Why a width is refused, where it is.
pub open spec fn width_error(argument: Option<String>) -> Option<ArgError> {
    match argument {
        Some(text) => if number_within(bytes_of(text), usize::MAX as nat) is None {
            Some(ArgError::InvalidWidth)
        } else {
            None
        },
        None => None,
    }
}

/// The first of two refusals.
pub open spec fn or_else(first: Option<Refusal>, second: Option<Refusal>) -> Option<Refusal> {
    if first is Some {
        first
    } else {
        second
    }
}

/// The first argument that is refused, in the order in which the arguments
/// are read; none where every argument can be read.
pub open spec fn first_refusal(arguments: Arguments, included: Compiled, excluded: Compiled)
    -> Option<Refusal> {
    or_else(
        refused(Flag::Titles, codes_error(arguments.titles)),
        or_else(
            refused(Flag::Files, codes_error(arguments.files)),
            or_else(
                refused(Flag::Directories, codes_error(arguments.directories)),
                or_else(
                    refused(Flag::Executables, codes_error(arguments.executables)),
                    or_else(
                        refused(Flag::Symlinks, codes_error(arguments.symlinks)),
                        or_else(
                            refused(Flag::Unknowns, codes_error(arguments.unknowns)),
                            later_refusal(arguments, included, excluded),
                        ),
                    ),
                ),
            ),
        ),
    )
}

/// The first argument behind the style codes that is refused.
pub open spec fn later_refusal(arguments: Arguments, included: Compiled, excluded: Compiled)
    -> Option<Refusal> {
    or_else(
        refused(Flag::ColorSeed, seed_error(arguments.color_seed)),
        or_else(
            refused(Flag::Sum, sum_error(arguments.minimal_sum)),
            or_else(
                refused(Flag::UnitSize, unit_error(arguments.unit_size)),
                or_else(
                    refused(Flag::SortBy, key_error(arguments.sort_by)),
                    or_else(
                        refused(Flag::Padding, padding_error(arguments.padding)),
                        or_else(
                            refused(Flag::IncludePattern, pattern_error(included)),
                            or_else(
                                refused(Flag::ExcludePattern, pattern_error(excluded)),
                                refused(Flag::Width, width_error(arguments.width)),
                            ),
                        ),
                    ),
                ),
            ),
        ),
    )
}

/// The style codes that an argument asks for, or those that were set.
pub open spec fn chosen_codes(argument: Option<String>, set: Seq<u8>) -> Seq<u8> {
    match argument {
        Some(text) => match style_codes(bytes_of(text)) {
            Ok(codes) => codes,
            Err(_) => set,
        },
        None => set,
    }
}

/// The text that an argument gives, or the one that was set.
pub open spec fn chosen_text(argument: Option<String>, set: Seq<char>) -> Seq<char> {
    match argument {
        Some(text) => text@,
        None => set,
    }
}

/// The decoration that an argument gives, or the one that was set.
pub open spec fn chosen_decoration(argument: Option<String>, set: Option<String>) -> Option<
    Seq<char>,
> {
    match argument {
        Some(text) => Some(text@),
        None => optional_view(set),
    }
}

/// The seed that an argument writes, never below 2, or the one that was
/// set.
pub open spec fn chosen_seed(argument: Option<String>, set: usize) -> int {
    match argument {
        Some(text) => match number_within(bytes_of(text), usize::MAX as nat) {
            Some(written) => if written < 2 {
                2
            } else {
                written as int
            },
            None => set as int,
        },
        None => set as int,
    }
}

/// The minimal sum that an argument writes, or the one that was set.
pub open spec fn chosen_sum(argument: Option<String>, set: usize) -> int {
    match argument {
        Some(text) => match minimal_sum_of(bytes_of(text)) {
            Ok(sum) => sum as int,
            Err(_) => set as int,
        },
        None => set as int,
    }
}

/// The unit that an argument names, or the one that was set.
pub open spec fn chosen_unit(argument: Option<String>, set: SizeMeasurementUnit)
    -> SizeMeasurementUnit {
    match argument {
        Some(text) => match unit_of(lowercased(text@)) {
            Some(unit) => unit,
            None => set,
        },
        None => set,
    }
}

/// The sorting key that an argument names, or the one that was set.
pub open spec fn chosen_key(argument: Option<String>, set: SortingReference) -> SortingReference {
    match argument {
        Some(text) => match sorting_reference_of(lowercased(text@)) {
            Some(key) => key,
            None => set,
        },
        None => set,
    }
}

/// The pattern that an argument compiled to, or the one that was set.
pub open spec fn chosen_pattern(compiled: Compiled, set: Option<Pattern>) -> Option<Pattern> {
    match compiled {
        Some(Ok(pattern)) => Some(pattern),
        _ => set,
    }
}

/// The width that an argument writes, or the one that was set.
pub open spec fn chosen_width(argument: Option<String>, set: Option<usize>) -> Option<usize> {
    match argument {
        Some(text) => match number_within(bytes_of(text), usize::MAX as nat) {
            Some(columns) => Some(columns as usize),
            None => set,
        },
        None => set,
    }
}

/// `config` holds what `arguments` ask for, and what `defaults` held
/// wherever they ask for nothing. The switches are those of the arguments.
pub open spec fn follows(
    config: Config,
    arguments: Arguments,
    included: Compiled,
    excluded: Compiled,
    defaults: Config,
) -> bool {
    &&& config.one_per_line == arguments.one_per_line
    &&& config.is_long_listing == arguments.long_listing
    &&& config.group_directories_first == arguments.group_directories_first
    &&& config.reverse == arguments.reverse
    &&& config.show_dotfiles == arguments.show_dotfiles
    &&& config.show_backups == arguments.show_backups
    &&& config.recursive == arguments.recursive
    &&& config.follow_symlinks == arguments.follow_symlinks
    &&& config.titles@ == chosen_codes(arguments.titles, defaults.titles@)
    &&& config.files@ == chosen_codes(arguments.files, defaults.files@)
    &&& config.directories@ == chosen_codes(arguments.directories, defaults.directories@)
    &&& config.executables@ == chosen_codes(arguments.executables, defaults.executables@)
    &&& config.symlinks@ == chosen_codes(arguments.symlinks, defaults.symlinks@)
    &&& config.unknowns@ == chosen_codes(arguments.unknowns, defaults.unknowns@)
    &&& optional_view(config.prefix.files) == chosen_decoration(
        arguments.files_prefix,
        defaults.prefix.files,
    )
    &&& optional_view(config.prefix.directories) == chosen_decoration(
        arguments.directories_prefix,
        defaults.prefix.directories,
    )
    &&& optional_view(config.prefix.executables) == chosen_decoration(
        arguments.executables_prefix,
        defaults.prefix.executables,
    )
    &&& optional_view(config.prefix.symlinks) == chosen_decoration(
        arguments.symlinks_prefix,
        defaults.prefix.symlinks,
    )
    &&& optional_view(config.prefix.unknowns) == chosen_decoration(
        arguments.unknowns_prefix,
        defaults.prefix.unknowns,
    )
    &&& optional_view(config.suffix.files) == chosen_decoration(
        arguments.files_suffix,
        defaults.suffix.files,
    )
    &&& optional_view(config.suffix.directories) == chosen_decoration(
        arguments.directories_suffix,
        defaults.suffix.directories,
    )
    &&& optional_view(config.suffix.executables) == chosen_decoration(
        arguments.executables_suffix,
        defaults.suffix.executables,
    )
    &&& optional_view(config.suffix.symlinks) == chosen_decoration(
        arguments.symlinks_suffix,
        defaults.suffix.symlinks,
    )
    &&& optional_view(config.suffix.unknowns) == chosen_decoration(
        arguments.unknowns_suffix,
        defaults.suffix.unknowns,
    )
    &&& config.color_seed == chosen_seed(arguments.color_seed, defaults.color_seed)
    &&& config.minimal_rgb_sum == chosen_sum(arguments.minimal_sum, defaults.minimal_rgb_sum)
    &&& config.time_formatting@ == chosen_text(
        arguments.time_formatting,
        defaults.time_formatting@,
    )
    &&& config.unit_size == chosen_unit(arguments.unit_size, defaults.unit_size)
    &&& config.sort_by == chosen_key(arguments.sort_by, defaults.sort_by)
    &&& config.separator@ == chosen_text(arguments.separator, defaults.separator@)
    &&& config.padding@ == chosen_text(arguments.padding, defaults.padding@)
    &&& config.include_pattern == chosen_pattern(included, defaults.include_pattern)
    &&& config.exclude_pattern == chosen_pattern(excluded, defaults.exclude_pattern)
    &&& config.term_width == chosen_width(arguments.width, defaults.term_width)
}

/// `compiled` is what compiling the pattern of `argument` can give: nothing
/// for no argument, and for an argument a pattern of its text or a failure.
pub open spec fn compiled_from(argument: Option<String>, compiled: Compiled) -> bool {
    match argument {
        Some(text) => match compiled {
            Some(Ok(pattern)) => pattern.source() == text@,
            Some(Err(_)) => true,
            None => false,
        },
        None => compiled is None,
    }
}

/// `outcome` is what the arguments come to: the refusal of the first
/// argument that cannot be read, or else the settings that follow them.
pub open spec fn comes_to(
    outcome: Result<Config, Refusal>,
    arguments: Arguments,
    included: Compiled,
    excluded: Compiled,
    defaults: Config,
) -> bool {
    match outcome {
        Ok(config) => first_refusal(arguments, included, excluded) is None && follows(
            config,
            arguments,
            included,
            excluded,
            defaults,
        ),
        Err(refusal) => first_refusal(arguments, included, excluded) == Some(refusal),
    }
}

fn read_codes(flag: Flag, argument: &Option<String>, set: Vec<u8>) -> (outcome: Result<
    Vec<u8>,
    Refusal,
>)
    ensures
        match outcome {
            Ok(codes) => codes_error(*argument) is None && codes@ == chosen_codes(*argument, set@),
            Err(refusal) => refused(flag, codes_error(*argument)) == Some(refusal),
        },
{
    match argument {
        Some(text) => match formatting_args(text.as_str()) {
            Ok(codes) => Ok(codes),
            Err(error) => Err(Refusal { flag, error }),
        },
        None => Ok(set),
    }
}

fn read_decoration(argument: Option<String>, set: Option<String>) -> (decoration: Option<String>)
    ensures
        optional_view(decoration) == chosen_decoration(argument, set),
{
    match argument {
        Some(text) => Some(text),
        None => set,
    }
}

fn read_text(argument: Option<String>, set: String) -> (text: String)
    ensures
        text@ == chosen_text(argument, set@),
{
    match argument {
        Some(text) => text,
        None => set,
    }
}

fn read_pattern(flag: Flag, compiled: Compiled, set: Option<Pattern>) -> (outcome: Result<
    Option<Pattern>,
    Refusal,
>)
    ensures
        match outcome {
            Ok(pattern) => pattern_error(compiled) is None && pattern == chosen_pattern(
                compiled,
                set,
            ),
            Err(refusal) => refused(flag, pattern_error(compiled)) == Some(refusal),
        },
{
    match compiled {
        Some(result) => match pattern_or_refusal(result) {
            Ok(pattern) => Ok(Some(pattern)),
            Err(error) => Err(Refusal { flag, error }),
        },
        None => Ok(set),
    }
}

/// The settings that follow `arguments`, where `included` and `excluded` are
/// what compiling their patterns gave; `defaults` holds the settings for
/// what no argument asks for.
///
/// The arguments are read in a fixed order, and the first that cannot be
/// read is refused.
pub fn configure(arguments: Arguments, included: Compiled, excluded: Compiled, defaults: Config) -> (outcome:
    Result<Config, Refusal>)
    ensures
        comes_to(outcome, arguments, included, excluded, defaults),
{
    let titles = match read_codes(Flag::Titles, &arguments.titles, defaults.titles) {
        Ok(codes) => codes,
        Err(refusal) => {
            return Err(refusal);
        },
    };
    let files = match read_codes(Flag::Files, &arguments.files, defaults.files) {
        Ok(codes) => codes,
        Err(refusal) => {
            return Err(refusal);
        },
    };
    let directories = match read_codes(
        Flag::Directories,
        &arguments.directories,
        defaults.directories,
    ) {
        Ok(codes) => codes,
        Err(refusal) => {
            return Err(refusal);
        },
    };
    let executables = match read_codes(
        Flag::Executables,
        &arguments.executables,
        defaults.executables,
    ) {
        Ok(codes) => codes,
        Err(refusal) => {
            return Err(refusal);
        },
    };
    let symlinks = match read_codes(Flag::Symlinks, &arguments.symlinks, defaults.symlinks) {
        Ok(codes) => codes,
        Err(refusal) => {
            return Err(refusal);
        },
    };
    let unknowns = match read_codes(Flag::Unknowns, &arguments.unknowns, defaults.unknowns) {
        Ok(codes) => codes,
        Err(refusal) => {
            return Err(refusal);
        },
    };
    let seed = match &arguments.color_seed {
        Some(text) => match color_seed(text.as_str()) {
            Ok(seed) => seed,
            Err(error) => {
                return Err(Refusal { flag: Flag::ColorSeed, error });
            },
        },
        None => defaults.color_seed,
    };
    let minimal_rgb_sum = match &arguments.minimal_sum {
        Some(text) => match minimal_rgb_sum(text.as_str()) {
            Ok(sum) => sum as usize,
            Err(error) => {
                return Err(Refusal { flag: Flag::Sum, error });
            },
        },
        None => defaults.minimal_rgb_sum,
    };
    let unit = match &arguments.unit_size {
        Some(text) => match unit_size(text.as_str()) {
            Ok(unit) => unit,
            Err(error) => {
                return Err(Refusal { flag: Flag::UnitSize, error });
            },
        },
        None => defaults.unit_size,
    };
    let key = match &arguments.sort_by {
        Some(text) => match sort_by(text.as_str()) {
            Ok(key) => key,
            Err(error) => {
                return Err(Refusal { flag: Flag::SortBy, error });
            },
        },
        None => defaults.sort_by,
    };
    let filler = match arguments.padding {
        Some(text) => match padding(text) {
            Ok(filler) => filler,
            Err(error) => {
                return Err(Refusal { flag: Flag::Padding, error });
            },
        },
        None => defaults.padding,
    };
    let include_pattern = match read_pattern(
        Flag::IncludePattern,
        included,
        defaults.include_pattern,
    ) {
        Ok(pattern) => pattern,
        Err(refusal) => {
            return Err(refusal);
        },
    };
    let exclude_pattern = match read_pattern(
        Flag::ExcludePattern,
        excluded,
        defaults.exclude_pattern,
    ) {
        Ok(pattern) => pattern,
        Err(refusal) => {
            return Err(refusal);
        },
    };
    let term_width = match &arguments.width {
        Some(text) => match width(text.as_str()) {
            Ok(columns) => Some(columns),
            Err(error) => {
                return Err(Refusal { flag: Flag::Width, error });
            },
        },
        None => defaults.term_width,
    };
    Ok(
        Config {
            titles,
            files,
            directories,
            executables,
            symlinks,
            unknowns,
            prefix: crate::config::AddedStr {
                files: read_decoration(arguments.files_prefix, defaults.prefix.files),
                directories: read_decoration(
                    arguments.directories_prefix,
                    defaults.prefix.directories,
                ),
                executables: read_decoration(
                    arguments.executables_prefix,
                    defaults.prefix.executables,
                ),
                symlinks: read_decoration(arguments.symlinks_prefix, defaults.prefix.symlinks),
                unknowns: read_decoration(arguments.unknowns_prefix, defaults.prefix.unknowns),
            },
            suffix: crate::config::AddedStr {
                files: read_decoration(arguments.files_suffix, defaults.suffix.files),
                directories: read_decoration(
                    arguments.directories_suffix,
                    defaults.suffix.directories,
                ),
                executables: read_decoration(
                    arguments.executables_suffix,
                    defaults.suffix.executables,
                ),
                symlinks: read_decoration(arguments.symlinks_suffix, defaults.suffix.symlinks),
                unknowns: read_decoration(arguments.unknowns_suffix, defaults.suffix.unknowns),
            },
            color_seed: seed,
            minimal_rgb_sum,
            one_per_line: arguments.one_per_line,
            is_long_listing: arguments.long_listing,
            time_formatting: read_text(arguments.time_formatting, defaults.time_formatting),
            unit_size: unit,
            sort_by: key,
            group_directories_first: arguments.group_directories_first,
            reverse: arguments.reverse,
            separator: read_text(arguments.separator, defaults.separator),
            padding: filler,
            show_dotfiles: arguments.show_dotfiles,
            show_backups: arguments.show_backups,
            recursive: arguments.recursive,
            follow_symlinks: arguments.follow_symlinks,
            include_pattern,
            exclude_pattern,
            term_width,
        },
    )
}

fn compile_argument(argument: &Option<String>) -> (compiled: Compiled)
    ensures
        compiled_from(*argument, compiled),
{
    match argument {
        Some(text) => Some(Pattern::compile(text.clone())),
        None => None,
    }
}

/// The settings that follow `arguments`; `defaults` holds the settings for
/// what no argument asks for.
///
/// Whether a pattern compiles is for the compiler of expressions to say:
/// the outcome is what the arguments come to under what compiling their
/// patterns gave. Without patterns, the outcome rests on the arguments
/// alone.
pub fn parse_user_args(arguments: Arguments, defaults: Config) -> (outcome: Result<Config, Refusal>)
    ensures
        exists|included: Compiled, excluded: Compiled|
            #![auto]
            compiled_from(arguments.include_pattern, included) && compiled_from(
                arguments.exclude_pattern,
                excluded,
            ) && comes_to(outcome, arguments, included, excluded, defaults),
        arguments.include_pattern is None && arguments.exclude_pattern is None ==> comes_to(
            outcome,
            arguments,
            None,
            None,
            defaults,
        ),
{
    let included = compile_argument(&arguments.include_pattern);
    let excluded = compile_argument(&arguments.exclude_pattern);
    let outcome = configure(arguments, included, excluded, defaults);
    proof {
        assert(compiled_from(arguments.include_pattern, included) && compiled_from(
            arguments.exclude_pattern,
            excluded,
        ) && comes_to(outcome, arguments, included, excluded, defaults));
    }
    outcome
}

} // verus!
