use rainbow_ls::config::{Config, SizeMeasurementUnit, SortingReference};
use rainbow_ls::display::utils::is_allowed_filename;
use rainbow_ls::parser::{configure, parse_user_args, Arguments, Flag, Refusal};
use rainbow_ls::subparsers::{
    color_seed, consume_rest, formatting_args, minimal_rgb_sum, minimal_sum, normalize_args,
    normalize_argument, padding, parse_number, pattern_or_refusal, regex_patterns, sort_by,
    sorting_reference_named, unit_named, unit_size, width, ArgError,
};

#[test]
fn formatting_args_reads_one_code_for_each_digit() {
    assert_eq!(formatting_args("14"), Ok(vec![1, 4]));
    assert_eq!(formatting_args("01234578"), Ok(vec![0, 1, 2, 3, 4, 5, 7, 8]));
    assert_eq!(formatting_args("87543210"), Ok(vec![8, 7, 5, 4, 3, 2, 1, 0]));
    assert_eq!(formatting_args(""), Ok(vec![]));
}

#[test]
fn formatting_args_refuses_what_is_no_code() {
    assert_eq!(formatting_args("1x"), Err(ArgError::NotADigit));
    assert_eq!(formatting_args("-1"), Err(ArgError::NotADigit));
    assert_eq!(formatting_args("\u{0663}"), Err(ArgError::NotADigit));
    assert_eq!(formatting_args("6"), Err(ArgError::InvalidDigit));
    assert_eq!(formatting_args("19"), Err(ArgError::InvalidDigit));
    assert_eq!(formatting_args("9x"), Err(ArgError::InvalidDigit));
    assert_eq!(formatting_args("x9"), Err(ArgError::NotADigit));
}

#[test]
fn formatting_args_refuses_a_code_given_twice() {
    assert_eq!(formatting_args("11"), Err(ArgError::RepeatedDigit));
    assert_eq!(formatting_args("1471"), Err(ArgError::RepeatedDigit));
    assert_eq!(formatting_args("012345780"), Err(ArgError::RepeatedDigit));
    // the first character that is refused decides
    assert_eq!(formatting_args("11x"), Err(ArgError::RepeatedDigit));
    assert_eq!(formatting_args("1x1"), Err(ArgError::NotADigit));
    assert_eq!(formatting_args("161"), Err(ArgError::InvalidDigit));
    assert_eq!(formatting_args("66"), Err(ArgError::InvalidDigit));
}

#[test]
fn parse_number_reads_decimal() {
    assert_eq!(parse_number("0", 10), Some(0));
    assert_eq!(parse_number("10", 10), Some(10));
    assert_eq!(parse_number("11", 10), None);
    assert_eq!(parse_number("+7", 10), Some(7));
    assert_eq!(parse_number("007", 10), Some(7));
    assert_eq!(parse_number("", 10), None);
    assert_eq!(parse_number("+", 10), None);
    assert_eq!(parse_number("-1", 10), None);
    assert_eq!(parse_number("1 ", 10), None);
    assert_eq!(parse_number("++1", 10), None);
    assert_eq!(parse_number("1_000", 10_000), None);
    assert_eq!(parse_number("65535", 65535), Some(65535));
    assert_eq!(parse_number("65536", 65535), None);
    assert_eq!(parse_number("99999999999999999999999999", usize::MAX), None);
    assert_eq!(parse_number(&usize::MAX.to_string(), usize::MAX), Some(usize::MAX));
    assert_eq!(parse_number("5", 0), None);
    assert_eq!(parse_number("0", 0), Some(0));
}

#[test]
fn minimal_rgb_sum_is_at_most_765() {
    assert_eq!(minimal_rgb_sum("512"), Ok(512));
    assert_eq!(minimal_rgb_sum("0"), Ok(0));
    assert_eq!(minimal_rgb_sum("765"), Ok(765));
    assert_eq!(minimal_rgb_sum("766"), Err(ArgError::SumTooLarge));
    assert_eq!(minimal_rgb_sum("65535"), Err(ArgError::SumTooLarge));
    assert_eq!(minimal_rgb_sum("65536"), Err(ArgError::InvalidSum));
    assert_eq!(minimal_rgb_sum("bright"), Err(ArgError::InvalidSum));
    assert_eq!(minimal_rgb_sum("-5"), Err(ArgError::InvalidSum));
}

#[test]
fn minimal_sum_sets_only_what_is_valid() {
    let mut sum: u16 = 255;
    assert_eq!(minimal_sum(&mut sum, "300"), Ok(()));
    assert_eq!(sum, 300);
    assert_eq!(minimal_sum(&mut sum, "900"), Err(ArgError::SumTooLarge));
    assert_eq!(sum, 300);
    assert_eq!(minimal_sum(&mut sum, "x"), Err(ArgError::InvalidSum));
    assert_eq!(sum, 300);
}

#[test]
fn width_is_a_number() {
    assert_eq!(width("80"), Ok(80));
    assert_eq!(width("0"), Ok(0));
    assert_eq!(width("wide"), Err(ArgError::InvalidWidth));
    assert_eq!(width("80.5"), Err(ArgError::InvalidWidth));
}

#[test]
fn color_seed_is_never_below_two() {
    assert_eq!(color_seed("0"), Ok(2));
    assert_eq!(color_seed("1"), Ok(2));
    assert_eq!(color_seed("2"), Ok(2));
    assert_eq!(color_seed("31337"), Ok(31337));
    assert_eq!(color_seed("seed"), Err(ArgError::InvalidSeed));
}

#[test]
fn padding_is_one_grapheme_cluster() {
    assert_eq!(padding(".".to_string()), Ok(".".to_string()));
    assert_eq!(padding("\u{1F1EB}\u{1F1F7}".to_string()), Ok("\u{1F1EB}\u{1F1F7}".to_string()));
    assert_eq!(padding("".to_string()), Err(ArgError::InvalidPadding));
    assert_eq!(padding("..".to_string()), Err(ArgError::InvalidPadding));
}

#[test]
fn sort_by_knows_its_keys_in_any_case() {
    assert_eq!(sort_by("name"), Ok(SortingReference::Name));
    assert_eq!(sort_by("SIZE"), Ok(SortingReference::Size));
    assert_eq!(sort_by("Extension"), Ok(SortingReference::Extension));
    assert_eq!(sort_by("creation_date"), Ok(SortingReference::CreationDate));
    assert_eq!(sort_by("CreationDate"), Ok(SortingReference::CreationDate));
    assert_eq!(sort_by("access_date"), Ok(SortingReference::AccessDate));
    assert_eq!(sort_by("accesdate"), Ok(SortingReference::AccessDate));
    assert_eq!(sort_by("modification_date"), Ok(SortingReference::ModificationDate));
    assert_eq!(sort_by("color"), Ok(SortingReference::Colour));
    assert_eq!(sort_by("Colour"), Ok(SortingReference::Colour));
    assert_eq!(sort_by("ModificationDate"), Err(ArgError::InvalidSortKey));
    assert_eq!(sort_by("default"), Err(ArgError::InvalidSortKey));
    assert_eq!(sort_by(""), Err(ArgError::InvalidSortKey));
}

#[test]
fn sorting_reference_named_reads_the_name_as_written() {
    assert_eq!(sorting_reference_named("size"), Some(SortingReference::Size));
    assert_eq!(sorting_reference_named("Size"), None);
    assert_eq!(sorting_reference_named("ModificationDate"), Some(SortingReference::ModificationDate));
    assert_eq!(sorting_reference_named("sizes"), None);
    assert_eq!(sorting_reference_named("siz"), None);
}

#[test]
fn unit_size_knows_bytes_and_bits() {
    assert_eq!(unit_size("bytes"), Ok(SizeMeasurementUnit::Bytes));
    assert_eq!(unit_size("BITS"), Ok(SizeMeasurementUnit::Bits));
    assert_eq!(unit_size("nibbles"), Err(ArgError::InvalidUnit));
    assert_eq!(unit_named("bits"), Some(SizeMeasurementUnit::Bits));
    assert_eq!(unit_named("Bits"), None);
}

#[test]
fn regex_patterns_compile_or_are_refused() {
    assert!(regex_patterns("^a+b?$".to_string()).is_ok());
    assert!(regex_patterns("".to_string()).is_ok());
    assert_eq!(regex_patterns("(".to_string()).err(), Some(ArgError::InvalidRegex));
    assert_eq!(regex_patterns("a{2,1}".to_string()).err(), Some(ArgError::InvalidRegex));
}

#[test]
fn consume_rest_appends_what_is_left() {
    let mut untreated = vec!["first".to_string()];
    consume_rest(&mut untreated, vec!["--not-a-flag".to_string(), "dir".to_string()]);
    assert_eq!(untreated, vec!["first", "--not-a-flag", "dir"]);
    consume_rest(&mut untreated, Vec::new());
    assert_eq!(untreated.len(), 3);
}

#[test]
fn normalize_argument_spells_short_flags_out() {
    let pairs = [
        ("-opl", "--one-per-line"),
        ("-ll", "--long-listing"),
        ("-gdf", "--group-directories-first"),
        ("-rev", "--reverse"),
        ("-sd", "--show-dotfiles"),
        ("-sb", "--show-backups"),
        ("-rec", "--recursive"),
        ("-fs", "--follow-symlinks"),
        ("-l", "-l"),
        ("--reverse", "--reverse"),
        ("src", "src"),
        ("", ""),
    ];
    for (short, long) in pairs {
        assert_eq!(normalize_argument(short.to_string()), long);
    }
}

#[test]
fn normalize_args_leaves_the_program_name() {
    let given = vec!["-rev".to_string(), "-rev".to_string(), "dir".to_string(), "-sd".to_string()];
    assert_eq!(normalize_args(given), vec!["-rev", "--reverse", "dir", "--show-dotfiles"]);
    assert!(normalize_args(Vec::new()).is_empty());
}

fn no_arguments() -> Arguments {
    Arguments {
        one_per_line: false,
        long_listing: false,
        group_directories_first: false,
        reverse: false,
        show_dotfiles: false,
        show_backups: false,
        recursive: false,
        follow_symlinks: false,
        titles: None,
        files: None,
        directories: None,
        executables: None,
        symlinks: None,
        unknowns: None,
        files_prefix: None,
        directories_prefix: None,
        executables_prefix: None,
        symlinks_prefix: None,
        unknowns_prefix: None,
        files_suffix: None,
        directories_suffix: None,
        executables_suffix: None,
        symlinks_suffix: None,
        unknowns_suffix: None,
        color_seed: None,
        minimal_sum: None,
        time_formatting: None,
        unit_size: None,
        sort_by: None,
        separator: None,
        padding: None,
        include_pattern: None,
        exclude_pattern: None,
        width: None,
    }
}

fn given(text: &str) -> Option<String> {
    Some(text.to_string())
}

fn refusal_of(arguments: Arguments) -> Option<Refusal> {
    parse_user_args(arguments, Config::new(2, Some(80))).err()
}

#[test]
fn parse_user_args_without_arguments_keeps_the_defaults() {
    let config = parse_user_args(no_arguments(), Config::new(7, Some(120))).ok().unwrap();
    assert_eq!(config.color_seed, 7);
    assert_eq!(config.term_width, Some(120));
    assert_eq!(config.minimal_rgb_sum, 512);
    assert_eq!(config.executables, vec![1]);
    assert_eq!(config.suffix.directories.as_deref(), Some("/"));
    assert_eq!(config.separator, "  ");
    assert_eq!(config.padding, " ");
    assert_eq!(config.sort_by, SortingReference::Default);
    assert!(config.include_pattern.is_none() && config.exclude_pattern.is_none());
    assert!(!config.one_per_line && !config.recursive);
}

#[test]
fn parse_user_args_sets_what_is_asked_for() {
    let mut arguments = no_arguments();
    arguments.one_per_line = true;
    arguments.long_listing = true;
    arguments.group_directories_first = true;
    arguments.reverse = true;
    arguments.show_dotfiles = true;
    arguments.show_backups = true;
    arguments.recursive = true;
    arguments.follow_symlinks = true;
    arguments.titles = given("14");
    arguments.files = given("2");
    arguments.directories = given("17");
    arguments.executables = given("");
    arguments.symlinks = given("3");
    arguments.unknowns = given("8");
    arguments.files_prefix = given("f ");
    arguments.directories_prefix = given("d ");
    arguments.executables_prefix = given("x ");
    arguments.symlinks_prefix = given("l ");
    arguments.unknowns_prefix = given("? ");
    arguments.files_suffix = given(" f");
    arguments.directories_suffix = given(" d");
    arguments.executables_suffix = given("*");
    arguments.symlinks_suffix = given("@");
    arguments.unknowns_suffix = given("?");
    arguments.color_seed = given("1");
    arguments.minimal_sum = given("300");
    arguments.time_formatting = given("%H");
    arguments.unit_size = given("Bits");
    arguments.sort_by = given("Colour");
    arguments.separator = given(" | ");
    arguments.padding = given("_");
    arguments.include_pattern = given("^a");
    arguments.exclude_pattern = given("b$");
    arguments.width = given("40");
    let config = parse_user_args(arguments, Config::new(7, Some(120))).ok().unwrap();
    assert!(config.one_per_line && config.is_long_listing && config.group_directories_first);
    assert!(config.reverse && config.show_dotfiles && config.show_backups);
    assert!(config.recursive && config.follow_symlinks);
    assert_eq!(config.titles, vec![1, 4]);
    assert_eq!(config.files, vec![2]);
    assert_eq!(config.directories, vec![1, 7]);
    assert_eq!(config.executables, Vec::<u8>::new());
    assert_eq!(config.symlinks, vec![3]);
    assert_eq!(config.unknowns, vec![8]);
    assert_eq!(config.prefix.files.as_deref(), Some("f "));
    assert_eq!(config.prefix.directories.as_deref(), Some("d "));
    assert_eq!(config.prefix.executables.as_deref(), Some("x "));
    assert_eq!(config.prefix.symlinks.as_deref(), Some("l "));
    assert_eq!(config.prefix.unknowns.as_deref(), Some("? "));
    assert_eq!(config.suffix.files.as_deref(), Some(" f"));
    assert_eq!(config.suffix.directories.as_deref(), Some(" d"));
    assert_eq!(config.suffix.executables.as_deref(), Some("*"));
    assert_eq!(config.suffix.symlinks.as_deref(), Some("@"));
    assert_eq!(config.suffix.unknowns.as_deref(), Some("?"));
    assert_eq!(config.color_seed, 2);
    assert_eq!(config.minimal_rgb_sum, 300);
    assert_eq!(config.time_formatting, "%H");
    assert_eq!(config.unit_size, SizeMeasurementUnit::Bits);
    assert_eq!(config.sort_by, SortingReference::Colour);
    assert_eq!(config.separator, " | ");
    assert_eq!(config.padding, "_");
    assert_eq!(config.term_width, Some(40));
    assert!(is_allowed_filename(&config, "abc"));
    assert!(!is_allowed_filename(&config, "cab"));
}

#[test]
fn parse_user_args_refuses_the_first_argument_that_cannot_be_read() {
    let mut arguments = no_arguments();
    arguments.width = given("wide");
    assert_eq!(
        refusal_of(arguments),
        Some(Refusal { flag: Flag::Width, error: ArgError::InvalidWidth })
    );

    let mut arguments = no_arguments();
    arguments.width = given("wide");
    arguments.exclude_pattern = given("(");
    assert_eq!(
        refusal_of(arguments),
        Some(Refusal { flag: Flag::ExcludePattern, error: ArgError::InvalidRegex })
    );

    let mut arguments = no_arguments();
    arguments.exclude_pattern = given("(");
    arguments.include_pattern = given("[");
    arguments.padding = given("ab");
    assert_eq!(
        refusal_of(arguments),
        Some(Refusal { flag: Flag::Padding, error: ArgError::InvalidPadding })
    );

    let mut arguments = no_arguments();
    arguments.sort_by = given("weight");
    arguments.unit_size = given("nibbles");
    arguments.minimal_sum = given("766");
    arguments.color_seed = given("-1");
    arguments.unknowns = given("9");
    arguments.symlinks = given("x");
    assert_eq!(
        refusal_of(arguments),
        Some(Refusal { flag: Flag::Symlinks, error: ArgError::NotADigit })
    );
}

#[test]
fn parse_user_args_names_each_refused_argument() {
    let cases: Vec<(fn(&mut Arguments), Flag, ArgError)> = vec![
        (|a| a.titles = given("a"), Flag::Titles, ArgError::NotADigit),
        (|a| a.files = given("6"), Flag::Files, ArgError::InvalidDigit),
        (|a| a.directories = given("9"), Flag::Directories, ArgError::InvalidDigit),
        (|a| a.executables = given(" "), Flag::Executables, ArgError::NotADigit),
        (|a| a.symlinks = given("1,2"), Flag::Symlinks, ArgError::NotADigit),
        (|a| a.unknowns = given("69"), Flag::Unknowns, ArgError::InvalidDigit),
        (|a| a.titles = given("141"), Flag::Titles, ArgError::RepeatedDigit),
        (|a| a.color_seed = given("x"), Flag::ColorSeed, ArgError::InvalidSeed),
        (|a| a.minimal_sum = given("x"), Flag::Sum, ArgError::InvalidSum),
        (|a| a.minimal_sum = given("1000"), Flag::Sum, ArgError::SumTooLarge),
        (|a| a.unit_size = given("x"), Flag::UnitSize, ArgError::InvalidUnit),
        (|a| a.sort_by = given("x"), Flag::SortBy, ArgError::InvalidSortKey),
        (|a| a.padding = given(""), Flag::Padding, ArgError::InvalidPadding),
        (|a| a.include_pattern = given("("), Flag::IncludePattern, ArgError::InvalidRegex),
        (|a| a.exclude_pattern = given("("), Flag::ExcludePattern, ArgError::InvalidRegex),
        (|a| a.width = given("x"), Flag::Width, ArgError::InvalidWidth),
    ];
    for (set, flag, error) in cases {
        let mut arguments = no_arguments();
        set(&mut arguments);
        assert_eq!(refusal_of(arguments), Some(Refusal { flag, error }));
    }
}

#[test]
fn configure_goes_by_what_compiling_gave() {
    let mut arguments = no_arguments();
    arguments.include_pattern = given("never compiled");
    let failure = regex::Regex::new("(").unwrap_err();
    let outcome = configure(arguments, Some(Err(failure)), None, Config::new(2, None));
    assert_eq!(
        outcome.err(),
        Some(Refusal { flag: Flag::IncludePattern, error: ArgError::InvalidRegex })
    );

    let pattern = regex_patterns("^x".to_string()).unwrap();
    let outcome = configure(no_arguments(), None, Some(Ok(pattern)), Config::new(2, None));
    let config = outcome.ok().unwrap();
    assert!(config.include_pattern.is_none());
    assert!(!is_allowed_filename(&config, "xyz"));
    assert!(is_allowed_filename(&config, "yz"));
}

#[test]
fn pattern_or_refusal_maps_the_outcome() {
    let failure = regex::Regex::new("(").unwrap_err();
    assert_eq!(pattern_or_refusal(Err(failure)).err(), Some(ArgError::InvalidRegex));
}
