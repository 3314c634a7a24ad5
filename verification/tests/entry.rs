use rainbow_ls::color::RgbColor;
use rainbow_ls::config::Config;
use rainbow_ls::entry::{extension_of, ColoredEntry};
use rainbow_ls::kind::{Classification, Kind, Timestamp};

fn of_kind(kind: Kind) -> Classification {
    Classification {
        kind,
        mode: None,
        size_bytes: None,
        created_at: None,
        modified_at: None,
        accessed_at: None,
    }
}

fn entry(name: &str, extension: Option<&str>, kind: Kind, config: &Config) -> ColoredEntry {
    ColoredEntry::new(
        name.to_string(),
        extension.map(|ending| ending.to_string()),
        format!("/somewhere/{}", name),
        of_kind(kind),
        config,
    )
}

#[test]
fn new_styles_a_file() {
    let config = Config::new(2, Some(80));
    let made = entry("main.rs", Some("rs"), Kind::File, &config);
    assert_eq!(made.colour.as_tuple(), (200, 102, 210));
    assert_eq!(made.formatted_name, "\x1b[38;2;200;102;210mmain.rs\x1b[0;00m");
    assert_eq!(made.len(), 7);
    assert_eq!(made.name, "main.rs");
    assert_eq!(made.extension.as_deref(), Some("rs"));
    assert_eq!(made.path, "/somewhere/main.rs");
    assert_eq!(made.kind, Kind::File);
}

#[test]
fn new_decorates_a_directory() {
    let config = Config::new(2, Some(80));
    let made = entry("src", None, Kind::Directory, &config);
    assert_eq!(made.colour.as_tuple(), (143, 234, 135));
    assert_eq!(made.formatted_name, "\x1b[38;2;143;234;135msrc/\x1b[0;00m");
    assert_eq!(made.len(), 4);
}

#[test]
fn new_puts_style_codes_behind_the_colour() {
    let config = Config::new(2, Some(80));
    let made = entry("run.sh", Some("sh"), Kind::Executable, &config);
    assert_eq!(made.formatted_name, "\x1b[38;2;214;93;205m\x1b[1mrun.sh\x1b[0;00m");
    assert_eq!(made.len(), 6);
}

#[test]
fn new_writes_every_code_and_both_decorations() {
    let mut config = Config::new(2, Some(80));
    config.symlinks = vec![1, 4, 7];
    config.prefix.symlinks = Some("-> ".to_string());
    config.suffix.symlinks = Some("@".to_string());
    config.minimal_rgb_sum = 0;
    let made = entry("link", None, Kind::Symlink, &config);
    let (red, green, blue) = RgbColor::derive(2, b"link").as_tuple();
    let expected = format!(
        "\x1b[38;2;{};{};{}m\x1b[1m\x1b[4m\x1b[7m-> link@\x1b[0;00m",
        red, green, blue
    );
    assert_eq!(made.formatted_name, expected);
    assert_eq!(made.len(), 8);
}

#[test]
fn new_writes_codes_of_several_digits() {
    let mut config = Config::new(2, Some(80));
    config.unknowns = vec![0, 10, 255];
    config.minimal_rgb_sum = 765;
    let made = entry("x", None, Kind::Unknown, &config);
    assert_eq!(
        made.formatted_name,
        "\x1b[38;2;255;255;255m\x1b[0m\x1b[10m\x1b[255mx\x1b[0;00m"
    );
}

#[test]
fn new_keeps_kind_and_metadata() {
    let config = Config::new(2, Some(80));
    let classification = Classification {
        kind: Kind::Executable,
        mode: Some(0o755),
        size_bytes: Some(1024),
        created_at: Some(Timestamp { secs: 1, nanos: 2 }),
        modified_at: Some(Timestamp { secs: 3, nanos: 4 }),
        accessed_at: Some(Timestamp { secs: 5, nanos: 6 }),
    };
    let made = ColoredEntry::new(
        "tool".to_string(),
        None,
        "bin/tool".to_string(),
        classification,
        &config,
    );
    assert_eq!(made.kind, Kind::Executable);
    assert_eq!(made.mode, Some(0o755));
    assert_eq!(made.size_bytes, Some(1024));
    assert_eq!(made.created_at, Some(Timestamp { secs: 1, nanos: 2 }));
    assert_eq!(made.modified_at, Some(Timestamp { secs: 3, nanos: 4 }));
    assert_eq!(made.accessed_at, Some(Timestamp { secs: 5, nanos: 6 }));
}

#[test]
fn colour_goes_by_the_extension() {
    let config = Config::new(77, Some(80));
    let first = entry("main.rs", Some("rs"), Kind::File, &config);
    let second = entry("lib.rs", Some("rs"), Kind::File, &config);
    let third = entry("notes.txt", Some("txt"), Kind::File, &config);
    assert_eq!(first.colour, second.colour);
    assert_ne!(first.colour, third.colour);
}

#[test]
fn colour_goes_by_the_name_without_an_extension() {
    let unpadded = ColoredEntry::make_colors(2, "Makefile", &None);
    assert_eq!(unpadded, RgbColor::derive(2, b"Makefile"));
    let by_extension = ColoredEntry::make_colors(2, "Makefile", &Some("rs".to_string()));
    assert_eq!(by_extension, RgbColor::derive(2, b"rs"));
}

#[test]
fn colour_is_brightened_to_the_minimal_sum() {
    let mut config = Config::new(2, Some(80));
    config.minimal_rgb_sum = 300;
    let made = entry("aaa", None, Kind::File, &config);
    // derived as (28, 18, 56): 198 are missing, 66 for each channel
    assert_eq!(made.colour.as_tuple(), (94, 84, 122));
}

#[test]
fn len_counts_grapheme_clusters() {
    let config = Config::new(2, Some(80));
    let flag = entry("\u{1F1EB}\u{1F1F7}", None, Kind::File, &config);
    assert_eq!(flag.name.len(), 8);
    assert_eq!(flag.len(), 1);
    let accent = entry("e\u{301}", None, Kind::File, &config);
    assert_eq!(accent.name.chars().count(), 2);
    assert_eq!(accent.len(), 1);
    let family = entry("\u{1F468}\u{200D}\u{1F469}\u{200D}\u{1F467}.png", Some("png"), Kind::File, &config);
    assert_eq!(family.len(), 5);
}

#[test]
fn len_counts_the_decorated_name_as_one_text() {
    let mut config = Config::new(2, Some(80));
    config.prefix.files = Some("\u{1F4C4} ".to_string());
    config.suffix.files = Some("\u{301}".to_string());
    let made = entry("e", None, Kind::File, &config);
    // the accent of the suffix joins the name: a page, a space, an accented e
    assert_eq!(made.len(), 3);
}

#[test]
fn len_counts_a_cluster_across_a_joint_once() {
    let mut config = Config::new(2, Some(80));
    config.suffix.files = Some("\u{301}".to_string());
    let color = RgbColor { red: 1, green: 2, blue: 3 };
    let (text, width) = ColoredEntry::make_formatted_name(&config, "e", Kind::File, &color);
    assert_eq!(text, "\x1b[38;2;1;2;3me\u{301}\x1b[0;00m");
    assert_eq!(width, 1);
    // the two halves of a flag, one as the prefix and one as the name
    config.prefix.files = Some("\u{1F1EB}".to_string());
    config.suffix.files = None;
    let (_, width) = ColoredEntry::make_formatted_name(&config, "\u{1F1F7}", Kind::File, &color);
    assert_eq!(width, 1);
}

#[test]
fn len_does_not_depend_on_styles_or_colour() {
    let mut config = Config::new(2, Some(80));
    config.prefix.directories = Some("[".to_string());
    config.suffix.directories = Some("]".to_string());
    let dark = RgbColor { red: 0, green: 0, blue: 0 };
    let bright = RgbColor { red: 255, green: 255, blue: 255 };
    let (_, plain) = ColoredEntry::make_formatted_name(&config, "name", Kind::Directory, &dark);
    config.directories = vec![1, 4, 7];
    let (text, styled) = ColoredEntry::make_formatted_name(&config, "name", Kind::Directory, &bright);
    assert_eq!(plain, 6);
    assert_eq!(styled, 6);
    assert!(text.len() > 6);
}

#[test]
fn len_of_an_empty_name_is_nothing() {
    let config = Config::new(2, Some(80));
    let made = entry("", None, Kind::File, &config);
    assert_eq!(made.len(), 0);
}

#[test]
fn make_formatted_name_gives_text_and_width() {
    let config = Config::new(2, Some(80));
    let color = RgbColor { red: 1, green: 22, blue: 133 };
    let (text, width) = ColoredEntry::make_formatted_name(&config, "photos", Kind::Directory, &color);
    assert_eq!(text, "\x1b[38;2;1;22;133mphotos/\x1b[0;00m");
    assert_eq!(width, 7);
}

#[test]
fn config_starts_with_the_usual_settings() {
    let config = Config::new(9, None);
    assert_eq!(config.color_seed, 9);
    assert_eq!(config.term_width, None);
    assert_eq!(config.minimal_rgb_sum, 512);
    assert_eq!(config.executables, vec![1]);
    assert_eq!(config.symlinks, vec![4]);
    assert_eq!(config.unknowns, vec![3]);
    assert!(config.files.is_empty() && config.directories.is_empty() && config.titles.is_empty());
    assert_eq!(config.suffix.directories.as_deref(), Some("/"));
    assert_eq!(config.suffix.files, None);
    assert_eq!(config.prefix.directories, None);
    assert_eq!(config.separator, "  ");
    assert_eq!(config.padding, " ");
    assert_eq!(config.time_formatting, "%b %m %H:%M");
    assert!(!config.one_per_line && !config.reverse && !config.group_directories_first);
    assert!(!config.show_dotfiles && !config.show_backups && !config.recursive);
    assert!(config.include_pattern.is_none() && config.exclude_pattern.is_none());
}

#[test]
fn extension_of_is_what_follows_the_last_dot() {
    assert_eq!(extension_of("main.rs").as_deref(), Some("rs"));
    assert_eq!(extension_of("archive.tar.gz").as_deref(), Some("gz"));
    assert_eq!(extension_of("Makefile"), None);
    assert_eq!(extension_of(".bashrc"), None);
    assert_eq!(extension_of(".config.toml").as_deref(), Some("toml"));
    assert_eq!(extension_of("trailing.").as_deref(), Some(""));
    assert_eq!(extension_of(".."), None);
    assert_eq!(extension_of("..."), Some(String::new()));
    assert_eq!(extension_of("."), None);
    assert_eq!(extension_of(""), None);
    assert_eq!(extension_of("\u{e9}t\u{e9}.\u{1F1EB}\u{1F1F7}").as_deref(), Some("\u{1F1EB}\u{1F1F7}"));
    for name in ["main.rs", "a.b.c", "Makefile", ".hidden", "x.", "...", "\u{e9}.\u{e9}"] {
        let by_std = std::path::Path::new(name).extension().map(|e| e.to_str().unwrap().to_string());
        assert_eq!(extension_of(name), by_std, "{}", name);
    }
}
