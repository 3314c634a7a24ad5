use rainbow_ls::config::Config;
use rainbow_ls::display::utils::is_allowed_filename;
use rainbow_ls::subparsers::regex_patterns;

#[test]
fn dotfiles_are_hidden_unless_shown() {
    let mut config = Config::new(2, Some(80));
    assert!(!is_allowed_filename(&config, ".bashrc"));
    assert!(!is_allowed_filename(&config, "."));
    assert!(is_allowed_filename(&config, "bash.rc"));
    config.show_dotfiles = true;
    assert!(is_allowed_filename(&config, ".bashrc"));
}

#[test]
fn backups_are_hidden_unless_shown() {
    let mut config = Config::new(2, Some(80));
    assert!(!is_allowed_filename(&config, "notes.txt~"));
    assert!(!is_allowed_filename(&config, "~"));
    assert!(is_allowed_filename(&config, "~notes"));
    config.show_backups = true;
    assert!(is_allowed_filename(&config, "notes.txt~"));
}

#[test]
fn names_of_many_bytes_are_read_by_character() {
    let config = Config::new(2, Some(80));
    assert!(is_allowed_filename(&config, "\u{e9}t\u{e9}"));
    assert!(is_allowed_filename(&config, "\u{1F1EB}\u{1F1F7}"));
    assert!(!is_allowed_filename(&config, "\u{e9}~"));
}

#[test]
fn the_empty_name_is_listed() {
    let config = Config::new(2, Some(80));
    assert!(is_allowed_filename(&config, ""));
}

#[test]
fn an_include_pattern_lists_what_it_matches() {
    let mut config = Config::new(2, Some(80));
    config.include_pattern = Some(regex_patterns(r"\.rs$".to_string()).unwrap());
    assert!(is_allowed_filename(&config, "main.rs"));
    assert!(!is_allowed_filename(&config, "main.rs.bak"));
    assert!(!is_allowed_filename(&config, ".hidden.rs"));
}

#[test]
fn an_exclude_pattern_lists_what_it_does_not_match() {
    let mut config = Config::new(2, Some(80));
    config.exclude_pattern = Some(regex_patterns("^target".to_string()).unwrap());
    assert!(!is_allowed_filename(&config, "target"));
    assert!(!is_allowed_filename(&config, "targets.txt"));
    assert!(is_allowed_filename(&config, "my-target"));
}

#[test]
fn the_include_pattern_is_asked_before_the_exclude_pattern() {
    let mut config = Config::new(2, Some(80));
    config.include_pattern = Some(regex_patterns("a".to_string()).unwrap());
    config.exclude_pattern = Some(regex_patterns("a".to_string()).unwrap());
    assert!(is_allowed_filename(&config, "a"));
    assert!(!is_allowed_filename(&config, "b"));
}

#[test]
fn a_pattern_searches_the_text_it_is_given() {
    let mut config = Config::new(2, Some(80));
    config.include_pattern = Some(regex_patterns("^[0-9]+$".to_string()).unwrap());
    assert!(is_allowed_filename(&config, "2024"));
    assert!(!is_allowed_filename(&config, "^[0-9]+$"));
}
