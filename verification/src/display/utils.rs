//! Which entries of a directory are listed.

use crate::config::Config;
use crate::pattern::regex_matches;
use vstd::prelude::*;
use vstd::string::*;

verus! {

/// The name of a hidden entry: it begins with a dot.
pub open spec fn is_dotfile(name: Seq<char>) -> bool {
    name.len() > 0 && name[0] == '.'
}

/// The name of a backup: it ends with a tilde.
pub open spec fn is_backup(name: Seq<char>) -> bool {
    name.len() > 0 && name.last() == '~'
}

/// Whether an entry named `name` is listed.
///
/// Hidden entries and backups are left out unless `config` shows them. Of
/// what is left, a pattern to include lists exactly the names it matches;
/// without one, a pattern to exclude lists exactly the names it does not
/// match. Where both are set, only the pattern to include is asked.
pub open spec fn allowed(config: Config, name: Seq<char>) -> bool {
    if !config.show_dotfiles && is_dotfile(name) {
        false
    } else if !config.show_backups && is_backup(name) {
        false
    } else if config.include_pattern is Some {
        regex_matches(config.include_pattern->0.source(), name)
    } else if config.exclude_pattern is Some {
        !regex_matches(config.exclude_pattern->0.source(), name)
    } else {
        true
    }
}

/// Whether an entry named `lossy_file_name` is listed.
pub fn is_allowed_filename(config: &Config, lossy_file_name: &str) -> (listed: bool)
    ensures
        listed == allowed(*config, lossy_file_name@),
{
    let length = lossy_file_name.unicode_len();
    if length > 0 {
        if !config.show_dotfiles && lossy_file_name.get_char(0) == '.' {
            return false;
        }
        if !config.show_backups && lossy_file_name.get_char(length - 1) == '~' {
            return false;
        }
    }
    match &config.include_pattern {
        Some(include_pattern) => include_pattern.search(lossy_file_name),
        None => match &config.exclude_pattern {
            Some(exclude_pattern) => !exclude_pattern.search(lossy_file_name),
            None => true,
        },
    }
}

} // verus!
