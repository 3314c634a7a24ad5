use rainbow_ls::config::Config;
use rainbow_ls::display::multiline::{get_column_length, get_column_lengths};
use rainbow_ls::display::{
    build_entries, choose_layout, display_path, render, DirectoryItem, DisplayError, Layout,
};
use rainbow_ls::display::{multiline, one_line, one_per_line};
use rainbow_ls::entry::ColoredEntry;
use rainbow_ls::kind::{Classification, FileType, Kind, Metadata};

fn file() -> Classification {
    Classification {
        kind: Kind::File,
        mode: None,
        size_bytes: None,
        created_at: None,
        modified_at: None,
        accessed_at: None,
    }
}

fn entries(names: &[&str], config: &Config) -> Vec<ColoredEntry> {
    names
        .iter()
        .map(|name| ColoredEntry::new(name.to_string(), None, name.to_string(), file(), config))
        .collect()
}

fn styled(names: &[&str], config: &Config) -> Vec<String> {
    entries(names, config).into_iter().map(|entry| entry.formatted_name).collect()
}

fn narrow(width: usize) -> Config {
    let mut config = Config::new(2, Some(width));
    config.separator = " ".to_string();
    config
}

/// The display width of a line: its characters without the escape sequences.
fn shown_width(line: &str) -> usize {
    let mut width = 0;
    let mut in_escape = false;
    for letter in line.chars() {
        if in_escape {
            in_escape = letter != 'm';
        } else if letter == '\x1b' {
            in_escape = true;
        } else {
            width += 1;
        }
    }
    width
}

#[test]
fn get_column_length_is_the_widest_of_the_column() {
    let config = narrow(9);
    let listing = entries(&["a", "bbbb", "cc", "ddd", "eeeee"], &config);
    // two columns: three rows, the columns are [0, 3) and [3, 5)
    assert_eq!(get_column_length(&listing, 2, 0), 4);
    assert_eq!(get_column_length(&listing, 2, 1), 5);
    assert_eq!(get_column_length(&listing, 2, 2), 0);
    // one column: all of them
    assert_eq!(get_column_length(&listing, 1, 0), 5);
    // four columns: two rows, the last column is empty
    assert_eq!(get_column_length(&listing, 4, 0), 4);
    assert_eq!(get_column_length(&listing, 4, 1), 3);
    assert_eq!(get_column_length(&listing, 4, 2), 5);
    assert_eq!(get_column_length(&listing, 4, 3), 0);
    assert_eq!(get_column_length(&listing, 4, usize::MAX), 0);
}

#[test]
fn get_column_lengths_takes_the_most_columns_that_fit() {
    let config = narrow(9);
    let listing = entries(&["aaa", "bbb", "ccc", "ddd"], &config);
    // three columns of two rows: 3 + 1 + 3 + 1 + 0 = 8
    assert_eq!(get_column_lengths(&config, &listing), vec![3, 3, 0]);
}

#[test]
fn get_column_lengths_goes_on_after_a_count_that_does_not_fit() {
    let config = narrow(13);
    let listing = entries(&["aaaaa", "b", "ccccc", "d", "eeeee", "f"], &config);
    // 4 columns (rows of 2): 5 + 5 + 5 + 0 and 3 gaps = 18; 5 columns: 5 + 5 + 5 + 0 + 0
    // and 4 gaps = 19; 3 columns (rows of 3): 5 + 5 + 0 and 2 gaps = 12
    assert_eq!(get_column_lengths(&config, &listing), vec![5, 5, 0]);
    let config = narrow(19);
    assert_eq!(get_column_lengths(&config, &listing), vec![5, 5, 5, 0, 0]);
}

#[test]
fn get_column_lengths_finds_nothing_where_nothing_fits() {
    let config = narrow(4);
    let listing = entries(&["aaaaa", "bbbbbb"], &config);
    assert!(get_column_lengths(&config, &listing).is_empty());
    let single = entries(&["aaaaa"], &config);
    assert!(get_column_lengths(&config, &single).is_empty());
    assert!(get_column_lengths(&config, &Vec::new()).is_empty());
}

#[test]
fn get_column_lengths_counts_the_separator_by_its_bytes() {
    let mut config = narrow(8);
    let listing = entries(&["aaa", "bbb", "ccc", "ddd"], &config);
    assert_eq!(get_column_lengths(&config, &listing), vec![3, 3, 0]);
    config.separator = "  ".to_string();
    // three columns would take 3 + 2 + 3 + 2 + 0 = 10, two take 3 + 2 + 3 = 8
    assert_eq!(get_column_lengths(&config, &listing), vec![3, 3]);
}

#[test]
fn grid_runs_down_the_columns() {
    let config = narrow(9);
    let names = ["aaa", "bbb", "ccc", "ddd"];
    let text = styled(&names, &config);
    let lines = multiline::show(entries(&names, &config), &config);
    assert_eq!(
        lines,
        vec![format!("{} {}", text[0], text[2]), format!("{} {}", text[1], text[3])]
    );
    assert!(lines.iter().all(|line| shown_width(line) <= 9));
}

#[test]
fn grid_pads_to_the_width_of_the_column() {
    let mut config = narrow(9);
    config.padding = ".".to_string();
    config.separator = "|".to_string();
    let names = ["a", "bbbb", "cc", "ddd", "e"];
    let text = styled(&names, &config);
    // 2 columns fit (4 + 1 + 3), 3 and 4 columns do not: rows of three
    let lines = multiline::show(entries(&names, &config), &config);
    assert_eq!(
        lines,
        vec![
            format!("{}...|{}", text[0], text[3]),
            format!("{}|{}..", text[1], text[4]),
            format!("{}..", text[2]),
        ]
    );
}

#[test]
fn grid_falls_back_to_one_column() {
    let config = narrow(4);
    let names = ["aaaaa", "bbbbbb"];
    let text = styled(&names, &config);
    let lines = multiline::show(entries(&names, &config), &config);
    assert_eq!(lines, vec![format!("{} ", text[0]), text[1].clone(), String::new()]);
}

#[test]
fn one_line_joins_with_the_separator() {
    let config = Config::new(2, Some(80));
    let names = ["a", "bb", "ccc"];
    let text = styled(&names, &config);
    assert_eq!(
        one_line::show(entries(&names, &config), &config),
        format!("{}  {}  {}", text[0], text[1], text[2])
    );
    assert_eq!(one_line::show(entries(&["a"], &config), &config), text[0]);
    assert_eq!(one_line::show(Vec::new(), &config), "");
}

#[test]
fn one_per_line_gives_each_name() {
    let config = Config::new(2, Some(80));
    let names = ["a", "bb", "ccc"];
    assert_eq!(one_per_line::show(entries(&names, &config)), styled(&names, &config));
}

#[test]
fn render_of_nothing_is_nothing() {
    let config = Config::new(2, Some(80));
    assert_eq!(render(Vec::new(), &config), Ok(Vec::new()));
    let mut config = Config::new(2, None);
    config.one_per_line = true;
    assert_eq!(render(Vec::new(), &config), Ok(Vec::new()));
}

#[test]
fn render_of_nothing_still_needs_the_width() {
    let config = Config::new(2, None);
    assert_eq!(render(Vec::new(), &config), Err(DisplayError::WidthUnknown));
}

#[test]
fn render_on_one_line_where_it_fits() {
    let config = narrow(15);
    let names = ["aaa", "bbb", "ccc", "ddd"];
    let text = styled(&names, &config);
    // 4 * 3 + 3 = 15
    assert_eq!(render(entries(&names, &config), &config), Ok(vec![text.join(" ")]));
}

#[test]
fn render_in_a_grid_where_one_line_is_too_wide() {
    for width in [9usize, 14] {
        let config = narrow(width);
        let names = ["aaa", "bbb", "ccc", "ddd"];
        let text = styled(&names, &config);
        let lines = render(entries(&names, &config), &config).unwrap();
        assert_eq!(
            lines,
            vec![format!("{} {}", text[0], text[2]), format!("{} {}", text[1], text[3])]
        );
    }
}

#[test]
fn render_never_breaks_a_single_entry() {
    let config = narrow(3);
    let names = ["much-too-wide"];
    assert_eq!(render(entries(&names, &config), &config), Ok(styled(&names, &config)));
}

#[test]
fn render_needs_the_width() {
    let config = Config::new(2, None);
    assert_eq!(render(entries(&["a", "b"], &config), &config), Err(DisplayError::WidthUnknown));
}

#[test]
fn render_one_per_line_needs_no_width() {
    let mut config = Config::new(2, None);
    config.one_per_line = true;
    let names = ["a", "b"];
    assert_eq!(render(entries(&names, &config), &config), Ok(styled(&names, &config)));
}

#[test]
fn render_keeps_every_row_within_the_width() {
    let names = [
        "Cargo.toml", "Cargo.lock", "README.md", "src", "tests", "target", "a", "LICENSE",
        "build.rs", "rustfmt.toml", "x.y", "benches", "examples",
    ];
    for width in 12..70 {
        let config = Config::new(5, Some(width));
        let lines = render(entries(&names, &config), &config).unwrap();
        assert!(lines.iter().all(|line| shown_width(line) <= width), "width {}", width);
        let shown: usize = lines.iter().map(|line| line.matches("\x1b[0;00m").count()).sum();
        assert_eq!(shown, names.len());
    }
}

fn item(name: &str, file_type: Option<FileType>) -> DirectoryItem {
    DirectoryItem {
        name: name.to_string(),
        extension: name.rsplit_once('.').map(|(_, ending)| ending.to_string()),
        path: format!("./{}", name),
        metadata: file_type.map(|file_type| Metadata {
            file_type,
            mode: Some(0o644),
            len: 1,
            created: None,
            modified: None,
            accessed: None,
        }),
    }
}

#[test]
fn build_entries_leaves_out_what_is_not_listed() {
    let config = Config::new(2, Some(80));
    let items = vec![
        item(".git", Some(FileType::Directory)),
        item("src", Some(FileType::Directory)),
        item("notes.txt~", Some(FileType::Regular)),
        item("gone", None),
        item("main.rs", Some(FileType::Regular)),
    ];
    let built = build_entries(&config, &items);
    let got: Vec<(String, Kind)> =
        built.iter().map(|entry| (entry.name.clone(), entry.kind)).collect();
    assert_eq!(
        got,
        vec![
            ("src".to_string(), Kind::Directory),
            ("gone".to_string(), Kind::Unknown),
            ("main.rs".to_string(), Kind::File),
        ]
    );
    assert_eq!(built[1].size_bytes, None);
    assert_eq!(built[2].size_bytes, Some(1));
    assert_eq!(built[2].path, "./main.rs");
    assert_eq!(built[2].extension.as_deref(), Some("rs"));
}

#[test]
fn display_path_lists_a_directory() {
    let mut config = Config::new(2, Some(80));
    config.group_directories_first = true;
    config.sort_by = rainbow_ls::config::SortingReference::Name;
    let items = vec![
        item("main.rs", Some(FileType::Regular)),
        item(".hidden", Some(FileType::Regular)),
        item("src", Some(FileType::Directory)),
        item("Cargo.toml", Some(FileType::Regular)),
    ];
    let lines = display_path(&config, &items).unwrap();
    assert_eq!(lines.len(), 1);
    let line = &lines[0];
    let src = line.find("src/").unwrap();
    let cargo = line.find("Cargo.toml").unwrap();
    let main = line.find("main.rs").unwrap();
    assert!(src < cargo && cargo < main);
    assert!(!line.contains(".hidden"));
    assert_eq!(shown_width(line), 4 + 2 + 10 + 2 + 7);
}

#[test]
fn display_path_reports_an_unknown_width() {
    let config = Config::new(2, None);
    let items = vec![item("a", Some(FileType::Regular))];
    assert_eq!(display_path(&config, &items), Err(DisplayError::WidthUnknown));
    assert_eq!(display_path(&config, &Vec::new()), Err(DisplayError::WidthUnknown));
    let hidden = vec![item(".hidden", Some(FileType::Regular))];
    assert_eq!(display_path(&config, &hidden), Err(DisplayError::WidthUnknown));
    let known = Config::new(2, Some(80));
    assert_eq!(display_path(&known, &Vec::new()), Ok(Vec::new()));
}

#[test]
fn choose_layout_asks_the_settings_in_order() {
    let mut config = Config::new(2, Some(80));
    assert_eq!(choose_layout(&config), Layout::Columns);
    config.is_long_listing = true;
    assert_eq!(choose_layout(&config), Layout::LongListing);
    config.one_per_line = true;
    assert_eq!(choose_layout(&config), Layout::OnePerLine);
    config.is_long_listing = false;
    assert_eq!(choose_layout(&config), Layout::OnePerLine);
}
