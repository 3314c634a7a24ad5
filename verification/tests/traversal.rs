use rainbow_ls::config::Config;
use rainbow_ls::kind::FileType;
use rainbow_ls::traversal::{Child, Traversal};

fn child(path: &str, file_type: Option<FileType>, link_target: Option<&str>) -> Child {
    Child {
        path: path.to_string(),
        file_type,
        link_target: link_target.map(|target| target.to_string()),
    }
}

fn drain(walk: &mut Traversal) -> Vec<String> {
    let mut paths = Vec::new();
    while let Some(path) = walk.next() {
        paths.push(path);
    }
    paths
}

#[test]
fn a_walk_starts_with_its_paths_in_order() {
    let mut walk = Traversal::new(vec!["b".to_string(), "a".to_string(), "b".to_string()]);
    assert_eq!(drain(&mut walk), vec!["b", "a", "b"]);
    assert_eq!(walk.next(), None);
}

#[test]
fn a_walk_of_nothing_ends_at_once() {
    let mut walk = Traversal::new(Vec::new());
    assert_eq!(walk.next(), None);
}

#[test]
fn directories_join_the_end_of_the_line() {
    let config = Config::new(2, Some(80));
    let mut walk = Traversal::new(vec!["top".to_string(), "other".to_string()]);
    assert_eq!(walk.next(), Some("top".to_string()));
    walk.enqueue_children(
        &config,
        &vec![
            child("top/file", Some(FileType::Regular), None),
            child("top/sub", Some(FileType::Directory), None),
            child("top/odd", Some(FileType::Other), None),
            child("top/unreadable", None, None),
            child("top/more", Some(FileType::Directory), None),
        ],
    );
    assert_eq!(drain(&mut walk), vec!["other", "top/sub", "top/more"]);
}

#[test]
fn a_path_is_put_in_line_once() {
    let config = Config::new(2, Some(80));
    let mut walk = Traversal::new(Vec::new());
    let children = vec![
        child("a", Some(FileType::Directory), None),
        child("b", Some(FileType::Directory), None),
        child("a", Some(FileType::Directory), None),
    ];
    walk.enqueue_children(&config, &children);
    walk.enqueue_children(&config, &children);
    assert_eq!(drain(&mut walk), vec!["a", "b"]);
    walk.enqueue_children(&config, &children);
    assert_eq!(walk.next(), None);
}

#[test]
fn symbolic_links_are_walked_only_where_followed() {
    let children = vec![
        child("link", Some(FileType::Symlink), Some("/elsewhere")),
        child("dangling", Some(FileType::Symlink), None),
    ];
    let mut config = Config::new(2, Some(80));
    let mut walk = Traversal::new(Vec::new());
    walk.enqueue_children(&config, &children);
    assert_eq!(walk.next(), None);
    config.follow_symlinks = true;
    walk.enqueue_children(&config, &children);
    assert_eq!(drain(&mut walk), vec!["/elsewhere", "dangling"]);
}

#[test]
fn a_ring_of_links_ends() {
    let mut config = Config::new(2, Some(80));
    config.follow_symlinks = true;
    let mut walk = Traversal::new(vec!["ring".to_string()]);
    let mut walked = 0;
    while let Some(path) = walk.next() {
        walked += 1;
        assert!(walked < 10);
        assert_eq!(path, "ring");
        walk.enqueue_children(&config, &vec![child("ring/again", Some(FileType::Symlink), Some("ring"))]);
    }
    assert_eq!(walked, 2);
}
