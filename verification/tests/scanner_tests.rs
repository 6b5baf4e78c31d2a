use sway_tools::error::PipelineError;
use sway_tools::scanner::{has_allowed_extension, DirEntry, EntryKind, Scanner, MAX_DEPTH};

fn entry(path: &str, kind: EntryKind) -> DirEntry {
    DirEntry { path: path.to_string(), kind }
}

fn dir(path: &str) -> DirEntry {
    entry(path, EntryKind::Directory)
}

fn file(path: &str) -> DirEntry {
    entry(path, EntryKind::File)
}

/// Runs a scan over a tree that is given as a list of directories with their
/// listings; a directory that the list lacks cannot be read.
fn scan(
    tree: &[(&str, Vec<DirEntry>)],
    root: &str,
    max_depth: usize,
) -> (Result<Vec<String>, PipelineError>, Vec<String>) {
    let mut scanner = Scanner::new(root, max_depth);
    let mut read = Vec::new();
    while let Some(next) = scanner.next_directory() {
        read.push(next.clone());
        let listing = match tree.iter().find(|(path, _)| *path == next) {
            Some((_, entries)) => Ok(entries.clone()),
            None => Err(format!("cannot read {}", next)),
        };
        scanner.listed(listing);
    }
    assert!(scanner.is_finished());
    (scanner.finish(), read)
}

fn sorted(mut v: Vec<String>) -> Vec<String> {
    v.sort();
    v
}

#[test]
fn the_default_depth_is_two() {
    assert_eq!(MAX_DEPTH, 2);
}

#[test]
fn only_the_three_lowercase_extensions_are_images() {
    assert!(has_allowed_extension("/w/a.jpg"));
    assert!(has_allowed_extension("/w/a.jpeg"));
    assert!(has_allowed_extension("/w/a.png"));
    assert!(has_allowed_extension("/w/archive.tar.png"));
    assert!(!has_allowed_extension("/w/a.JPG"));
    assert!(!has_allowed_extension("/w/a.Png"));
    assert!(!has_allowed_extension("/w/a.gif"));
    assert!(!has_allowed_extension("/w/a.jpg.txt"));
    assert!(!has_allowed_extension("/w/jpg"));
    assert!(!has_allowed_extension("/w/.png"));
    assert!(!has_allowed_extension("/w/a."));
    assert!(!has_allowed_extension("/w.png/a"));
}

#[test]
fn scan_of_an_empty_directory_finds_nothing() {
    let tree = [("/w", vec![])];
    let (found, read) = scan(&tree, "/w", 2);
    assert_eq!(found, Ok(Vec::new()));
    assert_eq!(read, vec!["/w"]);
}

#[test]
fn scan_keeps_files_and_links_with_allowed_extensions() {
    let tree = [(
        "/w",
        vec![
            file("/w/a.png"),
            file("/w/notes.txt"),
            entry("/w/link.jpg", EntryKind::Symlink),
            entry("/w/socket.png", EntryKind::Other),
            file("/w/B.JPG"),
            file("/w/c.jpeg"),
        ],
    )];
    let (found, _) = scan(&tree, "/w", 2);
    assert_eq!(found, Ok(vec!["/w/a.png".to_string(), "/w/link.jpg".to_string(), "/w/c.jpeg".to_string()]));
}

#[test]
fn scan_does_not_take_a_directory_for_an_image() {
    let tree = [("/w", vec![dir("/w/album.png")]), ("/w/album.png", vec![file("/w/album.png/x.jpg")])];
    let (found, read) = scan(&tree, "/w", 2);
    assert_eq!(found, Ok(vec!["/w/album.png/x.jpg".to_string()]));
    assert_eq!(read, vec!["/w", "/w/album.png"]);
}

fn deep_tree() -> Vec<(&'static str, Vec<DirEntry>)> {
    vec![
        ("/w", vec![dir("/w/1"), file("/w/readme.txt")]),
        ("/w/1", vec![dir("/w/1/2")]),
        ("/w/1/2", vec![dir("/w/1/2/3")]),
        ("/w/1/2/3", vec![file("/w/1/2/3/deep.png"), dir("/w/1/2/3/4")]),
        ("/w/1/2/3/4", vec![]),
    ]
}

#[test]
fn scan_stops_at_the_depth_limit() {
    let tree = deep_tree();
    let (found, read) = scan(&tree, "/w", 2);
    assert_eq!(found, Ok(Vec::new()));
    assert_eq!(read, vec!["/w", "/w/1", "/w/1/2"]);
}

#[test]
fn scan_finds_deeper_files_with_a_deeper_limit() {
    let tree = deep_tree();
    let (found, read) = scan(&tree, "/w", 3);
    assert_eq!(found, Ok(vec!["/w/1/2/3/deep.png".to_string()]));
    assert_eq!(read, vec!["/w", "/w/1", "/w/1/2", "/w/1/2/3"]);
}

#[test]
fn scan_with_depth_zero_reads_the_root_only() {
    let tree = [("/w", vec![file("/w/a.png"), dir("/w/sub")]), ("/w/sub", vec![file("/w/sub/b.png")])];
    let (found, read) = scan(&tree, "/w", 0);
    assert_eq!(found, Ok(vec!["/w/a.png".to_string()]));
    assert_eq!(read, vec!["/w"]);
}

#[test]
fn scan_includes_every_image_within_depth_exactly_once() {
    let tree = [
        ("/w", vec![file("/w/a.png"), dir("/w/x"), file("/w/b.jpg"), dir("/w/y")]),
        ("/w/x", vec![file("/w/x/c.jpeg"), dir("/w/x/p"), file("/w/x/skip.bmp")]),
        ("/w/y", vec![file("/w/y/d.png")]),
        ("/w/x/p", vec![file("/w/x/p/e.png"), dir("/w/x/p/too_deep")]),
        ("/w/x/p/too_deep", vec![file("/w/x/p/too_deep/f.png")]),
    ];
    let (found, read) = scan(&tree, "/w", MAX_DEPTH);
    assert_eq!(
        sorted(found.unwrap()),
        vec!["/w/a.png", "/w/b.jpg", "/w/x/c.jpeg", "/w/x/p/e.png", "/w/y/d.png"]
    );
    assert_eq!(sorted(read), vec!["/w", "/w/x", "/w/x/p", "/w/y"]);
}

#[test]
fn one_failed_read_fails_the_whole_scan() {
    let tree = [("/w", vec![file("/w/a.png"), dir("/w/locked"), dir("/w/open")]), ("/w/open", vec![file("/w/open/b.png")])];
    let (found, _) = scan(&tree, "/w", 2);
    assert_eq!(found, Err(PipelineError::Io("cannot read /w/locked".to_string())));
}

#[test]
fn a_failed_read_of_the_root_fails_the_scan() {
    let (found, read) = scan(&[], "/missing", 2);
    assert_eq!(found, Err(PipelineError::Io("cannot read /missing".to_string())));
    assert_eq!(read, vec!["/missing"]);
}

#[test]
fn a_failed_scan_asks_for_no_further_directory() {
    let mut scanner = Scanner::new("/w", 2);
    assert_eq!(scanner.next_directory(), Some("/w".to_string()));
    scanner.listed(Ok(vec![dir("/w/a"), dir("/w/b")]));
    assert!(!scanner.is_finished());
    assert_eq!(scanner.next_directory(), Some("/w/b".to_string()));
    scanner.listed(Err("gone".to_string()));
    assert!(scanner.is_finished());
    assert_eq!(scanner.next_directory(), None);
    assert_eq!(scanner.finish(), Err(PipelineError::Io("gone".to_string())));
}

#[test]
fn a_listing_that_was_not_asked_for_changes_nothing() {
    let mut scanner = Scanner::new("/w", 2);
    scanner.listed(Ok(vec![file("/w/a.png")]));
    scanner.listed(Err("stray".to_string()));
    assert!(!scanner.is_finished());
    assert_eq!(scanner.next_directory(), Some("/w".to_string()));
    scanner.listed(Ok(vec![]));
    assert_eq!(scanner.finish(), Ok(Vec::new()));
}
