use sway_tools::path::{extension, file_name, file_stem, join};

fn some(s: &str) -> Option<String> {
    Some(s.to_string())
}

#[test]
fn file_name_is_the_last_component() {
    assert_eq!(file_name("/a/photo.png"), some("photo.png"));
    assert_eq!(file_name("photo.png"), some("photo.png"));
    assert_eq!(file_name("a//b"), some("b"));
    assert_eq!(file_name("..."), some("..."));
}

#[test]
fn file_name_ignores_trailing_separators_and_dots() {
    assert_eq!(file_name("/a/b/"), some("b"));
    assert_eq!(file_name("/a/b/."), some("b"));
    assert_eq!(file_name("a/./"), some("a"));
    assert_eq!(file_name("a/b//"), some("b"));
}

#[test]
fn file_name_is_absent_without_a_normal_last_component() {
    assert_eq!(file_name(""), None);
    assert_eq!(file_name("/"), None);
    assert_eq!(file_name("."), None);
    assert_eq!(file_name("./"), None);
    assert_eq!(file_name("/."), None);
    assert_eq!(file_name(".."), None);
    assert_eq!(file_name("a/.."), None);
}

#[test]
fn file_stem_drops_the_final_extension_only() {
    assert_eq!(file_stem("/a/photo.png"), some("photo"));
    assert_eq!(file_stem("archive.tar.gz"), some("archive.tar"));
    assert_eq!(file_stem("noext"), some("noext"));
    assert_eq!(file_stem("trailing."), some("trailing"));
    assert_eq!(file_stem(".hidden.png"), some(".hidden"));
    assert_eq!(file_stem("/dir.d/name"), some("name"));
}

#[test]
fn file_stem_is_absent_for_a_bare_extension() {
    assert_eq!(file_stem(".png"), None);
    assert_eq!(file_stem("/a/.jpg"), None);
    assert_eq!(file_stem(""), None);
    assert_eq!(file_stem("/"), None);
    assert_eq!(file_stem("a/.."), None);
}

#[test]
fn extension_is_what_follows_the_last_dot() {
    assert_eq!(extension("/a/photo.png"), some("png"));
    assert_eq!(extension("archive.tar.gz"), some("gz"));
    assert_eq!(extension("trailing."), some(""));
    assert_eq!(extension("noext"), None);
    assert_eq!(extension(".png"), None);
    assert_eq!(extension("/a.b/c"), None);
    assert_eq!(extension("PHOTO.JPG"), some("JPG"));
}

#[test]
fn join_puts_one_separator_between() {
    assert_eq!(join("/out", "photo.jpg"), "/out/photo.jpg");
    assert_eq!(join("/out/", "photo.jpg"), "/out/photo.jpg");
    assert_eq!(join("", "photo.jpg"), "photo.jpg");
    assert_eq!(join("/", "photo.jpg"), "/photo.jpg");
}

#[test]
fn paths_may_hold_any_unicode() {
    assert_eq!(file_stem("/père/noël.jpeg"), some("noël"));
    assert_eq!(extension("/père/noël.jpeg"), some("jpeg"));
    assert_eq!(join("/père", "noël.jpg"), "/père/noël.jpg");
}
