use movie_scan::extract::MovieEntry;
use movie_scan::extract::extract_user_name;
use movie_scan::pattern::extract_id;
use movie_scan::paths::stem_and_ext;

#[test]
fn movie_info_extraction() {
    let path = "./@path/to/@foobar/baz/@FooBar (2024年11月1日) [aBcDeFgHiJkL].webm";
    let actual = MovieEntry::from_path(path);
    let expected = Some(MovieEntry {
        id: "aBcDeFgHiJkL".to_owned(),
        user: "@foobar".to_owned(),
        title: "@FooBar (2024年11月1日)".to_owned(),
    });
    assert_eq!(actual, expected);
}

#[test]
fn title_and_id_from_simple_stem() {
    let r = extract_id("Video Title [abc123]");
    assert_eq!(r, Some(("abc123".to_owned(), "Video Title".to_owned())));
}

#[test]
fn stem_without_bracket_fails() {
    assert_eq!(extract_id("no brackets here"), None);
    assert_eq!(extract_id(""), None);
}

#[test]
fn empty_id_fails() {
    assert_eq!(extract_id("Title []"), None);
}

#[test]
fn missing_separator_fails() {
    assert_eq!(extract_id("Title[abc]"), None);
}

#[test]
fn whitespace_only_title_fails() {
    assert_eq!(extract_id("   [abc]"), None);
}

#[test]
fn whitespace_run_is_stripped_from_title() {
    let r = extract_id("Title   [abc]");
    assert_eq!(r, Some(("abc".to_owned(), "Title".to_owned())));
}

#[test]
fn id_may_contain_an_opening_bracket() {
    let r = extract_id("a [b[c]");
    assert_eq!(r, Some(("b[c".to_owned(), "a".to_owned())));
}

#[test]
fn rightmost_bracket_wins() {
    let r = extract_id("a [b] [c]");
    assert_eq!(r, Some(("c".to_owned(), "a [b]".to_owned())));
}

#[test]
fn no_owner_yields_none() {
    assert_eq!(MovieEntry::from_path("plain/dir/Title [id].mkv"), None);
}

#[test]
fn nearest_owner_wins() {
    let r = MovieEntry::from_path("/@outer/mid/@inner/Title [id].mkv");
    let expected = Some(MovieEntry {
        id: "id".to_owned(),
        user: "@inner".to_owned(),
        title: "Title".to_owned(),
    });
    assert_eq!(r, expected);
}

#[test]
fn own_name_is_not_an_owner() {
    // the @ on the file's own name does not count; only ancestors do
    assert_eq!(MovieEntry::from_path("plain/@Title [id].mkv"), None);
}

#[test]
fn user_name_needs_the_sigil() {
    assert_eq!(extract_user_name("@abc"), Some("@abc".to_owned()));
    assert_eq!(extract_user_name("abc"), None);
    assert_eq!(extract_user_name(""), None);
}

#[test]
fn stem_splits_at_last_dot() {
    assert_eq!(
        stem_and_ext("a.b.c"),
        ("a.b".to_owned(), Some("c".to_owned()))
    );
    assert_eq!(stem_and_ext("name"), ("name".to_owned(), None));
    assert_eq!(stem_and_ext("name."), ("name".to_owned(), Some("".to_owned())));
    assert_eq!(stem_and_ext(".hidden"), (".hidden".to_owned(), None));
}
