use movie_scan::extract::MovieEntry;
use movie_scan::route::FileOutcome;
use movie_scan::route::route;
use movie_scan::route::scan;

#[test]
fn disallowed_extension_is_ignored() {
    // the name itself would match the pattern, yet the extension filter comes first
    let r = route("@user/Title [id].txt");
    assert_eq!(r, FileOutcome::Ignored);
}

#[test]
fn allowed_extensions_reach_extraction() {
    for path in [
        "@user/Title [id].mkv",
        "@user/Title [id].mp4",
        "@user/Title [id].webm",
    ] {
        let expected = FileOutcome::Record(MovieEntry {
            id: "id".to_owned(),
            user: "@user".to_owned(),
            title: "Title".to_owned(),
        });
        assert_eq!(route(path), expected);
    }
}

#[test]
fn no_extension_is_not_filtered() {
    // a file with no extension at all bypasses the allow-list filter
    let r = route("@user/Title [id]");
    let expected = FileOutcome::Record(MovieEntry {
        id: "id".to_owned(),
        user: "@user".to_owned(),
        title: "Title".to_owned(),
    });
    assert_eq!(r, expected);
}

#[test]
fn hidden_file_has_no_extension() {
    assert_eq!(route("@user/.hidden"), FileOutcome::Failed);
}

#[test]
fn failed_extraction_is_reported() {
    assert_eq!(route("@user/Title.mkv"), FileOutcome::Failed);
    assert_eq!(route("plain/Title [id].mkv"), FileOutcome::Failed);
}

#[test]
fn case_sensitive_extension_gate() {
    assert_eq!(route("@user/Title [id].MKV"), FileOutcome::Ignored);
}

#[test]
fn scan_twice_gives_identical_outcomes() {
    let paths = vec![
        "@user/Title [id].mkv".to_owned(),
        "@user/other.txt".to_owned(),
        "@user/broken.webm".to_owned(),
    ];
    let first = scan(&paths);
    let second = scan(&paths);
    assert_eq!(first, second);
}

#[test]
fn scan_of_nothing_outputs_nothing() {
    let paths: Vec<String> = Vec::new();
    let r = scan(&paths);
    assert_eq!(r.len(), 0);
}

#[test]
fn scan_keeps_listing_order() {
    let paths = vec![
        "@user/a [1].mkv".to_owned(),
        "@user/b.txt".to_owned(),
        "@user/c.webm".to_owned(),
    ];
    let r = scan(&paths);
    assert_eq!(r.len(), 3);
    assert!(matches!(r[0], FileOutcome::Record(_)));
    assert_eq!(r[1], FileOutcome::Ignored);
    assert_eq!(r[2], FileOutcome::Failed);
}
