use robozzle::level::ParseError;
use robozzle::loader::load_levels;

fn file(name: &str, content: &[u8]) -> (String, Vec<u8>) {
    (name.to_string(), content.to_vec())
}

#[test]
fn files_sort_numerically_not_lexically() {
    let files = vec![
        file("10.txt", b"LEVEL ten\nSIZE 1 1\nGRID:\n.\n"),
        file("2.txt", b"LEVEL two\nSIZE 1 1\nGRID:\n.\n"),
        file("1.txt", b"LEVEL one\nSIZE 1 1\nGRID:\n.\n"),
    ];
    let levels = load_levels(&files).unwrap();
    assert_eq!(levels.len(), 3);
    assert_eq!(levels[0].name, "one");
    assert_eq!(levels[1].name, "two");
    assert_eq!(levels[2].name, "ten");
    // ids follow the load order
    assert_eq!(levels[0].id, 0);
    assert_eq!(levels[1].id, 1);
    assert_eq!(levels[2].id, 2);
}

#[test]
fn non_numeric_or_non_txt_names_are_ignored() {
    let files = vec![
        file("readme.md", b"whatever"),
        file("notes.txt", b"not a level"),
        file("3.txt", b"LEVEL three\nSIZE 1 1\nGRID:\n.\n"),
        file("3.backup.txt", b"ignored"),
        file("4", b"ignored"),
    ];
    let levels = load_levels(&files).unwrap();
    assert_eq!(levels.len(), 1);
    assert_eq!(levels[0].name, "three");
}

#[test]
fn an_empty_listing_loads_no_levels() {
    let levels = load_levels(&vec![]).unwrap();
    assert!(levels.is_empty());
}

#[test]
fn one_bad_file_aborts_the_batch_and_names_it() {
    let files = vec![
        file("1.txt", b"SIZE 1 1\nGRID:\n.\n"),
        file("2.txt", b"SIZE x 1\nGRID:\n.\n"),
    ];
    let err = load_levels(&files).unwrap_err();
    assert_eq!(err.file_name, "2.txt");
    assert_eq!(err.error, ParseError::BadWidth);
}
