use symbolic::parse_links;
use symbolic::run;
use symbolic::ParseError;
use symbolic::PathError;

#[test]
fn two_pairs_in_order() {
    let pairs = parse_links("/a -> /b\n/c -> /d".to_string(), "/h", "/c").unwrap();
    assert_eq!(
        pairs,
        vec![("/a".to_string(), "/b".to_string()), ("/c".to_string(), "/d".to_string())]
    );
}

#[test]
fn missing_delimiter_cites_line_number() {
    let err = parse_links("/a -> /b\nbadline".to_string(), "/h", "/c").unwrap_err();
    match err {
        ParseError::Syntax { line, found } => {
            assert_eq!(line, 2);
            assert_eq!(found, "badline");
        }
        other => panic!("expected a syntax error, got {:?}", other),
    }
}

#[test]
fn blank_lines_are_skipped_but_counted() {
    let pairs = parse_links("\n/a -> /b\n\n".to_string(), "/h", "/c").unwrap();
    assert_eq!(pairs, vec![("/a".to_string(), "/b".to_string())]);

    let err = parse_links("/a -> /b\n\nbad".to_string(), "/h", "/c").unwrap_err();
    match err {
        ParseError::Syntax { line, .. } => assert_eq!(line, 3),
        other => panic!("expected a syntax error, got {:?}", other),
    }
}

#[test]
fn crlf_line_endings_are_accepted() {
    let pairs = parse_links("/a -> /b\r\n/c -> /d\r\n".to_string(), "/h", "/c").unwrap();
    assert_eq!(
        pairs,
        vec![("/a".to_string(), "/b".to_string()), ("/c".to_string(), "/d".to_string())]
    );
}

#[test]
fn empty_manifest_yields_no_pairs() {
    assert_eq!(parse_links(String::new(), "/h", "/c").unwrap(), vec![]);
}

#[test]
fn empty_side_fails_with_path_error() {
    let err = parse_links(" -> /b".to_string(), "/h", "/c").unwrap_err();
    match err {
        ParseError::Path { err } => assert_eq!(err, PathError::EmptyPath),
        other => panic!("expected a path error, got {:?}", other),
    }
}

#[test]
fn sides_are_normalized() {
    let pairs = parse_links("~/x -> ./y".to_string(), "/home/u", "/cur").unwrap();
    assert_eq!(pairs, vec![("/home/u/x".to_string(), "/cur/y".to_string())]);
}

#[test]
fn first_delimiter_occurrence_splits() {
    let pairs = parse_links("/a -> /b -> /c".to_string(), "/h", "/c").unwrap();
    assert_eq!(pairs, vec![("/a".to_string(), "/b -> /c".to_string())]);
}

#[test]
fn run_renders_syntax_message() {
    let msg = run("bad".to_string(), "/h", "/c").unwrap_err();
    assert_eq!(
        msg,
        "Syntax error in line 1. Expected the following pattern: SRC_PATH -> DEST_PATH. Found: bad"
    );
}

#[test]
fn run_renders_line_numbers_in_decimal() {
    let mut text = String::new();
    for _ in 0..11 {
        text.push('\n');
    }
    text.push_str("oops");
    let msg = run(text, "/h", "/c").unwrap_err();
    assert!(msg.starts_with("Syntax error in line 12."));
}

#[test]
fn run_renders_empty_path_message() {
    let msg = run("/a -> ".to_string(), "/h", "/c").unwrap_err();
    assert_eq!(msg, "Empty path");
}

#[test]
fn run_passes_pairs_through() {
    let pairs = run("/a -> /b".to_string(), "/h", "/c").unwrap();
    assert_eq!(pairs, vec![("/a".to_string(), "/b".to_string())]);
}
