use loctool::file_handler::FileHandler;
use loctool::search::{search_file_pattern, search_file_todo, Search, SearchResult};

#[test]
fn literal_search_is_order_preserving_and_exhaustive() {
    let content = "one\nthe pat here\nthree\nfour\nfive\nsix\nseven\neight\n  pat again  ";
    let handler = FileHandler::new("notes.txt");
    let matches = handler.search_pattern(content, "pat");
    assert_eq!(
        matches,
        vec![(2, "the pat here".to_string()), (9, "pat again".to_string())]
    );
}

#[test]
fn search_trims_reported_lines() {
    let handler = FileHandler::new("a.txt");
    let matches = handler.search_pattern("\t  hit here \t\nmiss", "hit");
    assert_eq!(matches, vec![(1, "hit here".to_string())]);
}

#[test]
fn search_reports_line_once_for_repeated_pattern() {
    let handler = FileHandler::new("a.txt");
    let matches = handler.search_pattern("ababab\nnone", "ab");
    assert_eq!(matches, vec![(1, "ababab".to_string())]);
}

#[test]
fn empty_pattern_matches_every_line() {
    let handler = FileHandler::new("a.txt");
    let matches = handler.search_pattern("x\ny", "");
    assert_eq!(matches, vec![(1, "x".to_string()), (2, "y".to_string())]);
}

#[test]
fn search_file_pattern_none_without_match() {
    assert!(search_file_pattern("a.txt", "nothing here", "zzz").is_none());
    let found = search_file_pattern("a.txt", "zzz here", "zzz").unwrap();
    assert_eq!(found.file_name, "a.txt");
    assert_eq!(found.lines, vec![(1, "zzz here".to_string())]);
}

#[test]
fn todo_extraction() {
    let content = "a\nb\nc\nd\n// TODO fix bug\n";
    let found = search_file_todo("src.rs", content).expect("recognized language with a TODO");
    assert_eq!(found.file_name, "src.rs");
    assert_eq!(found.lines, vec![(5, "fix bug".to_string())]);

    // The same content under an unrecognized extension yields no TODO
    // match at all.
    assert!(search_file_todo("src.xyz", content).is_none());
}

#[test]
fn todo_uses_text_after_last_todo_token() {
    let content = "// TODO TODO twice\n";
    let found = search_file_todo("a.rs", content).unwrap();
    assert_eq!(found.lines, vec![(1, "twice".to_string())]);
}

#[test]
fn todo_requires_marker_and_space() {
    // The effective pattern is the comment marker, a space, then TODO:
    // a plain TODO without the marker is not reported.
    assert!(search_file_todo("a.rs", "TODO without marker\n").is_none());
    assert!(search_file_todo("a.rs", "//TODO no space\n").is_none());
    let found = search_file_todo("a.rs", "code(); // TODO later\n").unwrap();
    assert_eq!(found.lines, vec![(1, "later".to_string())]);
}

#[test]
fn todo_skips_ignored_extensions() {
    assert!(search_file_todo("archive.zip", "// TODO x\n").is_none());
}

#[test]
fn literal_search_skips_ignored_extensions() {
    assert!(search_file_pattern("archive.zip", "needle here", "needle").is_none());
    assert!(search_file_pattern("plain.txt", "needle here", "needle").is_some());
}

#[test]
fn search_result_new_is_empty() {
    let r = SearchResult::new("f.txt".to_string());
    assert_eq!(r.file_name, "f.txt");
    assert!(r.lines.is_empty());
}

#[test]
fn search_mode_selection() {
    let files = vec!["a.rs".to_string(), "b.rs".to_string()];
    let todo = Search::new(files.clone(), "TODO");
    assert!(todo.is_todo_mode());
    let literal = Search::new(files, "unwrap");
    assert!(!literal.is_todo_mode());
    assert_eq!(literal.pattern, "unwrap");
    assert_eq!(literal.files.len(), 2);
    assert!(literal.search_result.is_empty());
}
