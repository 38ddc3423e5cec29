use loctool::file_handler::{FileHandler, FileStats};
use loctool::languages_mapping::{extension_is_ignored, language_for_extension};
use loctool::text::{extension_of, is_line_blank, split_lines, trim_str};

fn classify(path: &str, content: &str) -> FileStats {
    FileHandler::new(path).get_file_stat(content)
}

#[test]
fn block_comment_continuation() {
    let content = "code;\n// comment\n\n/* start block\nstill in block\nend */\nmore code";
    let stats = classify("example.rs", content);
    assert_eq!(stats.get_lines(), 7);
    assert_eq!(stats.get_blank_lines(), 1);
    assert_eq!(stats.get_comment_lines(), 4);
    assert_eq!(stats.get_code_lines(), 2);
    assert_eq!(stats.get_language(), "Rust");
    assert_eq!(stats.get_size(), content.len());
}

#[test]
fn unknown_language_fallback() {
    let stats = classify("notes.xyz", "  \ntext");
    assert_eq!(stats.get_lines(), 2);
    assert_eq!(stats.get_blank_lines(), 1);
    assert_eq!(stats.get_comment_lines(), 0);
    assert_eq!(stats.get_code_lines(), 1);
    assert_eq!(stats.get_language(), "Unknown");
}

#[test]
fn sum_invariant_recognized_and_unknown() {
    let samples = [
        ("a.rs", "fn main() {}\n// x\n\n/* b\nc */\nlet y = 1;"),
        ("b.java", "class A {}\n\n// note\n"),
        ("c.cpp", "/* open\nnever closed\nstill comment"),
        ("plain.txt", "one\n\ntwo\n   \nthree"),
        ("empty.rs", ""),
    ];
    for (path, content) in samples {
        let stats = classify(path, content);
        assert_eq!(
            stats.get_blank_lines() + stats.get_comment_lines() + stats.get_code_lines(),
            stats.get_lines(),
            "sum invariant broken for {path}"
        );
    }
}

#[test]
fn empty_content_counts_nothing() {
    let stats = classify("a.rs", "");
    assert_eq!(stats.get_lines(), 0);
    assert_eq!(stats.get_blank_lines(), 0);
    assert_eq!(stats.get_comment_lines(), 0);
    assert_eq!(stats.get_code_lines(), 0);
    assert_eq!(stats.get_size(), 0);
}

#[test]
fn unterminated_block_comment_runs_to_end() {
    let stats = classify("a.rs", "code\n/* open\nstill\nstill");
    assert_eq!(stats.get_lines(), 4);
    assert_eq!(stats.get_code_lines(), 1);
    assert_eq!(stats.get_comment_lines(), 3);
}

#[test]
fn one_line_block_comment_swallows_next_line() {
    // A line that both opens and closes a block comment is counted as a
    // comment and still enters the block state, so the following line is
    // counted as a comment as well: the end marker is only looked for
    // once inside the block.
    let stats = classify("a.rs", "/* all on one line */\ncode after");
    assert_eq!(stats.get_lines(), 2);
    assert_eq!(stats.get_comment_lines(), 2);
    assert_eq!(stats.get_code_lines(), 0);
}

#[test]
fn single_line_comment_needs_only_leading_whitespace() {
    let stats = classify("a.rs", "   // indented comment\nlet x; // trailing comment");
    assert_eq!(stats.get_comment_lines(), 1);
    assert_eq!(stats.get_code_lines(), 1);
}

#[test]
fn crlf_lines_are_split_like_lf() {
    let stats = classify("a.rs", "code;\r\n// c\r\n\r\nmore");
    assert_eq!(stats.get_lines(), 4);
    assert_eq!(stats.get_blank_lines(), 1);
    assert_eq!(stats.get_comment_lines(), 1);
    assert_eq!(stats.get_code_lines(), 2);
}

#[test]
fn file_stats_accumulators() {
    let mut stats = FileStats::new();
    assert_eq!(stats.get_language(), "Unknown");
    stats.add_language("Rust");
    stats.add_size(10);
    stats.add_size(5);
    stats.add_lines_tot(4);
    stats.add_blank_lines_tot(1);
    stats.add_comment_lines_tot(1);
    stats.add_code_lines_tot(2);
    assert_eq!(stats.get_language(), "Rust");
    assert_eq!(stats.get_size(), 15);
    assert_eq!(stats.get_lines(), 4);
    assert_eq!(stats.get_blank_lines(), 1);
    assert_eq!(stats.get_comment_lines(), 1);
    assert_eq!(stats.get_code_lines(), 2);
}

#[test]
fn extension_lookup() {
    assert_eq!(extension_of("dir/file.tar.gz"), "gz");
    assert_eq!(extension_of("Makefile"), "Makefile");
    assert_eq!(extension_of("ends.with."), "");
    for ext in ["cpp", "cc", "C"] {
        let lang = language_for_extension(ext).expect("C family extension");
        assert_eq!(lang.get_name(), "C++");
    }
    assert_eq!(language_for_extension("java").unwrap().get_name(), "Java");
    assert_eq!(language_for_extension("rs").unwrap().get_name(), "Rust");
    assert!(language_for_extension("py").is_none());
    assert!(language_for_extension("RS").is_none());
}

#[test]
fn language_markers() {
    let lang = language_for_extension("rs").unwrap();
    assert_eq!(lang.get_single_line_comment(), "//");
    assert_eq!(lang.get_block_line_comment_begin().unwrap().as_str(), "/*");
    assert_eq!(lang.get_block_line_comment_end().unwrap().as_str(), "*/");
}

#[test]
fn ignored_extensions() {
    for ext in ["pdf", "png", "zip", "mp3", "docx", "class", "out"] {
        assert!(extension_is_ignored(ext), "{ext} should be ignored");
    }
    for ext in ["rs", "java", "txt", ""] {
        assert!(!extension_is_ignored(ext), "{ext} should not be ignored");
    }
}

#[test]
fn text_primitives() {
    assert!(is_line_blank(""));
    assert!(is_line_blank(" \t "));
    assert!(!is_line_blank(" x "));
    assert_eq!(trim_str("  padded  "), "padded");
    assert_eq!(trim_str("\t\t"), "");
    assert_eq!(split_lines("a\nb\n"), vec!["a", "b"]);
    assert_eq!(split_lines("a\r\nb"), vec!["a", "b"]);
    assert_eq!(split_lines(""), Vec::<String>::new());
    assert_eq!(split_lines("\n\n"), vec!["", ""]);
}
