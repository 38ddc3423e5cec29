use loctool::entry_point::{fold_outcomes, select_pattern};
use loctool::file_handler::{FileHandler, FileStats};
use loctool::file_supplier::ExtractInfo;

fn stats_for(path: &str, content: &str) -> FileStats {
    FileHandler::new(path).get_file_stat(content)
}

#[test]
fn get_argument_classifies_readable_text() {
    let info = ExtractInfo::new();
    let stats = info
        .get_argument("m.rs", Some("// c\ncode();\n"))
        .expect("readable text file");
    assert_eq!(stats.get_language(), "Rust");
    assert_eq!(stats.get_lines(), 2);
    assert_eq!(stats.get_comment_lines(), 1);
    assert_eq!(stats.get_code_lines(), 1);
}

#[test]
fn get_argument_rejects_unreadable_and_ignored() {
    let info = ExtractInfo::new();
    match info.get_argument("gone.rs", None) {
        Err(err) => assert_eq!(err, "gone.rs is not a file or is binary"),
        Ok(_) => panic!("an unreadable file must be rejected"),
    }
    match info.get_argument("pic.png", Some("anything")) {
        Err(err) => assert_eq!(err, "pic.png is not a file or is binary"),
        Ok(_) => panic!("an ignored extension must be rejected"),
    }
}

#[test]
fn isolation_under_partial_failure() {
    // A batch of 10 files where 2 are binary and 1 is unreadable: the
    // aggregate reflects exactly the 7 processed files and an ignored
    // count of 3, in whatever order the outcomes arrive.
    let info = ExtractInfo::new();
    let ok_args: Vec<(&str, &str)> = vec![
        ("a.rs", "// c\ncode();\n"),
        ("b.rs", "one\ntwo\n"),
        ("c.java", "// only comment"),
        ("d.txt", "\n\n"),
        ("e.cpp", "/* x\ny */\nz;"),
        ("f.rs", "fn f() {}"),
        ("g.xyz", "plain"),
    ];
    let mut outcomes: Vec<Result<FileStats, String>> = Vec::new();
    for (path, content) in &ok_args {
        outcomes.push(info.get_argument(path, Some(content)));
    }
    outcomes.push(info.get_argument("bin1.rs", None));
    outcomes.push(info.get_argument("bin2.rs", None));
    outcomes.push(info.get_argument("locked.rs", None));

    let expected_lines: usize = outcomes
        .iter()
        .filter_map(|o| o.as_ref().ok())
        .map(|st| st.get_lines())
        .sum();
    let expected_size: usize = outcomes
        .iter()
        .filter_map(|o| o.as_ref().ok())
        .map(|st| st.get_size())
        .sum();

    let folded = fold_outcomes(&outcomes);
    assert_eq!(folded.number_of_files, 7);
    assert_eq!(folded.number_of_files_ignore, 3);
    assert_eq!(folded.tot_lines, expected_lines);
    assert_eq!(folded.total_size, expected_size);
    assert_eq!(
        folded.tot_blank_lines + folded.tot_comment_lines + folded.tot_code_lines,
        folded.tot_lines
    );

    // The same outcomes in another order give the same counts and totals.
    let mut reversed: Vec<Result<FileStats, String>> = Vec::new();
    for (path, content) in ok_args.iter().rev() {
        reversed.push(info.get_argument(path, Some(content)));
    }
    reversed.insert(2, info.get_argument("bin1.rs", None));
    reversed.insert(5, info.get_argument("bin2.rs", None));
    reversed.push(info.get_argument("locked.rs", None));

    let refolded = fold_outcomes(&reversed);
    assert_eq!(refolded.number_of_files, 7);
    assert_eq!(refolded.number_of_files_ignore, 3);
    assert_eq!(refolded.tot_lines, folded.tot_lines);
    assert_eq!(refolded.total_size, folded.total_size);
    assert_eq!(refolded.tot_blank_lines, folded.tot_blank_lines);
    assert_eq!(refolded.tot_comment_lines, folded.tot_comment_lines);
    assert_eq!(refolded.tot_code_lines, folded.tot_code_lines);
}

#[test]
fn per_language_subtotals_merge_by_language() {
    let mut info = ExtractInfo::new();
    info.add_stat_for_each_language(&stats_for("a.rs", "one\ntwo\n"));
    info.add_stat_for_each_language(&stats_for("b.rs", "three\n"));
    info.add_stat_for_each_language(&stats_for("c.java", "// j\n"));
    assert_eq!(info.stats_per_language.len(), 2);
    let rust = &info.stats_per_language[0];
    assert_eq!(rust.language, "Rust");
    assert_eq!(rust.number_of_files, 2);
    assert_eq!(rust.tot_lines, 3);
    let java = &info.stats_per_language[1];
    assert_eq!(java.language, "Java");
    assert_eq!(java.number_of_files, 1);
    assert_eq!(java.tot_comment_lines, 1);
}

#[test]
fn aggregate_accumulators() {
    let mut info = ExtractInfo::new();
    info.add_number_of_files();
    info.add_number_of_files();
    info.add_number_of_files_ignore();
    info.add_number_of_directories();
    info.add_total_size(100);
    info.add_tot_lines(10);
    info.add_tot_blank_lines(2);
    info.add_tot_comment_lines(3);
    info.add_tot_code_lines(5);
    assert_eq!(info.number_of_files, 2);
    assert_eq!(info.number_of_files_ignore, 1);
    assert_eq!(info.number_of_directories, 1);
    assert_eq!(info.total_size, 100);
    assert_eq!(info.tot_lines, 10);
    assert_eq!(info.tot_blank_lines, 2);
    assert_eq!(info.tot_comment_lines, 3);
    assert_eq!(info.tot_code_lines, 5);
}

#[test]
fn pattern_selection_from_arguments() {
    assert_eq!(select_pattern("-t"), "TODO");
    assert_eq!(select_pattern("--todo"), "TODO");
    assert_eq!(select_pattern("unwrap"), "unwrap");
    assert_eq!(select_pattern("TODO"), "TODO");
}
