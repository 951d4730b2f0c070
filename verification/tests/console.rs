use code_grabber_core::console::{file_table_lines, section_lines, summary_lines, SummaryIntent, TableKind};
use code_grabber_core::report::{BundleReport, FileReport};
use code_grabber_core::tables::{filter_table, sort_table, TableOrder};

fn report() -> BundleReport {
    let mut r = BundleReport::default();
    r.included_files.push(FileReport::included("src/main.rs".to_string(), 2048, 1500, Some("rust".to_string())));
    r.included_files.push(FileReport::included("Cargo.toml".to_string(), 100, 40, Some("toml".to_string())));
    r.excluded_files.push(FileReport::excluded("Cargo.lock".to_string(), 5000, Some("lock".to_string()), "lockfile".to_string()));
    r.total_bytes = 2148;
    r.total_tokens = 1540;
    r
}

#[test]
fn sections_are_underlined() {
    assert_eq!(section_lines("Output"), vec!["", "Output", "------"]);
}

#[test]
fn summary_lists_counts_sizes_and_budget() {
    let r = report();
    let got = summary_lines(&r, Some(1000), SummaryIntent::Bundle);
    let expected = vec![
        "".to_string(),
        "Bundle summary".to_string(),
        "--------------".to_string(),
        format!("  {:<13} {}", "included", "2 files"),
        format!("  {:<13} {}", "excluded", "1 file"),
        format!("  {:<13} {}", "source bytes", "2.1 KB"),
        format!("  {:<13} {}", "tokens", "1,540"),
        format!("  {:<13} {} over budget", "budget", "540"),
    ];
    assert_eq!(got, expected);
    let remaining = summary_lines(&r, Some(250_000), SummaryIntent::Inspect);
    assert_eq!(remaining[1], "Scan summary");
    assert_eq!(remaining[7], format!("  {:<13} {} remaining", "budget", "248,460"));
    let none = summary_lines(&r, None, SummaryIntent::Inspect);
    assert_eq!(none.len(), 7);
}

#[test]
fn summary_lists_warnings() {
    let mut r = report();
    r.warnings.push("first".to_string());
    r.warnings.push("second".to_string());
    let got = summary_lines(&r, None, SummaryIntent::Bundle);
    assert_eq!(&got[7..], &["", "Warnings", "--------", "  - first", "  - second"]);
}

#[test]
fn tables_show_the_ten_heaviest_files() {
    let mut files = Vec::new();
    for i in 0..12usize {
        files.push(FileReport::included(format!("src/f{i}.rs"), 10 * i, i, None));
    }
    let sorted = sort_table(files, TableOrder::TokensDesc);
    let got = file_table_lines("Largest included files", &sorted, TableKind::Included);
    assert_eq!(got.len(), 3 + 2 + 10);
    assert_eq!(got[3], format!("  {:<46} {:>12} {:>10}", "path", "tokens", "size"));
    assert_eq!(got[4], format!("  {:<46} {:>12} {:>10}", "-".repeat(46), "-".repeat(12), "-".repeat(10)));
    assert_eq!(got[5], format!("  {:<46} {:>12} {:>10}", "src/f11.rs", "11", "110 B"));
    assert_eq!(got[14], format!("  {:<46} {:>12} {:>10}", "src/f2.rs", "2", "20 B"));
}

#[test]
fn excluded_tables_show_the_reason() {
    let r = report();
    let got = file_table_lines("Largest excluded files", &r.excluded_files, TableKind::Excluded);
    assert_eq!(got[3], format!("  {:<38} {:>10}  reason", "path", "size"));
    assert_eq!(got[4], format!("  {:<38} {:>10}  {}", "-".repeat(38), "-".repeat(10), "-".repeat(22)));
    assert_eq!(got[5], format!("  {:<38} {:>10}  {}", "Cargo.lock", "4.9 KB", "lockfile"));
    let empty = file_table_lines("Largest excluded files", &[], TableKind::Excluded);
    assert_eq!(empty, vec!["", "Largest excluded files", "----------------------", "  none"]);
    let long = vec![FileReport::excluded("a/".repeat(30), 1, None, "r".repeat(50))];
    let got = file_table_lines("t", &long, TableKind::Excluded);
    let path = format!("{}a...{}", "a/".repeat(8), "a/".repeat(9));
    assert_eq!(got[5], format!("  {:<38} {:>10}  {}", path, "1 B", "r".repeat(33) + "..."));
}

#[test]
fn largest_first_keeps_ties_in_order() {
    let files = vec![
        FileReport::excluded("b".to_string(), 5, None, "x".to_string()),
        FileReport::excluded("a".to_string(), 5, None, "x".to_string()),
        FileReport::excluded("c".to_string(), 9, None, "x".to_string()),
    ];
    let by_size = sort_table(files.clone(), TableOrder::BytesDesc);
    let names: Vec<&str> = by_size.iter().map(|f| f.path.as_str()).collect();
    assert_eq!(names, vec!["c", "b", "a"]);
    let by_size_then_path = sort_table(files, TableOrder::BytesDescThenPath);
    let names: Vec<&str> = by_size_then_path.iter().map(|f| f.path.as_str()).collect();
    assert_eq!(names, vec!["c", "a", "b"]);
}

#[test]
fn filters_match_path_language_or_reason_in_any_case() {
    let r = report();
    let mut all = r.included_files.clone();
    all.extend(r.excluded_files.clone());
    let by_path = filter_table(all.clone(), "  MAIN ");
    assert_eq!(by_path.len(), 1);
    assert_eq!(by_path[0].path, "src/main.rs");
    let by_language = filter_table(all.clone(), "Toml");
    assert_eq!(by_language.len(), 1);
    assert_eq!(by_language[0].path, "Cargo.toml");
    let by_reason = filter_table(all.clone(), "LOCKFILE");
    assert_eq!(by_reason.len(), 1);
    let nothing = filter_table(all.clone(), "zzz");
    assert!(nothing.is_empty());
    let everything = filter_table(all, "   ");
    assert_eq!(everything.len(), 3);
}
