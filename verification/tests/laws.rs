use code_grabber_core::classify::{classify_candidate, FileKind};
use code_grabber_core::config::{ScanConfig, ScanConfigBuilder};
use code_grabber_core::discover::{make_candidate, sort_candidates};
use code_grabber_core::numbers::format_number;
use code_grabber_core::report::FileReport;
use code_grabber_core::tables::{sort_table, TableOrder};

fn config() -> ScanConfig {
    ScanConfigBuilder::new("/repo").build("/repo".to_string()).unwrap()
}

#[test]
fn grouping_keeps_the_digits() {
    for n in [0usize, 7, 999, 1000, 65_536, 1_000_000, 123_456_789, usize::MAX] {
        assert_eq!(format_number(n).replace(',', ""), n.to_string());
    }
}

#[test]
fn every_classification_has_one_reason() {
    let c = config();
    let paths = [
        "src/main.rs", "Cargo.lock", "tests/a.rs", ".env", "README.md", "logo.png", "a.sh", "web/x.css",
        "notes", "Makefile", "k.pem",
    ];
    for p in paths {
        let name = p.rsplit('/').next().unwrap();
        let ext = match name.rsplit_once('.') {
            Some((stem, e)) if !stem.is_empty() => Some(e),
            _ => None,
        };
        let cand = make_candidate(format!("/repo/{p}"), p, name.to_string(), ext, 3);
        let r = classify_candidate(&c, &cand, b"abc");
        assert_eq!(r.reasons.len(), 1, "{p}");
        if r.included {
            assert_eq!(r.reasons[0], "included");
        } else {
            assert!(r.priority == 0 || (r.kind == FileKind::Documentation && r.priority == 10), "{p}");
        }
    }
}

#[test]
fn sorting_orders_and_keeps_every_value() {
    let names = ["b/c.rs", "a.rs", "b.rs", "a/b.rs", "Z.rs", "a.rs"];
    let cands: Vec<_> = names
        .iter()
        .map(|n| make_candidate(format!("/r/{n}"), n, "x".to_string(), None, 1))
        .collect();
    let sorted = sort_candidates(cands);
    let got: Vec<String> = sorted.iter().map(|c| c.rel_path.clone()).collect();
    let mut expected: Vec<String> = names.iter().map(|s| s.to_string()).collect();
    expected.sort();
    assert_eq!(got, expected);
}

#[test]
fn table_sorting_keeps_every_file() {
    let files: Vec<FileReport> = (0..20usize)
        .map(|i| FileReport::included(format!("f{}", i % 7), (i * 37) % 11, (i * 13) % 5, None))
        .collect();
    let sorted = sort_table(files.clone(), TableOrder::TokensDescThenPath);
    assert_eq!(sorted.len(), files.len());
    let mut a: Vec<(String, usize, usize)> = files.iter().map(|f| (f.path.clone(), f.bytes, f.tokens)).collect();
    let mut b: Vec<(String, usize, usize)> = sorted.iter().map(|f| (f.path.clone(), f.bytes, f.tokens)).collect();
    for w in sorted.windows(2) {
        assert!(w[0].tokens > w[1].tokens || (w[0].tokens == w[1].tokens && w[0].path <= w[1].path));
    }
    a.sort();
    b.sort();
    assert_eq!(a, b);
}

fn chars(s: &str) -> Vec<char> {
    s.chars().collect()
}

fn text(v: &[char]) -> String {
    v.iter().collect()
}

#[test]
fn normalizing_removes_every_carriage_return() {
    let out = code_grabber_core::sanitize::normalize_newline_chars(&chars("a\r\nb\rc\r\r\nd\r"));
    assert_eq!(text(&out), "a\nb\nc\n\nd\n");
    assert!(!out.contains(&'\r'));
}

#[test]
fn trimmed_lines_end_without_whitespace() {
    let out = code_grabber_core::sanitize::trim_trailing_whitespace_chars(&chars("a  \n\tb\t\n \n\u{3000}c\u{3000}"));
    let out = text(&out);
    assert_eq!(out, "a\n\tb\n\n\u{3000}c");
    for line in out.lines() {
        assert_eq!(line, line.trim_end());
    }
}

#[test]
fn stripped_comments_leave_no_comment_line() {
    let out = code_grabber_core::sanitize::strip_simple_line_comments_chars(&chars(
        "// a\ncode();\n   // b\nlet x = 1; // kept\n//\n",
    ));
    let out = text(&out);
    assert_eq!(out, "code();\nlet x = 1; // kept");
    for line in out.lines() {
        assert!(!line.trim_start().starts_with("//"));
    }
}

#[test]
fn collapsed_text_has_at_most_two_empty_lines_in_a_row() {
    let out = code_grabber_core::sanitize::collapse_blank_lines_chars(&chars("\n\n\n\na\n\n \n\t\n\n\nb\n\n\n"));
    let out = text(&out);
    assert_eq!(out, "\n\na\n\n\nb");
    assert!(!out.contains("\n\n\n\n"));
}

#[test]
fn test_stripping_only_deletes_lines() {
    let input = "fn a() {}\n#[cfg(test)]\nmod tests {\n    #[test]\n    fn t() {}\n}\nfn b() {}\n#[test]\nconst X: u8 = 1;";
    let out = text(&code_grabber_core::sanitize::strip_rust_test_blocks_chars(&chars(input)));
    assert_eq!(out, "fn a() {}\nfn b() {}\n#[test]\nconst X: u8 = 1;");
    let mut remaining = input.lines();
    for kept in out.lines() {
        assert!(remaining.any(|l| l == kept));
    }
    let untouched = "fn a() {\n    1\n}";
    assert_eq!(text(&code_grabber_core::sanitize::strip_rust_test_blocks_chars(&chars(untouched))), untouched);
}

#[test]
fn repository_map_counts_every_file_once_in_key_order() {
    let inc = vec![
        FileReport::included("src/a.rs".to_string(), 1, 1, None),
        FileReport::included("src/b/c.rs".to_string(), 1, 1, None),
        FileReport::included("README".to_string(), 1, 1, None),
    ];
    let exc = vec![
        FileReport::excluded("src/x.bin".to_string(), 1, None, "binary or non-text file".to_string()),
        FileReport::excluded("docs/a.md".to_string(), 1, None, "docs disabled in current mode".to_string()),
        FileReport::excluded("docs/b.md".to_string(), 1, None, "other".to_string()),
    ];
    let map = text(&code_grabber_core::format::repository_map_text(&inc, &exc));
    assert_eq!(
        map,
        "README included: 1 files\ndocs/ excluded: docs disabled in current mode (2 files)\nsrc/ included: 2 files, excluded: 1 files\n"
    );
}
