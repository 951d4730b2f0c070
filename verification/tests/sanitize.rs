use code_grabber_core::classify::{FileClassification, FileKind};
use code_grabber_core::config::ScanConfig;
use code_grabber_core::discover::FileCandidate;
use code_grabber_core::sanitize::sanitize_content;

fn rust_file() -> (FileClassification, FileCandidate) {
    let classification = FileClassification {
        kind: FileKind::Code,
        language: Some("rust".to_string()),
        included: true,
        priority: 70,
        reasons: vec![],
    };
    let candidate = FileCandidate {
        abs_path: "src/lib.rs".to_string(),
        rel_path: "src/lib.rs".to_string(),
        size_bytes: 0,
        extension: Some("rs".to_string()),
        file_name: "lib.rs".to_string(),
        hidden: false,
    };
    (classification, candidate)
}

#[test]
fn strips_rust_test_functions_without_touching_production_code() {
    let config = ScanConfig::default();
    let (classification, candidate) = rust_file();
    let input = r#"
pub fn keep() -> bool {
    true
}

#[test]
fn removes_me() {
    assert!(keep());
}
"#;

    let (output, transformations) = sanitize_content(&config, input, &classification, &candidate);

    assert!(output.contains("pub fn keep()"));
    assert!(!output.contains("fn removes_me()"));
    assert!(
        transformations
            .iter()
            .any(|item| item == "stripped rust inline tests")
    );
}

#[test]
fn windows_newlines_and_trailing_spaces_are_cleaned() {
    let config = ScanConfig::default();
    let (classification, candidate) = rust_file();
    let (output, transformations) =
        sanitize_content(&config, "fn a() {}   \r\n\r\n\r\n\r\nfn b() {}\r\n", &classification, &candidate);
    assert_eq!(output, "fn a() {}\n\n\nfn b() {}");
    assert!(transformations.iter().any(|t| t == "normalized newlines"));
    assert!(transformations.iter().any(|t| t == "trimmed trailing whitespace"));
    assert!(transformations.iter().any(|t| t == "collapsed blank lines"));
}

#[test]
fn clean_text_is_left_unchanged() {
    let config = ScanConfig::default();
    let (classification, candidate) = rust_file();
    let input = "pub fn keep() -> bool {\n    true\n}";
    let (output, transformations) = sanitize_content(&config, input, &classification, &candidate);
    assert_eq!(output, input);
    assert!(transformations.is_empty());
}

#[test]
fn comments_are_stripped_only_when_asked() {
    let (classification, candidate) = rust_file();
    let input = "// note\nfn a() {}";
    let config = ScanConfig::default();
    let (kept, _) = sanitize_content(&config, input, &classification, &candidate);
    assert_eq!(kept, input);
    let mut stripping = ScanConfig::default();
    stripping.strip_rules.comments = true;
    let (output, transformations) = sanitize_content(&stripping, input, &classification, &candidate);
    assert_eq!(output, "fn a() {}");
    assert!(transformations.iter().any(|t| t == "stripped simple comments"));
}

#[test]
fn cleaning_twice_changes_nothing() {
    let config = ScanConfig::default();
    let classification = FileClassification {
        kind: FileKind::Code,
        language: Some("python".to_string()),
        included: true,
        priority: 70,
        reasons: vec![],
    };
    let candidate = FileCandidate {
        abs_path: "app/main.py".to_string(),
        rel_path: "app/main.py".to_string(),
        size_bytes: 0,
        extension: Some("py".to_string()),
        file_name: "main.py".to_string(),
        hidden: false,
    };
    let input = "def a():  \r\n\r\n\r\n\r\n\r    return 1\t\n\n\n";
    let (once, first) = sanitize_content(&config, input, &classification, &candidate);
    assert_eq!(once, "def a():\n\n\n    return 1");
    assert!(!first.is_empty());
    let (twice, second) = sanitize_content(&config, &once, &classification, &candidate);
    assert_eq!(twice, once);
    assert!(second.is_empty());
}

#[test]
fn cleaning_rust_twice_changes_nothing() {
    let config = ScanConfig::default();
    let (classification, candidate) = rust_file();
    let input = "pub fn keep() {}\r\n\r\n\r\n\r\n#[test]\r\n\r\nfn kept_apart() {}\n#[cfg(test)]\nmod tests {\n    #[test]\n    fn t() {}\n}\n\n\n";
    let (once, first) = sanitize_content(&config, input, &classification, &candidate);
    assert_eq!(once, "pub fn keep() {}\n\n\n#[test]\n\nfn kept_apart() {}");
    assert!(first.iter().any(|t| t == "stripped rust inline tests"));
    let (twice, second) = sanitize_content(&config, &once, &classification, &candidate);
    assert_eq!(twice, once);
    assert!(second.is_empty());
}
