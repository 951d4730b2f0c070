use code_grabber_core::classify::{classify_candidate, head_looks_binary, needs_content_sniff, FileKind};
use code_grabber_core::config::{BundleMode, ScanConfig, ScanConfigBuilder};
use code_grabber_core::discover::{hidden_path, make_candidate, should_descend, to_ascii_lowercase, FileCandidate};
use code_grabber_core::globs::build_globset;
use code_grabber_core::paths::{display_path_text, join_path, path_file_name};
use code_grabber_core::tokenize::estimate_tokens;

fn config() -> ScanConfig {
    ScanConfigBuilder::new("/repo").build("/repo".to_string()).unwrap()
}

fn file(rel: &str, size: u64) -> FileCandidate {
    let name = rel.rsplit('/').next().unwrap();
    let extension = match name.rsplit_once('.') {
        Some((stem, ext)) if !stem.is_empty() => Some(ext),
        _ => None,
    };
    make_candidate(format!("/repo/{rel}"), rel, name.to_string(), extension, size)
}

fn reason(config: &ScanConfig, c: &FileCandidate, head: &[u8]) -> (bool, String, FileKind) {
    let r = classify_candidate(config, c, head);
    (r.included, r.reasons.join("; "), r.kind)
}

#[test]
fn source_files_are_included_with_their_language() {
    let c = config();
    let main = file("src/main.rs", 10);
    let r = classify_candidate(&c, &main, b"fn main() {}");
    assert!(r.included);
    assert_eq!(r.kind, FileKind::Code);
    assert_eq!(r.language.as_deref(), Some("rust"));
    assert_eq!(r.priority, 100);
    assert_eq!(r.reasons, vec!["included".to_string()]);
    let page = classify_candidate(&c, &file("web/app.tsx", 10), b"x");
    assert_eq!(page.language.as_deref(), Some("typescriptreact"));
    assert_eq!(page.priority, 70);
    let manifest = classify_candidate(&c, &file("pkg/pyproject.toml", 10), b"x");
    assert_eq!(manifest.kind, FileKind::Manifest);
    assert_eq!(manifest.priority, 90);
}

#[test]
fn default_rules_leave_out_noise() {
    let c = config();
    assert_eq!(reason(&c, &file("Cargo.lock", 1), b""), (false, "excluded by default glob".to_string(), FileKind::Lockfile));
    assert_eq!(reason(&c, &file("tests/smoke.rs", 1), b""), (false, "test path or filename".to_string(), FileKind::Test));
    assert_eq!(reason(&c, &file(".github/ci.yml", 1), b""), (false, "hidden file".to_string(), FileKind::Config));
    assert_eq!(reason(&c, &file("img/logo.png", 1), b""), (false, "binary or non-text file".to_string(), FileKind::Binary));
    assert_eq!(reason(&c, &file("big.rs", 2_000_000), b""), (false, "too large".to_string(), FileKind::Binary));
    assert_eq!(reason(&c, &file("README.md", 1), b"# hi"), (false, "docs disabled in current mode".to_string(), FileKind::Documentation));
    assert_eq!(reason(&c, &file("config/.env", 1), b""), (false, "hidden file".to_string(), FileKind::Config));
    assert_eq!(reason(&c, &file("keys/server.pem", 1), b""), (false, "excluded by default glob".to_string(), FileKind::Secret));
    assert_eq!(reason(&c, &file("api/schema.generated.ts", 1), b""), (false, "excluded by default glob".to_string(), FileKind::Generated));
}

#[test]
fn complete_mode_keeps_generated_files() {
    let complete = ScanConfigBuilder::new("/repo")
        .mode(BundleMode::Complete)
        .build("/repo".to_string())
        .unwrap();
    let r = classify_candidate(&complete, &file("api/schema.generated.ts", 1), b"export {}");
    assert!(r.included);
    let core = config();
    let r = classify_candidate(&core, &file("src/generated/x.rs", 1), b"fn x() {}");
    assert!(!r.included);
}

#[test]
fn include_switches_let_files_in() {
    let c = ScanConfigBuilder::new("/repo")
        .include_tests(true)
        .include_docs(true)
        .include_lockfiles(true)
        .include_hidden(true)
        .build("/repo".to_string())
        .unwrap();
    assert!(classify_candidate(&c, &file("tests/smoke.rs", 1), b"fn t() {}").included);
    assert!(classify_candidate(&c, &file("README.md", 1), b"# hi").included);
    assert!(classify_candidate(&c, &file("Cargo.lock", 1), b"x").included);
    assert!(classify_candidate(&c, &file(".github/ci.yml", 1), b"on: push").included);
}

#[test]
fn the_bundle_output_file_is_never_included() {
    let c = ScanConfigBuilder::new("/repo")
        .output_path(Some(code_grabber_core::config::OutputTarget {
            parent: Some("/repo/out".to_string()),
            file_name: Some("all.txt".to_string()),
        }))
        .include_hidden(true)
        .build("/repo".to_string())
        .unwrap();
    let r = classify_candidate(&c, &file("out/all.txt", 1), b"text");
    assert!(!r.included);
    assert_eq!(r.reasons, vec!["configured output file".to_string()]);
    assert_eq!(r.kind, FileKind::Generated);
}

#[test]
fn content_is_only_read_for_files_that_reach_the_check() {
    let c = config();
    let lock = file("Cargo.lock", 1);
    assert!(!needs_content_sniff(&c, &lock));
    let a = classify_candidate(&c, &lock, b"");
    let b = classify_candidate(&c, &lock, b"\0\0\0");
    assert_eq!((a.included, a.reasons.clone()), (b.included, b.reasons.clone()));
    let text = file("notes.txt", 5);
    assert!(needs_content_sniff(&c, &text));
    assert!(classify_candidate(&c, &text, b"hello").included);
    assert!(!classify_candidate(&c, &text, b"he\0lo").included);
    assert!(!classify_candidate(&c, &text, b"\xff\xfe").included);
    assert!(classify_candidate(&c, &text, b"").included);
}

#[test]
fn first_bytes_look_binary_with_a_zero_byte_or_bad_utf8() {
    assert!(!head_looks_binary(b""));
    assert!(!head_looks_binary("plain ütf-8".as_bytes()));
    assert!(head_looks_binary(b"a\0b"));
    assert!(head_looks_binary(b"\xc3"));
}

#[test]
fn candidates_are_built_from_the_walk() {
    let c = make_candidate("C:\\r\\src\\A.RS".to_string(), "src\\A.RS", "A.RS".to_string(), Some("RS"), 12);
    assert_eq!(c.rel_path, "src/A.RS");
    assert_eq!(c.extension.as_deref(), Some("rs"));
    assert!(!c.hidden);
    assert!(hidden_path(".git/config"));
    assert!(hidden_path("a/.b/c"));
    assert!(!hidden_path("a/b.c"));
    assert_eq!(to_ascii_lowercase("ÄbC"), "Äbc");
    let excluded = vec!["target".to_string(), "node_modules".to_string()];
    assert!(!should_descend(true, Some("target"), &excluded));
    assert!(should_descend(true, Some("src"), &excluded));
    assert!(should_descend(false, Some("target"), &excluded));
    assert!(should_descend(true, None, &excluded));
}

#[test]
fn glob_sets_match_relative_paths() {
    let set = build_globset(&vec!["**/*.lock".to_string(), "**/tests/**".to_string()]).unwrap();
    assert!(set.is_match("Cargo.lock"));
    assert!(set.is_match("a/b/tests/x.rs"));
    assert!(!set.is_match("src/main.rs"));
    assert!(build_globset(&vec!["a[".to_string()]).is_err());
}

#[test]
fn paths_are_joined_named_and_displayed() {
    assert_eq!(join_path("/repo", "out.txt"), "/repo/out.txt");
    assert_eq!(join_path("/repo/", "out.txt"), "/repo/out.txt");
    assert_eq!(join_path("/repo", "/abs/x"), "/abs/x");
    assert_eq!(path_file_name("/work/repo"), Some("repo".to_string()));
    assert_eq!(path_file_name("/"), None);
    assert_eq!(display_path_text("\\\\?\\C:\\work"), "C:\\work");
    assert_eq!(display_path_text("\\\\?\\UNC\\server\\share"), "\\\\server\\share");
    assert_eq!(display_path_text("/plain"), "/plain");
}

#[test]
fn tokens_are_counted_with_the_named_tokenizer() {
    let n = estimate_tokens("o200k_base", "hello world").unwrap();
    assert_eq!(n, 2);
    let m = estimate_tokens("cl100k_base", "hello world").unwrap();
    assert_eq!(m, 2);
    let p = estimate_tokens("p50k_base", "hello world").unwrap();
    assert_eq!(p, 2);
    let other = estimate_tokens("unknown", "hello world").unwrap();
    assert_eq!(other, n);
    assert_eq!(estimate_tokens("o200k_base", "").unwrap(), 0);
    assert!(estimate_tokens("o200k_base", "fn main() { println!(\"hi\"); }").unwrap() > 3);
}

#[test]
fn the_output_file_is_matched_by_its_path_text() {
    let c = ScanConfigBuilder::new("/repo")
        .output_path(Some(code_grabber_core::config::OutputTarget {
            parent: Some("/repo/x".to_string()),
            file_name: Some("y.txt".to_string()),
        }))
        .build("/repo".to_string())
        .unwrap();
    let mut literal = file("x/y.txt", 1);
    literal.rel_path = "x\\y.txt".to_string();
    literal.file_name = "x\\y.txt".to_string();
    assert!(classify_candidate(&c, &literal, b"text").included);
    let inside = file("x/y.txt", 1);
    assert_eq!(classify_candidate(&c, &inside, b"text").reasons, vec!["configured output file".to_string()]);
    let backslashed = ScanConfigBuilder::new("/repo")
        .output_path(Some(code_grabber_core::config::OutputTarget {
            parent: Some("/repo".to_string()),
            file_name: Some("x\\y.txt".to_string()),
        }))
        .build("/repo".to_string())
        .unwrap();
    assert_eq!(classify_candidate(&backslashed, &inside, b"text").reasons, vec!["configured output file".to_string()]);
}

#[test]
fn empty_text_has_no_token_and_unknown_names_use_o200k_base() {
    for name in ["o200k_base", "cl100k_base", "p50k_base", "gpt-unknown"] {
        assert_eq!(estimate_tokens(name, "").unwrap(), 0);
    }
    let text = "fn main() { let tokens = 42; }";
    assert_eq!(estimate_tokens("gpt-unknown", text), estimate_tokens("o200k_base", text));
}
