use code_grabber_core::bundle::{finish_file, generate_bundle, outcome_totals_fit, scan_file, FileOutcome, ScanStep};
use code_grabber_core::classify::needs_content_sniff;
use code_grabber_core::config::{BundleMode, ScanConfig, ScanConfigBuilder};
use code_grabber_core::discover::{make_candidate, sort_candidates, FileCandidate};
use code_grabber_core::scan::{scan_step, ScanAnswer, ScanProgress, ScanRequest};
use code_grabber_core::report::{FileStatus, GenerationResult};

/// The candidate the walk would report for a file under `/repo`.
fn candidate(rel: &str, content: &[u8]) -> FileCandidate {
    let name = rel.rsplit('/').next().unwrap();
    let extension = match name.rsplit_once('.') {
        Some((stem, ext)) if !stem.is_empty() => Some(ext),
        _ => None,
    };
    make_candidate(format!("/repo/{rel}"), rel, name.to_string(), extension, content.len() as u64)
}

/// Runs a scan over files held in memory, answering the library's reads as
/// the program does.
fn scan(config: &ScanConfig, files: &[(&str, &[u8])]) -> (Vec<FileOutcome>, GenerationResult) {
    let candidates: Vec<FileCandidate> = files.iter().map(|(rel, content)| candidate(rel, content)).collect();
    let read = |path: &str| -> Vec<u8> {
        files.iter().find(|(rel, _)| format!("/repo/{rel}") == path).unwrap().1.to_vec()
    };
    let mut progress = ScanProgress::new();
    let mut answer = ScanAnswer::Start;
    loop {
        match scan_step(config, &candidates, &mut progress, answer) {
            ScanRequest::Head(path) => answer = ScanAnswer::Head(read(&path).into_iter().take(8192).collect()),
            ScanRequest::Contents(path) => answer = ScanAnswer::Contents(Ok(read(&path))),
            ScanRequest::Finished => break,
        }
    }
    let outcomes = progress.outcomes;
    assert_eq!(outcomes.len(), files.len());
    let kept = outcomes
        .iter()
        .map(|o| match o {
            FileOutcome::Included(f) => FileOutcome::Included(f.clone()),
            FileOutcome::Excluded(r) => FileOutcome::Excluded(r.clone()),
        })
        .collect();
    assert!(outcome_totals_fit(&outcomes));
    let result = generate_bundle(config, outcomes, 1_700_000_000).unwrap();
    (kept, result)
}

fn core_config() -> ScanConfig {
    ScanConfigBuilder::new("/repo")
        .mode(BundleMode::Core)
        .build("/repo".to_string())
        .unwrap()
}

fn demo_files() -> Vec<(&'static str, &'static [u8])> {
    vec![
        ("Cargo.toml", b"[package]\nname = \"demo\"\nversion = \"0.1.0\"\n"),
        ("Cargo.lock", b"lock noise"),
        ("src/main.rs", b"fn main() {}\n"),
        ("tests/smoke.rs", b"#[test]\nfn smoke() {}\n"),
    ]
}

#[test]
fn bundle_excludes_tests_and_lockfiles_by_default() {
    let config = core_config();
    let (_, result) = scan(&config, &demo_files());

    assert!(result.output.contents.contains("src/main.rs"));
    assert!(result.output.contents.contains("Cargo.toml"));
    assert!(result.output.contents.contains("Cargo.lock |"));
    assert!(result.output.contents.contains("tests/smoke.rs |"));
    assert!(!result.output.contents.contains("<<<FILE path=\"Cargo.lock\""));
    assert!(!result.output.contents.contains("<<<FILE path=\"tests/smoke.rs\""));
}

#[test]
fn bundle_text_is_laid_out_as_documented() {
    let config = core_config();
    let (_, result) = scan(&config, &demo_files());
    let expected = "# CODEBASE BUNDLE v1\nproject: repo\nroot: /repo\ngenerated_unix: 1700000000\nmode: Core\ntokenizer: o200k_base\n";
    assert!(result.output.contents.starts_with(expected));
    assert!(result.output.contents.contains("included_files: 2\nexcluded_files: 2\n"));
    assert!(result.output.contents.contains("token_budget: 250000\n"));
    assert!(!result.output.contents.contains("budget_overflow"));
    let map = [
        "# REPOSITORY MAP\n",
        "Cargo.lock excluded: excluded by default glob (1 files)\n",
        "Cargo.toml included: 1 files\n",
        "src/ included: 1 files\n",
        "tests/ excluded: test path or filename (1 files)\n",
        "\n# FILE MANIFEST\n",
    ]
    .join("");
    assert!(result.output.contents.contains(&map));
    assert!(result.output.contents.contains("Cargo.lock | 10 bytes | excluded: excluded by default glob\n"));
    assert!(result
        .output
        .contents
        .contains("tests/smoke.rs | 22 bytes | excluded: test path or filename\n"));
    let main_block = format!(
        "<<<FILE path=\"src/main.rs\" lang=\"rust\" bytes=12 tokens={}>>>\nfn main() {{}}\n<<<END_FILE>>>\n\n",
        result.report.included_files[1].tokens
    );
    assert!(result.output.contents.ends_with(&main_block));
}

#[test]
fn every_file_is_reported_once_in_path_order() {
    let config = core_config();
    let files = vec![
        ("zeta.rs", b"fn z() {}" as &[u8]),
        ("alpha.rs", b"fn a() {}"),
        ("Cargo.lock", b"x"),
        ("beta.lock", b"y"),
        ("mid.rs", b"fn m() {}"),
    ];
    let (outcomes, result) = scan(&config, &files);
    assert_eq!(outcomes.len(), 5);
    assert_eq!(
        result.report.included_files.len() + result.report.excluded_files.len(),
        files.len()
    );
    let included: Vec<&str> = result.report.included_files.iter().map(|r| r.path.as_str()).collect();
    assert_eq!(included, vec!["alpha.rs", "mid.rs", "zeta.rs"]);
    let excluded: Vec<&str> = result.report.excluded_files.iter().map(|r| r.path.as_str()).collect();
    assert_eq!(excluded, vec!["Cargo.lock", "beta.lock"]);
    let blocks: Vec<usize> = included
        .iter()
        .map(|p| result.output.contents.find(&format!("<<<FILE path=\"{p}\"")).unwrap())
        .collect();
    assert!(blocks[0] < blocks[1] && blocks[1] < blocks[2]);
    for r in &result.report.included_files {
        assert_eq!(r.status, FileStatus::Included);
        assert!(r.reason.is_none());
    }
    for r in &result.report.excluded_files {
        assert_eq!(r.status, FileStatus::Excluded);
        assert_eq!(r.tokens, 0);
    }
}

#[test]
fn totals_add_up_the_included_files() {
    let config = core_config();
    let (_, result) = scan(&config, &demo_files());
    let bytes: usize = result.report.included_files.iter().map(|r| r.bytes).sum();
    let tokens: usize = result.report.included_files.iter().map(|r| r.tokens).sum();
    assert_eq!(result.report.total_bytes, bytes);
    assert_eq!(result.report.total_tokens, tokens);
    assert!(tokens > 0);
    assert!(result
        .output
        .contents
        .contains(&format!("estimated_tokens: {tokens}\n")));
}

#[test]
fn budget_overflow_is_reported() {
    let config = ScanConfigBuilder::new("/repo")
        .token_budget(Some(1))
        .build("/repo".to_string())
        .unwrap();
    let (_, result) = scan(&config, &[("src/main.rs", b"fn main() { println!(\"hello\"); }\n")]);
    let over = result.report.total_tokens - 1;
    assert!(result
        .output
        .contents
        .contains(&format!("token_budget: 1\nbudget_overflow: {over}\n")));
}

#[test]
fn unreadable_and_binary_files_are_left_out_with_a_reason() {
    let config = core_config();
    let c = candidate("src/lib.rs", b"fn x() {}");
    let step = scan_file(&config, &c, b"fn x() {}");
    let classification = match step {
        ScanStep::NeedsContent(classification) => classification,
        ScanStep::Decided(_) => panic!("a Rust source file should be included"),
    };
    match finish_file(&config, &c, &classification, &Err("permission denied".to_string())) {
        FileOutcome::Excluded(r) => {
            assert_eq!(r.reason.as_deref(), Some("I/O error: permission denied"));
            assert_eq!(r.path, "src/lib.rs");
        }
        FileOutcome::Included(_) => panic!("a file that cannot be read is left out"),
    }
    let data = candidate("assets/blob.dat", b"\0\x01\x02");
    assert!(needs_content_sniff(&config, &data));
    match scan_file(&config, &data, b"\0\x01\x02") {
        ScanStep::Decided(FileOutcome::Excluded(r)) => {
            assert_eq!(r.reason.as_deref(), Some("binary or non-text file"));
        }
        _ => panic!("a file with a zero byte is binary"),
    }
}

#[test]
fn invalid_utf8_is_decoded_with_replacement_characters() {
    let config = core_config();
    let (_, result) = scan(&config, &[("notes.txt", b"ok \xC3\x28 end" as &[u8])]);
    assert!(result.report.excluded_files.iter().any(|r| r.path == "notes.txt"));
    let c = candidate("notes.txt", b"ok");
    let classification = match scan_file(&config, &c, b"ok") {
        ScanStep::NeedsContent(classification) => classification,
        ScanStep::Decided(_) => panic!("plain text is included"),
    };
    match finish_file(&config, &c, &classification, &Ok(b"ok \xC3\x28 end".to_vec())) {
        FileOutcome::Included(f) => {
            assert_eq!(f.content, "ok \u{FFFD}( end");
            assert_eq!(f.original_bytes, 9);
            assert_eq!(f.output_bytes, "ok \u{FFFD}( end".len());
        }
        FileOutcome::Excluded(_) => panic!("extraction only fails when the tokenizer does"),
    }
}

#[test]
fn candidates_are_sorted_by_path() {
    let cs = vec![candidate("b.rs", b""), candidate("a/z.rs", b""), candidate("a.rs", b"")];
    let sorted = sort_candidates(cs);
    let paths: Vec<&str> = sorted.iter().map(|c| c.rel_path.as_str()).collect();
    assert_eq!(paths, vec!["a.rs", "a/z.rs", "b.rs"]);
}

#[test]
fn an_extracted_count_is_the_count_of_its_text() {
    let config = core_config();
    let c = candidate("src/lib.rs", b"pub fn f() -> u32 {\r\n    7   \r\n}\r\n");
    let classification = match scan_file(&config, &c, b"pub fn f") {
        ScanStep::NeedsContent(classification) => classification,
        ScanStep::Decided(_) => panic!("a Rust source file is included"),
    };
    let f = code_grabber_core::extract::extract_file(&config, &c, &classification, b"pub fn f() -> u32 {\r\n    7   \r\n}\r\n").unwrap();
    assert_eq!(f.content, "pub fn f() -> u32 {\n    7\n}");
    assert_eq!(code_grabber_core::tokenize::estimate_tokens(&config.tokenizer, &f.content), Ok(f.estimated_tokens));
}

#[test]
fn a_scan_asks_for_reads_in_candidate_order() {
    let config = core_config();
    let candidates = vec![
        candidate("logo.png", b"x"),
        candidate("src/a.rs", b"fn a() {}"),
        candidate("src/b.rs", b"fn b() {}"),
    ];
    let mut progress = ScanProgress::new();
    let first = scan_step(&config, &candidates, &mut progress, ScanAnswer::Start);
    assert_eq!(progress.outcomes.len(), 1);
    let path = match first {
        ScanRequest::Head(p) => p,
        _ => panic!("the first bytes of src/a.rs are needed"),
    };
    assert_eq!(path, "/repo/src/a.rs");
    match scan_step(&config, &candidates, &mut progress, ScanAnswer::Head(b"fn a() {}".to_vec())) {
        ScanRequest::Contents(p) => assert_eq!(p, "/repo/src/a.rs"),
        _ => panic!("the contents of src/a.rs are needed"),
    }
    match scan_step(&config, &candidates, &mut progress, ScanAnswer::Contents(Err("gone".to_string()))) {
        ScanRequest::Head(p) => assert_eq!(p, "/repo/src/b.rs"),
        _ => panic!("the first bytes of src/b.rs are needed"),
    }
    match &progress.outcomes[1] {
        FileOutcome::Excluded(r) => {
            assert_eq!(r.path, "src/a.rs");
            assert_eq!(r.reason.as_deref(), Some("I/O error: gone"));
        }
        FileOutcome::Included(_) => panic!("an unreadable file is left out"),
    }
    let _ = scan_step(&config, &candidates, &mut progress, ScanAnswer::Head(b"fn b() {}".to_vec()));
    let done = scan_step(&config, &candidates, &mut progress, ScanAnswer::Contents(Ok(b"fn b() {}".to_vec())));
    assert!(matches!(done, ScanRequest::Finished));
    assert_eq!(progress.outcomes.len(), 3);
}
