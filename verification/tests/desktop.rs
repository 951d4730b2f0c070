use code_grabber_core::config::{BundleMode, ScanConfig};
use code_grabber_core::desktop::{on_job_event, start_init_profile, start_job, JobEvent, JobState, RunContext};
use code_grabber_core::display::JobKind;
use code_grabber_core::format::BundleOutput;
use code_grabber_core::options::{window_output_path, window_root};
use code_grabber_core::report::{BundleReport, FileReport, GenerationResult};
use code_grabber_core::tables::{count_label, empty_table_note, more_rows_note, rows_shown, sort_label, window_row};

fn idle() -> JobState {
    JobState {
        status: "Ready to scan a repository.".to_string(),
        error: Some("old".to_string()),
        running: None,
        output_preview: String::new(),
        output_path: "/dl/codebase_bundle.txt".to_string(),
        last_result: None,
        last_run: None,
        last_profile_path: None,
    }
}

#[test]
fn a_job_starts_only_when_none_runs() {
    let mut state = idle();
    let plan = start_job(&mut state, JobKind::Bundle, Ok(ScanConfig::defaults_at("/repo", "/dl")));
    let (config, run) = plan.unwrap();
    assert_eq!(config.root, "/repo");
    assert_eq!(run.root, "/repo");
    assert_eq!(run.mode, BundleMode::Core);
    assert_eq!(run.budget, Some(250_000));
    assert_eq!(state.running, Some(JobKind::Bundle));
    assert_eq!(state.error, None);
    assert_eq!(state.status, "Generating bundle...");
    let again = start_job(&mut state, JobKind::Inspect, Ok(ScanConfig::defaults_at("/x", "/dl")));
    assert!(again.is_none());
    assert_eq!(state.running, Some(JobKind::Bundle));
    assert_eq!(state.status, "Generating bundle...");
}

#[test]
fn a_configuration_error_is_shown() {
    let mut state = idle();
    let plan = start_job(&mut state, JobKind::Inspect, Err("Token budget must be a whole number.".to_string()));
    assert!(plan.is_none());
    assert_eq!(state.error.as_deref(), Some("Token budget must be a whole number."));
    assert_eq!(state.running, None);
    assert_eq!(state.status, "Ready to scan a repository.");
}

#[test]
fn writing_the_profile_needs_a_root() {
    let mut state = idle();
    assert!(start_init_profile(&mut state, "   ").is_none());
    assert_eq!(state.error.as_deref(), Some("Choose a repository root before initializing a profile."));
    assert_eq!(state.running, None);
    let root = start_init_profile(&mut state, "  /repo ").unwrap();
    assert_eq!(root, "/repo");
    assert_eq!(state.running, Some(JobKind::InitProfile));
    assert_eq!(state.status, "Initializing profile...");
    assert_eq!(state.error, None);
}

#[test]
fn answers_end_the_job() {
    let mut state = idle();
    state.running = Some(JobKind::Bundle);
    let mut report = BundleReport::default();
    report.included_files.push(FileReport::included("a.rs".to_string(), 3, 1234, None));
    report.total_tokens = 1234;
    let result = GenerationResult { output: BundleOutput { contents: "bundle text".to_string() }, report };
    on_job_event(
        &mut state,
        JobEvent::Generated {
            kind: JobKind::Bundle,
            result,
            run: RunContext { root: "/repo".to_string(), mode: BundleMode::Core, budget: None },
            output_path: Some("/out/b.txt".to_string()),
            copied: true,
            wrote_file: true,
        },
    );
    assert_eq!(state.running, None);
    assert_eq!(state.error, None);
    assert_eq!(state.status, "Bundle complete: 1 files, 1,234 tokens, wrote output, copied to clipboard.");
    assert_eq!(state.output_preview, "bundle text");
    assert_eq!(state.output_path, "/out/b.txt");
    assert!(state.last_result.is_some());
    assert_eq!(state.last_run.as_ref().unwrap().root, "/repo");

    state.running = Some(JobKind::InitProfile);
    on_job_event(&mut state, JobEvent::ProfileInitialized("/repo/.codebundle.toml".to_string()));
    assert_eq!(state.status, "Profile initialized at /repo/.codebundle.toml.");
    assert_eq!(state.last_profile_path.as_deref(), Some("/repo/.codebundle.toml"));
    assert_eq!(state.running, None);

    state.running = Some(JobKind::Inspect);
    on_job_event(&mut state, JobEvent::Failed("I/O error: gone".to_string()));
    assert_eq!(state.status, "The last operation failed.");
    assert_eq!(state.error.as_deref(), Some("I/O error: gone"));

    state.running = Some(JobKind::Inspect);
    on_job_event(&mut state, JobEvent::Disconnected);
    assert_eq!(state.running, None);
    assert_eq!(state.status, "The last operation failed.");
    assert_eq!(state.error.as_deref(), Some("Worker thread disconnected before returning a result."));
}

#[test]
fn window_fields_are_trimmed() {
    assert_eq!(window_root("  /repo  "), Ok("/repo".to_string()));
    assert_eq!(window_root(" \t "), Err("Choose a repository root before scanning.".to_string()));
    assert_eq!(window_output_path(""), None);
    assert_eq!(window_output_path(" /out/b.txt "), Some("/out/b.txt".to_string()));
}

#[test]
fn window_tables_have_labels_and_a_row_cap() {
    assert_eq!(count_label(1, 1, false), "1 file");
    assert_eq!(count_label(3, 1200, true), "3 files of 1,200");
    assert_eq!(sort_label(true), "Largest token counts first");
    assert_eq!(sort_label(false), "Largest excluded files first");
    assert_eq!(empty_table_note(false), "No files in this category.");
    assert_eq!(empty_table_note(true), "No files match the current filter.");
    assert_eq!(rows_shown(12), 12);
    assert_eq!(rows_shown(5000), 400);
    assert_eq!(more_rows_note(400), None);
    assert_eq!(more_rows_note(1401), Some("Showing first 400 of 1,401.".to_string()));
    let f = FileReport::excluded("src/a.bin".to_string(), 2048, None, "binary or non-text file".to_string());
    assert_eq!(
        window_row(&f, false),
        ("src/a.bin".to_string(), "-".to_string(), "2.0 KB".to_string(), "binary or non-text file".to_string())
    );
    let g = FileReport::included("src/b.rs".to_string(), 10, 4321, Some("rust".to_string()));
    assert_eq!(
        window_row(&g, true),
        ("src/b.rs".to_string(), "rust".to_string(), "10 B".to_string(), "4,321".to_string())
    );
}
