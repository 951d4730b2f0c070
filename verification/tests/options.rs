use code_grabber_core::config::{BundleMode, OutputTarget, ScanConfig, ScanConfigBuilder};
use code_grabber_core::error::CodeGrabberError;
use code_grabber_core::options::{apply_cli_options, apply_window_selection, parse_token_budget, CliOptions, WindowSelection};

fn base() -> ScanConfig {
    ScanConfig::defaults_at("/repo", "/downloads")
}

fn no_cli_options() -> CliOptions {
    CliOptions {
        mode: None,
        budget: None,
        output: None,
        include_tests: false,
        include_docs: false,
        include_lockfiles: false,
        include_hidden: false,
        strip_comments: false,
        copy: false,
    }
}

#[test]
fn budget_field_reads_whole_numbers_with_commas() {
    assert_eq!(parse_token_budget(""), Ok(None));
    assert_eq!(parse_token_budget("   "), Ok(None));
    assert_eq!(parse_token_budget("250000"), Ok(Some(250_000)));
    assert_eq!(parse_token_budget(" 250,000 "), Ok(Some(250_000)));
    assert_eq!(parse_token_budget("+7"), Ok(Some(7)));
    assert_eq!(parse_token_budget("18446744073709551615"), Ok(Some(usize::MAX)));
}

#[test]
fn budget_field_rejects_other_text() {
    let message = Err("Token budget must be a whole number.".to_string());
    assert_eq!(parse_token_budget("abc"), message);
    assert_eq!(parse_token_budget("-5"), message);
    assert_eq!(parse_token_budget("1 000"), message);
    assert_eq!(parse_token_budget("+"), message);
    assert_eq!(parse_token_budget(","), message);
    assert_eq!(parse_token_budget("18446744073709551616"), message);
}

#[test]
fn command_line_switches_only_turn_settings_on() {
    let mut config = base();
    config.include_rules.docs = true;
    config.output.copy_to_clipboard = true;
    let options = CliOptions {
        mode: Some(BundleMode::Compact),
        include_tests: true,
        ..no_cli_options()
    };
    let r = apply_cli_options(config, &options);
    assert_eq!(r.mode, BundleMode::Compact);
    assert_eq!(r.token_budget, Some(250_000));
    assert!(r.include_rules.tests);
    assert!(r.include_rules.docs);
    assert!(!r.include_rules.lockfiles);
    assert!(r.output.copy_to_clipboard);
    assert_eq!(r.output.output_dir, "/downloads");
    assert_eq!(r.output.output_filename, "codebase_bundle.txt");
}

#[test]
fn a_profile_mode_stays_without_a_mode_option() {
    let mut config = base();
    config.mode = BundleMode::Complete;
    let r = apply_cli_options(config.clone(), &no_cli_options());
    assert_eq!(r.mode, BundleMode::Complete);
    let given = CliOptions {
        mode: Some(BundleMode::Core),
        ..no_cli_options()
    };
    let r = apply_cli_options(config, &given);
    assert_eq!(r.mode, BundleMode::Core);
}

#[test]
fn command_line_budget_and_output_replace_the_profile() {
    let options = CliOptions {
        budget: Some(1000),
        output: Some(OutputTarget {
            parent: Some("out".to_string()),
            file_name: Some("b.txt".to_string()),
        }),
        strip_comments: true,
        copy: true,
        ..no_cli_options()
    };
    let r = apply_cli_options(base(), &options);
    assert_eq!(r.token_budget, Some(1000));
    assert_eq!(r.output.output_dir, "out");
    assert_eq!(r.output.output_filename, "b.txt");
    assert!(r.strip_rules.comments);
    assert!(r.output.copy_to_clipboard);
    assert_eq!(r.output_path(), "out/b.txt");
    let bare = CliOptions {
        output: Some(OutputTarget { parent: None, file_name: None }),
        ..no_cli_options()
    };
    let r = apply_cli_options(base(), &bare);
    assert_eq!(r.output.output_dir, ".");
    assert_eq!(r.output.output_filename, "codebase_bundle.txt");
}

#[test]
fn window_selection_sets_every_control() {
    let mut config = base();
    config.include_rules.tests = true;
    let selection = WindowSelection {
        mode: BundleMode::Complete,
        token_budget: None,
        output: None,
        include_tests: false,
        include_docs: true,
        include_lockfiles: true,
        include_hidden: false,
        strip_comments: true,
        copy_to_clipboard: true,
        write_to_file: true,
    };
    let inspect = apply_window_selection(config.clone(), &selection, false);
    assert_eq!(inspect.mode, BundleMode::Complete);
    assert_eq!(inspect.token_budget, None);
    assert!(!inspect.include_rules.tests);
    assert!(inspect.include_rules.docs);
    assert!(!inspect.output.copy_to_clipboard);
    assert!(!inspect.output.write_to_file);
    let bundle = apply_window_selection(config, &selection, true);
    assert!(bundle.output.copy_to_clipboard);
    assert!(bundle.output.write_to_file);
}

#[test]
fn mode_names_read_back() {
    for mode in [
        BundleMode::Complete,
        BundleMode::Core,
        BundleMode::Compact,
        BundleMode::RepoMap,
        BundleMode::Diff,
        BundleMode::Pinned,
    ] {
        assert_eq!(BundleMode::parse(mode.name()), Ok(mode));
    }
    assert_eq!(BundleMode::parse("map"), Ok(BundleMode::RepoMap));
    assert_eq!(BundleMode::parse("not-a-mode"), Err("unknown mode 'not-a-mode'".to_string()));
    assert_eq!(BundleMode::RepoMap.debug_name(), "Map");
}

#[test]
fn profiles_resolve_their_output_directory_from_the_root() {
    let mut profile = ScanConfig::profile_template();
    assert_eq!(profile.root, ".");
    assert_eq!(profile.output.output_dir, ".");
    profile.output.output_dir = "bundles".to_string();
    profile.output.output_filename = "repo.txt".to_string();
    let config = ScanConfig::from_profile(profile, "/work/repo");
    assert_eq!(config.root, "/work/repo");
    assert_eq!(config.output_path(), "/work/repo/bundles/repo.txt");
    let mut absolute = ScanConfig::profile_template();
    absolute.output.output_dir = "/tmp/out".to_string();
    let config = ScanConfig::from_profile(absolute, "/work/repo");
    assert_eq!(config.output.output_dir, "/tmp/out");
}

#[test]
fn bad_glob_patterns_are_glob_errors() {
    let mut config = base();
    config.exclude_rules.globs.push("src/[".to_string());
    match config.finalize("/repo".to_string()) {
        Err(CodeGrabberError::Glob(message)) => assert!(!message.is_empty()),
        other => panic!("expected a glob error, got {other:?}"),
    }
    let built = ScanConfigBuilder::new("/repo")
        .include_tests(true)
        .include_docs(true)
        .build("/canonical/repo".to_string())
        .unwrap();
    assert_eq!(built.root, "/canonical/repo");
    assert!(built.include_rules.tests && built.include_rules.docs);
    assert!(built.exclude_globset.is_some() && built.test_globset.is_some());
}

#[test]
fn error_messages_name_their_kind() {
    assert_eq!(CodeGrabberError::Io("gone".to_string()).message(), "I/O error: gone");
    assert_eq!(CodeGrabberError::Tokenizer("x".to_string()).message(), "tokenizer error: x");
    assert_eq!(CodeGrabberError::TomlDe("bad".to_string()).message(), "TOML parse error: bad");
    assert_eq!(CodeGrabberError::Config("c".to_string()).message(), "configuration error: c");
    assert_eq!(CodeGrabberError::Glob("g".to_string()).message(), "glob error: g");
    assert_eq!(CodeGrabberError::Walk("w".to_string()).message(), "walk error: w");
    assert_eq!(CodeGrabberError::TomlSer("s".to_string()).message(), "TOML write error: s");
}

#[test]
fn builders_start_from_the_defaults() {
    let config = ScanConfigBuilder::default().build("/here".to_string()).unwrap();
    assert_eq!(config.root, "/here");
    assert_eq!(config.mode, BundleMode::Core);
    assert_eq!(config.token_budget, Some(250_000));
    assert_eq!(config.tokenizer, "o200k_base");
    assert!(!config.include_rules.tests && !config.include_rules.docs);
    assert!(config.strip_rules.rust_inline_tests && !config.strip_rules.comments);
    assert_eq!(config.output.output_filename, "codebase_bundle.txt");
    assert!(config.output.write_to_file && !config.output.copy_to_clipboard);
    assert_eq!(config.exclude_rules.max_file_bytes, 1_000_000);
    assert!(config.exclude_rules.dirs.iter().any(|d| d == "node_modules"));
    assert!(config.exclude_rules.globs.iter().any(|g| g == "**/*.lock"));
    assert!(config.exclude_rules.test_globs.iter().any(|g| g == "**/tests/**"));
}

#[test]
fn modes_parse_with_from_str() {
    assert_eq!("complete".parse::<BundleMode>(), Ok(BundleMode::Complete));
    assert_eq!("map".parse::<BundleMode>(), Ok(BundleMode::RepoMap));
    assert_eq!("nope".parse::<BundleMode>(), Err("unknown mode 'nope'".to_string()));
}
