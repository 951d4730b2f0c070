//! Scan configuration: bundle modes, include/exclude/strip rules, output
//! settings, the builder, and the overrides applied by the command line.
use vstd::prelude::*;

use crate::error::Result;
use crate::globs::{build_globset, globset_matches, patterns_match};
use crate::paths::{is_absolute, join_path, path_join};
use crate::text::{chars_of, extend_str, owned, str_eq, string_of, string_views};

verus! {

/// How much of the repository a bundle covers.
#[derive(Debug, Clone, Copy, PartialEq, Eq, Structural)]
pub enum BundleMode {
    Complete,
    Core,
    Compact,
    RepoMap,
    Diff,
    Pinned,
}

/// The profile name of a mode (`complete`, `core`, ...).
pub open spec fn mode_name(m: BundleMode) -> Seq<char> {
    match m {
        BundleMode::Complete => "complete"@,
        BundleMode::Core => "core"@,
        BundleMode::Compact => "compact"@,
        BundleMode::RepoMap => "map"@,
        BundleMode::Diff => "diff"@,
        BundleMode::Pinned => "pinned"@,
    }
}

/// The mode a profile name stands for.
pub open spec fn mode_from_name(s: Seq<char>) -> Option<BundleMode> {
    if s == "complete"@ {
        Some(BundleMode::Complete)
    } else if s == "core"@ {
        Some(BundleMode::Core)
    } else if s == "compact"@ {
        Some(BundleMode::Compact)
    } else if s == "map"@ {
        Some(BundleMode::RepoMap)
    } else if s == "diff"@ {
        Some(BundleMode::Diff)
    } else if s == "pinned"@ {
        Some(BundleMode::Pinned)
    } else {
        None
    }
}

/// The `Debug` spelling of a mode (`Complete`, `Core`, ...).
pub open spec fn mode_debug_name(m: BundleMode) -> Seq<char> {
    match m {
        BundleMode::Complete => "Complete"@,
        BundleMode::Core => "Core"@,
        BundleMode::Compact => "Compact"@,
        BundleMode::RepoMap => "Map"@,
        BundleMode::Diff => "Diff"@,
        BundleMode::Pinned => "Pinned"@,
    }
}

impl Default for BundleMode {
    fn default() -> (r: Self)
        ensures
            r == BundleMode::Core,
    {
        BundleMode::Core
    }
}

impl BundleMode {
    /// Reads a mode from its profile name (`str::parse`), failing with
    /// `unknown mode '<value>'` for any other text.
    pub fn parse(value: &str) -> (r: std::result::Result<BundleMode, String>)
        ensures
            mode_from_name(value@) matches Some(m) ==> r == Ok::<BundleMode, String>(m),
            mode_from_name(value@) is None ==> (r matches Err(msg) && msg@ == "unknown mode '"@
                + value@ + "'"@),
    {
        if str_eq(value, "complete") {
            Ok(BundleMode::Complete)
        } else if str_eq(value, "core") {
            Ok(BundleMode::Core)
        } else if str_eq(value, "compact") {
            Ok(BundleMode::Compact)
        } else if str_eq(value, "map") {
            Ok(BundleMode::RepoMap)
        } else if str_eq(value, "diff") {
            Ok(BundleMode::Diff)
        } else if str_eq(value, "pinned") {
            Ok(BundleMode::Pinned)
        } else {
            let mut msg = chars_of("unknown mode '");
            extend_str(&mut msg, value);
            extend_str(&mut msg, "'");
            Err(string_of(&msg))
        }
    }

    /// The profile name of the mode.
    pub fn name(&self) -> (r: &'static str)
        ensures
            r@ == mode_name(*self),
    {
        match self {
            BundleMode::Complete => "complete",
            BundleMode::Core => "core",
            BundleMode::Compact => "compact",
            BundleMode::RepoMap => "map",
            BundleMode::Diff => "diff",
            BundleMode::Pinned => "pinned",
        }
    }

    /// The `Debug` spelling of the mode.
    pub fn debug_name(&self) -> (r: &'static str)
        ensures
            r@ == mode_debug_name(*self),
    {
        match self {
            BundleMode::Complete => "Complete",
            BundleMode::Core => "Core",
            BundleMode::Compact => "Compact",
            BundleMode::RepoMap => "Map",
            BundleMode::Diff => "Diff",
            BundleMode::Pinned => "Pinned",
        }
    }
}

impl std::str::FromStr for BundleMode {
    type Err = String;

    /// `BundleMode::parse`.
    fn from_str(value: &str) -> std::result::Result<BundleMode, String> {
        BundleMode::parse(value)
    }
}

/// The default include rules let code, manifests, configs, frontend files,
/// scripts and unknown text in, and keep docs, tests, lockfiles and hidden
/// files out; the default strip rules drop inline Rust tests and extra blank
/// lines and keep comments.
pub proof fn law_default_rules()
    ensures
        default_include_rules().unknown_text_files,
        default_include_rules().manifests,
        default_include_rules().configs,
        default_include_rules().frontend,
        default_include_rules().scripts,
        !default_include_rules().docs,
        !default_include_rules().tests,
        !default_include_rules().lockfiles,
        !default_include_rules().hidden_files,
        default_strip_rules().rust_inline_tests,
        default_strip_rules().debug_assertion_cfg,
        !default_strip_rules().comments,
        default_strip_rules().blank_lines,
{
}

/// The profile names of the modes are `complete`, `core`, `compact`, `map`,
/// `diff` and `pinned`; their `Debug` spellings are `Complete`, `Core`,
/// `Compact`, `Map`, `Diff` and `Pinned`.
pub proof fn law_mode_names()
    ensures
        mode_name(BundleMode::Complete) == "complete"@ && mode_debug_name(BundleMode::Complete)
            == "Complete"@,
        mode_name(BundleMode::Core) == "core"@ && mode_debug_name(BundleMode::Core) == "Core"@,
        mode_name(BundleMode::Compact) == "compact"@ && mode_debug_name(BundleMode::Compact)
            == "Compact"@,
        mode_name(BundleMode::RepoMap) == "map"@ && mode_debug_name(BundleMode::RepoMap) == "Map"@,
        mode_name(BundleMode::Diff) == "diff"@ && mode_debug_name(BundleMode::Diff) == "Diff"@,
        mode_name(BundleMode::Pinned) == "pinned"@ && mode_debug_name(BundleMode::Pinned)
            == "Pinned"@,
{
}

/// Parsing the name of a mode gives the mode back, and only mode names parse.
pub proof fn law_mode_name_roundtrip(m: BundleMode, s: Seq<char>)
    ensures
        mode_from_name(mode_name(m)) == Some(m),
        mode_from_name(s) == Some(m) ==> s == mode_name(m),
{
    reveal_strlit("complete");
    reveal_strlit("core");
    reveal_strlit("compact");
    reveal_strlit("map");
    reveal_strlit("diff");
    reveal_strlit("pinned");
    assert("complete"@.len() == 8 && "core"@.len() == 4 && "compact"@.len() == 7);
    assert("map"@.len() == 3 && "diff"@.len() == 4 && "pinned"@.len() == 6);
    assert("core"@[1] == 'o' && "diff"@[1] == 'i');
    assert("complete"@[3] == 'p' && "compact"@[3] == 'p');
    assert("core"@ != "complete"@);
    assert("compact"@ != "complete"@);
    assert("compact"@ != "core"@);
    assert("map"@ != "complete"@ && "map"@ != "core"@ && "map"@ != "compact"@);
    assert("diff"@ != "complete"@ && "diff"@ != "core"@ && "diff"@ != "compact"@ && "diff"@
        != "map"@);
    assert("pinned"@ != "complete"@ && "pinned"@ != "core"@ && "pinned"@ != "compact"@
        && "pinned"@ != "map"@ && "pinned"@ != "diff"@);
}

/// How the bundle text is laid out.
#[derive(Debug, Clone, Copy, PartialEq, Eq, Structural)]
pub enum OutputFormat {
    PlainDelimited,
    Markdown,
}

impl Default for OutputFormat {
    fn default() -> (r: Self)
        ensures
            r == OutputFormat::PlainDelimited,
    {
        OutputFormat::PlainDelimited
    }
}

/// Which kinds of files are included.
#[derive(Debug, Clone, Copy, PartialEq, Eq, Structural)]
pub struct IncludeRules {
    pub unknown_text_files: bool,
    pub manifests: bool,
    pub configs: bool,
    pub frontend: bool,
    pub scripts: bool,
    pub docs: bool,
    pub tests: bool,
    pub lockfiles: bool,
    pub hidden_files: bool,
}

/// The default include rules: code, manifests, configs, frontend, scripts and
/// unknown text in; docs, tests, lockfiles and hidden files out.
pub open spec fn default_include_rules() -> IncludeRules {
    IncludeRules {
        unknown_text_files: true,
        manifests: true,
        configs: true,
        frontend: true,
        scripts: true,
        docs: false,
        tests: false,
        lockfiles: false,
        hidden_files: false,
    }
}

impl Default for IncludeRules {
    fn default() -> (r: Self)
        ensures
            r == default_include_rules(),
    {
        IncludeRules {
            unknown_text_files: true,
            manifests: true,
            configs: true,
            frontend: true,
            scripts: true,
            docs: false,
            tests: false,
            lockfiles: false,
            hidden_files: false,
        }
    }
}

/// Which paths are left out.
#[derive(Debug, Clone)]
pub struct ExcludeRules {
    pub dirs: Vec<String>,
    pub globs: Vec<String>,
    pub test_globs: Vec<String>,
    pub max_file_bytes: u64,
}

/// Directories never descended into by default.
pub open spec fn default_excluded_dirs() -> Seq<Seq<char>> {
    seq![
        ".git"@,
        "node_modules"@,
        "target"@,
        "dist"@,
        "build"@,
        ".next"@,
        ".nuxt"@,
        ".svelte-kit"@,
        ".cache"@,
        "coverage"@,
        "venv"@,
        ".venv"@,
        "__pycache__"@,
        "vendor"@,
        "fixtures"@,
        "mocks"@,
        "snapshots"@,
    ]
}

/// Glob patterns of noise excluded by default: lockfiles, maps, minified and
/// generated files, secrets, and earlier bundles.
pub open spec fn default_exclude_globs() -> Seq<Seq<char>> {
    seq![
        "**/*.lock"@,
        "**/package-lock.json"@,
        "**/pnpm-lock.yaml"@,
        "**/yarn.lock"@,
        "**/bun.lockb"@,
        "**/*.map"@,
        "**/*.min.js"@,
        "**/*.min.css"@,
        "**/generated/**"@,
        "**/__generated__/**"@,
        "**/*.generated.*"@,
        "**/*.gen.*"@,
        "**/.env"@,
        "**/.env.*"@,
        "**/*.pem"@,
        "**/*.key"@,
        "**/*.p12"@,
        "**/*.pfx"@,
        "**/id_rsa"@,
        "**/id_ed25519"@,
        "**/credentials.json"@,
        "**/secrets.*"@,
        "**/.gitignore"@,
        "**/codebase_bundle*.txt"@,
    ]
}

/// Glob patterns of test paths.
pub open spec fn default_test_globs() -> Seq<Seq<char>> {
    seq![
        "**/test/**"@,
        "**/tests/**"@,
        "**/__tests__/**"@,
        "**/testing/**"@,
        "**/spec/**"@,
        "**/specs/**"@,
        "**/e2e/**"@,
        "**/integration_tests/**"@,
        "**/test_*"@,
        "**/*_test.*"@,
        "**/*_tests.*"@,
        "**/*.test.*"@,
        "**/*.spec.*"@,
        "**/*_spec.*"@,
        "**/*_fixture.*"@,
        "**/*.fixture.*"@,
    ]
}

/// The default exclude rules.
pub open spec fn is_default_exclude_rules(r: ExcludeRules) -> bool {
    &&& string_views(r.dirs@) == default_excluded_dirs()
    &&& string_views(r.globs@) == default_exclude_globs()
    &&& string_views(r.test_globs@) == default_test_globs()
    &&& r.max_file_bytes == 1_000_000
}

impl Default for ExcludeRules {
    fn default() -> (r: Self)
        ensures
            is_default_exclude_rules(r),
    {
        let mut dirs: Vec<String> = Vec::new();
        dirs.push(owned(".git"));
        dirs.push(owned("node_modules"));
        dirs.push(owned("target"));
        dirs.push(owned("dist"));
        dirs.push(owned("build"));
        dirs.push(owned(".next"));
        dirs.push(owned(".nuxt"));
        dirs.push(owned(".svelte-kit"));
        dirs.push(owned(".cache"));
        dirs.push(owned("coverage"));
        dirs.push(owned("venv"));
        dirs.push(owned(".venv"));
        dirs.push(owned("__pycache__"));
        dirs.push(owned("vendor"));
        dirs.push(owned("fixtures"));
        dirs.push(owned("mocks"));
        dirs.push(owned("snapshots"));
        assert(string_views(dirs@) =~= default_excluded_dirs());

        let mut globs: Vec<String> = Vec::new();
        globs.push(owned("**/*.lock"));
        globs.push(owned("**/package-lock.json"));
        globs.push(owned("**/pnpm-lock.yaml"));
        globs.push(owned("**/yarn.lock"));
        globs.push(owned("**/bun.lockb"));
        globs.push(owned("**/*.map"));
        globs.push(owned("**/*.min.js"));
        globs.push(owned("**/*.min.css"));
        globs.push(owned("**/generated/**"));
        globs.push(owned("**/__generated__/**"));
        globs.push(owned("**/*.generated.*"));
        globs.push(owned("**/*.gen.*"));
        globs.push(owned("**/.env"));
        globs.push(owned("**/.env.*"));
        globs.push(owned("**/*.pem"));
        globs.push(owned("**/*.key"));
        globs.push(owned("**/*.p12"));
        globs.push(owned("**/*.pfx"));
        globs.push(owned("**/id_rsa"));
        globs.push(owned("**/id_ed25519"));
        globs.push(owned("**/credentials.json"));
        globs.push(owned("**/secrets.*"));
        globs.push(owned("**/.gitignore"));
        globs.push(owned("**/codebase_bundle*.txt"));
        assert(string_views(globs@) =~= default_exclude_globs());

        let mut test_globs: Vec<String> = Vec::new();
        test_globs.push(owned("**/test/**"));
        test_globs.push(owned("**/tests/**"));
        test_globs.push(owned("**/__tests__/**"));
        test_globs.push(owned("**/testing/**"));
        test_globs.push(owned("**/spec/**"));
        test_globs.push(owned("**/specs/**"));
        test_globs.push(owned("**/e2e/**"));
        test_globs.push(owned("**/integration_tests/**"));
        test_globs.push(owned("**/test_*"));
        test_globs.push(owned("**/*_test.*"));
        test_globs.push(owned("**/*_tests.*"));
        test_globs.push(owned("**/*.test.*"));
        test_globs.push(owned("**/*.spec.*"));
        test_globs.push(owned("**/*_spec.*"));
        test_globs.push(owned("**/*_fixture.*"));
        test_globs.push(owned("**/*.fixture.*"));
        assert(string_views(test_globs@) =~= default_test_globs());

        ExcludeRules { dirs, globs, test_globs, max_file_bytes: 1_000_000 }
    }
}

/// How file contents are cleaned.
#[derive(Debug, Clone, Copy, PartialEq, Eq, Structural)]
pub struct StripRules {
    pub rust_inline_tests: bool,
    pub debug_assertion_cfg: bool,
    pub comments: bool,
    pub blank_lines: bool,
}

/// The default strip rules: inline Rust tests and extra blank lines go,
/// comments stay.
pub open spec fn default_strip_rules() -> StripRules {
    StripRules { rust_inline_tests: true, debug_assertion_cfg: true, comments: false, blank_lines: true }
}

impl Default for StripRules {
    fn default() -> (r: Self)
        ensures
            r == default_strip_rules(),
    {
        StripRules { rust_inline_tests: true, debug_assertion_cfg: true, comments: false, blank_lines: true }
    }
}

/// Where and how the bundle is delivered.
#[derive(Debug, Clone)]
pub struct OutputConfig {
    pub output_dir: String,
    pub output_filename: String,
    pub output_format: OutputFormat,
    pub copy_to_clipboard: bool,
    pub write_to_file: bool,
}

/// The output settings for a given output directory.
pub open spec fn is_output_config_for(o: OutputConfig, dir: Seq<char>) -> bool {
    &&& o.output_dir@ == dir
    &&& o.output_filename@ == "codebase_bundle.txt"@
    &&& o.output_format == OutputFormat::PlainDelimited
    &&& !o.copy_to_clipboard
    &&& o.write_to_file
}

/// `dirs::download_dir`, as text. Nothing is claimed of the result, which
/// depends on the user's environment.
#[verifier::external_body]
fn download_dir() -> Option<String> {
    match dirs::download_dir() {
        Some(path) => Some(path.to_string_lossy().to_string()),
        None => None,
    }
}

impl OutputConfig {
    /// The default output settings for a download directory, if there is one
    /// (the current directory otherwise).
    pub fn for_download_dir(dir: Option<String>) -> (r: Self)
        ensures
            is_output_config_for(
                r,
                match dir {
                    Some(d) => d@,
                    None => "."@,
                },
            ),
    {
        let output_dir = match dir {
            Some(d) => d,
            None => owned("."),
        };
        OutputConfig {
            output_dir,
            output_filename: owned("codebase_bundle.txt"),
            output_format: OutputFormat::PlainDelimited,
            copy_to_clipboard: false,
            write_to_file: true,
        }
    }
}

impl Default for OutputConfig {
    /// The default output settings: the user's download directory (or the
    /// current directory), `codebase_bundle.txt`, written to file.
    fn default() -> (r: Self)
        ensures
            exists|d: Seq<char>| is_output_config_for(r, d),
    {
        let r = OutputConfig::for_download_dir(download_dir());
        assert(is_output_config_for(r, r.output_dir@));
        r
    }
}

/// Everything a scan needs to know.
#[derive(Debug, Clone)]
pub struct ScanConfig {
    pub root: String,
    pub mode: BundleMode,
    pub token_budget: Option<usize>,
    pub tokenizer: String,
    pub include_rules: IncludeRules,
    pub exclude_rules: ExcludeRules,
    pub strip_rules: StripRules,
    pub output: OutputConfig,
    pub exclude_globset: Option<globset::GlobSet>,
    pub test_globset: Option<globset::GlobSet>,
}

/// The default configuration apart from its root and output directory.
pub open spec fn is_default_config_at(c: ScanConfig, root: Seq<char>, output_dir: Seq<char>) -> bool {
    &&& c.root@ == root
    &&& c.mode == BundleMode::Core
    &&& c.token_budget == Some(250_000usize)
    &&& c.tokenizer@ == "o200k_base"@
    &&& c.include_rules == default_include_rules()
    &&& is_default_exclude_rules(c.exclude_rules)
    &&& c.strip_rules == default_strip_rules()
    &&& is_output_config_for(c.output, output_dir)
    &&& c.exclude_globset is None
    &&& c.test_globset is None
}

impl ScanConfig {
    /// The default configuration for a root and an output directory.
    pub fn defaults_at(root: &str, output_dir: &str) -> (r: Self)
        ensures
            is_default_config_at(r, root@, output_dir@),
    {
        ScanConfig {
            root: owned(root),
            mode: BundleMode::Core,
            token_budget: Some(250_000),
            tokenizer: owned("o200k_base"),
            include_rules: IncludeRules::default(),
            exclude_rules: ExcludeRules::default(),
            strip_rules: StripRules::default(),
            output: OutputConfig::for_download_dir(Some(owned(output_dir))),
            exclude_globset: None,
            test_globset: None,
        }
    }

    /// The path the bundle is written to.
    pub fn output_path(&self) -> (r: String)
        ensures
            r@ == path_join(self.output.output_dir@, self.output.output_filename@),
    {
        join_path(self.output.output_dir.as_str(), self.output.output_filename.as_str())
    }

    /// Makes the configuration ready to scan: the root becomes the canonical
    /// root that the caller resolved, and the exclude and test globs are
    /// compiled. Fails with a glob error exactly when a pattern list does not
    /// compile.
    pub fn finalize(self, canonical_root: String) -> (r: Result<ScanConfig>)
        ensures
            r matches Ok(c) ==> (c.root@ == canonical_root@ && is_finalized_from(c, self)),
            r is Ok <==> compiles(self.exclude_rules.globs) && compiles(self.exclude_rules.test_globs),
            r matches Err(e) ==> e is Glob,
    {
        let exclude = build_globset(&self.exclude_rules.globs)?;
        let tests = build_globset(&self.exclude_rules.test_globs)?;
        let mut c = self;
        c.root = canonical_root;
        c.exclude_globset = Some(exclude);
        c.test_globset = Some(tests);
        Ok(c)
    }

    /// A profile read from `.codebundle.toml` under `root`, made to belong
    /// to that root: the root is taken from the caller, and a relative output
    /// directory is resolved from the root.
    pub fn from_profile(profile: ScanConfig, root: &str) -> (r: ScanConfig)
        ensures
            r.root@ == root@,
            r.output.output_dir@ == (if is_absolute(profile.output.output_dir@) {
                profile.output.output_dir@
            } else {
                path_join(root@, profile.output.output_dir@)
            }),
            same_settings_except_root_and_output_dir(r, profile),
    {
        let mut c = profile;
        c.root = owned(root);
        if !crate::paths::is_absolute_path(c.output.output_dir.as_str()) {
            c.output.output_dir = join_path(root, c.output.output_dir.as_str());
        }
        c
    }

    /// The configuration written by `init`: the defaults, with the root and
    /// the output directory both the repository itself (`.`).
    pub fn profile_template() -> (r: ScanConfig)
        ensures
            is_default_config_at(r, "."@, "."@),
    {
        ScanConfig::defaults_at(".", ".")
    }
}

/// The glob patterns compile into a set.
pub open spec fn compiles(patterns: Vec<String>) -> bool {
    crate::globs::all_patterns_valid(string_views(patterns@)) && crate::globs::globset_builds(
        string_views(patterns@),
    )
}

/// `c` is `from` with its glob sets compiled (and its root possibly changed).
pub open spec fn is_finalized_from(c: ScanConfig, from: ScanConfig) -> bool {
    &&& c.mode == from.mode
    &&& c.token_budget == from.token_budget
    &&& c.tokenizer == from.tokenizer
    &&& c.include_rules == from.include_rules
    &&& c.exclude_rules == from.exclude_rules
    &&& c.strip_rules == from.strip_rules
    &&& c.output == from.output
    &&& (c.exclude_globset matches Some(s) && globset_matches(s) == patterns_match(
        string_views(from.exclude_rules.globs@),
    ))
    &&& (c.test_globset matches Some(s) && globset_matches(s) == patterns_match(
        string_views(from.exclude_rules.test_globs@),
    ))
}

/// Everything but the root and the output directory is the same.
pub open spec fn same_settings_except_root_and_output_dir(a: ScanConfig, b: ScanConfig) -> bool {
    &&& a.mode == b.mode
    &&& a.token_budget == b.token_budget
    &&& a.tokenizer == b.tokenizer
    &&& a.include_rules == b.include_rules
    &&& a.exclude_rules == b.exclude_rules
    &&& a.strip_rules == b.strip_rules
    &&& a.output.output_filename == b.output.output_filename
    &&& a.output.output_format == b.output.output_format
    &&& a.output.copy_to_clipboard == b.output.copy_to_clipboard
    &&& a.output.write_to_file == b.output.write_to_file
    &&& a.exclude_globset == b.exclude_globset
    &&& a.test_globset == b.test_globset
}

impl Default for ScanConfig {
    /// The default configuration, rooted at `.`, writing to the user's
    /// download directory (or the current directory).
    fn default() -> (r: Self)
        ensures
            exists|d: Seq<char>| is_default_config_at(r, "."@, d),
    {
        let output = OutputConfig::default();
        let mut c = ScanConfig::defaults_at(".", ".");
        c.output = output;
        assert(is_default_config_at(c, "."@, c.output.output_dir@));
        c
    }
}

/// An output location given by its parts: the directory part and the file
/// name part of a path, as `Path::parent` and `Path::file_name` see them.
#[derive(Debug, Clone)]
pub struct OutputTarget {
    pub parent: Option<String>,
    pub file_name: Option<String>,
}

/// The output directory and file name for a target: a missing directory is
/// `.`, a missing file name is `codebase_bundle.txt`.
pub open spec fn target_dir(t: OutputTarget) -> Seq<char> {
    match t.parent {
        Some(p) => p@,
        None => "."@,
    }
}

pub open spec fn target_file_name(t: OutputTarget) -> Seq<char> {
    match t.file_name {
        Some(f) => f@,
        None => "codebase_bundle.txt"@,
    }
}

/// Points the output settings at a target.
fn set_output_target(output: &mut OutputConfig, target: &OutputTarget)
    ensures
        final(output).output_dir@ == target_dir(*target),
        final(output).output_filename@ == target_file_name(*target),
        final(output).output_format == old(output).output_format,
        final(output).copy_to_clipboard == old(output).copy_to_clipboard,
        final(output).write_to_file == old(output).write_to_file,
{
    output.output_dir = match &target.parent {
        Some(p) => p.clone(),
        None => owned("."),
    };
    output.output_filename = match &target.file_name {
        Some(f) => f.clone(),
        None => owned("codebase_bundle.txt"),
    };
}

/// Builds a `ScanConfig` from the defaults, one setting at a time.
#[derive(Debug)]
pub struct ScanConfigBuilder {
    config: ScanConfig,
}

impl Default for ScanConfigBuilder {
    /// Starts from the default configuration, rooted at `.`.
    fn default() -> (r: Self)
        ensures
            exists|d: Seq<char>| is_default_config_at(r.current(), "."@, d),
    {
        ScanConfigBuilder::new(".")
    }
}

impl ScanConfigBuilder {
    /// The configuration built so far.
    pub closed spec fn current(&self) -> ScanConfig {
        self.config
    }

    /// Starts from the default configuration for a root.
    pub fn new(root: &str) -> (r: Self)
        ensures
            exists|d: Seq<char>| is_default_config_at(r.current(), root@, d),
    {
        let mut config = ScanConfig::default();
        config.root = owned(root);
        let r = ScanConfigBuilder { config };
        assert(is_default_config_at(r.current(), root@, r.current().output.output_dir@));
        r
    }

    pub fn mode(self, mode: BundleMode) -> (r: Self)
        ensures
            r.current() == (ScanConfig { mode, ..self.current() }),
    {
        let mut b = self;
        b.config.mode = mode;
        b
    }

    pub fn token_budget(self, budget: Option<usize>) -> (r: Self)
        ensures
            r.current() == (ScanConfig { token_budget: budget, ..self.current() }),
    {
        let mut b = self;
        b.config.token_budget = budget;
        b
    }

    /// Sets the output location, if one is given.
    pub fn output_path(self, target: Option<OutputTarget>) -> (r: Self)
        ensures
            target is None ==> r.current() == self.current(),
            target matches Some(t) ==> (r.current().output.output_dir@ == target_dir(t)
                && r.current().output.output_filename@ == target_file_name(t) && r.current()
                == (ScanConfig {
                output: OutputConfig {
                    output_dir: r.current().output.output_dir,
                    output_filename: r.current().output.output_filename,
                    ..self.current().output
                },
                ..self.current()
            })),
    {
        let mut b = self;
        if let Some(t) = &target {
            set_output_target(&mut b.config.output, t);
        }
        b
    }

    pub fn include_tests(self, value: bool) -> (r: Self)
        ensures
            r.current() == (ScanConfig {
                include_rules: IncludeRules { tests: value, ..self.current().include_rules },
                ..self.current()
            }),
    {
        let mut b = self;
        b.config.include_rules.tests = value;
        b
    }

    pub fn include_docs(self, value: bool) -> (r: Self)
        ensures
            r.current() == (ScanConfig {
                include_rules: IncludeRules { docs: value, ..self.current().include_rules },
                ..self.current()
            }),
    {
        let mut b = self;
        b.config.include_rules.docs = value;
        b
    }

    pub fn include_lockfiles(self, value: bool) -> (r: Self)
        ensures
            r.current() == (ScanConfig {
                include_rules: IncludeRules { lockfiles: value, ..self.current().include_rules },
                ..self.current()
            }),
    {
        let mut b = self;
        b.config.include_rules.lockfiles = value;
        b
    }

    pub fn include_hidden(self, value: bool) -> (r: Self)
        ensures
            r.current() == (ScanConfig {
                include_rules: IncludeRules { hidden_files: value, ..self.current().include_rules },
                ..self.current()
            }),
    {
        let mut b = self;
        b.config.include_rules.hidden_files = value;
        b
    }

    pub fn strip_comments(self, value: bool) -> (r: Self)
        ensures
            r.current() == (ScanConfig {
                strip_rules: StripRules { comments: value, ..self.current().strip_rules },
                ..self.current()
            }),
    {
        let mut b = self;
        b.config.strip_rules.comments = value;
        b
    }

    pub fn copy_to_clipboard(self, value: bool) -> (r: Self)
        ensures
            r.current() == (ScanConfig {
                output: OutputConfig { copy_to_clipboard: value, ..self.current().output },
                ..self.current()
            }),
    {
        let mut b = self;
        b.config.output.copy_to_clipboard = value;
        b
    }

    pub fn write_to_file(self, value: bool) -> (r: Self)
        ensures
            r.current() == (ScanConfig {
                output: OutputConfig { write_to_file: value, ..self.current().output },
                ..self.current()
            }),
    {
        let mut b = self;
        b.config.output.write_to_file = value;
        b
    }

    /// Finishes the configuration (see `ScanConfig::finalize`).
    pub fn build(self, canonical_root: String) -> (r: Result<ScanConfig>)
        ensures
            r matches Ok(c) ==> (c.root@ == canonical_root@ && is_finalized_from(c, self.current())),
            r is Ok <==> compiles(self.current().exclude_rules.globs) && compiles(
                self.current().exclude_rules.test_globs,
            ),
            r matches Err(e) ==> e is Glob,
    {
        self.config.finalize(canonical_root)
    }
}

} // verus!
