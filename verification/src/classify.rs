//! Deciding, file by file, what kind of file it is and whether it goes into
//! the bundle.
//!
//! The decision reads only the configuration, the candidate, and, for files
//! that reach the content check, the first bytes of the file (what one read
//! of up to 8192 bytes returns). `needs_content_sniff` tells the caller when
//! those bytes are needed.
use vstd::prelude::*;

use crate::config::{default_include_rules, BundleMode, ScanConfig};
use crate::discover::FileCandidate;
use crate::globs::{globset_matches, set_is_match};
use crate::paths::{path_join, strip_path_prefix, stripped_rel};
use crate::text::{
    chars_of, contains, contains_str, eq_str, owned, replace_char, replace_char_chars, starts_with,
    starts_with_str, string_views,
};

verus! {

/// What a file is.
#[derive(Debug, Clone, Copy, PartialEq, Eq, Structural)]
pub enum FileKind {
    Code,
    Config,
    Manifest,
    Documentation,
    Test,
    Generated,
    Dependency,
    Binary,
    Lockfile,
    Secret,
    UnknownText,
}

/// The decision about one file.
#[derive(Debug, Clone)]
pub struct FileClassification {
    pub kind: FileKind,
    pub language: Option<String>,
    pub included: bool,
    pub priority: i32,
    pub reasons: Vec<String>,
}

/// The decision as plain values: kind, language, included, priority, reasons.
pub type ClassificationView = (FileKind, Option<Seq<char>>, bool, i32, Seq<Seq<char>>);

pub open spec fn opt_view(o: Option<String>) -> Option<Seq<char>> {
    match o {
        Some(s) => Some(s@),
        None => None,
    }
}

impl View for FileClassification {
    type V = ClassificationView;

    open spec fn view(&self) -> ClassificationView {
        (self.kind, opt_view(self.language), self.included, self.priority, string_views(self.reasons@))
    }
}

// ---------------------------------------------------------------------------
// The rules, as spec functions
// ---------------------------------------------------------------------------

pub open spec fn is_binary_ext(e: Seq<char>) -> bool {
    ||| e == "png"@ ||| e == "jpg"@ ||| e == "jpeg"@ ||| e == "gif"@ ||| e == "webp"@
    ||| e == "ico"@ ||| e == "bmp"@ ||| e == "tiff"@ ||| e == "ttf"@ ||| e == "otf"@
    ||| e == "woff"@ ||| e == "woff2"@ ||| e == "mp3"@ ||| e == "wav"@ ||| e == "mp4"@
    ||| e == "mov"@ ||| e == "webm"@ ||| e == "zip"@ ||| e == "tar"@ ||| e == "gz"@
    ||| e == "bz2"@ ||| e == "xz"@ ||| e == "7z"@ ||| e == "rar"@ ||| e == "exe"@
    ||| e == "dll"@ ||| e == "so"@ ||| e == "dylib"@ ||| e == "class"@ ||| e == "jar"@
    ||| e == "wasm"@ ||| e == "sqlite"@ ||| e == "db"@ ||| e == "duckdb"@ ||| e == "pdf"@
}

/// The extension names a binary format.
pub open spec fn is_binary_extension(ext: Option<Seq<char>>) -> bool {
    ext matches Some(e) && is_binary_ext(e)
}

/// The first bytes hold a NUL byte or are not UTF-8.
pub open spec fn looks_binary(head: Seq<u8>) -> bool {
    head.len() > 0 && (head.contains(0u8) || !vstd::utf8::valid_utf8(head))
}

pub open spec fn is_lockfile(c: FileCandidate) -> bool {
    let n = c.file_name@;
    ||| n == "Cargo.lock"@
    ||| n == "package-lock.json"@
    ||| n == "pnpm-lock.yaml"@
    ||| n == "yarn.lock"@
    ||| n == "bun.lockb"@
    ||| (c.extension matches Some(e) && e@ == "lock"@)
}

pub open spec fn is_secret_like(c: FileCandidate) -> bool {
    let n = c.file_name@;
    ||| n == ".env"@
    ||| starts_with(n, ".env."@)
    ||| (c.extension matches Some(e) && (e@ == "pem"@ || e@ == "key"@ || e@ == "p12"@ || e@
        == "pfx"@))
    ||| n == "id_rsa"@
    ||| n == "id_ed25519"@
    ||| n == "credentials.json"@
    ||| starts_with(n, "secrets."@)
}

pub open spec fn is_generated_path(rel: Seq<char>) -> bool {
    ||| contains(rel, "/generated/"@)
    ||| contains(rel, "/__generated__/"@)
    ||| contains(rel, ".generated."@)
    ||| contains(rel, ".gen."@)
    ||| contains(rel, ".pb."@)
    ||| contains(rel, "openapi-generated"@)
    ||| contains(rel, "schema.generated"@)
}

pub open spec fn is_config_name(n: Seq<char>) -> bool {
    ||| starts_with(n, "vite.config."@)
    ||| starts_with(n, "webpack.config."@)
    ||| starts_with(n, "rollup.config."@)
    ||| starts_with(n, "next.config."@)
    ||| starts_with(n, "nuxt.config."@)
    ||| starts_with(n, "svelte.config."@)
    ||| starts_with(n, "astro.config."@)
    ||| starts_with(n, "tailwind.config."@)
    ||| starts_with(n, "postcss.config."@)
    ||| starts_with(n, "eslint.config."@)
    ||| starts_with(n, "prettier.config."@)
    ||| n == "tsconfig.json"@
    ||| n == "jsconfig.json"@
    ||| n == "Dockerfile"@
    ||| n == "Makefile"@
}

pub open spec fn is_manifest_name(n: Seq<char>) -> bool {
    n == "Cargo.toml"@ || n == "package.json"@ || n == "pyproject.toml"@ || n == "go.mod"@ || n
        == "go.sum"@
}

pub open spec fn is_doc_ext(e: Seq<char>) -> bool {
    e == "md"@ || e == "markdown"@ || e == "mdx"@ || e == "rst"@ || e == "adoc"@
}

pub open spec fn is_frontend_ext(e: Seq<char>) -> bool {
    ||| e == "ts"@ ||| e == "tsx"@ ||| e == "js"@ ||| e == "jsx"@ ||| e == "mjs"@
    ||| e == "cjs"@ ||| e == "vue"@ ||| e == "svelte"@ ||| e == "astro"@ ||| e == "html"@
    ||| e == "css"@ ||| e == "scss"@ ||| e == "sass"@ ||| e == "less"@
}

pub open spec fn is_script_ext(e: Seq<char>) -> bool {
    e == "sh"@ || e == "bash"@ || e == "ps1"@ || e == "bat"@ || e == "cmd"@
}

pub open spec fn is_code_ext(e: Seq<char>) -> bool {
    ||| e == "rs"@
    ||| is_frontend_ext(e)
    ||| e == "py"@ ||| e == "go"@ ||| e == "java"@ ||| e == "kt"@ ||| e == "kts"@
    ||| e == "c"@ ||| e == "h"@ ||| e == "cpp"@ ||| e == "hpp"@ ||| e == "cs"@
    ||| e == "rb"@ ||| e == "php"@ ||| e == "swift"@ ||| e == "sql"@ ||| e == "graphql"@
    ||| e == "gql"@ ||| is_script_ext(e) ||| e == "lua"@
}

pub open spec fn is_config_ext(e: Seq<char>) -> bool {
    e == "json"@ || e == "yaml"@ || e == "yml"@ || e == "toml"@ || e == "ini"@ || e == "xml"@
}

pub open spec fn is_frontend(c: FileCandidate) -> bool {
    c.extension matches Some(e) && is_frontend_ext(e@)
}

pub open spec fn is_script(c: FileCandidate) -> bool {
    c.extension matches Some(e) && is_script_ext(e@)
}

/// The kind of a text file, from its name and extension.
pub open spec fn classify_text(c: FileCandidate) -> FileKind {
    let n = c.file_name@;
    if is_manifest_name(n) {
        FileKind::Manifest
    } else if is_config_name(n) {
        FileKind::Config
    } else {
        match c.extension {
            Some(e) => if is_doc_ext(e@) {
                FileKind::Documentation
            } else if is_code_ext(e@) {
                FileKind::Code
            } else if is_config_ext(e@) {
                FileKind::Config
            } else {
                FileKind::UnknownText
            },
            None => FileKind::UnknownText,
        }
    }
}

/// The priority of an included file.
pub open spec fn priority_for(c: FileCandidate, kind: FileKind) -> i32 {
    let n = c.file_name@;
    if n == "main.rs"@ || n == "lib.rs"@ || n == "Cargo.toml"@ || n == "package.json"@ {
        100
    } else {
        match kind {
            FileKind::Manifest => 90,
            FileKind::Config => 80,
            FileKind::Code => 70,
            FileKind::UnknownText => 50,
            FileKind::Documentation => 20,
            _ => 10,
        }
    }
}

/// The language named by an extension.
pub open spec fn language_of_ext(e: Seq<char>) -> Seq<char> {
    if e == "rs"@ {
        "rust"@
    } else if e == "toml"@ {
        "toml"@
    } else if e == "ts"@ {
        "typescript"@
    } else if e == "tsx"@ {
        "typescriptreact"@
    } else if e == "js"@ || e == "mjs"@ || e == "cjs"@ {
        "javascript"@
    } else if e == "jsx"@ {
        "javascriptreact"@
    } else if e == "json"@ {
        "json"@
    } else if e == "yaml"@ || e == "yml"@ {
        "yaml"@
    } else if e == "py"@ {
        "python"@
    } else if e == "go"@ {
        "go"@
    } else if e == "html"@ {
        "html"@
    } else if e == "css"@ {
        "css"@
    } else if e == "scss"@ || e == "sass"@ {
        "scss"@
    } else if e == "sql"@ {
        "sql"@
    } else if e == "md"@ || e == "mdx"@ {
        "markdown"@
    } else if e == "sh"@ || e == "bash"@ {
        "shell"@
    } else if e == "ps1"@ {
        "powershell"@
    } else {
        e
    }
}

pub open spec fn language_for(c: FileCandidate) -> Option<Seq<char>> {
    match c.extension {
        Some(e) => Some(language_of_ext(e@)),
        None => None,
    }
}

/// The candidate is the file the bundle is written to.
pub open spec fn is_output_file(config: ScanConfig, c: FileCandidate) -> bool {
    match stripped_rel(
        path_join(config.output.output_dir@, config.output.output_filename@),
        config.root@,
    ) {
        Some(rel) => replace_char(rel, '\\', seq!['/']) == c.rel_path@,
        None => false,
    }
}

/// The path matches the compiled exclude globs.
pub open spec fn matches_exclude(config: ScanConfig, rel: Seq<char>) -> bool {
    config.exclude_globset matches Some(s) && globset_matches(s).contains(rel)
}

/// The path matches the compiled test globs.
pub open spec fn is_test_path(config: ScanConfig, rel: Seq<char>) -> bool {
    config.test_globset matches Some(s) && globset_matches(s).contains(rel)
}

/// The kind recorded for a file excluded by a default glob.
pub open spec fn glob_exclusion_kind(c: FileCandidate) -> FileKind {
    if is_lockfile(c) {
        FileKind::Lockfile
    } else if is_secret_like(c) {
        FileKind::Secret
    } else if is_generated_path(c.rel_path@) {
        FileKind::Generated
    } else {
        FileKind::Dependency
    }
}

/// A glob match that the configuration overrides: lockfiles when lockfiles
/// are wanted, generated files in complete mode.
pub open spec fn glob_override(config: ScanConfig, kind: FileKind) -> bool {
    (kind == FileKind::Lockfile && config.include_rules.lockfiles) || (kind == FileKind::Generated
        && config.mode == BundleMode::Complete)
}

pub open spec fn excluded_view(kind: FileKind, language: Option<Seq<char>>, reason: Seq<char>) -> ClassificationView {
    (kind, language, false, 0i32, seq![reason])
}

/// The checks that come before the content check, as far as they decide.
pub open spec fn early_decision(config: ScanConfig, c: FileCandidate) -> Option<ClassificationView> {
    let rel = c.rel_path@;
    let lang = language_for(c);
    if is_output_file(config, c) {
        Some(excluded_view(FileKind::Generated, lang, "configured output file"@))
    } else if c.hidden && !config.include_rules.hidden_files {
        Some(excluded_view(FileKind::Config, lang, "hidden file"@))
    } else if matches_exclude(config, rel) && !glob_override(config, glob_exclusion_kind(c)) {
        Some(excluded_view(glob_exclusion_kind(c), lang, "excluded by default glob"@))
    } else if is_test_path(config, rel) && !config.include_rules.tests {
        Some(excluded_view(FileKind::Test, lang, "test path or filename"@))
    } else if c.size_bytes > config.exclude_rules.max_file_bytes {
        Some(excluded_view(FileKind::Binary, lang, "too large"@))
    } else if is_binary_extension(opt_view(c.extension)) {
        Some(excluded_view(FileKind::Binary, lang, "binary or non-text file"@))
    } else {
        None
    }
}

/// The checks after the content check, for a text file.
pub open spec fn text_decision(config: ScanConfig, c: FileCandidate) -> ClassificationView {
    let rel = c.rel_path@;
    let lang = language_for(c);
    let kind = classify_text(c);
    if is_lockfile(c) && !config.include_rules.lockfiles {
        excluded_view(FileKind::Lockfile, lang, "lockfile"@)
    } else if is_generated_path(rel) && config.mode != BundleMode::Complete {
        excluded_view(FileKind::Generated, lang, "generated file"@)
    } else if is_secret_like(c) {
        excluded_view(FileKind::Secret, lang, "secret-like filename"@)
    } else if kind == FileKind::Manifest && !config.include_rules.manifests {
        excluded_view(kind, lang, "manifests disabled"@)
    } else if kind == FileKind::Config && !config.include_rules.configs {
        excluded_view(kind, lang, "configs disabled"@)
    } else if kind == FileKind::Documentation && !config.include_rules.docs {
        (kind, lang, false, 10i32, seq!["docs disabled in current mode"@])
    } else if kind == FileKind::UnknownText && !config.include_rules.unknown_text_files {
        excluded_view(kind, lang, "unknown text files disabled"@)
    } else if kind == FileKind::Code && is_script(c) && !config.include_rules.scripts {
        excluded_view(kind, lang, "scripts disabled"@)
    } else if kind == FileKind::Code && is_frontend(c) && !config.include_rules.frontend {
        excluded_view(kind, lang, "frontend files disabled"@)
    } else {
        (kind, lang, true, priority_for(c, kind), seq!["included"@])
    }
}

/// The classification of a candidate whose first bytes are `head`.
pub open spec fn classification(config: ScanConfig, c: FileCandidate, head: Seq<u8>) -> ClassificationView {
    match early_decision(config, c) {
        Some(v) => v,
        None => if looks_binary(head) {
            excluded_view(FileKind::Binary, language_for(c), "binary or non-text file"@)
        } else {
            text_decision(config, c)
        },
    }
}

/// The classification reads the file's first bytes.
pub open spec fn reads_content(config: ScanConfig, c: FileCandidate) -> bool {
    early_decision(config, c) is None
}

// ---------------------------------------------------------------------------
// Laws
// ---------------------------------------------------------------------------

/// A file whose classification is settled before the content check is
/// classified the same whatever its first bytes are.
pub proof fn law_head_only_read_when_needed(
    config: ScanConfig,
    c: FileCandidate,
    head1: Seq<u8>,
    head2: Seq<u8>,
)
    requires
        !reads_content(config, c),
    ensures
        classification(config, c, head1) == classification(config, c, head2),
{
}

/// An excluded file has exactly one reason and priority 0, unless it is
/// documentation left out by the include rules (priority 10); an included
/// file has the single reason `included`.
pub proof fn law_classification_shape(config: ScanConfig, c: FileCandidate, head: Seq<u8>)
    ensures
        ({
            let v = classification(config, c, head);
            &&& v.4.len() == 1
            &&& v.2 ==> v.4[0] == "included"@
            &&& !v.2 ==> (v.3 == 0 || (v.0 == FileKind::Documentation && v.3 == 10))
            &&& v.1 == language_for(c)
        }),
{
}

/// A lockfile is only included when lockfiles are wanted, a test path only
/// when tests are wanted, a hidden file only when hidden files are wanted,
/// and the bundle's own output file never.
pub proof fn law_default_exclusions(config: ScanConfig, c: FileCandidate, head: Seq<u8>)
    ensures
        classification(config, c, head).2 ==> {
            &&& is_lockfile(c) ==> config.include_rules.lockfiles
            &&& is_test_path(config, c.rel_path@) ==> config.include_rules.tests
            &&& c.hidden ==> config.include_rules.hidden_files
            &&& !is_output_file(config, c)
            &&& !is_secret_like(c)
            &&& !looks_binary(head)
            &&& c.size_bytes <= config.exclude_rules.max_file_bytes
        },
{
}

/// Outside complete mode, a text file on a generated path (a `generated` or
/// `__generated__` directory, a `.generated.`, `.gen.` or `.pb.` name,
/// OpenAPI or schema output) that no earlier rule decides is left out as
/// generated.
pub proof fn law_generated_text_is_left_out(config: ScanConfig, c: FileCandidate, head: Seq<u8>)
    requires
        config.mode != BundleMode::Complete,
        reads_content(config, c),
        !looks_binary(head),
        !(is_lockfile(c) && !config.include_rules.lockfiles),
        ({
            let rel = c.rel_path@;
            ||| contains(rel, "/generated/"@)
            ||| contains(rel, "/__generated__/"@)
            ||| contains(rel, ".generated."@)
            ||| contains(rel, ".gen."@)
            ||| contains(rel, ".pb."@)
            ||| contains(rel, "openapi-generated"@)
            ||| contains(rel, "schema.generated"@)
        }),
    ensures
        classification(config, c, head) == (
            FileKind::Generated,
            language_for(c),
            false,
            0i32,
            seq!["generated file"@],
        ),
{
}

/// Unless lockfiles are wanted, a text lockfile (`Cargo.lock`,
/// `package-lock.json`, `pnpm-lock.yaml`, `yarn.lock`, `bun.lockb`, or any
/// `.lock` file) that no earlier rule decides is left out as a lockfile.
pub proof fn law_lockfiles_left_out(config: ScanConfig, c: FileCandidate, head: Seq<u8>)
    requires
        !config.include_rules.lockfiles,
        reads_content(config, c),
        !looks_binary(head),
        ({
            let n = c.file_name@;
            ||| n == "Cargo.lock"@
            ||| n == "package-lock.json"@
            ||| n == "pnpm-lock.yaml"@
            ||| n == "yarn.lock"@
            ||| n == "bun.lockb"@
            ||| (c.extension matches Some(e) && e@ == "lock"@)
        }),
    ensures
        classification(config, c, head) == (
            FileKind::Lockfile,
            language_for(c),
            false,
            0i32,
            seq!["lockfile"@],
        ),
{
}

/// A text file with a secret-like name (`.env` and `.env.*`, `.pem`, `.key`,
/// `.p12`, `.pfx`, `id_rsa`, `id_ed25519`, `credentials.json`, `secrets.*`)
/// that no earlier rule decides is left out as a secret.
pub proof fn law_secret_like_left_out(config: ScanConfig, c: FileCandidate, head: Seq<u8>)
    requires
        reads_content(config, c),
        !looks_binary(head),
        !(is_lockfile(c) && !config.include_rules.lockfiles),
        !(is_generated_path(c.rel_path@) && config.mode != BundleMode::Complete),
        ({
            let n = c.file_name@;
            ||| n == ".env"@
            ||| starts_with(n, ".env."@)
            ||| (c.extension matches Some(e) && (e@ == "pem"@ || e@ == "key"@ || e@ == "p12"@
                || e@ == "pfx"@))
            ||| n == "id_rsa"@
            ||| n == "id_ed25519"@
            ||| n == "credentials.json"@
            ||| starts_with(n, "secrets."@)
        }),
    ensures
        classification(config, c, head) == (
            FileKind::Secret,
            language_for(c),
            false,
            0i32,
            seq!["secret-like filename"@],
        ),
{
}

/// An included file's priority: 100 for `main.rs`, `lib.rs`, `Cargo.toml`
/// and `package.json`; otherwise 90 for manifests, 80 for configs, 70 for
/// code, 50 for unknown text, 20 for documentation and 10 for the rest.
pub proof fn law_included_priority(config: ScanConfig, c: FileCandidate, head: Seq<u8>)
    ensures
        ({
            let v = classification(config, c, head);
            let n = c.file_name@;
            v.2 ==> v.3 == if n == "main.rs"@ || n == "lib.rs"@ || n == "Cargo.toml"@ || n
                == "package.json"@ {
                100i32
            } else if v.0 == FileKind::Manifest {
                90i32
            } else if v.0 == FileKind::Config {
                80i32
            } else if v.0 == FileKind::Code {
                70i32
            } else if v.0 == FileKind::UnknownText {
                50i32
            } else if v.0 == FileKind::Documentation {
                20i32
            } else {
                10i32
            }
        }),
{
}

/// With the default include rules, a script (`.sh`, `.bash`, `.ps1`, `.bat`,
/// `.cmd`) that no other rule leaves out is included as code.
pub proof fn law_scripts_included_by_default(config: ScanConfig, c: FileCandidate, head: Seq<u8>)
    requires
        config.include_rules == default_include_rules(),
        reads_content(config, c),
        !looks_binary(head),
        c.extension matches Some(e) && (e@ == "sh"@ || e@ == "bash"@ || e@ == "ps1"@ || e@ == "bat"@
            || e@ == "cmd"@),
        classify_text(c) == FileKind::Code,
        !is_lockfile(c),
        !is_secret_like(c),
        !is_generated_path(c.rel_path@) || config.mode == BundleMode::Complete,
    ensures
        classification(config, c, head).2,
        classification(config, c, head).0 == FileKind::Code,
        classification(config, c, head).4 == seq!["included"@],
{
    reveal_strlit("sh");
    reveal_strlit("bash");
    reveal_strlit("ps1");
    reveal_strlit("bat");
    reveal_strlit("cmd");
}

/// A text file of no known kind is included when unknown text files are
/// wanted and no other rule leaves it out.
pub proof fn law_unknown_text_is_included(config: ScanConfig, c: FileCandidate, head: Seq<u8>)
    requires
        config.include_rules.unknown_text_files,
        reads_content(config, c),
        !looks_binary(head),
        classify_text(c) == FileKind::UnknownText,
        !is_lockfile(c),
        !is_secret_like(c),
        !is_generated_path(c.rel_path@),
    ensures
        classification(config, c, head).2,
        classification(config, c, head).0 == FileKind::UnknownText,
{
}

// ---------------------------------------------------------------------------
// Executable rules
// ---------------------------------------------------------------------------

/// `std::str::from_utf8(bytes).is_ok()`: the bytes are well-formed UTF-8.
#[verifier::external_body]
fn is_utf8(bytes: &[u8]) -> (r: bool)
    ensures
        r == vstd::utf8::valid_utf8(bytes@),
{
    std::str::from_utf8(bytes).is_ok()
}

/// Whether the first bytes of a file look binary.
pub fn head_looks_binary(head: &[u8]) -> (r: bool)
    ensures
        r == looks_binary(head@),
{
    if head.len() == 0 {
        return false;
    }
    let mut i: usize = 0;
    while i < head.len()
        invariant
            i <= head.len(),
            forall|k: int| 0 <= k < i ==> head@[k] != 0u8,
        decreases head.len() - i,
    {
        if head[i] == 0 {
            assert(head@.contains(0u8));
            return true;
        }
        i += 1;
    }
    !is_utf8(head)
}

fn ext_is_binary(e: &[char]) -> (r: bool)
    ensures
        r == is_binary_ext(e@),
{
    eq_str(e, "png") || eq_str(e, "jpg") || eq_str(e, "jpeg") || eq_str(e, "gif") || eq_str(
        e,
        "webp",
    ) || eq_str(e, "ico") || eq_str(e, "bmp") || eq_str(e, "tiff") || eq_str(e, "ttf") || eq_str(
        e,
        "otf",
    ) || eq_str(e, "woff") || eq_str(e, "woff2") || eq_str(e, "mp3") || eq_str(e, "wav")
        || eq_str(e, "mp4") || eq_str(e, "mov") || eq_str(e, "webm") || eq_str(e, "zip")
        || eq_str(e, "tar") || eq_str(e, "gz") || eq_str(e, "bz2") || eq_str(e, "xz") || eq_str(
        e,
        "7z",
    ) || eq_str(e, "rar") || eq_str(e, "exe") || eq_str(e, "dll") || eq_str(e, "so") || eq_str(
        e,
        "dylib",
    ) || eq_str(e, "class") || eq_str(e, "jar") || eq_str(e, "wasm") || eq_str(e, "sqlite")
        || eq_str(e, "db") || eq_str(e, "duckdb") || eq_str(e, "pdf")
}

fn ext_chars(c: &FileCandidate) -> (r: Option<Vec<char>>)
    ensures
        match c.extension {
            Some(e) => r matches Some(x) && x@ == e@,
            None => r is None,
        },
{
    match &c.extension {
        Some(e) => Some(chars_of(e.as_str())),
        None => None,
    }
}

fn lockfile(c: &FileCandidate) -> (r: bool)
    ensures
        r == is_lockfile(*c),
{
    let n = chars_of(c.file_name.as_str());
    if eq_str(&n, "Cargo.lock") || eq_str(&n, "package-lock.json") || eq_str(&n, "pnpm-lock.yaml")
        || eq_str(&n, "yarn.lock") || eq_str(&n, "bun.lockb") {
        return true;
    }
    match ext_chars(c) {
        Some(e) => eq_str(&e, "lock"),
        None => false,
    }
}

fn secret_like(c: &FileCandidate) -> (r: bool)
    ensures
        r == is_secret_like(*c),
{
    let n = chars_of(c.file_name.as_str());
    let ext_secret = match ext_chars(c) {
        Some(e) => eq_str(&e, "pem") || eq_str(&e, "key") || eq_str(&e, "p12") || eq_str(&e, "pfx"),
        None => false,
    };
    eq_str(&n, ".env") || starts_with_str(&n, ".env.") || ext_secret || eq_str(&n, "id_rsa")
        || eq_str(&n, "id_ed25519") || eq_str(&n, "credentials.json") || starts_with_str(
        &n,
        "secrets.",
    )
}

fn generated_path(rel: &[char]) -> (r: bool)
    ensures
        r == is_generated_path(rel@),
{
    contains_str(rel, "/generated/") || contains_str(rel, "/__generated__/") || contains_str(
        rel,
        ".generated.",
    ) || contains_str(rel, ".gen.") || contains_str(rel, ".pb.") || contains_str(
        rel,
        "openapi-generated",
    ) || contains_str(rel, "schema.generated")
}

fn config_name(n: &[char]) -> (r: bool)
    ensures
        r == is_config_name(n@),
{
    starts_with_str(n, "vite.config.") || starts_with_str(n, "webpack.config.") || starts_with_str(
        n,
        "rollup.config.",
    ) || starts_with_str(n, "next.config.") || starts_with_str(n, "nuxt.config.")
        || starts_with_str(n, "svelte.config.") || starts_with_str(n, "astro.config.")
        || starts_with_str(n, "tailwind.config.") || starts_with_str(n, "postcss.config.")
        || starts_with_str(n, "eslint.config.") || starts_with_str(n, "prettier.config.") || eq_str(
        n,
        "tsconfig.json",
    ) || eq_str(n, "jsconfig.json") || eq_str(n, "Dockerfile") || eq_str(n, "Makefile")
}

fn frontend_ext(e: &[char]) -> (r: bool)
    ensures
        r == is_frontend_ext(e@),
{
    eq_str(e, "ts") || eq_str(e, "tsx") || eq_str(e, "js") || eq_str(e, "jsx") || eq_str(e, "mjs")
        || eq_str(e, "cjs") || eq_str(e, "vue") || eq_str(e, "svelte") || eq_str(e, "astro")
        || eq_str(e, "html") || eq_str(e, "css") || eq_str(e, "scss") || eq_str(e, "sass")
        || eq_str(e, "less")
}

fn script_ext(e: &[char]) -> (r: bool)
    ensures
        r == is_script_ext(e@),
{
    eq_str(e, "sh") || eq_str(e, "bash") || eq_str(e, "ps1") || eq_str(e, "bat") || eq_str(e, "cmd")
}

fn code_ext(e: &[char]) -> (r: bool)
    ensures
        r == is_code_ext(e@),
{
    eq_str(e, "rs") || frontend_ext(e) || eq_str(e, "py") || eq_str(e, "go") || eq_str(e, "java")
        || eq_str(e, "kt") || eq_str(e, "kts") || eq_str(e, "c") || eq_str(e, "h") || eq_str(
        e,
        "cpp",
    ) || eq_str(e, "hpp") || eq_str(e, "cs") || eq_str(e, "rb") || eq_str(e, "php") || eq_str(
        e,
        "swift",
    ) || eq_str(e, "sql") || eq_str(e, "graphql") || eq_str(e, "gql") || script_ext(e) || eq_str(
        e,
        "lua",
    )
}

fn text_kind(c: &FileCandidate) -> (r: FileKind)
    ensures
        r == classify_text(*c),
{
    let n = chars_of(c.file_name.as_str());
    if eq_str(&n, "Cargo.toml") || eq_str(&n, "package.json") || eq_str(&n, "pyproject.toml")
        || eq_str(&n, "go.mod") || eq_str(&n, "go.sum") {
        return FileKind::Manifest;
    }
    if config_name(&n) {
        return FileKind::Config;
    }
    match ext_chars(c) {
        Some(e) => {
            if eq_str(&e, "md") || eq_str(&e, "markdown") || eq_str(&e, "mdx") || eq_str(&e, "rst")
                || eq_str(&e, "adoc") {
                FileKind::Documentation
            } else if code_ext(&e) {
                FileKind::Code
            } else if eq_str(&e, "json") || eq_str(&e, "yaml") || eq_str(&e, "yml") || eq_str(
                &e,
                "toml",
            ) || eq_str(&e, "ini") || eq_str(&e, "xml") {
                FileKind::Config
            } else {
                FileKind::UnknownText
            }
        },
        None => FileKind::UnknownText,
    }
}

fn priority(c: &FileCandidate, kind: FileKind) -> (r: i32)
    ensures
        r == priority_for(*c, kind),
{
    let n = chars_of(c.file_name.as_str());
    if eq_str(&n, "main.rs") || eq_str(&n, "lib.rs") || eq_str(&n, "Cargo.toml") || eq_str(
        &n,
        "package.json",
    ) {
        100
    } else {
        match kind {
            FileKind::Manifest => 90,
            FileKind::Config => 80,
            FileKind::Code => 70,
            FileKind::UnknownText => 50,
            FileKind::Documentation => 20,
            _ => 10,
        }
    }
}

fn language_name(e: &str) -> (r: String)
    ensures
        r@ == language_of_ext(e@),
{
    let c = chars_of(e);
    let lang = if eq_str(&c, "rs") {
        "rust"
    } else if eq_str(&c, "toml") {
        "toml"
    } else if eq_str(&c, "ts") {
        "typescript"
    } else if eq_str(&c, "tsx") {
        "typescriptreact"
    } else if eq_str(&c, "js") || eq_str(&c, "mjs") || eq_str(&c, "cjs") {
        "javascript"
    } else if eq_str(&c, "jsx") {
        "javascriptreact"
    } else if eq_str(&c, "json") {
        "json"
    } else if eq_str(&c, "yaml") || eq_str(&c, "yml") {
        "yaml"
    } else if eq_str(&c, "py") {
        "python"
    } else if eq_str(&c, "go") {
        "go"
    } else if eq_str(&c, "html") {
        "html"
    } else if eq_str(&c, "css") {
        "css"
    } else if eq_str(&c, "scss") || eq_str(&c, "sass") {
        "scss"
    } else if eq_str(&c, "sql") {
        "sql"
    } else if eq_str(&c, "md") || eq_str(&c, "mdx") {
        "markdown"
    } else if eq_str(&c, "sh") || eq_str(&c, "bash") {
        "shell"
    } else if eq_str(&c, "ps1") {
        "powershell"
    } else {
        e
    };
    owned(lang)
}

/// The language of a candidate, from its extension.
pub fn language(c: &FileCandidate) -> (r: Option<String>)
    ensures
        opt_view(r) == language_for(*c),
{
    match &c.extension {
        Some(e) => Some(language_name(e.as_str())),
        None => None,
    }
}

fn excluded(kind: FileKind, language: Option<String>, reason: &str) -> (r: FileClassification)
    ensures
        r@ == excluded_view(kind, opt_view(language), reason@),
{
    let mut reasons: Vec<String> = Vec::new();
    reasons.push(owned(reason));
    assert(string_views(reasons@) =~= seq![reason@]);
    FileClassification { kind, language, included: false, priority: 0, reasons }
}

fn output_file(config: &ScanConfig, c: &FileCandidate) -> (r: bool)
    ensures
        r == is_output_file(*config, *c),
{
    let out = config.output_path();
    match strip_path_prefix(out.as_str(), config.root.as_str()) {
        Some(rel) => {
            let slash: Vec<char> = vec!['/'];
            assert(slash@ == seq!['/']);
            let normalized = replace_char_chars(&chars_of(rel.as_str()), '\\', &slash);
            eq_str(&normalized, c.rel_path.as_str())
        },
        None => false,
    }
}

fn exclude_match(config: &ScanConfig, rel: &str) -> (r: bool)
    ensures
        r == matches_exclude(*config, rel@),
{
    match &config.exclude_globset {
        Some(s) => set_is_match(s, rel),
        None => false,
    }
}

fn test_match(config: &ScanConfig, rel: &str) -> (r: bool)
    ensures
        r == is_test_path(*config, rel@),
{
    match &config.test_globset {
        Some(s) => set_is_match(s, rel),
        None => false,
    }
}

fn exclusion_kind(c: &FileCandidate, rel: &[char]) -> (r: FileKind)
    requires
        rel@ == c.rel_path@,
    ensures
        r == glob_exclusion_kind(*c),
{
    if lockfile(c) {
        FileKind::Lockfile
    } else if secret_like(c) {
        FileKind::Secret
    } else if generated_path(rel) {
        FileKind::Generated
    } else {
        FileKind::Dependency
    }
}

fn binary_extension(c: &FileCandidate) -> (r: bool)
    ensures
        r == is_binary_extension(opt_view(c.extension)),
{
    match ext_chars(c) {
        Some(e) => ext_is_binary(&e),
        None => false,
    }
}

/// The classification up to the content check: `Some` when one of the
/// earlier checks decides.
fn early(config: &ScanConfig, c: &FileCandidate) -> (r: Option<FileClassification>)
    ensures
        match early_decision(*config, *c) {
            Some(v) => r matches Some(x) && x@ == v,
            None => r is None,
        },
{
    let rel = chars_of(c.rel_path.as_str());
    let lang = language(c);
    if output_file(config, c) {
        return Some(excluded(FileKind::Generated, lang, "configured output file"));
    }
    if c.hidden && !config.include_rules.hidden_files {
        return Some(excluded(FileKind::Config, lang, "hidden file"));
    }
    if exclude_match(config, c.rel_path.as_str()) {
        let kind = exclusion_kind(c, &rel);
        let allowed_override = (kind == FileKind::Lockfile && config.include_rules.lockfiles) || (kind
            == FileKind::Generated && config.mode == BundleMode::Complete);
        if !allowed_override {
            return Some(excluded(kind, lang, "excluded by default glob"));
        }
    }
    if test_match(config, c.rel_path.as_str()) && !config.include_rules.tests {
        return Some(excluded(FileKind::Test, lang, "test path or filename"));
    }
    if c.size_bytes > config.exclude_rules.max_file_bytes {
        return Some(excluded(FileKind::Binary, lang, "too large"));
    }
    if binary_extension(c) {
        return Some(excluded(FileKind::Binary, lang, "binary or non-text file"));
    }
    None
}

/// Whether classifying this candidate needs the file's first bytes.
pub fn needs_content_sniff(config: &ScanConfig, candidate: &FileCandidate) -> (r: bool)
    ensures
        r == reads_content(*config, *candidate),
{
    early(config, candidate).is_none()
}

fn included_with(kind: FileKind, language: Option<String>, priority: i32, reason: &str) -> (r: FileClassification)
    ensures
        r@ == (kind, opt_view(language), true, priority, seq![reason@]),
{
    let mut reasons: Vec<String> = Vec::new();
    reasons.push(owned(reason));
    assert(string_views(reasons@) =~= seq![reason@]);
    FileClassification { kind, language, included: true, priority, reasons }
}

fn text_classification(config: &ScanConfig, c: &FileCandidate) -> (r: FileClassification)
    ensures
        r@ == text_decision(*config, *c),
{
    let rel = chars_of(c.rel_path.as_str());
    let lang = language(c);
    if lockfile(c) && !config.include_rules.lockfiles {
        return excluded(FileKind::Lockfile, lang, "lockfile");
    }
    if generated_path(&rel) && config.mode != BundleMode::Complete {
        return excluded(FileKind::Generated, lang, "generated file");
    }
    if secret_like(c) {
        return excluded(FileKind::Secret, lang, "secret-like filename");
    }
    let kind = text_kind(c);
    let (script, frontend) = match ext_chars(c) {
        Some(e) => (script_ext(&e), frontend_ext(&e)),
        None => (false, false),
    };
    if kind == FileKind::Manifest && !config.include_rules.manifests {
        excluded(kind, lang, "manifests disabled")
    } else if kind == FileKind::Config && !config.include_rules.configs {
        excluded(kind, lang, "configs disabled")
    } else if kind == FileKind::Documentation && !config.include_rules.docs {
        let mut r = excluded(kind, lang, "docs disabled in current mode");
        r.priority = 10;
        r
    } else if kind == FileKind::UnknownText && !config.include_rules.unknown_text_files {
        excluded(kind, lang, "unknown text files disabled")
    } else if kind == FileKind::Code && script && !config.include_rules.scripts {
        excluded(kind, lang, "scripts disabled")
    } else if kind == FileKind::Code && frontend && !config.include_rules.frontend {
        excluded(kind, lang, "frontend files disabled")
    } else {
        let p = priority(c, kind);
        included_with(kind, lang, p, "included")
    }
}

/// Classifies a candidate. `head` is what one read of up to 8192 bytes from
/// the start of the file returned; it is only looked at when
/// `needs_content_sniff` holds (otherwise pass an empty slice).
pub fn classify_candidate(config: &ScanConfig, candidate: &FileCandidate, head: &[u8]) -> (r: FileClassification)
    ensures
        r@ == classification(*config, *candidate, head@),
{
    match early(config, candidate) {
        Some(decided) => decided,
        None => {
            if head_looks_binary(head) {
                excluded(FileKind::Binary, language(candidate), "binary or non-text file")
            } else {
                text_classification(config, candidate)
            }
        },
    }
}

} // verus!
