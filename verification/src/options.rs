//! What the command line and the window change in a loaded configuration,
//! and the window's token budget field.
use vstd::prelude::*;

use crate::config::{target_dir, target_file_name, BundleMode, OutputTarget, ScanConfig};
use crate::text::{
    chars_of, owned, replace_char, replace_char_chars, trim_end, trim_end_chars, trim_start,
    trim_start_chars,
};

verus! {

/// The options of `cg bundle` and `cg inspect`.
#[derive(Debug, Clone)]
pub struct CliOptions {
    /// The `--mode` given, if any.
    pub mode: Option<BundleMode>,
    pub budget: Option<usize>,
    pub output: Option<OutputTarget>,
    pub include_tests: bool,
    pub include_docs: bool,
    pub include_lockfiles: bool,
    pub include_hidden: bool,
    pub strip_comments: bool,
    pub copy: bool,
}

/// What the window's controls hold.
#[derive(Debug, Clone)]
pub struct WindowSelection {
    pub mode: BundleMode,
    pub token_budget: Option<usize>,
    pub output: Option<OutputTarget>,
    pub include_tests: bool,
    pub include_docs: bool,
    pub include_lockfiles: bool,
    pub include_hidden: bool,
    pub strip_comments: bool,
    pub copy_to_clipboard: bool,
    pub write_to_file: bool,
}

/// The output directory after pointing it at an optional target.
pub open spec fn output_dir_after(c: ScanConfig, target: Option<OutputTarget>) -> Seq<char> {
    match target {
        Some(t) => target_dir(t),
        None => c.output.output_dir@,
    }
}

/// The output file name after pointing it at an optional target.
pub open spec fn output_filename_after(c: ScanConfig, target: Option<OutputTarget>) -> Seq<char> {
    match target {
        Some(t) => target_file_name(t),
        None => c.output.output_filename@,
    }
}

/// What the two kinds of options leave as it was.
pub open spec fn keeps_the_rest(r: ScanConfig, c: ScanConfig) -> bool {
    &&& r.root == c.root
    &&& r.tokenizer == c.tokenizer
    &&& r.exclude_rules == c.exclude_rules
    &&& r.include_rules.unknown_text_files == c.include_rules.unknown_text_files
    &&& r.include_rules.manifests == c.include_rules.manifests
    &&& r.include_rules.configs == c.include_rules.configs
    &&& r.include_rules.frontend == c.include_rules.frontend
    &&& r.include_rules.scripts == c.include_rules.scripts
    &&& r.strip_rules.rust_inline_tests == c.strip_rules.rust_inline_tests
    &&& r.strip_rules.debug_assertion_cfg == c.strip_rules.debug_assertion_cfg
    &&& r.strip_rules.blank_lines == c.strip_rules.blank_lines
    &&& r.output.output_format == c.output.output_format
    &&& r.exclude_globset == c.exclude_globset
    &&& r.test_globset == c.test_globset
}

fn point_output(config: &mut ScanConfig, target: &Option<OutputTarget>)
    ensures
        final(config).output.output_dir@ == output_dir_after(*old(config), *target),
        final(config).output.output_filename@ == output_filename_after(*old(config), *target),
        final(config).output.output_format == old(config).output.output_format,
        final(config).output.copy_to_clipboard == old(config).output.copy_to_clipboard,
        final(config).output.write_to_file == old(config).output.write_to_file,
        final(config).root == old(config).root,
        final(config).mode == old(config).mode,
        final(config).token_budget == old(config).token_budget,
        final(config).tokenizer == old(config).tokenizer,
        final(config).include_rules == old(config).include_rules,
        final(config).exclude_rules == old(config).exclude_rules,
        final(config).strip_rules == old(config).strip_rules,
        final(config).exclude_globset == old(config).exclude_globset,
        final(config).test_globset == old(config).test_globset,
{
    if let Some(t) = target {
        config.output.output_dir = match &t.parent {
            Some(p) => p.clone(),
            None => owned("."),
        };
        config.output.output_filename = match &t.file_name {
            Some(f) => f.clone(),
            None => owned("codebase_bundle.txt"),
        };
    }
}

/// The command line's options on top of a configuration: the mode, the
/// budget and the output path when given; each `--include-*`,
/// `--strip-comments` and `--copy` switch turns its setting on, and an
/// absent switch leaves the setting as it was.
pub fn apply_cli_options(config: ScanConfig, options: &CliOptions) -> (r: ScanConfig)
    ensures
        r.mode == match options.mode {
            Some(m) => m,
            None => config.mode,
        },
        r.token_budget == (if options.budget is Some {
            options.budget
        } else {
            config.token_budget
        }),
        r.output.output_dir@ == output_dir_after(config, options.output),
        r.output.output_filename@ == output_filename_after(config, options.output),
        r.include_rules.tests == (config.include_rules.tests || options.include_tests),
        r.include_rules.docs == (config.include_rules.docs || options.include_docs),
        r.include_rules.lockfiles == (config.include_rules.lockfiles || options.include_lockfiles),
        r.include_rules.hidden_files == (config.include_rules.hidden_files || options.include_hidden),
        r.strip_rules.comments == (config.strip_rules.comments || options.strip_comments),
        r.output.copy_to_clipboard == (config.output.copy_to_clipboard || options.copy),
        r.output.write_to_file == config.output.write_to_file,
        keeps_the_rest(r, config),
{
    let mode = match options.mode {
        Some(m) => m,
        None => config.mode,
    };
    let budget = match options.budget {
        Some(b) => Some(b),
        None => config.token_budget,
    };
    let mut c = config;
    c.mode = mode;
    c.token_budget = budget;
    point_output(&mut c, &options.output);
    c.include_rules.tests = c.include_rules.tests || options.include_tests;
    c.include_rules.docs = c.include_rules.docs || options.include_docs;
    c.include_rules.lockfiles = c.include_rules.lockfiles || options.include_lockfiles;
    c.include_rules.hidden_files = c.include_rules.hidden_files || options.include_hidden;
    c.strip_rules.comments = c.strip_rules.comments || options.strip_comments;
    c.output.copy_to_clipboard = c.output.copy_to_clipboard || options.copy;
    c
}

/// The window's controls on top of a configuration. Copying and writing
/// happen only for a run that writes (`write_file`), and then as the
/// controls say.
pub fn apply_window_selection(config: ScanConfig, selection: &WindowSelection, write_file: bool) -> (r: ScanConfig)
    ensures
        r.mode == selection.mode,
        r.token_budget == selection.token_budget,
        r.output.output_dir@ == output_dir_after(config, selection.output),
        r.output.output_filename@ == output_filename_after(config, selection.output),
        r.include_rules.tests == selection.include_tests,
        r.include_rules.docs == selection.include_docs,
        r.include_rules.lockfiles == selection.include_lockfiles,
        r.include_rules.hidden_files == selection.include_hidden,
        r.strip_rules.comments == selection.strip_comments,
        r.output.copy_to_clipboard == (write_file && selection.copy_to_clipboard),
        r.output.write_to_file == (write_file && selection.write_to_file),
        keeps_the_rest(r, config),
{
    let mut c = config;
    c.mode = selection.mode;
    c.token_budget = selection.token_budget;
    c.include_rules.tests = selection.include_tests;
    c.include_rules.docs = selection.include_docs;
    c.include_rules.lockfiles = selection.include_lockfiles;
    c.include_rules.hidden_files = selection.include_hidden;
    c.strip_rules.comments = selection.strip_comments;
    c.output.copy_to_clipboard = write_file && selection.copy_to_clipboard;
    c.output.write_to_file = write_file && selection.write_to_file;
    point_output(&mut c, &selection.output);
    c
}

// ---------------------------------------------------------------------------
// The window's path fields
// ---------------------------------------------------------------------------

/// A path field's text trimmed, or nothing when only white space is left.
pub open spec fn chosen_root(field: Seq<char>) -> Option<Seq<char>> {
    let t = trim_start(trim_end(field));
    if t.len() == 0 {
        None
    } else {
        Some(t)
    }
}

/// The message for a scan without a repository root.
pub open spec fn missing_root_error() -> Seq<char> {
    "Choose a repository root before scanning."@
}

fn trimmed_field(field: &str) -> (r: Option<String>)
    ensures
        match chosen_root(field@) {
            Some(t) => r matches Some(s) && s@ == t,
            None => r is None,
        },
{
    let t = trim_start_chars(&trim_end_chars(&chars_of(field)));
    if t.len() == 0 {
        None
    } else {
        Some(crate::text::string_of(&t))
    }
}

/// The repository root a scan from the window uses: the root field trimmed,
/// or an error when it is empty.
pub fn window_root(field: &str) -> (r: std::result::Result<String, String>)
    ensures
        match chosen_root(field@) {
            Some(t) => r matches Ok(s) && s@ == t,
            None => r matches Err(m) && m@ == missing_root_error(),
        },
{
    match trimmed_field(field) {
        Some(t) => Ok(t),
        None => Err(owned("Choose a repository root before scanning.")),
    }
}

/// The output path the window's field gives: the field trimmed, or none
/// when it is empty.
pub fn window_output_path(field: &str) -> (r: Option<String>)
    ensures
        match chosen_root(field@) {
            Some(t) => r matches Some(s) && s@ == t,
            None => r is None,
        },
{
    trimmed_field(field)
}

// ---------------------------------------------------------------------------
// The token budget field
// ---------------------------------------------------------------------------

pub open spec fn is_digit(c: char) -> bool {
    '0' <= c <= '9'
}

/// The number written by decimal digits.
pub open spec fn digits_value(d: Seq<char>) -> nat
    decreases d.len(),
{
    if d.len() == 0 {
        0
    } else {
        digits_value(d.drop_last()) * 10 + ((d.last() as u32) - ('0' as u32)) as nat
    }
}

/// A text without its leading `+`, if it has one.
pub open spec fn unsigned_digits(s: Seq<char>) -> Seq<char> {
    if s.len() > 0 && s[0] == '+' {
        s.drop_first()
    } else {
        s
    }
}

/// Every character is a decimal digit.
pub open spec fn all_digits(d: Seq<char>) -> bool {
    forall|i: int| 0 <= i < d.len() ==> is_digit(#[trigger] d[i])
}

/// What `usize::from_str` makes of a text: an optional `+`, then one or more
/// decimal digits whose number fits in a `usize`.
pub open spec fn parse_usize(s: Seq<char>) -> Option<nat> {
    let d = unsigned_digits(s);
    if d.len() > 0 && all_digits(d) && digits_value(d) <= usize::MAX {
        Some(digits_value(d))
    } else {
        None
    }
}

/// The message for a budget that is not a whole number.
pub open spec fn budget_error() -> Seq<char> {
    "Token budget must be a whole number."@
}

proof fn lemma_digits_value_prefix(d: Seq<char>, i: int)
    requires
        0 <= i <= d.len(),
    ensures
        digits_value(d.take(i)) <= digits_value(d),
    decreases d.len(),
{
    if i < d.len() {
        lemma_digits_value_prefix(d.drop_last(), i);
        assert(d.drop_last().take(i) =~= d.take(i));
    } else {
        assert(d.take(i) =~= d);
    }
}

/// Parses digits with an optional leading `+` into a `usize`.
fn parse_usize_chars(s: &[char]) -> (r: Option<usize>)
    ensures
        match parse_usize(s@) {
            Some(n) => r == Some(n as usize),
            None => r is None,
        },
{
    let start: usize = if s.len() > 0 && s[0] == '+' {
        1
    } else {
        0
    };
    let ghost d = unsigned_digits(s@);
    assert(d =~= s@.skip(start as int));
    if start == s.len() {
        return None;
    }
    let mut value: usize = 0;
    let mut i: usize = start;
    assert(d.take(0) =~= Seq::<char>::empty());
    while i < s.len()
        invariant
            start <= i <= s.len(),
            d == s@.skip(start as int),
            d == unsigned_digits(s@),
            forall|k: int| 0 <= k < i - start ==> is_digit(#[trigger] d[k]),
            value == digits_value(d.take(i - start)),
        decreases s.len() - i,
    {
        let c = s[i];
        if !('0' <= c && c <= '9') {
            proof {
                assert(!is_digit(d[i - start]));
            }
            return None;
        }
        let digit = (c as u32 - '0' as u32) as usize;
        assert(d.take(i - start + 1).drop_last() =~= d.take(i - start));
        assert(d.take(i - start + 1).last() == c);
        assert(digits_value(d.take(i - start + 1)) == value * 10 + digit);
        let next = match value.checked_mul(10) {
            Some(v) => v.checked_add(digit),
            None => None,
        };
        match next {
            Some(v) => {
                value = v;
            },
            None => {
                proof {
                    lemma_digits_value_prefix(d, i - start + 1);
                }
                return None;
            },
        }
        i += 1;
    }
    assert(d.take(i - start) =~= d);
    Some(value)
}

/// Reads the window's token budget field: nothing for an empty (or blank)
/// field; otherwise the number it holds once trimmed and with its commas
/// taken out, or an error when that is not a whole number that fits.
pub fn parse_token_budget(text: &str) -> (r: std::result::Result<Option<usize>, String>)
    ensures
        ({
            let t = trim_start(trim_end(text@));
            &&& t.len() == 0 ==> r == Ok::<Option<usize>, String>(None)
            &&& t.len() > 0 ==> match parse_usize(replace_char(t, ',', Seq::empty())) {
                Some(n) => r == Ok::<Option<usize>, String>(Some(n as usize)),
                None => r matches Err(m) && m@ == budget_error(),
            }
        }),
{
    let chars = chars_of(text);
    let trimmed = trim_start_chars(&trim_end_chars(&chars));
    if trimmed.len() == 0 {
        return Ok(None);
    }
    let none: Vec<char> = Vec::new();
    let digits = replace_char_chars(&trimmed, ',', &none);
    assert(none@ =~= Seq::<char>::empty());
    match parse_usize_chars(&digits) {
        Some(n) => Ok(Some(n)),
        None => Err(owned("Token budget must be a whole number.")),
    }
}

} // verus!
