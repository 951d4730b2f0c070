//! The lines the command line prints: section headings, the scan summary and
//! the tables of the largest files.
use vstd::prelude::*;

use crate::classify::opt_view;
use crate::display::{
    byte_size_text, format_bytes, plural, plural_text, truncate_end, truncate_middle, truncated_end,
    truncated_middle,
};
use crate::format::reason_or_excluded;
use crate::numbers::{format_number, grouped};
use crate::report::{BundleReport, FileReport};
use crate::text::{chars_of, extend_chars, extend_str, owned, string_of, string_views};
use vstd::utf8::encode_utf8;

verus! {

/// `n` spaces.
pub open spec fn spaces(n: nat) -> Seq<char> {
    Seq::new(n, |i: int| ' ')
}

/// `n` dashes.
pub open spec fn dashes(n: nat) -> Seq<char> {
    Seq::new(n, |i: int| '-')
}

/// A text padded with spaces on the right to `width` characters (`{:<width}`).
pub open spec fn pad_right(s: Seq<char>, width: nat) -> Seq<char> {
    if s.len() < width {
        s + spaces((width - s.len()) as nat)
    } else {
        s
    }
}

/// A text padded with spaces on the left to `width` characters (`{:>width}`).
pub open spec fn pad_left(s: Seq<char>, width: nat) -> Seq<char> {
    if s.len() < width {
        spaces((width - s.len()) as nat) + s
    } else {
        s
    }
}

fn repeated(c: char, n: usize) -> (r: Vec<char>)
    ensures
        r@ == Seq::new(n as nat, |i: int| c),
{
    let mut r: Vec<char> = Vec::new();
    while r.len() < n
        invariant
            r.len() <= n,
            forall|i: int| 0 <= i < r.len() ==> r@[i] == c,
        decreases n - r.len(),
    {
        r.push(c);
    }
    assert(r@ =~= Seq::new(n as nat, |i: int| c));
    r
}

/// Appends a text padded on the right to `width` characters.
fn push_padded_right(out: &mut Vec<char>, s: &[char], width: usize)
    ensures
        final(out)@ == old(out)@ + pad_right(s@, width as nat),
{
    let ghost before = out@;
    extend_chars(out, s);
    if s.len() < width {
        let pad = repeated(' ', width - s.len());
        assert(pad@ =~= spaces((width - s.len()) as nat));
        extend_chars(out, &pad);
        assert(out@ =~= before + (s@ + pad@));
    }
}

/// Appends a text padded on the left to `width` characters.
fn push_padded_left(out: &mut Vec<char>, s: &[char], width: usize)
    ensures
        final(out)@ == old(out)@ + pad_left(s@, width as nat),
{
    let ghost before = out@;
    if s.len() < width {
        let pad = repeated(' ', width - s.len());
        assert(pad@ =~= spaces((width - s.len()) as nat));
        extend_chars(out, &pad);
        extend_chars(out, s);
        assert(out@ =~= before + (pad@ + s@));
    } else {
        extend_chars(out, s);
    }
}

/// The lines of a section heading: a blank line, the title, and as many
/// dashes as the title has bytes.
pub open spec fn section(title: Seq<char>) -> Seq<Seq<char>> {
    seq![Seq::empty(), title, dashes((encode_utf8(title).len() as usize) as nat)]
}

/// The lines of a section heading.
pub fn section_lines(title: &str) -> (r: Vec<String>)
    ensures
        string_views(r@) == section(title@),
{
    let mut r: Vec<String> = Vec::new();
    push_line(&mut r, string_of(&Vec::new()));
    push_line(&mut r, owned(title));
    push_line(&mut r, string_of(&repeated('-', title.len())));
    assert(string_views(r@) =~= section(title@));
    r
}

/// Appends a line.
fn push_line(lines: &mut Vec<String>, line: String)
    ensures
        string_views(final(lines)@) == string_views(old(lines)@).push(line@),
{
    let ghost before = lines@;
    lines.push(line);
    assert(string_views(lines@) =~= string_views(before).push(line@));
}

/// What the summary is for.
#[derive(Debug, Clone, Copy, PartialEq, Eq, Structural)]
pub enum SummaryIntent {
    Bundle,
    Inspect,
}

pub open spec fn summary_title(intent: SummaryIntent) -> Seq<char> {
    match intent {
        SummaryIntent::Bundle => "Bundle summary"@,
        SummaryIntent::Inspect => "Scan summary"@,
    }
}

/// The budget line: how far over the budget the tokens go, or how much of
/// it is left.
pub open spec fn budget_lines(total_tokens: usize, budget: Option<usize>) -> Seq<Seq<char>> {
    match budget {
        None => Seq::empty(),
        Some(b) => if total_tokens > b {
            seq!["  budget        "@ + grouped((total_tokens - b) as nat) + " over budget"@]
        } else {
            seq!["  budget        "@ + grouped((b - total_tokens) as nat) + " remaining"@]
        },
    }
}

/// The warnings section, when there are warnings.
pub open spec fn warning_lines(warnings: Seq<Seq<char>>) -> Seq<Seq<char>> {
    if warnings.len() == 0 {
        Seq::empty()
    } else {
        section("Warnings"@) + warnings.map_values(|w: Seq<char>| "  - "@ + w)
    }
}

/// The summary of a scan: counts of included and excluded files, source
/// bytes, tokens, the budget, and any warnings.
pub open spec fn summary(report: BundleReport, budget: Option<usize>, intent: SummaryIntent) -> Seq<Seq<char>> {
    section(summary_title(intent)) + seq![
        "  included      "@ + plural_text(report.included_files@.len(), "file"@),
        "  excluded      "@ + plural_text(report.excluded_files@.len(), "file"@),
        "  source bytes  "@ + byte_size_text(report.total_bytes as nat),
        "  tokens        "@ + grouped(report.total_tokens as nat),
    ] + budget_lines(report.total_tokens, budget) + warning_lines(string_views(report.warnings@))
}

fn labelled(label: &str, value: String) -> (r: String)
    ensures
        r@ == label@ + value@,
{
    let mut out = chars_of(label);
    extend_str(&mut out, value.as_str());
    string_of(&out)
}

/// The lines of the summary of a scan.
pub fn summary_lines(report: &BundleReport, budget: Option<usize>, intent: SummaryIntent) -> (r: Vec<String>)
    ensures
        string_views(r@) == summary(*report, budget, intent),
{
    let title = match intent {
        SummaryIntent::Bundle => "Bundle summary",
        SummaryIntent::Inspect => "Scan summary",
    };
    let mut r = section_lines(title);
    let ghost head = string_views(r@);
    push_line(&mut r, labelled("  included      ", plural(report.included_files.len(), "file")));
    push_line(&mut r, labelled("  excluded      ", plural(report.excluded_files.len(), "file")));
    push_line(&mut r, labelled("  source bytes  ", format_bytes(report.total_bytes)));
    push_line(&mut r, labelled("  tokens        ", format_number(report.total_tokens)));
    let ghost body = string_views(r@);
    assert(body =~= head + seq![
        "  included      "@ + plural_text(report.included_files@.len(), "file"@),
        "  excluded      "@ + plural_text(report.excluded_files@.len(), "file"@),
        "  source bytes  "@ + byte_size_text(report.total_bytes as nat),
        "  tokens        "@ + grouped(report.total_tokens as nat),
    ]);
    match budget {
        Some(b) => {
            let mut line = chars_of("  budget        ");
            if report.total_tokens > b {
                extend_str(&mut line, format_number(report.total_tokens - b).as_str());
                extend_str(&mut line, " over budget");
            } else {
                extend_str(&mut line, format_number(b - report.total_tokens).as_str());
                extend_str(&mut line, " remaining");
            }
            push_line(&mut r, string_of(&line));
        },
        None => {},
    }
    let ghost with_budget = string_views(r@);
    assert(with_budget =~= body + budget_lines(report.total_tokens, budget));
    if report.warnings.len() > 0 {
        let heading = section_lines("Warnings");
        let mut i: usize = 0;
        while i < heading.len()
            invariant
                i <= heading.len(),
                string_views(heading@) == section("Warnings"@),
                string_views(r@) == with_budget + string_views(heading@).take(i as int),
            decreases heading.len() - i,
        {
            push_line(&mut r, owned(heading[i].as_str()));
            assert(string_views(heading@).take(i + 1) =~= string_views(heading@).take(i as int).push(
                heading@[i as int]@,
            ));
            assert(string_views(r@) =~= with_budget + string_views(heading@).take(i + 1));
            i += 1;
        }
        assert(string_views(heading@).take(i as int) =~= string_views(heading@));
        let ghost with_heading = string_views(r@);
        let mut j: usize = 0;
        while j < report.warnings.len()
            invariant
                j <= report.warnings.len(),
                string_views(r@) == with_heading + string_views(report.warnings@).take(
                    j as int,
                ).map_values(|w: Seq<char>| "  - "@ + w),
            decreases report.warnings.len() - j,
        {
            push_line(&mut r, labelled("  - ", owned(report.warnings[j].as_str())));
            assert(string_views(report.warnings@).take(j + 1).map_values(
                |w: Seq<char>| "  - "@ + w,
            ) =~= string_views(report.warnings@).take(j as int).map_values(
                |w: Seq<char>| "  - "@ + w,
            ).push("  - "@ + report.warnings@[j as int]@));
            assert(string_views(r@) =~= with_heading + string_views(report.warnings@).take(
                j + 1,
            ).map_values(|w: Seq<char>| "  - "@ + w));
            j += 1;
        }
        assert(string_views(report.warnings@).take(j as int) =~= string_views(report.warnings@));
        assert(string_views(r@) =~= with_budget + warning_lines(string_views(report.warnings@)));
    } else {
        assert(string_views(report.warnings@).len() == 0);
        assert(string_views(r@) =~= with_budget + warning_lines(string_views(report.warnings@)));
    }
    r
}

/// Which files a table shows.
#[derive(Debug, Clone, Copy, PartialEq, Eq, Structural)]
pub enum TableKind {
    Included,
    Excluded,
}

/// The row of an included file: path, tokens, size.
pub open spec fn included_row(f: FileReport) -> Seq<char> {
    "  "@ + pad_right(truncated_middle(f.path@, 46), 46) + " "@ + pad_left(grouped(f.tokens as nat), 12)
        + " "@ + pad_left(byte_size_text(f.bytes as nat), 10)
}

/// The row of an excluded file: path, size, reason.
pub open spec fn excluded_row(f: FileReport) -> Seq<char> {
    "  "@ + pad_right(truncated_middle(f.path@, 38), 38) + " "@ + pad_left(byte_size_text(f.bytes as nat), 10)
        + "  "@ + truncated_end(reason_or_excluded(opt_view(f.reason)), 36)
}

pub open spec fn table_row(kind: TableKind, f: FileReport) -> Seq<char> {
    match kind {
        TableKind::Included => included_row(f),
        TableKind::Excluded => excluded_row(f),
    }
}

/// The column headings and the rule under them.
pub open spec fn table_header(kind: TableKind) -> Seq<Seq<char>> {
    match kind {
        TableKind::Included => seq![
            "  "@ + pad_right("path"@, 46) + " "@ + pad_left("tokens"@, 12) + " "@ + pad_left("size"@, 10),
            "  "@ + dashes(46) + " "@ + dashes(12) + " "@ + dashes(10),
        ],
        TableKind::Excluded => seq![
            "  "@ + pad_right("path"@, 38) + " "@ + pad_left("size"@, 10) + "  reason"@,
            "  "@ + dashes(38) + " "@ + dashes(10) + "  "@ + dashes(22),
        ],
    }
}

/// A table of files: its heading, then `none`, or the column headings and
/// the first ten files.
pub open spec fn file_table(title: Seq<char>, files: Seq<FileReport>, kind: TableKind) -> Seq<Seq<char>> {
    section(title) + if files.len() == 0 {
        seq!["  none"@]
    } else {
        table_header(kind) + files.take(if files.len() < 10 { files.len() as int } else { 10 }).map_values(
            |f: FileReport| table_row(kind, f),
        )
    }
}

fn row_line(kind: TableKind, f: &FileReport) -> (r: String)
    ensures
        r@ == table_row(kind, *f),
{
    let mut out = chars_of("  ");
    match kind {
        TableKind::Included => {
            push_padded_right(&mut out, &chars_of(truncate_middle(f.path.as_str(), 46).as_str()), 46);
            extend_str(&mut out, " ");
            push_padded_left(&mut out, &chars_of(format_number(f.tokens).as_str()), 12);
            extend_str(&mut out, " ");
            push_padded_left(&mut out, &chars_of(format_bytes(f.bytes).as_str()), 10);
        },
        TableKind::Excluded => {
            push_padded_right(&mut out, &chars_of(truncate_middle(f.path.as_str(), 38).as_str()), 38);
            extend_str(&mut out, " ");
            push_padded_left(&mut out, &chars_of(format_bytes(f.bytes).as_str()), 10);
            extend_str(&mut out, "  ");
            let reason = match &f.reason {
                Some(r) => truncate_end(r.as_str(), 36),
                None => truncate_end("excluded", 36),
            };
            extend_str(&mut out, reason.as_str());
        },
    }
    string_of(&out)
}

fn header_lines(kind: TableKind) -> (r: Vec<String>)
    ensures
        string_views(r@) == table_header(kind),
{
    let mut names = chars_of("  ");
    let mut rule = chars_of("  ");
    match kind {
        TableKind::Included => {
            push_padded_right(&mut names, &chars_of("path"), 46);
            extend_str(&mut names, " ");
            push_padded_left(&mut names, &chars_of("tokens"), 12);
            extend_str(&mut names, " ");
            push_padded_left(&mut names, &chars_of("size"), 10);
            extend_chars(&mut rule, &repeated('-', 46));
            extend_str(&mut rule, " ");
            extend_chars(&mut rule, &repeated('-', 12));
            extend_str(&mut rule, " ");
            extend_chars(&mut rule, &repeated('-', 10));
        },
        TableKind::Excluded => {
            push_padded_right(&mut names, &chars_of("path"), 38);
            extend_str(&mut names, " ");
            push_padded_left(&mut names, &chars_of("size"), 10);
            extend_str(&mut names, "  reason");
            extend_chars(&mut rule, &repeated('-', 38));
            extend_str(&mut rule, " ");
            extend_chars(&mut rule, &repeated('-', 10));
            extend_str(&mut rule, "  ");
            extend_chars(&mut rule, &repeated('-', 22));
        },
    }
    let mut r: Vec<String> = Vec::new();
    push_line(&mut r, string_of(&names));
    push_line(&mut r, string_of(&rule));
    assert(string_views(r@) =~= table_header(kind));
    r
}

/// The lines of a table of files (the first ten of them).
pub fn file_table_lines(title: &str, files: &[FileReport], kind: TableKind) -> (r: Vec<String>)
    ensures
        string_views(r@) == file_table(title@, files@, kind),
{
    let mut r = section_lines(title);
    let ghost head = string_views(r@);
    if files.len() == 0 {
        push_line(&mut r, owned("  none"));
        return r;
    }
    let header = header_lines(kind);
    assert(string_views(header@).len() == 2);
    push_line(&mut r, owned(header[0].as_str()));
    push_line(&mut r, owned(header[1].as_str()));
    assert(string_views(r@) =~= head + table_header(kind));
    let ghost with_header = string_views(r@);
    let shown = if files.len() < 10 {
        files.len()
    } else {
        10
    };
    let mut i: usize = 0;
    while i < shown
        invariant
            i <= shown <= files.len(),
            shown == (if files.len() < 10 { files.len() } else { 10 }),
            string_views(r@) == with_header + files@.take(i as int).map_values(
                |f: FileReport| table_row(kind, f),
            ),
        decreases shown - i,
    {
        push_line(&mut r, row_line(kind, &files[i]));
        assert(files@.take(i + 1).map_values(|f: FileReport| table_row(kind, f)) =~= files@.take(
            i as int,
        ).map_values(|f: FileReport| table_row(kind, f)).push(table_row(kind, files@[i as int])));
        i += 1;
    }
    r
}

} // verus!
