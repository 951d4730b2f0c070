//! The bundle text: metadata, repository map, manifest, and one delimited
//! block per included file.
use vstd::prelude::*;

use crate::config::{mode_debug_name, OutputFormat, ScanConfig};
use crate::error::Result;
use crate::extract::{ExtractedFile, ExtractedView};
use crate::numbers::{dec, push_decimal};
use crate::paths::{display_path, display_path_text, file_name, path_file_name};
use crate::report::{report_views, BundleReport, FileReport, ReportView};
use crate::sort::{insert_by, is_sorted_by, lemma_insert_by_sorted};
use crate::text::{
    chars_eq, chars_of, ends_with, ends_with_str, extend_chars, extend_str, index_of, lex_le,
    lex_le_chars, replace_char, replace_char_chars, string_of, views,
};

verus! {

/// The bundle text.
#[derive(Debug, Clone)]
pub struct BundleOutput {
    pub contents: String,
}

// ---------------------------------------------------------------------------
// Spec of the bundle text
// ---------------------------------------------------------------------------

pub open spec fn lang_or_text(l: Option<Seq<char>>) -> Seq<char> {
    match l {
        Some(x) => x,
        None => "text"@,
    }
}

pub open spec fn reason_or_excluded(r: Option<Seq<char>>) -> Seq<char> {
    match r {
        Some(x) => x,
        None => "excluded"@,
    }
}

/// A path as an attribute value: `"` becomes `&quot;`.
pub open spec fn escape_attr(s: Seq<char>) -> Seq<char> {
    replace_char(s, '"', "&quot;"@)
}

/// The top-level entry of a path: its first segment, with a `/` after it
/// when the path goes deeper.
pub open spec fn top_key(path: Seq<char>) -> Seq<char> {
    let i = index_of(path, '/');
    if i < 0 || i >= path.len() {
        path
    } else {
        path.take(i) + seq!['/']
    }
}

/// Inserts a key after every key not greater than it.
pub open spec fn insert_key(keys: Seq<Seq<char>>, k: Seq<char>) -> Seq<Seq<char>>
    decreases keys.len(),
{
    if keys.len() == 0 {
        seq![k]
    } else if lex_le(keys.last(), k) {
        keys.push(k)
    } else {
        insert_key(keys.drop_last(), k).push(keys.last())
    }
}

/// Adds a key to an ordered set of keys.
pub open spec fn add_key(keys: Seq<Seq<char>>, k: Seq<char>) -> Seq<Seq<char>> {
    if keys.contains(k) {
        keys
    } else {
        insert_key(keys, k)
    }
}

/// The ordered set of top-level entries of the paths.
pub open spec fn map_keys(paths: Seq<Seq<char>>) -> Seq<Seq<char>>
    decreases paths.len(),
{
    if paths.len() == 0 {
        Seq::empty()
    } else {
        add_key(map_keys(paths.drop_last()), top_key(paths.last()))
    }
}

pub open spec fn report_paths(v: Seq<ReportView>) -> Seq<Seq<char>> {
    v.map_values(|r: ReportView| r.0)
}

/// How many reports fall under a top-level entry.
pub open spec fn count_key(v: Seq<ReportView>, k: Seq<char>) -> nat
    decreases v.len(),
{
    if v.len() == 0 {
        0
    } else {
        count_key(v.drop_last(), k) + if top_key(v.last().0) == k {
            1nat
        } else {
            0nat
        }
    }
}

/// The first reason given by a report under a top-level entry.
pub open spec fn first_reason(v: Seq<ReportView>, k: Seq<char>) -> Option<Seq<char>>
    decreases v.len(),
{
    if v.len() == 0 {
        None
    } else {
        let f = first_reason(v.drop_last(), k);
        if f is Some {
            f
        } else if top_key(v.last().0) == k {
            v.last().5
        } else {
            None
        }
    }
}

/// The repository map line of one top-level entry.
pub open spec fn map_line(k: Seq<char>, included: nat, excluded: nat, reason: Option<Seq<char>>) -> Seq<char> {
    if included == 0 {
        k + " excluded: "@ + reason_or_excluded(reason) + " ("@ + dec(excluded) + " files)\n"@
    } else if excluded == 0 {
        k + " included: "@ + dec(included) + " files\n"@
    } else {
        k + " included: "@ + dec(included) + " files, excluded: "@ + dec(excluded) + " files\n"@
    }
}

pub open spec fn map_lines(keys: Seq<Seq<char>>, inc: Seq<ReportView>, exc: Seq<ReportView>) -> Seq<char>
    decreases keys.len(),
{
    if keys.len() == 0 {
        Seq::empty()
    } else {
        let k = keys.last();
        map_lines(keys.drop_last(), inc, exc) + map_line(
            k,
            count_key(inc, k),
            count_key(exc, k),
            first_reason(exc, k),
        )
    }
}

/// The repository map: one line per top-level entry, in key order, with its
/// numbers of included and excluded files.
pub open spec fn repository_map(inc: Seq<ReportView>, exc: Seq<ReportView>) -> Seq<char> {
    map_lines(map_keys(report_paths(inc) + report_paths(exc)), inc, exc)
}

pub open spec fn included_line(r: ReportView) -> Seq<char> {
    r.0 + " | "@ + lang_or_text(r.3) + " | "@ + dec(r.1 as nat) + " bytes | "@ + dec(r.2 as nat)
        + " tokens | included\n"@
}

pub open spec fn excluded_line(r: ReportView) -> Seq<char> {
    r.0 + " | "@ + dec(r.1 as nat) + " bytes | excluded: "@ + reason_or_excluded(r.5) + "\n"@
}

pub open spec fn manifest_included(v: Seq<ReportView>) -> Seq<char>
    decreases v.len(),
{
    if v.len() == 0 {
        Seq::empty()
    } else {
        manifest_included(v.drop_last()) + included_line(v.last())
    }
}

pub open spec fn manifest_excluded(v: Seq<ReportView>) -> Seq<char>
    decreases v.len(),
{
    if v.len() == 0 {
        Seq::empty()
    } else {
        manifest_excluded(v.drop_last()) + excluded_line(v.last())
    }
}

/// The delimited block of one file.
pub open spec fn file_block(f: ExtractedView) -> Seq<char> {
    "<<<FILE path=\""@ + escape_attr(f.0) + "\" lang=\""@ + lang_or_text(f.1) + "\" bytes="@ + dec(
        f.3 as nat,
    ) + " tokens="@ + dec(f.4 as nat) + ">>>\n"@ + f.6 + (if ends_with(f.6, "\n"@) {
        Seq::empty()
    } else {
        "\n"@
    }) + "<<<END_FILE>>>\n"@ + "\n"@
}

pub open spec fn file_blocks(v: Seq<ExtractedView>) -> Seq<char>
    decreases v.len(),
{
    if v.len() == 0 {
        Seq::empty()
    } else {
        file_blocks(v.drop_last()) + file_block(v.last())
    }
}

/// The project name: the last segment of the root, or nothing.
pub open spec fn project_name(root: Seq<char>) -> Seq<char> {
    match file_name(root) {
        Some(n) => n,
        None => Seq::empty(),
    }
}

pub open spec fn budget_lines(budget: Option<usize>, total_tokens: usize) -> Seq<char> {
    match budget {
        Some(b) => "token_budget: "@ + dec(b as nat) + "\n"@ + if total_tokens > b {
            "budget_overflow: "@ + dec((total_tokens - b) as nat) + "\n"@
        } else {
            Seq::empty()
        },
        None => Seq::empty(),
    }
}

/// The metadata lines at the top of the bundle.
pub open spec fn header(
    config: ScanConfig,
    inc: Seq<ReportView>,
    exc: Seq<ReportView>,
    total_tokens: usize,
    generated_unix: u64,
) -> Seq<char> {
    "# CODEBASE BUNDLE v1\n"@ + "project: "@ + project_name(config.root@) + "\n"@ + "root: "@
        + display_path(config.root@) + "\n"@ + "generated_unix: "@ + dec(generated_unix as nat)
        + "\n"@ + "mode: "@ + mode_debug_name(config.mode) + "\n"@ + "tokenizer: "@
        + config.tokenizer@ + "\n"@ + "estimated_tokens: "@ + dec(total_tokens as nat) + "\n"@
        + "included_files: "@ + dec(inc.len()) + "\n"@ + "excluded_files: "@ + dec(exc.len())
        + "\n"@ + budget_lines(config.token_budget, total_tokens)
}

/// The whole bundle text.
pub open spec fn plain_bundle(
    config: ScanConfig,
    files: Seq<ExtractedView>,
    inc: Seq<ReportView>,
    exc: Seq<ReportView>,
    total_tokens: usize,
    generated_unix: u64,
) -> Seq<char> {
    header(config, inc, exc, total_tokens, generated_unix) + "\n"@ + "# REPOSITORY MAP\n"@
        + repository_map(inc, exc) + "\n"@ + "# FILE MANIFEST\n"@ + manifest_included(inc)
        + manifest_excluded(exc) + "\n"@ + file_blocks(files)
}

pub open spec fn extracted_views(v: Seq<ExtractedFile>) -> Seq<ExtractedView> {
    v.map_values(|f: ExtractedFile| f@)
}

// ---------------------------------------------------------------------------
// The repository map counts every file once
// ---------------------------------------------------------------------------

/// The reports counted on the map lines of these keys.
pub open spec fn counted(keys: Seq<Seq<char>>, v: Seq<ReportView>) -> nat
    decreases keys.len(),
{
    if keys.len() == 0 {
        0
    } else {
        counted(keys.drop_last(), v) + count_key(v, keys.last())
    }
}

/// How many times a key occurs.
spec fn occurrences(keys: Seq<Seq<char>>, x: Seq<char>) -> nat
    decreases keys.len(),
{
    if keys.len() == 0 {
        0
    } else {
        occurrences(keys.drop_last(), x) + if keys.last() == x {
            1nat
        } else {
            0nat
        }
    }
}

proof fn lemma_counted_step(keys: Seq<Seq<char>>, v: Seq<ReportView>)
    requires
        v.len() > 0,
    ensures
        counted(keys, v) == counted(keys, v.drop_last()) + occurrences(keys, top_key(v.last().0)),
    decreases keys.len(),
{
    if keys.len() > 0 {
        lemma_counted_step(keys.drop_last(), v);
    }
}

proof fn lemma_occurrences_distinct(keys: Seq<Seq<char>>, x: Seq<char>)
    requires
        keys.no_duplicates(),
    ensures
        occurrences(keys, x) == if keys.contains(x) {
            1nat
        } else {
            0nat
        },
    decreases keys.len(),
{
    if keys.len() > 0 {
        let d = keys.drop_last();
        assert(d.no_duplicates()) by {
            assert forall|i: int, j: int| 0 <= i < d.len() && 0 <= j < d.len() && i != j implies d[i] != d[j] by {
                assert(d[i] == keys[i] && d[j] == keys[j]);
            }
        }
        lemma_occurrences_distinct(d, x);
        if keys.last() == x {
            assert(!d.contains(x)) by {
                if d.contains(x) {
                    let i = choose|i: int| 0 <= i < d.len() && d[i] == x;
                    assert(keys[i] == keys[keys.len() - 1]);
                }
            }
            assert(keys[keys.len() - 1] == x);
        } else {
            if keys.contains(x) {
                let i = choose|i: int| 0 <= i < keys.len() && keys[i] == x;
                assert(d[i] == x);
            }
            if d.contains(x) {
                let i = choose|i: int| 0 <= i < d.len() && d[i] == x;
                assert(keys[i] == x);
            }
        }
    }
}

proof fn lemma_insert_key_members(keys: Seq<Seq<char>>, k: Seq<char>)
    requires
        keys.no_duplicates(),
        !keys.contains(k),
    ensures
        insert_key(keys, k).no_duplicates(),
        forall|x: Seq<char>| #[trigger] insert_key(keys, k).contains(x) <==> (x == k || keys.contains(x)),
    decreases keys.len(),
{
    let r = insert_key(keys, k);
    if keys.len() == 0 {
        assert(r =~= seq![k]);
        assert forall|x: Seq<char>| #[trigger] r.contains(x) <==> (x == k || keys.contains(x)) by {
            if r.contains(x) {
                let i = choose|i: int| 0 <= i < r.len() && r[i] == x;
            }
            if x == k {
                assert(r[0] == k);
            }
        }
    } else if lex_le(keys.last(), k) {
        assert(r == keys.push(k));
        assert forall|i: int, j: int| 0 <= i < r.len() && 0 <= j < r.len() && i != j implies r[i] != r[j] by {
            if i < keys.len() && j < keys.len() {
                assert(r[i] == keys[i] && r[j] == keys[j]);
            } else if i < keys.len() {
                assert(r[i] == keys[i]);
            } else {
                assert(r[j] == keys[j]);
            }
        }
        assert forall|x: Seq<char>| #[trigger] r.contains(x) <==> (x == k || keys.contains(x)) by {
            if r.contains(x) {
                let i = choose|i: int| 0 <= i < r.len() && r[i] == x;
                if i < keys.len() {
                    assert(keys[i] == x);
                }
            }
            if keys.contains(x) {
                let i = choose|i: int| 0 <= i < keys.len() && keys[i] == x;
                assert(r[i] == x);
            }
            if x == k {
                assert(r[keys.len() as int] == k);
            }
        }
    } else {
        let d = keys.drop_last();
        let last = keys.last();
        assert(d.no_duplicates()) by {
            assert forall|i: int, j: int| 0 <= i < d.len() && 0 <= j < d.len() && i != j implies d[i] != d[j] by {
                assert(d[i] == keys[i] && d[j] == keys[j]);
            }
        }
        assert(!d.contains(k)) by {
            if d.contains(k) {
                let i = choose|i: int| 0 <= i < d.len() && d[i] == k;
                assert(keys[i] == k);
            }
        }
        lemma_insert_key_members(d, k);
        let t = insert_key(d, k);
        assert(r == t.push(last));
        assert(!t.contains(last)) by {
            if t.contains(last) {
                if last == k {
                    assert(keys[keys.len() - 1] == k);
                } else {
                    assert(d.contains(last));
                    let i = choose|i: int| 0 <= i < d.len() && d[i] == last;
                    assert(keys[i] == keys[keys.len() - 1]);
                }
            }
        }
        assert forall|i: int, j: int| 0 <= i < r.len() && 0 <= j < r.len() && i != j implies r[i] != r[j] by {
            if i < t.len() && j < t.len() {
                assert(r[i] == t[i] && r[j] == t[j]);
            } else if i < t.len() {
                assert(r[i] == t[i]);
            } else {
                assert(r[j] == t[j]);
            }
        }
        assert forall|x: Seq<char>| #[trigger] r.contains(x) <==> (x == k || keys.contains(x)) by {
            if r.contains(x) {
                let i = choose|i: int| 0 <= i < r.len() && r[i] == x;
                if i < t.len() {
                    assert(t[i] == x);
                    assert(t.contains(x));
                    if x != k {
                        let m = choose|m: int| 0 <= m < d.len() && d[m] == x;
                        assert(keys[m] == x);
                    }
                } else {
                    assert(keys[keys.len() - 1] == x);
                }
            }
            if keys.contains(x) {
                let i = choose|i: int| 0 <= i < keys.len() && keys[i] == x;
                if i < d.len() {
                    assert(d[i] == x);
                    assert(t.contains(x));
                    let m = choose|m: int| 0 <= m < t.len() && t[m] == x;
                    assert(r[m] == x);
                } else {
                    assert(r[t.len() as int] == x);
                }
            }
            if x == k {
                assert(t.contains(k));
                let m = choose|m: int| 0 <= m < t.len() && t[m] == k;
                assert(r[m] == k);
            }
        }
    }
}

proof fn lemma_map_keys_members(ps: Seq<Seq<char>>)
    ensures
        map_keys(ps).no_duplicates(),
        forall|i: int| 0 <= i < ps.len() ==> map_keys(ps).contains(top_key(#[trigger] ps[i])),
    decreases ps.len(),
{
    if ps.len() > 0 {
        let d = ps.drop_last();
        lemma_map_keys_members(d);
        let keys = map_keys(d);
        let k = top_key(ps.last());
        if !keys.contains(k) {
            lemma_insert_key_members(keys, k);
        }
        assert forall|i: int| 0 <= i < ps.len() implies map_keys(ps).contains(top_key(#[trigger] ps[i])) by {
            if i < d.len() {
                assert(ps[i] == d[i]);
                assert(keys.contains(top_key(d[i])));
            } else {
                assert(ps[i] == ps.last());
            }
        }
    }
}

proof fn lemma_counted_all(keys: Seq<Seq<char>>, v: Seq<ReportView>)
    requires
        keys.no_duplicates(),
        forall|i: int| 0 <= i < v.len() ==> keys.contains(top_key((#[trigger] v[i]).0)),
    ensures
        counted(keys, v) == v.len(),
    decreases v.len(),
{
    if v.len() == 0 {
        lemma_counted_zero(keys, v);
    } else {
        let d = v.drop_last();
        assert forall|i: int| 0 <= i < d.len() implies keys.contains(top_key((#[trigger] d[i]).0)) by {
            assert(d[i] == v[i]);
        }
        lemma_counted_all(keys, d);
        lemma_counted_step(keys, v);
        assert(v.last() == v[v.len() - 1]);
        lemma_occurrences_distinct(keys, top_key(v.last().0));
    }
}

proof fn lemma_counted_zero(keys: Seq<Seq<char>>, v: Seq<ReportView>)
    requires
        v.len() == 0,
    ensures
        counted(keys, v) == 0,
    decreases keys.len(),
{
    if keys.len() > 0 {
        lemma_counted_zero(keys.drop_last(), v);
    }
}

/// The repository map counts every reported file exactly once: the included
/// counts of its lines add up to the included files, and the excluded counts
/// to the excluded ones.
pub proof fn law_repository_map_counts_every_file(inc: Seq<ReportView>, exc: Seq<ReportView>)
    ensures
        counted(map_keys(report_paths(inc) + report_paths(exc)), inc) == inc.len(),
        counted(map_keys(report_paths(inc) + report_paths(exc)), exc) == exc.len(),
{
    let ps = report_paths(inc) + report_paths(exc);
    lemma_map_keys_members(ps);
    assert forall|i: int| 0 <= i < inc.len() implies map_keys(ps).contains(top_key((#[trigger] inc[i]).0)) by {
        assert(ps[i] == inc[i].0);
    }
    assert forall|i: int| 0 <= i < exc.len() implies map_keys(ps).contains(top_key((#[trigger] exc[i]).0)) by {
        assert(ps[inc.len() + i] == exc[i].0);
    }
    lemma_counted_all(map_keys(ps), inc);
    lemma_counted_all(map_keys(ps), exc);
}

/// A key as its own sort key.
pub open spec fn key_itself() -> spec_fn(Seq<char>) -> Seq<char> {
    |x: Seq<char>| x
}

proof fn lemma_insert_key_is_insert_by(keys: Seq<Seq<char>>, k: Seq<char>)
    ensures
        insert_key(keys, k) == insert_by(keys, k, key_itself()),
    decreases keys.len(),
{
    if keys.len() > 0 && !lex_le(keys.last(), k) {
        lemma_insert_key_is_insert_by(keys.drop_last(), k);
    }
}

proof fn lemma_map_keys_sorted(ps: Seq<Seq<char>>)
    ensures
        is_sorted_by(map_keys(ps), key_itself()),
    decreases ps.len(),
{
    if ps.len() > 0 {
        lemma_map_keys_sorted(ps.drop_last());
        let keys = map_keys(ps.drop_last());
        let k = top_key(ps.last());
        if !keys.contains(k) {
            lemma_insert_key_is_insert_by(keys, k);
            lemma_insert_by_sorted(keys, k, key_itself());
        }
    }
}

/// The lines of the repository map come in key order, one per top-level
/// entry.
pub proof fn law_repository_map_in_key_order(inc: Seq<ReportView>, exc: Seq<ReportView>)
    ensures
        is_sorted_by(map_keys(report_paths(inc) + report_paths(exc)), key_itself()),
        map_keys(report_paths(inc) + report_paths(exc)).no_duplicates(),
{
    lemma_map_keys_sorted(report_paths(inc) + report_paths(exc));
    lemma_map_keys_members(report_paths(inc) + report_paths(exc));
}

// ---------------------------------------------------------------------------
// Executable pieces
// ---------------------------------------------------------------------------

/// `value.replace('"', "&quot;")`.
pub fn escape_attr_chars(value: &[char]) -> (r: Vec<char>)
    ensures
        r@ == escape_attr(value@),
{
    let q = chars_of("&quot;");
    replace_char_chars(value, '"', &q)
}

/// The top-level entry of a path.
pub fn top_key_chars(path: &[char]) -> (r: Vec<char>)
    ensures
        r@ == top_key(path@),
{
    let mut i: usize = 0;
    while i < path.len() && path[i] != '/'
        invariant
            i <= path.len(),
            forall|k: int| 0 <= k < i ==> path@[k] != '/',
        decreases path.len() - i,
    {
        i += 1;
    }
    let mut r: Vec<char> = Vec::new();
    if i == path.len() {
        proof {
            crate::text::lemma_index_of_none(path@, '/');
        }
        extend_chars(&mut r, path);
    } else {
        proof {
            crate::text::lemma_index_of_first(path@, '/', i as int);
        }
        extend_chars(&mut r, &path[0..i]);
        r.push('/');
        assert(path@.subrange(0, i as int) =~= path@.take(i as int));
    }
    r
}

spec fn opt_chars(o: Option<Vec<char>>) -> Option<Seq<char>> {
    match o {
        Some(v) => Some(v@),
        None => None,
    }
}

proof fn lemma_insert_key_at(keys: Seq<Seq<char>>, k: Seq<char>, p: int)
    requires
        0 <= p <= keys.len(),
        forall|m: int| p <= m < keys.len() ==> !lex_le(#[trigger] keys[m], k),
        p == 0 || lex_le(keys[p - 1], k),
    ensures
        insert_key(keys, k) == keys.insert(p, k),
    decreases keys.len(),
{
    if keys.len() == 0 {
        assert(keys.insert(p, k) =~= seq![k]);
    } else if p == keys.len() {
        assert(keys.insert(p, k) =~= keys.push(k));
    } else {
        lemma_insert_key_at(keys.drop_last(), k, p);
        assert(keys.drop_last().insert(p, k).push(keys.last()) =~= keys.insert(p, k));
    }
}

/// Adds a key to an ordered set of keys.
fn add_key_chars(keys: &mut Vec<Vec<char>>, k: Vec<char>)
    ensures
        views(final(keys)@) == add_key(views(old(keys)@), k@),
{
    let mut i: usize = 0;
    while i < keys.len()
        invariant
            i <= keys.len(),
            forall|m: int| 0 <= m < i ==> (#[trigger] keys@[m])@ != k@,
        decreases keys.len() - i,
    {
        if chars_eq(&keys[i], &k) {
            assert(views(keys@)[i as int] == k@);
            return;
        }
        i += 1;
    }
    assert(!views(keys@).contains(k@)) by {
        if views(keys@).contains(k@) {
            let m = choose|m: int| 0 <= m < views(keys@).len() && views(keys@)[m] == k@;
            assert(keys@[m]@ == k@);
        }
    }
    let mut p: usize = keys.len();
    while p > 0 && !lex_le_chars(&keys[p - 1], &k)
        invariant
            p <= keys.len(),
            forall|m: int| p <= m < keys.len() ==> !lex_le(#[trigger] views(keys@)[m], k@),
        decreases p,
    {
        p -= 1;
    }
    let ghost before = views(keys@);
    proof {
        lemma_insert_key_at(before, k@, p as int);
    }
    keys.insert(p, k);
    assert(views(keys@) =~= before.insert(p as int, k@));
}

/// The ordered set of top-level entries of the reported paths.
fn collect_keys(inc: &[FileReport], exc: &[FileReport]) -> (r: Vec<Vec<char>>)
    ensures
        views(r@) == map_keys(report_paths(report_views(inc@)) + report_paths(report_views(exc@))),
{
    let ghost si = report_paths(report_views(inc@));
    let ghost all = report_paths(report_views(inc@)) + report_paths(report_views(exc@));
    let mut keys: Vec<Vec<char>> = Vec::new();
    assert(views(keys@) =~= Seq::<Seq<char>>::empty());
    let mut i: usize = 0;
    while i < inc.len()
        invariant
            i <= inc.len(),
            si == report_paths(report_views(inc@)),
            all == si + report_paths(report_views(exc@)),
            views(keys@) == map_keys(all.take(i as int)),
        decreases inc.len() - i,
    {
        let path = chars_of(inc[i].path.as_str());
        let k = top_key_chars(&path);
        assert(all[i as int] == inc@[i as int].path@);
        assert(all.take(i + 1).drop_last() =~= all.take(i as int));
        add_key_chars(&mut keys, k);
        i += 1;
    }
    let mut j: usize = 0;
    while j < exc.len()
        invariant
            i == inc.len(),
            j <= exc.len(),
            all == report_paths(report_views(inc@)) + report_paths(report_views(exc@)),
            all.len() == inc.len() + exc.len(),
            views(keys@) == map_keys(all.take(i + j)),
        decreases exc.len() - j,
    {
        let path = chars_of(exc[j].path.as_str());
        let k = top_key_chars(&path);
        assert(all[i + j] == exc@[j as int].path@);
        assert(all.take(i + j + 1).drop_last() =~= all.take(i + j));
        add_key_chars(&mut keys, k);
        j += 1;
    }
    assert(all.take(i + j) =~= all);
    keys
}

/// How many reports fall under a top-level entry.
fn count_under(v: &[FileReport], k: &[char]) -> (r: usize)
    ensures
        r == count_key(report_views(v@), k@),
{
    let ghost rv = report_views(v@);
    let mut c: usize = 0;
    let mut i: usize = 0;
    while i < v.len()
        invariant
            i <= v.len(),
            rv == report_views(v@),
            c <= i,
            c == count_key(rv.take(i as int), k@),
        decreases v.len() - i,
    {
        let path = chars_of(v[i].path.as_str());
        let t = top_key_chars(&path);
        assert(rv.take(i + 1).drop_last() =~= rv.take(i as int));
        assert(rv.take(i + 1).last().0 == v@[i as int].path@);
        if chars_eq(&t, k) {
            c += 1;
        }
        i += 1;
    }
    assert(rv.take(i as int) =~= rv);
    c
}

/// The first reason given by a report under a top-level entry.
fn first_reason_under(v: &[FileReport], k: &[char]) -> (r: Option<Vec<char>>)
    ensures
        opt_chars(r) == first_reason(report_views(v@), k@),
{
    let ghost rv = report_views(v@);
    let mut found: Option<Vec<char>> = None;
    let mut i: usize = 0;
    while i < v.len()
        invariant
            i <= v.len(),
            rv == report_views(v@),
            opt_chars(found) == first_reason(rv.take(i as int), k@),
        decreases v.len() - i,
    {
        assert(rv.take(i + 1).drop_last() =~= rv.take(i as int));
        assert(rv.take(i + 1).last() == v@[i as int]@);
        if found.is_none() {
            let path = chars_of(v[i].path.as_str());
            let t = top_key_chars(&path);
            if chars_eq(&t, k) {
                found = match &v[i].reason {
                    Some(s) => Some(chars_of(s.as_str())),
                    None => None,
                };
            }
        }
        i += 1;
    }
    assert(rv.take(i as int) =~= rv);
    found
}

/// Appends the decimal digits of a number.
fn push_usize(out: &mut Vec<char>, n: usize)
    ensures
        final(out)@ == old(out)@ + dec(n as nat),
{
    push_decimal(out, n as u64);
}

/// Appends a language, or `text` when there is none.
fn push_lang(out: &mut Vec<char>, lang: &Option<String>)
    ensures
        final(out)@ == old(out)@ + lang_or_text(crate::classify::opt_view(*lang)),
{
    match lang {
        Some(l) => extend_str(out, l.as_str()),
        None => extend_str(out, "text"),
    }
}

/// Appends a reason, or `excluded` when there is none.
fn push_reason_chars(out: &mut Vec<char>, reason: &Option<Vec<char>>)
    ensures
        final(out)@ == old(out)@ + reason_or_excluded(opt_chars(*reason)),
{
    match reason {
        Some(r) => extend_chars(out, r),
        None => extend_str(out, "excluded"),
    }
}

/// The repository map line of one top-level entry.
fn map_line_chars(k: &[char], included: usize, excluded: usize, reason: &Option<Vec<char>>) -> (r: Vec<char>)
    ensures
        r@ == map_line(k@, included as nat, excluded as nat, opt_chars(*reason)),
{
    let mut out: Vec<char> = Vec::new();
    extend_chars(&mut out, k);
    assert(out@ =~= k@);
    if included == 0 {
        extend_str(&mut out, " excluded: ");
        push_reason_chars(&mut out, reason);
        extend_str(&mut out, " (");
        push_usize(&mut out, excluded);
        extend_str(&mut out, " files)\n");
    } else if excluded == 0 {
        extend_str(&mut out, " included: ");
        push_usize(&mut out, included);
        extend_str(&mut out, " files\n");
    } else {
        extend_str(&mut out, " included: ");
        push_usize(&mut out, included);
        extend_str(&mut out, " files, excluded: ");
        push_usize(&mut out, excluded);
        extend_str(&mut out, " files\n");
    }
    out
}

/// The repository map of the included and excluded reports.
pub fn repository_map_text(inc: &[FileReport], exc: &[FileReport]) -> (r: Vec<char>)
    ensures
        r@ == repository_map(report_views(inc@), report_views(exc@)),
{
    let keys = collect_keys(inc, exc);
    let ghost kv = views(keys@);
    let mut out: Vec<char> = Vec::new();
    let mut i: usize = 0;
    while i < keys.len()
        invariant
            i <= keys.len(),
            kv == views(keys@),
            out@ == map_lines(kv.take(i as int), report_views(inc@), report_views(exc@)),
        decreases keys.len() - i,
    {
        let k = &keys[i];
        let n_in = count_under(inc, k);
        let n_ex = count_under(exc, k);
        let reason = first_reason_under(exc, k);
        let line = map_line_chars(k, n_in, n_ex, &reason);
        assert(kv.take(i + 1).drop_last() =~= kv.take(i as int));
        assert(kv.take(i + 1).last() == k@);
        extend_chars(&mut out, &line);
        i += 1;
    }
    assert(kv.take(i as int) =~= kv);
    out
}

/// The manifest line of an included file.
fn included_line_chars(r: &FileReport) -> (out: Vec<char>)
    ensures
        out@ == included_line(r@),
{
    let mut out = chars_of(r.path.as_str());
    extend_str(&mut out, " | ");
    push_lang(&mut out, &r.language);
    extend_str(&mut out, " | ");
    push_usize(&mut out, r.bytes);
    extend_str(&mut out, " bytes | ");
    push_usize(&mut out, r.tokens);
    extend_str(&mut out, " tokens | included\n");
    out
}

/// The manifest line of an excluded file.
fn excluded_line_chars(r: &FileReport) -> (out: Vec<char>)
    ensures
        out@ == excluded_line(r@),
{
    let mut out = chars_of(r.path.as_str());
    extend_str(&mut out, " | ");
    push_usize(&mut out, r.bytes);
    extend_str(&mut out, " bytes | excluded: ");
    match &r.reason {
        Some(x) => extend_str(&mut out, x.as_str()),
        None => extend_str(&mut out, "excluded"),
    }
    extend_str(&mut out, "\n");
    out
}

/// The manifest lines of the included files.
fn manifest_included_chars(v: &[FileReport]) -> (out: Vec<char>)
    ensures
        out@ == manifest_included(report_views(v@)),
{
    let ghost rv = report_views(v@);
    let mut out: Vec<char> = Vec::new();
    let mut i: usize = 0;
    while i < v.len()
        invariant
            i <= v.len(),
            rv == report_views(v@),
            out@ == manifest_included(rv.take(i as int)),
        decreases v.len() - i,
    {
        let line = included_line_chars(&v[i]);
        assert(rv.take(i + 1).drop_last() =~= rv.take(i as int));
        assert(rv.take(i + 1).last() == v@[i as int]@);
        extend_chars(&mut out, &line);
        i += 1;
    }
    assert(rv.take(i as int) =~= rv);
    out
}

/// The manifest lines of the excluded files.
fn manifest_excluded_chars(v: &[FileReport]) -> (out: Vec<char>)
    ensures
        out@ == manifest_excluded(report_views(v@)),
{
    let ghost rv = report_views(v@);
    let mut out: Vec<char> = Vec::new();
    let mut i: usize = 0;
    while i < v.len()
        invariant
            i <= v.len(),
            rv == report_views(v@),
            out@ == manifest_excluded(rv.take(i as int)),
        decreases v.len() - i,
    {
        let line = excluded_line_chars(&v[i]);
        assert(rv.take(i + 1).drop_last() =~= rv.take(i as int));
        assert(rv.take(i + 1).last() == v@[i as int]@);
        extend_chars(&mut out, &line);
        i += 1;
    }
    assert(rv.take(i as int) =~= rv);
    out
}

/// The delimited block of one file.
fn file_block_chars(f: &ExtractedFile) -> (out: Vec<char>)
    ensures
        out@ == file_block(f@),
{
    let mut out = chars_of("<<<FILE path=\"");
    let path = chars_of(f.rel_path.as_str());
    let escaped = escape_attr_chars(&path);
    extend_chars(&mut out, &escaped);
    extend_str(&mut out, "\" lang=\"");
    push_lang(&mut out, &f.language);
    extend_str(&mut out, "\" bytes=");
    push_usize(&mut out, f.output_bytes);
    extend_str(&mut out, " tokens=");
    push_usize(&mut out, f.estimated_tokens);
    extend_str(&mut out, ">>>\n");
    let content = chars_of(f.content.as_str());
    extend_chars(&mut out, &content);
    let ghost before = out@;
    if !ends_with_str(&content, "\n") {
        extend_str(&mut out, "\n");
    }
    assert(out@ =~= before + (if ends_with(f.content@, "\n"@) {
        Seq::<char>::empty()
    } else {
        "\n"@
    }));
    extend_str(&mut out, "<<<END_FILE>>>\n");
    extend_str(&mut out, "\n");
    out
}

/// The delimited blocks of the files, in order.
fn file_blocks_chars(files: &[ExtractedFile]) -> (out: Vec<char>)
    ensures
        out@ == file_blocks(extracted_views(files@)),
{
    let ghost fv = extracted_views(files@);
    let mut out: Vec<char> = Vec::new();
    let mut i: usize = 0;
    while i < files.len()
        invariant
            i <= files.len(),
            fv == extracted_views(files@),
            out@ == file_blocks(fv.take(i as int)),
        decreases files.len() - i,
    {
        let block = file_block_chars(&files[i]);
        assert(fv.take(i + 1).drop_last() =~= fv.take(i as int));
        assert(fv.take(i + 1).last() == files@[i as int]@);
        extend_chars(&mut out, &block);
        i += 1;
    }
    assert(fv.take(i as int) =~= fv);
    out
}

/// The token budget lines, when there is a budget.
fn budget_chars(budget: Option<usize>, total_tokens: usize) -> (out: Vec<char>)
    ensures
        out@ == budget_lines(budget, total_tokens),
{
    match budget {
        Some(b) => {
            let mut out = chars_of("token_budget: ");
            push_usize(&mut out, b);
            extend_str(&mut out, "\n");
            let ghost before = out@;
            if total_tokens > b {
                extend_str(&mut out, "budget_overflow: ");
                push_usize(&mut out, total_tokens - b);
                extend_str(&mut out, "\n");
                assert(out@ =~= before + ("budget_overflow: "@ + dec((total_tokens - b) as nat)
                    + "\n"@));
            } else {
                assert(out@ =~= before + Seq::<char>::empty());
            }
            out
        },
        None => Vec::new(),
    }
}

/// The project name: the last segment of the root, or nothing.
fn project_name_chars(root: &str) -> (out: Vec<char>)
    ensures
        out@ == project_name(root@),
{
    match path_file_name(root) {
        Some(n) => chars_of(n.as_str()),
        None => Vec::new(),
    }
}

/// The metadata lines at the top of the bundle.
fn header_chars(config: &ScanConfig, report: &BundleReport, generated_unix: u64) -> (out: Vec<char>)
    ensures
        out@ == header(
            *config,
            report_views(report.included_files@),
            report_views(report.excluded_files@),
            report.total_tokens,
            generated_unix,
        ),
{
    let mut out = chars_of("# CODEBASE BUNDLE v1\n");
    extend_str(&mut out, "project: ");
    let project = project_name_chars(config.root.as_str());
    extend_chars(&mut out, &project);
    extend_str(&mut out, "\n");
    extend_str(&mut out, "root: ");
    let root = display_path_text(config.root.as_str());
    extend_str(&mut out, root.as_str());
    extend_str(&mut out, "\n");
    extend_str(&mut out, "generated_unix: ");
    push_decimal(&mut out, generated_unix);
    extend_str(&mut out, "\n");
    extend_str(&mut out, "mode: ");
    extend_str(&mut out, config.mode.debug_name());
    extend_str(&mut out, "\n");
    extend_str(&mut out, "tokenizer: ");
    extend_str(&mut out, config.tokenizer.as_str());
    extend_str(&mut out, "\n");
    extend_str(&mut out, "estimated_tokens: ");
    push_usize(&mut out, report.total_tokens);
    extend_str(&mut out, "\n");
    extend_str(&mut out, "included_files: ");
    push_usize(&mut out, report.included_files.len());
    extend_str(&mut out, "\n");
    extend_str(&mut out, "excluded_files: ");
    push_usize(&mut out, report.excluded_files.len());
    extend_str(&mut out, "\n");
    let budget = budget_chars(config.token_budget, report.total_tokens);
    extend_chars(&mut out, &budget);
    out
}

/// The bundle text for a configuration, the extracted files, and their
/// report, stamped with `generated_unix` seconds. Both output formats give
/// the same delimited text, so this never fails.
pub fn format_bundle(
    config: &ScanConfig,
    files: &[ExtractedFile],
    report: &BundleReport,
    generated_unix: u64,
) -> (r: Result<BundleOutput>)
    ensures
        r matches Ok(b) && b.contents@ == plain_bundle(
            *config,
            extracted_views(files@),
            report_views(report.included_files@),
            report_views(report.excluded_files@),
            report.total_tokens,
            generated_unix,
        ),
{
    let contents = format_plain(config, files, report, generated_unix);
    match config.output.output_format {
        OutputFormat::PlainDelimited => Ok(BundleOutput { contents }),
        OutputFormat::Markdown => Ok(BundleOutput { contents }),
    }
}

/// The delimited bundle text.
fn format_plain(config: &ScanConfig, files: &[ExtractedFile], report: &BundleReport, generated_unix: u64) -> (r: String)
    ensures
        r@ == plain_bundle(
            *config,
            extracted_views(files@),
            report_views(report.included_files@),
            report_views(report.excluded_files@),
            report.total_tokens,
            generated_unix,
        ),
{
    let mut out = header_chars(config, report, generated_unix);
    extend_str(&mut out, "\n");
    extend_str(&mut out, "# REPOSITORY MAP\n");
    let map = repository_map_text(report.included_files.as_slice(), report.excluded_files.as_slice());
    extend_chars(&mut out, &map);
    extend_str(&mut out, "\n");
    extend_str(&mut out, "# FILE MANIFEST\n");
    let inc = manifest_included_chars(report.included_files.as_slice());
    extend_chars(&mut out, &inc);
    let exc = manifest_excluded_chars(report.excluded_files.as_slice());
    extend_chars(&mut out, &exc);
    extend_str(&mut out, "\n");
    let blocks = file_blocks_chars(files);
    extend_chars(&mut out, &blocks);
    string_of(&out)
}

/// The manifest of included files has one line per file, in order:
/// its path, its language (or `text`), its byte count before ` bytes | `,
/// its token count before ` tokens | included`.
pub proof fn law_included_manifest_lines(inc: Seq<ReportView>, k: int)
    requires
        0 <= k < inc.len(),
    ensures
        manifest_included(inc.take(k + 1)) == manifest_included(inc.take(k)) + inc[k].0 + " | "@
            + lang_or_text(inc[k].3) + " | "@ + dec(inc[k].1 as nat) + " bytes | "@ + dec(
            inc[k].2 as nat,
        ) + " tokens | included\n"@,
        manifest_included(inc) == manifest_included(inc.take(k + 1)) + manifest_included(
            inc.skip(k + 1),
        ),
{
    assert(inc.take(k + 1).drop_last() =~= inc.take(k));
    lemma_manifest_included_split(inc, k + 1);
}

/// The manifest of excluded files has one line per file, in order: its
/// path, its byte count before ` bytes | excluded: `, and its reason.
pub proof fn law_excluded_manifest_lines(exc: Seq<ReportView>, k: int)
    requires
        0 <= k < exc.len(),
    ensures
        manifest_excluded(exc.take(k + 1)) == manifest_excluded(exc.take(k)) + exc[k].0
            + " | "@ + dec(exc[k].1 as nat) + " bytes | excluded: "@ + reason_or_excluded(exc[k].5)
            + "\n"@,
        manifest_excluded(exc) == manifest_excluded(exc.take(k + 1)) + manifest_excluded(
            exc.skip(k + 1),
        ),
{
    assert(exc.take(k + 1).drop_last() =~= exc.take(k));
    lemma_manifest_excluded_split(exc, k + 1);
}

proof fn lemma_manifest_included_split(v: Seq<ReportView>, n: int)
    requires
        0 <= n <= v.len(),
    ensures
        manifest_included(v) == manifest_included(v.take(n)) + manifest_included(v.skip(n)),
    decreases v.len(),
{
    if v.len() == n {
        assert(v.take(n) =~= v);
        assert(v.skip(n) =~= Seq::<ReportView>::empty());
        assert(manifest_included(v) + Seq::<char>::empty() =~= manifest_included(v));
    } else {
        let d = v.drop_last();
        lemma_manifest_included_split(d, n);
        assert(d.take(n) =~= v.take(n));
        assert(v.skip(n).drop_last() =~= d.skip(n));
        assert(v.skip(n).last() == v.last());
        assert(manifest_included(v.take(n)) + manifest_included(d.skip(n)) + included_line(v.last())
            =~= manifest_included(v.take(n)) + (manifest_included(d.skip(n)) + included_line(
            v.last(),
        )));
    }
}

proof fn lemma_manifest_excluded_split(v: Seq<ReportView>, n: int)
    requires
        0 <= n <= v.len(),
    ensures
        manifest_excluded(v) == manifest_excluded(v.take(n)) + manifest_excluded(v.skip(n)),
    decreases v.len(),
{
    if v.len() == n {
        assert(v.take(n) =~= v);
        assert(v.skip(n) =~= Seq::<ReportView>::empty());
        assert(manifest_excluded(v) + Seq::<char>::empty() =~= manifest_excluded(v));
    } else {
        let d = v.drop_last();
        lemma_manifest_excluded_split(d, n);
        assert(d.take(n) =~= v.take(n));
        assert(v.skip(n).drop_last() =~= d.skip(n));
        assert(v.skip(n).last() == v.last());
        assert(manifest_excluded(v.take(n)) + manifest_excluded(d.skip(n)) + excluded_line(v.last())
            =~= manifest_excluded(v.take(n)) + (manifest_excluded(d.skip(n)) + excluded_line(
            v.last(),
        )));
    }
}

/// The file blocks come one per bundled file, in order; each opens with
/// the escaped path, the language (or `text`), the byte count and the token
/// count, holds the file's text ending in a line break, and closes with
/// `<<<END_FILE>>>` and an empty line.
pub proof fn law_file_block_lines(v: Seq<ExtractedView>, k: int)
    requires
        0 <= k < v.len(),
    ensures
        file_blocks(v.take(k + 1)) == file_blocks(v.take(k)) + "<<<FILE path=\""@ + escape_attr(v[k].0)
            + "\" lang=\""@ + lang_or_text(v[k].1) + "\" bytes="@ + dec(v[k].3 as nat)
            + " tokens="@ + dec(v[k].4 as nat) + ">>>\n"@ + v[k].6 + (if ends_with(v[k].6, "\n"@) {
            Seq::<char>::empty()
        } else {
            "\n"@
        }) + "<<<END_FILE>>>\n"@ + "\n"@,
        file_blocks(v) == file_blocks(v.take(k + 1)) + file_blocks(v.skip(k + 1)),
{
    assert(v.take(k + 1).drop_last() =~= v.take(k));
    assert(v.take(k + 1).last() == v[k]);
    lemma_file_blocks_split(v, k + 1);
}

proof fn lemma_file_blocks_split(v: Seq<ExtractedView>, n: int)
    requires
        0 <= n <= v.len(),
    ensures
        file_blocks(v) == file_blocks(v.take(n)) + file_blocks(v.skip(n)),
    decreases v.len(),
{
    if v.len() == n {
        assert(v.take(n) =~= v);
        assert(v.skip(n) =~= Seq::<ExtractedView>::empty());
        assert(file_blocks(v) + Seq::<char>::empty() =~= file_blocks(v));
    } else {
        let d = v.drop_last();
        lemma_file_blocks_split(d, n);
        assert(d.take(n) =~= v.take(n));
        assert(v.skip(n).drop_last() =~= d.skip(n));
        assert(v.skip(n).last() == v.last());
        assert(file_blocks(v.take(n)) + file_blocks(d.skip(n)) + file_block(v.last())
            =~= file_blocks(v.take(n)) + (file_blocks(d.skip(n)) + file_block(v.last())));
    }
}

/// The budget lines: with a budget, its line, and when the estimate goes
/// over it, a line with the excess; without one, nothing.
pub proof fn law_budget_lines(budget: Option<usize>, total_tokens: usize)
    ensures
        budget is None ==> budget_lines(budget, total_tokens) == Seq::<char>::empty(),
        budget matches Some(b) ==> (total_tokens > b ==> budget_lines(budget, total_tokens)
            == "token_budget: "@ + dec(b as nat) + "\n"@ + "budget_overflow: "@ + dec(
            (total_tokens - b) as nat,
        ) + "\n"@),
        budget matches Some(b) ==> (total_tokens <= b ==> budget_lines(budget, total_tokens)
            == "token_budget: "@ + dec(b as nat) + "\n"@),
{
    if let Some(b) = budget {
        if total_tokens <= b {
            assert("token_budget: "@ + dec(b as nat) + "\n"@ + Seq::<char>::empty() =~= "token_budget: "@
                + dec(b as nat) + "\n"@);
        } else {
            assert("token_budget: "@ + dec(b as nat) + "\n"@ + ("budget_overflow: "@ + dec(
                (total_tokens - b) as nat,
            ) + "\n"@) =~= "token_budget: "@ + dec(b as nat) + "\n"@ + "budget_overflow: "@ + dec(
                (total_tokens - b) as nat,
            ) + "\n"@);
        }
    }
}

/// The header gives the estimate and the numbers of included and excluded
/// files, each on its own line, before the budget lines.
pub proof fn law_header_counts(
    config: ScanConfig,
    inc: Seq<ReportView>,
    exc: Seq<ReportView>,
    total_tokens: usize,
    generated_unix: u64,
)
    ensures
        exists|p: Seq<char>|
            header(config, inc, exc, total_tokens, generated_unix) == p + "estimated_tokens: "@ + dec(
                total_tokens as nat,
            ) + "\n"@ + "included_files: "@ + dec(inc.len()) + "\n"@ + "excluded_files: "@ + dec(
                exc.len(),
            ) + "\n"@ + budget_lines(config.token_budget, total_tokens),
{
    let p = "# CODEBASE BUNDLE v1\n"@ + "project: "@ + project_name(config.root@) + "\n"@ + "root: "@
        + display_path(config.root@) + "\n"@ + "generated_unix: "@ + dec(generated_unix as nat)
        + "\n"@ + "mode: "@ + mode_debug_name(config.mode) + "\n"@ + "tokenizer: "@
        + config.tokenizer@ + "\n"@;
    assert(header(config, inc, exc, total_tokens, generated_unix) == p + "estimated_tokens: "@ + dec(
        total_tokens as nat,
    ) + "\n"@ + "included_files: "@ + dec(inc.len()) + "\n"@ + "excluded_files: "@ + dec(
        exc.len(),
    ) + "\n"@ + budget_lines(config.token_budget, total_tokens));
}

} // verus!
