//! Cleaning file contents before they go into the bundle: newline
//! normalization, trailing whitespace, inline Rust tests, runs of blank lines,
//! and simple line comments.
use vstd::prelude::*;

use crate::classify::FileClassification;
use crate::config::ScanConfig;
use crate::discover::FileCandidate;
use crate::text::{
    chars_eq, chars_of, contains, contains_str, count_char, eq_str, extend_chars, is_blank,
    is_blank_chars, is_ws, join, join_chars, lemma_count_char_le, lemma_lines_have_no_newline,
    lemma_index_of_bounds, lemma_join_front, lemma_lines_of_join, lemma_lines_of_parts_members,
    lemma_trim_end_prefix, lemma_trim_start_skip, index_of, occurs_at,
    lemma_views_push, lines, lines_of_parts, owned, split_lines, starts_with, starts_with_str,
    string_of, string_views, strip_cr, trim_end, trim_end_chars, trim_start, trim_start_chars,
    views,
};

verus! {

// ---------------------------------------------------------------------------
// Spec
// ---------------------------------------------------------------------------

/// `replace("\r\n", "\n")` then `replace('\r', "\n")`: every line ending
/// becomes a single `'\n'`.
pub open spec fn normalize_newlines(s: Seq<char>) -> Seq<char>
    decreases s.len(),
{
    if s.len() == 0 {
        Seq::empty()
    } else if s[0] == '\r' {
        if s.len() >= 2 && s[1] == '\n' {
            seq!['\n'] + normalize_newlines(s.skip(2))
        } else {
            seq!['\n'] + normalize_newlines(s.skip(1))
        }
    } else {
        seq![s[0]] + normalize_newlines(s.skip(1))
    }
}

/// The lines with their trailing whitespace removed.
pub open spec fn trimmed_lines(s: Seq<char>) -> Seq<Seq<char>> {
    lines(s).map_values(|l: Seq<char>| trim_end(l))
}

/// The lines with their trailing whitespace removed, joined by `'\n'`.
pub open spec fn trim_trailing_whitespace(s: Seq<char>) -> Seq<char> {
    join(trimmed_lines(s), seq!['\n'])
}

/// A line whose first non-blank characters are `//`.
pub open spec fn is_comment_line(l: Seq<char>) -> bool {
    starts_with(trim_start(l), "//"@)
}

/// The lines that are not comment lines.
pub open spec fn non_comment_lines(ls: Seq<Seq<char>>) -> Seq<Seq<char>>
    decreases ls.len(),
{
    if ls.len() == 0 {
        ls
    } else if is_comment_line(ls.last()) {
        non_comment_lines(ls.drop_last())
    } else {
        non_comment_lines(ls.drop_last()).push(ls.last())
    }
}

/// The text without its `//` comment lines, joined by `'\n'`.
pub open spec fn strip_simple_line_comments(s: Seq<char>) -> Seq<char> {
    join(non_comment_lines(lines(s)), seq!['\n'])
}

/// Drops trailing `'\n'` characters.
pub open spec fn trim_end_newlines(s: Seq<char>) -> Seq<char>
    decreases s.len(),
{
    if s.len() > 0 && s.last() == '\n' {
        trim_end_newlines(s.drop_last())
    } else {
        s
    }
}

/// The lines with each run of blank lines shortened to at most two empty
/// lines; `blanks` is how many blank lines directly precede `ls` (counted up
/// to two).
pub open spec fn collapse_from(ls: Seq<Seq<char>>, blanks: nat) -> Seq<char>
    decreases ls.len(),
{
    if ls.len() == 0 {
        Seq::empty()
    } else if is_blank(ls[0]) {
        (if blanks < 2 {
            seq!['\n']
        } else {
            Seq::empty()
        }) + collapse_from(ls.drop_first(), if blanks < 2 {
            blanks + 1
        } else {
            2
        })
    } else {
        ls[0] + seq!['\n'] + collapse_from(ls.drop_first(), 0)
    }
}

/// Runs of blank lines shortened to two empty lines, trailing newlines dropped.
pub open spec fn collapse_blank_lines(s: Seq<char>) -> Seq<char> {
    trim_end_newlines(collapse_from(lines(s), 0))
}

/// An attribute that marks a Rust test item.
pub open spec fn is_rust_test_attr(t: Seq<char>) -> bool {
    ||| starts_with(t, "#[test"@)
    ||| starts_with(t, "#[tokio::test"@)
    ||| starts_with(t, "#[wasm_bindgen_test"@)
    ||| starts_with(t, "#[rstest"@)
    ||| starts_with(t, "#[cfg(test"@)
}

/// The first index from `i` on whose line is not an attribute line.
pub open spec fn attr_run_end(ls: Seq<Seq<char>>, i: int) -> int
    decreases ls.len() - i,
{
    if i < 0 || i >= ls.len() {
        ls.len() as int
    } else if starts_with(trim_start(ls[i]), "#["@) {
        attr_run_end(ls, i + 1)
    } else {
        i
    }
}

/// Number of occurrences of `c` over all lines.
pub open spec fn count_in_lines(ls: Seq<Seq<char>>, c: char) -> nat
    decreases ls.len(),
{
    if ls.len() == 0 {
        0
    } else {
        count_in_lines(ls.drop_last(), c) + count_char(ls.last(), c)
    }
}

/// Total number of characters over all lines.
pub open spec fn total_len(ls: Seq<Seq<char>>) -> nat
    decreases ls.len(),
{
    if ls.len() == 0 {
        0
    } else {
        total_len(ls.drop_last()) + ls.last().len()
    }
}

/// The lines hold an opening brace and no more opening than closing braces.
pub open spec fn braces_closed(ls: Seq<Seq<char>>) -> bool {
    count_in_lines(ls, '{') > 0 && count_in_lines(ls, '{') <= count_in_lines(ls, '}')
}

/// The end (exclusive) of the item starting at line `j`: the first line end,
/// from line `k` on, after which the braces counted since `j` are closed; the
/// end of the text if they never are.
pub open spec fn item_end(ls: Seq<Seq<char>>, j: int, k: int) -> int
    decreases ls.len() - k,
{
    if k < j || k >= ls.len() {
        ls.len() as int
    } else if braces_closed(ls.subrange(j, k + 1)) {
        k + 1
    } else {
        item_end(ls, j, k + 1)
    }
}

/// The lines from `i` on with inline Rust tests removed: a test attribute,
/// the attributes after it and the `fn` or `mod` item they mark are dropped;
/// test attributes that mark anything else are kept.
pub open spec fn strip_tests_from(ls: Seq<Seq<char>>, i: int) -> Seq<Seq<char>>
    decreases ls.len() - i,
{
    if i < 0 || i >= ls.len() {
        Seq::empty()
    } else if is_rust_test_attr(trim_start(ls[i])) {
        let j = attr_run_end(ls, i + 1);
        if j < ls.len() && (contains(ls[j], "fn "@) || contains(ls[j], "mod "@)) {
            let e = item_end(ls, j, j);
            if i < e <= ls.len() {
                strip_tests_from(ls, e)
            } else {
                Seq::empty()
            }
        } else if i < j <= ls.len() {
            ls.subrange(i, j) + strip_tests_from(ls, j)
        } else {
            Seq::empty()
        }
    } else {
        seq![ls[i]] + strip_tests_from(ls, i + 1)
    }
}

/// The text with its inline Rust tests removed, joined by `'\n'`.
pub open spec fn strip_rust_test_blocks(s: Seq<char>) -> Seq<char> {
    join(strip_tests_from(lines(s), 0), seq!['\n'])
}

/// Comments can be stripped from these languages.
pub open spec fn can_strip_comments(lang: Seq<char>) -> bool {
    ||| lang == "rust"@ ||| lang == "typescript"@ ||| lang == "typescriptreact"@
    ||| lang == "javascript"@ ||| lang == "javascriptreact"@ ||| lang == "go"@
    ||| lang == "java"@ ||| lang == "c"@ ||| lang == "cpp"@ ||| lang == "cs"@
}

/// Appends `label` to `labels` when the step changed the text.
pub open spec fn note(labels: Seq<Seq<char>>, before: Seq<char>, after: Seq<char>, label: Seq<char>) -> Seq<Seq<char>> {
    if after != before {
        labels.push(label)
    } else {
        labels
    }
}

/// The cleaned content and the list of transformations applied, in order.
pub open spec fn sanitized(
    config: ScanConfig,
    content: Seq<char>,
    language: Option<Seq<char>>,
    extension: Option<Seq<char>>,
) -> (Seq<char>, Seq<Seq<char>>) {
    let s1 = normalize_newlines(content);
    let t1 = note(Seq::empty(), content, s1, "normalized newlines"@);
    let s2 = trim_trailing_whitespace(s1);
    let t2 = note(t1, s1, s2, "trimmed trailing whitespace"@);
    let rust = config.strip_rules.rust_inline_tests && extension == Some("rs"@);
    let s3 = if rust {
        strip_rust_test_blocks(s2)
    } else {
        s2
    };
    let t3 = if rust {
        note(t2, s2, s3, "stripped rust inline tests"@)
    } else {
        t2
    };
    let s4 = if config.strip_rules.blank_lines {
        collapse_blank_lines(s3)
    } else {
        s3
    };
    let t4 = if config.strip_rules.blank_lines {
        note(t3, s3, s4, "collapsed blank lines"@)
    } else {
        t3
    };
    let comments = config.strip_rules.comments && (language matches Some(l) && can_strip_comments(
        l,
    ));
    let s5 = if comments {
        strip_simple_line_comments(s4)
    } else {
        s4
    };
    let t5 = if comments {
        note(t4, s4, s5, "stripped simple comments"@)
    } else {
        t4
    };
    (s5, t5)
}

// ---------------------------------------------------------------------------
// Lemmas
// ---------------------------------------------------------------------------

proof fn lemma_attr_run_end_bounds(ls: Seq<Seq<char>>, i: int)
    requires
        0 <= i,
    ensures
        i <= attr_run_end(ls, i) <= ls.len() || (i > ls.len() && attr_run_end(ls, i) == ls.len()),
        attr_run_end(ls, i) <= ls.len(),
    decreases ls.len() - i,
{
    if i < ls.len() && starts_with(trim_start(ls[i]), "#["@) {
        lemma_attr_run_end_bounds(ls, i + 1);
    }
}

proof fn lemma_item_end_bounds(ls: Seq<Seq<char>>, j: int, k: int)
    requires
        0 <= j <= k,
    ensures
        item_end(ls, j, k) <= ls.len(),
        k < ls.len() ==> k < item_end(ls, j, k),
    decreases ls.len() - k,
{
    if k < ls.len() && !braces_closed(ls.subrange(j, k + 1)) {
        lemma_item_end_bounds(ls, j, k + 1);
    }
}

proof fn lemma_total_len_append(a: Seq<Seq<char>>, b: Seq<Seq<char>>)
    ensures
        total_len(a + b) == total_len(a) + total_len(b),
    decreases b.len(),
{
    if b.len() == 0 {
        assert(a + b =~= a);
    } else {
        assert((a + b).drop_last() =~= a + b.drop_last());
        lemma_total_len_append(a, b.drop_last());
    }
}

proof fn lemma_total_len_subrange(ls: Seq<Seq<char>>, j: int, k: int)
    requires
        0 <= j <= k <= ls.len(),
    ensures
        total_len(ls.subrange(j, k)) <= total_len(ls),
{
    lemma_total_len_append(ls.take(j), ls.subrange(j, k));
    lemma_total_len_append(ls.take(j) + ls.subrange(j, k), ls.skip(k));
    assert(ls.take(j) + ls.subrange(j, k) + ls.skip(k) =~= ls);
}

proof fn lemma_count_in_lines_le(ls: Seq<Seq<char>>, c: char)
    ensures
        count_in_lines(ls, c) <= total_len(ls),
    decreases ls.len(),
{
    if ls.len() > 0 {
        lemma_count_in_lines_le(ls.drop_last(), c);
        lemma_count_char_le(ls.last(), c);
    }
}

proof fn lemma_braces_le(ls: Seq<Seq<char>>)
    ensures
        count_in_lines(ls, '{') + count_in_lines(ls, '}') <= total_len(ls),
    decreases ls.len(),
{
    if ls.len() > 0 {
        lemma_braces_le(ls.drop_last());
        lemma_count_char_pair_le(ls.last());
    }
}

proof fn lemma_count_char_pair_le(s: Seq<char>)
    ensures
        count_char(s, '{') + count_char(s, '}') <= s.len(),
    decreases s.len(),
{
    if s.len() > 0 {
        lemma_count_char_pair_le(s.drop_last());
    }
}

proof fn lemma_total_len_single(x: Seq<char>)
    ensures
        total_len(seq![x]) == x.len(),
{
    assert(seq![x].drop_last() =~= Seq::<Seq<char>>::empty());
    assert(total_len(Seq::<Seq<char>>::empty()) == 0);
    assert(seq![x].last() == x);
}

proof fn lemma_lines_total_len(s: Seq<char>)
    ensures
        total_len(lines(s)) <= s.len(),
    decreases s.len(),
{
    if s.len() > 0 {
        let i = crate::text::index_of(s, '\n');
        crate::text::lemma_index_of_bounds(s, '\n');
        if 0 <= i < s.len() {
            let head = strip_cr(s.take(i));
            lemma_lines_total_len(s.skip(i + 1));
            lemma_total_len_append(seq![head], lines(s.skip(i + 1)));
            assert(seq![head].drop_last() =~= Seq::<Seq<char>>::empty());
            lemma_total_len_single(head);
            assert(lines(s) == seq![head] + lines(s.skip(i + 1)));
            assert(head.len() <= i);
        } else {
            assert(seq![s].drop_last() =~= Seq::<Seq<char>>::empty());
            assert(lines(s) == seq![s]);
            lemma_total_len_single(s);
        }
    }
}


// ---------------------------------------------------------------------------
// Laws
// ---------------------------------------------------------------------------

/// `a` is `b` with some elements left out.
pub open spec fn is_subsequence<A>(a: Seq<A>, b: Seq<A>) -> bool
    decreases b.len(),
{
    if a.len() == 0 {
        true
    } else if b.len() == 0 {
        false
    } else {
        (a[0] == b[0] && is_subsequence(a.drop_first(), b.drop_first())) || is_subsequence(
            a,
            b.drop_first(),
        )
    }
}

proof fn lemma_subsequence_of_suffix<A>(a: Seq<A>, b: Seq<A>, k: int)
    requires
        0 <= k <= b.len(),
        is_subsequence(a, b.skip(k)),
    ensures
        is_subsequence(a, b),
    decreases k,
{
    if k > 0 {
        assert(b.skip(k - 1).drop_first() =~= b.skip(k));
        lemma_subsequence_of_suffix(a, b, k - 1);
    } else {
        assert(b.skip(0) =~= b);
    }
}

proof fn lemma_subsequence_prefix<A>(p: Seq<A>, a: Seq<A>, b: Seq<A>)
    requires
        is_subsequence(a, b),
    ensures
        is_subsequence(p + a, p + b),
    decreases p.len(),
{
    if p.len() > 0 {
        lemma_subsequence_prefix(p.drop_first(), a, b);
        assert((p + a).drop_first() =~= p.drop_first() + a);
        assert((p + b).drop_first() =~= p.drop_first() + b);
        assert((p + a)[0] == (p + b)[0]);
    }
}

proof fn lemma_strip_tests_subsequence(ls: Seq<Seq<char>>, i: int)
    requires
        0 <= i <= ls.len(),
    ensures
        is_subsequence(strip_tests_from(ls, i), ls.skip(i)),
    decreases ls.len() - i,
{
    if i < ls.len() {
        if is_rust_test_attr(trim_start(ls[i])) {
            let j = attr_run_end(ls, i + 1);
            lemma_attr_run_end_bounds(ls, i + 1);
            if j < ls.len() && (contains(ls[j], "fn "@) || contains(ls[j], "mod "@)) {
                let e = item_end(ls, j, j);
                lemma_item_end_bounds(ls, j, j);
                lemma_strip_tests_subsequence(ls, e);
                assert(ls.skip(i).skip(e - i) =~= ls.skip(e));
                lemma_subsequence_of_suffix(strip_tests_from(ls, e), ls.skip(i), e - i);
            } else {
                lemma_strip_tests_subsequence(ls, j);
                lemma_subsequence_prefix(ls.subrange(i, j), strip_tests_from(ls, j), ls.skip(j));
                assert(ls.subrange(i, j) + ls.skip(j) =~= ls.skip(i));
            }
        } else {
            lemma_strip_tests_subsequence(ls, i + 1);
            lemma_subsequence_prefix(seq![ls[i]], strip_tests_from(ls, i + 1), ls.skip(i + 1));
            assert(seq![ls[i]] + ls.skip(i + 1) =~= ls.skip(i));
        }
    } else {
        assert(strip_tests_from(ls, i).len() == 0);
    }
}

/// Stripping inline tests only deletes whole lines: the lines kept are the
/// lines of the text, in order, with some left out.
pub proof fn law_test_stripping_only_deletes_lines(s: Seq<char>)
    ensures
        is_subsequence(strip_tests_from(lines(s), 0), lines(s)),
{
    lemma_strip_tests_subsequence(lines(s), 0);
    assert(lines(s).skip(0) =~= lines(s));
}

/// A test attribute (`#[test`, `#[tokio::test`, `#[wasm_bindgen_test`,
/// `#[rstest` or `#[cfg(test` at the start of the trimmed line) followed,
/// after any further attribute lines, by a `fn` or `mod` line is removed
/// together with those attributes and the whole braced item: stripping goes
/// on after the item's end, which lies past the attribute.
pub proof fn law_test_items_are_stripped(ls: Seq<Seq<char>>, i: int)
    requires
        0 <= i < ls.len(),
        ({
            let t = trim_start(ls[i]);
            ||| starts_with(t, "#[test"@)
            ||| starts_with(t, "#[tokio::test"@)
            ||| starts_with(t, "#[wasm_bindgen_test"@)
            ||| starts_with(t, "#[rstest"@)
            ||| starts_with(t, "#[cfg(test"@)
        }),
        attr_run_end(ls, i + 1) < ls.len(),
        contains(ls[attr_run_end(ls, i + 1)], "fn "@) || contains(
            ls[attr_run_end(ls, i + 1)],
            "mod "@,
        ),
    ensures
        ({
            let e = item_end(ls, attr_run_end(ls, i + 1), attr_run_end(ls, i + 1));
            &&& attr_run_end(ls, i + 1) < e <= ls.len()
            &&& strip_tests_from(ls, i) == strip_tests_from(ls, e)
        }),
{
    let j = attr_run_end(ls, i + 1);
    lemma_attr_run_end_bounds(ls, i + 1);
    lemma_item_end_bounds(ls, j, j);
}

/// Comments are stripped from exactly these languages: Rust, TypeScript
/// (and TSX), JavaScript (and JSX), Go, Java, C, C++ and C#.
pub proof fn law_comment_languages(lang: Seq<char>)
    ensures
        can_strip_comments(lang) <==> (lang == "rust"@ || lang == "typescript"@ || lang
            == "typescriptreact"@ || lang == "javascript"@ || lang == "javascriptreact"@ || lang
            == "go"@ || lang == "java"@ || lang == "c"@ || lang == "cpp"@ || lang == "cs"@),
{
}

/// Text without a test attribute line keeps all of its lines.
pub proof fn law_text_without_tests_is_kept(s: Seq<char>)
    requires
        forall|i: int| 0 <= i < lines(s).len() ==> !is_rust_test_attr(trim_start(#[trigger] lines(s)[i])),
    ensures
        strip_tests_from(lines(s), 0) == lines(s),
{
    lemma_strip_keeps_untested(lines(s), 0);
    assert(lines(s).skip(0) =~= lines(s));
}

proof fn lemma_strip_keeps_untested(ls: Seq<Seq<char>>, i: int)
    requires
        0 <= i <= ls.len(),
        forall|k: int| 0 <= k < ls.len() ==> !is_rust_test_attr(trim_start(#[trigger] ls[k])),
    ensures
        strip_tests_from(ls, i) == ls.skip(i),
    decreases ls.len() - i,
{
    if i < ls.len() {
        lemma_strip_keeps_untested(ls, i + 1);
        assert(seq![ls[i]] + ls.skip(i + 1) =~= ls.skip(i));
    } else {
        assert(ls.skip(i) =~= Seq::<Seq<char>>::empty());
    }
}

proof fn lemma_trimmed_parts(s: Seq<char>)
    ensures
        forall|j: int|
            0 <= j < trimmed_lines(s).len() ==> {
                let m = #[trigger] trimmed_lines(s)[j];
                &&& !m.contains('\n')
                &&& (m.len() == 0 || !is_ws(m.last()))
            },
{
    lemma_lines_have_no_newline(s);
    let ms = trimmed_lines(s);
    assert forall|j: int| 0 <= j < ms.len() implies {
        let m = #[trigger] ms[j];
        &&& !m.contains('\n')
        &&& (m.len() == 0 || !is_ws(m.last()))
    } by {
        let l = lines(s)[j];
        lemma_trim_end_prefix(l);
        assert(ms[j] == trim_end(l));
        assert(!l.contains('\n'));
        if ms[j].contains('\n') {
            let k = choose|k: int| 0 <= k < ms[j].len() && ms[j][k] == '\n';
            assert(l[k] == '\n');
        }
    }
}

/// After trimming, no line ends in whitespace.
pub proof fn law_trimmed_lines_end_without_whitespace(s: Seq<char>)
    ensures
        forall|k: int|
            0 <= k < lines(trim_trailing_whitespace(s)).len() ==> {
                let l = #[trigger] lines(trim_trailing_whitespace(s))[k];
                l.len() == 0 || !is_ws(l.last())
            },
{
    let ms = trimmed_lines(s);
    lemma_trimmed_parts(s);
    lemma_lines_of_join(ms);
    assert forall|k: int| 0 <= k < lines(trim_trailing_whitespace(s)).len() implies {
        let l = #[trigger] lines(trim_trailing_whitespace(s))[k];
        l.len() == 0 || !is_ws(l.last())
    } by {
        lemma_lines_of_parts_members(ms, k);
        let j = choose|j: int|
            0 <= j < ms.len() && (lines_of_parts(ms)[k] == ms[j] || lines_of_parts(ms)[k] == strip_cr(
                #[trigger] ms[j],
            ));
        assert(strip_cr(ms[j]) == ms[j]);
    }
}

proof fn lemma_trim_start_split(s: Seq<char>)
    ensures
        ({
            let n = s.len() - trim_start(s).len();
            &&& 0 <= n <= s.len()
            &&& trim_start(s) == s.skip(n)
            &&& forall|k: int| 0 <= k < n ==> is_ws(#[trigger] s[k])
            &&& n < s.len() ==> !is_ws(s[n])
        }),
    decreases s.len(),
{
    if s.len() > 0 && is_ws(s[0]) {
        lemma_trim_start_split(s.drop_first());
        let n = s.len() - trim_start(s).len();
        assert(s.drop_first().skip(n - 1) =~= s.skip(n));
        assert forall|k: int| 0 <= k < n implies is_ws(#[trigger] s[k]) by {
            if k > 0 {
                assert(s[k] == s.drop_first()[k - 1]);
            }
        }
    } else {
        assert(s.skip(0) =~= s);
    }
}

/// Dropping a final `'\r'` does not make a line a comment line.
proof fn lemma_strip_cr_keeps_comments(m: Seq<char>)
    requires
        is_comment_line(strip_cr(m)),
    ensures
        is_comment_line(m),
{
    if m.len() > 0 && m.last() == '\r' {
        let x = m.drop_last();
        reveal_strlit("//");
        lemma_trim_start_split(x);
        let n = x.len() - trim_start(x).len();
        assert(n < x.len());
        assert(!is_ws(x[n]));
        assert(m[n] == x[n]);
        assert forall|k: int| 0 <= k < n implies is_ws(m[k]) by {
            assert(m[k] == x[k]);
            assert(is_ws(x[k]));
        }
        lemma_trim_start_skip(m, n);
        assert(m.skip(n).subrange(0, 2) =~= x.skip(n).subrange(0, 2));
    }
}

proof fn lemma_non_comment_lines_members(ls: Seq<Seq<char>>)
    ensures
        forall|j: int|
            0 <= j < non_comment_lines(ls).len() ==> !is_comment_line(#[trigger] non_comment_lines(ls)[j])
                && ls.contains(non_comment_lines(ls)[j]),
    decreases ls.len(),
{
    if ls.len() > 0 {
        lemma_non_comment_lines_members(ls.drop_last());
        let r = non_comment_lines(ls);
        assert forall|j: int| 0 <= j < r.len() implies !is_comment_line(#[trigger] r[j]) && ls.contains(r[j]) by {
            let d = non_comment_lines(ls.drop_last());
            if j < d.len() {
                assert(r[j] == d[j]);
                assert(ls.drop_last().contains(d[j]));
                let i = choose|i: int| 0 <= i < ls.drop_last().len() && ls.drop_last()[i] == d[j];
                assert(ls[i] == d[j]);
            } else {
                assert(r[j] == ls.last());
                assert(ls[ls.len() - 1] == ls.last());
            }
        }
    }
}

/// After stripping comments, no line is a `//` comment line.
pub proof fn law_stripped_text_has_no_comment_line(s: Seq<char>)
    ensures
        forall|k: int|
            0 <= k < lines(strip_simple_line_comments(s)).len() ==> !is_comment_line(
                #[trigger] lines(strip_simple_line_comments(s))[k],
            ),
{
    let ms = non_comment_lines(lines(s));
    lemma_lines_have_no_newline(s);
    lemma_non_comment_lines_members(lines(s));
    assert forall|j: int| 0 <= j < ms.len() implies !(#[trigger] ms[j]).contains('\n') by {
        let i = choose|i: int| 0 <= i < lines(s).len() && lines(s)[i] == ms[j];
        assert(!lines(s)[i].contains('\n'));
    }
    lemma_lines_of_join(ms);
    assert forall|k: int| 0 <= k < lines(strip_simple_line_comments(s)).len() implies !is_comment_line(
        #[trigger] lines(strip_simple_line_comments(s))[k],
    ) by {
        lemma_lines_of_parts_members(ms, k);
        let j = choose|j: int|
            0 <= j < ms.len() && (lines_of_parts(ms)[k] == ms[j] || lines_of_parts(ms)[k] == strip_cr(
                #[trigger] ms[j],
            ));
        if is_comment_line(strip_cr(ms[j])) {
            lemma_strip_cr_keeps_comments(ms[j]);
        }
    }
}

/// Four line breaks in a row start at `i`.
pub open spec fn four_breaks_at(o: Seq<char>, i: int) -> bool {
    0 <= i && i + 4 <= o.len() && o[i] == '\n' && o[i + 1] == '\n' && o[i + 2] == '\n' && o[i + 3]
        == '\n'
}

/// The text starts with `n` line breaks.
pub open spec fn starts_with_breaks(o: Seq<char>, n: int) -> bool {
    n <= o.len() && forall|j: int| 0 <= j < n ==> #[trigger] o[j] == '\n'
}

proof fn lemma_collapse_runs(ls: Seq<Seq<char>>, b: nat)
    requires
        b <= 2,
        forall|k: int| 0 <= k < ls.len() ==> !(#[trigger] ls[k]).contains('\n'),
    ensures
        forall|i: int| !four_breaks_at(#[trigger] collapse_from(ls, b), i),
        !starts_with_breaks(collapse_from(ls, b), 3 - b),
    decreases ls.len(),
{
    let o = collapse_from(ls, b);
    if ls.len() > 0 {
        let rest = ls.drop_first();
        assert forall|k: int| 0 <= k < rest.len() implies !(#[trigger] rest[k]).contains('\n') by {
            assert(rest[k] == ls[k + 1]);
        }
        if is_blank(ls[0]) {
            if b < 2 {
                lemma_collapse_runs(rest, b + 1);
                let t = collapse_from(rest, b + 1);
                assert(o == seq!['\n'] + t);
                assert forall|i: int| !four_breaks_at(o, i) by {
                    if four_breaks_at(o, i) {
                        if i == 0 {
                            assert(starts_with_breaks(t, 3 - (b + 1))) by {
                                assert forall|j: int| 0 <= j < 3 - (b + 1) implies #[trigger] t[j] == '\n' by {
                                    assert(t[j] == o[j + 1]);
                                }
                            }
                        } else {
                            assert(four_breaks_at(t, i - 1)) by {
                                assert(t[i - 1] == o[i]);
                                assert(t[i] == o[i + 1]);
                                assert(t[i + 1] == o[i + 2]);
                                assert(t[i + 2] == o[i + 3]);
                            }
                        }
                    }
                }
                if starts_with_breaks(o, 3 - b) {
                    assert(starts_with_breaks(t, 3 - (b + 1))) by {
                        assert forall|j: int| 0 <= j < 3 - (b + 1) implies #[trigger] t[j] == '\n' by {
                            assert(t[j] == o[j + 1]);
                        }
                    }
                }
            } else {
                lemma_collapse_runs(rest, 2);
                assert(o =~= collapse_from(rest, 2));
            }
        } else {
            lemma_collapse_runs(rest, 0);
            let l = ls[0];
            let t = collapse_from(rest, 0);
            assert(o == l + seq!['\n'] + t);
            assert(l.len() > 0);
            assert(!l.contains('\n'));
            assert(o[0] == l[0]);
            assert(l[0] != '\n') by {
                if l[0] == '\n' {
                    assert(l.contains('\n'));
                }
            }
            assert forall|i: int| !four_breaks_at(o, i) by {
                if four_breaks_at(o, i) {
                    if i < l.len() {
                        assert(o[i] == l[i]);
                        assert(l.contains('\n'));
                    } else if i == l.len() {
                        assert(starts_with_breaks(t, 3)) by {
                            assert forall|j: int| 0 <= j < 3 implies #[trigger] t[j] == '\n' by {
                                assert(t[j] == o[l.len() + 1 + j]);
                            }
                        }
                    } else {
                        let d = i - l.len() - 1;
                        assert(four_breaks_at(t, d)) by {
                            assert(t[d] == o[i]);
                            assert(t[d + 1] == o[i + 1]);
                            assert(t[d + 2] == o[i + 2]);
                            assert(t[d + 3] == o[i + 3]);
                        }
                    }
                }
            }
        }
    }
}

/// Collapsing blank lines leaves no four line breaks in a row: at most two
/// empty lines separate the lines that remain.
pub proof fn law_collapsed_text_has_no_long_gaps(s: Seq<char>)
    ensures
        forall|i: int| !four_breaks_at(#[trigger] collapse_blank_lines(s), i),
{
    lemma_lines_have_no_newline(s);
    lemma_collapse_runs(lines(s), 0);
    lemma_trim_end_newlines_prefix(collapse_from(lines(s), 0));
    let o = collapse_from(lines(s), 0);
    let p = collapse_blank_lines(s);
    assert forall|i: int| !four_breaks_at(p, i) by {
        if four_breaks_at(p, i) {
            assert(four_breaks_at(o, i)) by {
                assert(p[i] == o[i]);
                assert(p[i + 1] == o[i + 1]);
                assert(p[i + 2] == o[i + 2]);
                assert(p[i + 3] == o[i + 3]);
            }
        }
    }
}

proof fn lemma_trim_end_newlines_prefix(s: Seq<char>)
    ensures
        trim_end_newlines(s).len() <= s.len(),
        trim_end_newlines(s) == s.take(trim_end_newlines(s).len() as int),
    decreases s.len(),
{
    if s.len() > 0 && s.last() == '\n' {
        lemma_trim_end_newlines_prefix(s.drop_last());
        assert(s.drop_last().take(trim_end_newlines(s).len() as int) =~= s.take(
            trim_end_newlines(s).len() as int,
        ));
    } else {
        assert(s.take(s.len() as int) =~= s);
    }
}

// ---------------------------------------------------------------------------
// Cleaning twice
// ---------------------------------------------------------------------------

/// The lines `collapse_from` writes, each followed by a line break.
pub open spec fn collapse_list(ls: Seq<Seq<char>>, blanks: nat) -> Seq<Seq<char>>
    decreases ls.len(),
{
    if ls.len() == 0 {
        Seq::empty()
    } else if is_blank(ls[0]) {
        if blanks < 2 {
            seq![Seq::<char>::empty()] + collapse_list(ls.drop_first(), blanks + 1)
        } else {
            collapse_list(ls.drop_first(), 2)
        }
    } else {
        seq![ls[0]] + collapse_list(ls.drop_first(), 0)
    }
}

/// Each line followed by a line break.
pub open spec fn terminated(ks: Seq<Seq<char>>) -> Seq<char>
    decreases ks.len(),
{
    if ks.len() == 0 {
        Seq::empty()
    } else {
        ks[0] + seq!['\n'] + terminated(ks.drop_first())
    }
}

/// The lines without the empty lines at their end.
pub open spec fn drop_trailing_empty(ks: Seq<Seq<char>>) -> Seq<Seq<char>>
    decreases ks.len(),
{
    if ks.len() > 0 && ks.last().len() == 0 {
        drop_trailing_empty(ks.drop_last())
    } else {
        ks
    }
}

/// Blank lines are empty and come at most two in a row (fewer when
/// `blanks` of them precede the lines).
pub open spec fn blank_runs_short(ls: Seq<Seq<char>>, blanks: nat) -> bool
    decreases ls.len(),
{
    if ls.len() == 0 {
        true
    } else if is_blank(ls[0]) {
        ls[0].len() == 0 && blanks < 2 && blank_runs_short(ls.drop_first(), blanks + 1)
    } else {
        blank_runs_short(ls.drop_first(), 0)
    }
}

/// No line holds the character.
pub open spec fn lines_avoid(ls: Seq<Seq<char>>, c: char) -> bool {
    forall|k: int| 0 <= k < ls.len() ==> !(#[trigger] ls[k]).contains(c)
}

/// Every line is trimmed at its end.
pub open spec fn lines_trimmed(ls: Seq<Seq<char>>) -> bool {
    forall|k: int| 0 <= k < ls.len() ==> trim_end(#[trigger] ls[k]) == ls[k]
}

proof fn lemma_collapse_from_terminated(ls: Seq<Seq<char>>, b: nat)
    ensures
        collapse_from(ls, b) == terminated(collapse_list(ls, b)),
    decreases ls.len(),
{
    if ls.len() > 0 {
        let rest = ls.drop_first();
        if is_blank(ls[0]) {
            if b < 2 {
                lemma_collapse_from_terminated(rest, b + 1);
                let k = seq![Seq::<char>::empty()] + collapse_list(rest, b + 1);
                assert(k[0] =~= Seq::<char>::empty());
                assert(k.drop_first() =~= collapse_list(rest, b + 1));
                assert(terminated(k) =~= seq!['\n'] + terminated(collapse_list(rest, b + 1)));
            } else {
                lemma_collapse_from_terminated(rest, 2);
            }
        } else {
            lemma_collapse_from_terminated(rest, 0);
            let k = seq![ls[0]] + collapse_list(rest, 0);
            assert(k[0] == ls[0]);
            assert(k.drop_first() =~= collapse_list(rest, 0));
        }
    }
}

proof fn lemma_collapse_list_members(ls: Seq<Seq<char>>, b: nat, c: char)
    requires
        lines_avoid(ls, c),
        lines_trimmed(ls),
    ensures
        lines_avoid(collapse_list(ls, b), c),
        lines_trimmed(collapse_list(ls, b)),
    decreases ls.len(),
{
    if ls.len() > 0 {
        let rest = ls.drop_first();
        assert forall|k: int| 0 <= k < rest.len() implies !(#[trigger] rest[k]).contains(c) by {
            assert(rest[k] == ls[k + 1]);
        }
        assert forall|k: int| 0 <= k < rest.len() implies trim_end(#[trigger] rest[k]) == rest[k] by {
            assert(rest[k] == ls[k + 1]);
        }
        let nb: nat = if is_blank(ls[0]) {
            if b < 2 {
                b + 1
            } else {
                2
            }
        } else {
            0
        };
        lemma_collapse_list_members(rest, nb, c);
        let t = collapse_list(rest, nb);
        let r = collapse_list(ls, b);
        let e = Seq::<char>::empty();
        assert(!e.contains(c));
        assert(trim_end(e) == e);
        assert forall|k: int| 0 <= k < r.len() implies !(#[trigger] r[k]).contains(c) && trim_end(
            r[k],
        ) == r[k] by {
            if is_blank(ls[0]) && b >= 2 {
                assert(r[k] == t[k]);
            } else if k == 0 {
                if is_blank(ls[0]) {
                    assert(r[0] =~= e);
                } else {
                    assert(r[0] == ls[0]);
                }
            } else {
                assert(r[k] == t[k - 1]);
            }
        }
    }
}

proof fn lemma_collapse_list_runs(ls: Seq<Seq<char>>, b: nat)
    requires
        b <= 2,
    ensures
        blank_runs_short(collapse_list(ls, b), b),
    decreases ls.len(),
{
    if ls.len() > 0 {
        let rest = ls.drop_first();
        if is_blank(ls[0]) {
            if b < 2 {
                lemma_collapse_list_runs(rest, b + 1);
                let k = seq![Seq::<char>::empty()] + collapse_list(rest, b + 1);
                assert(k.drop_first() =~= collapse_list(rest, b + 1));
                assert(is_blank(k[0]));
            } else {
                lemma_collapse_list_runs(rest, 2);
            }
        } else {
            lemma_collapse_list_runs(rest, 0);
            let k = seq![ls[0]] + collapse_list(rest, 0);
            assert(k.drop_first() =~= collapse_list(rest, 0));
            assert(k[0] == ls[0]);
        }
    }
}

proof fn lemma_collapse_list_of_short_runs(ls: Seq<Seq<char>>, b: nat)
    requires
        blank_runs_short(ls, b),
    ensures
        collapse_list(ls, b) == ls,
    decreases ls.len(),
{
    if ls.len() > 0 {
        let rest = ls.drop_first();
        if is_blank(ls[0]) {
            lemma_collapse_list_of_short_runs(rest, b + 1);
            assert(ls[0] =~= Seq::<char>::empty());
        } else {
            lemma_collapse_list_of_short_runs(rest, 0);
        }
        assert(seq![ls[0]] + rest =~= ls);
    }
}

proof fn lemma_blank_runs_drop_last(ls: Seq<Seq<char>>, b: nat)
    requires
        blank_runs_short(ls, b),
        ls.len() > 0,
    ensures
        blank_runs_short(ls.drop_last(), b),
    decreases ls.len(),
{
    if ls.len() > 1 {
        let rest = ls.drop_first();
        assert(ls.drop_last().drop_first() =~= rest.drop_last());
        assert(ls.drop_last()[0] == ls[0]);
        if is_blank(ls[0]) {
            lemma_blank_runs_drop_last(rest, b + 1);
        } else {
            lemma_blank_runs_drop_last(rest, 0);
        }
    }
}

proof fn lemma_drop_trailing_empty(ks: Seq<Seq<char>>, b: nat, c: char)
    requires
        blank_runs_short(ks, b),
        lines_avoid(ks, c),
        lines_trimmed(ks),
    ensures
        blank_runs_short(drop_trailing_empty(ks), b),
        lines_avoid(drop_trailing_empty(ks), c),
        lines_trimmed(drop_trailing_empty(ks)),
        drop_trailing_empty(ks).len() == 0 || drop_trailing_empty(ks).last().len() > 0,
        drop_trailing_empty(ks).len() <= ks.len(),
        drop_trailing_empty(ks) == ks.take(drop_trailing_empty(ks).len() as int),
    decreases ks.len(),
{
    if ks.len() > 0 && ks.last().len() == 0 {
        let d = ks.drop_last();
        lemma_blank_runs_drop_last(ks, b);
        assert forall|k: int| 0 <= k < d.len() implies !(#[trigger] d[k]).contains(c) && trim_end(d[k])
            == d[k] by {
            assert(d[k] == ks[k]);
        }
        lemma_drop_trailing_empty(d, b, c);
        assert(d.take(drop_trailing_empty(ks).len() as int) =~= ks.take(
            drop_trailing_empty(ks).len() as int,
        ));
    } else {
        assert(ks.take(ks.len() as int) =~= ks);
    }
}

proof fn lemma_join_last(ks: Seq<Seq<char>>, sep: Seq<char>)
    requires
        ks.len() > 0,
    ensures
        ks.last().len() > 0 ==> join(ks, sep).len() > 0 && join(ks, sep).last() == ks.last().last(),
{
    if ks.len() == 1 {
        assert(ks.last() == ks[0]);
    }
}

proof fn lemma_terminated_join(ks: Seq<Seq<char>>)
    ensures
        ks.len() > 0 ==> terminated(ks) == join(ks, seq!['\n']) + seq!['\n'],
        ks.len() == 0 ==> terminated(ks) == Seq::<char>::empty(),
    decreases ks.len(),
{
    if ks.len() > 0 {
        let rest = ks.drop_first();
        lemma_terminated_join(rest);
        if rest.len() == 0 {
            assert(join(ks, seq!['\n']) == ks[0]);
        } else {
            lemma_join_front(ks, seq!['\n']);
            assert(ks[0] + seq!['\n'] + (join(rest, seq!['\n']) + seq!['\n']) =~= ks[0] + seq!['\n']
                + join(rest, seq!['\n']) + seq!['\n']);
        }
    }
}

proof fn lemma_trim_end_newlines_terminated(ks: Seq<Seq<char>>)
    requires
        lines_avoid(ks, '\n'),
    ensures
        trim_end_newlines(terminated(ks)) == join(drop_trailing_empty(ks), seq!['\n']),
    decreases ks.len(),
{
    lemma_terminated_join(ks);
    if ks.len() > 0 {
        let x = join(ks, seq!['\n']);
        let t = x + seq!['\n'];
        assert(t.drop_last() =~= x);
        assert(t.last() == '\n');
        assert(trim_end_newlines(t) == trim_end_newlines(x));
        if ks.last().len() > 0 {
            lemma_join_last(ks, seq!['\n']);
            assert(!ks[ks.len() - 1].contains('\n'));
            assert(ks.last()[ks.last().len() - 1] != '\n') by {
                if ks.last()[ks.last().len() - 1] == '\n' {
                    assert(ks[ks.len() - 1].contains('\n'));
                }
            }
            assert(trim_end_newlines(x) == x);
            assert(drop_trailing_empty(ks) == ks);
        } else {
            let d = ks.drop_last();
            assert(drop_trailing_empty(ks) == drop_trailing_empty(d));
            assert forall|k: int| 0 <= k < d.len() implies !(#[trigger] d[k]).contains('\n') by {
                assert(d[k] == ks[k]);
            }
            lemma_trim_end_newlines_terminated(d);
            lemma_terminated_join(d);
            if d.len() == 0 {
                assert(x == ks[0]);
                assert(x =~= Seq::<char>::empty());
                assert(trim_end_newlines(x) == x);
                assert(drop_trailing_empty(d) == d);
            } else {
                assert(x == join(d, seq!['\n']) + seq!['\n'] + ks.last());
                assert(x =~= join(d, seq!['\n']) + seq!['\n']);
                assert(x == terminated(d));
            }
        }
    }
}

proof fn lemma_lines_of_parts_plain(ks: Seq<Seq<char>>)
    requires
        lines_avoid(ks, '\r'),
    ensures
        lines_of_parts(ks) == if ks.len() > 0 && ks.last().len() == 0 {
            ks.drop_last()
        } else {
            ks
        },
    decreases ks.len(),
{
    if ks.len() == 1 {
        if ks[0].len() > 0 {
            assert(seq![ks[0]] =~= ks);
        } else {
            assert(ks.drop_last() =~= Seq::<Seq<char>>::empty());
        }
    } else if ks.len() >= 2 {
        let rest = ks.drop_first();
        assert forall|k: int| 0 <= k < rest.len() implies !(#[trigger] rest[k]).contains('\r') by {
            assert(rest[k] == ks[k + 1]);
        }
        lemma_lines_of_parts_plain(rest);
        assert(!ks[0].contains('\r'));
        if ks[0].len() > 0 && ks[0].last() == '\r' {
            assert(ks[0].contains('\r'));
        }
        assert(rest.last() == ks.last());
        if ks.last().len() == 0 {
            assert(seq![ks[0]] + rest.drop_last() =~= ks.drop_last());
        } else {
            assert(seq![ks[0]] + rest =~= ks);
        }
    }
}

proof fn lemma_join_avoids(ks: Seq<Seq<char>>, c: char)
    requires
        lines_avoid(ks, c),
        c != '\n',
    ensures
        !join(ks, seq!['\n']).contains(c),
    decreases ks.len(),
{
    if ks.len() >= 2 {
        let d = ks.drop_last();
        assert forall|k: int| 0 <= k < d.len() implies !(#[trigger] d[k]).contains(c) by {
            assert(d[k] == ks[k]);
        }
        lemma_join_avoids(d, c);
        let j = join(ks, seq!['\n']);
        let a = join(d, seq!['\n']);
        assert(!ks[ks.len() - 1].contains(c));
        if j.contains(c) {
            let i = choose|i: int| 0 <= i < j.len() && j[i] == c;
            if i < a.len() {
                assert(j[i] == a[i]);
            } else if i > a.len() {
                assert(j[i] == ks.last()[i - a.len() - 1]);
            }
        }
    } else if ks.len() == 1 {
        assert(!ks[0].contains(c));
    }
}

proof fn lemma_normalize_plain(s: Seq<char>)
    requires
        !s.contains('\r'),
    ensures
        normalize_newlines(s) == s,
    decreases s.len(),
{
    if s.len() > 0 {
        assert(s[0] != '\r');
        assert(!s.skip(1).contains('\r')) by {
            if s.skip(1).contains('\r') {
                let t = s.skip(1);
                let i = choose|i: int| 0 <= i < t.len() && #[trigger] t[i] == '\r';
                assert(s[i + 1] == '\r');
            }
        }
        lemma_normalize_plain(s.skip(1));
        assert(seq![s[0]] + s.skip(1) =~= s);
    }
}

proof fn lemma_lines_avoid(s: Seq<char>, c: char)
    requires
        !s.contains(c),
    ensures
        lines_avoid(lines(s), c),
    decreases s.len(),
{
    if s.len() > 0 {
        lemma_index_of_bounds(s, '\n');
        let i = index_of(s, '\n');
        if i >= 0 {
            let t = s.skip(i + 1);
            assert(!t.contains(c)) by {
                if t.contains(c) {
                    let k = choose|k: int| 0 <= k < t.len() && #[trigger] t[k] == c;
                    assert(s[i + 1 + k] == c);
                }
            }
            lemma_lines_avoid(s.skip(i + 1), c);
            let first = strip_cr(s.take(i));
            assert(!first.contains(c)) by {
                if first.contains(c) {
                    let k = choose|k: int| 0 <= k < first.len() && first[k] == c;
                    assert(s[k] == c);
                }
            }
            assert forall|k: int| 0 <= k < lines(s).len() implies !(#[trigger] lines(s)[k]).contains(c) by {
                if k > 0 {
                    assert(lines(s)[k] == lines(s.skip(i + 1))[k - 1]);
                }
            }
        }
    }
}

/// The lines of trimmed text, when the text held no carriage return: they
/// hold neither a line break nor a carriage return, and are trimmed.
proof fn lemma_trimmed_text_lines(s: Seq<char>)
    requires
        !s.contains('\r'),
    ensures
        lines_avoid(lines(trim_trailing_whitespace(s)), '\n'),
        lines_avoid(lines(trim_trailing_whitespace(s)), '\r'),
        lines_trimmed(lines(trim_trailing_whitespace(s))),
{
    let ms = trimmed_lines(s);
    lemma_trimmed_parts(s);
    lemma_lines_avoid(s, '\r');
    lemma_lines_of_join(ms);
    let ls = lines(trim_trailing_whitespace(s));
    assert forall|k: int| 0 <= k < ls.len() implies !(#[trigger] ls[k]).contains('\n') && !ls[k].contains(
        '\r',
    ) && trim_end(ls[k]) == ls[k] by {
        lemma_lines_of_parts_members(ms, k);
        let j = choose|j: int|
            0 <= j < ms.len() && (lines_of_parts(ms)[k] == ms[j] || lines_of_parts(ms)[k] == strip_cr(
                #[trigger] ms[j],
            ));
        assert(strip_cr(ms[j]) == ms[j]);
        let l = lines(s)[j];
        assert(!l.contains('\r'));
        lemma_trim_end_prefix(l);
        if ms[j].contains('\r') {
            let i = choose|i: int| 0 <= i < ms[j].len() && ms[j][i] == '\r';
            assert(l[i] == '\r');
        }
        lemma_trim_end_prefix(ms[j]);
        if ms[j].len() > 0 {
            assert(!is_ws(ms[j].last()));
            assert(trim_end(ms[j]) == ms[j]);
        }
    }
}

/// The text after collapsing its blank lines, as lines joined by breaks.
proof fn lemma_collapsed_shape(x: Seq<char>)
    requires
        lines_avoid(lines(x), '\n'),
        lines_avoid(lines(x), '\r'),
        lines_trimmed(lines(x)),
    ensures
        ({
            let k = drop_trailing_empty(collapse_list(lines(x), 0));
            &&& collapse_blank_lines(x) == join(k, seq!['\n'])
            &&& blank_runs_short(k, 0)
            &&& lines_avoid(k, '\n')
            &&& lines_avoid(k, '\r')
            &&& lines_trimmed(k)
            &&& (k.len() == 0 || k.last().len() > 0)
        }),
{
    let cl = collapse_list(lines(x), 0);
    lemma_collapse_from_terminated(lines(x), 0);
    lemma_collapse_list_members(lines(x), 0, '\n');
    lemma_collapse_list_members(lines(x), 0, '\r');
    lemma_collapse_list_runs(lines(x), 0);
    lemma_trim_end_newlines_terminated(cl);
    lemma_drop_trailing_empty(cl, 0, '\n');
    lemma_drop_trailing_empty(cl, 0, '\r');
}

/// The test attribute at line `i` marks a `fn` or `mod` item, which test
/// stripping would remove.
pub open spec fn marks_test_item(ls: Seq<Seq<char>>, i: int) -> bool {
    let j = attr_run_end(ls, i + 1);
    &&& is_rust_test_attr(trim_start(ls[i]))
    &&& j < ls.len()
    &&& (contains(ls[j], "fn "@) || contains(ls[j], "mod "@))
}

/// No test attribute marks a `fn` or `mod` item.
pub open spec fn tests_unmarked(ls: Seq<Seq<char>>) -> bool {
    forall|i: int| 0 <= i < ls.len() ==> !#[trigger] marks_test_item(ls, i)
}

proof fn lemma_starts_with_trans(t: Seq<char>, p: Seq<char>, q: Seq<char>)
    requires
        starts_with(t, p),
        starts_with(p, q),
    ensures
        starts_with(t, q),
{
    assert(t.subrange(0, q.len() as int) =~= t.subrange(0, p.len() as int).subrange(0, q.len() as int));
}

/// A test attribute is an attribute.
proof fn lemma_test_attr_is_attr(t: Seq<char>)
    requires
        is_rust_test_attr(t),
    ensures
        starts_with(t, "#["@),
{
    reveal_strlit("#[");
    reveal_strlit("#[test");
    reveal_strlit("#[tokio::test");
    reveal_strlit("#[wasm_bindgen_test");
    reveal_strlit("#[rstest");
    reveal_strlit("#[cfg(test");
    assert("#[test"@.subrange(0, 2) =~= "#["@);
    assert("#[tokio::test"@.subrange(0, 2) =~= "#["@);
    assert("#[wasm_bindgen_test"@.subrange(0, 2) =~= "#["@);
    assert("#[rstest"@.subrange(0, 2) =~= "#["@);
    assert("#[cfg(test"@.subrange(0, 2) =~= "#["@);
    if starts_with(t, "#[test"@) {
        lemma_starts_with_trans(t, "#[test"@, "#["@);
    } else if starts_with(t, "#[tokio::test"@) {
        lemma_starts_with_trans(t, "#[tokio::test"@, "#["@);
    } else if starts_with(t, "#[wasm_bindgen_test"@) {
        lemma_starts_with_trans(t, "#[wasm_bindgen_test"@, "#["@);
    } else if starts_with(t, "#[rstest"@) {
        lemma_starts_with_trans(t, "#[rstest"@, "#["@);
    } else {
        lemma_starts_with_trans(t, "#[cfg(test"@, "#["@);
    }
}

proof fn lemma_blank_trims_to_empty(s: Seq<char>)
    requires
        is_blank(s),
    ensures
        trim_start(s).len() == 0,
    decreases s.len(),
{
    if s.len() > 0 {
        assert(is_ws(s[0]));
        let d = s.drop_first();
        assert forall|k: int| 0 <= k < d.len() implies is_ws(#[trigger] d[k]) by {
            assert(d[k] == s[k + 1]);
        }
        lemma_blank_trims_to_empty(d);
    }
}

/// An attribute line is not blank.
proof fn lemma_attr_not_blank(l: Seq<char>)
    requires
        starts_with(trim_start(l), "#["@),
    ensures
        !is_blank(l),
{
    reveal_strlit("#[");
    if is_blank(l) {
        lemma_blank_trims_to_empty(l);
    }
}

/// The empty line is no attribute and names no item.
proof fn lemma_empty_line_plain()
    ensures
        !starts_with(trim_start(Seq::<char>::empty()), "#["@),
        !is_rust_test_attr(trim_start(Seq::<char>::empty())),
        !contains(Seq::<char>::empty(), "fn "@),
        !contains(Seq::<char>::empty(), "mod "@),
{
    reveal_strlit("#[");
    reveal_strlit("fn ");
    reveal_strlit("mod ");
    let e = Seq::<char>::empty();
    assert(trim_start(e) == e);
    if is_rust_test_attr(e) {
        lemma_test_attr_is_attr(e);
    }
    assert forall|i: int| !#[trigger] occurs_at(e, "fn "@, i) by {}
    assert forall|i: int| !#[trigger] occurs_at(e, "mod "@, i) by {}
}

proof fn lemma_attr_run_end_shift(a: Seq<Seq<char>>, b: Seq<Seq<char>>, k: int)
    requires
        0 <= k,
    ensures
        attr_run_end(a + b, a.len() + k) == a.len() + attr_run_end(b, k),
    decreases b.len() - k,
{
    if k < b.len() {
        assert((a + b)[a.len() + k] == b[k]);
        if starts_with(trim_start(b[k]), "#["@) {
            lemma_attr_run_end_shift(a, b, k + 1);
        }
    }
}

proof fn lemma_attr_run_end_run(ls: Seq<Seq<char>>, k: int)
    requires
        0 <= k <= ls.len(),
    ensures
        k <= attr_run_end(ls, k) <= ls.len(),
        forall|q: int| k <= q < attr_run_end(ls, k) ==> starts_with(trim_start(#[trigger] ls[q]), "#["@),
        attr_run_end(ls, k) == ls.len() || !starts_with(trim_start(ls[attr_run_end(ls, k)]), "#["@),
    decreases ls.len() - k,
{
    if k < ls.len() && starts_with(trim_start(ls[k]), "#["@) {
        lemma_attr_run_end_run(ls, k + 1);
    }
}

proof fn lemma_attr_run_end_at(s: Seq<Seq<char>>, k: int, m: int)
    requires
        0 <= k <= m <= s.len(),
        forall|q: int| k <= q < m ==> starts_with(trim_start(#[trigger] s[q]), "#["@),
        m == s.len() || !starts_with(trim_start(s[m]), "#["@),
    ensures
        attr_run_end(s, k) == m,
    decreases m - k,
{
    if k < m {
        lemma_attr_run_end_at(s, k + 1, m);
    }
}

proof fn lemma_marks_in_suffix(a: Seq<Seq<char>>, b: Seq<Seq<char>>, p: int)
    requires
        0 <= p < b.len(),
    ensures
        marks_test_item(a + b, a.len() + p) == marks_test_item(b, p),
{
    lemma_attr_run_end_shift(a, b, p + 1);
    lemma_attr_run_end_bounds(b, p + 1);
    assert((a + b)[a.len() + p] == b[p]);
    let j = attr_run_end(b, p + 1);
    if j < b.len() {
        assert((a + b)[a.len() + j] == b[j]);
    }
}

/// Where no test attribute marks an item, stripping tests keeps every line.
proof fn lemma_strip_unmarked(ls: Seq<Seq<char>>, i: int)
    requires
        0 <= i <= ls.len(),
        tests_unmarked(ls),
    ensures
        strip_tests_from(ls, i) == ls.skip(i),
    decreases ls.len() - i,
{
    if i < ls.len() {
        if is_rust_test_attr(trim_start(ls[i])) {
            let j = attr_run_end(ls, i + 1);
            lemma_attr_run_end_bounds(ls, i + 1);
            assert(!marks_test_item(ls, i));
            lemma_strip_unmarked(ls, j);
            assert(ls.subrange(i, j) + ls.skip(j) =~= ls.skip(i));
        } else {
            lemma_strip_unmarked(ls, i + 1);
            assert(seq![ls[i]] + ls.skip(i + 1) =~= ls.skip(i));
        }
    } else {
        assert(ls.skip(i) =~= Seq::<Seq<char>>::empty());
    }
}

/// What test stripping keeps holds no test attribute that marks an item.
proof fn lemma_strip_output_unmarked(ls: Seq<Seq<char>>, i: int)
    requires
        0 <= i,
    ensures
        tests_unmarked(strip_tests_from(ls, i)),
    decreases ls.len() - i,
{
    let s = strip_tests_from(ls, i);
    if i < ls.len() {
        if is_rust_test_attr(trim_start(ls[i])) {
            let j = attr_run_end(ls, i + 1);
            lemma_attr_run_end_run(ls, i + 1);
            if j < ls.len() && (contains(ls[j], "fn "@) || contains(ls[j], "mod "@)) {
                let e = item_end(ls, j, j);
                lemma_item_end_bounds(ls, j, j);
                lemma_strip_output_unmarked(ls, e);
            } else {
                let a = ls.subrange(i, j);
                let t = strip_tests_from(ls, j);
                lemma_strip_output_unmarked(ls, j);
                assert(s == a + t);
                if j < ls.len() {
                    if is_rust_test_attr(trim_start(ls[j])) {
                        lemma_test_attr_is_attr(trim_start(ls[j]));
                    }
                    assert(t == seq![ls[j]] + strip_tests_from(ls, j + 1));
                    assert(s[a.len() as int] == ls[j]);
                } else {
                    assert(t.len() == 0);
                }
                assert forall|p: int| 0 <= p < s.len() implies !#[trigger] marks_test_item(s, p) by {
                    if p >= a.len() {
                        lemma_marks_in_suffix(a, t, p - a.len());
                        assert(!marks_test_item(t, p - a.len()));
                    } else {
                        assert forall|q: int| p + 1 <= q < a.len() implies starts_with(
                            trim_start(#[trigger] s[q]),
                            "#["@,
                        ) by {
                            assert(s[q] == ls[i + q]);
                        }
                        lemma_attr_run_end_at(s, p + 1, a.len() as int);
                    }
                }
            }
        } else {
            let a = seq![ls[i]];
            let t = strip_tests_from(ls, i + 1);
            lemma_strip_output_unmarked(ls, i + 1);
            assert(s == a + t);
            assert forall|p: int| 0 <= p < s.len() implies !#[trigger] marks_test_item(s, p) by {
                if p >= 1 {
                    lemma_marks_in_suffix(a, t, p - 1);
                    assert(!marks_test_item(t, p - 1));
                } else {
                    assert(s[0] == ls[i]);
                }
            }
        }
    }
}

proof fn lemma_attr_run_end_drop_last(ls: Seq<Seq<char>>, k: int)
    requires
        0 <= k,
        ls.len() > 0,
    ensures
        attr_run_end(ls.drop_last(), k) == if attr_run_end(ls, k) < ls.len() - 1 {
            attr_run_end(ls, k)
        } else {
            ls.len() - 1
        },
    decreases ls.len() - k,
{
    let d = ls.drop_last();
    if k < d.len() {
        assert(d[k] == ls[k]);
        if starts_with(trim_start(ls[k]), "#["@) {
            lemma_attr_run_end_drop_last(ls, k + 1);
        }
    } else if k == d.len() {
        if starts_with(trim_start(ls[k]), "#["@) {
            assert(attr_run_end(ls, k + 1) == ls.len());
        }
    }
}

proof fn lemma_unmarked_drop_last(ls: Seq<Seq<char>>)
    requires
        tests_unmarked(ls),
        ls.len() > 0,
    ensures
        tests_unmarked(ls.drop_last()),
{
    let d = ls.drop_last();
    assert forall|i: int| 0 <= i < d.len() implies !#[trigger] marks_test_item(d, i) by {
        assert(!marks_test_item(ls, i));
        assert(d[i] == ls[i]);
        lemma_attr_run_end_drop_last(ls, i + 1);
        lemma_attr_run_end_bounds(ls, i + 1);
        let j = attr_run_end(ls, i + 1);
        if j < d.len() {
            assert(d[j] == ls[j]);
        }
    }
}

proof fn lemma_unmarked_drop_trailing_empty(ks: Seq<Seq<char>>)
    requires
        tests_unmarked(ks),
    ensures
        tests_unmarked(drop_trailing_empty(ks)),
    decreases ks.len(),
{
    if ks.len() > 0 && ks.last().len() == 0 {
        lemma_unmarked_drop_last(ks);
        lemma_unmarked_drop_trailing_empty(ks.drop_last());
    }
}

/// Collapsing keeps a leading run of attributes and the line after it (a
/// blank one as an empty line).
proof fn lemma_collapse_keeps_attr_run(ls: Seq<Seq<char>>)
    ensures
        attr_run_end(collapse_list(ls, 0), 0) == attr_run_end(ls, 0),
        attr_run_end(ls, 0) < ls.len() ==> attr_run_end(ls, 0) < collapse_list(ls, 0).len() && (
        collapse_list(ls, 0)[attr_run_end(ls, 0)] == ls[attr_run_end(ls, 0)] || collapse_list(
            ls,
            0,
        )[attr_run_end(ls, 0)].len() == 0),
        attr_run_end(ls, 0) >= ls.len() ==> collapse_list(ls, 0).len() == attr_run_end(ls, 0),
    decreases ls.len(),
{
    if ls.len() > 0 {
        let rest = ls.drop_first();
        let x = seq![ls[0]];
        let c = collapse_list(ls, 0);
        assert(x + rest =~= ls);
        if starts_with(trim_start(ls[0]), "#["@) {
            lemma_attr_not_blank(ls[0]);
            lemma_collapse_keeps_attr_run(rest);
            let cr = collapse_list(rest, 0);
            assert(c == x + cr);
            lemma_attr_run_end_shift(x, rest, 0);
            lemma_attr_run_end_shift(x, cr, 0);
            assert(c[0] == ls[0]);
            assert(attr_run_end(ls, 0) == attr_run_end(ls, 1));
            assert(attr_run_end(c, 0) == attr_run_end(c, 1));
            let m = attr_run_end(rest, 0);
            lemma_attr_run_end_bounds(rest, 0);
            if m < rest.len() {
                assert(c[1 + m] == cr[m]);
                assert(ls[1 + m] == rest[m]);
            }
        } else {
            lemma_empty_line_plain();
            if is_blank(ls[0]) {
                assert(c[0] == Seq::<char>::empty());
            } else {
                assert(c[0] == ls[0]);
            }
        }
    }
}

/// Collapsing blank lines keeps test attributes from marking items.
proof fn lemma_unmarked_collapse(ls: Seq<Seq<char>>, b: nat)
    requires
        tests_unmarked(ls),
    ensures
        tests_unmarked(collapse_list(ls, b)),
    decreases ls.len(),
{
    if ls.len() > 0 {
        let rest = ls.drop_first();
        let x = seq![ls[0]];
        assert(x + rest =~= ls);
        assert forall|p: int| 0 <= p < rest.len() implies !#[trigger] marks_test_item(rest, p) by {
            lemma_marks_in_suffix(x, rest, p);
            assert(!marks_test_item(ls, 1 + p));
        }
        let c = collapse_list(ls, b);
        if is_blank(ls[0]) {
            if b < 2 {
                let cr = collapse_list(rest, b + 1);
                lemma_unmarked_collapse(rest, b + 1);
                let e = seq![Seq::<char>::empty()];
                assert(c == e + cr);
                lemma_empty_line_plain();
                assert forall|p: int| 0 <= p < c.len() implies !#[trigger] marks_test_item(c, p) by {
                    if p >= 1 {
                        lemma_marks_in_suffix(e, cr, p - 1);
                        assert(!marks_test_item(cr, p - 1));
                    } else {
                        assert(c[0] == Seq::<char>::empty());
                    }
                }
            } else {
                lemma_unmarked_collapse(rest, 2);
            }
        } else {
            let cr = collapse_list(rest, 0);
            lemma_unmarked_collapse(rest, 0);
            assert(c == x + cr);
            assert forall|p: int| 0 <= p < c.len() implies !#[trigger] marks_test_item(c, p) by {
                if p >= 1 {
                    lemma_marks_in_suffix(x, cr, p - 1);
                    assert(!marks_test_item(cr, p - 1));
                } else {
                    assert(c[0] == ls[0]);
                }
                if p == 0 && is_rust_test_attr(trim_start(ls[0])) {
                    assert(!marks_test_item(ls, 0));
                    lemma_collapse_keeps_attr_run(rest);
                    lemma_attr_run_end_shift(x, rest, 0);
                    lemma_attr_run_end_shift(x, cr, 0);
                    lemma_attr_run_end_bounds(rest, 0);
                    lemma_empty_line_plain();
                    let m = attr_run_end(rest, 0);
                    if m < rest.len() {
                        assert(c[1 + m] == cr[m]);
                        assert(ls[1 + m] == rest[m]);
                        if cr[m].len() == 0 {
                            assert(cr[m] =~= Seq::<char>::empty());
                        }
                    }
                }
            }
        }
    }
}

proof fn lemma_subsequence_members<A>(a: Seq<A>, b: Seq<A>, k: int)
    requires
        is_subsequence(a, b),
        0 <= k < a.len(),
    ensures
        exists|j: int| 0 <= j < b.len() && a[k] == #[trigger] b[j],
    decreases b.len(),
{
    if a[0] == b[0] && is_subsequence(a.drop_first(), b.drop_first()) {
        if k == 0 {
            assert(a[0] == b[0]);
        } else {
            lemma_subsequence_members(a.drop_first(), b.drop_first(), k - 1);
            let j = choose|j: int|
                0 <= j < b.drop_first().len() && a.drop_first()[k - 1] == #[trigger] b.drop_first()[j];
            assert(b.drop_first()[j] == b[j + 1]);
        }
    } else {
        lemma_subsequence_members(a, b.drop_first(), k);
        let j = choose|j: int| 0 <= j < b.drop_first().len() && a[k] == #[trigger] b.drop_first()[j];
        assert(b.drop_first()[j] == b[j + 1]);
    }
}

/// A second pass over text that is already clean: lines joined by breaks,
/// without carriage returns, trimmed, with short blank runs, no empty last
/// line, and (where tests are stripped) no test attribute marking an item.
proof fn lemma_second_pass(
    config: ScanConfig,
    k: Seq<Seq<char>>,
    language: Option<Seq<char>>,
    extension: Option<Seq<char>>,
)
    requires
        config.strip_rules.blank_lines,
        !config.strip_rules.comments,
        blank_runs_short(k, 0),
        lines_avoid(k, '\n'),
        lines_avoid(k, '\r'),
        lines_trimmed(k),
        k.len() == 0 || k.last().len() > 0,
        config.strip_rules.rust_inline_tests && extension == Some("rs"@) ==> tests_unmarked(k),
    ensures
        sanitized(config, join(k, seq!['\n']), language, extension) == (
            join(k, seq!['\n']),
            Seq::<Seq<char>>::empty(),
        ),
{
    let o = join(k, seq!['\n']);
    lemma_join_avoids(k, '\r');
    lemma_normalize_plain(o);
    lemma_lines_of_join(k);
    lemma_lines_of_parts_plain(k);
    assert(lines(o) == k);
    assert(trimmed_lines(o) =~= k);
    assert(trim_trailing_whitespace(o) == o);
    if config.strip_rules.rust_inline_tests && extension == Some("rs"@) {
        lemma_strip_unmarked(k, 0);
        assert(k.skip(0) =~= k);
        assert(strip_rust_test_blocks(o) == o);
    }
    lemma_collapse_from_terminated(k, 0);
    lemma_collapse_list_of_short_runs(k, 0);
    lemma_trim_end_newlines_terminated(k);
    if k.len() > 0 {
        assert(drop_trailing_empty(k) == k);
    }
    assert(collapse_blank_lines(o) == o);
}

/// Cleaning text a second time changes nothing and names no step, when
/// blank lines are collapsed and comments are kept.
pub proof fn law_cleaning_twice_changes_nothing(
    config: ScanConfig,
    content: Seq<char>,
    language: Option<Seq<char>>,
    extension: Option<Seq<char>>,
)
    requires
        config.strip_rules.blank_lines,
        !config.strip_rules.comments,
    ensures
        sanitized(config, sanitized(config, content, language, extension).0, language, extension) == (
            sanitized(config, content, language, extension).0,
            Seq::<Seq<char>>::empty(),
        ),
{
    let s1 = normalize_newlines(content);
    law_normalized_text_has_no_carriage_return(content);
    let s2 = trim_trailing_whitespace(s1);
    lemma_trimmed_text_lines(s1);
    let rust = config.strip_rules.rust_inline_tests && extension == Some("rs"@);
    let l = lines(s2);
    let s3 = if rust {
        strip_rust_test_blocks(s2)
    } else {
        s2
    };
    if rust {
        let st = strip_tests_from(l, 0);
        lemma_strip_tests_subsequence(l, 0);
        assert(l.skip(0) =~= l);
        assert forall|q: int| 0 <= q < st.len() implies !(#[trigger] st[q]).contains('\n') && !st[q].contains(
            '\r',
        ) && trim_end(st[q]) == st[q] by {
            lemma_subsequence_members(st, l, q);
            let j = choose|j: int| 0 <= j < l.len() && st[q] == #[trigger] l[j];
        }
        lemma_lines_of_join(st);
        lemma_lines_of_parts_plain(st);
        lemma_strip_output_unmarked(l, 0);
        if st.len() > 0 && st.last().len() == 0 {
            lemma_unmarked_drop_last(st);
            let d = st.drop_last();
            assert forall|q: int| 0 <= q < d.len() implies !(#[trigger] d[q]).contains('\n') && !d[q].contains(
                '\r',
            ) && trim_end(d[q]) == d[q] by {
                assert(d[q] == st[q]);
            }
        }
        assert(tests_unmarked(lines(s3)));
    }
    lemma_collapsed_shape(s3);
    let k = drop_trailing_empty(collapse_list(lines(s3), 0));
    if rust {
        lemma_unmarked_collapse(lines(s3), 0);
        lemma_unmarked_drop_trailing_empty(collapse_list(lines(s3), 0));
    }
    assert(sanitized(config, content, language, extension).0 == join(k, seq!['\n']));
    lemma_second_pass(config, k, language, extension);
}

/// Normalized text holds no carriage return.
pub proof fn law_normalized_text_has_no_carriage_return(s: Seq<char>)
    ensures
        !normalize_newlines(s).contains('\r'),
    decreases s.len(),
{
    if s.len() > 0 {
        if s[0] == '\r' && s.len() >= 2 && s[1] == '\n' {
            law_normalized_text_has_no_carriage_return(s.skip(2));
            assert(!(seq!['\n'] + normalize_newlines(s.skip(2))).contains('\r')) by {
                let t = seq!['\n'] + normalize_newlines(s.skip(2));
                assert forall|k: int| 0 <= k < t.len() implies t[k] != '\r' by {
                    if k > 0 {
                        assert(t[k] == normalize_newlines(s.skip(2))[k - 1]);
                    }
                }
            }
        } else {
            law_normalized_text_has_no_carriage_return(s.skip(1));
            let head = if s[0] == '\r' {
                '\n'
            } else {
                s[0]
            };
            let t = seq![head] + normalize_newlines(s.skip(1));
            assert forall|k: int| 0 <= k < t.len() implies t[k] != '\r' by {
                if k > 0 {
                    assert(t[k] == normalize_newlines(s.skip(1))[k - 1]);
                }
            }
            assert(normalize_newlines(s) == t);
        }
    }
}

// ---------------------------------------------------------------------------
// Executable steps
// ---------------------------------------------------------------------------

/// Every `"\r\n"` and every other `'\r'` becomes `'\n'`.
pub fn normalize_newline_chars(s: &[char]) -> (r: Vec<char>)
    ensures
        r@ == normalize_newlines(s@),
{
    let mut out: Vec<char> = Vec::new();
    let mut i: usize = 0;
    assert(s@.skip(0) =~= s@);
    assert(out@ + normalize_newlines(s@) =~= normalize_newlines(s@));
    while i < s.len()
        invariant
            i <= s.len(),
            normalize_newlines(s@) == out@ + normalize_newlines(s@.skip(i as int)),
        decreases s.len() - i,
    {
        let ghost rest = s@.skip(i as int);
        assert(rest[0] == s@[i as int]);
        if s[i] == '\r' {
            out.push('\n');
            if i + 1 < s.len() && s[i + 1] == '\n' {
                assert(rest[1] == s@[i + 1]);
                assert(rest.skip(2) =~= s@.skip(i + 2));
                i += 2;
            } else {
                assert(rest.skip(1) =~= s@.skip(i + 1));
                i += 1;
            }
        } else {
            out.push(s[i]);
            assert(rest.skip(1) =~= s@.skip(i + 1));
            i += 1;
        }
    }
    assert(s@.skip(i as int) =~= Seq::<char>::empty());
    assert(out@ + Seq::<char>::empty() =~= out@);
    out
}

/// Removes trailing whitespace from every line.
pub fn trim_trailing_whitespace_chars(s: &[char]) -> (r: Vec<char>)
    ensures
        r@ == trim_trailing_whitespace(s@),
{
    let ls = split_lines(s);
    let mut trimmed: Vec<Vec<char>> = Vec::new();
    let mut i: usize = 0;
    while i < ls.len()
        invariant
            i <= ls.len(),
            views(trimmed@) == views(ls@).take(i as int).map_values(|l: Seq<char>| trim_end(l)),
        decreases ls.len() - i,
    {
        let t = trim_end_chars(&ls[i]);
        let ghost before = trimmed@;
        trimmed.push(t);
        proof {
            lemma_views_push(before, t);
            assert(views(ls@).take(i + 1).map_values(|l: Seq<char>| trim_end(l)) =~= views(
                ls@,
            ).take(i as int).map_values(|l: Seq<char>| trim_end(l)).push(trim_end(ls@[i as int]@)));
        }
        i += 1;
    }
    assert(views(ls@).take(ls.len() as int) =~= views(ls@));
    let sep: Vec<char> = vec!['\n'];
    assert(sep@ == seq!['\n']);
    join_chars(&trimmed, &sep)
}

/// Whether a line is a `//` comment line.
fn comment_line(l: &[char]) -> (r: bool)
    ensures
        r == is_comment_line(l@),
{
    let t = trim_start_chars(l);
    starts_with_str(&t, "//")
}

/// Removes the lines whose first non-blank characters are `//`.
pub fn strip_simple_line_comments_chars(s: &[char]) -> (r: Vec<char>)
    ensures
        r@ == strip_simple_line_comments(s@),
{
    let ls = split_lines(s);
    let mut kept: Vec<Vec<char>> = Vec::new();
    let mut i: usize = 0;
    while i < ls.len()
        invariant
            i <= ls.len(),
            views(kept@) == non_comment_lines(views(ls@).take(i as int)),
        decreases ls.len() - i,
    {
        let ghost before = kept@;
        assert(views(ls@).take(i + 1).drop_last() =~= views(ls@).take(i as int));
        if !comment_line(&ls[i]) {
            let line = ls[i].clone();
            assert(line@ == ls@[i as int]@);
            kept.push(line);
            proof {
                lemma_views_push(before, line);
            }
        }
        i += 1;
    }
    assert(views(ls@).take(ls.len() as int) =~= views(ls@));
    let sep: Vec<char> = vec!['\n'];
    assert(sep@ == seq!['\n']);
    join_chars(&kept, &sep)
}

/// Shortens runs of blank lines to two empty lines and drops trailing newlines.
pub fn collapse_blank_lines_chars(s: &[char]) -> (r: Vec<char>)
    ensures
        r@ == collapse_blank_lines(s@),
{
    let ls = split_lines(s);
    let mut out: Vec<char> = Vec::new();
    let mut blanks: usize = 0;
    let mut i: usize = 0;
    assert(views(ls@).skip(0) =~= views(ls@));
    assert(out@ + collapse_from(views(ls@), 0) =~= collapse_from(views(ls@), 0));
    while i < ls.len()
        invariant
            i <= ls.len(),
            blanks <= 2,
            collapse_from(views(ls@), 0) == out@ + collapse_from(
                views(ls@).skip(i as int),
                blanks as nat,
            ),
        decreases ls.len() - i,
    {
        let ghost rest = views(ls@).skip(i as int);
        assert(rest[0] == ls@[i as int]@);
        assert(rest.drop_first() =~= views(ls@).skip(i + 1));
        if is_blank_chars(&ls[i]) {
            if blanks < 2 {
                out.push('\n');
                blanks += 1;
            } else {
                assert(out@ + Seq::<char>::empty() =~= out@);
            }
        } else {
            extend_chars(&mut out, &ls[i]);
            out.push('\n');
            blanks = 0;
        }
        i += 1;
    }
    assert(views(ls@).skip(ls.len() as int) =~= Seq::<Seq<char>>::empty());
    assert(out@ + Seq::<char>::empty() =~= out@);
    let mut n = out.len();
    assert(out@ =~= out@.take(out.len() as int));
    while n > 0 && out[n - 1] == '\n'
        invariant
            n <= out.len(),
            trim_end_newlines(out@) == trim_end_newlines(out@.take(n as int)),
        decreases n,
    {
        assert(out@.take(n as int).drop_last() =~= out@.take(n - 1));
        n -= 1;
    }
    assert(out@ =~= out@.take(out.len() as int));
    let mut r: Vec<char> = Vec::new();
    extend_chars(&mut r, &out[0..n]);
    assert(out@.subrange(0, n as int) =~= out@.take(n as int));
    r
}

fn rust_test_attr(t: &[char]) -> (r: bool)
    ensures
        r == is_rust_test_attr(t@),
{
    starts_with_str(t, "#[test") || starts_with_str(t, "#[tokio::test") || starts_with_str(
        t,
        "#[wasm_bindgen_test",
    ) || starts_with_str(t, "#[rstest") || starts_with_str(t, "#[cfg(test")
}

/// Numbers of `'{'` and `'}'` in a line.
fn count_braces(l: &[char]) -> (r: (usize, usize))
    ensures
        r.0 == count_char(l@, '{'),
        r.1 == count_char(l@, '}'),
{
    let mut opens: usize = 0;
    let mut closes: usize = 0;
    let mut i: usize = 0;
    while i < l.len()
        invariant
            i <= l.len(),
            opens == count_char(l@.take(i as int), '{'),
            closes == count_char(l@.take(i as int), '}'),
        decreases l.len() - i,
    {
        proof {
            lemma_count_char_pair_le(l@.take(i as int));
            assert(l@.take(i + 1).drop_last() =~= l@.take(i as int));
        }
        if l[i] == '{' {
            opens += 1;
        } else if l[i] == '}' {
            closes += 1;
        }
        i += 1;
    }
    assert(l@.take(l.len() as int) =~= l@);
    (opens, closes)
}

/// The end of the item that starts at line `j` (see `item_end`).
fn skip_rust_item(ls: &Vec<Vec<char>>, j: usize) -> (r: usize)
    requires
        j < ls.len(),
        total_len(views(ls@)) <= usize::MAX,
    ensures
        r as int == item_end(views(ls@), j as int, j as int),
{
    let ghost v = views(ls@);
    let mut opens: usize = 0;
    let mut closes: usize = 0;
    let mut k: usize = j;
    assert(v.subrange(j as int, j as int) =~= Seq::<Seq<char>>::empty());
    while k < ls.len()
        invariant
            j <= k <= ls.len(),
            v == views(ls@),
            total_len(v) <= usize::MAX,
            opens == count_in_lines(v.subrange(j as int, k as int), '{'),
            closes == count_in_lines(v.subrange(j as int, k as int), '}'),
            item_end(v, j as int, j as int) == item_end(v, j as int, k as int),
            forall|m: int| j <= m < k ==> !braces_closed(#[trigger] v.subrange(j as int, m + 1)),
        decreases ls.len() - k,
    {
        let (o, c) = count_braces(&ls[k]);
        let ghost seg = v.subrange(j as int, k + 1);
        proof {
            assert(seg.drop_last() =~= v.subrange(j as int, k as int));
            assert(seg.last() == ls@[k as int]@);
            lemma_braces_le(seg);
            lemma_total_len_subrange(v, j as int, k + 1);
        }
        opens = opens + o;
        closes = closes + c;
        if opens > 0 && opens <= closes {
            return k + 1;
        }
        k += 1;
    }
    ls.len()
}

/// Removes inline Rust test items (see `strip_tests_from`).
pub fn strip_rust_test_blocks_chars(s: &[char]) -> (r: Vec<char>)
    ensures
        r@ == strip_rust_test_blocks(s@),
{
    let ls = split_lines(s);
    let ghost v = views(ls@);
    proof {
        lemma_lines_total_len(s@);
        assert(s@.len() == s.len());
    }
    let mut out: Vec<Vec<char>> = Vec::new();
    let mut i: usize = 0;
    assert(views(out@) + strip_tests_from(v, 0) =~= strip_tests_from(v, 0));
    while i < ls.len()
        invariant
            i <= ls.len(),
            v == views(ls@),
            total_len(v) <= usize::MAX,
            strip_tests_from(v, 0) == views(out@) + strip_tests_from(v, i as int),
        decreases ls.len() - i,
    {
        let t = trim_start_chars(&ls[i]);
        if rust_test_attr(&t) {
            let start = i;
            let mut j = i + 1;
            proof {
                lemma_attr_run_end_bounds(v, j as int);
            }
            while j < ls.len() && starts_with_str(&trim_start_chars(&ls[j]), "#[")
                invariant
                    start < j <= ls.len(),
                    v == views(ls@),
                    attr_run_end(v, start + 1) == attr_run_end(v, j as int),
                decreases ls.len() - j,
            {
                j += 1;
            }
            if j < ls.len() && (contains_str(&ls[j], "fn ") || contains_str(&ls[j], "mod ")) {
                let e = skip_rust_item(&ls, j);
                proof {
                    lemma_item_end_bounds(v, j as int, j as int);
                }
                i = e;
                continue;
            }
            let ghost before = out@;
            let mut m = start;
            while m < j
                invariant
                    start <= m <= j <= ls.len(),
                    v == views(ls@),
                    views(out@) == views(before) + v.subrange(start as int, m as int),
                decreases j - m,
            {
                let line = ls[m].clone();
                let ghost b2 = out@;
                out.push(line);
                proof {
                    lemma_views_push(b2, line);
                    assert(v.subrange(start as int, m + 1) =~= v.subrange(start as int, m as int).push(
                        v[m as int],
                    ));
                }
                m += 1;
            }
            i = j;
        } else {
            let line = ls[i].clone();
            let ghost before = out@;
            out.push(line);
            proof {
                lemma_views_push(before, line);
                assert(views(before).push(line@) =~= views(before) + seq![v[i as int]]);
            }
            i += 1;
        }
    }
    assert(views(out@) + Seq::<Seq<char>>::empty() =~= views(out@));
    let sep: Vec<char> = vec!['\n'];
    assert(sep@ == seq!['\n']);
    join_chars(&out, &sep)
}

fn comment_language(lang: &str) -> (r: bool)
    ensures
        r == can_strip_comments(lang@),
{
    let l = chars_of(lang);
    eq_str(&l, "rust") || eq_str(&l, "typescript") || eq_str(&l, "typescriptreact") || eq_str(
        &l,
        "javascript",
    ) || eq_str(&l, "javascriptreact") || eq_str(&l, "go") || eq_str(&l, "java") || eq_str(&l, "c")
        || eq_str(&l, "cpp") || eq_str(&l, "cs")
}

/// Cleans a file's contents for the bundle and lists what was done.
pub fn sanitize_content(
    config: &ScanConfig,
    content: &str,
    classification: &FileClassification,
    candidate: &FileCandidate,
) -> (r: (String, Vec<String>))
    ensures
        (r.0@, string_views(r.1@)) == sanitized(
            *config,
            content@,
            crate::classify::opt_view(classification.language),
            crate::classify::opt_view(candidate.extension),
        ),
{
    let original = chars_of(content);
    let mut transformations: Vec<String> = Vec::new();
    let s1 = normalize_newline_chars(&original);
    if !chars_eq(&s1, &original) {
        transformations.push(owned("normalized newlines"));
    }
    let s2 = trim_trailing_whitespace_chars(&s1);
    if !chars_eq(&s2, &s1) {
        transformations.push(owned("trimmed trailing whitespace"));
    }
    let rust = config.strip_rules.rust_inline_tests && match &candidate.extension {
        Some(e) => crate::text::str_eq(e.as_str(), "rs"),
        None => false,
    };
    let s3 = if rust {
        let stripped = strip_rust_test_blocks_chars(&s2);
        if !chars_eq(&stripped, &s2) {
            transformations.push(owned("stripped rust inline tests"));
        }
        stripped
    } else {
        s2
    };
    let s4 = if config.strip_rules.blank_lines {
        let collapsed = collapse_blank_lines_chars(&s3);
        if !chars_eq(&collapsed, &s3) {
            transformations.push(owned("collapsed blank lines"));
        }
        collapsed
    } else {
        s3
    };
    let comments = config.strip_rules.comments && match &classification.language {
        Some(l) => comment_language(l.as_str()),
        None => false,
    };
    let s5 = if comments {
        let stripped = strip_simple_line_comments_chars(&s4);
        if !chars_eq(&stripped, &s4) {
            transformations.push(owned("stripped simple comments"));
        }
        stripped
    } else {
        s4
    };
    proof {
        assert(string_views(transformations@) =~= sanitized(
            *config,
            content@,
            crate::classify::opt_view(classification.language),
            crate::classify::opt_view(candidate.extension),
        ).1);
    }
    (string_of(&s5), transformations)
}

} // verus!
