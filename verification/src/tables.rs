//! The tables of files the programs show: the heaviest files first, and the
//! files that match a search text.
use vstd::prelude::*;

use crate::display::{
    byte_size_text, format_bytes, plural_ending, plural_suffix, truncate_end, truncate_middle,
    truncated_end, truncated_middle,
};
use crate::format::reason_or_excluded;
use crate::numbers::{format_number, grouped};
use crate::report::FileReport;
use crate::sort::{
    is_ordered_by, is_total_order, law_sorted_with_is_ordered, lemma_insert_with_at, reversed,
    sorted_with,
};
use crate::text::{
    chars_of, contains, contains_chars, lemma_lex_le_total, lemma_lex_le_trans, lex_le, lex_le_chars,
    extend_str, owned, string_of, trim_end, trim_start,
};

verus! {

/// The order of a table of files.
#[derive(Debug, Clone, Copy, PartialEq, Eq, Structural)]
pub enum TableOrder {
    /// Most tokens first.
    TokensDesc,
    /// Largest first.
    BytesDesc,
    /// Most tokens first, then by path.
    TokensDescThenPath,
    /// Largest first, then by path.
    BytesDescThenPath,
}

/// Whether `a` may stay before `b` in a table with this order.
pub open spec fn table_before(order: TableOrder) -> spec_fn(FileReport, FileReport) -> bool {
    |a: FileReport, b: FileReport|
        match order {
            TableOrder::TokensDesc => a.tokens >= b.tokens,
            TableOrder::BytesDesc => a.bytes >= b.bytes,
            TableOrder::TokensDescThenPath => a.tokens > b.tokens || (a.tokens == b.tokens
                && lex_le(a.path@, b.path@)),
            TableOrder::BytesDescThenPath => a.bytes > b.bytes || (a.bytes == b.bytes && lex_le(
                a.path@,
                b.path@,
            )),
        }
}

fn before_in_table(order: TableOrder, a: &FileReport, b: &FileReport) -> (r: bool)
    ensures
        r == (table_before(order))(*a, *b),
{
    match order {
        TableOrder::TokensDesc => a.tokens >= b.tokens,
        TableOrder::BytesDesc => a.bytes >= b.bytes,
        TableOrder::TokensDescThenPath => a.tokens > b.tokens || (a.tokens == b.tokens
            && lex_le_chars(&chars_of(a.path.as_str()), &chars_of(b.path.as_str()))),
        TableOrder::BytesDescThenPath => a.bytes > b.bytes || (a.bytes == b.bytes && lex_le_chars(
            &chars_of(a.path.as_str()),
            &chars_of(b.path.as_str()),
        )),
    }
}

/// Puts the files of a table in order; files that tie keep their order.
pub fn sort_table(files: Vec<FileReport>, order: TableOrder) -> (r: Vec<FileReport>)
    ensures
        r@ == sorted_with(files@, table_before(order)),
{
    let ghost input = files@;
    let ghost before = table_before(order);
    let n = files.len();
    let mut reversed = reversed(files);
    let mut out: Vec<FileReport> = Vec::new();
    let mut taken: usize = 0;
    assert(input.take(0) =~= Seq::<FileReport>::empty());
    while reversed.len() > 0
        invariant
            taken + reversed.len() == n,
            n == input.len(),
            before == table_before(order),
            forall|k: int| 0 <= k < reversed.len() ==> #[trigger] reversed@[k] == input[n - 1 - k],
            out@ == sorted_with(input.take(taken as int), before),
        decreases reversed.len(),
    {
        let x = reversed.pop().unwrap();
        assert(x == input[taken as int]);
        let mut p = out.len();
        while p > 0 && !before_in_table(order, &out[p - 1], &x)
            invariant
                p <= out.len(),
                before == table_before(order),
                forall|k: int| p <= k < out.len() ==> !before(#[trigger] out@[k], x),
            decreases p,
        {
            p -= 1;
        }
        proof {
            lemma_insert_with_at(out@, x, before, p as int);
            assert(input.take(taken + 1).drop_last() =~= input.take(taken as int));
        }
        out.insert(p, x);
        taken += 1;
    }
    assert(input.take(n as int) =~= input);
    out
}

/// Every table order is total and transitive.
pub proof fn lemma_table_order_total(order: TableOrder)
    ensures
        is_total_order(table_before(order)),
{
    let before = table_before(order);
    assert forall|a: FileReport, b: FileReport| #[trigger] before(a, b) || before(b, a) by {
        lemma_lex_le_total(a.path@, b.path@);
    }
    assert forall|a: FileReport, b: FileReport, c: FileReport| #[trigger] before(a, b) && #[trigger] before(b, c) implies before(a, c) by {
        if lex_le(a.path@, b.path@) && lex_le(b.path@, c.path@) {
            lemma_lex_le_trans(a.path@, b.path@, c.path@);
        }
    }
}

/// A sorted table is in its order: most tokens (or bytes) first, ties by
/// path where the order says so.
pub proof fn law_sorted_table_is_ordered(files: Seq<FileReport>, order: TableOrder)
    ensures
        is_ordered_by(sorted_with(files, table_before(order)), table_before(order)),
{
    lemma_table_order_total(order);
    law_sorted_with_is_ordered(files, table_before(order));
}

/// The lower-case form of a text (`str::to_lowercase`).
pub uninterp spec fn unicode_lowercase(s: Seq<char>) -> Seq<char>;

/// `str::to_lowercase`. Claims only that the result depends on the text
/// alone; the Unicode case mapping itself is left unsaid.
#[verifier::external_body]
fn lowercase(s: &str) -> (r: String)
    ensures
        r@ == unicode_lowercase(s@),
{
    s.to_lowercase()
}

/// A text or nothing, as a text.
pub open spec fn or_empty(o: Option<String>) -> Seq<char> {
    match o {
        Some(s) => s@,
        None => Seq::empty(),
    }
}

/// A file matches a (lower-case) search text when its path, language or
/// reason contains it, in lower case.
pub open spec fn matches_search(f: FileReport, search: Seq<char>) -> bool {
    ||| contains(unicode_lowercase(f.path@), search)
    ||| contains(unicode_lowercase(or_empty(f.language)), search)
    ||| contains(unicode_lowercase(or_empty(f.reason)), search)
}

/// The files, in order, that match a search text.
pub open spec fn matching(s: Seq<FileReport>, search: Seq<char>) -> Seq<FileReport>
    decreases s.len(),
{
    if s.len() == 0 {
        s
    } else if matches_search(s.last(), search) {
        matching(s.drop_last(), search).push(s.last())
    } else {
        matching(s.drop_last(), search)
    }
}

/// The search text a filter box holds: trimmed, in lower case.
pub open spec fn search_text(filter: Seq<char>) -> Seq<char> {
    unicode_lowercase(trim_start(trim_end(filter)))
}

fn lowercase_or_empty(o: &Option<String>) -> (r: Vec<char>)
    ensures
        r@ == unicode_lowercase(or_empty(*o)),
{
    match o {
        Some(s) => chars_of(lowercase(s.as_str()).as_str()),
        None => {
            proof {
                reveal_strlit("");
            }
            assert(""@ =~= Seq::<char>::empty());
            chars_of(lowercase("").as_str())
        },
    }
}

/// The files of a table that match what the filter box holds; all of them
/// when the box holds nothing but white space.
pub fn filter_table(files: Vec<FileReport>, filter: &str) -> (r: Vec<FileReport>)
    ensures
        search_text(filter@).len() == 0 ==> r@ == files@,
        search_text(filter@).len() > 0 ==> r@ == matching(files@, search_text(filter@)),
{
    let f = chars_of(filter);
    let trimmed = crate::text::trim_start_chars(&crate::text::trim_end_chars(&f));
    let search = chars_of(lowercase(crate::text::string_of(&trimmed).as_str()).as_str());
    if search.len() == 0 {
        return files;
    }
    let ghost input = files@;
    let n = files.len();
    let mut pending = reversed(files);
    let mut kept: Vec<FileReport> = Vec::new();
    let mut i: usize = 0;
    assert(input.take(0) =~= Seq::<FileReport>::empty());
    while pending.len() > 0
        invariant
            i + pending.len() == n,
            n == input.len(),
            forall|k: int| 0 <= k < pending.len() ==> #[trigger] pending@[k] == input[n - 1 - k],
            search@ == search_text(filter@),
            kept@ == matching(input.take(i as int), search@),
        decreases pending.len(),
    {
        let x = pending.pop().unwrap();
        assert(x == input[i as int]);
        let path = chars_of(lowercase(x.path.as_str()).as_str());
        let lang = lowercase_or_empty(&x.language);
        let reason = lowercase_or_empty(&x.reason);
        let hit = contains_chars(&path, &search) || contains_chars(&lang, &search) || contains_chars(
            &reason,
            &search,
        );
        assert(input.take(i + 1).drop_last() =~= input.take(i as int));
        if hit {
            kept.push(x);
        }
        i += 1;
    }
    assert(input.take(i as int) =~= input);
    kept
}

// ---------------------------------------------------------------------------
// The window's table
// ---------------------------------------------------------------------------

/// The label over the window's table: how many files it shows, and of how
/// many when a filter is on.
pub open spec fn count_label_text(shown: nat, total: nat, filtered: bool) -> Seq<char> {
    grouped(shown) + " file"@ + plural_ending(shown) + if filtered {
        " of "@ + grouped(total)
    } else {
        Seq::empty()
    }
}

/// The label over the window's table.
pub fn count_label(shown: usize, total: usize, filtered: bool) -> (r: String)
    ensures
        r@ == count_label_text(shown as nat, total as nat, filtered),
{
    let mut out = chars_of(format_number(shown).as_str());
    extend_str(&mut out, " file");
    extend_str(&mut out, plural_suffix(shown));
    let ghost before = out@;
    if filtered {
        extend_str(&mut out, " of ");
        extend_str(&mut out, format_number(total).as_str());
        assert(out@ =~= before + (" of "@ + grouped(total as nat)));
    } else {
        assert(out@ =~= before + Seq::<char>::empty());
    }
    string_of(&out)
}

/// How the window's table is ordered, in words.
pub fn sort_label(included: bool) -> (r: &'static str)
    ensures
        r@ == if included {
            "Largest token counts first"@
        } else {
            "Largest excluded files first"@
        },
{
    if included {
        "Largest token counts first"
    } else {
        "Largest excluded files first"
    }
}

/// What the window says when its table is empty.
pub fn empty_table_note(filtered: bool) -> (r: &'static str)
    ensures
        r@ == if filtered {
            "No files match the current filter."@
        } else {
            "No files in this category."@
        },
{
    if filtered {
        "No files match the current filter."
    } else {
        "No files in this category."
    }
}

/// The window shows at most this many rows.
pub open spec fn row_cap() -> nat {
    400
}

/// How many rows the window shows of a table.
pub fn rows_shown(len: usize) -> (r: usize)
    ensures
        r == if len <= row_cap() {
            len as nat
        } else {
            row_cap()
        },
{
    if len <= 400 {
        len
    } else {
        400
    }
}

/// The note under a table that has more rows than are shown.
pub fn more_rows_note(len: usize) -> (r: Option<String>)
    ensures
        len <= row_cap() ==> r is None,
        len > row_cap() ==> (r matches Some(s) && s@ == "Showing first 400 of "@ + grouped(
            len as nat,
        ) + "."@),
{
    if len <= 400 {
        None
    } else {
        let mut out = chars_of("Showing first 400 of ");
        extend_str(&mut out, format_number(len).as_str());
        extend_str(&mut out, ".");
        Some(string_of(&out))
    }
}

/// The cells of a row of the window's table: the path shortened to 72
/// characters, the language (or `-`), the size, and the tokens of an
/// included file or the reason (shortened to 58 characters) of an excluded
/// one.
pub open spec fn window_row_cells(f: FileReport, included: bool) -> (Seq<char>, Seq<char>, Seq<char>, Seq<char>) {
    (
        truncated_middle(f.path@, 72),
        match f.language {
            Some(l) => l@,
            None => "-"@,
        },
        byte_size_text(f.bytes as nat),
        if included {
            grouped(f.tokens as nat)
        } else {
            truncated_end(reason_or_excluded(crate::classify::opt_view(f.reason)), 58)
        },
    )
}

/// The cells of a row of the window's table.
pub fn window_row(f: &FileReport, included: bool) -> (r: (String, String, String, String))
    ensures
        (r.0@, r.1@, r.2@, r.3@) == window_row_cells(*f, included),
{
    let path = truncate_middle(f.path.as_str(), 72);
    let lang = match &f.language {
        Some(l) => owned(l.as_str()),
        None => owned("-"),
    };
    let size = format_bytes(f.bytes);
    let last = if included {
        format_number(f.tokens)
    } else {
        match &f.reason {
            Some(x) => truncate_end(x.as_str(), 58),
            None => truncate_end("excluded", 58),
        }
    };
    (path, lang, size, last)
}

} // verus!
