//! Text shown to people: labels, counts with their unit, shortened paths.
use vstd::prelude::*;

use crate::config::{mode_name, BundleMode};
use crate::numbers::{dec, digit_char, format_number, grouped, push_decimal};
use crate::text::{chars_of, extend_chars, extend_str, owned, string_of};
use vstd::utf8::{encode_scalar, encode_utf8};

verus! {

/// The lower-case label of a mode.
pub fn mode_label(mode: BundleMode) -> (r: &'static str)
    ensures
        r@ == mode_name(mode),
{
    mode.name()
}

/// The plural ending for a count: none for one, `s` otherwise.
pub open spec fn plural_ending(count: nat) -> Seq<char> {
    if count == 1 {
        Seq::empty()
    } else {
        "s"@
    }
}

/// `""` for one, `"s"` otherwise.
pub fn plural_suffix(count: usize) -> (r: &'static str)
    ensures
        r@ == plural_ending(count as nat),
{
    if count == 1 {
        proof {
            reveal_strlit("");
        }
        ""
    } else {
        "s"
    }
}

/// A count with its unit, e.g. `1,024 files`.
pub open spec fn plural_text(count: nat, unit: Seq<char>) -> Seq<char> {
    grouped(count) + " "@ + unit + plural_ending(count)
}

/// A count with its unit, e.g. `1,024 files` or `1 file`.
pub fn plural(count: usize, unit: &str) -> (r: String)
    ensures
        r@ == plural_text(count as nat, unit@),
{
    let n = format_number(count);
    let mut out = chars_of(n.as_str());
    extend_str(&mut out, " ");
    extend_str(&mut out, unit);
    extend_str(&mut out, plural_suffix(count));
    string_of(&out)
}

/// `n` dots.
pub open spec fn dots(n: nat) -> Seq<char> {
    Seq::new(n, |i: int| '.')
}

/// A text shortened to `width` characters by cutting out its middle.
pub open spec fn truncated_middle(v: Seq<char>, width: nat) -> Seq<char> {
    if v.len() <= width {
        v
    } else if width <= 3 {
        dots(width)
    } else {
        let keep = (width - 3) as nat;
        let head = keep / 2;
        let tail = (keep - head) as nat;
        v.take(head as int) + "..."@ + v.skip(v.len() - tail)
    }
}

/// A text shortened to `width` characters by cutting off its end.
pub open spec fn truncated_end(v: Seq<char>, width: nat) -> Seq<char> {
    if v.len() <= width {
        v
    } else if width <= 3 {
        dots(width)
    } else {
        v.take(width - 3) + "..."@
    }
}

fn dots_chars(n: usize) -> (r: Vec<char>)
    ensures
        r@ == dots(n as nat),
{
    let mut r: Vec<char> = Vec::new();
    while r.len() < n
        invariant
            r.len() <= n,
            forall|i: int| 0 <= i < r.len() ==> r@[i] == '.',
        decreases n - r.len(),
    {
        r.push('.');
    }
    assert(r@ =~= dots(n as nat));
    r
}

/// Shortens a text to `width` characters by replacing its middle with `...`
/// (only dots when `width` is 3 or less).
pub fn truncate_middle(value: &str, width: usize) -> (r: String)
    ensures
        r@ == truncated_middle(value@, width as nat),
{
    let v = chars_of(value);
    if v.len() <= width {
        return string_of(&v);
    }
    if width <= 3 {
        return string_of(&dots_chars(width));
    }
    let keep = width - 3;
    let head = keep / 2;
    let tail = keep - head;
    let mut out: Vec<char> = Vec::new();
    extend_chars(&mut out, &v[0..head]);
    extend_str(&mut out, "...");
    extend_chars(&mut out, &v[v.len() - tail..v.len()]);
    assert(v@.subrange(0, head as int) =~= v@.take(head as int));
    assert(v@.subrange(v.len() - tail, v.len() as int) =~= v@.skip(v.len() - tail));
    assert(out@ =~= Seq::<char>::empty() + v@.take(head as int) + "..."@ + v@.skip(
        v.len() - tail,
    ));
    string_of(&out)
}

/// Shortens a text to `width` characters by replacing its end with `...`
/// (only dots when `width` is 3 or less).
pub fn truncate_end(value: &str, width: usize) -> (r: String)
    ensures
        r@ == truncated_end(value@, width as nat),
{
    let v = chars_of(value);
    if v.len() <= width {
        string_of(&v)
    } else if width <= 3 {
        string_of(&dots_chars(width))
    } else {
        let mut out: Vec<char> = Vec::new();
        extend_chars(&mut out, &v[0..width - 3]);
        extend_str(&mut out, "...");
        assert(v@.subrange(0, width - 3) =~= v@.take(width - 3));
        assert(out@ =~= v@.take(width - 3) + "..."@);
        string_of(&out)
    }
}

/// The spacing of the `f64` values around a whole number: 1 below 2^53,
/// doubling with every power of two above.
pub open spec fn ulp(n: nat) -> nat
    decreases n,
{
    if n < 0x20000000000000 {
        1
    } else {
        2 * ulp(n / 2)
    }
}

/// `m / d` rounded to the nearest whole number, ties to even.
pub open spec fn round_half_even(m: nat, d: nat) -> nat {
    let q = m / d;
    let r = m % d;
    if 2 * r > d || (2 * r == d && q % 2 == 1) {
        q + 1
    } else {
        q
    }
}

/// The `f64` nearest to a whole number (`n as f64`), itself a whole number.
pub open spec fn nearest_double(n: nat) -> nat {
    if n < 0x20000000000000 {
        n
    } else {
        round_half_even(n, ulp(n)) * ulp(n)
    }
}

/// How many times 1024 goes into a size, up to three (B, KB, MB, GB).
pub open spec fn size_unit(n: nat) -> nat {
    if n >= 0x40000000 {
        3
    } else if n >= 0x100000 {
        2
    } else if n >= 0x400 {
        1
    } else {
        0
    }
}

pub open spec fn unit_scale(u: nat) -> nat {
    if u == 1 {
        0x400
    } else if u == 2 {
        0x100000
    } else {
        0x40000000
    }
}

pub open spec fn unit_name(u: nat) -> Seq<char> {
    if u == 1 {
        "KB"@
    } else if u == 2 {
        "MB"@
    } else {
        "GB"@
    }
}

/// A byte count for people: whole bytes under 1 KB; above, the size in the
/// largest unit up to GB, with one decimal below 10 and none from 10 on (the
/// `f64` quotient, rounded half to even).
pub open spec fn byte_size_text(n: nat) -> Seq<char> {
    let u = size_unit(n);
    if u == 0 {
        dec(n) + " B"@
    } else {
        let v = nearest_double(n);
        let s = unit_scale(u);
        if v >= 10 * s {
            dec(round_half_even(v, s)) + " "@ + unit_name(u)
        } else {
            let d = round_half_even(10 * v, s);
            dec(d / 10) + "."@ + seq![digit_char(d % 10)] + " "@ + unit_name(u)
        }
    }
}

proof fn lemma_ulp_bounds(n: nat)
    ensures
        1 <= ulp(n),
        n >= 1 ==> ulp(n) <= n,
    decreases n,
{
    if n >= 0x20000000000000 {
        lemma_ulp_bounds(n / 2);
    }
}

fn ulp_of(n: u128) -> (p: u128)
    requires
        n < 0x1_0000_0000_0000_0000,
    ensures
        p == ulp(n as nat),
    decreases n,
{
    if n < 0x20000000000000 {
        1
    } else {
        let h = ulp_of(n / 2);
        proof {
            lemma_ulp_bounds((n / 2) as nat);
        }
        2 * h
    }
}

fn round_half_even_of(m: u128, d: u128) -> (r: u128)
    requires
        0 < d <= 0x1_0000_0000_0000_0000,
        m < 0x1_0000_0000_0000_0000_0000,
    ensures
        r == round_half_even(m as nat, d as nat),
        r <= m / d + 1,
{
    let q = m / d;
    let r = m % d;
    if 2 * r > d || (2 * r == d && q % 2 == 1) {
        q + 1
    } else {
        q
    }
}

/// A byte count for people, e.g. `512 B`, `1.5 KB`, `12 MB`.
pub fn format_bytes(bytes: usize) -> (r: String)
    ensures
        r@ == byte_size_text(bytes as nat),
{
    let n = bytes as u64;
    let mut out: Vec<char> = Vec::new();
    if n < 0x400 {
        push_decimal(&mut out, n);
        extend_str(&mut out, " B");
        return string_of(&out);
    }
    let (s, name): (u128, &str) = if n >= 0x40000000 {
        (0x40000000, "GB")
    } else if n >= 0x100000 {
        (0x100000, "MB")
    } else {
        (0x400, "KB")
    };
    let m = n as u128;
    let v: u128 = if m < 0x20000000000000 {
        m
    } else {
        let p = ulp_of(m);
        proof {
            lemma_ulp_bounds(m as nat);
        }
        let q = round_half_even_of(m, p);
        proof {
            assert(q * p <= m + p) by (nonlinear_arith)
                requires
                    q <= m / p + 1,
                    p >= 1,
            {
                assert((m / p) * p <= m);
            }
        }
        q * p
    };
    if v >= 10 * s {
        let q = round_half_even_of(v, s);
        proof {
            assert(v / s <= v) by (nonlinear_arith)
                requires
                    s >= 1,
            ;
        }
        push_decimal(&mut out, q as u64);
        extend_str(&mut out, " ");
        extend_str(&mut out, name);
    } else {
        let d = round_half_even_of(10 * v, s);
        proof {
            assert((10 * v) / (s as int) <= 100) by (nonlinear_arith)
                requires
                    v < 10 * s,
                    s >= 1,
            ;
        }
        push_decimal(&mut out, (d / 10) as u64);
        extend_str(&mut out, ".");
        out.push(crate::numbers::digit((d % 10) as u64));
        extend_str(&mut out, " ");
        extend_str(&mut out, name);
    }
    string_of(&out)
}

/// The UTF-8 size of the first `i` characters of a text: where the
/// character at `i` starts.
pub open spec fn byte_offset(s: Seq<char>, i: int) -> nat {
    encode_utf8(s.take(i)).len()
}

/// The longest preview, in bytes.
pub open spec fn preview_limit() -> nat {
    40_000
}

/// The preview of a bundle text: the text itself when it fits in the limit;
/// otherwise the characters before the last character that starts within
/// the limit, and a note saying where it was cut.
pub open spec fn is_preview_of(r: Seq<char>, s: Seq<char>) -> bool {
    if encode_utf8(s).len() <= preview_limit() {
        r == s
    } else {
        exists|k: int|
            #![trigger byte_offset(s, k)]
            0 <= k < s.len() && byte_offset(s, k) <= preview_limit() < byte_offset(s, k + 1) && r
                == s.take(k) + "\n\n[preview truncated at "@ + dec(byte_offset(s, k))
                + " bytes]"@
    }
}

proof fn lemma_encode_utf8_append(a: Seq<char>, b: Seq<char>)
    ensures
        encode_utf8(a + b) == encode_utf8(a) + encode_utf8(b),
    decreases a.len(),
{
    if a.len() == 0 {
        assert(a + b =~= b);
        assert(encode_utf8(a) + encode_utf8(b) =~= encode_utf8(b));
    } else {
        lemma_encode_utf8_append(a.drop_first(), b);
        assert((a + b).drop_first() =~= a.drop_first() + b);
        assert((a + b)[0] == a[0]);
        assert(encode_scalar(a[0] as u32) + (encode_utf8(a.drop_first()) + encode_utf8(b))
            =~= (encode_scalar(a[0] as u32) + encode_utf8(a.drop_first())) + encode_utf8(b));
    }
}

proof fn lemma_byte_offset_monotone(s: Seq<char>, i: int)
    requires
        0 <= i <= s.len(),
    ensures
        byte_offset(s, i) <= encode_utf8(s).len(),
{
    lemma_encode_utf8_append(s.take(i), s.skip(i));
    assert(s.take(i) + s.skip(i) =~= s);
}

/// The number of bytes of a character's UTF-8 encoding.
fn utf8_width(c: char) -> (w: usize)
    ensures
        w == encode_scalar(c as u32).len(),
        1 <= w <= 4,
{
    let v = c as u32;
    proof {
        vstd::utf8::char_u32_cast(c, v);
        vstd::utf8::char_is_scalar(c);
    }
    if v < 0x80 {
        1
    } else if v < 0x800 {
        2
    } else if v < 0x10000 {
        3
    } else {
        4
    }
}

proof fn lemma_byte_offset_step(s: Seq<char>, i: int)
    requires
        0 <= i < s.len(),
    ensures
        byte_offset(s, i + 1) == byte_offset(s, i) + encode_scalar(s[i] as u32).len(),
{
    let one = seq![s[i]];
    lemma_encode_utf8_append(s.take(i), one);
    assert(s.take(i + 1) =~= s.take(i) + one);
    assert(one.drop_first() =~= Seq::<char>::empty());
    assert(encode_utf8(one) =~= encode_scalar(s[i] as u32) + encode_utf8(one.drop_first()));
    assert(encode_utf8(one) =~= encode_scalar(s[i] as u32));
}

/// The text shown in the output preview: the bundle when it has at most
/// 40,000 bytes, otherwise its start, cut at a character boundary at or
/// before byte 40,000, and a note giving the byte where it was cut.
pub fn preview_text(contents: &str) -> (r: String)
    ensures
        is_preview_of(r@, contents@),
{
    let v = chars_of(contents);
    let mut k: usize = 0;
    let mut off: usize = 0;
    assert(v@.take(0) =~= Seq::<char>::empty());
    while k < v.len() && off + utf8_width(v[k]) <= 40_000
        invariant
            k <= v.len(),
            v@ == contents@,
            off == byte_offset(v@, k as int),
            off <= 40_000,
        decreases v.len() - k,
    {
        proof {
            lemma_byte_offset_step(v@, k as int);
        }
        off = off + utf8_width(v[k]);
        k += 1;
    }
    if k == v.len() {
        assert(v@.take(k as int) =~= v@);
        return owned(contents);
    }
    proof {
        lemma_byte_offset_step(v@, k as int);
        lemma_byte_offset_monotone(v@, k + 1);
    }
    let mut out: Vec<char> = Vec::new();
    extend_chars(&mut out, &v[0..k]);
    assert(v@.subrange(0, k as int) =~= v@.take(k as int));
    assert(out@ =~= v@.take(k as int));
    extend_str(&mut out, "\n\n[preview truncated at ");
    push_decimal(&mut out, off as u64);
    extend_str(&mut out, " bytes]");
    string_of(&out)
}

/// What the window was asked to do.
#[derive(Debug, Clone, Copy, PartialEq, Eq, Structural)]
pub enum JobKind {
    Inspect,
    Bundle,
    InitProfile,
}

pub open spec fn job_done_label(kind: JobKind) -> Seq<char> {
    match kind {
        JobKind::Inspect => "Scan complete"@,
        JobKind::Bundle => "Bundle complete"@,
        JobKind::InitProfile => "Done"@,
    }
}

/// The status line after a scan: what finished, the number of included
/// files, the tokens, and whether the bundle was written and copied.
pub open spec fn job_status_text(kind: JobKind, included: nat, tokens: nat, wrote_file: bool, copied: bool) -> Seq<char> {
    job_done_label(kind) + ": "@ + dec(included) + " files, "@ + grouped(tokens) + " tokens"@ + (if wrote_file {
        ", wrote output"@
    } else {
        Seq::empty()
    }) + (if copied {
        ", copied to clipboard"@
    } else {
        Seq::empty()
    }) + "."@
}

/// The status line after a scan.
pub fn job_status(kind: JobKind, included: usize, tokens: usize, wrote_file: bool, copied: bool) -> (r: String)
    ensures
        r@ == job_status_text(kind, included as nat, tokens as nat, wrote_file, copied),
{
    let mut out = match kind {
        JobKind::Inspect => chars_of("Scan complete"),
        JobKind::Bundle => chars_of("Bundle complete"),
        JobKind::InitProfile => chars_of("Done"),
    };
    extend_str(&mut out, ": ");
    push_decimal(&mut out, included as u64);
    extend_str(&mut out, " files, ");
    extend_str(&mut out, format_number(tokens).as_str());
    extend_str(&mut out, " tokens");
    let ghost before = out@;
    if wrote_file {
        extend_str(&mut out, ", wrote output");
    }
    assert(out@ =~= before + (if wrote_file {
        ", wrote output"@
    } else {
        Seq::empty()
    }));
    let ghost middle = out@;
    if copied {
        extend_str(&mut out, ", copied to clipboard");
    }
    assert(out@ =~= middle + (if copied {
        ", copied to clipboard"@
    } else {
        Seq::empty()
    }));
    extend_str(&mut out, ".");
    string_of(&out)
}

/// The budget card: how many tokens over the budget, or how many left, and
/// whether the budget is exceeded.
pub open spec fn budget_card_text(tokens: nat, budget: nat) -> Seq<char> {
    if tokens > budget {
        grouped((tokens - budget) as nat) + " over"@
    } else {
        grouped((budget - tokens) as nat) + " left"@
    }
}

/// The budget card's value, and whether the budget is exceeded.
pub fn budget_card(tokens: usize, budget: usize) -> (r: (String, bool))
    ensures
        r.0@ == budget_card_text(tokens as nat, budget as nat),
        r.1 == (tokens > budget),
{
    if tokens > budget {
        let mut out = chars_of(format_number(tokens - budget).as_str());
        extend_str(&mut out, " over");
        (string_of(&out), true)
    } else {
        let mut out = chars_of(format_number(budget - tokens).as_str());
        extend_str(&mut out, " left");
        (string_of(&out), false)
    }
}

/// The heading of the warning list, e.g. `2 warnings`.
pub fn warning_heading(count: usize) -> (r: String)
    ensures
        r@ == dec(count as nat) + " warning"@ + plural_ending(count as nat),
{
    let mut out: Vec<char> = Vec::new();
    push_decimal(&mut out, count as u64);
    extend_str(&mut out, " warning");
    extend_str(&mut out, plural_suffix(count));
    string_of(&out)
}

} // verus!
