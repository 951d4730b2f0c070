//! Numbers rendered as text: plain decimals, thousands separators, and byte
//! sizes.
use vstd::prelude::*;

use crate::text::{extend_chars, string_of};

verus! {

/// The character for a decimal digit.
pub open spec fn digit_char(d: nat) -> char {
    if d == 0 {
        '0'
    } else if d == 1 {
        '1'
    } else if d == 2 {
        '2'
    } else if d == 3 {
        '3'
    } else if d == 4 {
        '4'
    } else if d == 5 {
        '5'
    } else if d == 6 {
        '6'
    } else if d == 7 {
        '7'
    } else if d == 8 {
        '8'
    } else {
        '9'
    }
}

/// The decimal spelling of a number (what `to_string` gives).
pub open spec fn dec(n: nat) -> Seq<char>
    decreases n,
{
    if n < 10 {
        seq![digit_char(n)]
    } else {
        dec(n / 10).push(digit_char(n % 10))
    }
}

/// Digits grouped by threes from the right with commas.
pub open spec fn group_thousands(ds: Seq<char>) -> Seq<char>
    decreases ds.len(),
{
    if ds.len() <= 3 {
        ds
    } else {
        group_thousands(ds.take(ds.len() - 3)) + seq![','] + ds.skip(ds.len() - 3)
    }
}

/// A number with thousands separators, e.g. `1,234,567`.
pub open spec fn grouped(n: nat) -> Seq<char> {
    group_thousands(dec(n))
}

/// The characters of a text other than commas.
pub open spec fn without_commas(s: Seq<char>) -> Seq<char>
    decreases s.len(),
{
    if s.len() == 0 {
        s
    } else if s.last() == ',' {
        without_commas(s.drop_last())
    } else {
        without_commas(s.drop_last()).push(s.last())
    }
}

pub fn digit(d: u64) -> (c: char)
    requires
        d < 10,
    ensures
        c == digit_char(d as nat),
{
    if d == 0 {
        '0'
    } else if d == 1 {
        '1'
    } else if d == 2 {
        '2'
    } else if d == 3 {
        '3'
    } else if d == 4 {
        '4'
    } else if d == 5 {
        '5'
    } else if d == 6 {
        '6'
    } else if d == 7 {
        '7'
    } else if d == 8 {
        '8'
    } else {
        '9'
    }
}

/// The decimal digits of a number.
pub fn decimal_chars(n: u64) -> (r: Vec<char>)
    ensures
        r@ == dec(n as nat),
    decreases n,
{
    if n < 10 {
        let mut v = Vec::new();
        v.push(digit(n));
        assert(v@ =~= seq![digit_char(n as nat)]);
        v
    } else {
        let mut v = decimal_chars(n / 10);
        v.push(digit(n % 10));
        v
    }
}

/// `n.to_string()`.
pub fn decimal(n: u64) -> (r: String)
    ensures
        r@ == dec(n as nat),
{
    string_of(&decimal_chars(n))
}

/// Appends the decimal digits of a number.
pub fn push_decimal(out: &mut Vec<char>, n: u64)
    ensures
        final(out)@ == old(out)@ + dec(n as nat),
{
    let d = decimal_chars(n);
    extend_chars(out, &d);
}

/// A number with thousands separators, e.g. `1,234,567`.
pub fn format_number(value: usize) -> (r: String)
    ensures
        r@ == grouped(value as nat),
{
    let ds = decimal_chars(value as u64);
    let mut out: Vec<char> = Vec::new();
    // The first group holds the digits left over after whole groups of three.
    let len = ds.len();
    let mut first = len % 3;
    if first == 0 && len > 0 {
        first = 3;
    }
    let mut i: usize = 0;
    while i < first
        invariant
            i <= first <= len,
            len == ds.len(),
            out@ == ds@.take(i as int),
        decreases first - i,
    {
        out.push(ds[i]);
        i += 1;
        assert(ds@.take(i as int) =~= ds@.take(i - 1).push(ds@[i - 1]));
    }
    proof {
        lemma_group_first(ds@, first as int);
    }
    while i < len
        invariant
            first <= i <= len,
            len == ds.len(),
            (i - first) % 3 == 0,
            (len - first) % 3 == 0,
            out@ == group_thousands(ds@.take(i as int)),
            first == len || first >= 1,
        decreases len - i,
    {
        let ghost before = out@;
        out.push(',');
        out.push(ds[i]);
        out.push(ds[i + 1]);
        out.push(ds[i + 2]);
        proof {
            let t = ds@.take(i + 3);
            assert(t.take(t.len() - 3) =~= ds@.take(i as int));
            assert(t.skip(t.len() - 3) =~= seq![ds@[i as int], ds@[i + 1], ds@[i + 2]]);
            assert(out@ =~= before + seq![','] + t.skip(t.len() - 3));
        }
        i += 3;
    }
    assert(ds@.take(len as int) =~= ds@);
    string_of(&out)
}

proof fn lemma_group_first(ds: Seq<char>, first: int)
    requires
        0 <= first <= ds.len(),
        first <= 3,
        first == ds.len() || first >= 1,
        (ds.len() - first) % 3 == 0,
        first == ds.len() % 3 || (first == 3 && ds.len() % 3 == 0),
    ensures
        group_thousands(ds.take(first)) == ds.take(first),
{
}

/// The number a string of decimal digits spells.
pub open spec fn digits_value(s: Seq<char>) -> int
    decreases s.len(),
{
    if s.len() == 0 {
        0
    } else {
        digits_value(s.drop_last()) * 10 + (s.last() as int - '0' as int)
    }
}

proof fn lemma_digit_char_value(d: nat)
    requires
        d < 10,
    ensures
        digit_char(d) as int - '0' as int == d,
        '0' <= digit_char(d) <= '9',
{
}

/// The decimal spelling of a number is made of the digits `0` to `9`, has
/// no leading zero, and spells the number.
pub proof fn law_decimal_spells_the_number(n: nat)
    ensures
        dec(n).len() >= 1,
        forall|i: int| 0 <= i < dec(n).len() ==> '0' <= #[trigger] dec(n)[i] <= '9',
        dec(n).len() > 1 ==> dec(n)[0] != '0',
        digits_value(dec(n)) == n,
{
    lemma_decimal_digits(n);
}

proof fn lemma_decimal_digits(n: nat)
    ensures
        dec(n).len() >= 1,
        forall|i: int| 0 <= i < dec(n).len() ==> '0' <= #[trigger] dec(n)[i] <= '9',
        n >= 1 ==> dec(n)[0] != '0',
        dec(n).len() > 1 ==> n >= 10,
        digits_value(dec(n)) == n,
    decreases n,
{
    if n < 10 {
        lemma_digit_char_value(n);
        assert(dec(n).drop_last() =~= Seq::<char>::empty());
        assert(dec(n).last() == digit_char(n));
        assert(digits_value(dec(n)) == digits_value(dec(n).drop_last()) * 10 + (dec(n).last() as int
            - '0' as int));
    } else {
        lemma_decimal_digits(n / 10);
        lemma_digit_char_value(n % 10);
        let d = dec(n / 10);
        assert(dec(n) == d.push(digit_char(n % 10)));
        assert(dec(n).drop_last() =~= d);
        assert forall|i: int| 0 <= i < dec(n).len() implies '0' <= #[trigger] dec(n)[i] <= '9' by {
            if i < d.len() {
                assert(dec(n)[i] == d[i]);
            }
        }
        assert(dec(n)[0] == d[0]);
        assert(dec(n).last() == digit_char(n % 10));
        assert(digits_value(dec(n)) == digits_value(d) * 10 + (digit_char(n % 10) as int
            - '0' as int));
        assert(n == (n / 10) * 10 + n % 10);
    }
}

/// Taking the commas out of a grouped number gives its plain digits back.
pub proof fn law_grouping_keeps_digits(n: nat)
    ensures
        without_commas(grouped(n)) == dec(n),
{
    lemma_digits_have_no_commas(n);
    lemma_without_commas_group(dec(n));
}

proof fn lemma_digit_not_comma(d: nat)
    ensures
        digit_char(d) != ',',
{
}

proof fn lemma_digits_have_no_commas(n: nat)
    ensures
        forall|i: int| 0 <= i < dec(n).len() ==> dec(n)[i] != ',',
    decreases n,
{
    if n < 10 {
        lemma_digit_not_comma(n);
    } else {
        lemma_digits_have_no_commas(n / 10);
        lemma_digit_not_comma(n % 10);
        let d = dec(n / 10);
        assert(dec(n) == d.push(digit_char(n % 10)));
        assert forall|i: int| 0 <= i < dec(n).len() implies dec(n)[i] != ',' by {
            if i < d.len() {
                assert(dec(n)[i] == d[i]);
            }
        }
    }
}

proof fn lemma_without_commas_plain(s: Seq<char>)
    requires
        forall|i: int| 0 <= i < s.len() ==> s[i] != ',',
    ensures
        without_commas(s) == s,
    decreases s.len(),
{
    if s.len() > 0 {
        lemma_without_commas_plain(s.drop_last());
        assert(s.drop_last().push(s.last()) =~= s);
    }
}

proof fn lemma_without_commas_append(a: Seq<char>, b: Seq<char>)
    ensures
        without_commas(a + b) == without_commas(a) + without_commas(b),
    decreases b.len(),
{
    if b.len() == 0 {
        assert(a + b =~= a);
        assert(without_commas(a) + without_commas(b) =~= without_commas(a));
    } else {
        assert((a + b).drop_last() =~= a + b.drop_last());
        lemma_without_commas_append(a, b.drop_last());
        if b.last() != ',' {
            assert(without_commas(a) + without_commas(b.drop_last()).push(b.last()) =~= (
            without_commas(a) + without_commas(b.drop_last())).push(b.last()));
        }
    }
}

proof fn lemma_without_commas_group(ds: Seq<char>)
    requires
        forall|i: int| 0 <= i < ds.len() ==> ds[i] != ',',
    ensures
        without_commas(group_thousands(ds)) == ds,
    decreases ds.len(),
{
    if ds.len() <= 3 {
        lemma_without_commas_plain(ds);
    } else {
        let head = ds.take(ds.len() - 3);
        let tail = ds.skip(ds.len() - 3);
        lemma_without_commas_group(head);
        lemma_without_commas_append(group_thousands(head) + seq![','], tail);
        lemma_without_commas_append(group_thousands(head), seq![',']);
        let comma: Seq<char> = seq![','];
        assert(comma.drop_last() =~= Seq::<char>::empty());
        assert(comma.last() == ',');
        assert(without_commas(Seq::<char>::empty()) == Seq::<char>::empty());
        assert(without_commas(comma) == without_commas(comma.drop_last()));
        lemma_without_commas_plain(tail);
        assert(head + tail =~= ds);
        assert(without_commas(group_thousands(head)) + Seq::<char>::empty() =~= head);
    }
}

} // verus!
