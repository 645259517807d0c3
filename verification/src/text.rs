//! Verified text helpers: reading a string out into characters,
//! rendering a number in decimal, and reading a decimal number back.

use vstd::prelude::*;
use vstd::std_specs::iter::IteratorSpec;
use vstd::string::StringExecFns;

verus! {

broadcast use vstd::string::axiom_spec_iter, vstd::string::next_postcondition;

/// The characters of a string, as a vector.
pub fn str_chars(s: &str) -> (r: Vec<char>)
    ensures
        r@ == s@,
{
    let mut it = s.chars();
    let mut v: Vec<char> = Vec::new();
    proof {
        assert(v@ + it.remaining() =~= s@);
    }
    loop
        invariant
            v@ + it.remaining() =~= s@,
        decreases s@.len() - v@.len(),
    {
        let ghost prev = it.remaining();
        match it.next() {
            Some(c) => {
                v.push(c);
                proof {
                    assert(v@ + it.remaining() =~= s@);
                }
            },
            None => {
                proof {
                    assert(v@ =~= s@);
                }
                return v;
            },
        }
    }
}

/// Whether two strings hold the same characters.
pub fn str_eq(a: &str, b: &str) -> (r: bool)
    ensures
        r == (a@ == b@),
{
    let va = str_chars(a);
    let vb = str_chars(b);
    if va.len() != vb.len() {
        return false;
    }
    let mut i: usize = 0;
    while i < va.len()
        invariant
            0 <= i <= va.len(),
            va@ == a@,
            vb@ == b@,
            va@.len() == vb@.len(),
            forall|j: int| 0 <= j < i ==> va@[j] == vb@[j],
        decreases va.len() - i,
    {
        if va[i] != vb[i] {
            return false;
        }
        i = i + 1;
    }
    proof {
        assert(a@ =~= b@);
    }
    true
}

/// The digit character of a value below ten.
pub open spec fn digit_char(n: int) -> char {
    if n == 0 { '0' }
    else if n == 1 { '1' }
    else if n == 2 { '2' }
    else if n == 3 { '3' }
    else if n == 4 { '4' }
    else if n == 5 { '5' }
    else if n == 6 { '6' }
    else if n == 7 { '7' }
    else if n == 8 { '8' }
    else { '9' }
}

/// The one-character string of a digit.
pub fn digit_str(n: usize) -> (r: &'static str)
    requires
        n < 10,
    ensures
        r@ =~= seq![digit_char(n as int)],
{
    let r: &'static str = if n == 0 { "0" }
        else if n == 1 { "1" }
        else if n == 2 { "2" }
        else if n == 3 { "3" }
        else if n == 4 { "4" }
        else if n == 5 { "5" }
        else if n == 6 { "6" }
        else if n == 7 { "7" }
        else if n == 8 { "8" }
        else { "9" };
    proof {
        reveal_strlit("0");
        reveal_strlit("1");
        reveal_strlit("2");
        reveal_strlit("3");
        reveal_strlit("4");
        reveal_strlit("5");
        reveal_strlit("6");
        reveal_strlit("7");
        reveal_strlit("8");
        reveal_strlit("9");
    }
    r
}

/// The decimal numeral of a nonnegative integer, most significant
/// digit first, with no sign and no leading zero (except for zero
/// itself).
pub open spec fn spec_dec(n: int) -> Seq<char>
    decreases n,
{
    if n < 10 {
        seq![digit_char(n)]
    } else {
        spec_dec(n / 10).push(digit_char(n % 10))
    }
}

/// The decimal rendering of a number, as `to_string` would give it.
pub fn usize_to_string(n: usize) -> (r: String)
    ensures
        r@ == spec_dec(n as int),
    decreases n,
{
    if n < 10 {
        digit_str(n).to_owned()
    } else {
        let mut s = usize_to_string(n / 10);
        s.append(digit_str(n % 10));
        proof {
            assert(s@ =~= spec_dec(n as int));
        }
        s
    }
}

/// Whether a character is a decimal digit.
pub open spec fn is_digit(c: char) -> bool {
    48 <= c as int && c as int <= 57
}

/// The value of a digit character.
pub open spec fn digit_val(c: char) -> int {
    c as int - 48
}

/// The value of a digit character, or `None` for any other character.
pub fn char_digit(c: char) -> (r: Option<usize>)
    ensures
        match r {
            Some(d) => is_digit(c) && d == digit_val(c),
            None => !is_digit(c),
        },
{
    match c {
        '0' => Some(0),
        '1' => Some(1),
        '2' => Some(2),
        '3' => Some(3),
        '4' => Some(4),
        '5' => Some(5),
        '6' => Some(6),
        '7' => Some(7),
        '8' => Some(8),
        '9' => Some(9),
        _ => None,
    }
}

/// Every character of the sequence is a decimal digit.
pub open spec fn all_digits(s: Seq<char>) -> bool {
    forall|i: int| 0 <= i < s.len() ==> is_digit(#[trigger] s[i])
}

/// The value of a digit sequence, most significant first.
pub open spec fn digits_val(s: Seq<char>) -> int
    decreases s.len(),
{
    if s.len() == 0 {
        0
    } else {
        digits_val(s.drop_last()) * 10 + digit_val(s.last())
    }
}

/// The value of a digit sequence is nonnegative.
pub proof fn lemma_digits_val_nonneg(s: Seq<char>)
    requires
        all_digits(s),
    ensures
        digits_val(s) >= 0,
    decreases s.len(),
{
    if s.len() > 0 {
        assert(all_digits(s.drop_last()));
        lemma_digits_val_nonneg(s.drop_last());
    }
}

/// A digit sequence's value only grows as it is extended to the right.
pub proof fn lemma_digits_val_prefix(s: Seq<char>, j: int)
    requires
        all_digits(s),
        0 <= j <= s.len(),
    ensures
        digits_val(s.take(j)) <= digits_val(s),
    decreases s.len() - j,
{
    if j < s.len() {
        let t = s.take(j + 1);
        assert(t.drop_last() =~= s.take(j));
        assert(all_digits(s.take(j)));
        lemma_digits_val_nonneg(s.take(j));
        assert(digits_val(t) == digits_val(s.take(j)) * 10 + digit_val(s[j]));
        assert(digits_val(s.take(j)) <= digits_val(t));
        lemma_digits_val_prefix(s, j + 1);
        assert(s.take(j + 1) =~= t);
    } else {
        assert(s.take(j) =~= s);
    }
}

/// A numeral with its optional leading plus sign removed.
pub open spec fn sign_stripped(s: Seq<char>) -> Seq<char> {
    if s.len() >= 1 && s[0] == '+' {
        s.skip(1)
    } else {
        s
    }
}

/// What `str::parse::<usize>` accepts: an optional leading plus sign,
/// then one or more decimal digits whose value fits in `usize`.
pub open spec fn spec_parse_usize(s: Seq<char>) -> Option<int> {
    let ds = sign_stripped(s);
    if ds.len() == 0 || !all_digits(ds) {
        None
    } else if digits_val(ds) > usize::MAX as int {
        None
    } else {
        Some(digits_val(ds))
    }
}

/// Reads a decimal number, as `str::parse::<usize>` would: an optional
/// leading plus sign, then digits; rejects anything else, and any
/// value that does not fit.
pub fn parse_usize(s: &str) -> (r: Option<usize>)
    ensures
        match r {
            Some(v) => spec_parse_usize(s@) == Some(v as int),
            None => spec_parse_usize(s@) is None,
        },
{
    let v = str_chars(s);
    let start: usize = if v.len() >= 1 && v[0] == '+' { 1 } else { 0 };
    let ghost ds = sign_stripped(s@);
    proof {
        assert(v@.skip(start as int) =~= ds);
    }
    if v.len() == start {
        return None;
    }
    let mut n: usize = 0;
    let mut i: usize = start;
    while i < v.len()
        invariant
            start <= i <= v.len(),
            v@ == s@,
            ds == sign_stripped(s@),
            v@.skip(start as int) =~= ds,
            all_digits(ds.take(i - start)),
            n as int == digits_val(ds.take(i - start)),
        decreases v.len() - i,
    {
        let c = v[i];
        let d = match char_digit(c) {
            Some(d) => d,
            None => {
                proof {
                    assert(ds[i - start] == c);
                    assert(!is_digit(ds[i - start]));
                    assert(!all_digits(ds));
                }
                return None;
            },
        };
        let n10 = match n.checked_mul(10) {
            Some(x) => x,
            None => {
                proof {
                    assert(ds[i - start] == c);
                    overflow_means_none(ds, i - start, n as int * 10 + digit_val(c));
                }
                return None;
            },
        };
        let next = match n10.checked_add(d) {
            Some(x) => x,
            None => {
                proof {
                    assert(ds[i - start] == c);
                    overflow_means_none(ds, i - start, n as int * 10 + digit_val(c));
                }
                return None;
            },
        };
        proof {
            let k = i - start;
            assert(ds[k] == c);
            assert forall|j: int| 0 <= j < k + 1 implies is_digit(#[trigger] ds.take(k + 1)[j]) by {
                if j < k {
                    assert(is_digit(ds.take(k)[j]));
                }
            }
            assert(ds.take(k + 1).drop_last() =~= ds.take(k));
            assert(ds.take(k + 1).last() == ds[k]);
        }
        n = next;
        i = i + 1;
    }
    proof {
        assert(ds.take(i - start) =~= ds);
    }
    Some(n)
}

/// If some extension step of the numeral overflows `usize`, the whole
/// numeral's value does not fit either, so parsing yields `None`.
proof fn overflow_means_none(ds: Seq<char>, k: int, big: int)
    requires
        0 <= k < ds.len(),
        all_digits(ds.take(k)),
        is_digit(ds[k]),
        big == digits_val(ds.take(k)) * 10 + digit_val(ds[k]),
        big > usize::MAX as int,
    ensures
        all_digits(ds) ==> digits_val(ds) > usize::MAX as int,
{
    if all_digits(ds) {
        assert(ds.take(k + 1).drop_last() =~= ds.take(k));
        assert(ds.take(k + 1).last() == ds[k]);
        assert(digits_val(ds.take(k + 1)) == big);
        lemma_digits_val_prefix(ds, k + 1);
    }
}

} // verus!
