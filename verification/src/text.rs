//! Comparison of texts by their characters.

use vstd::prelude::*;

verus! {

/// Whether two texts hold the same characters.
pub fn str_equal(a: &str, b: &str) -> (r: bool)
    ensures
        r == (a@ == b@),
{
    let n = a.unicode_len();
    if n != b.unicode_len() {
        return false;
    }
    let mut i: usize = 0;
    while i < n
        invariant
            n == a@.len(),
            n == b@.len(),
            i <= n,
            forall|k: int| 0 <= k < i ==> a@[k] == b@[k],
        decreases n - i,
    {
        if a.get_char(i) != b.get_char(i) {
            return false;
        }
        i = i + 1;
    }
    assert(a@ =~= b@);
    true
}

} // verus!

verus! {

/// Whether `p` occurs in `s` at position `i`.
pub open spec fn occurs_at(s: Seq<char>, p: Seq<char>, i: int) -> bool {
    0 <= i && i + p.len() <= s.len() && s.subrange(i, i + p.len()) == p
}

/// Whether `p` occurs anywhere in `s`.
pub open spec fn contains_text(s: Seq<char>, p: Seq<char>) -> bool {
    exists|i: int| #[trigger] occurs_at(s, p, i)
}

/// Whether `p` occurs in `s` at position `i`.
fn text_occurs_at(s: &str, p: &str, i: usize, pn: usize) -> (r: bool)
    requires
        pn == p@.len(),
        i + pn <= s@.len(),
        i + pn <= usize::MAX,
    ensures
        r == occurs_at(s@, p@, i as int),
{
    let mut k: usize = 0;
    while k < pn
        invariant
            pn == p@.len(),
            i + pn <= s@.len(),
            i + pn <= usize::MAX,
            k <= pn,
            forall|j: int| 0 <= j < k ==> s@[i + j] == p@[j],
        decreases pn - k,
    {
        if s.get_char(i + k) != p.get_char(k) {
            assert(s@.subrange(i as int, i + pn)[k as int] != p@[k as int]);
            return false;
        }
        k = k + 1;
    }
    assert(s@.subrange(i as int, i + pn) =~= p@);
    true
}

/// Whether `s` begins with `p`.
pub fn text_starts_with(s: &str, p: &str) -> (r: bool)
    ensures
        r == occurs_at(s@, p@, 0),
{
    let n = s.unicode_len();
    let pn = p.unicode_len();
    if pn > n {
        return false;
    }
    text_occurs_at(s, p, 0, pn)
}

/// Whether `p` occurs anywhere in `s`.
pub fn text_contains(s: &str, p: &str) -> (r: bool)
    ensures
        r == contains_text(s@, p@),
{
    let n = s.unicode_len();
    let pn = p.unicode_len();
    if pn > n {
        assert forall|i: int| !#[trigger] occurs_at(s@, p@, i) by {}
        return false;
    }
    let last = n - pn;
    let mut i: usize = 0;
    loop
        invariant
            n == s@.len(),
            pn == p@.len(),
            last == n - pn,
            i <= last,
            forall|j: int| 0 <= j < i ==> !#[trigger] occurs_at(s@, p@, j),
        decreases last - i,
    {
        if text_occurs_at(s, p, i, pn) {
            return true;
        }
        if i == last {
            assert forall|j: int| !#[trigger] occurs_at(s@, p@, j) by {
                if 0 <= j && j + pn <= n {
                    assert(j <= i);
                }
            }
            return false;
        }
        i = i + 1;
    }
}

/// The decimal digits of `n`, most significant first.
pub open spec fn decimal_chars(n: nat) -> Seq<char>
    decreases n,
{
    if n < 10 {
        seq![digit_char(n)]
    } else {
        decimal_chars(n / 10).push(digit_char(n % 10))
    }
}

/// The character of a decimal digit.
pub open spec fn digit_char(d: nat) -> char {
    if d == 0 { '0' }
    else if d == 1 { '1' }
    else if d == 2 { '2' }
    else if d == 3 { '3' }
    else if d == 4 { '4' }
    else if d == 5 { '5' }
    else if d == 6 { '6' }
    else if d == 7 { '7' }
    else if d == 8 { '8' }
    else { '9' }
}

/// Appends the decimal digits of `n`.
pub fn append_decimal(out: &mut String, n: usize)
    ensures
        final(out)@ == old(out)@ + decimal_chars(n as nat),
    decreases n,
{
    if n >= 10 {
        append_decimal(out, n / 10);
    }
    let d = n % 10;
    let digits = "0123456789";
    proof {
        reveal_strlit("0123456789");
    }
    let c = digits.substring_char(d, d + 1);
    assert(c@ =~= seq![digit_char(d as nat)]);
    out.append(c);
    assert(out@ =~= old(out)@ + decimal_chars(n as nat));
}

/// Appends the decimal digits of `n`.
pub fn append_decimal_wide(out: &mut String, n: u128)
    ensures
        final(out)@ == old(out)@ + decimal_chars(n as nat),
    decreases n,
{
    if n >= 10 {
        append_decimal_wide(out, n / 10);
    }
    let d = (n % 10) as usize;
    let digits = "0123456789";
    proof {
        reveal_strlit("0123456789");
    }
    let c = digits.substring_char(d, d + 1);
    assert(c@ =~= seq![digit_char(d as nat)]);
    out.append(c);
    assert(out@ =~= old(out)@ + decimal_chars(n as nat));
}

/// The decimal digits of an integer, after a minus sign when it is
/// negative.
pub open spec fn integer_chars(n: int) -> Seq<char> {
    if n < 0 {
        seq!['-'] + decimal_chars((-n) as nat)
    } else {
        decimal_chars(n as nat)
    }
}

/// Appends `n` in decimal, after a minus sign when it is negative.
pub fn append_integer(out: &mut String, n: i128)
    ensures
        final(out)@ == old(out)@ + integer_chars(n as int),
{
    if n < 0 {
        let minus = "-";
        proof {
            reveal_strlit("-");
        }
        assert(minus@ =~= seq!['-']);
        out.append(minus);
        let m: u128 = ((-(n + 1)) as u128) + 1;
        append_decimal_wide(out, m);
        assert(out@ =~= old(out)@ + integer_chars(n as int));
    } else {
        append_decimal_wide(out, n as u128);
    }
}

/// Two decimal digits of `n` (below 100), the first of them zero when `n`
/// is below 10.
pub open spec fn two_digits(n: int) -> Seq<char> {
    seq![digit_char((n / 10) as nat), digit_char((n % 10) as nat)]
}

/// The UTC time of day of `ms` milliseconds after the Unix epoch, as
/// hours, minutes and seconds of two digits each, separated by colons.
pub open spec fn clock_text(ms: int) -> Seq<char> {
    let d = ms % 86400000;
    two_digits(d / 3600000) + seq![':'] + two_digits((d / 60000) % 60) + seq![':'] + two_digits((d / 1000) % 60)
}

fn append_two_digits(out: &mut String, n: u64)
    requires
        n < 100,
    ensures
        final(out)@ == old(out)@ + two_digits(n as int),
{
    let digits = "0123456789";
    proof {
        reveal_strlit("0123456789");
    }
    let hi = (n / 10) as usize;
    let lo = (n % 10) as usize;
    let a = digits.substring_char(hi, hi + 1);
    let b = digits.substring_char(lo, lo + 1);
    assert(a@ =~= seq![digit_char(hi as nat)]);
    assert(b@ =~= seq![digit_char(lo as nat)]);
    out.append(a);
    out.append(b);
    assert(out@ =~= old(out)@ + two_digits(n as int));
}

/// Appends the UTC time of day of `ms` (see `clock_text`).
pub fn append_clock(out: &mut String, ms: i64)
    ensures
        final(out)@ == old(out)@ + clock_text(ms as int),
{
    let day: i64 = 86400000;
    let d: i64 = if ms >= 0 {
        ms % day
    } else {
        day - 1 - ((-(ms + 1)) % day)
    };
    assert(d as int == (ms as int) % 86400000 && 0 <= d < 86400000) by (nonlinear_arith)
        requires
            ms >= 0 ==> d == (ms as int) % 86400000,
            ms < 0 ==> d == 86400000 - 1 - ((-(ms + 1)) as int) % 86400000,
    {
        if ms < 0 {
            let a = (-(ms + 1)) as int;
            let k = a / 86400000;
            let q = a % 86400000;
            assert(a == k * 86400000 + q);
            assert(ms as int == -(k + 1) * 86400000 + (86400000 - 1 - q));
        }
    }
    let colon = ":";
    proof {
        reveal_strlit(":");
    }
    assert(colon@ =~= seq![':']);
    let du = d as u64;
    append_two_digits(out, du / 3600000);
    out.append(colon);
    append_two_digits(out, (du / 60000) % 60);
    out.append(colon);
    append_two_digits(out, (du / 1000) % 60);
    assert(out@ =~= old(out)@ + clock_text(ms as int));
}

} // verus!
