//! Decimal text for integers: rendering a value as its digit string, the
//! value of a digit string, and the lemmas connecting the two.

use vstd::prelude::*;

verus! {

/// The digit character for a value below ten.
pub open spec fn digit_char(d: int) -> char {
    if d == 0 {
        '0'
    } else if d == 1 {
        '1'
    } else if d == 2 {
        '2'
    } else if d == 3 {
        '3'
    } else if d == 4 {
        '4'
    } else if d == 5 {
        '5'
    } else if d == 6 {
        '6'
    } else if d == 7 {
        '7'
    } else if d == 8 {
        '8'
    } else {
        '9'
    }
}

/// Whether a character is a decimal digit.
pub open spec fn is_digit(c: char) -> bool {
    c == '0' || c == '1' || c == '2' || c == '3' || c == '4' || c == '5' || c == '6' || c == '7'
        || c == '8' || c == '9'
}

/// The value of a digit character.
pub open spec fn digit_val(c: char) -> int {
    if c == '0' {
        0
    } else if c == '1' {
        1
    } else if c == '2' {
        2
    } else if c == '3' {
        3
    } else if c == '4' {
        4
    } else if c == '5' {
        5
    } else if c == '6' {
        6
    } else if c == '7' {
        7
    } else if c == '8' {
        8
    } else {
        9
    }
}

/// The decimal digit string of a non-negative integer, most significant
/// digit first.
pub open spec fn dec_digits(n: int) -> Seq<char>
    recommends
        n >= 0,
    decreases n,
{
    if n < 10 {
        seq![digit_char(n)]
    } else {
        dec_digits(n / 10).push(digit_char(n % 10))
    }
}

/// The decimal digit string of an integer, with a leading minus sign when
/// it is negative.
pub open spec fn int_digits(v: int) -> Seq<char> {
    if v < 0 {
        seq!['-'] + dec_digits(-v)
    } else {
        dec_digits(v)
    }
}

/// The numeric value of a digit string, most significant digit first.
pub open spec fn dec_val(s: Seq<char>) -> int
    decreases s.len(),
{
    if s.len() == 0 {
        0
    } else {
        dec_val(s.drop_last()) * 10 + digit_val(s.last())
    }
}

/// Ten to the power `k`.
pub open spec fn pow10(k: nat) -> int
    decreases k,
{
    if k == 0 {
        1
    } else {
        10 * pow10((k - 1) as nat)
    }
}

/// A rendered non-negative integer consists of digit characters only and is
/// never empty.
pub proof fn lemma_dec_digits_are_digits(n: int)
    requires
        n >= 0,
    ensures
        dec_digits(n).len() >= 1,
        forall|i: int| 0 <= i < dec_digits(n).len() ==> is_digit(#[trigger] dec_digits(n)[i]),
    decreases n,
{
    if n >= 10 {
        lemma_dec_digits_are_digits(n / 10);
    }
}

/// A digit character reads back as the value it was made from.
pub proof fn lemma_digit_roundtrip(d: int)
    requires
        0 <= d < 10,
    ensures
        is_digit(digit_char(d)),
        digit_val(digit_char(d)) == d,
{
}

/// Reading a rendered non-negative integer back gives the integer.
pub proof fn lemma_dec_val_of_dec_digits(n: int)
    requires
        n >= 0,
    ensures
        dec_val(dec_digits(n)) == n,
    decreases n,
{
    if n < 10 {
        lemma_digit_roundtrip(n);
        let s = seq![digit_char(n)];
        assert(s.last() == digit_char(n));
        assert(s.drop_last() =~= Seq::<char>::empty());
        assert(dec_val(s.drop_last()) == 0);
    } else {
        lemma_digit_roundtrip(n % 10);
        lemma_dec_val_of_dec_digits(n / 10);
        let s = dec_digits(n / 10).push(digit_char(n % 10));
        assert(s.drop_last() =~= dec_digits(n / 10));
        assert(s.last() == digit_char(n % 10));
        assert(dec_val(s) == dec_val(dec_digits(n / 10)) * 10 + digit_val(digit_char(n % 10)));
    }
}

/// A value below ten to the `k` renders to at most `k` digits.
pub proof fn lemma_dec_digits_len(n: int, k: nat)
    requires
        0 <= n < pow10(k),
        k >= 1,
    ensures
        dec_digits(n).len() <= k,
    decreases n,
{
    if n >= 10 {
        assert(pow10(0) == 1);
        assert(pow10(1) == 10);
        if k == 1 {
            assert(false);
        }
        assert(pow10(k) == 10 * pow10((k - 1) as nat));
        assert(n / 10 < pow10((k - 1) as nat)) by (nonlinear_arith)
            requires
                n < 10 * pow10((k - 1) as nat),
                n >= 10,
        ;
        lemma_dec_digits_len(n / 10, (k - 1) as nat);
    }
}

/// The value of a digit string is non-negative and below ten to its length.
pub proof fn lemma_dec_val_bound(s: Seq<char>)
    requires
        forall|i: int| 0 <= i < s.len() ==> is_digit(#[trigger] s[i]),
    ensures
        0 <= dec_val(s) < pow10(s.len()),
    decreases s.len(),
{
    if s.len() > 0 {
        lemma_dec_val_bound(s.drop_last());
        assert(pow10(s.len()) == 10 * pow10((s.len() - 1) as nat));
        assert(dec_val(s.drop_last()) * 10 + digit_val(s.last()) < pow10(s.len())) by (nonlinear_arith)
            requires
                dec_val(s.drop_last()) < pow10((s.len() - 1) as nat),
                digit_val(s.last()) <= 9,
                pow10(s.len()) == 10 * pow10((s.len() - 1) as nat),
        ;
        assert(dec_val(s.drop_last()) * 10 >= 0) by (nonlinear_arith)
            requires
                dec_val(s.drop_last()) >= 0,
        ;
    }
}

/// Ten to any power is positive.
pub proof fn lemma_pow10_pos(k: nat)
    ensures
        pow10(k) > 0,
    decreases k,
{
    if k > 0 {
        lemma_pow10_pos((k - 1) as nat);
    }
}

/// Ten to the power is monotone in the exponent.
pub proof fn lemma_pow10_mono(a: nat, b: nat)
    requires
        a <= b,
    ensures
        0 < pow10(a) <= pow10(b),
    decreases b,
{
    lemma_pow10_pos(a);
    if a < b {
        lemma_pow10_mono(a, (b - 1) as nat);
        lemma_pow10_pos((b - 1) as nat);
    }
}

/// Ten to the tenth, spelled out.
pub proof fn lemma_pow10_ten()
    ensures
        pow10(10) == 10000000000,
{
    assert(pow10(0) == 1);
    assert(pow10(1) == 10);
    assert(pow10(2) == 100);
    assert(pow10(3) == 1000);
    assert(pow10(4) == 10000);
    assert(pow10(5) == 100000);
    assert(pow10(6) == 1000000);
    assert(pow10(7) == 10000000);
    assert(pow10(8) == 100000000);
    assert(pow10(9) == 1000000000);
}

/// The end of the run of digit characters that starts at `i`.
pub open spec fn scan_digits(s: Seq<char>, i: int) -> int
    decreases s.len() - i,
{
    if i < 0 || i >= s.len() {
        i
    } else if is_digit(s[i]) {
        scan_digits(s, i + 1)
    } else {
        i
    }
}

/// The digit run never ends before the position it starts at.
pub proof fn lemma_scan_digits_ge(s: Seq<char>, i: int)
    requires
        0 <= i,
    ensures
        i <= scan_digits(s, i) <= s.len() || (i >= s.len() && scan_digits(s, i) == i),
    decreases s.len() - i,
{
    if 0 <= i < s.len() && is_digit(s[i]) {
        lemma_scan_digits_ge(s, i + 1);
    }
}

/// The digit run reaches at least as far as any all-digit stretch from `i`.
pub proof fn lemma_scan_digits_at_least(s: Seq<char>, i: int, m: int)
    requires
        0 <= i <= m <= s.len(),
        forall|k: int| i <= k < m ==> is_digit(#[trigger] s[k]),
    ensures
        scan_digits(s, i) >= m,
    decreases m - i,
{
    if i < m {
        assert(is_digit(s[i]));
        lemma_scan_digits_at_least(s, i + 1, m);
    } else {
        lemma_scan_digits_ge(s, i);
    }
}

/// A stretch of digits that ends at the text's end or at a non-digit is
/// exactly what the digit scan finds.
pub proof fn lemma_scan_digits_found(s: Seq<char>, i: int, j: int)
    requires
        0 <= i <= j <= s.len(),
        forall|k: int| i <= k < j ==> is_digit(#[trigger] s[k]),
        j == s.len() || !is_digit(s[j]),
    ensures
        scan_digits(s, i) == j,
    decreases j - i,
{
    if i < j {
        lemma_scan_digits_found(s, i + 1, j);
    }
}

/// A decimal integer read at position `i`: the value of the digit run that
/// starts there, empty or overlong runs rejected.
pub open spec fn spec_parse_uint(s: Seq<char>, i: int) -> Option<(int, int)> {
    let j = scan_digits(s, i);
    if !(0 <= i <= s.len()) {
        None
    } else if j == i || j - i > 10 {
        None
    } else {
        Some((dec_val(s.subrange(i, j)), j))
    }
}

/// A decimal integer with an optional leading minus sign at position `i`.
pub open spec fn spec_parse_int(s: Seq<char>, i: int) -> Option<(int, int)> {
    if 0 <= i < s.len() && s[i] == '-' {
        match spec_parse_uint(s, i + 1) {
            Some(vj) => Some((-vj.0, vj.1)),
            None => None,
        }
    } else {
        spec_parse_uint(s, i)
    }
}

/// A rendered integer embedded in a text, followed by something other than
/// a digit, reads back as the integer it was made from.
pub proof fn lemma_parse_int_at(s: Seq<char>, i: int, val: int)
    requires
        0 <= i,
        i + int_digits(val).len() < s.len(),
        forall|k: int| 0 <= k < int_digits(val).len() ==> s[i + k] == #[trigger] int_digits(
            val,
        )[k],
        !is_digit(s[i + int_digits(val).len()]),
        -9999999999 <= val <= 9999999999,
    ensures
        spec_parse_int(s, i) == Some((val, i + int_digits(val).len())),
{
    lemma_pow10_ten();
    if val >= 0 {
        let d = dec_digits(val);
        assert(int_digits(val) == d);
        lemma_dec_digits_are_digits(val);
        lemma_dec_digits_len(val, 10);
        assert forall|k: int| i <= k < i + d.len() implies is_digit(#[trigger] s[k]) by {
            assert(s[k] == int_digits(val)[k - i]);
            assert(is_digit(d[k - i]));
        }
        lemma_scan_digits_found(s, i, i + d.len());
        assert(s.subrange(i, i + d.len() as int) =~= d);
        lemma_dec_val_of_dec_digits(val);
        assert(is_digit(s[i]));
    } else {
        let m = -val;
        let d = dec_digits(m);
        assert(int_digits(val) == seq!['-'] + d);
        lemma_dec_digits_are_digits(m);
        lemma_dec_digits_len(m, 10);
        assert(s[i] == int_digits(val)[0]);
        assert(s[i] == '-');
        assert forall|k: int| i + 1 <= k < i + 1 + d.len() implies is_digit(#[trigger] s[k]) by {
            assert(s[k] == int_digits(val)[k - i]);
            assert(int_digits(val)[k - i] == d[k - i - 1]);
        }
        lemma_scan_digits_found(s, i + 1, i + 1 + d.len());
        assert forall|k: int| 0 <= k < d.len() implies s.subrange(i + 1, i + 1 + d.len() as int)[k]
            == d[k] by {
            assert(s[i + 1 + k] == int_digits(val)[1 + k]);
        }
        assert(s.subrange(i + 1, i + 1 + d.len() as int) =~= d);
        lemma_dec_val_of_dec_digits(m);
    }
}

/// Reads the digit run at position `i` as an unsigned value.
pub fn parse_uint(s: &str, i: usize) -> (r: Option<(u64, usize)>)
    requires
        i <= s@.len(),
    ensures
        r matches Some(p) ==> i < p.1 <= s@.len() && p.0 <= 9999999999 && spec_parse_uint(
            s@,
            i as int,
        ) == Some((p.0 as int, p.1 as int)),
        r is None ==> spec_parse_uint(s@, i as int) is None,
{
    let n = s.unicode_len();
    let mut j: usize = i;
    let mut v: u64 = 0;
    loop
        invariant
            i <= j <= n,
            n == s@.len(),
            j - i <= 10,
            forall|k: int| i <= k < j ==> is_digit(#[trigger] s@[k]),
            v as int == dec_val(s@.subrange(i as int, j as int)),
            v <= 9999999999,
        ensures
            j == n || !is_digit(s@[j as int]),
        decreases n - j,
    {
        if j == n {
            break ;
        }
        let c = s.get_char(j);
        let d = match char_digit(c) {
            Some(d) => d,
            None => { break ; },
        };
        if j - i == 10 {
            proof {
                lemma_scan_digits_at_least(s@, i as int, j + 1 as int);
            }
            return None;
        }
        proof {
            let pre = s@.subrange(i as int, j as int);
            lemma_dec_val_bound(pre);
            lemma_pow10_mono(pre.len() as nat, 9);
            lemma_pow10_mono(9, 10);
            lemma_pow10_ten();
            assert(s@.subrange(i as int, j + 1 as int).drop_last() =~= pre);
            assert(s@.subrange(i as int, j + 1 as int).last() == s@[j as int]);
        }
        v = v * 10 + d;
        j += 1;
    }
    proof {
        lemma_scan_digits_found(s@, i as int, j as int);
    }
    if j == i {
        return None;
    }
    Some((v, j))
}

/// Reads a decimal integer, with an optional leading minus sign, at
/// position `i`.
pub fn parse_int(s: &str, i: usize) -> (r: Option<(i64, usize)>)
    requires
        i <= s@.len(),
    ensures
        r matches Some(p) ==> i < p.1 <= s@.len() && spec_parse_int(s@, i as int) == Some(
            (p.0 as int, p.1 as int),
        ),
        r is None ==> spec_parse_int(s@, i as int) is None,
{
    let n = s.unicode_len();
    if i < n && s.get_char(i) == '-' {
        match parse_uint(s, i + 1) {
            Some(p) => {
                let sv: i64 = -(p.0 as i64);
                Some((sv, p.1))
            },
            None => None,
        }
    } else {
        match parse_uint(s, i) {
            Some(p) => Some((p.0 as i64, p.1)),
            None => None,
        }
    }
}

/// The digit characters '0' through '9', as a static string each.
fn digit_str(d: u64) -> (r: &'static str)
    requires
        d < 10,
    ensures
        r@ == seq![digit_char(d as int)],
{
    proof {
        reveal_strlit("0");
        reveal_strlit("1");
        reveal_strlit("2");
        reveal_strlit("3");
        reveal_strlit("4");
        reveal_strlit("5");
        reveal_strlit("6");
        reveal_strlit("7");
        reveal_strlit("8");
        reveal_strlit("9");
    }
    let r: &'static str = if d == 0 {
        "0"
    } else if d == 1 {
        "1"
    } else if d == 2 {
        "2"
    } else if d == 3 {
        "3"
    } else if d == 4 {
        "4"
    } else if d == 5 {
        "5"
    } else if d == 6 {
        "6"
    } else if d == 7 {
        "7"
    } else if d == 8 {
        "8"
    } else {
        "9"
    };
    proof {
        assert(r@ =~= seq![digit_char(d as int)]);
    }
    r
}

/// Renders an unsigned value in decimal.
pub fn u64_to_dec(n: u64) -> (r: String)
    ensures
        r@ == dec_digits(n as int),
    decreases n,
{
    if n < 10 {
        digit_str(n).to_owned()
    } else {
        let mut s = u64_to_dec(n / 10);
        s.append(digit_str(n % 10));
        proof {
            assert(s@ =~= dec_digits(n as int));
        }
        s
    }
}

/// Renders a signed value in decimal, with a leading minus sign when it is
/// negative.
pub fn i64_to_dec(v: i64) -> (r: String)
    ensures
        r@ == int_digits(v as int),
{
    if v >= 0 {
        u64_to_dec(v as u64)
    } else {
        let m: u64 = (-(v as i128)) as u64;
        proof {
            assert(m as int == -(v as int));
        }
        let mut s = "-".to_owned();
        let d = u64_to_dec(m);
        s.append(d.as_str());
        proof {
            reveal_strlit("-");
            assert("-"@ =~= seq!['-']);
        }
        s
    }
}

/// The digit value of a character, when it is a digit.
pub fn char_digit(c: char) -> (r: Option<u64>)
    ensures
        r is Some <==> is_digit(c),
        r matches Some(d) ==> d < 10 && d as int == digit_val(c),
{
    if c == '0' {
        Some(0)
    } else if c == '1' {
        Some(1)
    } else if c == '2' {
        Some(2)
    } else if c == '3' {
        Some(3)
    } else if c == '4' {
        Some(4)
    } else if c == '5' {
        Some(5)
    } else if c == '6' {
        Some(6)
    } else if c == '7' {
        Some(7)
    } else if c == '8' {
        Some(8)
    } else if c == '9' {
        Some(9)
    } else {
        None
    }
}

} // verus!
