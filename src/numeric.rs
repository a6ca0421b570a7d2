//! The text of numbers: decimal integers, the decimal-fraction grammar, and
//! the parse of a 64-bit signed integer.
use vstd::prelude::*;

verus! {

pub open spec fn is_digit(c: char) -> bool {
    '0' <= c && c <= '9'
}

pub open spec fn all_digits(s: Seq<char>) -> bool {
    forall|i: int| 0 <= i < s.len() ==> is_digit(#[trigger] s[i])
}

/// The value of one decimal digit.
pub open spec fn digit_value(c: char) -> int {
    (c as u32) as int - ('0' as u32) as int
}

/// The character of a decimal digit `d < 10`.
pub open spec fn digit_char(d: nat) -> char {
    ((d + 48) as u8) as char
}

/// The value of a string of decimal digits, most significant first.
pub open spec fn digits_value(s: Seq<char>) -> int
    decreases s.len(),
{
    if s.len() == 0 {
        0
    } else {
        digits_value(s.drop_last()) * 10 + digit_value(s.last())
    }
}

/// The shortest decimal text of a natural number.
pub open spec fn nat_text(n: nat) -> Seq<char>
    decreases n,
{
    if n < 10 {
        seq![digit_char(n)]
    } else {
        nat_text(n / 10).push(digit_char(n % 10))
    }
}

/// The decimal text of an integer: a minus sign before negative values, no
/// leading zeros.
pub open spec fn int_text(i: int) -> Seq<char> {
    if i < 0 {
        seq!['-'] + nat_text((-i) as nat)
    } else {
        nat_text(i as nat)
    }
}

/// An integer in text form: an optional `+` or `-`, then one or more decimal
/// digits.
pub open spec fn parse_int(s: Seq<char>) -> Option<int> {
    let signed = s.len() > 0 && (s[0] == '+' || s[0] == '-');
    let ds = if signed {
        s.drop_first()
    } else {
        s
    };
    if ds.len() > 0 && all_digits(ds) {
        Some(
            if signed && s[0] == '-' {
                -digits_value(ds)
            } else {
                digits_value(ds)
            },
        )
    } else {
        None
    }
}

/// The integer that a text denotes, where it fits in an `i64`.
pub open spec fn parse_i64_text(s: Seq<char>) -> Option<i64> {
    match parse_int(s) {
        Some(v) => if i64::MIN <= v <= i64::MAX {
            Some(v as i64)
        } else {
            None
        },
        None => None,
    }
}

/// One step of the recogniser of decimal fractions. States: 0 start, 1 after
/// the sign, 2 in the integer digits, 3 at a point with no digit before it,
/// 4 at a point after digits, 5 in the fraction digits, 6 after the exponent
/// mark, 7 after the exponent's sign, 8 in the exponent digits, 9 rejected.
pub open spec fn decimal_step(st: u8, c: char) -> u8 {
    if st == 0 {
        if c == '+' || c == '-' { 1 } else if is_digit(c) { 2 } else if c == '.' { 3 } else { 9 }
    } else if st == 1 {
        if is_digit(c) { 2 } else if c == '.' { 3 } else { 9 }
    } else if st == 2 {
        if is_digit(c) { 2 } else if c == '.' { 4 } else { 9 }
    } else if st == 3 {
        if is_digit(c) { 5 } else { 9 }
    } else if st == 4 || st == 5 {
        if is_digit(c) { 5 } else if c == 'e' || c == 'E' { 6 } else { 9 }
    } else if st == 6 {
        if c == '+' || c == '-' { 7 } else if is_digit(c) { 8 } else { 9 }
    } else if st == 7 || st == 8 {
        if is_digit(c) { 8 } else { 9 }
    } else {
        9
    }
}

/// The state of the recogniser after reading all of `s`.
pub open spec fn decimal_scan(s: Seq<char>) -> u8
    decreases s.len(),
{
    if s.len() == 0 {
        0
    } else {
        decimal_step(decimal_scan(s.drop_last()), s.last())
    }
}

/// A decimal fraction as the float syntax writes it, with its point:
/// `[+-]? (digit+ '.' digit* | '.' digit+) ([eE] [+-]? digit+)?`.
pub open spec fn is_decimal_text(s: Seq<char>) -> bool {
    let st = decimal_scan(s);
    st == 4 || st == 5 || st == 8
}

fn decimal_step_exec(st: u8, c: char) -> (r: u8)
    ensures
        r == decimal_step(st, c),
{
    let digit = '0' <= c && c <= '9';
    if st == 0 {
        if c == '+' || c == '-' { 1 } else if digit { 2 } else if c == '.' { 3 } else { 9 }
    } else if st == 1 {
        if digit { 2 } else if c == '.' { 3 } else { 9 }
    } else if st == 2 {
        if digit { 2 } else if c == '.' { 4 } else { 9 }
    } else if st == 3 {
        if digit { 5 } else { 9 }
    } else if st == 4 || st == 5 {
        if digit { 5 } else if c == 'e' || c == 'E' { 6 } else { 9 }
    } else if st == 6 {
        if c == '+' || c == '-' { 7 } else if digit { 8 } else { 9 }
    } else if st == 7 || st == 8 {
        if digit { 8 } else { 9 }
    } else {
        9
    }
}

/// Whether `s` is a decimal fraction in the float syntax.
pub fn decimal_text(s: &str) -> (r: bool)
    ensures
        r == is_decimal_text(s@),
{
    let n = s.unicode_len();
    let mut st: u8 = 0;
    let mut i: usize = 0;
    while i < n
        invariant
            n == s@.len(),
            i <= n,
            st == decimal_scan(s@.subrange(0, i as int)),
        decreases n - i,
    {
        let c = s.get_char(i);
        proof {
            assert(s@.subrange(0, i + 1).drop_last() =~= s@.subrange(0, i as int));
        }
        st = decimal_step_exec(st, c);
        i = i + 1;
    }
    proof {
        assert(s@.subrange(0, n as int) =~= s@);
    }
    st == 4 || st == 5 || st == 8
}

/// Whether `s` holds a decimal point.
pub fn has_point(s: &str) -> (r: bool)
    ensures
        r == s@.contains('.'),
{
    let n = s.unicode_len();
    let mut i: usize = 0;
    while i < n
        invariant
            n == s@.len(),
            i <= n,
            forall|j: int| 0 <= j < i ==> s@[j] != '.',
        decreases n - i,
    {
        if s.get_char(i) == '.' {
            return true;
        }
        i = i + 1;
    }
    false
}

proof fn lemma_digit_char(d: nat)
    requires
        d < 10,
    ensures
        is_digit(digit_char(d)),
        digit_value(digit_char(d)) == d,
{
}

/// The decimal text of a natural number is a nonempty run of digits whose
/// value is that number.
pub proof fn lemma_nat_text(n: nat)
    ensures
        nat_text(n).len() > 0,
        all_digits(nat_text(n)),
        digits_value(nat_text(n)) == n,
    decreases n,
{
    if n < 10 {
        lemma_digit_char(n);
        assert(nat_text(n).drop_last() =~= Seq::<char>::empty());
        assert(digits_value(Seq::<char>::empty()) == 0);
    } else {
        lemma_nat_text(n / 10);
        lemma_digit_char(n % 10);
        let t = nat_text(n / 10);
        assert(nat_text(n).drop_last() =~= t);
        assert(nat_text(n) =~= t.push(digit_char(n % 10)));
        assert forall|i: int| 0 <= i < nat_text(n).len() implies is_digit(#[trigger] nat_text(n)[i]) by {
            if i < t.len() {
                assert(nat_text(n)[i] == t[i]);
            }
        }
        assert(nat_text(n).last() == digit_char(n % 10));
        assert((n / 10) * 10 + n % 10 == n) by (nonlinear_arith);
        assert(digits_value(nat_text(n)) == digits_value(t) * 10 + digit_value(digit_char(n % 10)));
    }
}

/// Reading back the decimal text of an integer gives that integer.
pub proof fn lemma_int_text_parses(i: int)
    ensures
        parse_int(int_text(i)) == Some(i),
        !int_text(i).contains('.'),
{
    if i < 0 {
        let m = (-i) as nat;
        lemma_nat_text(m);
        let t = int_text(i);
        assert(t.drop_first() =~= nat_text(m));
        assert(t[0] == '-');
        assert forall|j: int| 0 <= j < t.len() implies t[j] != '.' by {
            if j > 0 {
                assert(t[j] == nat_text(m)[j - 1]);
            }
        }
    } else {
        lemma_nat_text(i as nat);
        let t = int_text(i);
        assert(is_digit(t[0]));
        assert forall|j: int| 0 <= j < t.len() implies t[j] != '.' by {
            assert(is_digit(t[j]));
        }
    }
}

/// Relies on serde_json's `Number::from(u64)` and its `Display` (itoa): the
/// number prints as its decimal digits.
#[verifier::external_body]
pub(crate) fn u64_text(u: u64) -> (r: String)
    ensures
        r@ == int_text(u as int),
{
    serde_json::Number::from(u).to_string()
}

/// Relies on serde_json's `Number::from(i64)` and its `Display` (itoa): the
/// number prints as its decimal digits, after a `-` where it is negative.
#[verifier::external_body]
pub(crate) fn i64_text(i: i64) -> (r: String)
    ensures
        r@ == int_text(i as int),
{
    serde_json::Number::from(i).to_string()
}

/// Relies on `i64::from_str` (std): an optional sign followed by decimal
/// digits only, whose value lies in the range of `i64`; anything else is an
/// error.
#[verifier::external_body]
pub(crate) fn parse_i64(s: &str) -> (r: Option<i64>)
    ensures
        r == parse_i64_text(s@),
{
    s.parse::<i64>().ok()
}

} // verus!
