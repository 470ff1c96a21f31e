//! Canonical text forms of the typed cell values: decimal integers,
//! booleans and ISO dates, with their parsers and round-trip proofs.

use vstd::prelude::*;

use crate::table::{days_in_month, ColumnType, Date};

verus! {

/// The decimal digit character for `d` (meaningful for `0 <= d <= 9`).
pub open spec fn digit_char(d: int) -> char {
    ((d + 48) as u8) as char
}

/// Whether `c` is a decimal digit character.
pub open spec fn is_digit(c: char) -> bool {
    '0' <= c <= '9'
}

/// The numeric value of a digit character.
pub open spec fn digit_val(c: char) -> int {
    c as int - 48
}

/// The decimal digits of a natural number, most significant first.
pub open spec fn nat_text(n: nat) -> Seq<char>
    decreases n,
{
    if n < 10 {
        seq![digit_char(n as int)]
    } else {
        nat_text(n / 10).push(digit_char((n % 10) as int))
    }
}

/// The canonical decimal text of an integer: a minus sign for negative
/// values, then the digits without leading zeros.
pub open spec fn int_text(v: int) -> Seq<char> {
    if v < 0 {
        seq!['-'] + nat_text((-v) as nat)
    } else {
        nat_text(v as nat)
    }
}

/// Every character of `s` is a decimal digit.
pub open spec fn all_digits(s: Seq<char>) -> bool {
    forall|i: int| 0 <= i < s.len() ==> is_digit(#[trigger] s[i])
}

/// The value of a digit string, most significant digit first.
pub open spec fn digits_val(s: Seq<char>) -> int
    decreases s.len(),
{
    if s.len() == 0 {
        0
    } else {
        digits_val(s.drop_last()) * 10 + digit_val(s.last())
    }
}

/// Whether `s` is the text of some 64-bit signed integer: an optional
/// minus sign, then one or more digits, within the `i64` range.
pub open spec fn int_like(s: Seq<char>) -> bool {
    if s.len() > 0 && s[0] == '-' {
        s.len() >= 2 && all_digits(s.skip(1)) && digits_val(s.skip(1)) <= 0x8000_0000_0000_0000
    } else {
        s.len() >= 1 && all_digits(s) && digits_val(s) <= i64::MAX
    }
}

/// The integer value of an `int_like` string.
pub open spec fn int_of_text(s: Seq<char>) -> int {
    if s.len() > 0 && s[0] == '-' {
        -digits_val(s.skip(1))
    } else {
        digits_val(s)
    }
}

/// The canonical text of a boolean.
pub open spec fn bool_text(b: bool) -> Seq<char> {
    if b {
        seq!['t', 'r', 'u', 'e']
    } else {
        seq!['f', 'a', 'l', 's', 'e']
    }
}

/// Whether `s` is the canonical text of some boolean.
pub open spec fn bool_like(s: Seq<char>) -> bool {
    s == bool_text(true) || s == bool_text(false)
}

/// The boolean value of a `bool_like` string.
pub open spec fn bool_of_text(s: Seq<char>) -> bool {
    s == bool_text(true)
}

/// The ISO text of a date: four year digits, two month digits and two
/// day digits, separated by minus signs.
pub open spec fn date_text(d: Date) -> Seq<char> {
    seq![
        digit_char(d.year as int / 1000),
        digit_char((d.year as int / 100) % 10),
        digit_char((d.year as int / 10) % 10),
        digit_char(d.year as int % 10),
        '-',
        digit_char(d.month as int / 10),
        digit_char(d.month as int % 10),
        '-',
        digit_char(d.day as int / 10),
        digit_char(d.day as int % 10),
    ]
}

/// The date encoded by a `date_like` string.
pub open spec fn date_of_text(s: Seq<char>) -> Date {
    Date {
        year: (digit_val(s[0]) * 1000 + digit_val(s[1]) * 100 + digit_val(s[2]) * 10 + digit_val(
            s[3],
        )) as u16,
        month: (digit_val(s[5]) * 10 + digit_val(s[6])) as u8,
        day: (digit_val(s[8]) * 10 + digit_val(s[9])) as u8,
    }
}

/// Whether `s` is the ISO text of some valid calendar date.
pub open spec fn date_like(s: Seq<char>) -> bool {
    &&& s.len() == 10
    &&& is_digit(s[0]) && is_digit(s[1]) && is_digit(s[2]) && is_digit(s[3])
    &&& s[4] == '-'
    &&& is_digit(s[5]) && is_digit(s[6])
    &&& s[7] == '-'
    &&& is_digit(s[8]) && is_digit(s[9])
    &&& date_of_text(s).valid()
}

/// Pushes the digit character for `d` (a value below ten).
fn push_digit(out: &mut Vec<char>, d: u64)
    requires
        d < 10,
    ensures
        final(out)@ == old(out)@.push(digit_char(d as int)),
{
    out.push((d as u8 + 48) as char)
}

/// Appends the decimal digits of `n` to `out`.
pub fn push_nat(out: &mut Vec<char>, n: u64)
    ensures
        final(out)@ == old(out)@ + nat_text(n as nat),
    decreases n,
{
    if n < 10 {
        push_digit(out, n);
        assert(out@ =~= old(out)@ + nat_text(n as nat));
    } else {
        push_nat(out, n / 10);
        push_digit(out, n % 10);
        assert(out@ =~= old(out)@ + nat_text(n as nat));
    }
}

/// Appends the canonical decimal text of `v` to `out`.
pub fn push_int(out: &mut Vec<char>, v: i64)
    ensures
        final(out)@ == old(out)@ + int_text(v as int),
{
    if v < 0 {
        out.push('-');
        let m: u64 = (-(v as i128)) as u64;
        push_nat(out, m);
        assert(out@ =~= old(out)@ + int_text(v as int));
    } else {
        push_nat(out, v as u64);
    }
}

/// Appends the canonical text of `b` to `out`.
pub fn push_bool(out: &mut Vec<char>, b: bool)
    ensures
        final(out)@ == old(out)@ + bool_text(b),
{
    if b {
        out.push('t');
        out.push('r');
        out.push('u');
        out.push('e');
    } else {
        out.push('f');
        out.push('a');
        out.push('l');
        out.push('s');
        out.push('e');
    }
    assert(out@ =~= old(out)@ + bool_text(b));
}

/// Appends the ISO text of `d` to `out`.
pub fn push_date(out: &mut Vec<char>, d: Date)
    requires
        d.valid(),
    ensures
        final(out)@ == old(out)@ + date_text(d),
{
    push_digit(out, d.year as u64 / 1000);
    push_digit(out, (d.year as u64 / 100) % 10);
    push_digit(out, (d.year as u64 / 10) % 10);
    push_digit(out, d.year as u64 % 10);
    out.push('-');
    push_digit(out, d.month as u64 / 10);
    push_digit(out, d.month as u64 % 10);
    out.push('-');
    push_digit(out, d.day as u64 / 10);
    push_digit(out, d.day as u64 % 10);
    assert(out@ =~= old(out)@ + date_text(d));
}

/// The value of a digit string is never negative.
pub proof fn lemma_digits_val_nonneg(s: Seq<char>)
    requires
        all_digits(s),
    ensures
        digits_val(s) >= 0,
    decreases s.len(),
{
    if s.len() > 0 {
        lemma_digits_val_nonneg(s.drop_last());
    }
}

/// Parses `s` as a 64-bit signed integer in canonical decimal form.
#[verifier::loop_isolation(false)]
pub fn parse_int_chars(s: &Vec<char>) -> (r: Option<i64>)
    ensures
        r is Some <==> int_like(s@),
        r is Some ==> r->Some_0 as int == int_of_text(s@),
{
    let ghost sv = s@;
    let negative = s.len() > 0 && s[0] == '-';
    let start: usize = if negative {
        1
    } else {
        0
    };
    if s.len() == start {
        return None;
    }
    let ghost digits = if negative {
        sv.skip(1)
    } else {
        sv
    };
    let mut acc: u128 = 0;
    let mut i: usize = start;
    // One above the largest magnitude that any sign can take.
    let cap: u128 = 0x8000_0000_0000_0001;
    while i < s.len()
        invariant
            start <= i <= s.len(),
            start == if negative {
                1int
            } else {
                0int
            },
            negative ==> sv.len() > 0 && sv[0] == '-',
            digits == if negative {
                sv.skip(1)
            } else {
                sv
            },
            sv == s@,
            all_digits(digits.take(i - start)),
            acc == if digits_val(digits.take(i - start)) <= 0x8000_0000_0000_0000 {
                digits_val(digits.take(i - start))
            } else {
                cap as int
            },
            acc <= cap,
        decreases s@.len() - i,
    {
        let c = s[i];
        if c < '0' || c > '9' {
            proof {
                assert(digits[i - start] == sv[i as int]);
                assert(!is_digit(digits[i - start]));
                assert(!all_digits(digits));
            }
            return None;
        }
        let d: u128 = (c as u32 - 48) as u128;
        proof {
            assert(digits.take(i + 1 - start).drop_last() =~= digits.take(i - start));
            assert(digits.take(i + 1 - start).last() == digits[i - start]);
            lemma_digits_val_nonneg(digits.take(i - start));
        }
        acc = acc * 10 + d;
        if acc > cap {
            acc = cap;
        }
        i += 1;
    }
    proof {
        assert(digits.take(i - start) =~= digits);
        lemma_digits_val_nonneg(digits);
    }
    if negative {
        if acc > 0x8000_0000_0000_0000 {
            return None;
        }
        if acc == 0x8000_0000_0000_0000 {
            return Some(i64::MIN);
        }
        Some(-(acc as i64))
    } else {
        if acc > i64::MAX as u128 {
            return None;
        }
        Some(acc as i64)
    }
}

/// Parses `s` as the canonical text of a boolean.
pub fn parse_bool_chars(s: &Vec<char>) -> (r: Option<bool>)
    ensures
        r is Some <==> bool_like(s@),
        r is Some ==> r->Some_0 == bool_of_text(s@),
{
    if s.len() == 4 && s[0] == 't' && s[1] == 'r' && s[2] == 'u' && s[3] == 'e' {
        proof {
            assert(s@ =~= bool_text(true));
        }
        Some(true)
    } else if s.len() == 5 && s[0] == 'f' && s[1] == 'a' && s[2] == 'l' && s[3] == 's' && s[4]
        == 'e' {
        proof {
            assert(s@ =~= bool_text(false));
        }
        Some(false)
    } else {
        proof {
            if bool_like(s@) {
                assert(s@.len() == 4 || s@.len() == 5);
            }
        }
        None
    }
}

/// Reads the digit at position `i` (callers check it is a digit).
fn digit_at(s: &Vec<char>, i: usize) -> (r: Option<u16>)
    requires
        i < s@.len(),
    ensures
        r is Some <==> is_digit(s@[i as int]),
        r is Some ==> r->Some_0 as int == digit_val(s@[i as int]),
{
    let c = s[i];
    if c < '0' || c > '9' {
        None
    } else {
        Some(c as u16 - 48)
    }
}

/// Parses `s` as the ISO text of a valid calendar date.
pub fn parse_date_chars(s: &Vec<char>) -> (r: Option<Date>)
    ensures
        r is Some <==> date_like(s@),
        r is Some ==> r->Some_0 == date_of_text(s@),
{
    if s.len() != 10 {
        return None;
    }
    if !(s[4] == '-' && s[7] == '-') {
        return None;
    }
    let (y0, y1, y2, y3) = match (digit_at(s, 0), digit_at(s, 1), digit_at(s, 2), digit_at(s, 3)) {
        (Some(a), Some(b), Some(c), Some(d)) => (a, b, c, d),
        _ => {
            return None;
        },
    };
    let (m0, m1) = match (digit_at(s, 5), digit_at(s, 6)) {
        (Some(a), Some(b)) => (a, b),
        _ => {
            return None;
        },
    };
    let (d0, d1) = match (digit_at(s, 8), digit_at(s, 9)) {
        (Some(a), Some(b)) => (a, b),
        _ => {
            return None;
        },
    };
    let date = Date {
        year: y0 * 1000 + y1 * 100 + y2 * 10 + y3,
        month: (m0 * 10 + m1) as u8,
        day: (d0 * 10 + d1) as u8,
    };
    if date.is_valid() {
        Some(date)
    } else {
        None
    }
}

/// The digit characters: decimal digits, never a sign, separator,
/// quote or line break.
pub proof fn lemma_digit_char_props(d: int)
    requires
        0 <= d < 10,
    ensures
        is_digit(digit_char(d)),
        digit_val(digit_char(d)) == d,
        digit_char(d) != '-' && digit_char(d) != ',' && digit_char(d) != '\"' && digit_char(d)
            != '\n' && digit_char(d) != '\r',
{
    assert(digit_char(d) as int == d + 48);
}

/// The decimal digits of a natural number form a digit string encoding
/// that number.
pub proof fn lemma_nat_text_val(n: nat)
    ensures
        all_digits(nat_text(n)),
        digits_val(nat_text(n)) == n,
        nat_text(n).len() >= 1,
        is_digit(nat_text(n)[0]),
    decreases n,
{
    if n < 10 {
        lemma_digit_char_props(n as int);
        assert(nat_text(n) == seq![digit_char(n as int)]);
        assert(nat_text(n).len() == 1);
        assert(nat_text(n).last() == digit_char(n as int));
        assert(nat_text(n).drop_last() =~= Seq::<char>::empty());
        assert(digits_val(Seq::<char>::empty()) == 0);
        assert(digits_val(nat_text(n)) == digits_val(nat_text(n).drop_last()) * 10 + digit_val(
            nat_text(n).last(),
        ));
    } else {
        lemma_nat_text_val(n / 10);
        lemma_digit_char_props((n % 10) as int);
        assert(nat_text(n) == nat_text(n / 10).push(digit_char((n % 10) as int)));
        assert(nat_text(n).drop_last() =~= nat_text(n / 10));
        assert(nat_text(n).last() == digit_char((n % 10) as int));
        assert(digits_val(nat_text(n)) == digits_val(nat_text(n / 10)) * 10 + digit_val(
            nat_text(n).last(),
        ));
        assert(digits_val(nat_text(n)) == (n / 10) * 10 + (n % 10));
        assert(n == (n / 10) * 10 + (n % 10));
        assert(forall|i: int|
            0 <= i < nat_text(n).len() ==> is_digit(#[trigger] nat_text(n)[i]));
    }
}

/// The canonical text of a 64-bit integer parses back to that integer,
/// and holds only digits and a sign.
pub proof fn lemma_int_text_round_trip(v: int)
    requires
        i64::MIN <= v <= i64::MAX,
    ensures
        int_like(int_text(v)),
        int_of_text(int_text(v)) == v,
        forall|i: int|
            0 <= i < int_text(v).len() ==> is_digit(#[trigger] int_text(v)[i]) || int_text(v)[i]
                == '-',
{
    if v < 0 {
        lemma_nat_text_val((-v) as nat);
        assert(int_text(v).skip(1) =~= nat_text((-v) as nat));
    } else {
        lemma_nat_text_val(v as nat);
        assert(int_text(v)[0] != '-');
    }
}

/// The canonical text of a boolean parses back to that boolean and is
/// neither an integer nor a date text, and holds no special character.
pub proof fn lemma_bool_text_props(b: bool)
    ensures
        bool_like(bool_text(b)),
        bool_of_text(bool_text(b)) == b,
        !int_like(bool_text(b)),
        !date_like(bool_text(b)),
        forall|i: int|
            0 <= i < bool_text(b).len() ==> #[trigger] bool_text(b)[i] != ',' && bool_text(b)[i]
                != '\"' && bool_text(b)[i] != '\n' && bool_text(b)[i] != '\r',
{
    assert(bool_text(true).len() == 4);
    assert(bool_text(false).len() == 5);
    assert(bool_text(b)[0] != '-');
    assert(!is_digit(bool_text(b)[0]));
}

/// The ISO text of a valid date parses back to that date, is neither an
/// integer nor a boolean text, and holds no special character.
pub proof fn lemma_date_text_round_trip(d: Date)
    requires
        d.valid(),
    ensures
        date_like(date_text(d)),
        date_of_text(date_text(d)) == d,
        !int_like(date_text(d)),
        !bool_like(date_text(d)),
        forall|i: int|
            0 <= i < date_text(d).len() ==> #[trigger] date_text(d)[i] != ',' && date_text(d)[i]
                != '\"' && date_text(d)[i] != '\n' && date_text(d)[i] != '\r',
{
    let y = d.year as int;
    let m = d.month as int;
    let dd = d.day as int;
    lemma_digit_char_props(y / 1000);
    lemma_digit_char_props((y / 100) % 10);
    lemma_digit_char_props((y / 10) % 10);
    lemma_digit_char_props(y % 10);
    lemma_digit_char_props(m / 10);
    lemma_digit_char_props(m % 10);
    lemma_digit_char_props(dd / 10);
    lemma_digit_char_props(dd % 10);
    assert((y / 1000) * 1000 + ((y / 100) % 10) * 100 + ((y / 10) % 10) * 10 + y % 10 == y) by (nonlinear_arith)
        requires
            0 <= y <= 9999,
    ;
    assert((m / 10) * 10 + m % 10 == m) by (nonlinear_arith)
        requires
            0 <= m <= 12,
    ;
    assert((dd / 10) * 10 + dd % 10 == dd) by (nonlinear_arith)
        requires
            0 <= dd <= 31,
    ;
    assert(!is_digit(date_text(d)[4]));
    assert(date_text(d)[0] != '-');
}

} // verus!
