//! Decimal numbers in text.

use crate::text::chars_of;
use vstd::prelude::*;

verus! {

/// Whether `c` is a decimal digit.
pub open spec fn is_digit(c: char) -> bool {
    '0' <= c <= '9'
}

/// Whether `s` is one or more decimal digits.
pub open spec fn is_number(s: Seq<char>) -> bool {
    s.len() > 0 && forall|i: int| 0 <= i < s.len() ==> is_digit(#[trigger] s[i])
}

/// The number that the digits of `s` write.
pub open spec fn value(s: Seq<char>) -> int
    decreases s.len(),
{
    if s.len() == 0 {
        0
    } else {
        10 * value(s.drop_last()) + (s.last() as int - '0' as int)
    }
}

/// `s` without one leading plus sign.
pub open spec fn without_plus(s: Seq<char>) -> Seq<char> {
    if s.len() > 0 && s[0] == '+' {
        s.skip(1)
    } else {
        s
    }
}

/// The `u32` that `s` writes: digits, with a plus sign in front or none.
pub open spec fn u32_of(s: Seq<char>) -> Option<u32> {
    let digits = without_plus(s);
    if is_number(digits) && value(digits) <= u32::MAX {
        Some(value(digits) as u32)
    } else {
        None
    }
}

/// The `i32` that `s` writes: digits, with a sign in front or none.
pub open spec fn i32_of(s: Seq<char>) -> Option<i32> {
    if s.len() > 0 && s[0] == '-' {
        let digits = s.skip(1);
        if is_number(digits) && value(digits) <= -(i32::MIN as int) {
            Some((-value(digits)) as i32)
        } else {
            None
        }
    } else {
        let digits = without_plus(s);
        if is_number(digits) && value(digits) <= i32::MAX {
            Some(value(digits) as i32)
        } else {
            None
        }
    }
}

proof fn lemma_value_grows(s: Seq<char>, i: int)
    requires
        forall|j: int| 0 <= j < s.len() ==> is_digit(#[trigger] s[j]),
        0 <= i <= s.len(),
    ensures
        0 <= value(s.take(i)) <= value(s),
    decreases s.len(),
{
    if s.len() == 0 {
        assert(s.take(i) =~= s);
    } else if i == s.len() {
        assert(s.take(i) =~= s);
        lemma_value_grows(s.drop_last(), s.len() - 1);
        assert(s.drop_last().take(s.len() - 1) =~= s.drop_last());
        assert(is_digit(s.last()));
    } else {
        lemma_value_grows(s.drop_last(), i);
        assert(s.drop_last().take(i) =~= s.take(i));
        assert(is_digit(s.last()));
    }
}

/// The number that the characters from `from` on write, where it does not exceed `limit`.
fn digits_from(chars: &Vec<char>, from: usize, limit: u32) -> (r: Option<u32>)
    requires
        from <= chars.len(),
    ensures
        match r {
            Some(v) => is_number(chars@.skip(from as int)) && value(chars@.skip(from as int)) == v
                && v <= limit,
            None => !(is_number(chars@.skip(from as int)) && value(chars@.skip(from as int))
                <= limit),
        },
{
    let ghost digits = chars@.skip(from as int);
    if from == chars.len() {
        return None;
    }
    let mut v: u64 = 0;
    let mut i: usize = from;
    assert(digits.take(0) =~= Seq::<char>::empty());
    while i < chars.len()
        invariant
            from <= i <= chars.len(),
            digits == chars@.skip(from as int),
            forall|j: int| 0 <= j < i - from ==> is_digit(#[trigger] digits[j]),
            v == value(digits.take(i - from)),
            v <= limit,
        decreases chars.len() - i,
    {
        let c = chars[i];
        assert(digits[i - from] == c);
        if !('0' <= c && c <= '9') {
            assert(!is_digit(digits[i - from]));
            return None;
        }
        v = 10 * v + (c as u64 - '0' as u64);
        proof {
            assert(digits.take(i - from + 1).drop_last() =~= digits.take(i - from));
            assert(digits.take(i - from + 1).last() == c);
        }
        if v > limit as u64 {
            proof {
                if is_number(digits) {
                    lemma_value_grows(digits, i - from + 1);
                }
            }
            return None;
        }
        i = i + 1;
    }
    assert(digits.take(i - from) =~= digits);
    Some(v as u32)
}

/// Reads a `u32`.
pub fn parse_u32(s: &str) -> (r: Option<u32>)
    ensures
        r == u32_of(s@),
{
    let chars = chars_of(s);
    assert(chars@.skip(0) =~= chars@);
    let from: usize = if chars.len() > 0 && chars[0] == '+' {
        1
    } else {
        0
    };
    digits_from(&chars, from, u32::MAX)
}

/// Reads an `i32`.
pub fn parse_i32(s: &str) -> (r: Option<i32>)
    ensures
        r == i32_of(s@),
{
    let chars = chars_of(s);
    assert(chars@.skip(0) =~= chars@);
    if chars.len() > 0 && chars[0] == '-' {
        match digits_from(&chars, 1, 2147483648u32) {
            Some(v) => Some((0 - v as i64) as i32),
            None => None,
        }
    } else {
        let from: usize = if chars.len() > 0 && chars[0] == '+' {
            1
        } else {
            0
        };
        match digits_from(&chars, from, 2147483647u32) {
            Some(v) => Some(v as i32),
            None => None,
        }
    }
}

/// The digit that writes `d`.
pub open spec fn digit_char(d: int) -> char {
    ('0' as int + d) as char
}

/// `n` in decimal digits, without leading zeros.
pub open spec fn decimal_of(n: nat) -> Seq<char>
    decreases n,
{
    if n < 10 {
        seq![digit_char(n as int)]
    } else {
        decimal_of(n / 10).push(digit_char((n % 10) as int))
    }
}

/// `n` in decimal digits, with a minus sign in front where it is negative.
pub open spec fn decimal_of_int(n: int) -> Seq<char> {
    if n < 0 {
        seq!['-'] + decimal_of((-n) as nat)
    } else {
        decimal_of(n as nat)
    }
}

/// A number written in decimal is digits, and they write that number.
pub proof fn lemma_decimal_value(n: nat)
    ensures
        is_number(decimal_of(n)),
        value(decimal_of(n)) == n,
    decreases n,
{
    let s = decimal_of(n);
    if n < 10 {
        assert(s.drop_last() =~= Seq::<char>::empty());
        assert(value(s.drop_last()) == 0);
    } else {
        lemma_decimal_value(n / 10);
        assert(s.drop_last() =~= decimal_of(n / 10));
    }
}

/// Reading back a `u32` that was written in decimal gives it back.
pub proof fn law_decimal_read_back_u32(n: u32)
    ensures
        u32_of(decimal_of(n as nat)) == Some(n),
{
    lemma_decimal_value(n as nat);
    assert(is_digit(decimal_of(n as nat)[0]));
}

/// Reading back an `i32` that was written in decimal gives it back.
pub proof fn law_decimal_read_back_i32(n: i32)
    ensures
        i32_of(decimal_of_int(n as int)) == Some(n),
{
    if n < 0 {
        lemma_decimal_value((-n) as nat);
        assert(decimal_of_int(n as int).skip(1) =~= decimal_of((-n) as nat));
    } else {
        lemma_decimal_value(n as nat);
        assert(is_digit(decimal_of(n as nat)[0]));
    }
}

fn digit_str(d: u64) -> (r: &'static str)
    requires
        d < 10,
    ensures
        r@ == seq![digit_char(d as int)],
{
    proof {
        reveal_strlit("0");
        reveal_strlit("1");
        reveal_strlit("2");
        reveal_strlit("3");
        reveal_strlit("4");
        reveal_strlit("5");
        reveal_strlit("6");
        reveal_strlit("7");
        reveal_strlit("8");
        reveal_strlit("9");
    }
    let r = match d {
        0 => "0",
        1 => "1",
        2 => "2",
        3 => "3",
        4 => "4",
        5 => "5",
        6 => "6",
        7 => "7",
        8 => "8",
        _ => "9",
    };
    assert(r@ =~= seq![digit_char(d as int)]);
    r
}

/// Writes a number in decimal.
pub fn decimal(n: u64) -> (r: String)
    ensures
        r@ == decimal_of(n as nat),
    decreases n,
{
    if n < 10 {
        digit_str(n).to_owned()
    } else {
        let mut r = decimal(n / 10);
        let ghost before = r@;
        r.append(digit_str(n % 10));
        assert(r@ =~= before.push(digit_char((n % 10) as int)));
        r
    }
}

/// Writes a signed number in decimal.
pub fn decimal_i32(n: i32) -> (r: String)
    ensures
        r@ == decimal_of_int(n as int),
{
    if n < 0 {
        let mut r = "-".to_owned();
        r.append(decimal((0 - n as i64) as u64).as_str());
        proof {
            reveal_strlit("-");
            assert("-"@ =~= seq!['-']);
        }
        r
    } else {
        decimal(n as u64)
    }
}

/// Numbers are read digit by digit: one digit is its value, a further digit makes ten times as much and
/// that digit, and what does not fit is no number. A sign in front is taken as such, and nothing but a
/// sign and digits is a number.
pub proof fn law_u32_reading(s: Seq<char>, d: char, i: int)
    ensures
        is_digit(d) ==> u32_of(seq![d]) == Some((d as int - '0' as int) as u32),
        is_number(s) && is_digit(d) && u32_of(s) is Some && 10 * u32_of(s)->Some_0 + (d as int
            - '0' as int) <= u32::MAX ==> u32_of(s.push(d)) == Some(
            (10 * u32_of(s)->Some_0 + (d as int - '0' as int)) as u32,
        ),
        is_number(s) && is_digit(d) && (u32_of(s) is None || 10 * u32_of(s)->Some_0 + (d as int
            - '0' as int) > u32::MAX) ==> u32_of(s.push(d)) is None,
        is_number(s) ==> u32_of(seq!['+'] + s) == u32_of(s),
        u32_of(s) is Some && 0 <= i < s.len() ==> '0' <= s[i] <= '9' || (i == 0 && s[0] == '+' && s.len()
            > 1),
        u32_of(Seq::empty()) is None,
{
    lemma_appended(s, d);
    if is_number(s) {
        assert(is_digit(s[0]));
        assert((seq!['+'] + s).skip(1) =~= s);
        assert(s.push(d)[0] == s[0]);
        lemma_value_grows(s, 0);
    }
    lemma_one_digit(d);
    if u32_of(s) is Some && 0 <= i < s.len() {
        if s[0] == '+' {
            if i > 0 {
                assert(is_digit(s.skip(1)[i - 1]));
            }
        } else {
            assert(is_digit(s[i]));
        }
    }
}

proof fn lemma_one_digit(d: char)
    ensures
        is_digit(d) ==> is_number(seq![d]) && value(seq![d]) == d as int - '0' as int,
{
    if is_digit(d) {
        assert(seq![d].drop_last() =~= Seq::<char>::empty());
        assert(value(seq![d].drop_last()) == 0);
        assert forall|i: int| 0 <= i < seq![d].len() implies is_digit(#[trigger] seq![d][i]) by {}
    }
}

proof fn lemma_appended(s: Seq<char>, d: char)
    ensures
        value(s.push(d)) == 10 * value(s) + (d as int - '0' as int),
        is_number(s) && is_digit(d) ==> is_number(s.push(d)),
{
    let all = s.push(d);
    assert(all.drop_last() =~= s);
    if is_number(s) && is_digit(d) {
        assert forall|i: int| 0 <= i < all.len() implies is_digit(#[trigger] all[i]) by {
            if i < s.len() {
                assert(all[i] == s[i]);
            }
        }
    }
}

/// Signed numbers are read digit by digit too, and with a minus sign in front they count down from
/// zero.
pub proof fn law_i32_reading(s: Seq<char>, d: char, i: int)
    ensures
        is_digit(d) ==> i32_of(seq![d]) == Some((d as int - '0' as int) as i32),
        is_number(s) && is_digit(d) && i32_of(s) is Some && 10 * i32_of(s)->Some_0 + (d as int
            - '0' as int) <= i32::MAX ==> i32_of(s.push(d)) == Some(
            (10 * i32_of(s)->Some_0 + (d as int - '0' as int)) as i32,
        ),
        is_number(s) && is_digit(d) && (i32_of(s) is None || 10 * i32_of(s)->Some_0 + (d as int
            - '0' as int) > i32::MAX) ==> i32_of(s.push(d)) is None,
        is_number(s) ==> i32_of(seq!['+'] + s) == i32_of(s),
        is_number(s) && i32_of(s) is Some ==> i32_of(seq!['-'] + s) == Some((-i32_of(s)->Some_0) as i32),
        is_number(s) && i32_of(s) is None ==> (i32_of(seq!['-'] + s) is Some <==> u32_of(s) == Some(
            0x8000_0000u32,
        )),
        i32_of(s) is Some && 0 <= i < s.len() ==> '0' <= s[i] <= '9' || (i == 0 && s.len() > 1 && (s[0]
            == '+' || s[0] == '-')),
        i32_of(Seq::empty()) is None,
{
    lemma_appended(s, d);
    if is_number(s) {
        assert(is_digit(s[0]));
        assert((seq!['+'] + s).skip(1) =~= s);
        assert((seq!['-'] + s).skip(1) =~= s);
        assert((seq!['-'] + s)[0] == '-');
        assert((seq!['+'] + s)[0] == '+');
        assert(s.push(d)[0] == s[0]);
        lemma_value_grows(s, 0);
    }
    lemma_one_digit(d);
    if i32_of(s) is Some && 0 <= i < s.len() {
        if s[0] == '+' || s[0] == '-' {
            if i > 0 {
                assert(is_digit(s.skip(1)[i - 1]));
            }
        } else {
            assert(is_digit(s[i]));
        }
    }
}

/// A number is written in digits that write it, without a zero in front of others. A negative one has a
/// minus sign in front.
pub proof fn law_decimal(n: nat, i: int)
    ensures
        0 <= i < decimal_of(n).len() ==> '0' <= decimal_of(n)[i] <= '9',
        decimal_of(n).len() > 0,
        decimal_of(n).len() > 1 ==> decimal_of(n)[0] != '0',
        value(decimal_of(n)) == n,
        decimal_of_int(n as int) == decimal_of(n),
        n > 0 ==> decimal_of_int(-(n as int)) == seq!['-'] + decimal_of(n),
{
    lemma_decimal_value(n);
    lemma_no_leading_zero(n);
    assert(0 <= i < decimal_of(n).len() ==> is_digit(decimal_of(n)[i]));
}

proof fn lemma_no_leading_zero(n: nat)
    ensures
        decimal_of(n).len() > 0,
        n > 0 ==> decimal_of(n)[0] != '0',
        n < 10 ==> decimal_of(n).len() == 1,
    decreases n,
{
    if n >= 10 {
        lemma_no_leading_zero(n / 10);
        assert(decimal_of(n)[0] == decimal_of(n / 10)[0]);
    } else {
        assert(n > 0 ==> digit_char(n as int) != '0');
    }
}

} // verus!
