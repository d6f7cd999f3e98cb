//! Whole numbers and truth values as text.

use crate::text::{chars_of, same_text};
use vstd::prelude::*;

verus! {

/// Whether `c` is an ASCII decimal digit.
pub open spec fn is_digit(c: char) -> bool {
    '0' <= c <= '9'
}

/// The value of a decimal digit.
pub open spec fn digit_value(c: char) -> nat {
    (c as int - '0' as int) as nat
}

/// The decimal digit of a value below ten.
pub open spec fn digit_char(d: nat) -> char {
    ('0' as int + d) as char
}

/// At least one character, and all of them decimal digits.
pub open spec fn all_digits(s: Seq<char>) -> bool {
    s.len() > 0 && forall|i: int| 0 <= i < s.len() ==> is_digit(#[trigger] s[i])
}

/// The number that a run of decimal digits writes.
pub open spec fn digits_value(s: Seq<char>) -> nat
    decreases s.len(),
{
    if s.len() == 0 {
        0
    } else {
        digits_value(s.drop_last()) * 10 + digit_value(s.last())
    }
}

/// The decimal digits of `n`, without leading zeros.
pub open spec fn decimal(n: nat) -> Seq<char>
    decreases n,
{
    if n < 10 {
        seq![digit_char(n)]
    } else {
        decimal(n / 10).push(digit_char(n % 10))
    }
}

/// The decimal digits of `n`, with a minus sign before a negative number.
pub open spec fn signed_decimal(n: int) -> Seq<char> {
    if n < 0 {
        seq!['-'] + decimal((-n) as nat)
    } else {
        decimal(n as nat)
    }
}

/// The unsigned number in `s`: decimal digits after an optional plus sign,
/// at most `max`.
pub open spec fn unsigned_in(s: Seq<char>, max: nat) -> Option<nat> {
    let body = if s.len() > 0 && s[0] == '+' {
        s.skip(1)
    } else {
        s
    };
    if all_digits(body) && digits_value(body) <= max {
        Some(digits_value(body))
    } else {
        None
    }
}

/// The signed number in `s`: decimal digits after an optional sign, at
/// least `min` and at most `max`.
pub open spec fn signed_in(s: Seq<char>, min: int, max: nat) -> Option<int> {
    if s.len() > 0 && s[0] == '-' {
        let body = s.skip(1);
        if all_digits(body) && min <= -(digits_value(body) as int) {
            Some(-(digits_value(body) as int))
        } else {
            None
        }
    } else {
        match unsigned_in(s, max) {
            Some(n) => Some(n as int),
            None => None,
        }
    }
}

/// The truth value in `s`: `true` or `false`, and nothing else.
pub open spec fn bool_in(s: Seq<char>) -> Option<bool> {
    if s == "true"@ {
        Some(true)
    } else if s == "false"@ {
        Some(false)
    } else {
        None
    }
}

// ---------------------------------------------------------------------
// Lemmas
// ---------------------------------------------------------------------

proof fn lemma_prefix_value(s: Seq<char>, i: int)
    requires
        0 <= i <= s.len(),
    ensures
        digits_value(s.take(i)) <= digits_value(s),
    decreases s.len() - i,
{
    if i == s.len() {
        assert(s.take(i) == s);
    } else {
        lemma_prefix_value(s, i + 1);
        assert(s.take(i + 1).drop_last() == s.take(i));
    }
}

/// The decimal digits of a number are digits, and mean the number.
pub proof fn lemma_decimal_digits(n: nat)
    ensures
        all_digits(decimal(n)),
        digits_value(decimal(n)) == n,
        decimal(n)[0] != '+',
        decimal(n)[0] != '-',
    decreases n,
{
    if n < 10 {
        let s = decimal(n);
        assert(s.drop_last() == Seq::<char>::empty());
        assert(digits_value(s.drop_last()) == 0);
        assert(s.last() == digit_char(n));
    } else {
        lemma_decimal_digits(n / 10);
        let s = decimal(n);
        assert(s.drop_last() == decimal(n / 10));
        assert(s[0] == decimal(n / 10)[0]);
    }
}

/// Reading the decimal digits of a number gives the number back.
pub proof fn law_unsigned_roundtrip(n: nat, max: nat)
    requires
        n <= max,
    ensures
        unsigned_in(decimal(n), max) == Some(n),
{
    lemma_decimal_digits(n);
}

/// Reading a signed number's text gives the number back.
pub proof fn law_signed_roundtrip(n: int, min: int, max: nat)
    requires
        min <= n <= max,
    ensures
        signed_in(signed_decimal(n), min, max) == Some(n),
{
    if n < 0 {
        lemma_decimal_digits((-n) as nat);
        assert(signed_decimal(n).skip(1) == decimal((-n) as nat));
    } else {
        lemma_decimal_digits(n as nat);
    }
}

/// Two numbers with the same decimal digits are equal.
pub proof fn law_decimal_injective(a: nat, b: nat)
    requires
        decimal(a) == decimal(b),
    ensures
        a == b,
{
    lemma_decimal_digits(a);
    lemma_decimal_digits(b);
}

// ---------------------------------------------------------------------
// Writing
// ---------------------------------------------------------------------

fn digit_of(d: u64) -> (c: char)
    requires
        d < 10,
    ensures
        c == digit_char(d as nat),
{
    match d {
        0 => '0',
        1 => '1',
        2 => '2',
        3 => '3',
        4 => '4',
        5 => '5',
        6 => '6',
        7 => '7',
        8 => '8',
        _ => '9',
    }
}

/// The decimal digits of a number.
pub fn render_u64(n: u64) -> (s: String)
    ensures
        s@ == decimal(n as nat),
    decreases n,
{
    if n < 10 {
        let mut s = String::new();
        s.push(digit_of(n));
        assert(s@ == decimal(n as nat));
        s
    } else {
        let mut s = render_u64(n / 10);
        s.push(digit_of(n % 10));
        s
    }
}

/// The decimal digits of a number.
pub fn render_usize(n: usize) -> (s: String)
    ensures
        s@ == decimal(n as nat),
{
    render_u64(n as u64)
}

/// The decimal digits of a number.
pub fn render_u32(n: u32) -> (s: String)
    ensures
        s@ == decimal(n as nat),
{
    render_u64(n as u64)
}

/// The decimal digits of a number, with a minus sign before a negative one.
pub fn render_i32(n: i32) -> (s: String)
    ensures
        s@ == signed_decimal(n as int),
{
    if n < 0 {
        let mut s = String::new();
        s.push('-');
        let magnitude: i64 = -(n as i64);
        s.append(render_u64(magnitude as u64).as_str());
        assert(s@ == seq!['-'] + decimal((-n) as nat));
        s
    } else {
        render_u64(n as u64)
    }
}

// ---------------------------------------------------------------------
// Reading
// ---------------------------------------------------------------------

/// The number that `v[from..]` writes in decimal digits, if it writes one
/// that is at most `max`.
fn read_digits(v: &Vec<char>, from: usize, max: u64) -> (r: Option<u64>)
    requires
        from <= v@.len(),
    ensures
        ({
            let body = v@.skip(from as int);
            match r {
                Some(n) => all_digits(body) && digits_value(body) == n && n <= max,
                None => !(all_digits(body) && digits_value(body) <= max),
            }
        }),
{
    let ghost body = v@.skip(from as int);
    if from == v.len() {
        return None;
    }
    let mut total: u64 = 0;
    let mut i: usize = from;
    assert(body.take(0) == Seq::<char>::empty());
    while i < v.len()
        invariant
            from <= i <= v@.len(),
            body == v@.skip(from as int),
            total == digits_value(body.take(i - from)),
            total <= max,
            forall|k: int| 0 <= k < i - from ==> is_digit(#[trigger] body[k]),
        decreases v@.len() - i,
    {
        let c = v[i];
        assert(c == body[i - from]);
        if !('0' <= c && c <= '9') {
            return None;
        }
        let d: u64 = (c as u32 - '0' as u32) as u64;
        proof {
            let next = body.take(i - from + 1);
            assert(next.drop_last() == body.take(i - from));
            assert(next.last() == c);
            lemma_prefix_value(body, i - from + 1);
        }
        let wide: u128 = total as u128 * 10 + d as u128;
        if wide > max as u128 {
            return None;
        }
        total = wide as u64;
        i += 1;
    }
    assert(body.take(v@.len() - from) == body);
    Some(total)
}

/// The unsigned number in a text, if it is at most `max`.
pub fn parse_unsigned(s: &str, max: u64) -> (r: Option<u64>)
    ensures
        (match r {
            Some(n) => unsigned_in(s@, max as nat) == Some(n as nat),
            None => unsigned_in(s@, max as nat) is None,
        }),
{
    let v = chars_of(s);
    if v.len() > 0 && v[0] == '+' {
        read_digits(&v, 1, max)
    } else {
        assert(v@.skip(0) == v@);
        read_digits(&v, 0, max)
    }
}

/// The `u64` in a text.
pub fn parse_u64(s: &str) -> (r: Option<u64>)
    ensures
        (match r {
            Some(n) => unsigned_in(s@, u64::MAX as nat) == Some(n as nat),
            None => unsigned_in(s@, u64::MAX as nat) is None,
        }),
{
    parse_unsigned(s, u64::MAX)
}

/// The `u32` in a text.
pub fn parse_u32(s: &str) -> (r: Option<u32>)
    ensures
        (match r {
            Some(n) => unsigned_in(s@, u32::MAX as nat) == Some(n as nat),
            None => unsigned_in(s@, u32::MAX as nat) is None,
        }),
{
    match parse_unsigned(s, u32::MAX as u64) {
        Some(n) => Some(n as u32),
        None => None,
    }
}

/// The `usize` in a text.
pub fn parse_usize(s: &str) -> (r: Option<usize>)
    ensures
        (match r {
            Some(n) => unsigned_in(s@, usize::MAX as nat) == Some(n as nat),
            None => unsigned_in(s@, usize::MAX as nat) is None,
        }),
{
    match parse_unsigned(s, usize::MAX as u64) {
        Some(n) => Some(n as usize),
        None => None,
    }
}

/// The `i32` in a text.
pub fn parse_i32(s: &str) -> (r: Option<i32>)
    ensures
        (match r {
            Some(n) => signed_in(s@, i32::MIN as int, i32::MAX as nat) == Some(n as int),
            None => signed_in(s@, i32::MIN as int, i32::MAX as nat) is None,
        }),
{
    let v = chars_of(s);
    if v.len() > 0 && v[0] == '-' {
        match read_digits(&v, 1, 0x8000_0000) {
            Some(n) => {
                let negative: i64 = -(n as i64);
                Some(negative as i32)
            },
            None => None,
        }
    } else {
        match parse_unsigned(s, i32::MAX as u64) {
            Some(n) => Some(n as i32),
            None => None,
        }
    }
}

/// The truth value in a text.
pub fn parse_bool(s: &str) -> (r: Option<bool>)
    ensures
        r == bool_in(s@),
{
    if same_text(s, "true") {
        Some(true)
    } else if same_text(s, "false") {
        Some(false)
    } else {
        None
    }
}

// ---------------------------------------------------------------------
// What is written and read
// ---------------------------------------------------------------------

/// A number is written digit by digit: those of its tenth, then its last.
pub proof fn law_writing(n: u64, s: String, tenth: String)
    requires
        call_ensures(render_u64, (n,), s),
        call_ensures(render_u64, ((n / 10) as u64,), tenth),
    ensures
        n < 10 ==> s@ == seq![('0' as int + n) as char],
        n >= 10 ==> s@ == tenth@.push(('0' as int + n as int % 10) as char),
{
}

/// The digits of a number do not depend on its type.
pub proof fn law_writing_sizes(n: usize, s: String, wide: String)
    requires
        call_ensures(render_usize, (n,), s),
        call_ensures(render_u64, (n as u64,), wide),
    ensures
        s@ == wide@,
{
}

/// The digits of a number do not depend on its type.
pub proof fn law_writing_small_numbers(n: u32, s: String, wide: String)
    requires
        call_ensures(render_u32, (n,), s),
        call_ensures(render_u64, (n as u64,), wide),
    ensures
        s@ == wide@,
{
}

/// A minus sign stands before the digits of a negative number.
pub proof fn law_writing_signed_numbers(n: i32, s: String, size: u64, digits: String)
    requires
        call_ensures(render_i32, (n,), s),
        size == (if n < 0 { -n } else { n as int }),
        call_ensures(render_u64, (size,), digits),
    ensures
        n >= 0 ==> s@ == digits@,
        n < 0 ==> s@ == seq!['-'] + digits@,
{
}

/// A number that was written is read back.
pub proof fn law_written_u64_is_read(n: u64, s: &str, r: Option<u64>)
    requires
        s@ == decimal(n as nat),
        call_ensures(parse_u64, (s,), r),
    ensures
        r == Some(n),
{
    law_unsigned_roundtrip(n as nat, u64::MAX as nat);
}

/// A number that was written is read back if it fits.
pub proof fn law_written_u32_is_read(n: u64, s: &str, r: Option<u32>)
    requires
        s@ == decimal(n as nat),
        call_ensures(parse_u32, (s,), r),
    ensures
        n <= u32::MAX ==> r == Some(n as u32),
        n > u32::MAX ==> r is None,
{
    lemma_decimal_digits(n as nat);
    if n <= u32::MAX {
        law_unsigned_roundtrip(n as nat, u32::MAX as nat);
    }
}

/// A number that was written is read back if it fits.
pub proof fn law_written_usize_is_read(n: u64, s: &str, r: Option<usize>)
    requires
        s@ == decimal(n as nat),
        call_ensures(parse_usize, (s,), r),
    ensures
        n <= usize::MAX ==> r == Some(n as usize),
        n > usize::MAX ==> r is None,
{
    lemma_decimal_digits(n as nat);
    if n <= usize::MAX {
        law_unsigned_roundtrip(n as nat, usize::MAX as nat);
    }
}

/// A number that was written is read back.
pub proof fn law_written_i32_is_read(n: i32, s: &str, r: Option<i32>)
    requires
        s@ == signed_decimal(n as int),
        call_ensures(parse_i32, (s,), r),
    ensures
        r == Some(n),
{
    law_signed_roundtrip(n as int, i32::MIN as int, i32::MAX as nat);
}

/// How large a number may be is all that tells the ways to read one apart.
pub proof fn law_limits(
    s: &str,
    a: Option<u64>,
    any: Option<u64>,
    b: Option<u32>,
    small: Option<u64>,
    c: Option<usize>,
    size: Option<u64>,
)
    requires
        call_ensures(parse_u64, (s,), a),
        call_ensures(parse_unsigned, (s, u64::MAX), any),
        call_ensures(parse_u32, (s,), b),
        call_ensures(parse_unsigned, (s, u32::MAX as u64), small),
        call_ensures(parse_usize, (s,), c),
        call_ensures(parse_unsigned, (s, usize::MAX as u64), size),
    ensures
        a == any,
        b is Some <==> small is Some,
        b matches Some(n) ==> small == Some(n as u64),
        c is Some <==> size is Some,
        c matches Some(n) ==> size == Some(n as u64),
{
}

/// One more digit makes ten times the number and the digit, if that is not
/// too much; anything but a digit makes no number.
pub proof fn law_reading_goes_digit_by_digit(
    s: &str,
    c: char,
    longer: &str,
    max: u64,
    r: Option<u64>,
    q: Option<u64>,
)
    requires
        longer@ == s@.push(c),
        call_ensures(parse_unsigned, (s, max), r),
        call_ensures(parse_unsigned, (longer, max), q),
    ensures
        '0' <= c <= '9' ==> (r matches Some(n) ==> {
            let m = 10 * n + (c as int - '0' as int);
            &&& m <= max ==> (q matches Some(x) && x == m)
            &&& m > max ==> q is None
        }),
        !('0' <= c <= '9') && s@.len() > 0 ==> q is None,
        s@.len() == 0 ==> r is None,
{
    let body = if s@.len() > 0 && s@[0] == '+' { s@.skip(1) } else { s@ };
    let plus = s@.len() > 0 && s@[0] == '+';
    let long = if longer@.len() > 0 && longer@[0] == '+' { longer@.skip(1) } else { longer@ };
    if s@.len() > 0 {
        assert(longer@[0] == s@[0]);
        assert(long == body.push(c));
        assert(long.drop_last() == body);
        assert(long[long.len() - 1] == c);
        if r is Some {
            assert forall|i: int| 0 <= i < long.len() && '0' <= c <= '9' implies is_digit(
                #[trigger] long[i],
            ) by {
                if i < body.len() {
                    assert(long[i] == body[i]);
                }
            }
        }
        if !('0' <= c <= '9') {
            assert(!is_digit(long[long.len() - 1]));
        }
    }
}

/// A text is a truth value if it is `true` or `false`, and only then.
pub proof fn law_truth_values(s: &str, r: Option<bool>)
    requires
        call_ensures(parse_bool, (s,), r),
    ensures
        r == Some(true) <==> s@ == "true"@,
        r == Some(false) <==> s@ == "false"@,
        r is None <==> s@ != "true"@ && s@ != "false"@,
{
    reveal_strlit("true");
    reveal_strlit("false");
    assert("true"@.len() == 4 && "false"@.len() == 5);
}

/// A signed number is an unsigned one, or one behind a minus sign; what does
/// not fit is none.
pub proof fn law_signed_numbers(
    s: &str,
    r: Option<i32>,
    body: &str,
    read: Option<u64>,
    plain: Option<u64>,
)
    requires
        call_ensures(parse_i32, (s,), r),
        call_ensures(parse_unsigned, (body, 0x8000_0000u64), read),
        call_ensures(parse_unsigned, (s, 0x7fff_ffffu64), plain),
    ensures
        s@ == seq!['-'] + body@ && (body@.len() == 0 || body@[0] != '+') ==> (match read {
            Some(n) => r matches Some(m) && m == -n,
            None => r is None,
        }),
        s@.len() == 0 || s@[0] != '-' ==> (match plain {
            Some(n) => r matches Some(m) && m == n,
            None => r is None,
        }),
{
    if s@ == seq!['-'] + body@ {
        assert(s@.skip(1) == body@);
    }
}

} // verus!
