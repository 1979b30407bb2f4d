//! Decimal formatting and parsing of integers.
use vstd::prelude::*;

verus! {

pub open spec fn digit_char(d: int) -> char {
    ((48 + d) as u8) as char
}

pub open spec fn is_digit(c: char) -> bool {
    '0' <= c && c <= '9'
}

pub open spec fn digit_value(c: char) -> int {
    (c as int) - 48
}

/// The decimal text of a natural number, as `to_string` prints it.
pub open spec fn decimal(n: nat) -> Seq<char>
    decreases n,
{
    if n < 10 {
        seq![digit_char(n as int)]
    } else {
        decimal(n / 10).push(digit_char((n % 10) as int))
    }
}

/// The decimal text of an integer, with a leading `-` when negative.
pub open spec fn signed_decimal(n: int) -> Seq<char> {
    if n < 0 {
        seq!['-'] + decimal((-n) as nat)
    } else {
        decimal(n as nat)
    }
}

pub fn digit_of(d: u64) -> (c: char)
    requires
        d < 10,
    ensures
        c == digit_char(d as int),
        is_digit(c),
{
    let b: u8 = d as u8 + 48;
    b as char
}

/// Decimal text of an unsigned integer.
pub fn fmt_u64(n: u64) -> (r: Vec<char>)
    ensures
        r@ == decimal(n as nat),
{
    let mut cur = n;
    let mut suffix: Vec<char> = Vec::new();
    while cur >= 10
        invariant
            decimal(n as nat) == decimal(cur as nat) + suffix@,
        decreases cur,
    {
        let d = digit_of(cur % 10);
        let ghost old_suffix = suffix@;
        suffix.insert(0, d);
        proof {
            assert(decimal(cur as nat) == decimal((cur / 10) as nat).push(d));
            assert(decimal((cur / 10) as nat) + suffix@ =~= decimal((cur / 10) as nat).push(d)
                + old_suffix);
        }
        cur = cur / 10;
    }
    let mut out: Vec<char> = Vec::new();
    out.push(digit_of(cur));
    let mut i: usize = 0;
    while i < suffix.len()
        invariant
            cur < 10,
            i <= suffix.len(),
            out@ == seq![digit_char(cur as int)] + suffix@.take(i as int),
            decimal(n as nat) == decimal(cur as nat) + suffix@,
        decreases suffix.len() - i,
    {
        out.push(suffix[i]);
        assert(suffix@.take(i + 1) =~= suffix@.take(i as int).push(suffix@[i as int]));
        i = i + 1;
    }
    assert(suffix@.take(i as int) =~= suffix@);
    out
}

/// Decimal text of a signed integer.
pub fn fmt_i64(n: i64) -> (r: Vec<char>)
    ensures
        r@ == signed_decimal(n as int),
{
    if n < 0 {
        let m: u64 = if n == i64::MIN {
            9223372036854775808u64
        } else {
            (-n) as u64
        };
        let d = fmt_u64(m);
        let mut out: Vec<char> = Vec::new();
        out.push('-');
        crate::text::append_chars(&mut out, d.as_slice());
        assert(out@ =~= seq!['-'] + decimal((-n) as nat));
        out
    } else {
        fmt_u64(n as u64)
    }
}

/// Decimal text of a 128-bit unsigned integer.
pub fn fmt_u128(n: u128) -> (r: Vec<char>)
    ensures
        r@ == decimal(n as nat),
{
    let mut cur = n;
    let mut suffix: Vec<char> = Vec::new();
    while cur >= 10
        invariant
            decimal(n as nat) == decimal(cur as nat) + suffix@,
        decreases cur,
    {
        let d = digit_of((cur % 10) as u64);
        let ghost old_suffix = suffix@;
        suffix.insert(0, d);
        proof {
            assert(decimal(cur as nat) == decimal((cur / 10) as nat).push(d));
            assert(decimal((cur / 10) as nat) + suffix@ =~= decimal((cur / 10) as nat).push(d)
                + old_suffix);
        }
        cur = cur / 10;
    }
    let mut out: Vec<char> = Vec::new();
    out.push(digit_of(cur as u64));
    let mut i: usize = 0;
    while i < suffix.len()
        invariant
            cur < 10,
            i <= suffix.len(),
            out@ == seq![digit_char(cur as int)] + suffix@.take(i as int),
            decimal(n as nat) == decimal(cur as nat) + suffix@,
        decreases suffix.len() - i,
    {
        out.push(suffix[i]);
        assert(suffix@.take(i + 1) =~= suffix@.take(i as int).push(suffix@[i as int]));
        i = i + 1;
    }
    assert(suffix@.take(i as int) =~= suffix@);
    out
}

/// Decimal text of a 128-bit signed integer.
pub fn fmt_i128(n: i128) -> (r: Vec<char>)
    ensures
        r@ == signed_decimal(n as int),
{
    if n < 0 {
        let m: u128 = if n == i128::MIN {
            170141183460469231731687303715884105728u128
        } else {
            (-n) as u128
        };
        let d = fmt_u128(m);
        let mut out: Vec<char> = Vec::new();
        out.push('-');
        crate::text::append_chars(&mut out, d.as_slice());
        assert(out@ =~= seq!['-'] + decimal((-n) as nat));
        out
    } else {
        fmt_u128(n as u128)
    }
}

/// Value of a string of decimal digits.
pub open spec fn digits_value(s: Seq<char>) -> int
    decreases s.len(),
{
    if s.len() == 0 {
        0
    } else {
        digits_value(s.drop_last()) * 10 + digit_value(s.last())
    }
}

pub open spec fn all_digits(s: Seq<char>) -> bool {
    forall|i: int| 0 <= i < s.len() ==> is_digit(#[trigger] s[i])
}

/// `i32::from_str`: an optional sign, then one or more ASCII digits, with the
/// value in range.
pub open spec fn parse_i32_spec(s: Seq<char>) -> Option<i32> {
    let neg = s.len() > 0 && s[0] == '-';
    let body = if s.len() > 0 && (s[0] == '-' || s[0] == '+') {
        s.drop_first()
    } else {
        s
    };
    if body.len() == 0 || !all_digits(body) {
        None
    } else {
        let v = if neg {
            -digits_value(body)
        } else {
            digits_value(body)
        };
        if i32::MIN <= v <= i32::MAX {
            Some(v as i32)
        } else {
            None
        }
    }
}

pub proof fn lemma_digits_value_nonneg(s: Seq<char>)
    requires
        all_digits(s),
    ensures
        digits_value(s) >= 0,
    decreases s.len(),
{
    if s.len() > 0 {
        lemma_digits_value_nonneg(s.drop_last());
    }
}

/// A digit string is worth at least any of its prefixes.
pub proof fn lemma_digits_value_prefix(s: Seq<char>, k: int)
    requires
        all_digits(s),
        0 <= k <= s.len(),
    ensures
        digits_value(s.take(k)) <= digits_value(s),
    decreases s.len() - k,
{
    if k < s.len() {
        lemma_digits_value_prefix(s, k + 1);
        assert(s.take(k + 1).drop_last() =~= s.take(k));
        lemma_digits_value_nonneg(s.take(k));
    } else {
        assert(s.take(k) =~= s);
    }
}

/// `str::parse::<i32>` on characters.
pub fn parse_i32(s: &[char]) -> (r: Option<i32>)
    ensures
        r == parse_i32_spec(s@),
{
    let neg = s.len() > 0 && s[0] == '-';
    let start: usize = if s.len() > 0 && (s[0] == '-' || s[0] == '+') {
        1
    } else {
        0
    };
    let ghost body = if s@.len() > 0 && (s@[0] == '-' || s@[0] == '+') {
        s@.drop_first()
    } else {
        s@
    };
    assert(body =~= s@.skip(start as int));
    if start >= s.len() {
        return None;
    }
    let mut acc: i64 = 0;
    let mut i = start;
    while i < s.len()
        invariant
            start <= i <= s.len(),
            body == s@.skip(start as int),
            body == (if s@.len() > 0 && (s@[0] == '-' || s@[0] == '+') {
                s@.drop_first()
            } else {
                s@
            }),
            neg == (s@.len() > 0 && s@[0] == '-'),
            all_digits(body.take(i - start)),
            acc == digits_value(body.take(i - start)),
            0 <= acc <= 2147483648,
        decreases s.len() - i,
    {
        let c = s[i];
        if !('0' <= c && c <= '9') {
            assert(body[i - start] == c);
            assert(!is_digit(body[(i - start) as int]));
            assert(!all_digits(body));
            return None;
        }
        proof {
            assert(body.take(i - start + 1).drop_last() =~= body.take(i - start));
            assert(body.take(i - start + 1).last() == c);
        }
        let d: i64 = (c as u32 - 48u32) as i64;
        let next = acc * 10 + d;
        if next > 2147483648 {
            proof {
                assert(digits_value(body.take(i - start + 1)) == next);
                if all_digits(body) {
                    lemma_digits_value_prefix(body, i - start + 1);
                }
            }
            return None;
        }
        assert(digits_value(body.take(i - start + 1)) == next);
        assert(all_digits(body.take(i - start + 1))) by {
            assert forall|j: int| 0 <= j < i - start + 1 implies is_digit(#[trigger] body.take(i - start + 1)[j]) by {
                if j < i - start {
                    assert(body.take(i - start + 1)[j] == body.take(i - start)[j]);
                }
            }
        }
        acc = next;
        i = i + 1;
    }
    assert(body.take(i - start) =~= body);
    if neg {
        let v = -acc;
        Some(v as i32)
    } else {
        if acc > 2147483647 {
            None
        } else {
            Some(acc as i32)
        }
    }
}

} // verus!
