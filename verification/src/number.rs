//! Decimal text of integers.

use vstd::prelude::*;

use crate::text::{chars_of, code_point};

verus! {

/// An ASCII digit.
pub open spec fn digit(c: char) -> bool {
    '0' <= c && c <= '9'
}

/// Nothing but ASCII digits.
pub open spec fn digits(s: Seq<char>) -> bool {
    forall|i: int| 0 <= i < s.len() ==> digit(#[trigger] s[i])
}

/// The number that a run of digits writes in base ten.
pub open spec fn value_of(s: Seq<char>) -> int
    decreases s.len(),
{
    if s.len() == 0 {
        0
    } else {
        10 * value_of(s.drop_last()) + (s.last() as int - '0' as int)
    }
}

/// `s` without one plus sign in front.
pub open spec fn unsigned_part(s: Seq<char>) -> Seq<char> {
    if s.len() > 0 && s[0] == '+' {
        s.drop_first()
    } else {
        s
    }
}

/// The number up to `max` that `s` writes: at least one digit, leading zeros
/// and one plus sign in front allowed, nothing else.
pub open spec fn unsigned(s: Seq<char>, max: int) -> Option<int> {
    let body = unsigned_part(s);
    if body.len() > 0 && digits(body) && value_of(body) <= max {
        Some(value_of(body))
    } else {
        None
    }
}

/// The digit that stands for `d`.
pub open spec fn digit_char(d: int) -> char {
    ('0' as int + d) as char
}

/// `n` in base ten, without leading zeros.
pub open spec fn decimal(n: nat) -> Seq<char>
    decreases n,
{
    if n < 10 {
        seq![digit_char(n as int)]
    } else {
        decimal(n / 10).push(digit_char((n % 10) as int))
    }
}

/// `n` in base ten, with a minus sign in front of a negative number.
pub open spec fn signed_decimal(n: int) -> Seq<char> {
    if n < 0 {
        seq!['-'] + decimal((-n) as nat)
    } else {
        decimal(n as nat)
    }
}

/// A run of digits writes no negative number.
pub proof fn value_is_nonnegative(s: Seq<char>)
    requires
        digits(s),
    ensures
        value_of(s) >= 0,
    decreases s.len(),
{
    if s.len() > 0 {
        assert(digit(s[s.len() - 1]));
        assert forall|i: int| 0 <= i < s.drop_last().len() implies digit(
            #[trigger] s.drop_last()[i],
        ) by {
            assert(digit(s[i]));
        }
        value_is_nonnegative(s.drop_last());
    }
}

/// Reading back what was written gives the number that was written.
pub proof fn decimal_reads_back(n: nat)
    ensures
        decimal(n).len() > 0,
        digits(decimal(n)),
        value_of(decimal(n)) == n,
        forall|max: int| n <= max ==> #[trigger] unsigned(decimal(n), max) == Some(n as int),
    decreases n,
{
    if n < 10 {
        let s = decimal(n);
        assert(s.drop_last() =~= Seq::<char>::empty());
        assert(value_of(s.drop_last()) == 0);
    } else {
        decimal_reads_back(n / 10);
        let s = decimal(n);
        assert(s.drop_last() =~= decimal(n / 10));
        assert forall|i: int| 0 <= i < s.len() implies digit(#[trigger] s[i]) by {
            if i < s.len() - 1 {
                assert(s[i] == decimal(n / 10)[i]);
                assert(digit(decimal(n / 10)[i]));
            }
        }
    }
    assert(digit(decimal(n)[0]));
    assert(unsigned_part(decimal(n)) =~= decimal(n));
}

/// Whether `c` is an ASCII digit.
pub fn is_digit(c: char) -> (yes: bool)
    ensures
        yes == digit(c),
{
    code_point(c) >= 48 && code_point(c) <= 57
}

/// The number that `text` writes, where it writes one that fits `u128`.
pub fn parse_u128(text: &str) -> (number: Option<u128>)
    ensures
        match number {
            Some(number) => unsigned(text@, u128::MAX as int) == Some(number as int),
            None => unsigned(text@, u128::MAX as int) is None,
        },
{
    let chars = chars_of(text);
    let from: usize = if chars.len() > 0 && chars[0] == '+' {
        1
    } else {
        0
    };
    let ghost body = unsigned_part(text@);
    assert(body =~= chars@.skip(from as int));
    if from == chars.len() {
        return None;
    }
    let mut number: u128 = 0;
    let mut fits: bool = true;
    for i in from..chars.len()
        invariant
            from <= chars@.len(),
            body == chars@.skip(from as int),
            body == unsigned_part(text@),
            forall|j: int| 0 <= j < i - from ==> digit(#[trigger] body[j]),
            fits ==> number == value_of(body.take(i - from)),
            !fits ==> value_of(body.take(i - from)) > u128::MAX,
    {
        let c: char = chars[i];
        assert(body[i - from] == c);
        if !is_digit(c) {
            assert(!digits(body));
            return None;
        }
        assert(body.take(i + 1 - from).drop_last() =~= body.take(i - from));
        let d: u128 = (code_point(c) - 48) as u128;
        if fits {
            if number > (u128::MAX - d) / 10 {
                fits = false;
            } else {
                number = number * 10 + d;
            }
        }
    }
    assert(body.take(body.len() as int) =~= body);
    if fits {
        Some(number)
    } else {
        None
    }
}

/// The number that `text` writes, where it writes one that fits `u64`.
pub fn parse_u64(text: &str) -> (number: Option<u64>)
    ensures
        match number {
            Some(number) => unsigned(text@, u64::MAX as int) == Some(number as int),
            None => unsigned(text@, u64::MAX as int) is None,
        },
{
    match parse_u128(text) {
        Some(number) => if number <= u64::MAX as u128 {
            Some(number as u64)
        } else {
            None
        },
        None => None,
    }
}

/// The number that `text` writes, where it writes one that fits `u32`.
pub fn parse_u32(text: &str) -> (number: Option<u32>)
    ensures
        match number {
            Some(number) => unsigned(text@, u32::MAX as int) == Some(number as int),
            None => unsigned(text@, u32::MAX as int) is None,
        },
{
    match parse_u128(text) {
        Some(number) => if number <= u32::MAX as u128 {
            Some(number as u32)
        } else {
            None
        },
        None => None,
    }
}

/// `n` in base ten.
pub fn decimal_text(n: u128) -> (text: String)
    ensures
        text@ == decimal(n as nat),
    decreases n,
{
    let mut text = if n < 10 {
        String::new()
    } else {
        decimal_text(n / 10)
    };
    let d: u8 = (n % 10) as u8;
    text.push((48 + d) as char);
    text
}

/// `n` in base ten, with its sign where it is negative.
pub fn signed_decimal_text(n: i32) -> (text: String)
    ensures
        text@ == signed_decimal(n as int),
{
    if n < 0 {
        let mut text = String::new();
        text.push('-');
        let size: u128 = (-(n as i64)) as u128;
        text.append(decimal_text(size).as_str());
        text
    } else {
        decimal_text(n as u128)
    }
}

} // verus!
