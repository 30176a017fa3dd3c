//! What texts stand for: white space, order and numbers.

use vstd::prelude::*;

use crate::number::{
    decimal, decimal_reads_back, digit, digits, signed_decimal, unsigned, unsigned_part, value_of,
};
use crate::speed::numerals;
use crate::text::{before, before_at, blank_char};

verus! {

/// In ASCII the space, the tab, the line feed, the vertical tab, the form feed
/// and the carriage return are blank. Above it the eleven spaces from U+2000 on
/// are, and eight more characters.
pub proof fn white_space(c: char)
    ensures
        ({
            let code = c as int;
            &&& code < 128 ==> (blank_char(c) <==> c == ' ' || c == '\t' || c == '\n' || c == '\r'
                || code == 11 || code == 12)
            &&& code >= 128 ==> (blank_char(c) <==> code == 133 || code == 160 || code == 5760 || (
            8192 <= code < 8192 + 11) || code == 8232 || code == 8233 || code == 8239 || code
                == 8287 || code == 12288)
        }),
{
}

/// Texts are in the order of the first character in which they differ, and a
/// text stands ahead of all that it begins.
pub proof fn order_is_alphabetical(
    common: Seq<char>,
    x: char,
    y: char,
    rest: Seq<char>,
    other: Seq<char>,
)
    requires
        (x as int) < (y as int),
    ensures
        before(common + (seq![x] + rest), common + (seq![y] + other)),
        !before(common + (seq![y] + other), common + (seq![x] + rest)),
        before(common, common + (seq![x] + rest)),
        !before(common + rest, common) && !before(common, common),
{
    let a = common + (seq![x] + rest);
    let b = common + (seq![y] + other);
    let at = common.len() as int;
    assert(a[at] == x && b[at] == y);
    before_at(a, b, at);
    before_at(b, a, at);
    before_at(common, a, at);
    before_at(common + rest, common, at);
    before_at(common, common, at);
}

/// Digits, with a plus sign in front or none, are read as the number that they
/// write, where it is within bounds; nothing else is read.
pub proof fn digits_are_read(s: Seq<char>, max: int)
    ensures
        numerals(s) && s.len() > 0 && value_of(s) <= max ==> unsigned(s, max) == Some(value_of(s))
            && unsigned(seq!['+'] + s, max) == Some(value_of(s)),
        value_of(s) > max ==> unsigned(s, max) is None || s[0] == '+',
        numerals(s) && value_of(s) > max ==> unsigned(seq!['+'] + s, max) is None,
        unsigned(s, max) is Some ==> s.len() > 0 && ((numerals(s) && unsigned(s, max) == Some(
            value_of(s),
        )) || (s[0] == '+' && s.len() > 1 && numerals(s.drop_first()) && unsigned(s, max) == Some(
            value_of(s.drop_first()),
        ))),
{
    let signed = seq!['+'] + s;
    assert(signed.drop_first() =~= s);
    if numerals(s) {
        assert(digits(s));
        if s.len() > 0 {
            assert('0' <= s[0] <= '9');
        }
        assert(digits(signed.drop_first()));
    }
    if unsigned(s, max) is Some {
        let body = unsigned_part(s);
        assert forall|i: int| 0 <= i < body.len() implies '0' <= #[trigger] body[i] <= '9' by {
            assert(digit(body[i]));
        }
    }
}

/// A digit more is ten times the number and the digit; no digits write zero.
pub proof fn digits_count_in_tens(s: Seq<char>, c: char)
    ensures
        value_of(Seq::<char>::empty()) == 0,
        value_of(s.push(c)) == 10 * value_of(s) + (c as int - 48),
{
    assert(s.push(c).drop_last() =~= s);
}

/// A number is written in digits, without a zero in front, and a negative one
/// behind a minus sign.
pub proof fn numbers_are_written_in_digits(n: nat)
    ensures
        numerals(decimal(n)),
        value_of(decimal(n)) == n,
        decimal(n)[0] == '0' ==> n == 0 && decimal(n).len() == 1,
        signed_decimal(n as int) == decimal(n),
        n > 0 ==> signed_decimal(-(n as int)) == seq!['-'] + decimal(n),
    decreases n,
{
    decimal_reads_back(n);
    assert forall|i: int| 0 <= i < decimal(n).len() implies '0' <= #[trigger] decimal(n)[i]
        <= '9' by {
        assert(digit(decimal(n)[i]));
    }
    if n >= 10 {
        numbers_are_written_in_digits(n / 10);
        decimal_reads_back(n / 10);
        assert(decimal(n)[0] == decimal(n / 10)[0]);
    }
}

} // verus!
