//! Text of speeds.
//!
//! A speed is carried as the text of a floating-point number. The crate only
//! ever passes such text on, so all it has to know is which texts write one.

use vstd::prelude::*;

use crate::number::{digit, digits, is_digit};
use crate::text::chars_of;

verus! {

/// How many digits lead `s`.
pub open spec fn digit_run(s: Seq<char>) -> int
    decreases s.len(),
{
    if s.len() > 0 && digit(s[0]) {
        1 + digit_run(s.drop_first())
    } else {
        0
    }
}

/// A plus or minus sign.
pub open spec fn sign(c: char) -> bool {
    c == '+' || c == '-'
}

/// `s` without one sign in front.
pub open spec fn unsigned_speed(s: Seq<char>) -> Seq<char> {
    if s.len() > 0 && sign(s[0]) {
        s.drop_first()
    } else {
        s
    }
}

/// Nothing, or `e` and an integer.
pub open spec fn exponent_text(s: Seq<char>) -> bool {
    ||| s.len() == 0
    ||| {
        let power = unsigned_speed(s.skip(1));
        (s[0] == 'e' || s[0] == 'E') && power.len() > 0 && digits(power)
    }
}

/// Digits with at most one point among them, then an exponent.
pub open spec fn number_text(s: Seq<char>) -> bool {
    let whole = digit_run(s);
    let rest = s.skip(whole);
    if rest.len() > 0 && rest[0] == '.' {
        let tail = rest.skip(1);
        let fraction = digit_run(tail);
        whole + fraction > 0 && exponent_text(tail.skip(fraction))
    } else {
        whole > 0 && exponent_text(rest)
    }
}

/// `c` and `lower` are the same letter; `lower` is a lower-case one.
pub open spec fn same_letter(c: char, lower: char) -> bool {
    c == lower || c as int + 32 == lower as int
}

/// `s` spells the lower-case word `lower`, in letters of either case.
pub open spec fn same_word(s: Seq<char>, lower: Seq<char>) -> bool {
    s.len() == lower.len() && forall|i: int|
        0 <= i < s.len() ==> same_letter(#[trigger] s[i], lower[i])
}

/// `s` writes a floating-point number: an optional sign, then a number with
/// an optional fraction and exponent, or `inf`, `infinity` or `nan` in any
/// case.
pub open spec fn speed_text(s: Seq<char>) -> bool {
    let body = unsigned_speed(s);
    ||| number_text(body)
    ||| same_word(body, seq!['i', 'n', 'f'])
    ||| same_word(body, seq!['i', 'n', 'f', 'i', 'n', 'i', 't', 'y'])
    ||| same_word(body, seq!['n', 'a', 'n'])
}

proof fn digit_run_is(s: Seq<char>, run: int)
    requires
        0 <= run <= s.len(),
        forall|i: int| 0 <= i < run ==> digit(#[trigger] s[i]),
        run < s.len() ==> !digit(s[run]),
    ensures
        digit_run(s) == run,
    decreases run,
{
    if run > 0 {
        assert(digit(s[0]));
        assert forall|i: int| 0 <= i < run - 1 implies digit(#[trigger] s.drop_first()[i]) by {
            assert(digit(s[i + 1]));
        }
        digit_run_is(s.drop_first(), run - 1);
    }
}

proof fn digit_run_bounds(s: Seq<char>)
    ensures
        0 <= digit_run(s) <= s.len(),
        forall|i: int| 0 <= i < digit_run(s) ==> digit(#[trigger] s[i]),
    decreases s.len(),
{
    if s.len() > 0 && digit(s[0]) {
        digit_run_bounds(s.drop_first());
        assert forall|i: int| 0 <= i < digit_run(s) implies digit(#[trigger] s[i]) by {
            if i > 0 {
                assert(s[i] == s.drop_first()[i - 1]);
                assert(digit(s.drop_first()[i - 1]));
            }
        }
    }
}

/// Nothing but the characters from `0` to `9`.
pub open spec fn numerals(s: Seq<char>) -> bool {
    forall|i: int| 0 <= i < s.len() ==> '0' <= #[trigger] s[i] <= '9'
}

/// A sign in front of something, or none.
pub open spec fn lead(s: Seq<char>) -> bool {
    s == Seq::<char>::empty() || s == seq!['+'] || s == seq!['-']
}

/// A number in digits is a speed, with a sign in front or none.
pub proof fn whole_numbers_are_speeds(mark: Seq<char>, whole: Seq<char>)
    requires
        lead(mark),
        numerals(whole),
        whole.len() > 0,
    ensures
        speed_text(mark + whole),
{
    digits_are_numbers(whole, Seq::empty());
    assert(whole + Seq::<char>::empty() =~= whole);
    sign_goes(mark, whole);
}

/// So is one with a point, with digits before it, behind it or both.
pub proof fn fractions_are_speeds(mark: Seq<char>, whole: Seq<char>, fraction: Seq<char>)
    requires
        lead(mark),
        numerals(whole),
        numerals(fraction),
        whole.len() + fraction.len() > 0,
    ensures
        speed_text(mark + (whole + (seq!['.'] + fraction))),
{
    fractions_are_numbers(whole, fraction, Seq::empty());
    assert(fraction + Seq::<char>::empty() =~= fraction);
    sign_goes(mark, whole + (seq!['.'] + fraction));
}

/// And either may be followed by `e` in either case and a power of ten, which
/// may have a sign of its own.
pub proof fn powers_of_ten_are_speeds(
    mark: Seq<char>,
    whole: Seq<char>,
    fraction: Seq<char>,
    letter: char,
    inner: Seq<char>,
    exponent: Seq<char>,
)
    requires
        lead(mark),
        lead(inner),
        numerals(whole),
        numerals(fraction),
        numerals(exponent),
        exponent.len() > 0,
        letter == 'e' || letter == 'E',
    ensures
        whole.len() > 0 ==> speed_text(mark + (whole + (seq![letter] + (inner + exponent)))),
        whole.len() + fraction.len() > 0 ==> speed_text(
            mark + (whole + (seq!['.'] + (fraction + (seq![letter] + (inner + exponent))))),
        ),
{
    let behind = seq![letter] + (inner + exponent);
    powers_are_exponents(letter, inner, exponent);
    if whole.len() > 0 {
        digits_are_numbers(whole, behind);
        sign_goes(mark, whole + behind);
    }
    if whole.len() + fraction.len() > 0 {
        fractions_are_numbers(whole, fraction, behind);
        sign_goes(mark, whole + (seq!['.'] + (fraction + behind)));
    }
}

proof fn powers_are_exponents(letter: char, inner: Seq<char>, exponent: Seq<char>)
    requires
        lead(inner),
        numerals(exponent),
        exponent.len() > 0,
        letter == 'e' || letter == 'E',
    ensures
        exponent_text(seq![letter] + (inner + exponent)),
        !digit((seq![letter] + (inner + exponent))[0]),
{
    let s = seq![letter] + (inner + exponent);
    assert(s.skip(1) =~= inner + exponent);
    sign_drops(inner, exponent);
}

proof fn digits_are_numbers(whole: Seq<char>, behind: Seq<char>)
    requires
        numerals(whole),
        whole.len() > 0,
        exponent_text(behind),
        behind.len() > 0 ==> !digit(behind[0]) && behind[0] != '.',
    ensures
        number_text(whole + behind),
{
    run_of(whole, behind);
    assert((whole + behind).skip(whole.len() as int) =~= behind);
}

proof fn fractions_are_numbers(whole: Seq<char>, fraction: Seq<char>, behind: Seq<char>)
    requires
        numerals(whole),
        numerals(fraction),
        whole.len() + fraction.len() > 0,
        exponent_text(behind),
        behind.len() > 0 ==> !digit(behind[0]),
    ensures
        number_text(whole + (seq!['.'] + (fraction + behind))),
{
    let tail = fraction + behind;
    let rest = seq!['.'] + tail;
    run_of(whole, rest);
    run_of(fraction, behind);
    assert((whole + rest).skip(whole.len() as int) =~= rest);
    assert(rest.skip(1) =~= tail);
    assert(tail.skip(fraction.len() as int) =~= behind);
}

proof fn sign_drops(mark: Seq<char>, body: Seq<char>)
    requires
        lead(mark),
        body.len() > 0,
        !sign(body[0]),
    ensures
        unsigned_speed(mark + body) == body,
{
    if mark.len() == 0 {
        assert(mark + body =~= body);
    } else {
        assert((mark + body).drop_first() =~= body);
    }
}

proof fn run_of(run: Seq<char>, rest: Seq<char>)
    requires
        numerals(run),
        rest.len() > 0 ==> !digit(rest[0]),
    ensures
        digit_run(run + rest) == run.len(),
{
    let s = run + rest;
    assert forall|i: int| 0 <= i < run.len() implies digit(#[trigger] s[i]) by {
        assert(s[i] == run[i]);
    }
    if rest.len() > 0 {
        assert(s[run.len() as int] == rest[0]);
    }
    digit_run_is(s, run.len() as int);
}

proof fn sign_goes(mark: Seq<char>, body: Seq<char>)
    requires
        lead(mark),
        number_text(body),
        body.len() > 0,
        !sign(body[0]),
    ensures
        speed_text(mark + body),
{
    sign_drops(mark, body);
}

/// The characters that can occur in the text of a speed.
pub open spec fn speed_char(c: char) -> bool {
    digit(c) || sign(c) || c == '.' || 'a' <= c <= 'z' || 'A' <= c <= 'Z'
}

/// Nothing but characters of a number.
pub open spec fn speed_chars(s: Seq<char>) -> bool {
    forall|i: int| 0 <= i < s.len() ==> speed_char(#[trigger] s[i])
}

proof fn exponent_has_speed_chars(s: Seq<char>)
    requires
        exponent_text(s),
    ensures
        speed_chars(s),
{
    assert forall|i: int| 0 <= i < s.len() implies speed_char(#[trigger] s[i]) by {
        if i > 0 {
            let signed = s.skip(1);
            let power = unsigned_speed(signed);
            assert(s[i] == signed[i - 1]);
            if power.len() < signed.len() {
                if i > 1 {
                    assert(s[i] == power[i - 2]);
                }
            }
        }
    }
}

/// The text of a speed is not empty and holds nothing but digits, letters,
/// signs and points.
pub proof fn speed_has_speed_chars(s: Seq<char>)
    requires
        speed_text(s),
    ensures
        s.len() > 0,
        speed_chars(s),
{
    let body = unsigned_speed(s);
    if number_text(body) {
        let whole = digit_run(body);
        digit_run_bounds(body);
        let rest = body.skip(whole);
        if rest.len() > 0 && rest[0] == '.' {
            let tail = rest.skip(1);
            let fraction = digit_run(tail);
            digit_run_bounds(tail);
            exponent_has_speed_chars(tail.skip(fraction));
            assert forall|i: int| 0 <= i < body.len() implies speed_char(#[trigger] body[i]) by {
                if i < whole {
                    assert(digit(body[i]));
                } else if i == whole {
                    assert(body[i] == rest[0]);
                } else if i - whole - 1 < fraction {
                    assert(body[i] == tail[i - whole - 1]);
                    assert(digit(tail[i - whole - 1]));
                } else {
                    assert(body[i] == tail.skip(fraction)[i - whole - 1 - fraction]);
                }
            }
        } else {
            exponent_has_speed_chars(rest);
            assert forall|i: int| 0 <= i < body.len() implies speed_char(#[trigger] body[i]) by {
                if i < whole {
                    assert(digit(body[i]));
                } else {
                    assert(body[i] == rest[i - whole]);
                }
            }
        }
    } else {
        assert forall|i: int| 0 <= i < body.len() implies speed_char(#[trigger] body[i]) by {
            if same_word(body, seq!['i', 'n', 'f']) {
                assert(same_letter(body[i], seq!['i', 'n', 'f'][i]));
            } else if same_word(body, seq!['n', 'a', 'n']) {
                assert(same_letter(body[i], seq!['n', 'a', 'n'][i]));
            } else {
                assert(same_letter(body[i], seq!['i', 'n', 'f', 'i', 'n', 'i', 't', 'y'][i]));
            }
        }
    }
    assert forall|i: int| 0 <= i < s.len() implies speed_char(#[trigger] s[i]) by {
        if body.len() < s.len() {
            if i > 0 {
                assert(s[i] == body[i - 1]);
            }
        }
    }
}

/// Where the run of digits that starts at `from` ends.
fn end_of_digits(chars: &Vec<char>, from: usize) -> (end: usize)
    requires
        from <= chars@.len(),
    ensures
        from <= end <= chars@.len(),
        digit_run(chars@.skip(from as int)) == end - from,
{
    let mut end: usize = from;
    while end < chars.len() && is_digit(chars[end])
        invariant
            from <= end <= chars@.len(),
            forall|i: int| from <= i < end ==> digit(#[trigger] chars@[i]),
        decreases chars@.len() - end,
    {
        end += 1;
    }
    proof {
        let s = chars@.skip(from as int);
        assert forall|i: int| 0 <= i < end - from implies digit(#[trigger] s[i]) by {
            assert(digit(chars@[from + i]));
        }
        digit_run_is(s, end - from);
    }
    end
}

fn is_sign(c: char) -> (yes: bool)
    ensures
        yes == sign(c),
{
    c == '+' || c == '-'
}

fn is_exponent(chars: &Vec<char>, from: usize) -> (yes: bool)
    requires
        from <= chars@.len(),
    ensures
        yes == exponent_text(chars@.skip(from as int)),
{
    let ghost s = chars@.skip(from as int);
    if from == chars.len() {
        return true;
    }
    assert(s[0] == chars@[from as int]);
    if chars[from] != 'e' && chars[from] != 'E' {
        return false;
    }
    let ghost signed = s.skip(1);
    let mut at: usize = from + 1;
    assert(signed =~= chars@.skip(at as int));
    if at < chars.len() && is_sign(chars[at]) {
        at += 1;
    }
    let ghost power = unsigned_speed(signed);
    assert(power =~= chars@.skip(at as int));
    let end = end_of_digits(chars, at);
    proof {
        digit_run_bounds(power);
        if end < chars@.len() {
            digit_run_stops(power);
            assert(!digit(power[end - at]));
        } else {
            assert(digits(power));
        }
    }
    at < chars.len() && end == chars.len()
}

proof fn digit_run_stops(s: Seq<char>)
    ensures
        digit_run(s) < s.len() ==> !digit(s[digit_run(s)]),
    decreases s.len(),
{
    if s.len() > 0 && digit(s[0]) {
        digit_run_stops(s.drop_first());
        digit_run_bounds(s.drop_first());
    }
}

fn is_word(chars: &Vec<char>, from: usize, lower: &Vec<char>) -> (yes: bool)
    requires
        from <= chars@.len(),
        forall|i: int| 0 <= i < lower@.len() ==> 'a' <= #[trigger] lower@[i] <= 'z',
    ensures
        yes == same_word(chars@.skip(from as int), lower@),
{
    let ghost s = chars@.skip(from as int);
    if chars.len() - from != lower.len() {
        return false;
    }
    for i in 0..lower.len()
        invariant
            from <= chars.len(),
            s == chars@.skip(from as int),
            s.len() == lower@.len(),
            forall|i: int| 0 <= i < lower@.len() ==> 'a' <= #[trigger] lower@[i] <= 'z',
            forall|j: int| 0 <= j < i ==> same_letter(#[trigger] s[j], lower@[j]),
    {
        let c: char = chars[from + i];
        let l: char = lower[i];
        assert(s[i as int] == c);
        assert('a' <= lower@[i as int] <= 'z');
        if c != l && crate::text::code_point(c) != crate::text::code_point(l) - 32 {
            assert(!same_letter(s[i as int], lower@[i as int]));
            return false;
        }
    }
    true
}

/// Whether `text` writes a floating-point number.
pub fn is_speed(text: &str) -> (yes: bool)
    ensures
        yes == speed_text(text@),
{
    let chars = chars_of(text);
    let mut from: usize = 0;
    if chars.len() > 0 && is_sign(chars[0]) {
        from = 1;
    }
    let ghost body = unsigned_speed(text@);
    assert(body =~= chars@.skip(from as int));
    let whole_end = end_of_digits(&chars, from);
    let ghost rest = body.skip(whole_end - from);
    assert(rest =~= chars@.skip(whole_end as int));
    let number: bool = if whole_end < chars.len() && chars[whole_end] == '.' {
        let ghost tail = rest.skip(1);
        assert(tail =~= chars@.skip(whole_end + 1));
        let fraction_end = end_of_digits(&chars, whole_end + 1);
        assert(tail.skip(fraction_end - whole_end - 1) =~= chars@.skip(fraction_end as int));
        let exponent = is_exponent(&chars, fraction_end);
        (whole_end > from || fraction_end > whole_end + 1) && exponent
    } else {
        let exponent = is_exponent(&chars, whole_end);
        whole_end > from && exponent
    };
    assert(number == number_text(body));
    let inf: Vec<char> = vec!['i', 'n', 'f'];
    let infinity: Vec<char> = vec!['i', 'n', 'f', 'i', 'n', 'i', 't', 'y'];
    let nan: Vec<char> = vec!['n', 'a', 'n'];
    assert(inf@ =~= seq!['i', 'n', 'f']);
    assert(infinity@ =~= seq!['i', 'n', 'f', 'i', 'n', 'i', 't', 'y']);
    assert(nan@ =~= seq!['n', 'a', 'n']);
    number || is_word(&chars, from, &inf) || is_word(&chars, from, &infinity) || is_word(
        &chars,
        from,
        &nan,
    )
}

/// `s` spells `word` in letters of either case.
pub open spec fn spells(s: Seq<char>, word: Seq<char>) -> bool {
    s.len() == word.len() && forall|i: int|
        0 <= i < s.len() ==> #[trigger] s[i] == word[i] || s[i] as int == word[i] as int - 32
}

/// `s` is digits, or digits around a point, then nothing or `e` and a power of
/// ten with or without a sign.
pub open spec fn written(
    s: Seq<char>,
    whole: Seq<char>,
    fraction: Seq<char>,
    behind: Seq<char>,
    inner: Seq<char>,
    exponent: Seq<char>,
) -> bool {
    &&& numerals(whole) && numerals(fraction) && numerals(exponent) && lead(inner)
    &&& behind.len() == 0 || (exponent.len() > 0 && (behind == seq!['e'] + (inner + exponent)
        || behind == seq!['E'] + (inner + exponent)))
    &&& (whole.len() > 0 && s == whole + behind) || (whole.len() + fraction.len() > 0 && s == whole
        + (seq!['.'] + (fraction + behind)))
}

/// The words `inf`, `infinity` and `nan` are speeds, in letters of either
/// case, with a sign in front or none.
pub proof fn words_are_speeds(mark: Seq<char>, s: Seq<char>)
    requires
        lead(mark),
        spells(s, "inf"@) || spells(s, "infinity"@) || spells(s, "nan"@),
    ensures
        speed_text(mark + s),
{
    words_are_spelt(s);
    assert(s[0] == 'i' || s[0] == 'I' || s[0] == 'n' || s[0] == 'N') by {
        reveal_strlit("inf");
        reveal_strlit("infinity");
        reveal_strlit("nan");
        let c: char = s[0];
        assert('i' as int - 32 == 'I' as int && 'n' as int - 32 == 'N' as int);
    }
    sign_drops(mark, s);
}

proof fn words_are_spelt(s: Seq<char>)
    ensures
        spells(s, "inf"@) <==> same_word(s, seq!['i', 'n', 'f']),
        spells(s, "infinity"@) <==> same_word(s, seq!['i', 'n', 'f', 'i', 'n', 'i', 't', 'y']),
        spells(s, "nan"@) <==> same_word(s, seq!['n', 'a', 'n']),
{
    reveal_strlit("inf");
    reveal_strlit("infinity");
    reveal_strlit("nan");
    assert("inf"@ =~= seq!['i', 'n', 'f']);
    assert("infinity"@ =~= seq!['i', 'n', 'f', 'i', 'n', 'i', 't', 'y']);
    assert("nan"@ =~= seq!['n', 'a', 'n']);
}

/// Nothing else is a speed.
pub proof fn speeds_are_numbers_or_words(s: Seq<char>)
    requires
        speed_text(s),
    ensures
        exists|mark: Seq<char>, body: Seq<char>| #[trigger]
            (mark + body) == s && lead(mark) && (spells(body, "inf"@) || spells(body, "infinity"@)
                || spells(body, "nan"@) || exists|
                whole: Seq<char>,
                fraction: Seq<char>,
                behind: Seq<char>,
                inner: Seq<char>,
                exponent: Seq<char>,
            | #[trigger]
                written(body, whole, fraction, behind, inner, exponent)),
{
    let body = unsigned_speed(s);
    let mark = s.take(s.len() - body.len());
    assert(mark + body =~= s);
    if s.len() > 0 && sign(s[0]) {
        assert(mark =~= seq![s[0]]);
    } else {
        assert(mark =~= Seq::<char>::empty());
    }
    words_are_spelt(body);
    if number_text(body) {
        numbers_are_written(body);
    }
}

proof fn digit_run_numerals(s: Seq<char>)
    ensures
        0 <= digit_run(s) <= s.len(),
        numerals(s.take(digit_run(s))),
{
    digit_run_bounds(s);
    let run = s.take(digit_run(s));
    assert forall|i: int| 0 <= i < run.len() implies '0' <= #[trigger] run[i] <= '9' by {
        assert(digit(s[i]));
    }
}

proof fn exponents_are_written(s: Seq<char>)
    requires
        exponent_text(s),
        s.len() > 0,
    ensures
        exists|inner: Seq<char>, exponent: Seq<char>|
            lead(inner) && numerals(exponent) && exponent.len() > 0 && #[trigger]
            (seq![s[0]] + (inner + exponent)) == s,
        s[0] == 'e' || s[0] == 'E',
{
    let rest = s.skip(1);
    let exponent = unsigned_speed(rest);
    let inner = rest.take(rest.len() - exponent.len());
    if rest.len() > 0 && sign(rest[0]) {
        assert(inner =~= seq![rest[0]]);
    } else {
        assert(inner =~= Seq::<char>::empty());
    }
    assert forall|i: int| 0 <= i < exponent.len() implies '0' <= #[trigger] exponent[i]
        <= '9' by {
        assert(digit(exponent[i]));
    }
    assert(seq![s[0]] + (inner + exponent) =~= s);
}

proof fn numbers_are_written(s: Seq<char>)
    requires
        number_text(s),
    ensures
        exists|
            whole: Seq<char>,
            fraction: Seq<char>,
            behind: Seq<char>,
            inner: Seq<char>,
            exponent: Seq<char>,
        | #[trigger]
            written(s, whole, fraction, behind, inner, exponent),
{
    digit_run_numerals(s);
    let whole = s.take(digit_run(s));
    let rest = s.skip(digit_run(s));
    let pointed = rest.len() > 0 && rest[0] == '.';
    let tail = rest.skip(1);
    digit_run_numerals(tail);
    let fraction = if pointed {
        tail.take(digit_run(tail))
    } else {
        Seq::empty()
    };
    let behind = if pointed {
        tail.skip(digit_run(tail))
    } else {
        rest
    };
    if pointed {
        assert(fraction + behind =~= tail);
        assert(seq!['.'] + tail =~= rest);
        assert(whole + rest =~= s);
    } else {
        assert(whole + rest =~= s);
    }
    if behind.len() > 0 {
        exponents_are_written(behind);
        let (inner, exponent) = choose|inner: Seq<char>, exponent: Seq<char>|
            lead(inner) && numerals(exponent) && exponent.len() > 0 && #[trigger]
            (seq![behind[0]] + (inner + exponent)) == behind;
        assert(written(s, whole, fraction, behind, inner, exponent));
    } else {
        assert(written(s, whole, fraction, behind, Seq::empty(), Seq::empty()));
    }
}

} // verus!
