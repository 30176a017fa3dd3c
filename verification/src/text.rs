//! Text primitives shared by the rest of the crate.
//!
//! A `&str` or `String` is modelled by the sequence of its characters.

use vstd::prelude::*;

verus! {

/// Appending one character, as `String::push` documents it.
pub assume_specification[ String::push ](text: &mut String, character: char)
    ensures
        final(text)@ == old(text)@.push(character),
;

/// The characters that carry Unicode's `White_Space` property.
pub open spec fn blank_char(c: char) -> bool {
    let code = c as u32;
    ||| 0x09 <= code <= 0x0d
    ||| code == 0x20
    ||| code == 0x85
    ||| code == 0xa0
    ||| code == 0x1680
    ||| 0x2000 <= code <= 0x200a
    ||| code == 0x2028
    ||| code == 0x2029
    ||| code == 0x202f
    ||| code == 0x205f
    ||| code == 0x3000
}

/// Nothing but white space; the empty text is blank too.
pub open spec fn blank(s: Seq<char>) -> bool {
    forall|i: int| 0 <= i < s.len() ==> blank_char(#[trigger] s[i])
}

/// `s` without the white space that leads it.
pub open spec fn trim_start(s: Seq<char>) -> Seq<char>
    decreases s.len(),
{
    if s.len() > 0 && blank_char(s[0]) {
        trim_start(s.drop_first())
    } else {
        s
    }
}

/// `s` without the white space that ends it.
pub open spec fn trim_end(s: Seq<char>) -> Seq<char>
    decreases s.len(),
{
    if s.len() > 0 && blank_char(s.last()) {
        trim_end(s.drop_last())
    } else {
        s
    }
}

/// `s` without the white space at either end.
pub open spec fn trimmed(s: Seq<char>) -> Seq<char> {
    trim_end(trim_start(s))
}

/// `s` without the run of `c` that ends it.
pub open spec fn without_trailing(s: Seq<char>, c: char) -> Seq<char>
    decreases s.len(),
{
    if s.len() > 0 && s.last() == c {
        without_trailing(s.drop_last(), c)
    } else {
        s
    }
}

/// The parts of `s` between occurrences of `separator`; one more part than
/// there are separators.
pub open spec fn pieces(s: Seq<char>, separator: char) -> Seq<Seq<char>>
    decreases s.len(),
{
    if s.len() == 0 {
        seq![Seq::<char>::empty()]
    } else {
        let earlier = pieces(s.drop_last(), separator);
        if s.last() == separator {
            earlier.push(Seq::<char>::empty())
        } else {
            earlier.drop_last().push(earlier.last().push(s.last()))
        }
    }
}

/// `line` without one carriage return at its end.
pub open spec fn without_return(line: Seq<char>) -> Seq<char> {
    if line.len() > 0 && line.last() == '\r' {
        line.drop_last()
    } else {
        line
    }
}

/// The lines of `s`. A line ends at a line feed, which may follow a carriage
/// return; text after the last line feed is a line of its own, kept as it is.
pub open spec fn lines_of(s: Seq<char>) -> Seq<Seq<char>> {
    let parts = pieces(s, '\n');
    let ended = parts.drop_last().map_values(|line: Seq<char>| without_return(line));
    if parts.last().len() == 0 {
        ended
    } else {
        ended.push(parts.last())
    }
}

/// Lexicographic order by code point, the order of `str`.
pub open spec fn before(a: Seq<char>, b: Seq<char>) -> bool
    decreases a.len(),
{
    if b.len() == 0 {
        false
    } else if a.len() == 0 {
        true
    } else if a[0] != b[0] {
        (a[0] as int) < (b[0] as int)
    } else {
        before(a.drop_first(), b.drop_first())
    }
}

/// The character sequences that a list of character vectors holds.
pub open spec fn views(rows: Seq<Vec<char>>) -> Seq<Seq<char>> {
    rows.map_values(|row: Vec<char>| row@)
}

/// Splitting gives at least one piece.
pub proof fn pieces_never_empty(s: Seq<char>, separator: char)
    ensures
        pieces(s, separator).len() > 0,
    decreases s.len(),
{
    if s.len() > 0 {
        pieces_never_empty(s.drop_last(), separator);
    }
}

/// The characters of `text`, in order.
pub fn chars_of(text: &str) -> (chars: Vec<char>)
    ensures
        chars@ == text@,
{
    let mut chars: Vec<char> = Vec::new();
    for c in iter: text.chars()
        invariant
            iter.seq() == text@,
            chars@ == text@.take(iter.index() as int),
    {
        chars.push(c);
    }
    chars
}

/// The text that `chars[from..to]` spells.
pub fn text_between(chars: &Vec<char>, from: usize, to: usize) -> (text: String)
    requires
        from <= to <= chars@.len(),
    ensures
        text@ == chars@.subrange(from as int, to as int),
{
    let mut text = String::new();
    let mut i: usize = from;
    while i < to
        invariant
            from <= i <= to <= chars@.len(),
            text@ == chars@.subrange(from as int, i as int),
        decreases to - i,
    {
        text.push(chars[i]);
        i += 1;
    }
    text
}

/// The text that `chars` spells.
pub fn text_of(chars: &Vec<char>) -> (text: String)
    ensures
        text@ == chars@,
{
    text_between(chars, 0, chars.len())
}

/// Whether `c` is white space.
pub fn is_blank_char(c: char) -> (yes: bool)
    ensures
        yes == blank_char(c),
{
    let code: u32 = c as u32;
    (code >= 0x09 && code <= 0x0d) || code == 0x20 || code == 0x85 || code == 0xa0 || code == 0x1680
        || (code >= 0x2000 && code <= 0x200a) || code == 0x2028 || code == 0x2029 || code == 0x202f
        || code == 0x205f || code == 0x3000
}

/// Whether there is nothing but white space.
pub fn is_blank(chars: &Vec<char>) -> (yes: bool)
    ensures
        yes == blank(chars@),
{
    for i in 0..chars.len()
        invariant
            forall|j: int| 0 <= j < i ==> blank_char(#[trigger] chars@[j]),
    {
        if !is_blank_char(chars[i]) {
            return false;
        }
    }
    true
}

/// Splits `chars` at every `separator`.
pub fn split(chars: &Vec<char>, separator: char) -> (parts: Vec<Vec<char>>)
    ensures
        views(parts@) == pieces(chars@, separator),
{
    let mut parts: Vec<Vec<char>> = Vec::new();
    let mut current: Vec<char> = Vec::new();
    for i in 0..chars.len()
        invariant
            views(parts@).push(current@) == pieces(chars@.take(i as int), separator),
    {
        assert(chars@.take(i + 1).drop_last() =~= chars@.take(i as int));
        if chars[i] == separator {
            let ghost before_push = parts@;
            parts.push(current);
            assert(views(parts@) =~= views(before_push).push(current@));
            current = Vec::new();
        } else {
            let ghost so_far = current@;
            current.push(chars[i]);
            assert(views(parts@).push(so_far).drop_last() =~= views(parts@));
        }
    }
    assert(chars@.take(chars@.len() as int) =~= chars@);
    let ghost before_push = parts@;
    parts.push(current);
    assert(views(parts@) =~= views(before_push).push(current@));
    parts
}

/// Splits `chars` into lines.
pub fn lines(chars: &Vec<char>) -> (found: Vec<Vec<char>>)
    ensures
        views(found@) == lines_of(chars@),
{
    let mut parts = split(chars, '\n');
    let ghost all = views(parts@);
    proof {
        pieces_never_empty(chars@, '\n');
        assert(all.len() == parts@.len());
    }
    let mut found: Vec<Vec<char>> = Vec::new();
    let count: usize = parts.len() - 1;
    for i in 0..count
        invariant
            count == parts@.len() - 1,
            all == views(parts@),
            views(found@) == all.take(i as int).map_values(
                |line: Seq<char>| without_return(line),
            ),
    {
        let mut line = parts[i].clone();
        assert(line@ == all[i as int]);
        let size: usize = line.len();
        if size > 0 && line[size - 1] == '\r' {
            line.truncate(size - 1);
            assert(line@ =~= all[i as int].drop_last());
        }
        let ghost earlier = found@;
        found.push(line);
        assert(views(found@) =~= views(earlier).push(line@));
        assert(all.take(i + 1) =~= all.take(i as int).push(all[i as int]));
        assert(all.take(i + 1).map_values(|line: Seq<char>| without_return(line)) =~= all.take(
            i as int,
        ).map_values(|line: Seq<char>| without_return(line)).push(
            without_return(all[i as int]),
        ));
    }
    assert(all.take(count as int) =~= all.drop_last());
    let rest = parts[count].clone();
    assert(rest@ == all.last());
    if rest.len() > 0 {
        let ghost earlier = found@;
        found.push(rest);
        assert(views(found@) =~= views(earlier).push(rest@));
    }
    found
}

proof fn trim_start_skips(s: Seq<char>, from: int)
    requires
        0 <= from <= s.len(),
        forall|j: int| 0 <= j < from ==> blank_char(#[trigger] s[j]),
        from < s.len() ==> !blank_char(s[from]),
    ensures
        trim_start(s) == s.skip(from),
    decreases from,
{
    if from > 0 {
        assert(blank_char(s[0]));
        assert forall|j: int| 0 <= j < from - 1 implies blank_char(
            #[trigger] s.drop_first()[j],
        ) by {
            assert(blank_char(s[j + 1]));
        }
        trim_start_skips(s.drop_first(), from - 1);
        assert(s.drop_first().skip(from - 1) =~= s.skip(from));
    } else {
        assert(s.skip(0) =~= s);
    }
}

proof fn trim_end_drops(s: Seq<char>, to: int)
    requires
        0 <= to <= s.len(),
        forall|j: int| to <= j < s.len() ==> blank_char(#[trigger] s[j]),
        to > 0 ==> !blank_char(s[to - 1]),
    ensures
        trim_end(s) == s.take(to),
    decreases s.len(),
{
    if to < s.len() {
        assert(blank_char(s[s.len() - 1]));
        trim_end_drops(s.drop_last(), to);
        assert(s.drop_last().take(to) =~= s.take(to));
    } else {
        assert(s.take(to) =~= s);
    }
}

/// White space around a text goes, and nothing of the text itself.
pub proof fn trimmed_is(before: Seq<char>, kept: Seq<char>, after: Seq<char>)
    requires
        blank(before),
        blank(after),
        kept.len() > 0,
        !blank_char(kept[0]),
        !blank_char(kept.last()),
    ensures
        trimmed(before + kept + after) == kept,
{
    let s = before + kept + after;
    let from = before.len() as int;
    assert forall|j: int| 0 <= j < from implies blank_char(#[trigger] s[j]) by {
        assert(s[j] == before[j]);
    }
    assert(s[from] == kept[0]);
    trim_start_skips(s, from);
    let rest = s.skip(from);
    assert(rest =~= kept + after);
    let to = kept.len() as int;
    assert forall|j: int| to <= j < rest.len() implies blank_char(#[trigger] rest[j]) by {
        assert(rest[j] == after[j - to]);
    }
    assert(rest[to - 1] == kept.last());
    trim_end_drops(rest, to);
    assert(rest.take(to) =~= kept);
}

/// `text` without the white space at either end.
pub fn trim(text: &str) -> (kept: String)
    ensures
        kept@ == trimmed(text@),
{
    let chars = chars_of(text);
    let mut from: usize = 0;
    while from < chars.len() && is_blank_char(chars[from])
        invariant
            from <= chars@.len(),
            forall|j: int| 0 <= j < from ==> blank_char(#[trigger] chars@[j]),
        decreases chars@.len() - from,
    {
        from += 1;
    }
    let mut to: usize = chars.len();
    while to > from && is_blank_char(chars[to - 1])
        invariant
            from <= to <= chars@.len(),
            forall|j: int| to <= j < chars@.len() ==> blank_char(#[trigger] chars@[j]),
        decreases to,
    {
        to -= 1;
    }
    proof {
        let s = chars@;
        trim_start_skips(s, from as int);
        assert forall|j: int| to - from <= j < s.skip(from as int).len() implies blank_char(
            #[trigger] s.skip(from as int)[j],
        ) by {
            assert(blank_char(s[j + from]));
        }
        trim_end_drops(s.skip(from as int), to - from);
        assert(s.skip(from as int).take(to - from) =~= s.subrange(from as int, to as int));
    }
    text_between(&chars, from, to)
}

/// A run of `c` from `to` on is what is left out.
pub proof fn without_trailing_drops(s: Seq<char>, c: char, to: int)
    requires
        0 <= to <= s.len(),
        forall|j: int| to <= j < s.len() ==> #[trigger] s[j] == c,
        to > 0 ==> s[to - 1] != c,
    ensures
        without_trailing(s, c) == s.take(to),
    decreases s.len(),
{
    if to < s.len() {
        assert(s[s.len() - 1] == c);
        without_trailing_drops(s.drop_last(), c, to);
        assert(s.drop_last().take(to) =~= s.take(to));
    } else {
        assert(s.take(to) =~= s);
    }
}

/// `text` without the run of `c` that ends it.
pub fn trim_end_char(text: &str, c: char) -> (kept: String)
    ensures
        kept@ == without_trailing(text@, c),
{
    let chars = chars_of(text);
    let mut to: usize = chars.len();
    while to > 0 && chars[to - 1] == c
        invariant
            to <= chars@.len(),
            forall|j: int| to <= j < chars@.len() ==> #[trigger] chars@[j] == c,
        decreases to,
    {
        to -= 1;
    }
    proof {
        without_trailing_drops(chars@, c, to as int);
        assert(chars@.take(to as int) =~= chars@.subrange(0, to as int));
    }
    text_between(&chars, 0, to)
}

/// Whether `prefix` leads `chars`.
pub fn starts_with(chars: &Vec<char>, prefix: &Vec<char>) -> (yes: bool)
    ensures
        yes == prefix@.is_prefix_of(chars@),
{
    if prefix.len() > chars.len() {
        return false;
    }
    for i in 0..prefix.len()
        invariant
            prefix@.len() <= chars@.len(),
            forall|j: int| 0 <= j < i ==> prefix@[j] == chars@[j],
    {
        if prefix[i] != chars[i] {
            assert(chars@.subrange(0, prefix@.len() as int)[i as int] != prefix@[i as int]);
            return false;
        }
    }
    assert(prefix@ =~= chars@.subrange(0, prefix@.len() as int));
    true
}

/// The text behind `prefix`, where `prefix` leads `text`.
pub fn strip_prefix(text: &str, prefix: &str) -> (rest: Option<String>)
    ensures
        match rest {
            Some(rest) => prefix@.is_prefix_of(text@) && rest@ == text@.skip(prefix@.len() as int),
            None => !prefix@.is_prefix_of(text@),
        },
{
    let chars = chars_of(text);
    let lead = chars_of(prefix);
    if starts_with(&chars, &lead) {
        assert(text@.skip(prefix@.len() as int) =~= text@.subrange(
            prefix@.len() as int,
            text@.len() as int,
        ));
        Some(text_between(&chars, lead.len(), chars.len()))
    } else {
        None
    }
}

/// The text in front of `suffix`, where `suffix` ends `text`.
pub fn strip_suffix(text: &str, suffix: &str) -> (rest: Option<String>)
    ensures
        match rest {
            Some(rest) => suffix@.is_suffix_of(text@) && rest@ == text@.take(
                text@.len() - suffix@.len(),
            ),
            None => !suffix@.is_suffix_of(text@),
        },
{
    let chars = chars_of(text);
    let tail = chars_of(suffix);
    if tail.len() > chars.len() {
        return None;
    }
    let from: usize = chars.len() - tail.len();
    for i in 0..tail.len()
        invariant
            tail@ == suffix@,
            chars@ == text@,
            from + tail.len() == chars.len(),
            forall|j: int| 0 <= j < i ==> tail@[j] == chars@[from + j],
    {
        if tail[i] != chars[from + i] {
            assert(text@.subrange(from as int, text@.len() as int)[i as int] != suffix@[i as int]);
            return None;
        }
    }
    assert(suffix@ =~= text@.subrange(from as int, text@.len() as int));
    assert(text@.take(from as int) =~= text@.subrange(0, from as int));
    Some(text_between(&chars, 0, from))
}

/// Whether two texts hold the same characters.
pub fn same_text(a: &str, b: &str) -> (yes: bool)
    ensures
        yes == (a@ == b@),
{
    let left = chars_of(a);
    let right = chars_of(b);
    if left.len() != right.len() {
        return false;
    }
    for i in 0..left.len()
        invariant
            left@ == a@,
            right@ == b@,
            left@.len() == right@.len(),
            forall|j: int| 0 <= j < i ==> left@[j] == right@[j],
    {
        if left[i] != right[i] {
            return false;
        }
    }
    assert(a@ =~= b@);
    true
}

/// Two texts compare as they do where they first differ, and the end of a text
/// comes ahead of everything.
pub proof fn before_at(a: Seq<char>, b: Seq<char>, at: int)
    requires
        0 <= at <= a.len(),
        at <= b.len(),
        forall|j: int| 0 <= j < at ==> a[j] == b[j],
        at < a.len() && at < b.len() ==> a[at] != b[at],
    ensures
        before(a, b) == (if at == b.len() {
            false
        } else if at == a.len() {
            true
        } else {
            (a[at] as int) < (b[at] as int)
        }),
    decreases at,
{
    if at > 0 {
        assert forall|j: int| 0 <= j < at - 1 implies a.drop_first()[j] == b.drop_first()[j] by {
            assert(a[j + 1] == b[j + 1]);
        }
        before_at(a.drop_first(), b.drop_first(), at - 1);
    }
}

/// The Unicode code point of `c`.
pub fn code_point(c: char) -> (code: u32)
    ensures
        code as int == c as int,
{
    c as u32
}

/// Whether `a` sorts ahead of `b`.
pub fn sorts_before(a: &str, b: &str) -> (yes: bool)
    ensures
        yes == before(a@, b@),
{
    let left = chars_of(a);
    let right = chars_of(b);
    let mut i: usize = 0;
    while i < left.len() && i < right.len() && left[i] == right[i]
        invariant
            i <= left@.len(),
            i <= right@.len(),
            forall|j: int| 0 <= j < i ==> left@[j] == right@[j],
        decreases left@.len() - i,
    {
        i += 1;
    }
    proof {
        before_at(left@, right@, i as int);
    }
    if i == right.len() {
        false
    } else if i == left.len() {
        true
    } else {
        code_point(left[i]) < code_point(right[i])
    }
}

/// `before` is a strict total order.
pub proof fn before_is_strict_order(a: Seq<char>, b: Seq<char>, c: Seq<char>)
    ensures
        !before(a, a),
        before(a, b) && before(b, c) ==> before(a, c),
        before(a, b) ==> !before(b, a),
        before(a, b) || before(b, a) || a == b,
    decreases a.len(),
{
    if a.len() > 0 {
        let rest_of_b = if b.len() > 0 { b.drop_first() } else { b };
        let rest_of_c = if c.len() > 0 { c.drop_first() } else { c };
        before_is_strict_order(a.drop_first(), rest_of_b, rest_of_c);
        if b.len() > 0 && a[0] == b[0] && a.drop_first() == b.drop_first() {
            assert(a.len() == b.len());
            assert(a =~= seq![a[0]] + a.drop_first());
            assert(b =~= seq![b[0]] + b.drop_first());
        }
    } else if b.len() == 0 {
        assert(a =~= b);
    }
}

/// `first` followed by `second`.
pub fn concat(first: &str, second: &str) -> (joined: String)
    ensures
        joined@ == first@ + second@,
{
    let mut joined = first.to_owned();
    joined.append(second);
    joined
}

/// A clone of an optional text.
pub fn copy_text(text: &Option<String>) -> (copy: Option<String>)
    ensures
        copy == *text,
{
    match text {
        Some(text) => Some(text.clone()),
        None => None,
    }
}

} // verus!
