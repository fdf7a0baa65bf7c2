//! Text, taken as a sequence of characters: comparing, cutting, trimming,
//! replacing and writing numbers.

use vstd::prelude::*;
use vstd::string::*;

verus! {

/// `String::push`: appends one character to the string.
pub assume_specification[ String::push ](text: &mut String, c: char)
    ensures
        final(text)@ == old(text)@.push(c),
;

/// What is left of `text` after `prefix`, where `text` starts with it.
pub open spec fn stripped(text: Seq<char>, prefix: Seq<char>) -> Option<Seq<char>> {
    if prefix.is_prefix_of(text) {
        Some(text.skip(prefix.len() as int))
    } else {
        None
    }
}

/// How many characters stand before the first `c`; all of them where there is
/// no `c`.
pub open spec fn run_to(text: Seq<char>, c: char) -> nat
    decreases text.len(),
{
    if text.len() == 0 || text[0] == c {
        0
    } else {
        1 + run_to(text.drop_first(), c)
    }
}

/// What stands before the first `c`, and what stands after it, where there is
/// a `c`.
pub open spec fn split_once(text: Seq<char>, c: char) -> Option<(Seq<char>, Seq<char>)> {
    let at = run_to(text, c) as int;
    if at < text.len() {
        Some((text.take(at), text.skip(at + 1)))
    } else {
        None
    }
}

/// The pieces of `text` between its `c`s: one more than there are `c`s.
pub open spec fn split(text: Seq<char>, c: char) -> Seq<Seq<char>>
    decreases text.len(),
{
    let at = run_to(text, c) as int;
    if 0 <= at < text.len() {
        seq![text.take(at)] + split(text.skip(at + 1), c)
    } else {
        seq![text]
    }
}

/// `parts`, with `separator` between each and the next.
pub open spec fn joined(parts: Seq<Seq<char>>, separator: Seq<char>) -> Seq<char>
    decreases parts.len(),
{
    if parts.len() == 0 {
        Seq::empty()
    } else if parts.len() == 1 {
        parts[0]
    } else {
        joined(parts.drop_last(), separator) + separator + parts.last()
    }
}

/// `text` with every occurrence of `pattern`, taken from the left, replaced.
pub open spec fn replaced(text: Seq<char>, pattern: Seq<char>, by: Seq<char>) -> Seq<char>
    decreases text.len(),
{
    if text.len() == 0 || pattern.len() == 0 {
        text
    } else if pattern.is_prefix_of(text) {
        by + replaced(text.skip(pattern.len() as int), pattern, by)
    } else {
        seq![text[0]] + replaced(text.drop_first(), pattern, by)
    }
}

/// What stands between `front` and `back`, where `text` starts with the one
/// and, behind it, ends with the other.
pub open spec fn between(text: Seq<char>, front: Seq<char>, back: Seq<char>) -> Option<Seq<char>> {
    if front.len() + back.len() <= text.len() && front.is_prefix_of(text) && back.is_suffix_of(text) {
        Some(text.subrange(front.len() as int, text.len() - back.len()))
    } else {
        None
    }
}

/// The characters that Unicode counts as white space.
pub open spec fn is_white(c: char) -> bool {
    let code = c as u32;
    ||| 0x9 <= code <= 0xd
    ||| code == 0x20
    ||| code == 0x85
    ||| code == 0xa0
    ||| code == 0x1680
    ||| 0x2000 <= code <= 0x200a
    ||| code == 0x2028
    ||| code == 0x2029
    ||| code == 0x202f
    ||| code == 0x205f
    ||| code == 0x3000
}

/// `text` without the white space that it starts with.
pub open spec fn trimmed_start(text: Seq<char>) -> Seq<char>
    decreases text.len(),
{
    if text.len() > 0 && is_white(text[0]) {
        trimmed_start(text.drop_first())
    } else {
        text
    }
}

/// `text` without the white space that it ends with.
pub open spec fn trimmed_end(text: Seq<char>) -> Seq<char>
    decreases text.len(),
{
    if text.len() > 0 && is_white(text.last()) {
        trimmed_end(text.drop_last())
    } else {
        text
    }
}

/// `text` without the white space around it.
pub open spec fn trimmed(text: Seq<char>) -> Seq<char> {
    trimmed_end(trimmed_start(text))
}

/// The character of a decimal digit.
pub open spec fn digit_char(digit: int) -> char {
    (48 + digit) as char
}

/// A number in decimal, without leading zeros.
pub open spec fn decimal(n: nat) -> Seq<char>
    decreases n,
{
    if n < 10 {
        seq![digit_char(n as int)]
    } else {
        decimal(n / 10).push(digit_char((n % 10) as int))
    }
}

/// An integer in decimal, with a minus sign where it is negative.
pub open spec fn signed_decimal(n: int) -> Seq<char> {
    if n < 0 {
        "-"@ + decimal((-n) as nat)
    } else {
        decimal(n as nat)
    }
}

/// The number that a run of decimal digits spells; `None` where another
/// character is among them.
pub open spec fn digits_value(digits: Seq<char>) -> Option<nat>
    decreases digits.len(),
{
    if digits.len() == 0 {
        Some(0)
    } else {
        match digits_value(digits.drop_last()) {
            Some(high) => if '0' <= digits.last() <= '9' {
                Some((10 * high + (digits.last() as u32 - 48)) as nat)
            } else {
                None
            },
            None => None,
        }
    }
}

/// Where the first `c` stands, once it is known what stands before it.
pub proof fn lemma_run_to(text: Seq<char>, c: char, at: int)
    requires
        0 <= at <= text.len(),
        forall|i: int| 0 <= i < at ==> text[i] != c,
        at < text.len() ==> text[at] == c,
    ensures
        run_to(text, c) == at,
    decreases at,
{
    if at > 0 {
        assert forall|i: int| 0 <= i < at - 1 implies text.drop_first()[i] != c by {
            assert(text.drop_first()[i] == text[i + 1]);
        }
        lemma_run_to(text.drop_first(), c, at - 1);
    }
}

/// What the first `c` of a text is.
pub proof fn lemma_run_to_is_first(text: Seq<char>, c: char)
    ensures
        0 <= run_to(text, c) <= text.len(),
        forall|i: int| 0 <= i < run_to(text, c) ==> text[i] != c,
        run_to(text, c) < text.len() ==> text[run_to(text, c) as int] == c,
        run_to(text, c) < text.len() <==> text.contains(c),
    decreases text.len(),
{
    if text.len() > 0 && text[0] != c {
        let rest = text.drop_first();
        lemma_run_to_is_first(rest, c);
        assert forall|i: int| 0 <= i < run_to(text, c) implies text[i] != c by {
            if i > 0 {
                assert(rest[i - 1] == text[i]);
            }
        }
    }
    if text.contains(c) {
        let i = text.index_of(c);
        if run_to(text, c) >= text.len() {
            assert(text[i] != c);
        }
    }
}

/// A text is put together from what it is cut into.
pub proof fn lemma_between(text: Seq<char>, front: Seq<char>, middle: Seq<char>, back: Seq<char>)
    ensures
        between(text, front, back) == Some(middle) <==> text == front + middle + back,
{
    if between(text, front, back) == Some(middle) {
        let end = text.len() - back.len();
        assert(front =~= text.subrange(0, front.len() as int));
        assert(back =~= text.subrange(end, text.len() as int));
        assert(text =~= front + middle + back) by {
            assert forall|i: int| 0 <= i < text.len() implies text[i] == (front + middle + back)[i] by {
                if i < front.len() {
                    assert(front[i] == text.subrange(0, front.len() as int)[i]);
                } else if i >= end {
                    assert(back[i - end] == text.subrange(end, text.len() as int)[i - end]);
                }
            }
        }
    }
    if text == front + middle + back {
        assert(front =~= text.subrange(0, front.len() as int));
        assert(back =~= text.subrange(text.len() - back.len(), text.len() as int));
        assert(middle =~= text.subrange(front.len() as int, text.len() - back.len()));
    }
}

/// Tells whether two texts are the same.
pub(crate) fn same_text(a: &str, b: &str) -> (same: bool)
    ensures
        same == (a@ == b@),
{
    let x = a.as_bytes();
    let y = b.as_bytes();
    proof {
        vstd::utf8::encode_utf8_decode_utf8(a@);
        vstd::utf8::encode_utf8_decode_utf8(b@);
    }
    if x.len() != y.len() {
        return false;
    }
    for i in 0..x.len()
        invariant
            x.len() == y.len(),
            x@ == vstd::utf8::encode_utf8(a@),
            y@ == vstd::utf8::encode_utf8(b@),
            forall|j: int| 0 <= j < i ==> x[j] == y[j],
    {
        if x[i] != y[i] {
            return false;
        }
    }
    assert(x@ =~= y@);
    true
}

/// The characters of a text.
pub(crate) fn chars_of(text: &str) -> (chars: Vec<char>)
    ensures
        chars@ == text@,
{
    let mut chars: Vec<char> = Vec::new();
    for c in it: text.chars()
        invariant
            chars@ == text@.take(it.index() as int),
            it.seq() == text@,
    {
        chars.push(c);
        assert(text@.take(it.index() + 1) =~= text@.take(it.index() as int).push(c));
    }
    assert(text@.take(text@.len() as int) =~= text@);
    chars
}

/// Appends the characters from `from` up to `to`.
pub(crate) fn push_chars(out: &mut String, chars: &Vec<char>, from: usize, to: usize)
    requires
        from <= to <= chars.len(),
    ensures
        final(out)@ == old(out)@ + chars@.subrange(from as int, to as int),
{
    let ghost before = out@;
    for i in from..to
        invariant
            from <= to <= chars.len(),
            out@ == before + chars@.subrange(from as int, i as int),
    {
        out.push(chars[i]);
        assert(chars@.subrange(from as int, i + 1) =~= chars@.subrange(from as int, i as int).push(
            chars[i as int],
        ));
        assert(out@ =~= before + chars@.subrange(from as int, i + 1));
    }
    assert(out@ =~= before + chars@.subrange(from as int, to as int));
}

/// The text of the characters from `from` up to `to`.
pub(crate) fn text_between(chars: &Vec<char>, from: usize, to: usize) -> (text: String)
    requires
        from <= to <= chars.len(),
    ensures
        text@ == chars@.subrange(from as int, to as int),
{
    let mut text = String::new();
    push_chars(&mut text, chars, from, to);
    assert(text@ =~= chars@.subrange(from as int, to as int));
    text
}

/// Where the first `c` stands between `from` and `to`; `to` where there is
/// none.
pub(crate) fn find_char(chars: &Vec<char>, from: usize, to: usize, c: char) -> (at: usize)
    requires
        from <= to <= chars.len(),
    ensures
        from <= at <= to,
        at - from == run_to(chars@.subrange(from as int, to as int), c),
{
    let mut at: usize = from;
    while at < to && chars[at] != c
        invariant
            from <= at <= to <= chars.len(),
            forall|i: int| from <= i < at ==> chars[i] != c,
        decreases to - at,
    {
        at = at + 1;
    }
    proof {
        lemma_run_to(chars@.subrange(from as int, to as int), c, at - from);
    }
    at
}

/// Tells whether `pattern` stands in `chars` at `from`.
pub(crate) fn stands_at(chars: &Vec<char>, from: usize, pattern: &Vec<char>) -> (found: bool)
    requires
        from <= chars.len(),
    ensures
        found == pattern@.is_prefix_of(chars@.skip(from as int)),
{
    if chars.len() - from < pattern.len() {
        return false;
    }
    for i in 0..pattern.len()
        invariant
            pattern.len() <= chars.len() - from,
            forall|j: int| 0 <= j < i ==> pattern[j] == chars[from + j],
    {
        if pattern[i] != chars[from + i] {
            assert(chars@.skip(from as int)[i as int] != pattern[i as int]);
            return false;
        }
    }
    assert(pattern@ =~= chars@.skip(from as int).subrange(0, pattern@.len() as int));
    true
}

/// Replaces every occurrence of `pattern`, taken from the left.
pub(crate) fn replace_all(text: &str, pattern: &str, by: &str) -> (result: String)
    requires
        pattern@.len() > 0,
    ensures
        result@ == replaced(text@, pattern@, by@),
{
    let chars = chars_of(text);
    let pattern_chars = chars_of(pattern);
    let mut result = String::new();
    let mut at: usize = 0;
    assert(chars@.skip(0) =~= chars@);
    while at < chars.len()
        invariant
            at <= chars.len(),
            pattern_chars@ == pattern@,
            pattern@.len() > 0,
            result@ + replaced(chars@.skip(at as int), pattern@, by@) == replaced(
                chars@,
                pattern@,
                by@,
            ),
        decreases chars.len() - at,
    {
        let ghost rest = chars@.skip(at as int);
        if stands_at(&chars, at, &pattern_chars) {
            let ghost before = result@;
            result.append(by);
            proof {
                assert(rest.skip(pattern@.len() as int) =~= chars@.skip(at + pattern@.len()));
                let tail = replaced(chars@.skip(at + pattern@.len()), pattern@, by@);
                assert(before + (by@ + tail) =~= (before + by@) + tail);
            }
            at = at + pattern_chars.len();
        } else {
            let ghost before = result@;
            result.push(chars[at]);
            proof {
                assert(rest.drop_first() =~= chars@.skip(at + 1));
                let tail = replaced(chars@.skip(at + 1), pattern@, by@);
                assert(before + (seq![rest[0]] + tail) =~= before.push(rest[0]) + tail);
            }
            at = at + 1;
        }
    }
    assert(chars@.skip(at as int) =~= Seq::empty());
    assert(result@ + Seq::<char>::empty() =~= result@);
    result
}

/// Tells whether Unicode counts a character as white space.
pub(crate) fn white(c: char) -> (result: bool)
    ensures
        result == is_white(c),
{
    let code: u32 = c as u32;
    (0x9 <= code && code <= 0xd) || code == 0x20 || code == 0x85 || code == 0xa0 || code == 0x1680
        || (0x2000 <= code && code <= 0x200a) || code == 0x2028 || code == 0x2029 || code == 0x202f
        || code == 0x205f || code == 0x3000
}

/// A text without the white space around it.
pub(crate) fn trim(text: &str) -> (result: String)
    ensures
        result@ == trimmed(text@),
{
    let chars = chars_of(text);
    let mut from: usize = 0;
    assert(chars@.skip(0) =~= chars@);
    while from < chars.len() && white(chars[from])
        invariant
            from <= chars.len(),
            trimmed_start(chars@.skip(from as int)) == trimmed_start(chars@),
        decreases chars.len() - from,
    {
        assert(chars@.skip(from as int).drop_first() =~= chars@.skip(from + 1));
        from = from + 1;
    }
    let ghost start = chars@.skip(from as int);
    let mut to: usize = chars.len();
    assert(chars@.subrange(from as int, to as int) =~= start);
    while to > from && white(chars[to - 1])
        invariant
            from <= to <= chars.len(),
            trimmed_end(chars@.subrange(from as int, to as int)) == trimmed_end(start),
        decreases to,
    {
        assert(chars@.subrange(from as int, to as int).drop_last() =~= chars@.subrange(
            from as int,
            to - 1,
        ));
        to = to - 1;
    }
    text_between(&chars, from, to)
}

/// Appends a number in decimal.
pub(crate) fn push_decimal(out: &mut String, n: usize)
    ensures
        final(out)@ == old(out)@ + decimal(n as nat),
    decreases n,
{
    let ghost before = out@;
    if n >= 10 {
        push_decimal(out, n / 10);
    }
    let digit: u8 = (n % 10) as u8;
    out.push((48 + digit) as char);
    assert(out@ =~= before + decimal(n as nat));
}

/// A number too large stays too large under further digits.
proof fn lemma_digits_grow(digits: Seq<char>, upto: int, bound: nat)
    requires
        0 <= upto <= digits.len(),
        digits_value(digits.take(upto)) is Some ==> digits_value(digits.take(upto))->0 > bound,
    ensures
        digits_value(digits) is Some ==> digits_value(digits)->0 > bound,
    decreases digits.len() - upto,
{
    if upto == digits.len() {
        assert(digits.take(upto) =~= digits);
    } else {
        assert(digits.take(upto + 1).drop_last() =~= digits.take(upto));
        lemma_digits_grow(digits, upto + 1, bound);
    }
}

/// The number that the characters from `from` on spell in decimal, where they
/// are digits and the number is at most 65535.
pub(crate) fn small_number(chars: &Vec<char>, from: usize) -> (number: Option<u16>)
    requires
        from <= chars.len(),
    ensures
        match digits_value(chars@.skip(from as int)) {
            Some(value) => if value <= 65535 {
                number == Some(value as u16)
            } else {
                number is None
            },
            None => number is None,
        },
{
    let ghost digits = chars@.skip(from as int);
    let mut value: u32 = 0;
    assert(digits.take(0) =~= Seq::empty());
    for i in from..chars.len()
        invariant
            from <= chars.len(),
            digits == chars@.skip(from as int),
            digits_value(digits.take(i - from)) == Some(value as nat),
            value <= 65535,
    {
        let c = chars[i];
        proof {
            assert(digits.take(i - from + 1).drop_last() =~= digits.take(i - from));
            assert(digits.take(i - from + 1).last() == c);
        }
        if c < '0' || c > '9' {
            proof {
                lemma_no_number(digits, i - from + 1);
            }
            return None;
        }
        value = value * 10 + (c as u32 - 48);
        if value > 65535 {
            proof {
                lemma_digits_grow(digits, i - from + 1, 65535);
            }
            return None;
        }
    }
    assert(digits.take(digits.len() as int) =~= digits);
    Some(value as u16)
}

/// Digits that spell no number spell none with more of them either.
proof fn lemma_no_number(digits: Seq<char>, upto: int)
    requires
        0 <= upto <= digits.len(),
        digits_value(digits.take(upto)) is None,
    ensures
        digits_value(digits) is None,
    decreases digits.len() - upto,
{
    if upto == digits.len() {
        assert(digits.take(upto) =~= digits);
    } else {
        assert(digits.take(upto + 1).drop_last() =~= digits.take(upto));
        lemma_no_number(digits, upto + 1);
    }
}

} // verus!
