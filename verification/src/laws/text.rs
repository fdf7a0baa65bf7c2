//! What cutting, joining, replacing, trimming and writing numbers come to.

use crate::laws::routing::{lemma_replaces_nothing, stands_nowhere};
use crate::text::{
    decimal, digit_char, digits_value, is_white, joined, lemma_run_to, lemma_run_to_is_first,
    replaced, run_to, signed_decimal, split, split_once, stripped, trimmed, trimmed_end,
    trimmed_start,
};
use vstd::prelude::*;

verus! {

/// What is left after a prefix is what makes the text up again behind it, and
/// nothing is left exactly where the text does not start with the prefix.
pub proof fn law_prefix_and_rest_make_the_text(text: Seq<char>, prefix: Seq<char>, rest: Seq<char>)
    ensures
        stripped(text, prefix) == Some(rest) <==> text == prefix + rest,
{
    if stripped(text, prefix) == Some(rest) {
        assert(prefix =~= text.subrange(0, prefix.len() as int));
        assert(text =~= prefix + rest);
    }
    if text == prefix + rest {
        assert(prefix =~= text.subrange(0, prefix.len() as int));
        assert(text.skip(prefix.len() as int) =~= rest);
    }
}

/// A text is cut once at its first `c`: the two parts and the `c` make the
/// text up again, and the first part holds no `c`. It is not cut exactly where
/// it holds none.
pub proof fn law_text_is_cut_at_its_first(
    text: Seq<char>,
    c: char,
    front: Seq<char>,
    back: Seq<char>,
)
    ensures
        split_once(text, c) == Some((front, back)) <==> text == front + seq![c] + back
            && !front.contains(c),
        split_once(text, c) is None <==> !text.contains(c),
{
    lemma_run_to_is_first(text, c);
    let at = run_to(text, c) as int;
    if split_once(text, c) == Some((front, back)) {
        assert(text =~= front + seq![c] + back);
        if front.contains(c) {
            let i = front.index_of(c);
            assert(text[i] == c);
        }
    }
    if text == front + seq![c] + back && !front.contains(c) {
        let n = front.len() as int;
        assert forall|i: int| 0 <= i < n implies text[i] != c by {
            assert(text[i] == front[i]);
            assert(front.contains(front[i]));
        }
        assert(text[n] == c);
        lemma_run_to(text, c, n);
        assert(text.take(n) =~= front);
        assert(text.skip(n + 1) =~= back);
    }
}

/// One more part is joined behind the others with one separator between.
pub proof fn law_parts_are_joined(
    parts: Seq<Seq<char>>,
    part: Seq<char>,
    separator: Seq<char>,
)
    ensures
        joined(Seq::empty(), separator) == Seq::<char>::empty(),
        joined(seq![part], separator) == part,
        parts.len() > 0 ==> joined(parts.push(part), separator) == joined(parts, separator)
            + separator + part,
{
    assert(parts.push(part).drop_last() =~= parts);
}

proof fn lemma_joined_behind(first: Seq<char>, parts: Seq<Seq<char>>, separator: Seq<char>)
    requires
        parts.len() > 0,
    ensures
        joined(seq![first] + parts, separator) == first + separator + joined(parts, separator),
    decreases parts.len(),
{
    let all = seq![first] + parts;
    assert(all.drop_last() =~= seq![first] + parts.drop_last());
    assert(all.last() == parts.last());
    if parts.len() == 1 {
        assert(all.drop_last() =~= seq![first]);
        assert(joined(seq![first], separator) == first);
        assert(joined(parts, separator) == parts.last());
    } else {
        lemma_joined_behind(first, parts.drop_last(), separator);
        assert(first + separator + joined(parts.drop_last(), separator) + separator + parts.last()
            =~= first + separator + (joined(parts.drop_last(), separator) + separator
            + parts.last()));
    }
}

/// The pieces of a text hold no separator, and joined again they are the text.
pub proof fn law_pieces_make_the_text(text: Seq<char>, c: char)
    ensures
        split(text, c).len() > 0,
        forall|i: int| 0 <= i < split(text, c).len() ==> !(#[trigger] split(text, c)[i]).contains(c),
        joined(split(text, c), seq![c]) == text,
    decreases text.len(),
{
    lemma_run_to_is_first(text, c);
    let at = run_to(text, c) as int;
    let pieces = split(text, c);
    if at < text.len() {
        let front = text.take(at);
        let rest = text.skip(at + 1);
        law_pieces_make_the_text(rest, c);
        assert forall|i: int| 0 <= i < pieces.len() implies !(#[trigger] pieces[i]).contains(c) by {
            if i == 0 {
                assert(pieces[0] == front);
                if front.contains(c) {
                    let k = front.index_of(c);
                    assert(text[k] == c);
                }
            } else {
                assert(pieces[i] == split(rest, c)[i - 1]);
            }
        }
        lemma_joined_behind(front, split(rest, c), seq![c]);
        assert(front + seq![c] + rest =~= text);
    } else {
        assert(pieces[0] == text);
    }
}

/// A pattern that stands nowhere is not replaced, and the first that stands in
/// a text is: what comes before it stays, and what comes after it is replaced
/// in turn.
pub proof fn law_pattern_is_replaced_from_the_left(
    front: Seq<char>,
    pattern: Seq<char>,
    back: Seq<char>,
    by: Seq<char>,
)
    requires
        pattern.len() > 0,
        forall|i: int|
            0 <= i < front.len() ==> !pattern.is_prefix_of(
                #[trigger] (front + pattern + back).skip(i),
            ),
    ensures
        replaced(front + pattern + back, pattern, by) == front + by + replaced(back, pattern, by),
        stands_nowhere(back, pattern) ==> replaced(back, pattern, by) == back,
    decreases front.len(),
{
    let text = front + pattern + back;
    if stands_nowhere(back, pattern) {
        lemma_replaces_nothing(back, pattern, by);
    }
    if front.len() == 0 {
        assert(pattern =~= text.subrange(0, pattern.len() as int));
        assert(text.skip(pattern.len() as int) =~= back);
        assert(front + by =~= by);
    } else {
        let rest = front.drop_first();
        assert(text.skip(0) =~= text);
        assert(!pattern.is_prefix_of((front + pattern + back).skip(0)));
        assert(text.drop_first() =~= rest + pattern + back);
        assert forall|i: int| 0 <= i < rest.len() implies !pattern.is_prefix_of(
            #[trigger] (rest + pattern + back).skip(i),
        ) by {
            assert((rest + pattern + back).skip(i) =~= text.skip(i + 1));
            assert(!pattern.is_prefix_of((front + pattern + back).skip(i + 1)));
        }
        law_pattern_is_replaced_from_the_left(rest, pattern, back, by);
        assert(seq![front[0]] + (rest + by + replaced(back, pattern, by)) =~= front + by
            + replaced(back, pattern, by));
    }
}

/// The characters that count as white space.
pub proof fn law_white_space(c: char)
    ensures
        is_white(c) <==> ('\t' <= c <= '\r' || c == ' ' || c == '\u{85}' || c == '\u{a0}' || c
            == '\u{1680}' || '\u{2000}' <= c <= '\u{200a}' || c == '\u{2028}' || c == '\u{2029}'
            || c == '\u{202f}' || c == '\u{205f}' || c == '\u{3000}'),
{
}

/// All of a text is white space.
pub open spec fn all_white(text: Seq<char>) -> bool {
    forall|i: int| 0 <= i < text.len() ==> is_white(#[trigger] text[i])
}

proof fn lemma_trimmed_start(text: Seq<char>)
    ensures
        trimmed_start(text).len() <= text.len(),
        text == text.take(text.len() - trimmed_start(text).len()) + trimmed_start(text),
        all_white(text.take(text.len() - trimmed_start(text).len())),
        trimmed_start(text).len() > 0 ==> !is_white(trimmed_start(text)[0]),
    decreases text.len(),
{
    if text.len() > 0 && is_white(text[0]) {
        let rest = text.drop_first();
        lemma_trimmed_start(rest);
        let n = text.len() - trimmed_start(text).len();
        let gone = text.take(n);
        assert forall|i: int| 0 <= i < gone.len() implies is_white(#[trigger] gone[i]) by {
            if i > 0 {
                assert(gone[i] == rest.take(n - 1)[i - 1]);
            }
        }
        assert(seq![text[0]] + rest.take(n - 1) =~= gone);
        assert(text =~= gone + trimmed_start(text)) by {
            assert(text =~= seq![text[0]] + rest);
            assert(rest == rest.take(n - 1) + trimmed_start(rest));
        }
    } else {
        assert(text.take(0) + text =~= text);
    }
}

proof fn lemma_trimmed_end(text: Seq<char>)
    ensures
        trimmed_end(text).len() <= text.len(),
        text == trimmed_end(text) + text.skip(trimmed_end(text).len() as int),
        all_white(text.skip(trimmed_end(text).len() as int)),
        trimmed_end(text).len() > 0 ==> !is_white(trimmed_end(text).last()),
        trimmed_end(text).len() > 0 ==> trimmed_end(text)[0] == text[0],
        text.len() > 0 && !is_white(text[0]) ==> trimmed_end(text).len() > 0,
    decreases text.len(),
{
    if text.len() > 0 && is_white(text.last()) {
        let rest = text.drop_last();
        lemma_trimmed_end(rest);
        let n = trimmed_end(text).len() as int;
        let gone = text.skip(n);
        assert forall|i: int| 0 <= i < gone.len() implies is_white(#[trigger] gone[i]) by {
            if i < gone.len() - 1 {
                assert(gone[i] == rest.skip(n)[i]);
            }
        }
        assert(text =~= trimmed_end(text) + gone) by {
            assert(rest == trimmed_end(rest) + rest.skip(n));
            assert forall|i: int| 0 <= i < n implies text[i] == trimmed_end(text)[i] by {
                assert(rest[i] == (trimmed_end(rest) + rest.skip(n))[i]);
            }
        }
        if n > 0 {
            assert(rest[0] == text[0]);
        }
    } else {
        assert(text + text.skip(text.len() as int) =~= text);
    }
}

/// A trimmed text is what stands between the white space before it and the
/// white space behind it, and neither starts nor ends with white space.
pub proof fn law_trimming_takes_white_space_alone(text: Seq<char>)
    ensures
        exists|before: Seq<char>, behind: Seq<char>|
            text == #[trigger] (before + trimmed(text) + behind) && all_white(before) && all_white(
                behind,
            ),
        trimmed(text).len() > 0 ==> !is_white(trimmed(text)[0]) && !is_white(trimmed(text).last()),
{
    lemma_trimmed_start(text);
    let start = trimmed_start(text);
    lemma_trimmed_end(start);
    let before = text.take(text.len() - start.len());
    let behind = start.skip(trimmed(text).len() as int);
    assert(before + trimmed(text) + behind =~= before + start);
}

/// Each further digit makes the number ten times as large and adds its own
/// value; anything else spells no number.
pub proof fn law_digits_spell_a_number(digits: Seq<char>, c: char)
    ensures
        digits_value(Seq::empty()) == Some(0nat),
        digits_value(digits.push(c)) == (if digits_value(digits) is Some && '0' <= c <= '9' {
            Some((10 * digits_value(digits)->0 + (c as int - '0' as int)) as nat)
        } else {
            None
        }),
{
    assert(digits.push(c).drop_last() =~= digits);
}

/// A number is written in decimal digits that spell it, with no zero in front.
pub proof fn law_decimal_spells_its_number(n: nat)
    ensures
        decimal(n).len() > 0,
        digits_value(decimal(n)) == Some(n),
        forall|i: int| 0 <= i < decimal(n).len() ==> '0' <= #[trigger] decimal(n)[i] <= '9',
        n >= 10 ==> decimal(n)[0] != '0',
        n < 10 ==> decimal(n).len() == 1,
    decreases n,
{
    if n < 10 {
        assert(decimal(n).drop_last() =~= Seq::empty());
        assert(digits_value(Seq::<char>::empty()) == Some(0nat));
        assert(decimal(n).last() == digit_char(n as int));
    } else {
        law_decimal_spells_its_number(n / 10);
        let front = decimal(n / 10);
        assert(decimal(n).drop_last() =~= front);
        assert(decimal(n).last() == digit_char((n % 10) as int));
        assert(decimal(n)[0] == front[0]);
        if n / 10 < 10 {
            assert(digits_value(front) == Some(n / 10));
            assert(front.drop_last() =~= Seq::empty());
            assert(digits_value(Seq::<char>::empty()) == Some(0nat));
            assert(front.last() == front[0]);
        }
        assert forall|i: int| 0 <= i < decimal(n).len() implies '0' <= #[trigger] decimal(n)[i]
            <= '9' by {
            if i < front.len() {
                assert(decimal(n)[i] == front[i]);
            }
        }
    }
}

/// An integer is written in decimal digits that spell it, behind a minus sign
/// exactly where it is negative.
pub proof fn law_signed_decimal_spells_its_integer(n: int)
    ensures
        n >= 0 ==> digits_value(signed_decimal(n)) == Some(n as nat) && signed_decimal(n).len() > 0
            && signed_decimal(n)[0] != '-',
        n < 0 ==> signed_decimal(n).len() > 1 && signed_decimal(n)[0] == '-' && digits_value(
            signed_decimal(n).drop_first(),
        ) == Some((-n) as nat),
        n >= 10 ==> signed_decimal(n)[0] != '0',
        n <= -10 ==> signed_decimal(n)[1] != '0',
        0 <= n < 10 ==> signed_decimal(n).len() == 1,
        -10 < n < 0 ==> signed_decimal(n).len() == 2,
{
    reveal_strlit("-");
    if n < 0 {
        law_decimal_spells_its_number((-n) as nat);
        assert(signed_decimal(n).drop_first() =~= decimal((-n) as nat));
        assert(signed_decimal(n)[1] == decimal((-n) as nat)[0]);
    } else {
        law_decimal_spells_its_number(n as nat);
    }
}

} // verus!
