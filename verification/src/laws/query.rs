//! What is written into a query string reads back.

use crate::mcp::query_part;
use crate::query::{
    byte_encoded, bytes_encoded, escape, escape_run, hex_byte, hex_char, is_unreserved,
    percent_decoded, percent_encoded, piece_pairs, pieces_pairs, query_pairs, run_text,
};
use crate::text::{joined, lemma_run_to, lemma_run_to_is_first, run_to, split};
use vstd::prelude::*;

verus! {

/// Two runs of bytes are written one behind the other.
proof fn lemma_encoded_joins(front: Seq<u8>, back: Seq<u8>)
    ensures
        bytes_encoded(front + back) == bytes_encoded(front) + bytes_encoded(back),
    decreases back.len(),
{
    if back.len() == 0 {
        assert(front + back =~= front);
        assert(bytes_encoded(front) + Seq::<char>::empty() =~= bytes_encoded(front));
    } else {
        assert((front + back).drop_last() =~= front + back.drop_last());
        lemma_encoded_joins(front, back.drop_last());
        assert(bytes_encoded(front + back) =~= bytes_encoded(front) + bytes_encoded(back));
    }
}

/// The UTF-8 form of two texts, one behind the other.
proof fn lemma_utf8_joins(front: Seq<char>, back: Seq<char>)
    ensures
        vstd::utf8::encode_utf8(front + back) == vstd::utf8::encode_utf8(front)
            + vstd::utf8::encode_utf8(back),
    decreases front.len(),
{
    if front.len() == 0 {
        assert(front + back =~= back);
        assert(Seq::<u8>::empty() + vstd::utf8::encode_utf8(back) =~= vstd::utf8::encode_utf8(back));
    } else {
        assert((front + back).drop_first() =~= front.drop_first() + back);
        lemma_utf8_joins(front.drop_first(), back);
        assert(vstd::utf8::encode_utf8(front + back) =~= vstd::utf8::encode_utf8(front)
            + vstd::utf8::encode_utf8(back));
    }
}

/// The character stands for itself in a query string's value.
spec fn is_unreserved_char(c: char) -> bool {
    c as u32 <= 0x7f && is_unreserved(c as u8)
}

/// How many characters stand before the first that stands for itself.
spec fn reserved_length(text: Seq<char>) -> nat
    decreases text.len(),
{
    if text.len() == 0 || is_unreserved_char(text[0]) {
        0
    } else {
        1 + reserved_length(text.drop_first())
    }
}

proof fn lemma_reserved_length(text: Seq<char>)
    ensures
        reserved_length(text) <= text.len(),
        forall|i: int| 0 <= i < reserved_length(text) ==> !is_unreserved_char(#[trigger] text[i]),
        reserved_length(text) < text.len() ==> is_unreserved_char(
            text[reserved_length(text) as int],
        ),
    decreases text.len(),
{
    if text.len() > 0 && !is_unreserved_char(text[0]) {
        let rest = text.drop_first();
        lemma_reserved_length(rest);
        assert forall|i: int| 0 <= i < reserved_length(text) implies !is_unreserved_char(
            #[trigger] text[i],
        ) by {
            if i > 0 {
                assert(rest[i - 1] == text[i]);
            }
        }
    }
}

/// No byte of a character that does not stand for itself does.
proof fn lemma_reserved_scalar(c: char)
    requires
        !is_unreserved_char(c),
    ensures
        vstd::utf8::encode_scalar(c as u32).len() > 0,
        forall|i: int|
            0 <= i < vstd::utf8::encode_scalar(c as u32).len() ==> !is_unreserved(
                #[trigger] vstd::utf8::encode_scalar(c as u32)[i],
            ),
{
    let s = c as u32;
    vstd::utf8::char_is_scalar(c);
    assert(s <= 0x7f ==> (s & 0x7f) as u8 == s as u8) by (bit_vector);
    assert((0xc0u8 | ((s >> 6) & 0x1f) as u8) >= 0x80) by (bit_vector);
    assert((0xe0u8 | ((s >> 12) & 0x0f) as u8) >= 0x80) by (bit_vector);
    assert((0xf0u8 | ((s >> 18) & 0x7) as u8) >= 0x80) by (bit_vector);
    assert((0x80u8 | (s & 0x3f) as u8) >= 0x80) by (bit_vector);
    assert((0x80u8 | ((s >> 6) & 0x3f) as u8) >= 0x80) by (bit_vector);
    assert((0x80u8 | ((s >> 12) & 0x3f) as u8) >= 0x80) by (bit_vector);
}

/// None of the bytes stands for itself.
spec fn are_reserved(bytes: Seq<u8>) -> bool {
    forall|i: int| 0 <= i < bytes.len() ==> !is_unreserved(#[trigger] bytes[i])
}

proof fn lemma_reserved_text(text: Seq<char>)
    requires
        forall|i: int| 0 <= i < text.len() ==> !is_unreserved_char(#[trigger] text[i]),
    ensures
        are_reserved(vstd::utf8::encode_utf8(text)),
        text.len() > 0 ==> vstd::utf8::encode_utf8(text).len() > 0,
    decreases text.len(),
{
    if text.len() > 0 {
        let rest = text.drop_first();
        lemma_reserved_scalar(text[0]);
        assert forall|i: int| 0 <= i < rest.len() implies !is_unreserved_char(#[trigger] rest[i]) by {
            assert(rest[i] == text[i + 1]);
        }
        lemma_reserved_text(rest);
        let first = vstd::utf8::encode_scalar(text[0] as u32);
        let bytes = vstd::utf8::encode_utf8(text);
        assert forall|i: int| 0 <= i < bytes.len() implies !is_unreserved(#[trigger] bytes[i]) by {
            if i < first.len() {
                assert(bytes[i] == first[i]);
            } else {
                assert(bytes[i] == vstd::utf8::encode_utf8(rest)[i - first.len()]);
            }
        }
    }
}

/// Bytes that do not stand for themselves are written as one run of escapes.
proof fn lemma_escapes_run_on(bytes: Seq<u8>, rest: Seq<char>)
    requires
        are_reserved(bytes),
    ensures
        escape_run(bytes_encoded(bytes) + rest) == bytes + escape_run(rest),
        bytes_encoded(bytes).len() == 3 * bytes.len(),
        bytes.len() > 0 ==> bytes_encoded(bytes)[0] == '%',
    decreases bytes.len(),
{
    if bytes.len() == 0 {
        assert(bytes_encoded(bytes) + rest =~= rest);
        assert(bytes + escape_run(rest) =~= escape_run(rest));
    } else {
        let byte = bytes[0];
        let tail = bytes.drop_first();
        assert forall|i: int| 0 <= i < tail.len() implies !is_unreserved(#[trigger] tail[i]) by {
            assert(tail[i] == bytes[i + 1]);
        }
        lemma_escapes_run_on(tail, rest);
        assert(bytes =~= seq![byte] + tail);
        lemma_encoded_joins(seq![byte], tail);
        assert(seq![byte].drop_last() =~= Seq::empty());
        reveal_with_fuel(bytes_encoded, 2);
        assert(bytes_encoded(seq![byte]) =~= byte_encoded(byte));
        let text = bytes_encoded(bytes) + rest;
        assert(!is_unreserved(bytes[0]));
        assert(escape(text) =~= seq![hex_char(byte / 16), hex_char(byte % 16)]);
        assert(hex_byte(escape(text)) == Some(byte));
        assert(text.skip(3) =~= bytes_encoded(tail) + rest);
        assert(seq![byte] + (tail + escape_run(rest)) =~= bytes + escape_run(rest));
    }
}

/// A value that was written into a query string reads back as it was.
pub proof fn law_encoded_value_decodes(text: Seq<char>)
    ensures
        percent_decoded(percent_encoded(text)) == text,
    decreases text.len(),
{
    lemma_reserved_length(text);
    let k = reserved_length(text) as int;
    let front = text.take(k);
    let rest = text.skip(k);
    assert(text =~= front + rest);
    lemma_utf8_joins(front, rest);
    let bytes = vstd::utf8::encode_utf8(front);
    lemma_encoded_joins(bytes, vstd::utf8::encode_utf8(rest));
    let written = percent_encoded(text);
    if text.len() == 0 {
        assert(percent_decoded(written) =~= text);
    } else if k == 0 {
        let c = text[0];
        let tail = text.drop_first();
        assert(seq![c] + tail =~= text);
        lemma_plain_char_is_itself(c, tail);
        law_encoded_value_decodes(tail);
        assert(written.drop_first() =~= percent_encoded(tail));
    } else {
        assert forall|i: int| 0 <= i < front.len() implies !is_unreserved_char(
            #[trigger] front[i],
        ) by {
            assert(front[i] == text[i]);
        }
        lemma_reserved_text(front);
        lemma_escapes_run_on(bytes, percent_encoded(rest));
        law_encoded_value_decodes(rest);
        // The run ends where a character that stands for itself follows.
        if rest.len() > 0 {
            lemma_plain_char_is_itself(rest[0], rest.drop_first());
            assert(seq![rest[0]] + rest.drop_first() =~= rest);
        }
        assert(escape_run(percent_encoded(rest)) =~= Seq::empty());
        assert(escape_run(written) =~= bytes);
        assert(written[0] == '%');
        assert(written.skip(3 * bytes.len() as int) =~= percent_encoded(rest));
        vstd::utf8::encode_utf8_valid_utf8(front);
        vstd::utf8::encode_utf8_decode_utf8(front);
        assert(run_text(bytes) == front);
    }
}

/// A character that stands for itself is written as itself.
proof fn lemma_plain_char_is_itself(c: char, tail: Seq<char>)
    requires
        is_unreserved_char(c),
    ensures
        percent_encoded(seq![c] + tail) == seq![c] + percent_encoded(tail),
        c != '%',
        c != '+',
{
    let s = c as u32;
    lemma_utf8_joins(seq![c], tail);
    assert(seq![c].drop_first() =~= Seq::empty());
    reveal_with_fuel(vstd::utf8::encode_utf8, 2);
    assert((s & 0x7f) as u8 == s as u8) by (bit_vector)
        requires
            s <= 0x7f,
    ;
    assert(vstd::utf8::encode_utf8(seq![c]) =~= seq![c as u8]);
    lemma_encoded_joins(seq![c as u8], vstd::utf8::encode_utf8(tail));
    assert(seq![c as u8].drop_last() =~= Seq::empty());
    reveal_with_fuel(bytes_encoded, 2);
    assert(bytes_encoded(seq![c as u8]) =~= seq![c]);
}

/// An encoded value holds letters, digits, `-`, `_`, `.`, `~` and `%` alone,
/// so nothing in it can be taken for a mark of the query string.
pub proof fn law_encoded_value_is_plain(text: Seq<char>, i: int)
    requires
        0 <= i < percent_encoded(text).len(),
    ensures
        ({
            let c = percent_encoded(text)[i];
            ||| 'A' <= c <= 'Z'
            ||| 'a' <= c <= 'z'
            ||| '0' <= c <= '9'
            ||| c == '-'
            ||| c == '_'
            ||| c == '.'
            ||| c == '~'
            ||| c == '%'
        }),
{
    lemma_encoded_bytes_are_plain(vstd::utf8::encode_utf8(text), i);
}

proof fn lemma_encoded_bytes_are_plain(bytes: Seq<u8>, i: int)
    requires
        0 <= i < bytes_encoded(bytes).len(),
    ensures
        ({
            let c = bytes_encoded(bytes)[i];
            ||| 'A' <= c <= 'Z'
            ||| 'a' <= c <= 'z'
            ||| '0' <= c <= '9'
            ||| c == '-'
            ||| c == '_'
            ||| c == '.'
            ||| c == '~'
            ||| c == '%'
        }),
    decreases bytes.len(),
{
    let front = bytes_encoded(bytes.drop_last());
    if i < front.len() {
        lemma_encoded_bytes_are_plain(bytes.drop_last(), i);
        assert(bytes_encoded(bytes)[i] == front[i]);
    } else {
        assert(bytes_encoded(bytes)[i] == byte_encoded(bytes.last())[i - front.len()]);
    }
}

/// A name that stands for itself in a query string: it holds no mark that
/// cuts the string, and decodes to itself.
pub open spec fn is_plain_name(name: Seq<char>) -> bool {
    !name.contains('&') && !name.contains('=') && percent_decoded(name) == name
}

/// A text with neither a `%` nor a `+` decodes to itself.
pub proof fn law_unmarked_text_decodes_to_itself(text: Seq<char>)
    requires
        !text.contains('%'),
        !text.contains('+'),
    ensures
        percent_decoded(text) == text,
    decreases text.len(),
{
    if text.len() > 0 {
        let rest = text.drop_first();
        assert(text.contains(text[0]));
        assert forall|c: char| rest.contains(c) implies text.contains(c) by {
            let i = rest.index_of(c);
            assert(text[i + 1] == c);
        }
        law_unmarked_text_decodes_to_itself(rest);
        assert(seq![text[0]] + rest =~= text);
    }
}

/// Two texts with a `c` between them have the pieces of the one and then those
/// of the other.
pub(crate) proof fn lemma_split_joins(front: Seq<char>, back: Seq<char>, c: char)
    ensures
        split(front + seq![c] + back, c) == split(front, c) + split(back, c),
    decreases front.len(),
{
    let text = front + seq![c] + back;
    lemma_run_to_is_first(front, c);
    let at = run_to(front, c) as int;
    assert forall|i: int| 0 <= i < at implies text[i] != c by {
        assert(text[i] == front[i]);
    }
    lemma_run_to(text, c, at);
    if at < front.len() {
        assert(text.take(at) =~= front.take(at));
        assert(text.skip(at + 1) =~= front.skip(at + 1) + seq![c] + back);
        lemma_split_joins(front.skip(at + 1), back, c);
        assert(split(text, c) =~= seq![front.take(at)] + split(text.skip(at + 1), c));
        assert(seq![front.take(at)] + split(front.skip(at + 1), c) + split(back, c)
            =~= seq![front.take(at)] + (split(front.skip(at + 1), c) + split(back, c)));
    } else {
        assert(text.take(at) =~= front);
        assert(text.skip(at + 1) =~= back);
        assert(split(front, c) =~= seq![front]);
        assert(split(text, c) =~= seq![front] + split(back, c));
    }
}

proof fn lemma_pieces_join(front: Seq<Seq<char>>, back: Seq<Seq<char>>)
    ensures
        pieces_pairs(front + back) == pieces_pairs(front) + pieces_pairs(back),
    decreases back.len(),
{
    if back.len() == 0 {
        assert(front + back =~= front);
        assert(pieces_pairs(front) + pieces_pairs(back) =~= pieces_pairs(front));
    } else {
        assert((front + back).drop_last() =~= front + back.drop_last());
        lemma_pieces_join(front, back.drop_last());
        assert(pieces_pairs(front + back) =~= pieces_pairs(front) + pieces_pairs(back));
    }
}

/// Two query strings joined by a `&` spell the pairs of the one and then those
/// of the other.
pub proof fn law_ampersand_parts_query_strings(front: Seq<char>, back: Seq<char>)
    ensures
        query_pairs(front + "&"@ + back) == query_pairs(front) + query_pairs(back),
{
    reveal_strlit("&");
    assert("&"@ =~= seq!['&']);
    lemma_split_joins(front, back, '&');
    lemma_pieces_join(split(front, '&'), split(back, '&'));
}

/// Joined pieces that hold no separator are cut again where they were joined.
proof fn lemma_join_splits(parts: Seq<Seq<char>>)
    requires
        parts.len() > 0,
        forall|i: int| 0 <= i < parts.len() ==> !(#[trigger] parts[i]).contains('&'),
    ensures
        split(joined(parts, "&"@), '&') == parts,
    decreases parts.len(),
{
    reveal_strlit("&");
    assert("&"@ =~= seq!['&']);
    if parts.len() == 1 {
        lemma_run_to_is_first(parts[0], '&');
        assert(seq![parts[0]] =~= parts);
    } else {
        lemma_join_splits(parts.drop_last());
        lemma_split_joins(joined(parts.drop_last(), "&"@), parts.last(), '&');
        lemma_run_to_is_first(parts.last(), '&');
        assert(split(parts.last(), '&') =~= seq![parts.last()]);
        assert(parts.drop_last() + seq![parts.last()] =~= parts);
    }
}

/// The `name=value` parts of a run of pairs.
pub open spec fn query_parts(pairs: Seq<(Seq<char>, Seq<char>)>) -> Seq<Seq<char>> {
    pairs.map_values(|pair: (Seq<char>, Seq<char>)| query_part(pair.0, pair.1))
}

/// Each pair has a plain name.
pub open spec fn are_readable(pairs: Seq<(Seq<char>, Seq<char>)>) -> bool {
    forall|i: int| 0 <= i < pairs.len() ==> is_plain_name((#[trigger] pairs[i]).0)
}

proof fn lemma_part_reads_back(name: Seq<char>, value: Seq<char>)
    requires
        is_plain_name(name),
    ensures
        piece_pairs(query_part(name, value)) == seq![(name, value)],
        !query_part(name, value).contains('&'),
{
    let part = query_part(name, value);
    let at = name.len() as int;
    reveal_strlit("=");
    assert("="@ =~= seq!['=']);
    assert forall|i: int| 0 <= i < at implies part[i] != '=' by {
        assert(part[i] == name[i]);
        assert(name.contains(name[i]));
    }
    assert(part[at] == '=');
    lemma_run_to(part, '=', at);
    assert(part.take(at) =~= name);
    assert(part.skip(at + 1) =~= percent_encoded(value));
    law_encoded_value_decodes(value);
    if part.contains('&') {
        let i = part.index_of('&');
        if i < at {
            assert(name[i] == '&');
            assert(name.contains('&'));
        } else if i > at {
            law_encoded_value_is_plain(value, i - at - 1);
            assert(percent_encoded(value)[i - at - 1] == '&');
        }
    }
}

/// A query string that the tool bridge writes is read back by the server as
/// the pairs it was written from, in order.
pub proof fn law_query_string_reads_back(pairs: Seq<(Seq<char>, Seq<char>)>)
    requires
        are_readable(pairs),
    ensures
        query_pairs(joined(query_parts(pairs), "&"@)) == pairs,
{
    let parts = query_parts(pairs);
    if pairs.len() == 0 {
        assert(split(Seq::<char>::empty(), '&') =~= seq![Seq::<char>::empty()]);
        assert(piece_pairs(Seq::empty()) =~= Seq::empty());
        assert(seq![Seq::<char>::empty()].drop_last() =~= Seq::empty());
        reveal_with_fuel(pieces_pairs, 2);
        assert(pieces_pairs(seq![Seq::<char>::empty()]) =~= pairs);
    } else {
        assert forall|i: int| 0 <= i < parts.len() implies !(#[trigger] parts[i]).contains('&') by {
            lemma_part_reads_back(pairs[i].0, pairs[i].1);
        }
        lemma_join_splits(parts);
        lemma_pieces_read_back(pairs);
    }
}

proof fn lemma_pieces_read_back(pairs: Seq<(Seq<char>, Seq<char>)>)
    requires
        are_readable(pairs),
    ensures
        pieces_pairs(query_parts(pairs)) == pairs,
    decreases pairs.len(),
{
    if pairs.len() > 0 {
        let shorter = pairs.drop_last();
        lemma_pieces_read_back(shorter);
        lemma_part_reads_back(pairs.last().0, pairs.last().1);
        assert(query_parts(pairs).drop_last() =~= query_parts(shorter));
        assert(shorter + seq![(pairs.last().0, pairs.last().1)] =~= pairs);
    } else {
        assert(pieces_pairs(query_parts(pairs)) =~= pairs);
    }
}

/// A hexadecimal digit, in either case.
pub open spec fn is_hex_digit(c: char) -> bool {
    '0' <= c <= '9' || 'a' <= c <= 'f' || 'A' <= c <= 'F'
}

/// The value of a hexadecimal digit.
pub open spec fn digit_of(c: char) -> int {
    if c <= '9' {
        c as int - '0' as int
    } else if c <= 'F' {
        c as int - 'A' as int + 10
    } else {
        c as int - 'a' as int + 10
    }
}

/// Two hexadecimal digits spell a byte, in either case, and nothing else does.
pub proof fn law_two_hex_digits_spell_a_byte(hex: Seq<char>)
    ensures
        hex_byte(hex) is Some <==> hex.len() == 2 && is_hex_digit(hex[0]) && is_hex_digit(hex[1]),
        hex_byte(hex) is Some ==> hex_byte(hex)->0 == 16 * digit_of(hex[0]) + digit_of(hex[1]),
{
}

/// A space is written for a `+`, and any other character but a `%` for itself.
pub proof fn law_plain_characters_decode_one_by_one(c: char, rest: Seq<char>)
    requires
        c != '%',
    ensures
        percent_decoded(Seq::empty()) == Seq::<char>::empty(),
        percent_decoded(seq![c] + rest) == seq![if c == '+' {
            ' '
        } else {
            c
        }] + percent_decoded(rest),
{
    assert((seq![c] + rest).drop_first() =~= rest);
}

/// A `%` that two hexadecimal digits do not follow stays as it is, with the
/// (at most two) characters behind it.
pub proof fn law_malformed_escape_is_literal(escaped: Seq<char>, rest: Seq<char>)
    requires
        escaped.len() == 2 || (escaped.len() < 2 && rest.len() == 0),
        !(escaped.len() == 2 && is_hex_digit(escaped[0]) && is_hex_digit(escaped[1])),
    ensures
        percent_decoded(seq!['%'] + escaped + rest) == seq!['%'] + escaped + percent_decoded(rest),
{
    let text = seq!['%'] + escaped + rest;
    assert(escape(text) =~= escaped);
    law_two_hex_digits_spell_a_byte(escaped);
    assert(escape_run(text) =~= Seq::empty());
    assert(text.skip(1 + escaped.len() as int) =~= rest);
}

/// A `%` and two hexadecimal digits that spell the byte stand in `text` at
/// `at`.
pub open spec fn is_escape(text: Seq<char>, at: int, byte: u8) -> bool {
    &&& text[at] == '%'
    &&& is_hex_digit(text[at + 1])
    &&& is_hex_digit(text[at + 2])
    &&& byte == 16 * digit_of(text[at + 1]) + digit_of(text[at + 2])
}

/// The bytes as `%` and two hexadecimal digits each.
pub open spec fn are_escapes(text: Seq<char>, bytes: Seq<u8>) -> bool {
    &&& text.len() == 3 * bytes.len()
    &&& forall|i: int| 0 <= i < bytes.len() ==> is_escape(text, 3 * i, #[trigger] bytes[i])
}

proof fn lemma_escapes_are_a_run(text: Seq<char>, bytes: Seq<u8>, rest: Seq<char>)
    requires
        are_escapes(text, bytes),
    ensures
        escape_run(text + rest) == bytes + escape_run(rest),
    decreases bytes.len(),
{
    if bytes.len() == 0 {
        assert(text + rest =~= rest);
        assert(bytes + escape_run(rest) =~= escape_run(rest));
    } else {
        let whole = text + rest;
        let byte = bytes[0];
        let tail = bytes.drop_first();
        let text_tail = text.skip(3);
        assert(is_escape(text, 3 * 0int, bytes[0]));
        assert(escape(whole) =~= seq![text[1], text[2]]);
        law_two_hex_digits_spell_a_byte(escape(whole));
        assert(hex_byte(escape(whole)) == Some(byte));
        assert forall|i: int| 0 <= i < tail.len() implies is_escape(
            text_tail,
            3 * i,
            #[trigger] tail[i],
        ) by {
            assert(is_escape(text, 3 * (i + 1), bytes[i + 1]));
        }
        lemma_escapes_are_a_run(text_tail, tail, rest);
        assert(whole.skip(3) =~= text_tail + rest);
        assert(seq![byte] + (tail + escape_run(rest)) =~= bytes + escape_run(rest));
    }
}

/// Escapes, in either case, read as the text that their bytes are in UTF-8, or
/// as one character for each byte where they are no UTF-8, up to where the
/// escapes end.
pub proof fn law_escapes_decode_as_their_bytes(
    escapes: Seq<char>,
    bytes: Seq<u8>,
    rest: Seq<char>,
)
    requires
        are_escapes(escapes, bytes),
        bytes.len() > 0,
        !(rest.len() >= 3 && rest[0] == '%' && is_hex_digit(rest[1]) && is_hex_digit(rest[2])),
    ensures
        vstd::utf8::valid_utf8(bytes) ==> percent_decoded(escapes + rest)
            == vstd::utf8::decode_utf8(bytes) + percent_decoded(rest),
        !vstd::utf8::valid_utf8(bytes) ==> percent_decoded(escapes + rest) == Seq::new(
            bytes.len(),
            |i: int| bytes[i] as char,
        ) + percent_decoded(rest),
{
    let text = escapes + rest;
    lemma_escapes_are_a_run(escapes, bytes, rest);
    if rest.len() >= 3 {
        law_two_hex_digits_spell_a_byte(escape(rest));
    }
    assert(escape_run(rest) =~= Seq::empty());
    assert(escape_run(text) =~= bytes);
    assert(is_escape(escapes, 3 * 0int, bytes[0]));
    assert(text[0] == '%');
    assert(text.skip(3 * bytes.len() as int) =~= rest);
    assert(crate::query::byte_chars(bytes) =~= Seq::new(bytes.len(), |i: int| bytes[i] as char));
}

/// The character is a letter or a digit of ASCII, or one of `-`, `_`, `.` and
/// `~`.
pub open spec fn is_kept(c: char) -> bool {
    'A' <= c <= 'Z' || 'a' <= c <= 'z' || '0' <= c <= '9' || c == '-' || c == '_' || c == '.' || c
        == '~'
}

/// Letters, digits and the four marks that need no escape are written as
/// themselves, one by one.
pub proof fn law_kept_characters_are_written_as_they_are(c: char, rest: Seq<char>)
    requires
        is_kept(c),
    ensures
        percent_encoded(Seq::empty()) == Seq::<char>::empty(),
        percent_encoded(seq![c] + rest) == seq![c] + percent_encoded(rest),
{
    lemma_plain_char_is_itself(c, rest);
}

/// Any other character is written as its bytes in UTF-8, each as a `%` and two
/// hexadecimal digits in upper case.
pub proof fn law_other_characters_are_written_as_escapes(c: char, rest: Seq<char>)
    requires
        !is_kept(c),
    ensures
        ({
            let bytes = vstd::utf8::encode_utf8(seq![c]);
            let text = percent_encoded(seq![c] + rest);
            let escapes = text.take(3 * bytes.len() as int);
            &&& text == escapes + percent_encoded(rest)
            &&& are_escapes(escapes, bytes)
            &&& forall|i: int|
                0 <= i < escapes.len() ==> !('a' <= #[trigger] escapes[i] <= 'f')
        }),
{
    let one = seq![c];
    let bytes = vstd::utf8::encode_utf8(one);
    lemma_utf8_joins(one, rest);
    lemma_encoded_joins(bytes, vstd::utf8::encode_utf8(rest));
    assert(!is_unreserved_char(c)) by {
        if is_unreserved_char(c) {
            assert(c as u8 == c as u32);
        }
    }
    lemma_reserved_text(one);
    lemma_encoded_escapes(bytes);
    let text = percent_encoded(seq![c] + rest);
    assert(text.take(3 * bytes.len() as int) =~= bytes_encoded(bytes));
}

proof fn lemma_encoded_escapes(bytes: Seq<u8>)
    requires
        are_reserved(bytes),
    ensures
        are_escapes(bytes_encoded(bytes), bytes),
        forall|i: int|
            0 <= i < bytes_encoded(bytes).len() ==> !('a' <= #[trigger] bytes_encoded(bytes)[i]
                <= 'f'),
    decreases bytes.len(),
{
    if bytes.len() > 0 {
        let front = bytes.drop_last();
        let byte = bytes.last();
        let n = front.len() as int;
        assert forall|i: int| 0 <= i < front.len() implies !is_unreserved(#[trigger] front[i]) by {
            assert(front[i] == bytes[i]);
        }
        lemma_encoded_escapes(front);
        let head = bytes_encoded(front);
        let text = bytes_encoded(bytes);
        assert(!is_unreserved(bytes[n]));
        assert(text =~= head + seq!['%', hex_char(byte / 16), hex_char(byte % 16)]);
        assert forall|i: int| 0 <= i < bytes.len() implies is_escape(
            text,
            3 * i,
            #[trigger] bytes[i],
        ) by {
            if i < n {
                assert(is_escape(head, 3 * i, front[i]));
            } else {
                assert(text[3 * n] == '%');
                assert(text[3 * n + 1] == hex_char(byte / 16));
                assert(text[3 * n + 2] == hex_char(byte % 16));
            }
        }
        assert forall|i: int| 0 <= i < text.len() implies !('a' <= #[trigger] text[i] <= 'f') by {
            if i < head.len() {
                assert(text[i] == head[i]);
            }
        }
    }
}

/// One piece of a query string, without a `&`, is one pair where it has a `=`:
/// what stands before the first and what stands behind it, both decoded. It is
/// none where it has no `=`.
pub proof fn law_piece_is_a_pair(name: Seq<char>, value: Seq<char>)
    requires
        !name.contains('&'),
        !name.contains('='),
        !value.contains('&'),
    ensures
        query_pairs(name + seq!['='] + value) == seq![(percent_decoded(name), percent_decoded(value))],
        query_pairs(name) == Seq::<(Seq<char>, Seq<char>)>::empty(),
{
    let piece = name + seq!['='] + value;
    assert(!piece.contains('&')) by {
        if piece.contains('&') {
            let i = piece.index_of('&');
            if i < name.len() {
                assert(name[i] == '&');
            } else if i > name.len() {
                assert(value[i - name.len() - 1] == '&');
            }
        }
    }
    lemma_run_to_is_first(piece, '&');
    lemma_run_to_is_first(name, '&');
    assert(split(piece, '&') =~= seq![piece]);
    assert(split(name, '&') =~= seq![name]);
    reveal_with_fuel(pieces_pairs, 2);
    assert(seq![piece].drop_last() =~= Seq::empty());
    assert(seq![name].drop_last() =~= Seq::empty());
    let at = name.len() as int;
    assert forall|i: int| 0 <= i < at implies piece[i] != '=' by {
        assert(piece[i] == name[i]);
        assert(name.contains(name[i]));
    }
    assert(piece[at] == '=');
    lemma_run_to(piece, '=', at);
    lemma_run_to_is_first(name, '=');
    assert(piece.take(at) =~= name);
    assert(piece.skip(at + 1) =~= value);
    assert(pieces_pairs(seq![piece]) =~= piece_pairs(piece));
    assert(pieces_pairs(seq![name]) =~= piece_pairs(name));
}

/// One part of a written query string is its name as it is, a `=`, and a value
/// that reads back as the text it was written from.
pub proof fn law_query_part_names_its_value(name: Seq<char>, text: Seq<char>)
    ensures
        (name + seq!['=']).is_prefix_of(query_part(name, text)),
        percent_decoded(query_part(name, text).skip(name.len() as int + 1)) == text,
        query_part(name, text).skip(name.len() as int + 1) == percent_encoded(text),
{
    reveal_strlit("=");
    let part = query_part(name, text);
    assert(name + seq!['='] =~= part.subrange(0, name.len() as int + 1));
    assert(part.skip(name.len() as int + 1) =~= percent_encoded(text));
    law_encoded_value_decodes(text);
}

} // verus!
