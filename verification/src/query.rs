//! Query strings: reading `?name=value&name2=value2`, and writing one value
//! so that it reads back.

use crate::text::{chars_of, find_char, push_chars, split, split_once, text_between};
use vstd::prelude::*;
use vstd::string::*;

verus! {

/// The value of a hexadecimal digit.
pub open spec fn hex_value(c: char) -> Option<u8> {
    if '0' <= c <= '9' {
        Some((c as u32 - 48) as u8)
    } else if 'a' <= c <= 'f' {
        Some((c as u32 - 87) as u8)
    } else if 'A' <= c <= 'F' {
        Some((c as u32 - 55) as u8)
    } else {
        None
    }
}

/// The byte that two hexadecimal digits spell.
pub open spec fn hex_byte(hex: Seq<char>) -> Option<u8> {
    if hex.len() == 2 {
        match (hex_value(hex[0]), hex_value(hex[1])) {
            (Some(high), Some(low)) => Some((16 * high + low) as u8),
            _ => None,
        }
    } else {
        None
    }
}

/// The (at most two) characters that a `%` at the head of `text` takes.
pub open spec fn escape(text: Seq<char>) -> Seq<char> {
    text.subrange(1, if text.len() < 3 { text.len() as int } else { 3 })
}

/// The bytes of the escapes that `text` starts with, one behind the other:
/// each is a `%` and two hexadecimal digits.
pub open spec fn escape_run(text: Seq<char>) -> Seq<u8>
    decreases text.len(),
{
    if text.len() >= 3 && text[0] == '%' && hex_byte(escape(text)) is Some {
        seq![hex_byte(escape(text))->0] + escape_run(text.skip(3))
    } else {
        Seq::empty()
    }
}

/// The characters whose numbers are these bytes.
pub open spec fn byte_chars(bytes: Seq<u8>) -> Seq<char> {
    bytes.map_values(|byte: u8| byte as char)
}

/// What a run of escapes stands for: the text that its bytes are in UTF-8, or
/// one character for each byte where they are no UTF-8.
pub open spec fn run_text(bytes: Seq<u8>) -> Seq<char> {
    if vstd::utf8::valid_utf8(bytes) {
        vstd::utf8::decode_utf8(bytes)
    } else {
        byte_chars(bytes)
    }
}

/// A run of escapes takes three characters for each byte.
pub proof fn lemma_escape_run_fits(text: Seq<char>)
    ensures
        3 * escape_run(text).len() <= text.len(),
    decreases text.len(),
{
    if text.len() >= 3 && text[0] == '%' && hex_byte(escape(text)) is Some {
        lemma_escape_run_fits(text.skip(3));
    }
}

/// What a query string's name or value stands for: a `+` is a space, a run of
/// `%XX` escapes is the text of its bytes, and everything else, a `%` that two
/// hexadecimal digits do not follow and what it takes included, is itself.
pub open spec fn percent_decoded(text: Seq<char>) -> Seq<char>
    decreases text.len(),
{
    if text.len() == 0 {
        Seq::empty()
    } else if text[0] == '+' {
        seq![' '] + percent_decoded(text.drop_first())
    } else if text[0] == '%' {
        let run = escape_run(text);
        proof {
            lemma_escape_run_fits(text);
        }
        if run.len() > 0 {
            run_text(run) + percent_decoded(text.skip(3 * run.len() as int))
        } else {
            seq!['%'] + escape(text) + percent_decoded(text.skip(1 + escape(text).len() as int))
        }
    } else {
        seq![text[0]] + percent_decoded(text.drop_first())
    }
}

/// What one piece of a query string gives: a decoded name and value, or
/// nothing where it has no `=`.
pub open spec fn piece_pairs(piece: Seq<char>) -> Seq<(Seq<char>, Seq<char>)> {
    match split_once(piece, '=') {
        Some((name, value)) => seq![(percent_decoded(name), percent_decoded(value))],
        None => Seq::empty(),
    }
}

/// What the pieces of a query string give, in order.
pub open spec fn pieces_pairs(pieces: Seq<Seq<char>>) -> Seq<(Seq<char>, Seq<char>)>
    decreases pieces.len(),
{
    if pieces.len() == 0 {
        Seq::empty()
    } else {
        pieces_pairs(pieces.drop_last()) + piece_pairs(pieces.last())
    }
}

/// The pairs that a query string spells.
pub open spec fn query_pairs(query: Seq<char>) -> Seq<(Seq<char>, Seq<char>)> {
    pieces_pairs(split(query, '&'))
}

/// The texts of a run of pairs.
pub open spec fn pair_texts(pairs: Seq<(String, String)>) -> Seq<(Seq<char>, Seq<char>)> {
    pairs.map_values(|pair: (String, String)| (pair.0@, pair.1@))
}

/// The value of a hexadecimal digit.
fn hex_digit(c: char) -> (value: Option<u8>)
    ensures
        value == hex_value(c),
{
    if '0' <= c && c <= '9' {
        Some((c as u32 - 48) as u8)
    } else if 'a' <= c && c <= 'f' {
        Some((c as u32 - 87) as u8)
    } else if 'A' <= c && c <= 'F' {
        Some((c as u32 - 55) as u8)
    } else {
        None
    }
}

/// The byte of the escape at `at`, where one stands there.
fn escape_at(chars: &Vec<char>, at: usize) -> (byte: Option<u8>)
    requires
        at <= chars.len(),
    ensures
        match byte {
            Some(byte) => {
                let rest = chars@.skip(at as int);
                rest.len() >= 3 && rest[0] == '%' && hex_byte(escape(rest)) == Some(byte)
            },
            None => escape_run(chars@.skip(at as int)).len() == 0,
        },
{
    let ghost rest = chars@.skip(at as int);
    if chars.len() - at < 3 || chars[at] != '%' {
        return None;
    }
    assert(escape(rest) =~= seq![chars@[at + 1], chars@[at + 2]]);
    match (hex_digit(chars[at + 1]), hex_digit(chars[at + 2])) {
        (Some(high), Some(low)) => Some(16 * high + low),
        _ => None,
    }
}

/// `String::from_utf8`: the text that the bytes are in UTF-8, and nothing
/// where they are no UTF-8.
#[verifier::external_body]
fn text_of_utf8(bytes: Vec<u8>) -> (text: Option<String>)
    ensures
        text is Some <==> vstd::utf8::valid_utf8(bytes@),
        text is Some ==> text->0@ == vstd::utf8::decode_utf8(bytes@),
{
    match String::from_utf8(bytes) {
        Ok(text) => Some(text),
        Err(_) => None,
    }
}

/// Appends what a run of escapes stands for.
fn push_run(out: &mut String, bytes: &Vec<u8>)
    ensures
        final(out)@ == old(out)@ + run_text(bytes@),
{
    let ghost before = out@;
    if let Some(text) = text_of_utf8(bytes.clone()) {
        out.append(text.as_str());
    } else {
        assert(byte_chars(bytes@).take(0) =~= Seq::empty());
        for i in 0..bytes.len()
            invariant
                out@ == before + byte_chars(bytes@).take(i as int),
        {
            out.push(bytes[i] as char);
            assert(byte_chars(bytes@).take(i + 1) =~= byte_chars(bytes@).take(i as int).push(
                bytes[i as int] as char,
            ));
            assert(out@ =~= before + byte_chars(bytes@).take(i + 1));
        }
        assert(byte_chars(bytes@).take(bytes@.len() as int) =~= byte_chars(bytes@));
    }
}

/// Decodes a name or a value of a query string. A `%` that two hexadecimal
/// digits do not follow is passed through literally: decoding never fails.
pub fn percent_decode(s: &str) -> (decoded: String)
    ensures
        decoded@ == percent_decoded(s@),
{
    let chars = chars_of(s);
    let mut decoded = String::new();
    let mut at: usize = 0;
    assert(chars@.skip(0) =~= chars@);
    while at < chars.len()
        invariant
            at <= chars.len(),
            decoded@ + percent_decoded(chars@.skip(at as int)) == percent_decoded(chars@),
        decreases chars.len() - at,
    {
        let ghost rest = chars@.skip(at as int);
        let ghost before = decoded@;
        let c = chars[at];
        if c == '+' {
            decoded.push(' ');
            at = at + 1;
            proof {
                assert(rest.drop_first() =~= chars@.skip(at as int));
                let tail = percent_decoded(chars@.skip(at as int));
                assert(before + (seq![' '] + tail) =~= decoded@ + tail);
            }
        } else if c == '%' {
            let (bytes, end) = read_run(&chars, at);
            if bytes.len() > 0 {
                push_run(&mut decoded, &bytes);
                proof {
                    assert(rest.skip(3 * bytes@.len() as int) =~= chars@.skip(end as int));
                    let tail = percent_decoded(chars@.skip(end as int));
                    assert(before + (run_text(bytes@) + tail) =~= decoded@ + tail);
                }
                at = end;
            } else {
                let to: usize = if chars.len() - at < 3 {
                    chars.len()
                } else {
                    at + 3
                };
                decoded.push('%');
                push_chars(&mut decoded, &chars, at + 1, to);
                proof {
                    assert(escape(rest) =~= chars@.subrange(at + 1, to as int));
                    assert(rest.skip(1 + escape(rest).len() as int) =~= chars@.skip(to as int));
                    let tail = percent_decoded(chars@.skip(to as int));
                    assert(before + (seq!['%'] + escape(rest) + tail) =~= decoded@ + tail);
                }
                at = to;
            }
        } else {
            decoded.push(c);
            at = at + 1;
            proof {
                assert(rest.drop_first() =~= chars@.skip(at as int));
                let tail = percent_decoded(chars@.skip(at as int));
                assert(before + (seq![c] + tail) =~= decoded@ + tail);
            }
        }
    }
    assert(chars@.skip(at as int) =~= Seq::empty());
    assert(decoded@ + Seq::<char>::empty() =~= decoded@);
    decoded
}

/// Reads the run of escapes that starts at `from`: its bytes, and where it
/// ends.
fn read_run(chars: &Vec<char>, from: usize) -> (run: (Vec<u8>, usize))
    requires
        from <= chars.len(),
    ensures
        run.0@ == escape_run(chars@.skip(from as int)),
        run.1 == from + 3 * run.0@.len(),
        run.1 <= chars.len(),
{
    let mut bytes: Vec<u8> = Vec::new();
    let mut at: usize = from;
    assert(bytes@ + escape_run(chars@.skip(from as int)) =~= escape_run(chars@.skip(from as int)));
    loop
        invariant
            from <= at <= chars.len(),
            at == from + 3 * bytes@.len(),
            bytes@ + escape_run(chars@.skip(at as int)) == escape_run(chars@.skip(from as int)),
        decreases chars.len() - at,
    {
        let byte = match escape_at(chars, at) {
            Some(byte) => byte,
            None => {
                assert(bytes@ + escape_run(chars@.skip(at as int)) =~= bytes@);
                return (bytes, at);
            },
        };
        let ghost before = bytes@;
        bytes.push(byte);
        proof {
            assert(chars@.skip(at as int).skip(3) =~= chars@.skip(at + 3));
            let tail = escape_run(chars@.skip(at + 3));
            assert(before + (seq![byte] + tail) =~= bytes@ + tail);
        }
        at = at + 3;
    }
}

/// A `name=value&name2=value2` query string as its decoded pairs, in order. A
/// piece without a `=` is no pair.
pub fn parse_query_string(query: &str) -> (pairs: Vec<(String, String)>)
    ensures
        pair_texts(pairs@) == query_pairs(query@),
{
    let chars = chars_of(query);
    let mut pairs: Vec<(String, String)> = Vec::new();
    let mut at: usize = 0;
    let ghost mut done: Seq<Seq<char>> = Seq::empty();
    proof {
        assert(chars@.skip(0) =~= chars@);
        assert(done + split(chars@, '&') =~= split(chars@, '&'));
        assert(pair_texts(pairs@) =~= Seq::empty());
    }
    loop
        invariant
            at <= chars.len(),
            chars@ == query@,
            done + split(chars@.skip(at as int), '&') == split(chars@, '&'),
            pair_texts(pairs@) == pieces_pairs(done),
        decreases chars.len() - at,
    {
        let len = chars.len();
        let end = find_char(&chars, at, len, '&');
        let ghost rest = chars@.skip(at as int);
        let ghost piece = chars@.subrange(at as int, end as int);
        proof {
            assert(chars@.subrange(at as int, len as int) =~= rest);
            assert(rest.take(end - at) =~= piece);
        }
        let eq = find_char(&chars, at, end, '=');
        let ghost before = pairs@;
        if eq < end {
            let name = text_between(&chars, at, eq);
            let value = text_between(&chars, eq + 1, end);
            proof {
                assert(name@ =~= piece.take(eq - at));
                assert(value@ =~= piece.skip(eq - at + 1));
            }
            pairs.push((percent_decode(name.as_str()), percent_decode(value.as_str())));
        }
        proof {
            assert(pair_texts(pairs@) =~= pair_texts(before) + piece_pairs(piece));
            assert(done.push(piece).drop_last() =~= done);
            done = done.push(piece);
        }
        if end == len {
            proof {
                assert(rest =~= piece);
                assert(done =~= split(chars@, '&'));
            }
            return pairs;
        }
        proof {
            assert(rest.skip(end - at + 1) =~= chars@.skip(end + 1));
            assert(done + split(chars@.skip(end + 1), '&') =~= split(chars@, '&'));
        }
        at = end + 1;
    }
}

/// The bytes that stand for themselves in a query string's value.
pub open spec fn is_unreserved(byte: u8) -> bool {
    ||| 65 <= byte <= 90
    ||| 97 <= byte <= 122
    ||| 48 <= byte <= 57
    ||| byte == 45
    ||| byte == 95
    ||| byte == 46
    ||| byte == 126
}

/// The character of a hexadecimal digit, in upper case.
pub open spec fn hex_char(digit: u8) -> char {
    if digit < 10 {
        (48 + digit) as char
    } else {
        (55 + digit) as char
    }
}

/// How one byte is written in a query string's value.
pub open spec fn byte_encoded(byte: u8) -> Seq<char> {
    if is_unreserved(byte) {
        seq![byte as char]
    } else {
        seq!['%', hex_char(byte / 16), hex_char(byte % 16)]
    }
}

/// How a run of bytes is written in a query string's value.
pub open spec fn bytes_encoded(bytes: Seq<u8>) -> Seq<char>
    decreases bytes.len(),
{
    if bytes.len() == 0 {
        Seq::empty()
    } else {
        bytes_encoded(bytes.drop_last()) + byte_encoded(bytes.last())
    }
}

/// How a text is written as a query string's value: each byte of its UTF-8
/// form, as itself or as `%` and two hexadecimal digits.
pub open spec fn percent_encoded(text: Seq<char>) -> Seq<char> {
    bytes_encoded(vstd::utf8::encode_utf8(text))
}

/// The character of a hexadecimal digit, in upper case.
fn hex_digit_char(digit: u8) -> (c: char)
    requires
        digit < 16,
    ensures
        c == hex_char(digit),
{
    if digit < 10 {
        (48 + digit) as char
    } else {
        (55 + digit) as char
    }
}

/// Writes a text as a query string's value.
pub fn percent_encode(s: &str) -> (encoded: String)
    ensures
        encoded@ == percent_encoded(s@),
{
    let bytes = s.as_bytes();
    let mut encoded = String::new();
    assert(bytes@.take(0) =~= Seq::empty());
    for i in 0..bytes.len()
        invariant
            bytes@ == vstd::utf8::encode_utf8(s@),
            encoded@ == bytes_encoded(bytes@.take(i as int)),
    {
        let byte: u8 = bytes[i];
        let ghost before = encoded@;
        assert(bytes@.take(i + 1).drop_last() =~= bytes@.take(i as int));
        if (65 <= byte && byte <= 90) || (97 <= byte && byte <= 122) || (48 <= byte && byte <= 57)
            || byte == 45 || byte == 95 || byte == 46 || byte == 126 {
            encoded.push(byte as char);
        } else {
            encoded.push('%');
            encoded.push(hex_digit_char(byte / 16));
            encoded.push(hex_digit_char(byte % 16));
        }
        assert(encoded@ =~= before + byte_encoded(byte));
    }
    assert(bytes@.take(bytes@.len() as int) =~= bytes@);
    encoded
}

} // verus!
