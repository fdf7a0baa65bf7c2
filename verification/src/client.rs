//! The client side of the HTTP surface: which port the app is on, what is
//! written to it and what is read back.

use crate::json::{Json, JsonTree};
use crate::serde_bridge::parse_outcome;
use crate::text::{
    chars_of, decimal, digits_value, push_decimal, small_number, stands_at, stripped, text_between,
};
use vstd::prelude::*;
use vstd::string::*;

verus! {

/// The port that an app is expected on where no other is set.
pub const DEFAULT_PORT: u16 = 7330;

/// The port number that a text spells: decimal digits, with or without a plus
/// sign before them, up to 65535.
pub open spec fn port_number(text: Seq<char>) -> Option<u16> {
    let digits = match stripped(text, "+"@) {
        Some(rest) => rest,
        None => text,
    };
    match digits_value(digits) {
        Some(value) => if digits.len() > 0 && value <= 65535 {
            Some(value as u16)
        } else {
            None
        },
        None => None,
    }
}

/// The port that a setting asks for; the default one where it is absent or
/// spells no port number.
pub open spec fn port_of(setting: Option<Seq<char>>) -> u16 {
    match setting {
        Some(text) => match port_number(text) {
            Some(port) => port,
            None => DEFAULT_PORT,
        },
        None => DEFAULT_PORT,
    }
}

/// Reads the port out of a setting.
pub fn port_from(setting: Option<&str>) -> (port: u16)
    ensures
        port == port_of(
            match setting {
                Some(text) => Some(text@),
                None => None,
            },
        ),
{
    let text = match setting {
        Some(text) => text,
        None => return DEFAULT_PORT,
    };
    let chars = chars_of(text);
    let from: usize = if chars.len() > 0 && chars[0] == '+' {
        1
    } else {
        0
    };
    proof {
        reveal_strlit("+");
        if from == 1 {
            assert("+"@ =~= chars@.subrange(0, 1));
        } else {
            if chars@.len() > 0 {
                assert("+"@[0] != chars@[0]);
            }
            assert(chars@.skip(0) =~= chars@);
        }
    }
    if from == chars.len() {
        return DEFAULT_PORT;
    }
    match small_number(&chars, from) {
        Some(port) => port,
        None => DEFAULT_PORT,
    }
}

/// One HTTP request as it goes over the socket. The connection is closed
/// after it, so the reply ends where the stream does.
pub open spec fn request_wire(method: Seq<char>, path: Seq<char>, body: Seq<char>) -> Seq<char> {
    let head = method + " "@ + path
        + " HTTP/1.1\r\nHost: 127.0.0.1\r\nConnection: close\r\n"@;
    if body.len() == 0 {
        head + "Content-Length: 0\r\n\r\n"@
    } else {
        head + "Content-Type: application/json\r\n"@ + "Content-Length: "@ + decimal(
            vstd::utf8::encode_utf8(body).len(),
        ) + "\r\n\r\n"@ + body
    }
}

/// Writes one HTTP request.
pub fn request_text(method: &str, path: &str, body: &str) -> (request: String)
    ensures
        request@ == request_wire(method@, path@, body@),
{
    let mut request = method.to_string();
    request.append(" ");
    request.append(path);
    request.append(" HTTP/1.1\r\nHost: 127.0.0.1\r\nConnection: close\r\n");
    if body.is_empty() {
        request.append("Content-Length: 0\r\n\r\n");
    } else {
        request.append("Content-Type: application/json\r\n");
        request.append("Content-Length: ");
        push_decimal(&mut request, body.as_bytes().len());
        request.append("\r\n\r\n");
        request.append(body);
    }
    request
}

/// What `String::from_utf8_lossy` makes of bytes.
pub uninterp spec fn lossy_text(bytes: Seq<u8>) -> Seq<char>;

/// `String::from_utf8_lossy`: the text that the bytes spell in UTF-8. Where
/// they are not UTF-8, the text depends on the bytes alone; which characters
/// stand in for the bad ones is not stated.
#[verifier::external_body]
fn from_utf8_lossy(bytes: &[u8]) -> (text: String)
    ensures
        text@ == lossy_text(bytes@),
        vstd::utf8::valid_utf8(bytes@) ==> text@ == vstd::utf8::decode_utf8(bytes@),
{
    String::from_utf8_lossy(bytes).into_owned()
}

/// The body of an HTTP response: what follows the first empty line, and
/// nothing where there is none.
pub open spec fn body_of(response: Seq<char>) -> Seq<char>
    decreases response.len(),
{
    match stripped(response, "\r\n\r\n"@) {
        Some(body) => body,
        None => if response.len() == 0 {
            Seq::empty()
        } else {
            body_of(response.drop_first())
        },
    }
}

/// Cuts the body out of an HTTP response.
pub fn response_body(response: &str) -> (body: String)
    ensures
        body@ == body_of(response@),
{
    let chars = chars_of(response);
    let blank = chars_of("\r\n\r\n");
    let len = chars.len();
    let mut at: usize = 0;
    proof {
        reveal_strlit("\r\n\r\n");
        assert(chars@.skip(0) =~= chars@);
    }
    while at < len
        invariant
            at <= len == chars.len(),
            blank@ == "\r\n\r\n"@,
            blank@.len() == 4,
            body_of(chars@.skip(at as int)) == body_of(response@),
        decreases len - at,
    {
        if stands_at(&chars, at, &blank) {
            assert(chars@.skip(at as int).skip(4) =~= chars@.subrange(at + 4, len as int));
            return text_between(&chars, at + 4, len);
        }
        assert(chars@.skip(at as int).drop_first() =~= chars@.skip(at + 1));
        at = at + 1;
    }
    String::new()
}

/// What an HTTP response's text says: the JSON value in its body, or a
/// message that the body is no JSON.
pub open spec fn response_outcome(response: Seq<char>) -> Result<JsonTree, Seq<char>> {
    match parse_outcome(body_of(response)) {
        Ok(tree) => Ok(tree),
        Err(message) => Err("bad JSON response: "@ + message),
    }
}

/// What is read out of a response, over its meaning.
pub open spec fn outcome_tree(outcome: Result<Json, String>) -> Result<JsonTree, Seq<char>> {
    match outcome {
        Ok(json) => Ok(json@),
        Err(message) => Err(message@),
    }
}

/// Reads the JSON value out of an HTTP response's text.
pub fn read_response_text(response: &str) -> (outcome: Result<Json, String>)
    ensures
        outcome_tree(outcome) == response_outcome(response@),
{
    match Json::parse(response_body(response).as_str()) {
        Ok(json) => Ok(json),
        Err(message) => {
            let mut text = "bad JSON response: ".to_string();
            text.append(message.as_str());
            Err(text)
        },
    }
}

/// Reads the JSON value out of the bytes of an HTTP response.
pub fn read_response(response: &[u8]) -> (outcome: Result<Json, String>)
    ensures
        outcome_tree(outcome) == response_outcome(lossy_text(response@)),
        vstd::utf8::valid_utf8(response@) ==> outcome_tree(outcome) == response_outcome(
            vstd::utf8::decode_utf8(response@),
        ),
{
    read_response_text(from_utf8_lossy(response).as_str())
}

} // verus!
