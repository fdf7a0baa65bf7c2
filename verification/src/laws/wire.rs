//! What goes over the socket is cut where it was put together.

use crate::client::{body_of, outcome_tree, port_of, request_wire, response_outcome};
use crate::json::{Json, JsonTree};
use crate::laws::query::lemma_split_joins;
use crate::laws::text::law_decimal_spells_its_number;
use crate::mcp::tools_of;
use crate::serde_bridge::parse_outcome;
use crate::server::{capabilities, ServerState};
use crate::text::{
    decimal, digits_value, lemma_run_to, lemma_run_to_is_first, run_to, split, stripped,
};
use vstd::prelude::*;

verus! {

/// No empty line stands in what comes before `back`.
pub open spec fn has_no_blank_line_before(front: Seq<char>, back: Seq<char>) -> bool {
    forall|i: int|
        0 <= i < front.len() ==> !"\r\n\r\n"@.is_prefix_of(#[trigger] (front + back).skip(i))
}

/// The body of a response is what follows its first empty line.
pub proof fn law_body_follows_the_blank_line(head: Seq<char>, body: Seq<char>)
    requires
        has_no_blank_line_before(head, "\r\n\r\n"@ + body),
    ensures
        body_of(head + ("\r\n\r\n"@ + body)) == body,
    decreases head.len(),
{
    reveal_strlit("\r\n\r\n");
    let blank = "\r\n\r\n"@;
    let text = head + (blank + body);
    if head.len() == 0 {
        assert(blank =~= text.subrange(0, blank.len() as int));
        assert(text.skip(blank.len() as int) =~= body);
    } else {
        let rest = head.drop_first();
        assert(text.skip(0) =~= text);
        assert(!blank.is_prefix_of((head + (blank + body)).skip(0)));
        assert(text.drop_first() =~= rest + (blank + body));
        assert forall|i: int| 0 <= i < rest.len() implies !blank.is_prefix_of(
            #[trigger] (rest + (blank + body)).skip(i),
        ) by {
            assert((rest + (blank + body)).skip(i) =~= text.skip(i + 1));
            assert(!blank.is_prefix_of((head + (blank + body)).skip(i + 1)));
        }
        law_body_follows_the_blank_line(rest, body);
    }
}

/// A client that is served a body which parses as the server's list of actions
/// has that list, and its tools: the bridge sees the live registry and nothing
/// else.
pub proof fn law_served_list_is_read_back<D>(
    state: ServerState<D>,
    head: Seq<char>,
    body: Seq<char>,
)
    requires
        has_no_blank_line_before(head, "\r\n\r\n"@ + body),
    ensures
        parse_outcome(body) == Ok::<JsonTree, Seq<char>>(capabilities(state)) ==> {
            let response = head + ("\r\n\r\n"@ + body);
            &&& response_outcome(response) == Ok::<JsonTree, Seq<char>>(capabilities(state))
            &&& tools_of(response_outcome(response)) == tools_of(
                Ok::<JsonTree, Seq<char>>(capabilities(state)),
            )
        },
{
    law_body_follows_the_blank_line(head, body);
}

/// A response without an empty line has no body.
pub proof fn law_no_blank_line_is_no_body(response: Seq<char>)
    requires
        has_no_blank_line_before(response, Seq::empty()),
    ensures
        body_of(response) == Seq::<char>::empty(),
    decreases response.len(),
{
    reveal_strlit("\r\n\r\n");
    let blank = "\r\n\r\n"@;
    assert(response + Seq::<char>::empty() =~= response);
    if response.len() > 0 {
        let rest = response.drop_first();
        assert(response.skip(0) =~= response);
        assert(!blank.is_prefix_of((response + Seq::<char>::empty()).skip(0)));
        assert(rest + Seq::<char>::empty() =~= rest);
        assert forall|i: int| 0 <= i < rest.len() implies !blank.is_prefix_of(
            #[trigger] (rest + Seq::<char>::empty()).skip(i),
        ) by {
            assert(rest.skip(i) =~= response.skip(i + 1));
            assert(!blank.is_prefix_of((response + Seq::<char>::empty()).skip(i + 1)));
        }
        law_no_blank_line_is_no_body(rest);
    }
}

/// A setting that spells a port in decimal sets that port, with or without a
/// plus sign.
pub proof fn law_port_reads_back(port: u16)
    ensures
        port_of(Some(decimal(port as nat))) == port,
        port_of(Some("+"@ + decimal(port as nat))) == port,
{
    reveal_strlit("+");
    let digits = decimal(port as nat);
    law_decimal_spells_its_number(port as nat);
    assert('0' <= digits[0] <= '9');
    if "+"@.is_prefix_of(digits) {
        assert("+"@[0] == digits[0]);
    }
    assert(stripped(digits, "+"@) is None);
    let signed = "+"@ + digits;
    assert("+"@ =~= signed.subrange(0, 1));
    assert(signed.skip(1) =~= digits);
}

/// The first line of a request.
pub open spec fn request_line(method: Seq<char>, target: Seq<char>) -> Seq<char> {
    method + seq![' '] + target + seq![' '] + "HTTP/1.1"@
}

/// The lines behind the first line of a request, up to the empty line. A body
/// is declared as JSON and with its length in bytes.
pub open spec fn header_lines(body: Seq<char>) -> Seq<Seq<char>> {
    if body.len() == 0 {
        seq!["Host: 127.0.0.1"@, "Connection: close"@, "Content-Length: 0"@]
    } else {
        seq![
            "Host: 127.0.0.1"@,
            "Connection: close"@,
            "Content-Type: application/json"@,
            "Content-Length: "@ + decimal(vstd::utf8::encode_utf8(body).len()),
        ]
    }
}

/// Lines with their ends.
pub open spec fn ended(lines: Seq<Seq<char>>) -> Seq<char>
    decreases lines.len(),
{
    if lines.len() == 0 {
        Seq::empty()
    } else {
        lines[0] + seq!['\r', '\n'] + ended(lines.drop_first())
    }
}

proof fn lemma_literals()
    ensures
        " "@ == seq![' '],
        "\r\n\r\n"@ == seq!['\r', '\n', '\r', '\n'],
        " HTTP/1.1\r\nHost: 127.0.0.1\r\nConnection: close\r\n"@ == seq![' '] + "HTTP/1.1"@ + seq![
            '\r',
            '\n',
        ] + "Host: 127.0.0.1"@ + seq!['\r', '\n'] + "Connection: close"@ + seq!['\r', '\n'],
        "Content-Length: 0\r\n\r\n"@ == "Content-Length: 0"@ + seq!['\r', '\n', '\r', '\n'],
        "Content-Type: application/json\r\n"@ == "Content-Type: application/json"@ + seq!['\r', '\n'],
{
    reveal_strlit(" ");
    reveal_strlit("\r\n\r\n");
    reveal_strlit("HTTP/1.1");
    reveal_strlit("Host: 127.0.0.1");
    reveal_strlit("Connection: close");
    reveal_strlit("Content-Length: 0");
    reveal_strlit("Content-Type: application/json");
    reveal_strlit(" HTTP/1.1\r\nHost: 127.0.0.1\r\nConnection: close\r\n");
    reveal_strlit("Content-Length: 0\r\n\r\n");
    reveal_strlit("Content-Type: application/json\r\n");
    assert(" "@ =~= seq![' ']);
    assert("\r\n\r\n"@ =~= seq!['\r', '\n', '\r', '\n']);
    assert(" HTTP/1.1\r\nHost: 127.0.0.1\r\nConnection: close\r\n"@ =~= seq![' '] + "HTTP/1.1"@ + seq![
        '\r',
        '\n',
    ] + "Host: 127.0.0.1"@ + seq!['\r', '\n'] + "Connection: close"@ + seq!['\r', '\n']);
    assert("Content-Length: 0\r\n\r\n"@ =~= "Content-Length: 0"@ + seq!['\r', '\n', '\r', '\n']);
    assert("Content-Type: application/json\r\n"@ =~= "Content-Type: application/json"@ + seq![
        '\r',
        '\n',
    ]);
}

/// A request is its first line, its header lines, an empty line and its body.
pub proof fn law_request_is_lines_and_body(method: Seq<char>, target: Seq<char>, body: Seq<char>)
    ensures
        request_wire(method, target, body) == ended(
            seq![request_line(method, target)] + header_lines(body),
        ) + seq!['\r', '\n'] + body,
{
    lemma_literals();
    reveal_with_fuel(ended, 6);
    let end = seq!['\r', '\n'];
    let lines = seq![request_line(method, target)] + header_lines(body);
    let one = lines.drop_first();
    let two = one.drop_first();
    let three = two.drop_first();
    let four = three.drop_first();
    assert(one[0] == "Host: 127.0.0.1"@);
    assert(two[0] == "Connection: close"@);
    if body.len() == 0 {
        assert(three[0] == "Content-Length: 0"@);
        assert(four.len() == 0);
        assert(request_wire(method, target, body) =~= ended(lines) + end + body);
    } else {
        assert(three[0] == "Content-Type: application/json"@);
        assert(four[0] == "Content-Length: "@ + decimal(vstd::utf8::encode_utf8(body).len()));
        assert(four.drop_first().len() == 0);
        assert(request_wire(method, target, body) =~= ended(lines) + end + body);
    }
}

proof fn lemma_no_blank_in_line(line: Seq<char>, rest: Seq<char>)
    requires
        !line.contains('\r'),
        rest.len() > 0 ==> rest[0] != '\r',
    ensures
        body_of(line + seq!['\r', '\n'] + rest) == body_of(rest),
    decreases line.len(),
{
    reveal_strlit("\r\n\r\n");
    let blank = "\r\n\r\n"@;
    let text = line + seq!['\r', '\n'] + rest;
    if line.len() > 0 {
        assert(line.contains(line[0]));
        if blank.is_prefix_of(text) {
            assert(blank[0] == text[0]);
        }
        let shorter = line.drop_first();
        if shorter.contains('\r') {
            let i = shorter.index_of('\r');
            assert(line[i + 1] == '\r');
        }
        assert(text.drop_first() =~= shorter + seq!['\r', '\n'] + rest);
        lemma_no_blank_in_line(shorter, rest);
    } else {
        if blank.is_prefix_of(text) {
            assert(blank[2] == text[2]);
            assert(text[2] == rest[0]);
        }
        let feed = text.drop_first();
        assert(feed =~= seq!['\n'] + rest);
        if blank.is_prefix_of(feed) {
            assert(blank[0] == feed[0]);
        }
        assert(feed.drop_first() =~= rest);
        assert(body_of(feed) == body_of(rest));
        assert(body_of(text) == body_of(feed));
    }
}

proof fn lemma_body_behind_last_line(line: Seq<char>, body: Seq<char>)
    requires
        !line.contains('\r'),
    ensures
        body_of(line + seq!['\r', '\n', '\r', '\n'] + body) == body,
    decreases line.len(),
{
    reveal_strlit("\r\n\r\n");
    let blank = "\r\n\r\n"@;
    let text = line + seq!['\r', '\n', '\r', '\n'] + body;
    if line.len() > 0 {
        assert(line.contains(line[0]));
        if blank.is_prefix_of(text) {
            assert(blank[0] == text[0]);
        }
        let shorter = line.drop_first();
        if shorter.contains('\r') {
            let i = shorter.index_of('\r');
            assert(line[i + 1] == '\r');
        }
        assert(text.drop_first() =~= shorter + seq!['\r', '\n', '\r', '\n'] + body);
        lemma_body_behind_last_line(shorter, body);
    } else {
        assert(blank =~= text.subrange(0, 4));
        assert(text.skip(4) =~= body);
    }
}

proof fn lemma_header_lines(body: Seq<char>, i: int)
    requires
        0 <= i < header_lines(body).len(),
    ensures
        !header_lines(body)[i].contains('\r'),
        header_lines(body)[i].len() > 0,
        header_lines(body)[i][0] != '\r',
{
    reveal_strlit("Host: 127.0.0.1");
    reveal_strlit("Connection: close");
    reveal_strlit("Content-Length: 0");
    reveal_strlit("Content-Type: application/json");
    reveal_strlit("Content-Length: ");
    let line = header_lines(body)[i];
    law_decimal_spells_its_number(vstd::utf8::encode_utf8(body).len());
    if line.contains('\r') {
        let k = line.index_of('\r');
        if body.len() > 0 && i == 3 && k >= 16 {
            assert(line[k] == decimal(vstd::utf8::encode_utf8(body).len())[k - 16]);
        }
    }
}

/// Behind lines without a carriage return the body is what follows the empty
/// line.
proof fn lemma_body_behind_lines(lines: Seq<Seq<char>>, body: Seq<char>)
    requires
        lines.len() > 0,
        forall|i: int| 0 <= i < lines.len() ==> !(#[trigger] lines[i]).contains('\r'),
        forall|i: int| 1 <= i < lines.len() ==> (#[trigger] lines[i]).len() > 0,
    ensures
        body_of(ended(lines) + seq!['\r', '\n'] + body) == body,
    decreases lines.len(),
{
    let rest = lines.drop_first();
    let end = seq!['\r', '\n'];
    assert(!lines[0].contains('\r'));
    if rest.len() == 0 {
        assert(ended(rest) =~= Seq::empty());
        assert(ended(lines) + end + body =~= lines[0] + seq!['\r', '\n', '\r', '\n'] + body);
        lemma_body_behind_last_line(lines[0], body);
    } else {
        assert forall|i: int| 0 <= i < rest.len() implies !(#[trigger] rest[i]).contains('\r') by {
            assert(rest[i] == lines[i + 1]);
        }
        assert forall|i: int| 1 <= i < rest.len() implies (#[trigger] rest[i]).len() > 0 by {
            assert(rest[i] == lines[i + 1]);
        }
        lemma_body_behind_lines(rest, body);
        let tail = ended(rest) + end + body;
        assert(rest[0] == lines[1]);
        assert(lines[1].len() > 0);
        assert(tail[0] == rest[0][0]);
        assert(rest[0].contains(rest[0][0]));
        lemma_no_blank_in_line(lines[0], tail);
        assert(ended(lines) + end + body =~= lines[0] + end + tail);
    }
}

/// A written request reads back: its first line, cut at its spaces, is the
/// method, the whole target and the version of the protocol, with or without a
/// body, and what follows the first empty line is the body.
pub proof fn law_written_request_reads_back(
    method: Seq<char>,
    target: Seq<char>,
    body: Seq<char>,
)
    requires
        !method.contains(' '),
        !target.contains(' '),
        !method.contains('\r'),
        !target.contains('\r'),
    ensures
        ({
            let wire = request_wire(method, target, body);
            let line = wire.take(run_to(wire, '\r') as int);
            &&& split(line, ' ') == seq![method, target, "HTTP/1.1"@]
            &&& body_of(wire) == body
        }),
{
    let wire = request_wire(method, target, body);
    let line = request_line(method, target);
    let lines = seq![line] + header_lines(body);
    law_request_is_lines_and_body(method, target, body);
    reveal_strlit("HTTP/1.1");
    assert(!line.contains('\r')) by {
        if line.contains('\r') {
            let i = line.index_of('\r');
            let m = method.len() as int;
            let t = target.len() as int;
            if i < m {
                assert(method[i] == '\r');
            } else if m < i < m + 1 + t {
                assert(target[i - m - 1] == '\r');
            } else if i >= m + t + 2 {
                assert("HTTP/1.1"@[i - m - t - 2] == '\r');
            }
        }
    }
    // The first line ends at the first carriage return.
    let at = line.len() as int;
    assert(lines.drop_first() =~= header_lines(body));
    assert(wire =~= line + (seq!['\r', '\n'] + ended(header_lines(body)) + seq!['\r', '\n'] + body));
    assert(wire[at] == '\r');
    assert forall|i: int| 0 <= i < at implies wire[i] != '\r' by {
        assert(wire[i] == line[i]);
        assert(line.contains(line[i]));
    }
    lemma_run_to(wire, '\r', at);
    assert(wire.take(at) =~= line);
    // It is cut at its two spaces.
    let version = "HTTP/1.1"@;
    assert(!version.contains(' '));
    let front = method + seq![' '] + target;
    lemma_split_joins(method, target, ' ');
    lemma_split_joins(front, version, ' ');
    lemma_run_to_is_first(method, ' ');
    lemma_run_to_is_first(target, ' ');
    lemma_run_to_is_first(version, ' ');
    assert(split(method, ' ') =~= seq![method]);
    assert(split(target, ' ') =~= seq![target]);
    assert(split(version, ' ') =~= seq![version]);
    assert(seq![method] + seq![target] + seq![version] =~= seq![method, target, version]);
    // The body follows the empty line.
    assert forall|i: int| 0 <= i < lines.len() implies !(#[trigger] lines[i]).contains('\r') by {
        if i > 0 {
            lemma_header_lines(body, i - 1);
            assert(lines[i] == header_lines(body)[i - 1]);
        }
    }
    assert forall|i: int| 1 <= i < lines.len() implies (#[trigger] lines[i]).len() > 0 by {
        lemma_header_lines(body, i - 1);
        assert(lines[i] == header_lines(body)[i - 1]);
    }
    lemma_body_behind_lines(lines, body);
}

/// A setting sets the port that its digits spell, with or without a plus sign
/// before them; anything else, and no setting at all, leaves the port at 7330.
pub proof fn law_setting_sets_the_port(text: Seq<char>)
    ensures
        port_of(None) == 7330,
        ({
            let digits = if text.len() > 0 && text[0] == '+' {
                text.skip(1)
            } else {
                text
            };
            let value = digits_value(digits);
            if digits.len() > 0 && value is Some && value->0 <= 65535 {
                port_of(Some(text)) == value->0
            } else {
                port_of(Some(text)) == 7330
            }
        }),
{
    reveal_strlit("+");
    if text.len() > 0 && text[0] == '+' {
        assert("+"@ =~= text.subrange(0, 1));
    } else if text.len() > 0 {
        assert("+"@[0] != text[0]);
    }
}

/// A response is the JSON value in its body; where the body is no JSON it is an
/// error that says so and gives the parser's message.
pub proof fn law_response_is_its_body(response: Seq<char>)
    ensures
        parse_outcome(body_of(response)) matches Ok(tree) ==> response_outcome(response) == Ok::<
            JsonTree,
            Seq<char>,
        >(tree),
        parse_outcome(body_of(response)) matches Err(message) ==> response_outcome(response)
            == Err::<JsonTree, Seq<char>>("bad JSON response: "@ + message),
{
}

/// An outcome is the value that was read, or the message.
pub proof fn law_outcome_is_what_was_read(outcome: Result<Json, String>)
    ensures
        outcome matches Ok(json) ==> outcome_tree(outcome) == Ok::<JsonTree, Seq<char>>(json@),
        outcome matches Err(message) ==> outcome_tree(outcome) == Err::<JsonTree, Seq<char>>(
            message@,
        ),
{
}

} // verus!
