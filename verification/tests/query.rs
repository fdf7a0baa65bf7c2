use gpui_agentic_http::query::{parse_query_string, percent_decode, percent_encode};

#[test]
fn empty_query_is_no_pairs() {
    assert_eq!(parse_query_string(""), vec![]);
}

#[test]
fn one_pair_is_decoded() {
    assert_eq!(
        parse_query_string("simulation_id=42"),
        vec![("simulation_id".to_string(), "42".to_string())]
    );
}

#[test]
fn two_pairs_are_both_decoded() {
    assert_eq!(
        parse_query_string("simulation_id=42&state=assigned"),
        vec![
            ("simulation_id".to_string(), "42".to_string()),
            ("state".to_string(), "assigned".to_string()),
        ]
    );
}

#[test]
fn percent_and_plus_encoding_decode() {
    assert_eq!(
        parse_query_string("q=hello%20world%21&plus=a+b"),
        vec![
            ("q".to_string(), "hello world!".to_string()),
            ("plus".to_string(), "a b".to_string()),
        ]
    );
}

#[test]
fn empty_pieces_and_pieces_without_an_equals_sign_are_no_pairs() {
    assert_eq!(
        parse_query_string("&&flag&a=1&"),
        vec![("a".to_string(), "1".to_string())]
    );
}

#[test]
fn a_pair_is_cut_at_its_first_equals_sign() {
    assert_eq!(
        parse_query_string("a=b=c&=v&n="),
        vec![
            ("a".to_string(), "b=c".to_string()),
            ("".to_string(), "v".to_string()),
            ("n".to_string(), "".to_string()),
        ]
    );
}

#[test]
fn malformed_escapes_pass_through_literally() {
    assert_eq!(percent_decode("100%"), "100%");
    assert_eq!(percent_decode("%zz+"), "%zz ");
    assert_eq!(percent_decode("%a%20"), "%a%20");
    assert_eq!(percent_decode("%+"), "%+");
    assert_eq!(percent_decode("%++"), "%++");
}

#[test]
fn an_escape_takes_exactly_two_hexadecimal_digits() {
    assert_eq!(percent_decode("%5"), "%5");
    assert_eq!(percent_decode("%+5"), "%+5");
    assert_eq!(percent_decode("%5+"), "%5+");
    assert_eq!(percent_decode("%-5%4a%4A"), "%-5JJ");
    let some: Vec<char> = (0x20u8..0x7f).map(|b| b as char).chain(['é', '٣']).collect();
    for &a in &some {
        for &b in &some {
            let escape = format!("%{a}{b}");
            let expected = if a.is_ascii_hexdigit() && b.is_ascii_hexdigit() {
                let byte = u8::from_str_radix(&escape[1..], 16).unwrap();
                (byte as char).to_string()
            } else {
                escape.clone()
            };
            assert_eq!(percent_decode(&escape), expected);
        }
        assert_eq!(percent_decode(&format!("%{a}")), format!("%{a}"));
    }
}

#[test]
fn a_run_of_escapes_is_read_as_utf_8() {
    assert_eq!(percent_decode("%C3%A9"), "é");
    assert_eq!(percent_decode("caf%c3%a9+%F0%9F%98%80!"), "café 😀!");
    assert_eq!(
        parse_query_string("q=%C3%A9&n=%E2%82%AC"),
        vec![("q".to_string(), "é".to_string()), ("n".to_string(), "€".to_string())]
    );
}

#[test]
fn a_run_that_is_no_utf_8_is_one_character_for_each_byte() {
    assert_eq!(percent_decode("%FF"), "\u{ff}");
    assert_eq!(percent_decode("%A9%C3"), "\u{a9}\u{c3}");
    assert_eq!(percent_decode("%C3x%A9"), "\u{c3}x\u{a9}");
    assert_eq!(percent_decode("%C3+%A9"), "\u{c3} \u{a9}");
    assert_eq!(percent_decode("%ED%A0%80"), "\u{ed}\u{a0}\u{80}");
    assert_eq!(percent_decode("%C3%A9%FF x %C3%A9"), "\u{c3}\u{a9}\u{ff} x é");
}

#[test]
fn values_are_encoded_byte_by_byte() {
    assert_eq!(percent_encode("a b/c"), "a%20b%2Fc");
    assert_eq!(percent_encode("AZaz09-_.~"), "AZaz09-_.~");
    assert_eq!(percent_encode("é"), "%C3%A9");
    assert_eq!(percent_encode("+&=%"), "%2B%26%3D%25");
}

#[test]
fn encoding_agrees_with_two_upper_case_hexadecimal_digits() {
    for byte in 0u8..=127 {
        let text = (byte as char).to_string();
        let plain = byte.is_ascii_alphanumeric() || b"-_.~".contains(&byte);
        let expected = if plain { text.clone() } else { format!("%{byte:02X}") };
        assert_eq!(percent_encode(&text), expected);
    }
}

#[test]
fn a_value_reads_back_as_it_was_written() {
    for text in ["", "é", "a é€😀b", "%C3%A9", "a+b&c=d%", "\u{ff}\u{fe}", "٣٤"] {
        assert_eq!(percent_decode(&percent_encode(text)), text);
    }
    let all: String = ('\0'..=char::MAX).step_by(7).collect();
    assert_eq!(percent_decode(&percent_encode(&all)), all);
}

#[test]
fn joined_query_strings_spell_the_pairs_of_both() {
    for front in ["", "a=1", "a=1&", "x", "a=b=c&d=%26"] {
        for back in ["", "b=2", "&b", "b=+&c=3"] {
            let mut expected = parse_query_string(front);
            expected.extend(parse_query_string(back));
            assert_eq!(parse_query_string(&format!("{front}&{back}")), expected);
        }
    }
}
