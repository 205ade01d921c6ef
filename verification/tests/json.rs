use agromate::json::{array, bool_member, bool_text, member, object, quote, string_member};

#[test]
fn strings_are_quoted_and_escaped() {
    assert_eq!(quote("abc"), "\"abc\"");
    assert_eq!(quote(""), "\"\"");
    assert_eq!(quote("a\"b"), "\"a\\\"b\"");
    assert_eq!(quote("a\\b"), "\"a\\\\b\"");
    assert_eq!(quote("line\nbreak\ttab"), "\"line\\nbreak\\ttab\"");
    assert_eq!(quote("\u{1}"), "\"\\u0001\"");
    assert_eq!(quote("umidità"), "\"umidità\"");
    for text in ["", "plain", "q\"uote", "back\\slash", "\r\n", "più è", "\u{7f}\u{0}"] {
        let back: String = serde_json::from_str(&quote(text)).unwrap();
        assert_eq!(back, text);
    }
}

#[test]
fn members_objects_and_arrays_are_framed() {
    assert_eq!(bool_text(true), "true");
    assert_eq!(bool_text(false), "false");
    assert_eq!(member("n", "1"), "\"n\":1");
    assert_eq!(string_member("name", "fern"), "\"name\":\"fern\"");
    assert_eq!(string_member("na\"me", "fe\nrn"), "\"na\\\"me\":\"fe\\nrn\"");
    assert_eq!(bool_member("on", true), "\"on\":true");
    assert_eq!(object(&vec![]), "{}");
    assert_eq!(array(&vec![]), "[]");
    assert_eq!(object(&vec![string_member("a", "b")]), "{\"a\":\"b\"}");
    assert_eq!(
        object(&vec![string_member("a", "b"), bool_member("c", false), member("d", "[1,2]")]),
        "{\"a\":\"b\",\"c\":false,\"d\":[1,2]}"
    );
    assert_eq!(array(&vec!["1".to_string()]), "[1]");
    assert_eq!(
        array(&vec!["1".to_string(), "{}".to_string(), "\"x\"".to_string()]),
        "[1,{},\"x\"]"
    );
}

#[test]
fn framed_text_is_json() {
    let text = object(&vec![
        string_member("title", "a \"quoted\" title"),
        member("items", &array(&vec![quote("x"), bool_text(true)])),
    ]);
    let value: serde_json::Value = serde_json::from_str(&text).unwrap();
    assert_eq!(value["title"].as_str(), Some("a \"quoted\" title"));
    assert_eq!(value["items"][0].as_str(), Some("x"));
    assert_eq!(value["items"][1].as_bool(), Some(true));
}

fn expected_escape(c: char) -> String {
    match c {
        '"' => "\\\"".to_string(),
        '\\' => "\\\\".to_string(),
        '\u{8}' => "\\b".to_string(),
        '\t' => "\\t".to_string(),
        '\n' => "\\n".to_string(),
        '\u{c}' => "\\f".to_string(),
        '\r' => "\\r".to_string(),
        c if (c as u32) < 32 => format!("\\u00{:02x}", c as u32),
        c => c.to_string(),
    }
}

#[test]
fn every_character_is_escaped_by_the_table() {
    let mut all = String::new();
    let mut expected = String::from("\"");
    for code in (0u32..0x300).chain([0x2028, 0x2029, 0xfffd, 0x1f331]) {
        let c = char::from_u32(code).unwrap();
        assert_eq!(quote(&c.to_string()), format!("\"{}\"", expected_escape(c)), "U+{:04X}", code);
        all.push(c);
        expected.push_str(&expected_escape(c));
    }
    expected.push('"');
    assert_eq!(quote(&all), expected);
    assert_eq!(quote("\u{1f}"), "\"\\u001f\"");
    assert_eq!(quote("\u{b}"), "\"\\u000b\"");
    assert_eq!(quote("\u{8}\u{c}\r"), "\"\\b\\f\\r\"");
    assert_eq!(quote("\u{7f} /"), "\"\u{7f} /\"");
}
