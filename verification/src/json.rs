//! JSON text: strings are encoded by `serde_json`, objects and arrays are
//! framed here.

use vstd::prelude::*;
use vstd::string::StringExecFns;

verus! {

/// `serde_json::Error`, the error of `serde_json::to_string`. Nothing is
/// known of its content here.
#[verifier::external_type_specification]
#[verifier::external_body]
pub struct ExJsonError(serde_json::Error);

/// The character that writes the hexadecimal digit `n`, in lower case.
pub open spec fn hex_digit(n: int) -> char {
    if n < 10 {
        (n + 48) as char
    } else {
        (n + 87) as char
    }
}

/// How a character stands inside a JSON string: the quote and the backslash
/// after a backslash; backspace, tab, line feed, form feed and carriage
/// return as their letter after a backslash; any other character below the
/// space as `\u00` and two hexadecimal digits; every other character as it
/// is.
pub open spec fn escaped(c: char) -> Seq<char> {
    if c == '"' {
        seq!['\\', '"']
    } else if c == '\\' {
        seq!['\\', '\\']
    } else if c == '\u{8}' {
        seq!['\\', 'b']
    } else if c == '\t' {
        seq!['\\', 't']
    } else if c == '\n' {
        seq!['\\', 'n']
    } else if c == '\u{c}' {
        seq!['\\', 'f']
    } else if c == '\r' {
        seq!['\\', 'r']
    } else if (c as int) < 32 {
        seq!['\\', 'u', '0', '0', hex_digit(c as int / 16), hex_digit(c as int % 16)]
    } else {
        seq![c]
    }
}

/// The characters of `s`, each as it stands inside a JSON string.
pub open spec fn escaped_text(s: Seq<char>) -> Seq<char>
    decreases s.len(),
{
    if s.len() == 0 {
        Seq::empty()
    } else {
        escaped_text(s.drop_last()) + escaped(s.last())
    }
}

/// The JSON string literal for the string `s`: its characters, escaped,
/// between double quotes.
pub open spec fn json_string(s: Seq<char>) -> Seq<char> {
    seq!['"'] + escaped_text(s) + seq!['"']
}

/// Whether the character stands in a JSON string as it is.
pub open spec fn is_plain(c: char) -> bool {
    c != '"' && c != '\\' && (c as int) >= 32
}

/// A string of plain characters is written between quotes as it is.
pub proof fn lemma_plain_string(s: Seq<char>)
    requires
        forall|i: int| 0 <= i < s.len() ==> is_plain(#[trigger] s[i]),
    ensures
        escaped_text(s) == s,
        json_string(s) == seq!['"'] + s + seq!['"'],
    decreases s.len(),
{
    if s.len() > 0 {
        let rest = s.drop_last();
        assert forall|i: int| 0 <= i < rest.len() implies is_plain(#[trigger] rest[i]) by {
            assert(rest[i] == s[i]);
        }
        lemma_plain_string(rest);
        assert(is_plain(s[s.len() - 1]));
        assert(rest + seq![s.last()] =~= s);
    } else {
        assert(s =~= Seq::<char>::empty());
    }
}

/// `serde_json::to_string` on a string slice.
///
/// The result is the JSON string literal for `s`: a quote, then `s` with
/// the characters of `serde_json`'s escape table (those below the space,
/// the quote and the backslash) written as escapes and all others as they
/// are, then a quote. The call does not fail: `to_string` fails only where
/// a `Serialize` impl fails or a map has a key that is no string, and a
/// string slice is written straight into a byte vector.
#[verifier::external_body]
fn encode_string(s: &str) -> (r: Result<String, serde_json::Error>)
    ensures
        r is Ok,
        r->Ok_0@ == json_string(s@),
{
    serde_json::to_string(s)
}

/// The JSON text of a boolean.
pub open spec fn json_bool(b: bool) -> Seq<char> {
    if b {
        "true"@
    } else {
        "false"@
    }
}

/// The JSON text of an object member: the name as a JSON string, a colon,
/// and the value's JSON text.
pub open spec fn json_member(name: Seq<char>, value: Seq<char>) -> Seq<char> {
    json_string(name) + seq![':'] + value
}

/// The parts one after another, with a comma between neighbours.
pub open spec fn comma_joined(parts: Seq<Seq<char>>) -> Seq<char>
    decreases parts.len(),
{
    if parts.len() == 0 {
        Seq::empty()
    } else if parts.len() == 1 {
        parts[0]
    } else {
        comma_joined(parts.drop_last()) + seq![','] + parts.last()
    }
}

/// The JSON text of an object with these members.
pub open spec fn json_object(members: Seq<Seq<char>>) -> Seq<char> {
    seq!['{'] + comma_joined(members) + seq!['}']
}

/// The JSON text of an array with these items.
pub open spec fn json_array(items: Seq<Seq<char>>) -> Seq<char> {
    seq!['['] + comma_joined(items) + seq![']']
}

/// The texts of a list of strings.
pub open spec fn texts(parts: Seq<String>) -> Seq<Seq<char>> {
    parts.map_values(|s: String| s@)
}

/// Writes a string as a JSON string literal.
pub fn quote(s: &str) -> (r: String)
    ensures
        r@ == json_string(s@),
{
    match encode_string(s) {
        Ok(text) => text,
        // not reached: the encoding of a string does not fail
        Err(_) => String::new(),
    }
}

/// Writes a boolean as JSON.
pub fn bool_text(b: bool) -> (r: String)
    ensures
        r@ == json_bool(b),
{
    if b {
        String::from_str("true")
    } else {
        String::from_str("false")
    }
}

/// Writes an object member whose value is already JSON text.
pub fn member(name: &str, value: &str) -> (r: String)
    ensures
        r@ == json_member(name@, value@),
{
    let mut out = quote(name);
    out.push(':');
    out.append(value);
    out
}

/// Writes an object member whose value is a string.
pub fn string_member(name: &str, value: &str) -> (r: String)
    ensures
        r@ == json_member(name@, json_string(value@)),
{
    let quoted = quote(value);
    member(name, quoted.as_str())
}

/// Writes an object member whose value is a boolean.
pub fn bool_member(name: &str, value: bool) -> (r: String)
    ensures
        r@ == json_member(name@, json_bool(value)),
{
    let text = bool_text(value);
    member(name, text.as_str())
}

/// Appends the parts to `out`, with a comma between neighbours.
fn push_joined(out: &mut String, parts: &Vec<String>)
    ensures
        final(out)@ == old(out)@ + comma_joined(texts(parts@)),
{
    let ghost all = texts(parts@);
    let mut i: usize = 0;
    assert(all.take(0) =~= Seq::<Seq<char>>::empty());
    assert(out@ =~= old(out)@ + comma_joined(all.take(0)));
    while i < parts.len()
        invariant
            i <= parts.len(),
            all == texts(parts@),
            out@ == old(out)@ + comma_joined(all.take(i as int)),
        decreases parts.len() - i,
    {
        let ghost before = all.take(i as int);
        let ghost next = all.take(i as int + 1);
        assert(next.drop_last() =~= before);
        assert(next.last() == parts@[i as int]@);
        if i > 0 {
            out.push(',');
        }
        out.append(parts[i].as_str());
        proof {
            if i == 0 {
                assert(before =~= Seq::<Seq<char>>::empty());
                assert(out@ =~= old(out)@ + comma_joined(next));
            } else {
                assert(out@ =~= old(out)@ + comma_joined(next));
            }
        }
        i += 1;
    }
    assert(all.take(i as int) =~= all);
}

/// Writes an object from its members, each already JSON text.
pub fn object(members: &Vec<String>) -> (r: String)
    ensures
        r@ == json_object(texts(members@)),
{
    let mut out = String::new();
    out.push('{');
    push_joined(&mut out, members);
    out.push('}');
    assert(out@ =~= json_object(texts(members@)));
    out
}

/// Writes an array from its items, each already JSON text.
pub fn array(items: &Vec<String>) -> (r: String)
    ensures
        r@ == json_array(texts(items@)),
{
    let mut out = String::new();
    out.push('[');
    push_joined(&mut out, items);
    out.push(']');
    assert(out@ =~= json_array(texts(items@)));
    out
}

} // verus!
