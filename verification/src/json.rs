//! JSON text for request bodies, written in the order the values were given
//! (object members keep their order).
use crate::text::{decimal, push_str};
use vstd::prelude::*;

verus! {

/// A JSON value as the request body describes it.  A number with a fraction
/// is carried as the text already chosen for it.
pub enum JsonValue {
    Null,
    Bool(bool),
    Int(i64),
    UInt(u64),
    Float(String),
    Str(String),
    Array(Vec<JsonValue>),
    Object(Vec<(String, JsonValue)>),
}

/// How sonic-rs writes one character inside a JSON string: `"` and `\` and
/// the control characters below U+0020 escaped (`\b`, `\t`, `\n`, `\f`,
/// `\r` by name, the others as `\u00` and two lowercase hex digits); every
/// other character as it is.
pub open spec fn json_escape_char(c: char) -> Seq<char> {
    if c == '"' {
        seq!['\\', '"']
    } else if c == '\\' {
        seq!['\\', '\\']
    } else if c == '\u{8}' {
        seq!['\\', 'b']
    } else if c == '\t' {
        seq!['\\', 't']
    } else if c == '\n' {
        seq!['\\', 'n']
    } else if c == '\u{c}' {
        seq!['\\', 'f']
    } else if c == '\r' {
        seq!['\\', 'r']
    } else if (c as u32) < 0x20 {
        seq![
            '\\',
            'u',
            '0',
            '0',
            crate::codecs::hex_lower(((c as u32) / 16) as u8),
            crate::codecs::hex_lower(((c as u32) % 16) as u8),
        ]
    } else {
        seq![c]
    }
}

/// The characters of a text, each escaped for a JSON string.
pub open spec fn json_escaped(s: Seq<char>) -> Seq<char>
    decreases s.len(),
{
    if s.len() == 0 {
        Seq::empty()
    } else {
        json_escaped(s.drop_last()) + json_escape_char(s.last())
    }
}

/// The JSON string literal for a text: escaped, in double quotes.
pub open spec fn json_quoted(s: Seq<char>) -> Seq<char> {
    seq!['"'] + json_escaped(s) + seq!['"']
}

/// Trusted: `sonic_rs::to_string` of a string slice: the text in double
/// quotes, escaped by sonic-rs's quote table (`QUOTE_TAB`).  Serialising a
/// string into memory never fails, so the result is always `Ok`.
#[verifier::external_body]
fn sonic_quote(s: &str) -> (r: Result<String, String>)
    ensures
        r is Ok,
        match r {
            Ok(q) => q@ == json_quoted(s@),
            Err(_) => true,
        },
{
    sonic_rs::to_string(s).map_err(|e| e.to_string())
}

/// The JSON string literal for a text.
fn json_quote(s: &str) -> (r: String)
    ensures
        r@ == json_quoted(s@),
{
    match sonic_quote(s) {
        Ok(q) => q,
        Err(_) => String::new(),
    }
}

/// The decimal text of a signed integer.
pub open spec fn int_text(i: i64) -> Seq<char> {
    if i < 0 {
        "-"@ + decimal((-(i as int)) as nat)
    } else {
        decimal(i as nat)
    }
}

/// The JSON text of a value: literals, numbers, quoted strings, arrays and
/// objects with "," between elements and ":" after each key, no spaces.
pub open spec fn json_text(v: JsonValue) -> Seq<char>
    decreases v,
{
    match v {
        JsonValue::Null => "null"@,
        JsonValue::Bool(b) => if b {
            "true"@
        } else {
            "false"@
        },
        JsonValue::Int(i) => int_text(i),
        JsonValue::UInt(u) => decimal(u as nat),
        JsonValue::Float(f) => f@,
        JsonValue::Str(s) => json_quoted(s@),
        JsonValue::Array(items) => "["@ + json_seq(items@) + "]"@,
        JsonValue::Object(members) => "{"@ + json_members(members@) + "}"@,
    }
}

/// Array elements separated by ",".
pub open spec fn json_seq(s: Seq<JsonValue>) -> Seq<char>
    decreases s,
{
    if s.len() == 0 {
        Seq::empty()
    } else if s.len() == 1 {
        json_text(s[0])
    } else {
        json_seq(s.drop_last()) + ","@ + json_text(s.last())
    }
}

/// Object members, each `"key":value`, separated by ",".
pub open spec fn json_members(s: Seq<(String, JsonValue)>) -> Seq<char>
    decreases s,
{
    if s.len() == 0 {
        Seq::empty()
    } else if s.len() == 1 {
        json_quoted(s[0].0@) + ":"@ + json_text(s[0].1)
    } else {
        json_members(s.drop_last()) + ","@ + json_quoted(s.last().0@) + ":"@ + json_text(s.last().1)
    }
}

pub(crate) fn push_int(buf: &mut String, i: i64)
    ensures
        final(buf)@ == old(buf)@ + int_text(i),
{
    if i < 0 {
        push_str(buf, "-");
        let m: u64 = if i == i64::MIN {
            9223372036854775808u64
        } else {
            (-i) as u64
        };
        crate::text::push_decimal(buf, m);
    } else {
        crate::text::push_decimal(buf, i as u64);
    }
}

/// Appends the JSON text of a value.
pub fn write_json(v: &JsonValue, buf: &mut String)
    ensures
        final(buf)@ == old(buf)@ + json_text(*v),
    decreases v,
{
    match v {
        JsonValue::Null => push_str(buf, "null"),
        JsonValue::Bool(b) => if *b {
            push_str(buf, "true")
        } else {
            push_str(buf, "false")
        },
        JsonValue::Int(i) => push_int(buf, *i),
        JsonValue::UInt(u) => crate::text::push_decimal(buf, *u),
        JsonValue::Float(f) => push_str(buf, f.as_str()),
        JsonValue::Str(s) => {
            let q = json_quote(s.as_str());
            push_str(buf, q.as_str());
        },
        JsonValue::Array(items) => {
            let ghost start = buf@;
            push_str(buf, "[");
            let mut i: usize = 0;
            while i < items.len()
                invariant
                    i <= items@.len(),
                    buf@ == start + "["@ + json_seq(items@.take(i as int)),
                    *v == JsonValue::Array(*items),
                decreases items.len() - i,
            {
                if i > 0 {
                    push_str(buf, ",");
                }
                assert(items@[i as int] == items@.take(i + 1).last());
                proof {
                    assert(decreases_to!(*v => (*v)->Array_0));
                    assert(decreases_to!(*items => items@));
                    assert(decreases_to!(items@ => items@[i as int]));
                    assert(decreases_to!(*v => items@[i as int]));
                }
                write_json(&items[i], buf);
                assert(items@.take(i + 1).drop_last() =~= items@.take(i as int));
                i = i + 1;
            }
            assert(items@.take(i as int) =~= items@);
            push_str(buf, "]");
        },
        JsonValue::Object(members) => {
            let ghost start = buf@;
            push_str(buf, "{");
            let mut i: usize = 0;
            while i < members.len()
                invariant
                    i <= members@.len(),
                    buf@ == start + "{"@ + json_members(members@.take(i as int)),
                    *v == JsonValue::Object(*members),
                decreases members.len() - i,
            {
                if i > 0 {
                    push_str(buf, ",");
                }
                assert(members@[i as int] == members@.take(i + 1).last());
                let q = json_quote(members[i].0.as_str());
                push_str(buf, q.as_str());
                push_str(buf, ":");
                proof {
                    assert(decreases_to!(*v => (*v)->Object_0));
                    assert(decreases_to!(*members => members@));
                    assert(decreases_to!(members@ => members@[i as int]));
                    assert(decreases_to!(members@[i as int] => members@[i as int].1));
                    assert(decreases_to!(*v => members@[i as int].1));
                }
                write_json(&members[i].1, buf);
                assert(members@.take(i + 1).drop_last() =~= members@.take(i as int));
                i = i + 1;
            }
            assert(members@.take(i as int) =~= members@);
            push_str(buf, "}");
        },
    }
}

/// The JSON text of a value.
pub fn to_json_string(v: &JsonValue) -> (r: String)
    ensures
        r@ == json_text(*v),
{
    let mut buf = String::new();
    write_json(v, &mut buf);
    buf
}

// ----- reading JSON text -------------------------------------------------

/// A JSON document as sonic-rs parses it (`sonic_rs::Value`).
#[verifier::external_type_specification]
#[verifier::external_body]
pub struct ExSonicValue(sonic_rs::Value);

/// What `sonic_rs::from_str::<sonic_rs::Value>` gives for a text: the parsed
/// document, or the text of its error.
pub uninterp spec fn json_parsed(text: Seq<char>) -> Result<sonic_rs::Value, Seq<char>>;

/// Trusted: `sonic_rs::from_str::<sonic_rs::Value>`; the result is named for
/// the text, the JSON grammar not being restated here.
#[verifier::external_body]
fn sonic_parse(text: &str) -> (r: Result<sonic_rs::Value, String>)
    ensures
        match r {
            Ok(v) => json_parsed(text@) == Ok::<sonic_rs::Value, Seq<char>>(v),
            Err(e) => json_parsed(text@) == Err::<sonic_rs::Value, Seq<char>>(e@),
        },
{
    sonic_rs::from_str::<sonic_rs::Value>(text).map_err(|e| e.to_string())
}

/// Parses JSON text (a response body): the document sonic-rs reads from it,
/// or "JSON parse error: " followed by its message.
pub fn parse_json(text: &str) -> (r: Result<sonic_rs::Value, String>)
    ensures
        match json_parsed(text@) {
            Ok(v) => r == Ok::<sonic_rs::Value, String>(v),
            Err(e) => r matches Err(m) && m@ == "JSON parse error: "@ + e,
        },
{
    match sonic_parse(text) {
        Ok(v) => Ok(v),
        Err(e) => Err(crate::text::concat2("JSON parse error: ", e.as_str())),
    }
}

} // verus!
