//! The outside encoders and the JSON reader this library relies on: base64,
//! JSON string literals, JSON parsing and serialisation, and lossy UTF-8
//! decoding. Each trusted item states what the outside source shows.

use vstd::prelude::*;
use vstd::utf8::{decode_utf8, valid_utf8};
use crate::number::{decimal_text, push_decimal};
use crate::text::{is_white_space, push_char, push_str};
use crate::document::{Json, JsonView};

verus! {

/// The base64 digit of a six-bit value, standard alphabet.
pub open spec fn base64_digit(v: nat) -> char {
    if v < 26 {
        (65 + v) as char
    } else if v < 52 {
        (97 + v - 26) as char
    } else if v < 62 {
        (48 + v - 52) as char
    } else if v == 62 {
        '+'
    } else {
        '/'
    }
}

/// Standard base64 with `=` padding (RFC 4648, section 4).
pub open spec fn base64_encoded(b: Seq<u8>) -> Seq<char>
    decreases b.len(),
{
    if b.len() == 0 {
        seq![]
    } else if b.len() == 1 {
        seq![base64_digit(b[0] as nat / 4), base64_digit((b[0] as nat % 4) * 16), '=', '=']
    } else if b.len() == 2 {
        seq![
            base64_digit(b[0] as nat / 4),
            base64_digit((b[0] as nat % 4) * 16 + b[1] as nat / 16),
            base64_digit((b[1] as nat % 16) * 4),
            '=',
        ]
    } else {
        seq![
            base64_digit(b[0] as nat / 4),
            base64_digit((b[0] as nat % 4) * 16 + b[1] as nat / 16),
            base64_digit((b[1] as nat % 16) * 4 + b[2] as nat / 64),
            base64_digit(b[2] as nat % 64),
        ] + base64_encoded(b.skip(3))
    }
}

/// Encodes bytes in base64.
///
/// Wraps `base64::encode`, which encodes with the `STANDARD` configuration:
/// the standard alphabet with `=` padding. The contract states that encoding.
#[verifier::external_body]
pub(crate) fn base64_encode(data: &[u8]) -> (r: String)
    ensures
        r@ == base64_encoded(data@),
{
    base64::encode(data)
}

/// A lower-case hexadecimal digit.
pub open spec fn hex_digit(v: nat) -> char {
    if v < 10 {
        (48 + v) as char
    } else {
        (87 + v) as char
    }
}

/// How one character stands inside a JSON string literal written by the `json` crate.
pub open spec fn json_escape_char(c: char) -> Seq<char> {
    let u = c as u32;
    if c == '"' {
        seq!['\\', '"']
    } else if c == '\\' {
        seq!['\\', '\\']
    } else if u == 8 {
        seq!['\\', 'b']
    } else if u == 9 {
        seq!['\\', 't']
    } else if u == 10 {
        seq!['\\', 'n']
    } else if u == 12 {
        seq!['\\', 'f']
    } else if u == 13 {
        seq!['\\', 'r']
    } else if u < 32 {
        seq!['\\', 'u', '0', '0', hex_digit(u as nat / 16), hex_digit(u as nat % 16)]
    } else {
        seq![c]
    }
}

/// The escaped characters of a text.
pub open spec fn json_escaped(s: Seq<char>) -> Seq<char>
    decreases s.len(),
{
    if s.len() == 0 {
        seq![]
    } else {
        json_escape_char(s[0]) + json_escaped(s.drop_first())
    }
}

/// A text written as a JSON string literal.
pub open spec fn json_string_literal(s: Seq<char>) -> Seq<char> {
    seq!['"'] + json_escaped(s) + seq!['"']
}

/// Writes a text as a JSON string literal.
///
/// Wraps `json::stringify` on a `&str`. The crate turns the text into a
/// string value and writes it between quotes, escaping `"` and `\`, writing
/// the control characters 8, 9, 10, 12 and 13 as `\b \t \n \f \r` and the other
/// characters below 32 as `\u00` and two lower-case hex digits; all other
/// characters are written as they are. The contract states that.
#[verifier::external_body]
pub(crate) fn json_stringify(s: &str) -> (r: String)
    ensures
        r@ == json_string_literal(s@),
{
    json::stringify(s)
}

#[verifier::external_type_specification]
#[verifier::external_body]
pub struct ExJsonValue(json::JsonValue);

#[verifier::external_type_specification]
#[verifier::external_body]
pub struct ExJsonError(json::Error);

/// The value that the `json` crate reads from a text; `None` when it rejects the text.
pub uninterp spec fn json_document(text: Seq<char>) -> Option<JsonView>;

/// Whether the `json` crate accepts a text as a JSON document.
pub open spec fn json_accepts(text: Seq<char>) -> bool {
    json_document(text) is Some
}

/// The syntax error that the `json` crate reports for a text it rejects.
pub uninterp spec fn json_error(text: Seq<char>) -> JsonSyntaxError;

/// Parses a JSON document into a value of this library.
///
/// Wraps `json::parse` and moves what it gives into this library's types:
/// the value with [`json_value`], the error with [`json_syntax_error`]. Both
/// depend on the text alone, and are named `json_document` and `json_error`;
/// the contract says the result is the one they name.
#[verifier::external_body]
pub(crate) fn json_parse(text: &str) -> (r: Result<Json, JsonSyntaxError>)
    ensures
        r matches Ok(j) ==> json_document(text@) == Some(j@),
        r matches Err(e) ==> json_document(text@) is None && e == json_error(text@),
{
    match json::parse(text) {
        Ok(v) => Ok(json_value(&v)),
        Err(e) => Err(json_syntax_error(e)),
    }
}

/// Moves a `json::JsonValue` into [`Json`], one arm per variant: null,
/// booleans and arrays as they are; both kinds of string (`Short` and
/// `String`) as text; an object as its members in the order the crate walks
/// them; a number as the text its `Display` writes, which is what `dump`
/// writes for every number but NaN, which parsing never gives. Only
/// [`json_parse`] uses it.
#[verifier::external_body]
fn json_value(v: &json::JsonValue) -> Json {
    match v {
        json::JsonValue::Null => Json::Null,
        json::JsonValue::Short(s) => Json::Text(s.as_str().to_string()),
        json::JsonValue::String(s) => Json::Text(s.clone()),
        json::JsonValue::Number(n) => Json::Number(n.to_string()),
        json::JsonValue::Boolean(b) => Json::Boolean(*b),
        json::JsonValue::Object(o) => Json::Object(o.iter().map(|(k, x)| (k.to_string(), json_value(x))).collect()),
        json::JsonValue::Array(a) => Json::Array(a.iter().map(json_value).collect()),
    }
}

/// A JSON syntax error as the `json` crate reports it.
#[derive(Debug, PartialEq, Eq)]
pub enum JsonSyntaxError {
    UnexpectedCharacter { ch: char, line: usize, column: usize },
    UnexpectedEndOfJson,
    ExceededDepthLimit,
    FailedUtf8Parsing,
    WrongType(String),
}

/// The error of the `json` crate as a value of this library.
///
/// Moves each variant of `json::Error` and its fields into the variant of the
/// same name; nothing else. Only [`json_parse`] uses it.
#[verifier::external_body]
fn json_syntax_error(e: json::Error) -> JsonSyntaxError {
    match e {
        json::Error::UnexpectedCharacter { ch, line, column } => {
            JsonSyntaxError::UnexpectedCharacter { ch, line, column }
        },
        json::Error::UnexpectedEndOfJson => JsonSyntaxError::UnexpectedEndOfJson,
        json::Error::ExceededDepthLimit => JsonSyntaxError::ExceededDepthLimit,
        json::Error::FailedUtf8Parsing => JsonSyntaxError::FailedUtf8Parsing,
        json::Error::WrongType(s) => JsonSyntaxError::WrongType(s),
    }
}

/// The text that lossy UTF-8 decoding gives for some bytes.
pub uninterp spec fn utf8_lossy(bytes: Seq<u8>) -> Seq<char>;

/// Decodes bytes as UTF-8, replacing invalid sequences.
///
/// Wraps `String::from_utf8_lossy`. Std documents that valid UTF-8 is decoded
/// as it is; how invalid sequences are replaced is named `utf8_lossy`.
#[verifier::external_body]
pub(crate) fn decode_utf8_lossy(bytes: &[u8]) -> (r: String)
    ensures
        r@ == utf8_lossy(bytes@),
        valid_utf8(bytes@) ==> r@ == decode_utf8(bytes@),
{
    String::from_utf8_lossy(bytes).into_owned()
}

impl JsonSyntaxError {
    /// The message with which the `json` crate displays this error.
    pub fn message(&self) -> (r: String)
        ensures
            r@ == json_error_text(*self),
    {
        let mut r = String::new();
        match self {
            JsonSyntaxError::UnexpectedCharacter { ch, line, column } => {
                push_str(&mut r, "Unexpected character: ");
                push_char(&mut r, *ch);
                push_str(&mut r, " at (");
                push_decimal(&mut r, *line as u64);
                push_char(&mut r, ':');
                push_decimal(&mut r, *column as u64);
                push_char(&mut r, ')');
            },
            JsonSyntaxError::UnexpectedEndOfJson => push_str(&mut r, "Unexpected end of JSON"),
            JsonSyntaxError::ExceededDepthLimit => push_str(&mut r, "Exceeded depth limit"),
            JsonSyntaxError::FailedUtf8Parsing => push_str(&mut r, "Failed to parse UTF-8 bytes"),
            JsonSyntaxError::WrongType(s) => {
                push_str(&mut r, "Wrong type, expected: ");
                push_str(&mut r, s.as_str());
            },
        }
        r
    }
}

/// The message of each JSON syntax error.
pub open spec fn json_error_text(e: JsonSyntaxError) -> Seq<char> {
    match e {
        JsonSyntaxError::UnexpectedCharacter { ch, line, column } => "Unexpected character: "@
            + seq![ch] + " at ("@ + decimal_text(line as nat) + seq![':'] + decimal_text(
            column as nat,
        ) + seq![')'],
        JsonSyntaxError::UnexpectedEndOfJson => "Unexpected end of JSON"@,
        JsonSyntaxError::ExceededDepthLimit => "Exceeded depth limit"@,
        JsonSyntaxError::FailedUtf8Parsing => "Failed to parse UTF-8 bytes"@,
        JsonSyntaxError::WrongType(s) => "Wrong type, expected: "@ + s@,
    }
}

/// Base64 text holds no white space, and is empty only for no bytes.
pub proof fn lemma_base64_shape(b: Seq<u8>)
    ensures
        forall|i: int|
            0 <= i < base64_encoded(b).len() ==> !is_white_space(#[trigger] base64_encoded(b)[i]),
        b.len() > 0 ==> base64_encoded(b).len() > 0,
    decreases b.len(),
{
    if b.len() >= 3 {
        lemma_base64_shape(b.skip(3));
        let head = seq![
            base64_digit(b[0] as nat / 4),
            base64_digit((b[0] as nat % 4) * 16 + b[1] as nat / 16),
            base64_digit((b[1] as nat % 16) * 4 + b[2] as nat / 64),
            base64_digit(b[2] as nat % 64),
        ];
        assert forall|i: int| 0 <= i < base64_encoded(b).len() implies !is_white_space(
            #[trigger] base64_encoded(b)[i],
        ) by {
            if i >= 4 {
                assert(base64_encoded(b)[i] == base64_encoded(b.skip(3))[i - 4]);
            }
        }
    }
}

/// Distinct six-bit values have distinct base64 digits, none of them `=`.
proof fn lemma_base64_digit(x: nat, y: nat)
    requires
        x < 64,
        y < 64,
    ensures
        base64_digit(x) != '=',
        x != y ==> base64_digit(x) != base64_digit(y),
{
    assert(base64_digit(x) as u32 != 61);
    if x != y {
        assert(base64_digit(x) as u32 != base64_digit(y) as u32);
    }
}

/// Bytes are read back from their six-bit groups.
proof fn lemma_six_bit_groups(b0: nat, b1: nat, b2: nat, c0: nat, c1: nat, c2: nat)
    requires
        b0 < 256,
        b1 < 256,
        b2 < 256,
        c0 < 256,
        c1 < 256,
        c2 < 256,
        b0 / 4 == c0 / 4,
        (b0 % 4) * 16 + b1 / 16 == (c0 % 4) * 16 + c1 / 16,
        (b1 % 16) * 4 + b2 / 64 == (c1 % 16) * 4 + c2 / 64,
        b2 % 64 == c2 % 64,
    ensures
        b0 == c0,
        b1 == c1,
        b2 == c2,
{
}

/// The first digits of a base64 text tell how many bytes its first group
/// holds: the third is `=` for one byte, the fourth for at most two.
proof fn lemma_base64_head(b: Seq<u8>)
    requires
        b.len() > 0,
    ensures
        base64_encoded(b).len() >= 4,
        (base64_encoded(b)[2] == '=') == (b.len() == 1),
        (base64_encoded(b)[3] == '=') == (b.len() <= 2),
{
    let x = b[0] as nat;
    lemma_base64_digit(x / 4, 0);
    lemma_base64_digit((x % 4) * 16, 0);
    if b.len() >= 2 {
        let y = b[1] as nat;
        lemma_base64_digit((x % 4) * 16 + y / 16, 0);
        lemma_base64_digit((y % 16) * 4, 0);
    }
    if b.len() >= 3 {
        let y = b[1] as nat;
        let z = b[2] as nat;
        lemma_base64_digit((y % 16) * 4 + z / 64, 0);
        lemma_base64_digit(z % 64, 0);
    }
}

/// Base64 is one to one: equal texts come from equal bytes.
pub proof fn lemma_base64_injective(b: Seq<u8>, c: Seq<u8>)
    requires
        base64_encoded(b) == base64_encoded(c),
    ensures
        b == c,
    decreases b.len(),
{
    let e = base64_encoded(b);
    if b.len() == 0 || c.len() == 0 {
        lemma_base64_shape(b);
        lemma_base64_shape(c);
        assert(b =~= c);
    } else {
        lemma_base64_head(b);
        lemma_base64_head(c);
        let (b0, c0) = (b[0] as nat, c[0] as nat);
        lemma_base64_digit(b0 / 4, c0 / 4);
        if b.len() == 1 {
            assert(c.len() == 1);
            lemma_base64_digit((b0 % 4) * 16, (c0 % 4) * 16);
            lemma_six_bit_groups(b0, 0, 0, c0, 0, 0);
            assert(b =~= c);
        } else if b.len() == 2 {
            assert(c.len() == 2);
            let (b1, c1) = (b[1] as nat, c[1] as nat);
            lemma_base64_digit((b0 % 4) * 16 + b1 / 16, (c0 % 4) * 16 + c1 / 16);
            lemma_base64_digit((b1 % 16) * 4, (c1 % 16) * 4);
            lemma_six_bit_groups(b0, b1, 0, c0, c1, 0);
            assert(b =~= c);
        } else {
            assert(c.len() >= 3);
            let (b1, c1) = (b[1] as nat, c[1] as nat);
            let (b2, c2) = (b[2] as nat, c[2] as nat);
            lemma_base64_digit((b0 % 4) * 16 + b1 / 16, (c0 % 4) * 16 + c1 / 16);
            lemma_base64_digit((b1 % 16) * 4 + b2 / 64, (c1 % 16) * 4 + c2 / 64);
            lemma_base64_digit(b2 % 64, c2 % 64);
            let hb = seq![
                base64_digit(b0 / 4),
                base64_digit((b0 % 4) * 16 + b1 / 16),
                base64_digit((b1 % 16) * 4 + b2 / 64),
                base64_digit(b2 % 64),
            ];
            let hc = seq![
                base64_digit(c0 / 4),
                base64_digit((c0 % 4) * 16 + c1 / 16),
                base64_digit((c1 % 16) * 4 + c2 / 64),
                base64_digit(c2 % 64),
            ];
            assert(e == hb + base64_encoded(b.skip(3)));
            assert(e == hc + base64_encoded(c.skip(3)));
            assert forall|k: int| 0 <= k < 4 implies hb[k] == hc[k] by {
                assert(e[k] == hb[k]);
                assert(e[k] == hc[k]);
            }
            lemma_six_bit_groups(b0, b1, b2, c0, c1, c2);
            assert(base64_encoded(b.skip(3)) =~= e.skip(4));
            assert(base64_encoded(c.skip(3)) =~= e.skip(4));
            lemma_base64_injective(b.skip(3), c.skip(3));
            assert(b =~= c) by {
                assert forall|i: int| 0 <= i < b.len() implies b[i] == c[i] by {
                    if i >= 3 {
                        assert(b[i] == b.skip(3)[i - 3]);
                        assert(c[i] == c.skip(3)[i - 3]);
                    }
                }
            }
        }
    }
}

} // verus!
