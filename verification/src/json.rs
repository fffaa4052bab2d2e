//! The JSON codec of the wire protocol: a reader with exact error messages and a
//! compact writer.
//!
//! Positions count characters. An object's fields are kept in the order of their
//! names; where a name occurs twice, the later value counts.

use crate::error::ProtocolError;
use crate::text::{
    chars_of, concat2, concat3, concat4, copy_text, decimal_i64, decimal_u64, decimal_usize, hex_u64,
    is_digit_char, push_char, text_of_bool, text_of_range,
};
use crate::textmap::TextMap;
use crate::text;
use crate::textmap;
use vstd::prelude::*;

verus! {

/// How deep arrays and objects may be nested.
pub const MAX_JSON_NESTING_DEPTH: usize = 128;

/// A JSON value, as a mathematical value.
pub enum Json {
    Null,
    Bool(bool),
    Number(Seq<char>),
    Str(Seq<char>),
    Array(Seq<Json>),
    Object(Seq<(Seq<char>, Json)>),
}

/// A JSON value.
#[derive(Debug, PartialEq)]
pub enum JsonValue {
    Null,
    Bool(bool),
    Number(String),
    String(String),
    Array(Vec<JsonValue>),
    Object(TextMap<JsonValue>),
}

/// What a JSON value is at its outermost level.
pub enum Shape<'a> {
    Null,
    Bool(bool),
    Number(&'a str),
    String(&'a str),
    Array(&'a Vec<JsonValue>),
    Object(&'a TextMap<JsonValue>),
}

/// The mathematical value of a JSON value.
pub closed spec fn json_of(value: JsonValue) -> Json
    decreases value,
{
    match value {
        JsonValue::Null => Json::Null,
        JsonValue::Bool(b) => Json::Bool(b),
        JsonValue::Number(n) => Json::Number(n@),
        JsonValue::String(t) => Json::Str(t@),
        JsonValue::Array(list) => Json::Array(jsons_of(list@)),
        JsonValue::Object(map) => Json::Object(pairs_of(map.entries@)),
    }
}

/// The mathematical values of a list of JSON values.
pub closed spec fn jsons_of(list: Seq<JsonValue>) -> Seq<Json>
    decreases list,
{
    if list.len() == 0 {
        Seq::empty()
    } else {
        jsons_of(list.drop_last()).push(json_of(list.last()))
    }
}

spec fn pairs_of(list: Seq<(String, JsonValue)>) -> Seq<(Seq<char>, Json)>
    decreases list,
{
    if list.len() == 0 {
        Seq::empty()
    } else {
        pairs_of(list.drop_last()).push((list.last().0@, json_of(list.last().1)))
    }
}

/// The fields of a JSON object.
pub closed spec fn fields_of(map: &TextMap<JsonValue>) -> Seq<(Seq<char>, Json)> {
    pairs_of(map.entries@)
}

/// The values of a list are taken one by one.
pub proof fn lemma_jsons_of(list: Seq<JsonValue>)
    ensures
        jsons_of(list).len() == list.len(),
        forall|i: int| 0 <= i < list.len() ==> #[trigger] jsons_of(list)[i] == json_of(list[i]),
    decreases list.len(),
{
    if list.len() > 0 {
        lemma_jsons_of(list.drop_last());
        assert forall|i: int| 0 <= i < list.len() implies #[trigger] jsons_of(list)[i] == json_of(
            list[i],
        ) by {
            if i < list.len() - 1 {
                assert(list.drop_last()[i] == list[i]);
            }
        }
    }
}

proof fn lemma_pairs_of(list: Seq<(String, JsonValue)>)
    ensures
        pairs_of(list).len() == list.len(),
        forall|i: int|
            0 <= i < list.len() ==> #[trigger] pairs_of(list)[i] == (list[i].0@, json_of(list[i].1)),
    decreases list.len(),
{
    if list.len() > 0 {
        lemma_pairs_of(list.drop_last());
        assert forall|i: int| 0 <= i < list.len() implies #[trigger] pairs_of(list)[i] == (
            list[i].0@,
            json_of(list[i].1),
        ) by {
            if i < list.len() - 1 {
                assert(list.drop_last()[i] == list[i]);
            }
        }
    }
}

/// An object's fields are the entries of its map with every value taken for what
/// it stands for.
pub proof fn lemma_fields_of(map: &TextMap<JsonValue>)
    ensures
        fields_of(map) == textmap::map_entries(map.raw(), |v: JsonValue| json_of(v)),
{
    lemma_pairs_of(map.entries@);
    map.lemma_raw();
    assert(fields_of(map) =~= textmap::map_entries(map.raw(), |v: JsonValue| json_of(v)));
}

impl JsonValue {
    /// What this value is at its outermost level.
    pub fn shape(&self) -> (shape: Shape<'_>)
        ensures
            json_of(*self) == match shape {
                Shape::Null => Json::Null,
                Shape::Bool(b) => Json::Bool(b),
                Shape::Number(n) => Json::Number(n@),
                Shape::String(t) => Json::Str(t@),
                Shape::Array(list) => Json::Array(jsons_of(list@)),
                Shape::Object(map) => Json::Object(fields_of(map)),
            },
    {
        match self {
            JsonValue::Null => Shape::Null,
            JsonValue::Bool(b) => Shape::Bool(*b),
            JsonValue::Number(n) => Shape::Number(n.as_str()),
            JsonValue::String(t) => Shape::String(t.as_str()),
            JsonValue::Array(list) => Shape::Array(list),
            JsonValue::Object(map) => Shape::Object(map),
        }
    }

    /// The fields, where this is an object.
    pub fn as_object(&self) -> (result: Result<&TextMap<JsonValue>, ProtocolError>)
        ensures
            match (result, object_in(json_of(*self))) {
                (Ok(map), Ok(fields)) => fields_of(map) == fields,
                (Err(error), Err(message)) => error@ == message,
                _ => false,
            },
    {
        match self.shape() {
            Shape::Object(map) => Ok(map),
            _ => Err(ProtocolError::of("expected JSON object")),
        }
    }

    /// The text, where this is a string.
    pub fn as_string(&self) -> (result: Result<&str, ProtocolError>)
        ensures
            match (result, string_in(json_of(*self))) {
                (Ok(text), Ok(expected)) => text@ == expected,
                (Err(error), Err(message)) => error@ == message,
                _ => false,
            },
    {
        match self.shape() {
            Shape::String(text) => Ok(text),
            _ => Err(ProtocolError::of("expected JSON string")),
        }
    }

    /// The truth value, where this is a boolean.
    pub fn as_bool(&self) -> (result: Result<bool, ProtocolError>)
        ensures
            match (result, bool_in(json_of(*self))) {
                (Ok(value), Ok(expected)) => value == expected,
                (Err(error), Err(message)) => error@ == message,
                _ => false,
            },
    {
        match self.shape() {
            Shape::Bool(value) => Ok(value),
            _ => Err(ProtocolError::of("expected JSON boolean")),
        }
    }
}

/// The fields of an object, or the message for any other value.
pub open spec fn object_in(value: Json) -> Result<Seq<(Seq<char>, Json)>, Seq<char>> {
    match value {
        Json::Object(fields) => Ok(fields),
        _ => Err("expected JSON object"@),
    }
}

/// The text of a string, or the message for any other value.
pub open spec fn string_in(value: Json) -> Result<Seq<char>, Seq<char>> {
    match value {
        Json::Str(text) => Ok(text),
        _ => Err("expected JSON string"@),
    }
}

/// The truth value of a boolean, or the message for any other value.
pub open spec fn bool_in(value: Json) -> Result<bool, Seq<char>> {
    match value {
        Json::Bool(b) => Ok(b),
        _ => Err("expected JSON boolean"@),
    }
}

/// The value of an object's field.
pub fn field<'a>(map: &'a TextMap<JsonValue>, key: &str) -> (value: Option<&'a JsonValue>)
    ensures
        match (value, textmap::entries_get(fields_of(map), key@)) {
            (Some(found), Some(expected)) => json_of(*found) == expected,
            (None, None) => true,
            _ => false,
        },
{
    proof {
        lemma_fields_of(map);
        textmap::lemma_map_get(map.raw(), |v: JsonValue| json_of(v), key@);
    }
    map.get(key)
}

// ---------------------------------------------------------------------------
// Reading: what each piece of the grammar is, and where it ends

/// The first byte of a character's UTF-8 form.
pub open spec fn lead_byte(c: char) -> nat {
    let v = c as u32 as nat;
    if v < 0x80 {
        v
    } else if v < 0x800 {
        0xc0 + v / 0x40
    } else if v < 0x1_0000 {
        0xe0 + v / 0x1000
    } else {
        0xf0 + v / 0x4_0000
    }
}

/// Whether a character is blank between the tokens of JSON.
pub open spec fn is_json_space(c: char) -> bool {
    c == ' ' || c == '\n' || c == '\r' || c == '\t'
}

/// Where the blanks from position `i` on end.
pub open spec fn skip_space(s: Seq<char>, i: int) -> int
    decreases s.len() - i,
{
    if 0 <= i < s.len() && is_json_space(s[i]) {
        skip_space(s, i + 1)
    } else {
        i
    }
}

/// Where the digits from position `i` on end.
pub open spec fn skip_digits(s: Seq<char>, i: int) -> int
    decreases s.len() - i,
{
    if 0 <= i < s.len() && text::is_digit(s[i]) {
        skip_digits(s, i + 1)
    } else {
        i
    }
}

pub proof fn lemma_skip_space(s: Seq<char>, i: int)
    requires
        0 <= i <= s.len(),
    ensures
        i <= skip_space(s, i) <= s.len(),
        skip_space(s, i) < s.len() ==> !is_json_space(s[skip_space(s, i)]),
    decreases s.len() - i,
{
    if i < s.len() && is_json_space(s[i]) {
        lemma_skip_space(s, i + 1);
    }
}

pub proof fn lemma_skip_digits(s: Seq<char>, i: int)
    requires
        0 <= i <= s.len(),
    ensures
        i <= skip_digits(s, i) <= s.len(),
    decreases s.len() - i,
{
    if i < s.len() && text::is_digit(s[i]) {
        lemma_skip_digits(s, i + 1);
    }
}

/// The position behind an expected character.
pub open spec fn expect_at(s: Seq<char>, i: int, c: char) -> Result<int, Seq<char>> {
    if i >= s.len() {
        Err("expected byte 0x"@ + text::hex_text(lead_byte(c), 2) + ", got end of input"@)
    } else if s[i] != c {
        Err(
            "expected byte 0x"@ + text::hex_text(lead_byte(c), 2) + ", got 0x"@ + text::hex_text(
                lead_byte(s[i]),
                2,
            ),
        )
    } else {
        Ok(i + 1)
    }
}

/// The value of a hexadecimal digit.
pub open spec fn hex_value(c: char) -> Option<nat> {
    if '0' <= c && c <= '9' {
        Some((c as u32 - '0' as u32) as nat)
    } else if 'a' <= c && c <= 'f' {
        Some((c as u32 - 'a' as u32 + 10) as nat)
    } else if 'A' <= c && c <= 'F' {
        Some((c as u32 - 'A' as u32 + 10) as nat)
    } else {
        None
    }
}

/// The number that `count` hexadecimal digits add to `value`, and the position
/// behind them.
pub open spec fn hex_digits_at(s: Seq<char>, i: int, count: nat, value: nat) -> Result<
    (nat, int),
    Seq<char>,
>
    decreases count,
{
    if count == 0 {
        Ok((value, i))
    } else if i >= s.len() {
        Err("unterminated unicode escape"@)
    } else {
        match hex_value(s[i]) {
            None => Err("invalid unicode escape digit"@),
            Some(d) => hex_digits_at(s, i + 1, (count - 1) as nat, (value * 16 + d) as nat),
        }
    }
}

/// The character of a `\u` escape, whose digits start at `i`. Characters past the
/// first 65536 take two escapes, a high and a low surrogate.
pub open spec fn unicode_escape_at(s: Seq<char>, i: int) -> Result<(char, int), Seq<char>> {
    match hex_digits_at(s, i, 4, 0) {
        Err(message) => Err(message),
        Ok((first, j)) => if 0xd800 <= first <= 0xdbff {
            if !(j + 1 < s.len() && s[j] == '\\' && s[j + 1] == 'u') {
                Err("high surrogate must be followed by a unicode low surrogate"@)
            } else {
                match hex_digits_at(s, j + 2, 4, 0) {
                    Err(message) => Err(message),
                    Ok((second, k)) => if 0xdc00 <= second <= 0xdfff {
                        Ok(
                            (
                                (0x1_0000 + (first - 0xd800) * 0x400 + (second
                                    - 0xdc00)) as char,
                                k,
                            ),
                        )
                    } else {
                        Err("high surrogate must be followed by a unicode low surrogate"@)
                    },
                }
            }
        } else if 0xdc00 <= first <= 0xdfff {
            Err("unicode low surrogate is missing a leading high surrogate"@)
        } else {
            Ok((first as char, j))
        },
    }
}

/// The character of an escape, whose letter stands at `i`.
pub open spec fn escape_at(s: Seq<char>, i: int) -> Result<(char, int), Seq<char>> {
    if i >= s.len() {
        Err("unterminated JSON string escape"@)
    } else if s[i] == '"' || s[i] == '\\' || s[i] == '/' {
        Ok((s[i], i + 1))
    } else if s[i] == 'b' {
        Ok(('\u{08}', i + 1))
    } else if s[i] == 'f' {
        Ok(('\u{0c}', i + 1))
    } else if s[i] == 'n' {
        Ok(('\n', i + 1))
    } else if s[i] == 'r' {
        Ok(('\r', i + 1))
    } else if s[i] == 't' {
        Ok(('\t', i + 1))
    } else if s[i] == 'u' {
        unicode_escape_at(s, i + 1)
    } else {
        Err("invalid JSON string escape: 0x"@ + text::hex_text(lead_byte(s[i]), 2))
    }
}

pub proof fn lemma_hex_digits_progress(s: Seq<char>, i: int, count: nat, value: nat)
    requires
        0 <= i <= s.len(),
    ensures
        hex_digits_at(s, i, count, value) matches Ok((_, j)) ==> j == i + count && j <= s.len(),
    decreases count,
{
    if count > 0 && i < s.len() {
        match hex_value(s[i]) {
            Some(d) => lemma_hex_digits_progress(
                s,
                i + 1,
                (count - 1) as nat,
                (value * 16 + d) as nat,
            ),
            None => {},
        }
    }
}

pub proof fn lemma_escape_progress(s: Seq<char>, i: int)
    requires
        0 <= i <= s.len(),
    ensures
        escape_at(s, i) matches Ok((_, j)) ==> i < j <= s.len(),
{
    if i < s.len() {
        lemma_hex_digits_progress(s, i + 1, 4, 0);
        match hex_digits_at(s, i + 1, 4, 0) {
            Ok((_, j)) => {
                if j + 2 <= s.len() {
                    lemma_hex_digits_progress(s, j + 2, 4, 0);
                }
            },
            Err(_) => {},
        }
    }
}

/// The rest of a string from position `i` on, behind the characters `done`.
pub open spec fn string_rest(s: Seq<char>, i: int, done: Seq<char>) -> Result<
    (Seq<char>, int),
    Seq<char>,
>
    decreases s.len() - i,
{
    if i < 0 || i >= s.len() {
        Err("unterminated JSON string"@)
    } else if s[i] == '"' {
        Ok((done, i + 1))
    } else if s[i] == '\\' {
        proof {
            lemma_escape_progress(s, i + 1);
        }
        match escape_at(s, i + 1) {
            Err(message) => Err(message),
            Ok((c, j)) => string_rest(s, j, done.push(c)),
        }
    } else if (s[i] as u32) <= 0x1f {
        Err("unescaped control byte in JSON string"@)
    } else {
        string_rest(s, i + 1, done.push(s[i]))
    }
}

/// The string that starts with the quotation mark at `i`.
pub open spec fn string_at(s: Seq<char>, i: int) -> Result<(Seq<char>, int), Seq<char>> {
    match expect_at(s, i, '"') {
        Err(message) => Err(message),
        Ok(j) => string_rest(s, j, Seq::empty()),
    }
}

pub proof fn lemma_string_rest_progress(s: Seq<char>, i: int, done: Seq<char>)
    requires
        0 <= i <= s.len(),
    ensures
        string_rest(s, i, done) matches Ok((_, j)) ==> i < j <= s.len(),
    decreases s.len() - i,
{
    if i < s.len() {
        if s[i] == '"' {
        } else if s[i] == '\\' {
            lemma_escape_progress(s, i + 1);
            match escape_at(s, i + 1) {
                Ok((c, j)) => lemma_string_rest_progress(s, j, done.push(c)),
                Err(_) => {},
            }
        } else {
            lemma_string_rest_progress(s, i + 1, done.push(s[i]));
        }
    }
}

pub proof fn lemma_string_progress(s: Seq<char>, i: int)
    requires
        0 <= i <= s.len(),
    ensures
        string_at(s, i) matches Ok((_, j)) ==> i + 1 < j <= s.len(),
{
    if i < s.len() {
        lemma_string_rest_progress(s, i + 1, Seq::empty());
    }
}

/// Whether a digit stands at `i`.
pub open spec fn digit_at(s: Seq<char>, i: int) -> bool {
    0 <= i < s.len() && text::is_digit(s[i])
}

/// Where the number that starts at `i` ends.
pub open spec fn number_end(s: Seq<char>, i: int) -> Result<int, Seq<char>> {
    let signed = i < s.len() && s[i] == '-';
    let a = if signed {
        i + 1
    } else {
        i
    };
    if signed && !digit_at(s, a) {
        Err("expected digit after minus sign"@)
    } else if !digit_at(s, a) {
        Err("expected JSON number"@)
    } else {
        let b = if s[a] == '0' {
            a + 1
        } else {
            skip_digits(s, a)
        };
        match fraction_end(s, b) {
            Err(message) => Err(message),
            Ok(c) => exponent_end(s, c),
        }
    }
}

/// Where the fraction that may start at `i` ends.
pub open spec fn fraction_end(s: Seq<char>, i: int) -> Result<int, Seq<char>> {
    if i < s.len() && s[i] == '.' {
        if digit_at(s, i + 1) {
            Ok(skip_digits(s, i + 1))
        } else {
            Err("expected digit after decimal point"@)
        }
    } else {
        Ok(i)
    }
}

/// Where the exponent that may start at `i` ends.
pub open spec fn exponent_end(s: Seq<char>, i: int) -> Result<int, Seq<char>> {
    if i < s.len() && (s[i] == 'e' || s[i] == 'E') {
        let j = if i + 1 < s.len() && (s[i + 1] == '+' || s[i + 1] == '-') {
            i + 2
        } else {
            i + 1
        };
        if digit_at(s, j) {
            Ok(skip_digits(s, j))
        } else {
            Err("expected digit in exponent"@)
        }
    } else {
        Ok(i)
    }
}

/// Whether `word` stands at `i`.
pub open spec fn word_at(s: Seq<char>, i: int, word: Seq<char>) -> bool {
    i + word.len() <= s.len() && s.subrange(i, i + word.len()) == word
}

/// A literal that must stand at `i`.
pub open spec fn literal_at(s: Seq<char>, i: int, word: Seq<char>, value: Json) -> Result<
    (Json, int),
    Seq<char>,
> {
    if word_at(s, i, word) {
        Ok((value, i + word.len() as int))
    } else {
        Err("expected literal "@ + word)
    }
}

/// The value at `i`, behind blanks, and the position behind it. `depth` counts the
/// arrays and objects around it.
pub open spec fn value_at(s: Seq<char>, i: int, depth: nat) -> Result<(Json, int), Seq<char>>
    decreases s.len() - i, 1int,
{
    let j = skip_space(s, i);
    if i < 0 || i > s.len() || j >= s.len() {
        Err("unexpected end of JSON input"@)
    } else if s[j] == 'n' {
        literal_at(s, j, "null"@, Json::Null)
    } else if s[j] == 't' {
        literal_at(s, j, "true"@, Json::Bool(true))
    } else if s[j] == 'f' {
        literal_at(s, j, "false"@, Json::Bool(false))
    } else if s[j] == '"' {
        match string_at(s, j) {
            Err(message) => Err(message),
            Ok((text, k)) => Ok((Json::Str(text), k)),
        }
    } else if s[j] == '{' || s[j] == '[' {
        proof {
            lemma_skip_space(s, i);
            lemma_skip_space(s, j + 1);
        }
        let k = skip_space(s, j + 1);
        if depth >= MAX_JSON_NESTING_DEPTH {
            Err("JSON nesting exceeds the maximum depth of 128"@)
        } else if s[j] == '{' {
            if k < s.len() && s[k] == '}' {
                Ok((Json::Object(Seq::empty()), k + 1))
            } else {
                members_at(s, k, depth + 1, Seq::empty())
            }
        } else {
            if k < s.len() && s[k] == ']' {
                Ok((Json::Array(Seq::empty()), k + 1))
            } else {
                elements_at(s, k, depth + 1, Seq::empty())
            }
        }
    } else if s[j] == '-' || text::is_digit(s[j]) {
        match number_end(s, j) {
            Err(message) => Err(message),
            Ok(k) => Ok((Json::Number(s.subrange(j, k)), k)),
        }
    } else {
        Err("unexpected byte in JSON value: 0x"@ + text::hex_text(lead_byte(s[j]), 2))
    }
}

/// The rest of an object from position `i` on, behind the fields `done`. (That a
/// value ends behind its start, which the last test says, always holds.)
pub open spec fn members_at(
    s: Seq<char>,
    i: int,
    depth: nat,
    done: Seq<(Seq<char>, Json)>,
) -> Result<(Json, int), Seq<char>>
    decreases s.len() - i, 0int,
{
    if i < 0 || i > s.len() {
        Err("unexpected end of JSON input"@)
    } else {
        let a = skip_space(s, i);
        proof {
            lemma_skip_space(s, i);
            lemma_string_progress(s, a);
        }
        match string_at(s, a) {
            Err(message) => Err(message),
            Ok((key, b)) => {
                proof {
                    lemma_skip_space(s, b);
                }
                match expect_at(s, skip_space(s, b), ':') {
                    Err(message) => Err(message),
                    Ok(c) => match value_at(s, c, depth) {
                        Err(message) => Err(message),
                        Ok((value, d)) => {
                            let fields = textmap::entries_insert(done, key, value);
                            let e = skip_space(s, d);
                            if e < s.len() && s[e] == '}' {
                                Ok((Json::Object(fields), e + 1))
                            } else {
                                match expect_at(s, e, ',') {
                                    Err(message) => Err(message),
                                    Ok(f) => if i < f <= s.len() {
                                        members_at(s, f, depth, fields)
                                    } else {
                                        Err("unexpected end of JSON input"@)
                                    },
                                }
                            }
                        },
                    },
                }
            },
        }
    }
}

/// The rest of an array from position `i` on, behind the values `done`. (That a
/// value ends behind its start, which the last test says, always holds.)
pub open spec fn elements_at(s: Seq<char>, i: int, depth: nat, done: Seq<Json>) -> Result<
    (Json, int),
    Seq<char>,
>
    decreases s.len() - i, 2int,
{
    if i < 0 || i > s.len() {
        Err("unexpected end of JSON input"@)
    } else {
        match value_at(s, i, depth) {
            Err(message) => Err(message),
            Ok((value, d)) => {
                let values = done.push(value);
                let e = skip_space(s, d);
                if e < s.len() && s[e] == ']' {
                    Ok((Json::Array(values), e + 1))
                } else {
                    match expect_at(s, e, ',') {
                        Err(message) => Err(message),
                        Ok(f) => if i < f <= s.len() {
                            elements_at(s, f, depth, values)
                        } else {
                            Err("unexpected end of JSON input"@)
                        },
                    }
                }
            },
        }
    }
}

// ---------------------------------------------------------------------------
// The reader

/// The character with a code point, where there is one, as `char::from_u32` finds
/// it: surrogates and numbers past `0x10ffff` have none.
#[verifier::external_body]
fn char_from(v: u32) -> (c: Option<char>)
    ensures
        c == if v <= 0xd7ff || 0xe000 <= v <= 0x10_ffff {
            Some(v as char)
        } else {
            None
        },
{
    char::from_u32(v)
}

fn lead_byte_of(c: char) -> (byte: u64)
    ensures
        byte == lead_byte(c),
{
    let v: u64 = c as u64;
    if v < 0x80 {
        v
    } else if v < 0x800 {
        0xc0 + v / 0x40
    } else if v < 0x1_0000 {
        0xe0 + v / 0x1000
    } else {
        0xf0 + v / 0x4_0000
    }
}

fn space_end(chars: &Vec<char>, i: usize) -> (end: usize)
    requires
        i <= chars@.len(),
    ensures
        end == skip_space(chars@, i as int),
        i <= end <= chars@.len(),
{
    let mut j: usize = i;
    while j < chars.len() && (chars[j] == ' ' || chars[j] == '\n' || chars[j] == '\r' || chars[j]
        == '\t')
        invariant
            i <= j <= chars@.len(),
            skip_space(chars@, i as int) == skip_space(chars@, j as int),
        decreases chars@.len() - j,
    {
        j = j + 1;
    }
    j
}

/// Where the digits from position `i` on end.
pub(crate) fn digits_end(chars: &Vec<char>, i: usize) -> (end: usize)
    requires
        i <= chars@.len(),
    ensures
        end == skip_digits(chars@, i as int),
        i <= end <= chars@.len(),
{
    let mut j: usize = i;
    while j < chars.len() && is_digit_char(chars[j])
        invariant
            i <= j <= chars@.len(),
            skip_digits(chars@, i as int) == skip_digits(chars@, j as int),
        decreases chars@.len() - j,
    {
        j = j + 1;
    }
    j
}

fn read_expected(chars: &Vec<char>, i: usize, c: char) -> (result: Result<usize, ProtocolError>)
    requires
        i <= chars@.len(),
    ensures
        match (result, expect_at(chars@, i as int, c)) {
            (Ok(j), Ok(expected)) => j == expected && j <= chars@.len(),
            (Err(error), Err(message)) => error@ == message,
            _ => false,
        },
{
    if i >= chars.len() {
        let wanted = hex_u64(lead_byte_of(c), 2);
        Err(
            ProtocolError::new(
                concat3("expected byte 0x", wanted.as_str(), ", got end of input"),
            ),
        )
    } else if chars[i] != c {
        let wanted = hex_u64(lead_byte_of(c), 2);
        let found = hex_u64(lead_byte_of(chars[i]), 2);
        Err(
            ProtocolError::new(
                concat4("expected byte 0x", wanted.as_str(), ", got 0x", found.as_str()),
            ),
        )
    } else {
        Ok(i + 1)
    }
}

fn read_hex_digits(chars: &Vec<char>, i: usize) -> (result: Result<(u32, usize), ProtocolError>)
    requires
        i <= chars@.len(),
    ensures
        match (result, hex_digits_at(chars@, i as int, 4, 0)) {
            (Ok((value, j)), Ok((expected, k))) => value == expected && j == k && j <= chars@.len()
                && value <= 0xffff,
            (Err(error), Err(message)) => error@ == message,
            _ => false,
        },
{
    let mut value: u32 = 0;
    let mut j: usize = i;
    let mut left: u8 = 4;
    while left > 0
        invariant
            i <= j <= chars@.len(),
            left <= 4,
            left == 4 ==> value == 0,
            left == 3 ==> value <= 0xf,
            left == 2 ==> value <= 0xff,
            left == 1 ==> value <= 0xfff,
            left == 0 ==> value <= 0xffff,
            hex_digits_at(chars@, i as int, 4, 0) == hex_digits_at(
                chars@,
                j as int,
                left as nat,
                value as nat,
            ),
        decreases left,
    {
        if j >= chars.len() {
            return Err(ProtocolError::of("unterminated unicode escape"));
        }
        let c = chars[j];
        let d: u32 = if '0' <= c && c <= '9' {
            c as u32 - 48
        } else if 'a' <= c && c <= 'f' {
            c as u32 - 97 + 10
        } else if 'A' <= c && c <= 'F' {
            c as u32 - 65 + 10
        } else {
            return Err(ProtocolError::of("invalid unicode escape digit"));
        };
        value = value * 16 + d;
        j = j + 1;
        left = left - 1;
    }
    Ok((value, j))
}

fn read_unicode_escape(chars: &Vec<char>, i: usize) -> (result: Result<(char, usize), ProtocolError>)
    requires
        i <= chars@.len(),
    ensures
        match (result, unicode_escape_at(chars@, i as int)) {
            (Ok((c, j)), Ok((expected, k))) => c == expected && j == k && j <= chars@.len(),
            (Err(error), Err(message)) => error@ == message,
            _ => false,
        },
{
    let (first, j) = read_hex_digits(chars, i)?;
    if 0xd800 <= first && first <= 0xdbff {
        if !(chars.len() - j >= 2 && chars[j] == '\\' && chars[j + 1] == 'u') {
            return Err(
                ProtocolError::of("high surrogate must be followed by a unicode low surrogate"),
            );
        }
        let (second, k) = read_hex_digits(chars, j + 2)?;
        if !(0xdc00 <= second && second <= 0xdfff) {
            return Err(
                ProtocolError::of("high surrogate must be followed by a unicode low surrogate"),
            );
        }
        match char_from(0x1_0000 + (first - 0xd800) * 0x400 + (second - 0xdc00)) {
            Some(c) => Ok((c, k)),
            None => Err(ProtocolError::of("invalid unicode scalar value")),
        }
    } else if 0xdc00 <= first && first <= 0xdfff {
        Err(ProtocolError::of("unicode low surrogate is missing a leading high surrogate"))
    } else {
        match char_from(first) {
            Some(c) => Ok((c, j)),
            None => Err(ProtocolError::of("invalid unicode scalar value")),
        }
    }
}

fn read_escape(chars: &Vec<char>, i: usize) -> (result: Result<(char, usize), ProtocolError>)
    requires
        i <= chars@.len(),
    ensures
        match (result, escape_at(chars@, i as int)) {
            (Ok((c, j)), Ok((expected, k))) => c == expected && j == k && i < j <= chars@.len(),
            (Err(error), Err(message)) => error@ == message,
            _ => false,
        },
{
    proof {
        lemma_escape_progress(chars@, i as int);
    }
    if i >= chars.len() {
        return Err(ProtocolError::of("unterminated JSON string escape"));
    }
    let c = chars[i];
    if c == '"' || c == '\\' || c == '/' {
        Ok((c, i + 1))
    } else if c == 'b' {
        Ok(('\u{08}', i + 1))
    } else if c == 'f' {
        Ok(('\u{0c}', i + 1))
    } else if c == 'n' {
        Ok(('\n', i + 1))
    } else if c == 'r' {
        Ok(('\r', i + 1))
    } else if c == 't' {
        Ok(('\t', i + 1))
    } else if c == 'u' {
        read_unicode_escape(chars, i + 1)
    } else {
        let byte = hex_u64(lead_byte_of(c), 2);
        Err(ProtocolError::new(concat2("invalid JSON string escape: 0x", byte.as_str())))
    }
}

fn read_string(chars: &Vec<char>, i: usize) -> (result: Result<(String, usize), ProtocolError>)
    requires
        i <= chars@.len(),
    ensures
        match (result, string_at(chars@, i as int)) {
            (Ok((text, j)), Ok((expected, k))) => text@ == expected && j == k && i < j
                <= chars@.len(),
            (Err(error), Err(message)) => error@ == message,
            _ => false,
        },
{
    let start: usize = read_expected(chars, i, '"')?;
    let mut text = String::new();
    let mut j: usize = start;
    assert(text@ =~= Seq::<char>::empty());
    while j < chars.len()
        invariant
            i < start <= j <= chars@.len(),
            expect_at(chars@, i as int, '"') == Ok::<int, Seq<char>>(start as int),
            string_rest(chars@, start as int, Seq::empty()) == string_rest(chars@, j as int, text@),
        decreases chars@.len() - j,
    {
        let c = chars[j];
        if c == '"' {
            return Ok((text, j + 1));
        } else if c == '\\' {
            let (escaped, k) = read_escape(chars, j + 1)?;
            push_char(&mut text, escaped);
            j = k;
        } else if c as u32 <= 0x1f {
            return Err(ProtocolError::of("unescaped control byte in JSON string"));
        } else {
            push_char(&mut text, c);
            j = j + 1;
        }
    }
    Err(ProtocolError::of("unterminated JSON string"))
}

fn read_fraction(chars: &Vec<char>, i: usize) -> (result: Result<usize, ProtocolError>)
    requires
        i <= chars@.len(),
    ensures
        match (result, fraction_end(chars@, i as int)) {
            (Ok(j), Ok(expected)) => j == expected && i <= j <= chars@.len(),
            (Err(error), Err(message)) => error@ == message,
            _ => false,
        },
{
    if i < chars.len() && chars[i] == '.' {
        if i + 1 < chars.len() && is_digit_char(chars[i + 1]) {
            Ok(digits_end(chars, i + 1))
        } else {
            Err(ProtocolError::of("expected digit after decimal point"))
        }
    } else {
        Ok(i)
    }
}

fn read_exponent(chars: &Vec<char>, i: usize) -> (result: Result<usize, ProtocolError>)
    requires
        i <= chars@.len(),
    ensures
        match (result, exponent_end(chars@, i as int)) {
            (Ok(j), Ok(expected)) => j == expected && i <= j <= chars@.len(),
            (Err(error), Err(message)) => error@ == message,
            _ => false,
        },
{
    if i < chars.len() && (chars[i] == 'e' || chars[i] == 'E') {
        let j: usize = if i + 1 < chars.len() && (chars[i + 1] == '+' || chars[i + 1] == '-') {
            i + 2
        } else {
            i + 1
        };
        if j < chars.len() && is_digit_char(chars[j]) {
            Ok(digits_end(chars, j))
        } else {
            Err(ProtocolError::of("expected digit in exponent"))
        }
    } else {
        Ok(i)
    }
}

fn read_number(chars: &Vec<char>, i: usize) -> (result: Result<usize, ProtocolError>)
    requires
        i <= chars@.len(),
    ensures
        match (result, number_end(chars@, i as int)) {
            (Ok(j), Ok(expected)) => j == expected && i < j <= chars@.len(),
            (Err(error), Err(message)) => error@ == message,
            _ => false,
        },
{
    let signed = i < chars.len() && chars[i] == '-';
    let a: usize = if signed {
        i + 1
    } else {
        i
    };
    if signed && !(a < chars.len() && is_digit_char(chars[a])) {
        return Err(ProtocolError::of("expected digit after minus sign"));
    }
    if !(a < chars.len() && is_digit_char(chars[a])) {
        return Err(ProtocolError::of("expected JSON number"));
    }
    let b: usize = if chars[a] == '0' {
        a + 1
    } else {
        let end: usize = digits_end(chars, a);
        proof {
            lemma_skip_digits(chars@, a + 1);
        }
        end
    };
    let c: usize = read_fraction(chars, b)?;
    read_exponent(chars, c)
}

fn is_word(chars: &Vec<char>, i: usize, word: &str) -> (found: bool)
    requires
        i <= chars@.len(),
    ensures
        found == word_at(chars@, i as int, word@),
        found ==> i + word@.len() <= chars@.len(),
{
    let letters = chars_of(word);
    let n: usize = chars.len();
    if letters.len() > n - i {
        return false;
    }
    let mut k: usize = 0;
    while k < letters.len()
        invariant
            letters@ == word@,
            k <= letters@.len(),
            i + letters@.len() <= chars@.len(),
            chars@.len() == n,
            forall|m: int| 0 <= m < k ==> chars@[i + m] == letters@[m],
        decreases letters@.len() - k,
    {
        if chars[i + k] != letters[k] {
            assert(chars@.subrange(i as int, i + word@.len())[k as int] != word@[k as int]);
            return false;
        }
        k = k + 1;
    }
    assert(chars@.subrange(i as int, i + word@.len()) =~= word@);
    true
}

/// Whether a result of the reader is the one that the grammar gives.
spec fn reads(
    result: Result<(JsonValue, usize), ProtocolError>,
    expected: Result<(Json, int), Seq<char>>,
    from: int,
    len: int,
) -> bool {
    match (result, expected) {
        (Ok((value, j)), Ok((json, k))) => json_of(value) == json && j == k && from < j <= len,
        (Err(error), Err(message)) => error@ == message,
        _ => false,
    }
}

fn read_literal(chars: &Vec<char>, i: usize, word: &str, length: usize, value: JsonValue) -> (result:
    Result<(JsonValue, usize), ProtocolError>)
    requires
        i < chars@.len(),
        word@.len() == length,
        length > 0,
    ensures
        reads(
            result,
            literal_at(chars@, i as int, word@, json_of(value)),
            i as int,
            chars@.len() as int,
        ),
{
    let n: usize = chars.len();
    if is_word(chars, i, word) {
        assert(i + length <= n);
        Ok((value, i + length))
    } else {
        Err(ProtocolError::new(concat2("expected literal ", word)))
    }
}

fn read_value(chars: &Vec<char>, i: usize, depth: usize) -> (result: Result<
    (JsonValue, usize),
    ProtocolError,
>)
    requires
        i <= chars@.len(),
        depth <= MAX_JSON_NESTING_DEPTH,
    ensures
        reads(result, value_at(chars@, i as int, depth as nat), i as int, chars@.len() as int),
    decreases chars@.len() - i, 1int,
{
    let j: usize = space_end(chars, i);
    if j >= chars.len() {
        return Err(ProtocolError::of("unexpected end of JSON input"));
    }
    let c = chars[j];
    proof {
        reveal_strlit("null");
        reveal_strlit("true");
        reveal_strlit("false");
    }
    if c == 'n' {
        read_literal(chars, j, "null", 4, JsonValue::Null)
    } else if c == 't' {
        read_literal(chars, j, "true", 4, JsonValue::Bool(true))
    } else if c == 'f' {
        read_literal(chars, j, "false", 5, JsonValue::Bool(false))
    } else if c == '"' {
        let (text, k) = read_string(chars, j)?;
        Ok((JsonValue::String(text), k))
    } else if c == '{' || c == '[' {
        if depth >= MAX_JSON_NESTING_DEPTH {
            return Err(ProtocolError::of("JSON nesting exceeds the maximum depth of 128"));
        }
        let k: usize = space_end(chars, j + 1);
        if c == '{' {
            let map = TextMap::new();
            proof {
                lemma_fields_of(&map);
                assert(fields_of(&map) =~= Seq::<(Seq<char>, Json)>::empty());
            }
            if k < chars.len() && chars[k] == '}' {
                Ok((JsonValue::Object(map), k + 1))
            } else {
                read_members(chars, k, depth + 1, map)
            }
        } else {
            let list: Vec<JsonValue> = Vec::new();
            assert(jsons_of(list@) =~= Seq::<Json>::empty());
            if k < chars.len() && chars[k] == ']' {
                Ok((JsonValue::Array(list), k + 1))
            } else {
                read_elements(chars, k, depth + 1, list)
            }
        }
    } else if c == '-' || is_digit_char(c) {
        let k: usize = read_number(chars, j)?;
        Ok((JsonValue::Number(text_of_range(chars, j, k)), k))
    } else {
        let byte = hex_u64(lead_byte_of(c), 2);
        Err(ProtocolError::new(concat2("unexpected byte in JSON value: 0x", byte.as_str())))
    }
}

fn read_members(chars: &Vec<char>, i: usize, depth: usize, done: TextMap<JsonValue>) -> (result:
    Result<(JsonValue, usize), ProtocolError>)
    requires
        i <= chars@.len(),
        depth <= MAX_JSON_NESTING_DEPTH,
    ensures
        reads(
            result,
            members_at(chars@, i as int, depth as nat, fields_of(&done)),
            i as int,
            chars@.len() as int,
        ),
    decreases chars@.len() - i, 0int,
{
    let ghost fields = fields_of(&done);
    let mut map = done;
    let mut p: usize = i;
    loop
        invariant
            i <= p <= chars@.len(),
            depth <= MAX_JSON_NESTING_DEPTH,
            fields == fields_of(&done),
            members_at(chars@, i as int, depth as nat, fields) == members_at(
                chars@,
                p as int,
                depth as nat,
                fields_of(&map),
            ),
        decreases chars@.len() - p,
    {
        let a: usize = space_end(chars, p);
        let (key, b) = read_string(chars, a)?;
        let c: usize = space_end(chars, b);
        let d: usize = read_expected(chars, c, ':')?;
        let (value, e) = read_value(chars, d, depth)?;
        proof {
            lemma_fields_of(&map);
            textmap::lemma_map_insert(map.raw(), |v: JsonValue| json_of(v), key@, value);
        }
        map.insert(key, value);
        proof {
            lemma_fields_of(&map);
        }
        let f: usize = space_end(chars, e);
        if f < chars.len() && chars[f] == '}' {
            return Ok((JsonValue::Object(map), f + 1));
        }
        p = read_expected(chars, f, ',')?;
    }
}

fn read_elements(chars: &Vec<char>, i: usize, depth: usize, done: Vec<JsonValue>) -> (result: Result<
    (JsonValue, usize),
    ProtocolError,
>)
    requires
        i <= chars@.len(),
        depth <= MAX_JSON_NESTING_DEPTH,
    ensures
        reads(
            result,
            elements_at(chars@, i as int, depth as nat, jsons_of(done@)),
            i as int,
            chars@.len() as int,
        ),
    decreases chars@.len() - i, 2int,
{
    let ghost values = jsons_of(done@);
    let mut list = done;
    let mut p: usize = i;
    loop
        invariant
            i <= p <= chars@.len(),
            depth <= MAX_JSON_NESTING_DEPTH,
            values == jsons_of(done@),
            elements_at(chars@, i as int, depth as nat, values) == elements_at(
                chars@,
                p as int,
                depth as nat,
                jsons_of(list@),
            ),
        decreases chars@.len() - p,
    {
        let ghost before = list@;
        let (value, e) = read_value(chars, p, depth)?;
        list.push(value);
        assert(list@.drop_last() =~= before);
        let f: usize = space_end(chars, e);
        if f < chars.len() && chars[f] == ']' {
            return Ok((JsonValue::Array(list), f + 1));
        }
        p = read_expected(chars, f, ',')?;
    }
}

/// Reads the JSON value that a text holds.
pub fn parse_json(input: &str) -> (result: Result<JsonValue, ProtocolError>)
    ensures
        match (result, json_in(input@)) {
            (Ok(value), Ok(json)) => json_of(value) == json,
            (Err(error), Err(message)) => error@ == message,
            _ => false,
        },
{
    let chars = chars_of(input);
    let (value, i) = read_value(&chars, 0, 0)?;
    let end: usize = space_end(&chars, i);
    if end == chars.len() {
        Ok(value)
    } else {
        Err(ProtocolError::of("unexpected trailing data after JSON value"))
    }
}

/// The JSON value that a text holds.
pub open spec fn json_in(s: Seq<char>) -> Result<Json, Seq<char>> {
    match value_at(s, 0, 0) {
        Err(message) => Err(message),
        Ok((value, i)) => if skip_space(s, i) == s.len() {
            Ok(value)
        } else {
            Err("unexpected trailing data after JSON value"@)
        },
    }
}

// ---------------------------------------------------------------------------
// The writer

/// Whether a character is a control character.
pub open spec fn is_control(c: char) -> bool {
    (c as u32) < 0x20 || 0x7f <= (c as u32) <= 0x9f
}

/// How a character is written inside a JSON string.
pub open spec fn escaped_char(c: char) -> Seq<char> {
    if c == '"' {
        seq!['\\', '"']
    } else if c == '\\' {
        seq!['\\', '\\']
    } else if c == '\n' {
        seq!['\\', 'n']
    } else if c == '\r' {
        seq!['\\', 'r']
    } else if c == '\t' {
        seq!['\\', 't']
    } else if c == '\u{08}' {
        seq!['\\', 'b']
    } else if c == '\u{0c}' {
        seq!['\\', 'f']
    } else if is_control(c) {
        seq!['\\', 'u'] + text::hex_text(c as u32 as nat, 4)
    } else {
        seq![c]
    }
}

/// How a text is written between the quotation marks of a JSON string.
pub open spec fn escaped(s: Seq<char>) -> Seq<char>
    decreases s.len(),
{
    if s.len() == 0 {
        Seq::empty()
    } else {
        escaped(s.drop_last()) + escaped_char(s.last())
    }
}

/// The JSON string for a text.
pub open spec fn quoted(s: Seq<char>) -> Seq<char> {
    seq!['"'] + escaped(s) + seq!['"']
}

/// The pieces with a comma between each two.
pub open spec fn comma_joined(pieces: Seq<Seq<char>>) -> Seq<char>
    decreases pieces.len(),
{
    if pieces.len() == 0 {
        Seq::empty()
    } else if pieces.len() == 1 {
        pieces[0]
    } else {
        comma_joined(pieces.drop_last()) + seq![','] + pieces.last()
    }
}

/// How one field of an object is written.
pub open spec fn field_text(key: Seq<char>, value: Seq<char>) -> Seq<char> {
    quoted(key) + seq![':'] + value
}

/// The compact JSON text of a value. An object's fields stand in the given order.
pub open spec fn encoded(value: Json) -> Seq<char>
    decreases value,
{
    match value {
        Json::Null => "null"@,
        Json::Bool(b) => text::bool_text(b),
        Json::Number(n) => n,
        Json::Str(t) => quoted(t),
        Json::Array(list) => seq!['['] + comma_joined(encoded_each(list)) + seq![']'],
        Json::Object(fields) => seq!['{'] + comma_joined(encoded_fields(fields)) + seq!['}'],
    }
}

/// The compact JSON texts of a list of values.
pub open spec fn encoded_each(list: Seq<Json>) -> Seq<Seq<char>>
    decreases list,
{
    if list.len() == 0 {
        Seq::empty()
    } else {
        encoded_each(list.drop_last()).push(encoded(list.last()))
    }
}

/// The compact JSON texts of a list of fields.
pub open spec fn encoded_fields(fields: Seq<(Seq<char>, Json)>) -> Seq<Seq<char>>
    decreases fields,
{
    if fields.len() == 0 {
        Seq::empty()
    } else {
        encoded_fields(fields.drop_last()).push(
            field_text(fields.last().0, encoded(fields.last().1)),
        )
    }
}

/// The JSON string for a text.
pub fn json_string(input: &str) -> (text: String)
    ensures
        text@ == quoted(input@),
{
    let chars = chars_of(input);
    let mut text = String::new();
    push_char(&mut text, '"');
    assert(text@ =~= seq!['"'] + escaped(input@.take(0)));
    let mut i: usize = 0;
    while i < chars.len()
        invariant
            chars@ == input@,
            i <= chars@.len(),
            text@ == seq!['"'] + escaped(input@.take(i as int)),
        decreases chars@.len() - i,
    {
        let c = chars[i];
        let ghost before = text@;
        proof {
            assert(input@.take(i + 1).drop_last() =~= input@.take(i as int));
        }
        if c == '"' {
            push_char(&mut text, '\\');
            push_char(&mut text, '"');
        } else if c == '\\' {
            push_char(&mut text, '\\');
            push_char(&mut text, '\\');
        } else if c == '\n' {
            push_char(&mut text, '\\');
            push_char(&mut text, 'n');
        } else if c == '\r' {
            push_char(&mut text, '\\');
            push_char(&mut text, 'r');
        } else if c == '\t' {
            push_char(&mut text, '\\');
            push_char(&mut text, 't');
        } else if c == '\u{08}' {
            push_char(&mut text, '\\');
            push_char(&mut text, 'b');
        } else if c == '\u{0c}' {
            push_char(&mut text, '\\');
            push_char(&mut text, 'f');
        } else if (c as u32) < 0x20 || (0x7f <= c as u32 && c as u32 <= 0x9f) {
            push_char(&mut text, '\\');
            push_char(&mut text, 'u');
            let code: u32 = c as u32;
            let digits = hex_u64(code as u64, 4);
            let ghost head = text@;
            text.append(digits.as_str());
            assert(head =~= before + seq!['\\', 'u']);
            assert(text@ =~= before + (seq!['\\', 'u'] + text::hex_text(c as u32 as nat, 4)));
        } else {
            push_char(&mut text, c);
        }
        assert(text@ =~= before + escaped_char(c));
        assert(text@ =~= seq!['"'] + escaped(input@.take(i + 1)));
        i = i + 1;
    }
    assert(input@.take(i as int) =~= input@);
    push_char(&mut text, '"');
    assert(text@ =~= quoted(input@));
    text
}

/// A JSON text together with the value that it spells.
pub struct JsonText {
    text: String,
    tree: Ghost<Json>,
}

impl JsonText {
    #[verifier::type_invariant]
    closed spec fn spells(&self) -> bool {
        self.text@ == encoded(self.tree@)
    }

    /// The value that the text spells.
    pub closed spec fn tree(&self) -> Json {
        self.tree@
    }

    /// The text.
    pub fn into_text(self) -> (text: String)
        ensures
            text@ == encoded(self.tree()),
    {
        proof {
            use_type_invariant(&self);
        }
        self.text
    }

    /// `null`.
    pub fn null() -> (result: Self)
        ensures
            result.tree() == Json::Null,
    {
        JsonText { text: copy_text("null"), tree: Ghost(Json::Null) }
    }

    /// `true` or `false`.
    pub fn boolean(value: bool) -> (result: Self)
        ensures
            result.tree() == Json::Bool(value),
    {
        JsonText { text: text_of_bool(value), tree: Ghost(Json::Bool(value)) }
    }

    /// A number with the given spelling.
    pub fn number(text: String) -> (result: Self)
        ensures
            result.tree() == Json::Number(text@),
    {
        JsonText { tree: Ghost(Json::Number(text@)), text }
    }

    /// An unsigned number.
    pub fn unsigned(value: u64) -> (result: Self)
        ensures
            result.tree() == Json::Number(text::decimal_text(value as nat)),
    {
        JsonText::number(decimal_u64(value))
    }

    /// A size.
    pub fn size(value: usize) -> (result: Self)
        ensures
            result.tree() == Json::Number(text::decimal_text(value as nat)),
    {
        JsonText::number(decimal_usize(value))
    }

    /// A signed number.
    pub fn signed(value: i64) -> (result: Self)
        ensures
            result.tree() == Json::Number(text::signed_text(value as int)),
    {
        JsonText::number(decimal_i64(value))
    }

    /// A string.
    pub fn string(value: &str) -> (result: Self)
        ensures
            result.tree() == Json::Str(value@),
    {
        JsonText { text: json_string(value), tree: Ghost(Json::Str(value@)) }
    }
}

/// The start of a JSON array: the values written so far.
pub struct ArrayText {
    text: String,
    first: bool,
    values: Ghost<Seq<Json>>,
}

impl ArrayText {
    #[verifier::type_invariant]
    closed spec fn spells(&self) -> bool {
        &&& self.text@ == seq!['['] + comma_joined(encoded_each(self.values@))
        &&& self.first == (self.values@.len() == 0)
    }

    /// The values written so far.
    pub closed spec fn values(&self) -> Seq<Json> {
        self.values@
    }

    /// No value yet.
    pub fn new() -> (result: Self)
        ensures
            result.values() == Seq::<Json>::empty(),
    {
        let mut text = String::new();
        push_char(&mut text, '[');
        assert(text@ =~= seq!['['] + comma_joined(encoded_each(Seq::empty())));
        ArrayText { text, first: true, values: Ghost(Seq::empty()) }
    }

    /// One more value.
    pub fn add(self, value: JsonText) -> (result: Self)
        ensures
            result.values() == self.values().push(value.tree()),
    {
        proof {
            use_type_invariant(&self);
            use_type_invariant(&value);
        }
        let ghost old_values = self.values@;
        let ghost new_values = old_values.push(value.tree@);
        let ArrayText { text, first, values: _ } = self;
        let mut text = text;
        proof {
            lemma_encoded_each(old_values);
            lemma_encoded_each(new_values);
            assert(new_values.drop_last() =~= old_values);
            assert(encoded_each(new_values).drop_last() =~= encoded_each(old_values));
        }
        if !first {
            push_char(&mut text, ',');
        }
        text.append(value.text.as_str());
        assert(text@ =~= seq!['['] + comma_joined(encoded_each(new_values)));
        ArrayText { text, first: false, values: Ghost(new_values) }
    }

    /// The whole array.
    pub fn done(self) -> (result: JsonText)
        ensures
            result.tree() == Json::Array(self.values()),
    {
        proof {
            use_type_invariant(&self);
        }
        let ghost values = self.values@;
        let ArrayText { text, first: _, values: _ } = self;
        let mut text = text;
        push_char(&mut text, ']');
        assert(text@ =~= encoded(Json::Array(values)));
        JsonText { text, tree: Ghost(Json::Array(values)) }
    }
}

/// The start of a JSON object: the fields written so far.
pub struct ObjectText {
    text: String,
    first: bool,
    fields: Ghost<Seq<(Seq<char>, Json)>>,
}

impl ObjectText {
    #[verifier::type_invariant]
    closed spec fn spells(&self) -> bool {
        &&& self.text@ == seq!['{'] + comma_joined(encoded_fields(self.fields@))
        &&& self.first == (self.fields@.len() == 0)
    }

    /// The fields written so far.
    pub closed spec fn fields(&self) -> Seq<(Seq<char>, Json)> {
        self.fields@
    }

    /// No field yet.
    pub fn new() -> (result: Self)
        ensures
            result.fields() == Seq::<(Seq<char>, Json)>::empty(),
    {
        let mut text = String::new();
        push_char(&mut text, '{');
        assert(text@ =~= seq!['{'] + comma_joined(encoded_fields(Seq::empty())));
        ObjectText { text, first: true, fields: Ghost(Seq::empty()) }
    }

    /// One more field.
    pub fn add(self, key: &str, value: JsonText) -> (result: Self)
        ensures
            result.fields() == self.fields().push((key@, value.tree())),
    {
        proof {
            use_type_invariant(&self);
            use_type_invariant(&value);
        }
        let ghost old_fields = self.fields@;
        let ghost new_fields = old_fields.push((key@, value.tree@));
        let ObjectText { text, first, fields: _ } = self;
        let mut text = text;
        proof {
            lemma_encoded_fields(old_fields);
            lemma_encoded_fields(new_fields);
            assert(new_fields.drop_last() =~= old_fields);
            assert(encoded_fields(new_fields).drop_last() =~= encoded_fields(old_fields));
        }
        if !first {
            push_char(&mut text, ',');
        }
        let name = json_string(key);
        text.append(name.as_str());
        push_char(&mut text, ':');
        text.append(value.text.as_str());
        assert(text@ =~= seq!['{'] + comma_joined(encoded_fields(new_fields)));
        ObjectText { text, first: false, fields: Ghost(new_fields) }
    }

    /// The whole object.
    pub fn done(self) -> (result: JsonText)
        ensures
            result.tree() == Json::Object(self.fields()),
    {
        let ghost fields = self.fields@;
        self.finish(Ghost(Json::Object(fields)))
    }

    /// The whole object, which is the given one.
    pub(crate) fn finish(self, Ghost(json): Ghost<Json>) -> (result: JsonText)
        requires
            json is Object,
            self.fields() =~= json->Object_0,
        ensures
            result.tree() == json,
    {
        proof {
            use_type_invariant(&self);
        }
        let ghost fields = self.fields@;
        let ObjectText { text, first: _, fields: _ } = self;
        let mut text = text;
        push_char(&mut text, '}');
        assert(text@ =~= encoded(Json::Object(fields)));
        JsonText { text, tree: Ghost(Json::Object(fields)) }
    }
}

/// The texts of a list of values are written one by one.
pub proof fn lemma_encoded_each(list: Seq<Json>)
    ensures
        encoded_each(list).len() == list.len(),
        forall|i: int| 0 <= i < list.len() ==> #[trigger] encoded_each(list)[i] == encoded(list[i]),
    decreases list.len(),
{
    if list.len() > 0 {
        lemma_encoded_each(list.drop_last());
        assert forall|i: int| 0 <= i < list.len() implies #[trigger] encoded_each(list)[i]
            == encoded(list[i]) by {
            if i < list.len() - 1 {
                assert(list.drop_last()[i] == list[i]);
            }
        }
    }
}

/// The texts of a list of fields are written one by one.
pub proof fn lemma_encoded_fields(fields: Seq<(Seq<char>, Json)>)
    ensures
        encoded_fields(fields).len() == fields.len(),
        forall|i: int|
            0 <= i < fields.len() ==> #[trigger] encoded_fields(fields)[i] == field_text(
                fields[i].0,
                encoded(fields[i].1),
            ),
    decreases fields.len(),
{
    if fields.len() > 0 {
        lemma_encoded_fields(fields.drop_last());
        assert forall|i: int| 0 <= i < fields.len() implies #[trigger] encoded_fields(fields)[i]
            == field_text(fields[i].0, encoded(fields[i].1)) by {
            if i < fields.len() - 1 {
                assert(fields.drop_last()[i] == fields[i]);
            }
        }
    }
}

} // verus!
