//! Typed access to the fields of a JSON object, with the message for a field that is
//! missing or of the wrong type.

use crate::error::ProtocolError;
use crate::json::{field, Json, JsonValue, Shape};
use crate::text::{concat3, contains_char, copy_text, parse_i32, parse_unsigned, starts_with_char};
use crate::textmap::TextMap;
use crate::error;
use crate::json;
use crate::text;
use crate::textmap;
use vstd::prelude::*;

verus! {

/// The message that a field is missing.
pub open spec fn missing(key: Seq<char>) -> Seq<char> {
    "missing required field '"@ + key + "'"@
}

/// The text of a field that must be there.
pub open spec fn text_field(fields: Seq<(Seq<char>, Json)>, key: Seq<char>) -> Result<
    Seq<char>,
    Seq<char>,
> {
    match textmap::entries_get(fields, key) {
        None => Err(missing(key)),
        Some(value) => json::string_in(value),
    }
}

/// The text of a field that may be missing.
pub open spec fn text_field_if(fields: Seq<(Seq<char>, Json)>, key: Seq<char>) -> Result<
    Option<Seq<char>>,
    Seq<char>,
> {
    match textmap::entries_get(fields, key) {
        None => Ok(None),
        Some(value) => match json::string_in(value) {
            Ok(text) => Ok(Some(text)),
            Err(message) => Err(message),
        },
    }
}

/// The text of a field, or `default` where it is missing.
pub open spec fn text_field_or(
    fields: Seq<(Seq<char>, Json)>,
    key: Seq<char>,
    default: Seq<char>,
) -> Result<Seq<char>, Seq<char>> {
    match text_field_if(fields, key) {
        Err(message) => Err(message),
        Ok(Some(text)) => Ok(text),
        Ok(None) => Ok(default),
    }
}

/// The text of a field that may be missing or null.
pub open spec fn nullable_text_field(fields: Seq<(Seq<char>, Json)>, key: Seq<char>) -> Result<
    Option<Seq<char>>,
    Seq<char>,
> {
    match textmap::entries_get(fields, key) {
        None => Ok(None),
        Some(Json::Null) => Ok(None),
        Some(value) => match json::string_in(value) {
            Ok(text) => Ok(Some(text)),
            Err(message) => Err(message),
        },
    }
}

/// The truth value of a field, or `default` where it is missing.
pub open spec fn flag_field_or(
    fields: Seq<(Seq<char>, Json)>,
    key: Seq<char>,
    default: bool,
) -> Result<bool, Seq<char>> {
    match textmap::entries_get(fields, key) {
        None => Ok(default),
        Some(value) => json::bool_in(value),
    }
}

/// The truth value of a field that must be there.
pub open spec fn flag_field(fields: Seq<(Seq<char>, Json)>, key: Seq<char>) -> Result<
    bool,
    Seq<char>,
> {
    match textmap::entries_get(fields, key) {
        None => Err(missing(key)),
        Some(value) => json::bool_in(value),
    }
}

/// Whether a number is written with a fraction or an exponent.
pub open spec fn is_fractional(number: Seq<char>) -> bool {
    number.contains('.') || number.contains('e') || number.contains('E')
}

/// The value of a number in a field of an unsigned type whose largest value is `max`.
pub open spec fn unsigned_number(number: Seq<char>, key: Seq<char>, max: nat) -> Result<
    nat,
    Seq<char>,
> {
    if number.len() > 0 && number[0] == '-' {
        Err("field '"@ + key + "' must not be negative"@)
    } else if is_fractional(number) {
        Err("field '"@ + key + "' must be an integer"@)
    } else {
        match text::unsigned_value(number, max) {
            Ok(value) => Ok(value),
            Err(_) => Err("field '"@ + key + "' is out of range"@),
        }
    }
}

/// The value of a number in a field of a signed type whose largest value is `max`.
pub open spec fn signed_number(number: Seq<char>, key: Seq<char>, max: nat) -> Result<
    int,
    Seq<char>,
> {
    if is_fractional(number) {
        Err("field '"@ + key + "' must be an integer"@)
    } else {
        match text::signed_value(number, max) {
            Ok(value) => Ok(value),
            Err(_) => Err("field '"@ + key + "' is out of range"@),
        }
    }
}

/// The number in a field of an unsigned type. It may be missing, and null where
/// `nullable`.
pub open spec fn unsigned_field(
    fields: Seq<(Seq<char>, Json)>,
    key: Seq<char>,
    max: nat,
    nullable: bool,
) -> Result<Option<nat>, Seq<char>> {
    match textmap::entries_get(fields, key) {
        None => Ok(None),
        Some(Json::Number(number)) => match unsigned_number(number, key, max) {
            Ok(value) => Ok(Some(value)),
            Err(message) => Err(message),
        },
        Some(value) => if nullable && value == Json::Null {
            Ok(None)
        } else {
            Err("field '"@ + key + "' must be an integer"@)
        },
    }
}

/// The number in a field of an unsigned type, or `default` where it is missing.
pub open spec fn unsigned_field_or(
    fields: Seq<(Seq<char>, Json)>,
    key: Seq<char>,
    max: nat,
    default: nat,
) -> Result<nat, Seq<char>> {
    match unsigned_field(fields, key, max, false) {
        Err(message) => Err(message),
        Ok(Some(value)) => Ok(value),
        Ok(None) => Ok(default),
    }
}

/// The number in a field of an unsigned type that must be there.
pub open spec fn needed_unsigned_field(
    fields: Seq<(Seq<char>, Json)>,
    key: Seq<char>,
    max: nat,
    nullable: bool,
) -> Result<nat, Seq<char>> {
    match unsigned_field(fields, key, max, nullable) {
        Err(message) => Err(message),
        Ok(Some(value)) => Ok(value),
        Ok(None) => Err(missing(key)),
    }
}

/// The number in a 32-bit signed field, or zero where it is missing.
pub open spec fn i32_field_or_zero(fields: Seq<(Seq<char>, Json)>, key: Seq<char>) -> Result<
    int,
    Seq<char>,
> {
    match textmap::entries_get(fields, key) {
        None => Ok(0),
        Some(Json::Number(number)) => signed_number(number, key, i32::MAX as nat),
        Some(_) => Err("field '"@ + key + "' must be an integer"@),
    }
}

/// The texts of a list of strings.
pub open spec fn strings_in(values: Seq<Json>) -> Result<Seq<Seq<char>>, Seq<char>>
    decreases values.len(),
{
    if values.len() == 0 {
        Ok(Seq::empty())
    } else {
        match strings_in(values.drop_last()) {
            Err(message) => Err(message),
            Ok(texts) => match json::string_in(values.last()) {
                Err(message) => Err(message),
                Ok(text) => Ok(texts.push(text)),
            },
        }
    }
}

/// What a reading of each value of a list gives, up to the first error.
pub open spec fn each_in<T>(
    values: Seq<Json>,
    read: spec_fn(Json) -> Result<T, Seq<char>>,
) -> Result<Seq<T>, Seq<char>>
    decreases values.len(),
{
    if values.len() == 0 {
        Ok(Seq::empty())
    } else {
        match each_in(values.drop_last(), read) {
            Err(message) => Err(message),
            Ok(done) => match read(values.last()) {
                Err(message) => Err(message),
                Ok(value) => Ok(done.push(value)),
            },
        }
    }
}

/// An error among the first values is the error of the whole list.
pub proof fn lemma_each_error_stays<T>(
    values: Seq<Json>,
    read: spec_fn(Json) -> Result<T, Seq<char>>,
    n: int,
)
    requires
        0 <= n <= values.len(),
        each_in(values.take(n), read) is Err,
    ensures
        each_in(values, read) == each_in(values.take(n), read),
    decreases values.len() - n,
{
    if n == values.len() {
        assert(values.take(n) =~= values);
    } else {
        assert(values.take(n + 1).drop_last() =~= values.take(n));
        lemma_each_error_stays(values, read, n + 1);
    }
}

/// The values of a field that is a list, or none where it is missing. Where it must be
/// there, its absence is an error.
pub open spec fn list_field(fields: Seq<(Seq<char>, Json)>, key: Seq<char>, needed: bool) -> Result<
    Seq<Json>,
    Seq<char>,
> {
    match textmap::entries_get(fields, key) {
        Some(Json::Array(values)) => Ok(values),
        Some(_) => Err("field '"@ + key + "' must be an array"@),
        None => if needed {
            Err(missing(key))
        } else {
            Ok(Seq::empty())
        },
    }
}

/// The texts of a field that is a list of strings, or none where it is missing.
pub open spec fn strings_field(
    fields: Seq<(Seq<char>, Json)>,
    key: Seq<char>,
    needed: bool,
) -> Result<Seq<Seq<char>>, Seq<char>> {
    match list_field(fields, key, needed) {
        Err(message) => Err(message),
        Ok(values) => strings_in(values),
    }
}

/// The message that a field is missing.
pub fn missing_field(key: &str) -> (error: ProtocolError)
    ensures
        error@ == missing(key@),
{
    ProtocolError::new(concat3("missing required field '", key, "'"))
}

/// The text of a field that must be there.
pub fn required_string<'a>(object: &'a TextMap<JsonValue>, key: &str) -> (result: Result<
    &'a str,
    ProtocolError,
>)
    ensures
        error::agrees_view(result, text_field(json::fields_of(object), key@)),
{
    match field(object, key) {
        None => Err(missing_field(key)),
        Some(value) => value.as_string(),
    }
}

/// The text of a field that may be missing.
pub fn optional_string<'a>(object: &'a TextMap<JsonValue>, key: &str) -> (result: Result<
    Option<&'a str>,
    ProtocolError,
>)
    ensures
        match (result, text_field_if(json::fields_of(object), key@)) {
            (Ok(Some(text)), Ok(Some(expected))) => text@ == expected,
            (Ok(None), Ok(None)) => true,
            (Err(error), Err(message)) => error@ == message,
            _ => false,
        },
{
    match field(object, key) {
        None => Ok(None),
        Some(value) => Ok(Some(value.as_string()?)),
    }
}

/// A copy of the text of a field that must be there.
pub fn required_text(object: &TextMap<JsonValue>, key: &str) -> (result: Result<
    String,
    ProtocolError,
>)
    ensures
        error::agrees_view(result, text_field(json::fields_of(object), key@)),
{
    Ok(copy_text(required_string(object, key)?))
}

/// A copy of the text of a field, or of `default` where it is missing.
pub fn text_or(object: &TextMap<JsonValue>, key: &str, default: &str) -> (result: Result<
    String,
    ProtocolError,
>)
    ensures
        error::agrees_view(result, text_field_or(json::fields_of(object), key@, default@)),
{
    match optional_string(object, key)? {
        Some(text) => Ok(copy_text(text)),
        None => Ok(copy_text(default)),
    }
}

/// The text of a field that may be missing or null.
pub fn optional_nullable_string(object: &TextMap<JsonValue>, key: &str) -> (result: Result<
    Option<String>,
    ProtocolError,
>)
    ensures
        match (result, nullable_text_field(json::fields_of(object), key@)) {
            (Ok(text), Ok(expected)) => text::text_if(text) == expected,
            (Err(error), Err(message)) => error@ == message,
            _ => false,
        },
{
    match field(object, key) {
        None => Ok(None),
        Some(value) => match value.shape() {
            Shape::Null => Ok(None),
            _ => Ok(Some(copy_text(value.as_string()?))),
        },
    }
}

/// The truth value of a field, or `default` where it is missing.
pub fn flag_or(object: &TextMap<JsonValue>, key: &str, default: bool) -> (result: Result<
    bool,
    ProtocolError,
>)
    ensures
        error::agrees(result, flag_field_or(json::fields_of(object), key@, default)),
{
    match field(object, key) {
        None => Ok(default),
        Some(value) => value.as_bool(),
    }
}

/// The truth value of a field that must be there.
pub fn required_bool(object: &TextMap<JsonValue>, key: &str) -> (result: Result<
    bool,
    ProtocolError,
>)
    ensures
        error::agrees(result, flag_field(json::fields_of(object), key@)),
{
    match field(object, key) {
        None => Err(missing_field(key)),
        Some(value) => value.as_bool(),
    }
}

fn is_fraction(number: &str) -> (result: bool)
    ensures
        result == is_fractional(number@),
{
    contains_char(number, '.') || contains_char(number, 'e') || contains_char(number, 'E')
}

/// The value of a number in a field of an unsigned type.
pub fn parse_json_unsigned(number: &str, key: &str, max: u64) -> (result: Result<
    u64,
    ProtocolError,
>)
    ensures
        match (result, unsigned_number(number@, key@, max as nat)) {
            (Ok(value), Ok(expected)) => value == expected && value <= max,
            (Err(error), Err(message)) => error@ == message,
            _ => false,
        },
{
    if starts_with_char(number, '-') {
        return Err(ProtocolError::new(concat3("field '", key, "' must not be negative")));
    }
    if is_fraction(number) {
        return Err(ProtocolError::new(concat3("field '", key, "' must be an integer")));
    }
    proof {
        text::lemma_unsigned_value_bounded(number@, max as nat);
    }
    match parse_unsigned(number, max) {
        Ok(value) => Ok(value),
        Err(_) => Err(ProtocolError::new(concat3("field '", key, "' is out of range"))),
    }
}

/// The value of a number in a 32-bit signed field.
pub fn parse_json_i32(number: &str, key: &str) -> (result: Result<i32, ProtocolError>)
    ensures
        match (result, signed_number(number@, key@, i32::MAX as nat)) {
            (Ok(value), Ok(expected)) => value == expected,
            (Err(error), Err(message)) => error@ == message,
            _ => false,
        },
{
    if is_fraction(number) {
        return Err(ProtocolError::new(concat3("field '", key, "' must be an integer")));
    }
    match parse_i32(number) {
        Ok(value) => Ok(value),
        Err(_) => Err(ProtocolError::new(concat3("field '", key, "' is out of range"))),
    }
}

fn optional_unsigned(object: &TextMap<JsonValue>, key: &str, max: u64, nullable: bool) -> (result:
    Result<Option<u64>, ProtocolError>)
    ensures
        match (result, unsigned_field(json::fields_of(object), key@, max as nat, nullable)) {
            (Ok(Some(value)), Ok(Some(expected))) => value == expected && value <= max,
            (Ok(None), Ok(None)) => true,
            (Err(error), Err(message)) => error@ == message,
            _ => false,
        },
{
    match field(object, key) {
        None => Ok(None),
        Some(value) => match value.shape() {
            Shape::Number(number) => Ok(Some(parse_json_unsigned(number, key, max)?)),
            Shape::Null => if nullable {
                Ok(None)
            } else {
                Err(ProtocolError::new(concat3("field '", key, "' must be an integer")))
            },
            _ => Err(ProtocolError::new(concat3("field '", key, "' must be an integer"))),
        },
    }
}

/// The number in a 64-bit field that may be missing.
pub fn optional_u64(object: &TextMap<JsonValue>, key: &str) -> (result: Result<
    Option<u64>,
    ProtocolError,
>)
    ensures
        match (result, unsigned_field(json::fields_of(object), key@, u64::MAX as nat, false)) {
            (Ok(Some(value)), Ok(Some(expected))) => value == expected,
            (Ok(None), Ok(None)) => true,
            (Err(error), Err(message)) => error@ == message,
            _ => false,
        },
{
    optional_unsigned(object, key, u64::MAX, false)
}

/// The number in a 64-bit field, or `default` where it is missing.
pub fn u64_or(object: &TextMap<JsonValue>, key: &str, default: u64) -> (result: Result<
    u64,
    ProtocolError,
>)
    ensures
        match (
            result,
            unsigned_field_or(json::fields_of(object), key@, u64::MAX as nat, default as nat),
        ) {
            (Ok(value), Ok(expected)) => value == expected,
            (Err(error), Err(message)) => error@ == message,
            _ => false,
        },
{
    match optional_u64(object, key)? {
        Some(value) => Ok(value),
        None => Ok(default),
    }
}

/// The number in a 32-bit field that may be missing or null.
pub fn optional_u32(object: &TextMap<JsonValue>, key: &str) -> (result: Result<
    Option<u32>,
    ProtocolError,
>)
    ensures
        match (result, unsigned_field(json::fields_of(object), key@, u32::MAX as nat, true)) {
            (Ok(Some(value)), Ok(Some(expected))) => value == expected,
            (Ok(None), Ok(None)) => true,
            (Err(error), Err(message)) => error@ == message,
            _ => false,
        },
{
    match optional_unsigned(object, key, u32::MAX as u64, true)? {
        Some(value) => Ok(Some(value as u32)),
        None => Ok(None),
    }
}

/// The number in a size field that may be missing.
pub fn optional_usize(object: &TextMap<JsonValue>, key: &str) -> (result: Result<
    Option<usize>,
    ProtocolError,
>)
    ensures
        match (result, unsigned_field(json::fields_of(object), key@, usize::MAX as nat, false)) {
            (Ok(Some(value)), Ok(Some(expected))) => value == expected,
            (Ok(None), Ok(None)) => true,
            (Err(error), Err(message)) => error@ == message,
            _ => false,
        },
{
    match optional_unsigned(object, key, usize::MAX as u64, false)? {
        Some(value) => Ok(Some(value as usize)),
        None => Ok(None),
    }
}

/// The number in a size field, or `default` where it is missing.
pub fn usize_or(object: &TextMap<JsonValue>, key: &str, default: usize) -> (result: Result<
    usize,
    ProtocolError,
>)
    ensures
        match (
            result,
            unsigned_field_or(json::fields_of(object), key@, usize::MAX as nat, default as nat),
        ) {
            (Ok(value), Ok(expected)) => value == expected,
            (Err(error), Err(message)) => error@ == message,
            _ => false,
        },
{
    match optional_usize(object, key)? {
        Some(value) => Ok(value),
        None => Ok(default),
    }
}

/// The number in a size field that must be there.
pub fn required_usize(object: &TextMap<JsonValue>, key: &str) -> (result: Result<
    usize,
    ProtocolError,
>)
    ensures
        match (
            result,
            needed_unsigned_field(json::fields_of(object), key@, usize::MAX as nat, false),
        ) {
            (Ok(value), Ok(expected)) => value == expected,
            (Err(error), Err(message)) => error@ == message,
            _ => false,
        },
{
    match optional_usize(object, key)? {
        Some(value) => Ok(value),
        None => Err(missing_field(key)),
    }
}

/// The number in a 64-bit field that must be there.
pub fn required_u64(object: &TextMap<JsonValue>, key: &str) -> (result: Result<u64, ProtocolError>)
    ensures
        match (result, needed_unsigned_field(json::fields_of(object), key@, u64::MAX as nat, false)) {
            (Ok(value), Ok(expected)) => value == expected,
            (Err(error), Err(message)) => error@ == message,
            _ => false,
        },
{
    match optional_u64(object, key)? {
        Some(value) => Ok(value),
        None => Err(missing_field(key)),
    }
}

/// The number in a 32-bit field that must be there.
pub fn required_u32(object: &TextMap<JsonValue>, key: &str) -> (result: Result<u32, ProtocolError>)
    ensures
        match (result, needed_unsigned_field(json::fields_of(object), key@, u32::MAX as nat, true)) {
            (Ok(value), Ok(expected)) => value == expected,
            (Err(error), Err(message)) => error@ == message,
            _ => false,
        },
{
    match optional_u32(object, key)? {
        Some(value) => Ok(value),
        None => Err(missing_field(key)),
    }
}

/// The number in a 32-bit signed field, or zero where it is missing.
pub fn i32_or_zero(object: &TextMap<JsonValue>, key: &str) -> (result: Result<i32, ProtocolError>)
    ensures
        match (result, i32_field_or_zero(json::fields_of(object), key@)) {
            (Ok(value), Ok(expected)) => value == expected,
            (Err(error), Err(message)) => error@ == message,
            _ => false,
        },
{
    match field(object, key) {
        None => Ok(0),
        Some(value) => match value.shape() {
            Shape::Number(number) => parse_json_i32(number, key),
            _ => Err(ProtocolError::new(concat3("field '", key, "' must be an integer"))),
        },
    }
}

/// The values of a field that is a list.
pub fn list_of<'a>(object: &'a TextMap<JsonValue>, key: &str, needed: bool) -> (result: Result<
    Option<&'a Vec<JsonValue>>,
    ProtocolError,
>)
    ensures
        match (result, list_field(json::fields_of(object), key@, needed)) {
            (Ok(Some(values)), Ok(expected)) => json::jsons_of(values@) == expected,
            (Ok(None), Ok(expected)) => expected == Seq::<Json>::empty(),
            (Err(error), Err(message)) => error@ == message,
            _ => false,
        },
{
    match field(object, key) {
        None => if needed {
            Err(missing_field(key))
        } else {
            Ok(None)
        },
        Some(value) => match value.shape() {
            Shape::Array(values) => Ok(Some(values)),
            _ => Err(ProtocolError::new(concat3("field '", key, "' must be an array"))),
        },
    }
}

proof fn lemma_strings_error_stays(values: Seq<Json>, n: int)
    requires
        0 <= n <= values.len(),
        strings_in(values.take(n)) is Err,
    ensures
        strings_in(values) == strings_in(values.take(n)),
    decreases values.len() - n,
{
    if n == values.len() {
        assert(values.take(n) =~= values);
    } else {
        assert(values.take(n + 1).drop_last() =~= values.take(n));
        lemma_strings_error_stays(values, n + 1);
    }
}

/// The texts of a list of strings.
pub fn strings_of(values: &Vec<JsonValue>) -> (result: Result<Vec<String>, ProtocolError>)
    ensures
        match (result, strings_in(json::jsons_of(values@))) {
            (Ok(list), Ok(expected)) => text::texts(list@) == expected,
            (Err(error), Err(message)) => error@ == message,
            _ => false,
        },
{
    let ghost jsons = json::jsons_of(values@);
    proof {
        json::lemma_jsons_of(values@);
    }
    let mut list: Vec<String> = Vec::new();
    let mut i: usize = 0;
    assert(jsons.take(0) =~= Seq::<Json>::empty());
    assert(text::texts(list@) =~= Seq::<Seq<char>>::empty());
    while i < values.len()
        invariant
            i <= values@.len(),
            jsons == json::jsons_of(values@),
            jsons.len() == values@.len(),
            forall|k: int| 0 <= k < values@.len() ==> #[trigger] jsons[k] == json::json_of(values@[k]),
            strings_in(jsons.take(i as int)) == Ok::<Seq<Seq<char>>, Seq<char>>(text::texts(list@)),
        decreases values@.len() - i,
    {
        proof {
            assert(jsons.take(i + 1).drop_last() =~= jsons.take(i as int));
            assert(jsons.take(i + 1).last() == jsons[i as int]);
        }
        match values[i].as_string() {
            Err(error) => {
                proof {
                    lemma_strings_error_stays(jsons, i + 1);
                }
                return Err(error);
            },
            Ok(text) => {
                let ghost before = list@;
                list.push(copy_text(text));
                assert(text::texts(list@) =~= text::texts(before).push(text@));
            },
        }
        i = i + 1;
    }
    assert(jsons.take(i as int) =~= jsons);
    Ok(list)
}

/// The texts of a field that is a list of strings.
pub fn strings_or_none(object: &TextMap<JsonValue>, key: &str, needed: bool) -> (result: Result<
    Vec<String>,
    ProtocolError,
>)
    ensures
        match (result, strings_field(json::fields_of(object), key@, needed)) {
            (Ok(list), Ok(expected)) => text::texts(list@) == expected,
            (Err(error), Err(message)) => error@ == message,
            _ => false,
        },
{
    match list_of(object, key, needed)? {
        Some(values) => strings_of(values),
        None => {
            let list: Vec<String> = Vec::new();
            assert(text::texts(list@) =~= Seq::<Seq<char>>::empty());
            Ok(list)
        },
    }
}

} // verus!
