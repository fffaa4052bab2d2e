//! What is proved of reading JSON beyond what this library writes itself: escapes, surrogates,
//! numbers and white space as other programs write them.

use crate::json::Json;
use crate::json;
use crate::text;
use vstd::prelude::*;

verus! {

// ---------------------------------------------------------------------------
// Escapes

/// Each escape of one letter stands for its character.
pub proof fn law_escapes_stand_for_their_characters(s: Seq<char>, i: int)
    requires
        0 <= i < s.len(),
    ensures
        s[i] == '"' ==> json::escape_at(s, i) == Ok::<(char, int), Seq<char>>(('"', i + 1)),
        s[i] == '\\' ==> json::escape_at(s, i) == Ok::<(char, int), Seq<char>>(('\\', i + 1)),
        s[i] == '/' ==> json::escape_at(s, i) == Ok::<(char, int), Seq<char>>(('/', i + 1)),
        s[i] == 'b' ==> json::escape_at(s, i) == Ok::<(char, int), Seq<char>>(('\u{8}', i + 1)),
        s[i] == 'f' ==> json::escape_at(s, i) == Ok::<(char, int), Seq<char>>(('\u{c}', i + 1)),
        s[i] == 'n' ==> json::escape_at(s, i) == Ok::<(char, int), Seq<char>>(('\u{a}', i + 1)),
        s[i] == 'r' ==> json::escape_at(s, i) == Ok::<(char, int), Seq<char>>(('\u{d}', i + 1)),
        s[i] == 't' ==> json::escape_at(s, i) == Ok::<(char, int), Seq<char>>(('\u{9}', i + 1)),
        !(s[i] == '"' || s[i] == '\\' || s[i] == '/' || s[i] == 'b' || s[i] == 'f' || s[i] == 'n'
            || s[i] == 'r' || s[i] == 't' || s[i] == 'u') ==> json::escape_at(s, i) is Err,
{
}

/// A digit counts what it counts in base sixteen, as a small letter or a capital.
pub proof fn law_hexadecimal_digits(c: char)
    ensures
        match json::hex_value(c) {
            Some(d) => {
                &&& d < 16
                &&& d < 10 <==> '0' <= c <= '9'
                &&& '0' <= c <= '9' ==> c as u32 == 0x30 + d
                &&& d >= 10 ==> c as u32 == 0x61 + d - 10 || c as u32 == 0x41 + d - 10
            },
            None => !('0' <= c <= '9') && !('a' <= c <= 'f') && !('A' <= c <= 'F'),
        },
{
}

proof fn lemma_four_digits(s: Seq<char>, i: int, a: nat, b: nat, c: nat, d: nat)
    requires
        0 <= i,
        i + 4 <= s.len(),
        json::hex_value(s[i]) == Some(a),
        json::hex_value(s[i + 1]) == Some(b),
        json::hex_value(s[i + 2]) == Some(c),
        json::hex_value(s[i + 3]) == Some(d),
    ensures
        json::hex_digits_at(s, i, 4, 0) == Ok::<(nat, int), Seq<char>>(
            (a * 4096 + b * 256 + c * 16 + d, i + 4),
        ),
{
    reveal_with_fuel(json::hex_digits_at, 5);
}

/// Four digits stand for the character of that number, unless that is one half of a pair.
pub proof fn law_four_digits_stand_for_a_character(
    s: Seq<char>,
    i: int,
    a: nat,
    b: nat,
    c: nat,
    d: nat,
    wanted: char,
)
    requires
        0 <= i,
        i + 5 <= s.len(),
        s[i] == 'u',
        json::hex_value(s[i + 1]) == Some(a),
        json::hex_value(s[i + 2]) == Some(b),
        json::hex_value(s[i + 3]) == Some(c),
        json::hex_value(s[i + 4]) == Some(d),
        wanted as u32 == a * 4096 + b * 256 + c * 16 + d,
    ensures
        json::escape_at(s, i) == Ok::<(char, int), Seq<char>>((wanted, i + 5)),
{
    lemma_four_digits(s, i + 1, a, b, c, d);
}

/// Two halves of a pair stand together for the character beyond 65535 that they are the halves
/// of.
pub proof fn law_pairs_stand_for_a_character(s: Seq<char>, i: int, high: nat, low: nat, wanted: char)
    requires
        0 <= i,
        i + 11 <= s.len(),
        s[i] == 'u',
        s[i + 5] == '\\',
        s[i + 6] == 'u',
        json::hex_digits_at(s, i + 1, 4, 0) == Ok::<(nat, int), Seq<char>>((high, i + 5)),
        json::hex_digits_at(s, i + 7, 4, 0) == Ok::<(nat, int), Seq<char>>((low, i + 11)),
        wanted as u32 >= 0x1_0000,
        high == 0xd800 + (wanted as u32 - 0x1_0000) / 0x400,
        low == 0xdc00 + (wanted as u32 - 0x1_0000) % 0x400,
    ensures
        json::escape_at(s, i) == Ok::<(char, int), Seq<char>>((wanted, i + 11)),
{
    let rest = wanted as u32 - 0x1_0000;
    assert(0 <= rest < 0x10_0000);
    assert(0xd800 <= high <= 0xdbff);
    assert(0xdc00 <= low <= 0xdfff);
    assert((high - 0xd800) * 0x400 + (low - 0xdc00) == rest);
}

/// One half of a pair alone is refused, whichever it is.
pub proof fn law_halves_are_refused(s: Seq<char>, i: int, half: nat)
    requires
        0 <= i,
        i + 5 <= s.len(),
        s[i] == 'u',
        json::hex_digits_at(s, i + 1, 4, 0) == Ok::<(nat, int), Seq<char>>((half, i + 5)),
        0xd800 <= half <= 0xdfff,
        i + 5 == s.len() || s[i + 5] != '\\',
    ensures
        json::escape_at(s, i) is Err,
{
}

/// A text ends at the next quote, takes each character as it is and each escape as what it stands
/// for, and holds no control character.
pub proof fn law_texts_are_read_by_character(s: Seq<char>, i: int, done: Seq<char>)
    requires
        0 <= i < s.len(),
    ensures
        s[i] == '"' ==> json::string_rest(s, i, done) == Ok::<(Seq<char>, int), Seq<char>>(
            (done, i + 1),
        ),
        s[i] != '"' && s[i] != '\\' && s[i] as u32 >= 0x20 ==> json::string_rest(s, i, done)
            == json::string_rest(s, i + 1, done.push(s[i])),
        (s[i] as u32) < 0x20 ==> json::string_rest(s, i, done) is Err,
        s[i] == '\\' ==> match json::escape_at(s, i + 1) {
            Ok((c, j)) => json::string_rest(s, i, done) == json::string_rest(s, j, done.push(c)),
            Err(_) => json::string_rest(s, i, done) is Err,
        },
        json::string_rest(s, s.len() as int, done) is Err,
{
}

// ---------------------------------------------------------------------------
// Values

/// White space before a value changes nothing.
pub proof fn law_space_before_a_value_is_passed_over(s: Seq<char>, i: int, depth: nat)
    requires
        0 <= i < s.len(),
        s[i] == ' ' || s[i] == '\n' || s[i] == '\r' || s[i] == '\t',
    ensures
        json::value_at(s, i, depth) == json::value_at(s, i + 1, depth),
{
    assert(json::skip_space(s, i) == json::skip_space(s, i + 1));
}

/// The three words stand for their values.
pub proof fn law_words_stand_for_their_values(s: Seq<char>, i: int, depth: nat)
    requires
        0 <= i <= s.len(),
    ensures
        i + 4 <= s.len() && s.subrange(i, i + 4) == "null"@ ==> json::value_at(s, i, depth) == Ok::<
            (Json, int),
            Seq<char>,
        >((Json::Null, i + 4)),
        i + 4 <= s.len() && s.subrange(i, i + 4) == "true"@ ==> json::value_at(s, i, depth) == Ok::<
            (Json, int),
            Seq<char>,
        >((Json::Bool(true), i + 4)),
        i + 5 <= s.len() && s.subrange(i, i + 5) == "false"@ ==> json::value_at(s, i, depth)
            == Ok::<(Json, int), Seq<char>>((Json::Bool(false), i + 5)),
{
    reveal_strlit("null");
    reveal_strlit("true");
    reveal_strlit("false");
    assert("null"@.len() == 4 && "true"@.len() == 4 && "false"@.len() == 5);
    if i + 4 <= s.len() {
        assert(s.subrange(i, i + 4)[0] == s[i]);
    }
    if i + 5 <= s.len() {
        assert(s.subrange(i, i + 5)[0] == s[i]);
    }
}

/// A number that begins with a zero has no other digit before its point, a point and an exponent
/// need a digit behind them, and so does a minus sign.
pub proof fn law_numbers_are_written_one_way(s: Seq<char>, i: int)
    requires
        0 <= i < s.len(),
    ensures
        s[i] == '0' && i + 1 < s.len() && '0' <= s[i + 1] <= '9' ==> json::number_end(s, i) == Ok::<
            int,
            Seq<char>,
        >(i + 1),
        s[i] == '-' && !(i + 1 < s.len() && '0' <= s[i + 1] <= '9') ==> json::number_end(s, i)
            is Err,
        s[i] == '.' && !(i + 1 < s.len() && '0' <= s[i + 1] <= '9') ==> json::fraction_end(s, i)
            is Err,
        s[i] != '.' ==> json::fraction_end(s, i) == Ok::<int, Seq<char>>(i),
        (s[i] == 'e' || s[i] == 'E') && i + 1 == s.len() ==> json::exponent_end(s, i) is Err,
        s[i] != 'e' && s[i] != 'E' ==> json::exponent_end(s, i) == Ok::<int, Seq<char>>(i),
{
}

proof fn lemma_digits_end(s: Seq<char>, i: int, end: int)
    requires
        0 <= i <= end <= s.len(),
        forall|k: int| i <= k < end ==> '0' <= #[trigger] s[k] <= '9',
        end == s.len() || !('0' <= s[end] <= '9'),
    ensures
        json::skip_digits(s, i) == end,
    decreases end - i,
{
    if i < end {
        lemma_digits_end(s, i + 1, end);
    }
}

/// A whole number is read up to its last digit.
pub proof fn law_whole_numbers_end_at_their_last_digit(s: Seq<char>, i: int, end: int)
    requires
        0 <= i < end <= s.len(),
        '1' <= s[i] <= '9',
        forall|k: int| i <= k < end ==> '0' <= #[trigger] s[k] <= '9',
        end == s.len() || (!('0' <= s[end] <= '9') && s[end] != '.' && s[end] != 'e' && s[end]
            != 'E'),
    ensures
        json::number_end(s, i) == Ok::<int, Seq<char>>(end),
{
    lemma_digits_end(s, i, end);
    assert(text::is_digit(s[i]));
}

} // verus!
