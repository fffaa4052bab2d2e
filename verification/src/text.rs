//! Text primitives: building, comparing, splitting and trimming strings, and the
//! decimal and hexadecimal spellings of integers.
//!
//! A text is modelled by its sequence of characters, `text@`.

use vstd::prelude::*;
use vstd::utf8::*;

verus! {

/// Appends one character with `String::push`, which puts it after all the others.
#[verifier::external_body]
pub(crate) fn push_char(text: &mut String, c: char)
    ensures
        final(text)@ == old(text)@.push(c),
{
    text.push(c);
}

/// The characters of a text, in order.
pub fn chars_of(text: &str) -> (chars: Vec<char>)
    ensures
        chars@ == text@,
{
    let mut chars: Vec<char> = Vec::new();
    for c in source: text.chars()
        invariant
            source.seq() == text@,
            chars@ == text@.take(source.index()),
    {
        chars.push(c);
        assert(chars@ =~= text@.take(source.index() + 1));
    }
    assert(chars@ =~= text@);
    chars
}

/// The text made of the characters from index `from` up to index `to`.
pub fn text_of_range(chars: &Vec<char>, from: usize, to: usize) -> (text: String)
    requires
        from <= to <= chars@.len(),
    ensures
        text@ == chars@.subrange(from as int, to as int),
{
    let mut text = String::new();
    let mut i: usize = from;
    while i < to
        invariant
            from <= i <= to <= chars@.len(),
            text@ == chars@.subrange(from as int, i as int),
        decreases to - i,
    {
        push_char(&mut text, chars[i]);
        i = i + 1;
        assert(text@ =~= chars@.subrange(from as int, i as int));
    }
    text
}

/// Whether two texts hold the same characters.
pub fn text_eq(a: &str, b: &str) -> (same: bool)
    ensures
        same == (a@ == b@),
{
    let left = a.as_bytes();
    let right = b.as_bytes();
    proof {
        encode_utf8_decode_utf8(a@);
        encode_utf8_decode_utf8(b@);
    }
    if left.len() != right.len() {
        return false;
    }
    let mut i: usize = 0;
    while i < left.len()
        invariant
            i <= left@.len(),
            left@.len() == right@.len(),
            left@ == encode_utf8(a@),
            right@ == encode_utf8(b@),
            forall|k: int| 0 <= k < i ==> left@[k] == right@[k],
        decreases left@.len() - i,
    {
        if left[i] != right[i] {
            return false;
        }
        i = i + 1;
    }
    assert(left@ =~= right@);
    true
}

/// A fresh copy of a text.
pub fn copy_text(text: &str) -> (copy: String)
    ensures
        copy@ == text@,
{
    text.to_owned()
}

/// The characters of each text of a list.
pub open spec fn texts(list: Seq<String>) -> Seq<Seq<char>> {
    Seq::new(list.len(), |i: int| list[i]@)
}

/// The characters of a text that may be missing.
pub open spec fn text_if(text: Option<String>) -> Option<Seq<char>> {
    match text {
        Some(text) => Some(text@),
        None => None,
    }
}

/// A fresh copy of a text that may be missing.
pub fn copy_text_if(text: &Option<String>) -> (copy: Option<String>)
    ensures
        text_if(copy) == text_if(*text),
{
    match text {
        Some(text) => Some(copy_text(text.as_str())),
        None => None,
    }
}

/// A fresh copy of a list of texts.
pub fn copy_texts(list: &Vec<String>) -> (copy: Vec<String>)
    ensures
        texts(copy@) == texts(list@),
{
    let mut copy: Vec<String> = Vec::new();
    let mut i: usize = 0;
    while i < list.len()
        invariant
            i <= list@.len(),
            texts(copy@) == texts(list@).take(i as int),
        decreases list@.len() - i,
    {
        let ghost before = copy@;
        copy.push(copy_text(list[i].as_str()));
        assert(texts(copy@) =~= texts(before).push(list@[i as int]@));
        i = i + 1;
        assert(texts(copy@) =~= texts(list@).take(i as int));
    }
    assert(texts(copy@) =~= texts(list@));
    copy
}

/// Whether a list holds a text.
pub fn contains_text(list: &Vec<String>, text: &str) -> (found: bool)
    ensures
        found == texts(list@).contains(text@),
{
    let mut i: usize = 0;
    while i < list.len()
        invariant
            i <= list@.len(),
            forall|k: int| 0 <= k < i ==> list@[k]@ != text@,
        decreases list@.len() - i,
    {
        if text_eq(list[i].as_str(), text) {
            assert(texts(list@)[i as int] == text@);
            return true;
        }
        i = i + 1;
    }
    assert forall|k: int| 0 <= k < texts(list@).len() implies texts(list@)[k] != text@ by {
        assert(list@[k]@ != text@);
    }
    false
}

/// `a` followed by `b`.
pub fn concat2(a: &str, b: &str) -> (text: String)
    ensures
        text@ == a@ + b@,
{
    let mut text = copy_text(a);
    text.append(b);
    text
}

/// `a` followed by `b` and `c`.
pub fn concat3(a: &str, b: &str, c: &str) -> (text: String)
    ensures
        text@ == a@ + b@ + c@,
{
    let mut text = concat2(a, b);
    text.append(c);
    text
}

/// `a` followed by `b`, `c` and `d`.
pub fn concat4(a: &str, b: &str, c: &str, d: &str) -> (text: String)
    ensures
        text@ == a@ + b@ + c@ + d@,
{
    let mut text = concat3(a, b, c);
    text.append(d);
    text
}

/// `a` followed by `b`, `c`, `d` and `e`.
pub fn concat5(a: &str, b: &str, c: &str, d: &str, e: &str) -> (text: String)
    ensures
        text@ == a@ + b@ + c@ + d@ + e@,
{
    let mut text = concat4(a, b, c, d);
    text.append(e);
    text
}

// ---------------------------------------------------------------------------
// Order

/// Whether `a` comes before `b` in the dictionary order by code point.
pub open spec fn text_before(a: Seq<char>, b: Seq<char>) -> bool
    decreases a.len(),
{
    if b.len() == 0 {
        false
    } else if a.len() == 0 {
        true
    } else if a[0] != b[0] {
        a[0] < b[0]
    } else {
        text_before(a.drop_first(), b.drop_first())
    }
}

/// A text does not come before itself.
pub proof fn lemma_text_before_irreflexive(a: Seq<char>)
    ensures
        !text_before(a, a),
    decreases a.len(),
{
    if a.len() > 0 {
        lemma_text_before_irreflexive(a.drop_first());
    }
}

/// The order by code point is transitive.
pub proof fn lemma_text_before_transitive(a: Seq<char>, b: Seq<char>, c: Seq<char>)
    requires
        text_before(a, b),
        text_before(b, c),
    ensures
        text_before(a, c),
    decreases a.len(),
{
    if a.len() > 0 && b.len() > 0 && c.len() > 0 && a[0] == b[0] && b[0] == c[0] {
        lemma_text_before_transitive(a.drop_first(), b.drop_first(), c.drop_first());
    }
}

/// Of two different texts, one comes before the other.
pub proof fn lemma_text_before_total(a: Seq<char>, b: Seq<char>)
    ensures
        a == b || text_before(a, b) || text_before(b, a),
    decreases a.len(),
{
    if a.len() == 0 && b.len() == 0 {
        assert(a =~= b);
    } else if a.len() > 0 && b.len() > 0 && a[0] == b[0] {
        lemma_text_before_total(a.drop_first(), b.drop_first());
        if a.drop_first() == b.drop_first() {
            assert(a =~= seq![a[0]] + a.drop_first());
            assert(b =~= seq![b[0]] + b.drop_first());
        }
    }
}

/// Whether `a` comes before `b` in the dictionary order by code point.
pub fn comes_before(a: &str, b: &str) -> (before: bool)
    ensures
        before == text_before(a@, b@),
{
    let left = chars_of(a);
    let right = chars_of(b);
    let mut i: usize = 0;
    assert(a@.skip(0) =~= a@);
    assert(b@.skip(0) =~= b@);
    while i < left.len() && i < right.len()
        invariant
            left@ == a@,
            right@ == b@,
            i <= left@.len(),
            i <= right@.len(),
            text_before(a@, b@) == text_before(a@.skip(i as int), b@.skip(i as int)),
        decreases left@.len() - i,
    {
        if left[i] != right[i] {
            return left[i] < right[i];
        }
        assert(a@.skip(i as int).drop_first() =~= a@.skip(i + 1));
        assert(b@.skip(i as int).drop_first() =~= b@.skip(i + 1));
        i = i + 1;
    }
    i < right.len()
}

// ---------------------------------------------------------------------------
// Integers

/// Whether a character is one of `0` to `9`.
pub open spec fn is_digit(c: char) -> bool {
    '0' <= c && c <= '9'
}

/// The value of a decimal digit.
pub open spec fn digit_value(c: char) -> nat {
    (c as u32 - '0' as u32) as nat
}

/// The decimal digit with a value below ten.
pub open spec fn digit_char(d: nat) -> char {
    (d + '0' as u32) as char
}

/// Whether a character is one of `0` to `9`.
pub fn is_digit_char(c: char) -> (digit: bool)
    ensures
        digit == is_digit(c),
{
    '0' <= c && c <= '9'
}

/// The decimal spelling of a natural number, without leading zeros.
pub open spec fn decimal_text(n: nat) -> Seq<char>
    decreases n,
{
    if n < 10 {
        seq![digit_char(n)]
    } else {
        decimal_text(n / 10).push(digit_char(n % 10))
    }
}

/// The decimal spelling of an integer, with a leading `-` below zero.
pub open spec fn signed_text(i: int) -> Seq<char> {
    if i < 0 {
        seq!['-'] + decimal_text((-i) as nat)
    } else {
        decimal_text(i as nat)
    }
}

/// `true` or `false`.
pub open spec fn bool_text(value: bool) -> Seq<char> {
    if value {
        "true"@
    } else {
        "false"@
    }
}

/// The lower-case hexadecimal digit with a value below sixteen.
pub open spec fn hex_char(d: nat) -> char {
    if d < 10 {
        (d + '0' as u32) as char
    } else {
        (d - 10 + 'a' as u32) as char
    }
}

/// The lowest `width` hexadecimal digits of a number, highest first.
pub open spec fn hex_text(n: nat, width: nat) -> Seq<char>
    decreases width,
{
    if width == 0 {
        Seq::empty()
    } else {
        hex_text(n / 16, (width - 1) as nat).push(hex_char(n % 16))
    }
}

fn digit_of(d: u8) -> (c: char)
    requires
        d < 10,
    ensures
        c == digit_char(d as nat),
        is_digit(c),
        digit_value(c) == d,
{
    (d + 48) as char
}

/// The decimal spelling of a number.
pub fn decimal_u128(n: u128) -> (text: String)
    ensures
        text@ == decimal_text(n as nat),
    decreases n,
{
    if n < 10 {
        let mut text = String::new();
        push_char(&mut text, digit_of(n as u8));
        assert(text@ =~= seq![digit_char(n as nat)]);
        text
    } else {
        let mut text = decimal_u128(n / 10);
        push_char(&mut text, digit_of((n % 10) as u8));
        text
    }
}

/// The decimal spelling of a number.
pub fn decimal_u64(n: u64) -> (text: String)
    ensures
        text@ == decimal_text(n as nat),
{
    decimal_u128(n as u128)
}

/// The decimal spelling of a number.
pub fn decimal_usize(n: usize) -> (text: String)
    ensures
        text@ == decimal_text(n as nat),
{
    decimal_u128(n as u128)
}

/// The decimal spelling of a number.
pub fn decimal_u32(n: u32) -> (text: String)
    ensures
        text@ == decimal_text(n as nat),
{
    decimal_u128(n as u128)
}

/// The decimal spelling of a signed number.
pub fn decimal_i64(n: i64) -> (text: String)
    ensures
        text@ == signed_text(n as int),
{
    if n < 0 {
        let mut text = String::new();
        push_char(&mut text, '-');
        assert(text@ =~= seq!['-']);
        let magnitude = decimal_u128((-(n as i128)) as u128);
        text.append(magnitude.as_str());
        text
    } else {
        decimal_u128(n as u128)
    }
}

/// The text `true` or `false`.
pub fn text_of_bool(value: bool) -> (text: String)
    ensures
        text@ == bool_text(value),
{
    if value {
        copy_text("true")
    } else {
        copy_text("false")
    }
}

/// The lowest `width` hexadecimal digits of a number.
pub fn hex_u64(n: u64, width: u8) -> (text: String)
    ensures
        text@ == hex_text(n as nat, width as nat),
    decreases width,
{
    if width == 0 {
        let text = String::new();
        assert(text@ =~= Seq::<char>::empty());
        text
    } else {
        let mut text = hex_u64(n / 16, width - 1);
        let d: u8 = (n % 16) as u8;
        push_char(&mut text, if d < 10 { (d + 48) as char } else { (d - 10 + 97) as char });
        text
    }
}

/// Why a text is not the spelling of an integer of some type.
#[derive(Clone, Copy, Debug, PartialEq, Eq, Structural)]
pub enum IntError {
    Empty,
    InvalidDigit,
    PosOverflow,
    NegOverflow,
}

impl IntError {
    /// The message for this error.
    pub open spec fn spec_message(self) -> Seq<char> {
        match self {
            IntError::Empty => "cannot parse integer from empty string"@,
            IntError::InvalidDigit => "invalid digit found in string"@,
            IntError::PosOverflow => "number too large to fit in target type"@,
            IntError::NegOverflow => "number too small to fit in target type"@,
        }
    }

    /// The message for this error.
    pub fn message(self) -> (text: &'static str)
        ensures
            text@ == self.spec_message(),
    {
        match self {
            IntError::Empty => "cannot parse integer from empty string",
            IntError::InvalidDigit => "invalid digit found in string",
            IntError::PosOverflow => "number too large to fit in target type",
            IntError::NegOverflow => "number too small to fit in target type",
        }
    }
}

/// The value of a run of decimal digits, read from the left, up to the first
/// character that is no digit or that takes the value past `max`.
pub open spec fn digits_value(s: Seq<char>, max: nat, over: IntError) -> Result<nat, IntError>
    decreases s.len(),
{
    if s.len() == 0 {
        Ok(0)
    } else {
        match digits_value(s.drop_last(), max, over) {
            Err(error) => Err(error),
            Ok(value) => if !is_digit(s.last()) {
                Err(IntError::InvalidDigit)
            } else if value * 10 + digit_value(s.last()) > max {
                Err(over)
            } else {
                Ok((value * 10 + digit_value(s.last())) as nat)
            },
        }
    }
}

/// The value of an unsigned integer's spelling: digits after an optional `+`.
pub open spec fn unsigned_value(s: Seq<char>, max: nat) -> Result<nat, IntError> {
    if s.len() == 0 {
        Err(IntError::Empty)
    } else if s.len() == 1 && (s[0] == '+' || s[0] == '-') {
        Err(IntError::InvalidDigit)
    } else if s[0] == '+' {
        digits_value(s.drop_first(), max, IntError::PosOverflow)
    } else {
        digits_value(s, max, IntError::PosOverflow)
    }
}

/// The value of a signed integer's spelling: digits after an optional sign.
/// The type's values run from `-max - 1` to `max`.
pub open spec fn signed_value(s: Seq<char>, max: nat) -> Result<int, IntError> {
    if s.len() == 0 {
        Err(IntError::Empty)
    } else if s.len() == 1 && (s[0] == '+' || s[0] == '-') {
        Err(IntError::InvalidDigit)
    } else if s[0] == '-' {
        match digits_value(s.drop_first(), max + 1, IntError::NegOverflow) {
            Ok(value) => Ok(-(value as int)),
            Err(error) => Err(error),
        }
    } else {
        match digits_value(
            if s[0] == '+' {
                s.drop_first()
            } else {
                s
            },
            max,
            IntError::PosOverflow,
        ) {
            Ok(value) => Ok(value as int),
            Err(error) => Err(error),
        }
    }
}

proof fn lemma_digits_error_stays(s: Seq<char>, n: int, max: nat, over: IntError)
    requires
        0 <= n <= s.len(),
        digits_value(s.take(n), max, over) is Err,
    ensures
        digits_value(s, max, over) == digits_value(s.take(n), max, over),
    decreases s.len() - n,
{
    if n == s.len() {
        assert(s.take(n) =~= s);
    } else {
        assert(s.take(n + 1).drop_last() =~= s.take(n));
        lemma_digits_error_stays(s, n + 1, max, over);
    }
}

/// Reads the digits of `chars` from index `from` on.
fn read_digits(chars: &Vec<char>, from: usize, max: u64, over: IntError) -> (result: Result<
    u64,
    IntError,
>)
    requires
        from <= chars@.len(),
    ensures
        match (result, digits_value(chars@.skip(from as int), max as nat, over)) {
            (Ok(value), Ok(expected)) => value == expected,
            (Err(error), Err(expected)) => error == expected,
            _ => false,
        },
{
    let ghost s = chars@.skip(from as int);
    let mut value: u64 = 0;
    let mut i: usize = from;
    assert(s.take(0) =~= Seq::<char>::empty());
    while i < chars.len()
        invariant
            from <= i <= chars@.len(),
            s == chars@.skip(from as int),
            digits_value(s.take(i - from), max as nat, over) == Ok::<nat, IntError>(value as nat),
            value <= max,
        decreases chars@.len() - i,
    {
        let c = chars[i];
        proof {
            assert(s.take(i - from + 1).drop_last() =~= s.take(i - from));
            assert(s.take(i - from + 1).last() == c);
        }
        if !is_digit_char(c) {
            proof {
                lemma_digits_error_stays(s, i - from + 1, max as nat, over);
            }
            return Err(IntError::InvalidDigit);
        }
        let d: u64 = c as u64 - 48;
        let wide: u128 = value as u128 * 10 + d as u128;
        if wide > max as u128 {
            proof {
                lemma_digits_error_stays(s, i - from + 1, max as nat, over);
            }
            return Err(over);
        }
        value = wide as u64;
        i = i + 1;
    }
    assert(s.take(chars@.len() - from) =~= s);
    Ok(value)
}

/// Reads an unsigned integer that is at most `max`.
pub fn parse_unsigned(text: &str, max: u64) -> (result: Result<u64, IntError>)
    ensures
        match (result, unsigned_value(text@, max as nat)) {
            (Ok(value), Ok(expected)) => value == expected,
            (Err(error), Err(expected)) => error == expected,
            _ => false,
        },
{
    let chars = chars_of(text);
    if chars.len() == 0 {
        return Err(IntError::Empty);
    }
    if chars.len() == 1 && (chars[0] == '+' || chars[0] == '-') {
        return Err(IntError::InvalidDigit);
    }
    if chars[0] == '+' {
        assert(chars@.skip(1) =~= text@.drop_first());
        read_digits(&chars, 1, max, IntError::PosOverflow)
    } else {
        assert(chars@.skip(0) =~= text@);
        read_digits(&chars, 0, max, IntError::PosOverflow)
    }
}

/// Reads a `u64`.
pub fn parse_u64(text: &str) -> (result: Result<u64, IntError>)
    ensures
        match (result, unsigned_value(text@, u64::MAX as nat)) {
            (Ok(value), Ok(expected)) => value == expected,
            (Err(error), Err(expected)) => error == expected,
            _ => false,
        },
{
    parse_unsigned(text, u64::MAX)
}

/// Reads a `u32`.
pub fn parse_u32(text: &str) -> (result: Result<u32, IntError>)
    ensures
        match (result, unsigned_value(text@, u32::MAX as nat)) {
            (Ok(value), Ok(expected)) => value == expected,
            (Err(error), Err(expected)) => error == expected,
            _ => false,
        },
{
    proof {
        lemma_unsigned_value_bounded(text@, u32::MAX as nat);
    }
    match parse_unsigned(text, u32::MAX as u64) {
        Ok(value) => Ok(value as u32),
        Err(error) => Err(error),
    }
}

/// Reads a `usize`.
pub fn parse_usize(text: &str) -> (result: Result<usize, IntError>)
    ensures
        match (result, unsigned_value(text@, usize::MAX as nat)) {
            (Ok(value), Ok(expected)) => value == expected,
            (Err(error), Err(expected)) => error == expected,
            _ => false,
        },
{
    proof {
        lemma_unsigned_value_bounded(text@, usize::MAX as nat);
    }
    match parse_unsigned(text, usize::MAX as u64) {
        Ok(value) => Ok(value as usize),
        Err(error) => Err(error),
    }
}

/// Reads a signed integer between `-max - 1` and `max`.
fn parse_signed(text: &str, max: u32, wide: bool) -> (result: Result<i64, IntError>)
    ensures
        match (
            result,
            signed_value(
                text@,
                if wide {
                    i64::MAX as nat
                } else {
                    max as nat
                },
            ),
        ) {
            (Ok(value), Ok(expected)) => value == expected,
            (Err(error), Err(expected)) => error == expected,
            _ => false,
        },
{
    let top: u64 = if wide {
        0x7fff_ffff_ffff_ffff
    } else {
        max as u64
    };
    let chars = chars_of(text);
    if chars.len() == 0 {
        return Err(IntError::Empty);
    }
    if chars.len() == 1 && (chars[0] == '+' || chars[0] == '-') {
        return Err(IntError::InvalidDigit);
    }
    if chars[0] == '-' {
        assert(chars@.skip(1) =~= text@.drop_first());
        proof {
            lemma_digits_value_bounded(text@.drop_first(), (top + 1) as nat, IntError::NegOverflow);
        }
        match read_digits(&chars, 1, top + 1, IntError::NegOverflow) {
            Ok(value) => Ok((-(value as i128)) as i64),
            Err(error) => Err(error),
        }
    } else if chars[0] == '+' {
        assert(chars@.skip(1) =~= text@.drop_first());
        proof {
            lemma_digits_value_bounded(text@.drop_first(), top as nat, IntError::PosOverflow);
        }
        match read_digits(&chars, 1, top, IntError::PosOverflow) {
            Ok(value) => Ok(value as i64),
            Err(error) => Err(error),
        }
    } else {
        assert(chars@.skip(0) =~= text@);
        proof {
            lemma_digits_value_bounded(text@, top as nat, IntError::PosOverflow);
        }
        match read_digits(&chars, 0, top, IntError::PosOverflow) {
            Ok(value) => Ok(value as i64),
            Err(error) => Err(error),
        }
    }
}

/// Reads an `i64`.
pub fn parse_i64(text: &str) -> (result: Result<i64, IntError>)
    ensures
        match (result, signed_value(text@, i64::MAX as nat)) {
            (Ok(value), Ok(expected)) => value == expected,
            (Err(error), Err(expected)) => error == expected,
            _ => false,
        },
{
    parse_signed(text, 0, true)
}

/// Reads an `i32`.
pub fn parse_i32(text: &str) -> (result: Result<i32, IntError>)
    ensures
        match (result, signed_value(text@, i32::MAX as nat)) {
            (Ok(value), Ok(expected)) => value == expected,
            (Err(error), Err(expected)) => error == expected,
            _ => false,
        },
{
    proof {
        if text@.len() > 0 {
            lemma_digits_value_bounded(text@, i32::MAX as nat, IntError::PosOverflow);
            lemma_digits_value_bounded(
                text@.drop_first(),
                i32::MAX as nat,
                IntError::PosOverflow,
            );
            lemma_digits_value_bounded(
                text@.drop_first(),
                (i32::MAX + 1) as nat,
                IntError::NegOverflow,
            );
        }
    }
    match parse_signed(text, 0x7fff_ffff, false) {
        Ok(value) => Ok(value as i32),
        Err(error) => Err(error),
    }
}

/// What digits stand for is never past the bound.
pub proof fn lemma_digits_value_bounded(s: Seq<char>, max: nat, over: IntError)
    ensures
        digits_value(s, max, over) is Ok ==> digits_value(s, max, over)->Ok_0 <= max,
    decreases s.len(),
{
    if s.len() > 0 {
        lemma_digits_value_bounded(s.drop_last(), max, over);
    }
}

/// What an unsigned spelling stands for is never past the bound.
pub proof fn lemma_unsigned_value_bounded(s: Seq<char>, max: nat)
    ensures
        unsigned_value(s, max) is Ok ==> unsigned_value(s, max)->Ok_0 <= max,
{
    if s.len() > 0 {
        lemma_digits_value_bounded(s, max, IntError::PosOverflow);
        lemma_digits_value_bounded(s.drop_first(), max, IntError::PosOverflow);
    }
}

/// A decimal spelling is a non-empty run of digits that starts with `0` only for
/// zero itself.
pub proof fn lemma_decimal_text_shape(n: nat)
    ensures
        decimal_text(n).len() > 0,
        forall|i: int| 0 <= i < decimal_text(n).len() ==> is_digit(#[trigger] decimal_text(n)[i]),
        decimal_text(n)[0] == '0' ==> decimal_text(n).len() == 1,
    decreases n,
{
    if n >= 10 {
        lemma_decimal_text_shape(n / 10);
        let front = decimal_text(n / 10);
        if front[0] == '0' {
            lemma_decimal_zero(n / 10);
        }
    }
}

proof fn lemma_decimal_zero(n: nat)
    requires
        decimal_text(n)[0] == '0',
    ensures
        n == 0,
    decreases n,
{
    if n >= 10 {
        lemma_decimal_text_shape(n / 10);
        assert(decimal_text(n)[0] == decimal_text(n / 10)[0]);
        lemma_decimal_zero(n / 10);
    }
}

/// Reading the decimal spelling of a number gives the number back.
pub proof fn lemma_decimal_round_trip(n: nat, max: nat, over: IntError)
    requires
        n <= max,
    ensures
        digits_value(decimal_text(n), max, over) == Ok::<nat, IntError>(n),
        unsigned_value(decimal_text(n), max) == Ok::<nat, IntError>(n),
    decreases n,
{
    lemma_decimal_text_shape(n);
    let s = decimal_text(n);
    if n < 10 {
        assert(s.drop_last() =~= Seq::<char>::empty());
        assert(digits_value(s.drop_last(), max, over) == Ok::<nat, IntError>(0));
        assert(digits_value(s.drop_last(), max, IntError::PosOverflow) == Ok::<nat, IntError>(0));
    } else {
        lemma_decimal_round_trip(n / 10, max, over);
        lemma_decimal_round_trip(n / 10, max, IntError::PosOverflow);
        assert(s.drop_last() =~= decimal_text(n / 10));
    }
}

/// Reading the spelling of a signed number gives the number back.
pub proof fn lemma_signed_round_trip(i: int, max: nat)
    requires
        -(max as int) - 1 <= i <= max,
    ensures
        signed_value(signed_text(i), max) == Ok::<int, IntError>(i),
{
    if i < 0 {
        lemma_decimal_text_shape((-i) as nat);
        lemma_decimal_round_trip((-i) as nat, max + 1, IntError::NegOverflow);
        assert(signed_text(i).drop_first() =~= decimal_text((-i) as nat));
    } else {
        lemma_decimal_text_shape(i as nat);
        lemma_decimal_round_trip(i as nat, max, IntError::PosOverflow);
    }
}

// ---------------------------------------------------------------------------
// Searching, splitting and trimming

/// Whether `s` begins with `prefix`.
pub open spec fn starts(s: Seq<char>, prefix: Seq<char>) -> bool {
    prefix.len() <= s.len() && s.take(prefix.len() as int) == prefix
}

/// Whether a text begins with another.
pub fn starts_with(text: &str, prefix: &str) -> (result: bool)
    ensures
        result == starts(text@, prefix@),
{
    let a = chars_of(text);
    let b = chars_of(prefix);
    if b.len() > a.len() {
        return false;
    }
    let mut i: usize = 0;
    while i < b.len()
        invariant
            a@ == text@,
            b@ == prefix@,
            i <= b@.len() <= a@.len(),
            forall|k: int| 0 <= k < i ==> a@[k] == b@[k],
        decreases b@.len() - i,
    {
        if a[i] != b[i] {
            assert(text@.take(prefix@.len() as int)[i as int] != prefix@[i as int]);
            return false;
        }
        i = i + 1;
    }
    assert(text@.take(prefix@.len() as int) =~= prefix@);
    true
}

/// Whether a text begins with a character.
pub fn starts_with_char(text: &str, c: char) -> (result: bool)
    ensures
        result == (text@.len() > 0 && text@[0] == c),
{
    let a = chars_of(text);
    a.len() > 0 && a[0] == c
}

/// The index of the first `c` in `s`, or the length of `s`.
pub open spec fn first_index(s: Seq<char>, c: char) -> int
    decreases s.len(),
{
    if s.len() == 0 {
        0
    } else if s[0] == c {
        0
    } else {
        1 + first_index(s.drop_first(), c)
    }
}

/// The first index of a character lies within the text, and no earlier one holds it.
pub proof fn lemma_first_index(s: Seq<char>, c: char)
    ensures
        0 <= first_index(s, c) <= s.len(),
        first_index(s, c) < s.len() ==> s[first_index(s, c)] == c,
        forall|k: int| 0 <= k < first_index(s, c) ==> s[k] != c,
        s.contains(c) <==> first_index(s, c) < s.len(),
    decreases s.len(),
{
    if s.len() > 0 {
        let tail = s.drop_first();
        lemma_first_index(tail, c);
        if s[0] != c {
            assert forall|k: int| 0 <= k < first_index(s, c) implies s[k] != c by {
                if k > 0 {
                    assert(s[k] == tail[k - 1]);
                }
            }
        }
    }
}

proof fn lemma_first_index_is(s: Seq<char>, c: char, n: int)
    requires
        0 <= n <= s.len(),
        n < s.len() ==> s[n] == c,
        forall|k: int| 0 <= k < n ==> s[k] != c,
    ensures
        first_index(s, c) == n,
{
    lemma_first_index(s, c);
}

/// The index of the first `c` among the characters from `from` on, or their number.
pub fn find_char(chars: &Vec<char>, c: char) -> (index: usize)
    ensures
        index == first_index(chars@, c),
        index <= chars@.len(),
{
    let mut i: usize = 0;
    while i < chars.len() && chars[i] != c
        invariant
            i <= chars@.len(),
            forall|k: int| 0 <= k < i ==> chars@[k] != c,
        decreases chars@.len() - i,
    {
        i = i + 1;
    }
    proof {
        lemma_first_index_is(chars@, c, i as int);
    }
    i
}

/// Whether a text holds a character.
pub fn contains_char(text: &str, c: char) -> (result: bool)
    ensures
        result == text@.contains(c),
{
    let chars = chars_of(text);
    let i: usize = find_char(&chars, c);
    proof {
        lemma_first_index(text@, c);
    }
    i < chars.len()
}

/// What stands before and after the first `c`, if there is one.
pub open spec fn split_at_first(s: Seq<char>, c: char) -> Option<(Seq<char>, Seq<char>)> {
    let i = first_index(s, c);
    if i < s.len() {
        Some((s.take(i), s.skip(i + 1)))
    } else {
        None
    }
}

/// What stands before and after the first `c`, if there is one.
pub fn split_once(text: &str, c: char) -> (result: Option<(String, String)>)
    ensures
        match (result, split_at_first(text@, c)) {
            (Some((head, tail)), Some((h, t))) => head@ == h && tail@ == t,
            (None, None) => true,
            _ => false,
        },
{
    let chars = chars_of(text);
    let i: usize = find_char(&chars, c);
    if i < chars.len() {
        let head = text_of_range(&chars, 0, i);
        let tail = text_of_range(&chars, i + 1, chars.len());
        assert(head@ =~= text@.take(i as int));
        assert(tail@ =~= text@.skip(i + 1));
        Some((head, tail))
    } else {
        None
    }
}

/// The characters that count as blank: those with the Unicode property `White_Space`.
pub open spec fn is_blank(c: char) -> bool {
    let v = c as u32;
    ||| 0x09 <= v <= 0x0d
    ||| v == 0x20
    ||| v == 0x85
    ||| v == 0xa0
    ||| v == 0x1680
    ||| 0x2000 <= v <= 0x200a
    ||| v == 0x2028
    ||| v == 0x2029
    ||| v == 0x202f
    ||| v == 0x205f
    ||| v == 0x3000
}

/// Whether a character is blank.
pub fn is_blank_char(c: char) -> (blank: bool)
    ensures
        blank == is_blank(c),
{
    let v: u32 = c as u32;
    (0x09 <= v && v <= 0x0d) || v == 0x20 || v == 0x85 || v == 0xa0 || v == 0x1680 || (0x2000 <= v
        && v <= 0x200a) || v == 0x2028 || v == 0x2029 || v == 0x202f || v == 0x205f || v == 0x3000
}

/// `s` without the blanks at its start.
pub open spec fn trim_start(s: Seq<char>) -> Seq<char>
    decreases s.len(),
{
    if s.len() > 0 && is_blank(s[0]) {
        trim_start(s.drop_first())
    } else {
        s
    }
}

/// `s` without the blanks at its end.
pub open spec fn trim_end(s: Seq<char>) -> Seq<char>
    decreases s.len(),
{
    if s.len() > 0 && is_blank(s.last()) {
        trim_end(s.drop_last())
    } else {
        s
    }
}

/// `s` without the blanks at its two ends.
pub open spec fn trimmed(s: Seq<char>) -> Seq<char> {
    trim_end(trim_start(s))
}

/// A text without the blanks at its two ends.
pub fn trim(text: &str) -> (result: String)
    ensures
        result@ == trimmed(text@),
{
    let chars = chars_of(text);
    let mut from: usize = 0;
    assert(text@.skip(0) =~= text@);
    while from < chars.len() && is_blank_char(chars[from])
        invariant
            chars@ == text@,
            from <= chars@.len(),
            trim_start(text@) == trim_start(text@.skip(from as int)),
        decreases chars@.len() - from,
    {
        assert(text@.skip(from as int).drop_first() =~= text@.skip(from + 1));
        from = from + 1;
    }
    let ghost middle = text@.skip(from as int);
    assert(trim_start(text@) == middle);
    let mut to: usize = chars.len();
    assert(middle =~= text@.subrange(from as int, to as int));
    while to > from && is_blank_char(chars[to - 1])
        invariant
            chars@ == text@,
            from <= to <= chars@.len(),
            trim_end(middle) == trim_end(text@.subrange(from as int, to as int)),
        decreases to,
    {
        assert(text@.subrange(from as int, to as int).drop_last() =~= text@.subrange(
            from as int,
            to - 1,
        ));
        to = to - 1;
    }
    text_of_range(&chars, from, to)
}

/// The pieces of `s` between the occurrences of `c`.
pub open spec fn split_all(s: Seq<char>, c: char) -> Seq<Seq<char>>
    decreases s.len(),
{
    let i = first_index(s, c);
    if 0 <= i < s.len() {
        seq![s.take(i)] + split_all(s.skip(i + 1), c)
    } else {
        seq![s]
    }
}

/// `line` without one carriage return at its end.
pub open spec fn without_return(line: Seq<char>) -> Seq<char> {
    if line.len() > 0 && line.last() == '\r' {
        line.drop_last()
    } else {
        line
    }
}

/// The lines of `s`: the pieces that end in a line feed, and what follows the last
/// one where that is not empty. A carriage return before the line feed is dropped.
pub open spec fn lines_of(s: Seq<char>) -> Seq<Seq<char>>
    decreases s.len(),
{
    let i = first_index(s, '\n');
    if s.len() == 0 {
        Seq::empty()
    } else if 0 <= i < s.len() {
        seq![without_return(s.take(i))] + lines_of(s.skip(i + 1))
    } else {
        seq![s]
    }
}

/// The lines of a text.
pub fn lines(text: &str) -> (result: Vec<String>)
    ensures
        texts(result@) == lines_of(text@),
{
    let chars = chars_of(text);
    let mut result: Vec<String> = Vec::new();
    let mut from: usize = 0;
    assert(text@.skip(0) =~= text@);
    assert(texts(result@) + lines_of(text@) =~= lines_of(text@));
    while from < chars.len()
        invariant
            chars@ == text@,
            from <= chars@.len(),
            texts(result@) + lines_of(text@.skip(from as int)) == lines_of(text@),
        decreases chars@.len() - from,
    {
        let ghost rest = text@.skip(from as int);
        let mut end: usize = from;
        while end < chars.len() && chars[end] != '\n'
            invariant
                chars@ == text@,
                rest == text@.skip(from as int),
                from <= end <= chars@.len(),
                forall|k: int| 0 <= k < end - from ==> rest[k] != '\n',
            decreases chars@.len() - end,
        {
            end = end + 1;
        }
        proof {
            lemma_first_index_is(rest, '\n', end - from);
        }
        let ghost before = texts(result@);
        if end < chars.len() {
            let stop: usize = if end > from && chars[end - 1] == '\r' {
                end - 1
            } else {
                end
            };
            let line = text_of_range(&chars, from, stop);
            proof {
                assert(rest.take(end - from) =~= text@.subrange(from as int, end as int));
                assert(line@ =~= without_return(rest.take(end - from)));
                assert(rest.skip(end - from + 1) =~= text@.skip(end + 1));
            }
            result.push(line);
            assert(texts(result@) =~= before.push(result@.last()@));
            assert(texts(result@) + lines_of(text@.skip(end + 1)) =~= before + (seq![
                result@.last()@,
            ] + lines_of(text@.skip(end + 1))));
            from = end + 1;
        } else {
            let line = text_of_range(&chars, from, end);
            assert(line@ =~= rest);
            result.push(line);
            assert(texts(result@) =~= before.push(result@.last()@));
            assert(text@.skip(end as int) =~= Seq::<char>::empty());
            assert(texts(result@) + lines_of(text@.skip(end as int)) =~= before + seq![rest]);
            from = end;
        }
    }
    assert(text@.skip(from as int) =~= Seq::<char>::empty());
    assert(texts(result@) =~= lines_of(text@));
    result
}

} // verus!
