//! What the JSON writer writes, the JSON reader reads back.

use crate::json::Json;
use crate::json;
use crate::text;
use crate::textmap;
use vstd::prelude::*;

verus! {

/// The value with the fields of every object in the order of their names, the later
/// one of two fields with the same name counting.
pub open spec fn canonical(value: Json) -> Json
    decreases value,
{
    match value {
        Json::Array(list) => Json::Array(canonical_each(list)),
        Json::Object(fields) => Json::Object(canonical_fields(fields)),
        _ => value,
    }
}

/// The canonical forms of a list of values.
pub open spec fn canonical_each(list: Seq<Json>) -> Seq<Json>
    decreases list,
{
    if list.len() == 0 {
        Seq::empty()
    } else {
        canonical_each(list.drop_last()).push(canonical(list.last()))
    }
}

/// The canonical fields of an object.
pub open spec fn canonical_fields(fields: Seq<(Seq<char>, Json)>) -> Seq<(Seq<char>, Json)>
    decreases fields,
{
    if fields.len() == 0 {
        Seq::empty()
    } else {
        textmap::entries_insert(
            canonical_fields(fields.drop_last()),
            fields.last().0,
            canonical(fields.last().1),
        )
    }
}

/// Whether a text is the spelling of a JSON number.
pub open spec fn is_number(n: Seq<char>) -> bool {
    json::number_end(n, 0) == Ok::<int, Seq<char>>(n.len() as int)
}

/// Whether every number in a value is one, and the value may stand inside `depth`
/// arrays and objects.
pub open spec fn is_sound(value: Json, depth: nat) -> bool
    decreases value,
{
    match value {
        Json::Number(n) => is_number(n),
        Json::Array(list) => depth < 128 && each_sound(list, depth + 1),
        Json::Object(fields) => depth < 128 && fields_sound(fields, depth + 1),
        _ => true,
    }
}

/// Whether every value of a list is sound.
pub open spec fn each_sound(list: Seq<Json>, depth: nat) -> bool
    decreases list,
{
    if list.len() == 0 {
        true
    } else {
        each_sound(list.drop_last(), depth) && is_sound(list.last(), depth)
    }
}

/// Whether the value of every field is sound.
pub open spec fn fields_sound(fields: Seq<(Seq<char>, Json)>, depth: nat) -> bool
    decreases fields,
{
    if fields.len() == 0 {
        true
    } else {
        fields_sound(fields.drop_last(), depth) && is_sound(fields.last().1, depth)
    }
}

/// Whether `x` stands at position `i` of `s`.
pub open spec fn stands_at(s: Seq<char>, i: int, x: Seq<char>) -> bool {
    0 <= i && i + x.len() <= s.len() && s.subrange(i, i + x.len()) == x
}

/// Whether nothing that could go on with a number stands at position `i`.
spec fn ends_value(s: Seq<char>, i: int) -> bool {
    i == s.len() || (0 <= i < s.len() && (s[i] == ',' || s[i] == ']' || s[i] == '}'))
}

pub proof fn lemma_stands_split(s: Seq<char>, i: int, a: Seq<char>, b: Seq<char>)
    requires
        stands_at(s, i, a + b),
    ensures
        stands_at(s, i, a),
        stands_at(s, i + a.len(), b),
{
    let whole = s.subrange(i, i + (a + b).len());
    assert(s.subrange(i, i + a.len()) =~= whole.subrange(0, a.len() as int));
    assert((a + b).subrange(0, a.len() as int) =~= a);
    assert(s.subrange(i + a.len(), i + a.len() + b.len()) =~= whole.subrange(
        a.len() as int,
        (a.len() + b.len()) as int,
    ));
    assert((a + b).subrange(a.len() as int, (a.len() + b.len()) as int) =~= b);
}

pub proof fn lemma_stands_char(s: Seq<char>, i: int, x: Seq<char>, k: int)
    requires
        stands_at(s, i, x),
        0 <= k < x.len(),
    ensures
        s[i + k] == x[k],
{
    assert(s.subrange(i, i + x.len())[k] == s[i + k]);
}

// ---------------------------------------------------------------------------
// Strings

proof fn lemma_escaped_first(s: Seq<char>)
    requires
        s.len() > 0,
    ensures
        json::escaped(s) == json::escaped_char(s[0]) + json::escaped(s.drop_first()),
    decreases s.len(),
{
    if s.len() == 1 {
        assert(s.drop_last() =~= Seq::<char>::empty());
        assert(s.drop_first() =~= Seq::<char>::empty());
        assert(json::escaped(s) =~= json::escaped_char(s[0]) + json::escaped(s.drop_first()));
    } else {
        lemma_escaped_first(s.drop_last());
        assert(s.drop_first().drop_last() =~= s.drop_last().drop_first());
        assert(json::escaped(s) =~= json::escaped_char(s[0]) + json::escaped(s.drop_first()));
    }
}

proof fn lemma_hex_text_four(n: nat)
    requires
        n < 0x1_0000,
    ensures
        text::hex_text(n, 4) == seq![
            text::hex_char(n / 4096),
            text::hex_char((n / 256) % 16),
            text::hex_char((n / 16) % 16),
            text::hex_char(n % 16),
        ],
{
    reveal_with_fuel(text::hex_text, 5);
    assert(n / 16 / 16 == n / 256 && n / 16 / 16 / 16 == n / 4096) by (nonlinear_arith);
    assert((n / 4096) % 16 == n / 4096);
    assert(text::hex_text(n, 4) =~= seq![
        text::hex_char(n / 4096),
        text::hex_char((n / 256) % 16),
        text::hex_char((n / 16) % 16),
        text::hex_char(n % 16),
    ]);
}

proof fn lemma_hex_value(d: nat)
    requires
        d < 16,
    ensures
        json::hex_value(text::hex_char(d)) == Some(d),
{
}

/// A character that is written with its code is read back.
pub proof fn lemma_read_code(s: Seq<char>, i: int, c: char, done: Seq<char>)
    requires
        stands_at(s, i, seq!['\\', 'u'] + text::hex_text(c as u32 as nat, 4)),
        (c as u32) < 0x1_0000,
    ensures
        json::string_rest(s, i, done) == json::string_rest(s, i + 6, done.push(c)),
        text::hex_text(c as u32 as nat, 4).len() == 4,
{
    let n = c as u32 as nat;
    lemma_hex_text_four(n);
    let h = text::hex_text(n, 4);
    lemma_stands_char(s, i, seq!['\\', 'u'] + h, 0);
    lemma_stands_char(s, i, seq!['\\', 'u'] + h, 1);
    lemma_stands_split(s, i, seq!['\\', 'u'], h);
    lemma_stands_char(s, i + 2, h, 0);
    lemma_stands_char(s, i + 2, h, 1);
    lemma_stands_char(s, i + 2, h, 2);
    lemma_stands_char(s, i + 2, h, 3);
    lemma_hex_value(n / 4096);
    lemma_hex_value((n / 256) % 16);
    lemma_hex_value((n / 16) % 16);
    lemma_hex_value(n % 16);
    reveal_with_fuel(json::hex_digits_at, 5);
    assert(n == (((n / 4096) * 16 + (n / 256) % 16) * 16 + (n / 16) % 16) * 16 + n % 16)
        by (nonlinear_arith)
        requires
            n < 0x1_0000,
    ;
    assert(json::hex_digits_at(s, i + 2, 4, 0) == Ok::<(nat, int), Seq<char>>((n, i + 6)));
    assert(json::escape_at(s, i + 1) == Ok::<(char, int), Seq<char>>((c, i + 6)));
}

pub proof fn lemma_read_escaped_char(s: Seq<char>, i: int, c: char, done: Seq<char>)
    requires
        stands_at(s, i, json::escaped_char(c)),
    ensures
        json::string_rest(s, i, done) == json::string_rest(
            s,
            i + json::escaped_char(c).len(),
            done.push(c),
        ),
{
    let x = json::escaped_char(c);
    lemma_stands_char(s, i, x, 0);
    if x.len() > 1 {
        lemma_stands_char(s, i, x, 1);
        assert(s[i] == '\\');
        if c == '"' || c == '\\' || c == '\n' || c == '\r' || c == '\t' || c == '\u{08}' || c
            == '\u{0c}' {
            assert(json::escape_at(s, i + 1) == Ok::<(char, int), Seq<char>>((c, i + 2)));
        } else {
            lemma_read_code(s, i, c, done);
        }
    } else {
        assert(x == seq![c]);
    }
}

proof fn lemma_read_string_rest(s: Seq<char>, i: int, text: Seq<char>, done: Seq<char>)
    requires
        stands_at(s, i, json::escaped(text) + seq!['"']),
    ensures
        json::string_rest(s, i, done) == Ok::<(Seq<char>, int), Seq<char>>(
            (done + text, i + json::escaped(text).len() + 1),
        ),
    decreases text.len(),
{
    if text.len() == 0 {
        lemma_stands_split(s, i, json::escaped(text), seq!['"']);
        lemma_stands_char(s, i, seq!['"'], 0);
        assert(done + text =~= done);
    } else {
        lemma_escaped_first(text);
        let head = json::escaped_char(text[0]);
        let tail = text.drop_first();
        assert(json::escaped(text) + seq!['"'] =~= head + (json::escaped(tail) + seq!['"']));
        lemma_stands_split(s, i, head, json::escaped(tail) + seq!['"']);
        lemma_read_escaped_char(s, i, text[0], done);
        lemma_read_string_rest(s, i + head.len(), tail, done.push(text[0]));
        assert(done.push(text[0]) + tail =~= done + text);
    }
}

proof fn lemma_read_string(s: Seq<char>, i: int, text: Seq<char>)
    requires
        stands_at(s, i, json::quoted(text)),
    ensures
        json::string_at(s, i) == Ok::<(Seq<char>, int), Seq<char>>((text, i + json::quoted(text).len())),
{
    assert(json::quoted(text) =~= seq!['"'] + (json::escaped(text) + seq!['"']));
    lemma_stands_split(s, i, seq!['"'], json::escaped(text) + seq!['"']);
    lemma_stands_char(s, i, seq!['"'], 0);
    lemma_read_string_rest(s, i + 1, text, Seq::empty());
    assert(Seq::<char>::empty() + text =~= text);
}

// ---------------------------------------------------------------------------
// Numbers

proof fn lemma_skip_digits_shift(s: Seq<char>, i: int, n: Seq<char>, k: int)
    requires
        stands_at(s, i, n),
        ends_value(s, i + n.len()),
        0 <= k <= n.len(),
    ensures
        json::skip_digits(s, i + k) == i + json::skip_digits(n, k),
        k <= json::skip_digits(n, k) <= n.len(),
    decreases n.len() - k,
{
    if k < n.len() {
        lemma_stands_char(s, i, n, k);
        if text::is_digit(n[k]) {
            lemma_skip_digits_shift(s, i, n, k + 1);
        }
    }
}

proof fn lemma_digit_shift(s: Seq<char>, i: int, n: Seq<char>, k: int)
    requires
        stands_at(s, i, n),
        ends_value(s, i + n.len()),
        0 <= k <= n.len(),
    ensures
        json::digit_at(s, i + k) == json::digit_at(n, k),
        k < n.len() ==> s[i + k] == n[k],
{
    if k < n.len() {
        lemma_stands_char(s, i, n, k);
    }
}

proof fn lemma_read_number(s: Seq<char>, i: int, n: Seq<char>)
    requires
        stands_at(s, i, n),
        ends_value(s, i + n.len()),
        is_number(n),
    ensures
        json::number_end(s, i) == Ok::<int, Seq<char>>(i + n.len()),
        n.len() > 0,
        n[0] == '-' || text::is_digit(n[0]),
{
    lemma_digit_shift(s, i, n, 0);
    let signed = 0 < n.len() && n[0] == '-';
    let a: int = if signed {
        1
    } else {
        0
    };
    lemma_digit_shift(s, i, n, a);
    assert(json::digit_at(n, a));
    lemma_skip_digits_shift(s, i, n, a);
    let b = if n[a] == '0' {
        a + 1
    } else {
        json::skip_digits(n, a)
    };
    lemma_digit_shift(s, i, n, b);
    if b < n.len() {
        lemma_digit_shift(s, i, n, b + 1);
        lemma_skip_digits_shift(s, i, n, b + 1);
    }
    let c = json::fraction_end(n, b)->Ok_0;
    assert(json::fraction_end(s, i + b) == Ok::<int, Seq<char>>(i + c));
    lemma_digit_shift(s, i, n, c);
    if c < n.len() {
        lemma_digit_shift(s, i, n, c + 1);
        lemma_skip_digits_shift(s, i, n, c + 1);
        if c + 1 < n.len() {
            lemma_digit_shift(s, i, n, c + 2);
            lemma_skip_digits_shift(s, i, n, c + 2);
        }
    }
}

/// The decimal spelling of a number is a JSON number.
pub proof fn lemma_decimal_is_number(n: nat)
    ensures
        is_number(text::decimal_text(n)),
{
    let s = text::decimal_text(n);
    text::lemma_decimal_text_shape(n);
    assert(text::is_digit(s[0]));
    lemma_all_digits(s, 0);
}

/// The spelling of a signed number is a JSON number.
pub proof fn lemma_signed_is_number(i: int)
    ensures
        is_number(text::signed_text(i)),
{
    if i < 0 {
        let d = text::decimal_text((-i) as nat);
        let s = text::signed_text(i);
        text::lemma_decimal_text_shape((-i) as nat);
        assert forall|k: int| 1 <= k < s.len() implies text::is_digit(#[trigger] s[k]) by {
            assert(s[k] == d[k - 1]);
        }
        lemma_all_digits(s, 1);
    } else {
        lemma_decimal_is_number(i as nat);
    }
}

proof fn lemma_all_digits(s: Seq<char>, i: int)
    requires
        0 <= i <= s.len(),
        forall|k: int| i <= k < s.len() ==> text::is_digit(#[trigger] s[k]),
    ensures
        json::skip_digits(s, i) == s.len(),
    decreases s.len() - i,
{
    if i < s.len() {
        lemma_all_digits(s, i + 1);
    }
}

// ---------------------------------------------------------------------------
// Arrays, objects and whole values

proof fn lemma_joined_first(pieces: Seq<Seq<char>>)
    requires
        pieces.len() > 1,
    ensures
        json::comma_joined(pieces) == pieces[0] + seq![','] + json::comma_joined(pieces.drop_first()),
    decreases pieces.len(),
{
    let tail = pieces.drop_first();
    if pieces.len() == 2 {
        assert(pieces.drop_last().len() == 1);
        assert(json::comma_joined(pieces.drop_last()) == pieces[0]);
        assert(json::comma_joined(tail) == pieces[1]);
    } else {
        lemma_joined_first(pieces.drop_last());
        assert(pieces.drop_last().drop_first() =~= tail.drop_last());
        assert(json::comma_joined(pieces) =~= pieces[0] + seq![','] + (json::comma_joined(tail.drop_last())
            + seq![','] + tail.last()));
    }
}

proof fn lemma_each_sound_at(list: Seq<Json>, depth: nat, k: int)
    requires
        each_sound(list, depth),
        0 <= k < list.len(),
    ensures
        is_sound(list[k], depth),
    decreases list.len(),
{
    if k < list.len() - 1 {
        lemma_each_sound_at(list.drop_last(), depth, k);
    }
}

proof fn lemma_fields_sound_at(fields: Seq<(Seq<char>, Json)>, depth: nat, k: int)
    requires
        fields_sound(fields, depth),
        0 <= k < fields.len(),
    ensures
        is_sound(fields[k].1, depth),
    decreases fields.len(),
{
    if k < fields.len() - 1 {
        lemma_fields_sound_at(fields.drop_last(), depth, k);
    }
}

/// The text of the elements from the `k`-th on, with the closing bracket.
spec fn elements_text(list: Seq<Json>, k: int) -> Seq<char> {
    json::comma_joined(json::encoded_each(list).skip(k)) + seq![']']
}

/// The text of the fields from the `k`-th on, with the closing bracket.
spec fn members_text(fields: Seq<(Seq<char>, Json)>, k: int) -> Seq<char> {
    json::comma_joined(json::encoded_fields(fields).skip(k)) + seq!['}']
}

/// What the first piece of a joined tail is, and what follows it.
proof fn lemma_tail_text(pieces: Seq<Seq<char>>, k: int, close: char)
    requires
        0 <= k < pieces.len(),
    ensures
        json::comma_joined(pieces.skip(k)) + seq![close] == pieces[k] + (if k + 1 < pieces.len() {
            seq![','] + (json::comma_joined(pieces.skip(k + 1)) + seq![close])
        } else {
            seq![close]
        }),
{
    let rest = pieces.skip(k);
    if k + 1 < pieces.len() {
        lemma_joined_first(rest);
        assert(rest.drop_first() =~= pieces.skip(k + 1));
        assert(json::comma_joined(rest) + seq![close] =~= pieces[k] + (seq![','] + (json::comma_joined(
            pieces.skip(k + 1),
        ) + seq![close])));
    } else {
        assert(rest.len() == 1);
        assert(json::comma_joined(rest) == pieces[k]);
    }
}

proof fn lemma_first_char(value: Json, depth: nat)
    requires
        is_sound(value, depth),
    ensures
        json::encoded(value).len() > 0,
        match value {
            Json::Null => json::encoded(value)[0] == 'n',
            Json::Bool(true) => json::encoded(value)[0] == 't',
            Json::Bool(false) => json::encoded(value)[0] == 'f',
            Json::Number(n) => json::encoded(value)[0] == '-' || text::is_digit(json::encoded(value)[0]),
            Json::Str(_) => json::encoded(value)[0] == '"',
            Json::Array(_) => json::encoded(value)[0] == '[',
            Json::Object(_) => json::encoded(value)[0] == '{',
        },
{
    reveal_strlit("null");
    reveal_strlit("true");
    reveal_strlit("false");
    if let Json::Number(n) = value {
        assert(n.subrange(0, 0 + n.len() as int) =~= n);
        assert(ends_value(n, n.len() as int));
        lemma_read_number(n, 0, n);
    }
}

proof fn lemma_no_space(s: Seq<char>, i: int)
    requires
        0 <= i < s.len(),
        !json::is_json_space(s[i]),
    ensures
        json::skip_space(s, i) == i,
{
}

/// The reader reads a value that the writer wrote, wherever it stands.
proof fn lemma_read_value(s: Seq<char>, i: int, value: Json, depth: nat)
    requires
        is_sound(value, depth),
        stands_at(s, i, json::encoded(value)),
        ends_value(s, i + json::encoded(value).len()),
    ensures
        json::value_at(s, i, depth) == Ok::<(Json, int), Seq<char>>(
            (canonical(value), i + json::encoded(value).len()),
        ),
    decreases value, 1int,
{
    lemma_first_char(value, depth);
    lemma_stands_char(s, i, json::encoded(value), 0);
    lemma_no_space(s, i);
    match value {
        Json::Null => {
            reveal_strlit("null");
        },
        Json::Bool(b) => {
            reveal_strlit("true");
            reveal_strlit("false");
        },
        Json::Number(n) => {
            lemma_read_number(s, i, n);
            assert(s.subrange(i, i + n.len()) == n);
        },
        Json::Str(t) => {
            lemma_read_string(s, i, t);
        },
        Json::Array(list) => {
            let pieces = json::encoded_each(list);
            assert(json::encoded(value) =~= seq!['['] + elements_text(list, 0)) by {
                assert(pieces.skip(0) =~= pieces);
            }
            lemma_stands_split(s, i, seq!['['], elements_text(list, 0));
            json::lemma_encoded_each(list);
            if list.len() == 0 {
                assert(elements_text(list, 0) =~= seq![']']);
                lemma_stands_char(s, i + 1, seq![']'], 0);
                lemma_no_space(s, i + 1);
                assert(canonical_each(list) =~= Seq::<Json>::empty());
            } else {
                lemma_each_sound_at(list, depth + 1, 0);
                lemma_first_char(list[0], depth + 1);
                lemma_tail_text(pieces, 0, ']');
                lemma_stands_char(s, i + 1, elements_text(list, 0), 0);
                assert(elements_text(list, 0)[0] == json::encoded(list[0])[0]);
                lemma_no_space(s, i + 1);
                lemma_read_elements(s, i + 1, list, 0, depth + 1);
                assert(canonical_each(list.take(0)) =~= Seq::<Json>::empty());
            }
        },
        Json::Object(fields) => {
            let pieces = json::encoded_fields(fields);
            assert(json::encoded(value) =~= seq!['{'] + members_text(fields, 0)) by {
                assert(pieces.skip(0) =~= pieces);
            }
            lemma_stands_split(s, i, seq!['{'], members_text(fields, 0));
            json::lemma_encoded_fields(fields);
            if fields.len() == 0 {
                assert(members_text(fields, 0) =~= seq!['}']);
                lemma_stands_char(s, i + 1, seq!['}'], 0);
                lemma_no_space(s, i + 1);
                assert(canonical_fields(fields) =~= Seq::<(Seq<char>, Json)>::empty());
            } else {
                lemma_tail_text(pieces, 0, '}');
                lemma_stands_char(s, i + 1, members_text(fields, 0), 0);
                assert(pieces[0][0] == '"');
                assert(members_text(fields, 0)[0] == '"');
                lemma_no_space(s, i + 1);
                lemma_read_members(s, i + 1, fields, 0, depth + 1);
                assert(canonical_fields(fields.take(0)) =~= Seq::<(Seq<char>, Json)>::empty());
            }
        },
    }
}

proof fn lemma_read_elements(s: Seq<char>, i: int, list: Seq<Json>, k: int, depth: nat)
    requires
        0 <= k < list.len(),
        each_sound(list, depth),
        stands_at(s, i, elements_text(list, k)),
    ensures
        json::elements_at(
            s,
            i,
            depth,
            canonical_each(list.take(k)),
        ) == Ok::<(Json, int), Seq<char>>(
            (Json::Array(canonical_each(list)), i + elements_text(list, k).len()),
        ),
    decreases list, list.len() - k, 0int,
{
    let pieces = json::encoded_each(list);
    json::lemma_encoded_each(list);
    lemma_tail_text(pieces, k, ']');
    let head = json::encoded(list[k]);
    let after = if k + 1 < list.len() {
        seq![','] + elements_text(list, k + 1)
    } else {
        seq![']']
    };
    lemma_stands_split(s, i, head, after);
    let j = i + head.len();
    lemma_stands_char(s, j, after, 0);
    lemma_each_sound_at(list, depth, k);
    lemma_read_value(s, i, list[k], depth);
    lemma_no_space(s, j);
    lemma_first_char(list[k], depth);
    let done = canonical_each(list.take(k));
    assert(list.take(k + 1).drop_last() =~= list.take(k));
    assert(canonical_each(list.take(k + 1)) == done.push(canonical(list[k])));
    if k + 1 < list.len() {
        lemma_stands_split(s, j, seq![','], elements_text(list, k + 1));
        lemma_read_elements(s, j + 1, list, k + 1, depth);
    } else {
        assert(list.take(k + 1) =~= list);
    }
}

proof fn lemma_read_members(
    s: Seq<char>,
    i: int,
    fields: Seq<(Seq<char>, Json)>,
    k: int,
    depth: nat,
)
    requires
        0 <= k < fields.len(),
        fields_sound(fields, depth),
        stands_at(s, i, members_text(fields, k)),
    ensures
        json::members_at(
            s,
            i,
            depth,
            canonical_fields(fields.take(k)),
        ) == Ok::<(Json, int), Seq<char>>(
            (Json::Object(canonical_fields(fields)), i + members_text(fields, k).len()),
        ),
    decreases fields, fields.len() - k, 0int,
{
    let pieces = json::encoded_fields(fields);
    json::lemma_encoded_fields(fields);
    lemma_tail_text(pieces, k, '}');
    let (key, value) = fields[k];
    let head = json::field_text(key, json::encoded(value));
    let after = if k + 1 < fields.len() {
        seq![','] + members_text(fields, k + 1)
    } else {
        seq!['}']
    };
    lemma_stands_split(s, i, head, after);
    assert(head =~= json::quoted(key) + (seq![':'] + json::encoded(value)));
    lemma_stands_split(s, i, json::quoted(key), seq![':'] + json::encoded(value));
    let b = i + json::quoted(key).len();
    lemma_stands_split(s, b, seq![':'], json::encoded(value));
    lemma_stands_char(s, i, json::quoted(key), 0);
    lemma_no_space(s, i);
    lemma_read_string(s, i, key);
    lemma_stands_char(s, b, seq![':'], 0);
    lemma_no_space(s, b);
    let j = i + head.len();
    lemma_stands_char(s, j, after, 0);
    lemma_fields_sound_at(fields, depth, k);
    lemma_read_value(s, b + 1, value, depth);
    lemma_no_space(s, j);
    let done = canonical_fields(fields.take(k));
    assert(fields.take(k + 1).drop_last() =~= fields.take(k));
    assert(canonical_fields(fields.take(k + 1)) == textmap::entries_insert(done, key, canonical(value)));
    if k + 1 < fields.len() {
        lemma_stands_split(s, j, seq![','], members_text(fields, k + 1));
        lemma_read_members(s, j + 1, fields, k + 1, depth);
    } else {
        assert(fields.take(k + 1) =~= fields);
    }
}

/// Reading the compact text of a value gives the value back, its fields in order.
pub proof fn law_json_round_trip(value: Json)
    requires
        is_sound(value, 0),
    ensures
        json::json_in(json::encoded(value)) == Ok::<Json, Seq<char>>(canonical(value)),
{
    let s = json::encoded(value);
    assert(s.subrange(0, 0 + s.len() as int) =~= s);
    lemma_read_value(s, 0, value, 0);
}

} // verus!
