//! Lists of texts: splitting, joining, filtering and sorting.

use crate::text::{chars_of, comes_before, contains_text, copy_text, text_eq, text_of_range};
use crate::text;
use vstd::prelude::*;

verus! {

// ---------------------------------------------------------------------------
// Splitting and joining

/// The pieces of a text between the occurrences of a character.
pub fn split_text(text: &str, c: char) -> (result: Vec<String>)
    ensures
        text::texts(result@) == text::split_all(text@, c),
{
    let chars = chars_of(text);
    let mut result: Vec<String> = Vec::new();
    let mut from: usize = 0;
    let mut end: usize = 0;
    assert(text@.skip(0) =~= text@);
    assert(text::texts(result@) + text::split_all(text@, c) =~= text::split_all(text@, c));
    while end < chars.len()
        invariant
            chars@ == text@,
            from <= end <= chars@.len(),
            forall|k: int| from <= k < end ==> text@[k] != c,
            text::texts(result@) + text::split_all(text@.skip(from as int), c) == text::split_all(text@, c),
        decreases chars@.len() - end,
    {
        if chars[end] == c {
            let ghost rest = text@.skip(from as int);
            let piece = text_of_range(&chars, from, end);
            let ghost before = text::texts(result@);
            proof {
                text::lemma_first_index(rest, c);
                let i = text::first_index(rest, c);
                if i < end - from {
                    assert(rest[i] == text@[from + i]);
                }
                if i > end - from {
                    assert(rest[end - from] == c);
                }
                assert(piece@ =~= rest.take(end - from));
                assert(rest.skip(end - from + 1) =~= text@.skip(end + 1));
            }
            result.push(piece);
            assert(text::texts(result@) =~= before.push(result@.last()@));
            assert(text::texts(result@) + text::split_all(text@.skip(end + 1), c) =~= before + (seq![
                result@.last()@,
            ] + text::split_all(text@.skip(end + 1), c)));
            from = end + 1;
        }
        end = end + 1;
    }
    let ghost rest = text@.skip(from as int);
    let piece = text_of_range(&chars, from, end);
    let ghost before = text::texts(result@);
    proof {
        text::lemma_first_index(rest, c);
        let i = text::first_index(rest, c);
        if 0 <= i < rest.len() {
            assert(rest[i] == text@[from + i]);
        }
        assert(piece@ =~= rest);
    }
    result.push(piece);
    assert(text::texts(result@) =~= before + seq![result@.last()@]);
    result
}

/// The texts of a list with a separator between them.
pub open spec fn joined_by(list: Seq<Seq<char>>, separator: Seq<char>) -> Seq<char>
    decreases list.len(),
{
    if list.len() == 0 {
        Seq::empty()
    } else if list.len() == 1 {
        list[0]
    } else {
        joined_by(list.drop_last(), separator) + separator + list.last()
    }
}

/// Joins the texts of a list with a separator between them.
pub fn join_texts(list: &Vec<String>, separator: &str) -> (result: String)
    ensures
        result@ == joined_by(text::texts(list@), separator@),
{
    let ghost all = text::texts(list@);
    let mut result = String::new();
    let mut i: usize = 0;
    assert(result@ =~= Seq::<char>::empty());
    while i < list.len()
        invariant
            i <= list@.len(),
            all == text::texts(list@),
            result@ == joined_by(all.take(i as int), separator@),
        decreases list@.len() - i,
    {
        assert(all.take(i + 1).drop_last() =~= all.take(i as int));
        assert(all.take(i + 1).last() == list@[i as int]@);
        if i > 0 {
            result.append(separator);
        } else {
            assert(all.take(1)[0] == all[0]);
            assert(result@ + list@[0]@ =~= list@[0]@);
        }
        result.append(list[i].as_str());
        i = i + 1;
    }
    assert(all.take(i as int) =~= all);
    result
}

/// The texts of a list, a line each.
pub open spec fn lines_text(list: Seq<Seq<char>>) -> Seq<char>
    decreases list.len(),
{
    if list.len() == 0 {
        Seq::empty()
    } else {
        lines_text(list.drop_last()) + list.last() + "\n"@
    }
}

/// Writes the texts of a list, a line each.
pub fn text_of_lines(list: &Vec<String>) -> (result: String)
    ensures
        result@ == lines_text(text::texts(list@)),
{
    let ghost all = text::texts(list@);
    let mut result = String::new();
    let mut i: usize = 0;
    assert(result@ =~= Seq::<char>::empty());
    while i < list.len()
        invariant
            i <= list@.len(),
            all == text::texts(list@),
            result@ == lines_text(all.take(i as int)),
        decreases list@.len() - i,
    {
        assert(all.take(i + 1).drop_last() =~= all.take(i as int));
        assert(all.take(i + 1).last() == list@[i as int]@);
        result.append(list[i].as_str());
        result.append("\n");
        i = i + 1;
    }
    assert(all.take(i as int) =~= all);
    result
}

/// Whether a text can stand on a line of its own.
pub open spec fn is_line(text: Seq<char>) -> bool {
    &&& forall|i: int| 0 <= i < text.len() ==> #[trigger] text[i] != '\n'
    &&& text.len() == 0 || text.last() != '\r'
}

/// What is written a line each is read back line by line.
pub proof fn law_lines_round_trip(list: Seq<Seq<char>>)
    requires
        forall|i: int| 0 <= i < list.len() ==> is_line(#[trigger] list[i]),
    ensures
        text::lines_of(lines_text(list)) == list,
    decreases list.len(),
{
    if list.len() > 0 {
        let first = list[0];
        let rest = list.drop_first();
        assert forall|i: int| 0 <= i < rest.len() implies is_line(#[trigger] rest[i]) by {
            assert(rest[i] == list[i + 1]);
        }
        law_lines_round_trip(rest);
        lemma_lines_text_first(list);
        reveal_strlit("\n");
        let text = lines_text(list);
        assert(text =~= first + "\n"@ + lines_text(rest));
        let n = first.len() as int;
        assert(text[n] == '\n');
        text::lemma_first_index(text, '\n');
        let i = text::first_index(text, '\n');
        if i < n {
            assert(text[i] == first[i]);
        }
        assert(i == n);
        assert(text.take(n) =~= first);
        assert(text.skip(n + 1) =~= lines_text(rest));
        assert(list =~= seq![first] + rest);
    }
}

proof fn lemma_lines_text_first(list: Seq<Seq<char>>)
    requires
        list.len() > 0,
    ensures
        lines_text(list) == list[0] + "\n"@ + lines_text(list.drop_first()),
    decreases list.len(),
{
    if list.len() == 1 {
        assert(list.drop_last() =~= Seq::<Seq<char>>::empty());
        assert(list.drop_first() =~= Seq::<Seq<char>>::empty());
        assert(lines_text(list.drop_last()) =~= Seq::<char>::empty());
        assert(lines_text(list.drop_first()) =~= Seq::<char>::empty());
        assert(list.last() == list[0]);
        assert(lines_text(list) == lines_text(list.drop_last()) + list.last() + "\n"@);
    } else {
        lemma_lines_text_first(list.drop_last());
        assert(list.drop_last().drop_first() =~= list.drop_first().drop_last());
        assert(list.drop_first().last() == list.last());
    }
    assert(lines_text(list) =~= list[0] + "\n"@ + lines_text(list.drop_first()));
}

proof fn lemma_joined_first(list: Seq<Seq<char>>, separator: Seq<char>)
    requires
        list.len() > 1,
    ensures
        joined_by(list, separator) == list[0] + separator + joined_by(
            list.drop_first(),
            separator,
        ),
    decreases list.len(),
{
    if list.len() == 2 {
        assert(joined_by(list.drop_last(), separator) == list[0]);
        assert(joined_by(list.drop_first(), separator) == list[1]);
    } else {
        lemma_joined_first(list.drop_last(), separator);
        assert(list.drop_last().drop_first() =~= list.drop_first().drop_last());
        assert(list.drop_first().last() == list.last());
    }
    assert(joined_by(list, separator) =~= list[0] + separator + joined_by(
        list.drop_first(),
        separator,
    ));
}

/// What is joined with a character is split back at that character, where no text of the
/// list holds it.
pub proof fn law_join_round_trip(list: Seq<Seq<char>>, c: char)
    requires
        list.len() > 0,
        forall|i: int, k: int|
            0 <= i < list.len() && 0 <= k < list[i].len() ==> #[trigger] list[i][k] != c,
    ensures
        text::split_all(joined_by(list, seq![c]), c) == list,
    decreases list.len(),
{
    let text = joined_by(list, seq![c]);
    let first = list[0];
    text::lemma_first_index(text, c);
    let i = text::first_index(text, c);
    if list.len() == 1 {
        if 0 <= i < text.len() {
            assert(list[0][i] != c);
        }
        assert(list =~= seq![first]);
    } else {
        let rest = list.drop_first();
        assert forall|j: int, k: int| 0 <= j < rest.len() && 0 <= k < rest[j].len() implies
            #[trigger] rest[j][k] != c by {
            assert(list[j + 1][k] != c);
        }
        lemma_joined_first(list, seq![c]);
        law_join_round_trip(rest, c);
        let n = first.len() as int;
        assert(text[n] == c);
        if i < n {
            assert(text[i] == first[i]);
            assert(list[0][i] != c);
        }
        assert(i == n);
        assert(text.take(n) =~= first);
        assert(text.skip(n + 1) =~= joined_by(rest, seq![c]));
        assert(list =~= seq![first] + rest);
    }
}

// ---------------------------------------------------------------------------
// Filtering

/// The texts of a list that two other lists hold.
pub open spec fn held_by_both(
    list: Seq<Seq<char>>,
    first: Seq<Seq<char>>,
    second: Seq<Seq<char>>,
) -> Seq<Seq<char>> {
    list.filter(|text: Seq<char>| first.contains(text) && second.contains(text))
}

/// Keeps the texts of a list that two other lists hold.
pub fn keep_held_by_both(list: &Vec<String>, first: &Vec<String>, second: &Vec<String>) -> (result:
    Vec<String>)
    ensures
        text::texts(result@) == held_by_both(
            text::texts(list@),
            text::texts(first@),
            text::texts(second@),
        ),
{
    let ghost all = text::texts(list@);
    let ghost a = text::texts(first@);
    let ghost b = text::texts(second@);
    let mut result: Vec<String> = Vec::new();
    let mut i: usize = 0;
    proof {
        reveal(Seq::filter);
        assert(all.take(0) =~= Seq::<Seq<char>>::empty());
        assert(text::texts(result@) =~= held_by_both(all.take(0), a, b));
    }
    while i < list.len()
        invariant
            i <= list@.len(),
            all == text::texts(list@),
            a == text::texts(first@),
            b == text::texts(second@),
            text::texts(result@) == held_by_both(all.take(i as int), a, b),
        decreases list@.len() - i,
    {
        proof {
            reveal(Seq::filter);
            assert(all.take(i + 1).drop_last() =~= all.take(i as int));
            assert(all.take(i + 1).last() == list@[i as int]@);
        }
        if contains_text(first, list[i].as_str()) && contains_text(second, list[i].as_str()) {
            let ghost before = result@;
            result.push(copy_text(list[i].as_str()));
            assert(text::texts(result@) =~= text::texts(before).push(list@[i as int]@));
        }
        i = i + 1;
    }
    assert(all.take(i as int) =~= all);
    result
}

/// The texts of a list that another list does not hold.
pub open spec fn not_held_by(list: Seq<Seq<char>>, other: Seq<Seq<char>>) -> Seq<Seq<char>> {
    list.filter(|text: Seq<char>| !other.contains(text))
}

/// Keeps the texts of a list that another list does not hold.
pub fn keep_not_held_by(list: &Vec<String>, other: &Vec<String>) -> (result: Vec<String>)
    ensures
        text::texts(result@) == not_held_by(text::texts(list@), text::texts(other@)),
{
    let ghost all = text::texts(list@);
    let ghost b = text::texts(other@);
    let mut result: Vec<String> = Vec::new();
    let mut i: usize = 0;
    proof {
        reveal(Seq::filter);
        assert(all.take(0) =~= Seq::<Seq<char>>::empty());
        assert(text::texts(result@) =~= not_held_by(all.take(0), b));
    }
    while i < list.len()
        invariant
            i <= list@.len(),
            all == text::texts(list@),
            b == text::texts(other@),
            text::texts(result@) == not_held_by(all.take(i as int), b),
        decreases list@.len() - i,
    {
        proof {
            reveal(Seq::filter);
            assert(all.take(i + 1).drop_last() =~= all.take(i as int));
            assert(all.take(i + 1).last() == list@[i as int]@);
        }
        if !contains_text(other, list[i].as_str()) {
            let ghost before = result@;
            result.push(copy_text(list[i].as_str()));
            assert(text::texts(result@) =~= text::texts(before).push(list@[i as int]@));
        }
        i = i + 1;
    }
    assert(all.take(i as int) =~= all);
    result
}

/// A list without a text.
pub open spec fn without(list: Seq<Seq<char>>, text: Seq<char>) -> Seq<Seq<char>> {
    not_held_by(list, seq![text])
}

/// Takes a text out of a list.
pub fn drop_text(list: &Vec<String>, text: &str) -> (result: Vec<String>)
    ensures
        text::texts(result@) == without(text::texts(list@), text@),
{
    let mut other: Vec<String> = Vec::new();
    other.push(copy_text(text));
    assert(text::texts(other@) =~= seq![text@]);
    keep_not_held_by(list, &other)
}

/// What a filter keeps stood in the list and passes.
pub proof fn lemma_filter_contains(
    list: Seq<Seq<char>>,
    keep: spec_fn(Seq<char>) -> bool,
    text: Seq<char>,
)
    ensures
        list.filter(keep).contains(text) == (list.contains(text) && keep(text)),
    decreases list.len(),
{
    reveal(Seq::filter);
    if list.len() > 0 {
        let head = list.drop_last();
        lemma_filter_contains(head, keep, text);
        assert(list =~= head.push(list.last()));
        lemma_push_contains(head, list.last(), text);
        lemma_push_contains(head.filter(keep), list.last(), text);
    }
}

/// A text is in a longer list where it is the new text or was there.
pub proof fn lemma_push_contains(list: Seq<Seq<char>>, new: Seq<char>, text: Seq<char>)
    ensures
        list.push(new).contains(text) == (list.contains(text) || text == new),
{
    let longer = list.push(new);
    if list.contains(text) {
        let i = choose|i: int| 0 <= i < list.len() && list[i] == text;
        assert(longer[i] == text);
    }
    if text == new {
        assert(longer[list.len() as int] == text);
    }
    if longer.contains(text) {
        let i = choose|i: int| 0 <= i < longer.len() && longer[i] == text;
        if i < list.len() {
            assert(list[i] == text);
        }
    }
}

// ---------------------------------------------------------------------------
// Sorting

/// Whether a list is sorted, each text once.
pub open spec fn ascending(list: Seq<Seq<char>>) -> bool {
    forall|i: int, j: int|
        0 <= i < j < list.len() ==> text::text_before(#[trigger] list[i], #[trigger] list[j])
}

/// A sorted list with a text put in its place, if it is not there.
pub open spec fn placed_in(list: Seq<Seq<char>>, text: Seq<char>) -> Seq<Seq<char>>
    decreases list.len(),
{
    if list.len() == 0 {
        seq![text]
    } else if list.last() == text {
        list
    } else if text::text_before(list.last(), text) {
        list.push(text)
    } else {
        placed_in(list.drop_last(), text).push(list.last())
    }
}

/// The texts of a list in order, each once.
pub open spec fn sorted_unique(list: Seq<Seq<char>>) -> Seq<Seq<char>>
    decreases list.len(),
{
    if list.len() == 0 {
        Seq::empty()
    } else {
        placed_in(sorted_unique(list.drop_last()), list.last())
    }
}

/// Putting a text in its place keeps a list sorted, and adds that text alone.
pub proof fn lemma_placed_in(list: Seq<Seq<char>>, text: Seq<char>)
    requires
        ascending(list),
    ensures
        ascending(placed_in(list, text)),
        forall|other: Seq<char>| #[trigger]
            placed_in(list, text).contains(other) == (list.contains(other) || other == text),
    decreases list.len(),
{
    let result = placed_in(list, text);
    if list.len() == 0 {
        assert(result[0] == text);
    } else if list.last() == text {
        assert(list[list.len() - 1] == text);
    } else if text::text_before(list.last(), text) {
        assert forall|other: Seq<char>| #[trigger] result.contains(other) == (list.contains(other)
            || other == text) by {
            lemma_push_contains(list, text, other);
        }
        assert forall|i: int, j: int| 0 <= i < j < result.len() implies text::text_before(
            #[trigger] result[i],
            #[trigger] result[j],
        ) by {
            if j == list.len() && i < list.len() - 1 {
                assert(text::text_before(list[i], list[list.len() - 1]));
                text::lemma_text_before_transitive(list[i], list.last(), text);
            }
        }
    } else {
        let head = list.drop_last();
        let inner = placed_in(head, text);
        assert(ascending(head));
        lemma_placed_in(head, text);
        assert(list =~= head.push(list.last()));
        assert forall|other: Seq<char>| #[trigger] result.contains(other) == (list.contains(other)
            || other == text) by {
            lemma_push_contains(inner, list.last(), other);
            lemma_push_contains(head, list.last(), other);
            assert(inner.contains(other) == (head.contains(other) || other == text));
        }
        text::lemma_text_before_total(list.last(), text);
        assert forall|i: int, j: int| 0 <= i < j < result.len() implies text::text_before(
            #[trigger] result[i],
            #[trigger] result[j],
        ) by {
            if j == inner.len() {
                assert(inner.contains(inner[i]));
                if inner[i] != text {
                    let k = choose|k: int| 0 <= k < head.len() && head[k] == inner[i];
                    assert(text::text_before(list[k], list[list.len() - 1]));
                }
            }
        }
    }
}

/// Sorting gives a sorted list of the same texts.
pub proof fn lemma_sorted_unique(list: Seq<Seq<char>>)
    ensures
        ascending(sorted_unique(list)),
        forall|text: Seq<char>| #[trigger]
            sorted_unique(list).contains(text) == list.contains(text),
    decreases list.len(),
{
    if list.len() > 0 {
        let head = list.drop_last();
        lemma_sorted_unique(head);
        lemma_placed_in(sorted_unique(head), list.last());
        assert(list =~= head.push(list.last()));
        assert forall|text: Seq<char>| #[trigger] sorted_unique(list).contains(text)
            == list.contains(text) by {
            lemma_push_contains(head, list.last(), text);
            assert(sorted_unique(head).contains(text) == head.contains(text));
        }
    }
}

/// A sorted list holds each text once.
pub proof fn lemma_ascending_distinct(list: Seq<Seq<char>>)
    requires
        ascending(list),
    ensures
        list.no_duplicates(),
{
    assert forall|i: int, j: int| 0 <= i < list.len() && 0 <= j < list.len() && i != j implies
        list[i] != list[j] by {
        if i < j {
            assert(text::text_before(list[i], list[j]));
            text::lemma_text_before_irreflexive(list[i]);
        } else {
            assert(text::text_before(list[j], list[i]));
            text::lemma_text_before_irreflexive(list[i]);
        }
    }
}

/// Puts a text in its place in a sorted list, if it is not there.
pub fn place_text(list: &mut Vec<String>, text: &str)
    ensures
        text::texts(final(list)@) == placed_in(text::texts(old(list)@), text@),
{
    let ghost all = text::texts(list@);
    let mut n: usize = list.len();
    assert(all.take(n as int) =~= all);
    assert(all.skip(n as int) =~= Seq::<Seq<char>>::empty());
    while n > 0
        invariant
            n <= list@.len(),
            list@ == old(list)@,
            all == text::texts(list@),
            placed_in(all, text@) == placed_in(all.take(n as int), text@) + all.skip(n as int),
        decreases n,
    {
        let ghost head = all.take(n as int);
        assert(head.last() == list@[n - 1]@);
        assert(head.drop_last() =~= all.take(n - 1));
        if text_eq(list[n - 1].as_str(), text) {
            assert(all.take(n as int) + all.skip(n as int) =~= all);
            return;
        }
        if comes_before(list[n - 1].as_str(), text) {
            list.insert(n, copy_text(text));
            assert(text::texts(list@) =~= head.push(text@) + all.skip(n as int));
            return;
        }
        assert(placed_in(head.drop_last(), text@).push(head.last()) + all.skip(n as int)
            =~= placed_in(all.take(n - 1), text@) + all.skip(n - 1));
        n = n - 1;
    }
    list.insert(0, copy_text(text));
    assert(text::texts(list@) =~= seq![text@] + all.skip(0));
}

/// Sorts the texts of a list, each once.
pub fn sort_unique(list: &Vec<String>) -> (result: Vec<String>)
    ensures
        text::texts(result@) == sorted_unique(text::texts(list@)),
{
    let ghost all = text::texts(list@);
    let mut result: Vec<String> = Vec::new();
    let mut i: usize = 0;
    assert(all.take(0) =~= Seq::<Seq<char>>::empty());
    assert(text::texts(result@) =~= Seq::<Seq<char>>::empty());
    while i < list.len()
        invariant
            i <= list@.len(),
            all == text::texts(list@),
            text::texts(result@) == sorted_unique(all.take(i as int)),
        decreases list@.len() - i,
    {
        assert(all.take(i + 1).drop_last() =~= all.take(i as int));
        assert(all.take(i + 1).last() == list@[i as int]@);
        place_text(&mut result, list[i].as_str());
        i = i + 1;
    }
    assert(all.take(i as int) =~= all);
    result
}

} // verus!
