//! What a report is written as can be read back.

use crate::json::Json;
use crate::report::FailureView;
use crate::json;
use crate::json_law;
use crate::report;
use crate::text;
use crate::textlist;
use vstd::prelude::*;

verus! {

// ---------------------------------------------------------------------------
// JSON strings

proof fn lemma_escaped_first(s: Seq<char>)
    requires
        s.len() > 0,
    ensures
        report::escaped_all(s) == report::escaped(s[0]) + report::escaped_all(s.drop_first()),
    decreases s.len(),
{
    if s.len() == 1 {
        assert(s.drop_last() =~= Seq::<char>::empty());
        assert(s.drop_first() =~= Seq::<char>::empty());
    } else {
        lemma_escaped_first(s.drop_last());
        assert(s.drop_first().drop_last() =~= s.drop_last().drop_first());
    }
    assert(report::escaped_all(s) =~= report::escaped(s[0]) + report::escaped_all(
        s.drop_first(),
    ));
}

/// A character of a JSON string is read back as it was meant.
proof fn lemma_read_escaped(s: Seq<char>, i: int, c: char, done: Seq<char>)
    requires
        json_law::stands_at(s, i, report::escaped(c)),
    ensures
        json::string_rest(s, i, done) == json::string_rest(
            s,
            i + report::escaped(c).len(),
            done.push(c),
        ),
        report::escaped(c).len() > 0,
{
    reveal_strlit("\\\"");
    reveal_strlit("\\\\");
    reveal_strlit("\\n");
    reveal_strlit("\\r");
    reveal_strlit("\\t");
    reveal_strlit("\\u");
    let plain = c == '"' || c == '\\' || c == '\n' || c == '\r' || c == '\t'
        || !report::is_control(c);
    if plain {
        assert(report::escaped(c) =~= json::escaped_char(c));
        json_law::lemma_read_escaped_char(s, i, c, done);
    } else {
        assert("\\u"@ =~= seq!['\\', 'u']);
        json_law::lemma_read_code(s, i, c, done);
    }
}

proof fn lemma_read_rest(s: Seq<char>, i: int, text: Seq<char>, done: Seq<char>)
    requires
        json_law::stands_at(s, i, report::escaped_all(text) + seq!['"']),
    ensures
        json::string_rest(s, i, done) == Ok::<(Seq<char>, int), Seq<char>>(
            (done + text, i + report::escaped_all(text).len() + 1),
        ),
    decreases text.len(),
{
    if text.len() == 0 {
        json_law::lemma_stands_split(s, i, report::escaped_all(text), seq!['"']);
        json_law::lemma_stands_char(s, i, seq!['"'], 0);
        assert(done + text =~= done);
    } else {
        lemma_escaped_first(text);
        let head = report::escaped(text[0]);
        let tail = text.drop_first();
        assert(report::escaped_all(text) + seq!['"'] =~= head + (report::escaped_all(tail)
            + seq!['"']));
        json_law::lemma_stands_split(s, i, head, report::escaped_all(tail) + seq!['"']);
        lemma_read_escaped(s, i, text[0], done);
        lemma_read_rest(s, i + head.len(), tail, done.push(text[0]));
        assert(done.push(text[0]) + tail =~= done + text);
    }
}

/// A text that a report quotes is read back from the JSON string.
pub proof fn law_json_string_round_trip(text: Seq<char>)
    ensures
        json::json_in(report::quoted_text(text)) == Ok::<Json, Seq<char>>(Json::Str(text)),
{
    reveal_strlit("\"");
    let s = report::quoted_text(text);
    assert("\""@ =~= seq!['"']);
    assert(s =~= seq!['"'] + (report::escaped_all(text) + seq!['"']));
    assert(s.subrange(1, s.len() as int) =~= report::escaped_all(text) + seq!['"']);
    assert(s[0] == '"');
    lemma_read_rest(s, 1, text, Seq::empty());
    assert(Seq::<char>::empty() + text =~= text);
    assert(json::skip_space(s, 0) == 0);
    assert(json::string_at(s, 0) == Ok::<(Seq<char>, int), Seq<char>>((text, s.len() as int)));
    assert(json::skip_space(s, s.len() as int) == s.len());
}

// ---------------------------------------------------------------------------
// The log of failures

/// A failure as the log keeps it: each field on one line, and without tabs.
pub open spec fn as_kept(failure: FailureView) -> FailureView {
    FailureView {
        kind: report::on_one_line(failure.kind),
        item: report::on_one_line(failure.item),
        message: report::on_one_line(failure.message),
    }
}

proof fn lemma_kept_line(failure: FailureView)
    ensures
        textlist::is_line(report::failure_line(failure)),
        report::failure_in(report::failure_line(failure)) == as_kept(failure),
{
    reveal_strlit("\t");
    let kept = as_kept(failure);
    let line = report::failure_line(failure);
    let rest = kept.item + "\t"@ + kept.message;
    assert(line =~= kept.kind + "\t"@ + rest);
    assert forall|i: int| 0 <= i < line.len() implies #[trigger] line[i] != '\n' && line[i]
        != '\r' by {
        if i < kept.kind.len() {
            assert(line[i] == kept.kind[i]);
        } else if i > kept.kind.len() {
            let j = i - kept.kind.len() - 1;
            assert(line[i] == rest[j]);
            if j < kept.item.len() {
                assert(rest[j] == kept.item[j]);
            } else if j > kept.item.len() {
                assert(rest[j] == kept.message[j - kept.item.len() - 1]);
            }
        }
    }
    lemma_split(kept.kind, rest);
    lemma_split(kept.item, kept.message);
}

/// A field without tabs ends at the first tab of the line.
proof fn lemma_split(field: Seq<char>, rest: Seq<char>)
    requires
        forall|i: int| 0 <= i < field.len() ==> #[trigger] field[i] != '\t',
    ensures
        text::split_at_first(field + "\t"@ + rest, '\t') == Some((field, rest)),
{
    reveal_strlit("\t");
    let line = field + "\t"@ + rest;
    text::lemma_first_index(line, '\t');
    let i = text::first_index(line, '\t');
    let n = field.len() as int;
    assert(line[n] == '\t');
    if i < n {
        assert(line[i] == field[i]);
    }
    assert(line.take(n) =~= field);
    assert(line.skip(n + 1) =~= rest);
}

proof fn lemma_all_kept<T>(list: Seq<T>, keep: spec_fn(T) -> bool)
    requires
        forall|i: int| 0 <= i < list.len() ==> keep(#[trigger] list[i]),
    ensures
        list.filter(keep) == list,
    decreases list.len(),
{
    reveal(Seq::filter);
    if list.len() > 0 {
        let front = list.drop_last();
        assert forall|i: int| 0 <= i < front.len() implies keep(#[trigger] front[i]) by {
            assert(front[i] == list[i]);
        }
        lemma_all_kept(front, keep);
        assert(keep(list[list.len() - 1]));
        assert(front.push(list.last()) =~= list);
    }
}

/// The log of failures tells of every failure that was written to it, in order, and counts
/// them all; only the tabs and line breaks inside a field are lost.
pub proof fn law_failure_log_round_trip(failures: Seq<FailureView>)
    requires
        forall|i: int|
            0 <= i < failures.len() ==> report::is_said(
                report::failure_line(#[trigger] failures[i]),
            ),
    ensures
        report::said_lines(textlist::lines_text(report::failure_lines(failures))).len()
            == failures.len(),
        report::failures_in(textlist::lines_text(report::failure_lines(failures))) == Seq::new(
            failures.len(),
            |i: int| as_kept(failures[i]),
        ),
{
    let list = report::failure_lines(failures);
    assert forall|i: int| 0 <= i < list.len() implies textlist::is_line(#[trigger] list[i])
        && report::is_said(list[i]) && report::failure_in(list[i]) == as_kept(failures[i]) by {
        lemma_kept_line(failures[i]);
        assert(report::is_said(report::failure_line(failures[i])));
    }
    textlist::law_lines_round_trip(list);
    let keep = |line: Seq<char>| report::is_said(line);
    lemma_all_kept(list, keep);
    let content = textlist::lines_text(list);
    assert(report::said_lines(content) == list);
    assert(report::failures_in(content) =~= Seq::new(
        failures.len(),
        |i: int| as_kept(failures[i]),
    ));
}

} // verus!
