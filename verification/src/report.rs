//! Reports on the world cache: its state, what is left to make, and what went wrong.

use crate::paths::join;
use crate::text::{
    chars_of, concat2, concat3, concat4, concat5, copy_text, decimal_u32, decimal_usize,
    hex_u64, lines, push_char, split_once, text_of_bool, trim,
};
use crate::textlist::{join_texts, text_of_lines};
use crate::tiles::WorldLodCacheStatus;
use crate::world_cache::{StoredText, StoredTextView, WorldCacheStatus, WorldLodPlan};
use crate::paths;
use crate::text;
use crate::textlist;
use vstd::prelude::*;

verus! {

/// The name of the file in which failures are kept.
pub const WORLD_CACHE_FAILURE_LOG: &'static str = "last-compute-failures.tsv";

// ---------------------------------------------------------------------------
// JSON

/// Whether a character is a control character.
pub open spec fn is_control(c: char) -> bool {
    c as u32 <= 0x1f || 0x7f <= c as u32 <= 0x9f
}

/// A character as it stands in a JSON string.
pub open spec fn escaped(c: char) -> Seq<char> {
    if c == '"' {
        "\\\""@
    } else if c == '\\' {
        "\\\\"@
    } else if c == '\n' {
        "\\n"@
    } else if c == '\r' {
        "\\r"@
    } else if c == '\t' {
        "\\t"@
    } else if is_control(c) {
        "\\u"@ + text::hex_text(c as nat, 4)
    } else {
        seq![c]
    }
}

/// Characters as they stand in a JSON string.
pub open spec fn escaped_all(text: Seq<char>) -> Seq<char>
    decreases text.len(),
{
    if text.len() == 0 {
        Seq::empty()
    } else {
        escaped_all(text.drop_last()) + escaped(text.last())
    }
}

/// A text as a JSON string.
pub open spec fn quoted_text(text: Seq<char>) -> Seq<char> {
    "\""@ + escaped_all(text) + "\""@
}

fn push_escaped(text: &mut String, c: char)
    ensures
        final(text)@ == old(text)@ + escaped(c),
{
    if c == '"' {
        text.append("\\\"");
    } else if c == '\\' {
        text.append("\\\\");
    } else if c == '\n' {
        text.append("\\n");
    } else if c == '\r' {
        text.append("\\r");
    } else if c == '\t' {
        text.append("\\t");
    } else if (c as u32) <= 0x1f || (0x7f <= (c as u32) && (c as u32) <= 0x9f) {
        text.append(concat2("\\u", hex_u64(c as u64, 4).as_str()).as_str());
    } else {
        let ghost before = text@;
        push_char(text, c);
        assert(text@ =~= before + seq![c]);
    }
}

/// A text as a JSON string.
pub fn json_string(input: &str) -> (text: String)
    ensures
        text@ == quoted_text(input@),
{
    let chars = chars_of(input);
    let mut text = copy_text("\"");
    let mut i: usize = 0;
    assert(input@.take(0) =~= Seq::<char>::empty());
    assert(text@ =~= "\""@ + escaped_all(input@.take(0)));
    while i < chars.len()
        invariant
            i <= chars@.len(),
            chars@ == input@,
            text@ == "\""@ + escaped_all(input@.take(i as int)),
        decreases chars@.len() - i,
    {
        proof {
            assert(input@.take(i + 1).drop_last() =~= input@.take(i as int));
        }
        push_escaped(&mut text, chars[i]);
        assert(text@ =~= "\""@ + escaped_all(input@.take(i + 1)));
        i = i + 1;
    }
    assert(input@.take(i as int) =~= input@);
    text.append("\"");
    text
}

/// Items as a JSON list.
pub open spec fn list_json(items: Seq<Seq<char>>) -> Seq<char> {
    "["@ + textlist::joined_by(items, ","@) + "]"@
}

fn list_text(items: &Vec<String>) -> (text: String)
    ensures
        text@ == list_json(text::texts(items@)),
{
    concat3("[", join_texts(items, ",").as_str(), "]")
}

/// How much of a level is cached, in JSON.
pub open spec fn lod_json(lod: WorldLodCacheStatus) -> Seq<char> {
    "{\"lod\":"@ + text::decimal_text(lod.lod as nat) + ",\"tile_ready\":"@
        + text::decimal_text(lod.tile_ready as nat) + ",\"tile_missing\":"@
        + text::decimal_text(lod.tile_missing as nat) + "}"@
}

/// How much of a level is cached, in JSON, in a list.
pub open spec fn lods_json(list: Seq<WorldLodCacheStatus>) -> Seq<char> {
    list_json(Seq::new(list.len(), |i: int| lod_json(list[i])))
}

/// How much of a level is cached, in JSON, in a list.
pub fn encode_world_lods(list: &Vec<WorldLodCacheStatus>) -> (text: String)
    ensures
        text@ == lods_json(list@),
{
    let ghost wanted = Seq::new(list@.len(), |i: int| lod_json(list@[i]));
    let mut items: Vec<String> = Vec::new();
    let mut i: usize = 0;
    assert(text::texts(items@) =~= wanted.take(0));
    while i < list.len()
        invariant
            i <= list@.len(),
            wanted == Seq::new(list@.len(), |i: int| lod_json(list@[i])),
            text::texts(items@) == wanted.take(i as int),
        decreases list@.len() - i,
    {
        let lod = &list[i];
        let ghost before = text::texts(items@);
        let mut text = copy_text("{\"lod\":");
        text.append(decimal_usize(lod.lod).as_str());
        text.append(",\"tile_ready\":");
        text.append(decimal_usize(lod.tile_ready).as_str());
        text.append(",\"tile_missing\":");
        text.append(decimal_usize(lod.tile_missing).as_str());
        text.append("}");
        items.push(text);
        proof {
            assert(text@ == lod_json(list@[i as int]));
            assert(text::texts(items@) =~= before.push(text@));
            assert(text::texts(items@) =~= wanted.take(i + 1));
        }
        i = i + 1;
    }
    assert(wanted.take(i as int) =~= wanted);
    list_text(&items)
}

/// The plan of a level, in JSON.
pub open spec fn plan_json(lod: WorldLodPlan) -> Seq<char> {
    "{\"lod\":"@ + text::decimal_text(lod.lod as nat) + ",\"tile_count\":"@
        + text::decimal_text(lod.tile_count as nat) + ",\"tile_ready\":"@
        + text::decimal_text(lod.tile_ready as nat) + ",\"tile_missing\":"@
        + text::decimal_text(lod.tile_missing as nat) + "}"@
}

/// The plan of a level, in JSON, in a list.
pub open spec fn plans_json(list: Seq<WorldLodPlan>) -> Seq<char> {
    list_json(Seq::new(list.len(), |i: int| plan_json(list[i])))
}

/// The plan of a level, in JSON, in a list.
pub fn encode_world_lod_plans(list: &Vec<WorldLodPlan>) -> (text: String)
    ensures
        text@ == plans_json(list@),
{
    let ghost wanted = Seq::new(list@.len(), |i: int| plan_json(list@[i]));
    let mut items: Vec<String> = Vec::new();
    let mut i: usize = 0;
    assert(text::texts(items@) =~= wanted.take(0));
    while i < list.len()
        invariant
            i <= list@.len(),
            wanted == Seq::new(list@.len(), |i: int| plan_json(list@[i])),
            text::texts(items@) == wanted.take(i as int),
        decreases list@.len() - i,
    {
        let lod = &list[i];
        let ghost before = text::texts(items@);
        let mut text = copy_text("{\"lod\":");
        text.append(decimal_usize(lod.lod).as_str());
        text.append(",\"tile_count\":");
        text.append(decimal_usize(lod.tile_count).as_str());
        text.append(",\"tile_ready\":");
        text.append(decimal_usize(lod.tile_ready).as_str());
        text.append(",\"tile_missing\":");
        text.append(decimal_usize(lod.tile_missing).as_str());
        text.append("}");
        items.push(text);
        proof {
            assert(text@ == plan_json(list@[i as int]));
            assert(text::texts(items@) =~= before.push(text@));
            assert(text::texts(items@) =~= wanted.take(i + 1));
        }
        i = i + 1;
    }
    assert(wanted.take(i as int) =~= wanted);
    list_text(&items)
}

// ---------------------------------------------------------------------------
// Failures

/// A failure, as it was noted.
#[derive(Clone, Debug, PartialEq, Eq)]
pub struct WorldCacheFailureRecord {
    pub kind: String,
    pub item: String,
    pub message: String,
}

/// A failure, as a mathematical value.
pub struct FailureView {
    pub kind: Seq<char>,
    pub item: Seq<char>,
    pub message: Seq<char>,
}

impl View for WorldCacheFailureRecord {
    type V = FailureView;

    open spec fn view(&self) -> FailureView {
        FailureView { kind: self.kind@, item: self.item@, message: self.message@ }
    }
}

/// Failures, taken by their views.
pub open spec fn failure_views(list: Seq<WorldCacheFailureRecord>) -> Seq<FailureView> {
    Seq::new(list.len(), |i: int| list[i]@)
}

/// A failure, in JSON.
pub open spec fn failure_json(failure: WorldCacheFailureRecord) -> Seq<char> {
    "{\"kind\":"@ + quoted_text(failure.kind@) + ",\"item\":"@ + quoted_text(failure.item@)
        + ",\"message\":"@ + quoted_text(failure.message@) + "}"@
}

/// A failure, in JSON, in a list.
pub open spec fn failures_json(list: Seq<WorldCacheFailureRecord>) -> Seq<char> {
    list_json(Seq::new(list.len(), |i: int| failure_json(list[i])))
}

/// A failure, in JSON, in a list.
pub fn encode_world_cache_failures(list: &Vec<WorldCacheFailureRecord>) -> (text: String)
    ensures
        text@ == failures_json(list@),
{
    let ghost wanted = Seq::new(list@.len(), |i: int| failure_json(list@[i]));
    let mut items: Vec<String> = Vec::new();
    let mut i: usize = 0;
    assert(text::texts(items@) =~= wanted.take(0));
    while i < list.len()
        invariant
            i <= list@.len(),
            wanted == Seq::new(list@.len(), |i: int| failure_json(list@[i])),
            text::texts(items@) == wanted.take(i as int),
        decreases list@.len() - i,
    {
        let failure = &list[i];
        let ghost before = text::texts(items@);
        let mut text = copy_text("{\"kind\":");
        text.append(json_string(failure.kind.as_str()).as_str());
        text.append(",\"item\":");
        text.append(json_string(failure.item.as_str()).as_str());
        text.append(",\"message\":");
        text.append(json_string(failure.message.as_str()).as_str());
        text.append("}");
        items.push(text);
        proof {
            assert(text@ == failure_json(list@[i as int]));
            assert(text::texts(items@) =~= before.push(text@));
            assert(text::texts(items@) =~= wanted.take(i + 1));
        }
        i = i + 1;
    }
    assert(wanted.take(i as int) =~= wanted);
    list_text(&items)
}

/// Where failures are kept below the directory of the cache.
pub open spec fn failure_log_place(cache_dir: Seq<char>) -> Seq<char> {
    paths::joined(cache_dir, WORLD_CACHE_FAILURE_LOG@)
}

/// Where failures are kept.
pub fn world_cache_failure_log_path(status: &WorldCacheStatus) -> (path: String)
    ensures
        path@ == failure_log_place(status.cache_dir@),
{
    join(status.cache_dir.as_str(), WORLD_CACHE_FAILURE_LOG)
}

/// Whether a line says something.
pub open spec fn is_said(line: Seq<char>) -> bool {
    text::trimmed(line).len() > 0
}

/// The lines that say something.
pub open spec fn said_lines(content: Seq<char>) -> Seq<Seq<char>> {
    text::lines_of(content).filter(|line: Seq<char>| is_said(line))
}

fn lines_said(content: &str) -> (list: Vec<String>)
    ensures
        text::texts(list@) == said_lines(content@),
{
    let list = lines(content);
    let ghost all = text::lines_of(content@);
    let ghost keep = |line: Seq<char>| is_said(line);
    let mut said: Vec<String> = Vec::new();
    let mut i: usize = 0;
    proof {
        reveal(Seq::filter);
        assert(all.take(0) =~= Seq::<Seq<char>>::empty());
        assert(text::texts(said@) =~= all.take(0).filter(keep));
    }
    while i < list.len()
        invariant
            i <= list@.len(),
            all == text::texts(list@),
            keep == (|line: Seq<char>| is_said(line)),
            text::texts(said@) == all.take(i as int).filter(keep),
        decreases list@.len() - i,
    {
        proof {
            reveal(Seq::filter);
            assert(all.take(i + 1).drop_last() =~= all.take(i as int));
            assert(all.take(i + 1).last() == list@[i as int]@);
        }
        let line = list[i].as_str();
        if chars_of(trim(line).as_str()).len() > 0 {
            let ghost before = text::texts(said@);
            said.push(copy_text(line));
            assert(text::texts(said@) =~= before.push(line@));
        }
        i = i + 1;
    }
    assert(all.take(i as int) =~= all);
    said
}

/// How many failures a log holds.
pub fn failure_log_entry_count(content: &str) -> (count: usize)
    ensures
        count == said_lines(content@).len(),
{
    let said = lines_said(content);
    assert(text::texts(said@).len() == said@.len());
    said.len()
}

/// How many failures a log holds, if it can be read.
pub open spec fn failed_before(stored: StoredTextView) -> nat {
    match stored {
        StoredTextView::Content(content) => said_lines(content).len(),
        _ => 0,
    }
}

/// How many failures a log holds: none where it cannot be read.
pub fn world_cache_failure_count(stored: &StoredText) -> (count: usize)
    ensures
        count == failed_before(stored@),
{
    match stored {
        StoredText::Content(content) => failure_log_entry_count(content.as_str()),
        _ => 0,
    }
}

/// The failure that a line tells of: its fields stand between tabs, and the last one runs
/// to the end of the line.
pub open spec fn failure_in(line: Seq<char>) -> FailureView {
    match text::split_at_first(line, '\t') {
        None => FailureView { kind: line, item: Seq::empty(), message: Seq::empty() },
        Some((kind, rest)) => match text::split_at_first(rest, '\t') {
            None => FailureView { kind, item: rest, message: Seq::empty() },
            Some((item, message)) => FailureView { kind, item, message },
        },
    }
}

/// The failures that a log tells of.
pub open spec fn failures_in(content: Seq<char>) -> Seq<FailureView> {
    let said = said_lines(content);
    Seq::new(said.len(), |i: int| failure_in(said[i]))
}

fn read_failure(line: &str) -> (failure: WorldCacheFailureRecord)
    ensures
        failure@ == failure_in(line@),
{
    let empty = copy_text("");
    proof {
        reveal_strlit("");
        assert(empty@ =~= Seq::<char>::empty());
    }
    match split_once(line, '\t') {
        None => WorldCacheFailureRecord {
            kind: copy_text(line),
            item: copy_text(empty.as_str()),
            message: empty,
        },
        Some((kind, rest)) => match split_once(rest.as_str(), '\t') {
            None => WorldCacheFailureRecord { kind, item: rest, message: empty },
            Some((item, message)) => WorldCacheFailureRecord { kind, item, message },
        },
    }
}

/// The failures that a log tells of.
pub fn parse_world_cache_failure_records(content: &str) -> (records: Vec<WorldCacheFailureRecord>)
    ensures
        failure_views(records@) == failures_in(content@),
{
    let said = lines_said(content);
    let ghost all = said_lines(content@);
    let ghost wanted = failures_in(content@);
    let mut records: Vec<WorldCacheFailureRecord> = Vec::new();
    let mut i: usize = 0;
    assert(failure_views(records@) =~= wanted.take(0));
    while i < said.len()
        invariant
            i <= said@.len(),
            all == text::texts(said@),
            all == said_lines(content@),
            wanted == failures_in(content@),
            failure_views(records@) == wanted.take(i as int),
        decreases said@.len() - i,
    {
        let ghost before = failure_views(records@);
        let record = read_failure(said[i].as_str());
        records.push(record);
        proof {
            assert(all[i as int] == said@[i as int]@);
            assert(failure_views(records@) =~= before.push(record@));
            assert(failure_views(records@) =~= wanted.take(i + 1));
        }
        i = i + 1;
    }
    assert(wanted.take(i as int) =~= wanted);
    records
}

/// The failures that a stored log tells of: none where there is no log.
pub open spec fn failures_stored(stored: StoredTextView, path: Seq<char>) -> Result<
    Seq<FailureView>,
    Seq<char>,
> {
    match stored {
        StoredTextView::Missing => Ok(Seq::empty()),
        StoredTextView::Unreadable(error) => Err("failed to read "@ + path + ": "@ + error),
        StoredTextView::Content(content) => Ok(failures_in(content)),
    }
}

/// The failures that a stored log tells of.
pub fn read_world_cache_failure_records(status: &WorldCacheStatus, stored: &StoredText) -> (result:
    Result<Vec<WorldCacheFailureRecord>, String>)
    ensures
        match (result, failures_stored(stored@, failure_log_place(status.cache_dir@))) {
            (Ok(records), Ok(expected)) => failure_views(records@) == expected,
            (Err(message), Err(expected)) => message@ == expected,
            _ => false,
        },
{
    match stored {
        StoredText::Missing => {
            let records: Vec<WorldCacheFailureRecord> = Vec::new();
            assert(failure_views(records@) =~= Seq::<FailureView>::empty());
            Ok(records)
        },
        StoredText::Unreadable(error) => Err(
            concat4(
                "failed to read ",
                world_cache_failure_log_path(status).as_str(),
                ": ",
                error.as_str(),
            ),
        ),
        StoredText::Content(content) => Ok(parse_world_cache_failure_records(content.as_str())),
    }
}

/// A text without the characters that part fields and lines.
pub open spec fn on_one_line(field: Seq<char>) -> Seq<char> {
    field.map_values(
        |c: char|
            if c == '\t' || c == '\n' || c == '\r' {
                ' '
            } else {
                c
            },
    )
}

/// A text without the characters that part fields and lines.
pub fn sanitize_failure_field(field: &str) -> (text: String)
    ensures
        text@ == on_one_line(field@),
{
    let chars = chars_of(field);
    let mut text = copy_text("");
    let mut i: usize = 0;
    proof {
        reveal_strlit("");
        assert(text@ =~= on_one_line(field@).take(0));
    }
    while i < chars.len()
        invariant
            i <= chars@.len(),
            chars@ == field@,
            text@ == on_one_line(field@).take(i as int),
        decreases chars@.len() - i,
    {
        let c = chars[i];
        push_char(
            &mut text,
            if c == '\t' || c == '\n' || c == '\r' {
                ' '
            } else {
                c
            },
        );
        assert(text@ =~= on_one_line(field@).take(i + 1));
        i = i + 1;
    }
    assert(text@ =~= on_one_line(field@));
    text
}

/// A failure as a line of the log.
pub open spec fn failure_line(failure: FailureView) -> Seq<char> {
    on_one_line(failure.kind) + "\t"@ + on_one_line(failure.item) + "\t"@ + on_one_line(
        failure.message,
    )
}

/// A failure as a line of the log.
pub fn format_world_cache_failure(failure: &WorldCacheFailureRecord) -> (line: String)
    ensures
        line@ == failure_line(failure@),
{
    concat5(
        sanitize_failure_field(failure.kind.as_str()).as_str(),
        "\t",
        sanitize_failure_field(failure.item.as_str()).as_str(),
        "\t",
        sanitize_failure_field(failure.message.as_str()).as_str(),
    )
}

/// The lines of a log.
pub open spec fn failure_lines(failures: Seq<FailureView>) -> Seq<Seq<char>> {
    Seq::new(failures.len(), |i: int| failure_line(failures[i]))
}

/// What to write to the log of failures.
pub fn write_world_cache_failure_log(failures: &Vec<WorldCacheFailureRecord>) -> (text: String)
    ensures
        text@ == textlist::lines_text(failure_lines(failure_views(failures@))),
{
    let ghost wanted = failure_lines(failure_views(failures@));
    let mut list: Vec<String> = Vec::new();
    let mut i: usize = 0;
    assert(text::texts(list@) =~= wanted.take(0));
    while i < failures.len()
        invariant
            i <= failures@.len(),
            wanted == failure_lines(failure_views(failures@)),
            text::texts(list@) == wanted.take(i as int),
        decreases failures@.len() - i,
    {
        let ghost before = text::texts(list@);
        let line = format_world_cache_failure(&failures[i]);
        list.push(line);
        proof {
            assert(text::texts(list@) =~= before.push(line@));
            assert(text::texts(list@) =~= wanted.take(i + 1));
        }
        i = i + 1;
    }
    assert(wanted.take(i as int) =~= wanted);
    text_of_lines(&list)
}

/// The failures, in JSON.
pub open spec fn failures_report(cache_dir: Seq<char>, failures: Seq<WorldCacheFailureRecord>) -> Seq<char> {
    "{\"failure_log\":"@ + quoted_text(failure_log_place(cache_dir)) + ",\"failure_count\":"@
        + text::decimal_text(failures.len()) + ",\"failures\":"@ + failures_json(failures) + "}"@
}

/// The failures as they are printed: in JSON, or a line each.
pub fn world_cache_failures_text(
    status: &WorldCacheStatus,
    failures: &Vec<WorldCacheFailureRecord>,
    json: bool,
) -> (text: String)
    ensures
        text@ == if json {
            failures_report(status.cache_dir@, failures@) + "\n"@
        } else {
            textlist::lines_text(Seq::new(
                failures@.len(),
                |i: int|
                    failures@[i].kind@ + "\t"@ + failures@[i].item@ + "\t"@
                        + failures@[i].message@,
            ))
        },
{
    if json {
        let mut text = copy_text("{\"failure_log\":");
        text.append(json_string(world_cache_failure_log_path(status).as_str()).as_str());
        text.append(",\"failure_count\":");
        text.append(decimal_usize(failures.len()).as_str());
        text.append(",\"failures\":");
        text.append(encode_world_cache_failures(failures).as_str());
        text.append("}");
        text.append("\n");
        return text;
    }
    let ghost wanted = Seq::new(
        failures@.len(),
        |i: int|
            failures@[i].kind@ + "\t"@ + failures@[i].item@ + "\t"@ + failures@[i].message@,
    );
    let mut list: Vec<String> = Vec::new();
    let mut i: usize = 0;
    assert(text::texts(list@) =~= wanted.take(0));
    while i < failures.len()
        invariant
            i <= failures@.len(),
            wanted == Seq::new(
                failures@.len(),
                |i: int|
                    failures@[i].kind@ + "\t"@ + failures@[i].item@ + "\t"@
                        + failures@[i].message@,
            ),
            text::texts(list@) == wanted.take(i as int),
        decreases failures@.len() - i,
    {
        let ghost before = text::texts(list@);
        let failure = &failures[i];
        let line = concat5(
            failure.kind.as_str(),
            "\t",
            failure.item.as_str(),
            "\t",
            failure.message.as_str(),
        );
        list.push(line);
        proof {
            assert(text::texts(list@) =~= before.push(line@));
            assert(text::texts(list@) =~= wanted.take(i + 1));
        }
        i = i + 1;
    }
    assert(wanted.take(i as int) =~= wanted);
    text_of_lines(&list)
}

// ---------------------------------------------------------------------------
// The state of the cache

/// The state of the cache, in JSON.
pub open spec fn status_json(status: WorldCacheStatus, failed: usize) -> Seq<char> {
    "{\"wall_dir\":"@ + quoted_text(status.wall_dir@) + ",\"state_dir\":"@
        + quoted_text(status.state_dir@) + ",\"cache_dir\":"@ + quoted_text(status.cache_dir@)
        + ",\"manifest\":"@ + quoted_text(status.manifest_path@) + ",\"library\":"@
        + text::decimal_text(status.library_count as nat) + ",\"columns\":"@
        + text::decimal_text(status.columns as nat) + ",\"rows\":"@
        + text::decimal_text(status.rows as nat) + ",\"fingerprint\":\""@
        + text::hex_text(status.fingerprint as nat, 16) + "\",\"order_policy\":"@
        + quoted_text(status.order_policy@) + ",\"thumbnail_edge\":"@
        + text::decimal_text(status.thumbnail_edge as nat) + ",\"cell_ready\":"@
        + text::decimal_text(status.cell_ready as nat) + ",\"cell_missing\":"@
        + text::decimal_text(status.cell_missing as nat) + ",\"world_tile_ready\":"@
        + text::decimal_text(status.world_tile_ready as nat) + ",\"world_tile_missing\":"@
        + text::decimal_text(status.world_tile_missing as nat) + ",\"world_lods\":"@
        + lods_json(status.world_lods@) + ",\"last_compute_failed\":"@
        + text::decimal_text(failed as nat) + ",\"failure_log\":"@
        + quoted_text(failure_log_place(status.cache_dir@)) + ",\"manifest_state\":"@
        + quoted_text(status.manifest_state.spec_name()) + ",\"ready\":"@
        + text::bool_text(status.ready) + ",\"message\":"@ + quoted_text(status.message@) + "}"@
}

/// The state of the cache, in JSON.
pub fn encode_world_cache_status(status: &WorldCacheStatus, failed: usize) -> (text: String)
    ensures
        text@ == status_json(*status, failed),
{
    let mut text = copy_text("{\"wall_dir\":");
    text.append(json_string(status.wall_dir.as_str()).as_str());
    text.append(",\"state_dir\":");
    text.append(json_string(status.state_dir.as_str()).as_str());
    text.append(",\"cache_dir\":");
    text.append(json_string(status.cache_dir.as_str()).as_str());
    text.append(",\"manifest\":");
    text.append(json_string(status.manifest_path.as_str()).as_str());
    text.append(",\"library\":");
    text.append(decimal_usize(status.library_count).as_str());
    text.append(",\"columns\":");
    text.append(decimal_usize(status.columns).as_str());
    text.append(",\"rows\":");
    text.append(decimal_usize(status.rows).as_str());
    text.append(",\"fingerprint\":\"");
    text.append(hex_u64(status.fingerprint, 16).as_str());
    text.append("\",\"order_policy\":");
    text.append(json_string(status.order_policy.as_str()).as_str());
    text.append(",\"thumbnail_edge\":");
    text.append(decimal_u32(status.thumbnail_edge).as_str());
    text.append(",\"cell_ready\":");
    text.append(decimal_usize(status.cell_ready).as_str());
    text.append(",\"cell_missing\":");
    text.append(decimal_usize(status.cell_missing).as_str());
    text.append(",\"world_tile_ready\":");
    text.append(decimal_usize(status.world_tile_ready).as_str());
    text.append(",\"world_tile_missing\":");
    text.append(decimal_usize(status.world_tile_missing).as_str());
    text.append(",\"world_lods\":");
    text.append(encode_world_lods(&status.world_lods).as_str());
    text.append(",\"last_compute_failed\":");
    text.append(decimal_usize(failed).as_str());
    text.append(",\"failure_log\":");
    text.append(json_string(world_cache_failure_log_path(status).as_str()).as_str());
    text.append(",\"manifest_state\":");
    text.append(json_string(status.manifest_state.as_str()).as_str());
    text.append(",\"ready\":");
    text.append(text_of_bool(status.ready).as_str());
    text.append(",\"message\":");
    text.append(json_string(status.message.as_str()).as_str());
    text.append("}");
    text
}

/// How much of a level is cached, in words.
pub open spec fn lod_line(lod: WorldLodCacheStatus) -> Seq<char> {
    "world_tiles_l"@ + text::decimal_text(lod.lod as nat) + "\tready\t"@
        + text::decimal_text(lod.tile_ready as nat) + "\tmissing\t"@
        + text::decimal_text(lod.tile_missing as nat)
}

/// The state of the cache in words.
pub open spec fn status_lines(status: WorldCacheStatus, failed: usize) -> Seq<Seq<char>> {
    seq![
        "wall_dir\t"@ + status.wall_dir@,
        "state_dir\t"@ + status.state_dir@,
        "cache_dir\t"@ + status.cache_dir@,
        "manifest\t"@ + status.manifest_path@,
        "library\t"@ + text::decimal_text(status.library_count as nat),
        "grid\t"@ + text::decimal_text(status.columns as nat) + "x"@
            + text::decimal_text(status.rows as nat),
        "fingerprint\t"@ + text::hex_text(status.fingerprint as nat, 16),
        "order_policy\t"@ + status.order_policy@,
        "thumbnail_edge\t"@ + text::decimal_text(status.thumbnail_edge as nat),
        "cell_ready\t"@ + text::decimal_text(status.cell_ready as nat),
        "cell_missing\t"@ + text::decimal_text(status.cell_missing as nat),
        "world_tile_ready\t"@ + text::decimal_text(status.world_tile_ready as nat),
        "world_tile_missing\t"@ + text::decimal_text(status.world_tile_missing as nat),
    ] + Seq::new(status.world_lods@.len(), |i: int| lod_line(status.world_lods@[i])) + seq![
        "last_compute_failed\t"@ + text::decimal_text(failed as nat),
        "failure_log\t"@ + failure_log_place(status.cache_dir@),
        "manifest_state\t"@ + status.manifest_state.spec_name(),
        "ready\t"@ + text::bool_text(status.ready),
        "message\t"@ + status.message@,
    ]
}

/// Adds texts to a list.
pub(crate) fn push_all(list: &mut Vec<String>, more: Vec<String>)
    ensures
        text::texts(final(list)@) == text::texts(old(list)@) + text::texts(more@),
{
    let ghost before = list@;
    let ghost added = more@;
    let mut more = more;
    list.append(&mut more);
    assert(text::texts(list@) =~= text::texts(before) + text::texts(added));
}

/// The state of the cache as it is printed: in JSON, or in words.
pub fn world_cache_status_text(status: &WorldCacheStatus, failed: usize, json: bool) -> (text: String)
    ensures
        text@ == if json {
            status_json(*status, failed) + "\n"@
        } else {
            textlist::lines_text(status_lines(*status, failed))
        },
{
    if json {
        return concat2(encode_world_cache_status(status, failed).as_str(), "\n");
    }
    let mut list: Vec<String> = Vec::new();
    list.push(concat2("wall_dir\t", status.wall_dir.as_str()));
    list.push(concat2("state_dir\t", status.state_dir.as_str()));
    list.push(concat2("cache_dir\t", status.cache_dir.as_str()));
    list.push(concat2("manifest\t", status.manifest_path.as_str()));
    list.push(concat2("library\t", decimal_usize(status.library_count).as_str()));
    list.push(
        concat4(
            "grid\t",
            decimal_usize(status.columns).as_str(),
            "x",
            decimal_usize(status.rows).as_str(),
        ),
    );
    list.push(concat2("fingerprint\t", hex_u64(status.fingerprint, 16).as_str()));
    list.push(concat2("order_policy\t", status.order_policy.as_str()));
    list.push(concat2("thumbnail_edge\t", decimal_u32(status.thumbnail_edge).as_str()));
    list.push(concat2("cell_ready\t", decimal_usize(status.cell_ready).as_str()));
    list.push(concat2("cell_missing\t", decimal_usize(status.cell_missing).as_str()));
    list.push(concat2("world_tile_ready\t", decimal_usize(status.world_tile_ready).as_str()));
    list.push(concat2("world_tile_missing\t", decimal_usize(status.world_tile_missing).as_str()));
    let ghost head = text::texts(list@);
    assert(head =~= seq![
        "wall_dir\t"@ + status.wall_dir@,
        "state_dir\t"@ + status.state_dir@,
        "cache_dir\t"@ + status.cache_dir@,
        "manifest\t"@ + status.manifest_path@,
        "library\t"@ + text::decimal_text(status.library_count as nat),
        "grid\t"@ + text::decimal_text(status.columns as nat) + "x"@
            + text::decimal_text(status.rows as nat),
        "fingerprint\t"@ + text::hex_text(status.fingerprint as nat, 16),
        "order_policy\t"@ + status.order_policy@,
        "thumbnail_edge\t"@ + text::decimal_text(status.thumbnail_edge as nat),
        "cell_ready\t"@ + text::decimal_text(status.cell_ready as nat),
        "cell_missing\t"@ + text::decimal_text(status.cell_missing as nat),
        "world_tile_ready\t"@ + text::decimal_text(status.world_tile_ready as nat),
        "world_tile_missing\t"@ + text::decimal_text(status.world_tile_missing as nat),
    ]);
    let ghost middle = Seq::new(status.world_lods@.len(), |i: int| lod_line(status.world_lods@[i]));
    let mut i: usize = 0;
    assert(text::texts(list@) =~= head + middle.take(0));
    while i < status.world_lods.len()
        invariant
            i <= status.world_lods@.len(),
            middle == Seq::new(
                status.world_lods@.len(),
                |i: int| lod_line(status.world_lods@[i]),
            ),
            text::texts(list@) == head + middle.take(i as int),
        decreases status.world_lods@.len() - i,
    {
        let ghost before = text::texts(list@);
        let lod = &status.world_lods[i];
        list.push(
            concat2(
                concat5(
                    "world_tiles_l",
                    decimal_usize(lod.lod).as_str(),
                    "\tready\t",
                    decimal_usize(lod.tile_ready).as_str(),
                    "\tmissing\t",
                ).as_str(),
                decimal_usize(lod.tile_missing).as_str(),
            ),
        );
        proof {
            assert(list@.last()@ == lod_line(status.world_lods@[i as int]));
            assert(text::texts(list@) =~= before.push(list@.last()@));
            assert(text::texts(list@) =~= head + middle.take(i + 1));
        }
        i = i + 1;
    }
    assert(middle.take(i as int) =~= middle);
    let mut tail: Vec<String> = Vec::new();
    tail.push(concat2("last_compute_failed\t", decimal_usize(failed).as_str()));
    tail.push(concat2("failure_log\t", world_cache_failure_log_path(status).as_str()));
    tail.push(concat2("manifest_state\t", status.manifest_state.as_str()));
    tail.push(concat2("ready\t", text_of_bool(status.ready).as_str()));
    tail.push(concat2("message\t", status.message.as_str()));
    assert(text::texts(tail@) =~= seq![
        "last_compute_failed\t"@ + text::decimal_text(failed as nat),
        "failure_log\t"@ + failure_log_place(status.cache_dir@),
        "manifest_state\t"@ + status.manifest_state.spec_name(),
        "ready\t"@ + text::bool_text(status.ready),
        "message\t"@ + status.message@,
    ]);
    push_all(&mut list, tail);
    assert(text::texts(list@) =~= status_lines(*status, failed));
    text_of_lines(&list)
}

} // verus!
