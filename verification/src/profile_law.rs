//! What is proved of the lines and variables of a configuration: each sets what it is named
//! after, for the profile that it names, and leaves everything else alone.

use crate::actions::{ActionKind, ActionTransitions};
use crate::config::{ConfigSource, ConfigView, HostView, PlaceView, ProfileView, RawCanvasTileCount, RawView};
use crate::protocol::{
    CacheBackend, CanvasMode, CanvasPanAxis, CanvasTileCount, CanvasWalk, Easing, PushDirection,
    PushMode, ScaleMode, Transition, TransitionKind, WallpaperAction, MAX_CANVAS_TILE_COUNT,
};
use crate::scale::OverviewScale;
use crate::config;
use crate::paths;
use crate::setting_law;
use crate::text;
use crate::textmap;
use vstd::prelude::*;

verus! {

// ---------------------------------------------------------------------------
// Lines of the whole configuration

/// A configuration that another one resolves its transitions like, has the same transitions.
#[verifier::spinoff_prover]
proof fn lemma_same_built(raw: RawView, after: RawView, parallelism: usize)
    requires
        setting_law::same_transitions(after, raw),
        after.transition_next == raw.transition_next,
        after.transition_back == raw.transition_back,
        after.transition_shift_forward == raw.transition_shift_forward,
        after.transition_shift_back == raw.transition_shift_back,
        after.transition_replace == raw.transition_replace,
        after.transition_quarantine == raw.transition_quarantine,
        after.transition_startup == raw.transition_startup,
        config::built(raw, parallelism) is Ok,
    ensures
        config::built(after, parallelism) matches Ok(config) && config == (ConfigView {
            wall_dir: after.wall_dir,
            state_dir: after.state_dir,
            quarantine_dir: after.quarantine_dir,
            favorite_weight: after.favorite_weight,
            max_history: after.max_history,
            scale_mode: after.scale_mode,
            decode_full_workers: config::clamped_workers(after.decode_full_workers, parallelism),
            canvas_thumbnail_max_edge: after.canvas_thumbnail_max_edge,
            canvas_cache_workers: config::clamped_workers(after.canvas_cache_workers, parallelism),
            canvas_cache_backend: after.canvas_cache_backend,
            canvas_cache_memory_bytes: config::mib_bytes(after.canvas_cache_memory_mib),
            ..config::built(raw, parallelism)->Ok_0
        }),
{
    setting_law::lemma_same_checks(after, raw, raw.transition_profiles);
    setting_law::lemma_same_fallback(after, raw);
    setting_law::lemma_same_resolved(after, raw, raw.transition_next);
    setting_law::lemma_same_resolved(after, raw, raw.transition_back);
    setting_law::lemma_same_resolved(after, raw, raw.transition_shift_forward);
    setting_law::lemma_same_resolved(after, raw, raw.transition_shift_back);
    setting_law::lemma_same_resolved(after, raw, raw.transition_replace);
    setting_law::lemma_same_resolved(after, raw, raw.transition_quarantine);
    setting_law::lemma_same_resolved(after, raw, raw.transition_startup);
}

/// The line of the wallpapers' directory sets that directory, and nothing else.
#[verifier::spinoff_prover]
pub proof fn law_wall_dir_line(
    raw: RawView,
    host: HostView,
    path: Seq<char>,
    line: nat,
    value: Seq<char>,
    parallelism: usize,
)
    requires
        config::built(raw, parallelism) is Ok,
    ensures
        config::raw_with(raw, host, path, line, "wall_dir"@, value) matches Ok(after)
            && config::built(after, parallelism) == Ok::<ConfigView, Seq<char>>(
            ConfigView {
                wall_dir: Some(paths::home_expanded(value, host.home)),
                ..config::built(raw, parallelism)->Ok_0
            },
        ),
{
    setting_law::lemma_keys_differ();
    let place = PlaceView::Line { path, line, key: "wall_dir"@ };
    lemma_same_built(
        raw,
        config::raw_with(raw, host, path, line, "wall_dir"@, value)->Ok_0,
        parallelism,
    );
}

/// The line of the state directory sets that directory, and nothing else.
#[verifier::spinoff_prover]
pub proof fn law_state_dir_line(
    raw: RawView,
    host: HostView,
    path: Seq<char>,
    line: nat,
    value: Seq<char>,
    parallelism: usize,
)
    requires
        config::built(raw, parallelism) is Ok,
    ensures
        config::raw_with(raw, host, path, line, "state_dir"@, value) matches Ok(after)
            && config::built(after, parallelism) == Ok::<ConfigView, Seq<char>>(
            ConfigView {
                state_dir: Some(paths::home_expanded(value, host.home)),
                ..config::built(raw, parallelism)->Ok_0
            },
        ),
{
    setting_law::lemma_keys_differ();
    let place = PlaceView::Line { path, line, key: "state_dir"@ };
    lemma_same_built(
        raw,
        config::raw_with(raw, host, path, line, "state_dir"@, value)->Ok_0,
        parallelism,
    );
}

/// The line of the quarantine sets that directory, and nothing else.
#[verifier::spinoff_prover]
pub proof fn law_quarantine_dir_line(
    raw: RawView,
    host: HostView,
    path: Seq<char>,
    line: nat,
    value: Seq<char>,
    parallelism: usize,
)
    requires
        config::built(raw, parallelism) is Ok,
    ensures
        config::raw_with(raw, host, path, line, "quarantine_dir"@, value) matches Ok(after)
            && config::built(after, parallelism) == Ok::<ConfigView, Seq<char>>(
            ConfigView {
                quarantine_dir: Some(paths::home_expanded(value, host.home)),
                ..config::built(raw, parallelism)->Ok_0
            },
        ),
{
    setting_law::lemma_keys_differ();
    let place = PlaceView::Line { path, line, key: "quarantine_dir"@ };
    lemma_same_built(
        raw,
        config::raw_with(raw, host, path, line, "quarantine_dir"@, value)->Ok_0,
        parallelism,
    );
}

/// The line of the weight of favorites sets that weight, and nothing else.
#[verifier::spinoff_prover]
pub proof fn law_favorite_weight_line(
    raw: RawView,
    host: HostView,
    path: Seq<char>,
    line: nat,
    n: nat,
    parallelism: usize,
)
    requires
        config::built(raw, parallelism) is Ok,
        0 < n <= usize::MAX,
    ensures
        config::raw_with(
            raw,
            host,
            path,
            line,
            "favorite_weight"@,
            text::decimal_text(n),
        ) matches Ok(after)
            && config::built(after, parallelism) == Ok::<ConfigView, Seq<char>>(
            ConfigView {
                favorite_weight: Some(n as usize),
                ..config::built(raw, parallelism)->Ok_0
            },
        ),
{
    setting_law::lemma_keys_differ();
    let place = PlaceView::Line { path, line, key: "favorite_weight"@ };
    setting_law::law_numbers_are_read_as_written(place, n);
    lemma_same_built(
        raw,
        config::raw_with(raw, host, path, line, "favorite_weight"@, text::decimal_text(n))->Ok_0,
        parallelism,
    );
}

/// The line of the length of the history sets that length, and nothing else.
#[verifier::spinoff_prover]
pub proof fn law_max_history_line(
    raw: RawView,
    host: HostView,
    path: Seq<char>,
    line: nat,
    n: nat,
    parallelism: usize,
)
    requires
        config::built(raw, parallelism) is Ok,
        0 < n <= usize::MAX,
    ensures
        config::raw_with(
            raw,
            host,
            path,
            line,
            "max_history"@,
            text::decimal_text(n),
        ) matches Ok(after)
            && config::built(after, parallelism) == Ok::<ConfigView, Seq<char>>(
            ConfigView {
                max_history: Some(n as usize),
                ..config::built(raw, parallelism)->Ok_0
            },
        ),
{
    setting_law::lemma_keys_differ();
    let place = PlaceView::Line { path, line, key: "max_history"@ };
    setting_law::law_numbers_are_read_as_written(place, n);
    lemma_same_built(
        raw,
        config::raw_with(raw, host, path, line, "max_history"@, text::decimal_text(n))->Ok_0,
        parallelism,
    );
}

/// The line of the edge of thumbnails sets that edge, and nothing else.
#[verifier::spinoff_prover]
pub proof fn law_thumbnail_edge_line(
    raw: RawView,
    host: HostView,
    path: Seq<char>,
    line: nat,
    n: nat,
    parallelism: usize,
)
    requires
        config::built(raw, parallelism) is Ok,
        0 < n <= u32::MAX,
    ensures
        config::raw_with(
            raw,
            host,
            path,
            line,
            "canvas.thumbnail_max_edge"@,
            text::decimal_text(n),
        ) matches Ok(after)
            && config::built(after, parallelism) == Ok::<ConfigView, Seq<char>>(
            ConfigView {
                canvas_thumbnail_max_edge: n as u32,
                ..config::built(raw, parallelism)->Ok_0
            },
        ),
{
    setting_law::lemma_keys_differ();
    let place = PlaceView::Line { path, line, key: "canvas.thumbnail_max_edge"@ };
    setting_law::law_numbers_are_read_as_written(place, n);
    lemma_same_built(
        raw,
        config::raw_with(
            raw,
            host,
            path,
            line,
            "canvas.thumbnail_max_edge"@,
            text::decimal_text(n),
        )->Ok_0,
        parallelism,
    );
}

/// The line of the memory of the cache counts in units of 1048576 bytes, and stops at what a
/// size can hold. It sets nothing else.
#[verifier::spinoff_prover]
pub proof fn law_cache_memory_line(
    raw: RawView,
    host: HostView,
    path: Seq<char>,
    line: nat,
    n: nat,
    parallelism: usize,
)
    requires
        config::built(raw, parallelism) is Ok,
        0 < n <= usize::MAX,
    ensures
        config::raw_with(
            raw,
            host,
            path,
            line,
            "canvas.cache.memory_mib"@,
            text::decimal_text(n),
        ) matches Ok(after)
            && config::built(after, parallelism) == Ok::<ConfigView, Seq<char>>(
            ConfigView {
                canvas_cache_memory_bytes: if n * 1048576 <= usize::MAX {
                    (n * 1048576) as usize
                } else {
                    usize::MAX
                },
                ..config::built(raw, parallelism)->Ok_0
            },
        ),
{
    setting_law::lemma_keys_differ();
    let place = PlaceView::Line { path, line, key: "canvas.cache.memory_mib"@ };
    setting_law::law_numbers_are_read_as_written(place, n);
    lemma_same_built(
        raw,
        config::raw_with(
            raw,
            host,
            path,
            line,
            "canvas.cache.memory_mib"@,
            text::decimal_text(n),
        )->Ok_0,
        parallelism,
    );
}

/// The line of the workers of the cache sets their number, as far as the machine and thirty-two
/// allow, and nothing else.
#[verifier::spinoff_prover]
pub proof fn law_canvas_cache_workers_line(
    raw: RawView,
    host: HostView,
    path: Seq<char>,
    line: nat,
    n: nat,
    parallelism: usize,
)
    requires
        config::built(raw, parallelism) is Ok,
        0 < n <= usize::MAX,
        host.parallelism == parallelism,
    ensures
        config::raw_with(
            raw,
            host,
            path,
            line,
            "canvas.cache.workers"@,
            text::decimal_text(n),
        ) matches Ok(after)
            && config::built(after, parallelism) == Ok::<ConfigView, Seq<char>>(
            ConfigView {
                canvas_cache_workers: if n <= parallelism && n <= 32 {
                    n as usize
                } else if parallelism == 0 {
                    1
                } else if parallelism <= 32 {
                    parallelism
                } else {
                    32
                },
                ..config::built(raw, parallelism)->Ok_0
            },
        ),
{
    setting_law::lemma_keys_differ();
    let place = PlaceView::Line { path, line, key: "canvas.cache.workers"@ };
    setting_law::law_numbers_are_read_as_written(place, n);
    lemma_same_built(
        raw,
        config::raw_with(
            raw,
            host,
            path,
            line,
            "canvas.cache.workers"@,
            text::decimal_text(n),
        )->Ok_0,
        parallelism,
    );
}

/// The line of the decoding workers sets their number, as far as the machine and thirty-two
/// allow, and nothing else.
#[verifier::spinoff_prover]
pub proof fn law_decode_full_workers_line(
    raw: RawView,
    host: HostView,
    path: Seq<char>,
    line: nat,
    n: nat,
    parallelism: usize,
)
    requires
        config::built(raw, parallelism) is Ok,
        0 < n <= usize::MAX,
        host.parallelism == parallelism,
    ensures
        config::raw_with(
            raw,
            host,
            path,
            line,
            "decode.full_workers"@,
            text::decimal_text(n),
        ) matches Ok(after)
            && config::built(after, parallelism) == Ok::<ConfigView, Seq<char>>(
            ConfigView {
                decode_full_workers: if n <= parallelism && n <= 32 {
                    n as usize
                } else if parallelism == 0 {
                    1
                } else if parallelism <= 32 {
                    parallelism
                } else {
                    32
                },
                ..config::built(raw, parallelism)->Ok_0
            },
        ),
{
    setting_law::lemma_keys_differ();
    let place = PlaceView::Line { path, line, key: "decode.full_workers"@ };
    setting_law::law_numbers_are_read_as_written(place, n);
    lemma_same_built(
        raw,
        config::raw_with(
            raw,
            host,
            path,
            line,
            "decode.full_workers"@,
            text::decimal_text(n),
        )->Ok_0,
        parallelism,
    );
}

/// The line of the scale mode sets that mode, and nothing else.
#[verifier::spinoff_prover]
pub proof fn law_scale_mode_line(
    raw: RawView,
    host: HostView,
    path: Seq<char>,
    line: nat,
    mode: ScaleMode,
    parallelism: usize,
)
    requires
        config::built(raw, parallelism) is Ok,
    ensures
        config::raw_with(raw, host, path, line, "scale_mode"@, mode.name()) matches Ok(after)
            && config::built(after, parallelism) == Ok::<ConfigView, Seq<char>>(
            ConfigView {
                scale_mode: mode,
                ..config::built(raw, parallelism)->Ok_0
            },
        ),
{
    setting_law::lemma_keys_differ();
    let place = PlaceView::Line { path, line, key: "scale_mode"@ };
    mode.law_round_trip();
    lemma_same_built(
        raw,
        config::raw_with(raw, host, path, line, "scale_mode"@, mode.name())->Ok_0,
        parallelism,
    );
}

/// The line of the backend of the cache sets that backend, and nothing else.
#[verifier::spinoff_prover]
pub proof fn law_cache_backend_line(
    raw: RawView,
    host: HostView,
    path: Seq<char>,
    line: nat,
    backend: CacheBackend,
    parallelism: usize,
)
    requires
        config::built(raw, parallelism) is Ok,
    ensures
        config::raw_with(
            raw,
            host,
            path,
            line,
            "canvas.cache.backend"@,
            backend.name(),
        ) matches Ok(after)
            && config::built(after, parallelism) == Ok::<ConfigView, Seq<char>>(
            ConfigView {
                canvas_cache_backend: backend,
                ..config::built(raw, parallelism)->Ok_0
            },
        ),
{
    setting_law::lemma_keys_differ();
    let place = PlaceView::Line { path, line, key: "canvas.cache.backend"@ };
    backend.law_round_trip();
    lemma_same_built(
        raw,
        config::raw_with(raw, host, path, line, "canvas.cache.backend"@, backend.name())->Ok_0,
        parallelism,
    );
}

/// A path that begins with a tilde lies in the home directory, and any other path stays as it is.
pub proof fn law_tilde_is_the_home(rest: Seq<char>, home: Seq<char>, path: Seq<char>)
    ensures
        paths::home_expanded("~"@, Some(home)) == home,
        paths::home_expanded("~/"@ + rest, Some(home)) == paths::joined(home, rest),
        path.len() == 0 || path[0] != '~' ==> paths::home_expanded(path, Some(home)) == path,
        paths::home_expanded(path, None) == path,
{
    reveal_strlit("~");
    reveal_strlit("~/");
    let tilde = "~/"@ + rest;
    assert("~"@.len() == 1 && "~/"@.len() == 2);
    assert(tilde.len() >= 2);
    assert(tilde.take(2) =~= "~/"@);
    assert(tilde.skip(2) =~= rest);
    if path.len() > 0 && path[0] != '~' {
        assert("~"@[0] == '~');
        if text::starts(path, "~/"@) {
            assert(path.take(2)[0] == "~/"@[0]);
        }
    }
}

// ---------------------------------------------------------------------------
// Lines of a file

/// Whether a text can stand in a line as it is: neither white space at its ends, nor quotes,
/// nor what begins a comment.
pub open spec fn is_plain(s: Seq<char>) -> bool {
    &&& s.len() > 0
    &&& !text::is_blank(s[0])
    &&& !text::is_blank(s.last())
    &&& !s.contains('#')
    &&& !s.contains(';')
    &&& !s.contains('"')
    &&& !s.contains('\'')
}

proof fn lemma_trimmed(s: Seq<char>)
    requires
        s.len() > 0,
        !text::is_blank(s[0]),
        !text::is_blank(s.last()),
    ensures
        text::trimmed(s) == s,
        text::trimmed(s.push(' ')) == s,
        text::trimmed(seq![' '] + s) == s,
{
    assert(s.push(' ').drop_last() =~= s);
    assert((seq![' '] + s).drop_first() =~= s);
    reveal_with_fuel(text::trim_start, 3);
    reveal_with_fuel(text::trim_end, 3);
}

/// What no quotes and no comment stand in stays, and a comment behind it goes.
proof fn lemma_no_comment(s: Seq<char>, comment: Seq<char>)
    requires
        forall|i: int|
            0 <= i < s.len() ==> s[i] != '#' && s[i] != ';' && s[i] != '"' && s[i] != '\'',
        comment.len() > 0 ==> comment[0] == '#' || comment[0] == ';',
    ensures
        config::before_comment(s + comment, false, false) == s,
    decreases s.len(),
{
    let line = s + comment;
    if s.len() == 0 {
        assert(line =~= comment);
        assert(s =~= Seq::<char>::empty());
    } else {
        let tail = s.skip(1);
        assert(line.skip(1) =~= tail + comment);
        lemma_no_comment(tail, comment);
        assert(seq![s[0]] + tail =~= s);
        assert(line[0] == s[0]);
    }
}

/// Between quotes nothing begins a comment.
proof fn lemma_quoted(s: Seq<char>)
    requires
        !s.contains('"'),
    ensures
        config::before_comment(s.push('"'), false, true) == s.push('"'),
    decreases s.len(),
{
    let line = s.push('"');
    if s.len() == 0 {
        assert(line.skip(1) =~= Seq::<char>::empty());
        reveal_with_fuel(config::before_comment, 2);
        assert(seq!['"'] + Seq::<char>::empty() =~= line);
    } else {
        let tail = s.skip(1);
        assert(line.skip(1) =~= tail.push('"'));
        assert forall|c: char| tail.contains(c) implies s.contains(c) by {
            let i = choose|i: int| 0 <= i < tail.len() && tail[i] == c;
            assert(s[i + 1] == c);
        }
        lemma_quoted(tail);
        assert(line[0] == s[0]);
        assert(s.contains(s[0]));
        assert(seq![s[0]] + tail.push('"') =~= line);
    }
}

/// Text before quotes stays as it is.
proof fn lemma_before_quotes(s: Seq<char>, rest: Seq<char>)
    requires
        forall|i: int|
            0 <= i < s.len() ==> s[i] != '#' && s[i] != ';' && s[i] != '"' && s[i] != '\'',
    ensures
        config::before_comment(s + rest, false, false) == s + config::before_comment(
            rest,
            false,
            false,
        ),
    decreases s.len(),
{
    let line = s + rest;
    if s.len() == 0 {
        assert(line =~= rest);
        assert(s + config::before_comment(rest, false, false) =~= config::before_comment(
            rest,
            false,
            false,
        ));
    } else {
        let tail = s.skip(1);
        assert(line.skip(1) =~= tail + rest);
        lemma_before_quotes(tail, rest);
        assert(line[0] == s[0]);
        assert(seq![s[0]] + (tail + config::before_comment(rest, false, false)) =~= s
            + config::before_comment(rest, false, false));
    }
}

/// The parts of a line round its first equals sign.
proof fn lemma_parts(key: Seq<char>, value: Seq<char>)
    requires
        key.len() > 0,
        !text::is_blank(key[0]),
        !text::is_blank(key.last()),
        !key.contains('='),
        value.len() > 0,
        !text::is_blank(value[0]),
        !text::is_blank(value.last()),
    ensures
        text::split_at_first(key + " = "@ + value, '=') matches Some((left, right))
            && text::trimmed(left) == key && text::trimmed(right) == value,
        text::trimmed(key + " = "@ + value) == key + " = "@ + value,
{
    reveal_strlit(" = ");
    assert(" = "@.len() == 3);
    assert(" = "@[0] == ' ' && " = "@[1] == '=' && " = "@[2] == ' ');
    let line = key + " = "@ + value;
    let at: int = key.len() as int + 1;
    assert(line[at] == '=');
    text::lemma_first_index(line, '=');
    assert forall|i: int| 0 <= i < at implies line[i] != '=' by {
        if i < key.len() {
            assert(key.contains(key[i]));
            assert(line[i] == key[i]);
        } else {
            assert(line[i] == ' ');
        }
    }
    assert(text::first_index(line, '=') == at);
    assert(line.take(at) =~= key.push(' '));
    assert(line.skip(at + 1) =~= seq![' '] + value);
    lemma_trimmed(key);
    lemma_trimmed(value);
    assert(line[0] == key[0]);
    assert(line.last() == value.last());
    lemma_trimmed(line);
}

/// A line that says nothing but a key and a value, with a comment behind it or none, sets that
/// key to that value.
#[verifier::spinoff_prover]
pub proof fn law_lines_set_keys_to_values(
    raw: RawView,
    host: HostView,
    path: Seq<char>,
    number: nat,
    key: Seq<char>,
    value: Seq<char>,
    comment: Seq<char>,
)
    requires
        is_plain(key),
        is_plain(value),
        !key.contains('='),
        comment.len() > 0 ==> comment[0] == '#' || comment[0] == ';',
    ensures
        config::with_line(raw, host, path, number, key + " = "@ + value + comment)
            == config::raw_with(raw, host, path, number, key, value),
{
    let line = key + " = "@ + value;
    reveal_strlit(" = ");
    assert forall|i: int| 0 <= i < line.len() implies line[i] != '#' && line[i] != ';' && line[i]
        != '"' && line[i] != '\'' by {
        if i < key.len() {
            assert(key.contains(key[i]));
            assert(line[i] == key[i]);
        } else if i >= key.len() + 3 {
            let k = i - key.len() - 3;
            assert(value.contains(value[k]));
            assert(line[i] == value[k]);
        } else {
            assert(line[i] == " = "@[i - key.len()]);
        }
    }
    lemma_no_comment(line, comment);
    lemma_parts(key, value);
    assert(value.contains(value[0]));
}

/// A value in double quotes is what stands between them, whatever that is.
#[verifier::spinoff_prover]
pub proof fn law_quoted_values_stay_as_they_are(
    raw: RawView,
    host: HostView,
    path: Seq<char>,
    number: nat,
    key: Seq<char>,
    value: Seq<char>,
)
    requires
        is_plain(key),
        !key.contains('='),
        !value.contains('"'),
    ensures
        config::with_line(raw, host, path, number, key + " = "@ + (seq!['"'] + value.push('"')))
            == config::raw_with(raw, host, path, number, key, value),
{
    let quoted = seq!['"'] + value.push('"');
    let head = key + " = "@;
    reveal_strlit(" = ");
    assert forall|i: int| 0 <= i < head.len() implies head[i] != '#' && head[i] != ';' && head[i]
        != '"' && head[i] != '\'' by {
        if i < key.len() {
            assert(key.contains(key[i]));
            assert(head[i] == key[i]);
        } else {
            assert(head[i] == " = "@[i - key.len()]);
        }
    }
    lemma_before_quotes(head, quoted);
    assert(quoted.skip(1) =~= value.push('"'));
    lemma_quoted(value);
    assert(config::before_comment(quoted, false, false) == quoted) by {
        assert(quoted[0] == '"');
        assert(seq![quoted[0]] + value.push('"') =~= quoted);
    }
    assert(quoted[0] == '"' && quoted.last() == '"');
    assert(!text::is_blank('"'));
    lemma_parts(key, quoted);
    assert(quoted.subrange(1, quoted.len() - 1) =~= value);
}

/// Empty lines and comments set nothing, and any other line without an equals sign is refused.
pub proof fn law_comments_set_nothing(
    raw: RawView,
    host: HostView,
    path: Seq<char>,
    number: nat,
    comment: Seq<char>,
    word: Seq<char>,
)
    requires
        comment.len() > 0 ==> comment[0] == '#' || comment[0] == ';',
        is_plain(word),
        !word.contains('='),
    ensures
        config::with_line(raw, host, path, number, comment) == Ok::<RawView, Seq<char>>(raw),
        config::with_line(raw, host, path, number, word) is Err,
{
    lemma_no_comment(Seq::empty(), comment);
    assert(Seq::<char>::empty() + comment =~= comment);
    assert forall|i: int| 0 <= i < word.len() implies word[i] != '#' && word[i] != ';' && word[i]
        != '"' && word[i] != '\'' by {
        assert(word.contains(word[i]));
    }
    lemma_no_comment(word, Seq::empty());
    assert(word + Seq::<char>::empty() =~= word);
    lemma_trimmed(word);
    text::lemma_first_index(word, '=');
}

// ---------------------------------------------------------------------------
// Lines of a profile

/// The key of a field of a profile.
pub open spec fn profile_line(name: Seq<char>, field: Seq<char>) -> Seq<char> {
    "transition."@ + name + "."@ + field
}

/// Whether a profile can have a name.
pub open spec fn is_profile_name(name: Seq<char>) -> bool {
    &&& name.len() > 0
    &&& !name.contains('.')
    &&& !name.contains(':')
}

#[verifier::spinoff_prover]
proof fn lemma_profile_key(name: Seq<char>, field: Seq<char>)
    requires
        is_profile_name(name),
        field.len() > 0,
    ensures
        config::profile_key(profile_line(name, field)) == Some((name, field)),
        profile_line(name, field) != "wall_dir"@,
        profile_line(name, field) != "state_dir"@,
        profile_line(name, field) != "quarantine_dir"@,
        profile_line(name, field) != "favorite_weight"@,
        profile_line(name, field) != "max_history"@,
        profile_line(name, field) != "scale_mode"@,
        profile_line(name, field) != "canvas.thumbnail_max_edge"@,
        profile_line(name, field) != "canvas.cache.workers"@,
        profile_line(name, field) != "canvas.cache.backend"@,
        profile_line(name, field) != "canvas.cache.memory_mib"@,
        profile_line(name, field) != "decode.full_workers"@,
        profile_line(name, field) != "action.next"@,
        profile_line(name, field) != "action.back"@,
        profile_line(name, field) != "action.shift_forward"@,
        profile_line(name, field) != "action.shift_back"@,
        profile_line(name, field) != "action.replace"@,
        profile_line(name, field) != "action.quarantine"@,
        profile_line(name, field) != "action.startup"@,
{
    reveal_strlit("transition.");
    reveal_strlit(".");
    assert("transition."@.len() == 11);
    assert("."@.len() == 1);
    let key = profile_line(name, field);
    assert(key.len() >= 13);
    assert(key[0] == 't');
    reveal_strlit("wall_dir");
    assert("wall_dir"@[0] != 't');
    reveal_strlit("state_dir");
    assert("state_dir"@[0] != 't');
    reveal_strlit("quarantine_dir");
    assert("quarantine_dir"@[0] != 't');
    reveal_strlit("favorite_weight");
    assert("favorite_weight"@[0] != 't');
    reveal_strlit("max_history");
    assert("max_history"@[0] != 't');
    reveal_strlit("scale_mode");
    assert("scale_mode"@[0] != 't');
    reveal_strlit("canvas.thumbnail_max_edge");
    assert("canvas.thumbnail_max_edge"@[0] != 't');
    reveal_strlit("canvas.cache.workers");
    assert("canvas.cache.workers"@[0] != 't');
    reveal_strlit("canvas.cache.backend");
    assert("canvas.cache.backend"@[0] != 't');
    reveal_strlit("canvas.cache.memory_mib");
    assert("canvas.cache.memory_mib"@[0] != 't');
    reveal_strlit("decode.full_workers");
    assert("decode.full_workers"@[0] != 't');
    reveal_strlit("action.next");
    assert("action.next"@[0] != 't');
    reveal_strlit("action.back");
    assert("action.back"@[0] != 't');
    reveal_strlit("action.shift_forward");
    assert("action.shift_forward"@[0] != 't');
    reveal_strlit("action.shift_back");
    assert("action.shift_back"@[0] != 't');
    reveal_strlit("action.replace");
    assert("action.replace"@[0] != 't');
    reveal_strlit("action.quarantine");
    assert("action.quarantine"@[0] != 't');
    reveal_strlit("action.startup");
    assert("action.startup"@[0] != 't');
    assert(key.take(11) =~= "transition."@);
    let rest = key.skip(11);
    assert(rest =~= name + "."@ + field);
    text::lemma_first_index(rest, '.');
    let at = name.len() as int;
    assert(rest[at] == '.');
    assert forall|i: int| 0 <= i < at implies rest[i] != '.' by {
        assert(rest[i] == name[i]);
        assert(name.contains(name[i]));
    }
    assert(text::first_index(rest, '.') == at);
    assert(rest.take(at) =~= name);
    assert(rest.skip(at + 1) =~= field);
}

/// The line of a field changes the profile that it names, and no other.
#[verifier::spinoff_prover]
proof fn lemma_profile_line(
    raw: RawView,
    host: HostView,
    path: Seq<char>,
    line: nat,
    name: Seq<char>,
    field: Seq<char>,
    value: Seq<char>,
    changed: ProfileView,
)
    requires
        is_profile_name(name),
        field.len() > 0,
        textmap::keys_ascending(raw.transition_profiles),
        config::profile_with(
            config::profile_of(raw, name),
            name,
            field,
            (PlaceView::Line { path, line, key: profile_line(name, field) }),
            value,
        ) == Ok::<Option<ProfileView>, Seq<char>>(Some(changed)),
    ensures
        config::raw_with(raw, host, path, line, profile_line(name, field), value) matches Ok(after)
            && {
            &&& after == (RawView { transition_profiles: after.transition_profiles, ..raw })
            &&& forall|other: Seq<char>| #[trigger]
                config::profile_of(after, other) == if other == name {
                    changed
                } else {
                    config::profile_of(raw, other)
                }
        },
{
    lemma_profile_key(name, field);
    let profiles = textmap::entries_insert(raw.transition_profiles, name, changed);
    let after = RawView { transition_profiles: profiles, ..raw };
    assert forall|other: Seq<char>| #[trigger]
        config::profile_of(after, other) == if other == name {
            changed
        } else {
            config::profile_of(raw, other)
        } by {
        textmap::lemma_get_after_insert(raw.transition_profiles, name, changed, other);
    }
}

/// A name without a colon is a reference to the profile of that name.
proof fn lemma_plain_reference(name: Seq<char>)
    requires
        is_profile_name(name),
    ensures
        config::reference_parts(name) == Ok::<(Seq<char>, Option<Seq<char>>), Seq<char>>(
            (name, None),
        ),
{
    text::lemma_first_index(name, ':');
}

/// Whether a name is the name of a kind of transition, whose fields other profiles take over.
pub open spec fn is_kind_name(name: Seq<char>) -> bool {
    name == "fade"@ || name == "push"@ || name == "world"@ || name == "canvas"@
}

/// The line of a field of a profile that is not named after a kind changes no other profile.
#[verifier::spinoff_prover]
pub proof fn law_profile_lines_leave_other_profiles(
    raw: RawView,
    host: HostView,
    path: Seq<char>,
    line: nat,
    name: Seq<char>,
    field: Seq<char>,
    value: Seq<char>,
    other: Seq<char>,
)
    requires
        is_profile_name(name),
        !is_kind_name(name),
        is_profile_name(other),
        other != name,
        field.len() > 0,
        textmap::keys_ascending(raw.transition_profiles),
    ensures
        config::raw_with(raw, host, path, line, profile_line(name, field), value) matches Ok(after)
            ==> config::resolved(after, other) == config::resolved(raw, other),
{
    lemma_profile_key(name, field);
    lemma_plain_reference(other);
    if let Ok(Some(changed)) = config::profile_with(
        config::profile_of(raw, name),
        name,
        field,
        PlaceView::Line { path, line, key: profile_line(name, field) },
        value,
    ) {
        lemma_profile_line(raw, host, path, line, name, field, value, changed);
    }
}

/// The line of a duration sets the duration of the profile that it names: that of its fade, its
/// push or its zoom. It leaves the rest of the profile alone.
#[verifier::spinoff_prover]
pub proof fn law_duration_lines_set_the_duration(
    raw: RawView,
    host: HostView,
    path: Seq<char>,
    line: nat,
    name: Seq<char>,
    n: nat,
)
    requires
        is_profile_name(name),
        textmap::keys_ascending(raw.transition_profiles),
        0 < n <= u64::MAX,
    ensures
        config::raw_with(
            raw,
            host,
            path,
            line,
            profile_line(name, "duration_ms"@),
            text::decimal_text(n),
        ) matches Ok(
            after,
        ) && match config::resolved(raw, name) {
            Ok(Transition::Fade { easing, .. }) => config::resolved(after, name) == Ok::<
                Transition,
                Seq<char>,
            >(
                Transition::Fade { duration_ms: n as u64, easing },
            ),
            Ok(Transition::World { easing, .. }) => config::resolved(after, name) == Ok::<
                Transition,
                Seq<char>,
            >(
                Transition::World { duration_ms: n as u64, easing },
            ),
            Ok(
                Transition::Push { direction, easing, mode, .. },
            ) => config::resolved(after, name) == Ok::<
                Transition,
                Seq<char>,
            >(
                Transition::Push { direction, duration_ms: n as u64, easing, mode },
            ),
            before => config::resolved(after, name) == before,
        },
{
    setting_law::lemma_fields_differ();
    let place = PlaceView::Line { path, line, key: profile_line(name, "duration_ms"@) };
    reveal_strlit("duration_ms");
    assert("duration_ms"@.len() > 0);
    lemma_plain_reference(name);
    setting_law::law_numbers_are_read_as_written(place, n);
    let changed = ProfileView { duration_ms: Some(n as u64), ..config::profile_of(raw, name) };
    lemma_profile_line(raw, host, path, line, name, "duration_ms"@, text::decimal_text(n), changed);
}

/// The line of an easing sets the easing of the profile that it names, and leaves the rest of the
/// profile alone.
#[verifier::spinoff_prover]
pub proof fn law_easing_lines_set_the_easing(
    raw: RawView,
    host: HostView,
    path: Seq<char>,
    line: nat,
    name: Seq<char>,
    eased: Easing,
)
    requires
        is_profile_name(name),
        textmap::keys_ascending(raw.transition_profiles),
    ensures
        config::raw_with(
            raw,
            host,
            path,
            line,
            profile_line(name, "easing"@),
            eased.name(),
        ) matches Ok(
            after,
        ) && match config::resolved(raw, name) {
            Ok(Transition::Fade { duration_ms, .. }) => config::resolved(after, name) == Ok::<
                Transition,
                Seq<char>,
            >(
                Transition::Fade { duration_ms, easing: eased },
            ),
            Ok(Transition::World { duration_ms, .. }) => config::resolved(after, name) == Ok::<
                Transition,
                Seq<char>,
            >(
                Transition::World { duration_ms, easing: eased },
            ),
            Ok(
                Transition::Push { direction, duration_ms, mode, .. },
            ) => config::resolved(after, name) == Ok::<
                Transition,
                Seq<char>,
            >(
                Transition::Push { direction, duration_ms, easing: eased, mode },
            ),
            Ok(
                Transition::Canvas {
                    zoom_out_ms,
                    pan_ms,
                    zoom_in_ms,
                    mode,
                    walk,
                    pan_axis,
                    overview_scale,
                    tile_count,
                    ..
                },
            ) => config::resolved(after, name) == Ok::<
                Transition,
                Seq<char>,
            >(
                Transition::Canvas {
                    zoom_out_ms,
                    pan_ms,
                    zoom_in_ms,
                    easing: eased,
                    mode,
                    walk,
                    pan_axis,
                    overview_scale,
                    tile_count,
                },
            ),
            before => config::resolved(after, name) == before,
        },
{
    setting_law::lemma_fields_differ();
    let place = PlaceView::Line { path, line, key: profile_line(name, "easing"@) };
    reveal_strlit("easing");
    assert("easing"@.len() > 0);
    lemma_plain_reference(name);
    eased.law_round_trip();
    let changed = ProfileView { easing: Some(eased), ..config::profile_of(raw, name) };
    lemma_profile_line(raw, host, path, line, name, "easing"@, eased.name(), changed);
}

/// The line of a direction sets the way that the profile pushes, and leaves the rest of it alone.
#[verifier::spinoff_prover]
pub proof fn law_direction_lines_set_the_direction(
    raw: RawView,
    host: HostView,
    path: Seq<char>,
    line: nat,
    name: Seq<char>,
    way: PushDirection,
)
    requires
        is_profile_name(name),
        textmap::keys_ascending(raw.transition_profiles),
        config::resolved(raw, name) is Ok,
    ensures
        config::raw_with(
            raw,
            host,
            path,
            line,
            profile_line(name, "direction"@),
            way.name(),
        ) matches Ok(
            after,
        ) && match config::resolved(raw, name) {
            Ok(
                Transition::Push { duration_ms, easing, mode, .. },
            ) => config::resolved(after, name) == Ok::<
                Transition,
                Seq<char>,
            >(
                Transition::Push { direction: way, duration_ms, easing, mode },
            ),
            before => config::resolved(after, name) == before,
        },
{
    setting_law::lemma_fields_differ();
    let place = PlaceView::Line { path, line, key: profile_line(name, "direction"@) };
    reveal_strlit("direction");
    assert("direction"@.len() > 0);
    lemma_plain_reference(name);
    way.law_round_trip();
    let changed = ProfileView { direction: Some(way), ..config::profile_of(raw, name) };
    lemma_profile_line(raw, host, path, line, name, "direction"@, way.name(), changed);
}

/// The line of the time of zooming out sets that time of the canvas profile that it names, and leaves
/// the rest of the profile alone.
#[verifier::spinoff_prover]
pub proof fn law_zoom_out_ms_lines(
    raw: RawView,
    host: HostView,
    path: Seq<char>,
    line: nat,
    name: Seq<char>,
    n: nat,
)
    requires
        is_profile_name(name),
        textmap::keys_ascending(raw.transition_profiles),
        0 < n <= u64::MAX,
    ensures
        config::raw_with(
            raw,
            host,
            path,
            line,
            profile_line(name, "zoom_out_ms"@),
            text::decimal_text(n),
        ) matches Ok(
            after,
        ) && match config::resolved(raw, name) {
            Ok(
                Transition::Canvas {
                    pan_ms,
                    zoom_in_ms,
                    easing,
                    mode,
                    walk,
                    pan_axis,
                    overview_scale,
                    tile_count,
                    ..
                },
            ) => config::resolved(after, name) == Ok::<
                Transition,
                Seq<char>,
            >(
                Transition::Canvas {
                    zoom_out_ms: n as u64,
                    pan_ms,
                    zoom_in_ms,
                    easing,
                    mode,
                    walk,
                    pan_axis,
                    overview_scale,
                    tile_count,
                },
            ),
            before => config::resolved(after, name) == before,
        },
{
    setting_law::lemma_fields_differ();
    let place = PlaceView::Line { path, line, key: profile_line(name, "zoom_out_ms"@) };
    reveal_strlit("zoom_out_ms");
    assert("zoom_out_ms"@.len() > 0);
    lemma_plain_reference(name);
    setting_law::law_numbers_are_read_as_written(place, n);
    let changed = ProfileView { canvas_out_ms: Some(n as u64), ..config::profile_of(raw, name) };
    lemma_profile_line(raw, host, path, line, name, "zoom_out_ms"@, text::decimal_text(n), changed);
}

/// The line of the time of panning sets that time of the canvas profile that it names, and leaves
/// the rest of the profile alone.
#[verifier::spinoff_prover]
pub proof fn law_pan_ms_lines(
    raw: RawView,
    host: HostView,
    path: Seq<char>,
    line: nat,
    name: Seq<char>,
    n: nat,
)
    requires
        is_profile_name(name),
        textmap::keys_ascending(raw.transition_profiles),
        0 < n <= u64::MAX,
    ensures
        config::raw_with(
            raw,
            host,
            path,
            line,
            profile_line(name, "pan_ms"@),
            text::decimal_text(n),
        ) matches Ok(
            after,
        ) && match config::resolved(raw, name) {
            Ok(
                Transition::Canvas {
                    zoom_out_ms,
                    zoom_in_ms,
                    easing,
                    mode,
                    walk,
                    pan_axis,
                    overview_scale,
                    tile_count,
                    ..
                },
            ) => config::resolved(after, name) == Ok::<
                Transition,
                Seq<char>,
            >(
                Transition::Canvas {
                    zoom_out_ms,
                    pan_ms: n as u64,
                    zoom_in_ms,
                    easing,
                    mode,
                    walk,
                    pan_axis,
                    overview_scale,
                    tile_count,
                },
            ),
            before => config::resolved(after, name) == before,
        },
{
    setting_law::lemma_fields_differ();
    let place = PlaceView::Line { path, line, key: profile_line(name, "pan_ms"@) };
    reveal_strlit("pan_ms");
    assert("pan_ms"@.len() > 0);
    lemma_plain_reference(name);
    setting_law::law_numbers_are_read_as_written(place, n);
    let changed = ProfileView { canvas_pan_ms: Some(n as u64), ..config::profile_of(raw, name) };
    lemma_profile_line(raw, host, path, line, name, "pan_ms"@, text::decimal_text(n), changed);
}

/// The line of the time of zooming in sets that time of the canvas profile that it names, and leaves
/// the rest of the profile alone.
#[verifier::spinoff_prover]
pub proof fn law_zoom_in_ms_lines(
    raw: RawView,
    host: HostView,
    path: Seq<char>,
    line: nat,
    name: Seq<char>,
    n: nat,
)
    requires
        is_profile_name(name),
        textmap::keys_ascending(raw.transition_profiles),
        0 < n <= u64::MAX,
    ensures
        config::raw_with(
            raw,
            host,
            path,
            line,
            profile_line(name, "zoom_in_ms"@),
            text::decimal_text(n),
        ) matches Ok(
            after,
        ) && match config::resolved(raw, name) {
            Ok(
                Transition::Canvas {
                    zoom_out_ms,
                    pan_ms,
                    easing,
                    mode,
                    walk,
                    pan_axis,
                    overview_scale,
                    tile_count,
                    ..
                },
            ) => config::resolved(after, name) == Ok::<
                Transition,
                Seq<char>,
            >(
                Transition::Canvas {
                    zoom_out_ms,
                    pan_ms,
                    zoom_in_ms: n as u64,
                    easing,
                    mode,
                    walk,
                    pan_axis,
                    overview_scale,
                    tile_count,
                },
            ),
            before => config::resolved(after, name) == before,
        },
{
    setting_law::lemma_fields_differ();
    let place = PlaceView::Line { path, line, key: profile_line(name, "zoom_in_ms"@) };
    reveal_strlit("zoom_in_ms");
    assert("zoom_in_ms"@.len() > 0);
    lemma_plain_reference(name);
    setting_law::law_numbers_are_read_as_written(place, n);
    let changed = ProfileView { canvas_in_ms: Some(n as u64), ..config::profile_of(raw, name) };
    lemma_profile_line(raw, host, path, line, name, "zoom_in_ms"@, text::decimal_text(n), changed);
}

/// The line of the axis sets the axis of the canvas profile that it names, and leaves the rest of
/// the profile alone.
#[verifier::spinoff_prover]
pub proof fn law_pan_axis_lines(
    raw: RawView,
    host: HostView,
    path: Seq<char>,
    line: nat,
    name: Seq<char>,
    axis: CanvasPanAxis,
)
    requires
        is_profile_name(name),
        textmap::keys_ascending(raw.transition_profiles),
    ensures
        config::raw_with(
            raw,
            host,
            path,
            line,
            profile_line(name, "pan_axis"@),
            axis.name(),
        ) matches Ok(
            after,
        ) && match config::resolved(raw, name) {
            Ok(
                Transition::Canvas {
                    zoom_out_ms,
                    pan_ms,
                    zoom_in_ms,
                    easing,
                    mode,
                    walk,
                    overview_scale,
                    tile_count,
                    ..
                },
            ) => config::resolved(after, name) == Ok::<
                Transition,
                Seq<char>,
            >(
                Transition::Canvas {
                    zoom_out_ms,
                    pan_ms,
                    zoom_in_ms,
                    easing,
                    mode,
                    walk,
                    pan_axis: axis,
                    overview_scale,
                    tile_count,
                },
            ),
            before => config::resolved(after, name) == before,
        },
{
    setting_law::lemma_fields_differ();
    let place = PlaceView::Line { path, line, key: profile_line(name, "pan_axis"@) };
    reveal_strlit("pan_axis");
    assert("pan_axis"@.len() > 0);
    lemma_plain_reference(name);
    axis.law_round_trip();
    let changed = ProfileView { canvas_pan_axis: Some(axis), ..config::profile_of(raw, name) };
    lemma_profile_line(raw, host, path, line, name, "pan_axis"@, axis.name(), changed);
}

/// The line of the overview's scale sets that scale of the canvas profile that it names, and leaves
/// the rest of the profile alone.
#[verifier::spinoff_prover]
pub proof fn law_overview_scale_lines(
    raw: RawView,
    host: HostView,
    path: Seq<char>,
    line: nat,
    name: Seq<char>,
    value: Seq<char>,
    scale: OverviewScale,
)
    requires
        is_profile_name(name),
        textmap::keys_ascending(raw.transition_profiles),
        config::scale_setting(
            (PlaceView::Line { path, line, key: profile_line(name, "overview_scale"@) }),
            value,
        ) == Ok::<OverviewScale, Seq<char>>(scale),
    ensures
        config::raw_with(
            raw,
            host,
            path,
            line,
            profile_line(name, "overview_scale"@),
            value,
        ) matches Ok(
            after,
        ) && match config::resolved(raw, name) {
            Ok(
                Transition::Canvas {
                    zoom_out_ms,
                    pan_ms,
                    zoom_in_ms,
                    easing,
                    mode,
                    walk,
                    pan_axis,
                    tile_count,
                    ..
                },
            ) => config::resolved(after, name) == Ok::<
                Transition,
                Seq<char>,
            >(
                Transition::Canvas {
                    zoom_out_ms,
                    pan_ms,
                    zoom_in_ms,
                    easing,
                    mode,
                    walk,
                    pan_axis,
                    overview_scale: scale,
                    tile_count,
                },
            ),
            before => config::resolved(after, name) == before,
        },
{
    setting_law::lemma_fields_differ();
    let place = PlaceView::Line { path, line, key: profile_line(name, "overview_scale"@) };
    reveal_strlit("overview_scale");
    assert("overview_scale"@.len() > 0);
    lemma_plain_reference(name);
    let changed = ProfileView {
        canvas_overview_scale: Some(scale),
        ..config::profile_of(raw, name)
    };
    lemma_profile_line(raw, host, path, line, name, "overview_scale"@, value, changed);
}

/// The line of the number of tiles sets that number of the canvas profile that it names, and leaves
/// the rest of the profile alone.
#[verifier::spinoff_prover]
pub proof fn law_tile_count_lines(
    raw: RawView,
    host: HostView,
    path: Seq<char>,
    line: nat,
    name: Seq<char>,
    n: nat,
)
    requires
        is_profile_name(name),
        textmap::keys_ascending(raw.transition_profiles),
        0 < n <= MAX_CANVAS_TILE_COUNT,
    ensures
        config::raw_with(
            raw,
            host,
            path,
            line,
            profile_line(name, "tile_count"@),
            text::decimal_text(n),
        ) matches Ok(
            after,
        ) && match config::resolved(raw, name) {
            Ok(
                Transition::Canvas {
                    zoom_out_ms,
                    pan_ms,
                    zoom_in_ms,
                    easing,
                    mode,
                    walk,
                    pan_axis,
                    overview_scale,
                    ..
                },
            ) => config::resolved(after, name) == Ok::<
                Transition,
                Seq<char>,
            >(
                Transition::Canvas {
                    zoom_out_ms,
                    pan_ms,
                    zoom_in_ms,
                    easing,
                    mode,
                    walk,
                    pan_axis,
                    overview_scale,
                    tile_count: CanvasTileCount::Fixed(n as usize),
                },
            ),
            before => config::resolved(after, name) == before,
        },
{
    setting_law::lemma_fields_differ();
    let place = PlaceView::Line { path, line, key: profile_line(name, "tile_count"@) };
    reveal_strlit("tile_count");
    assert("tile_count"@.len() > 0);
    lemma_plain_reference(name);
    setting_law::law_numbers_are_read_as_written(place, n);
    let changed = ProfileView {
        canvas_tile_count: Some(RawCanvasTileCount::Fixed(n as usize)),
        ..config::profile_of(raw, name)
    };
    lemma_profile_line(raw, host, path, line, name, "tile_count"@, text::decimal_text(n), changed);
}

/// The line of the largest number of tiles sets that number of the canvas profile that it names,
/// where the profile finds the number of tiles itself. It leaves the rest of the profile alone.
#[verifier::spinoff_prover]
pub proof fn law_max_tile_count_lines(
    raw: RawView,
    host: HostView,
    path: Seq<char>,
    line: nat,
    name: Seq<char>,
    n: nat,
)
    requires
        is_profile_name(name),
        textmap::keys_ascending(raw.transition_profiles),
        0 < n <= MAX_CANVAS_TILE_COUNT,
    ensures
        config::raw_with(
            raw,
            host,
            path,
            line,
            profile_line(name, "max_tile_count"@),
            text::decimal_text(n),
        ) matches Ok(
            after,
        ) && match config::resolved(raw, name) {
            Ok(
                Transition::Canvas {
                    zoom_out_ms,
                    pan_ms,
                    zoom_in_ms,
                    easing,
                    mode,
                    walk,
                    pan_axis,
                    overview_scale,
                    tile_count: CanvasTileCount::Auto { .. },
                },
            ) => config::resolved(after, name) == Ok::<
                Transition,
                Seq<char>,
            >(
                Transition::Canvas {
                    zoom_out_ms,
                    pan_ms,
                    zoom_in_ms,
                    easing,
                    mode,
                    walk,
                    pan_axis,
                    overview_scale,
                    tile_count: CanvasTileCount::Auto { max: Some(n as usize) },
                },
            ),
            before => config::resolved(after, name) == before,
        },
{
    setting_law::lemma_fields_differ();
    let place = PlaceView::Line { path, line, key: profile_line(name, "max_tile_count"@) };
    reveal_strlit("max_tile_count");
    assert("max_tile_count"@.len() > 0);
    lemma_plain_reference(name);
    setting_law::law_numbers_are_read_as_written(place, n);
    let changed = ProfileView {
        canvas_max_tile_count: Some(n as usize),
        ..config::profile_of(raw, name)
    };
    lemma_profile_line(
        raw,
        host,
        path,
        line,
        name,
        "max_tile_count"@,
        text::decimal_text(n),
        changed,
    );
}

/// The line of the walk sets the walk of the canvas profile that it names, unless its mode only
/// goes with a strip. It leaves the rest of the profile alone.
#[verifier::spinoff_prover]
pub proof fn law_walk_lines(
    raw: RawView,
    host: HostView,
    path: Seq<char>,
    line: nat,
    name: Seq<char>,
    way: CanvasWalk,
)
    requires
        is_profile_name(name),
        textmap::keys_ascending(raw.transition_profiles),
        config::resolved(raw, name) is Ok,
    ensures
        config::raw_with(raw, host, path, line, profile_line(name, "walk"@), way.name()) matches Ok(
            after,
        ) && match config::resolved(raw, name) {
            Ok(
                Transition::Canvas {
                    zoom_out_ms,
                    pan_ms,
                    zoom_in_ms,
                    easing,
                    mode,
                    pan_axis,
                    overview_scale,
                    tile_count,
                    ..
                },
            ) => if way is Paged && (mode is Collage || mode is Span) {
                config::resolved(after, name) is Err
            } else {
                config::resolved(after, name) == Ok::<Transition, Seq<char>>(
                Transition::Canvas {
                    zoom_out_ms,
                    pan_ms,
                    zoom_in_ms,
                    easing,
                    mode,
                    walk: way,
                    pan_axis,
                    overview_scale,
                    tile_count,
                },
            )
            },
            before => config::resolved(after, name) == before,
        },
{
    setting_law::lemma_fields_differ();
    let place = PlaceView::Line { path, line, key: profile_line(name, "walk"@) };
    reveal_strlit("walk");
    assert("walk"@.len() > 0);
    lemma_plain_reference(name);
    way.law_round_trip();
    let changed = ProfileView { canvas_walk: Some(way), ..config::profile_of(raw, name) };
    lemma_profile_line(raw, host, path, line, name, "walk"@, way.name(), changed);
}

/// The line of the mode of a push sets the mode of the profile that it names, and leaves the rest
/// of the profile alone.
#[verifier::spinoff_prover]
pub proof fn law_push_mode_lines(
    raw: RawView,
    host: HostView,
    path: Seq<char>,
    line: nat,
    name: Seq<char>,
    pushed: PushMode,
)
    requires
        is_profile_name(name),
        textmap::keys_ascending(raw.transition_profiles),
        config::resolved(raw, name) is Ok,
        name != "canvas"@,
    ensures
        config::raw_with(
            raw,
            host,
            path,
            line,
            profile_line(name, "mode"@),
            pushed.name(),
        ) matches Ok(
            after,
        ) && match config::resolved(raw, name) {
            Ok(
                Transition::Push { direction, duration_ms, easing, .. },
            ) => config::resolved(after, name) == Ok::<
                Transition,
                Seq<char>,
            >(
                Transition::Push { direction, duration_ms, easing, mode: pushed },
            ),
            Ok(Transition::Canvas { .. }) => true,
            before => config::resolved(after, name) == before,
        },
{
    setting_law::lemma_fields_differ();
    let place = PlaceView::Line { path, line, key: profile_line(name, "mode"@) };
    reveal_strlit("mode");
    assert("mode"@.len() > 0);
    lemma_plain_reference(name);
    pushed.law_round_trip();
    reveal_strlit("push");
    reveal_strlit("canvas");
    let changed = ProfileView {
        mode_value: Some(pushed.name()),
        push_mode: Some(pushed),
        canvas_mode: if name == "push"@ {
            None
        } else {
            config::ok_of(CanvasMode::named(pushed.name()))
        },
        ..config::profile_of(raw, name)
    };
    lemma_profile_line(raw, host, path, line, name, "mode"@, pushed.name(), changed);
}

/// The line of the mode of a canvas sets the mode of the profile that it names, unless it only goes
/// with a strip and the profile does not. It leaves the rest of the profile alone.
#[verifier::spinoff_prover]
pub proof fn law_canvas_mode_lines(
    raw: RawView,
    host: HostView,
    path: Seq<char>,
    line: nat,
    name: Seq<char>,
    shape: CanvasMode,
)
    requires
        is_profile_name(name),
        textmap::keys_ascending(raw.transition_profiles),
        config::resolved(raw, name) is Ok,
        name != "push"@,
    ensures
        config::raw_with(
            raw,
            host,
            path,
            line,
            profile_line(name, "mode"@),
            shape.name(),
        ) matches Ok(
            after,
        ) && match config::resolved(raw, name) {
            Ok(
                Transition::Canvas {
                    zoom_out_ms,
                    pan_ms,
                    zoom_in_ms,
                    easing,
                    walk,
                    pan_axis,
                    overview_scale,
                    tile_count,
                    ..
                },
            ) => if walk is Paged && (shape is Collage || shape is Span) {
                config::resolved(after, name) is Err
            } else {
                config::resolved(after, name) == Ok::<Transition, Seq<char>>(
                Transition::Canvas {
                    zoom_out_ms,
                    pan_ms,
                    zoom_in_ms,
                    easing,
                    mode: shape,
                    walk,
                    pan_axis,
                    overview_scale,
                    tile_count,
                },
            )
            },
            Ok(Transition::Push { .. }) => true,
            before => config::resolved(after, name) == before,
        },
{
    setting_law::lemma_fields_differ();
    let place = PlaceView::Line { path, line, key: profile_line(name, "mode"@) };
    reveal_strlit("mode");
    assert("mode"@.len() > 0);
    lemma_plain_reference(name);
    shape.law_round_trip();
    reveal_strlit("push");
    reveal_strlit("canvas");
    let changed = ProfileView {
        mode_value: Some(shape.name()),
        canvas_mode: Some(shape),
        push_mode: if name == "canvas"@ {
            None
        } else {
            config::ok_of(PushMode::named(shape.name()))
        },
        ..config::profile_of(raw, name)
    };
    lemma_profile_line(raw, host, path, line, name, "mode"@, shape.name(), changed);
}

/// A profile that says nothing but its kind is like the kind itself; a push still needs to be
/// told the way.
#[verifier::spinoff_prover]
pub proof fn law_profiles_take_over_from_their_kind(
    raw: RawView,
    name: Seq<char>,
    kind: TransitionKind,
)
    requires
        is_profile_name(name),
        config::profile_of(raw, name) == (ProfileView {
            kind: Some(kind),
            ..config::empty_profile()
        }),
        config::kind_of(raw, kind.name()) == Some(kind),
        kind is Fade || kind is World || kind is Canvas,
        config::resolved(raw, kind.name()) is Ok,
    ensures
        config::resolved(raw, name) == config::resolved(raw, kind.name()),
{
    lemma_plain_reference(name);
    reveal_strlit("fade");
    reveal_strlit("world");
    reveal_strlit("canvas");
    reveal_strlit("push");
    text::lemma_first_index(kind.name(), ':');
    assert("canvas"@.len() == 6);
    assert("fade"@.len() == 4);
    assert("world"@.len() == 5);
    assert(!kind.name().contains(':')) by {
        assert forall|i: int| 0 <= i < kind.name().len() implies kind.name()[i] != ':' by {
            match kind {
                TransitionKind::Fade => {
                    assert("fade"@[i] != ':');
                },
                TransitionKind::World => {
                    assert("world"@[i] != ':');
                },
                _ => {
                    assert("canvas"@[i] != ':');
                },
            }
        }
    }
}

/// The line of the fallback says which transition stands in for the world, and is refused where
/// that is neither a cut nor a push.
#[verifier::spinoff_prover]
pub proof fn law_fallback_line(
    raw: RawView,
    host: HostView,
    path: Seq<char>,
    line: nat,
    value: Seq<char>,
)
    requires
        textmap::keys_ascending(raw.transition_profiles),
        is_profile_name(value),
    ensures
        config::raw_with(raw, host, path, line, profile_line("world"@, "fallback"@), value)
            matches Ok(after) && match config::resolved(raw, value) {
            Ok(transition) => if transition is Cut || transition is Push {
                config::fallback_of(after) == Ok::<Option<Transition>, Seq<char>>(Some(transition))
            } else {
                config::fallback_of(after) is Err
            },
            Err(message) => config::fallback_of(after) == Err::<Option<Transition>, Seq<char>>(
                message,
            ),
        },
{
    setting_law::lemma_fields_differ();
    reveal_strlit("fallback");
    reveal_strlit("world");
    assert("fallback"@.len() > 0);
    assert("world"@.len() == 5);
    assert(is_profile_name("world"@)) by {
        assert forall|i: int| 0 <= i < 5 implies "world"@[i] != '.' && "world"@[i] != ':' by {}
    }
    lemma_plain_reference(value);
    let changed = ProfileView { fallback: Some(value), ..config::profile_of(raw, "world"@) };
    lemma_profile_line(raw, host, path, line, "world"@, "fallback"@, value, changed);
}

// ---------------------------------------------------------------------------
// Variables

proof fn lemma_canvas_reference()
    ensures
        config::reference_parts("canvas"@) == Ok::<(Seq<char>, Option<Seq<char>>), Seq<char>>(
            ("canvas"@, None),
        ),
{
    reveal_strlit("canvas");
    assert("canvas"@.len() == 6);
    text::lemma_first_index("canvas"@, ':');
    assert forall|i: int| 0 <= i < 6 implies "canvas"@[i] != ':' by {}
}

/// The variable of the time of zooming out sets that time where no profile does, and nothing else.
#[verifier::spinoff_prover]
pub proof fn law_zoom_out_ms_variable(raw: RawView, host: HostView, n: nat)
    requires
        config::profile_of(raw, "canvas"@) == config::empty_profile(),
        0 < n <= u64::MAX,
    ensures
        config::with_variable(raw, host, "MURAL_CANVAS_ZOOM_OUT_MS"@, text::decimal_text(n)) matches Ok(
            after,
        ) && match config::resolved(raw, "canvas"@) {
            Ok(
                Transition::Canvas {
                    pan_ms,
                    zoom_in_ms,
                    easing,
                    mode,
                    walk,
                    pan_axis,
                    overview_scale,
                    tile_count,
                    ..
                },
            ) => config::resolved(after, "canvas"@) == Ok::<
                Transition,
                Seq<char>,
            >(
                Transition::Canvas {
                    zoom_out_ms: n as u64,
                    pan_ms,
                    zoom_in_ms,
                    easing,
                    mode,
                    walk,
                    pan_axis,
                    overview_scale,
                    tile_count,
                },
            ),
            before => config::resolved(after, "canvas"@) == before,
        },
{
    setting_law::lemma_variables_differ();
    let place = PlaceView::Variable { name: "MURAL_CANVAS_ZOOM_OUT_MS"@ };
    lemma_canvas_reference();
    setting_law::law_numbers_are_read_as_written(place, n);
    let after = config::with_variable(
        raw,
        host,
        "MURAL_CANVAS_ZOOM_OUT_MS"@,
        text::decimal_text(n),
    )->Ok_0;
    assert(config::profile_of(after, "canvas"@) == config::empty_profile());
}

/// The variable of the time of panning sets that time where no profile does, and nothing else.
#[verifier::spinoff_prover]
pub proof fn law_pan_ms_variable(raw: RawView, host: HostView, n: nat)
    requires
        config::profile_of(raw, "canvas"@) == config::empty_profile(),
        0 < n <= u64::MAX,
    ensures
        config::with_variable(raw, host, "MURAL_CANVAS_PAN_MS"@, text::decimal_text(n)) matches Ok(
            after,
        ) && match config::resolved(raw, "canvas"@) {
            Ok(
                Transition::Canvas {
                    zoom_out_ms,
                    zoom_in_ms,
                    easing,
                    mode,
                    walk,
                    pan_axis,
                    overview_scale,
                    tile_count,
                    ..
                },
            ) => config::resolved(after, "canvas"@) == Ok::<
                Transition,
                Seq<char>,
            >(
                Transition::Canvas {
                    zoom_out_ms,
                    pan_ms: n as u64,
                    zoom_in_ms,
                    easing,
                    mode,
                    walk,
                    pan_axis,
                    overview_scale,
                    tile_count,
                },
            ),
            before => config::resolved(after, "canvas"@) == before,
        },
{
    setting_law::lemma_variables_differ();
    let place = PlaceView::Variable { name: "MURAL_CANVAS_PAN_MS"@ };
    lemma_canvas_reference();
    setting_law::law_numbers_are_read_as_written(place, n);
    let after = config::with_variable(
        raw,
        host,
        "MURAL_CANVAS_PAN_MS"@,
        text::decimal_text(n),
    )->Ok_0;
    assert(config::profile_of(after, "canvas"@) == config::empty_profile());
}

/// The variable of the time of zooming in sets that time where no profile does, and nothing else.
#[verifier::spinoff_prover]
pub proof fn law_zoom_in_ms_variable(raw: RawView, host: HostView, n: nat)
    requires
        config::profile_of(raw, "canvas"@) == config::empty_profile(),
        0 < n <= u64::MAX,
    ensures
        config::with_variable(raw, host, "MURAL_CANVAS_ZOOM_IN_MS"@, text::decimal_text(n)) matches Ok(
            after,
        ) && match config::resolved(raw, "canvas"@) {
            Ok(
                Transition::Canvas {
                    zoom_out_ms,
                    pan_ms,
                    easing,
                    mode,
                    walk,
                    pan_axis,
                    overview_scale,
                    tile_count,
                    ..
                },
            ) => config::resolved(after, "canvas"@) == Ok::<
                Transition,
                Seq<char>,
            >(
                Transition::Canvas {
                    zoom_out_ms,
                    pan_ms,
                    zoom_in_ms: n as u64,
                    easing,
                    mode,
                    walk,
                    pan_axis,
                    overview_scale,
                    tile_count,
                },
            ),
            before => config::resolved(after, "canvas"@) == before,
        },
{
    setting_law::lemma_variables_differ();
    let place = PlaceView::Variable { name: "MURAL_CANVAS_ZOOM_IN_MS"@ };
    lemma_canvas_reference();
    setting_law::law_numbers_are_read_as_written(place, n);
    let after = config::with_variable(
        raw,
        host,
        "MURAL_CANVAS_ZOOM_IN_MS"@,
        text::decimal_text(n),
    )->Ok_0;
    assert(config::profile_of(after, "canvas"@) == config::empty_profile());
}

/// The variable of the axis sets it where no profile does, and nothing else.
#[verifier::spinoff_prover]
pub proof fn law_pan_axis_variable(raw: RawView, host: HostView, axis: CanvasPanAxis)
    requires
        config::profile_of(raw, "canvas"@) == config::empty_profile(),
    ensures
        config::with_variable(raw, host, "MURAL_CANVAS_PAN_AXIS"@, axis.name()) matches Ok(
            after,
        ) && match config::resolved(raw, "canvas"@) {
            Ok(
                Transition::Canvas {
                    zoom_out_ms,
                    pan_ms,
                    zoom_in_ms,
                    easing,
                    mode,
                    walk,
                    overview_scale,
                    tile_count,
                    ..
                },
            ) => config::resolved(after, "canvas"@) == Ok::<
                Transition,
                Seq<char>,
            >(
                Transition::Canvas {
                    zoom_out_ms,
                    pan_ms,
                    zoom_in_ms,
                    easing,
                    mode,
                    walk,
                    pan_axis: axis,
                    overview_scale,
                    tile_count,
                },
            ),
            before => config::resolved(after, "canvas"@) == before,
        },
{
    setting_law::lemma_variables_differ();
    let place = PlaceView::Variable { name: "MURAL_CANVAS_PAN_AXIS"@ };
    lemma_canvas_reference();
    axis.law_round_trip();
    let after = config::with_variable(raw, host, "MURAL_CANVAS_PAN_AXIS"@, axis.name())->Ok_0;
    assert(config::profile_of(after, "canvas"@) == config::empty_profile());
}

/// The variable of the number of tiles sets it where no profile does, and nothing else.
#[verifier::spinoff_prover]
pub proof fn law_tile_count_variable(raw: RawView, host: HostView, n: nat)
    requires
        config::profile_of(raw, "canvas"@) == config::empty_profile(),
        0 < n <= MAX_CANVAS_TILE_COUNT,
    ensures
        config::with_variable(raw, host, "MURAL_CANVAS_TILE_COUNT"@, text::decimal_text(n)) matches Ok(
            after,
        ) && match config::resolved(raw, "canvas"@) {
            Ok(
                Transition::Canvas {
                    zoom_out_ms,
                    pan_ms,
                    zoom_in_ms,
                    easing,
                    mode,
                    walk,
                    pan_axis,
                    overview_scale,
                    ..
                },
            ) => config::resolved(after, "canvas"@) == Ok::<
                Transition,
                Seq<char>,
            >(
                Transition::Canvas {
                    zoom_out_ms,
                    pan_ms,
                    zoom_in_ms,
                    easing,
                    mode,
                    walk,
                    pan_axis,
                    overview_scale,
                    tile_count: CanvasTileCount::Fixed(n as usize),
                },
            ),
            before => config::resolved(after, "canvas"@) == before,
        },
{
    setting_law::lemma_variables_differ();
    let place = PlaceView::Variable { name: "MURAL_CANVAS_TILE_COUNT"@ };
    lemma_canvas_reference();
    setting_law::law_numbers_are_read_as_written(place, n);
    let after = config::with_variable(
        raw,
        host,
        "MURAL_CANVAS_TILE_COUNT"@,
        text::decimal_text(n),
    )->Ok_0;
    assert(config::profile_of(after, "canvas"@) == config::empty_profile());
}

/// The variable of the largest number of tiles sets it where no profile does, and nothing else.
#[verifier::spinoff_prover]
pub proof fn law_max_tile_count_variable(raw: RawView, host: HostView, n: nat)
    requires
        config::profile_of(raw, "canvas"@) == config::empty_profile(),
        0 < n <= MAX_CANVAS_TILE_COUNT,
    ensures
        config::with_variable(raw, host, "MURAL_CANVAS_MAX_TILE_COUNT"@, text::decimal_text(n)) matches Ok(
            after,
        ) && match config::resolved(raw, "canvas"@) {
            Ok(
                Transition::Canvas {
                    zoom_out_ms,
                    pan_ms,
                    zoom_in_ms,
                    easing,
                    mode,
                    walk,
                    pan_axis,
                    overview_scale,
                    tile_count: CanvasTileCount::Auto { .. },
                },
            ) => config::resolved(after, "canvas"@) == Ok::<
                Transition,
                Seq<char>,
            >(
                Transition::Canvas {
                    zoom_out_ms,
                    pan_ms,
                    zoom_in_ms,
                    easing,
                    mode,
                    walk,
                    pan_axis,
                    overview_scale,
                    tile_count: CanvasTileCount::Auto { max: Some(n as usize) },
                },
            ),
            before => config::resolved(after, "canvas"@) == before,
        },
{
    setting_law::lemma_variables_differ();
    let place = PlaceView::Variable { name: "MURAL_CANVAS_MAX_TILE_COUNT"@ };
    lemma_canvas_reference();
    setting_law::law_numbers_are_read_as_written(place, n);
    let after = config::with_variable(
        raw,
        host,
        "MURAL_CANVAS_MAX_TILE_COUNT"@,
        text::decimal_text(n),
    )->Ok_0;
    assert(config::profile_of(after, "canvas"@) == config::empty_profile());
}

/// The variable of the walk sets it where no profile does, unless the mode only goes with a strip.
/// It sets nothing else.
#[verifier::spinoff_prover]
pub proof fn law_walk_variable(raw: RawView, host: HostView, way: CanvasWalk)
    requires
        config::profile_of(raw, "canvas"@) == config::empty_profile(),
        config::resolved(raw, "canvas"@) is Ok,
    ensures
        config::with_variable(raw, host, "MURAL_CANVAS_WALK"@, way.name()) matches Ok(
            after,
        ) && match config::resolved(raw, "canvas"@) {
            Ok(
                Transition::Canvas {
                    zoom_out_ms,
                    pan_ms,
                    zoom_in_ms,
                    easing,
                    mode,
                    pan_axis,
                    overview_scale,
                    tile_count,
                    ..
                },
            ) => if way is Paged && (mode is Collage || mode is Span) {
                config::resolved(after, "canvas"@) is Err
            } else {
                config::resolved(after, "canvas"@) == Ok::<Transition, Seq<char>>(
                Transition::Canvas {
                    zoom_out_ms,
                    pan_ms,
                    zoom_in_ms,
                    easing,
                    mode,
                    walk: way,
                    pan_axis,
                    overview_scale,
                    tile_count,
                },
            )
            },
            before => config::resolved(after, "canvas"@) == before,
        },
{
    setting_law::lemma_variables_differ();
    let place = PlaceView::Variable { name: "MURAL_CANVAS_WALK"@ };
    lemma_canvas_reference();
    way.law_round_trip();
    let after = config::with_variable(raw, host, "MURAL_CANVAS_WALK"@, way.name())->Ok_0;
    assert(config::profile_of(after, "canvas"@) == config::empty_profile());
}

/// The variable of the mode sets it where no profile does, unless it only goes with a strip and the
/// walk is another. It sets nothing else.
#[verifier::spinoff_prover]
pub proof fn law_mode_variable(raw: RawView, host: HostView, shape: CanvasMode)
    requires
        config::profile_of(raw, "canvas"@) == config::empty_profile(),
        config::resolved(raw, "canvas"@) is Ok,
    ensures
        config::with_variable(raw, host, "MURAL_CANVAS_MODE"@, shape.name()) matches Ok(
            after,
        ) && match config::resolved(raw, "canvas"@) {
            Ok(
                Transition::Canvas {
                    zoom_out_ms,
                    pan_ms,
                    zoom_in_ms,
                    easing,
                    walk,
                    pan_axis,
                    overview_scale,
                    tile_count,
                    ..
                },
            ) => if walk is Paged && (shape is Collage || shape is Span) {
                config::resolved(after, "canvas"@) is Err
            } else {
                config::resolved(after, "canvas"@) == Ok::<Transition, Seq<char>>(
                Transition::Canvas {
                    zoom_out_ms,
                    pan_ms,
                    zoom_in_ms,
                    easing,
                    mode: shape,
                    walk,
                    pan_axis,
                    overview_scale,
                    tile_count,
                },
            )
            },
            before => config::resolved(after, "canvas"@) == before,
        },
{
    setting_law::lemma_variables_differ();
    let place = PlaceView::Variable { name: "MURAL_CANVAS_MODE"@ };
    lemma_canvas_reference();
    shape.law_round_trip();
    let after = config::with_variable(raw, host, "MURAL_CANVAS_MODE"@, shape.name())->Ok_0;
    assert(config::profile_of(after, "canvas"@) == config::empty_profile());
}

/// The variable of the overview's scale sets it where no profile does, and nothing else.
#[verifier::spinoff_prover]
pub proof fn law_overview_scale_variable(
    raw: RawView,
    host: HostView,
    value: Seq<char>,
    scale: OverviewScale,
)
    requires
        config::profile_of(raw, "canvas"@) == config::empty_profile(),
        config::scale_setting(
            (PlaceView::Variable { name: "MURAL_CANVAS_OVERVIEW_SCALE"@ }),
            value,
        ) == Ok::<OverviewScale, Seq<char>>(scale),
    ensures
        config::with_variable(raw, host, "MURAL_CANVAS_OVERVIEW_SCALE"@, value) matches Ok(
            after,
        ) && match config::resolved(raw, "canvas"@) {
            Ok(
                Transition::Canvas {
                    zoom_out_ms,
                    pan_ms,
                    zoom_in_ms,
                    easing,
                    mode,
                    walk,
                    pan_axis,
                    tile_count,
                    ..
                },
            ) => config::resolved(after, "canvas"@) == Ok::<
                Transition,
                Seq<char>,
            >(
                Transition::Canvas {
                    zoom_out_ms,
                    pan_ms,
                    zoom_in_ms,
                    easing,
                    mode,
                    walk,
                    pan_axis,
                    overview_scale: scale,
                    tile_count,
                },
            ),
            before => config::resolved(after, "canvas"@) == before,
        },
{
    setting_law::lemma_variables_differ();
    let place = PlaceView::Variable { name: "MURAL_CANVAS_OVERVIEW_SCALE"@ };
    lemma_canvas_reference();
    let after = config::with_variable(raw, host, "MURAL_CANVAS_OVERVIEW_SCALE"@, value)->Ok_0;
    assert(config::profile_of(after, "canvas"@) == config::empty_profile());
}

/// The variables of the whole configuration set what the lines of the same names set.
#[verifier::spinoff_prover]
pub proof fn law_variables_set_what_lines_set(
    raw: RawView,
    host: HostView,
    n: nat,
    mode: ScaleMode,
    backend: CacheBackend,
    parallelism: usize,
)
    requires
        0 < n <= u32::MAX,
        host.parallelism == parallelism,
        config::built(raw, parallelism) is Ok,
    ensures
        ({
            let before = config::built(raw, parallelism)->Ok_0;
            let written = text::decimal_text(n);
            let set = |name: Seq<char>, value: Seq<char>| config::built(
                config::with_variable(raw, host, name, value)->Ok_0,
                parallelism,
            );
            let workers: usize = if n <= parallelism && n <= 32 {
                n as usize
            } else if parallelism == 0 {
                1
            } else if parallelism <= 32 {
                parallelism
            } else {
                32
            };
            &&& set("MURAL_SCALE_MODE"@, mode.name()) == Ok::<ConfigView, Seq<char>>(
                ConfigView { scale_mode: mode, ..before },
            )
            &&& set("MURAL_CANVAS_CACHE_BACKEND"@, backend.name()) == Ok::<ConfigView, Seq<char>>(
                ConfigView { canvas_cache_backend: backend, ..before },
            )
            &&& set("MURAL_CANVAS_THUMBNAIL_MAX_EDGE"@, written) == Ok::<ConfigView, Seq<char>>(
                ConfigView { canvas_thumbnail_max_edge: n as u32, ..before },
            )
            &&& set("MURAL_CANVAS_CACHE_WORKERS"@, written) == Ok::<ConfigView, Seq<char>>(
                ConfigView { canvas_cache_workers: workers, ..before },
            )
            &&& set("MURAL_DECODE_FULL_WORKERS"@, written) == Ok::<ConfigView, Seq<char>>(
                ConfigView { decode_full_workers: workers, ..before },
            )
            &&& set("MURAL_CANVAS_CACHE_MEMORY_MIB"@, written) == Ok::<ConfigView, Seq<char>>(
                ConfigView {
                    canvas_cache_memory_bytes: if n * 1048576 <= usize::MAX {
                        (n * 1048576) as usize
                    } else {
                        usize::MAX
                    },
                    ..before
                },
            )
        }),
{
    setting_law::lemma_variables_differ();
    mode.law_round_trip();
    backend.law_round_trip();
    let written = text::decimal_text(n);
    setting_law::law_numbers_are_read_as_written(
        PlaceView::Variable { name: "MURAL_SCALE_MODE"@ },
        n,
    );
    lemma_same_built(
        raw,
        config::with_variable(raw, host, "MURAL_SCALE_MODE"@, mode.name())->Ok_0,
        parallelism,
    );
    setting_law::law_numbers_are_read_as_written(
        PlaceView::Variable { name: "MURAL_CANVAS_CACHE_BACKEND"@ },
        n,
    );
    lemma_same_built(
        raw,
        config::with_variable(raw, host, "MURAL_CANVAS_CACHE_BACKEND"@, backend.name())->Ok_0,
        parallelism,
    );
    setting_law::law_numbers_are_read_as_written(
        PlaceView::Variable { name: "MURAL_CANVAS_THUMBNAIL_MAX_EDGE"@ },
        n,
    );
    lemma_same_built(
        raw,
        config::with_variable(raw, host, "MURAL_CANVAS_THUMBNAIL_MAX_EDGE"@, written)->Ok_0,
        parallelism,
    );
    setting_law::law_numbers_are_read_as_written(
        PlaceView::Variable { name: "MURAL_CANVAS_CACHE_WORKERS"@ },
        n,
    );
    lemma_same_built(
        raw,
        config::with_variable(raw, host, "MURAL_CANVAS_CACHE_WORKERS"@, written)->Ok_0,
        parallelism,
    );
    setting_law::law_numbers_are_read_as_written(
        PlaceView::Variable { name: "MURAL_DECODE_FULL_WORKERS"@ },
        n,
    );
    lemma_same_built(
        raw,
        config::with_variable(raw, host, "MURAL_DECODE_FULL_WORKERS"@, written)->Ok_0,
        parallelism,
    );
    setting_law::law_numbers_are_read_as_written(
        PlaceView::Variable { name: "MURAL_CANVAS_CACHE_MEMORY_MIB"@ },
        n,
    );
    lemma_same_built(
        raw,
        config::with_variable(raw, host, "MURAL_CANVAS_CACHE_MEMORY_MIB"@, written)->Ok_0,
        parallelism,
    );
}

// ---------------------------------------------------------------------------
// Profiles as a whole

/// Each action has the transition that stands for it, and an action that changes nothing on the
/// screen cuts.
pub proof fn law_actions_have_their_own_transition(actions: ActionTransitions, index: usize)
    ensures
        actions.of_action(WallpaperAction::Next) == actions.next,
        actions.of_action(WallpaperAction::Back) == actions.back,
        actions.of_action(WallpaperAction::ShiftForward) == actions.shift_forward,
        actions.of_action(WallpaperAction::ShiftBack) == actions.shift_back,
        actions.of_action(WallpaperAction::Replace { index }) == actions.replace,
        actions.of_action(WallpaperAction::Quarantine { index }) == actions.quarantine,
        actions.of_action(WallpaperAction::Favorite { index }) is Cut,
        actions.of_action(WallpaperAction::Unfavorite { index }) is Cut,
        actions.of_action(WallpaperAction::Favorites) is Cut,
        actions.of_action(WallpaperAction::Current) is Cut,
        actions.of_action(WallpaperAction::Rescan) is Cut,
        actions.of_kind(ActionKind::Startup) == actions.startup,
{
}

proof fn lemma_unsupported(fields: Seq<(Seq<char>, bool)>, kind: TransitionKind, i: int)
    requires
        0 <= i < fields.len(),
        fields[i].1,
        !config::supports(kind, fields[i].0),
    ensures
        config::unsupported(fields, kind) is Some,
    decreases fields.len(),
{
    if i > 0 {
        assert(fields.skip(1)[i - 1] == fields[i]);
        lemma_unsupported(fields.skip(1), kind, i - 1);
    }
}

/// A profile of a cut that says something that a cut does not have is refused.
#[verifier::spinoff_prover]
pub proof fn law_cut_profiles_say_nothing_else(
    raw: RawView,
    name: Seq<char>,
    profile: ProfileView,
)
    requires
        profile.kind == Some(TransitionKind::Cut),
        profile.direction is Some
            || profile.duration_ms is Some
            || profile.easing is Some
            || profile.mode_value is Some
            || profile.canvas_walk is Some
            || profile.canvas_out_ms is Some
            || profile.canvas_pan_ms is Some
            || profile.canvas_in_ms is Some
            || profile.canvas_pan_axis is Some
            || profile.canvas_overview_scale is Some
            || profile.canvas_tile_count is Some
            || profile.canvas_max_tile_count is Some
            || profile.fallback is Some,
    ensures
        config::profile_check(raw, name, profile) is Err,
{
    setting_law::lemma_fields_differ();
    let fields = config::populated(profile);
    if profile.direction is Some {
        assert(fields[0] == ("direction"@, true));
        assert(!config::supports(TransitionKind::Cut, "direction"@));
        lemma_unsupported(fields, TransitionKind::Cut, 0);
    }
    if profile.duration_ms is Some {
        assert(fields[1] == ("duration_ms"@, true));
        assert(!config::supports(TransitionKind::Cut, "duration_ms"@));
        lemma_unsupported(fields, TransitionKind::Cut, 1);
    }
    if profile.easing is Some {
        assert(fields[2] == ("easing"@, true));
        assert(!config::supports(TransitionKind::Cut, "easing"@));
        lemma_unsupported(fields, TransitionKind::Cut, 2);
    }
    if profile.mode_value is Some {
        assert(fields[3] == ("mode"@, true));
        assert(!config::supports(TransitionKind::Cut, "mode"@));
        lemma_unsupported(fields, TransitionKind::Cut, 3);
    }
    if profile.canvas_walk is Some {
        assert(fields[4] == ("walk"@, true));
        assert(!config::supports(TransitionKind::Cut, "walk"@));
        lemma_unsupported(fields, TransitionKind::Cut, 4);
    }
    if profile.canvas_out_ms is Some {
        assert(fields[5] == ("zoom_out_ms"@, true));
        assert(!config::supports(TransitionKind::Cut, "zoom_out_ms"@));
        lemma_unsupported(fields, TransitionKind::Cut, 5);
    }
    if profile.canvas_pan_ms is Some {
        assert(fields[6] == ("pan_ms"@, true));
        assert(!config::supports(TransitionKind::Cut, "pan_ms"@));
        lemma_unsupported(fields, TransitionKind::Cut, 6);
    }
    if profile.canvas_in_ms is Some {
        assert(fields[7] == ("zoom_in_ms"@, true));
        assert(!config::supports(TransitionKind::Cut, "zoom_in_ms"@));
        lemma_unsupported(fields, TransitionKind::Cut, 7);
    }
    if profile.canvas_pan_axis is Some {
        assert(fields[8] == ("pan_axis"@, true));
        assert(!config::supports(TransitionKind::Cut, "pan_axis"@));
        lemma_unsupported(fields, TransitionKind::Cut, 8);
    }
    if profile.canvas_overview_scale is Some {
        assert(fields[9] == ("overview_scale"@, true));
        assert(!config::supports(TransitionKind::Cut, "overview_scale"@));
        lemma_unsupported(fields, TransitionKind::Cut, 9);
    }
    if profile.canvas_tile_count is Some {
        assert(fields[10] == ("tile_count"@, true));
        assert(!config::supports(TransitionKind::Cut, "tile_count"@));
        lemma_unsupported(fields, TransitionKind::Cut, 10);
    }
    if profile.canvas_max_tile_count is Some {
        assert(fields[11] == ("max_tile_count"@, true));
        assert(!config::supports(TransitionKind::Cut, "max_tile_count"@));
        lemma_unsupported(fields, TransitionKind::Cut, 11);
    }
    if profile.fallback is Some {
        assert(fields[12] == ("fallback"@, true));
        assert(!config::supports(TransitionKind::Cut, "fallback"@));
        lemma_unsupported(fields, TransitionKind::Cut, 12);
    }
}

/// A profile of a fade that says something that a fade does not have is refused.
#[verifier::spinoff_prover]
pub proof fn law_fade_profiles_say_nothing_else(
    raw: RawView,
    name: Seq<char>,
    profile: ProfileView,
)
    requires
        profile.kind == Some(TransitionKind::Fade),
        profile.direction is Some
            || profile.mode_value is Some
            || profile.canvas_walk is Some
            || profile.canvas_out_ms is Some
            || profile.canvas_pan_ms is Some
            || profile.canvas_in_ms is Some
            || profile.canvas_pan_axis is Some
            || profile.canvas_overview_scale is Some
            || profile.canvas_tile_count is Some
            || profile.canvas_max_tile_count is Some
            || profile.fallback is Some,
    ensures
        config::profile_check(raw, name, profile) is Err,
{
    setting_law::lemma_fields_differ();
    let fields = config::populated(profile);
    if profile.direction is Some {
        assert(fields[0] == ("direction"@, true));
        assert(!config::supports(TransitionKind::Fade, "direction"@));
        lemma_unsupported(fields, TransitionKind::Fade, 0);
    }
    if profile.mode_value is Some {
        assert(fields[3] == ("mode"@, true));
        assert(!config::supports(TransitionKind::Fade, "mode"@));
        lemma_unsupported(fields, TransitionKind::Fade, 3);
    }
    if profile.canvas_walk is Some {
        assert(fields[4] == ("walk"@, true));
        assert(!config::supports(TransitionKind::Fade, "walk"@));
        lemma_unsupported(fields, TransitionKind::Fade, 4);
    }
    if profile.canvas_out_ms is Some {
        assert(fields[5] == ("zoom_out_ms"@, true));
        assert(!config::supports(TransitionKind::Fade, "zoom_out_ms"@));
        lemma_unsupported(fields, TransitionKind::Fade, 5);
    }
    if profile.canvas_pan_ms is Some {
        assert(fields[6] == ("pan_ms"@, true));
        assert(!config::supports(TransitionKind::Fade, "pan_ms"@));
        lemma_unsupported(fields, TransitionKind::Fade, 6);
    }
    if profile.canvas_in_ms is Some {
        assert(fields[7] == ("zoom_in_ms"@, true));
        assert(!config::supports(TransitionKind::Fade, "zoom_in_ms"@));
        lemma_unsupported(fields, TransitionKind::Fade, 7);
    }
    if profile.canvas_pan_axis is Some {
        assert(fields[8] == ("pan_axis"@, true));
        assert(!config::supports(TransitionKind::Fade, "pan_axis"@));
        lemma_unsupported(fields, TransitionKind::Fade, 8);
    }
    if profile.canvas_overview_scale is Some {
        assert(fields[9] == ("overview_scale"@, true));
        assert(!config::supports(TransitionKind::Fade, "overview_scale"@));
        lemma_unsupported(fields, TransitionKind::Fade, 9);
    }
    if profile.canvas_tile_count is Some {
        assert(fields[10] == ("tile_count"@, true));
        assert(!config::supports(TransitionKind::Fade, "tile_count"@));
        lemma_unsupported(fields, TransitionKind::Fade, 10);
    }
    if profile.canvas_max_tile_count is Some {
        assert(fields[11] == ("max_tile_count"@, true));
        assert(!config::supports(TransitionKind::Fade, "max_tile_count"@));
        lemma_unsupported(fields, TransitionKind::Fade, 11);
    }
    if profile.fallback is Some {
        assert(fields[12] == ("fallback"@, true));
        assert(!config::supports(TransitionKind::Fade, "fallback"@));
        lemma_unsupported(fields, TransitionKind::Fade, 12);
    }
}

/// A profile of a zoom through the world that says something that a zoom through the world does not have is refused.
#[verifier::spinoff_prover]
pub proof fn law_world_profiles_say_nothing_else(
    raw: RawView,
    name: Seq<char>,
    profile: ProfileView,
)
    requires
        profile.kind == Some(TransitionKind::World),
        profile.direction is Some
            || profile.mode_value is Some
            || profile.canvas_walk is Some
            || profile.canvas_out_ms is Some
            || profile.canvas_pan_ms is Some
            || profile.canvas_in_ms is Some
            || profile.canvas_pan_axis is Some
            || profile.canvas_overview_scale is Some
            || profile.canvas_tile_count is Some
            || profile.canvas_max_tile_count is Some,
    ensures
        config::profile_check(raw, name, profile) is Err,
{
    setting_law::lemma_fields_differ();
    let fields = config::populated(profile);
    if profile.direction is Some {
        assert(fields[0] == ("direction"@, true));
        assert(!config::supports(TransitionKind::World, "direction"@));
        lemma_unsupported(fields, TransitionKind::World, 0);
    }
    if profile.mode_value is Some {
        assert(fields[3] == ("mode"@, true));
        assert(!config::supports(TransitionKind::World, "mode"@));
        lemma_unsupported(fields, TransitionKind::World, 3);
    }
    if profile.canvas_walk is Some {
        assert(fields[4] == ("walk"@, true));
        assert(!config::supports(TransitionKind::World, "walk"@));
        lemma_unsupported(fields, TransitionKind::World, 4);
    }
    if profile.canvas_out_ms is Some {
        assert(fields[5] == ("zoom_out_ms"@, true));
        assert(!config::supports(TransitionKind::World, "zoom_out_ms"@));
        lemma_unsupported(fields, TransitionKind::World, 5);
    }
    if profile.canvas_pan_ms is Some {
        assert(fields[6] == ("pan_ms"@, true));
        assert(!config::supports(TransitionKind::World, "pan_ms"@));
        lemma_unsupported(fields, TransitionKind::World, 6);
    }
    if profile.canvas_in_ms is Some {
        assert(fields[7] == ("zoom_in_ms"@, true));
        assert(!config::supports(TransitionKind::World, "zoom_in_ms"@));
        lemma_unsupported(fields, TransitionKind::World, 7);
    }
    if profile.canvas_pan_axis is Some {
        assert(fields[8] == ("pan_axis"@, true));
        assert(!config::supports(TransitionKind::World, "pan_axis"@));
        lemma_unsupported(fields, TransitionKind::World, 8);
    }
    if profile.canvas_overview_scale is Some {
        assert(fields[9] == ("overview_scale"@, true));
        assert(!config::supports(TransitionKind::World, "overview_scale"@));
        lemma_unsupported(fields, TransitionKind::World, 9);
    }
    if profile.canvas_tile_count is Some {
        assert(fields[10] == ("tile_count"@, true));
        assert(!config::supports(TransitionKind::World, "tile_count"@));
        lemma_unsupported(fields, TransitionKind::World, 10);
    }
    if profile.canvas_max_tile_count is Some {
        assert(fields[11] == ("max_tile_count"@, true));
        assert(!config::supports(TransitionKind::World, "max_tile_count"@));
        lemma_unsupported(fields, TransitionKind::World, 11);
    }
}

/// A profile of a push that says something that a push does not have is refused.
#[verifier::spinoff_prover]
pub proof fn law_push_profiles_say_nothing_else(
    raw: RawView,
    name: Seq<char>,
    profile: ProfileView,
)
    requires
        profile.kind == Some(TransitionKind::Push),
        profile.canvas_walk is Some
            || profile.canvas_out_ms is Some
            || profile.canvas_pan_ms is Some
            || profile.canvas_in_ms is Some
            || profile.canvas_pan_axis is Some
            || profile.canvas_overview_scale is Some
            || profile.canvas_tile_count is Some
            || profile.canvas_max_tile_count is Some
            || profile.fallback is Some,
    ensures
        config::profile_check(raw, name, profile) is Err,
{
    setting_law::lemma_fields_differ();
    let fields = config::populated(profile);
    if profile.canvas_walk is Some {
        assert(fields[4] == ("walk"@, true));
        assert(!config::supports(TransitionKind::Push, "walk"@));
        lemma_unsupported(fields, TransitionKind::Push, 4);
    }
    if profile.canvas_out_ms is Some {
        assert(fields[5] == ("zoom_out_ms"@, true));
        assert(!config::supports(TransitionKind::Push, "zoom_out_ms"@));
        lemma_unsupported(fields, TransitionKind::Push, 5);
    }
    if profile.canvas_pan_ms is Some {
        assert(fields[6] == ("pan_ms"@, true));
        assert(!config::supports(TransitionKind::Push, "pan_ms"@));
        lemma_unsupported(fields, TransitionKind::Push, 6);
    }
    if profile.canvas_in_ms is Some {
        assert(fields[7] == ("zoom_in_ms"@, true));
        assert(!config::supports(TransitionKind::Push, "zoom_in_ms"@));
        lemma_unsupported(fields, TransitionKind::Push, 7);
    }
    if profile.canvas_pan_axis is Some {
        assert(fields[8] == ("pan_axis"@, true));
        assert(!config::supports(TransitionKind::Push, "pan_axis"@));
        lemma_unsupported(fields, TransitionKind::Push, 8);
    }
    if profile.canvas_overview_scale is Some {
        assert(fields[9] == ("overview_scale"@, true));
        assert(!config::supports(TransitionKind::Push, "overview_scale"@));
        lemma_unsupported(fields, TransitionKind::Push, 9);
    }
    if profile.canvas_tile_count is Some {
        assert(fields[10] == ("tile_count"@, true));
        assert(!config::supports(TransitionKind::Push, "tile_count"@));
        lemma_unsupported(fields, TransitionKind::Push, 10);
    }
    if profile.canvas_max_tile_count is Some {
        assert(fields[11] == ("max_tile_count"@, true));
        assert(!config::supports(TransitionKind::Push, "max_tile_count"@));
        lemma_unsupported(fields, TransitionKind::Push, 11);
    }
    if profile.fallback is Some {
        assert(fields[12] == ("fallback"@, true));
        assert(!config::supports(TransitionKind::Push, "fallback"@));
        lemma_unsupported(fields, TransitionKind::Push, 12);
    }
}

/// A profile of a canvas that says something that a canvas does not have is refused.
#[verifier::spinoff_prover]
pub proof fn law_canvas_profiles_say_nothing_else(
    raw: RawView,
    name: Seq<char>,
    profile: ProfileView,
)
    requires
        profile.kind == Some(TransitionKind::Canvas),
        profile.direction is Some
            || profile.duration_ms is Some
            || profile.fallback is Some,
    ensures
        config::profile_check(raw, name, profile) is Err,
{
    setting_law::lemma_fields_differ();
    let fields = config::populated(profile);
    if profile.direction is Some {
        assert(fields[0] == ("direction"@, true));
        assert(!config::supports(TransitionKind::Canvas, "direction"@));
        lemma_unsupported(fields, TransitionKind::Canvas, 0);
    }
    if profile.duration_ms is Some {
        assert(fields[1] == ("duration_ms"@, true));
        assert(!config::supports(TransitionKind::Canvas, "duration_ms"@));
        lemma_unsupported(fields, TransitionKind::Canvas, 1);
    }
    if profile.fallback is Some {
        assert(fields[12] == ("fallback"@, true));
        assert(!config::supports(TransitionKind::Canvas, "fallback"@));
        lemma_unsupported(fields, TransitionKind::Canvas, 12);
    }
}

/// A profile that is named after a kind is of that kind, and every other profile must say its
/// kind.
pub proof fn law_kinds_stay_what_they_are(
    raw: RawView,
    name: Seq<char>,
    profile: ProfileView,
    kind: TransitionKind,
)
    ensures
        name == kind.name() && (profile.kind matches Some(other) && other != kind)
            ==> config::profile_check(raw, name, profile) is Err,
        TransitionKind::named(name) is None && profile.kind is None ==> config::profile_check(
            raw,
            name,
            profile,
        ) is Err,
        profile == (ProfileView { kind: Some(kind), ..config::empty_profile() }) && (kind is Cut
            || kind is Fade || kind is World) && (TransitionKind::named(name) is None || name
            == kind.name()) ==> config::profile_check(raw, name, profile) is Ok,
{
    kind.law_round_trip();
    reveal_with_fuel(config::unsupported, 14);
}

/// A configuration is refused where one of its profiles is.
pub proof fn law_one_bad_profile_is_enough(
    raw: RawView,
    profiles: Seq<(Seq<char>, ProfileView)>,
    i: int,
)
    requires
        0 <= i < profiles.len(),
        config::profile_check(raw, profiles[i].0, profiles[i].1) is Err,
    ensures
        config::profiles_check(raw, profiles) is Err,
    decreases profiles.len(),
{
    if i < profiles.len() - 1 {
        law_one_bad_profile_is_enough(raw, profiles.drop_last(), i);
    }
}

/// Lines are read one after the other, so that a later one goes before an earlier one; the first
/// that cannot be read stops the reading.
pub proof fn law_lines_are_read_in_order(
    raw: RawView,
    host: HostView,
    path: Seq<char>,
    lines: Seq<Seq<char>>,
    line: Seq<char>,
)
    ensures
        config::with_lines(raw, host, path, Seq::empty()) == Ok::<RawView, Seq<char>>(raw),
        match config::with_lines(raw, host, path, lines) {
            Ok(done) => config::with_lines(raw, host, path, lines.push(line)) == config::with_line(
                done,
                host,
                path,
                lines.len() + 1,
                line,
            ),
            Err(message) => config::with_lines(raw, host, path, lines.push(line)) == Err::<
                RawView,
                Seq<char>,
            >(message),
        },
{
    assert(lines.push(line).drop_last() =~= lines);
}

/// Without a file the defaults count, unless a file was asked for. The variables go before the
/// file.
pub proof fn law_files_are_read_before_variables(
    source: ConfigSource,
    host: HostView,
    environment: Seq<(Seq<char>, Seq<char>)>,
)
    ensures
        source is Unreadable ==> config::loaded(source, host, environment) is Err,
        source is Missing ==> {
            if textmap::entries_get(environment, "MURAL_CONFIG"@) is Some {
                config::loaded(source, host, environment) is Err
            } else {
                config::loaded(source, host, environment) == config::loaded(
                    ConfigSource::Nowhere,
                    host,
                    environment,
                )
            }
        },
        source matches ConfigSource::Content { path, content } ==> match config::with_lines(
            config::default_raw(),
            host,
            path@,
            text::lines_of(content@),
        ) {
            Err(message) => config::loaded(source, host, environment) == Err::<
                ConfigView,
                Seq<char>,
            >(message),
            Ok(raw) => match config::with_variables(
                raw,
                host,
                environment,
                config::variable_names(),
            ) {
                Err(message) => config::loaded(source, host, environment) == Err::<
                    ConfigView,
                    Seq<char>,
                >(message),
                Ok(raw) => config::loaded(source, host, environment) == config::built(
                    raw,
                    host.parallelism,
                ),
            },
        },
{
}

/// A canvas that finds the number of its tiles itself counts as one with as many tiles as it may
/// have, which are 256 where nothing is said.
pub proof fn law_tile_counts_compare(count: usize)
    ensures
        config::tile_count_key(CanvasTileCount::Fixed(count)) == count,
        config::tile_count_key(CanvasTileCount::Auto { max: Some(count) }) == count,
        config::tile_count_key(CanvasTileCount::Auto { max: None }) == 256,
{
}

} // verus!
