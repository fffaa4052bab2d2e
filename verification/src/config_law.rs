//! What holds of every configuration.

use crate::config::{HostView, PlaceView, ProfileView, RawCanvasTileCount, RawView};
use crate::protocol::{
    CanvasTileCount, Transition, TransitionKind, DEFAULT_CANVAS_OVERVIEW_SCALE_BITS,
    MAX_CANVAS_TILE_COUNT,
};
use crate::scale::OverviewScale;
use crate::config;
use crate::protocol;
use crate::scale;
use crate::text;
use crate::textmap;
use vstd::prelude::*;

verus! {

/// The references of the actions, in the order of the actions.
pub open spec fn references(raw: RawView) -> Seq<Seq<char>> {
    seq![
        raw.transition_next,
        raw.transition_back,
        raw.transition_shift_forward,
        raw.transition_shift_back,
        raw.transition_replace,
        raw.transition_quarantine,
        raw.transition_startup,
    ]
}

/// The kind of transition that a reference names.
pub open spec fn reference_kind(raw: RawView, reference: Seq<char>) -> Option<TransitionKind> {
    match config::reference_parts(reference) {
        Ok((name, _)) => config::kind_of(raw, name),
        Err(_) => None,
    }
}

/// The kind of a transition.
pub open spec fn transition_kind(transition: Transition) -> TransitionKind {
    match transition {
        Transition::Cut => TransitionKind::Cut,
        Transition::Fade { .. } => TransitionKind::Fade,
        Transition::World { .. } => TransitionKind::World,
        Transition::Push { .. } => TransitionKind::Push,
        Transition::Canvas { .. } => TransitionKind::Canvas,
    }
}

/// What a reference stands for is of the kind that its profile declares, or that the
/// name of its profile is.
pub proof fn law_references_keep_their_kind(raw: RawView, reference: Seq<char>)
    ensures
        config::resolved(raw, reference) matches Ok(transition) ==> Some(transition_kind(transition))
            == reference_kind(raw, reference),
{
}

/// A configuration uses a transition only where an action refers to it: the settings of a
/// profile enable nothing by themselves.
pub proof fn law_profiles_enable_nothing(raw: RawView, parallelism: usize, i: int)
    requires
        0 <= i < 7,
    ensures
        config::built(raw, parallelism) matches Ok(config) ==> Some(
            transition_kind(config.actions.listed()[i]),
        ) == reference_kind(raw, references(raw)[i]),
{
    law_references_keep_their_kind(raw, references(raw)[i]);
}

/// The transition for an interrupted world move is a cut or a push.
pub proof fn law_fallback_is_cut_or_push(raw: RawView, parallelism: usize)
    ensures
        config::built(raw, parallelism) matches Ok(config) ==> match config.world_fallback_transition {
            Some(transition) => transition is Cut || transition is Push,
            None => true,
        },
{
}

// ---------------------------------------------------------------------------
// Every transition of a configuration can be sent

/// Whether what a profile sets is in range.
pub open spec fn sound_profile(profile: ProfileView) -> bool {
    &&& profile.duration_ms matches Some(value) ==> value > 0
    &&& profile.canvas_out_ms matches Some(value) ==> value > 0
    &&& profile.canvas_pan_ms matches Some(value) ==> value > 0
    &&& profile.canvas_in_ms matches Some(value) ==> value > 0
    &&& profile.canvas_overview_scale matches Some(scale) ==> scale.valid()
    &&& profile.canvas_tile_count matches Some(RawCanvasTileCount::Fixed(count)) ==> 0 < count
        <= MAX_CANVAS_TILE_COUNT
    &&& profile.canvas_max_tile_count matches Some(count) ==> 0 < count <= MAX_CANVAS_TILE_COUNT
}

/// Whether what a configuration sets is in range.
pub open spec fn sound_raw(raw: RawView) -> bool {
    &&& raw.duration_ms > 0
    &&& raw.canvas_out_ms > 0
    &&& raw.canvas_pan_ms > 0
    &&& raw.canvas_in_ms > 0
    &&& raw.canvas_overview_scale.valid()
    &&& raw.canvas_tile_count matches RawCanvasTileCount::Fixed(count) ==> 0 < count
        <= MAX_CANVAS_TILE_COUNT
    &&& raw.canvas_max_tile_count matches Some(count) ==> 0 < count <= MAX_CANVAS_TILE_COUNT
    &&& forall|name: Seq<char>| sound_profile(#[trigger] config::profile_of(raw, name))
    &&& textmap::keys_ascending(raw.transition_profiles)
}

/// Whether the numbers of a transition are in range, and its canvas can be walked.
pub open spec fn sound_transition(transition: Transition) -> bool {
    match transition {
        Transition::Cut => true,
        Transition::Fade { duration_ms, .. } => duration_ms > 0,
        Transition::World { duration_ms, .. } => duration_ms > 0,
        Transition::Push { duration_ms, .. } => duration_ms > 0,
        Transition::Canvas {
            zoom_out_ms,
            pan_ms,
            zoom_in_ms,
            mode,
            walk,
            overview_scale,
            tile_count,
            ..
        } => {
            &&& zoom_out_ms > 0
            &&& pan_ms > 0
            &&& zoom_in_ms > 0
            &&& protocol::mode_walk_check(mode, walk) is Ok
            &&& overview_scale.valid()
            &&& match tile_count {
                CanvasTileCount::Auto { max: None } => true,
                CanvasTileCount::Auto { max: Some(max) } => 1 <= max <= MAX_CANVAS_TILE_COUNT,
                CanvasTileCount::Fixed(count) => 1 <= count <= MAX_CANVAS_TILE_COUNT,
            }
        },
    }
}

proof fn lemma_settings(place: PlaceView, value: Seq<char>)
    ensures
        config::milliseconds_setting(place, value) matches Ok(number) ==> number > 0,
        config::count_setting(place, value) matches Ok(number) ==> number > 0,
        config::tile_limit_setting(place, value) matches Ok(number) ==> 0 < number
            <= MAX_CANVAS_TILE_COUNT,
        config::scale_setting(place, value) matches Ok(scale) ==> scale.valid(),
{
    text::lemma_unsigned_value_bounded(value, u64::MAX as nat);
    text::lemma_unsigned_value_bounded(value, usize::MAX as nat);
    scale::lemma_scale_reading_valid(value);
}

proof fn lemma_profile_sound(
    profile: ProfileView,
    name: Seq<char>,
    field: Seq<char>,
    place: PlaceView,
    value: Seq<char>,
)
    requires
        sound_profile(profile),
    ensures
        config::profile_with(profile, name, field, place, value) matches Ok(Some(changed))
            ==> sound_profile(changed),
{
    lemma_settings(place, value);
}

proof fn lemma_value_sound(
    raw: RawView,
    host: HostView,
    path: Seq<char>,
    line: nat,
    key: Seq<char>,
    value: Seq<char>,
)
    requires
        sound_raw(raw),
    ensures
        config::raw_with(raw, host, path, line, key, value) matches Ok(changed) ==> sound_raw(changed),
{
    if let Ok(changed) = config::raw_with(raw, host, path, line, key, value) {
        if changed.transition_profiles == raw.transition_profiles {
            assert forall|name: Seq<char>| sound_profile(#[trigger] config::profile_of(changed, name)) by {
                assert(config::profile_of(changed, name) == config::profile_of(raw, name));
            }
        } else {
            let (name, field) = config::profile_key(key)->Some_0;
            let place = PlaceView::Line { path, line, key };
            lemma_profile_sound(config::profile_of(raw, name), name, field, place, value);
            let profile = config::profile_with(
                config::profile_of(raw, name),
                name,
                field,
                place,
                value,
            )->Ok_0->Some_0;
            textmap::lemma_insert_ascending(raw.transition_profiles, name, profile);
            assert forall|other: Seq<char>| sound_profile(
                #[trigger] config::profile_of(changed, other),
            ) by {
                textmap::lemma_get_after_insert(raw.transition_profiles, name, profile, other);
                assert(sound_profile(config::profile_of(raw, other)));
            }
        }
    }
}

proof fn lemma_lines_sound(
    raw: RawView,
    host: HostView,
    path: Seq<char>,
    lines: Seq<Seq<char>>,
)
    requires
        sound_raw(raw),
    ensures
        config::with_lines(raw, host, path, lines) matches Ok(changed) ==> sound_raw(changed),
    decreases lines.len(),
{
    if lines.len() > 0 {
        lemma_lines_sound(raw, host, path, lines.drop_last());
        if let Ok(done) = config::with_lines(raw, host, path, lines.drop_last()) {
            let content = text::trimmed(config::before_comment(lines.last(), false, false));
            if let Some((key, value)) = text::split_at_first(content, '=') {
                lemma_value_sound(
                    done,
                    host,
                    path,
                    lines.len(),
                    text::trimmed(key),
                    config::unquoted(text::trimmed(value)),
                );
            }
        }
    }
}

proof fn lemma_variable_sound(raw: RawView, host: HostView, name: Seq<char>, value: Seq<char>)
    requires
        sound_raw(raw),
    ensures
        config::with_variable(raw, host, name, value) matches Ok(changed) ==> sound_raw(changed),
{
    lemma_settings(PlaceView::Variable { name }, value);
    if let Ok(changed) = config::with_variable(raw, host, name, value) {
        assert(changed.transition_profiles == raw.transition_profiles);
        assert forall|name: Seq<char>| sound_profile(#[trigger] config::profile_of(changed, name)) by {
            assert(config::profile_of(changed, name) == config::profile_of(raw, name));
        }
    }
}

proof fn lemma_variables_sound(
    raw: RawView,
    host: HostView,
    environment: Seq<(Seq<char>, Seq<char>)>,
    names: Seq<Seq<char>>,
)
    requires
        sound_raw(raw),
    ensures
        config::with_variables(raw, host, environment, names) matches Ok(changed) ==> sound_raw(changed),
    decreases names.len(),
{
    if names.len() > 0 {
        lemma_variables_sound(raw, host, environment, names.drop_last());
        if let Ok(done) = config::with_variables(raw, host, environment, names.drop_last()) {
            if let Some(value) = textmap::entries_get(environment, names.last()) {
                lemma_variable_sound(done, host, names.last(), value);
            }
        }
    }
}

/// Whatever stands in a file and in the environment, a configuration that is read from
/// them has its numbers in range.
pub proof fn law_settings_stay_in_range(
    host: HostView,
    path: Seq<char>,
    content: Seq<char>,
    environment: Seq<(Seq<char>, Seq<char>)>,
)
    ensures
        sound_raw(config::default_raw()),
        config::with_lines(
            config::default_raw(),
            host,
            path,
            text::lines_of(content),
        ) matches Ok(raw) ==> sound_raw(raw)
            && (config::with_variables(raw, host, environment, config::variable_names()) matches Ok(changed)
            ==> sound_raw(changed)),
        config::with_variables(
            config::default_raw(),
            host,
            environment,
            config::variable_names(),
        ) matches Ok(changed)
            ==> sound_raw(changed),
{
    OverviewScale::lemma_of_bits(DEFAULT_CANVAS_OVERVIEW_SCALE_BITS);
    assert(sound_raw(config::default_raw()));
    lemma_lines_sound(config::default_raw(), host, path, text::lines_of(content));
    if let Ok(raw) = config::with_lines(config::default_raw(), host, path, text::lines_of(content)) {
        lemma_variables_sound(raw, host, environment, config::variable_names());
    }
    lemma_variables_sound(config::default_raw(), host, environment, config::variable_names());
}

/// A reference stands for a transition whose numbers are in range, and whose canvas can be
/// walked.
pub proof fn law_references_are_sound(raw: RawView, reference: Seq<char>)
    requires
        sound_raw(raw),
    ensures
        config::resolved(raw, reference) matches Ok(transition) ==> sound_transition(transition),
{
    if let Ok((name, _)) = config::reference_parts(reference) {
        assert(sound_profile(config::profile_of(raw, name)));
        assert(sound_profile(config::profile_of(raw, "fade"@)));
        assert(sound_profile(config::profile_of(raw, "world"@)));
        assert(sound_profile(config::profile_of(raw, "push"@)));
        assert(sound_profile(config::profile_of(raw, "canvas"@)));
    }
}

/// Every transition of a configuration has its numbers in range, and a canvas that can be
/// walked.
pub proof fn law_configurations_are_sound(raw: RawView, parallelism: usize)
    requires
        sound_raw(raw),
    ensures
        config::built(raw, parallelism) matches Ok(config) ==> {
            &&& forall|i: int| 0 <= i < 7 ==> sound_transition(
                #[trigger] config.actions.listed()[i],
            )
            &&& config.world_fallback_transition matches Some(transition) ==> sound_transition(
                transition,
            )
            &&& 1 <= config.decode_full_workers <= 32
            &&& 1 <= config.canvas_cache_workers <= 32
        },
{
    if let Some(reference) = config::profile_of(raw, "world"@).fallback {
        law_references_are_sound(raw, reference);
    }
    law_references_are_sound(raw, raw.transition_next);
    law_references_are_sound(raw, raw.transition_back);
    law_references_are_sound(raw, raw.transition_shift_forward);
    law_references_are_sound(raw, raw.transition_shift_back);
    law_references_are_sound(raw, raw.transition_replace);
    law_references_are_sound(raw, raw.transition_quarantine);
    law_references_are_sound(raw, raw.transition_startup);
    config::law_worker_counts_are_bounded(raw.decode_full_workers, parallelism);
    config::law_worker_counts_are_bounded(raw.canvas_cache_workers, parallelism);
}

// ---------------------------------------------------------------------------
// The environment

#[verifier::spinoff_prover]
proof fn lemma_kept_beside_scale_mode(
    raw: RawView,
    host: HostView,
    name: Seq<char>,
    value: Seq<char>,
    after: RawView,
)
    requires
        config::with_variable(raw, host, name, value) == Ok::<RawView, Seq<char>>(raw),
        after == (RawView { scale_mode: after.scale_mode, ..raw }),
        name != "MURAL_SCALE_MODE"@,
    ensures
        config::with_variable(after, host, name, value) == Ok::<RawView, Seq<char>>(after),
{
}

#[verifier::spinoff_prover]
proof fn lemma_kept_beside_canvas_out_ms(
    raw: RawView,
    host: HostView,
    name: Seq<char>,
    value: Seq<char>,
    after: RawView,
)
    requires
        config::with_variable(raw, host, name, value) == Ok::<RawView, Seq<char>>(raw),
        after == (RawView { canvas_out_ms: after.canvas_out_ms, ..raw }),
        name != "MURAL_CANVAS_ZOOM_OUT_MS"@,
    ensures
        config::with_variable(after, host, name, value) == Ok::<RawView, Seq<char>>(after),
{
}

#[verifier::spinoff_prover]
proof fn lemma_kept_beside_canvas_pan_ms(
    raw: RawView,
    host: HostView,
    name: Seq<char>,
    value: Seq<char>,
    after: RawView,
)
    requires
        config::with_variable(raw, host, name, value) == Ok::<RawView, Seq<char>>(raw),
        after == (RawView { canvas_pan_ms: after.canvas_pan_ms, ..raw }),
        name != "MURAL_CANVAS_PAN_MS"@,
    ensures
        config::with_variable(after, host, name, value) == Ok::<RawView, Seq<char>>(after),
{
}

#[verifier::spinoff_prover]
proof fn lemma_kept_beside_canvas_in_ms(
    raw: RawView,
    host: HostView,
    name: Seq<char>,
    value: Seq<char>,
    after: RawView,
)
    requires
        config::with_variable(raw, host, name, value) == Ok::<RawView, Seq<char>>(raw),
        after == (RawView { canvas_in_ms: after.canvas_in_ms, ..raw }),
        name != "MURAL_CANVAS_ZOOM_IN_MS"@,
    ensures
        config::with_variable(after, host, name, value) == Ok::<RawView, Seq<char>>(after),
{
}

#[verifier::spinoff_prover]
proof fn lemma_kept_beside_canvas_mode(
    raw: RawView,
    host: HostView,
    name: Seq<char>,
    value: Seq<char>,
    after: RawView,
)
    requires
        config::with_variable(raw, host, name, value) == Ok::<RawView, Seq<char>>(raw),
        after == (RawView { canvas_mode: after.canvas_mode, ..raw }),
        name != "MURAL_CANVAS_MODE"@,
    ensures
        config::with_variable(after, host, name, value) == Ok::<RawView, Seq<char>>(after),
{
}

#[verifier::spinoff_prover]
proof fn lemma_kept_beside_canvas_walk(
    raw: RawView,
    host: HostView,
    name: Seq<char>,
    value: Seq<char>,
    after: RawView,
)
    requires
        config::with_variable(raw, host, name, value) == Ok::<RawView, Seq<char>>(raw),
        after == (RawView { canvas_walk: after.canvas_walk, ..raw }),
        name != "MURAL_CANVAS_WALK"@,
    ensures
        config::with_variable(after, host, name, value) == Ok::<RawView, Seq<char>>(after),
{
}

#[verifier::spinoff_prover]
proof fn lemma_kept_beside_canvas_pan_axis(
    raw: RawView,
    host: HostView,
    name: Seq<char>,
    value: Seq<char>,
    after: RawView,
)
    requires
        config::with_variable(raw, host, name, value) == Ok::<RawView, Seq<char>>(raw),
        after == (RawView { canvas_pan_axis: after.canvas_pan_axis, ..raw }),
        name != "MURAL_CANVAS_PAN_AXIS"@,
    ensures
        config::with_variable(after, host, name, value) == Ok::<RawView, Seq<char>>(after),
{
}

#[verifier::spinoff_prover]
proof fn lemma_kept_beside_canvas_overview_scale(
    raw: RawView,
    host: HostView,
    name: Seq<char>,
    value: Seq<char>,
    after: RawView,
)
    requires
        config::with_variable(raw, host, name, value) == Ok::<RawView, Seq<char>>(raw),
        after == (RawView { canvas_overview_scale: after.canvas_overview_scale, ..raw }),
        name != "MURAL_CANVAS_OVERVIEW_SCALE"@,
    ensures
        config::with_variable(after, host, name, value) == Ok::<RawView, Seq<char>>(after),
{
}

#[verifier::spinoff_prover]
proof fn lemma_kept_beside_canvas_tile_count(
    raw: RawView,
    host: HostView,
    name: Seq<char>,
    value: Seq<char>,
    after: RawView,
)
    requires
        config::with_variable(raw, host, name, value) == Ok::<RawView, Seq<char>>(raw),
        after == (RawView { canvas_tile_count: after.canvas_tile_count, ..raw }),
        name != "MURAL_CANVAS_TILE_COUNT"@,
    ensures
        config::with_variable(after, host, name, value) == Ok::<RawView, Seq<char>>(after),
{
}

#[verifier::spinoff_prover]
proof fn lemma_kept_beside_canvas_max_tile_count(
    raw: RawView,
    host: HostView,
    name: Seq<char>,
    value: Seq<char>,
    after: RawView,
)
    requires
        config::with_variable(raw, host, name, value) == Ok::<RawView, Seq<char>>(raw),
        after == (RawView { canvas_max_tile_count: after.canvas_max_tile_count, ..raw }),
        name != "MURAL_CANVAS_MAX_TILE_COUNT"@,
    ensures
        config::with_variable(after, host, name, value) == Ok::<RawView, Seq<char>>(after),
{
}

#[verifier::spinoff_prover]
proof fn lemma_kept_beside_canvas_thumbnail_max_edge(
    raw: RawView,
    host: HostView,
    name: Seq<char>,
    value: Seq<char>,
    after: RawView,
)
    requires
        config::with_variable(raw, host, name, value) == Ok::<RawView, Seq<char>>(raw),
        after == (RawView { canvas_thumbnail_max_edge: after.canvas_thumbnail_max_edge, ..raw }),
        name != "MURAL_CANVAS_THUMBNAIL_MAX_EDGE"@,
    ensures
        config::with_variable(after, host, name, value) == Ok::<RawView, Seq<char>>(after),
{
}

#[verifier::spinoff_prover]
proof fn lemma_kept_beside_canvas_cache_workers(
    raw: RawView,
    host: HostView,
    name: Seq<char>,
    value: Seq<char>,
    after: RawView,
)
    requires
        config::with_variable(raw, host, name, value) == Ok::<RawView, Seq<char>>(raw),
        after == (RawView { canvas_cache_workers: after.canvas_cache_workers, ..raw }),
        name != "MURAL_CANVAS_CACHE_WORKERS"@,
    ensures
        config::with_variable(after, host, name, value) == Ok::<RawView, Seq<char>>(after),
{
}

#[verifier::spinoff_prover]
proof fn lemma_kept_beside_canvas_cache_backend(
    raw: RawView,
    host: HostView,
    name: Seq<char>,
    value: Seq<char>,
    after: RawView,
)
    requires
        config::with_variable(raw, host, name, value) == Ok::<RawView, Seq<char>>(raw),
        after == (RawView { canvas_cache_backend: after.canvas_cache_backend, ..raw }),
        name != "MURAL_CANVAS_CACHE_BACKEND"@,
    ensures
        config::with_variable(after, host, name, value) == Ok::<RawView, Seq<char>>(after),
{
}

#[verifier::spinoff_prover]
proof fn lemma_kept_beside_canvas_cache_memory_mib(
    raw: RawView,
    host: HostView,
    name: Seq<char>,
    value: Seq<char>,
    after: RawView,
)
    requires
        config::with_variable(raw, host, name, value) == Ok::<RawView, Seq<char>>(raw),
        after == (RawView { canvas_cache_memory_mib: after.canvas_cache_memory_mib, ..raw }),
        name != "MURAL_CANVAS_CACHE_MEMORY_MIB"@,
    ensures
        config::with_variable(after, host, name, value) == Ok::<RawView, Seq<char>>(after),
{
}

#[verifier::spinoff_prover]
proof fn lemma_kept_beside_decode_full_workers(
    raw: RawView,
    host: HostView,
    name: Seq<char>,
    value: Seq<char>,
    after: RawView,
)
    requires
        config::with_variable(raw, host, name, value) == Ok::<RawView, Seq<char>>(raw),
        after == (RawView { decode_full_workers: after.decode_full_workers, ..raw }),
        name != "MURAL_DECODE_FULL_WORKERS"@,
    ensures
        config::with_variable(after, host, name, value) == Ok::<RawView, Seq<char>>(after),
{
}

/// What a variable says is not undone by another one.
proof fn lemma_variables_do_not_meet(
    raw: RawView,
    host: HostView,
    name: Seq<char>,
    value: Seq<char>,
    other: Seq<char>,
    said: Seq<char>,
)
    requires
        config::with_variable(raw, host, name, value) == Ok::<RawView, Seq<char>>(raw),
        name != other,
    ensures
        config::with_variable(raw, host, other, said) matches Ok(after) ==> config::with_variable(
            after,
            host,
            name,
            value,
        ) == Ok::<RawView, Seq<char>>(after),
{
    if let Ok(after) = config::with_variable(raw, host, other, said) {
        if other == "MURAL_SCALE_MODE"@ {
            lemma_kept_beside_scale_mode(raw, host, name, value, after);
        } else if other == "MURAL_CANVAS_ZOOM_OUT_MS"@ {
            lemma_kept_beside_canvas_out_ms(raw, host, name, value, after);
        } else if other == "MURAL_CANVAS_PAN_MS"@ {
            lemma_kept_beside_canvas_pan_ms(raw, host, name, value, after);
        } else if other == "MURAL_CANVAS_ZOOM_IN_MS"@ {
            lemma_kept_beside_canvas_in_ms(raw, host, name, value, after);
        } else if other == "MURAL_CANVAS_MODE"@ {
            lemma_kept_beside_canvas_mode(raw, host, name, value, after);
        } else if other == "MURAL_CANVAS_WALK"@ {
            lemma_kept_beside_canvas_walk(raw, host, name, value, after);
        } else if other == "MURAL_CANVAS_PAN_AXIS"@ {
            lemma_kept_beside_canvas_pan_axis(raw, host, name, value, after);
        } else if other == "MURAL_CANVAS_OVERVIEW_SCALE"@ {
            lemma_kept_beside_canvas_overview_scale(raw, host, name, value, after);
        } else if other == "MURAL_CANVAS_TILE_COUNT"@ {
            lemma_kept_beside_canvas_tile_count(raw, host, name, value, after);
        } else if other == "MURAL_CANVAS_MAX_TILE_COUNT"@ {
            lemma_kept_beside_canvas_max_tile_count(raw, host, name, value, after);
        } else if other == "MURAL_CANVAS_THUMBNAIL_MAX_EDGE"@ {
            lemma_kept_beside_canvas_thumbnail_max_edge(raw, host, name, value, after);
        } else if other == "MURAL_CANVAS_CACHE_WORKERS"@ {
            lemma_kept_beside_canvas_cache_workers(raw, host, name, value, after);
        } else if other == "MURAL_CANVAS_CACHE_BACKEND"@ {
            lemma_kept_beside_canvas_cache_backend(raw, host, name, value, after);
        } else if other == "MURAL_CANVAS_CACHE_MEMORY_MIB"@ {
            lemma_kept_beside_canvas_cache_memory_mib(raw, host, name, value, after);
        } else if other == "MURAL_DECODE_FULL_WORKERS"@ {
            lemma_kept_beside_decode_full_workers(raw, host, name, value, after);
        }
    }
}

/// A variable says the same however often it is applied.
proof fn lemma_variable_twice(raw: RawView, host: HostView, name: Seq<char>, value: Seq<char>)
    ensures
        config::with_variable(raw, host, name, value) matches Ok(after) ==> config::with_variable(
            after,
            host,
            name,
            value,
        ) == Ok::<RawView, Seq<char>>(after),
{
}

/// The environment overrides what a file says: a configuration that the environment has been
/// applied to holds what each variable of the environment says, whatever it held before.
pub proof fn law_environment_overrides(
    raw: RawView,
    host: HostView,
    environment: Seq<(Seq<char>, Seq<char>)>,
    names: Seq<Seq<char>>,
    i: int,
)
    requires
        0 <= i < names.len(),
    ensures
        config::with_variables(raw, host, environment, names) matches Ok(after) ==> (
        textmap::entries_get(environment, names[i]) matches Some(value) ==> config::with_variable(
            after,
            host,
            names[i],
            value,
        ) == Ok::<RawView, Seq<char>>(after)),
    decreases names.len(),
{
    let front = names.drop_last();
    if i < front.len() {
        law_environment_overrides(raw, host, environment, front, i);
        assert(front[i] == names[i]);
        if let Ok(done) = config::with_variables(raw, host, environment, front) {
            if let Some(said) = textmap::entries_get(environment, names.last()) {
                if names[i] == names.last() {
                    lemma_variable_twice(done, host, names.last(), said);
                } else if let Some(value) = textmap::entries_get(environment, names[i]) {
                    lemma_variables_do_not_meet(done, host, names[i], value, names.last(), said);
                }
            }
        }
    } else if let Ok(done) = config::with_variables(raw, host, environment, front) {
        if let Some(value) = textmap::entries_get(environment, names.last()) {
            lemma_variable_twice(done, host, names.last(), value);
        }
    }
}

} // verus!
