//! What is proved of settings: each key, field and variable sets what it is named after, and
//! nothing else.

use crate::actions::ActionTransitions;
use crate::config::{ConfigView, HostView, PlaceView, ProfileView, RawCanvasTileCount, RawView};
use crate::protocol::{
    PushDirection, Transition, TransitionKind, WallpaperAction, MAX_CANVAS_TILE_COUNT,
};
use crate::text::IntError;
use crate::config;
use crate::text;
use vstd::prelude::*;

verus! {

// ---------------------------------------------------------------------------
// Keys differ

/// The keys of settings differ from one another.
#[verifier::spinoff_prover]
pub proof fn lemma_keys_differ()
    ensures
        "wall_dir"@ != "state_dir"@,
        "wall_dir"@ != "quarantine_dir"@,
        "wall_dir"@ != "favorite_weight"@,
        "wall_dir"@ != "max_history"@,
        "wall_dir"@ != "scale_mode"@,
        "wall_dir"@ != "canvas.thumbnail_max_edge"@,
        "wall_dir"@ != "canvas.cache.workers"@,
        "wall_dir"@ != "canvas.cache.backend"@,
        "wall_dir"@ != "canvas.cache.memory_mib"@,
        "wall_dir"@ != "decode.full_workers"@,
        "wall_dir"@ != "action.next"@,
        "wall_dir"@ != "action.back"@,
        "wall_dir"@ != "action.shift_forward"@,
        "wall_dir"@ != "action.shift_back"@,
        "wall_dir"@ != "action.replace"@,
        "wall_dir"@ != "action.quarantine"@,
        "wall_dir"@ != "action.startup"@,
        "state_dir"@ != "quarantine_dir"@,
        "state_dir"@ != "favorite_weight"@,
        "state_dir"@ != "max_history"@,
        "state_dir"@ != "scale_mode"@,
        "state_dir"@ != "canvas.thumbnail_max_edge"@,
        "state_dir"@ != "canvas.cache.workers"@,
        "state_dir"@ != "canvas.cache.backend"@,
        "state_dir"@ != "canvas.cache.memory_mib"@,
        "state_dir"@ != "decode.full_workers"@,
        "state_dir"@ != "action.next"@,
        "state_dir"@ != "action.back"@,
        "state_dir"@ != "action.shift_forward"@,
        "state_dir"@ != "action.shift_back"@,
        "state_dir"@ != "action.replace"@,
        "state_dir"@ != "action.quarantine"@,
        "state_dir"@ != "action.startup"@,
        "quarantine_dir"@ != "favorite_weight"@,
        "quarantine_dir"@ != "max_history"@,
        "quarantine_dir"@ != "scale_mode"@,
        "quarantine_dir"@ != "canvas.thumbnail_max_edge"@,
        "quarantine_dir"@ != "canvas.cache.workers"@,
        "quarantine_dir"@ != "canvas.cache.backend"@,
        "quarantine_dir"@ != "canvas.cache.memory_mib"@,
        "quarantine_dir"@ != "decode.full_workers"@,
        "quarantine_dir"@ != "action.next"@,
        "quarantine_dir"@ != "action.back"@,
        "quarantine_dir"@ != "action.shift_forward"@,
        "quarantine_dir"@ != "action.shift_back"@,
        "quarantine_dir"@ != "action.replace"@,
        "quarantine_dir"@ != "action.quarantine"@,
        "quarantine_dir"@ != "action.startup"@,
        "favorite_weight"@ != "max_history"@,
        "favorite_weight"@ != "scale_mode"@,
        "favorite_weight"@ != "canvas.thumbnail_max_edge"@,
        "favorite_weight"@ != "canvas.cache.workers"@,
        "favorite_weight"@ != "canvas.cache.backend"@,
        "favorite_weight"@ != "canvas.cache.memory_mib"@,
        "favorite_weight"@ != "decode.full_workers"@,
        "favorite_weight"@ != "action.next"@,
        "favorite_weight"@ != "action.back"@,
        "favorite_weight"@ != "action.shift_forward"@,
        "favorite_weight"@ != "action.shift_back"@,
        "favorite_weight"@ != "action.replace"@,
        "favorite_weight"@ != "action.quarantine"@,
        "favorite_weight"@ != "action.startup"@,
        "max_history"@ != "scale_mode"@,
        "max_history"@ != "canvas.thumbnail_max_edge"@,
        "max_history"@ != "canvas.cache.workers"@,
        "max_history"@ != "canvas.cache.backend"@,
        "max_history"@ != "canvas.cache.memory_mib"@,
        "max_history"@ != "decode.full_workers"@,
        "max_history"@ != "action.next"@,
        "max_history"@ != "action.back"@,
        "max_history"@ != "action.shift_forward"@,
        "max_history"@ != "action.shift_back"@,
        "max_history"@ != "action.replace"@,
        "max_history"@ != "action.quarantine"@,
        "max_history"@ != "action.startup"@,
        "scale_mode"@ != "canvas.thumbnail_max_edge"@,
        "scale_mode"@ != "canvas.cache.workers"@,
        "scale_mode"@ != "canvas.cache.backend"@,
        "scale_mode"@ != "canvas.cache.memory_mib"@,
        "scale_mode"@ != "decode.full_workers"@,
        "scale_mode"@ != "action.next"@,
        "scale_mode"@ != "action.back"@,
        "scale_mode"@ != "action.shift_forward"@,
        "scale_mode"@ != "action.shift_back"@,
        "scale_mode"@ != "action.replace"@,
        "scale_mode"@ != "action.quarantine"@,
        "scale_mode"@ != "action.startup"@,
        "canvas.thumbnail_max_edge"@ != "canvas.cache.workers"@,
        "canvas.thumbnail_max_edge"@ != "canvas.cache.backend"@,
        "canvas.thumbnail_max_edge"@ != "canvas.cache.memory_mib"@,
        "canvas.thumbnail_max_edge"@ != "decode.full_workers"@,
        "canvas.thumbnail_max_edge"@ != "action.next"@,
        "canvas.thumbnail_max_edge"@ != "action.back"@,
        "canvas.thumbnail_max_edge"@ != "action.shift_forward"@,
        "canvas.thumbnail_max_edge"@ != "action.shift_back"@,
        "canvas.thumbnail_max_edge"@ != "action.replace"@,
        "canvas.thumbnail_max_edge"@ != "action.quarantine"@,
        "canvas.thumbnail_max_edge"@ != "action.startup"@,
        "canvas.cache.workers"@ != "canvas.cache.backend"@,
        "canvas.cache.workers"@ != "canvas.cache.memory_mib"@,
        "canvas.cache.workers"@ != "decode.full_workers"@,
        "canvas.cache.workers"@ != "action.next"@,
        "canvas.cache.workers"@ != "action.back"@,
        "canvas.cache.workers"@ != "action.shift_forward"@,
        "canvas.cache.workers"@ != "action.shift_back"@,
        "canvas.cache.workers"@ != "action.replace"@,
        "canvas.cache.workers"@ != "action.quarantine"@,
        "canvas.cache.workers"@ != "action.startup"@,
        "canvas.cache.backend"@ != "canvas.cache.memory_mib"@,
        "canvas.cache.backend"@ != "decode.full_workers"@,
        "canvas.cache.backend"@ != "action.next"@,
        "canvas.cache.backend"@ != "action.back"@,
        "canvas.cache.backend"@ != "action.shift_forward"@,
        "canvas.cache.backend"@ != "action.shift_back"@,
        "canvas.cache.backend"@ != "action.replace"@,
        "canvas.cache.backend"@ != "action.quarantine"@,
        "canvas.cache.backend"@ != "action.startup"@,
        "canvas.cache.memory_mib"@ != "decode.full_workers"@,
        "canvas.cache.memory_mib"@ != "action.next"@,
        "canvas.cache.memory_mib"@ != "action.back"@,
        "canvas.cache.memory_mib"@ != "action.shift_forward"@,
        "canvas.cache.memory_mib"@ != "action.shift_back"@,
        "canvas.cache.memory_mib"@ != "action.replace"@,
        "canvas.cache.memory_mib"@ != "action.quarantine"@,
        "canvas.cache.memory_mib"@ != "action.startup"@,
        "decode.full_workers"@ != "action.next"@,
        "decode.full_workers"@ != "action.back"@,
        "decode.full_workers"@ != "action.shift_forward"@,
        "decode.full_workers"@ != "action.shift_back"@,
        "decode.full_workers"@ != "action.replace"@,
        "decode.full_workers"@ != "action.quarantine"@,
        "decode.full_workers"@ != "action.startup"@,
        "action.next"@ != "action.back"@,
        "action.next"@ != "action.shift_forward"@,
        "action.next"@ != "action.shift_back"@,
        "action.next"@ != "action.replace"@,
        "action.next"@ != "action.quarantine"@,
        "action.next"@ != "action.startup"@,
        "action.back"@ != "action.shift_forward"@,
        "action.back"@ != "action.shift_back"@,
        "action.back"@ != "action.replace"@,
        "action.back"@ != "action.quarantine"@,
        "action.back"@ != "action.startup"@,
        "action.shift_forward"@ != "action.shift_back"@,
        "action.shift_forward"@ != "action.replace"@,
        "action.shift_forward"@ != "action.quarantine"@,
        "action.shift_forward"@ != "action.startup"@,
        "action.shift_back"@ != "action.replace"@,
        "action.shift_back"@ != "action.quarantine"@,
        "action.shift_back"@ != "action.startup"@,
        "action.replace"@ != "action.quarantine"@,
        "action.replace"@ != "action.startup"@,
        "action.quarantine"@ != "action.startup"@,
{
    reveal_strlit("wall_dir");
    assert("wall_dir"@.len() == 8);
    reveal_strlit("state_dir");
    assert("state_dir"@.len() == 9);
    reveal_strlit("quarantine_dir");
    assert("quarantine_dir"@.len() == 14);
    reveal_strlit("favorite_weight");
    assert("favorite_weight"@.len() == 15);
    reveal_strlit("max_history");
    assert("max_history"@.len() == 11);
    reveal_strlit("scale_mode");
    assert("scale_mode"@.len() == 10);
    reveal_strlit("canvas.thumbnail_max_edge");
    assert("canvas.thumbnail_max_edge"@.len() == 25);
    reveal_strlit("canvas.cache.workers");
    assert("canvas.cache.workers"@.len() == 20);
    reveal_strlit("canvas.cache.backend");
    assert("canvas.cache.backend"@.len() == 20);
    reveal_strlit("canvas.cache.memory_mib");
    assert("canvas.cache.memory_mib"@.len() == 23);
    reveal_strlit("decode.full_workers");
    assert("decode.full_workers"@.len() == 19);
    reveal_strlit("action.next");
    assert("action.next"@.len() == 11);
    reveal_strlit("action.back");
    assert("action.back"@.len() == 11);
    reveal_strlit("action.shift_forward");
    assert("action.shift_forward"@.len() == 20);
    reveal_strlit("action.shift_back");
    assert("action.shift_back"@.len() == 17);
    reveal_strlit("action.replace");
    assert("action.replace"@.len() == 14);
    reveal_strlit("action.quarantine");
    assert("action.quarantine"@.len() == 17);
    reveal_strlit("action.startup");
    assert("action.startup"@.len() == 14);
    assert("quarantine_dir"@[0] != "action.replace"@[0]);
    assert("quarantine_dir"@[0] != "action.startup"@[0]);
    assert("max_history"@[0] != "action.next"@[0]);
    assert("max_history"@[0] != "action.back"@[0]);
    assert("canvas.cache.workers"@[13] != "canvas.cache.backend"@[13]);
    assert("canvas.cache.workers"@[0] != "action.shift_forward"@[0]);
    assert("canvas.cache.backend"@[0] != "action.shift_forward"@[0]);
    assert("action.next"@[7] != "action.back"@[7]);
    assert("action.shift_back"@[7] != "action.quarantine"@[7]);
    assert("action.replace"@[7] != "action.startup"@[7]);
}

/// The fields of profiles differ from one another.
#[verifier::spinoff_prover]
pub proof fn lemma_fields_differ()
    ensures
        "type"@ != "direction"@,
        "type"@ != "duration_ms"@,
        "type"@ != "easing"@,
        "type"@ != "mode"@,
        "type"@ != "walk"@,
        "type"@ != "zoom_out_ms"@,
        "type"@ != "pan_ms"@,
        "type"@ != "zoom_in_ms"@,
        "type"@ != "pan_axis"@,
        "type"@ != "overview_scale"@,
        "type"@ != "tile_count"@,
        "type"@ != "max_tile_count"@,
        "type"@ != "fallback"@,
        "direction"@ != "duration_ms"@,
        "direction"@ != "easing"@,
        "direction"@ != "mode"@,
        "direction"@ != "walk"@,
        "direction"@ != "zoom_out_ms"@,
        "direction"@ != "pan_ms"@,
        "direction"@ != "zoom_in_ms"@,
        "direction"@ != "pan_axis"@,
        "direction"@ != "overview_scale"@,
        "direction"@ != "tile_count"@,
        "direction"@ != "max_tile_count"@,
        "direction"@ != "fallback"@,
        "duration_ms"@ != "easing"@,
        "duration_ms"@ != "mode"@,
        "duration_ms"@ != "walk"@,
        "duration_ms"@ != "zoom_out_ms"@,
        "duration_ms"@ != "pan_ms"@,
        "duration_ms"@ != "zoom_in_ms"@,
        "duration_ms"@ != "pan_axis"@,
        "duration_ms"@ != "overview_scale"@,
        "duration_ms"@ != "tile_count"@,
        "duration_ms"@ != "max_tile_count"@,
        "duration_ms"@ != "fallback"@,
        "easing"@ != "mode"@,
        "easing"@ != "walk"@,
        "easing"@ != "zoom_out_ms"@,
        "easing"@ != "pan_ms"@,
        "easing"@ != "zoom_in_ms"@,
        "easing"@ != "pan_axis"@,
        "easing"@ != "overview_scale"@,
        "easing"@ != "tile_count"@,
        "easing"@ != "max_tile_count"@,
        "easing"@ != "fallback"@,
        "mode"@ != "walk"@,
        "mode"@ != "zoom_out_ms"@,
        "mode"@ != "pan_ms"@,
        "mode"@ != "zoom_in_ms"@,
        "mode"@ != "pan_axis"@,
        "mode"@ != "overview_scale"@,
        "mode"@ != "tile_count"@,
        "mode"@ != "max_tile_count"@,
        "mode"@ != "fallback"@,
        "walk"@ != "zoom_out_ms"@,
        "walk"@ != "pan_ms"@,
        "walk"@ != "zoom_in_ms"@,
        "walk"@ != "pan_axis"@,
        "walk"@ != "overview_scale"@,
        "walk"@ != "tile_count"@,
        "walk"@ != "max_tile_count"@,
        "walk"@ != "fallback"@,
        "zoom_out_ms"@ != "pan_ms"@,
        "zoom_out_ms"@ != "zoom_in_ms"@,
        "zoom_out_ms"@ != "pan_axis"@,
        "zoom_out_ms"@ != "overview_scale"@,
        "zoom_out_ms"@ != "tile_count"@,
        "zoom_out_ms"@ != "max_tile_count"@,
        "zoom_out_ms"@ != "fallback"@,
        "pan_ms"@ != "zoom_in_ms"@,
        "pan_ms"@ != "pan_axis"@,
        "pan_ms"@ != "overview_scale"@,
        "pan_ms"@ != "tile_count"@,
        "pan_ms"@ != "max_tile_count"@,
        "pan_ms"@ != "fallback"@,
        "zoom_in_ms"@ != "pan_axis"@,
        "zoom_in_ms"@ != "overview_scale"@,
        "zoom_in_ms"@ != "tile_count"@,
        "zoom_in_ms"@ != "max_tile_count"@,
        "zoom_in_ms"@ != "fallback"@,
        "pan_axis"@ != "overview_scale"@,
        "pan_axis"@ != "tile_count"@,
        "pan_axis"@ != "max_tile_count"@,
        "pan_axis"@ != "fallback"@,
        "overview_scale"@ != "tile_count"@,
        "overview_scale"@ != "max_tile_count"@,
        "overview_scale"@ != "fallback"@,
        "tile_count"@ != "max_tile_count"@,
        "tile_count"@ != "fallback"@,
        "max_tile_count"@ != "fallback"@,
{
    reveal_strlit("type");
    assert("type"@.len() == 4);
    reveal_strlit("direction");
    assert("direction"@.len() == 9);
    reveal_strlit("duration_ms");
    assert("duration_ms"@.len() == 11);
    reveal_strlit("easing");
    assert("easing"@.len() == 6);
    reveal_strlit("mode");
    assert("mode"@.len() == 4);
    reveal_strlit("walk");
    assert("walk"@.len() == 4);
    reveal_strlit("zoom_out_ms");
    assert("zoom_out_ms"@.len() == 11);
    reveal_strlit("pan_ms");
    assert("pan_ms"@.len() == 6);
    reveal_strlit("zoom_in_ms");
    assert("zoom_in_ms"@.len() == 10);
    reveal_strlit("pan_axis");
    assert("pan_axis"@.len() == 8);
    reveal_strlit("overview_scale");
    assert("overview_scale"@.len() == 14);
    reveal_strlit("tile_count");
    assert("tile_count"@.len() == 10);
    reveal_strlit("max_tile_count");
    assert("max_tile_count"@.len() == 14);
    reveal_strlit("fallback");
    assert("fallback"@.len() == 8);
    assert("type"@[0] != "mode"@[0]);
    assert("type"@[0] != "walk"@[0]);
    assert("duration_ms"@[0] != "zoom_out_ms"@[0]);
    assert("easing"@[0] != "pan_ms"@[0]);
    assert("mode"@[0] != "walk"@[0]);
    assert("zoom_in_ms"@[0] != "tile_count"@[0]);
    assert("pan_axis"@[0] != "fallback"@[0]);
    assert("overview_scale"@[0] != "max_tile_count"@[0]);
}

/// The variables differ from one another.
#[verifier::spinoff_prover]
pub proof fn lemma_variables_differ()
    ensures
        "MURAL_SCALE_MODE"@ != "MURAL_CANVAS_ZOOM_OUT_MS"@,
        "MURAL_SCALE_MODE"@ != "MURAL_CANVAS_PAN_MS"@,
        "MURAL_SCALE_MODE"@ != "MURAL_CANVAS_ZOOM_IN_MS"@,
        "MURAL_SCALE_MODE"@ != "MURAL_CANVAS_MODE"@,
        "MURAL_SCALE_MODE"@ != "MURAL_CANVAS_WALK"@,
        "MURAL_SCALE_MODE"@ != "MURAL_CANVAS_PAN_AXIS"@,
        "MURAL_SCALE_MODE"@ != "MURAL_CANVAS_OVERVIEW_SCALE"@,
        "MURAL_SCALE_MODE"@ != "MURAL_CANVAS_TILE_COUNT"@,
        "MURAL_SCALE_MODE"@ != "MURAL_CANVAS_MAX_TILE_COUNT"@,
        "MURAL_SCALE_MODE"@ != "MURAL_CANVAS_THUMBNAIL_MAX_EDGE"@,
        "MURAL_SCALE_MODE"@ != "MURAL_CANVAS_CACHE_WORKERS"@,
        "MURAL_SCALE_MODE"@ != "MURAL_CANVAS_CACHE_BACKEND"@,
        "MURAL_SCALE_MODE"@ != "MURAL_CANVAS_CACHE_MEMORY_MIB"@,
        "MURAL_SCALE_MODE"@ != "MURAL_DECODE_FULL_WORKERS"@,
        "MURAL_CANVAS_ZOOM_OUT_MS"@ != "MURAL_CANVAS_PAN_MS"@,
        "MURAL_CANVAS_ZOOM_OUT_MS"@ != "MURAL_CANVAS_ZOOM_IN_MS"@,
        "MURAL_CANVAS_ZOOM_OUT_MS"@ != "MURAL_CANVAS_MODE"@,
        "MURAL_CANVAS_ZOOM_OUT_MS"@ != "MURAL_CANVAS_WALK"@,
        "MURAL_CANVAS_ZOOM_OUT_MS"@ != "MURAL_CANVAS_PAN_AXIS"@,
        "MURAL_CANVAS_ZOOM_OUT_MS"@ != "MURAL_CANVAS_OVERVIEW_SCALE"@,
        "MURAL_CANVAS_ZOOM_OUT_MS"@ != "MURAL_CANVAS_TILE_COUNT"@,
        "MURAL_CANVAS_ZOOM_OUT_MS"@ != "MURAL_CANVAS_MAX_TILE_COUNT"@,
        "MURAL_CANVAS_ZOOM_OUT_MS"@ != "MURAL_CANVAS_THUMBNAIL_MAX_EDGE"@,
        "MURAL_CANVAS_ZOOM_OUT_MS"@ != "MURAL_CANVAS_CACHE_WORKERS"@,
        "MURAL_CANVAS_ZOOM_OUT_MS"@ != "MURAL_CANVAS_CACHE_BACKEND"@,
        "MURAL_CANVAS_ZOOM_OUT_MS"@ != "MURAL_CANVAS_CACHE_MEMORY_MIB"@,
        "MURAL_CANVAS_ZOOM_OUT_MS"@ != "MURAL_DECODE_FULL_WORKERS"@,
        "MURAL_CANVAS_PAN_MS"@ != "MURAL_CANVAS_ZOOM_IN_MS"@,
        "MURAL_CANVAS_PAN_MS"@ != "MURAL_CANVAS_MODE"@,
        "MURAL_CANVAS_PAN_MS"@ != "MURAL_CANVAS_WALK"@,
        "MURAL_CANVAS_PAN_MS"@ != "MURAL_CANVAS_PAN_AXIS"@,
        "MURAL_CANVAS_PAN_MS"@ != "MURAL_CANVAS_OVERVIEW_SCALE"@,
        "MURAL_CANVAS_PAN_MS"@ != "MURAL_CANVAS_TILE_COUNT"@,
        "MURAL_CANVAS_PAN_MS"@ != "MURAL_CANVAS_MAX_TILE_COUNT"@,
        "MURAL_CANVAS_PAN_MS"@ != "MURAL_CANVAS_THUMBNAIL_MAX_EDGE"@,
        "MURAL_CANVAS_PAN_MS"@ != "MURAL_CANVAS_CACHE_WORKERS"@,
        "MURAL_CANVAS_PAN_MS"@ != "MURAL_CANVAS_CACHE_BACKEND"@,
        "MURAL_CANVAS_PAN_MS"@ != "MURAL_CANVAS_CACHE_MEMORY_MIB"@,
        "MURAL_CANVAS_PAN_MS"@ != "MURAL_DECODE_FULL_WORKERS"@,
        "MURAL_CANVAS_ZOOM_IN_MS"@ != "MURAL_CANVAS_MODE"@,
        "MURAL_CANVAS_ZOOM_IN_MS"@ != "MURAL_CANVAS_WALK"@,
        "MURAL_CANVAS_ZOOM_IN_MS"@ != "MURAL_CANVAS_PAN_AXIS"@,
        "MURAL_CANVAS_ZOOM_IN_MS"@ != "MURAL_CANVAS_OVERVIEW_SCALE"@,
        "MURAL_CANVAS_ZOOM_IN_MS"@ != "MURAL_CANVAS_TILE_COUNT"@,
        "MURAL_CANVAS_ZOOM_IN_MS"@ != "MURAL_CANVAS_MAX_TILE_COUNT"@,
        "MURAL_CANVAS_ZOOM_IN_MS"@ != "MURAL_CANVAS_THUMBNAIL_MAX_EDGE"@,
        "MURAL_CANVAS_ZOOM_IN_MS"@ != "MURAL_CANVAS_CACHE_WORKERS"@,
        "MURAL_CANVAS_ZOOM_IN_MS"@ != "MURAL_CANVAS_CACHE_BACKEND"@,
        "MURAL_CANVAS_ZOOM_IN_MS"@ != "MURAL_CANVAS_CACHE_MEMORY_MIB"@,
        "MURAL_CANVAS_ZOOM_IN_MS"@ != "MURAL_DECODE_FULL_WORKERS"@,
        "MURAL_CANVAS_MODE"@ != "MURAL_CANVAS_WALK"@,
        "MURAL_CANVAS_MODE"@ != "MURAL_CANVAS_PAN_AXIS"@,
        "MURAL_CANVAS_MODE"@ != "MURAL_CANVAS_OVERVIEW_SCALE"@,
        "MURAL_CANVAS_MODE"@ != "MURAL_CANVAS_TILE_COUNT"@,
        "MURAL_CANVAS_MODE"@ != "MURAL_CANVAS_MAX_TILE_COUNT"@,
        "MURAL_CANVAS_MODE"@ != "MURAL_CANVAS_THUMBNAIL_MAX_EDGE"@,
        "MURAL_CANVAS_MODE"@ != "MURAL_CANVAS_CACHE_WORKERS"@,
        "MURAL_CANVAS_MODE"@ != "MURAL_CANVAS_CACHE_BACKEND"@,
        "MURAL_CANVAS_MODE"@ != "MURAL_CANVAS_CACHE_MEMORY_MIB"@,
        "MURAL_CANVAS_MODE"@ != "MURAL_DECODE_FULL_WORKERS"@,
        "MURAL_CANVAS_WALK"@ != "MURAL_CANVAS_PAN_AXIS"@,
        "MURAL_CANVAS_WALK"@ != "MURAL_CANVAS_OVERVIEW_SCALE"@,
        "MURAL_CANVAS_WALK"@ != "MURAL_CANVAS_TILE_COUNT"@,
        "MURAL_CANVAS_WALK"@ != "MURAL_CANVAS_MAX_TILE_COUNT"@,
        "MURAL_CANVAS_WALK"@ != "MURAL_CANVAS_THUMBNAIL_MAX_EDGE"@,
        "MURAL_CANVAS_WALK"@ != "MURAL_CANVAS_CACHE_WORKERS"@,
        "MURAL_CANVAS_WALK"@ != "MURAL_CANVAS_CACHE_BACKEND"@,
        "MURAL_CANVAS_WALK"@ != "MURAL_CANVAS_CACHE_MEMORY_MIB"@,
        "MURAL_CANVAS_WALK"@ != "MURAL_DECODE_FULL_WORKERS"@,
        "MURAL_CANVAS_PAN_AXIS"@ != "MURAL_CANVAS_OVERVIEW_SCALE"@,
        "MURAL_CANVAS_PAN_AXIS"@ != "MURAL_CANVAS_TILE_COUNT"@,
        "MURAL_CANVAS_PAN_AXIS"@ != "MURAL_CANVAS_MAX_TILE_COUNT"@,
        "MURAL_CANVAS_PAN_AXIS"@ != "MURAL_CANVAS_THUMBNAIL_MAX_EDGE"@,
        "MURAL_CANVAS_PAN_AXIS"@ != "MURAL_CANVAS_CACHE_WORKERS"@,
        "MURAL_CANVAS_PAN_AXIS"@ != "MURAL_CANVAS_CACHE_BACKEND"@,
        "MURAL_CANVAS_PAN_AXIS"@ != "MURAL_CANVAS_CACHE_MEMORY_MIB"@,
        "MURAL_CANVAS_PAN_AXIS"@ != "MURAL_DECODE_FULL_WORKERS"@,
        "MURAL_CANVAS_OVERVIEW_SCALE"@ != "MURAL_CANVAS_TILE_COUNT"@,
        "MURAL_CANVAS_OVERVIEW_SCALE"@ != "MURAL_CANVAS_MAX_TILE_COUNT"@,
        "MURAL_CANVAS_OVERVIEW_SCALE"@ != "MURAL_CANVAS_THUMBNAIL_MAX_EDGE"@,
        "MURAL_CANVAS_OVERVIEW_SCALE"@ != "MURAL_CANVAS_CACHE_WORKERS"@,
        "MURAL_CANVAS_OVERVIEW_SCALE"@ != "MURAL_CANVAS_CACHE_BACKEND"@,
        "MURAL_CANVAS_OVERVIEW_SCALE"@ != "MURAL_CANVAS_CACHE_MEMORY_MIB"@,
        "MURAL_CANVAS_OVERVIEW_SCALE"@ != "MURAL_DECODE_FULL_WORKERS"@,
        "MURAL_CANVAS_TILE_COUNT"@ != "MURAL_CANVAS_MAX_TILE_COUNT"@,
        "MURAL_CANVAS_TILE_COUNT"@ != "MURAL_CANVAS_THUMBNAIL_MAX_EDGE"@,
        "MURAL_CANVAS_TILE_COUNT"@ != "MURAL_CANVAS_CACHE_WORKERS"@,
        "MURAL_CANVAS_TILE_COUNT"@ != "MURAL_CANVAS_CACHE_BACKEND"@,
        "MURAL_CANVAS_TILE_COUNT"@ != "MURAL_CANVAS_CACHE_MEMORY_MIB"@,
        "MURAL_CANVAS_TILE_COUNT"@ != "MURAL_DECODE_FULL_WORKERS"@,
        "MURAL_CANVAS_MAX_TILE_COUNT"@ != "MURAL_CANVAS_THUMBNAIL_MAX_EDGE"@,
        "MURAL_CANVAS_MAX_TILE_COUNT"@ != "MURAL_CANVAS_CACHE_WORKERS"@,
        "MURAL_CANVAS_MAX_TILE_COUNT"@ != "MURAL_CANVAS_CACHE_BACKEND"@,
        "MURAL_CANVAS_MAX_TILE_COUNT"@ != "MURAL_CANVAS_CACHE_MEMORY_MIB"@,
        "MURAL_CANVAS_MAX_TILE_COUNT"@ != "MURAL_DECODE_FULL_WORKERS"@,
        "MURAL_CANVAS_THUMBNAIL_MAX_EDGE"@ != "MURAL_CANVAS_CACHE_WORKERS"@,
        "MURAL_CANVAS_THUMBNAIL_MAX_EDGE"@ != "MURAL_CANVAS_CACHE_BACKEND"@,
        "MURAL_CANVAS_THUMBNAIL_MAX_EDGE"@ != "MURAL_CANVAS_CACHE_MEMORY_MIB"@,
        "MURAL_CANVAS_THUMBNAIL_MAX_EDGE"@ != "MURAL_DECODE_FULL_WORKERS"@,
        "MURAL_CANVAS_CACHE_WORKERS"@ != "MURAL_CANVAS_CACHE_BACKEND"@,
        "MURAL_CANVAS_CACHE_WORKERS"@ != "MURAL_CANVAS_CACHE_MEMORY_MIB"@,
        "MURAL_CANVAS_CACHE_WORKERS"@ != "MURAL_DECODE_FULL_WORKERS"@,
        "MURAL_CANVAS_CACHE_BACKEND"@ != "MURAL_CANVAS_CACHE_MEMORY_MIB"@,
        "MURAL_CANVAS_CACHE_BACKEND"@ != "MURAL_DECODE_FULL_WORKERS"@,
        "MURAL_CANVAS_CACHE_MEMORY_MIB"@ != "MURAL_DECODE_FULL_WORKERS"@,
{
    reveal_strlit("MURAL_SCALE_MODE");
    assert("MURAL_SCALE_MODE"@.len() == 16);
    reveal_strlit("MURAL_CANVAS_ZOOM_OUT_MS");
    assert("MURAL_CANVAS_ZOOM_OUT_MS"@.len() == 24);
    reveal_strlit("MURAL_CANVAS_PAN_MS");
    assert("MURAL_CANVAS_PAN_MS"@.len() == 19);
    reveal_strlit("MURAL_CANVAS_ZOOM_IN_MS");
    assert("MURAL_CANVAS_ZOOM_IN_MS"@.len() == 23);
    reveal_strlit("MURAL_CANVAS_MODE");
    assert("MURAL_CANVAS_MODE"@.len() == 17);
    reveal_strlit("MURAL_CANVAS_WALK");
    assert("MURAL_CANVAS_WALK"@.len() == 17);
    reveal_strlit("MURAL_CANVAS_PAN_AXIS");
    assert("MURAL_CANVAS_PAN_AXIS"@.len() == 21);
    reveal_strlit("MURAL_CANVAS_OVERVIEW_SCALE");
    assert("MURAL_CANVAS_OVERVIEW_SCALE"@.len() == 27);
    reveal_strlit("MURAL_CANVAS_TILE_COUNT");
    assert("MURAL_CANVAS_TILE_COUNT"@.len() == 23);
    reveal_strlit("MURAL_CANVAS_MAX_TILE_COUNT");
    assert("MURAL_CANVAS_MAX_TILE_COUNT"@.len() == 27);
    reveal_strlit("MURAL_CANVAS_THUMBNAIL_MAX_EDGE");
    assert("MURAL_CANVAS_THUMBNAIL_MAX_EDGE"@.len() == 31);
    reveal_strlit("MURAL_CANVAS_CACHE_WORKERS");
    assert("MURAL_CANVAS_CACHE_WORKERS"@.len() == 26);
    reveal_strlit("MURAL_CANVAS_CACHE_BACKEND");
    assert("MURAL_CANVAS_CACHE_BACKEND"@.len() == 26);
    reveal_strlit("MURAL_CANVAS_CACHE_MEMORY_MIB");
    assert("MURAL_CANVAS_CACHE_MEMORY_MIB"@.len() == 29);
    reveal_strlit("MURAL_DECODE_FULL_WORKERS");
    assert("MURAL_DECODE_FULL_WORKERS"@.len() == 25);
    assert("MURAL_CANVAS_ZOOM_IN_MS"@[13] != "MURAL_CANVAS_TILE_COUNT"@[13]);
    assert("MURAL_CANVAS_MODE"@[13] != "MURAL_CANVAS_WALK"@[13]);
    assert("MURAL_CANVAS_OVERVIEW_SCALE"@[13] != "MURAL_CANVAS_MAX_TILE_COUNT"@[13]);
    assert("MURAL_CANVAS_CACHE_WORKERS"@[19] != "MURAL_CANVAS_CACHE_BACKEND"@[19]);
}

// ---------------------------------------------------------------------------
// Numbers

/// A number that is written in decimal is read as that number, from one up to what the setting
/// can hold.
pub proof fn law_numbers_are_read_as_written(place: PlaceView, n: nat)
    ensures
        0 < n <= usize::MAX ==> config::count_setting(place, text::decimal_text(n)) == Ok::<
            usize,
            Seq<char>,
        >(n as usize),
        0 < n <= u64::MAX ==> config::milliseconds_setting(place, text::decimal_text(n)) == Ok::<
            u64,
            Seq<char>,
        >(n as u64),
        0 < n <= u32::MAX ==> config::edge_setting(place, text::decimal_text(n)) == Ok::<
            u32,
            Seq<char>,
        >(n as u32),
        0 < n <= MAX_CANVAS_TILE_COUNT ==> config::tile_limit_setting(place, text::decimal_text(n))
            == Ok::<usize, Seq<char>>(n as usize),
        0 < n <= MAX_CANVAS_TILE_COUNT ==> config::tile_count_setting(place, text::decimal_text(n))
            == Ok::<RawCanvasTileCount, Seq<char>>(RawCanvasTileCount::Fixed(n as usize)),
        MAX_CANVAS_TILE_COUNT < n <= usize::MAX ==> config::tile_limit_setting(
            place,
            text::decimal_text(n),
        ) is Err,
        n == 0 ==> config::count_setting(place, text::decimal_text(n)) is Err
            && config::milliseconds_setting(place, text::decimal_text(n)) is Err
            && config::edge_setting(place, text::decimal_text(n)) is Err,
        config::tile_count_setting(place, "auto"@) == Ok::<RawCanvasTileCount, Seq<char>>(
            RawCanvasTileCount::Auto,
        ),
{
    if n <= usize::MAX {
        text::lemma_decimal_round_trip(n, usize::MAX as nat, IntError::PosOverflow);
    }
    if n <= u64::MAX {
        text::lemma_decimal_round_trip(n, u64::MAX as nat, IntError::PosOverflow);
    }
    if n <= u32::MAX {
        text::lemma_decimal_round_trip(n, u32::MAX as nat, IntError::PosOverflow);
    }
    text::lemma_decimal_text_shape(n);
    reveal_strlit("auto");
    assert(text::is_digit(text::decimal_text(n)[0]));
    assert(!text::is_digit("auto"@[0]));
}

/// What is read as a number is digits, with a plus before them or not, and is the number that
/// they stand for.
pub proof fn law_digits_are_read_by_place(s: Seq<char>, c: char, max: nat, over: IntError)
    ensures
        text::digits_value(Seq::empty(), max, over) == Ok::<nat, IntError>(0),
        match text::digits_value(s, max, over) {
            Ok(head) => if !('0' <= c <= '9') {
                text::digits_value(s.push(c), max, over) == Err::<nat, IntError>(
                    IntError::InvalidDigit,
                )
            } else if head * 10 + (c as u32 - 0x30) > max {
                text::digits_value(s.push(c), max, over) == Err::<nat, IntError>(over)
            } else {
                text::digits_value(s.push(c), max, over) == Ok::<nat, IntError>(
                    (head * 10 + (c as u32 - 0x30)) as nat,
                )
            },
            Err(error) => text::digits_value(s.push(c), max, over) == Err::<nat, IntError>(error),
        },
{
    assert(s.push(c).drop_last() =~= s);
}

// ---------------------------------------------------------------------------
// Actions

/// The key that sets the transition of an action.
pub open spec fn action_key(action: WallpaperAction) -> Option<Seq<char>> {
    match action {
        WallpaperAction::Next => Some("action.next"@),
        WallpaperAction::Back => Some("action.back"@),
        WallpaperAction::ShiftForward => Some("action.shift_forward"@),
        WallpaperAction::ShiftBack => Some("action.shift_back"@),
        WallpaperAction::Replace { .. } => Some("action.replace"@),
        WallpaperAction::Quarantine { .. } => Some("action.quarantine"@),
        _ => None,
    }
}

/// Whether two written configurations have the same profiles and defaults of transitions.
pub open spec fn same_transitions(a: RawView, b: RawView) -> bool {
    &&& a.transition_profiles == b.transition_profiles
    &&& a.duration_ms == b.duration_ms
    &&& a.easing == b.easing
    &&& a.push_mode == b.push_mode
    &&& a.canvas_out_ms == b.canvas_out_ms
    &&& a.canvas_pan_ms == b.canvas_pan_ms
    &&& a.canvas_in_ms == b.canvas_in_ms
    &&& a.canvas_mode == b.canvas_mode
    &&& a.canvas_walk == b.canvas_walk
    &&& a.canvas_pan_axis == b.canvas_pan_axis
    &&& a.canvas_overview_scale == b.canvas_overview_scale
    &&& a.canvas_tile_count == b.canvas_tile_count
    &&& a.canvas_max_tile_count == b.canvas_max_tile_count
}

#[verifier::spinoff_prover]
pub proof fn lemma_same_push(a: RawView, b: RawView, name: Seq<char>, suffix: Option<Seq<char>>)
    requires
        same_transitions(a, b),
    ensures
        config::push_of(a, name, suffix) == config::push_of(b, name, suffix),
{
    assert(config::profile_of(a, name) == config::profile_of(b, name));
    assert(config::profile_of(a, "push"@) == config::profile_of(b, "push"@));
}

#[verifier::spinoff_prover]
pub proof fn lemma_same_canvas(a: RawView, b: RawView, name: Seq<char>, suffix: Option<Seq<char>>)
    requires
        same_transitions(a, b),
    ensures
        config::canvas_of(a, name, suffix) == config::canvas_of(b, name, suffix),
{
    let profile = config::profile_of(a, name);
    assert(profile == config::profile_of(b, name));
    assert(config::profile_of(a, "canvas"@) == config::profile_of(b, "canvas"@));
    assert(config::canvas_mode_of(a, name, profile) == config::canvas_mode_of(b, name, profile));
    assert(config::walk_of(a, profile) == config::walk_of(b, profile));
    assert(config::tile_count_of(a, profile) == config::tile_count_of(b, profile));
}

#[verifier::spinoff_prover]
pub proof fn lemma_same_resolved(a: RawView, b: RawView, reference: Seq<char>)
    requires
        same_transitions(a, b),
    ensures
        config::resolved(a, reference) == config::resolved(b, reference),
{
    if let Ok((name, suffix)) = config::reference_parts(reference) {
        lemma_same_push(a, b, name, suffix);
        lemma_same_canvas(a, b, name, suffix);
        assert(config::profile_of(a, name) == config::profile_of(b, name));
        assert(config::profile_of(a, "fade"@) == config::profile_of(b, "fade"@));
        assert(config::profile_of(a, "world"@) == config::profile_of(b, "world"@));
    }
}

#[verifier::spinoff_prover]
pub proof fn lemma_same_fallback(a: RawView, b: RawView)
    requires
        same_transitions(a, b),
    ensures
        config::fallback_of(a) == config::fallback_of(b),
{
    assert(config::profile_of(a, "world"@) == config::profile_of(b, "world"@));
    if let Some(reference) = config::profile_of(a, "world"@).fallback {
        lemma_same_resolved(a, b, reference);
    }
}

pub proof fn lemma_same_checks(a: RawView, b: RawView, profiles: Seq<(Seq<char>, ProfileView)>)
    requires
        same_transitions(a, b),
    ensures
        config::profiles_check(a, profiles) == config::profiles_check(b, profiles),
    decreases profiles.len(),
{
    if profiles.len() > 0 {
        lemma_same_checks(a, b, profiles.drop_last());
        let (name, profile) = profiles.last();
        assert(config::profile_of(a, "push"@) == config::profile_of(b, "push"@));
        assert(config::profile_of(a, "canvas"@) == config::profile_of(b, "canvas"@));
        assert(config::push_mode_of(a, name, profile) == config::push_mode_of(b, name, profile));
        assert(config::canvas_mode_of(a, name, profile) == config::canvas_mode_of(
            b,
            name,
            profile,
        ));
        assert(config::walk_of(a, profile) == config::walk_of(b, profile));
    }
}

/// Two written configurations that differ in the references of actions alone stand for
/// configurations that differ in the transitions of the actions alone.
#[verifier::spinoff_prover]
proof fn lemma_built(raw: RawView, after: RawView, parallelism: usize)
    requires
        after == (RawView {
            transition_next: after.transition_next,
            transition_back: after.transition_back,
            transition_shift_forward: after.transition_shift_forward,
            transition_shift_back: after.transition_shift_back,
            transition_replace: after.transition_replace,
            transition_quarantine: after.transition_quarantine,
            transition_startup: after.transition_startup,
            ..raw
        }),
        config::built(raw, parallelism) is Ok,
    ensures
        config::actions_of(raw) is Ok,
        config::built(raw, parallelism)->Ok_0.actions == config::actions_of(raw)->Ok_0,
        config::built(after, parallelism) == match config::actions_of(after) {
            Ok(actions) => Ok(ConfigView { actions, ..config::built(raw, parallelism)->Ok_0 }),
            Err(message) => Err(message),
        },
        forall|reference: Seq<char>| #[trigger]
            config::resolved(after, reference) == config::resolved(raw, reference),
{
    lemma_same_checks(after, raw, raw.transition_profiles);
    lemma_same_fallback(after, raw);
    assert forall|reference: Seq<char>| #[trigger]
        config::resolved(after, reference) == config::resolved(raw, reference) by {
        lemma_same_resolved(after, raw, reference);
    }
}

/// A written configuration with the reference of an action changed.
spec fn with_reference(raw: RawView, action: WallpaperAction, value: Seq<char>) -> RawView {
    match action {
        WallpaperAction::Next => RawView { transition_next: value, ..raw },
        WallpaperAction::Back => RawView { transition_back: value, ..raw },
        WallpaperAction::ShiftForward => RawView { transition_shift_forward: value, ..raw },
        WallpaperAction::ShiftBack => RawView { transition_shift_back: value, ..raw },
        WallpaperAction::Replace { .. } => RawView { transition_replace: value, ..raw },
        WallpaperAction::Quarantine { .. } => RawView { transition_quarantine: value, ..raw },
        _ => raw,
    }
}

#[verifier::spinoff_prover]
proof fn lemma_action_line(
    raw: RawView,
    host: HostView,
    path: Seq<char>,
    line: nat,
    action: WallpaperAction,
    value: Seq<char>,
)
    requires
        action_key(action) is Some,
    ensures
        config::raw_with(raw, host, path, line, action_key(action)->0, value) == Ok::<
            RawView,
            Seq<char>,
        >(with_reference(raw, action, value)),
{
    lemma_keys_differ();
}

#[verifier::spinoff_prover]
proof fn lemma_action_keys(a: WallpaperAction, b: WallpaperAction)
    requires
        action_key(a) is Some,
        action_key(b) != action_key(a),
    ensures
        with_reference_differs(a, b),
{
    lemma_keys_differ();
}

/// Whether two actions have references of their own.
spec fn with_reference_differs(a: WallpaperAction, b: WallpaperAction) -> bool {
    match (a, b) {
        (WallpaperAction::Next, WallpaperAction::Next) => false,
        (WallpaperAction::Back, WallpaperAction::Back) => false,
        (WallpaperAction::ShiftForward, WallpaperAction::ShiftForward) => false,
        (WallpaperAction::ShiftBack, WallpaperAction::ShiftBack) => false,
        (WallpaperAction::Replace { .. }, WallpaperAction::Replace { .. }) => false,
        (WallpaperAction::Quarantine { .. }, WallpaperAction::Quarantine { .. }) => false,
        _ => true,
    }
}

/// The transition that a reference stands for.
#[verifier::opaque]
spec fn meant(raw: RawView, reference: Seq<char>) -> Option<Transition> {
    match config::resolved(raw, reference) {
        Ok(transition) => Some(transition),
        Err(_) => None,
    }
}

/// The transitions of the actions.
#[verifier::opaque]
spec fn acted(raw: RawView) -> Result<ActionTransitions, Seq<char>> {
    config::actions_of(raw)
}

/// The transitions of the actions are those that their references stand for, in turn.
#[verifier::spinoff_prover]
proof fn lemma_actions_of(raw: RawView)
    ensures
        match acted(raw) {
            Ok(actions) => {
                &&& meant(raw, raw.transition_next) == Some(actions.next)
                &&& meant(raw, raw.transition_back) == Some(actions.back)
                &&& meant(raw, raw.transition_shift_forward) == Some(actions.shift_forward)
                &&& meant(raw, raw.transition_shift_back) == Some(actions.shift_back)
                &&& meant(raw, raw.transition_replace) == Some(actions.replace)
                &&& meant(raw, raw.transition_quarantine) == Some(actions.quarantine)
                &&& meant(raw, raw.transition_startup) == Some(actions.startup)
            },
            Err(message) => {
                ||| is_refused(raw, raw.transition_next, message)
                ||| is_refused(raw, raw.transition_back, message)
                ||| is_refused(raw, raw.transition_shift_forward, message)
                ||| is_refused(raw, raw.transition_shift_back, message)
                ||| is_refused(raw, raw.transition_replace, message)
                ||| is_refused(raw, raw.transition_quarantine, message)
                ||| is_refused(raw, raw.transition_startup, message)
            },
        },
{
    reveal(meant);
    reveal(is_refused);
    reveal(acted);
}

/// Whether a reference stands for nothing, and why.
#[verifier::opaque]
spec fn is_refused(raw: RawView, reference: Seq<char>, message: Seq<char>) -> bool {
    config::resolved(raw, reference) == Err::<Transition, Seq<char>>(message)
}

proof fn lemma_meant(raw: RawView, after: RawView, reference: Seq<char>, message: Seq<char>)
    requires
        config::resolved(after, reference) == config::resolved(raw, reference),
    ensures
        meant(after, reference) == meant(raw, reference),
        is_refused(after, reference, message) ==> meant(raw, reference) is None,
        is_refused(after, reference, message) ==> is_refused(raw, reference, message),
{
    reveal(meant);
    reveal(is_refused);
}

#[verifier::spinoff_prover]
proof fn lemma_action_changed(
    raw: RawView,
    action: WallpaperAction,
    value: Seq<char>,
    other: WallpaperAction,
)
    requires
        action_key(action) is Some,
        acted(raw) is Ok,
        forall|reference: Seq<char>| #[trigger]
            meant(with_reference(raw, action, value), reference) == meant(raw, reference),
        forall|reference: Seq<char>, message: Seq<char>| #[trigger]
            is_refused(with_reference(raw, action, value), reference, message) ==> meant(
                raw,
                reference,
            ) is None && is_refused(raw, reference, message),
    ensures
        match acted(with_reference(raw, action, value)) {
            Ok(actions) => {
                &&& meant(raw, value) == Some(actions.of_action(action))
                &&& with_reference_differs(action, other) ==> actions.of_action(other)
                    == acted(raw)->Ok_0.of_action(other)
                &&& actions.startup == acted(raw)->Ok_0.startup
            },
            Err(message) => is_refused(raw, value, message),
        },
{
    lemma_actions_of(raw);
    lemma_actions_of(with_reference(raw, action, value));
}

/// The line of an action sets the transition of that action to the one that it refers to, and
/// leaves those of the other actions and every other setting alone.
#[verifier::spinoff_prover]
#[verifier::rlimit(60)]
pub proof fn law_action_lines_set_their_action(
    raw: RawView,
    host: HostView,
    path: Seq<char>,
    line: nat,
    action: WallpaperAction,
    value: Seq<char>,
    parallelism: usize,
    other: WallpaperAction,
)
    requires
        action_key(action) is Some,
        config::built(raw, parallelism) is Ok,
    ensures
        config::raw_with(raw, host, path, line, action_key(action)->0, value) matches Ok(after) && {
            let before = config::built(raw, parallelism)->Ok_0;
            match config::resolved(raw, value) {
                Ok(transition) => config::built(after, parallelism) matches Ok(config) && {
                    &&& config.actions.of_action(action) == transition
                    &&& action_key(other) != action_key(action) ==> config.actions.of_action(other)
                        == before.actions.of_action(other)
                    &&& config.actions.startup == before.actions.startup
                    &&& config == (ConfigView { actions: config.actions, ..before })
                },
                Err(message) => config::built(after, parallelism) == Err::<ConfigView, Seq<char>>(
                    message,
                ),
            }
        },
{
    lemma_action_line(raw, host, path, line, action, value);
    let after = with_reference(raw, action, value);
    lemma_built(raw, after, parallelism);
    if action_key(other) != action_key(action) {
        lemma_action_keys(action, other);
    }
    assert forall|reference: Seq<char>| #[trigger] meant(after, reference) == meant(raw, reference)
        by {
        lemma_meant(raw, after, reference, value);
    }
    assert forall|reference: Seq<char>, message: Seq<char>| #[trigger]
        is_refused(after, reference, message) implies meant(raw, reference) is None && is_refused(
        raw,
        reference,
        message,
    ) by {
        lemma_meant(raw, after, reference, message);
    }
    reveal(acted);
    lemma_action_changed(raw, action, value, other);
    reveal(meant);
    reveal(is_refused);
}

/// The line of the startup sets the transition at startup, and leaves everything else alone.
#[verifier::spinoff_prover]
pub proof fn law_startup_line_sets_the_startup(
    raw: RawView,
    host: HostView,
    path: Seq<char>,
    line: nat,
    value: Seq<char>,
    parallelism: usize,
    other: WallpaperAction,
)
    requires
        config::built(raw, parallelism) is Ok,
        config::resolved(raw, value) is Ok,
    ensures
        config::raw_with(raw, host, path, line, "action.startup"@, value) matches Ok(after) && (
        config::built(after, parallelism) matches Ok(config) && {
            let before = config::built(raw, parallelism)->Ok_0;
            &&& config::resolved(raw, value) == Ok::<Transition, Seq<char>>(config.actions.startup)
            &&& config.actions.of_action(other) == before.actions.of_action(other)
            &&& config == (ConfigView { actions: config.actions, ..before })
        }),
{
    lemma_startup_line(raw, host, path, line, value);
    lemma_built(raw, RawView { transition_startup: value, ..raw }, parallelism);
}

#[verifier::spinoff_prover]
proof fn lemma_startup_line(
    raw: RawView,
    host: HostView,
    path: Seq<char>,
    line: nat,
    value: Seq<char>,
)
    ensures
        config::raw_with(raw, host, path, line, "action.startup"@, value) == Ok::<
            RawView,
            Seq<char>,
        >(RawView { transition_startup: value, ..raw }),
{
    lemma_keys_differ();
}

/// Without a line for it, going on pushes up and going back pushes down, shifting forward
/// pushes to the left and shifting back to the right, and every other action cuts.
#[verifier::spinoff_prover]
pub proof fn law_actions_push_the_way_they_go(parallelism: usize, index: usize)
    ensures
        config::built(config::default_raw(), parallelism) matches Ok(config) && {
            let actions = config.actions;
            &&& actions.of_action(WallpaperAction::Next) matches Transition::Push {
                direction: PushDirection::Up,
                ..
            }
            &&& actions.of_action(WallpaperAction::Back) matches Transition::Push {
                direction: PushDirection::Down,
                ..
            }
            &&& actions.of_action(WallpaperAction::ShiftForward) matches Transition::Push {
                direction: PushDirection::Left,
                ..
            }
            &&& actions.of_action(WallpaperAction::ShiftBack) matches Transition::Push {
                direction: PushDirection::Right,
                ..
            }
            &&& actions.of_action(WallpaperAction::Replace { index }) is Cut
            &&& actions.of_action(WallpaperAction::Quarantine { index }) is Cut
            &&& actions.startup is Cut
            &&& config.world_fallback_transition is None
        },
{
    let raw = config::default_raw();
    reveal_strlit("up");
    reveal_strlit("down");
    reveal_strlit("left");
    reveal_strlit("right");
    lemma_push_reference(raw, "push:up"@, "up"@);
    lemma_push_reference(raw, "push:down"@, "down"@);
    lemma_push_reference(raw, "push:left"@, "left"@);
    lemma_push_reference(raw, "push:right"@, "right"@);
    reveal_strlit("push:up");
    reveal_strlit("push:down");
    reveal_strlit("push:left");
    reveal_strlit("push:right");
    reveal_strlit("push:");
    PushDirection::Up.law_round_trip();
    PushDirection::Down.law_round_trip();
    PushDirection::Left.law_round_trip();
    PushDirection::Right.law_round_trip();
    TransitionKind::Cut.law_round_trip();
    reveal_strlit("cut");
    text::lemma_first_index("cut"@, ':');
    assert(config::reference_parts("cut"@) == Ok::<(Seq<char>, Option<Seq<char>>), Seq<char>>(
        ("cut"@, None),
    ));
}

proof fn lemma_push_reference(raw: RawView, reference: Seq<char>, suffix: Seq<char>)
    requires
        raw.transition_profiles == Seq::<(Seq<char>, ProfileView)>::empty(),
        reference == "push:"@ + suffix || reference == "push:up"@ && suffix == "up"@ || reference
            == "push:down"@ && suffix == "down"@ || reference == "push:left"@ && suffix == "left"@
            || reference == "push:right"@ && suffix == "right"@,
        suffix.len() > 0,
    ensures
        config::resolved(raw, reference) == match PushDirection::named(suffix) {
            Ok(direction) => Ok(
                Transition::Push {
                    direction,
                    duration_ms: raw.duration_ms,
                    easing: raw.easing,
                    mode: raw.push_mode,
                },
            ),
            Err(message) => Err(message),
        },
{
    reveal_strlit("push:");
    reveal_strlit("push");
    reveal_strlit("push:up");
    reveal_strlit("push:down");
    reveal_strlit("push:left");
    reveal_strlit("push:right");
    reveal_strlit("up");
    reveal_strlit("down");
    reveal_strlit("left");
    reveal_strlit("right");
    assert(reference =~= "push:"@ + suffix);
    text::lemma_first_index(reference, ':');
    assert(reference[4] == ':');
    assert(text::first_index(reference, ':') == 4) by {
        let i = text::first_index(reference, ':');
        if i < 4 {
            assert(reference[i] == "push:"@[i]);
        }
    }
    assert(reference.take(4) =~= "push"@);
    assert(reference.skip(5) =~= suffix);
    TransitionKind::Push.law_round_trip();
    assert(config::profile_of(raw, "push"@) == config::empty_profile());
}

} // verus!
