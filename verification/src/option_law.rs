//! What is proved of the command line: each option and each command does what it is named after.

use crate::arguments::{GlobalsView, ImagePath};
use crate::cli::{BuiltView, CanvasSettings, CliView};
use crate::commands::{PairsView, SetOptionsView};
use crate::compute_options::{ScopeView, StateView, WorldCacheComputeExecution};
use crate::invocation::WorldCommand;
use crate::output::PrintMode;
use crate::protocol::{
    CacheAction, CacheBackend, CacheWarmScope, CanvasPanAxis, CanvasTileCount, CanvasWalk, Easing,
    PushDirection, ScaleMode, Transition, TransitionKind, WallpaperAction, MAX_CANVAS_TILE_COUNT,
};
use crate::request::{ClearView, RequestView};
use crate::scale::OverviewScale;
use crate::text::IntError;
use crate::arguments;
use crate::cli;
use crate::commands;
use crate::compute_options;
use crate::invocation;
use crate::text;
use crate::textmap;
use vstd::prelude::*;

verus! {

// ---------------------------------------------------------------------------
// Names differ

/// The options of a wallpaper action differ from one another.
#[verifier::spinoff_prover]
proof fn lemma_options_differ()
    ensures
        "-t"@ != "--transition"@,
        "-t"@ != "--duration-ms"@,
        "-t"@ != "--easing"@,
        "-t"@ != "--mode"@,
        "-t"@ != "--canvas-zoom-out-ms"@,
        "-t"@ != "--canvas-pan-ms"@,
        "-t"@ != "--canvas-pan-axis"@,
        "-t"@ != "--canvas-walk"@,
        "-t"@ != "--canvas-zoom-in-ms"@,
        "-t"@ != "--canvas-overview-scale"@,
        "-t"@ != "--canvas-tile-count"@,
        "-t"@ != "--canvas-max-tile-count"@,
        "-t"@ != "--scale-mode"@,
        "-t"@ != "--json"@,
        "-t"@ != "-o"@,
        "-t"@ != "--output"@,
        "-t"@ != "--allow-partial"@,
        "--transition"@ != "--duration-ms"@,
        "--transition"@ != "--easing"@,
        "--transition"@ != "--mode"@,
        "--transition"@ != "--canvas-zoom-out-ms"@,
        "--transition"@ != "--canvas-pan-ms"@,
        "--transition"@ != "--canvas-pan-axis"@,
        "--transition"@ != "--canvas-walk"@,
        "--transition"@ != "--canvas-zoom-in-ms"@,
        "--transition"@ != "--canvas-overview-scale"@,
        "--transition"@ != "--canvas-tile-count"@,
        "--transition"@ != "--canvas-max-tile-count"@,
        "--transition"@ != "--scale-mode"@,
        "--transition"@ != "--json"@,
        "--transition"@ != "-o"@,
        "--transition"@ != "--output"@,
        "--transition"@ != "--allow-partial"@,
        "--duration-ms"@ != "--easing"@,
        "--duration-ms"@ != "--mode"@,
        "--duration-ms"@ != "--canvas-zoom-out-ms"@,
        "--duration-ms"@ != "--canvas-pan-ms"@,
        "--duration-ms"@ != "--canvas-pan-axis"@,
        "--duration-ms"@ != "--canvas-walk"@,
        "--duration-ms"@ != "--canvas-zoom-in-ms"@,
        "--duration-ms"@ != "--canvas-overview-scale"@,
        "--duration-ms"@ != "--canvas-tile-count"@,
        "--duration-ms"@ != "--canvas-max-tile-count"@,
        "--duration-ms"@ != "--scale-mode"@,
        "--duration-ms"@ != "--json"@,
        "--duration-ms"@ != "-o"@,
        "--duration-ms"@ != "--output"@,
        "--duration-ms"@ != "--allow-partial"@,
        "--easing"@ != "--mode"@,
        "--easing"@ != "--canvas-zoom-out-ms"@,
        "--easing"@ != "--canvas-pan-ms"@,
        "--easing"@ != "--canvas-pan-axis"@,
        "--easing"@ != "--canvas-walk"@,
        "--easing"@ != "--canvas-zoom-in-ms"@,
        "--easing"@ != "--canvas-overview-scale"@,
        "--easing"@ != "--canvas-tile-count"@,
        "--easing"@ != "--canvas-max-tile-count"@,
        "--easing"@ != "--scale-mode"@,
        "--easing"@ != "--json"@,
        "--easing"@ != "-o"@,
        "--easing"@ != "--output"@,
        "--easing"@ != "--allow-partial"@,
        "--mode"@ != "--canvas-zoom-out-ms"@,
        "--mode"@ != "--canvas-pan-ms"@,
        "--mode"@ != "--canvas-pan-axis"@,
        "--mode"@ != "--canvas-walk"@,
        "--mode"@ != "--canvas-zoom-in-ms"@,
        "--mode"@ != "--canvas-overview-scale"@,
        "--mode"@ != "--canvas-tile-count"@,
        "--mode"@ != "--canvas-max-tile-count"@,
        "--mode"@ != "--scale-mode"@,
        "--mode"@ != "--json"@,
        "--mode"@ != "-o"@,
        "--mode"@ != "--output"@,
        "--mode"@ != "--allow-partial"@,
        "--canvas-zoom-out-ms"@ != "--canvas-pan-ms"@,
        "--canvas-zoom-out-ms"@ != "--canvas-pan-axis"@,
        "--canvas-zoom-out-ms"@ != "--canvas-walk"@,
        "--canvas-zoom-out-ms"@ != "--canvas-zoom-in-ms"@,
        "--canvas-zoom-out-ms"@ != "--canvas-overview-scale"@,
        "--canvas-zoom-out-ms"@ != "--canvas-tile-count"@,
        "--canvas-zoom-out-ms"@ != "--canvas-max-tile-count"@,
        "--canvas-zoom-out-ms"@ != "--scale-mode"@,
        "--canvas-zoom-out-ms"@ != "--json"@,
        "--canvas-zoom-out-ms"@ != "-o"@,
        "--canvas-zoom-out-ms"@ != "--output"@,
        "--canvas-zoom-out-ms"@ != "--allow-partial"@,
        "--canvas-pan-ms"@ != "--canvas-pan-axis"@,
        "--canvas-pan-ms"@ != "--canvas-walk"@,
        "--canvas-pan-ms"@ != "--canvas-zoom-in-ms"@,
        "--canvas-pan-ms"@ != "--canvas-overview-scale"@,
        "--canvas-pan-ms"@ != "--canvas-tile-count"@,
        "--canvas-pan-ms"@ != "--canvas-max-tile-count"@,
        "--canvas-pan-ms"@ != "--scale-mode"@,
        "--canvas-pan-ms"@ != "--json"@,
        "--canvas-pan-ms"@ != "-o"@,
        "--canvas-pan-ms"@ != "--output"@,
        "--canvas-pan-ms"@ != "--allow-partial"@,
        "--canvas-pan-axis"@ != "--canvas-walk"@,
        "--canvas-pan-axis"@ != "--canvas-zoom-in-ms"@,
        "--canvas-pan-axis"@ != "--canvas-overview-scale"@,
        "--canvas-pan-axis"@ != "--canvas-tile-count"@,
        "--canvas-pan-axis"@ != "--canvas-max-tile-count"@,
        "--canvas-pan-axis"@ != "--scale-mode"@,
        "--canvas-pan-axis"@ != "--json"@,
        "--canvas-pan-axis"@ != "-o"@,
        "--canvas-pan-axis"@ != "--output"@,
        "--canvas-pan-axis"@ != "--allow-partial"@,
        "--canvas-walk"@ != "--canvas-zoom-in-ms"@,
        "--canvas-walk"@ != "--canvas-overview-scale"@,
        "--canvas-walk"@ != "--canvas-tile-count"@,
        "--canvas-walk"@ != "--canvas-max-tile-count"@,
        "--canvas-walk"@ != "--scale-mode"@,
        "--canvas-walk"@ != "--json"@,
        "--canvas-walk"@ != "-o"@,
        "--canvas-walk"@ != "--output"@,
        "--canvas-walk"@ != "--allow-partial"@,
        "--canvas-zoom-in-ms"@ != "--canvas-overview-scale"@,
        "--canvas-zoom-in-ms"@ != "--canvas-tile-count"@,
        "--canvas-zoom-in-ms"@ != "--canvas-max-tile-count"@,
        "--canvas-zoom-in-ms"@ != "--scale-mode"@,
        "--canvas-zoom-in-ms"@ != "--json"@,
        "--canvas-zoom-in-ms"@ != "-o"@,
        "--canvas-zoom-in-ms"@ != "--output"@,
        "--canvas-zoom-in-ms"@ != "--allow-partial"@,
        "--canvas-overview-scale"@ != "--canvas-tile-count"@,
        "--canvas-overview-scale"@ != "--canvas-max-tile-count"@,
        "--canvas-overview-scale"@ != "--scale-mode"@,
        "--canvas-overview-scale"@ != "--json"@,
        "--canvas-overview-scale"@ != "-o"@,
        "--canvas-overview-scale"@ != "--output"@,
        "--canvas-overview-scale"@ != "--allow-partial"@,
        "--canvas-tile-count"@ != "--canvas-max-tile-count"@,
        "--canvas-tile-count"@ != "--scale-mode"@,
        "--canvas-tile-count"@ != "--json"@,
        "--canvas-tile-count"@ != "-o"@,
        "--canvas-tile-count"@ != "--output"@,
        "--canvas-tile-count"@ != "--allow-partial"@,
        "--canvas-max-tile-count"@ != "--scale-mode"@,
        "--canvas-max-tile-count"@ != "--json"@,
        "--canvas-max-tile-count"@ != "-o"@,
        "--canvas-max-tile-count"@ != "--output"@,
        "--canvas-max-tile-count"@ != "--allow-partial"@,
        "--scale-mode"@ != "--json"@,
        "--scale-mode"@ != "-o"@,
        "--scale-mode"@ != "--output"@,
        "--scale-mode"@ != "--allow-partial"@,
        "--json"@ != "-o"@,
        "--json"@ != "--output"@,
        "--json"@ != "--allow-partial"@,
        "-o"@ != "--output"@,
        "-o"@ != "--allow-partial"@,
        "--output"@ != "--allow-partial"@,
{
    reveal_strlit("-t");
    assert("-t"@.len() == 2);
    reveal_strlit("--transition");
    assert("--transition"@.len() == 12);
    reveal_strlit("--duration-ms");
    assert("--duration-ms"@.len() == 13);
    reveal_strlit("--easing");
    assert("--easing"@.len() == 8);
    reveal_strlit("--mode");
    assert("--mode"@.len() == 6);
    reveal_strlit("--canvas-zoom-out-ms");
    assert("--canvas-zoom-out-ms"@.len() == 20);
    reveal_strlit("--canvas-pan-ms");
    assert("--canvas-pan-ms"@.len() == 15);
    reveal_strlit("--canvas-pan-axis");
    assert("--canvas-pan-axis"@.len() == 17);
    reveal_strlit("--canvas-walk");
    assert("--canvas-walk"@.len() == 13);
    reveal_strlit("--canvas-zoom-in-ms");
    assert("--canvas-zoom-in-ms"@.len() == 19);
    reveal_strlit("--canvas-overview-scale");
    assert("--canvas-overview-scale"@.len() == 23);
    reveal_strlit("--canvas-tile-count");
    assert("--canvas-tile-count"@.len() == 19);
    reveal_strlit("--canvas-max-tile-count");
    assert("--canvas-max-tile-count"@.len() == 23);
    reveal_strlit("--scale-mode");
    assert("--scale-mode"@.len() == 12);
    reveal_strlit("--json");
    assert("--json"@.len() == 6);
    reveal_strlit("-o");
    assert("-o"@.len() == 2);
    reveal_strlit("--output");
    assert("--output"@.len() == 8);
    reveal_strlit("--allow-partial");
    assert("--allow-partial"@.len() == 15);
    assert("-t"@[1] != "-o"@[1]);
    assert("--transition"@[2] != "--scale-mode"@[2]);
    assert("--duration-ms"@[2] != "--canvas-walk"@[2]);
    assert("--easing"@[2] != "--output"@[2]);
    assert("--mode"@[2] != "--json"@[2]);
    assert("--canvas-pan-ms"@[2] != "--allow-partial"@[2]);
    assert("--canvas-zoom-in-ms"@[9] != "--canvas-tile-count"@[9]);
    assert("--canvas-overview-scale"@[9] != "--canvas-max-tile-count"@[9]);
}

/// The options of a computation differ from one another.
#[verifier::spinoff_prover]
proof fn lemma_compute_options_differ()
    ensures
        "--scope"@ != "--from"@,
        "--scope"@ != "--to"@,
        "--scope"@ != "--center"@,
        "--scope"@ != "--radius"@,
        "--scope"@ != "--lod"@,
        "--scope"@ != "--workers"@,
        "--scope"@ != "--limit"@,
        "--scope"@ != "--tile-limit"@,
        "--scope"@ != "--dry-run"@,
        "--scope"@ != "--background"@,
        "--scope"@ != "--progress"@,
        "--scope"@ != "--json"@,
        "--scope"@ != "--route"@,
        "--from"@ != "--to"@,
        "--from"@ != "--center"@,
        "--from"@ != "--radius"@,
        "--from"@ != "--lod"@,
        "--from"@ != "--workers"@,
        "--from"@ != "--limit"@,
        "--from"@ != "--tile-limit"@,
        "--from"@ != "--dry-run"@,
        "--from"@ != "--background"@,
        "--from"@ != "--progress"@,
        "--from"@ != "--json"@,
        "--from"@ != "--route"@,
        "--to"@ != "--center"@,
        "--to"@ != "--radius"@,
        "--to"@ != "--lod"@,
        "--to"@ != "--workers"@,
        "--to"@ != "--limit"@,
        "--to"@ != "--tile-limit"@,
        "--to"@ != "--dry-run"@,
        "--to"@ != "--background"@,
        "--to"@ != "--progress"@,
        "--to"@ != "--json"@,
        "--to"@ != "--route"@,
        "--center"@ != "--radius"@,
        "--center"@ != "--lod"@,
        "--center"@ != "--workers"@,
        "--center"@ != "--limit"@,
        "--center"@ != "--tile-limit"@,
        "--center"@ != "--dry-run"@,
        "--center"@ != "--background"@,
        "--center"@ != "--progress"@,
        "--center"@ != "--json"@,
        "--center"@ != "--route"@,
        "--radius"@ != "--lod"@,
        "--radius"@ != "--workers"@,
        "--radius"@ != "--limit"@,
        "--radius"@ != "--tile-limit"@,
        "--radius"@ != "--dry-run"@,
        "--radius"@ != "--background"@,
        "--radius"@ != "--progress"@,
        "--radius"@ != "--json"@,
        "--radius"@ != "--route"@,
        "--lod"@ != "--workers"@,
        "--lod"@ != "--limit"@,
        "--lod"@ != "--tile-limit"@,
        "--lod"@ != "--dry-run"@,
        "--lod"@ != "--background"@,
        "--lod"@ != "--progress"@,
        "--lod"@ != "--json"@,
        "--lod"@ != "--route"@,
        "--workers"@ != "--limit"@,
        "--workers"@ != "--tile-limit"@,
        "--workers"@ != "--dry-run"@,
        "--workers"@ != "--background"@,
        "--workers"@ != "--progress"@,
        "--workers"@ != "--json"@,
        "--workers"@ != "--route"@,
        "--limit"@ != "--tile-limit"@,
        "--limit"@ != "--dry-run"@,
        "--limit"@ != "--background"@,
        "--limit"@ != "--progress"@,
        "--limit"@ != "--json"@,
        "--limit"@ != "--route"@,
        "--tile-limit"@ != "--dry-run"@,
        "--tile-limit"@ != "--background"@,
        "--tile-limit"@ != "--progress"@,
        "--tile-limit"@ != "--json"@,
        "--tile-limit"@ != "--route"@,
        "--dry-run"@ != "--background"@,
        "--dry-run"@ != "--progress"@,
        "--dry-run"@ != "--json"@,
        "--dry-run"@ != "--route"@,
        "--background"@ != "--progress"@,
        "--background"@ != "--json"@,
        "--background"@ != "--route"@,
        "--progress"@ != "--json"@,
        "--progress"@ != "--route"@,
        "--json"@ != "--route"@,
{
    reveal_strlit("--scope");
    assert("--scope"@.len() == 7);
    reveal_strlit("--from");
    assert("--from"@.len() == 6);
    reveal_strlit("--to");
    assert("--to"@.len() == 4);
    reveal_strlit("--center");
    assert("--center"@.len() == 8);
    reveal_strlit("--radius");
    assert("--radius"@.len() == 8);
    reveal_strlit("--lod");
    assert("--lod"@.len() == 5);
    reveal_strlit("--workers");
    assert("--workers"@.len() == 9);
    reveal_strlit("--limit");
    assert("--limit"@.len() == 7);
    reveal_strlit("--tile-limit");
    assert("--tile-limit"@.len() == 12);
    reveal_strlit("--dry-run");
    assert("--dry-run"@.len() == 9);
    reveal_strlit("--background");
    assert("--background"@.len() == 12);
    reveal_strlit("--progress");
    assert("--progress"@.len() == 10);
    reveal_strlit("--json");
    assert("--json"@.len() == 6);
    reveal_strlit("--route");
    assert("--route"@.len() == 7);
    assert("--scope"@[2] != "--limit"@[2]);
    assert("--scope"@[2] != "--route"@[2]);
    assert("--from"@[2] != "--json"@[2]);
    assert("--center"@[2] != "--radius"@[2]);
    assert("--workers"@[2] != "--dry-run"@[2]);
    assert("--limit"@[2] != "--route"@[2]);
    assert("--tile-limit"@[2] != "--background"@[2]);
}

/// The wallpaper actions differ from one another.
#[verifier::spinoff_prover]
proof fn lemma_commands_differ()
    ensures
        "next"@ != "back"@,
        "next"@ != "shift"@,
        "next"@ != "shift-forward"@,
        "next"@ != "shift-back"@,
        "next"@ != "replace"@,
        "next"@ != "quarantine"@,
        "next"@ != "quarentine"@,
        "next"@ != "favorite"@,
        "next"@ != "unfavorite"@,
        "next"@ != "favorites"@,
        "next"@ != "current"@,
        "next"@ != "rescan"@,
        "back"@ != "shift"@,
        "back"@ != "shift-forward"@,
        "back"@ != "shift-back"@,
        "back"@ != "replace"@,
        "back"@ != "quarantine"@,
        "back"@ != "quarentine"@,
        "back"@ != "favorite"@,
        "back"@ != "unfavorite"@,
        "back"@ != "favorites"@,
        "back"@ != "current"@,
        "back"@ != "rescan"@,
        "shift"@ != "shift-forward"@,
        "shift"@ != "shift-back"@,
        "shift"@ != "replace"@,
        "shift"@ != "quarantine"@,
        "shift"@ != "quarentine"@,
        "shift"@ != "favorite"@,
        "shift"@ != "unfavorite"@,
        "shift"@ != "favorites"@,
        "shift"@ != "current"@,
        "shift"@ != "rescan"@,
        "shift-forward"@ != "shift-back"@,
        "shift-forward"@ != "replace"@,
        "shift-forward"@ != "quarantine"@,
        "shift-forward"@ != "quarentine"@,
        "shift-forward"@ != "favorite"@,
        "shift-forward"@ != "unfavorite"@,
        "shift-forward"@ != "favorites"@,
        "shift-forward"@ != "current"@,
        "shift-forward"@ != "rescan"@,
        "shift-back"@ != "replace"@,
        "shift-back"@ != "quarantine"@,
        "shift-back"@ != "quarentine"@,
        "shift-back"@ != "favorite"@,
        "shift-back"@ != "unfavorite"@,
        "shift-back"@ != "favorites"@,
        "shift-back"@ != "current"@,
        "shift-back"@ != "rescan"@,
        "replace"@ != "quarantine"@,
        "replace"@ != "quarentine"@,
        "replace"@ != "favorite"@,
        "replace"@ != "unfavorite"@,
        "replace"@ != "favorites"@,
        "replace"@ != "current"@,
        "replace"@ != "rescan"@,
        "quarantine"@ != "quarentine"@,
        "quarantine"@ != "favorite"@,
        "quarantine"@ != "unfavorite"@,
        "quarantine"@ != "favorites"@,
        "quarantine"@ != "current"@,
        "quarantine"@ != "rescan"@,
        "quarentine"@ != "favorite"@,
        "quarentine"@ != "unfavorite"@,
        "quarentine"@ != "favorites"@,
        "quarentine"@ != "current"@,
        "quarentine"@ != "rescan"@,
        "favorite"@ != "unfavorite"@,
        "favorite"@ != "favorites"@,
        "favorite"@ != "current"@,
        "favorite"@ != "rescan"@,
        "unfavorite"@ != "favorites"@,
        "unfavorite"@ != "current"@,
        "unfavorite"@ != "rescan"@,
        "favorites"@ != "current"@,
        "favorites"@ != "rescan"@,
        "current"@ != "rescan"@,
{
    reveal_strlit("next");
    assert("next"@.len() == 4);
    reveal_strlit("back");
    assert("back"@.len() == 4);
    reveal_strlit("shift");
    assert("shift"@.len() == 5);
    reveal_strlit("shift-forward");
    assert("shift-forward"@.len() == 13);
    reveal_strlit("shift-back");
    assert("shift-back"@.len() == 10);
    reveal_strlit("replace");
    assert("replace"@.len() == 7);
    reveal_strlit("quarantine");
    assert("quarantine"@.len() == 10);
    reveal_strlit("quarentine");
    assert("quarentine"@.len() == 10);
    reveal_strlit("favorite");
    assert("favorite"@.len() == 8);
    reveal_strlit("unfavorite");
    assert("unfavorite"@.len() == 10);
    reveal_strlit("favorites");
    assert("favorites"@.len() == 9);
    reveal_strlit("current");
    assert("current"@.len() == 7);
    reveal_strlit("rescan");
    assert("rescan"@.len() == 6);
    assert("next"@[0] != "back"@[0]);
    assert("shift-back"@[0] != "quarantine"@[0]);
    assert("shift-back"@[0] != "quarentine"@[0]);
    assert("shift-back"@[0] != "unfavorite"@[0]);
    assert("replace"@[0] != "current"@[0]);
    assert("quarantine"@[4] != "quarentine"@[4]);
    assert("quarantine"@[0] != "unfavorite"@[0]);
    assert("quarentine"@[0] != "unfavorite"@[0]);
}

/// The directions of a shift differ from one another.
#[verifier::spinoff_prover]
proof fn lemma_directions_differ()
    ensures
        "f"@ != "forward"@,
        "f"@ != "b"@,
        "f"@ != "back"@,
        "f"@ != "backward"@,
        "forward"@ != "b"@,
        "forward"@ != "back"@,
        "forward"@ != "backward"@,
        "b"@ != "back"@,
        "b"@ != "backward"@,
        "back"@ != "backward"@,
{
    reveal_strlit("f");
    assert("f"@.len() == 1);
    reveal_strlit("forward");
    assert("forward"@.len() == 7);
    reveal_strlit("b");
    assert("b"@.len() == 1);
    reveal_strlit("back");
    assert("back"@.len() == 4);
    reveal_strlit("backward");
    assert("backward"@.len() == 8);
    assert("f"@[0] != "b"@[0]);
}

/// The options of warming the cache differ from one another.
#[verifier::spinoff_prover]
proof fn lemma_warm_options_differ()
    ensures
        "--json"@ != "--scope"@,
        "--json"@ != "--workers"@,
        "--json"@ != "--backend"@,
        "--scope"@ != "--workers"@,
        "--scope"@ != "--backend"@,
        "--workers"@ != "--backend"@,
{
    reveal_strlit("--json");
    assert("--json"@.len() == 6);
    reveal_strlit("--scope");
    assert("--scope"@.len() == 7);
    reveal_strlit("--workers");
    assert("--workers"@.len() == 9);
    reveal_strlit("--backend");
    assert("--backend"@.len() == 9);
    assert("--workers"@[2] != "--backend"@[2]);
}

/// The actions on the cache of the world differ from one another.
#[verifier::spinoff_prover]
proof fn lemma_cache_actions_differ()
    ensures
        "status"@ != "index"@,
        "status"@ != "failures"@,
        "status"@ != "compute"@,
        "index"@ != "failures"@,
        "index"@ != "compute"@,
        "failures"@ != "compute"@,
{
    reveal_strlit("status");
    assert("status"@.len() == 6);
    reveal_strlit("index");
    assert("index"@.len() == 5);
    reveal_strlit("failures");
    assert("failures"@.len() == 8);
    reveal_strlit("compute");
    assert("compute"@.len() == 7);
}

/// The commands without a wallpaper action differ from one another.
#[verifier::spinoff_prover]
proof fn lemma_plain_commands_differ()
    ensures
        "ping"@ != "health"@,
        "ping"@ != "query"@,
        "ping"@ != "set"@,
        "ping"@ != "preload"@,
        "ping"@ != "clear"@,
        "ping"@ != "cache"@,
        "ping"@ != "stop"@,
        "health"@ != "query"@,
        "health"@ != "set"@,
        "health"@ != "preload"@,
        "health"@ != "clear"@,
        "health"@ != "cache"@,
        "health"@ != "stop"@,
        "query"@ != "set"@,
        "query"@ != "preload"@,
        "query"@ != "clear"@,
        "query"@ != "cache"@,
        "query"@ != "stop"@,
        "set"@ != "preload"@,
        "set"@ != "clear"@,
        "set"@ != "cache"@,
        "set"@ != "stop"@,
        "preload"@ != "clear"@,
        "preload"@ != "cache"@,
        "preload"@ != "stop"@,
        "clear"@ != "cache"@,
        "clear"@ != "stop"@,
        "cache"@ != "stop"@,
{
    reveal_strlit("ping");
    assert("ping"@.len() == 4);
    reveal_strlit("health");
    assert("health"@.len() == 6);
    reveal_strlit("query");
    assert("query"@.len() == 5);
    reveal_strlit("set");
    assert("set"@.len() == 3);
    reveal_strlit("preload");
    assert("preload"@.len() == 7);
    reveal_strlit("clear");
    assert("clear"@.len() == 5);
    reveal_strlit("cache");
    assert("cache"@.len() == 5);
    reveal_strlit("stop");
    assert("stop"@.len() == 4);
    assert("ping"@[0] != "stop"@[0]);
    assert("query"@[0] != "clear"@[0]);
    assert("query"@[0] != "cache"@[0]);
    assert("clear"@[1] != "cache"@[1]);
}

/// Numbers are read as they are written.
proof fn lemma_numbers(n: nat, what: Seq<char>)
    ensures
        n <= usize::MAX ==> arguments::count_in(text::decimal_text(n), what) == Ok::<
            usize,
            Seq<char>,
        >(n as usize),
        0 < n <= usize::MAX ==> arguments::positive_count_in(text::decimal_text(n), what) == Ok::<
            usize,
            Seq<char>,
        >(n as usize),
        0 < n <= u64::MAX ==> arguments::duration_in(text::decimal_text(n)) == Ok::<
            u64,
            Seq<char>,
        >(n as u64),
        0 < n <= MAX_CANVAS_TILE_COUNT ==> arguments::tiles_in(text::decimal_text(n)) == Ok::<
            usize,
            Seq<char>,
        >(n as usize),
        0 < n <= MAX_CANVAS_TILE_COUNT ==> arguments::tile_count_in(text::decimal_text(n)) == Ok::<
            CanvasTileCount,
            Seq<char>,
        >(CanvasTileCount::Fixed(n as usize)),
        0 < n <= u64::MAX ==> arguments::timeout_in(text::decimal_text(n)) == Ok::<u64, Seq<char>>(
            n as u64,
        ),
{
    if n <= usize::MAX {
        text::lemma_decimal_round_trip(n, usize::MAX as nat, IntError::PosOverflow);
    }
    if n <= u64::MAX {
        text::lemma_decimal_round_trip(n, u64::MAX as nat, IntError::PosOverflow);
    }
    text::lemma_decimal_text_shape(n);
    reveal_strlit("auto");
    assert(text::is_digit(text::decimal_text(n)[0]));
    assert(!text::is_digit("auto"@[0]));
}

// ---------------------------------------------------------------------------
// Options of wallpaper actions

/// The option of a transition names the transition.
#[verifier::spinoff_prover]
pub proof fn law_transition_option(args: Seq<Seq<char>>, index: int, o: CliView, value: Seq<char>)
    requires
        0 <= index,
        index + 1 < args.len(),
        args[index] == "--transition"@,
        args[index + 1] == value,
    ensures
        cli::cli_from(args, index, o) == cli::cli_from(
            args,
            index + 2,
            CliView { explicit: true, token_explicit: true, token: value, ..o },
        ),
{
    lemma_options_differ();
}

/// The option of a transition names the transition.
#[verifier::spinoff_prover]
pub proof fn law_short_transition_option(
    args: Seq<Seq<char>>,
    index: int,
    o: CliView,
    value: Seq<char>,
)
    requires
        0 <= index,
        index + 1 < args.len(),
        args[index] == "-t"@,
        args[index + 1] == value,
    ensures
        cli::cli_from(args, index, o) == cli::cli_from(
            args,
            index + 2,
            CliView { explicit: true, token_explicit: true, token: value, ..o },
        ),
{
    lemma_options_differ();
}

/// The option of a duration sets the duration.
#[verifier::spinoff_prover]
pub proof fn law_duration_option(args: Seq<Seq<char>>, index: int, o: CliView, n: nat)
    requires
        0 <= index,
        index + 1 < args.len(),
        args[index] == "--duration-ms"@,
        args[index + 1] == text::decimal_text(n),
        0 < n <= u64::MAX,
    ensures
        cli::cli_from(args, index, o) == cli::cli_from(
            args,
            index + 2,
            CliView { explicit: true, duration_ms: n as u64, ..o },
        ),
{
    lemma_options_differ();
    lemma_numbers(n, "integer"@);
}

/// The option of an easing sets the easing.
#[verifier::spinoff_prover]
pub proof fn law_easing_option(args: Seq<Seq<char>>, index: int, o: CliView, eased: Easing)
    requires
        0 <= index,
        index + 1 < args.len(),
        args[index] == "--easing"@,
        args[index + 1] == eased.name(),
    ensures
        cli::cli_from(args, index, o) == cli::cli_from(
            args,
            index + 2,
            CliView { explicit: true, easing: eased, ..o },
        ),
{
    lemma_options_differ();
    eased.law_round_trip();
}

/// The option of a mode sets the mode.
#[verifier::spinoff_prover]
pub proof fn law_mode_option(args: Seq<Seq<char>>, index: int, o: CliView, value: Seq<char>)
    requires
        0 <= index,
        index + 1 < args.len(),
        args[index] == "--mode"@,
        args[index + 1] == value,
    ensures
        cli::cli_from(args, index, o) == cli::cli_from(
            args,
            index + 2,
            CliView { explicit: true, mode: Some(value), ..o },
        ),
{
    lemma_options_differ();
}

/// The option of a scale mode sets the scale mode, and says nothing of a transition.
#[verifier::spinoff_prover]
pub proof fn law_scale_mode_option(args: Seq<Seq<char>>, index: int, o: CliView, mode: ScaleMode)
    requires
        0 <= index,
        index + 1 < args.len(),
        args[index] == "--scale-mode"@,
        args[index + 1] == mode.name(),
    ensures
        cli::cli_from(args, index, o) == cli::cli_from(
            args,
            index + 2,
            CliView { scale_mode: Some(mode), ..o },
        ),
{
    lemma_options_differ();
    mode.law_round_trip();
}

/// The option of the time of zooming out sets that time of a canvas.
#[verifier::spinoff_prover]
pub proof fn law_canvas_out_ms_option(args: Seq<Seq<char>>, index: int, o: CliView, n: nat)
    requires
        0 <= index,
        index + 1 < args.len(),
        args[index] == "--canvas-zoom-out-ms"@,
        args[index + 1] == text::decimal_text(n),
        0 < n <= u64::MAX,
        o.token.len() > 0,
    ensures
        cli::cli_from(args, index, o) == cli::cli_from(
            args,
            index + 2,
            CliView {
                explicit: true,
                canvas_explicit: true,
                canvas: CanvasSettings { out_ms: n as u64, ..o.canvas },
                ..o
            },
        ),
{
    lemma_options_differ();
    lemma_numbers(n, "integer"@);
}

/// The option of the time of panning sets that time of a canvas.
#[verifier::spinoff_prover]
pub proof fn law_canvas_pan_ms_option(args: Seq<Seq<char>>, index: int, o: CliView, n: nat)
    requires
        0 <= index,
        index + 1 < args.len(),
        args[index] == "--canvas-pan-ms"@,
        args[index + 1] == text::decimal_text(n),
        0 < n <= u64::MAX,
        o.token.len() > 0,
    ensures
        cli::cli_from(args, index, o) == cli::cli_from(
            args,
            index + 2,
            CliView {
                explicit: true,
                canvas_explicit: true,
                canvas: CanvasSettings { pan_ms: n as u64, ..o.canvas },
                ..o
            },
        ),
{
    lemma_options_differ();
    lemma_numbers(n, "integer"@);
}

/// The option of the time of zooming in sets that time of a canvas.
#[verifier::spinoff_prover]
pub proof fn law_canvas_in_ms_option(args: Seq<Seq<char>>, index: int, o: CliView, n: nat)
    requires
        0 <= index,
        index + 1 < args.len(),
        args[index] == "--canvas-zoom-in-ms"@,
        args[index + 1] == text::decimal_text(n),
        0 < n <= u64::MAX,
        o.token.len() > 0,
    ensures
        cli::cli_from(args, index, o) == cli::cli_from(
            args,
            index + 2,
            CliView {
                explicit: true,
                canvas_explicit: true,
                canvas: CanvasSettings { in_ms: n as u64, ..o.canvas },
                ..o
            },
        ),
{
    lemma_options_differ();
    lemma_numbers(n, "integer"@);
}

/// The option of the axis sets the axis of a canvas.
#[verifier::spinoff_prover]
pub proof fn law_canvas_axis_option(
    args: Seq<Seq<char>>,
    index: int,
    o: CliView,
    axis: CanvasPanAxis,
)
    requires
        0 <= index,
        index + 1 < args.len(),
        args[index] == "--canvas-pan-axis"@,
        args[index + 1] == axis.name(),
        o.token.len() > 0,
    ensures
        cli::cli_from(args, index, o) == cli::cli_from(
            args,
            index + 2,
            CliView {
                explicit: true,
                canvas_explicit: true,
                canvas: CanvasSettings { pan_axis: Some(axis), ..o.canvas },
                ..o
            },
        ),
{
    lemma_options_differ();
    axis.law_round_trip();
}

/// The option of the walk sets the walk of a canvas.
#[verifier::spinoff_prover]
pub proof fn law_canvas_walk_option(args: Seq<Seq<char>>, index: int, o: CliView, walk: CanvasWalk)
    requires
        0 <= index,
        index + 1 < args.len(),
        args[index] == "--canvas-walk"@,
        args[index + 1] == walk.name(),
        o.token.len() > 0,
    ensures
        cli::cli_from(args, index, o) == cli::cli_from(
            args,
            index + 2,
            CliView {
                explicit: true,
                canvas_explicit: true,
                canvas: CanvasSettings { walk: Some(walk), ..o.canvas },
                ..o
            },
        ),
{
    lemma_options_differ();
    walk.law_round_trip();
}

/// The option of the overview's scale sets that scale of a canvas.
#[verifier::spinoff_prover]
pub proof fn law_canvas_scale_option(
    args: Seq<Seq<char>>,
    index: int,
    o: CliView,
    value: Seq<char>,
    scale: OverviewScale,
)
    requires
        0 <= index,
        index + 1 < args.len(),
        args[index] == "--canvas-overview-scale"@,
        args[index + 1] == value,
        o.token.len() > 0,
        arguments::overview_scale_in(value) == Ok::<OverviewScale, Seq<char>>(scale),
    ensures
        cli::cli_from(args, index, o) == cli::cli_from(
            args,
            index + 2,
            CliView {
                explicit: true,
                canvas_explicit: true,
                canvas: CanvasSettings { overview_scale: scale, ..o.canvas },
                ..o
            },
        ),
{
    lemma_options_differ();
}

/// The option of the number of tiles sets that number of a canvas.
#[verifier::spinoff_prover]
pub proof fn law_canvas_tiles_option(args: Seq<Seq<char>>, index: int, o: CliView, n: nat)
    requires
        0 <= index,
        index + 1 < args.len(),
        args[index] == "--canvas-tile-count"@,
        args[index + 1] == text::decimal_text(n),
        0 < n <= MAX_CANVAS_TILE_COUNT,
        o.token.len() > 0,
    ensures
        cli::cli_from(args, index, o) == cli::cli_from(
            args,
            index + 2,
            CliView {
                explicit: true,
                canvas_explicit: true,
                canvas: CanvasSettings {
                    tile_count: CanvasTileCount::Fixed(n as usize),
                    ..o.canvas
                },
                ..o
            },
        ),
{
    lemma_options_differ();
    lemma_numbers(n, "integer"@);
}

/// The option of the largest number of tiles sets that number of a canvas that finds the number of
/// its tiles itself.
#[verifier::spinoff_prover]
pub proof fn law_canvas_limit_option(args: Seq<Seq<char>>, index: int, o: CliView, n: nat)
    requires
        0 <= index,
        index + 1 < args.len(),
        args[index] == "--canvas-max-tile-count"@,
        args[index + 1] == text::decimal_text(n),
        0 < n <= MAX_CANVAS_TILE_COUNT,
        o.token.len() > 0,
        o.canvas.tile_count is Auto,
    ensures
        cli::cli_from(args, index, o) == cli::cli_from(
            args,
            index + 2,
            CliView {
                explicit: true,
                canvas_explicit: true,
                canvas: CanvasSettings {
                    tile_count: CanvasTileCount::Auto { max: Some(n as usize) },
                    ..o.canvas
                },
                ..o
            },
        ),
{
    lemma_options_differ();
    lemma_numbers(n, "integer"@);
}

/// An option of a canvas names the canvas where no transition is named before it, and keeps the
/// transition that is.
pub proof fn law_canvas_options_mean_a_canvas(
    args: Seq<Seq<char>>,
    index: int,
    o: CliView,
    axis: CanvasPanAxis,
)
    requires
        0 <= index,
        index + 2 == args.len(),
        args[index] == "--canvas-pan-axis"@,
        args[index + 1] == axis.name(),
    ensures
        cli::cli_from(args, index, o) matches Ok(next) && next.token == (if o.token.len() == 0 {
            "canvas"@
        } else {
            o.token
        }) && (o.token.len() == 0 ==> next.token_explicit),
{
    lemma_options_differ();
    axis.law_round_trip();
    reveal_with_fuel(cli::cli_from, 2);
}

/// What is no option counts as an argument, and an option that is not known is refused.
pub proof fn law_other_arguments(args: Seq<Seq<char>>, index: int, o: CliView, json: bool)
    requires
        0 <= index < args.len(),
    ensures
        args[index].len() == 0 || args[index][0] != '-' ==> cli::cli_from(args, index, o)
            == cli::cli_from(
            args,
            index + 1,
            CliView { positionals: o.positionals.push(args[index]), ..o },
        ),
        args[index] == "--json"@ ==> cli::cli_from(args, index, o) == cli::cli_from(
            args,
            index + 1,
            CliView { json: true, ..o },
        ),
{
    lemma_options_differ();
    assert("-t"@.len() > 0 && "-t"@[0] == '-') by {
        reveal_strlit("-t");
    }
    assert("--transition"@.len() > 0 && "--transition"@[0] == '-') by {
        reveal_strlit("--transition");
    }
    assert("--duration-ms"@.len() > 0 && "--duration-ms"@[0] == '-') by {
        reveal_strlit("--duration-ms");
    }
    assert("--easing"@.len() > 0 && "--easing"@[0] == '-') by {
        reveal_strlit("--easing");
    }
    assert("--mode"@.len() > 0 && "--mode"@[0] == '-') by {
        reveal_strlit("--mode");
    }
    assert("--canvas-zoom-out-ms"@.len() > 0 && "--canvas-zoom-out-ms"@[0] == '-') by {
        reveal_strlit("--canvas-zoom-out-ms");
    }
    assert("--canvas-pan-ms"@.len() > 0 && "--canvas-pan-ms"@[0] == '-') by {
        reveal_strlit("--canvas-pan-ms");
    }
    assert("--canvas-pan-axis"@.len() > 0 && "--canvas-pan-axis"@[0] == '-') by {
        reveal_strlit("--canvas-pan-axis");
    }
    assert("--canvas-walk"@.len() > 0 && "--canvas-walk"@[0] == '-') by {
        reveal_strlit("--canvas-walk");
    }
    assert("--canvas-zoom-in-ms"@.len() > 0 && "--canvas-zoom-in-ms"@[0] == '-') by {
        reveal_strlit("--canvas-zoom-in-ms");
    }
    assert("--canvas-overview-scale"@.len() > 0 && "--canvas-overview-scale"@[0] == '-') by {
        reveal_strlit("--canvas-overview-scale");
    }
    assert("--canvas-tile-count"@.len() > 0 && "--canvas-tile-count"@[0] == '-') by {
        reveal_strlit("--canvas-tile-count");
    }
    assert("--canvas-max-tile-count"@.len() > 0 && "--canvas-max-tile-count"@[0] == '-') by {
        reveal_strlit("--canvas-max-tile-count");
    }
    assert("--scale-mode"@.len() > 0 && "--scale-mode"@[0] == '-') by {
        reveal_strlit("--scale-mode");
    }
    assert("--json"@.len() > 0 && "--json"@[0] == '-') by {
        reveal_strlit("--json");
    }
}

/// A canvas on the command line has the settings that its options say, and cannot be paged in
/// modes that only go with a strip.
pub proof fn law_canvas_takes_its_settings(easing: Easing, duration_ms: u64, canvas: CanvasSettings)
    ensures
        cli::transition_with("canvas"@, duration_ms, easing, None, canvas) matches Ok(transition)
            && transition == (Transition::Canvas {
            zoom_out_ms: canvas.out_ms,
            pan_ms: canvas.pan_ms,
            zoom_in_ms: canvas.in_ms,
            easing,
            mode: transition->Canvas_mode,
            walk: match canvas.walk {
                Some(walk) => walk,
                None => CanvasWalk::Paged,
            },
            pan_axis: match canvas.pan_axis {
                Some(axis) => axis,
                None => CanvasPanAxis::Auto,
            },
            overview_scale: canvas.overview_scale,
            tile_count: canvas.tile_count,
        }),
{
    reveal_strlit("canvas");
    assert("canvas"@.len() == 6);
    text::lemma_first_index("canvas"@, ':');
    assert forall|i: int| 0 <= i < 6 implies "canvas"@[i] != ':' by {}
    TransitionKind::Canvas.law_round_trip();
}

/// A push on the command line goes the way that is named behind its colon.
pub proof fn law_push_goes_the_way_it_names(
    direction: PushDirection,
    duration_ms: u64,
    easing: Easing,
    canvas: CanvasSettings,
)
    requires
        duration_ms > 0,
    ensures
        cli::transition_with("push:"@ + direction.name(), duration_ms, easing, None, canvas)
            matches Ok(transition) && transition == (Transition::Push {
            direction,
            duration_ms,
            easing,
            mode: transition->Push_mode,
        }),
{
    let token = "push:"@ + direction.name();
    reveal_strlit("push:");
    reveal_strlit("push");
    reveal_strlit("up");
    reveal_strlit("down");
    reveal_strlit("left");
    reveal_strlit("right");
    assert("push:"@.len() == 5);
    assert(token[4] == ':');
    text::lemma_first_index(token, ':');
    assert forall|i: int| 0 <= i < 4 implies token[i] != ':' by {
        assert(token[i] == "push:"@[i]);
    }
    assert(token.take(4) =~= "push"@);
    assert(token.skip(5) =~= direction.name());
    TransitionKind::Push.law_round_trip();
    direction.law_round_trip();
}

// ---------------------------------------------------------------------------
// Commands

/// Each command asks for the action that it is named after, whatever its options are, and with
/// the index that is its only argument where it has one.
#[verifier::spinoff_prover]
pub proof fn law_commands_ask_for_their_action(args: Seq<Seq<char>>)
    ensures
        cli::action_for("next"@, args) matches Ok((action, o)) ==> action
            == WallpaperAction::Next && o.positionals.len() == 0,
        cli::action_for("back"@, args) matches Ok((action, o)) ==> action
            == WallpaperAction::Back && o.positionals.len() == 0,
        cli::action_for("shift-forward"@, args) matches Ok((action, o)) ==> action
            == WallpaperAction::ShiftForward && o.positionals.len() == 0,
        cli::action_for("shift-back"@, args) matches Ok((action, o)) ==> action
            == WallpaperAction::ShiftBack && o.positionals.len() == 0,
        cli::action_for("favorites"@, args) matches Ok((action, o)) ==> action
            == WallpaperAction::Favorites && o.positionals.len() == 0,
        cli::action_for("current"@, args) matches Ok((action, o)) ==> action
            == WallpaperAction::Current && o.positionals.len() == 0,
        cli::action_for("rescan"@, args) matches Ok((action, o)) ==> action
            == WallpaperAction::Rescan && o.positionals.len() == 0,
        cli::action_for("replace"@, args) matches Ok((action, o)) ==> (action matches WallpaperAction::Replace {
            index,
        } && o.positionals.len() == 1 && text::unsigned_value(
            o.positionals[0],
            usize::MAX as nat,
        ) == Ok::<nat, IntError>(index as nat)),
        cli::action_for("quarantine"@, args) matches Ok((action, o)) ==> (action matches WallpaperAction::Quarantine {
            index,
        } && o.positionals.len() == 1 && text::unsigned_value(
            o.positionals[0],
            usize::MAX as nat,
        ) == Ok::<nat, IntError>(index as nat)),
        cli::action_for("quarentine"@, args) matches Ok((action, o)) ==> (action matches WallpaperAction::Quarantine {
            index,
        } && o.positionals.len() == 1 && text::unsigned_value(
            o.positionals[0],
            usize::MAX as nat,
        ) == Ok::<nat, IntError>(index as nat)),
        cli::action_for("favorite"@, args) matches Ok((action, o)) ==> (action matches WallpaperAction::Favorite {
            index,
        } && o.positionals.len() == 1 && text::unsigned_value(
            o.positionals[0],
            usize::MAX as nat,
        ) == Ok::<nat, IntError>(index as nat)),
        cli::action_for("unfavorite"@, args) matches Ok((action, o)) ==> (action matches WallpaperAction::Unfavorite {
            index,
        } && o.positionals.len() == 1 && text::unsigned_value(
            o.positionals[0],
            usize::MAX as nat,
        ) == Ok::<nat, IntError>(index as nat)),
{
    lemma_commands_differ();
    match cli::wallpaper_options(args, "cut"@) {
        Ok(o) => {
            if o.positionals.len() > 0 {
                text::lemma_unsigned_value_bounded(o.positionals[0], usize::MAX as nat);
            }
        },
        Err(_) => {},
    }
    lemma_plain_index("favorite"@, args);
    lemma_plain_index("unfavorite"@, args);
}

proof fn lemma_plain_index(command: Seq<char>, args: Seq<Seq<char>>)
    ensures
        cli::indexed_action(
            command,
            cli::plain_from(args, 0, command, cli::no_options("cut"@)),
        ) matches Ok((index, o)) ==> o.positionals.len() == 1 && text::unsigned_value(
            o.positionals[0],
            usize::MAX as nat,
        ) == Ok::<nat, IntError>(index as nat),
{
    if let Ok(o) = cli::plain_from(args, 0, command, cli::no_options("cut"@)) {
        if o.positionals.len() > 0 {
            text::lemma_unsigned_value_bounded(o.positionals[0], usize::MAX as nat);
        }
    }
}

/// A shift goes forward where nothing or that is said, and back where that is said.
#[verifier::spinoff_prover]
pub proof fn law_shifts_go_where_they_are_told(args: Seq<Seq<char>>)
    ensures
        match (cli::wallpaper_options(args, "push:left"@), cli::shift_action(args)) {
            (Ok(o), Ok((action, _))) => {
                &&& o.positionals.len() <= 1
                &&& o.positionals.len() == 0 ==> action == WallpaperAction::ShiftForward
                &&& o.positionals.len() == 1 ==> {
                    let said = o.positionals[0];
                    &&& action == WallpaperAction::ShiftForward <==> said == "f"@ || said
                        == "forward"@
                    &&& action == WallpaperAction::ShiftBack <==> said == "b"@ || said == "back"@
                        || said == "backward"@
                }
            },
            (Err(_), Ok(_)) => false,
            _ => true,
        },
{
    lemma_directions_differ();
}

/// The usual transition of an action pushes the way that the action goes, and is a cut where it
/// changes one output.
#[verifier::spinoff_prover]
pub proof fn law_actions_have_their_usual_transition(args: Seq<Seq<char>>)
    ensures
        cli::action_for("next"@, args) == cli::bare_action(
            "next"@,
            WallpaperAction::Next,
            cli::wallpaper_options(args, "push:up"@),
        ),
        cli::action_for("back"@, args) == cli::bare_action(
            "back"@,
            WallpaperAction::Back,
            cli::wallpaper_options(args, "push:down"@),
        ),
        cli::action_for("shift-forward"@, args) == cli::bare_action(
            "shift-forward"@,
            WallpaperAction::ShiftForward,
            cli::wallpaper_options(args, "push:left"@),
        ),
        cli::action_for("shift-back"@, args) == cli::bare_action(
            "shift-back"@,
            WallpaperAction::ShiftBack,
            cli::wallpaper_options(args, "push:right"@),
        ),
{
    lemma_commands_differ();
}

// ---------------------------------------------------------------------------
// Options of setting outputs

/// The option of a transition names the transition.
#[verifier::spinoff_prover]
pub proof fn law_set_transition_option(
    args: Seq<Seq<char>>,
    index: int,
    o: SetOptionsView,
    value: Seq<char>,
    images: Seq<(Seq<char>, ImagePath)>,
)
    requires
        0 <= index,
        index + 1 < args.len(),
        args[index] == "--transition"@,
        args[index + 1] == value,
    ensures
        commands::set_from(args, index, o, images) == commands::set_from(
            args,
            index + 2,
            SetOptionsView { token: value, ..o },
            images,
        ),
{
    lemma_options_differ();
}

/// The option of a duration sets the duration.
#[verifier::spinoff_prover]
pub proof fn law_set_duration_option(
    args: Seq<Seq<char>>,
    index: int,
    o: SetOptionsView,
    n: nat,
    images: Seq<(Seq<char>, ImagePath)>,
)
    requires
        0 <= index,
        index + 1 < args.len(),
        args[index] == "--duration-ms"@,
        args[index + 1] == text::decimal_text(n),
        0 < n <= u64::MAX,
    ensures
        commands::set_from(args, index, o, images) == commands::set_from(
            args,
            index + 2,
            SetOptionsView { duration_ms: n as u64, ..o },
            images,
        ),
{
    lemma_options_differ();
    lemma_numbers(n, "integer"@);
}

/// The option of an easing sets the easing.
#[verifier::spinoff_prover]
pub proof fn law_set_easing_option(
    args: Seq<Seq<char>>,
    index: int,
    o: SetOptionsView,
    eased: Easing,
    images: Seq<(Seq<char>, ImagePath)>,
)
    requires
        0 <= index,
        index + 1 < args.len(),
        args[index] == "--easing"@,
        args[index + 1] == eased.name(),
    ensures
        commands::set_from(args, index, o, images) == commands::set_from(
            args,
            index + 2,
            SetOptionsView { easing: eased, ..o },
            images,
        ),
{
    lemma_options_differ();
    eased.law_round_trip();
}

/// The option of a mode sets the mode.
#[verifier::spinoff_prover]
pub proof fn law_set_mode_option(
    args: Seq<Seq<char>>,
    index: int,
    o: SetOptionsView,
    value: Seq<char>,
    images: Seq<(Seq<char>, ImagePath)>,
)
    requires
        0 <= index,
        index + 1 < args.len(),
        args[index] == "--mode"@,
        args[index + 1] == value,
    ensures
        commands::set_from(args, index, o, images) == commands::set_from(
            args,
            index + 2,
            SetOptionsView { mode: Some(value), ..o },
            images,
        ),
{
    lemma_options_differ();
}

/// The option of a scale mode sets the scale mode.
#[verifier::spinoff_prover]
pub proof fn law_set_scale_mode_option(
    args: Seq<Seq<char>>,
    index: int,
    o: SetOptionsView,
    mode: ScaleMode,
    images: Seq<(Seq<char>, ImagePath)>,
)
    requires
        0 <= index,
        index + 1 < args.len(),
        args[index] == "--scale-mode"@,
        args[index + 1] == mode.name(),
    ensures
        commands::set_from(args, index, o, images) == commands::set_from(
            args,
            index + 2,
            SetOptionsView { scale_mode: mode, ..o },
            images,
        ),
{
    lemma_options_differ();
    mode.law_round_trip();
}

/// Showing wallpapers on some of the outputs is allowed only where that is said.
pub proof fn law_partial_option(
    args: Seq<Seq<char>>,
    index: int,
    o: SetOptionsView,
    images: Seq<(Seq<char>, ImagePath)>,
)
    requires
        0 <= index < args.len(),
        args[index] == "--allow-partial"@,
    ensures
        commands::set_from(args, index, o, images) == commands::set_from(
            args,
            index + 1,
            SetOptionsView { allow_partial: true, ..o },
            images,
        ),
        !commands::no_set_options().allow_partial,
{
    lemma_options_differ();
}

/// Clearing takes the outputs and the color that are said.
pub proof fn law_clear_options(args: Seq<Seq<char>>, index: int, clear: ClearView)
    requires
        0 <= index,
        index + 1 < args.len(),
    ensures
        args[index] == "--color"@ ==> commands::clear_from(args, index, clear)
            == commands::clear_from(args, index + 2, ClearView { color: args[index + 1], ..clear }),
        (args[index] == "--output"@ || args[index] == "-o"@) && args[index + 1].len() > 0
            && !args[index + 1].contains('=') ==> commands::clear_from(args, index, clear)
            == commands::clear_from(
            args,
            index + 2,
            ClearView { outputs: clear.outputs.push(args[index + 1]), ..clear },
        ),
{
    reveal_strlit("--color");
    reveal_strlit("--output");
    reveal_strlit("-o");
    assert("--color"@.len() == 7 && "--output"@.len() == 8 && "-o"@.len() == 2);
}

/// Warming the cache takes the scope, the workers and the backend that are said.
#[verifier::spinoff_prover]
pub proof fn law_warm_options(
    args: Seq<Seq<char>>,
    index: int,
    scope: CacheWarmScope,
    workers: usize,
    backend: CacheBackend,
    next_scope: CacheWarmScope,
    n: nat,
    next_backend: CacheBackend,
)
    requires
        0 <= index,
        index + 1 < args.len(),
        0 < n <= usize::MAX,
    ensures
        args[index] == "--scope"@ && args[index + 1] == next_scope.name() ==> commands::warm_from(
            args,
            index,
            scope,
            workers,
            backend,
        ) == commands::warm_from(args, index + 2, next_scope, workers, backend),
        args[index] == "--workers"@ && args[index + 1] == text::decimal_text(n)
            ==> commands::warm_from(args, index, scope, workers, backend) == commands::warm_from(
            args,
            index + 2,
            scope,
            n as usize,
            backend,
        ),
        args[index] == "--backend"@ && args[index + 1] == next_backend.name()
            ==> commands::warm_from(args, index, scope, workers, backend) == commands::warm_from(
            args,
            index + 2,
            scope,
            workers,
            next_backend,
        ),
        commands::warm_from(args, args.len() as int, scope, workers, backend) == Ok::<
            CacheAction,
            Seq<char>,
        >(CacheAction::Warm { scope, workers, backend }),
{
    lemma_warm_options_differ();
    next_scope.law_round_trip();
    next_backend.law_round_trip();
    lemma_numbers(n, "cache worker count"@);
}

/// The options of every command are the socket and the time to wait; every other argument stays,
/// in its order.
#[verifier::spinoff_prover]
pub proof fn law_global_options(args: Seq<Seq<char>>, index: int, found: GlobalsView, n: nat)
    requires
        0 <= index < args.len(),
        0 < n <= u64::MAX,
    ensures
        args[index] == "--socket"@ && index + 1 < args.len() ==> arguments::globals_from(
            args,
            index,
            found,
        ) == arguments::globals_from(
            args,
            index + 2,
            GlobalsView { socket: Some(args[index + 1]), ..found },
        ),
        args[index] == "--timeout-ms"@ && index + 1 < args.len() && args[index + 1]
            == text::decimal_text(n) ==> arguments::globals_from(args, index, found)
            == arguments::globals_from(args, index + 2, GlobalsView { timeout: n as u64, ..found }),
        args[index] != "--socket"@ && args[index] != "--timeout-ms"@ ==> arguments::globals_from(
            args,
            index,
            found,
        ) == arguments::globals_from(
            args,
            index + 1,
            GlobalsView { rest: found.rest.push(args[index]), ..found },
        ),
{
    reveal_strlit("--socket");
    reveal_strlit("--timeout-ms");
    assert("--socket"@.len() == 8 && "--timeout-ms"@.len() == 12);
    lemma_numbers(n, "integer"@);
}

// ---------------------------------------------------------------------------
// Options of computing the cache of the world

/// The option of workers sets their number.
#[verifier::spinoff_prover]
pub proof fn law_workers_option(
    args: Seq<Seq<char>>,
    index: int,
    s: StateView,
    n: nat,
    images: Seq<(Seq<char>, ImagePath)>,
)
    requires
        0 <= index,
        index + 1 < args.len(),
        args[index] == "--workers"@,
        args[index + 1] == text::decimal_text(n),
        0 < n <= usize::MAX,
    ensures
        compute_options::compute_from(args, index, s, images) == compute_options::compute_from(
            args,
            index + 2,
            StateView { workers: n as usize, ..s },
            images,
        ),
{
    lemma_compute_options_differ();
    lemma_numbers(n, "cache worker count"@);
}

/// The option of a limit limits the thumbnails.
#[verifier::spinoff_prover]
pub proof fn law_limit_option(
    args: Seq<Seq<char>>,
    index: int,
    s: StateView,
    n: nat,
    images: Seq<(Seq<char>, ImagePath)>,
)
    requires
        0 <= index,
        index + 1 < args.len(),
        args[index] == "--limit"@,
        args[index + 1] == text::decimal_text(n),
        0 < n <= usize::MAX,
    ensures
        compute_options::compute_from(args, index, s, images) == compute_options::compute_from(
            args,
            index + 2,
            StateView { limit: Some(n as usize), ..s },
            images,
        ),
{
    lemma_compute_options_differ();
    lemma_numbers(n, "limit"@);
}

/// The option of a limit on tiles limits the tiles.
#[verifier::spinoff_prover]
pub proof fn law_tile_limit_option(
    args: Seq<Seq<char>>,
    index: int,
    s: StateView,
    n: nat,
    images: Seq<(Seq<char>, ImagePath)>,
)
    requires
        0 <= index,
        index + 1 < args.len(),
        args[index] == "--tile-limit"@,
        args[index + 1] == text::decimal_text(n),
        0 < n <= usize::MAX,
    ensures
        compute_options::compute_from(args, index, s, images) == compute_options::compute_from(
            args,
            index + 2,
            StateView { tile_limit: Some(n as usize), ..s },
            images,
        ),
{
    lemma_compute_options_differ();
    lemma_numbers(n, "limit"@);
}

/// The option of a radius sets the radius.
#[verifier::spinoff_prover]
pub proof fn law_radius_option(
    args: Seq<Seq<char>>,
    index: int,
    s: StateView,
    n: nat,
    images: Seq<(Seq<char>, ImagePath)>,
)
    requires
        0 <= index,
        index + 1 < args.len(),
        args[index] == "--radius"@,
        args[index + 1] == text::decimal_text(n),
        n <= usize::MAX,
    ensures
        compute_options::compute_from(args, index, s, images) == compute_options::compute_from(
            args,
            index + 2,
            StateView { radius: Some(n as usize), ..s },
            images,
        ),
{
    lemma_compute_options_differ();
    lemma_numbers(n, "integer"@);
}

/// The option of a level sets the level.
#[verifier::spinoff_prover]
pub proof fn law_lod_option(
    args: Seq<Seq<char>>,
    index: int,
    s: StateView,
    n: nat,
    images: Seq<(Seq<char>, ImagePath)>,
)
    requires
        0 <= index,
        index + 1 < args.len(),
        args[index] == "--lod"@,
        args[index + 1] == text::decimal_text(n),
        n <= usize::MAX,
    ensures
        compute_options::compute_from(args, index, s, images) == compute_options::compute_from(
            args,
            index + 2,
            StateView { lod: Some(n as usize), ..s },
            images,
        ),
{
    lemma_compute_options_differ();
    lemma_numbers(n, "integer"@);
}

/// The option of a start says where the way begins.
#[verifier::spinoff_prover]
pub proof fn law_from_option(
    args: Seq<Seq<char>>,
    index: int,
    s: StateView,
    value: Seq<char>,
    path: Seq<char>,
    images: Seq<(Seq<char>, ImagePath)>,
)
    requires
        0 <= index,
        index + 1 < args.len(),
        args[index] == "--from"@,
        args[index + 1] == value,
        arguments::image_in(images, value) == Ok::<Seq<char>, Seq<char>>(path),
    ensures
        compute_options::compute_from(args, index, s, images) == compute_options::compute_from(
            args,
            index + 2,
            StateView { from: Some(path), ..s },
            images,
        ),
{
    lemma_compute_options_differ();
}

/// The option of an end says where the way leads.
#[verifier::spinoff_prover]
pub proof fn law_to_option(
    args: Seq<Seq<char>>,
    index: int,
    s: StateView,
    value: Seq<char>,
    path: Seq<char>,
    images: Seq<(Seq<char>, ImagePath)>,
)
    requires
        0 <= index,
        index + 1 < args.len(),
        args[index] == "--to"@,
        args[index + 1] == value,
        arguments::image_in(images, value) == Ok::<Seq<char>, Seq<char>>(path),
    ensures
        compute_options::compute_from(args, index, s, images) == compute_options::compute_from(
            args,
            index + 2,
            StateView { to: Some(path), ..s },
            images,
        ),
{
    lemma_compute_options_differ();
}

/// The option of a center adds a wallpaper whose surroundings are wanted.
#[verifier::spinoff_prover]
pub proof fn law_center_option(
    args: Seq<Seq<char>>,
    index: int,
    s: StateView,
    value: Seq<char>,
    path: Seq<char>,
    images: Seq<(Seq<char>, ImagePath)>,
)
    requires
        0 <= index,
        index + 1 < args.len(),
        args[index] == "--center"@,
        args[index + 1] == value,
        arguments::image_in(images, value) == Ok::<Seq<char>, Seq<char>>(path),
    ensures
        compute_options::compute_from(args, index, s, images) == compute_options::compute_from(
            args,
            index + 2,
            StateView { centers: s.centers.push(path), ..s },
            images,
        ),
{
    lemma_compute_options_differ();
}

/// The option of a route adds a way from the first wallpaper to the second.
pub proof fn law_route_option(
    args: Seq<Seq<char>>,
    index: int,
    s: StateView,
    from: Seq<char>,
    to: Seq<char>,
    images: Seq<(Seq<char>, ImagePath)>,
)
    requires
        0 <= index,
        index + 2 < args.len(),
        args[index] == "--route"@,
        arguments::image_in(images, args[index + 1]) == Ok::<Seq<char>, Seq<char>>(from),
        arguments::image_in(images, args[index + 2]) == Ok::<Seq<char>, Seq<char>>(to),
    ensures
        compute_options::compute_from(args, index, s, images) == compute_options::compute_from(
            args,
            index + 3,
            StateView { routes: s.routes.push((from, to)), ..s },
            images,
        ),
{
}

/// Each option that stands by itself sets what it is named after.
#[verifier::spinoff_prover]
pub proof fn law_compute_flags(
    args: Seq<Seq<char>>,
    index: int,
    s: StateView,
    images: Seq<(Seq<char>, ImagePath)>,
)
    requires
        0 <= index < args.len(),
    ensures
        args[index] == "--dry-run"@ ==> compute_options::compute_from(args, index, s, images)
            == compute_options::compute_from(
                args,
                index + 1,
                StateView { dry_run: true, ..s },
                images,
            ),
        args[index] == "--background"@ ==> compute_options::compute_from(args, index, s, images)
            == compute_options::compute_from(
                args,
                index + 1,
                StateView { execution: WorldCacheComputeExecution::Background, ..s },
                images,
            ),
        args[index] == "--progress"@ ==> compute_options::compute_from(args, index, s, images)
            == compute_options::compute_from(
                args,
                index + 1,
                StateView { progress: true, ..s },
                images,
            ),
        args[index] == "--json"@ ==> compute_options::compute_from(args, index, s, images)
            == compute_options::compute_from(
                args,
                index + 1,
                StateView { json: true, ..s },
                images,
            ),
{
    lemma_compute_options_differ();
}

/// What is asked for comes out as it was read: a way leads from where it begins to where it
/// leads, beside the ways that are named in full; surroundings are those of the centers, with no
/// radius and at the first level where nothing else is said.
pub proof fn law_computations_are_as_asked(s: StateView)
    ensures
        match (s.scope, compute_options::compute_done(s)) {
            (scope, Ok(options)) => {
                &&& options.dry_run == s.dry_run
                &&& options.execution == s.execution
                &&& options.progress == s.progress
                &&& options.json == s.json
                &&& options.workers == s.workers
                &&& options.limit == s.limit
                &&& options.tile_limit == s.tile_limit
                &&& options.limit is Some ==> options.scope is All
                &&& !(options.dry_run && options.execution
                    == WorldCacheComputeExecution::Background)
                &&& options.scope is All <==> scope is None || scope == Some(ScopeView::All)
                &&& options.scope matches ScopeView::Route { routes } ==> {
                    &&& s.from is Some <==> s.to is Some
                    &&& routes == (if s.from is Some {
                        s.routes.push((s.from->Some_0, s.to->Some_0))
                    } else {
                        s.routes
                    })
                    &&& routes.len() > 0
                }
                &&& options.scope matches ScopeView::Neighborhood { centers, radius, lod } ==> {
                    &&& centers == s.centers
                    &&& centers.len() > 0
                    &&& radius == if s.radius is Some {
                        s.radius->Some_0
                    } else {
                        0
                    }
                    &&& lod == if s.lod is Some {
                        s.lod->Some_0
                    } else {
                        0
                    }
                }
            },
            _ => true,
        },
{
}

/// Each action on the cache of the world is the one that it is named after.
#[verifier::spinoff_prover]
pub proof fn law_world_actions(args: Seq<Seq<char>>)
    requires
        args.len() > 0,
        !arguments::asks_help(args),
    ensures
        match invocation::world_cache_command_of(args) {
            Ok(WorldCommand::Status { .. }) => args[0] == "status"@,
            Ok(WorldCommand::Index { .. }) => args[0] == "index"@,
            Ok(WorldCommand::Failures { .. }) => args[0] == "failures"@,
            Ok(WorldCommand::Compute) => args[0] == "compute"@,
            Ok(_) => false,
            Err(_) => args[0] != "compute"@,
        },
{
    lemma_cache_actions_differ();
}

/// Work in the background gets the arguments of the command but for the wish to work there, and
/// but for the wish for JSON where that is met already.
pub proof fn law_background_work_gets_the_other_arguments(args: Seq<Seq<char>>, parent_json: bool)
    ensures
        invocation::background_rest(args, parent_json) == args.filter(
            |arg: Seq<char>| arg != "--background"@ && !(parent_json && arg == "--json"@),
        ),
    decreases args.len(),
{
    reveal(Seq::filter);
    if args.len() > 0 {
        law_background_work_gets_the_other_arguments(args.drop_last(), parent_json);
    }
}

// ---------------------------------------------------------------------------
// Outputs and requests

/// An output that is given with its image by an equals sign shows that image, and every other
/// output what it showed. No output can be given twice.
#[verifier::spinoff_prover]
pub proof fn law_outputs_get_their_images(
    args: Seq<Seq<char>>,
    index: int,
    pairs: PairsView,
    images: Seq<(Seq<char>, ImagePath)>,
    name: Seq<char>,
    path: Seq<char>,
    full: Seq<char>,
    other: Seq<char>,
)
    requires
        0 <= index,
        index + 1 < args.len(),
        pairs.pending is None,
        name.len() > 0,
        path.len() > 0,
        !name.contains('='),
        args[index + 1] == name + "="@ + path,
        arguments::image_in(images, path) == Ok::<Seq<char>, Seq<char>>(full),
        textmap::keys_ascending(pairs.outputs),
    ensures
        textmap::entries_get(pairs.outputs, name) is Some ==> commands::output_option(
            args,
            index,
            pairs,
            images,
        ) is Err,
        textmap::entries_get(pairs.outputs, name) is None ==> (commands::output_option(
            args,
            index,
            pairs,
            images,
        ) matches Ok((next, after)) && {
            &&& next == index + 2
            &&& after.pending is None
            &&& textmap::entries_get(after.outputs, other) == if other == name {
                Some(full)
            } else {
                textmap::entries_get(pairs.outputs, other)
            }
        }),
{
    let value = name + "="@ + path;
    reveal_strlit("=");
    assert("="@.len() == 1);
    let at = name.len() as int;
    assert(value[at] == '=');
    text::lemma_first_index(value, '=');
    assert forall|i: int| 0 <= i < at implies value[i] != '=' by {
        assert(value[i] == name[i]);
        assert(name.contains(name[i]));
    }
    assert(text::first_index(value, '=') == at);
    assert(value.take(at) =~= name);
    assert(value.skip(at + 1) =~= path);
    textmap::lemma_get_after_insert(pairs.outputs, name, full, other);
}

/// The request for an action says the action, and the transition and the scale mode that the
/// options say. Its answer is printed as JSON where that is asked for.
pub proof fn law_action_requests_say_what_options_say(command: Seq<char>, args: Seq<Seq<char>>)
    requires
        !arguments::asks_help(args),
    ensures
        match cli::action_for(command, args) {
            Ok((action, o)) => cli::wallpaper_command(command, args) matches Ok(Some(built)) && {
                &&& built.request matches RequestView::Wallpaper(request) && request.action
                    == action && request.transition == o.transition && request.scale_mode
                    == o.scale_mode
                &&& built.print_mode == if o.json {
                    PrintMode::WallpaperJson
                } else {
                    PrintMode::WallpaperText
                }
            },
            Err(message) => cli::wallpaper_command(command, args) == Err::<
                Option<BuiltView>,
                Seq<char>,
            >(message),
        },
{
}

/// Where options say nothing of a transition, none is asked for; where they do, it is the one
/// that they say, or the usual one of the action where none is named.
pub proof fn law_transitions_are_asked_for_where_said(o: CliView, usual: Seq<char>)
    requires
        o.transition is None,
    ensures
        match cli::with_transition(o, usual) {
            Ok(after) => {
                let token = if o.token.len() == 0 {
                    usual
                } else {
                    o.token
                };
                &&& after.transition is Some <==> o.explicit
                &&& o.explicit ==> cli::transition_with(
                    token,
                    o.duration_ms,
                    o.easing,
                    o.mode,
                    o.canvas,
                ) == Ok::<Transition, Seq<char>>(after.transition->Some_0)
                &&& after.scale_mode == o.scale_mode
                &&& after.json == o.json
                &&& after.positionals == o.positionals
            },
            Err(_) => o.explicit,
        },
{
}

/// Each plain command is the request that it is named after.
#[verifier::spinoff_prover]
pub proof fn law_plain_commands(
    images: Seq<(Seq<char>, ImagePath)>,
    args: Seq<Seq<char>>,
)
    requires
        args.len() == 0,
    ensures
        commands::raw_request("ping"@, args, images) == Ok::<Option<RequestView>, Seq<char>>(
            Some(RequestView::Ping),
        ),
        commands::raw_request("health"@, args, images) == Ok::<Option<RequestView>, Seq<char>>(
            Some(RequestView::Health),
        ),
        commands::raw_request("query"@, args, images) == Ok::<Option<RequestView>, Seq<char>>(
            Some(RequestView::Query),
        ),
        commands::raw_request("stop"@, args, images) == Ok::<Option<RequestView>, Seq<char>>(
            Some(RequestView::Stop),
        ),
{
    lemma_plain_commands_differ();
}

} // verus!
