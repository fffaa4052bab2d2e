//! What a response is written as, the response parsers read back.

use crate::json::Json;
use crate::protocol::{
    DaemonMode, Transition, TransitionParameterType, CAPABILITIES_SCHEMA_VERSION,
};
use crate::registry::{CapabilityView, DefaultView, ParameterView, TransitionScopes};
use crate::response::{
    CapabilitiesView, EntryView, HealthOutputView, HealthView, ResponseView, TransitionState,
    WallpaperView,
};
use crate::binary64;
use crate::binary64_law;
use crate::fields;
use crate::json;
use crate::json_law;
use crate::registry;
use crate::request;
use crate::request_law;
use crate::response;
use crate::scale;
use crate::text;
use crate::textmap;
use vstd::prelude::*;

verus! {

// ---------------------------------------------------------------------------
// The names of fields differ from each other

/// A number for each name of a field.
#[verifier::opaque]
spec fn name_code(s: Seq<char>) -> int {
    if s == "index"@ {
        0
    } else if s == "output"@ {
        1
    } else if s == "favorite"@ {
        2
    } else if s == "path"@ {
        3
    } else if s == "state"@ {
        4
    } else if s == "transition"@ {
        5
    } else if s == "name"@ {
        6
    } else if s == "layout_x"@ {
        7
    } else if s == "layout_y"@ {
        8
    } else if s == "width"@ {
        9
    } else if s == "height"@ {
        10
    } else if s == "power_state"@ {
        11
    } else if s == "render_state"@ {
        12
    } else if s == "restore_pending"@ {
        13
    } else if s == "current_image"@ {
        14
    } else if s == "transition_target_image"@ {
        15
    } else if s == "scale_mode"@ {
        16
    } else if s == "transition_state"@ {
        17
    } else if s == "queue_depth"@ {
        18
    } else if s == "frame_callback_pending"@ {
        19
    } else if s == "render_pending"@ {
        20
    } else if s == "explicit_set"@ {
        21
    } else if s == "wallpaper_actions"@ {
        22
    } else if s == "type"@ {
        23
    } else if s == "allowed_values"@ {
        24
    } else if s == "required"@ {
        25
    } else if s == "default"@ {
        26
    } else if s == "constraint"@ {
        27
    } else if s == "class"@ {
        28
    } else if s == "scopes"@ {
        29
    } else if s == "experimental"@ {
        30
    } else if s == "requirements"@ {
        31
    } else if s == "parameters"@ {
        32
    } else if s == "status"@ {
        33
    } else if s == "action"@ {
        34
    } else if s == "message"@ {
        35
    } else if s == "entries"@ {
        36
    } else if s == "favorites"@ {
        37
    } else if s == "role"@ {
        38
    } else if s == "supervisor_pid"@ {
        39
    } else if s == "renderer_pid"@ {
        40
    } else if s == "renderer_generation"@ {
        41
    } else if s == "renderer_state"@ {
        42
    } else if s == "restart_count"@ {
        43
    } else if s == "last_error"@ {
        44
    } else if s == "last_diagnostic"@ {
        45
    } else if s == "outputs"@ {
        46
    } else if s == "schema_version"@ {
        47
    } else if s == "protocol_version"@ {
        48
    } else if s == "daemon_mode"@ {
        49
    } else if s == "transitions"@ {
        50
    } else {
        -1
    }
}

proof fn lemma_name_codes()
    ensures
        name_code("index"@) == 0,
        name_code("output"@) == 1,
        name_code("favorite"@) == 2,
        name_code("path"@) == 3,
        name_code("state"@) == 4,
        name_code("transition"@) == 5,
        name_code("name"@) == 6,
        name_code("layout_x"@) == 7,
        name_code("layout_y"@) == 8,
        name_code("width"@) == 9,
        name_code("height"@) == 10,
        name_code("power_state"@) == 11,
        name_code("render_state"@) == 12,
        name_code("restore_pending"@) == 13,
        name_code("current_image"@) == 14,
        name_code("transition_target_image"@) == 15,
        name_code("scale_mode"@) == 16,
        name_code("transition_state"@) == 17,
        name_code("queue_depth"@) == 18,
        name_code("frame_callback_pending"@) == 19,
        name_code("render_pending"@) == 20,
        name_code("explicit_set"@) == 21,
        name_code("wallpaper_actions"@) == 22,
        name_code("type"@) == 23,
        name_code("allowed_values"@) == 24,
        name_code("required"@) == 25,
        name_code("default"@) == 26,
        name_code("constraint"@) == 27,
        name_code("class"@) == 28,
        name_code("scopes"@) == 29,
        name_code("experimental"@) == 30,
        name_code("requirements"@) == 31,
        name_code("parameters"@) == 32,
        name_code("status"@) == 33,
        name_code("action"@) == 34,
        name_code("message"@) == 35,
        name_code("entries"@) == 36,
        name_code("favorites"@) == 37,
        name_code("role"@) == 38,
        name_code("supervisor_pid"@) == 39,
        name_code("renderer_pid"@) == 40,
        name_code("renderer_generation"@) == 41,
        name_code("renderer_state"@) == 42,
        name_code("restart_count"@) == 43,
        name_code("last_error"@) == 44,
        name_code("last_diagnostic"@) == 45,
        name_code("outputs"@) == 46,
        name_code("schema_version"@) == 47,
        name_code("protocol_version"@) == 48,
        name_code("daemon_mode"@) == 49,
        name_code("transitions"@) == 50,
{
    reveal(name_code);
    reveal_strlit("index");
    assert("index"@.len() == 5);
    reveal_strlit("output");
    assert("output"@.len() == 6);
    reveal_strlit("favorite");
    assert("favorite"@.len() == 8);
    reveal_strlit("path");
    assert("path"@.len() == 4);
    reveal_strlit("state");
    assert("state"@.len() == 5);
    reveal_strlit("transition");
    assert("transition"@.len() == 10);
    reveal_strlit("name");
    assert("name"@.len() == 4);
    reveal_strlit("layout_x");
    assert("layout_x"@.len() == 8);
    reveal_strlit("layout_y");
    assert("layout_y"@.len() == 8);
    reveal_strlit("width");
    assert("width"@.len() == 5);
    reveal_strlit("height");
    assert("height"@.len() == 6);
    reveal_strlit("power_state");
    assert("power_state"@.len() == 11);
    reveal_strlit("render_state");
    assert("render_state"@.len() == 12);
    reveal_strlit("restore_pending");
    assert("restore_pending"@.len() == 15);
    reveal_strlit("current_image");
    assert("current_image"@.len() == 13);
    reveal_strlit("transition_target_image");
    assert("transition_target_image"@.len() == 23);
    reveal_strlit("scale_mode");
    assert("scale_mode"@.len() == 10);
    reveal_strlit("transition_state");
    assert("transition_state"@.len() == 16);
    reveal_strlit("queue_depth");
    assert("queue_depth"@.len() == 11);
    reveal_strlit("frame_callback_pending");
    assert("frame_callback_pending"@.len() == 22);
    reveal_strlit("render_pending");
    assert("render_pending"@.len() == 14);
    reveal_strlit("explicit_set");
    assert("explicit_set"@.len() == 12);
    reveal_strlit("wallpaper_actions");
    assert("wallpaper_actions"@.len() == 17);
    reveal_strlit("type");
    assert("type"@.len() == 4);
    reveal_strlit("allowed_values");
    assert("allowed_values"@.len() == 14);
    reveal_strlit("required");
    assert("required"@.len() == 8);
    reveal_strlit("default");
    assert("default"@.len() == 7);
    reveal_strlit("constraint");
    assert("constraint"@.len() == 10);
    reveal_strlit("class");
    assert("class"@.len() == 5);
    reveal_strlit("scopes");
    assert("scopes"@.len() == 6);
    reveal_strlit("experimental");
    assert("experimental"@.len() == 12);
    reveal_strlit("requirements");
    assert("requirements"@.len() == 12);
    reveal_strlit("parameters");
    assert("parameters"@.len() == 10);
    reveal_strlit("status");
    assert("status"@.len() == 6);
    reveal_strlit("action");
    assert("action"@.len() == 6);
    reveal_strlit("message");
    assert("message"@.len() == 7);
    reveal_strlit("entries");
    assert("entries"@.len() == 7);
    reveal_strlit("favorites");
    assert("favorites"@.len() == 9);
    reveal_strlit("role");
    assert("role"@.len() == 4);
    reveal_strlit("supervisor_pid");
    assert("supervisor_pid"@.len() == 14);
    reveal_strlit("renderer_pid");
    assert("renderer_pid"@.len() == 12);
    reveal_strlit("renderer_generation");
    assert("renderer_generation"@.len() == 19);
    reveal_strlit("renderer_state");
    assert("renderer_state"@.len() == 14);
    reveal_strlit("restart_count");
    assert("restart_count"@.len() == 13);
    reveal_strlit("last_error");
    assert("last_error"@.len() == 10);
    reveal_strlit("last_diagnostic");
    assert("last_diagnostic"@.len() == 15);
    reveal_strlit("outputs");
    assert("outputs"@.len() == 7);
    reveal_strlit("schema_version");
    assert("schema_version"@.len() == 14);
    reveal_strlit("protocol_version");
    assert("protocol_version"@.len() == 16);
    reveal_strlit("daemon_mode");
    assert("daemon_mode"@.len() == 11);
    reveal_strlit("transitions");
    assert("transitions"@.len() == 11);
    assert("index"@[0] != "state"@[0]);
    assert("index"@[0] != "width"@[0]);
    assert("index"@[0] != "class"@[0]);
    assert("output"@[0] != "height"@[0]);
    assert("output"@[0] != "scopes"@[0]);
    assert("output"@[0] != "status"@[0]);
    assert("output"@[0] != "action"@[0]);
    assert("favorite"@[0] != "layout_x"@[0]);
    assert("favorite"@[0] != "layout_y"@[0]);
    assert("favorite"@[0] != "required"@[0]);
    assert("path"@[0] != "name"@[0]);
    assert("path"@[0] != "type"@[0]);
    assert("path"@[0] != "role"@[0]);
    assert("state"@[0] != "width"@[0]);
    assert("state"@[0] != "class"@[0]);
    assert("transition"@[0] != "scale_mode"@[0]);
    assert("transition"@[0] != "constraint"@[0]);
    assert("transition"@[0] != "parameters"@[0]);
    assert("transition"@[0] != "last_error"@[0]);
    assert("name"@[0] != "type"@[0]);
    assert("name"@[0] != "role"@[0]);
    assert("layout_x"@[7] != "layout_y"@[7]);
    assert("layout_x"@[0] != "required"@[0]);
    assert("layout_y"@[0] != "required"@[0]);
    assert("width"@[0] != "class"@[0]);
    assert("height"@[0] != "scopes"@[0]);
    assert("height"@[0] != "status"@[0]);
    assert("height"@[0] != "action"@[0]);
    assert("power_state"@[0] != "queue_depth"@[0]);
    assert("power_state"@[0] != "daemon_mode"@[0]);
    assert("power_state"@[0] != "transitions"@[0]);
    assert("render_state"@[0] != "explicit_set"@[0]);
    assert("render_state"@[0] != "experimental"@[0]);
    assert("render_state"@[2] != "requirements"@[2]);
    assert("render_state"@[6] != "renderer_pid"@[6]);
    assert("restore_pending"@[0] != "last_diagnostic"@[0]);
    assert("current_image"@[0] != "restart_count"@[0]);
    assert("scale_mode"@[0] != "constraint"@[0]);
    assert("scale_mode"@[0] != "parameters"@[0]);
    assert("scale_mode"@[0] != "last_error"@[0]);
    assert("transition_state"@[0] != "protocol_version"@[0]);
    assert("queue_depth"@[0] != "daemon_mode"@[0]);
    assert("queue_depth"@[0] != "transitions"@[0]);
    assert("render_pending"@[0] != "allowed_values"@[0]);
    assert("render_pending"@[0] != "supervisor_pid"@[0]);
    assert("render_pending"@[6] != "renderer_state"@[6]);
    assert("render_pending"@[0] != "schema_version"@[0]);
    assert("explicit_set"@[3] != "experimental"@[3]);
    assert("explicit_set"@[0] != "requirements"@[0]);
    assert("explicit_set"@[0] != "renderer_pid"@[0]);
    assert("type"@[0] != "role"@[0]);
    assert("allowed_values"@[0] != "supervisor_pid"@[0]);
    assert("allowed_values"@[0] != "renderer_state"@[0]);
    assert("allowed_values"@[0] != "schema_version"@[0]);
    assert("default"@[0] != "message"@[0]);
    assert("default"@[0] != "entries"@[0]);
    assert("default"@[0] != "outputs"@[0]);
    assert("constraint"@[0] != "parameters"@[0]);
    assert("constraint"@[0] != "last_error"@[0]);
    assert("scopes"@[1] != "status"@[1]);
    assert("scopes"@[0] != "action"@[0]);
    assert("experimental"@[0] != "requirements"@[0]);
    assert("experimental"@[0] != "renderer_pid"@[0]);
    assert("requirements"@[2] != "renderer_pid"@[2]);
    assert("parameters"@[0] != "last_error"@[0]);
    assert("status"@[0] != "action"@[0]);
    assert("message"@[0] != "entries"@[0]);
    assert("message"@[0] != "outputs"@[0]);
    assert("entries"@[0] != "outputs"@[0]);
    assert("supervisor_pid"@[0] != "renderer_state"@[0]);
    assert("supervisor_pid"@[1] != "schema_version"@[1]);
    assert("renderer_state"@[0] != "schema_version"@[0]);
    assert("daemon_mode"@[0] != "transitions"@[0]);
}

// ---------------------------------------------------------------------------
// Looking up fields

/// What a lookup finds among the fields of an object that was written and read.
spec fn found(value: Json, key: Seq<char>) -> Option<Json> {
    textmap::entries_get(json_law::canonical_fields(value->Object_0), key)
}

/// What the field at a place is read as.
spec fn read_back(value: Json, i: int) -> Option<Json> {
    Some(json_law::canonical(value->Object_0[i].1))
}

#[verifier::spinoff_prover]
#[verifier::rlimit(60)]
proof fn lemma_entry_fields(entry: EntryView)
    ensures
        ({
            let value = response::entry_json(entry);
            &&& found(value, "index"@) == read_back(value, 0)
            &&& found(value, "output"@) == read_back(value, 1)
            &&& found(value, "favorite"@) == read_back(value, 2)
            &&& found(value, "path"@) == read_back(value, 3)
        }),
{
    let value = response::entry_json(entry);
    let fields = value->Object_0;
    lemma_name_codes();
    request_law::lemma_lookup(fields, "index"@);
    assert(request_law::lookup(fields, "index"@, 4) == read_back(value, 0)) by {
        reveal_with_fuel(request_law::lookup, 5);
    }
    request_law::lemma_lookup(fields, "output"@);
    assert(request_law::lookup(fields, "output"@, 4) == read_back(value, 1)) by {
        reveal_with_fuel(request_law::lookup, 5);
    }
    request_law::lemma_lookup(fields, "favorite"@);
    assert(request_law::lookup(fields, "favorite"@, 4) == read_back(value, 2)) by {
        reveal_with_fuel(request_law::lookup, 5);
    }
    request_law::lemma_lookup(fields, "path"@);
    assert(request_law::lookup(fields, "path"@, 4) == read_back(value, 3)) by {
        reveal_with_fuel(request_law::lookup, 5);
    }
}

#[verifier::spinoff_prover]
#[verifier::rlimit(60)]
proof fn lemma_state_fields(transition: Transition)
    ensures
        ({
            let value = response::state_json(TransitionState::Running { transition });
            &&& found(value, "state"@) == read_back(value, 0)
            &&& found(value, "transition"@) == read_back(value, 1)
        }),
{
    let value = response::state_json(TransitionState::Running { transition });
    let fields = value->Object_0;
    lemma_name_codes();
    request_law::lemma_lookup(fields, "state"@);
    assert(request_law::lookup(fields, "state"@, 2) == read_back(value, 0)) by {
        reveal_with_fuel(request_law::lookup, 3);
    }
    request_law::lemma_lookup(fields, "transition"@);
    assert(request_law::lookup(fields, "transition"@, 2) == read_back(value, 1)) by {
        reveal_with_fuel(request_law::lookup, 3);
    }
}

#[verifier::spinoff_prover]
#[verifier::rlimit(60)]
proof fn lemma_health_output_fields(output: HealthOutputView)
    ensures
        ({
            let value = response::health_output_json(output);
            &&& found(value, "name"@) == read_back(value, 0)
            &&& found(value, "layout_x"@) == read_back(value, 1)
            &&& found(value, "layout_y"@) == read_back(value, 2)
            &&& found(value, "width"@) == read_back(value, 3)
            &&& found(value, "height"@) == read_back(value, 4)
            &&& found(value, "power_state"@) == read_back(value, 5)
            &&& found(value, "render_state"@) == read_back(value, 6)
            &&& found(value, "restore_pending"@) == read_back(value, 7)
            &&& found(value, "current_image"@) == read_back(value, 8)
            &&& found(value, "transition_target_image"@) == read_back(value, 9)
            &&& found(value, "scale_mode"@) == read_back(value, 10)
            &&& found(value, "transition_state"@) == read_back(value, 11)
            &&& found(value, "queue_depth"@) == read_back(value, 12)
            &&& found(value, "frame_callback_pending"@) == read_back(value, 13)
            &&& found(value, "render_pending"@) == read_back(value, 14)
        }),
{
    let value = response::health_output_json(output);
    let fields = value->Object_0;
    lemma_name_codes();
    request_law::lemma_lookup(fields, "name"@);
    assert(request_law::lookup(fields, "name"@, 15) == read_back(value, 0)) by {
        reveal_with_fuel(request_law::lookup, 16);
    }
    request_law::lemma_lookup(fields, "layout_x"@);
    assert(request_law::lookup(fields, "layout_x"@, 15) == read_back(value, 1)) by {
        reveal_with_fuel(request_law::lookup, 16);
    }
    request_law::lemma_lookup(fields, "layout_y"@);
    assert(request_law::lookup(fields, "layout_y"@, 15) == read_back(value, 2)) by {
        reveal_with_fuel(request_law::lookup, 16);
    }
    request_law::lemma_lookup(fields, "width"@);
    assert(request_law::lookup(fields, "width"@, 15) == read_back(value, 3)) by {
        reveal_with_fuel(request_law::lookup, 16);
    }
    request_law::lemma_lookup(fields, "height"@);
    assert(request_law::lookup(fields, "height"@, 15) == read_back(value, 4)) by {
        reveal_with_fuel(request_law::lookup, 16);
    }
    request_law::lemma_lookup(fields, "power_state"@);
    assert(request_law::lookup(fields, "power_state"@, 15) == read_back(value, 5)) by {
        reveal_with_fuel(request_law::lookup, 16);
    }
    request_law::lemma_lookup(fields, "render_state"@);
    assert(request_law::lookup(fields, "render_state"@, 15) == read_back(value, 6)) by {
        reveal_with_fuel(request_law::lookup, 16);
    }
    request_law::lemma_lookup(fields, "restore_pending"@);
    assert(request_law::lookup(fields, "restore_pending"@, 15) == read_back(value, 7)) by {
        reveal_with_fuel(request_law::lookup, 16);
    }
    request_law::lemma_lookup(fields, "current_image"@);
    assert(request_law::lookup(fields, "current_image"@, 15) == read_back(value, 8)) by {
        reveal_with_fuel(request_law::lookup, 16);
    }
    request_law::lemma_lookup(fields, "transition_target_image"@);
    assert(request_law::lookup(fields, "transition_target_image"@, 15) == read_back(value, 9)) by {
        reveal_with_fuel(request_law::lookup, 16);
    }
    request_law::lemma_lookup(fields, "scale_mode"@);
    assert(request_law::lookup(fields, "scale_mode"@, 15) == read_back(value, 10)) by {
        reveal_with_fuel(request_law::lookup, 16);
    }
    request_law::lemma_lookup(fields, "transition_state"@);
    assert(request_law::lookup(fields, "transition_state"@, 15) == read_back(value, 11)) by {
        reveal_with_fuel(request_law::lookup, 16);
    }
    request_law::lemma_lookup(fields, "queue_depth"@);
    assert(request_law::lookup(fields, "queue_depth"@, 15) == read_back(value, 12)) by {
        reveal_with_fuel(request_law::lookup, 16);
    }
    request_law::lemma_lookup(fields, "frame_callback_pending"@);
    assert(request_law::lookup(fields, "frame_callback_pending"@, 15) == read_back(value, 13)) by {
        reveal_with_fuel(request_law::lookup, 16);
    }
    request_law::lemma_lookup(fields, "render_pending"@);
    assert(request_law::lookup(fields, "render_pending"@, 15) == read_back(value, 14)) by {
        reveal_with_fuel(request_law::lookup, 16);
    }
}

#[verifier::spinoff_prover]
#[verifier::rlimit(60)]
proof fn lemma_scopes_fields(scopes: TransitionScopes)
    ensures
        ({
            let value = response::scopes_json(scopes);
            &&& found(value, "explicit_set"@) == read_back(value, 0)
            &&& found(value, "wallpaper_actions"@) == read_back(value, 1)
        }),
{
    let value = response::scopes_json(scopes);
    let fields = value->Object_0;
    lemma_name_codes();
    request_law::lemma_lookup(fields, "explicit_set"@);
    assert(request_law::lookup(fields, "explicit_set"@, 2) == read_back(value, 0)) by {
        reveal_with_fuel(request_law::lookup, 3);
    }
    request_law::lemma_lookup(fields, "wallpaper_actions"@);
    assert(request_law::lookup(fields, "wallpaper_actions"@, 2) == read_back(value, 1)) by {
        reveal_with_fuel(request_law::lookup, 3);
    }
}

#[verifier::spinoff_prover]
#[verifier::rlimit(60)]
proof fn lemma_parameter_fields(parameter: ParameterView)
    ensures
        ({
            let value = response::parameter_json(parameter);
            &&& found(value, "name"@) == read_back(value, 0)
            &&& found(value, "type"@) == read_back(value, 1)
            &&& found(value, "allowed_values"@) == read_back(value, 2)
            &&& found(value, "required"@) == read_back(value, 3)
            &&& found(value, "default"@) == read_back(value, 4)
            &&& found(value, "constraint"@) == read_back(value, 5)
        }),
{
    let value = response::parameter_json(parameter);
    let fields = value->Object_0;
    lemma_name_codes();
    request_law::lemma_lookup(fields, "name"@);
    assert(request_law::lookup(fields, "name"@, 6) == read_back(value, 0)) by {
        reveal_with_fuel(request_law::lookup, 7);
    }
    request_law::lemma_lookup(fields, "type"@);
    assert(request_law::lookup(fields, "type"@, 6) == read_back(value, 1)) by {
        reveal_with_fuel(request_law::lookup, 7);
    }
    request_law::lemma_lookup(fields, "allowed_values"@);
    assert(request_law::lookup(fields, "allowed_values"@, 6) == read_back(value, 2)) by {
        reveal_with_fuel(request_law::lookup, 7);
    }
    request_law::lemma_lookup(fields, "required"@);
    assert(request_law::lookup(fields, "required"@, 6) == read_back(value, 3)) by {
        reveal_with_fuel(request_law::lookup, 7);
    }
    request_law::lemma_lookup(fields, "default"@);
    assert(request_law::lookup(fields, "default"@, 6) == read_back(value, 4)) by {
        reveal_with_fuel(request_law::lookup, 7);
    }
    request_law::lemma_lookup(fields, "constraint"@);
    assert(request_law::lookup(fields, "constraint"@, 6) == read_back(value, 5)) by {
        reveal_with_fuel(request_law::lookup, 7);
    }
}

#[verifier::spinoff_prover]
#[verifier::rlimit(60)]
proof fn lemma_capability_fields(capability: CapabilityView)
    ensures
        ({
            let value = response::capability_json(capability);
            &&& found(value, "name"@) == read_back(value, 0)
            &&& found(value, "class"@) == read_back(value, 1)
            &&& found(value, "scopes"@) == read_back(value, 2)
            &&& found(value, "experimental"@) == read_back(value, 3)
            &&& found(value, "requirements"@) == read_back(value, 4)
            &&& found(value, "parameters"@) == read_back(value, 5)
        }),
{
    let value = response::capability_json(capability);
    let fields = value->Object_0;
    lemma_name_codes();
    request_law::lemma_lookup(fields, "name"@);
    assert(request_law::lookup(fields, "name"@, 6) == read_back(value, 0)) by {
        reveal_with_fuel(request_law::lookup, 7);
    }
    request_law::lemma_lookup(fields, "class"@);
    assert(request_law::lookup(fields, "class"@, 6) == read_back(value, 1)) by {
        reveal_with_fuel(request_law::lookup, 7);
    }
    request_law::lemma_lookup(fields, "scopes"@);
    assert(request_law::lookup(fields, "scopes"@, 6) == read_back(value, 2)) by {
        reveal_with_fuel(request_law::lookup, 7);
    }
    request_law::lemma_lookup(fields, "experimental"@);
    assert(request_law::lookup(fields, "experimental"@, 6) == read_back(value, 3)) by {
        reveal_with_fuel(request_law::lookup, 7);
    }
    request_law::lemma_lookup(fields, "requirements"@);
    assert(request_law::lookup(fields, "requirements"@, 6) == read_back(value, 4)) by {
        reveal_with_fuel(request_law::lookup, 7);
    }
    request_law::lemma_lookup(fields, "parameters"@);
    assert(request_law::lookup(fields, "parameters"@, 6) == read_back(value, 5)) by {
        reveal_with_fuel(request_law::lookup, 7);
    }
}

#[verifier::spinoff_prover]
#[verifier::rlimit(60)]
proof fn lemma_wallpaper_fields(wallpaper: WallpaperView)
    ensures
        ({
            let value = response::response_json(ResponseView::Wallpaper(wallpaper));
            &&& found(value, "status"@) == read_back(value, 0)
            &&& found(value, "type"@) == read_back(value, 1)
            &&& found(value, "action"@) == read_back(value, 2)
            &&& found(value, "message"@) == read_back(value, 3)
            &&& found(value, "entries"@) == read_back(value, 4)
            &&& found(value, "favorites"@) == read_back(value, 5)
        }),
{
    let value = response::response_json(ResponseView::Wallpaper(wallpaper));
    let fields = value->Object_0;
    lemma_name_codes();
    request_law::lemma_lookup(fields, "status"@);
    assert(request_law::lookup(fields, "status"@, 6) == read_back(value, 0)) by {
        reveal_with_fuel(request_law::lookup, 7);
    }
    request_law::lemma_lookup(fields, "type"@);
    assert(request_law::lookup(fields, "type"@, 6) == read_back(value, 1)) by {
        reveal_with_fuel(request_law::lookup, 7);
    }
    request_law::lemma_lookup(fields, "action"@);
    assert(request_law::lookup(fields, "action"@, 6) == read_back(value, 2)) by {
        reveal_with_fuel(request_law::lookup, 7);
    }
    request_law::lemma_lookup(fields, "message"@);
    assert(request_law::lookup(fields, "message"@, 6) == read_back(value, 3)) by {
        reveal_with_fuel(request_law::lookup, 7);
    }
    request_law::lemma_lookup(fields, "entries"@);
    assert(request_law::lookup(fields, "entries"@, 6) == read_back(value, 4)) by {
        reveal_with_fuel(request_law::lookup, 7);
    }
    request_law::lemma_lookup(fields, "favorites"@);
    assert(request_law::lookup(fields, "favorites"@, 6) == read_back(value, 5)) by {
        reveal_with_fuel(request_law::lookup, 7);
    }
}

#[verifier::spinoff_prover]
#[verifier::rlimit(60)]
proof fn lemma_health_fields(health: HealthView)
    ensures
        ({
            let value = response::response_json(ResponseView::Health(health));
            &&& found(value, "status"@) == read_back(value, 0)
            &&& found(value, "type"@) == read_back(value, 1)
            &&& found(value, "role"@) == read_back(value, 2)
            &&& found(value, "supervisor_pid"@) == read_back(value, 3)
            &&& found(value, "renderer_pid"@) == read_back(value, 4)
            &&& found(value, "renderer_generation"@) == read_back(value, 5)
            &&& found(value, "renderer_state"@) == read_back(value, 6)
            &&& found(value, "restart_count"@) == read_back(value, 7)
            &&& found(value, "last_error"@) == read_back(value, 8)
            &&& found(value, "last_diagnostic"@) == read_back(value, 9)
            &&& found(value, "outputs"@) == read_back(value, 10)
        }),
{
    let value = response::response_json(ResponseView::Health(health));
    let fields = value->Object_0;
    lemma_name_codes();
    request_law::lemma_lookup(fields, "status"@);
    assert(request_law::lookup(fields, "status"@, 11) == read_back(value, 0)) by {
        reveal_with_fuel(request_law::lookup, 12);
    }
    request_law::lemma_lookup(fields, "type"@);
    assert(request_law::lookup(fields, "type"@, 11) == read_back(value, 1)) by {
        reveal_with_fuel(request_law::lookup, 12);
    }
    request_law::lemma_lookup(fields, "role"@);
    assert(request_law::lookup(fields, "role"@, 11) == read_back(value, 2)) by {
        reveal_with_fuel(request_law::lookup, 12);
    }
    request_law::lemma_lookup(fields, "supervisor_pid"@);
    assert(request_law::lookup(fields, "supervisor_pid"@, 11) == read_back(value, 3)) by {
        reveal_with_fuel(request_law::lookup, 12);
    }
    request_law::lemma_lookup(fields, "renderer_pid"@);
    assert(request_law::lookup(fields, "renderer_pid"@, 11) == read_back(value, 4)) by {
        reveal_with_fuel(request_law::lookup, 12);
    }
    request_law::lemma_lookup(fields, "renderer_generation"@);
    assert(request_law::lookup(fields, "renderer_generation"@, 11) == read_back(value, 5)) by {
        reveal_with_fuel(request_law::lookup, 12);
    }
    request_law::lemma_lookup(fields, "renderer_state"@);
    assert(request_law::lookup(fields, "renderer_state"@, 11) == read_back(value, 6)) by {
        reveal_with_fuel(request_law::lookup, 12);
    }
    request_law::lemma_lookup(fields, "restart_count"@);
    assert(request_law::lookup(fields, "restart_count"@, 11) == read_back(value, 7)) by {
        reveal_with_fuel(request_law::lookup, 12);
    }
    request_law::lemma_lookup(fields, "last_error"@);
    assert(request_law::lookup(fields, "last_error"@, 11) == read_back(value, 8)) by {
        reveal_with_fuel(request_law::lookup, 12);
    }
    request_law::lemma_lookup(fields, "last_diagnostic"@);
    assert(request_law::lookup(fields, "last_diagnostic"@, 11) == read_back(value, 9)) by {
        reveal_with_fuel(request_law::lookup, 12);
    }
    request_law::lemma_lookup(fields, "outputs"@);
    assert(request_law::lookup(fields, "outputs"@, 11) == read_back(value, 10)) by {
        reveal_with_fuel(request_law::lookup, 12);
    }
}

#[verifier::spinoff_prover]
#[verifier::rlimit(60)]
proof fn lemma_capabilities_fields(capabilities: CapabilitiesView)
    ensures
        ({
            let value = response::response_json(ResponseView::Capabilities(capabilities));
            &&& found(value, "status"@) == read_back(value, 0)
            &&& found(value, "type"@) == read_back(value, 1)
            &&& found(value, "schema_version"@) == read_back(value, 2)
            &&& found(value, "protocol_version"@) == read_back(value, 3)
            &&& found(value, "daemon_mode"@) == read_back(value, 4)
            &&& found(value, "transitions"@) == read_back(value, 5)
        }),
{
    let value = response::response_json(ResponseView::Capabilities(capabilities));
    let fields = value->Object_0;
    lemma_name_codes();
    request_law::lemma_lookup(fields, "status"@);
    assert(request_law::lookup(fields, "status"@, 6) == read_back(value, 0)) by {
        reveal_with_fuel(request_law::lookup, 7);
    }
    request_law::lemma_lookup(fields, "type"@);
    assert(request_law::lookup(fields, "type"@, 6) == read_back(value, 1)) by {
        reveal_with_fuel(request_law::lookup, 7);
    }
    request_law::lemma_lookup(fields, "schema_version"@);
    assert(request_law::lookup(fields, "schema_version"@, 6) == read_back(value, 2)) by {
        reveal_with_fuel(request_law::lookup, 7);
    }
    request_law::lemma_lookup(fields, "protocol_version"@);
    assert(request_law::lookup(fields, "protocol_version"@, 6) == read_back(value, 3)) by {
        reveal_with_fuel(request_law::lookup, 7);
    }
    request_law::lemma_lookup(fields, "daemon_mode"@);
    assert(request_law::lookup(fields, "daemon_mode"@, 6) == read_back(value, 4)) by {
        reveal_with_fuel(request_law::lookup, 7);
    }
    request_law::lemma_lookup(fields, "transitions"@);
    assert(request_law::lookup(fields, "transitions"@, 6) == read_back(value, 5)) by {
        reveal_with_fuel(request_law::lookup, 7);
    }
}

#[verifier::spinoff_prover]
#[verifier::rlimit(60)]
proof fn lemma_error_fields(message: Seq<char>)
    ensures
        ({
            let value = response::response_json(ResponseView::Error(message));
            &&& found(value, "status"@) == read_back(value, 0)
            &&& found(value, "message"@) == read_back(value, 1)
        }),
{
    let value = response::response_json(ResponseView::Error(message));
    let fields = value->Object_0;
    lemma_name_codes();
    request_law::lemma_lookup(fields, "status"@);
    assert(request_law::lookup(fields, "status"@, 2) == read_back(value, 0)) by {
        reveal_with_fuel(request_law::lookup, 3);
    }
    request_law::lemma_lookup(fields, "message"@);
    assert(request_law::lookup(fields, "message"@, 2) == read_back(value, 1)) by {
        reveal_with_fuel(request_law::lookup, 3);
    }
}

/// The values of a list are sound, and each is read back, where this holds of every one.
proof fn lemma_each<T>(
    items: Seq<T>,
    values: Seq<Json>,
    read: spec_fn(Json) -> Result<T, Seq<char>>,
    depth: nat,
)
    requires
        items.len() == values.len(),
        forall|i: int| 0 <= i < values.len() ==> json_law::is_sound(#[trigger] values[i], depth),
        forall|i: int|
            0 <= i < values.len() ==> read(json_law::canonical(#[trigger] values[i])) == Ok::<
                T,
                Seq<char>,
            >(items[i]),
    ensures
        json_law::each_sound(values, depth),
        fields::each_in(json_law::canonical_each(values), read) == Ok::<Seq<T>, Seq<char>>(items),
    decreases values.len(),
{
    if values.len() == 0 {
        assert(items =~= Seq::<T>::empty());
    } else {
        let front = values.drop_last();
        assert forall|i: int| 0 <= i < front.len() implies json_law::is_sound(
            #[trigger] front[i],
            depth,
        ) && read(json_law::canonical(front[i])) == Ok::<T, Seq<char>>(items.drop_last()[i]) by {
            assert(front[i] == values[i]);
        }
        lemma_each(items.drop_last(), front, read, depth);
        let last = values[values.len() - 1];
        assert(json_law::is_sound(last, depth));
        assert(json_law::canonical_each(values).drop_last() =~= json_law::canonical_each(front));
        assert(json_law::canonical_each(values).last() == json_law::canonical(last));
        assert(items.drop_last().push(items.last()) =~= items);
    }
}

/// A signed number is written as one, and is read back.
proof fn lemma_signed(i: int, key: Seq<char>, max: nat, depth: nat)
    requires
        -(max as int) - 1 <= i <= max,
    ensures
        fields::signed_number(text::signed_text(i), key, max) == Ok::<int, Seq<char>>(i),
        json_law::is_sound(Json::Number(text::signed_text(i)), depth),
{
    json_law::lemma_signed_is_number(i);
    text::lemma_signed_round_trip(i, max);
    let s = text::signed_text(i);
    let d = if i < 0 {
        text::decimal_text((-i) as nat)
    } else {
        text::decimal_text(i as nat)
    };
    text::lemma_decimal_text_shape(if i < 0 {
        (-i) as nat
    } else {
        i as nat
    });
    assert forall|c: char| !text::is_digit(c) && c != '-' implies !#[trigger] s.contains(c) by {
        if s.contains(c) {
            let k = choose|k: int| 0 <= k < s.len() && s[k] == c;
            if i < 0 {
                if k > 0 {
                    assert(s[k] == d[k - 1]);
                    assert(text::is_digit(d[k - 1]));
                }
            } else {
                assert(text::is_digit(d[k]));
            }
        }
    }
    assert(!text::is_digit('.') && !text::is_digit('e') && !text::is_digit('E'));
}

// ---------------------------------------------------------------------------
// Wallpaper responses

#[verifier::spinoff_prover]
proof fn lemma_entry(entry: EntryView, depth: nat)
    requires
        depth < 128,
    ensures
        json_law::is_sound(response::entry_json(entry), depth),
        response::entry_in(json_law::canonical(response::entry_json(entry))) == Ok::<
            EntryView,
            Seq<char>,
        >(entry),
{
    let fields = response::entry_json(entry)->Object_0;
    lemma_entry_fields(entry);
    request_law::lemma_number(entry.index as nat, "index"@, usize::MAX as nat, depth + 1);
    assert(request_law::sound_upto(fields, depth + 1, 4)) by {
        reveal_with_fuel(request_law::sound_upto, 5);
    }
    request_law::lemma_object_sound(fields, depth);
}

/// Reading a wallpaper response that was written gives it back.
#[verifier::spinoff_prover]
pub proof fn law_wallpaper_response_round_trip(wallpaper: WallpaperView)
    ensures
        response::wallpaper_response_in(
            json::encoded(response::response_json(ResponseView::Wallpaper(wallpaper))),
        ) == Ok::<WallpaperView, Seq<char>>(wallpaper),
{
    let value = response::response_json(ResponseView::Wallpaper(wallpaper));
    let fields = value->Object_0;
    lemma_wallpaper_fields(wallpaper);
    let entries = response::entries_of_json(wallpaper.entries)->Array_0;
    assert forall|i: int| 0 <= i < entries.len() implies json_law::is_sound(
        #[trigger] entries[i],
        2,
    ) && response::entry_in(json_law::canonical(entries[i])) == Ok::<EntryView, Seq<char>>(
        wallpaper.entries[i],
    ) by {
        lemma_entry(wallpaper.entries[i], 2);
    }
    lemma_each(wallpaper.entries, entries, |value: Json| response::entry_in(value), 2);
    request_law::lemma_text_list(wallpaper.favorites, 1);
    assert(request_law::sound_upto(fields, 1, 6)) by {
        reveal_with_fuel(request_law::sound_upto, 7);
    }
    request_law::lemma_object_sound(fields, 0);
    json_law::law_json_round_trip(value);
}

// ---------------------------------------------------------------------------
// Health responses

/// Whether the transition of a state is one that can be read.
pub open spec fn valid_state(state: TransitionState) -> bool {
    match state {
        TransitionState::Idle => true,
        TransitionState::Running { transition } => request_law::valid_transition(transition),
    }
}

/// The state that is read where a state was written: the scale of a canvas comes back with
/// six decimals.
pub open spec fn state_again(state: TransitionState) -> TransitionState {
    match state {
        TransitionState::Idle => state,
        TransitionState::Running { transition } => TransitionState::Running {
            transition: request_law::transition_again(transition),
        },
    }
}

/// The health of an output that is read where one was written.
pub open spec fn output_again(output: HealthOutputView) -> HealthOutputView {
    HealthOutputView { transition_state: state_again(output.transition_state), ..output }
}

/// The health response that is read where one was written: the scale of a canvas comes back
/// with six decimals.
pub open spec fn health_again(health: HealthView) -> HealthView {
    HealthView {
        outputs: Seq::new(health.outputs.len(), |i: int| output_again(health.outputs[i])),
        ..health
    }
}

proof fn lemma_state(state: TransitionState, fields: Seq<(Seq<char>, Json)>, depth: nat)
    requires
        valid_state(state),
        depth < 127,
        textmap::entries_get(fields, "transition_state"@) == Some(
            json_law::canonical(response::state_json(state)),
        ),
    ensures
        json_law::is_sound(response::state_json(state), depth),
        response::state_field(fields) == Ok::<TransitionState, Seq<char>>(state_again(state)),
{
    let inner = response::state_json(state)->Object_0;
    lemma_state_words();
    match state {
        TransitionState::Idle => {
            lemma_name_codes();
            request_law::lemma_lookup(inner, "state"@);
            assert(request_law::lookup(inner, "state"@, 1) == Some(Json::Str("idle"@))) by {
                reveal_with_fuel(request_law::lookup, 2);
            }
            assert(request_law::sound_upto(inner, depth + 1, 1)) by {
                reveal_with_fuel(request_law::sound_upto, 2);
            }
        },
        TransitionState::Running { transition } => {
            lemma_state_fields(transition);
            request_law::lemma_transition(transition, depth + 1);
            assert(request_law::sound_upto(inner, depth + 1, 2)) by {
                reveal_with_fuel(request_law::sound_upto, 3);
            }
        },
    }
    request_law::lemma_object_sound(inner, depth);
}

proof fn lemma_state_words()
    ensures
        "idle"@ != "running"@,
        "ok"@ != "error"@,
{
    reveal_strlit("idle");
    reveal_strlit("running");
    reveal_strlit("ok");
    reveal_strlit("error");
    assert("idle"@.len() == 4 && "running"@.len() == 7);
    assert("ok"@.len() == 2 && "error"@.len() == 5);
}

#[verifier::spinoff_prover]
#[verifier::rlimit(60)]
proof fn lemma_health_output(output: HealthOutputView, depth: nat)
    requires
        valid_state(output.transition_state),
        depth < 126,
    ensures
        json_law::is_sound(response::health_output_json(output), depth),
        response::health_output_in(json_law::canonical(response::health_output_json(output)))
            == Ok::<HealthOutputView, Seq<char>>(output_again(output)),
{
    let fields = response::health_output_json(output)->Object_0;
    lemma_health_output_fields(output);
    lemma_signed(output.layout_x as int, "layout_x"@, i32::MAX as nat, depth + 1);
    lemma_signed(output.layout_y as int, "layout_y"@, i32::MAX as nat, depth + 1);
    lemma_signed(output.width as int, "width"@, i32::MAX as nat, depth + 1);
    lemma_signed(output.height as int, "height"@, i32::MAX as nat, depth + 1);
    output.scale_mode.law_round_trip();
    request_law::lemma_number(
        output.queue_depth as nat,
        "queue_depth"@,
        usize::MAX as nat,
        depth + 1,
    );
    lemma_state(output.transition_state, json_law::canonical_fields(fields), depth + 1);
    assert(request_law::sound_upto(fields, depth + 1, 15)) by {
        reveal_with_fuel(request_law::sound_upto, 16);
    }
    request_law::lemma_object_sound(fields, depth);
    let seen = json_law::canonical_fields(fields);
    assert(response::geometry_in(seen) == Ok::<(i32, i32, i32, i32), Seq<char>>(
        (output.layout_x, output.layout_y, output.width, output.height),
    ));
    let done = HealthOutputView {
        transition_target_image: None,
        scale_mode: crate::protocol::ScaleMode::Fill,
        transition_state: TransitionState::Idle,
        queue_depth: 0,
        frame_callback_pending: false,
        render_pending: false,
        ..output
    };
    assert(response::health_output_rest_in(seen, done) == Ok::<HealthOutputView, Seq<char>>(
        output_again(output),
    ));
}

/// The outputs of a health response are written as sound values and read back.
proof fn lemma_health_outputs(health: HealthView)
    requires
        forall|i: int|
            0 <= i < health.outputs.len() ==> valid_state(
                (#[trigger] health.outputs[i]).transition_state,
            ),
    ensures
        json_law::is_sound(response::health_outputs_of_json(health.outputs), 1),
        json_law::canonical(response::health_outputs_of_json(health.outputs)) matches Json::Array(
            values,
        ) && fields::each_in(values, |value: Json| response::health_output_in(value)) == Ok::<
            Seq<HealthOutputView>,
            Seq<char>,
        >(health_again(health).outputs),
{
    let outputs = response::health_outputs_of_json(health.outputs)->Array_0;
    let again = health_again(health).outputs;
    assert forall|i: int| 0 <= i < outputs.len() implies json_law::is_sound(
        #[trigger] outputs[i],
        2,
    ) && response::health_output_in(json_law::canonical(outputs[i])) == Ok::<
        HealthOutputView,
        Seq<char>,
    >(again[i]) by {
        lemma_health_output(health.outputs[i], 2);
    }
    lemma_each(again, outputs, |value: Json| response::health_output_in(value), 2);
}

/// The process ids of a health response are written as sound values and read back.
proof fn lemma_health_pids(health: HealthView)
    ensures
        json_law::is_sound(response::number_if_json(health.supervisor_pid), 1),
        json_law::is_sound(response::number_if_json(health.renderer_pid), 1),
        response::pids_in(
            json_law::canonical_fields(
                response::response_json(ResponseView::Health(health))->Object_0,
            ),
        ) == Ok::<(Option<u32>, Option<u32>), Seq<char>>(
            (health.supervisor_pid, health.renderer_pid),
        ),
{
    lemma_health_fields(health);
    if let Some(pid) = health.supervisor_pid {
        request_law::lemma_number(pid as nat, "supervisor_pid"@, u32::MAX as nat, 1);
    }
    if let Some(pid) = health.renderer_pid {
        request_law::lemma_number(pid as nat, "renderer_pid"@, u32::MAX as nat, 1);
    }
}

/// The rest of a health response is written as sound values and read back.
proof fn lemma_health_rest(health: HealthView, done: HealthView)
    ensures
        json_law::is_sound(request::number_json(health.renderer_generation as nat), 1),
        json_law::is_sound(request::number_json(health.restart_count as nat), 1),
        response::health_rest_in(
            json_law::canonical_fields(
                response::response_json(ResponseView::Health(health))->Object_0,
            ),
            done,
        ) == Ok::<HealthView, Seq<char>>(
            HealthView {
                renderer_generation: health.renderer_generation,
                renderer_state: health.renderer_state,
                restart_count: health.restart_count,
                last_error: health.last_error,
                last_diagnostic: health.last_diagnostic,
                ..done
            },
        ),
{
    lemma_health_fields(health);
    request_law::lemma_number(
        health.renderer_generation as nat,
        "renderer_generation"@,
        u64::MAX as nat,
        1,
    );
    request_law::lemma_number(health.restart_count as nat, "restart_count"@, u64::MAX as nat, 1);
}

/// A health response is written as a sound value.
#[verifier::spinoff_prover]
#[verifier::rlimit(60)]
proof fn lemma_health_sound(health: HealthView)
    requires
        json_law::is_sound(response::health_outputs_of_json(health.outputs), 1),
        json_law::is_sound(response::number_if_json(health.supervisor_pid), 1),
        json_law::is_sound(response::number_if_json(health.renderer_pid), 1),
        json_law::is_sound(request::number_json(health.renderer_generation as nat), 1),
        json_law::is_sound(request::number_json(health.restart_count as nat), 1),
    ensures
        json_law::is_sound(response::response_json(ResponseView::Health(health)), 0),
{
    let fields = response::response_json(ResponseView::Health(health))->Object_0;
    assert(request_law::sound_upto(fields, 1, 11)) by {
        reveal_with_fuel(request_law::sound_upto, 12);
    }
    request_law::lemma_object_sound(fields, 0);
}

/// Reading a health response that was written gives it back; the scale of a canvas that is
/// being shown comes back with six decimals.
#[verifier::spinoff_prover]
#[verifier::rlimit(60)]
pub proof fn law_health_response_round_trip(health: HealthView)
    requires
        forall|i: int|
            0 <= i < health.outputs.len() ==> valid_state(
                (#[trigger] health.outputs[i]).transition_state,
            ),
    ensures
        response::health_in(json::encoded(response::response_json(ResponseView::Health(health))))
            == Ok::<HealthView, Seq<char>>(health_again(health)),
{
    let value = response::response_json(ResponseView::Health(health));
    let done = HealthView {
        renderer_generation: 0,
        renderer_state: Seq::empty(),
        restart_count: 0,
        last_error: None,
        last_diagnostic: None,
        ..health_again(health)
    };
    lemma_health_outputs(health);
    lemma_health_pids(health);
    lemma_health_rest(health, done);
    lemma_health_sound(health);
    lemma_health_fields(health);
    json_law::law_json_round_trip(value);
    let seen = json_law::canonical_fields(value->Object_0);
    assert(response::response_check(seen, "health"@, "health request failed"@) is Ok);
    assert(fields::text_field(seen, "role"@) == Ok::<Seq<char>, Seq<char>>(health.role));
}

// ---------------------------------------------------------------------------
// Capabilities

/// Whether the default value of a parameter fits the type of the parameter, and is spelled as
/// the shortest decimal where it is a number.
pub open spec fn valid_default(parameter: ParameterView) -> bool {
    match parameter.default_value {
        None => true,
        Some(DefaultView::Text(_)) => parameter.value_type == TransitionParameterType::Enum
            || parameter.value_type == TransitionParameterType::IntegerOrEnum,
        Some(DefaultView::Number(number)) => parameter.value_type
            == TransitionParameterType::Number && json_law::is_number(number)
            && scale::is_finite_number(number) && binary64::spelled(number) == number,
        Some(DefaultView::Integer(_)) => parameter.value_type != TransitionParameterType::Enum
            && parameter.value_type != TransitionParameterType::Number,
    }
}

/// Whether the default values of the parameters of a transition fit their types.
pub open spec fn valid_capability(capability: CapabilityView) -> bool {
    forall|i: int|
        0 <= i < capability.parameters.len() ==> valid_default(#[trigger] capability.parameters[i])
}

/// Whether a capability snapshot is of the version that is understood, and its default
/// values fit their types.
pub open spec fn valid_capabilities(capabilities: CapabilitiesView) -> bool {
    &&& capabilities.schema_version == CAPABILITIES_SCHEMA_VERSION
    &&& forall|i: int|
        0 <= i < capabilities.transitions.len() ==> valid_capability(
            #[trigger] capabilities.transitions[i],
        )
}

#[verifier::spinoff_prover]
#[verifier::rlimit(60)]
proof fn lemma_parameter(parameter: ParameterView, depth: nat)
    requires
        valid_default(parameter),
        depth < 127,
    ensures
        json_law::is_sound(response::parameter_json(parameter), depth),
        response::parameter_in(json_law::canonical(response::parameter_json(parameter))) == Ok::<
            ParameterView,
            Seq<char>,
        >(parameter),
{
    let fields = response::parameter_json(parameter)->Object_0;
    lemma_parameter_fields(parameter);
    parameter.value_type.law_round_trip();
    request_law::lemma_text_list(parameter.allowed_values, depth + 1);
    if let Some(DefaultView::Integer(value)) = parameter.default_value {
        lemma_signed(value as int, "default"@, i64::MAX as nat, depth + 1);
        text::lemma_signed_round_trip(value as int, i64::MAX as nat);
    }
    assert(request_law::sound_upto(fields, depth + 1, 6)) by {
        reveal_with_fuel(request_law::sound_upto, 7);
    }
    request_law::lemma_object_sound(fields, depth);
    let seen = json_law::canonical_fields(fields);
    assert(response::default_field(seen, parameter.value_type) == Ok::<
        Option<DefaultView>,
        Seq<char>,
    >(parameter.default_value));
}

#[verifier::spinoff_prover]
#[verifier::rlimit(60)]
proof fn lemma_capability(capability: CapabilityView, depth: nat)
    requires
        valid_capability(capability),
        depth < 125,
    ensures
        json_law::is_sound(response::capability_json(capability), depth),
        response::capability_in(json_law::canonical(response::capability_json(capability)))
            == Ok::<CapabilityView, Seq<char>>(capability),
{
    let fields = response::capability_json(capability)->Object_0;
    lemma_capability_fields(capability);
    capability.class.law_round_trip();
    request_law::lemma_text_list(capability.requirements, depth + 1);
    let scopes = response::scopes_json(capability.scopes)->Object_0;
    lemma_scopes_fields(capability.scopes);
    assert(request_law::sound_upto(scopes, depth + 2, 2)) by {
        reveal_with_fuel(request_law::sound_upto, 3);
    }
    request_law::lemma_object_sound(scopes, depth + 1);
    let parameters = response::parameters_of_json(capability.parameters)->Array_0;
    assert forall|i: int| 0 <= i < parameters.len() implies json_law::is_sound(
        #[trigger] parameters[i],
        depth + 2,
    ) && response::parameter_in(json_law::canonical(parameters[i])) == Ok::<
        ParameterView,
        Seq<char>,
    >(capability.parameters[i]) by {
        lemma_parameter(capability.parameters[i], depth + 2);
    }
    lemma_each(
        capability.parameters,
        parameters,
        |value: Json| response::parameter_in(value),
        depth + 2,
    );
    assert(request_law::sound_upto(fields, depth + 1, 6)) by {
        reveal_with_fuel(request_law::sound_upto, 7);
    }
    request_law::lemma_object_sound(fields, depth);
    let seen = json_law::canonical_fields(fields);
    assert(response::capability_rest_in(
        seen,
        json_law::canonical_fields(scopes),
        capability.class,
    ) == Ok::<CapabilityView, Seq<char>>(capability));
}

/// Reading a capability snapshot that was written gives it back.
#[verifier::spinoff_prover]
#[verifier::rlimit(60)]
pub proof fn law_capabilities_response_round_trip(capabilities: CapabilitiesView)
    requires
        valid_capabilities(capabilities),
    ensures
        response::capabilities_in(
            json::encoded(response::response_json(ResponseView::Capabilities(capabilities))),
        ) == Ok::<CapabilitiesView, Seq<char>>(capabilities),
{
    let value = response::response_json(ResponseView::Capabilities(capabilities));
    let fields = value->Object_0;
    lemma_capabilities_fields(capabilities);
    request_law::lemma_number(
        capabilities.schema_version as nat,
        "schema_version"@,
        u32::MAX as nat,
        1,
    );
    request_law::lemma_number(
        capabilities.protocol_version as nat,
        "protocol_version"@,
        u32::MAX as nat,
        1,
    );
    capabilities.daemon_mode.law_round_trip();
    let transitions = response::capabilities_of_json(capabilities.transitions)->Array_0;
    assert forall|i: int| 0 <= i < transitions.len() implies json_law::is_sound(
        #[trigger] transitions[i],
        2,
    ) && response::capability_in(json_law::canonical(transitions[i])) == Ok::<
        CapabilityView,
        Seq<char>,
    >(capabilities.transitions[i]) by {
        lemma_capability(capabilities.transitions[i], 2);
    }
    lemma_each(
        capabilities.transitions,
        transitions,
        |value: Json| response::capability_in(value),
        2,
    );
    assert(request_law::sound_upto(fields, 1, 6)) by {
        reveal_with_fuel(request_law::sound_upto, 7);
    }
    request_law::lemma_object_sound(fields, 0);
    json_law::law_json_round_trip(value);
}

/// What is read of each value of a list is read of that value.
proof fn lemma_read_each<T>(
    values: Seq<Json>,
    read: spec_fn(Json) -> Result<T, Seq<char>>,
    list: Seq<T>,
)
    requires
        fields::each_in(values, read) == Ok::<Seq<T>, Seq<char>>(list),
    ensures
        list.len() == values.len(),
        forall|i: int|
            0 <= i < list.len() ==> read(values[i]) == Ok::<T, Seq<char>>(#[trigger] list[i]),
    decreases values.len(),
{
    if values.len() > 0 {
        let front = values.drop_last();
        let head = fields::each_in(front, read)->Ok_0;
        lemma_read_each(front, read, head);
        assert forall|i: int| 0 <= i < list.len() implies read(values[i]) == Ok::<T, Seq<char>>(
            #[trigger] list[i],
        ) by {
            if i < head.len() {
                assert(list[i] == head[i] && values[i] == front[i]);
            }
        }
    }
}

/// The default values of a schema that was read fit their types.
proof fn lemma_read_parameter(value: Json)
    ensures
        response::parameter_in(value) matches Ok(parameter) ==> valid_default(parameter),
{
    if let Ok(parameter) = response::parameter_in(value) {
        let fields = json::object_in(value)->Ok_0;
        if let Some(Json::Number(number)) = textmap::entries_get(fields, "default"@) {
            if parameter.value_type == TransitionParameterType::Number {
                binary64_law::law_spelling_settles(number);
            }
        }
    }
}

/// What a client reads of the capabilities of a daemon, it can write, and reads as the same
/// again.
pub proof fn law_read_capabilities_come_back(input: Seq<char>)
    ensures
        response::capabilities_in(input) matches Ok(capabilities) ==> valid_capabilities(
            capabilities,
        ) && response::capabilities_in(
            json::encoded(response::response_json(ResponseView::Capabilities(capabilities))),
        ) == Ok::<CapabilitiesView, Seq<char>>(capabilities),
{
    if let Ok(capabilities) = response::capabilities_in(input) {
        let fields = json::object_in(json::json_in(input)->Ok_0)->Ok_0;
        let values = fields::list_field(fields, "transitions"@, true)->Ok_0;
        let read = |value: Json| response::capability_in(value);
        assert forall|i: int| 0 <= i < capabilities.transitions.len() implies valid_capability(
            #[trigger] capabilities.transitions[i],
        ) by {
            let capability = capabilities.transitions[i];
            lemma_read_each(values, read, capabilities.transitions);
            let inner = json::object_in(values[i])->Ok_0;
            let list = fields::list_field(inner, "parameters"@, false)->Ok_0;
            let each = |value: Json| response::parameter_in(value);
            assert forall|k: int| 0 <= k < capability.parameters.len() implies valid_default(
                #[trigger] capability.parameters[k],
            ) by {
                lemma_read_each(list, each, capability.parameters);
                lemma_read_parameter(list[k]);
            }
        }
        law_capabilities_response_round_trip(capabilities);
    }
}

/// The scale that is told as a default is a finite number.
#[verifier::spinoff_prover]
proof fn lemma_default_scale()
    ensures
        json_law::is_number("0.333333"@),
        scale::is_finite_number("0.333333"@),
        binary64::spelled("0.333333"@) == "0.333333"@,
{
    reveal_strlit("0.333333");
    let s = "0.333333"@;
    assert(s.len() == 8);
    assert(s[0] == '0' && s[1] == '.' && s[2] == '3' && s[3] == '3' && s[4] == '3' && s[5] == '3'
        && s[6] == '3' && s[7] == '3');
    assert(json::skip_digits(s, 2) == 8) by {
        reveal_with_fuel(json::skip_digits, 8);
    }
    assert(json::skip_digits(s, 0) == 1) by {
        reveal_with_fuel(json::skip_digits, 3);
    }
    let digits = s.take(1) + s.subrange(2, 8);
    assert(scale::decimal_parts(s) == Some((digits, -6int)));
    assert(digits =~= seq!['0', '3', '3', '3', '3', '3', '3']);
    assert(digits.len() == 7);
    lemma_digits_bound(digits);
    assert(scale::pow10(7) == 10000000) by {
        reveal_with_fuel(scale::pow10, 8);
    }
    assert(scale::pow10(6) == 1000000) by {
        reveal_with_fuel(scale::pow10, 7);
    }
    vstd::arithmetic::power2::lemma_pow2_pos(970);
    let end = scale::binary64_end();
    assert(end >= 0x3f_ffff_ffff_ffff) by (nonlinear_arith)
        requires
            end == 0x3f_ffff_ffff_ffff * vstd::arithmetic::power2::pow2(970),
            vstd::arithmetic::power2::pow2(970) > 0,
    ;
    let tens = scale::pow10(6);
    assert(end * tens >= end) by (nonlinear_arith)
        requires
            tens == 1000000,
            end >= 0,
    ;
    assert(scale::is_finite_decimal(digits, -6int));
    assert(text::decimal_text(0) =~= seq!['0']);
    assert(scale::fixed_digits(333333, 6) =~= seq!['3', '3', '3', '3', '3', '3']) by {
        reveal_with_fuel(scale::fixed_digits, 7);
    }
    assert(binary64::written(333333, -6) =~= s);
    binary64_law::lemma_six_places(333333);
}

/// A run of digits stands for less than the power of ten that its length tells.
proof fn lemma_digits_bound(digits: Seq<char>)
    requires
        forall|i: int| 0 <= i < digits.len() ==> text::is_digit(#[trigger] digits[i]),
    ensures
        scale::digits_nat(digits) < scale::pow10(digits.len()),
    decreases digits.len(),
{
    if digits.len() > 0 {
        lemma_digits_bound(digits.drop_last());
        assert(text::is_digit(digits[digits.len() - 1]));
    }
}

/// What a daemon tells of its capabilities is read back as it was told.
#[verifier::spinoff_prover]
#[verifier::rlimit(40)]
pub proof fn law_current_capabilities_round_trip(mode: DaemonMode)
    ensures
        response::capabilities_in(
            json::encoded(
                response::response_json(
                    ResponseView::Capabilities(response::current_capabilities(mode)),
                ),
            ),
        ) == Ok::<CapabilitiesView, Seq<char>>(response::current_capabilities(mode)),
{
    lemma_default_scale();
    let capabilities = response::current_capabilities(mode);
    assert(valid_capability(registry::cut_view()));
    assert(valid_capability(registry::fade_view()));
    assert(valid_capability(registry::push_view()));
    assert(valid_capability(registry::canvas_view()));
    assert(valid_capability(registry::world_view()));
    assert forall|i: int| 0 <= i < capabilities.transitions.len() implies valid_capability(
        #[trigger] capabilities.transitions[i],
    ) by {
        assert(capabilities.transitions[i].parameters == registry::registry()[i].1.parameters);
        assert(valid_capability(registry::registry()[i].1));
    }
    law_capabilities_response_round_trip(capabilities);
}

// ---------------------------------------------------------------------------
// Errors

/// A request that failed is answered with a text that is taken for an error, and with the
/// message of the error.
pub proof fn law_errors_are_told(message: Seq<char>)
    ensures
        response::status_in(json::encoded(response::response_json(ResponseView::Error(message))))
            matches Some((status, fields)) && status == "error"@ && textmap::entries_get(
            fields,
            "message"@,
        ) == Some(Json::Str(message)),
{
    let value = response::response_json(ResponseView::Error(message));
    let fields = value->Object_0;
    lemma_error_fields(message);
    assert(request_law::sound_upto(fields, 1, 2)) by {
        reveal_with_fuel(request_law::sound_upto, 3);
    }
    request_law::lemma_object_sound(fields, 0);
    json_law::law_json_round_trip(value);
}

} // verus!
