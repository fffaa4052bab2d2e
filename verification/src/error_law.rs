//! Errors are told as errors, and nothing else is.

use crate::json::Json;
use crate::protocol::{CanvasTileCount, Transition};
use crate::registry::{CapabilityView, DefaultView, ParameterView};
use crate::response::{
    EntryView, HealthOutputView, OutputView, ResponseView, TransitionState,
};
use crate::json;
use crate::json_law;
use crate::request;
use crate::request_law;
use crate::response;
use crate::response_law;
use crate::scale;
use crate::text;
use vstd::prelude::*;

verus! {

// ---------------------------------------------------------------------------
// What is written can be read

/// Whether the scale of a transition is above zero and at most one.
pub open spec fn scaled_well(transition: Transition) -> bool {
    transition matches Transition::Canvas { overview_scale, .. } ==> overview_scale.valid()
}

/// Whether the scale of the transition of an output is above zero and at most one.
pub open spec fn state_scaled_well(state: TransitionState) -> bool {
    state matches TransitionState::Running { transition } ==> scaled_well(transition)
}

/// Whether a default value that is a number is spelled as one.
pub open spec fn spelled_well(parameter: ParameterView) -> bool {
    parameter.default_value matches Some(DefaultView::Number(number)) ==> json_law::is_number(
        number,
    )
}

/// Whether the numbers of a response are numbers.
pub open spec fn has_numbers(response: ResponseView) -> bool {
    match response {
        ResponseView::Capabilities(capabilities) => forall|i: int, k: int|
            0 <= i < capabilities.transitions.len() && 0 <= k
                < capabilities.transitions[i].parameters.len() ==> spelled_well(
                #[trigger] capabilities.transitions[i].parameters[k],
            ),
        ResponseView::Health(health) => forall|i: int|
            0 <= i < health.outputs.len() ==> state_scaled_well(
                (#[trigger] health.outputs[i]).transition_state,
            ),
        ResponseView::Query(outputs) => forall|i: int|
            0 <= i < outputs.len() ==> state_scaled_well(
                (#[trigger] outputs[i]).transition_state,
            ),
        _ => true,
    }
}

proof fn lemma_array(values: Seq<Json>, depth: nat)
    requires
        depth < 128,
        forall|i: int|
            0 <= i < values.len() ==> json_law::is_sound(#[trigger] values[i], depth + 1),
    ensures
        json_law::is_sound(Json::Array(values), depth),
{
    lemma_values(values, depth + 1);
}

proof fn lemma_values(values: Seq<Json>, depth: nat)
    requires
        forall|i: int| 0 <= i < values.len() ==> json_law::is_sound(#[trigger] values[i], depth),
    ensures
        json_law::each_sound(values, depth),
    decreases values.len(),
{
    if values.len() > 0 {
        let front = values.drop_last();
        assert forall|i: int| 0 <= i < front.len() implies json_law::is_sound(
            #[trigger] front[i],
            depth,
        ) by {
            assert(front[i] == values[i]);
        }
        lemma_values(front, depth);
        assert(json_law::is_sound(values[values.len() - 1], depth));
    }
}

proof fn lemma_number(n: nat, depth: nat)
    ensures
        json_law::is_sound(request::number_json(n), depth),
{
    json_law::lemma_decimal_is_number(n);
}

proof fn lemma_signed(i: int, depth: nat)
    ensures
        json_law::is_sound(Json::Number(text::signed_text(i)), depth),
{
    json_law::lemma_signed_is_number(i);
}

#[verifier::spinoff_prover]
#[verifier::rlimit(30)]
proof fn lemma_transition(transition: Transition, depth: nat)
    requires
        scaled_well(transition),
        depth < 128,
    ensures
        json_law::is_sound(request::transition_json(transition), depth),
{
    let fields = request::transition_json(transition)->Object_0;
    match transition {
        Transition::Cut => {},
        Transition::Fade { duration_ms, .. } => lemma_number(duration_ms as nat, depth + 1),
        Transition::World { duration_ms, .. } => lemma_number(duration_ms as nat, depth + 1),
        Transition::Push { duration_ms, .. } => lemma_number(duration_ms as nat, depth + 1),
        Transition::Canvas { zoom_out_ms, pan_ms, zoom_in_ms, overview_scale, tile_count, .. } => {
            lemma_number(zoom_out_ms as nat, depth + 1);
            lemma_number(pan_ms as nat, depth + 1);
            lemma_number(zoom_in_ms as nat, depth + 1);
            scale::lemma_scale_text_is_number(overview_scale);
            match tile_count {
                CanvasTileCount::Auto { max: Some(max) } => lemma_number(max as nat, depth + 1),
                CanvasTileCount::Auto { max: None } => {},
                CanvasTileCount::Fixed(count) => lemma_number(count as nat, depth + 1),
            }
        },
    }
    assert(request_law::sound_upto(fields, depth + 1, fields.len())) by {
        reveal_with_fuel(request_law::sound_upto, 12);
    }
    request_law::lemma_object_sound(fields, depth);
}

proof fn lemma_state(state: TransitionState, depth: nat)
    requires
        state_scaled_well(state),
        depth < 127,
    ensures
        json_law::is_sound(response::state_json(state), depth),
{
    let fields = response::state_json(state)->Object_0;
    if let TransitionState::Running { transition } = state {
        lemma_transition(transition, depth + 1);
    }
    assert(request_law::sound_upto(fields, depth + 1, fields.len())) by {
        reveal_with_fuel(request_law::sound_upto, 3);
    }
    request_law::lemma_object_sound(fields, depth);
}

#[verifier::spinoff_prover]
#[verifier::rlimit(30)]
proof fn lemma_health_output(output: HealthOutputView)
    requires
        state_scaled_well(output.transition_state),
    ensures
        json_law::is_sound(response::health_output_json(output), 2),
{
    let fields = response::health_output_json(output)->Object_0;
    lemma_signed(output.layout_x as int, 3);
    lemma_signed(output.layout_y as int, 3);
    lemma_signed(output.width as int, 3);
    lemma_signed(output.height as int, 3);
    lemma_state(output.transition_state, 3);
    lemma_number(output.queue_depth as nat, 3);
    assert(request_law::sound_upto(fields, 3, 15)) by {
        reveal_with_fuel(request_law::sound_upto, 16);
    }
    request_law::lemma_object_sound(fields, 2);
}

proof fn lemma_output(output: OutputView)
    requires
        state_scaled_well(output.transition_state),
    ensures
        json_law::is_sound(response::output_json(output), 2),
{
    let fields = response::output_json(output)->Object_0;
    lemma_state(output.transition_state, 3);
    lemma_number(output.queue_depth as nat, 3);
    assert(request_law::sound_upto(fields, 3, 5)) by {
        reveal_with_fuel(request_law::sound_upto, 6);
    }
    request_law::lemma_object_sound(fields, 2);
}

proof fn lemma_entry(entry: EntryView)
    ensures
        json_law::is_sound(response::entry_json(entry), 2),
{
    let fields = response::entry_json(entry)->Object_0;
    lemma_number(entry.index as nat, 3);
    assert(request_law::sound_upto(fields, 3, 4)) by {
        reveal_with_fuel(request_law::sound_upto, 5);
    }
    request_law::lemma_object_sound(fields, 2);
}

proof fn lemma_parameter(parameter: ParameterView)
    requires
        spelled_well(parameter),
    ensures
        json_law::is_sound(response::parameter_json(parameter), 4),
{
    let fields = response::parameter_json(parameter)->Object_0;
    if let Some(DefaultView::Integer(value)) = parameter.default_value {
        lemma_signed(value as int, 5);
    }
    request_law::lemma_text_list(parameter.allowed_values, 5);
    assert(request_law::sound_upto(fields, 5, 6)) by {
        reveal_with_fuel(request_law::sound_upto, 7);
    }
    request_law::lemma_object_sound(fields, 4);
}

proof fn lemma_capability(capability: CapabilityView)
    requires
        forall|k: int|
            0 <= k < capability.parameters.len() ==> spelled_well(
                #[trigger] capability.parameters[k],
            ),
    ensures
        json_law::is_sound(response::capability_json(capability), 2),
{
    let fields = response::capability_json(capability)->Object_0;
    let scopes = response::scopes_json(capability.scopes)->Object_0;
    assert(request_law::sound_upto(scopes, 4, 2)) by {
        reveal_with_fuel(request_law::sound_upto, 3);
    }
    request_law::lemma_object_sound(scopes, 3);
    request_law::lemma_text_list(capability.requirements, 3);
    let parameters = response::parameters_of_json(capability.parameters)->Array_0;
    assert forall|k: int| 0 <= k < parameters.len() implies json_law::is_sound(
        #[trigger] parameters[k],
        4,
    ) by {
        lemma_parameter(capability.parameters[k]);
    }
    lemma_array(parameters, 3);
    assert(request_law::sound_upto(fields, 3, 6)) by {
        reveal_with_fuel(request_law::sound_upto, 7);
    }
    request_law::lemma_object_sound(fields, 2);
}

#[verifier::spinoff_prover]
#[verifier::rlimit(60)]
proof fn lemma_response(response: ResponseView)
    requires
        has_numbers(response),
    ensures
        json_law::is_sound(response::response_json(response), 0),
{
    let fields = response::response_json(response)->Object_0;
    match response {
        ResponseView::Pong(version) => lemma_number(version as nat, 1),
        ResponseView::Capabilities(capabilities) => {
            lemma_number(capabilities.schema_version as nat, 1);
            lemma_number(capabilities.protocol_version as nat, 1);
            let list = response::capabilities_of_json(capabilities.transitions)->Array_0;
            assert forall|i: int| 0 <= i < list.len() implies json_law::is_sound(
                #[trigger] list[i],
                2,
            ) by {
                lemma_capability(capabilities.transitions[i]);
            }
            lemma_array(list, 1);
        },
        ResponseView::Ack(_) | ResponseView::Error(_) => {},
        ResponseView::Health(health) => {
            if let Some(pid) = health.supervisor_pid {
                lemma_number(pid as nat, 1);
            }
            if let Some(pid) = health.renderer_pid {
                lemma_number(pid as nat, 1);
            }
            lemma_number(health.renderer_generation as nat, 1);
            lemma_number(health.restart_count as nat, 1);
            let list = response::health_outputs_of_json(health.outputs)->Array_0;
            assert forall|i: int| 0 <= i < list.len() implies json_law::is_sound(
                #[trigger] list[i],
                2,
            ) by {
                lemma_health_output(health.outputs[i]);
            }
            lemma_array(list, 1);
        },
        ResponseView::Query(outputs) => {
            let list = response::output_states_of_json(outputs)->Array_0;
            assert forall|i: int| 0 <= i < list.len() implies json_law::is_sound(
                #[trigger] list[i],
                2,
            ) by {
                lemma_output(outputs[i]);
            }
            lemma_array(list, 1);
        },
        ResponseView::Wallpaper(wallpaper) => {
            let list = response::entries_of_json(wallpaper.entries)->Array_0;
            assert forall|i: int| 0 <= i < list.len() implies json_law::is_sound(
                #[trigger] list[i],
                2,
            ) by {
                lemma_entry(wallpaper.entries[i]);
            }
            lemma_array(list, 1);
            request_law::lemma_text_list(wallpaper.favorites, 1);
        },
        ResponseView::Cache(cache) => {
            lemma_number(cache.ready as nat, 1);
            lemma_number(cache.pending as nat, 1);
            lemma_number(cache.scheduled as nat, 1);
            lemma_number(cache.failed as nat, 1);
        },
    }
    assert(request_law::sound_upto(fields, 1, fields.len())) by {
        reveal_with_fuel(request_law::sound_upto, 12);
    }
    request_law::lemma_object_sound(fields, 0);
}

// ---------------------------------------------------------------------------
// The status

proof fn lemma_status_comes_first(fields: Seq<(Seq<char>, Json)>, status: Seq<char>, n: nat)
    requires
        1 <= n <= fields.len(),
        fields[0] == ("status"@, Json::Str(status)),
        forall|i: int| 1 <= i < fields.len() ==> (#[trigger] fields[i]).0 != "status"@,
    ensures
        request_law::lookup(fields, "status"@, n) == Some(Json::Str(status)),
    decreases n,
{
    if n > 1 {
        lemma_status_comes_first(fields, status, (n - 1) as nat);
    } else {
        reveal_with_fuel(request_law::lookup, 2);
    }
}

proof fn lemma_other_names()
    ensures
        "type"@ != "status"@,
        "version"@ != "status"@,
        "schema_version"@ != "status"@,
        "protocol_version"@ != "status"@,
        "daemon_mode"@ != "status"@,
        "transitions"@ != "status"@,
        "message"@ != "status"@,
        "role"@ != "status"@,
        "supervisor_pid"@ != "status"@,
        "renderer_pid"@ != "status"@,
        "renderer_generation"@ != "status"@,
        "renderer_state"@ != "status"@,
        "restart_count"@ != "status"@,
        "last_error"@ != "status"@,
        "last_diagnostic"@ != "status"@,
        "outputs"@ != "status"@,
        "action"@ != "status"@,
        "entries"@ != "status"@,
        "favorites"@ != "status"@,
        "ready"@ != "status"@,
        "pending"@ != "status"@,
        "scheduled"@ != "status"@,
        "failed"@ != "status"@,
        "backend"@ != "status"@,
        "ok"@ != "error"@,
{
    reveal_strlit("status");
    reveal_strlit("ok");
    reveal_strlit("error");
    reveal_strlit("type");
    reveal_strlit("version");
    reveal_strlit("schema_version");
    reveal_strlit("protocol_version");
    reveal_strlit("daemon_mode");
    reveal_strlit("transitions");
    reveal_strlit("message");
    reveal_strlit("role");
    reveal_strlit("supervisor_pid");
    reveal_strlit("renderer_pid");
    reveal_strlit("renderer_generation");
    reveal_strlit("renderer_state");
    reveal_strlit("restart_count");
    reveal_strlit("last_error");
    reveal_strlit("last_diagnostic");
    reveal_strlit("outputs");
    reveal_strlit("action");
    reveal_strlit("entries");
    reveal_strlit("favorites");
    reveal_strlit("ready");
    reveal_strlit("pending");
    reveal_strlit("scheduled");
    reveal_strlit("failed");
    reveal_strlit("backend");
    assert("schema_version"@.len() == 14 && "supervisor_pid"@.len() == 14);
    assert("scheduled"@.len() == 9 && "ok"@.len() == 2 && "error"@.len() == 5);
    assert("action"@[0] != "status"@[0]);
    assert("failed"@[0] != "status"@[0]);
}

/// Whether an answer is told as an error depends on whether it is one: the answer to a request
/// that failed is told with its message, and every other answer is told as none.
#[verifier::spinoff_prover]
#[verifier::rlimit(30)]
pub proof fn law_only_errors_are_told(response: ResponseView)
    requires
        has_numbers(response),
    ensures
        response::error_said(json::encoded(response::response_json(response))) == match response {
            ResponseView::Error(message) => Some(message),
            _ => None,
        },
        response::is_error_said(json::encoded(response::response_json(response))) == (response
            is Error),
{
    let value = response::response_json(response);
    let fields = value->Object_0;
    lemma_response(response);
    json_law::law_json_round_trip(value);
    if let ResponseView::Error(message) = response {
        response_law::law_errors_are_told(message);
    } else {
        lemma_other_names();
        assert forall|i: int| 1 <= i < fields.len() implies (#[trigger] fields[i]).0
            != "status"@ by {}
        lemma_status_comes_first(fields, "ok"@, fields.len());
        request_law::lemma_lookup(fields, "status"@);
    }
}

} // verus!
