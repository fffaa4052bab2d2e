//! What is proved of the messages between programs: under which name each value stands in them.

use crate::json::Json;
use crate::protocol::{
    CacheAction, CacheBackend, CacheWarmScope, CanvasMode, CanvasPanAxis, CanvasTileCount,
    CanvasWalk, DaemonMode, Easing, PushDirection, PushMode, ScaleMode, Transition,
    TransitionClass, TransitionKind, TransitionParameterType, WallpaperAction,
};
use crate::registry::{CapabilityView, ParameterView, TransitionScopes};
use crate::request::{
    CacheRequest, ClearView, PreviewView, RequestView, SetView, WorldRouteFocus, WorldView,
};
use crate::response::{
    CacheView, CapabilitiesView, EntryView, HealthOutputView, HealthView, OutputView, ResponseView,
    TransitionState, WallpaperView,
};
use crate::text::IntError;
use crate::protocol;
use crate::request;
use crate::response;
use crate::scale;
use crate::text;
use crate::textmap;
use vstd::prelude::*;

verus! {

/// Whether an object says some value under a name.
pub open spec fn says(object: Json, name: Seq<char>, value: Json) -> bool {
    object matches Json::Object(fields) && exists|i: int|
        #![trigger fields[i]]
        0 <= i < fields.len() && fields[i] == (name, value)
}

/// A number in a message.
pub open spec fn number(n: int) -> Json {
    Json::Number(text::signed_text(n))
}

/// A text in a message, or nothing.
pub open spec fn text_or_null(text: Option<Seq<char>>) -> Json {
    match text {
        Some(text) => Json::Str(text),
        None => Json::Null,
    }
}

/// What a message says of a cut.
pub proof fn law_cut_message()
    ensures
        says(request::transition_json(Transition::Cut), "type"@, Json::Str("cut"@)),
{
    let fields = request::transition_json(Transition::Cut)->Object_0;
    assert(fields[0] == ("type"@, Json::Str("cut"@)));
}

/// What a message says of a fade.
pub proof fn law_fade_message(duration_ms: u64, easing: Easing)
    ensures
        says(
            request::transition_json(Transition::Fade { duration_ms, easing }),
            "type"@,
            Json::Str("fade"@),
        ),
        says(
            request::transition_json(Transition::Fade { duration_ms, easing }),
            "duration_ms"@,
            number(duration_ms as int),
        ),
        says(
            request::transition_json(Transition::Fade { duration_ms, easing }),
            "easing"@,
            Json::Str(easing.name()),
        ),
{
    let fields = request::transition_json(Transition::Fade { duration_ms, easing })->Object_0;
    assert(fields[0] == ("type"@, Json::Str("fade"@)));
    assert(fields[1] == ("duration_ms"@, number(duration_ms as int)));
    assert(fields[2] == ("easing"@, Json::Str(easing.name())));
}

/// What a message says of a zoom through the world.
pub proof fn law_world_message(duration_ms: u64, easing: Easing)
    ensures
        says(
            request::transition_json(Transition::World { duration_ms, easing }),
            "type"@,
            Json::Str("world"@),
        ),
        says(
            request::transition_json(Transition::World { duration_ms, easing }),
            "duration_ms"@,
            number(duration_ms as int),
        ),
        says(
            request::transition_json(Transition::World { duration_ms, easing }),
            "easing"@,
            Json::Str(easing.name()),
        ),
{
    let fields = request::transition_json(Transition::World { duration_ms, easing })->Object_0;
    assert(fields[0] == ("type"@, Json::Str("world"@)));
    assert(fields[1] == ("duration_ms"@, number(duration_ms as int)));
    assert(fields[2] == ("easing"@, Json::Str(easing.name())));
}

/// What a message says of a push.
pub proof fn law_push_message(
    direction: PushDirection,
    duration_ms: u64,
    easing: Easing,
    mode: PushMode,
)
    ensures
        says(
            request::transition_json(Transition::Push { direction, duration_ms, easing, mode }),
            "type"@,
            Json::Str("push"@),
        ),
        says(
            request::transition_json(Transition::Push { direction, duration_ms, easing, mode }),
            "direction"@,
            Json::Str(direction.name()),
        ),
        says(
            request::transition_json(Transition::Push { direction, duration_ms, easing, mode }),
            "duration_ms"@,
            number(duration_ms as int),
        ),
        says(
            request::transition_json(Transition::Push { direction, duration_ms, easing, mode }),
            "easing"@,
            Json::Str(easing.name()),
        ),
        says(
            request::transition_json(Transition::Push { direction, duration_ms, easing, mode }),
            "mode"@,
            Json::Str(mode.name()),
        ),
{
    let fields = request::transition_json(
        Transition::Push { direction, duration_ms, easing, mode },
    )->Object_0;
    assert(fields[0] == ("type"@, Json::Str("push"@)));
    assert(fields[1] == ("direction"@, Json::Str(direction.name())));
    assert(fields[2] == ("duration_ms"@, number(duration_ms as int)));
    assert(fields[3] == ("easing"@, Json::Str(easing.name())));
    assert(fields[4] == ("mode"@, Json::Str(mode.name())));
}

/// What a message says of a canvas.
pub proof fn law_canvas_message(transition: Transition)
    requires
        transition is Canvas,
    ensures
        says(request::transition_json(transition), "type"@, Json::Str("canvas"@)),
        says(
            request::transition_json(transition),
            "zoom_out_ms"@,
            number(transition->zoom_out_ms as int),
        ),
        says(request::transition_json(transition), "pan_ms"@, number(transition->pan_ms as int)),
        says(
            request::transition_json(transition),
            "zoom_in_ms"@,
            number(transition->zoom_in_ms as int),
        ),
        says(
            request::transition_json(transition),
            "easing"@,
            Json::Str(transition->Canvas_easing.name()),
        ),
        says(
            request::transition_json(transition),
            "mode"@,
            Json::Str(transition->Canvas_mode.name()),
        ),
        says(request::transition_json(transition), "walk"@, Json::Str(transition->walk.name())),
        says(
            request::transition_json(transition),
            "pan_axis"@,
            Json::Str(transition->pan_axis.name()),
        ),
        says(
            request::transition_json(transition),
            "overview_scale"@,
            Json::Number(scale::scale_text(transition->overview_scale)),
        ),
        says(request::transition_json(transition), "tile_count"@, match transition->tile_count {
            CanvasTileCount::Fixed(count) => number(count as int),
            CanvasTileCount::Auto { .. } => Json::Str("auto"@),
        }),
{
    let fields = request::transition_json(transition)->Object_0;
    assert(fields[0] == ("type"@, Json::Str("canvas"@)));
    assert(fields[1] == ("zoom_out_ms"@, number(transition->zoom_out_ms as int)));
    assert(fields[2] == ("pan_ms"@, number(transition->pan_ms as int)));
    assert(fields[3] == ("zoom_in_ms"@, number(transition->zoom_in_ms as int)));
    assert(fields[4] == ("easing"@, Json::Str(transition->Canvas_easing.name())));
    assert(fields[5] == ("mode"@, Json::Str(transition->Canvas_mode.name())));
    assert(fields[6] == ("walk"@, Json::Str(transition->walk.name())));
    assert(fields[7] == ("pan_axis"@, Json::Str(transition->pan_axis.name())));
    assert(
        fields[8] == (
            "overview_scale"@,
            Json::Number(scale::scale_text(transition->overview_scale)),
        )
    );
    assert(fields[9] == ("tile_count"@, match transition->tile_count {
            CanvasTileCount::Fixed(count) => number(count as int),
            CanvasTileCount::Auto { .. } => Json::Str("auto"@),
        }));
}

/// A message says of a canvas with a limit on its tiles what the limit is, and of one without a
/// limit nothing of it.
pub proof fn law_tile_limit_message(transition: Transition, max: usize)
    requires
        transition is Canvas,
    ensures
        transition->tile_count == (CanvasTileCount::Auto { max: Some(max) }) ==> says(
            request::transition_json(transition),
            "max_tile_count"@,
            number(max as int),
        ),
        !(transition->tile_count matches CanvasTileCount::Auto { max: Some(_) })
            ==> request::transition_json(transition)->Object_0.len() == 10,
{
    if transition->tile_count == (CanvasTileCount::Auto { max: Some(max) }) {
        let fields = request::transition_json(transition)->Object_0;
        assert(fields[10] == ("max_tile_count"@, number(max as int)));
    }
}

/// A message names the action, and says beside it which output it is about, where it is about
/// one.
pub proof fn law_action_message(action: WallpaperAction)
    ensures
        action.index() is None ==> request::action_json(action) == Json::Str(action.name()),
        action.index() matches Some(index) ==> says(
            request::action_json(action),
            "type"@,
            Json::Str(action.name()),
        ) && says(request::action_json(action), "index"@, number(index as int)),
{
    if let Some(index) = action.index() {
        let fields = request::action_json(action)->Object_0;
        assert(fields[0] == ("type"@, Json::Str(action.name())));
        assert(fields[1] == ("index"@, number(index as int)));
    }
}

/// A message says of each output what it is to show, and of a list each text in its order.
pub proof fn law_texts_message(entries: Seq<(Seq<char>, Seq<char>)>, list: Seq<Seq<char>>, i: int)
    ensures
        0 <= i < entries.len() ==> says(
            request::text_map_json(entries),
            entries[i].0,
            Json::Str(entries[i].1),
        ),
        request::text_list_json(list) matches Json::Array(items) && items.len() == list.len() && (
        0 <= i < list.len() ==> items[i] == Json::Str(list[i])),
{
    if 0 <= i < entries.len() {
        let fields = request::text_map_json(entries)->Object_0;
        assert(fields[i] == (entries[i].0, Json::Str(entries[i].1)));
    }
}

/// What a message says of the way of an output.
pub proof fn law_route_message(focus: WorldRouteFocus)
    ensures
        says(request::route_json(focus), "current_index"@, number(focus.current_index as int)),
        says(request::route_json(focus), "target_index"@, number(focus.target_index as int)),
        says(request::route_json(focus), "lod"@, number(focus.lod as int)),
{
    let fields = request::route_json(focus)->Object_0;
    assert(fields[0] == ("current_index"@, number(focus.current_index as int)));
    assert(fields[1] == ("target_index"@, number(focus.target_index as int)));
    assert(fields[2] == ("lod"@, number(focus.lod as int)));
}

/// What a request to show wallpapers says.
pub proof fn law_set_message(set: SetView)
    ensures
        says(request::request_json(RequestView::SetOutputs(set)), "type"@, Json::Str("set"@)),
        says(
            request::request_json(RequestView::SetOutputs(set)),
            "outputs"@,
            request::text_map_json(set.outputs),
        ),
        says(
            request::request_json(RequestView::SetOutputs(set)),
            "transition"@,
            request::transition_json(set.transition),
        ),
        says(
            request::request_json(RequestView::SetOutputs(set)),
            "scale_mode"@,
            Json::Str(set.scale_mode.name()),
        ),
        says(
            request::request_json(RequestView::SetOutputs(set)),
            "allow_partial"@,
            Json::Bool(set.allow_partial),
        ),
{
    let fields = request::request_json(RequestView::SetOutputs(set))->Object_0;
    assert(fields[0] == ("type"@, Json::Str("set"@)));
    assert(fields[1] == ("outputs"@, request::text_map_json(set.outputs)));
    assert(fields[2] == ("transition"@, request::transition_json(set.transition)));
    assert(fields[3] == ("scale_mode"@, Json::Str(set.scale_mode.name())));
    assert(fields[4] == ("allow_partial"@, Json::Bool(set.allow_partial)));
}

/// What a request to a renderer says that shows wallpapers by a canvas.
pub proof fn law_canvas_set_message(set: SetView, preview: PreviewView)
    ensures
        says(
            request::request_json(RequestView::RenderCanvasSet(set, preview)),
            "type"@,
            Json::Str("renderer_canvas_set"@),
        ),
        says(
            request::request_json(RequestView::RenderCanvasSet(set, preview)),
            "outputs"@,
            request::text_map_json(set.outputs),
        ),
        says(
            request::request_json(RequestView::RenderCanvasSet(set, preview)),
            "transition"@,
            request::transition_json(set.transition),
        ),
        says(
            request::request_json(RequestView::RenderCanvasSet(set, preview)),
            "scale_mode"@,
            Json::Str(set.scale_mode.name()),
        ),
        says(
            request::request_json(RequestView::RenderCanvasSet(set, preview)),
            "allow_partial"@,
            Json::Bool(set.allow_partial),
        ),
        says(
            request::request_json(RequestView::RenderCanvasSet(set, preview)),
            "preview_paths"@,
            request::text_list_json(preview.paths),
        ),
        says(
            request::request_json(RequestView::RenderCanvasSet(set, preview)),
            "preview_start"@,
            number(preview.start as int),
        ),
{
    let fields = request::request_json(RequestView::RenderCanvasSet(set, preview))->Object_0;
    assert(fields[0] == ("type"@, Json::Str("renderer_canvas_set"@)));
    assert(fields[1] == ("outputs"@, request::text_map_json(set.outputs)));
    assert(fields[2] == ("transition"@, request::transition_json(set.transition)));
    assert(fields[3] == ("scale_mode"@, Json::Str(set.scale_mode.name())));
    assert(fields[4] == ("allow_partial"@, Json::Bool(set.allow_partial)));
    assert(fields[5] == ("preview_paths"@, request::text_list_json(preview.paths)));
    assert(fields[6] == ("preview_start"@, number(preview.start as int)));
}

/// What a request to a renderer says that shows wallpapers by the world.
pub proof fn law_world_set_message(set: SetView, world: WorldView)
    ensures
        says(
            request::request_json(RequestView::RenderWorldSet(set, world)),
            "type"@,
            Json::Str("renderer_world_set"@),
        ),
        says(
            request::request_json(RequestView::RenderWorldSet(set, world)),
            "outputs"@,
            request::text_map_json(set.outputs),
        ),
        says(
            request::request_json(RequestView::RenderWorldSet(set, world)),
            "transition"@,
            request::transition_json(set.transition),
        ),
        says(
            request::request_json(RequestView::RenderWorldSet(set, world)),
            "scale_mode"@,
            Json::Str(set.scale_mode.name()),
        ),
        says(
            request::request_json(RequestView::RenderWorldSet(set, world)),
            "allow_partial"@,
            Json::Bool(set.allow_partial),
        ),
        says(
            request::request_json(RequestView::RenderWorldSet(set, world)),
            "library_count"@,
            number(world.library_count as int),
        ),
        says(
            request::request_json(RequestView::RenderWorldSet(set, world)),
            "columns"@,
            number(world.columns as int),
        ),
        says(
            request::request_json(RequestView::RenderWorldSet(set, world)),
            "fingerprint"@,
            number(world.fingerprint as int),
        ),
        says(
            request::request_json(RequestView::RenderWorldSet(set, world)),
            "thumbnail_edge"@,
            number(world.thumbnail_edge as int),
        ),
        says(
            request::request_json(RequestView::RenderWorldSet(set, world)),
            "tile_cells"@,
            number(world.tile_cells as int),
        ),
        says(
            request::request_json(RequestView::RenderWorldSet(set, world)),
            "routes"@,
            request::route_map_json(world.routes),
        ),
{
    let fields = request::request_json(RequestView::RenderWorldSet(set, world))->Object_0;
    assert(fields[0] == ("type"@, Json::Str("renderer_world_set"@)));
    assert(fields[1] == ("outputs"@, request::text_map_json(set.outputs)));
    assert(fields[2] == ("transition"@, request::transition_json(set.transition)));
    assert(fields[3] == ("scale_mode"@, Json::Str(set.scale_mode.name())));
    assert(fields[4] == ("allow_partial"@, Json::Bool(set.allow_partial)));
    assert(fields[5] == ("library_count"@, number(world.library_count as int)));
    assert(fields[6] == ("columns"@, number(world.columns as int)));
    assert(fields[7] == ("fingerprint"@, number(world.fingerprint as int)));
    assert(fields[8] == ("thumbnail_edge"@, number(world.thumbnail_edge as int)));
    assert(fields[9] == ("tile_cells"@, number(world.tile_cells as int)));
    assert(fields[10] == ("routes"@, request::route_map_json(world.routes)));
}

/// What a request to load wallpapers says.
pub proof fn law_preload_message(outputs: Seq<(Seq<char>, Seq<char>)>)
    ensures
        says(request::request_json(RequestView::Preload(outputs)), "type"@, Json::Str("preload"@)),
        says(
            request::request_json(RequestView::Preload(outputs)),
            "outputs"@,
            request::text_map_json(outputs),
        ),
{
    let fields = request::request_json(RequestView::Preload(outputs))->Object_0;
    assert(fields[0] == ("type"@, Json::Str("preload"@)));
    assert(fields[1] == ("outputs"@, request::text_map_json(outputs)));
}

/// What a request to show a color says.
pub proof fn law_clear_message(clear: ClearView)
    ensures
        says(request::request_json(RequestView::Clear(clear)), "type"@, Json::Str("clear"@)),
        says(
            request::request_json(RequestView::Clear(clear)),
            "outputs"@,
            request::text_list_json(clear.outputs),
        ),
        says(request::request_json(RequestView::Clear(clear)), "color"@, Json::Str(clear.color)),
{
    let fields = request::request_json(RequestView::Clear(clear))->Object_0;
    assert(fields[0] == ("type"@, Json::Str("clear"@)));
    assert(fields[1] == ("outputs"@, request::text_list_json(clear.outputs)));
    assert(fields[2] == ("color"@, Json::Str(clear.color)));
}

/// What a request to fill the cache says.
pub proof fn law_warm_message(scope: CacheWarmScope, workers: usize, backend: CacheBackend)
    ensures
        says(request::request_json(
            RequestView::Cache(
                CacheRequest { action: CacheAction::Warm { scope, workers, backend } },
            ),
        ), "type"@, Json::Str("cache"@)),
        says(request::request_json(
            RequestView::Cache(
                CacheRequest { action: CacheAction::Warm { scope, workers, backend } },
            ),
        ), "action"@, Json::Str("warm"@)),
        says(request::request_json(
            RequestView::Cache(
                CacheRequest { action: CacheAction::Warm { scope, workers, backend } },
            ),
        ), "scope"@, Json::Str(scope.name())),
        says(request::request_json(
            RequestView::Cache(
                CacheRequest { action: CacheAction::Warm { scope, workers, backend } },
            ),
        ), "workers"@, number(workers as int)),
        says(request::request_json(
            RequestView::Cache(
                CacheRequest { action: CacheAction::Warm { scope, workers, backend } },
            ),
        ), "backend"@, Json::Str(backend.name())),
{
    let fields = request::request_json(
            RequestView::Cache(
                CacheRequest { action: CacheAction::Warm { scope, workers, backend } },
            ),
        )->Object_0;
    assert(fields[0] == ("type"@, Json::Str("cache"@)));
    assert(fields[1] == ("action"@, Json::Str("warm"@)));
    assert(fields[2] == ("scope"@, Json::Str(scope.name())));
    assert(fields[3] == ("workers"@, number(workers as int)));
    assert(fields[4] == ("backend"@, Json::Str(backend.name())));
}

/// What a request for an action on the library says.
pub proof fn law_wallpaper_message(request: RequestView)
    requires
        request is Wallpaper,
    ensures
        says(request::request_json(request), "type"@, Json::Str("wallpaper"@)),
        says(
            request::request_json(request),
            "action"@,
            request::action_json(request->Wallpaper_0.action),
        ),
        says(
            request::request_json(request),
            "transition"@,
            match request->Wallpaper_0.transition {
                Some(transition) => request::transition_json(transition),
                None => Json::Null,
            },
        ),
        says(
            request::request_json(request),
            "scale_mode"@,
            match request->Wallpaper_0.scale_mode {
                Some(mode) => Json::Str(mode.name()),
                None => Json::Null,
            },
        ),
{
    let fields = request::request_json(request)->Object_0;
    assert(fields[0] == ("type"@, Json::Str("wallpaper"@)));
    assert(fields[1] == ("action"@, request::action_json(request->Wallpaper_0.action)));
    assert(fields[2].0 == "transition"@);
    assert(fields[3].0 == "scale_mode"@);
}

/// Requests that say nothing but what they are.
pub proof fn law_plain_messages()
    ensures
        says(request::request_json(RequestView::Ping), "type"@, Json::Str("ping"@)),
        says(request::request_json(RequestView::Capabilities), "type"@, Json::Str("capabilities"@)),
        says(request::request_json(RequestView::Health), "type"@, Json::Str("health"@)),
        says(request::request_json(RequestView::Query), "type"@, Json::Str("query"@)),
        says(request::request_json(RequestView::Stop), "type"@, Json::Str("stop"@)),
        says(
            request::request_json(
                RequestView::Cache(CacheRequest { action: CacheAction::Status }),
            ),
            "action"@,
            Json::Str("status"@),
        ),
        says(
            request::request_json(RequestView::Cache(CacheRequest { action: CacheAction::Clear })),
            "action"@,
            Json::Str("clear"@),
        ),
{
    assert(request::request_json(RequestView::Ping)->Object_0[0] == ("type"@, Json::Str("ping"@)));
    assert(request::request_json(RequestView::Capabilities)->Object_0[0] == (
        "type"@,
        Json::Str("capabilities"@),
    ));
    assert(request::request_json(RequestView::Health)->Object_0[0] == (
        "type"@,
        Json::Str("health"@),
    ));
    assert(request::request_json(RequestView::Query)->Object_0[0] == (
        "type"@,
        Json::Str("query"@),
    ));
    assert(request::request_json(RequestView::Stop)->Object_0[0] == ("type"@, Json::Str("stop"@)));
    let status = RequestView::Cache(CacheRequest { action: CacheAction::Status });
    assert(request::request_json(status)->Object_0[1] == ("action"@, Json::Str("status"@)));
    let clear = RequestView::Cache(CacheRequest { action: CacheAction::Clear });
    assert(request::request_json(clear)->Object_0[1] == ("action"@, Json::Str("clear"@)));
}

/// What an answer says of where a transition can be used.
pub proof fn law_scopes_message(scopes: TransitionScopes)
    ensures
        says(response::scopes_json(scopes), "explicit_set"@, Json::Bool(scopes.explicit_set)),
        says(
            response::scopes_json(scopes),
            "wallpaper_actions"@,
            Json::Bool(scopes.wallpaper_actions),
        ),
{
    let fields = response::scopes_json(scopes)->Object_0;
    assert(fields[0] == ("explicit_set"@, Json::Bool(scopes.explicit_set)));
    assert(fields[1] == ("wallpaper_actions"@, Json::Bool(scopes.wallpaper_actions)));
}

/// What an answer says of a parameter of a transition.
pub proof fn law_parameter_message(parameter: ParameterView)
    ensures
        says(response::parameter_json(parameter), "name"@, Json::Str(parameter.name)),
        says(response::parameter_json(parameter), "type"@, Json::Str(parameter.value_type.name())),
        says(
            response::parameter_json(parameter),
            "allowed_values"@,
            request::text_list_json(parameter.allowed_values),
        ),
        says(response::parameter_json(parameter), "required"@, Json::Bool(parameter.required)),
        says(
            response::parameter_json(parameter),
            "default"@,
            response::default_json(parameter.default_value),
        ),
        says(
            response::parameter_json(parameter),
            "constraint"@,
            text_or_null(parameter.constraint),
        ),
{
    let fields = response::parameter_json(parameter)->Object_0;
    assert(fields[0] == ("name"@, Json::Str(parameter.name)));
    assert(fields[1] == ("type"@, Json::Str(parameter.value_type.name())));
    assert(fields[2] == ("allowed_values"@, request::text_list_json(parameter.allowed_values)));
    assert(fields[3] == ("required"@, Json::Bool(parameter.required)));
    assert(fields[4] == ("default"@, response::default_json(parameter.default_value)));
    assert(fields[5] == ("constraint"@, text_or_null(parameter.constraint)));
}

/// What an answer says of a transition.
pub proof fn law_capability_message(capability: CapabilityView)
    ensures
        says(response::capability_json(capability), "name"@, Json::Str(capability.name)),
        says(response::capability_json(capability), "class"@, Json::Str(capability.class.name())),
        says(
            response::capability_json(capability),
            "scopes"@,
            response::scopes_json(capability.scopes),
        ),
        says(
            response::capability_json(capability),
            "experimental"@,
            Json::Bool(capability.experimental),
        ),
        says(
            response::capability_json(capability),
            "requirements"@,
            request::text_list_json(capability.requirements),
        ),
        says(
            response::capability_json(capability),
            "parameters"@,
            response::parameters_of_json(capability.parameters),
        ),
{
    let fields = response::capability_json(capability)->Object_0;
    assert(fields[0] == ("name"@, Json::Str(capability.name)));
    assert(fields[1] == ("class"@, Json::Str(capability.class.name())));
    assert(fields[2] == ("scopes"@, response::scopes_json(capability.scopes)));
    assert(fields[3] == ("experimental"@, Json::Bool(capability.experimental)));
    assert(fields[4] == ("requirements"@, request::text_list_json(capability.requirements)));
    assert(fields[5] == ("parameters"@, response::parameters_of_json(capability.parameters)));
}

/// What an answer says of a transition that is being shown.
pub proof fn law_running_message(transition: Transition)
    ensures
        says(
            response::state_json(TransitionState::Running { transition }),
            "state"@,
            Json::Str("running"@),
        ),
        says(
            response::state_json(TransitionState::Running { transition }),
            "transition"@,
            request::transition_json(transition),
        ),
{
    let fields = response::state_json(TransitionState::Running { transition })->Object_0;
    assert(fields[0] == ("state"@, Json::Str("running"@)));
    assert(fields[1] == ("transition"@, request::transition_json(transition)));
}

/// What an answer says of an output that shows no transition.
pub proof fn law_idle_message()
    ensures
        says(response::state_json(TransitionState::Idle), "state"@, Json::Str("idle"@)),
{
    let fields = response::state_json(TransitionState::Idle)->Object_0;
    assert(fields[0] == ("state"@, Json::Str("idle"@)));
}

/// What an answer says of how an output is.
pub proof fn law_health_output_message(output: HealthOutputView)
    ensures
        says(response::health_output_json(output), "name"@, Json::Str(output.name)),
        says(response::health_output_json(output), "layout_x"@, number(output.layout_x as int)),
        says(response::health_output_json(output), "layout_y"@, number(output.layout_y as int)),
        says(response::health_output_json(output), "width"@, number(output.width as int)),
        says(response::health_output_json(output), "height"@, number(output.height as int)),
        says(response::health_output_json(output), "power_state"@, Json::Str(output.power_state)),
        says(response::health_output_json(output), "render_state"@, Json::Str(output.render_state)),
        says(
            response::health_output_json(output),
            "restore_pending"@,
            Json::Bool(output.restore_pending),
        ),
        says(
            response::health_output_json(output),
            "current_image"@,
            text_or_null(output.current_image),
        ),
        says(
            response::health_output_json(output),
            "transition_target_image"@,
            text_or_null(output.transition_target_image),
        ),
        says(
            response::health_output_json(output),
            "scale_mode"@,
            Json::Str(output.scale_mode.name()),
        ),
        says(
            response::health_output_json(output),
            "transition_state"@,
            response::state_json(output.transition_state),
        ),
        says(
            response::health_output_json(output),
            "queue_depth"@,
            number(output.queue_depth as int),
        ),
        says(
            response::health_output_json(output),
            "frame_callback_pending"@,
            Json::Bool(output.frame_callback_pending),
        ),
        says(
            response::health_output_json(output),
            "render_pending"@,
            Json::Bool(output.render_pending),
        ),
{
    let fields = response::health_output_json(output)->Object_0;
    assert(fields[0] == ("name"@, Json::Str(output.name)));
    assert(fields[1] == ("layout_x"@, number(output.layout_x as int)));
    assert(fields[2] == ("layout_y"@, number(output.layout_y as int)));
    assert(fields[3] == ("width"@, number(output.width as int)));
    assert(fields[4] == ("height"@, number(output.height as int)));
    assert(fields[5] == ("power_state"@, Json::Str(output.power_state)));
    assert(fields[6] == ("render_state"@, Json::Str(output.render_state)));
    assert(fields[7] == ("restore_pending"@, Json::Bool(output.restore_pending)));
    assert(fields[8] == ("current_image"@, text_or_null(output.current_image)));
    assert(fields[9] == ("transition_target_image"@, text_or_null(output.transition_target_image)));
    assert(fields[10] == ("scale_mode"@, Json::Str(output.scale_mode.name())));
    assert(fields[11] == ("transition_state"@, response::state_json(output.transition_state)));
    assert(fields[12] == ("queue_depth"@, number(output.queue_depth as int)));
    assert(fields[13] == ("frame_callback_pending"@, Json::Bool(output.frame_callback_pending)));
    assert(fields[14] == ("render_pending"@, Json::Bool(output.render_pending)));
}

/// What an answer says of what an output shows.
pub proof fn law_output_message(output: OutputView)
    ensures
        says(response::output_json(output), "name"@, Json::Str(output.name)),
        says(response::output_json(output), "current_image"@, text_or_null(output.current_image)),
        says(response::output_json(output), "scale_mode"@, Json::Str(output.scale_mode.name())),
        says(
            response::output_json(output),
            "transition_state"@,
            response::state_json(output.transition_state),
        ),
        says(response::output_json(output), "queue_depth"@, number(output.queue_depth as int)),
{
    let fields = response::output_json(output)->Object_0;
    assert(fields[0] == ("name"@, Json::Str(output.name)));
    assert(fields[1] == ("current_image"@, text_or_null(output.current_image)));
    assert(fields[2] == ("scale_mode"@, Json::Str(output.scale_mode.name())));
    assert(fields[3] == ("transition_state"@, response::state_json(output.transition_state)));
    assert(fields[4] == ("queue_depth"@, number(output.queue_depth as int)));
}

/// What an answer says of the wallpaper of an output.
pub proof fn law_entry_message(entry: EntryView)
    ensures
        says(response::entry_json(entry), "index"@, number(entry.index as int)),
        says(response::entry_json(entry), "output"@, Json::Str(entry.output)),
        says(response::entry_json(entry), "favorite"@, Json::Bool(entry.favorite)),
        says(response::entry_json(entry), "path"@, Json::Str(entry.path)),
{
    let fields = response::entry_json(entry)->Object_0;
    assert(fields[0] == ("index"@, number(entry.index as int)));
    assert(fields[1] == ("output"@, Json::Str(entry.output)));
    assert(fields[2] == ("favorite"@, Json::Bool(entry.favorite)));
    assert(fields[3] == ("path"@, Json::Str(entry.path)));
}

/// What the answer to a ping says.
pub proof fn law_pong_message(version: u32)
    ensures
        says(response::response_json(ResponseView::Pong(version)), "status"@, Json::Str("ok"@)),
        says(response::response_json(ResponseView::Pong(version)), "type"@, Json::Str("pong"@)),
        says(
            response::response_json(ResponseView::Pong(version)),
            "version"@,
            number(version as int),
        ),
{
    let fields = response::response_json(ResponseView::Pong(version))->Object_0;
    assert(fields[0] == ("status"@, Json::Str("ok"@)));
    assert(fields[1] == ("type"@, Json::Str("pong"@)));
    assert(fields[2] == ("version"@, number(version as int)));
}

/// What the answer about transitions says.
pub proof fn law_capabilities_message(capabilities: CapabilitiesView)
    ensures
        says(
            response::response_json(ResponseView::Capabilities(capabilities)),
            "status"@,
            Json::Str("ok"@),
        ),
        says(
            response::response_json(ResponseView::Capabilities(capabilities)),
            "type"@,
            Json::Str("capabilities"@),
        ),
        says(
            response::response_json(ResponseView::Capabilities(capabilities)),
            "schema_version"@,
            number(capabilities.schema_version as int),
        ),
        says(
            response::response_json(ResponseView::Capabilities(capabilities)),
            "protocol_version"@,
            number(capabilities.protocol_version as int),
        ),
        says(
            response::response_json(ResponseView::Capabilities(capabilities)),
            "daemon_mode"@,
            Json::Str(capabilities.daemon_mode.name()),
        ),
        says(
            response::response_json(ResponseView::Capabilities(capabilities)),
            "transitions"@,
            response::capabilities_of_json(capabilities.transitions),
        ),
{
    let fields = response::response_json(ResponseView::Capabilities(capabilities))->Object_0;
    assert(fields[0] == ("status"@, Json::Str("ok"@)));
    assert(fields[1] == ("type"@, Json::Str("capabilities"@)));
    assert(fields[2] == ("schema_version"@, number(capabilities.schema_version as int)));
    assert(fields[3] == ("protocol_version"@, number(capabilities.protocol_version as int)));
    assert(fields[4] == ("daemon_mode"@, Json::Str(capabilities.daemon_mode.name())));
    assert(fields[5] == ("transitions"@, response::capabilities_of_json(capabilities.transitions)));
}

/// What an answer says that only confirms.
pub proof fn law_ack_message(message: Seq<char>)
    ensures
        says(response::response_json(ResponseView::Ack(message)), "status"@, Json::Str("ok"@)),
        says(response::response_json(ResponseView::Ack(message)), "type"@, Json::Str("ack"@)),
        says(response::response_json(ResponseView::Ack(message)), "message"@, Json::Str(message)),
{
    let fields = response::response_json(ResponseView::Ack(message))->Object_0;
    assert(fields[0] == ("status"@, Json::Str("ok"@)));
    assert(fields[1] == ("type"@, Json::Str("ack"@)));
    assert(fields[2] == ("message"@, Json::Str(message)));
}

/// What the answer about health says.
pub proof fn law_health_message(health: HealthView)
    ensures
        says(response::response_json(ResponseView::Health(health)), "status"@, Json::Str("ok"@)),
        says(response::response_json(ResponseView::Health(health)), "type"@, Json::Str("health"@)),
        says(
            response::response_json(ResponseView::Health(health)),
            "role"@,
            Json::Str(health.role),
        ),
        says(response::response_json(ResponseView::Health(health)), "supervisor_pid"@, match health.supervisor_pid {
            Some(pid) => number(pid as int),
            None => Json::Null,
        }),
        says(response::response_json(ResponseView::Health(health)), "renderer_pid"@, match health.renderer_pid {
            Some(pid) => number(pid as int),
            None => Json::Null,
        }),
        says(
            response::response_json(ResponseView::Health(health)),
            "renderer_generation"@,
            number(health.renderer_generation as int),
        ),
        says(
            response::response_json(ResponseView::Health(health)),
            "renderer_state"@,
            Json::Str(health.renderer_state),
        ),
        says(
            response::response_json(ResponseView::Health(health)),
            "restart_count"@,
            number(health.restart_count as int),
        ),
        says(
            response::response_json(ResponseView::Health(health)),
            "last_error"@,
            text_or_null(health.last_error),
        ),
        says(
            response::response_json(ResponseView::Health(health)),
            "last_diagnostic"@,
            text_or_null(health.last_diagnostic),
        ),
        says(
            response::response_json(ResponseView::Health(health)),
            "outputs"@,
            response::health_outputs_of_json(health.outputs),
        ),
{
    let fields = response::response_json(ResponseView::Health(health))->Object_0;
    assert(fields[0] == ("status"@, Json::Str("ok"@)));
    assert(fields[1] == ("type"@, Json::Str("health"@)));
    assert(fields[2] == ("role"@, Json::Str(health.role)));
    assert(fields[3] == ("supervisor_pid"@, match health.supervisor_pid {
            Some(pid) => number(pid as int),
            None => Json::Null,
        }));
    assert(fields[4] == ("renderer_pid"@, match health.renderer_pid {
            Some(pid) => number(pid as int),
            None => Json::Null,
        }));
    assert(fields[5] == ("renderer_generation"@, number(health.renderer_generation as int)));
    assert(fields[6] == ("renderer_state"@, Json::Str(health.renderer_state)));
    assert(fields[7] == ("restart_count"@, number(health.restart_count as int)));
    assert(fields[8] == ("last_error"@, text_or_null(health.last_error)));
    assert(fields[9] == ("last_diagnostic"@, text_or_null(health.last_diagnostic)));
    assert(fields[10] == ("outputs"@, response::health_outputs_of_json(health.outputs)));
}

/// What the answer about outputs says.
pub proof fn law_query_message(outputs: Seq<OutputView>)
    ensures
        says(response::response_json(ResponseView::Query(outputs)), "status"@, Json::Str("ok"@)),
        says(response::response_json(ResponseView::Query(outputs)), "type"@, Json::Str("query"@)),
        says(
            response::response_json(ResponseView::Query(outputs)),
            "outputs"@,
            response::output_states_of_json(outputs),
        ),
{
    let fields = response::response_json(ResponseView::Query(outputs))->Object_0;
    assert(fields[0] == ("status"@, Json::Str("ok"@)));
    assert(fields[1] == ("type"@, Json::Str("query"@)));
    assert(fields[2] == ("outputs"@, response::output_states_of_json(outputs)));
}

/// What the answer to an action on the library says.
pub proof fn law_wallpaper_answer(wallpaper: WallpaperView)
    ensures
        says(
            response::response_json(ResponseView::Wallpaper(wallpaper)),
            "status"@,
            Json::Str("ok"@),
        ),
        says(
            response::response_json(ResponseView::Wallpaper(wallpaper)),
            "type"@,
            Json::Str("wallpaper"@),
        ),
        says(
            response::response_json(ResponseView::Wallpaper(wallpaper)),
            "action"@,
            Json::Str(wallpaper.action),
        ),
        says(
            response::response_json(ResponseView::Wallpaper(wallpaper)),
            "message"@,
            Json::Str(wallpaper.message),
        ),
        says(
            response::response_json(ResponseView::Wallpaper(wallpaper)),
            "entries"@,
            response::entries_of_json(wallpaper.entries),
        ),
        says(
            response::response_json(ResponseView::Wallpaper(wallpaper)),
            "favorites"@,
            request::text_list_json(wallpaper.favorites),
        ),
{
    let fields = response::response_json(ResponseView::Wallpaper(wallpaper))->Object_0;
    assert(fields[0] == ("status"@, Json::Str("ok"@)));
    assert(fields[1] == ("type"@, Json::Str("wallpaper"@)));
    assert(fields[2] == ("action"@, Json::Str(wallpaper.action)));
    assert(fields[3] == ("message"@, Json::Str(wallpaper.message)));
    assert(fields[4] == ("entries"@, response::entries_of_json(wallpaper.entries)));
    assert(fields[5] == ("favorites"@, request::text_list_json(wallpaper.favorites)));
}

/// What the answer about the cache says.
pub proof fn law_cache_answer(cache: CacheView)
    ensures
        says(response::response_json(ResponseView::Cache(cache)), "status"@, Json::Str("ok"@)),
        says(response::response_json(ResponseView::Cache(cache)), "type"@, Json::Str("cache"@)),
        says(
            response::response_json(ResponseView::Cache(cache)),
            "action"@,
            Json::Str(cache.action),
        ),
        says(
            response::response_json(ResponseView::Cache(cache)),
            "message"@,
            Json::Str(cache.message),
        ),
        says(
            response::response_json(ResponseView::Cache(cache)),
            "ready"@,
            number(cache.ready as int),
        ),
        says(
            response::response_json(ResponseView::Cache(cache)),
            "pending"@,
            number(cache.pending as int),
        ),
        says(
            response::response_json(ResponseView::Cache(cache)),
            "scheduled"@,
            number(cache.scheduled as int),
        ),
        says(
            response::response_json(ResponseView::Cache(cache)),
            "failed"@,
            number(cache.failed as int),
        ),
        says(
            response::response_json(ResponseView::Cache(cache)),
            "backend"@,
            Json::Str(cache.backend),
        ),
{
    let fields = response::response_json(ResponseView::Cache(cache))->Object_0;
    assert(fields[0] == ("status"@, Json::Str("ok"@)));
    assert(fields[1] == ("type"@, Json::Str("cache"@)));
    assert(fields[2] == ("action"@, Json::Str(cache.action)));
    assert(fields[3] == ("message"@, Json::Str(cache.message)));
    assert(fields[4] == ("ready"@, number(cache.ready as int)));
    assert(fields[5] == ("pending"@, number(cache.pending as int)));
    assert(fields[6] == ("scheduled"@, number(cache.scheduled as int)));
    assert(fields[7] == ("failed"@, number(cache.failed as int)));
    assert(fields[8] == ("backend"@, Json::Str(cache.backend)));
}

/// What the answer to a request that failed says.
pub proof fn law_error_message(message: Seq<char>)
    ensures
        says(response::response_json(ResponseView::Error(message)), "status"@, Json::Str("error"@)),
        says(response::response_json(ResponseView::Error(message)), "message"@, Json::Str(message)),
{
    let fields = response::response_json(ResponseView::Error(message))->Object_0;
    assert(fields[0] == ("status"@, Json::Str("error"@)));
    assert(fields[1] == ("message"@, Json::Str(message)));
}

/// The names of the values of `PushDirection` in messages.
pub proof fn law_names_of_push_direction(value: PushDirection)
    ensures
        value.name() == match value {
                PushDirection::Up => "up"@,
                PushDirection::Down => "down"@,
                PushDirection::Left => "left"@,
                PushDirection::Right => "right"@,
        },
{
}

/// The names of the values of `PushMode` in messages.
pub proof fn law_names_of_push_mode(value: PushMode)
    ensures
        value.name() == match value {
                PushMode::Portal => "portal"@,
                PushMode::Screen => "screen"@,
                PushMode::Pan => "pan"@,
        },
{
}

/// The names of the values of `Easing` in messages.
pub proof fn law_names_of_easing(value: Easing)
    ensures
        value.name() == match value {
                Easing::Linear => "linear"@,
                Easing::EaseOutCubic => "ease-out-cubic"@,
                Easing::EaseInOutCubic => "ease-in-out-cubic"@,
        },
{
}

/// The names of the values of `ScaleMode` in messages.
pub proof fn law_names_of_scale_mode(value: ScaleMode)
    ensures
        value.name() == match value {
                ScaleMode::Fill => "fill"@,
                ScaleMode::Fit => "fit"@,
                ScaleMode::Center => "center"@,
                ScaleMode::Stretch => "stretch"@,
        },
{
}

/// The names of the values of `CacheWarmScope` in messages.
pub proof fn law_names_of_cache_warm_scope(value: CacheWarmScope)
    ensures
        value.name() == match value {
                CacheWarmScope::Current => "current"@,
                CacheWarmScope::All => "all"@,
        },
{
}

/// The names of the values of `CacheBackend` in messages.
pub proof fn law_names_of_cache_backend(value: CacheBackend)
    ensures
        value.name() == match value {
                CacheBackend::Auto => "auto"@,
                CacheBackend::Vips => "vips"@,
                CacheBackend::Internal => "internal"@,
        },
{
}

/// The names of the values of `CanvasPanAxis` in messages.
pub proof fn law_names_of_canvas_pan_axis(value: CanvasPanAxis)
    ensures
        value.name() == match value {
                CanvasPanAxis::Auto => "auto"@,
                CanvasPanAxis::Horizontal => "horizontal"@,
                CanvasPanAxis::Vertical => "vertical"@,
        },
{
}

/// The names of the values of `CanvasWalk` in messages.
pub proof fn law_names_of_canvas_walk(value: CanvasWalk)
    ensures
        value.name() == match value {
                CanvasWalk::Paged => "paged"@,
                CanvasWalk::Strip => "strip"@,
        },
{
}

/// The names of the values of `CanvasMode` in messages.
pub proof fn law_names_of_canvas_mode(value: CanvasMode)
    ensures
        value.name() == match value {
                CanvasMode::Clipped => "clipped"@,
                CanvasMode::Morph => "morph"@,
                CanvasMode::Overlap => "overlap"@,
                CanvasMode::Collage => "collage"@,
                CanvasMode::Span => "span"@,
        },
{
}

/// The names of the values of `DaemonMode` in messages.
pub proof fn law_names_of_daemon_mode(value: DaemonMode)
    ensures
        value.name() == match value {
                DaemonMode::Supervisor => "supervisor"@,
                DaemonMode::Standalone => "standalone"@,
        },
{
}

/// The names of the values of `TransitionClass` in messages.
pub proof fn law_names_of_transition_class(value: TransitionClass)
    ensures
        value.name() == match value {
                TransitionClass::Immediate => "immediate"@,
                TransitionClass::Pairwise => "pairwise"@,
                TransitionClass::Scene => "scene"@,
        },
{
}

/// The names of the values of `TransitionParameterType` in messages.
pub proof fn law_names_of_transition_parameter_type(value: TransitionParameterType)
    ensures
        value.name() == match value {
                TransitionParameterType::Integer => "integer"@,
                TransitionParameterType::Number => "number"@,
                TransitionParameterType::Enum => "enum"@,
                TransitionParameterType::IntegerOrEnum => "integer-or-enum"@,
        },
{
}

/// The names of the values of `TransitionKind` in messages.
pub proof fn law_names_of_transition_kind(value: TransitionKind)
    ensures
        value.name() == match value {
                TransitionKind::Cut => "cut"@,
                TransitionKind::Fade => "fade"@,
                TransitionKind::Push => "push"@,
                TransitionKind::Canvas => "canvas"@,
                TransitionKind::World => "world"@,
        },
{
}

/// The names of the values of `WallpaperAction` in messages.
pub proof fn law_names_of_wallpaper_action(value: WallpaperAction)
    ensures
        value.name() == match value {
                WallpaperAction::Next => "next"@,
                WallpaperAction::Back => "back"@,
                WallpaperAction::ShiftForward => "shift-forward"@,
                WallpaperAction::ShiftBack => "shift-back"@,
                WallpaperAction::Replace { .. } => "replace"@,
                WallpaperAction::Quarantine { .. } => "quarantine"@,
                WallpaperAction::Favorite { .. } => "favorite"@,
                WallpaperAction::Unfavorite { .. } => "unfavorite"@,
                WallpaperAction::Favorites => "favorites"@,
                WallpaperAction::Current => "current"@,
                WallpaperAction::Rescan => "rescan"@,
        },
{
}

// ---------------------------------------------------------------------------
// What is left out

/// Whether an object says nothing under a name.
pub open spec fn lacks(fields: Seq<(Seq<char>, Json)>, name: Seq<char>) -> bool {
    textmap::entries_get(fields, name) is None
}

/// A transition of which only the kind is said takes 900 milliseconds and slows down towards its
/// end; a push that is also told its way goes through a portal.
pub proof fn law_transitions_without_details(
    fields: Seq<(Seq<char>, Json)>,
    kind: TransitionKind,
    direction: PushDirection,
)
    requires
        textmap::entries_get(fields, "type"@) == Some(Json::Str(kind.name())),
        lacks(fields, "duration_ms"@),
        lacks(fields, "easing"@),
        lacks(fields, "mode"@),
    ensures
        kind is Cut ==> request::transition_in_fields(fields) == Ok::<Transition, Seq<char>>(
            Transition::Cut,
        ),
        kind is Fade ==> request::transition_in_fields(fields) == Ok::<Transition, Seq<char>>(
            Transition::Fade { duration_ms: 900, easing: Easing::EaseOutCubic },
        ),
        kind is World ==> request::transition_in_fields(fields) == Ok::<Transition, Seq<char>>(
            Transition::World { duration_ms: 900, easing: Easing::EaseOutCubic },
        ),
        kind is Push && textmap::entries_get(fields, "direction"@) == Some(
            Json::Str(direction.name()),
        ) ==> request::transition_in_fields(fields) == Ok::<Transition, Seq<char>>(
            Transition::Push {
                direction,
                duration_ms: 900,
                easing: Easing::EaseOutCubic,
                mode: PushMode::Portal,
            },
        ),
        kind is Push && lacks(fields, "direction"@) ==> request::transition_in_fields(fields)
            is Err,
{
    kind.law_round_trip();
    direction.law_round_trip();
}

/// A canvas of which nothing more is said.
pub proof fn law_canvas_without_details(fields: Seq<(Seq<char>, Json)>)
    requires
        textmap::entries_get(fields, "type"@) == Some(Json::Str("canvas"@)),
        lacks(fields, "duration_ms"@),
        lacks(fields, "easing"@),
        lacks(fields, "zoom_out_ms"@),
        lacks(fields, "pan_ms"@),
        lacks(fields, "zoom_in_ms"@),
        lacks(fields, "mode"@),
        lacks(fields, "walk"@),
        lacks(fields, "pan_axis"@),
        lacks(fields, "overview_scale"@),
        lacks(fields, "tile_count"@),
        lacks(fields, "max_tile_count"@),
    ensures
        request::transition_in_fields(fields) == Ok::<Transition, Seq<char>>(
            Transition::Canvas {
                zoom_out_ms: 180,
                pan_ms: 80,
                zoom_in_ms: 260,
                easing: Easing::EaseOutCubic,
                mode: CanvasMode::Clipped,
                walk: CanvasWalk::Paged,
                pan_axis: CanvasPanAxis::Auto,
                overview_scale: protocol::default_scale(),
                tile_count: CanvasTileCount::Auto { max: None },
            },
        ),
{
    TransitionKind::Canvas.law_round_trip();
}

/// A request to show wallpapers of which only the outputs are said cuts, fills the outputs and
/// takes all of them or none.
pub proof fn law_set_without_details(fields: Seq<(Seq<char>, Json)>)
    requires
        lacks(fields, "transition"@),
        lacks(fields, "scale_mode"@),
        lacks(fields, "allow_partial"@),
    ensures
        match request::outputs_field(fields) {
            Ok(outputs) => request::set_in(fields, false) == Ok::<SetView, Seq<char>>(
                SetView {
                    outputs,
                    transition: Transition::Cut,
                    scale_mode: ScaleMode::Fill,
                    allow_partial: false,
                },
            ),
            Err(message) => request::set_in(fields, false) == Err::<SetView, Seq<char>>(message),
        },
        request::set_in(fields, true) is Err,
{
}

/// A request to fill the cache of which no more is said is about what is shown, with one worker.
/// No request can ask for no worker.
pub proof fn law_warm_without_details(fields: Seq<(Seq<char>, Json)>)
    requires
        textmap::entries_get(fields, "action"@) == Some(Json::Str("warm"@)),
        lacks(fields, "scope"@),
        lacks(fields, "backend"@),
    ensures
        lacks(fields, "workers"@) ==> request::cache_in(fields) == Ok::<CacheRequest, Seq<char>>(
            CacheRequest {
                action: CacheAction::Warm {
                    scope: CacheWarmScope::Current,
                    workers: 1,
                    backend: CacheBackend::Auto,
                },
            },
        ),
        textmap::entries_get(fields, "workers"@) == Some(Json::Number("0"@))
            ==> request::cache_in(fields) is Err,
{
    reveal_strlit("warm");
    reveal_strlit("status");
    reveal_strlit("clear");
    reveal_strlit("0");
    assert("warm"@.len() == 4 && "status"@.len() == 6 && "clear"@.len() == 5);
    assert("0"@ =~= text::decimal_text(0)) by {
        assert(text::decimal_text(0) =~= seq!['0']);
    }
    text::lemma_decimal_round_trip(0, usize::MAX as nat, IntError::PosOverflow);
}

/// A request to show a color of which no color is said shows black, on every output where none
/// is said.
pub proof fn law_clear_without_details(fields: Seq<(Seq<char>, Json)>)
    requires
        lacks(fields, "outputs"@),
        lacks(fields, "color"@),
    ensures
        request::clear_in(fields) == Ok::<ClearView, Seq<char>>(
            ClearView { outputs: Seq::empty(), color: "#000000"@ },
        ),
{
}

} // verus!
