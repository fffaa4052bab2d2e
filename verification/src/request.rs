//! The requests of the wire protocol and their JSON form.

use crate::error::ProtocolError;
use crate::fields::{
    flag_or, missing_field, optional_string, optional_usize, parse_json_unsigned, required_string,
    required_u32, required_u64, required_usize, strings_or_none, text_or, u64_or, usize_or,
};
use crate::json::{field, parse_json, ArrayText, Json, JsonText, JsonValue, ObjectText, Shape};
use crate::protocol::{
    default_overview_scale, validate_canvas_mode_walk, validate_positive_milliseconds, CacheAction,
    CacheBackend, CacheWarmScope, CanvasMode, CanvasPanAxis, CanvasTileCount, CanvasWalk, Easing,
    PushDirection, PushMode, ScaleMode, Transition, TransitionKind, WallpaperAction,
    DEFAULT_CANVAS_CACHE_WORKERS, DEFAULT_CANVAS_IN_MS, DEFAULT_CANVAS_OUT_MS,
    DEFAULT_CANVAS_PAN_MS, DEFAULT_DURATION_MS, MAX_CANVAS_TILE_COUNT,
};
use crate::scale::{format_overview_scale, read_scale, OverviewScale, ScaleReading};
use crate::text::{concat2, concat3, copy_text, text_eq};
use crate::textmap::TextMap;
use crate::json;
use crate::scale;
use crate::text;
use crate::textmap;
use crate::error;
use crate::fields;
use crate::protocol;
use vstd::prelude::*;

verus! {

/// Set one or more outputs to explicit image paths.
#[derive(Clone, Debug, PartialEq)]
pub struct SetRequest {
    pub outputs: TextMap<String>,
    pub transition: Transition,
    pub scale_mode: ScaleMode,
    pub allow_partial: bool,
}

/// Internal renderer request for canvas sets planned by the supervisor.
#[derive(Clone, Debug, PartialEq)]
pub struct RenderCanvasSetRequest {
    pub outputs: TextMap<String>,
    pub transition: Transition,
    pub scale_mode: ScaleMode,
    pub allow_partial: bool,
    pub preview_paths: Vec<String>,
    pub preview_start: usize,
}

/// Internal renderer request for compact world-transition sets planned by the supervisor.
#[derive(Clone, Debug, PartialEq)]
pub struct RenderWorldSetRequest {
    pub outputs: TextMap<String>,
    pub transition: Transition,
    pub scale_mode: ScaleMode,
    pub allow_partial: bool,
    pub library_count: usize,
    pub columns: usize,
    pub fingerprint: u64,
    pub thumbnail_edge: u32,
    pub tile_cells: usize,
    pub routes: TextMap<WorldRouteFocus>,
}

/// Per-output route indices into the canonical row-major world.
#[derive(Clone, Copy, Debug, PartialEq, Eq, Structural)]
pub struct WorldRouteFocus {
    pub current_index: usize,
    pub target_index: usize,
    pub lod: usize,
}

/// Decode/upload images without displaying them yet.
#[derive(Clone, Debug, PartialEq, Eq)]
pub struct PreloadRequest {
    pub outputs: TextMap<String>,
}

/// Clear outputs to a solid color.
#[derive(Clone, Debug, PartialEq, Eq)]
pub struct ClearRequest {
    pub outputs: Vec<String>,
    pub color: String,
}

/// High-level wallpaper-library action.
#[derive(Clone, Copy, Debug, PartialEq, Eq, Structural)]
pub struct WallpaperRequest {
    pub action: WallpaperAction,
    pub transition: Option<Transition>,
    pub scale_mode: Option<ScaleMode>,
}

/// Canvas thumbnail cache request.
#[derive(Clone, Copy, Debug, PartialEq, Eq, Structural)]
pub struct CacheRequest {
    pub action: CacheAction,
}

/// A request sent from a client to the daemon.
#[derive(Clone, Debug, PartialEq)]
pub enum Request {
    Ping,
    Capabilities,
    Health,
    Query,
    SetOutputs(SetRequest),
    Preload(PreloadRequest),
    Clear(ClearRequest),
    Wallpaper(WallpaperRequest),
    Cache(CacheRequest),
    RenderCanvasSet(RenderCanvasSetRequest),
    RenderWorldSet(RenderWorldSetRequest),
    Stop,
}

/// A set request, as a mathematical value.
pub struct SetView {
    pub outputs: Seq<(Seq<char>, Seq<char>)>,
    pub transition: Transition,
    pub scale_mode: ScaleMode,
    pub allow_partial: bool,
}

/// A clear request, as a mathematical value.
pub struct ClearView {
    pub outputs: Seq<Seq<char>>,
    pub color: Seq<char>,
}

/// The part of a canvas request that is not a set request, as a mathematical value.
pub struct PreviewView {
    pub paths: Seq<Seq<char>>,
    pub start: usize,
}

/// The part of a world request that is not a set request, as a mathematical value.
pub struct WorldView {
    pub library_count: usize,
    pub columns: usize,
    pub fingerprint: u64,
    pub thumbnail_edge: u32,
    pub tile_cells: usize,
    pub routes: Seq<(Seq<char>, WorldRouteFocus)>,
}

/// A request, as a mathematical value.
pub enum RequestView {
    Ping,
    Capabilities,
    Health,
    Query,
    SetOutputs(SetView),
    Preload(Seq<(Seq<char>, Seq<char>)>),
    Clear(ClearView),
    Wallpaper(WallpaperRequest),
    Cache(CacheRequest),
    RenderCanvasSet(SetView, PreviewView),
    RenderWorldSet(SetView, WorldView),
    Stop,
}

impl View for SetRequest {
    type V = SetView;

    open spec fn view(&self) -> SetView {
        SetView {
            outputs: textmap::text_entries(self.outputs),
            transition: self.transition,
            scale_mode: self.scale_mode,
            allow_partial: self.allow_partial,
        }
    }
}

impl View for ClearRequest {
    type V = ClearView;

    open spec fn view(&self) -> ClearView {
        ClearView { outputs: text::texts(self.outputs@), color: self.color@ }
    }
}

impl View for RenderCanvasSetRequest {
    type V = (SetView, PreviewView);

    open spec fn view(&self) -> (SetView, PreviewView) {
        (
            SetView {
                outputs: textmap::text_entries(self.outputs),
                transition: self.transition,
                scale_mode: self.scale_mode,
                allow_partial: self.allow_partial,
            },
            PreviewView { paths: text::texts(self.preview_paths@), start: self.preview_start },
        )
    }
}

impl View for RenderWorldSetRequest {
    type V = (SetView, WorldView);

    open spec fn view(&self) -> (SetView, WorldView) {
        (
            SetView {
                outputs: textmap::text_entries(self.outputs),
                transition: self.transition,
                scale_mode: self.scale_mode,
                allow_partial: self.allow_partial,
            },
            WorldView {
                library_count: self.library_count,
                columns: self.columns,
                fingerprint: self.fingerprint,
                thumbnail_edge: self.thumbnail_edge,
                tile_cells: self.tile_cells,
                routes: self.routes.raw(),
            },
        )
    }
}

impl View for Request {
    type V = RequestView;

    open spec fn view(&self) -> RequestView {
        match self {
            Request::Ping => RequestView::Ping,
            Request::Capabilities => RequestView::Capabilities,
            Request::Health => RequestView::Health,
            Request::Query => RequestView::Query,
            Request::SetOutputs(request) => RequestView::SetOutputs(request@),
            Request::Preload(request) => RequestView::Preload(textmap::text_entries(request.outputs)),
            Request::Clear(request) => RequestView::Clear(request@),
            Request::Wallpaper(request) => RequestView::Wallpaper(*request),
            Request::Cache(request) => RequestView::Cache(*request),
            Request::RenderCanvasSet(request) => RequestView::RenderCanvasSet(
                request@.0,
                request@.1,
            ),
            Request::RenderWorldSet(request) => RequestView::RenderWorldSet(request@.0, request@.1),
            Request::Stop => RequestView::Stop,
        }
    }
}

// ---------------------------------------------------------------------------
// Writing

/// The JSON form of a number.
pub open spec fn number_json(n: nat) -> Json {
    Json::Number(text::decimal_text(n))
}

/// The JSON form of a transition.
pub open spec fn transition_json(transition: Transition) -> Json {
    match transition {
        Transition::Cut => Json::Object(seq![("type"@, Json::Str("cut"@))]),
        Transition::Fade { duration_ms, easing } => Json::Object(
            seq![
                ("type"@, Json::Str("fade"@)),
                ("duration_ms"@, number_json(duration_ms as nat)),
                ("easing"@, Json::Str(easing.name())),
            ],
        ),
        Transition::World { duration_ms, easing } => Json::Object(
            seq![
                ("type"@, Json::Str("world"@)),
                ("duration_ms"@, number_json(duration_ms as nat)),
                ("easing"@, Json::Str(easing.name())),
            ],
        ),
        Transition::Push { direction, duration_ms, easing, mode } => Json::Object(
            seq![
                ("type"@, Json::Str("push"@)),
                ("direction"@, Json::Str(direction.name())),
                ("duration_ms"@, number_json(duration_ms as nat)),
                ("easing"@, Json::Str(easing.name())),
                ("mode"@, Json::Str(mode.name())),
            ],
        ),
        Transition::Canvas {
            zoom_out_ms,
            pan_ms,
            zoom_in_ms,
            easing,
            mode,
            walk,
            pan_axis,
            overview_scale,
            tile_count,
        } => {
            let fields = seq![
                ("type"@, Json::Str("canvas"@)),
                ("zoom_out_ms"@, number_json(zoom_out_ms as nat)),
                ("pan_ms"@, number_json(pan_ms as nat)),
                ("zoom_in_ms"@, number_json(zoom_in_ms as nat)),
                ("easing"@, Json::Str(easing.name())),
                ("mode"@, Json::Str(mode.name())),
                ("walk"@, Json::Str(walk.name())),
                ("pan_axis"@, Json::Str(pan_axis.name())),
                ("overview_scale"@, Json::Number(scale::scale_text(overview_scale))),
            ];
            Json::Object(
                match tile_count {
                    CanvasTileCount::Auto { max: None } => fields.push(
                        ("tile_count"@, Json::Str("auto"@)),
                    ),
                    CanvasTileCount::Auto { max: Some(max) } => fields.push(
                        ("tile_count"@, Json::Str("auto"@)),
                    ).push(("max_tile_count"@, number_json(max as nat))),
                    CanvasTileCount::Fixed(count) => fields.push(
                        ("tile_count"@, number_json(count as nat)),
                    ),
                },
            )
        },
    }
}

/// The JSON form of a wallpaper action.
pub open spec fn action_json(action: WallpaperAction) -> Json {
    match action.index() {
        Some(index) => Json::Object(
            seq![
                ("type"@, Json::Str(action.name())),
                ("index"@, number_json(index as nat)),
            ],
        ),
        None => Json::Str(action.name()),
    }
}

/// The JSON form of a map from texts to texts.
pub open spec fn text_map_json(entries: Seq<(Seq<char>, Seq<char>)>) -> Json {
    Json::Object(Seq::new(entries.len(), |i: int| (entries[i].0, Json::Str(entries[i].1))))
}

/// The JSON form of a list of texts.
pub open spec fn text_list_json(list: Seq<Seq<char>>) -> Json {
    Json::Array(Seq::new(list.len(), |i: int| Json::Str(list[i])))
}

/// The JSON form of a route.
pub open spec fn route_json(focus: WorldRouteFocus) -> Json {
    Json::Object(
        seq![
            ("current_index"@, number_json(focus.current_index as nat)),
            ("target_index"@, number_json(focus.target_index as nat)),
            ("lod"@, number_json(focus.lod as nat)),
        ],
    )
}

/// The JSON form of a map of routes.
pub open spec fn route_map_json(entries: Seq<(Seq<char>, WorldRouteFocus)>) -> Json {
    Json::Object(Seq::new(entries.len(), |i: int| (entries[i].0, route_json(entries[i].1))))
}

/// The fields that all set requests share.
pub open spec fn set_fields(kind: Seq<char>, set: SetView) -> Seq<(Seq<char>, Json)> {
    seq![
        ("type"@, Json::Str(kind)),
        ("outputs"@, text_map_json(set.outputs)),
        ("transition"@, transition_json(set.transition)),
        ("scale_mode"@, Json::Str(set.scale_mode.name())),
        ("allow_partial"@, Json::Bool(set.allow_partial)),
    ]
}

/// The JSON form of a request.
pub open spec fn request_json(request: RequestView) -> Json {
    match request {
        RequestView::Ping => Json::Object(seq![("type"@, Json::Str("ping"@))]),
        RequestView::Capabilities => Json::Object(seq![("type"@, Json::Str("capabilities"@))]),
        RequestView::Health => Json::Object(seq![("type"@, Json::Str("health"@))]),
        RequestView::Query => Json::Object(seq![("type"@, Json::Str("query"@))]),
        RequestView::Stop => Json::Object(seq![("type"@, Json::Str("stop"@))]),
        RequestView::SetOutputs(set) => Json::Object(set_fields("set"@, set)),
        RequestView::Preload(outputs) => Json::Object(
            seq![("type"@, Json::Str("preload"@)), ("outputs"@, text_map_json(outputs))],
        ),
        RequestView::Clear(clear) => Json::Object(
            seq![
                ("type"@, Json::Str("clear"@)),
                ("outputs"@, text_list_json(clear.outputs)),
                ("color"@, Json::Str(clear.color)),
            ],
        ),
        RequestView::Wallpaper(wallpaper) => Json::Object(
            seq![
                ("type"@, Json::Str("wallpaper"@)),
                ("action"@, action_json(wallpaper.action)),
                (
                    "transition"@,
                    match wallpaper.transition {
                        Some(transition) => transition_json(transition),
                        None => Json::Null,
                    },
                ),
                (
                    "scale_mode"@,
                    match wallpaper.scale_mode {
                        Some(scale_mode) => Json::Str(scale_mode.name()),
                        None => Json::Null,
                    },
                ),
            ],
        ),
        RequestView::Cache(cache) => match cache.action {
            CacheAction::Status => Json::Object(
                seq![("type"@, Json::Str("cache"@)), ("action"@, Json::Str("status"@))],
            ),
            CacheAction::Clear => Json::Object(
                seq![("type"@, Json::Str("cache"@)), ("action"@, Json::Str("clear"@))],
            ),
            CacheAction::Warm { scope, workers, backend } => Json::Object(
                seq![
                    ("type"@, Json::Str("cache"@)),
                    ("action"@, Json::Str("warm"@)),
                    ("scope"@, Json::Str(scope.name())),
                    ("workers"@, number_json(workers as nat)),
                    ("backend"@, Json::Str(backend.name())),
                ],
            ),
        },
        RequestView::RenderCanvasSet(set, preview) => Json::Object(
            set_fields("renderer_canvas_set"@, set).push(
                ("preview_paths"@, text_list_json(preview.paths)),
            ).push(("preview_start"@, number_json(preview.start as nat))),
        ),
        RequestView::RenderWorldSet(set, world) => Json::Object(
            set_fields("renderer_world_set"@, set).push(
                ("library_count"@, number_json(world.library_count as nat)),
            ).push(("columns"@, number_json(world.columns as nat))).push(
                ("fingerprint"@, number_json(world.fingerprint as nat)),
            ).push(("thumbnail_edge"@, number_json(world.thumbnail_edge as nat))).push(
                ("tile_cells"@, number_json(world.tile_cells as nat)),
            ).push(("routes"@, route_map_json(world.routes))),
        ),
    }
}

/// Writes a transition.
pub fn encode_transition(transition: Transition) -> (result: JsonText)
    ensures
        result.tree() == transition_json(transition),
{
    let object = ObjectText::new();
    match transition {
        Transition::Cut => object.add("type", JsonText::string("cut")).finish(Ghost(transition_json(transition))),
        Transition::Fade { duration_ms, easing } => object.add(
            "type",
            JsonText::string("fade"),
        ).add("duration_ms", JsonText::unsigned(duration_ms)).add(
            "easing",
            JsonText::string(easing.as_str()),
        ).finish(Ghost(transition_json(transition))),
        Transition::World { duration_ms, easing } => object.add(
            "type",
            JsonText::string("world"),
        ).add("duration_ms", JsonText::unsigned(duration_ms)).add(
            "easing",
            JsonText::string(easing.as_str()),
        ).finish(Ghost(transition_json(transition))),
        Transition::Push { direction, duration_ms, easing, mode } => object.add(
            "type",
            JsonText::string("push"),
        ).add("direction", JsonText::string(direction.as_str())).add(
            "duration_ms",
            JsonText::unsigned(duration_ms),
        ).add("easing", JsonText::string(easing.as_str())).add(
            "mode",
            JsonText::string(mode.as_str()),
        ).finish(Ghost(transition_json(transition))),
        Transition::Canvas {
            zoom_out_ms,
            pan_ms,
            zoom_in_ms,
            easing,
            mode,
            walk,
            pan_axis,
            overview_scale,
            tile_count,
        } => {
            let object = object.add("type", JsonText::string("canvas")).add(
                "zoom_out_ms",
                JsonText::unsigned(zoom_out_ms),
            ).add("pan_ms", JsonText::unsigned(pan_ms)).add(
                "zoom_in_ms",
                JsonText::unsigned(zoom_in_ms),
            ).add("easing", JsonText::string(easing.as_str())).add(
                "mode",
                JsonText::string(mode.as_str()),
            ).add("walk", JsonText::string(walk.as_str())).add(
                "pan_axis",
                JsonText::string(pan_axis.as_str()),
            ).add("overview_scale", JsonText::number(format_overview_scale(overview_scale)));
            match tile_count {
                CanvasTileCount::Auto { max } => {
                    let object = object.add("tile_count", JsonText::string("auto"));
                    match max {
                        Some(max) => object.add("max_tile_count", JsonText::size(max)).finish(Ghost(transition_json(transition))),
                        None => object.finish(Ghost(transition_json(transition))),
                    }
                },
                CanvasTileCount::Fixed(count) => object.add(
                    "tile_count",
                    JsonText::size(count),
                ).finish(Ghost(transition_json(transition))),
            }
        },
    }
}

fn encode_wallpaper_action(action: WallpaperAction) -> (result: JsonText)
    ensures
        result.tree() == action_json(action),
{
    match action {
        WallpaperAction::Replace { index }
        | WallpaperAction::Quarantine { index }
        | WallpaperAction::Favorite { index }
        | WallpaperAction::Unfavorite { index } => ObjectText::new().add(
            "type",
            JsonText::string(action.as_str()),
        ).add("index", JsonText::size(index)).finish(Ghost(action_json(action))),
        _ => JsonText::string(action.as_str()),
    }
}

/// Writes a map from texts to texts.
pub fn encode_string_map(map: &TextMap<String>) -> (result: JsonText)
    ensures
        result.tree() == text_map_json(textmap::text_entries(*map)),
{
    let ghost entries = textmap::text_entries(*map);
    let ghost all = Seq::new(entries.len(), |i: int| (entries[i].0, Json::Str(entries[i].1)));
    let mut object = ObjectText::new();
    let mut i: usize = 0;
    assert(object.fields() =~= all.take(0));
    while i < map.len()
        invariant
            i <= map.raw().len(),
            entries == textmap::text_entries(*map),
            all == Seq::new(entries.len(), |k: int| (entries[k].0, Json::Str(entries[k].1))),
            object.fields() == all.take(i as int),
        decreases map.raw().len() - i,
    {
        object = object.add(map.key_at(i), JsonText::string(map.value_at(i).as_str()));
        i = i + 1;
        assert(object.fields() =~= all.take(i as int));
    }
    assert(all.take(i as int) =~= all);
    object.done()
}

fn encode_world_route_map(map: &TextMap<WorldRouteFocus>) -> (result: JsonText)
    ensures
        result.tree() == route_map_json(map.raw()),
{
    let ghost entries = map.raw();
    let ghost all = Seq::new(entries.len(), |i: int| (entries[i].0, route_json(entries[i].1)));
    let mut object = ObjectText::new();
    let mut i: usize = 0;
    assert(object.fields() =~= all.take(0));
    while i < map.len()
        invariant
            i <= map.raw().len(),
            entries == map.raw(),
            all == Seq::new(entries.len(), |k: int| (entries[k].0, route_json(entries[k].1))),
            object.fields() == all.take(i as int),
        decreases map.raw().len() - i,
    {
        let focus = map.value_at(i);
        let route = ObjectText::new().add("current_index", JsonText::size(focus.current_index)).add(
            "target_index",
            JsonText::size(focus.target_index),
        ).add("lod", JsonText::size(focus.lod)).finish(Ghost(route_json(*focus)));
        object = object.add(map.key_at(i), route);
        i = i + 1;
        assert(object.fields() =~= all.take(i as int));
    }
    assert(all.take(i as int) =~= all);
    object.done()
}

/// Writes a list of texts.
pub fn encode_string_array(values: &Vec<String>) -> (result: JsonText)
    ensures
        result.tree() == text_list_json(text::texts(values@)),
{
    let ghost list = text::texts(values@);
    let ghost all = Seq::new(list.len(), |i: int| Json::Str(list[i]));
    let mut array = ArrayText::new();
    let mut i: usize = 0;
    assert(array.values() =~= all.take(0));
    while i < values.len()
        invariant
            i <= values@.len(),
            list == text::texts(values@),
            all == Seq::new(list.len(), |k: int| Json::Str(list[k])),
            array.values() == all.take(i as int),
        decreases values@.len() - i,
    {
        array = array.add(JsonText::string(values[i].as_str()));
        i = i + 1;
        assert(array.values() =~= all.take(i as int));
    }
    assert(all.take(i as int) =~= all);
    array.done()
}

fn encode_set_fields(
    kind: &str,
    outputs: &TextMap<String>,
    transition: Transition,
    scale_mode: ScaleMode,
    allow_partial: bool,
) -> (object: ObjectText)
    ensures
        object.fields() == set_fields(
            kind@,
            (SetView { outputs: textmap::text_entries(*outputs), transition, scale_mode, allow_partial }),
        ),
{
    ObjectText::new().add("type", JsonText::string(kind)).add(
        "outputs",
        encode_string_map(outputs),
    ).add("transition", encode_transition(transition)).add(
        "scale_mode",
        JsonText::string(scale_mode.as_str()),
    ).add("allow_partial", JsonText::boolean(allow_partial))
}

impl Request {
    /// Serialize this request as compact JSON.
    pub fn to_json(&self) -> (text: String)
        ensures
            text@ == json::encoded(request_json(self@)),
    {
        let object = ObjectText::new();
        let result = match self {
            Request::Ping => object.add("type", JsonText::string("ping")).finish(Ghost(request_json(self@))),
            Request::Capabilities => object.add(
                "type",
                JsonText::string("capabilities"),
            ).finish(Ghost(request_json(self@))),
            Request::Health => object.add("type", JsonText::string("health")).finish(Ghost(request_json(self@))),
            Request::Query => object.add("type", JsonText::string("query")).finish(Ghost(request_json(self@))),
            Request::Stop => object.add("type", JsonText::string("stop")).finish(Ghost(request_json(self@))),
            Request::SetOutputs(request) => encode_set_fields(
                "set",
                &request.outputs,
                request.transition,
                request.scale_mode,
                request.allow_partial,
            ).finish(Ghost(request_json(self@))),
            Request::Preload(request) => object.add("type", JsonText::string("preload")).add(
                "outputs",
                encode_string_map(&request.outputs),
            ).finish(Ghost(request_json(self@))),
            Request::Clear(request) => object.add("type", JsonText::string("clear")).add(
                "outputs",
                encode_string_array(&request.outputs),
            ).add(
                "color",
                JsonText::string(request.color.as_str()),
            ).finish(Ghost(request_json(self@))),
            Request::Wallpaper(request) => object.add(
                "type",
                JsonText::string("wallpaper"),
            ).add("action", encode_wallpaper_action(request.action)).add(
                "transition",
                match request.transition {
                    Some(transition) => encode_transition(transition),
                    None => JsonText::null(),
                },
            ).add(
                "scale_mode",
                match request.scale_mode {
                    Some(scale_mode) => JsonText::string(scale_mode.as_str()),
                    None => JsonText::null(),
                },
            ).finish(Ghost(request_json(self@))),
            Request::Cache(request) => {
                let object = object.add("type", JsonText::string("cache"));
                match request.action {
                    CacheAction::Status => object.add(
                        "action",
                        JsonText::string("status"),
                    ).finish(Ghost(request_json(self@))),
                    CacheAction::Clear => object.add("action", JsonText::string("clear")).finish(Ghost(request_json(self@))),
                    CacheAction::Warm { scope, workers, backend } => object.add(
                        "action",
                        JsonText::string("warm"),
                    ).add("scope", JsonText::string(scope.as_str())).add(
                        "workers",
                        JsonText::size(workers),
                    ).add(
                        "backend",
                        JsonText::string(backend.as_str()),
                    ).finish(Ghost(request_json(self@))),
                }
            },
            Request::RenderCanvasSet(request) => encode_set_fields(
                "renderer_canvas_set",
                &request.outputs,
                request.transition,
                request.scale_mode,
                request.allow_partial,
            ).add("preview_paths", encode_string_array(&request.preview_paths)).add(
                "preview_start",
                JsonText::size(request.preview_start),
            ).finish(Ghost(request_json(self@))),
            Request::RenderWorldSet(request) => encode_set_fields(
                "renderer_world_set",
                &request.outputs,
                request.transition,
                request.scale_mode,
                request.allow_partial,
            ).add("library_count", JsonText::size(request.library_count)).add(
                "columns",
                JsonText::size(request.columns),
            ).add("fingerprint", JsonText::unsigned(request.fingerprint)).add(
                "thumbnail_edge",
                JsonText::unsigned(request.thumbnail_edge as u64),
            ).add("tile_cells", JsonText::size(request.tile_cells)).add(
                "routes",
                encode_world_route_map(&request.routes),
            ).finish(Ghost(request_json(self@))),
        };
        result.into_text()
    }
}

// ---------------------------------------------------------------------------
// Reading

/// The easing of a transition.
pub open spec fn easing_field(fields: Seq<(Seq<char>, Json)>) -> Result<Easing, Seq<char>> {
    match fields::text_field_if(fields, "easing"@) {
        Err(message) => Err(message),
        Ok(None) => Ok(Easing::EaseOutCubic),
        Ok(Some(name)) => Easing::named(name),
    }
}

fn read_easing_field(object: &TextMap<JsonValue>) -> (result: Result<Easing, ProtocolError>)
    ensures
        error::agrees(result, easing_field(json::fields_of(object))),
{
    match optional_string(object, "easing")? {
        None => Ok(Easing::EaseOutCubic),
        Some(name) => Easing::parse(name),
    }
}

/// The mode of a push transition.
pub open spec fn push_mode_field(fields: Seq<(Seq<char>, Json)>) -> Result<PushMode, Seq<char>> {
    match fields::text_field_if(fields, "mode"@) {
        Err(message) => Err(message),
        Ok(None) => Ok(PushMode::Portal),
        Ok(Some(name)) => PushMode::named(name),
    }
}

fn read_push_mode_field(object: &TextMap<JsonValue>) -> (result: Result<PushMode, ProtocolError>)
    ensures
        error::agrees(result, push_mode_field(json::fields_of(object))),
{
    match optional_string(object, "mode")? {
        None => Ok(PushMode::Portal),
        Some(name) => PushMode::parse(name),
    }
}

/// The mode of a canvas transition.
pub open spec fn canvas_mode_field(fields: Seq<(Seq<char>, Json)>) -> Result<CanvasMode, Seq<char>> {
    match fields::text_field_if(fields, "mode"@) {
        Err(message) => Err(message),
        Ok(None) => Ok(CanvasMode::Clipped),
        Ok(Some(name)) => CanvasMode::named(name),
    }
}

fn read_canvas_mode_field(object: &TextMap<JsonValue>) -> (result: Result<CanvasMode, ProtocolError>)
    ensures
        error::agrees(result, canvas_mode_field(json::fields_of(object))),
{
    match optional_string(object, "mode")? {
        None => Ok(CanvasMode::Clipped),
        Some(name) => CanvasMode::parse(name),
    }
}

/// The walk of a canvas transition.
pub open spec fn walk_field(fields: Seq<(Seq<char>, Json)>) -> Result<CanvasWalk, Seq<char>> {
    match fields::text_field_if(fields, "walk"@) {
        Err(message) => Err(message),
        Ok(None) => Ok(CanvasWalk::Paged),
        Ok(Some(name)) => CanvasWalk::named(name),
    }
}

fn read_walk_field(object: &TextMap<JsonValue>) -> (result: Result<CanvasWalk, ProtocolError>)
    ensures
        error::agrees(result, walk_field(json::fields_of(object))),
{
    match optional_string(object, "walk")? {
        None => Ok(CanvasWalk::Paged),
        Some(name) => CanvasWalk::parse(name),
    }
}

/// The axis of a canvas transition.
pub open spec fn pan_axis_field(fields: Seq<(Seq<char>, Json)>) -> Result<CanvasPanAxis, Seq<char>> {
    match fields::text_field_if(fields, "pan_axis"@) {
        Err(message) => Err(message),
        Ok(None) => Ok(CanvasPanAxis::Auto),
        Ok(Some(name)) => CanvasPanAxis::named(name),
    }
}

fn read_pan_axis_field(object: &TextMap<JsonValue>) -> (result: Result<CanvasPanAxis, ProtocolError>)
    ensures
        error::agrees(result, pan_axis_field(json::fields_of(object))),
{
    match optional_string(object, "pan_axis")? {
        None => Ok(CanvasPanAxis::Auto),
        Some(name) => CanvasPanAxis::parse(name),
    }
}

/// The scale mode of a set request.
pub open spec fn scale_mode_field(fields: Seq<(Seq<char>, Json)>) -> Result<ScaleMode, Seq<char>> {
    match fields::text_field_if(fields, "scale_mode"@) {
        Err(message) => Err(message),
        Ok(None) => Ok(ScaleMode::Fill),
        Ok(Some(name)) => ScaleMode::named(name),
    }
}

/// The scale mode of a set request.
pub fn read_scale_mode_field(object: &TextMap<JsonValue>) -> (result: Result<ScaleMode, ProtocolError>)
    ensures
        error::agrees(result, scale_mode_field(json::fields_of(object))),
{
    match optional_string(object, "scale_mode")? {
        None => Ok(ScaleMode::Fill),
        Some(name) => ScaleMode::parse(name),
    }
}

/// What a cache request warms.
pub open spec fn scope_field(fields: Seq<(Seq<char>, Json)>) -> Result<CacheWarmScope, Seq<char>> {
    match fields::text_field_if(fields, "scope"@) {
        Err(message) => Err(message),
        Ok(None) => Ok(CacheWarmScope::Current),
        Ok(Some(name)) => CacheWarmScope::named(name),
    }
}

fn read_scope_field(object: &TextMap<JsonValue>) -> (result: Result<CacheWarmScope, ProtocolError>)
    ensures
        error::agrees(result, scope_field(json::fields_of(object))),
{
    match optional_string(object, "scope")? {
        None => Ok(CacheWarmScope::Current),
        Some(name) => CacheWarmScope::parse(name),
    }
}

/// The backend of a cache request.
pub open spec fn backend_field(fields: Seq<(Seq<char>, Json)>) -> Result<CacheBackend, Seq<char>> {
    match fields::text_field_if(fields, "backend"@) {
        Err(message) => Err(message),
        Ok(None) => Ok(CacheBackend::Auto),
        Ok(Some(name)) => CacheBackend::named(name),
    }
}

fn read_backend_field(object: &TextMap<JsonValue>) -> (result: Result<CacheBackend, ProtocolError>)
    ensures
        error::agrees(result, backend_field(json::fields_of(object))),
{
    match optional_string(object, "backend")? {
        None => Ok(CacheBackend::Auto),
        Some(name) => CacheBackend::parse(name),
    }
}

/// The message for a number that is no overview scale.
pub open spec fn scale_range_message() -> Seq<char> {
    "canvas overview_scale must be greater than 0 and at most 1"@
}

/// The overview scale of a canvas transition: a number, or a string that spells one.
pub open spec fn scale_field(fields: Seq<(Seq<char>, Json)>) -> Result<OverviewScale, Seq<char>> {
    match textmap::entries_get(fields, "overview_scale"@) {
        None => Ok(protocol::default_scale()),
        Some(Json::Number(text)) => scale_in(text),
        Some(Json::Str(text)) => scale_in(text),
        Some(_) => Err("field '"@ + "overview_scale"@ + "' must be a number"@),
    }
}

/// The overview scale that a text spells.
pub open spec fn scale_in(text: Seq<char>) -> Result<OverviewScale, Seq<char>> {
    match scale::scale_reading(text) {
        ScaleReading::Scale(scale) => Ok(scale),
        ScaleReading::OutOfRange => Err(scale_range_message()),
        _ => Err("field '"@ + "overview_scale"@ + "' must be a number"@),
    }
}

fn read_scale_text(text: &str) -> (result: Result<OverviewScale, ProtocolError>)
    ensures
        error::agrees(result, scale_in(text@)),
{
    match read_scale(text) {
        ScaleReading::Scale(scale) => Ok(scale),
        ScaleReading::OutOfRange => Err(
            ProtocolError::of("canvas overview_scale must be greater than 0 and at most 1"),
        ),
        _ => Err(
            ProtocolError::new(concat3("field '", "overview_scale", "' must be a number")),
        ),
    }
}

fn read_scale_field(object: &TextMap<JsonValue>) -> (result: Result<OverviewScale, ProtocolError>)
    ensures
        error::agrees(result, scale_field(json::fields_of(object))),
{
    match field(object, "overview_scale") {
        None => Ok(default_overview_scale()),
        Some(value) => match value.shape() {
            Shape::Number(text) => read_scale_text(text),
            Shape::String(text) => read_scale_text(text),
            _ => Err(
                ProtocolError::new(concat3("field '", "overview_scale", "' must be a number")),
            ),
        },
    }
}

/// Whether a tile count is between one and the cap, or the message that it is not.
pub open spec fn tile_count_check(count: nat, what: Seq<char>) -> Result<(), Seq<char>> {
    if count == 0 {
        Err(what + " must be greater than zero"@)
    } else if count > MAX_CANVAS_TILE_COUNT {
        Err(what + " must be at most "@ + "256"@)
    } else {
        Ok(())
    }
}

fn validate_canvas_tile_count(count: usize, what: &str) -> (result: Result<(), ProtocolError>)
    ensures
        error::agrees(result, tile_count_check(count as nat, what@)),
{
    if count == 0 {
        Err(ProtocolError::new(concat2(what, " must be greater than zero")))
    } else if count > MAX_CANVAS_TILE_COUNT {
        Err(ProtocolError::new(concat3(what, " must be at most ", "256")))
    } else {
        Ok(())
    }
}

/// The largest automatic tile count that a request names, if it names one.
pub open spec fn max_tile_count_field(fields: Seq<(Seq<char>, Json)>) -> Result<
    Option<usize>,
    Seq<char>,
> {
    match fields::unsigned_field(fields, "max_tile_count"@, usize::MAX as nat, false) {
        Err(message) => Err(message),
        Ok(None) => Ok(None),
        Ok(Some(max)) => match tile_count_check(max, "canvas max_tile_count"@) {
            Err(message) => Err(message),
            Ok(_) => Ok(Some(max as usize)),
        },
    }
}

/// The tile-count policy of a canvas transition.
pub open spec fn tile_count_field(fields: Seq<(Seq<char>, Json)>) -> Result<
    CanvasTileCount,
    Seq<char>,
> {
    match max_tile_count_field(fields) {
        Err(message) => Err(message),
        Ok(max) => match textmap::entries_get(fields, "tile_count"@) {
            None => Ok(CanvasTileCount::Auto { max }),
            Some(Json::Str(text)) => if text == "auto"@ {
                Ok(CanvasTileCount::Auto { max })
            } else {
                Err("field 'tile_count' must be auto or an integer, got "@ + text)
            },
            Some(Json::Number(number)) => match fields::unsigned_number(
                number,
                "tile_count"@,
                usize::MAX as nat,
            ) {
                Err(message) => Err(message),
                Ok(count) => match tile_count_check(count, "canvas tile_count"@) {
                    Err(message) => Err(message),
                    Ok(_) => Ok(CanvasTileCount::Fixed(count as usize)),
                },
            },
            Some(_) => Err("field 'tile_count' must be auto or an integer"@),
        },
    }
}

fn parse_canvas_tile_count_policy(object: &TextMap<JsonValue>) -> (result: Result<
    CanvasTileCount,
    ProtocolError,
>)
    ensures
        error::agrees(result, tile_count_field(json::fields_of(object))),
{
    let max = optional_usize(object, "max_tile_count")?;
    if let Some(max) = max {
        validate_canvas_tile_count(max, "canvas max_tile_count")?;
    }
    match field(object, "tile_count") {
        None => Ok(CanvasTileCount::Auto { max }),
        Some(value) => match value.shape() {
            Shape::String(text) => if text_eq(text, "auto") {
                Ok(CanvasTileCount::Auto { max })
            } else {
                Err(
                    ProtocolError::new(
                        concat2("field 'tile_count' must be auto or an integer, got ", text),
                    ),
                )
            },
            Shape::Number(number) => {
                let count: u64 = parse_json_unsigned(number, "tile_count", usize::MAX as u64)?;
                validate_canvas_tile_count(count as usize, "canvas tile_count")?;
                Ok(CanvasTileCount::Fixed(count as usize))
            },
            _ => Err(ProtocolError::of("field 'tile_count' must be auto or an integer")),
        },
    }
}

/// A phase of a canvas transition in milliseconds, or its default.
pub open spec fn phase_field(
    fields: Seq<(Seq<char>, Json)>,
    key: Seq<char>,
    default: u64,
) -> Result<nat, Seq<char>> {
    fields::unsigned_field_or(fields, key, u64::MAX as nat, default as nat)
}

/// The phases of a canvas transition: each is read before any is checked.
pub open spec fn phases_in(fields: Seq<(Seq<char>, Json)>) -> Result<(u64, u64, u64), Seq<char>> {
    match phase_field(fields, "zoom_out_ms"@, DEFAULT_CANVAS_OUT_MS) {
        Err(message) => Err(message),
        Ok(zoom_out) => match phase_field(fields, "pan_ms"@, DEFAULT_CANVAS_PAN_MS) {
            Err(message) => Err(message),
            Ok(pan) => match phase_field(fields, "zoom_in_ms"@, DEFAULT_CANVAS_IN_MS) {
                Err(message) => Err(message),
                Ok(zoom_in) => match protocol::positive_milliseconds(zoom_out as u64, "zoom_out_ms"@) {
                    Err(message) => Err(message),
                    Ok(_) => match protocol::positive_milliseconds(pan as u64, "pan_ms"@) {
                        Err(message) => Err(message),
                        Ok(_) => match protocol::positive_milliseconds(zoom_in as u64, "zoom_in_ms"@) {
                            Err(message) => Err(message),
                            Ok(_) => Ok((zoom_out as u64, pan as u64, zoom_in as u64)),
                        },
                    },
                },
            },
        },
    }
}

fn read_phases(object: &TextMap<JsonValue>) -> (result: Result<(u64, u64, u64), ProtocolError>)
    ensures
        error::agrees(result, phases_in(json::fields_of(object))),
{
    let zoom_out_ms: u64 = u64_or(object, "zoom_out_ms", DEFAULT_CANVAS_OUT_MS)?;
    let pan_ms: u64 = u64_or(object, "pan_ms", DEFAULT_CANVAS_PAN_MS)?;
    let zoom_in_ms: u64 = u64_or(object, "zoom_in_ms", DEFAULT_CANVAS_IN_MS)?;
    validate_positive_milliseconds(zoom_out_ms, "zoom_out_ms")?;
    validate_positive_milliseconds(pan_ms, "pan_ms")?;
    validate_positive_milliseconds(zoom_in_ms, "zoom_in_ms")?;
    Ok((zoom_out_ms, pan_ms, zoom_in_ms))
}

/// The canvas transition that the fields of an object describe.
pub open spec fn canvas_in(fields: Seq<(Seq<char>, Json)>, easing: Easing) -> Result<
    Transition,
    Seq<char>,
> {
    match phases_in(fields) {
        Err(message) => Err(message),
        Ok((zoom_out_ms, pan_ms, zoom_in_ms)) => match canvas_mode_field(fields) {
            Err(message) => Err(message),
            Ok(mode) => match walk_field(fields) {
                Err(message) => Err(message),
                Ok(walk) => match pan_axis_field(fields) {
                    Err(message) => Err(message),
                    Ok(pan_axis) => match scale_field(fields) {
                        Err(message) => Err(message),
                        Ok(overview_scale) => match protocol::mode_walk_check(mode, walk) {
                            Err(message) => Err(message),
                            Ok(_) => match tile_count_field(fields) {
                                Err(message) => Err(message),
                                Ok(tile_count) => Ok(
                                    Transition::Canvas {
                                        zoom_out_ms,
                                        pan_ms,
                                        zoom_in_ms,
                                        easing,
                                        mode,
                                        walk,
                                        pan_axis,
                                        overview_scale,
                                        tile_count,
                                    },
                                ),
                            },
                        },
                    },
                },
            },
        },
    }
}

fn read_canvas(object: &TextMap<JsonValue>, easing: Easing) -> (result: Result<
    Transition,
    ProtocolError,
>)
    ensures
        error::agrees(result, canvas_in(json::fields_of(object), easing)),
{
    let (zoom_out_ms, pan_ms, zoom_in_ms) = read_phases(object)?;
    let mode = read_canvas_mode_field(object)?;
    let walk = read_walk_field(object)?;
    let pan_axis = read_pan_axis_field(object)?;
    let overview_scale = read_scale_field(object)?;
    validate_canvas_mode_walk(mode, walk)?;
    let tile_count = parse_canvas_tile_count_policy(object)?;
    Ok(
        Transition::Canvas {
            zoom_out_ms,
            pan_ms,
            zoom_in_ms,
            easing,
            mode,
            walk,
            pan_axis,
            overview_scale,
            tile_count,
        },
    )
}

/// The push transition that the fields of an object describe.
pub open spec fn push_in(
    fields: Seq<(Seq<char>, Json)>,
    duration_ms: u64,
    easing: Easing,
) -> Result<Transition, Seq<char>> {
    match protocol::positive_milliseconds(duration_ms, "duration_ms"@) {
        Err(message) => Err(message),
        Ok(_) => match fields::text_field(fields, "direction"@) {
            Err(message) => Err(message),
            Ok(name) => match PushDirection::named(name) {
                Err(message) => Err(message),
                Ok(direction) => match push_mode_field(fields) {
                    Err(message) => Err(message),
                    Ok(mode) => Ok(Transition::Push { direction, duration_ms, easing, mode }),
                },
            },
        },
    }
}

/// The transition that the fields of an object describe.
pub open spec fn transition_in_fields(fields: Seq<(Seq<char>, Json)>) -> Result<
    Transition,
    Seq<char>,
> {
    match fields::text_field(fields, "type"@) {
        Err(message) => Err(message),
        Ok(name) => match TransitionKind::named(name) {
            None => Err("unknown transition type: "@ + name),
            Some(kind) => match fields::unsigned_field_or(
                fields,
                "duration_ms"@,
                u64::MAX as nat,
                DEFAULT_DURATION_MS as nat,
            ) {
                Err(message) => Err(message),
                Ok(duration) => match easing_field(fields) {
                    Err(message) => Err(message),
                    Ok(easing) => match kind {
                        TransitionKind::Cut => Ok(Transition::Cut),
                        TransitionKind::Fade => match protocol::positive_milliseconds(
                            duration as u64,
                            "duration_ms"@,
                        ) {
                            Err(message) => Err(message),
                            Ok(_) => Ok(
                                Transition::Fade { duration_ms: duration as u64, easing },
                            ),
                        },
                        TransitionKind::World => match protocol::positive_milliseconds(
                            duration as u64,
                            "duration_ms"@,
                        ) {
                            Err(message) => Err(message),
                            Ok(_) => Ok(
                                Transition::World { duration_ms: duration as u64, easing },
                            ),
                        },
                        TransitionKind::Push => push_in(fields, duration as u64, easing),
                        TransitionKind::Canvas => canvas_in(fields, easing),
                    },
                },
            },
        },
    }
}

/// The transition that a JSON value describes: a compact spelling or an object.
pub open spec fn transition_in(value: Json) -> Result<Transition, Seq<char>> {
    match value {
        Json::Str(token) => protocol::cli_transition(
            token,
            DEFAULT_DURATION_MS,
            Easing::EaseOutCubic,
        ),
        _ => match json::object_in(value) {
            Err(message) => Err(message),
            Ok(fields) => transition_in_fields(fields),
        },
    }
}

/// Reads a transition.
pub fn parse_transition(value: &JsonValue) -> (result: Result<Transition, ProtocolError>)
    ensures
        error::agrees(result, transition_in(json::json_of(*value))),
{
    if let Shape::String(token) = value.shape() {
        return Transition::parse_cli_token(token, DEFAULT_DURATION_MS, Easing::EaseOutCubic);
    }
    let object = value.as_object()?;
    let name = required_string(object, "type")?;
    let kind = match TransitionKind::parse(name) {
        None => {
            return Err(ProtocolError::new(concat2("unknown transition type: ", name)));
        },
        Some(kind) => kind,
    };
    let duration_ms: u64 = u64_or(object, "duration_ms", DEFAULT_DURATION_MS)?;
    let easing = read_easing_field(object)?;
    match kind {
        TransitionKind::Cut => Ok(Transition::Cut),
        TransitionKind::Fade => {
            validate_positive_milliseconds(duration_ms, "duration_ms")?;
            Ok(Transition::Fade { duration_ms, easing })
        },
        TransitionKind::World => {
            validate_positive_milliseconds(duration_ms, "duration_ms")?;
            Ok(Transition::World { duration_ms, easing })
        },
        TransitionKind::Push => {
            validate_positive_milliseconds(duration_ms, "duration_ms")?;
            let direction = PushDirection::parse(required_string(object, "direction")?)?;
            let mode = read_push_mode_field(object)?;
            Ok(Transition::Push { direction, duration_ms, easing, mode })
        },
        TransitionKind::Canvas => read_canvas(object, easing),
    }
}

/// Adds one output and its path to those read so far.
pub open spec fn output_added(
    done: Seq<(Seq<char>, Seq<char>)>,
    name: Seq<char>,
    value: Json,
) -> Result<Seq<(Seq<char>, Seq<char>)>, Seq<char>> {
    match json::string_in(value) {
        Err(message) => Err(message),
        Ok(path) => if name.len() == 0 {
            Err("output name must not be empty"@)
        } else if path.len() == 0 {
            Err("image path for output "@ + name + " must not be empty"@)
        } else {
            Ok(textmap::entries_insert(done, name, path))
        },
    }
}

/// The outputs and their paths that the fields of an object list.
pub open spec fn outputs_in(fields: Seq<(Seq<char>, Json)>) -> Result<
    Seq<(Seq<char>, Seq<char>)>,
    Seq<char>,
>
    decreases fields.len(),
{
    if fields.len() == 0 {
        Ok(Seq::empty())
    } else {
        match outputs_in(fields.drop_last()) {
            Err(message) => Err(message),
            Ok(done) => output_added(done, fields.last().0, fields.last().1),
        }
    }
}

/// The outputs of a request, of which there must be one.
pub open spec fn outputs_field(fields: Seq<(Seq<char>, Json)>) -> Result<
    Seq<(Seq<char>, Seq<char>)>,
    Seq<char>,
> {
    match textmap::entries_get(fields, "outputs"@) {
        None => Err(fields::missing("outputs"@)),
        Some(value) => match json::object_in(value) {
            Err(message) => Err(message),
            Ok(outputs) => if outputs.len() == 0 {
                Err("field 'outputs' must not be empty"@)
            } else {
                outputs_in(outputs)
            },
        },
    }
}

proof fn lemma_outputs_error_stays(fields: Seq<(Seq<char>, Json)>, n: int)
    requires
        0 <= n <= fields.len(),
        outputs_in(fields.take(n)) is Err,
    ensures
        outputs_in(fields) == outputs_in(fields.take(n)),
    decreases fields.len() - n,
{
    if n == fields.len() {
        assert(fields.take(n) =~= fields);
    } else {
        assert(fields.take(n + 1).drop_last() =~= fields.take(n));
        lemma_outputs_error_stays(fields, n + 1);
    }
}

fn add_output(done: &mut TextMap<String>, name: &str, value: &JsonValue) -> (result: Result<
    (),
    ProtocolError,
>)
    ensures
        match (result, output_added(textmap::text_entries(*old(done)), name@, json::json_of(*value))) {
            (Ok(_), Ok(expected)) => textmap::text_entries(*final(done)) == expected,
            (Err(error), Err(message)) => error@ == message,
            _ => false,
        },
{
    let path = value.as_string()?;
    if name.is_empty() {
        return Err(ProtocolError::of("output name must not be empty"));
    }
    if path.is_empty() {
        return Err(
            ProtocolError::new(concat3("image path for output ", name, " must not be empty")),
        );
    }
    let copy = copy_text(path);
    proof {
        textmap::lemma_map_insert(done.raw(), |value: String| value@, name@, copy);
    }
    done.insert(copy_text(name), copy);
    Ok(())
}

fn required_outputs(object: &TextMap<JsonValue>) -> (result: Result<
    TextMap<String>,
    ProtocolError,
>)
    ensures
        match (result, outputs_field(json::fields_of(object))) {
            (Ok(map), Ok(expected)) => textmap::text_entries(map) == expected,
            (Err(error), Err(message)) => error@ == message,
            _ => false,
        },
{
    let outputs = match field(object, "outputs") {
        None => {
            return Err(missing_field("outputs"));
        },
        Some(outputs) => outputs,
    };
    let map = outputs.as_object()?;
    let ghost all = json::fields_of(map);
    proof {
        json::lemma_fields_of(map);
    }
    if map.is_empty() {
        return Err(ProtocolError::of("field 'outputs' must not be empty"));
    }
    let mut done: TextMap<String> = TextMap::new();
    let mut i: usize = 0;
    assert(all.take(0) =~= Seq::<(Seq<char>, Json)>::empty());
    assert(textmap::text_entries(done) =~= Seq::<(Seq<char>, Seq<char>)>::empty());
    while i < map.len()
        invariant
            i <= map.raw().len(),
            all == textmap::map_entries(map.raw(), |v: JsonValue| json::json_of(v)),
            outputs_in(all.take(i as int)) == Ok::<Seq<(Seq<char>, Seq<char>)>, Seq<char>>(
                textmap::text_entries(done),
            ),
            outputs_field(json::fields_of(object)) == outputs_in(all),
        decreases map.raw().len() - i,
    {
        proof {
            assert(all.take(i + 1).drop_last() =~= all.take(i as int));
            assert(all.take(i + 1).last() == all[i as int]);
        }
        match add_output(&mut done, map.key_at(i), map.value_at(i)) {
            Err(error) => {
                proof {
                    lemma_outputs_error_stays(all, i + 1);
                }
                return Err(error);
            },
            Ok(_) => {},
        }
        i = i + 1;
    }
    assert(all.take(i as int) =~= all);
    Ok(done)
}

/// The part that all set requests share.
pub open spec fn set_in(fields: Seq<(Seq<char>, Json)>, needs_transition: bool) -> Result<
    SetView,
    Seq<char>,
> {
    match outputs_field(fields) {
        Err(message) => Err(message),
        Ok(outputs) => match set_transition_field(fields, needs_transition) {
            Err(message) => Err(message),
            Ok(transition) => match scale_mode_field(fields) {
                Err(message) => Err(message),
                Ok(scale_mode) => match fields::flag_field_or(fields, "allow_partial"@, false) {
                    Err(message) => Err(message),
                    Ok(allow_partial) => Ok(
                        SetView { outputs, transition, scale_mode, allow_partial },
                    ),
                },
            },
        },
    }
}

/// The transition of a set request: where it may be missing, a cut.
pub open spec fn set_transition_field(
    fields: Seq<(Seq<char>, Json)>,
    needed: bool,
) -> Result<Transition, Seq<char>> {
    match textmap::entries_get(fields, "transition"@) {
        Some(value) => transition_in(value),
        None => if needed {
            Err(fields::missing("transition"@))
        } else {
            Ok(Transition::Cut)
        },
    }
}

fn read_set(object: &TextMap<JsonValue>, needs_transition: bool) -> (result: Result<
    SetRequest,
    ProtocolError,
>)
    ensures
        error::agrees_view(result, set_in(json::fields_of(object), needs_transition)),
{
    let outputs = required_outputs(object)?;
    let transition = match field(object, "transition") {
        Some(value) => parse_transition(value)?,
        None => {
            if needs_transition {
                return Err(missing_field("transition"));
            }
            Transition::Cut
        },
    };
    let scale_mode = read_scale_mode_field(object)?;
    let allow_partial = flag_or(object, "allow_partial", false)?;
    Ok(SetRequest { outputs, transition, scale_mode, allow_partial })
}

/// The clear request that the fields of an object describe.
pub open spec fn clear_in(fields: Seq<(Seq<char>, Json)>) -> Result<ClearView, Seq<char>> {
    match fields::strings_field(fields, "outputs"@, false) {
        Err(message) => Err(message),
        Ok(outputs) => match fields::text_field_or(fields, "color"@, "#000000"@) {
            Err(message) => Err(message),
            Ok(color) => Ok(ClearView { outputs, color }),
        },
    }
}

fn parse_clear_request(object: &TextMap<JsonValue>) -> (result: Result<ClearRequest, ProtocolError>)
    ensures
        error::agrees_view(result, clear_in(json::fields_of(object))),
{
    let outputs = strings_or_none(object, "outputs", false)?;
    let color = text_or(object, "color", "#000000")?;
    Ok(ClearRequest { outputs, color })
}

/// The wallpaper action that a JSON value describes: its string, or an object with
/// its string and an index.
pub open spec fn action_in(value: Json) -> Result<WallpaperAction, Seq<char>> {
    match value {
        Json::Str(action) => WallpaperAction::named(action, None),
        _ => match json::object_in(value) {
            Err(message) => Err(message),
            Ok(fields) => match fields::text_field(fields, "type"@) {
                Err(message) => Err(message),
                Ok(action) => match fields::unsigned_field(
                    fields,
                    "index"@,
                    usize::MAX as nat,
                    false,
                ) {
                    Err(message) => Err(message),
                    Ok(Some(index)) => WallpaperAction::named(action, Some(index as usize)),
                    Ok(None) => WallpaperAction::named(action, None),
                },
            },
        },
    }
}

fn parse_wallpaper_action(value: &JsonValue) -> (result: Result<WallpaperAction, ProtocolError>)
    ensures
        error::agrees(result, action_in(json::json_of(*value))),
{
    if let Shape::String(action) = value.shape() {
        return WallpaperAction::parse(action, None);
    }
    let object = value.as_object()?;
    let action = required_string(object, "type")?;
    let index = optional_usize(object, "index")?;
    WallpaperAction::parse(action, index)
}

/// The transition of a wallpaper request, which may be missing or null.
pub open spec fn nullable_transition_field(fields: Seq<(Seq<char>, Json)>) -> Result<
    Option<Transition>,
    Seq<char>,
> {
    match textmap::entries_get(fields, "transition"@) {
        None => Ok(None),
        Some(Json::Null) => Ok(None),
        Some(value) => match transition_in(value) {
            Err(message) => Err(message),
            Ok(transition) => Ok(Some(transition)),
        },
    }
}

/// The scale mode of a wallpaper request, which may be missing or null.
pub open spec fn nullable_scale_mode_field(fields: Seq<(Seq<char>, Json)>) -> Result<
    Option<ScaleMode>,
    Seq<char>,
> {
    match fields::nullable_text_field(fields, "scale_mode"@) {
        Err(message) => Err(message),
        Ok(None) => Ok(None),
        Ok(Some(name)) => match ScaleMode::named(name) {
            Err(message) => Err(message),
            Ok(scale_mode) => Ok(Some(scale_mode)),
        },
    }
}

/// The wallpaper request that the fields of an object describe.
pub open spec fn wallpaper_in(fields: Seq<(Seq<char>, Json)>) -> Result<
    WallpaperRequest,
    Seq<char>,
> {
    match textmap::entries_get(fields, "action"@) {
        None => Err(fields::missing("action"@)),
        Some(value) => match action_in(value) {
            Err(message) => Err(message),
            Ok(action) => match nullable_transition_field(fields) {
                Err(message) => Err(message),
                Ok(transition) => match nullable_scale_mode_field(fields) {
                    Err(message) => Err(message),
                    Ok(scale_mode) => Ok(WallpaperRequest { action, transition, scale_mode }),
                },
            },
        },
    }
}

fn parse_wallpaper_request(object: &TextMap<JsonValue>) -> (result: Result<
    WallpaperRequest,
    ProtocolError,
>)
    ensures
        error::agrees(result, wallpaper_in(json::fields_of(object))),
{
    let action = match field(object, "action") {
        None => {
            return Err(missing_field("action"));
        },
        Some(value) => parse_wallpaper_action(value)?,
    };
    let transition = match field(object, "transition") {
        None => None,
        Some(value) => match value.shape() {
            Shape::Null => None,
            _ => Some(parse_transition(value)?),
        },
    };
    let scale_mode = match field(object, "scale_mode") {
        None => None,
        Some(value) => match value.shape() {
            Shape::Null => None,
            _ => Some(ScaleMode::parse(value.as_string()?)?),
        },
    };
    Ok(WallpaperRequest { action, transition, scale_mode })
}

/// The cache request that the fields of an object describe.
pub open spec fn cache_in(fields: Seq<(Seq<char>, Json)>) -> Result<CacheRequest, Seq<char>> {
    match fields::text_field(fields, "action"@) {
        Err(message) => Err(message),
        Ok(action) => if action == "status"@ {
            Ok(CacheRequest { action: CacheAction::Status })
        } else if action == "clear"@ {
            Ok(CacheRequest { action: CacheAction::Clear })
        } else if action == "warm"@ {
            match scope_field(fields) {
                Err(message) => Err(message),
                Ok(scope) => match fields::unsigned_field_or(
                    fields,
                    "workers"@,
                    usize::MAX as nat,
                    DEFAULT_CANVAS_CACHE_WORKERS as nat,
                ) {
                    Err(message) => Err(message),
                    Ok(workers) => if workers == 0 {
                        Err("cache workers must be greater than zero"@)
                    } else {
                        match backend_field(fields) {
                            Err(message) => Err(message),
                            Ok(backend) => Ok(
                                CacheRequest {
                                    action: CacheAction::Warm {
                                        scope,
                                        workers: workers as usize,
                                        backend,
                                    },
                                },
                            ),
                        }
                    },
                },
            }
        } else {
            Err("unknown cache action: "@ + action)
        },
    }
}

fn parse_cache_request(object: &TextMap<JsonValue>) -> (result: Result<CacheRequest, ProtocolError>)
    ensures
        error::agrees(result, cache_in(json::fields_of(object))),
{
    let action = required_string(object, "action")?;
    let action = if text_eq(action, "status") {
        CacheAction::Status
    } else if text_eq(action, "clear") {
        CacheAction::Clear
    } else if text_eq(action, "warm") {
        let scope = read_scope_field(object)?;
        let workers: usize = usize_or(object, "workers", DEFAULT_CANVAS_CACHE_WORKERS)?;
        if workers == 0 {
            return Err(ProtocolError::of("cache workers must be greater than zero"));
        }
        let backend = read_backend_field(object)?;
        CacheAction::Warm { scope, workers, backend }
    } else {
        return Err(ProtocolError::new(concat2("unknown cache action: ", action)));
    };
    Ok(CacheRequest { action })
}

/// The preview of a canvas request that the fields of an object describe.
pub open spec fn preview_in(fields: Seq<(Seq<char>, Json)>) -> Result<PreviewView, Seq<char>> {
    match fields::strings_field(fields, "preview_paths"@, true) {
        Err(message) => Err(message),
        Ok(paths) => match fields::unsigned_field_or(fields, "preview_start"@, usize::MAX as nat, 0) {
            Err(message) => Err(message),
            Ok(start) => Ok(PreviewView { paths, start: start as usize }),
        },
    }
}

/// The canvas request that the fields of an object describe.
pub open spec fn render_canvas_in(fields: Seq<(Seq<char>, Json)>) -> Result<
    (SetView, PreviewView),
    Seq<char>,
> {
    match set_in(fields, true) {
        Err(message) => Err(message),
        Ok(set) => match preview_in(fields) {
            Err(message) => Err(message),
            Ok(preview) => Ok((set, preview)),
        },
    }
}

fn parse_render_canvas_set_request(object: &TextMap<JsonValue>) -> (result: Result<
    RenderCanvasSetRequest,
    ProtocolError,
>)
    ensures
        error::agrees_view(result, render_canvas_in(json::fields_of(object))),
{
    let SetRequest { outputs, transition, scale_mode, allow_partial } = read_set(object, true)?;
    let preview_paths = strings_or_none(object, "preview_paths", true)?;
    let preview_start: usize = usize_or(object, "preview_start", 0)?;
    Ok(
        RenderCanvasSetRequest {
            outputs,
            transition,
            scale_mode,
            allow_partial,
            preview_paths,
            preview_start,
        },
    )
}

/// The route that a JSON value describes.
pub open spec fn route_in(value: Json) -> Result<WorldRouteFocus, Seq<char>> {
    match json::object_in(value) {
        Err(message) => Err(message),
        Ok(fields) => match fields::needed_unsigned_field(
            fields,
            "current_index"@,
            usize::MAX as nat,
            false,
        ) {
            Err(message) => Err(message),
            Ok(current) => match fields::needed_unsigned_field(
                fields,
                "target_index"@,
                usize::MAX as nat,
                false,
            ) {
                Err(message) => Err(message),
                Ok(target) => match fields::unsigned_field_or(fields, "lod"@, usize::MAX as nat, 0) {
                    Err(message) => Err(message),
                    Ok(lod) => Ok(
                        WorldRouteFocus {
                            current_index: current as usize,
                            target_index: target as usize,
                            lod: lod as usize,
                        },
                    ),
                },
            },
        },
    }
}

fn read_route(value: &JsonValue) -> (result: Result<WorldRouteFocus, ProtocolError>)
    ensures
        error::agrees(result, route_in(json::json_of(*value))),
{
    let focus = value.as_object()?;
    let current_index: usize = required_usize(focus, "current_index")?;
    let target_index: usize = required_usize(focus, "target_index")?;
    let lod: usize = usize_or(focus, "lod", 0)?;
    Ok(WorldRouteFocus { current_index, target_index, lod })
}

/// The routes that the fields of an object list.
pub open spec fn routes_in(fields: Seq<(Seq<char>, Json)>) -> Result<
    Seq<(Seq<char>, WorldRouteFocus)>,
    Seq<char>,
>
    decreases fields.len(),
{
    if fields.len() == 0 {
        Ok(Seq::empty())
    } else {
        match routes_in(fields.drop_last()) {
            Err(message) => Err(message),
            Ok(done) => if fields.last().0.len() == 0 {
                Err("output name must not be empty"@)
            } else {
                match route_in(fields.last().1) {
                    Err(message) => Err(message),
                    Ok(focus) => Ok(textmap::entries_insert(done, fields.last().0, focus)),
                }
            },
        }
    }
}

/// The routes of a world request, of which there must be one.
pub open spec fn routes_field(fields: Seq<(Seq<char>, Json)>) -> Result<
    Seq<(Seq<char>, WorldRouteFocus)>,
    Seq<char>,
> {
    match textmap::entries_get(fields, "routes"@) {
        None => Err(fields::missing("routes"@)),
        Some(value) => match json::object_in(value) {
            Err(message) => Err(message),
            Ok(routes) => if routes.len() == 0 {
                Err("field 'routes' must not be empty"@)
            } else {
                routes_in(routes)
            },
        },
    }
}

proof fn lemma_routes_error_stays(fields: Seq<(Seq<char>, Json)>, n: int)
    requires
        0 <= n <= fields.len(),
        routes_in(fields.take(n)) is Err,
    ensures
        routes_in(fields) == routes_in(fields.take(n)),
    decreases fields.len() - n,
{
    if n == fields.len() {
        assert(fields.take(n) =~= fields);
    } else {
        assert(fields.take(n + 1).drop_last() =~= fields.take(n));
        lemma_routes_error_stays(fields, n + 1);
    }
}

fn parse_world_route_map(object: &TextMap<JsonValue>) -> (result: Result<
    TextMap<WorldRouteFocus>,
    ProtocolError,
>)
    ensures
        match (result, routes_field(json::fields_of(object))) {
            (Ok(map), Ok(expected)) => map.raw() == expected,
            (Err(error), Err(message)) => error@ == message,
            _ => false,
        },
{
    let routes = match field(object, "routes") {
        None => {
            return Err(missing_field("routes"));
        },
        Some(routes) => routes,
    };
    let map = routes.as_object()?;
    let ghost all = json::fields_of(map);
    proof {
        json::lemma_fields_of(map);
    }
    if map.is_empty() {
        return Err(ProtocolError::of("field 'routes' must not be empty"));
    }
    let mut done: TextMap<WorldRouteFocus> = TextMap::new();
    let mut i: usize = 0;
    assert(all.take(0) =~= Seq::<(Seq<char>, Json)>::empty());
    while i < map.len()
        invariant
            i <= map.raw().len(),
            all == textmap::map_entries(map.raw(), |v: JsonValue| json::json_of(v)),
            routes_in(all.take(i as int)) == Ok::<Seq<(Seq<char>, WorldRouteFocus)>, Seq<char>>(
                done.raw(),
            ),
            routes_field(json::fields_of(object)) == routes_in(all),
        decreases map.raw().len() - i,
    {
        proof {
            assert(all.take(i + 1).drop_last() =~= all.take(i as int));
            assert(all.take(i + 1).last() == all[i as int]);
        }
        let name = map.key_at(i);
        if name.is_empty() {
            proof {
                lemma_routes_error_stays(all, i + 1);
            }
            return Err(ProtocolError::of("output name must not be empty"));
        }
        match read_route(map.value_at(i)) {
            Err(error) => {
                proof {
                    lemma_routes_error_stays(all, i + 1);
                }
                return Err(error);
            },
            Ok(focus) => {
                done.insert(copy_text(name), focus);
            },
        }
        i = i + 1;
    }
    assert(all.take(i as int) =~= all);
    Ok(done)
}

/// The world part of a request that the fields of an object describe.
pub open spec fn world_in(fields: Seq<(Seq<char>, Json)>) -> Result<WorldView, Seq<char>> {
    match fields::needed_unsigned_field(fields, "library_count"@, usize::MAX as nat, false) {
        Err(message) => Err(message),
        Ok(library_count) => match fields::needed_unsigned_field(
            fields,
            "columns"@,
            usize::MAX as nat,
            false,
        ) {
            Err(message) => Err(message),
            Ok(columns) => match fields::needed_unsigned_field(
                fields,
                "fingerprint"@,
                u64::MAX as nat,
                false,
            ) {
                Err(message) => Err(message),
                Ok(fingerprint) => match fields::needed_unsigned_field(
                    fields,
                    "thumbnail_edge"@,
                    u32::MAX as nat,
                    true,
                ) {
                    Err(message) => Err(message),
                    Ok(edge) => match fields::needed_unsigned_field(
                        fields,
                        "tile_cells"@,
                        usize::MAX as nat,
                        false,
                    ) {
                        Err(message) => Err(message),
                        Ok(tile_cells) => match routes_field(fields) {
                            Err(message) => Err(message),
                            Ok(routes) => Ok(
                                WorldView {
                                    library_count: library_count as usize,
                                    columns: columns as usize,
                                    fingerprint: fingerprint as u64,
                                    thumbnail_edge: edge as u32,
                                    tile_cells: tile_cells as usize,
                                    routes,
                                },
                            ),
                        },
                    },
                },
            },
        },
    }
}

/// The world request that the fields of an object describe.
pub open spec fn render_world_in(fields: Seq<(Seq<char>, Json)>) -> Result<
    (SetView, WorldView),
    Seq<char>,
> {
    match set_in(fields, true) {
        Err(message) => Err(message),
        Ok(set) => match world_in(fields) {
            Err(message) => Err(message),
            Ok(world) => Ok((set, world)),
        },
    }
}

fn parse_render_world_set_request(object: &TextMap<JsonValue>) -> (result: Result<
    RenderWorldSetRequest,
    ProtocolError,
>)
    ensures
        error::agrees_view(result, render_world_in(json::fields_of(object))),
{
    let SetRequest { outputs, transition, scale_mode, allow_partial } = read_set(object, true)?;
    let library_count: usize = required_usize(object, "library_count")?;
    let columns: usize = required_usize(object, "columns")?;
    let fingerprint: u64 = required_u64(object, "fingerprint")?;
    let thumbnail_edge: u32 = required_u32(object, "thumbnail_edge")?;
    let tile_cells: usize = required_usize(object, "tile_cells")?;
    let routes = parse_world_route_map(object)?;
    Ok(
        RenderWorldSetRequest {
            outputs,
            transition,
            scale_mode,
            allow_partial,
            library_count,
            columns,
            fingerprint,
            thumbnail_edge,
            tile_cells,
            routes,
        },
    )
}

/// The request that the fields of an object describe. Renderer planning requests are
/// only read where renderer control is allowed.
pub open spec fn request_in_fields(fields: Seq<(Seq<char>, Json)>, control: bool) -> Result<
    RequestView,
    Seq<char>,
> {
    match fields::text_field(fields, "type"@) {
        Err(message) => Err(message),
        Ok(kind) => if kind == "ping"@ {
            Ok(RequestView::Ping)
        } else if kind == "capabilities"@ {
            Ok(RequestView::Capabilities)
        } else if kind == "health"@ {
            Ok(RequestView::Health)
        } else if kind == "query"@ {
            Ok(RequestView::Query)
        } else if kind == "stop"@ {
            Ok(RequestView::Stop)
        } else if kind == "set"@ {
            match set_in(fields, false) {
                Ok(set) => Ok(RequestView::SetOutputs(set)),
                Err(message) => Err(message),
            }
        } else if kind == "preload"@ {
            match outputs_field(fields) {
                Ok(outputs) => Ok(RequestView::Preload(outputs)),
                Err(message) => Err(message),
            }
        } else if kind == "clear"@ {
            match clear_in(fields) {
                Ok(clear) => Ok(RequestView::Clear(clear)),
                Err(message) => Err(message),
            }
        } else if kind == "wallpaper"@ {
            match wallpaper_in(fields) {
                Ok(wallpaper) => Ok(RequestView::Wallpaper(wallpaper)),
                Err(message) => Err(message),
            }
        } else if kind == "cache"@ {
            match cache_in(fields) {
                Ok(cache) => Ok(RequestView::Cache(cache)),
                Err(message) => Err(message),
            }
        } else if kind == "renderer_canvas_set"@ && control {
            match render_canvas_in(fields) {
                Ok((set, preview)) => Ok(RequestView::RenderCanvasSet(set, preview)),
                Err(message) => Err(message),
            }
        } else if kind == "renderer_world_set"@ && control {
            match render_world_in(fields) {
                Ok((set, world)) => Ok(RequestView::RenderWorldSet(set, world)),
                Err(message) => Err(message),
            }
        } else if kind == "renderer_canvas_set"@ || kind == "renderer_world_set"@ {
            Err(
                "request type is reserved for the internal renderer control channel: "@ + kind,
            )
        } else {
            Err("unknown request type: "@ + kind)
        },
    }
}

/// The request that a text holds.
pub open spec fn request_in(input: Seq<char>, control: bool) -> Result<RequestView, Seq<char>> {
    match json::json_in(input) {
        Err(message) => Err(message),
        Ok(json) => match json::object_in(json) {
            Err(message) => Err(message),
            Ok(fields) => request_in_fields(fields, control),
        },
    }
}

fn parse_request_with_renderer_control(input: &str, control: bool) -> (result: Result<
    Request,
    ProtocolError,
>)
    ensures
        error::agrees_view(result, request_in(input@, control)),
{
    let json = parse_json(input)?;
    let object = json.as_object()?;
    let kind = required_string(object, "type")?;
    if text_eq(kind, "ping") {
        Ok(Request::Ping)
    } else if text_eq(kind, "capabilities") {
        Ok(Request::Capabilities)
    } else if text_eq(kind, "health") {
        Ok(Request::Health)
    } else if text_eq(kind, "query") {
        Ok(Request::Query)
    } else if text_eq(kind, "stop") {
        Ok(Request::Stop)
    } else if text_eq(kind, "set") {
        Ok(Request::SetOutputs(read_set(object, false)?))
    } else if text_eq(kind, "preload") {
        Ok(Request::Preload(PreloadRequest { outputs: required_outputs(object)? }))
    } else if text_eq(kind, "clear") {
        Ok(Request::Clear(parse_clear_request(object)?))
    } else if text_eq(kind, "wallpaper") {
        Ok(Request::Wallpaper(parse_wallpaper_request(object)?))
    } else if text_eq(kind, "cache") {
        Ok(Request::Cache(parse_cache_request(object)?))
    } else if text_eq(kind, "renderer_canvas_set") && control {
        Ok(Request::RenderCanvasSet(parse_render_canvas_set_request(object)?))
    } else if text_eq(kind, "renderer_world_set") && control {
        Ok(Request::RenderWorldSet(parse_render_world_set_request(object)?))
    } else if text_eq(kind, "renderer_canvas_set") || text_eq(kind, "renderer_world_set") {
        Err(
            ProtocolError::new(
                concat2(
                    "request type is reserved for the internal renderer control channel: ",
                    kind,
                ),
            ),
        )
    } else {
        Err(ProtocolError::new(concat2("unknown request type: ", kind)))
    }
}

/// Parse a request from JSON.
pub fn parse_request(input: &str) -> (result: Result<Request, ProtocolError>)
    ensures
        error::agrees_view(result, request_in(input@, true)),
{
    parse_request_with_renderer_control(input, true)
}

/// Parse a request received on a public daemon socket.
///
/// Renderer planning requests are reserved for the inherited supervisor-to-renderer
/// control channel and are rejected here even when their remaining fields are valid.
pub fn parse_public_request(input: &str) -> (result: Result<Request, ProtocolError>)
    ensures
        error::agrees_view(result, request_in(input@, false)),
{
    parse_request_with_renderer_control(input, false)
}

/// A public socket never yields a renderer planning request.
pub proof fn law_public_requests_exclude_renderer_control(input: Seq<char>)
    ensures
        request_in(input, false) matches Ok(request) ==> !(request is RenderCanvasSet) && !(
        request is RenderWorldSet),
{
}

/// Apart from renderer planning requests, both sockets read the same requests.
pub proof fn law_public_requests_agree(input: Seq<char>)
    ensures
        request_in(input, true) matches Ok(request) ==> request is RenderCanvasSet || request
            is RenderWorldSet || request_in(input, false) == request_in(input, true),
{
}

} // verus!
