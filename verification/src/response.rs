//! The responses of the wire protocol and their JSON form.

use crate::binary64::spell;
use crate::error::ProtocolError;
use crate::fields::{
    flag_or, i32_or_zero, list_of, missing_field, optional_nullable_string, optional_u32,
    required_bool, required_string, required_text, required_u32, required_usize,
    strings_or_none, text_or, u64_or, usize_or,
};
use crate::json::{field, parse_json, ArrayText, Json, JsonText, JsonValue, ObjectText, Shape};
use crate::protocol::{
    DaemonMode, ScaleMode, Transition, TransitionClass, TransitionKind, TransitionParameterType,
    CAPABILITIES_SCHEMA_VERSION, PROTOCOL_VERSION,
};
use crate::registry::{
    transition_registry, CapabilityView, DefaultView, ParameterView, TransitionDescriptor,
    TransitionParameterDefault, TransitionParameterDescriptor, TransitionScopes,
};
use crate::request::{
    encode_string_array, encode_transition, parse_transition, read_scale_mode_field,
};
use crate::scale::is_finite_text;
use crate::text::{
    concat2, concat3, concat4, copy_text, decimal_i64, decimal_u32, parse_i64, text_eq,
};
use crate::textmap::TextMap;
use crate::binary64;
use crate::error;
use crate::fields;
use crate::json;
use crate::registry;
use crate::request;
use crate::scale;
use crate::text;
use crate::textmap;
use vstd::prelude::*;

verus! {

/// Typed JSON value used for a transition parameter default. A number that is no
/// integer is kept in the shortest decimal spelling of its binary64 value.
#[derive(Clone, Debug, Eq)]
pub enum TransitionParameterValue {
    Integer(i64),
    Number(String),
    String(String),
}

/// Whether a spelling is one of the two of zero.
pub open spec fn spells_zero(text: Seq<char>) -> bool {
    text == "0"@ || text == "-0"@
}

/// Whether two default values are equal: zero is equal to its negative.
pub open spec fn same_default(a: DefaultView, b: DefaultView) -> bool {
    a == b || (a matches DefaultView::Number(x) && b matches DefaultView::Number(y)
        && spells_zero(x) && spells_zero(y))
}

fn is_zero_spelling(text: &str) -> (zero: bool)
    ensures
        zero == spells_zero(text@),
{
    text_eq(text, "0") || text_eq(text, "-0")
}

impl PartialEq for TransitionParameterValue {
    fn eq(&self, other: &Self) -> (equal: bool) {
        match (self, other) {
            (TransitionParameterValue::Integer(a), TransitionParameterValue::Integer(b)) => *a
                == *b,
            (TransitionParameterValue::Number(a), TransitionParameterValue::Number(b)) => text_eq(
                a.as_str(),
                b.as_str(),
            ) || (is_zero_spelling(a.as_str()) && is_zero_spelling(b.as_str())),
            (TransitionParameterValue::String(a), TransitionParameterValue::String(b)) => text_eq(
                a.as_str(),
                b.as_str(),
            ),
            _ => false,
        }
    }
}

impl vstd::std_specs::cmp::PartialEqSpecImpl for TransitionParameterValue {
    open spec fn obeys_eq_spec() -> bool {
        true
    }

    open spec fn eq_spec(&self, other: &Self) -> bool {
        same_default(self@, other@)
    }
}

/// Public capability data for one transition parameter.
#[derive(Clone, Debug, PartialEq, Eq)]
pub struct TransitionParameterCapability {
    pub name: String,
    pub value_type: TransitionParameterType,
    pub allowed_values: Vec<String>,
    pub required: bool,
    pub default_value: Option<TransitionParameterValue>,
    pub constraint: Option<String>,
}

/// Public capability data for one transition.
#[derive(Clone, Debug, PartialEq, Eq)]
pub struct TransitionCapability {
    pub name: String,
    pub class: TransitionClass,
    pub scopes: TransitionScopes,
    pub experimental: bool,
    pub requirements: Vec<String>,
    pub parameters: Vec<TransitionParameterCapability>,
}

/// Public capability snapshot returned by a daemon.
#[derive(Clone, Debug, PartialEq, Eq)]
pub struct CapabilitiesResponse {
    pub schema_version: u32,
    pub protocol_version: u32,
    pub daemon_mode: DaemonMode,
    pub transitions: Vec<TransitionCapability>,
}

/// Current transition status for an output.
#[derive(Clone, Copy, Debug, PartialEq, Eq, Structural)]
pub enum TransitionState {
    Idle,
    Running { transition: Transition },
}

/// Renderer state known for one output in health responses.
#[derive(Clone, Debug, PartialEq, Eq)]
pub struct HealthOutput {
    pub name: String,
    pub layout_x: i32,
    pub layout_y: i32,
    pub width: i32,
    pub height: i32,
    pub power_state: String,
    pub render_state: String,
    pub restore_pending: bool,
    pub current_image: Option<String>,
    pub transition_target_image: Option<String>,
    pub scale_mode: ScaleMode,
    pub transition_state: TransitionState,
    pub queue_depth: usize,
    pub frame_callback_pending: bool,
    pub render_pending: bool,
}

/// Health response containing supervisor and renderer liveness state.
#[derive(Clone, Debug, PartialEq, Eq)]
pub struct HealthResponse {
    pub role: String,
    pub supervisor_pid: Option<u32>,
    pub renderer_pid: Option<u32>,
    pub renderer_generation: u64,
    pub renderer_state: String,
    pub restart_count: u64,
    pub last_error: Option<String>,
    pub last_diagnostic: Option<String>,
    pub outputs: Vec<HealthOutput>,
}

/// Renderer state known for one output.
#[derive(Clone, Debug, PartialEq, Eq)]
pub struct OutputState {
    pub name: String,
    pub current_image: Option<String>,
    pub scale_mode: ScaleMode,
    pub transition_state: TransitionState,
    pub queue_depth: usize,
}

/// Query response containing current daemon state.
#[derive(Clone, Debug, PartialEq, Eq)]
pub struct QueryResponse {
    pub outputs: Vec<OutputState>,
}

/// One output/path row in a high-level wallpaper response.
#[derive(Clone, Debug, PartialEq, Eq)]
pub struct WallpaperEntry {
    pub index: usize,
    pub output: String,
    pub favorite: bool,
    pub path: String,
}

/// Response payload for high-level wallpaper-library actions.
#[derive(Clone, Debug, PartialEq, Eq)]
pub struct WallpaperResponse {
    pub action: String,
    pub message: String,
    pub entries: Vec<WallpaperEntry>,
    pub favorites: Vec<String>,
}

/// Response payload for canvas thumbnail cache actions.
#[derive(Clone, Debug, PartialEq, Eq)]
pub struct CacheResponse {
    pub action: String,
    pub message: String,
    pub ready: usize,
    pub pending: usize,
    pub scheduled: usize,
    pub failed: usize,
    pub backend: String,
}

/// A response returned by the daemon.
#[derive(Clone, Debug, PartialEq, Eq)]
pub enum Response {
    Pong { version: u32 },
    Capabilities(CapabilitiesResponse),
    Ack { message: String },
    Health(Box<HealthResponse>),
    Query(QueryResponse),
    Wallpaper(WallpaperResponse),
    Cache(CacheResponse),
    Error { message: String },
}

/// A capability snapshot, as a mathematical value.
pub struct CapabilitiesView {
    pub schema_version: u32,
    pub protocol_version: u32,
    pub daemon_mode: DaemonMode,
    pub transitions: Seq<CapabilityView>,
}

/// The health of an output, as a mathematical value.
pub struct HealthOutputView {
    pub name: Seq<char>,
    pub layout_x: i32,
    pub layout_y: i32,
    pub width: i32,
    pub height: i32,
    pub power_state: Seq<char>,
    pub render_state: Seq<char>,
    pub restore_pending: bool,
    pub current_image: Option<Seq<char>>,
    pub transition_target_image: Option<Seq<char>>,
    pub scale_mode: ScaleMode,
    pub transition_state: TransitionState,
    pub queue_depth: usize,
    pub frame_callback_pending: bool,
    pub render_pending: bool,
}

/// A health response, as a mathematical value.
pub struct HealthView {
    pub role: Seq<char>,
    pub supervisor_pid: Option<u32>,
    pub renderer_pid: Option<u32>,
    pub renderer_generation: u64,
    pub renderer_state: Seq<char>,
    pub restart_count: u64,
    pub last_error: Option<Seq<char>>,
    pub last_diagnostic: Option<Seq<char>>,
    pub outputs: Seq<HealthOutputView>,
}

/// The state of an output, as a mathematical value.
pub struct OutputView {
    pub name: Seq<char>,
    pub current_image: Option<Seq<char>>,
    pub scale_mode: ScaleMode,
    pub transition_state: TransitionState,
    pub queue_depth: usize,
}

/// A row of a wallpaper response, as a mathematical value.
pub struct EntryView {
    pub index: usize,
    pub output: Seq<char>,
    pub favorite: bool,
    pub path: Seq<char>,
}

/// A wallpaper response, as a mathematical value.
pub struct WallpaperView {
    pub action: Seq<char>,
    pub message: Seq<char>,
    pub entries: Seq<EntryView>,
    pub favorites: Seq<Seq<char>>,
}

/// A cache response, as a mathematical value.
pub struct CacheView {
    pub action: Seq<char>,
    pub message: Seq<char>,
    pub ready: usize,
    pub pending: usize,
    pub scheduled: usize,
    pub failed: usize,
    pub backend: Seq<char>,
}

/// A response, as a mathematical value.
pub enum ResponseView {
    Pong(u32),
    Capabilities(CapabilitiesView),
    Ack(Seq<char>),
    Health(HealthView),
    Query(Seq<OutputView>),
    Wallpaper(WallpaperView),
    Cache(CacheView),
    Error(Seq<char>),
}

impl View for TransitionParameterValue {
    type V = DefaultView;

    open spec fn view(&self) -> DefaultView {
        match self {
            TransitionParameterValue::Integer(value) => DefaultView::Integer(*value),
            TransitionParameterValue::Number(text) => DefaultView::Number(text@),
            TransitionParameterValue::String(text) => DefaultView::Text(text@),
        }
    }
}

/// A default value that may be missing.
pub open spec fn value_if(value: Option<TransitionParameterValue>) -> Option<DefaultView> {
    match value {
        Some(value) => Some(value@),
        None => None,
    }
}

impl View for TransitionParameterCapability {
    type V = ParameterView;

    open spec fn view(&self) -> ParameterView {
        ParameterView {
            name: self.name@,
            value_type: self.value_type,
            allowed_values: text::texts(self.allowed_values@),
            required: self.required,
            default_value: value_if(self.default_value),
            constraint: text::text_if(self.constraint),
        }
    }
}

impl View for TransitionCapability {
    type V = CapabilityView;

    open spec fn view(&self) -> CapabilityView {
        CapabilityView {
            name: self.name@,
            class: self.class,
            scopes: self.scopes,
            experimental: self.experimental,
            requirements: text::texts(self.requirements@),
            parameters: parameters_of(self.parameters@),
        }
    }
}

impl View for CapabilitiesResponse {
    type V = CapabilitiesView;

    open spec fn view(&self) -> CapabilitiesView {
        CapabilitiesView {
            schema_version: self.schema_version,
            protocol_version: self.protocol_version,
            daemon_mode: self.daemon_mode,
            transitions: capabilities_of(self.transitions@),
        }
    }
}

impl View for HealthOutput {
    type V = HealthOutputView;

    open spec fn view(&self) -> HealthOutputView {
        HealthOutputView {
            name: self.name@,
            layout_x: self.layout_x,
            layout_y: self.layout_y,
            width: self.width,
            height: self.height,
            power_state: self.power_state@,
            render_state: self.render_state@,
            restore_pending: self.restore_pending,
            current_image: text::text_if(self.current_image),
            transition_target_image: text::text_if(self.transition_target_image),
            scale_mode: self.scale_mode,
            transition_state: self.transition_state,
            queue_depth: self.queue_depth,
            frame_callback_pending: self.frame_callback_pending,
            render_pending: self.render_pending,
        }
    }
}

impl View for HealthResponse {
    type V = HealthView;

    open spec fn view(&self) -> HealthView {
        HealthView {
            role: self.role@,
            supervisor_pid: self.supervisor_pid,
            renderer_pid: self.renderer_pid,
            renderer_generation: self.renderer_generation,
            renderer_state: self.renderer_state@,
            restart_count: self.restart_count,
            last_error: text::text_if(self.last_error),
            last_diagnostic: text::text_if(self.last_diagnostic),
            outputs: health_outputs_of(self.outputs@),
        }
    }
}

impl View for OutputState {
    type V = OutputView;

    open spec fn view(&self) -> OutputView {
        OutputView {
            name: self.name@,
            current_image: text::text_if(self.current_image),
            scale_mode: self.scale_mode,
            transition_state: self.transition_state,
            queue_depth: self.queue_depth,
        }
    }
}

impl View for WallpaperEntry {
    type V = EntryView;

    open spec fn view(&self) -> EntryView {
        EntryView {
            index: self.index,
            output: self.output@,
            favorite: self.favorite,
            path: self.path@,
        }
    }
}

impl View for WallpaperResponse {
    type V = WallpaperView;

    open spec fn view(&self) -> WallpaperView {
        WallpaperView {
            action: self.action@,
            message: self.message@,
            entries: entries_of(self.entries@),
            favorites: text::texts(self.favorites@),
        }
    }
}

impl View for CacheResponse {
    type V = CacheView;

    open spec fn view(&self) -> CacheView {
        CacheView {
            action: self.action@,
            message: self.message@,
            ready: self.ready,
            pending: self.pending,
            scheduled: self.scheduled,
            failed: self.failed,
            backend: self.backend@,
        }
    }
}

impl View for Response {
    type V = ResponseView;

    open spec fn view(&self) -> ResponseView {
        match self {
            Response::Pong { version } => ResponseView::Pong(*version),
            Response::Capabilities(capabilities) => ResponseView::Capabilities(capabilities@),
            Response::Ack { message } => ResponseView::Ack(message@),
            Response::Health(health) => ResponseView::Health(health@),
            Response::Query(query) => ResponseView::Query(output_states_of(query.outputs@)),
            Response::Wallpaper(response) => ResponseView::Wallpaper(response@),
            Response::Cache(response) => ResponseView::Cache(response@),
            Response::Error { message } => ResponseView::Error(message@),
        }
    }
}

// ---------------------------------------------------------------------------
// The capabilities of a daemon

/// How a default value is shown.
pub open spec fn default_text(value: DefaultView) -> Seq<char> {
    match value {
        DefaultView::Integer(value) => text::signed_text(value as int),
        DefaultView::Number(text) => text,
        DefaultView::Text(text) => text,
    }
}

impl TransitionParameterValue {
    /// How this value is shown.
    pub fn to_text(&self) -> (text: String)
        ensures
            text@ == default_text(self@),
    {
        match self {
            TransitionParameterValue::Integer(value) => decimal_i64(*value),
            TransitionParameterValue::Number(text) => copy_text(text.as_str()),
            TransitionParameterValue::String(text) => copy_text(text.as_str()),
        }
    }
}

/// The scopes in which a daemon of a mode offers a transition: a standalone daemon
/// offers no world transition.
pub open spec fn offered_scopes(
    kind: TransitionKind,
    scopes: TransitionScopes,
    mode: DaemonMode,
) -> TransitionScopes {
    if mode == DaemonMode::Standalone && kind == TransitionKind::World {
        TransitionScopes { explicit_set: false, wallpaper_actions: false }
    } else {
        scopes
    }
}

/// The capability that a daemon of a mode has for a transition.
pub open spec fn offered(entry: (TransitionKind, CapabilityView), mode: DaemonMode) -> CapabilityView {
    CapabilityView { scopes: offered_scopes(entry.0, entry.1.scopes, mode), ..entry.1 }
}

/// The capabilities of a daemon of a mode.
pub open spec fn current_capabilities(mode: DaemonMode) -> CapabilitiesView {
    CapabilitiesView {
        schema_version: CAPABILITIES_SCHEMA_VERSION,
        protocol_version: PROTOCOL_VERSION,
        daemon_mode: mode,
        transitions: Seq::new(
            registry::registry().len(),
            |i: int| offered(registry::registry()[i], mode),
        ),
    }
}

fn copy_names(list: &Vec<&'static str>) -> (copy: Vec<String>)
    ensures
        text::texts(copy@) == registry::names(list@),
{
    let mut copy: Vec<String> = Vec::new();
    let mut i: usize = 0;
    while i < list.len()
        invariant
            i <= list@.len(),
            text::texts(copy@) == registry::names(list@).take(i as int),
        decreases list@.len() - i,
    {
        let ghost before = copy@;
        copy.push(copy_text(list[i]));
        assert(text::texts(copy@) =~= text::texts(before).push(list@[i as int]@));
        i = i + 1;
        assert(text::texts(copy@) =~= registry::names(list@).take(i as int));
    }
    assert(text::texts(copy@) =~= registry::names(list@));
    copy
}

impl TransitionParameterCapability {
    /// The capability that a descriptor describes.
    pub fn from_descriptor(descriptor: &TransitionParameterDescriptor) -> (capability: Self)
        ensures
            capability@ == descriptor@,
    {
        TransitionParameterCapability {
            name: copy_text(descriptor.name),
            value_type: descriptor.value_type,
            allowed_values: copy_names(&descriptor.allowed_values),
            required: descriptor.required,
            default_value: match &descriptor.default_value {
                Some(TransitionParameterDefault::Integer(value)) => Some(
                    TransitionParameterValue::Integer(*value),
                ),
                Some(TransitionParameterDefault::Number(text)) => Some(
                    TransitionParameterValue::Number(copy_text(text)),
                ),
                Some(TransitionParameterDefault::String(text)) => Some(
                    TransitionParameterValue::String(copy_text(text)),
                ),
                None => None,
            },
            constraint: match &descriptor.constraint {
                Some(text) => Some(copy_text(text)),
                None => None,
            },
        }
    }
}

impl TransitionCapability {
    fn from_descriptor(descriptor: &TransitionDescriptor, daemon_mode: DaemonMode) -> (capability:
        Self)
        ensures
            capability@ == offered(descriptor@, daemon_mode),
    {
        let scopes = if daemon_mode == DaemonMode::Standalone && descriptor.kind
            == TransitionKind::World {
            TransitionScopes { explicit_set: false, wallpaper_actions: false }
        } else {
            descriptor.scopes
        };
        let mut parameters: Vec<TransitionParameterCapability> = Vec::new();
        let mut i: usize = 0;
        while i < descriptor.parameters.len()
            invariant
                i <= descriptor.parameters@.len(),
                parameters_of(parameters@) == registry::parameter_views(descriptor.parameters@).take(
                    i as int,
                ),
            decreases descriptor.parameters@.len() - i,
        {
            let ghost before = parameters@;
            parameters.push(
                TransitionParameterCapability::from_descriptor(&descriptor.parameters[i]),
            );
            assert(parameters_of(parameters@) =~= parameters_of(before).push(
                descriptor.parameters@[i as int]@,
            ));
            i = i + 1;
            assert(parameters_of(parameters@) =~= registry::parameter_views(descriptor.parameters@).take(
                i as int,
            ));
        }
        assert(parameters_of(parameters@) =~= registry::parameter_views(descriptor.parameters@));
        TransitionCapability {
            name: copy_text(descriptor.name),
            class: descriptor.class,
            scopes,
            experimental: descriptor.experimental,
            requirements: copy_names(&descriptor.requirements),
            parameters,
        }
    }
}

impl CapabilitiesResponse {
    /// Build a capability snapshot from the compiled-in transition registry.
    pub fn current(daemon_mode: DaemonMode) -> (response: Self)
        ensures
            response@ == current_capabilities(daemon_mode),
    {
        let descriptors = transition_registry();
        let mut transitions: Vec<TransitionCapability> = Vec::new();
        let ghost all = current_capabilities(daemon_mode).transitions;
        let mut i: usize = 0;
        while i < descriptors.len()
            invariant
                i <= descriptors@.len(),
                registry::descriptor_views(descriptors@) == registry::registry(),
                all == current_capabilities(daemon_mode).transitions,
                capabilities_of(transitions@) == all.take(i as int),
            decreases descriptors@.len() - i,
        {
            let ghost before = transitions@;
            transitions.push(
                TransitionCapability::from_descriptor(&descriptors[i], daemon_mode),
            );
            assert(registry::descriptor_views(descriptors@)[i as int] == descriptors@[i as int]@);
            assert(capabilities_of(transitions@) =~= capabilities_of(before).push(all[i as int]));
            i = i + 1;
            assert(capabilities_of(transitions@) =~= all.take(i as int));
        }
        assert(registry::descriptor_views(descriptors@).len() == descriptors@.len());
        assert(capabilities_of(transitions@) =~= all);
        CapabilitiesResponse {
            schema_version: CAPABILITIES_SCHEMA_VERSION,
            protocol_version: PROTOCOL_VERSION,
            daemon_mode,
            transitions,
        }
    }
}

/// A standalone daemon offers the world transition in no scope, and otherwise the two
/// kinds of daemon offer the same.
pub proof fn law_modes_differ_only_in_world_scopes(i: int)
    requires
        0 <= i < registry::registry().len(),
    ensures
        registry::registry()[i].0 == TransitionKind::World
            ==> !current_capabilities(DaemonMode::Standalone).transitions[i].scopes.explicit_set
            && !current_capabilities(
            DaemonMode::Standalone,
        ).transitions[i].scopes.wallpaper_actions,
        registry::registry()[i].0 != TransitionKind::World ==> current_capabilities(
            DaemonMode::Standalone,
        ).transitions[i] == current_capabilities(DaemonMode::Supervisor).transitions[i],
        current_capabilities(DaemonMode::Supervisor).transitions[i] == registry::registry()[i].1,
{
}

// ---------------------------------------------------------------------------
// Writing

/// The JSON form of a text that may be missing.
pub open spec fn text_if_json(text: Option<Seq<char>>) -> Json {
    match text {
        Some(text) => Json::Str(text),
        None => Json::Null,
    }
}

fn encode_text_if(text: &Option<String>) -> (result: JsonText)
    ensures
        result.tree() == text_if_json(text::text_if(*text)),
{
    match text {
        Some(text) => JsonText::string(text.as_str()),
        None => JsonText::null(),
    }
}

/// The JSON form of a number that may be missing.
pub open spec fn number_if_json(value: Option<u32>) -> Json {
    match value {
        Some(value) => request::number_json(value as nat),
        None => Json::Null,
    }
}

fn encode_optional_u32(value: Option<u32>) -> (result: JsonText)
    ensures
        result.tree() == number_if_json(value),
{
    match value {
        Some(value) => JsonText::unsigned(value as u64),
        None => JsonText::null(),
    }
}

/// The JSON form of a default value.
pub open spec fn default_json(value: Option<DefaultView>) -> Json {
    match value {
        Some(DefaultView::Integer(value)) => Json::Number(text::signed_text(value as int)),
        Some(DefaultView::Number(text)) => Json::Number(text),
        Some(DefaultView::Text(text)) => Json::Str(text),
        None => Json::Null,
    }
}

fn encode_default(value: &Option<TransitionParameterValue>) -> (result: JsonText)
    ensures
        result.tree() == default_json(value_if(*value)),
{
    match value {
        Some(TransitionParameterValue::Integer(value)) => JsonText::signed(*value),
        Some(TransitionParameterValue::Number(text)) => JsonText::number(copy_text(text.as_str())),
        Some(TransitionParameterValue::String(text)) => JsonText::string(text.as_str()),
        None => JsonText::null(),
    }
}

/// The JSON form of the schema of a parameter.
pub open spec fn parameter_json(parameter: ParameterView) -> Json {
    Json::Object(
        seq![
            ("name"@, Json::Str(parameter.name)),
            ("type"@, Json::Str(parameter.value_type.name())),
            ("allowed_values"@, request::text_list_json(parameter.allowed_values)),
            ("required"@, Json::Bool(parameter.required)),
            ("default"@, default_json(parameter.default_value)),
            ("constraint"@, text_if_json(parameter.constraint)),
        ],
    )
}

fn encode_parameter(parameter: &TransitionParameterCapability) -> (result: JsonText)
    ensures
        result.tree() == parameter_json(parameter@),
{
    ObjectText::new().add("name", JsonText::string(parameter.name.as_str())).add(
        "type",
        JsonText::string(parameter.value_type.as_str()),
    ).add("allowed_values", encode_string_array(&parameter.allowed_values)).add(
        "required",
        JsonText::boolean(parameter.required),
    ).add("default", encode_default(&parameter.default_value)).add(
        "constraint",
        encode_text_if(&parameter.constraint),
    ).finish(Ghost(parameter_json(parameter@)))
}

/// The JSON form of a list of parameter schemas.
pub open spec fn parameters_of_json(list: Seq<ParameterView>) -> Json {
    Json::Array(Seq::new(list.len(), |i: int| parameter_json(list[i])))
}

fn encode_transition_parameter_capabilities(list: &Vec<TransitionParameterCapability>) -> (result: JsonText)
    ensures
        result.tree() == parameters_of_json(parameters_of(list@)),
{
    let ghost items = parameters_of(list@);
    let ghost all = Seq::new(items.len(), |i: int| parameter_json(items[i]));
    let mut array = ArrayText::new();
    let mut i: usize = 0;
    assert(array.values() =~= all.take(0));
    while i < list.len()
        invariant
            i <= list@.len(),
            items == parameters_of(list@),
            all == Seq::new(items.len(), |k: int| parameter_json(items[k])),
            array.values() == all.take(i as int),
        decreases list@.len() - i,
    {
        array = array.add(encode_parameter(&list[i]));
        i = i + 1;
        assert(array.values() =~= all.take(i as int));
    }
    assert(all.take(i as int) =~= all);
    array.done()
}

/// The JSON form of a capability.
pub open spec fn capability_json(capability: CapabilityView) -> Json {
    Json::Object(
        seq![
            ("name"@, Json::Str(capability.name)),
            ("class"@, Json::Str(capability.class.name())),
            ("scopes"@, scopes_json(capability.scopes)),
            ("experimental"@, Json::Bool(capability.experimental)),
            ("requirements"@, request::text_list_json(capability.requirements)),
            ("parameters"@, parameters_of_json(capability.parameters)),
        ],
    )
}

/// The JSON form of the scopes of a transition.
pub open spec fn scopes_json(scopes: TransitionScopes) -> Json {
    Json::Object(
        seq![
            ("explicit_set"@, Json::Bool(scopes.explicit_set)),
            ("wallpaper_actions"@, Json::Bool(scopes.wallpaper_actions)),
        ],
    )
}

fn encode_scopes(scopes: TransitionScopes) -> (result: JsonText)
    ensures
        result.tree() == scopes_json(scopes),
{
    ObjectText::new().add("explicit_set", JsonText::boolean(scopes.explicit_set)).add(
        "wallpaper_actions",
        JsonText::boolean(scopes.wallpaper_actions),
    ).finish(Ghost(scopes_json(scopes)))
}

fn encode_capability(capability: &TransitionCapability) -> (result: JsonText)
    ensures
        result.tree() == capability_json(capability@),
{
    ObjectText::new().add("name", JsonText::string(capability.name.as_str())).add(
        "class",
        JsonText::string(capability.class.as_str()),
    ).add("scopes", encode_scopes(capability.scopes)).add(
        "experimental",
        JsonText::boolean(capability.experimental),
    ).add("requirements", encode_string_array(&capability.requirements)).add(
        "parameters",
        encode_transition_parameter_capabilities(&capability.parameters),
    ).finish(Ghost(capability_json(capability@)))
}

/// The JSON form of a list of capabilities.
pub open spec fn capabilities_of_json(list: Seq<CapabilityView>) -> Json {
    Json::Array(Seq::new(list.len(), |i: int| capability_json(list[i])))
}

fn encode_transition_capabilities(list: &Vec<TransitionCapability>) -> (result: JsonText)
    ensures
        result.tree() == capabilities_of_json(capabilities_of(list@)),
{
    let ghost items = capabilities_of(list@);
    let ghost all = Seq::new(items.len(), |i: int| capability_json(items[i]));
    let mut array = ArrayText::new();
    let mut i: usize = 0;
    assert(array.values() =~= all.take(0));
    while i < list.len()
        invariant
            i <= list@.len(),
            items == capabilities_of(list@),
            all == Seq::new(items.len(), |k: int| capability_json(items[k])),
            array.values() == all.take(i as int),
        decreases list@.len() - i,
    {
        array = array.add(encode_capability(&list[i]));
        i = i + 1;
        assert(array.values() =~= all.take(i as int));
    }
    assert(all.take(i as int) =~= all);
    array.done()
}

/// The JSON form of the transition status of an output.
pub open spec fn state_json(state: TransitionState) -> Json {
    match state {
        TransitionState::Idle => Json::Object(seq![("state"@, Json::Str("idle"@))]),
        TransitionState::Running { transition } => Json::Object(
            seq![
                ("state"@, Json::Str("running"@)),
                ("transition"@, request::transition_json(transition)),
            ],
        ),
    }
}

fn encode_transition_state(state: TransitionState) -> (result: JsonText)
    ensures
        result.tree() == state_json(state),
{
    match state {
        TransitionState::Idle => ObjectText::new().add("state", JsonText::string("idle")).finish(
            Ghost(state_json(state)),
        ),
        TransitionState::Running { transition } => ObjectText::new().add(
            "state",
            JsonText::string("running"),
        ).add("transition", encode_transition(transition)).finish(Ghost(state_json(state))),
    }
}

/// The JSON form of the health of an output.
pub open spec fn health_output_json(output: HealthOutputView) -> Json {
    Json::Object(
        seq![
            ("name"@, Json::Str(output.name)),
            ("layout_x"@, Json::Number(text::signed_text(output.layout_x as int))),
            ("layout_y"@, Json::Number(text::signed_text(output.layout_y as int))),
            ("width"@, Json::Number(text::signed_text(output.width as int))),
            ("height"@, Json::Number(text::signed_text(output.height as int))),
            ("power_state"@, Json::Str(output.power_state)),
            ("render_state"@, Json::Str(output.render_state)),
            ("restore_pending"@, Json::Bool(output.restore_pending)),
            ("current_image"@, text_if_json(output.current_image)),
            ("transition_target_image"@, text_if_json(output.transition_target_image)),
            ("scale_mode"@, Json::Str(output.scale_mode.name())),
            ("transition_state"@, state_json(output.transition_state)),
            ("queue_depth"@, request::number_json(output.queue_depth as nat)),
            ("frame_callback_pending"@, Json::Bool(output.frame_callback_pending)),
            ("render_pending"@, Json::Bool(output.render_pending)),
        ],
    )
}

fn encode_health_output(output: &HealthOutput) -> (result: JsonText)
    ensures
        result.tree() == health_output_json(output@),
{
    ObjectText::new().add("name", JsonText::string(output.name.as_str())).add(
        "layout_x",
        JsonText::signed(output.layout_x as i64),
    ).add("layout_y", JsonText::signed(output.layout_y as i64)).add(
        "width",
        JsonText::signed(output.width as i64),
    ).add("height", JsonText::signed(output.height as i64)).add(
        "power_state",
        JsonText::string(output.power_state.as_str()),
    ).add("render_state", JsonText::string(output.render_state.as_str())).add(
        "restore_pending",
        JsonText::boolean(output.restore_pending),
    ).add("current_image", encode_text_if(&output.current_image)).add(
        "transition_target_image",
        encode_text_if(&output.transition_target_image),
    ).add("scale_mode", JsonText::string(output.scale_mode.as_str())).add(
        "transition_state",
        encode_transition_state(output.transition_state),
    ).add("queue_depth", JsonText::size(output.queue_depth)).add(
        "frame_callback_pending",
        JsonText::boolean(output.frame_callback_pending),
    ).add("render_pending", JsonText::boolean(output.render_pending)).finish(
        Ghost(health_output_json(output@)),
    )
}

/// The JSON form of the health of the outputs.
pub open spec fn health_outputs_of_json(list: Seq<HealthOutputView>) -> Json {
    Json::Array(Seq::new(list.len(), |i: int| health_output_json(list[i])))
}

fn encode_health_outputs(list: &Vec<HealthOutput>) -> (result: JsonText)
    ensures
        result.tree() == health_outputs_of_json(health_outputs_of(list@)),
{
    let ghost items = health_outputs_of(list@);
    let ghost all = Seq::new(items.len(), |i: int| health_output_json(items[i]));
    let mut array = ArrayText::new();
    let mut i: usize = 0;
    assert(array.values() =~= all.take(0));
    while i < list.len()
        invariant
            i <= list@.len(),
            items == health_outputs_of(list@),
            all == Seq::new(items.len(), |k: int| health_output_json(items[k])),
            array.values() == all.take(i as int),
        decreases list@.len() - i,
    {
        array = array.add(encode_health_output(&list[i]));
        i = i + 1;
        assert(array.values() =~= all.take(i as int));
    }
    assert(all.take(i as int) =~= all);
    array.done()
}

/// The JSON form of the state of an output.
pub open spec fn output_json(output: OutputView) -> Json {
    Json::Object(
        seq![
            ("name"@, Json::Str(output.name)),
            ("current_image"@, text_if_json(output.current_image)),
            ("scale_mode"@, Json::Str(output.scale_mode.name())),
            ("transition_state"@, state_json(output.transition_state)),
            ("queue_depth"@, request::number_json(output.queue_depth as nat)),
        ],
    )
}

/// The states of a list of outputs.
pub open spec fn output_states_of(list: Seq<OutputState>) -> Seq<OutputView> {
    Seq::new(list.len(), |i: int| list[i]@)
}

fn encode_output(output: &OutputState) -> (result: JsonText)
    ensures
        result.tree() == output_json(output@),
{
    ObjectText::new().add("name", JsonText::string(output.name.as_str())).add(
        "current_image",
        encode_text_if(&output.current_image),
    ).add("scale_mode", JsonText::string(output.scale_mode.as_str())).add(
        "transition_state",
        encode_transition_state(output.transition_state),
    ).add("queue_depth", JsonText::size(output.queue_depth)).finish(Ghost(output_json(output@)))
}

/// The JSON form of the states of the outputs.
pub open spec fn output_states_of_json(list: Seq<OutputView>) -> Json {
    Json::Array(Seq::new(list.len(), |i: int| output_json(list[i])))
}

fn encode_outputs(list: &Vec<OutputState>) -> (result: JsonText)
    ensures
        result.tree() == output_states_of_json(output_states_of(list@)),
{
    let ghost items = output_states_of(list@);
    let ghost all = Seq::new(items.len(), |i: int| output_json(items[i]));
    let mut array = ArrayText::new();
    let mut i: usize = 0;
    assert(array.values() =~= all.take(0));
    while i < list.len()
        invariant
            i <= list@.len(),
            items == output_states_of(list@),
            all == Seq::new(items.len(), |k: int| output_json(items[k])),
            array.values() == all.take(i as int),
        decreases list@.len() - i,
    {
        array = array.add(encode_output(&list[i]));
        i = i + 1;
        assert(array.values() =~= all.take(i as int));
    }
    assert(all.take(i as int) =~= all);
    array.done()
}

/// The JSON form of a row of a wallpaper response.
pub open spec fn entry_json(entry: EntryView) -> Json {
    Json::Object(
        seq![
            ("index"@, request::number_json(entry.index as nat)),
            ("output"@, Json::Str(entry.output)),
            ("favorite"@, Json::Bool(entry.favorite)),
            ("path"@, Json::Str(entry.path)),
        ],
    )
}

fn encode_entry(entry: &WallpaperEntry) -> (result: JsonText)
    ensures
        result.tree() == entry_json(entry@),
{
    ObjectText::new().add("index", JsonText::size(entry.index)).add(
        "output",
        JsonText::string(entry.output.as_str()),
    ).add("favorite", JsonText::boolean(entry.favorite)).add(
        "path",
        JsonText::string(entry.path.as_str()),
    ).finish(Ghost(entry_json(entry@)))
}

/// The JSON form of the rows of a wallpaper response.
pub open spec fn entries_of_json(list: Seq<EntryView>) -> Json {
    Json::Array(Seq::new(list.len(), |i: int| entry_json(list[i])))
}

fn encode_wallpaper_entries(list: &Vec<WallpaperEntry>) -> (result: JsonText)
    ensures
        result.tree() == entries_of_json(entries_of(list@)),
{
    let ghost items = entries_of(list@);
    let ghost all = Seq::new(items.len(), |i: int| entry_json(items[i]));
    let mut array = ArrayText::new();
    let mut i: usize = 0;
    assert(array.values() =~= all.take(0));
    while i < list.len()
        invariant
            i <= list@.len(),
            items == entries_of(list@),
            all == Seq::new(items.len(), |k: int| entry_json(items[k])),
            array.values() == all.take(i as int),
        decreases list@.len() - i,
    {
        array = array.add(encode_entry(&list[i]));
        i = i + 1;
        assert(array.values() =~= all.take(i as int));
    }
    assert(all.take(i as int) =~= all);
    array.done()
}

/// The JSON form of a response.
pub open spec fn response_json(response: ResponseView) -> Json {
    match response {
        ResponseView::Pong(version) => Json::Object(
            seq![
                ("status"@, Json::Str("ok"@)),
                ("type"@, Json::Str("pong"@)),
                ("version"@, request::number_json(version as nat)),
            ],
        ),
        ResponseView::Capabilities(capabilities) => Json::Object(
            seq![
                ("status"@, Json::Str("ok"@)),
                ("type"@, Json::Str("capabilities"@)),
                ("schema_version"@, request::number_json(capabilities.schema_version as nat)),
                ("protocol_version"@, request::number_json(capabilities.protocol_version as nat)),
                ("daemon_mode"@, Json::Str(capabilities.daemon_mode.name())),
                ("transitions"@, capabilities_of_json(capabilities.transitions)),
            ],
        ),
        ResponseView::Ack(message) => Json::Object(
            seq![
                ("status"@, Json::Str("ok"@)),
                ("type"@, Json::Str("ack"@)),
                ("message"@, Json::Str(message)),
            ],
        ),
        ResponseView::Health(health) => Json::Object(
            seq![
                ("status"@, Json::Str("ok"@)),
                ("type"@, Json::Str("health"@)),
                ("role"@, Json::Str(health.role)),
                ("supervisor_pid"@, number_if_json(health.supervisor_pid)),
                ("renderer_pid"@, number_if_json(health.renderer_pid)),
                ("renderer_generation"@, request::number_json(health.renderer_generation as nat)),
                ("renderer_state"@, Json::Str(health.renderer_state)),
                ("restart_count"@, request::number_json(health.restart_count as nat)),
                ("last_error"@, text_if_json(health.last_error)),
                ("last_diagnostic"@, text_if_json(health.last_diagnostic)),
                ("outputs"@, health_outputs_of_json(health.outputs)),
            ],
        ),
        ResponseView::Query(outputs) => Json::Object(
            seq![
                ("status"@, Json::Str("ok"@)),
                ("type"@, Json::Str("query"@)),
                ("outputs"@, output_states_of_json(outputs)),
            ],
        ),
        ResponseView::Wallpaper(response) => Json::Object(
            seq![
                ("status"@, Json::Str("ok"@)),
                ("type"@, Json::Str("wallpaper"@)),
                ("action"@, Json::Str(response.action)),
                ("message"@, Json::Str(response.message)),
                ("entries"@, entries_of_json(response.entries)),
                ("favorites"@, request::text_list_json(response.favorites)),
            ],
        ),
        ResponseView::Cache(response) => Json::Object(
            seq![
                ("status"@, Json::Str("ok"@)),
                ("type"@, Json::Str("cache"@)),
                ("action"@, Json::Str(response.action)),
                ("message"@, Json::Str(response.message)),
                ("ready"@, request::number_json(response.ready as nat)),
                ("pending"@, request::number_json(response.pending as nat)),
                ("scheduled"@, request::number_json(response.scheduled as nat)),
                ("failed"@, request::number_json(response.failed as nat)),
                ("backend"@, Json::Str(response.backend)),
            ],
        ),
        ResponseView::Error(message) => Json::Object(
            seq![("status"@, Json::Str("error"@)), ("message"@, Json::Str(message))],
        ),
    }
}

impl Response {
    /// Serialize this response as compact JSON.
    pub fn to_json(&self) -> (text: String)
        ensures
            text@ == json::encoded(response_json(self@)),
    {
        let ok = ObjectText::new().add("status", JsonText::string("ok"));
        let result = match self {
            Response::Pong { version } => ok.add("type", JsonText::string("pong")).add(
                "version",
                JsonText::unsigned(*version as u64),
            ).finish(Ghost(response_json(self@))),
            Response::Capabilities(capabilities) => ok.add(
                "type",
                JsonText::string("capabilities"),
            ).add("schema_version", JsonText::unsigned(capabilities.schema_version as u64)).add(
                "protocol_version",
                JsonText::unsigned(capabilities.protocol_version as u64),
            ).add("daemon_mode", JsonText::string(capabilities.daemon_mode.as_str())).add(
                "transitions",
                encode_transition_capabilities(&capabilities.transitions),
            ).finish(Ghost(response_json(self@))),
            Response::Ack { message } => ok.add("type", JsonText::string("ack")).add(
                "message",
                JsonText::string(message.as_str()),
            ).finish(Ghost(response_json(self@))),
            Response::Health(health) => ok.add("type", JsonText::string("health")).add(
                "role",
                JsonText::string(health.role.as_str()),
            ).add("supervisor_pid", encode_optional_u32(health.supervisor_pid)).add(
                "renderer_pid",
                encode_optional_u32(health.renderer_pid),
            ).add("renderer_generation", JsonText::unsigned(health.renderer_generation)).add(
                "renderer_state",
                JsonText::string(health.renderer_state.as_str()),
            ).add("restart_count", JsonText::unsigned(health.restart_count)).add(
                "last_error",
                encode_text_if(&health.last_error),
            ).add("last_diagnostic", encode_text_if(&health.last_diagnostic)).add(
                "outputs",
                encode_health_outputs(&health.outputs),
            ).finish(Ghost(response_json(self@))),
            Response::Query(query) => ok.add("type", JsonText::string("query")).add(
                "outputs",
                encode_outputs(&query.outputs),
            ).finish(Ghost(response_json(self@))),
            Response::Wallpaper(response) => ok.add("type", JsonText::string("wallpaper")).add(
                "action",
                JsonText::string(response.action.as_str()),
            ).add("message", JsonText::string(response.message.as_str())).add(
                "entries",
                encode_wallpaper_entries(&response.entries),
            ).add("favorites", encode_string_array(&response.favorites)).finish(
                Ghost(response_json(self@)),
            ),
            Response::Cache(response) => ok.add("type", JsonText::string("cache")).add(
                "action",
                JsonText::string(response.action.as_str()),
            ).add("message", JsonText::string(response.message.as_str())).add(
                "ready",
                JsonText::size(response.ready),
            ).add("pending", JsonText::size(response.pending)).add(
                "scheduled",
                JsonText::size(response.scheduled),
            ).add("failed", JsonText::size(response.failed)).add(
                "backend",
                JsonText::string(response.backend.as_str()),
            ).finish(Ghost(response_json(self@))),
            Response::Error { message } => ObjectText::new().add(
                "status",
                JsonText::string("error"),
            ).add("message", JsonText::string(message.as_str())).finish(
                Ghost(response_json(self@)),
            ),
        };
        result.into_text()
    }
}

// ---------------------------------------------------------------------------
// Reading

/// The text of the field `status`, where the text holds an object with one.
pub open spec fn status_in(input: Seq<char>) -> Option<(Seq<char>, Seq<(Seq<char>, Json)>)> {
    match json::json_in(input) {
        Ok(Json::Object(fields)) => match textmap::entries_get(fields, "status"@) {
            Some(Json::Str(status)) => Some((status, fields)),
            _ => None,
        },
        _ => None,
    }
}

/// Whether a text is a response with error status.
pub open spec fn is_error_said(input: Seq<char>) -> bool {
    status_in(input) matches Some((status, _)) && status == "error"@
}

/// The message of a text that is a response with error status.
pub open spec fn error_said(input: Seq<char>) -> Option<Seq<char>> {
    match status_in(input) {
        Some((status, fields)) => if status == "error"@ {
            match textmap::entries_get(fields, "message"@) {
                Some(Json::Str(message)) => Some(message),
                _ => None,
            }
        } else {
            None
        },
        None => None,
    }
}

/// Return true if a response JSON string has error status.
///
/// This is intentionally small and tolerant because the CLI only needs to set a
/// non-zero exit status after printing the daemon's raw response.
pub fn response_is_error(response_json: &str) -> (result: bool)
    ensures
        result == is_error_said(response_json@),
{
    match parse_json(response_json) {
        Err(_) => false,
        Ok(json) => match json.shape() {
            Shape::Object(object) => match field(object, "status") {
                None => false,
                Some(value) => match value.shape() {
                    Shape::String(status) => text_eq(status, "error"),
                    _ => false,
                },
            },
            _ => false,
        },
    }
}

/// Return an error response message, if the JSON is a protocol error response.
pub fn response_error_message(response_json: &str) -> (result: Option<String>)
    ensures
        text::text_if(result) == error_said(response_json@),
{
    match parse_json(response_json) {
        Err(_) => None,
        Ok(json) => match json.shape() {
            Shape::Object(object) => match field(object, "status") {
                None => None,
                Some(value) => match value.shape() {
                    Shape::String(status) => {
                        if !text_eq(status, "error") {
                            return None;
                        }
                        match field(object, "message") {
                            None => None,
                            Some(message) => match message.shape() {
                                Shape::String(text) => Some(copy_text(text)),
                                _ => None,
                            },
                        }
                    },
                    _ => None,
                },
            },
            _ => None,
        },
    }
}

/// That a response has the status `ok` and a type, or the message that it has not.
/// The message of an error response is its own, or `fallback`.
pub open spec fn response_check(
    fields: Seq<(Seq<char>, Json)>,
    kind: Seq<char>,
    fallback: Seq<char>,
) -> Result<(), Seq<char>> {
    match fields::text_field(fields, "status"@) {
        Err(message) => Err(message),
        Ok(status) => if status == "ok"@ {
            match fields::text_field(fields, "type"@) {
                Err(message) => Err(message),
                Ok(found) => if found == kind {
                    Ok(())
                } else {
                    Err("expected "@ + kind + " response, got "@ + found)
                },
            }
        } else if status == "error"@ {
            match fields::text_field_or(fields, "message"@, fallback) {
                Err(message) => Err(message),
                Ok(message) => Err(message),
            }
        } else {
            Err("unknown response status: "@ + status)
        },
    }
}

fn check_response(object: &TextMap<JsonValue>, kind: &str, fallback: &str) -> (result: Result<
    (),
    ProtocolError,
>)
    ensures
        error::agrees(result, response_check(json::fields_of(object), kind@, fallback@)),
{
    let status = required_string(object, "status")?;
    if text_eq(status, "ok") {
        let found = required_string(object, "type")?;
        if text_eq(found, kind) {
            Ok(())
        } else {
            Err(ProtocolError::new(concat4("expected ", kind, " response, got ", found)))
        }
    } else if text_eq(status, "error") {
        Err(ProtocolError::new(text_or(object, "message", fallback)?))
    } else {
        Err(ProtocolError::new(concat2("unknown response status: ", status)))
    }
}

/// The transition status in the fields of an output.
pub open spec fn state_field(fields: Seq<(Seq<char>, Json)>) -> Result<
    TransitionState,
    Seq<char>,
> {
    match textmap::entries_get(fields, "transition_state"@) {
        None => Ok(TransitionState::Idle),
        Some(value) => match json::object_in(value) {
            Err(message) => Err(message),
            Ok(inner) => match fields::text_field(inner, "state"@) {
                Err(message) => Err(message),
                Ok(state) => if state == "idle"@ {
                    Ok(TransitionState::Idle)
                } else if state == "running"@ {
                    match textmap::entries_get(inner, "transition"@) {
                        None => Err(fields::missing("transition"@)),
                        Some(value) => match request::transition_in(value) {
                            Err(message) => Err(message),
                            Ok(transition) => Ok(TransitionState::Running { transition }),
                        },
                    }
                } else {
                    Err("unknown transition state: "@ + state)
                },
            },
        },
    }
}

fn parse_transition_state_field(object: &TextMap<JsonValue>) -> (result: Result<
    TransitionState,
    ProtocolError,
>)
    ensures
        error::agrees(result, state_field(json::fields_of(object))),
{
    let inner = match field(object, "transition_state") {
        None => {
            return Ok(TransitionState::Idle);
        },
        Some(value) => value.as_object()?,
    };
    let state = required_string(inner, "state")?;
    if text_eq(state, "idle") {
        Ok(TransitionState::Idle)
    } else if text_eq(state, "running") {
        match field(inner, "transition") {
            None => Err(missing_field("transition")),
            Some(value) => {
                let transition = parse_transition(value)?;
                Ok(TransitionState::Running { transition })
            },
        }
    } else {
        Err(ProtocolError::new(concat2("unknown transition state: ", state)))
    }
}

/// The place and size of an output.
pub open spec fn geometry_in(fields: Seq<(Seq<char>, Json)>) -> Result<
    (i32, i32, i32, i32),
    Seq<char>,
> {
    match fields::i32_field_or_zero(fields, "layout_x"@) {
        Err(message) => Err(message),
        Ok(x) => match fields::i32_field_or_zero(fields, "layout_y"@) {
            Err(message) => Err(message),
            Ok(y) => match fields::i32_field_or_zero(fields, "width"@) {
                Err(message) => Err(message),
                Ok(width) => match fields::i32_field_or_zero(fields, "height"@) {
                    Err(message) => Err(message),
                    Ok(height) => Ok((x as i32, y as i32, width as i32, height as i32)),
                },
            },
        },
    }
}

/// The health of an output that a JSON value describes.
pub open spec fn health_output_in(value: Json) -> Result<HealthOutputView, Seq<char>> {
    match json::object_in(value) {
        Err(message) => Err(message),
        Ok(fields) => match fields::text_field(fields, "name"@) {
            Err(message) => Err(message),
            Ok(name) => match geometry_in(fields) {
                Err(message) => Err(message),
                Ok((layout_x, layout_y, width, height)) => match fields::text_field_or(
                    fields,
                    "power_state"@,
                    "unknown"@,
                ) {
                    Err(message) => Err(message),
                    Ok(power_state) => match fields::text_field_or(
                        fields,
                        "render_state"@,
                        "unknown"@,
                    ) {
                        Err(message) => Err(message),
                        Ok(render_state) => match fields::flag_field_or(
                            fields,
                            "restore_pending"@,
                            false,
                        ) {
                            Err(message) => Err(message),
                            Ok(restore_pending) => match fields::nullable_text_field(
                                fields,
                                "current_image"@,
                            ) {
                                Err(message) => Err(message),
                                Ok(current_image) => health_output_rest_in(
                                    fields,
                                    HealthOutputView {
                                        name,
                                        layout_x,
                                        layout_y,
                                        width,
                                        height,
                                        power_state,
                                        render_state,
                                        restore_pending,
                                        current_image,
                                        transition_target_image: None,
                                        scale_mode: ScaleMode::Fill,
                                        transition_state: TransitionState::Idle,
                                        queue_depth: 0,
                                        frame_callback_pending: false,
                                        render_pending: false,
                                    },
                                ),
                            },
                        },
                    },
                },
            },
        },
    }
}

/// The health of an output with the fields from the target image on read.
pub open spec fn health_output_rest_in(
    fields: Seq<(Seq<char>, Json)>,
    done: HealthOutputView,
) -> Result<HealthOutputView, Seq<char>> {
    match fields::nullable_text_field(fields, "transition_target_image"@) {
        Err(message) => Err(message),
        Ok(transition_target_image) => match request::scale_mode_field(fields) {
            Err(message) => Err(message),
            Ok(scale_mode) => match state_field(fields) {
                Err(message) => Err(message),
                Ok(transition_state) => match fields::unsigned_field_or(
                    fields,
                    "queue_depth"@,
                    usize::MAX as nat,
                    0,
                ) {
                    Err(message) => Err(message),
                    Ok(queue_depth) => match fields::flag_field_or(
                        fields,
                        "frame_callback_pending"@,
                        false,
                    ) {
                        Err(message) => Err(message),
                        Ok(frame_callback_pending) => match fields::flag_field_or(
                            fields,
                            "render_pending"@,
                            false,
                        ) {
                            Err(message) => Err(message),
                            Ok(render_pending) => Ok(
                                HealthOutputView {
                                    transition_target_image,
                                    scale_mode,
                                    transition_state,
                                    queue_depth: queue_depth as usize,
                                    frame_callback_pending,
                                    render_pending,
                                    ..done
                                },
                            ),
                        },
                    },
                },
            },
        },
    }
}

fn parse_health_output(value: &JsonValue) -> (result: Result<HealthOutput, ProtocolError>)
    ensures
        error::agrees_view(result, health_output_in(json::json_of(*value))),
{
    let object = value.as_object()?;
    let name = required_text(object, "name")?;
    let layout_x: i32 = i32_or_zero(object, "layout_x")?;
    let layout_y: i32 = i32_or_zero(object, "layout_y")?;
    let width: i32 = i32_or_zero(object, "width")?;
    let height: i32 = i32_or_zero(object, "height")?;
    let power_state = text_or(object, "power_state", "unknown")?;
    let render_state = text_or(object, "render_state", "unknown")?;
    let restore_pending = flag_or(object, "restore_pending", false)?;
    let current_image = optional_nullable_string(object, "current_image")?;
    let transition_target_image = optional_nullable_string(object, "transition_target_image")?;
    let scale_mode = read_scale_mode_field(object)?;
    let transition_state = parse_transition_state_field(object)?;
    let queue_depth: usize = usize_or(object, "queue_depth", 0)?;
    let frame_callback_pending = flag_or(object, "frame_callback_pending", false)?;
    let render_pending = flag_or(object, "render_pending", false)?;
    Ok(
        HealthOutput {
            name,
            layout_x,
            layout_y,
            width,
            height,
            power_state,
            render_state,
            restore_pending,
            current_image,
            transition_target_image,
            scale_mode,
            transition_state,
            queue_depth,
            frame_callback_pending,
            render_pending,
        },
    )
}

/// The health of a list of outputs.
pub open spec fn health_outputs_of(list: Seq<HealthOutput>) -> Seq<HealthOutputView> {
    Seq::new(list.len(), |i: int| list[i]@)
}

fn parse_health_outputs(values: &Vec<JsonValue>) -> (result: Result<Vec<HealthOutput>, ProtocolError>)
    ensures
        match (result, fields::each_in(json::jsons_of(values@), |value: Json| health_output_in(value))) {
            (Ok(list), Ok(expected)) => health_outputs_of(list@) == expected,
            (Err(error), Err(message)) => error@ == message,
            _ => false,
        },
{
    let ghost jsons = json::jsons_of(values@);
    let ghost read = |value: Json| health_output_in(value);
    proof {
        json::lemma_jsons_of(values@);
    }
    let mut list: Vec<HealthOutput> = Vec::new();
    let mut i: usize = 0;
    assert(jsons.take(0) =~= Seq::<Json>::empty());
    assert(health_outputs_of(list@) =~= Seq::<HealthOutputView>::empty());
    while i < values.len()
        invariant
            i <= values@.len(),
            jsons == json::jsons_of(values@),
            jsons.len() == values@.len(),
            read == (|value: Json| health_output_in(value)),
            forall|k: int| 0 <= k < values@.len() ==> #[trigger] jsons[k] == json::json_of(values@[k]),
            fields::each_in(jsons.take(i as int), read) == Ok::<Seq<HealthOutputView>, Seq<char>>(
                health_outputs_of(list@),
            ),
        decreases values@.len() - i,
    {
        proof {
            assert(jsons.take(i + 1).drop_last() =~= jsons.take(i as int));
            assert(jsons.take(i + 1).last() == jsons[i as int]);
        }
        match parse_health_output(&values[i]) {
            Err(error) => {
                proof {
                    fields::lemma_each_error_stays(jsons, read, i + 1);
                }
                return Err(error);
            },
            Ok(item) => {
                let ghost before = list@;
                list.push(item);
                assert(health_outputs_of(list@) =~= health_outputs_of(before).push(item@));
            },
        }
        i = i + 1;
    }
    assert(jsons.take(i as int) =~= jsons);
    Ok(list)
}

/// The process ids of a health response.
pub open spec fn pids_in(fields: Seq<(Seq<char>, Json)>) -> Result<
    (Option<u32>, Option<u32>),
    Seq<char>,
> {
    match fields::unsigned_field(fields, "supervisor_pid"@, u32::MAX as nat, true) {
        Err(message) => Err(message),
        Ok(supervisor) => match fields::unsigned_field(fields, "renderer_pid"@, u32::MAX as nat, true) {
            Err(message) => Err(message),
            Ok(renderer) => Ok((pid_if(supervisor), pid_if(renderer))),
        },
    }
}

/// A process id that may be missing.
pub open spec fn pid_if(value: Option<nat>) -> Option<u32> {
    match value {
        Some(value) => Some(value as u32),
        None => None,
    }
}

/// The health response that the fields of an object describe.
pub open spec fn health_in_fields(fields: Seq<(Seq<char>, Json)>) -> Result<
    HealthView,
    Seq<char>,
> {
    match response_check(fields, "health"@, "health request failed"@) {
        Err(message) => Err(message),
        Ok(_) => match fields::list_field(fields, "outputs"@, false) {
            Err(message) => Err(message),
            Ok(values) => match fields::each_in(values, |value: Json| health_output_in(value)) {
                Err(message) => Err(message),
                Ok(outputs) => match fields::text_field(fields, "role"@) {
                    Err(message) => Err(message),
                    Ok(role) => match pids_in(fields) {
                        Err(message) => Err(message),
                        Ok((supervisor_pid, renderer_pid)) => health_rest_in(
                            fields,
                            HealthView {
                                role,
                                supervisor_pid,
                                renderer_pid,
                                renderer_generation: 0,
                                renderer_state: Seq::empty(),
                                restart_count: 0,
                                last_error: None,
                                last_diagnostic: None,
                                outputs,
                            },
                        ),
                    },
                },
            },
        },
    }
}

/// The health response with the fields from the generation on read.
pub open spec fn health_rest_in(fields: Seq<(Seq<char>, Json)>, done: HealthView) -> Result<
    HealthView,
    Seq<char>,
> {
    match fields::unsigned_field_or(fields, "renderer_generation"@, u64::MAX as nat, 0) {
        Err(message) => Err(message),
        Ok(generation) => match fields::text_field_or(fields, "renderer_state"@, "unknown"@) {
            Err(message) => Err(message),
            Ok(renderer_state) => match fields::unsigned_field_or(
                fields,
                "restart_count"@,
                u64::MAX as nat,
                0,
            ) {
                Err(message) => Err(message),
                Ok(restart_count) => match fields::nullable_text_field(fields, "last_error"@) {
                    Err(message) => Err(message),
                    Ok(last_error) => match fields::nullable_text_field(fields, "last_diagnostic"@) {
                        Err(message) => Err(message),
                        Ok(last_diagnostic) => Ok(
                            HealthView {
                                renderer_generation: generation as u64,
                                renderer_state,
                                restart_count: restart_count as u64,
                                last_error,
                                last_diagnostic,
                                ..done
                            },
                        ),
                    },
                },
            },
        },
    }
}

/// The health response that a text holds.
pub open spec fn health_in(input: Seq<char>) -> Result<HealthView, Seq<char>> {
    match json::json_in(input) {
        Err(message) => Err(message),
        Ok(json) => match json::object_in(json) {
            Err(message) => Err(message),
            Ok(fields) => health_in_fields(fields),
        },
    }
}

/// Parse the health response emitted by the daemon.
pub fn parse_health_response(input: &str) -> (result: Result<HealthResponse, ProtocolError>)
    ensures
        error::agrees_view(result, health_in(input@)),
{
    let json = parse_json(input)?;
    let object = json.as_object()?;
    check_response(object, "health", "health request failed")?;
    let outputs = match list_of(object, "outputs", false)? {
        Some(values) => parse_health_outputs(values)?,
        None => {
            let none: Vec<HealthOutput> = Vec::new();
            assert(health_outputs_of(none@) =~= Seq::<HealthOutputView>::empty());
            none
        },
    };
    let role = required_text(object, "role")?;
    let supervisor_pid = optional_u32(object, "supervisor_pid")?;
    let renderer_pid = optional_u32(object, "renderer_pid")?;
    let renderer_generation: u64 = u64_or(object, "renderer_generation", 0)?;
    let renderer_state = text_or(object, "renderer_state", "unknown")?;
    let restart_count: u64 = u64_or(object, "restart_count", 0)?;
    let last_error = optional_nullable_string(object, "last_error")?;
    let last_diagnostic = optional_nullable_string(object, "last_diagnostic")?;
    Ok(
        HealthResponse {
            role,
            supervisor_pid,
            renderer_pid,
            renderer_generation,
            renderer_state,
            restart_count,
            last_error,
            last_diagnostic,
            outputs,
        },
    )
}

/// The row of a wallpaper response that a JSON value describes.
pub open spec fn entry_in(value: Json) -> Result<EntryView, Seq<char>> {
    match json::object_in(value) {
        Err(message) => Err(message),
        Ok(fields) => match fields::needed_unsigned_field(fields, "index"@, usize::MAX as nat, false) {
            Err(message) => Err(message),
            Ok(index) => match fields::text_field(fields, "output"@) {
                Err(message) => Err(message),
                Ok(output) => match fields::flag_field_or(fields, "favorite"@, false) {
                    Err(message) => Err(message),
                    Ok(favorite) => match fields::text_field(fields, "path"@) {
                        Err(message) => Err(message),
                        Ok(path) => Ok(
                            EntryView { index: index as usize, output, favorite, path },
                        ),
                    },
                },
            },
        },
    }
}

fn parse_wallpaper_entry(value: &JsonValue) -> (result: Result<WallpaperEntry, ProtocolError>)
    ensures
        error::agrees_view(result, entry_in(json::json_of(*value))),
{
    let object = value.as_object()?;
    let index: usize = required_usize(object, "index")?;
    let output = required_text(object, "output")?;
    let favorite = flag_or(object, "favorite", false)?;
    let path = required_text(object, "path")?;
    Ok(WallpaperEntry { index, output, favorite, path })
}

/// The rows of a wallpaper response.
pub open spec fn entries_of(list: Seq<WallpaperEntry>) -> Seq<EntryView> {
    Seq::new(list.len(), |i: int| list[i]@)
}

fn parse_wallpaper_entries(values: &Vec<JsonValue>) -> (result: Result<Vec<WallpaperEntry>, ProtocolError>)
    ensures
        match (result, fields::each_in(json::jsons_of(values@), |value: Json| entry_in(value))) {
            (Ok(list), Ok(expected)) => entries_of(list@) == expected,
            (Err(error), Err(message)) => error@ == message,
            _ => false,
        },
{
    let ghost jsons = json::jsons_of(values@);
    let ghost read = |value: Json| entry_in(value);
    proof {
        json::lemma_jsons_of(values@);
    }
    let mut list: Vec<WallpaperEntry> = Vec::new();
    let mut i: usize = 0;
    assert(jsons.take(0) =~= Seq::<Json>::empty());
    assert(entries_of(list@) =~= Seq::<EntryView>::empty());
    while i < values.len()
        invariant
            i <= values@.len(),
            jsons == json::jsons_of(values@),
            jsons.len() == values@.len(),
            read == (|value: Json| entry_in(value)),
            forall|k: int| 0 <= k < values@.len() ==> #[trigger] jsons[k] == json::json_of(values@[k]),
            fields::each_in(jsons.take(i as int), read) == Ok::<Seq<EntryView>, Seq<char>>(
                entries_of(list@),
            ),
        decreases values@.len() - i,
    {
        proof {
            assert(jsons.take(i + 1).drop_last() =~= jsons.take(i as int));
            assert(jsons.take(i + 1).last() == jsons[i as int]);
        }
        match parse_wallpaper_entry(&values[i]) {
            Err(error) => {
                proof {
                    fields::lemma_each_error_stays(jsons, read, i + 1);
                }
                return Err(error);
            },
            Ok(item) => {
                let ghost before = list@;
                list.push(item);
                assert(entries_of(list@) =~= entries_of(before).push(item@));
            },
        }
        i = i + 1;
    }
    assert(jsons.take(i as int) =~= jsons);
    Ok(list)
}

/// The wallpaper response that the fields of an object describe.
pub open spec fn wallpaper_response_in_fields(fields: Seq<(Seq<char>, Json)>) -> Result<
    WallpaperView,
    Seq<char>,
> {
    match response_check(fields, "wallpaper"@, "wallpaper request failed"@) {
        Err(message) => Err(message),
        Ok(_) => match fields::list_field(fields, "entries"@, false) {
            Err(message) => Err(message),
            Ok(values) => match fields::each_in(values, |value: Json| entry_in(value)) {
                Err(message) => Err(message),
                Ok(entries) => match fields::strings_field(fields, "favorites"@, false) {
                    Err(message) => Err(message),
                    Ok(favorites) => match fields::text_field(fields, "action"@) {
                        Err(message) => Err(message),
                        Ok(action) => match fields::text_field_or(fields, "message"@, ""@) {
                            Err(message) => Err(message),
                            Ok(message) => Ok(
                                WallpaperView { action, message, entries, favorites },
                            ),
                        },
                    },
                },
            },
        },
    }
}

/// The wallpaper response that a text holds.
pub open spec fn wallpaper_response_in(input: Seq<char>) -> Result<WallpaperView, Seq<char>> {
    match json::json_in(input) {
        Err(message) => Err(message),
        Ok(json) => match json::object_in(json) {
            Err(message) => Err(message),
            Ok(fields) => wallpaper_response_in_fields(fields),
        },
    }
}

/// Parse the high-level wallpaper response emitted by the daemon.
pub fn parse_wallpaper_response(input: &str) -> (result: Result<WallpaperResponse, ProtocolError>)
    ensures
        error::agrees_view(result, wallpaper_response_in(input@)),
{
    let json = parse_json(input)?;
    let object = json.as_object()?;
    check_response(object, "wallpaper", "wallpaper request failed")?;
    let entries = match list_of(object, "entries", false)? {
        Some(values) => parse_wallpaper_entries(values)?,
        None => {
            let none: Vec<WallpaperEntry> = Vec::new();
            assert(entries_of(none@) =~= Seq::<EntryView>::empty());
            none
        },
    };
    let favorites = strings_or_none(object, "favorites", false)?;
    let action = required_text(object, "action")?;
    let message = text_or(object, "message", "")?;
    Ok(WallpaperResponse { action, message, entries, favorites })
}

/// The default value of a parameter in the fields of its schema.
pub open spec fn default_field(
    fields: Seq<(Seq<char>, Json)>,
    value_type: TransitionParameterType,
) -> Result<Option<DefaultView>, Seq<char>> {
    match textmap::entries_get(fields, "default"@) {
        None => Err(fields::missing("default"@)),
        Some(Json::Null) => Ok(None),
        Some(Json::Str(text)) => if value_type == TransitionParameterType::Enum || value_type
            == TransitionParameterType::IntegerOrEnum {
            Ok(Some(DefaultView::Text(text)))
        } else {
            Err("field 'default' does not match parameter type '"@ + value_type.name() + "'"@)
        },
        Some(Json::Number(number)) => match value_type {
            TransitionParameterType::Enum => Err(
                "field 'default' does not match parameter type 'enum'"@,
            ),
            TransitionParameterType::Number => if scale::is_finite_number(number) {
                Ok(Some(DefaultView::Number(binary64::spelled(number))))
            } else {
                Err("field 'default' must be a finite JSON number"@)
            },
            _ => match text::signed_value(number, i64::MAX as nat) {
                Ok(value) => Ok(Some(DefaultView::Integer(value as i64))),
                Err(_) => Err("integer field 'default' is out of range"@),
            },
        },
        Some(_) => Err("field 'default' must be an integer, number, string, or null"@),
    }
}

fn parse_transition_parameter_default(
    object: &TextMap<JsonValue>,
    value_type: TransitionParameterType,
) -> (result: Result<Option<TransitionParameterValue>, ProtocolError>)
    ensures
        match (result, default_field(json::fields_of(object), value_type)) {
            (Ok(value), Ok(expected)) => value_if(value) == expected,
            (Err(error), Err(message)) => error@ == message,
            _ => false,
        },
{
    let value = match field(object, "default") {
        None => {
            return Err(missing_field("default"));
        },
        Some(value) => value,
    };
    match value.shape() {
        Shape::Null => Ok(None),
        Shape::String(text) => {
            if value_type == TransitionParameterType::Enum || value_type
                == TransitionParameterType::IntegerOrEnum {
                Ok(Some(TransitionParameterValue::String(copy_text(text))))
            } else {
                Err(
                    ProtocolError::new(
                        concat3(
                            "field 'default' does not match parameter type '",
                            value_type.as_str(),
                            "'",
                        ),
                    ),
                )
            }
        },
        Shape::Number(number) => match value_type {
            TransitionParameterType::Enum => Err(
                ProtocolError::of("field 'default' does not match parameter type 'enum'"),
            ),
            TransitionParameterType::Number => {
                if is_finite_text(number) {
                    Ok(Some(TransitionParameterValue::Number(spell(number))))
                } else {
                    Err(ProtocolError::of("field 'default' must be a finite JSON number"))
                }
            },
            _ => match parse_i64(number) {
                Ok(value) => Ok(Some(TransitionParameterValue::Integer(value))),
                Err(_) => Err(ProtocolError::of("integer field 'default' is out of range")),
            },
        },
        _ => Err(
            ProtocolError::of("field 'default' must be an integer, number, string, or null"),
        ),
    }
}

/// The schema of a parameter that a JSON value describes.
pub open spec fn parameter_in(value: Json) -> Result<ParameterView, Seq<char>> {
    match json::object_in(value) {
        Err(message) => Err(message),
        Ok(fields) => match fields::text_field(fields, "type"@) {
            Err(message) => Err(message),
            Ok(type_text) => match TransitionParameterType::named(type_text) {
                None => Err("unknown transition parameter type: "@ + type_text),
                Some(value_type) => match fields::strings_field(fields, "allowed_values"@, false) {
                    Err(message) => Err(message),
                    Ok(allowed_values) => match fields::text_field(fields, "name"@) {
                        Err(message) => Err(message),
                        Ok(name) => match fields::flag_field(fields, "required"@) {
                            Err(message) => Err(message),
                            Ok(required) => match default_field(fields, value_type) {
                                Err(message) => Err(message),
                                Ok(default_value) => match fields::nullable_text_field(
                                    fields,
                                    "constraint"@,
                                ) {
                                    Err(message) => Err(message),
                                    Ok(constraint) => Ok(
                                        ParameterView {
                                            name,
                                            value_type,
                                            allowed_values,
                                            required,
                                            default_value,
                                            constraint,
                                        },
                                    ),
                                },
                            },
                        },
                    },
                },
            },
        },
    }
}

fn parse_transition_parameter_capability(value: &JsonValue) -> (result: Result<
    TransitionParameterCapability,
    ProtocolError,
>)
    ensures
        error::agrees_view(result, parameter_in(json::json_of(*value))),
{
    let object = value.as_object()?;
    let type_text = required_string(object, "type")?;
    let value_type = match TransitionParameterType::parse(type_text) {
        None => {
            return Err(
                ProtocolError::new(concat2("unknown transition parameter type: ", type_text)),
            );
        },
        Some(value_type) => value_type,
    };
    let allowed_values = strings_or_none(object, "allowed_values", false)?;
    let name = required_text(object, "name")?;
    let required = required_bool(object, "required")?;
    let default_value = parse_transition_parameter_default(object, value_type)?;
    let constraint = optional_nullable_string(object, "constraint")?;
    Ok(
        TransitionParameterCapability {
            name,
            value_type,
            allowed_values,
            required,
            default_value,
            constraint,
        },
    )
}

/// The schemas of a list of parameters.
pub open spec fn parameters_of(list: Seq<TransitionParameterCapability>) -> Seq<ParameterView> {
    Seq::new(list.len(), |i: int| list[i]@)
}

fn parse_parameters(values: &Vec<JsonValue>) -> (result: Result<Vec<TransitionParameterCapability>, ProtocolError>)
    ensures
        match (result, fields::each_in(json::jsons_of(values@), |value: Json| parameter_in(value))) {
            (Ok(list), Ok(expected)) => parameters_of(list@) == expected,
            (Err(error), Err(message)) => error@ == message,
            _ => false,
        },
{
    let ghost jsons = json::jsons_of(values@);
    let ghost read = |value: Json| parameter_in(value);
    proof {
        json::lemma_jsons_of(values@);
    }
    let mut list: Vec<TransitionParameterCapability> = Vec::new();
    let mut i: usize = 0;
    assert(jsons.take(0) =~= Seq::<Json>::empty());
    assert(parameters_of(list@) =~= Seq::<ParameterView>::empty());
    while i < values.len()
        invariant
            i <= values@.len(),
            jsons == json::jsons_of(values@),
            jsons.len() == values@.len(),
            read == (|value: Json| parameter_in(value)),
            forall|k: int| 0 <= k < values@.len() ==> #[trigger] jsons[k] == json::json_of(values@[k]),
            fields::each_in(jsons.take(i as int), read) == Ok::<Seq<ParameterView>, Seq<char>>(
                parameters_of(list@),
            ),
        decreases values@.len() - i,
    {
        proof {
            assert(jsons.take(i + 1).drop_last() =~= jsons.take(i as int));
            assert(jsons.take(i + 1).last() == jsons[i as int]);
        }
        match parse_transition_parameter_capability(&values[i]) {
            Err(error) => {
                proof {
                    fields::lemma_each_error_stays(jsons, read, i + 1);
                }
                return Err(error);
            },
            Ok(item) => {
                let ghost before = list@;
                list.push(item);
                assert(parameters_of(list@) =~= parameters_of(before).push(item@));
            },
        }
        i = i + 1;
    }
    assert(jsons.take(i as int) =~= jsons);
    Ok(list)
}

/// The capability that a JSON value describes.
pub open spec fn capability_in(value: Json) -> Result<CapabilityView, Seq<char>> {
    match json::object_in(value) {
        Err(message) => Err(message),
        Ok(fields) => match fields::text_field(fields, "class"@) {
            Err(message) => Err(message),
            Ok(class_name) => match TransitionClass::named(class_name) {
                None => Err("unknown transition class: "@ + class_name),
                Some(class) => match textmap::entries_get(fields, "scopes"@) {
                    None => Err(fields::missing("scopes"@)),
                    Some(scopes) => match json::object_in(scopes) {
                        Err(message) => Err(message),
                        Ok(scopes) => capability_rest_in(fields, scopes, class),
                    },
                },
            },
        },
    }
}

/// The capability of a class, with its remaining fields read.
pub open spec fn capability_rest_in(
    fields: Seq<(Seq<char>, Json)>,
    scopes: Seq<(Seq<char>, Json)>,
    class: TransitionClass,
) -> Result<CapabilityView, Seq<char>> {
    match fields::list_field(fields, "parameters"@, false) {
        Err(message) => Err(message),
        Ok(values) => match fields::each_in(values, |value: Json| parameter_in(value)) {
            Err(message) => Err(message),
            Ok(parameters) => match fields::strings_field(fields, "requirements"@, false) {
                Err(message) => Err(message),
                Ok(requirements) => match fields::text_field(fields, "name"@) {
                    Err(message) => Err(message),
                    Ok(name) => match fields::flag_field_or(scopes, "explicit_set"@, false) {
                        Err(message) => Err(message),
                        Ok(explicit_set) => match fields::flag_field_or(
                            scopes,
                            "wallpaper_actions"@,
                            false,
                        ) {
                            Err(message) => Err(message),
                            Ok(wallpaper_actions) => match fields::flag_field_or(
                                fields,
                                "experimental"@,
                                false,
                            ) {
                                Err(message) => Err(message),
                                Ok(experimental) => Ok(
                                    CapabilityView {
                                        name,
                                        class,
                                        scopes: TransitionScopes {
                                            explicit_set,
                                            wallpaper_actions,
                                        },
                                        experimental,
                                        requirements,
                                        parameters,
                                    },
                                ),
                            },
                        },
                    },
                },
            },
        },
    }
}

fn parse_transition_capability(value: &JsonValue) -> (result: Result<
    TransitionCapability,
    ProtocolError,
>)
    ensures
        error::agrees_view(result, capability_in(json::json_of(*value))),
{
    let object = value.as_object()?;
    let class_name = required_string(object, "class")?;
    let class = match TransitionClass::parse(class_name) {
        None => {
            return Err(ProtocolError::new(concat2("unknown transition class: ", class_name)));
        },
        Some(class) => class,
    };
    let scopes = match field(object, "scopes") {
        None => {
            return Err(missing_field("scopes"));
        },
        Some(scopes) => scopes.as_object()?,
    };
    let parameters = match list_of(object, "parameters", false)? {
        Some(values) => parse_parameters(values)?,
        None => {
            let none: Vec<TransitionParameterCapability> = Vec::new();
            assert(parameters_of(none@) =~= Seq::<ParameterView>::empty());
            none
        },
    };
    let requirements = strings_or_none(object, "requirements", false)?;
    let name = required_text(object, "name")?;
    let explicit_set = flag_or(scopes, "explicit_set", false)?;
    let wallpaper_actions = flag_or(scopes, "wallpaper_actions", false)?;
    let experimental = flag_or(object, "experimental", false)?;
    Ok(
        TransitionCapability {
            name,
            class,
            scopes: TransitionScopes { explicit_set, wallpaper_actions },
            experimental,
            requirements,
            parameters,
        },
    )
}

/// The capabilities of a list of transitions.
pub open spec fn capabilities_of(list: Seq<TransitionCapability>) -> Seq<CapabilityView> {
    Seq::new(list.len(), |i: int| list[i]@)
}

fn parse_capabilities(values: &Vec<JsonValue>) -> (result: Result<Vec<TransitionCapability>, ProtocolError>)
    ensures
        match (result, fields::each_in(json::jsons_of(values@), |value: Json| capability_in(value))) {
            (Ok(list), Ok(expected)) => capabilities_of(list@) == expected,
            (Err(error), Err(message)) => error@ == message,
            _ => false,
        },
{
    let ghost jsons = json::jsons_of(values@);
    let ghost read = |value: Json| capability_in(value);
    proof {
        json::lemma_jsons_of(values@);
    }
    let mut list: Vec<TransitionCapability> = Vec::new();
    let mut i: usize = 0;
    assert(jsons.take(0) =~= Seq::<Json>::empty());
    assert(capabilities_of(list@) =~= Seq::<CapabilityView>::empty());
    while i < values.len()
        invariant
            i <= values@.len(),
            jsons == json::jsons_of(values@),
            jsons.len() == values@.len(),
            read == (|value: Json| capability_in(value)),
            forall|k: int| 0 <= k < values@.len() ==> #[trigger] jsons[k] == json::json_of(values@[k]),
            fields::each_in(jsons.take(i as int), read) == Ok::<Seq<CapabilityView>, Seq<char>>(
                capabilities_of(list@),
            ),
        decreases values@.len() - i,
    {
        proof {
            assert(jsons.take(i + 1).drop_last() =~= jsons.take(i as int));
            assert(jsons.take(i + 1).last() == jsons[i as int]);
        }
        match parse_transition_capability(&values[i]) {
            Err(error) => {
                proof {
                    fields::lemma_each_error_stays(jsons, read, i + 1);
                }
                return Err(error);
            },
            Ok(item) => {
                let ghost before = list@;
                list.push(item);
                assert(capabilities_of(list@) =~= capabilities_of(before).push(item@));
            },
        }
        i = i + 1;
    }
    assert(jsons.take(i as int) =~= jsons);
    Ok(list)
}

/// The capability snapshot that the fields of an object describe.
pub open spec fn capabilities_in_fields(fields: Seq<(Seq<char>, Json)>) -> Result<
    CapabilitiesView,
    Seq<char>,
> {
    match response_check(fields, "capabilities"@, "capabilities request failed"@) {
        Err(message) => Err(message),
        Ok(_) => match fields::needed_unsigned_field(fields, "schema_version"@, u32::MAX as nat, true) {
            Err(message) => Err(message),
            Ok(schema_version) => if schema_version != CAPABILITIES_SCHEMA_VERSION {
                Err(
                    "unsupported capabilities schema version "@ + text::decimal_text(schema_version)
                        + "; supported version is 1"@,
                )
            } else {
                match fields::needed_unsigned_field(fields, "protocol_version"@, u32::MAX as nat, true) {
                    Err(message) => Err(message),
                    Ok(protocol_version) => match fields::text_field(fields, "daemon_mode"@) {
                        Err(message) => Err(message),
                        Ok(mode_name) => match DaemonMode::named(mode_name) {
                            None => Err("unknown daemon mode: "@ + mode_name),
                            Some(daemon_mode) => match fields::list_field(
                                fields,
                                "transitions"@,
                                true,
                            ) {
                                Err(message) => Err(message),
                                Ok(values) => match fields::each_in(
                                    values,
                                    |value: Json| capability_in(value),
                                ) {
                                    Err(message) => Err(message),
                                    Ok(transitions) => Ok(
                                        CapabilitiesView {
                                            schema_version: schema_version as u32,
                                            protocol_version: protocol_version as u32,
                                            daemon_mode,
                                            transitions,
                                        },
                                    ),
                                },
                            },
                        },
                    },
                }
            },
        },
    }
}

/// The capability snapshot that a text holds.
pub open spec fn capabilities_in(input: Seq<char>) -> Result<CapabilitiesView, Seq<char>> {
    match json::json_in(input) {
        Err(message) => Err(message),
        Ok(json) => match json::object_in(json) {
            Err(message) => Err(message),
            Ok(fields) => capabilities_in_fields(fields),
        },
    }
}

/// Parse the capability response emitted by the daemon.
pub fn parse_capabilities_response(input: &str) -> (result: Result<
    CapabilitiesResponse,
    ProtocolError,
>)
    ensures
        error::agrees_view(result, capabilities_in(input@)),
{
    let json = parse_json(input)?;
    let object = json.as_object()?;
    check_response(object, "capabilities", "capabilities request failed")?;
    let schema_version: u32 = required_u32(object, "schema_version")?;
    if schema_version != CAPABILITIES_SCHEMA_VERSION {
        let found = decimal_u32(schema_version);
        return Err(
            ProtocolError::new(
                concat3(
                    "unsupported capabilities schema version ",
                    found.as_str(),
                    "; supported version is 1",
                ),
            ),
        );
    }
    let protocol_version: u32 = required_u32(object, "protocol_version")?;
    let mode_name = required_string(object, "daemon_mode")?;
    let daemon_mode = match DaemonMode::parse(mode_name) {
        None => {
            return Err(ProtocolError::new(concat2("unknown daemon mode: ", mode_name)));
        },
        Some(daemon_mode) => daemon_mode,
    };
    let transitions = match list_of(object, "transitions", true)? {
        Some(values) => parse_capabilities(values)?,
        None => {
            let none: Vec<TransitionCapability> = Vec::new();
            assert(capabilities_of(none@) =~= Seq::<CapabilityView>::empty());
            none
        },
    };
    Ok(
        CapabilitiesResponse { schema_version, protocol_version, daemon_mode, transitions },
    )
}

} // verus!
