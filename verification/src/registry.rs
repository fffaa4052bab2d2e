//! Compiled-in transition descriptors shared by configuration, protocol and CLI code.

use crate::protocol::{TransitionClass, TransitionKind, TransitionParameterType};
use vstd::prelude::*;

verus! {

/// Public request scopes supported by a transition.
#[derive(Clone, Copy, Debug, PartialEq, Eq, Structural)]
pub struct TransitionScopes {
    pub explicit_set: bool,
    pub wallpaper_actions: bool,
}

/// Typed default value compiled into a transition parameter descriptor. A number that
/// is no integer is given by its decimal spelling.
#[derive(Clone, Copy, Debug, PartialEq, Eq)]
pub enum TransitionParameterDefault {
    Integer(i64),
    Number(&'static str),
    String(&'static str),
}

/// Static schema for one transition parameter.
#[derive(Clone, Debug, PartialEq, Eq)]
pub struct TransitionParameterDescriptor {
    pub name: &'static str,
    pub value_type: TransitionParameterType,
    pub allowed_values: Vec<&'static str>,
    pub required: bool,
    pub default_value: Option<TransitionParameterDefault>,
    pub constraint: Option<&'static str>,
}

/// Static schema for one compiled-in transition.
#[derive(Clone, Debug, PartialEq, Eq)]
pub struct TransitionDescriptor {
    pub kind: TransitionKind,
    pub name: &'static str,
    pub class: TransitionClass,
    pub scopes: TransitionScopes,
    pub experimental: bool,
    pub requirements: Vec<&'static str>,
    pub parameters: Vec<TransitionParameterDescriptor>,
}

/// A default value, as a mathematical value.
pub enum DefaultView {
    Integer(i64),
    Number(Seq<char>),
    Text(Seq<char>),
}

/// The schema of a transition parameter, as a mathematical value.
pub struct ParameterView {
    pub name: Seq<char>,
    pub value_type: TransitionParameterType,
    pub allowed_values: Seq<Seq<char>>,
    pub required: bool,
    pub default_value: Option<DefaultView>,
    pub constraint: Option<Seq<char>>,
}

/// The schema of a transition, as a mathematical value.
pub struct CapabilityView {
    pub name: Seq<char>,
    pub class: TransitionClass,
    pub scopes: TransitionScopes,
    pub experimental: bool,
    pub requirements: Seq<Seq<char>>,
    pub parameters: Seq<ParameterView>,
}

/// The characters of each of a list of fixed texts.
pub open spec fn names(list: Seq<&'static str>) -> Seq<Seq<char>> {
    Seq::new(list.len(), |i: int| list[i]@)
}

impl View for TransitionParameterDefault {
    type V = DefaultView;

    open spec fn view(&self) -> DefaultView {
        match self {
            TransitionParameterDefault::Integer(value) => DefaultView::Integer(*value),
            TransitionParameterDefault::Number(text) => DefaultView::Number(text@),
            TransitionParameterDefault::String(text) => DefaultView::Text(text@),
        }
    }
}

impl View for TransitionParameterDescriptor {
    type V = ParameterView;

    open spec fn view(&self) -> ParameterView {
        ParameterView {
            name: self.name@,
            value_type: self.value_type,
            allowed_values: names(self.allowed_values@),
            required: self.required,
            default_value: match self.default_value {
                Some(value) => Some(value@),
                None => None,
            },
            constraint: match self.constraint {
                Some(text) => Some(text@),
                None => None,
            },
        }
    }
}

/// The schemas of a list of parameters.
pub open spec fn parameter_views(list: Seq<TransitionParameterDescriptor>) -> Seq<ParameterView> {
    Seq::new(list.len(), |i: int| list[i]@)
}

impl View for TransitionDescriptor {
    type V = (TransitionKind, CapabilityView);

    open spec fn view(&self) -> (TransitionKind, CapabilityView) {
        (
            self.kind,
            CapabilityView {
                name: self.name@,
                class: self.class,
                scopes: self.scopes,
                experimental: self.experimental,
                requirements: names(self.requirements@),
                parameters: parameter_views(self.parameters@),
            },
        )
    }
}

/// The schema of the parameter `duration_ms`.
pub open spec fn duration_parameter_view() -> ParameterView {
    ParameterView {
        name: "duration_ms"@,
        value_type: TransitionParameterType::Integer,
        allowed_values: Seq::empty(),
        required: false,
        default_value: Some(DefaultView::Integer(900)),
        constraint: Some("positive integer milliseconds"@),
    }
}

fn duration_parameter() -> (parameter: TransitionParameterDescriptor)
    ensures
        parameter@ == duration_parameter_view(),
{
    let parameter = TransitionParameterDescriptor {
        name: "duration_ms",
        value_type: TransitionParameterType::Integer,
        allowed_values: Vec::new(),
        required: false,
        default_value: Some(TransitionParameterDefault::Integer(900)),
        constraint: Some("positive integer milliseconds"),
    };
    assert(names(parameter.allowed_values@) =~= duration_parameter_view().allowed_values);
    parameter
}

/// The schema of the parameter `easing`.
pub open spec fn easing_parameter_view() -> ParameterView {
    ParameterView {
        name: "easing"@,
        value_type: TransitionParameterType::Enum,
        allowed_values: seq!["linear"@, "ease-out-cubic"@, "ease-in-out-cubic"@],
        required: false,
        default_value: Some(DefaultView::Text("ease-out-cubic"@)),
        constraint: None,
    }
}

fn easing_parameter() -> (parameter: TransitionParameterDescriptor)
    ensures
        parameter@ == easing_parameter_view(),
{
    let parameter = TransitionParameterDescriptor {
        name: "easing",
        value_type: TransitionParameterType::Enum,
        allowed_values: vec!["linear", "ease-out-cubic", "ease-in-out-cubic"],
        required: false,
        default_value: Some(TransitionParameterDefault::String("ease-out-cubic")),
        constraint: None,
    };
    assert(names(parameter.allowed_values@) =~= easing_parameter_view().allowed_values);
    parameter
}

/// The schema of the parameter `direction`.
pub open spec fn direction_parameter_view() -> ParameterView {
    ParameterView {
        name: "direction"@,
        value_type: TransitionParameterType::Enum,
        allowed_values: seq!["up"@, "down"@, "left"@, "right"@],
        required: true,
        default_value: None,
        constraint: None,
    }
}

fn direction_parameter() -> (parameter: TransitionParameterDescriptor)
    ensures
        parameter@ == direction_parameter_view(),
{
    let parameter = TransitionParameterDescriptor {
        name: "direction",
        value_type: TransitionParameterType::Enum,
        allowed_values: vec!["up", "down", "left", "right"],
        required: true,
        default_value: None,
        constraint: None,
    };
    assert(names(parameter.allowed_values@) =~= direction_parameter_view().allowed_values);
    parameter
}

/// The schema of the parameter `mode`.
pub open spec fn push_mode_parameter_view() -> ParameterView {
    ParameterView {
        name: "mode"@,
        value_type: TransitionParameterType::Enum,
        allowed_values: seq!["portal"@, "screen"@, "pan"@],
        required: false,
        default_value: Some(DefaultView::Text("portal"@)),
        constraint: Some("pan is experimental"@),
    }
}

fn push_mode_parameter() -> (parameter: TransitionParameterDescriptor)
    ensures
        parameter@ == push_mode_parameter_view(),
{
    let parameter = TransitionParameterDescriptor {
        name: "mode",
        value_type: TransitionParameterType::Enum,
        allowed_values: vec!["portal", "screen", "pan"],
        required: false,
        default_value: Some(TransitionParameterDefault::String("portal")),
        constraint: Some("pan is experimental"),
    };
    assert(names(parameter.allowed_values@) =~= push_mode_parameter_view().allowed_values);
    parameter
}

/// The schema of the parameter `zoom_out_ms`.
pub open spec fn zoom_out_parameter_view() -> ParameterView {
    ParameterView {
        name: "zoom_out_ms"@,
        value_type: TransitionParameterType::Integer,
        allowed_values: Seq::empty(),
        required: false,
        default_value: Some(DefaultView::Integer(180)),
        constraint: Some("positive integer milliseconds"@),
    }
}

fn zoom_out_parameter() -> (parameter: TransitionParameterDescriptor)
    ensures
        parameter@ == zoom_out_parameter_view(),
{
    let parameter = TransitionParameterDescriptor {
        name: "zoom_out_ms",
        value_type: TransitionParameterType::Integer,
        allowed_values: Vec::new(),
        required: false,
        default_value: Some(TransitionParameterDefault::Integer(180)),
        constraint: Some("positive integer milliseconds"),
    };
    assert(names(parameter.allowed_values@) =~= zoom_out_parameter_view().allowed_values);
    parameter
}

/// The schema of the parameter `pan_ms`.
pub open spec fn pan_parameter_view() -> ParameterView {
    ParameterView {
        name: "pan_ms"@,
        value_type: TransitionParameterType::Integer,
        allowed_values: Seq::empty(),
        required: false,
        default_value: Some(DefaultView::Integer(80)),
        constraint: Some("positive integer milliseconds"@),
    }
}

fn pan_parameter() -> (parameter: TransitionParameterDescriptor)
    ensures
        parameter@ == pan_parameter_view(),
{
    let parameter = TransitionParameterDescriptor {
        name: "pan_ms",
        value_type: TransitionParameterType::Integer,
        allowed_values: Vec::new(),
        required: false,
        default_value: Some(TransitionParameterDefault::Integer(80)),
        constraint: Some("positive integer milliseconds"),
    };
    assert(names(parameter.allowed_values@) =~= pan_parameter_view().allowed_values);
    parameter
}

/// The schema of the parameter `zoom_in_ms`.
pub open spec fn zoom_in_parameter_view() -> ParameterView {
    ParameterView {
        name: "zoom_in_ms"@,
        value_type: TransitionParameterType::Integer,
        allowed_values: Seq::empty(),
        required: false,
        default_value: Some(DefaultView::Integer(260)),
        constraint: Some("positive integer milliseconds"@),
    }
}

fn zoom_in_parameter() -> (parameter: TransitionParameterDescriptor)
    ensures
        parameter@ == zoom_in_parameter_view(),
{
    let parameter = TransitionParameterDescriptor {
        name: "zoom_in_ms",
        value_type: TransitionParameterType::Integer,
        allowed_values: Vec::new(),
        required: false,
        default_value: Some(TransitionParameterDefault::Integer(260)),
        constraint: Some("positive integer milliseconds"),
    };
    assert(names(parameter.allowed_values@) =~= zoom_in_parameter_view().allowed_values);
    parameter
}

/// The schema of the parameter `mode`.
pub open spec fn canvas_mode_parameter_view() -> ParameterView {
    ParameterView {
        name: "mode"@,
        value_type: TransitionParameterType::Enum,
        allowed_values: seq!["clipped"@, "morph"@, "overlap"@, "collage"@, "span"@],
        required: false,
        default_value: Some(DefaultView::Text("clipped"@)),
        constraint: Some("collage and span require walk=strip"@),
    }
}

fn canvas_mode_parameter() -> (parameter: TransitionParameterDescriptor)
    ensures
        parameter@ == canvas_mode_parameter_view(),
{
    let parameter = TransitionParameterDescriptor {
        name: "mode",
        value_type: TransitionParameterType::Enum,
        allowed_values: vec!["clipped", "morph", "overlap", "collage", "span"],
        required: false,
        default_value: Some(TransitionParameterDefault::String("clipped")),
        constraint: Some("collage and span require walk=strip"),
    };
    assert(names(parameter.allowed_values@) =~= canvas_mode_parameter_view().allowed_values);
    parameter
}

/// The schema of the parameter `walk`.
pub open spec fn walk_parameter_view() -> ParameterView {
    ParameterView {
        name: "walk"@,
        value_type: TransitionParameterType::Enum,
        allowed_values: seq!["paged"@, "strip"@],
        required: false,
        default_value: Some(DefaultView::Text("paged"@)),
        constraint: None,
    }
}

fn walk_parameter() -> (parameter: TransitionParameterDescriptor)
    ensures
        parameter@ == walk_parameter_view(),
{
    let parameter = TransitionParameterDescriptor {
        name: "walk",
        value_type: TransitionParameterType::Enum,
        allowed_values: vec!["paged", "strip"],
        required: false,
        default_value: Some(TransitionParameterDefault::String("paged")),
        constraint: None,
    };
    assert(names(parameter.allowed_values@) =~= walk_parameter_view().allowed_values);
    parameter
}

/// The schema of the parameter `pan_axis`.
pub open spec fn pan_axis_parameter_view() -> ParameterView {
    ParameterView {
        name: "pan_axis"@,
        value_type: TransitionParameterType::Enum,
        allowed_values: seq!["auto"@, "horizontal"@, "vertical"@],
        required: false,
        default_value: Some(DefaultView::Text("auto"@)),
        constraint: None,
    }
}

fn pan_axis_parameter() -> (parameter: TransitionParameterDescriptor)
    ensures
        parameter@ == pan_axis_parameter_view(),
{
    let parameter = TransitionParameterDescriptor {
        name: "pan_axis",
        value_type: TransitionParameterType::Enum,
        allowed_values: vec!["auto", "horizontal", "vertical"],
        required: false,
        default_value: Some(TransitionParameterDefault::String("auto")),
        constraint: None,
    };
    assert(names(parameter.allowed_values@) =~= pan_axis_parameter_view().allowed_values);
    parameter
}

/// The schema of the parameter `overview_scale`.
pub open spec fn overview_scale_parameter_view() -> ParameterView {
    ParameterView {
        name: "overview_scale"@,
        value_type: TransitionParameterType::Number,
        allowed_values: Seq::empty(),
        required: false,
        default_value: Some(DefaultView::Number("0.333333"@)),
        constraint: Some("greater than 0 and at most 1"@),
    }
}

fn overview_scale_parameter() -> (parameter: TransitionParameterDescriptor)
    ensures
        parameter@ == overview_scale_parameter_view(),
{
    let parameter = TransitionParameterDescriptor {
        name: "overview_scale",
        value_type: TransitionParameterType::Number,
        allowed_values: Vec::new(),
        required: false,
        default_value: Some(TransitionParameterDefault::Number("0.333333")),
        constraint: Some("greater than 0 and at most 1"),
    };
    assert(names(parameter.allowed_values@) =~= overview_scale_parameter_view().allowed_values);
    parameter
}

/// The schema of the parameter `tile_count`.
pub open spec fn tile_count_parameter_view() -> ParameterView {
    ParameterView {
        name: "tile_count"@,
        value_type: TransitionParameterType::IntegerOrEnum,
        allowed_values: seq!["auto"@],
        required: false,
        default_value: Some(DefaultView::Text("auto"@)),
        constraint: Some("fixed integer range 1..=256"@),
    }
}

fn tile_count_parameter() -> (parameter: TransitionParameterDescriptor)
    ensures
        parameter@ == tile_count_parameter_view(),
{
    let parameter = TransitionParameterDescriptor {
        name: "tile_count",
        value_type: TransitionParameterType::IntegerOrEnum,
        allowed_values: vec!["auto"],
        required: false,
        default_value: Some(TransitionParameterDefault::String("auto")),
        constraint: Some("fixed integer range 1..=256"),
    };
    assert(names(parameter.allowed_values@) =~= tile_count_parameter_view().allowed_values);
    parameter
}

/// The schema of the parameter `max_tile_count`.
pub open spec fn max_tile_count_parameter_view() -> ParameterView {
    ParameterView {
        name: "max_tile_count"@,
        value_type: TransitionParameterType::Integer,
        allowed_values: Seq::empty(),
        required: false,
        default_value: None,
        constraint: Some("integer range 1..=256; applies to tile_count=auto"@),
    }
}

fn max_tile_count_parameter() -> (parameter: TransitionParameterDescriptor)
    ensures
        parameter@ == max_tile_count_parameter_view(),
{
    let parameter = TransitionParameterDescriptor {
        name: "max_tile_count",
        value_type: TransitionParameterType::Integer,
        allowed_values: Vec::new(),
        required: false,
        default_value: None,
        constraint: Some("integer range 1..=256; applies to tile_count=auto"),
    };
    assert(names(parameter.allowed_values@) =~= max_tile_count_parameter_view().allowed_values);
    parameter
}

/// The schema of the cut transition.
pub open spec fn cut_view() -> CapabilityView {
    CapabilityView {
        name: "cut"@,
        class: TransitionClass::Immediate,
        scopes: TransitionScopes { explicit_set: true, wallpaper_actions: true },
        experimental: false,
        requirements: Seq::empty(),
        parameters: Seq::empty(),
    }
}

fn cut_descriptor() -> (descriptor: TransitionDescriptor)
    ensures
        descriptor@ == (TransitionKind::Cut, cut_view()),
{
    let descriptor = TransitionDescriptor {
        kind: TransitionKind::Cut,
        name: "cut",
        class: TransitionClass::Immediate,
        scopes: TransitionScopes { explicit_set: true, wallpaper_actions: true },
        experimental: false,
        requirements: Vec::new(),
        parameters: Vec::new(),
    };
    assert(names(descriptor.requirements@) =~= cut_view().requirements);
    assert(parameter_views(descriptor.parameters@) =~= cut_view().parameters);
    descriptor
}

/// The schema of the fade transition.
pub open spec fn fade_view() -> CapabilityView {
    CapabilityView {
        name: "fade"@,
        class: TransitionClass::Pairwise,
        scopes: TransitionScopes { explicit_set: true, wallpaper_actions: true },
        experimental: false,
        requirements: Seq::empty(),
        parameters: seq![duration_parameter_view(), easing_parameter_view()],
    }
}

fn fade_descriptor() -> (descriptor: TransitionDescriptor)
    ensures
        descriptor@ == (TransitionKind::Fade, fade_view()),
{
    let descriptor = TransitionDescriptor {
        kind: TransitionKind::Fade,
        name: "fade",
        class: TransitionClass::Pairwise,
        scopes: TransitionScopes { explicit_set: true, wallpaper_actions: true },
        experimental: false,
        requirements: Vec::new(),
        parameters: vec![duration_parameter(), easing_parameter()],
    };
    assert(names(descriptor.requirements@) =~= fade_view().requirements);
    assert(parameter_views(descriptor.parameters@) =~= fade_view().parameters);
    descriptor
}

/// The schema of the push transition.
pub open spec fn push_view() -> CapabilityView {
    CapabilityView {
        name: "push"@,
        class: TransitionClass::Pairwise,
        scopes: TransitionScopes { explicit_set: true, wallpaper_actions: true },
        experimental: false,
        requirements: Seq::empty(),
        parameters: seq![
            direction_parameter_view(),
            duration_parameter_view(),
            easing_parameter_view(),
            push_mode_parameter_view(),
        ],
    }
}

fn push_descriptor() -> (descriptor: TransitionDescriptor)
    ensures
        descriptor@ == (TransitionKind::Push, push_view()),
{
    let descriptor = TransitionDescriptor {
        kind: TransitionKind::Push,
        name: "push",
        class: TransitionClass::Pairwise,
        scopes: TransitionScopes { explicit_set: true, wallpaper_actions: true },
        experimental: false,
        requirements: Vec::new(),
        parameters: vec![
            direction_parameter(),
            duration_parameter(),
            easing_parameter(),
            push_mode_parameter(),
        ],
    };
    assert(names(descriptor.requirements@) =~= push_view().requirements);
    assert(parameter_views(descriptor.parameters@) =~= push_view().parameters);
    descriptor
}

/// The schema of the canvas transition.
pub open spec fn canvas_view() -> CapabilityView {
    CapabilityView {
        name: "canvas"@,
        class: TransitionClass::Scene,
        scopes: TransitionScopes { explicit_set: false, wallpaper_actions: true },
        experimental: false,
        requirements: seq!["wallpaper action history"@],
        parameters: seq![
            zoom_out_parameter_view(),
            pan_parameter_view(),
            zoom_in_parameter_view(),
            easing_parameter_view(),
            canvas_mode_parameter_view(),
            walk_parameter_view(),
            pan_axis_parameter_view(),
            overview_scale_parameter_view(),
            tile_count_parameter_view(),
            max_tile_count_parameter_view(),
        ],
    }
}

fn canvas_descriptor() -> (descriptor: TransitionDescriptor)
    ensures
        descriptor@ == (TransitionKind::Canvas, canvas_view()),
{
    let descriptor = TransitionDescriptor {
        kind: TransitionKind::Canvas,
        name: "canvas",
        class: TransitionClass::Scene,
        scopes: TransitionScopes { explicit_set: false, wallpaper_actions: true },
        experimental: false,
        requirements: vec!["wallpaper action history"],
        parameters: vec![
            zoom_out_parameter(),
            pan_parameter(),
            zoom_in_parameter(),
            easing_parameter(),
            canvas_mode_parameter(),
            walk_parameter(),
            pan_axis_parameter(),
            overview_scale_parameter(),
            tile_count_parameter(),
            max_tile_count_parameter(),
        ],
    };
    assert(names(descriptor.requirements@) =~= canvas_view().requirements);
    assert(parameter_views(descriptor.parameters@) =~= canvas_view().parameters);
    descriptor
}

/// The schema of the world transition.
pub open spec fn world_view() -> CapabilityView {
    CapabilityView {
        name: "world"@,
        class: TransitionClass::Scene,
        scopes: TransitionScopes { explicit_set: true, wallpaper_actions: true },
        experimental: true,
        requirements: seq!["supervisor planning"@, "wallpaper library"@, "ready cache coverage"@],
        parameters: seq![duration_parameter_view(), easing_parameter_view()],
    }
}

fn world_descriptor() -> (descriptor: TransitionDescriptor)
    ensures
        descriptor@ == (TransitionKind::World, world_view()),
{
    let descriptor = TransitionDescriptor {
        kind: TransitionKind::World,
        name: "world",
        class: TransitionClass::Scene,
        scopes: TransitionScopes { explicit_set: true, wallpaper_actions: true },
        experimental: true,
        requirements: vec!["supervisor planning", "wallpaper library", "ready cache coverage"],
        parameters: vec![duration_parameter(), easing_parameter()],
    };
    assert(names(descriptor.requirements@) =~= world_view().requirements);
    assert(parameter_views(descriptor.parameters@) =~= world_view().parameters);
    descriptor
}

/// The schema of a transition.
pub open spec fn schema(kind: TransitionKind) -> CapabilityView {
    match kind {
        TransitionKind::Cut => cut_view(),
        TransitionKind::Fade => fade_view(),
        TransitionKind::Push => push_view(),
        TransitionKind::Canvas => canvas_view(),
        TransitionKind::World => world_view(),
    }
}

/// The compiled-in transitions in stable display order.
pub open spec fn registry() -> Seq<(TransitionKind, CapabilityView)> {
    seq![
        (TransitionKind::Cut, cut_view()),
        (TransitionKind::Fade, fade_view()),
        (TransitionKind::Push, push_view()),
        (TransitionKind::Canvas, canvas_view()),
        (TransitionKind::World, world_view()),
    ]
}

/// The schemas of a list of descriptors.
pub open spec fn descriptor_views(list: Seq<TransitionDescriptor>) -> Seq<
    (TransitionKind, CapabilityView),
> {
    Seq::new(list.len(), |i: int| list[i]@)
}

/// Return all compiled-in transition descriptors in stable display order.
pub fn transition_registry() -> (list: Vec<TransitionDescriptor>)
    ensures
        descriptor_views(list@) == registry(),
{
    let list = vec![
        cut_descriptor(),
        fade_descriptor(),
        push_descriptor(),
        canvas_descriptor(),
        world_descriptor(),
    ];
    assert(descriptor_views(list@) =~= registry());
    list
}

/// Find a compiled-in transition by its stable name.
pub fn transition_descriptor(name: &str) -> (descriptor: Option<TransitionDescriptor>)
    ensures
        match (descriptor, TransitionKind::named(name@)) {
            (Some(descriptor), Some(kind)) => descriptor@ == (kind, schema(kind)),
            (None, None) => true,
            _ => false,
        },
{
    match TransitionKind::parse(name) {
        Some(TransitionKind::Cut) => Some(cut_descriptor()),
        Some(TransitionKind::Fade) => Some(fade_descriptor()),
        Some(TransitionKind::Push) => Some(push_descriptor()),
        Some(TransitionKind::Canvas) => Some(canvas_descriptor()),
        Some(TransitionKind::World) => Some(world_descriptor()),
        None => None,
    }
}

/// The registry lists every transition once, under the name by which it is found.
pub proof fn law_registry_is_complete(kind: TransitionKind)
    ensures
        exists|i: int| 0 <= i < registry().len() && (#[trigger] registry()[i]).0 == kind,
        forall|i: int, j: int|
            0 <= i < j < registry().len() ==> (#[trigger] registry()[i]).0 != (
            #[trigger] registry()[j]).0,
        forall|i: int|
            0 <= i < registry().len() ==> TransitionKind::named(
                (#[trigger] registry()[i]).1.name,
            ) == Some(registry()[i].0),
{
    TransitionKind::Cut.law_round_trip();
    TransitionKind::Fade.law_round_trip();
    TransitionKind::Push.law_round_trip();
    TransitionKind::Canvas.law_round_trip();
    TransitionKind::World.law_round_trip();
    let n = match kind {
        TransitionKind::Cut => 0int,
        TransitionKind::Fade => 1,
        TransitionKind::Push => 2,
        TransitionKind::Canvas => 3,
        TransitionKind::World => 4,
    };
    assert(registry()[n].0 == kind);
}

} // verus!
