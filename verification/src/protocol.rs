//! The vocabulary of the wire protocol: transitions, actions and their names.

use crate::error::ProtocolError;
use crate::scale::OverviewScale;
use crate::text::{concat2, concat3, split_once, text_eq};
use crate::error;
use crate::text;
use vstd::prelude::*;

verus! {

/// Current protocol version emitted in ping responses.
pub const PROTOCOL_VERSION: u32 = 1;

/// Current schema version for capability discovery responses.
pub const CAPABILITIES_SCHEMA_VERSION: u32 = 1;

/// Default transition duration used when a non-cut transition is requested without
/// an explicit duration.
pub const DEFAULT_DURATION_MS: u64 = 900;

/// Default zoom-out phase for the canvas transition.
pub const DEFAULT_CANVAS_OUT_MS: u64 = 180;

/// Default overview pan phase for the canvas transition.
pub const DEFAULT_CANVAS_PAN_MS: u64 = 80;

/// Default zoom-in phase for the canvas transition.
pub const DEFAULT_CANVAS_IN_MS: u64 = 260;

/// Bit pattern of the default canvas overview scale, one third of the output size.
pub const DEFAULT_CANVAS_OVERVIEW_SCALE_BITS: u32 = 0x3eaa_aaab;

/// Hard cap for canvas preview tiles.
pub const MAX_CANVAS_TILE_COUNT: usize = 256;

/// Default maximum edge for cached canvas thumbnails.
pub const DEFAULT_CANVAS_THUMBNAIL_MAX_EDGE: u32 = 1536;

/// Default number of cache workers requested when a cache is warmed.
pub const DEFAULT_CANVAS_CACHE_WORKERS: usize = 1;

/// The default canvas overview scale, one third of the output size.
pub open spec fn default_scale() -> OverviewScale {
    OverviewScale::of_bits(DEFAULT_CANVAS_OVERVIEW_SCALE_BITS)
}

/// The default canvas overview scale, one third of the output size.
pub fn default_overview_scale() -> (scale: OverviewScale)
    ensures
        scale == default_scale(),
{
    match OverviewScale::from_bits(DEFAULT_CANVAS_OVERVIEW_SCALE_BITS) {
        Some(scale) => scale,
        None => vstd::pervasive::unreached(),
    }
}

/// Direction for a push transition.
#[derive(Clone, Copy, Debug, PartialEq, Eq, Structural)]
pub enum PushDirection {
    Up,
    Down,
    Left,
    Right,
}

impl PushDirection {
    /// Stable protocol string.
    pub open spec fn name(self) -> Seq<char> {
        match self {
            PushDirection::Up => "up"@,
            PushDirection::Down => "down"@,
            PushDirection::Left => "left"@,
            PushDirection::Right => "right"@,
        }
    }

    /// The value that a protocol string names, or the message for a string that names none.
    pub open spec fn named(input: Seq<char>) -> Result<Self, Seq<char>> {
        if input == "up"@ {
            Ok(PushDirection::Up)
        } else if input == "down"@ {
            Ok(PushDirection::Down)
        } else if input == "left"@ {
            Ok(PushDirection::Left)
        } else if input == "right"@ {
            Ok(PushDirection::Right)
        } else {
            Err("unknown push direction: "@ + input)
        }
    }

    /// Stable protocol string.
    pub fn as_str(self) -> (name: &'static str)
        ensures
            name@ == self.name(),
    {
        match self {
            PushDirection::Up => "up",
            PushDirection::Down => "down",
            PushDirection::Left => "left",
            PushDirection::Right => "right",
        }
    }

    /// Parse a protocol string.
    pub fn parse(input: &str) -> (result: Result<Self, ProtocolError>)
        ensures
            error::agrees(result, Self::named(input@)),
    {
        if text_eq(input, "up") {
            Ok(PushDirection::Up)
        } else if text_eq(input, "down") {
            Ok(PushDirection::Down)
        } else if text_eq(input, "left") {
            Ok(PushDirection::Left)
        } else if text_eq(input, "right") {
            Ok(PushDirection::Right)
        } else {
            Err(ProtocolError::new(concat2("unknown push direction: ", input)))
        }
    }

    /// Parsing the protocol string of a value gives the value back.
    pub proof fn law_round_trip(self)
        ensures
            Self::named(self.name()) == Ok::<Self, Seq<char>>(self),
    {
        reveal_strlit("up");
        assert("up"@.len() == 2);
        reveal_strlit("down");
        assert("down"@.len() == 4);
        reveal_strlit("left");
        assert("left"@.len() == 4);
        reveal_strlit("right");
        assert("right"@.len() == 5);
        assert("down"@[0] != "left"@[0]);
    }
}

/// How push transitions move image content.
#[derive(Clone, Copy, Debug, PartialEq, Eq, Structural)]
pub enum PushMode {
    Portal,
    Screen,
    Pan,
}

impl PushMode {
    /// Stable protocol string.
    pub open spec fn name(self) -> Seq<char> {
        match self {
            PushMode::Portal => "portal"@,
            PushMode::Screen => "screen"@,
            PushMode::Pan => "pan"@,
        }
    }

    /// The value that a protocol string names, or the message for a string that names none.
    pub open spec fn named(input: Seq<char>) -> Result<Self, Seq<char>> {
        if input == "portal"@ {
            Ok(PushMode::Portal)
        } else if input == "screen"@ {
            Ok(PushMode::Screen)
        } else if input == "pan"@ {
            Ok(PushMode::Pan)
        } else {
            Err("unknown push mode: "@ + input)
        }
    }

    /// Stable protocol string.
    pub fn as_str(self) -> (name: &'static str)
        ensures
            name@ == self.name(),
    {
        match self {
            PushMode::Portal => "portal",
            PushMode::Screen => "screen",
            PushMode::Pan => "pan",
        }
    }

    /// Parse a protocol string.
    pub fn parse(input: &str) -> (result: Result<Self, ProtocolError>)
        ensures
            error::agrees(result, Self::named(input@)),
    {
        if text_eq(input, "portal") {
            Ok(PushMode::Portal)
        } else if text_eq(input, "screen") {
            Ok(PushMode::Screen)
        } else if text_eq(input, "pan") {
            Ok(PushMode::Pan)
        } else {
            Err(ProtocolError::new(concat2("unknown push mode: ", input)))
        }
    }

    /// Parsing the protocol string of a value gives the value back.
    pub proof fn law_round_trip(self)
        ensures
            Self::named(self.name()) == Ok::<Self, Seq<char>>(self),
    {
        reveal_strlit("portal");
        assert("portal"@.len() == 6);
        reveal_strlit("screen");
        assert("screen"@.len() == 6);
        reveal_strlit("pan");
        assert("pan"@.len() == 3);
        assert("portal"@[0] != "screen"@[0]);
    }
}

/// Easing curve for animated transitions.
#[derive(Clone, Copy, Debug, PartialEq, Eq, Structural)]
pub enum Easing {
    Linear,
    EaseOutCubic,
    EaseInOutCubic,
}

impl Easing {
    /// Stable protocol string.
    pub open spec fn name(self) -> Seq<char> {
        match self {
            Easing::Linear => "linear"@,
            Easing::EaseOutCubic => "ease-out-cubic"@,
            Easing::EaseInOutCubic => "ease-in-out-cubic"@,
        }
    }

    /// The value that a protocol string names, or the message for a string that names none.
    pub open spec fn named(input: Seq<char>) -> Result<Self, Seq<char>> {
        if input == "linear"@ {
            Ok(Easing::Linear)
        } else if input == "ease-out-cubic"@ {
            Ok(Easing::EaseOutCubic)
        } else if input == "ease-in-out-cubic"@ {
            Ok(Easing::EaseInOutCubic)
        } else {
            Err("unknown easing: "@ + input)
        }
    }

    /// Stable protocol string.
    pub fn as_str(self) -> (name: &'static str)
        ensures
            name@ == self.name(),
    {
        match self {
            Easing::Linear => "linear",
            Easing::EaseOutCubic => "ease-out-cubic",
            Easing::EaseInOutCubic => "ease-in-out-cubic",
        }
    }

    /// Parse a protocol string.
    pub fn parse(input: &str) -> (result: Result<Self, ProtocolError>)
        ensures
            error::agrees(result, Self::named(input@)),
    {
        if text_eq(input, "linear") {
            Ok(Easing::Linear)
        } else if text_eq(input, "ease-out-cubic") {
            Ok(Easing::EaseOutCubic)
        } else if text_eq(input, "ease-in-out-cubic") {
            Ok(Easing::EaseInOutCubic)
        } else {
            Err(ProtocolError::new(concat2("unknown easing: ", input)))
        }
    }

    /// Parsing the protocol string of a value gives the value back.
    pub proof fn law_round_trip(self)
        ensures
            Self::named(self.name()) == Ok::<Self, Seq<char>>(self),
    {
        reveal_strlit("linear");
        assert("linear"@.len() == 6);
        reveal_strlit("ease-out-cubic");
        assert("ease-out-cubic"@.len() == 14);
        reveal_strlit("ease-in-out-cubic");
        assert("ease-in-out-cubic"@.len() == 17);
    }
}

/// Wallpaper scale mode.
#[derive(Clone, Copy, Debug, PartialEq, Eq, Structural)]
pub enum ScaleMode {
    Fill,
    Fit,
    Center,
    Stretch,
}

impl ScaleMode {
    /// Stable protocol string.
    pub open spec fn name(self) -> Seq<char> {
        match self {
            ScaleMode::Fill => "fill"@,
            ScaleMode::Fit => "fit"@,
            ScaleMode::Center => "center"@,
            ScaleMode::Stretch => "stretch"@,
        }
    }

    /// The value that a protocol string names, or the message for a string that names none.
    pub open spec fn named(input: Seq<char>) -> Result<Self, Seq<char>> {
        if input == "fill"@ {
            Ok(ScaleMode::Fill)
        } else if input == "fit"@ {
            Ok(ScaleMode::Fit)
        } else if input == "center"@ {
            Ok(ScaleMode::Center)
        } else if input == "stretch"@ {
            Ok(ScaleMode::Stretch)
        } else {
            Err("unknown scale mode: "@ + input)
        }
    }

    /// Stable protocol string.
    pub fn as_str(self) -> (name: &'static str)
        ensures
            name@ == self.name(),
    {
        match self {
            ScaleMode::Fill => "fill",
            ScaleMode::Fit => "fit",
            ScaleMode::Center => "center",
            ScaleMode::Stretch => "stretch",
        }
    }

    /// Parse a protocol string.
    pub fn parse(input: &str) -> (result: Result<Self, ProtocolError>)
        ensures
            error::agrees(result, Self::named(input@)),
    {
        if text_eq(input, "fill") {
            Ok(ScaleMode::Fill)
        } else if text_eq(input, "fit") {
            Ok(ScaleMode::Fit)
        } else if text_eq(input, "center") {
            Ok(ScaleMode::Center)
        } else if text_eq(input, "stretch") {
            Ok(ScaleMode::Stretch)
        } else {
            Err(ProtocolError::new(concat2("unknown scale mode: ", input)))
        }
    }

    /// Parsing the protocol string of a value gives the value back.
    pub proof fn law_round_trip(self)
        ensures
            Self::named(self.name()) == Ok::<Self, Seq<char>>(self),
    {
        reveal_strlit("fill");
        assert("fill"@.len() == 4);
        reveal_strlit("fit");
        assert("fit"@.len() == 3);
        reveal_strlit("center");
        assert("center"@.len() == 6);
        reveal_strlit("stretch");
        assert("stretch"@.len() == 7);
    }
}

/// Wallpaper set to warm into the canvas thumbnail cache.
#[derive(Clone, Copy, Debug, PartialEq, Eq, Structural)]
pub enum CacheWarmScope {
    Current,
    All,
}

impl CacheWarmScope {
    /// Stable protocol string.
    pub open spec fn name(self) -> Seq<char> {
        match self {
            CacheWarmScope::Current => "current"@,
            CacheWarmScope::All => "all"@,
        }
    }

    /// The value that a protocol string names, or the message for a string that names none.
    pub open spec fn named(input: Seq<char>) -> Result<Self, Seq<char>> {
        if input == "current"@ {
            Ok(CacheWarmScope::Current)
        } else if input == "all"@ {
            Ok(CacheWarmScope::All)
        } else {
            Err("unknown cache warm scope: "@ + input)
        }
    }

    /// Stable protocol string.
    pub fn as_str(self) -> (name: &'static str)
        ensures
            name@ == self.name(),
    {
        match self {
            CacheWarmScope::Current => "current",
            CacheWarmScope::All => "all",
        }
    }

    /// Parse a protocol string.
    pub fn parse(input: &str) -> (result: Result<Self, ProtocolError>)
        ensures
            error::agrees(result, Self::named(input@)),
    {
        if text_eq(input, "current") {
            Ok(CacheWarmScope::Current)
        } else if text_eq(input, "all") {
            Ok(CacheWarmScope::All)
        } else {
            Err(ProtocolError::new(concat2("unknown cache warm scope: ", input)))
        }
    }

    /// Parsing the protocol string of a value gives the value back.
    pub proof fn law_round_trip(self)
        ensures
            Self::named(self.name()) == Ok::<Self, Seq<char>>(self),
    {
        reveal_strlit("current");
        assert("current"@.len() == 7);
        reveal_strlit("all");
        assert("all"@.len() == 3);
    }
}

/// Thumbnail generator backend for canvas cache warming.
#[derive(Clone, Copy, Debug, PartialEq, Eq, Structural)]
pub enum CacheBackend {
    Auto,
    Vips,
    Internal,
}

impl CacheBackend {
    /// Stable protocol string.
    pub open spec fn name(self) -> Seq<char> {
        match self {
            CacheBackend::Auto => "auto"@,
            CacheBackend::Vips => "vips"@,
            CacheBackend::Internal => "internal"@,
        }
    }

    /// The value that a protocol string names, or the message for a string that names none.
    pub open spec fn named(input: Seq<char>) -> Result<Self, Seq<char>> {
        if input == "auto"@ {
            Ok(CacheBackend::Auto)
        } else if input == "vips"@ {
            Ok(CacheBackend::Vips)
        } else if input == "internal"@ {
            Ok(CacheBackend::Internal)
        } else {
            Err("unknown cache backend: "@ + input)
        }
    }

    /// Stable protocol string.
    pub fn as_str(self) -> (name: &'static str)
        ensures
            name@ == self.name(),
    {
        match self {
            CacheBackend::Auto => "auto",
            CacheBackend::Vips => "vips",
            CacheBackend::Internal => "internal",
        }
    }

    /// Parse a protocol string.
    pub fn parse(input: &str) -> (result: Result<Self, ProtocolError>)
        ensures
            error::agrees(result, Self::named(input@)),
    {
        if text_eq(input, "auto") {
            Ok(CacheBackend::Auto)
        } else if text_eq(input, "vips") {
            Ok(CacheBackend::Vips)
        } else if text_eq(input, "internal") {
            Ok(CacheBackend::Internal)
        } else {
            Err(ProtocolError::new(concat2("unknown cache backend: ", input)))
        }
    }

    /// Parsing the protocol string of a value gives the value back.
    pub proof fn law_round_trip(self)
        ensures
            Self::named(self.name()) == Ok::<Self, Seq<char>>(self),
    {
        reveal_strlit("auto");
        assert("auto"@.len() == 4);
        reveal_strlit("vips");
        assert("vips"@.len() == 4);
        reveal_strlit("internal");
        assert("internal"@.len() == 8);
        assert("auto"@[0] != "vips"@[0]);
    }
}

/// Axis used to lay out natural canvas order.
#[derive(Clone, Copy, Debug, PartialEq, Eq, Structural)]
pub enum CanvasPanAxis {
    Auto,
    Horizontal,
    Vertical,
}

impl CanvasPanAxis {
    /// Stable protocol string.
    pub open spec fn name(self) -> Seq<char> {
        match self {
            CanvasPanAxis::Auto => "auto"@,
            CanvasPanAxis::Horizontal => "horizontal"@,
            CanvasPanAxis::Vertical => "vertical"@,
        }
    }

    /// The value that a protocol string names, or the message for a string that names none.
    pub open spec fn named(input: Seq<char>) -> Result<Self, Seq<char>> {
        if input == "auto"@ {
            Ok(CanvasPanAxis::Auto)
        } else if input == "horizontal"@ {
            Ok(CanvasPanAxis::Horizontal)
        } else if input == "vertical"@ {
            Ok(CanvasPanAxis::Vertical)
        } else {
            Err("unknown canvas pan axis: "@ + input)
        }
    }

    /// Stable protocol string.
    pub fn as_str(self) -> (name: &'static str)
        ensures
            name@ == self.name(),
    {
        match self {
            CanvasPanAxis::Auto => "auto",
            CanvasPanAxis::Horizontal => "horizontal",
            CanvasPanAxis::Vertical => "vertical",
        }
    }

    /// Parse a protocol string.
    pub fn parse(input: &str) -> (result: Result<Self, ProtocolError>)
        ensures
            error::agrees(result, Self::named(input@)),
    {
        if text_eq(input, "auto") {
            Ok(CanvasPanAxis::Auto)
        } else if text_eq(input, "horizontal") {
            Ok(CanvasPanAxis::Horizontal)
        } else if text_eq(input, "vertical") {
            Ok(CanvasPanAxis::Vertical)
        } else {
            Err(ProtocolError::new(concat2("unknown canvas pan axis: ", input)))
        }
    }

    /// Parsing the protocol string of a value gives the value back.
    pub proof fn law_round_trip(self)
        ensures
            Self::named(self.name()) == Ok::<Self, Seq<char>>(self),
    {
        reveal_strlit("auto");
        assert("auto"@.len() == 4);
        reveal_strlit("horizontal");
        assert("horizontal"@.len() == 10);
        reveal_strlit("vertical");
        assert("vertical"@.len() == 8);
    }
}

/// How canvas tile order is projected onto the preview grid.
#[derive(Clone, Copy, Debug, PartialEq, Eq, Structural)]
pub enum CanvasWalk {
    Paged,
    Strip,
}

impl CanvasWalk {
    /// Stable protocol string.
    pub open spec fn name(self) -> Seq<char> {
        match self {
            CanvasWalk::Paged => "paged"@,
            CanvasWalk::Strip => "strip"@,
        }
    }

    /// The value that a protocol string names, or the message for a string that names none.
    pub open spec fn named(input: Seq<char>) -> Result<Self, Seq<char>> {
        if input == "paged"@ || input == "page"@ || input == "grid"@ {
            Ok(CanvasWalk::Paged)
        } else if input == "strip"@ || input == "line"@ {
            Ok(CanvasWalk::Strip)
        } else {
            Err("unknown canvas walk: "@ + input)
        }
    }

    /// Stable protocol string.
    pub fn as_str(self) -> (name: &'static str)
        ensures
            name@ == self.name(),
    {
        match self {
            CanvasWalk::Paged => "paged",
            CanvasWalk::Strip => "strip",
        }
    }

    /// Parse a protocol string.
    pub fn parse(input: &str) -> (result: Result<Self, ProtocolError>)
        ensures
            error::agrees(result, Self::named(input@)),
    {
        if text_eq(input, "paged") || text_eq(input, "page") || text_eq(input, "grid") {
            Ok(CanvasWalk::Paged)
        } else if text_eq(input, "strip") || text_eq(input, "line") {
            Ok(CanvasWalk::Strip)
        } else {
            Err(ProtocolError::new(concat2("unknown canvas walk: ", input)))
        }
    }

    /// Parsing the protocol string of a value gives the value back.
    pub proof fn law_round_trip(self)
        ensures
            Self::named(self.name()) == Ok::<Self, Seq<char>>(self),
    {
        reveal_strlit("paged");
        assert("paged"@.len() == 5);
        reveal_strlit("page");
        assert("page"@.len() == 4);
        reveal_strlit("grid");
        assert("grid"@.len() == 4);
        reveal_strlit("strip");
        assert("strip"@.len() == 5);
        reveal_strlit("line");
        assert("line"@.len() == 4);
        assert("paged"@[0] != "strip"@[0]);
        assert("page"@[0] != "grid"@[0]);
        assert("page"@[0] != "line"@[0]);
        assert("grid"@[0] != "line"@[0]);
    }
}

/// How canvas transitions lay out preview image content.
#[derive(Clone, Copy, Debug, PartialEq, Eq, Structural)]
pub enum CanvasMode {
    Clipped,
    Morph,
    Overlap,
    Collage,
    Span,
}

impl CanvasMode {
    /// Stable protocol string.
    pub open spec fn name(self) -> Seq<char> {
        match self {
            CanvasMode::Clipped => "clipped"@,
            CanvasMode::Morph => "morph"@,
            CanvasMode::Overlap => "overlap"@,
            CanvasMode::Collage => "collage"@,
            CanvasMode::Span => "span"@,
        }
    }

    /// The value that a protocol string names, or the message for a string that names none.
    pub open spec fn named(input: Seq<char>) -> Result<Self, Seq<char>> {
        if input == "clipped"@ {
            Ok(CanvasMode::Clipped)
        } else if input == "morph"@ {
            Ok(CanvasMode::Morph)
        } else if input == "overlap"@ {
            Ok(CanvasMode::Overlap)
        } else if input == "collage"@ {
            Ok(CanvasMode::Collage)
        } else if input == "span"@ {
            Ok(CanvasMode::Span)
        } else {
            Err("unknown canvas mode: "@ + input)
        }
    }

    /// Stable protocol string.
    pub fn as_str(self) -> (name: &'static str)
        ensures
            name@ == self.name(),
    {
        match self {
            CanvasMode::Clipped => "clipped",
            CanvasMode::Morph => "morph",
            CanvasMode::Overlap => "overlap",
            CanvasMode::Collage => "collage",
            CanvasMode::Span => "span",
        }
    }

    /// Parse a protocol string.
    pub fn parse(input: &str) -> (result: Result<Self, ProtocolError>)
        ensures
            error::agrees(result, Self::named(input@)),
    {
        if text_eq(input, "clipped") {
            Ok(CanvasMode::Clipped)
        } else if text_eq(input, "morph") {
            Ok(CanvasMode::Morph)
        } else if text_eq(input, "overlap") {
            Ok(CanvasMode::Overlap)
        } else if text_eq(input, "collage") {
            Ok(CanvasMode::Collage)
        } else if text_eq(input, "span") {
            Ok(CanvasMode::Span)
        } else {
            Err(ProtocolError::new(concat2("unknown canvas mode: ", input)))
        }
    }

    /// Parsing the protocol string of a value gives the value back.
    pub proof fn law_round_trip(self)
        ensures
            Self::named(self.name()) == Ok::<Self, Seq<char>>(self),
    {
        reveal_strlit("clipped");
        assert("clipped"@.len() == 7);
        reveal_strlit("morph");
        assert("morph"@.len() == 5);
        reveal_strlit("overlap");
        assert("overlap"@.len() == 7);
        reveal_strlit("collage");
        assert("collage"@.len() == 7);
        reveal_strlit("span");
        assert("span"@.len() == 4);
        assert("clipped"@[0] != "overlap"@[0]);
        assert("clipped"@[1] != "collage"@[1]);
        assert("overlap"@[0] != "collage"@[0]);
    }
}

/// Stable daemon architecture mode that determines effective capabilities.
#[derive(Clone, Copy, Debug, PartialEq, Eq, Structural)]
pub enum DaemonMode {
    Supervisor,
    Standalone,
}

impl DaemonMode {
    /// Stable protocol string.
    pub open spec fn name(self) -> Seq<char> {
        match self {
            DaemonMode::Supervisor => "supervisor"@,
            DaemonMode::Standalone => "standalone"@,
        }
    }

    /// The value that a protocol string names.
    pub open spec fn named(input: Seq<char>) -> Option<Self> {
        if input == "supervisor"@ {
            Some(DaemonMode::Supervisor)
        } else if input == "standalone"@ {
            Some(DaemonMode::Standalone)
        } else {
            None
        }
    }

    /// Stable protocol string.
    pub fn as_str(self) -> (name: &'static str)
        ensures
            name@ == self.name(),
    {
        match self {
            DaemonMode::Supervisor => "supervisor",
            DaemonMode::Standalone => "standalone",
        }
    }

    /// Parse a protocol string.
    pub fn parse(input: &str) -> (result: Option<Self>)
        ensures
            result == Self::named(input@),
    {
        if text_eq(input, "supervisor") {
            Some(DaemonMode::Supervisor)
        } else if text_eq(input, "standalone") {
            Some(DaemonMode::Standalone)
        } else {
            None
        }
    }

    /// Parsing the protocol string of a value gives the value back.
    pub proof fn law_round_trip(self)
        ensures
            Self::named(self.name()) == Some(self),
    {
        reveal_strlit("supervisor");
        assert("supervisor"@.len() == 10);
        reveal_strlit("standalone");
        assert("standalone"@.len() == 10);
        assert("supervisor"@[1] != "standalone"@[1]);
    }
}

/// Rendering model used by a transition.
#[derive(Clone, Copy, Debug, PartialEq, Eq, Structural)]
pub enum TransitionClass {
    Immediate,
    Pairwise,
    Scene,
}

impl TransitionClass {
    /// Stable protocol string.
    pub open spec fn name(self) -> Seq<char> {
        match self {
            TransitionClass::Immediate => "immediate"@,
            TransitionClass::Pairwise => "pairwise"@,
            TransitionClass::Scene => "scene"@,
        }
    }

    /// The value that a protocol string names.
    pub open spec fn named(input: Seq<char>) -> Option<Self> {
        if input == "immediate"@ {
            Some(TransitionClass::Immediate)
        } else if input == "pairwise"@ {
            Some(TransitionClass::Pairwise)
        } else if input == "scene"@ {
            Some(TransitionClass::Scene)
        } else {
            None
        }
    }

    /// Stable protocol string.
    pub fn as_str(self) -> (name: &'static str)
        ensures
            name@ == self.name(),
    {
        match self {
            TransitionClass::Immediate => "immediate",
            TransitionClass::Pairwise => "pairwise",
            TransitionClass::Scene => "scene",
        }
    }

    /// Parse a protocol string.
    pub fn parse(input: &str) -> (result: Option<Self>)
        ensures
            result == Self::named(input@),
    {
        if text_eq(input, "immediate") {
            Some(TransitionClass::Immediate)
        } else if text_eq(input, "pairwise") {
            Some(TransitionClass::Pairwise)
        } else if text_eq(input, "scene") {
            Some(TransitionClass::Scene)
        } else {
            None
        }
    }

    /// Parsing the protocol string of a value gives the value back.
    pub proof fn law_round_trip(self)
        ensures
            Self::named(self.name()) == Some(self),
    {
        reveal_strlit("immediate");
        assert("immediate"@.len() == 9);
        reveal_strlit("pairwise");
        assert("pairwise"@.len() == 8);
        reveal_strlit("scene");
        assert("scene"@.len() == 5);
    }
}

/// Wire-level value type accepted by a transition parameter.
#[derive(Clone, Copy, Debug, PartialEq, Eq, Structural)]
pub enum TransitionParameterType {
    Integer,
    Number,
    Enum,
    IntegerOrEnum,
}

impl TransitionParameterType {
    /// Stable protocol string.
    pub open spec fn name(self) -> Seq<char> {
        match self {
            TransitionParameterType::Integer => "integer"@,
            TransitionParameterType::Number => "number"@,
            TransitionParameterType::Enum => "enum"@,
            TransitionParameterType::IntegerOrEnum => "integer-or-enum"@,
        }
    }

    /// The value that a protocol string names.
    pub open spec fn named(input: Seq<char>) -> Option<Self> {
        if input == "integer"@ {
            Some(TransitionParameterType::Integer)
        } else if input == "number"@ {
            Some(TransitionParameterType::Number)
        } else if input == "enum"@ {
            Some(TransitionParameterType::Enum)
        } else if input == "integer-or-enum"@ {
            Some(TransitionParameterType::IntegerOrEnum)
        } else {
            None
        }
    }

    /// Stable protocol string.
    pub fn as_str(self) -> (name: &'static str)
        ensures
            name@ == self.name(),
    {
        match self {
            TransitionParameterType::Integer => "integer",
            TransitionParameterType::Number => "number",
            TransitionParameterType::Enum => "enum",
            TransitionParameterType::IntegerOrEnum => "integer-or-enum",
        }
    }

    /// Parse a protocol string.
    pub fn parse(input: &str) -> (result: Option<Self>)
        ensures
            result == Self::named(input@),
    {
        if text_eq(input, "integer") {
            Some(TransitionParameterType::Integer)
        } else if text_eq(input, "number") {
            Some(TransitionParameterType::Number)
        } else if text_eq(input, "enum") {
            Some(TransitionParameterType::Enum)
        } else if text_eq(input, "integer-or-enum") {
            Some(TransitionParameterType::IntegerOrEnum)
        } else {
            None
        }
    }

    /// Parsing the protocol string of a value gives the value back.
    pub proof fn law_round_trip(self)
        ensures
            Self::named(self.name()) == Some(self),
    {
        reveal_strlit("integer");
        assert("integer"@.len() == 7);
        reveal_strlit("number");
        assert("number"@.len() == 6);
        reveal_strlit("enum");
        assert("enum"@.len() == 4);
        reveal_strlit("integer-or-enum");
        assert("integer-or-enum"@.len() == 15);
    }
}

/// Stable identifier for a compiled-in transition implementation.
#[derive(Clone, Copy, Debug, PartialEq, Eq, Structural)]
pub enum TransitionKind {
    Cut,
    Fade,
    Push,
    Canvas,
    World,
}

impl TransitionKind {
    /// The stable name of a transition.
    pub open spec fn name(self) -> Seq<char> {
        match self {
            TransitionKind::Cut => "cut"@,
            TransitionKind::Fade => "fade"@,
            TransitionKind::Push => "push"@,
            TransitionKind::Canvas => "canvas"@,
            TransitionKind::World => "world"@,
        }
    }

    /// The transition with a stable name.
    pub open spec fn named(input: Seq<char>) -> Option<Self> {
        if input == "cut"@ {
            Some(TransitionKind::Cut)
        } else if input == "fade"@ {
            Some(TransitionKind::Fade)
        } else if input == "push"@ {
            Some(TransitionKind::Push)
        } else if input == "canvas"@ {
            Some(TransitionKind::Canvas)
        } else if input == "world"@ {
            Some(TransitionKind::World)
        } else {
            None
        }
    }

    /// The stable name of a transition.
    pub fn as_str(self) -> (name: &'static str)
        ensures
            name@ == self.name(),
    {
        match self {
            TransitionKind::Cut => "cut",
            TransitionKind::Fade => "fade",
            TransitionKind::Push => "push",
            TransitionKind::Canvas => "canvas",
            TransitionKind::World => "world",
        }
    }

    /// The transition with a stable name.
    pub fn parse(input: &str) -> (kind: Option<Self>)
        ensures
            kind == Self::named(input@),
    {
        if text_eq(input, "cut") {
            Some(TransitionKind::Cut)
        } else if text_eq(input, "fade") {
            Some(TransitionKind::Fade)
        } else if text_eq(input, "push") {
            Some(TransitionKind::Push)
        } else if text_eq(input, "canvas") {
            Some(TransitionKind::Canvas)
        } else if text_eq(input, "world") {
            Some(TransitionKind::World)
        } else {
            None
        }
    }

    /// Looking up the name of a transition finds the transition.
    pub proof fn law_round_trip(self)
        ensures
            Self::named(self.name()) == Some(self),
    {
        reveal_strlit("cut");
        assert("cut"@.len() == 3);
        reveal_strlit("fade");
        assert("fade"@.len() == 4);
        reveal_strlit("push");
        assert("push"@.len() == 4);
        reveal_strlit("canvas");
        assert("canvas"@.len() == 6);
        reveal_strlit("world");
        assert("world"@.len() == 5);
        assert("fade"@[0] != "push"@[0]);
    }
}

/// Canvas tile-count policy.
#[derive(Clone, Copy, Debug, PartialEq, Eq, Structural)]
pub enum CanvasTileCount {
    Auto { max: Option<usize> },
    Fixed(usize),
}

/// Transition requested for a set operation.
#[allow(inconsistent_fields)]
#[derive(Clone, Copy, Debug, PartialEq, Eq, Structural)]
pub enum Transition {
    Cut,
    Fade { duration_ms: u64, easing: Easing },
    World { duration_ms: u64, easing: Easing },
    Push { direction: PushDirection, duration_ms: u64, easing: Easing, mode: PushMode },
    Canvas {
        zoom_out_ms: u64,
        pan_ms: u64,
        zoom_in_ms: u64,
        easing: Easing,
        mode: CanvasMode,
        walk: CanvasWalk,
        pan_axis: CanvasPanAxis,
        overview_scale: OverviewScale,
        tile_count: CanvasTileCount,
    },
}

/// The message that a field in milliseconds must not be zero.
pub open spec fn positive_milliseconds(value: u64, field: Seq<char>) -> Result<(), Seq<char>> {
    if value == 0 {
        Err("field '"@ + field + "' must be greater than zero"@)
    } else {
        Ok(())
    }
}

/// Checks that a field in milliseconds is not zero.
pub fn validate_positive_milliseconds(value: u64, field: &str) -> (result: Result<
    (),
    ProtocolError,
>)
    ensures
        error::agrees(result, positive_milliseconds(value, field@)),
{
    if value == 0 {
        Err(ProtocolError::new(concat3("field '", field, "' must be greater than zero")))
    } else {
        Ok(())
    }
}

/// What stands before the first colon of a compact spelling, and what stands behind
/// it, if there is one.
pub open spec fn token_parts(input: Seq<char>) -> (Seq<char>, Option<Seq<char>>) {
    match text::split_at_first(input, ':') {
        Some((name, suffix)) => (name, Some(suffix)),
        None => (input, None),
    }
}

/// The message that a transition takes no suffix.
pub open spec fn no_override(name: Seq<char>) -> Seq<char> {
    "transition '"@ + name + "' does not accept ':override'"@
}

/// The canvas transition with its default settings.
pub open spec fn default_canvas(easing: Easing, pan_axis: CanvasPanAxis) -> Transition {
    Transition::Canvas {
        zoom_out_ms: DEFAULT_CANVAS_OUT_MS,
        pan_ms: DEFAULT_CANVAS_PAN_MS,
        zoom_in_ms: DEFAULT_CANVAS_IN_MS,
        easing,
        mode: CanvasMode::Clipped,
        walk: CanvasWalk::Paged,
        pan_axis,
        overview_scale: default_scale(),
        tile_count: CanvasTileCount::Auto { max: None },
    }
}

/// The transition that a compact spelling names: `cut`, `fade`, `world`, `push:` with a
/// direction, or `canvas`, possibly with `:` and an axis.
pub open spec fn cli_transition(input: Seq<char>, duration_ms: u64, easing: Easing) -> Result<
    Transition,
    Seq<char>,
> {
    let (name, suffix) = token_parts(input);
    match TransitionKind::named(name) {
        None => Err("unknown transition: "@ + input),
        Some(TransitionKind::Cut) => if suffix is Some {
            Err(no_override(name))
        } else {
            Ok(Transition::Cut)
        },
        Some(TransitionKind::Fade) => if suffix is Some {
            Err(no_override(name))
        } else {
            match positive_milliseconds(duration_ms, "duration_ms"@) {
                Err(message) => Err(message),
                Ok(_) => Ok(Transition::Fade { duration_ms, easing }),
            }
        },
        Some(TransitionKind::World) => if suffix is Some {
            Err(no_override(name))
        } else {
            match positive_milliseconds(duration_ms, "duration_ms"@) {
                Err(message) => Err(message),
                Ok(_) => Ok(Transition::World { duration_ms, easing }),
            }
        },
        Some(TransitionKind::Push) => match positive_milliseconds(duration_ms, "duration_ms"@) {
            Err(message) => Err(message),
            Ok(_) => match suffix {
                None => Err("push transition requires a direction override"@),
                Some(direction) => match PushDirection::named(direction) {
                    Err(message) => Err(message),
                    Ok(direction) => Ok(
                        Transition::Push { direction, duration_ms, easing, mode: PushMode::Portal },
                    ),
                },
            },
        },
        Some(TransitionKind::Canvas) => match suffix {
            None => Ok(default_canvas(easing, CanvasPanAxis::Auto)),
            Some(axis) => match CanvasPanAxis::named(axis) {
                Err(message) => Err(message),
                Ok(pan_axis) => Ok(default_canvas(easing, pan_axis)),
            },
        },
    }
}

impl Transition {
    /// Build a transition from the compact CLI spelling.
    ///
    /// Accepted spellings are `cut`, `fade`, `world`, `push:up`, `push:down`,
    /// `push:left`, `push:right`, `canvas`, `canvas:auto`, `canvas:horizontal`, and
    /// `canvas:vertical`.
    pub fn parse_cli_token(input: &str, duration_ms: u64, easing: Easing) -> (result: Result<
        Self,
        ProtocolError,
    >)
        ensures
            error::agrees(result, cli_transition(input@, duration_ms, easing)),
    {
        let parts = split_once(input, ':');
        let name: &str = match &parts {
            Some((name, _)) => name.as_str(),
            None => input,
        };
        let suffix: Option<&str> = match &parts {
            Some((_, suffix)) => Some(suffix.as_str()),
            None => None,
        };
        let kind = match TransitionKind::parse(name) {
            None => {
                return Err(ProtocolError::new(concat2("unknown transition: ", input)));
            },
            Some(kind) => kind,
        };
        match kind {
            TransitionKind::Cut | TransitionKind::Fade | TransitionKind::World => {
                if suffix.is_some() {
                    return Err(
                        ProtocolError::new(
                            concat3("transition '", name, "' does not accept ':override'"),
                        ),
                    );
                }
                match kind {
                    TransitionKind::Fade => {
                        validate_positive_milliseconds(duration_ms, "duration_ms")?;
                        Ok(Transition::Fade { duration_ms, easing })
                    },
                    TransitionKind::World => {
                        validate_positive_milliseconds(duration_ms, "duration_ms")?;
                        Ok(Transition::World { duration_ms, easing })
                    },
                    _ => Ok(Transition::Cut),
                }
            },
            TransitionKind::Push => {
                validate_positive_milliseconds(duration_ms, "duration_ms")?;
                match suffix {
                    None => Err(
                        ProtocolError::of("push transition requires a direction override"),
                    ),
                    Some(suffix) => {
                        let direction = PushDirection::parse(suffix)?;
                        Ok(
                            Transition::Push {
                                direction,
                                duration_ms,
                                easing,
                                mode: PushMode::Portal,
                            },
                        )
                    },
                }
            },
            TransitionKind::Canvas => {
                let pan_axis = match suffix {
                    None => CanvasPanAxis::Auto,
                    Some(axis) => CanvasPanAxis::parse(axis)?,
                };
                Ok(
                    Transition::Canvas {
                        zoom_out_ms: DEFAULT_CANVAS_OUT_MS,
                        pan_ms: DEFAULT_CANVAS_PAN_MS,
                        zoom_in_ms: DEFAULT_CANVAS_IN_MS,
                        easing,
                        mode: CanvasMode::Clipped,
                        walk: CanvasWalk::Paged,
                        pan_axis,
                        overview_scale: default_overview_scale(),
                        tile_count: CanvasTileCount::Auto { max: None },
                    },
                )
            },
        }
    }
}

/// Whether a layout can be walked in a way, or the message that it cannot.
pub open spec fn mode_walk_check(mode: CanvasMode, walk: CanvasWalk) -> Result<(), Seq<char>> {
    if (mode == CanvasMode::Collage || mode == CanvasMode::Span) && walk == CanvasWalk::Paged {
        Err(
            "canvas mode '"@ + mode.name()
                + "' requires canvas walk 'strip'; 'paged' is not valid for this layout"@,
        )
    } else {
        Ok(())
    }
}

/// Validate a canvas mode/walk pair.
pub fn validate_canvas_mode_walk(mode: CanvasMode, walk: CanvasWalk) -> (result: Result<
    (),
    ProtocolError,
>)
    ensures
        error::agrees(result, mode_walk_check(mode, walk)),
{
    if (mode == CanvasMode::Collage || mode == CanvasMode::Span) && walk == CanvasWalk::Paged {
        return Err(
            ProtocolError::new(
                concat3(
                    "canvas mode '",
                    mode.as_str(),
                    "' requires canvas walk 'strip'; 'paged' is not valid for this layout",
                ),
            ),
        );
    }
    Ok(())
}

/// Native wallpaper control-plane action.
#[derive(Clone, Copy, Debug, PartialEq, Eq, Structural)]
pub enum WallpaperAction {
    Next,
    Back,
    ShiftForward,
    ShiftBack,
    Replace { index: usize },
    Quarantine { index: usize },
    Favorite { index: usize },
    Unfavorite { index: usize },
    Favorites,
    Current,
    Rescan,
}

/// The index of an action that needs one, or the message that it is missing.
pub open spec fn needed_index(action: Seq<char>, index: Option<usize>) -> Result<
    usize,
    Seq<char>,
> {
    match index {
        Some(index) => Ok(index),
        None => Err(action + " requires field 'index'"@),
    }
}

impl WallpaperAction {
    /// Stable protocol action string.
    pub open spec fn name(self) -> Seq<char> {
        match self {
            WallpaperAction::Next => "next"@,
            WallpaperAction::Back => "back"@,
            WallpaperAction::ShiftForward => "shift-forward"@,
            WallpaperAction::ShiftBack => "shift-back"@,
            WallpaperAction::Replace { .. } => "replace"@,
            WallpaperAction::Quarantine { .. } => "quarantine"@,
            WallpaperAction::Favorite { .. } => "favorite"@,
            WallpaperAction::Unfavorite { .. } => "unfavorite"@,
            WallpaperAction::Favorites => "favorites"@,
            WallpaperAction::Current => "current"@,
            WallpaperAction::Rescan => "rescan"@,
        }
    }

    /// The index of an action that has one.
    pub open spec fn index(self) -> Option<usize> {
        match self {
            WallpaperAction::Replace { index } => Some(index),
            WallpaperAction::Quarantine { index } => Some(index),
            WallpaperAction::Favorite { index } => Some(index),
            WallpaperAction::Unfavorite { index } => Some(index),
            _ => None,
        }
    }

    /// The action that a string and an optional index name.
    pub open spec fn named(action: Seq<char>, index: Option<usize>) -> Result<Self, Seq<char>> {
        if action == "next"@ {
            Ok(WallpaperAction::Next)
        } else if action == "back"@ {
            Ok(WallpaperAction::Back)
        } else if action == "shift-forward"@ {
            Ok(WallpaperAction::ShiftForward)
        } else if action == "shift-back"@ {
            Ok(WallpaperAction::ShiftBack)
        } else if action == "replace"@ {
            match needed_index(action, index) {
                Ok(index) => Ok(WallpaperAction::Replace { index }),
                Err(message) => Err(message),
            }
        } else if action == "quarantine"@ || action == "quarentine"@ {
            match needed_index(action, index) {
                Ok(index) => Ok(WallpaperAction::Quarantine { index }),
                Err(message) => Err(message),
            }
        } else if action == "favorite"@ {
            match needed_index(action, index) {
                Ok(index) => Ok(WallpaperAction::Favorite { index }),
                Err(message) => Err(message),
            }
        } else if action == "unfavorite"@ {
            match needed_index(action, index) {
                Ok(index) => Ok(WallpaperAction::Unfavorite { index }),
                Err(message) => Err(message),
            }
        } else if action == "favorites"@ {
            Ok(WallpaperAction::Favorites)
        } else if action == "current"@ {
            Ok(WallpaperAction::Current)
        } else if action == "rescan"@ {
            Ok(WallpaperAction::Rescan)
        } else {
            Err("unknown wallpaper action: "@ + action)
        }
    }

    /// Stable protocol action string.
    pub fn as_str(&self) -> (name: &'static str)
        ensures
            name@ == self.name(),
    {
        match self {
            WallpaperAction::Next => "next",
            WallpaperAction::Back => "back",
            WallpaperAction::ShiftForward => "shift-forward",
            WallpaperAction::ShiftBack => "shift-back",
            WallpaperAction::Replace { .. } => "replace",
            WallpaperAction::Quarantine { .. } => "quarantine",
            WallpaperAction::Favorite { .. } => "favorite",
            WallpaperAction::Unfavorite { .. } => "unfavorite",
            WallpaperAction::Favorites => "favorites",
            WallpaperAction::Current => "current",
            WallpaperAction::Rescan => "rescan",
        }
    }

    /// Parse an action string and optional index.
    pub fn parse(action: &str, index: Option<usize>) -> (result: Result<Self, ProtocolError>)
        ensures
            error::agrees(result, Self::named(action@, index)),
    {
        if text_eq(action, "next") {
            Ok(WallpaperAction::Next)
        } else if text_eq(action, "back") {
            Ok(WallpaperAction::Back)
        } else if text_eq(action, "shift-forward") {
            Ok(WallpaperAction::ShiftForward)
        } else if text_eq(action, "shift-back") {
            Ok(WallpaperAction::ShiftBack)
        } else if text_eq(action, "replace") {
            Ok(WallpaperAction::Replace { index: required_index(action, index)? })
        } else if text_eq(action, "quarantine") || text_eq(action, "quarentine") {
            Ok(WallpaperAction::Quarantine { index: required_index(action, index)? })
        } else if text_eq(action, "favorite") {
            Ok(WallpaperAction::Favorite { index: required_index(action, index)? })
        } else if text_eq(action, "unfavorite") {
            Ok(WallpaperAction::Unfavorite { index: required_index(action, index)? })
        } else if text_eq(action, "favorites") {
            Ok(WallpaperAction::Favorites)
        } else if text_eq(action, "current") {
            Ok(WallpaperAction::Current)
        } else if text_eq(action, "rescan") {
            Ok(WallpaperAction::Rescan)
        } else {
            Err(ProtocolError::new(concat2("unknown wallpaper action: ", action)))
        }
    }

    /// Parsing the string and the index of an action gives the action back.
    pub proof fn law_round_trip(self)
        ensures
            Self::named(self.name(), self.index()) == Ok::<Self, Seq<char>>(self),
    {
        reveal_strlit("next");
        assert("next"@.len() == 4);
        reveal_strlit("back");
        assert("back"@.len() == 4);
        reveal_strlit("shift-forward");
        assert("shift-forward"@.len() == 13);
        reveal_strlit("shift-back");
        assert("shift-back"@.len() == 10);
        reveal_strlit("replace");
        assert("replace"@.len() == 7);
        reveal_strlit("quarantine");
        assert("quarantine"@.len() == 10);
        reveal_strlit("quarentine");
        assert("quarentine"@.len() == 10);
        reveal_strlit("favorite");
        assert("favorite"@.len() == 8);
        reveal_strlit("unfavorite");
        assert("unfavorite"@.len() == 10);
        reveal_strlit("favorites");
        assert("favorites"@.len() == 9);
        reveal_strlit("current");
        assert("current"@.len() == 7);
        reveal_strlit("rescan");
        assert("rescan"@.len() == 6);
        assert("next"@[0] != "back"@[0]);
        assert("shift-back"@[0] != "quarantine"@[0]);
        assert("shift-back"@[0] != "quarentine"@[0]);
        assert("shift-back"@[0] != "unfavorite"@[0]);
        assert("replace"@[0] != "current"@[0]);
        assert("quarantine"@[4] != "quarentine"@[4]);
        assert("quarantine"@[0] != "unfavorite"@[0]);
        assert("quarentine"@[0] != "unfavorite"@[0]);
    }
}

fn required_index(action: &str, index: Option<usize>) -> (result: Result<usize, ProtocolError>)
    ensures
        error::agrees(result, needed_index(action@, index)),
{
    match index {
        Some(index) => Ok(index),
        None => Err(ProtocolError::new(concat2(action, " requires field 'index'"))),
    }
}

/// Canvas thumbnail cache action.
#[derive(Clone, Copy, Debug, PartialEq, Eq, Structural)]
pub enum CacheAction {
    Status,
    Clear,
    Warm { scope: CacheWarmScope, workers: usize, backend: CacheBackend },
}

} // verus!
