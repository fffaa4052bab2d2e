//! The configuration file and the variables that override it.

use crate::actions::ActionTransitions;
use crate::error::ProtocolError;
use crate::paths::expand_home;
use crate::protocol::{
    default_overview_scale, validate_canvas_mode_walk, CacheBackend, CanvasMode, CanvasPanAxis,
    CanvasTileCount, CanvasWalk, Easing, PushDirection, PushMode, ScaleMode, Transition,
    TransitionKind, WallpaperAction, DEFAULT_CANVAS_IN_MS, DEFAULT_CANVAS_OUT_MS,
    DEFAULT_CANVAS_PAN_MS, DEFAULT_CANVAS_THUMBNAIL_MAX_EDGE, DEFAULT_DURATION_MS,
    MAX_CANVAS_TILE_COUNT,
};
use crate::registry::{
    transition_descriptor, ParameterView, TransitionDescriptor, TransitionParameterDescriptor,
};
use crate::scale::{read_scale, OverviewScale, ScaleReading};
use crate::text::{
    chars_of, concat2, concat3, concat4, concat5, copy_text, copy_text_if, decimal_usize, lines,
    parse_unsigned, split_once, starts_with, text_eq, text_of_range, trim,
};
use crate::textmap::TextMap;
use crate::error;
use crate::paths;
use crate::protocol;
use crate::registry;
use crate::scale;
use crate::text;
use crate::textmap;
use vstd::prelude::*;

verus! {

/// Memory for cached canvas thumbnails, in MiB.
pub const DEFAULT_CANVAS_CACHE_MEMORY_MIB: usize = 512;

/// Bytes of a MiB.
pub const MIB_BYTES: usize = 1_048_576;

/// How many tiles a configuration asks for.
#[derive(Clone, Copy, Debug, PartialEq, Eq, Structural)]
pub enum RawCanvasTileCount {
    Auto,
    Fixed(usize),
}

/// What a configuration says of a transition profile.
#[derive(Clone, Debug)]
pub struct RawTransitionProfile {
    pub kind: Option<TransitionKind>,
    pub direction: Option<PushDirection>,
    pub duration_ms: Option<u64>,
    pub easing: Option<Easing>,
    pub mode_value: Option<String>,
    pub push_mode: Option<PushMode>,
    pub canvas_mode: Option<CanvasMode>,
    pub canvas_walk: Option<CanvasWalk>,
    pub canvas_out_ms: Option<u64>,
    pub canvas_pan_ms: Option<u64>,
    pub canvas_in_ms: Option<u64>,
    pub canvas_pan_axis: Option<CanvasPanAxis>,
    pub canvas_overview_scale: Option<OverviewScale>,
    pub canvas_tile_count: Option<RawCanvasTileCount>,
    pub canvas_max_tile_count: Option<usize>,
    pub fallback: Option<String>,
}

/// A transition profile, as a mathematical value.
pub struct ProfileView {
    pub kind: Option<TransitionKind>,
    pub direction: Option<PushDirection>,
    pub duration_ms: Option<u64>,
    pub easing: Option<Easing>,
    pub mode_value: Option<Seq<char>>,
    pub push_mode: Option<PushMode>,
    pub canvas_mode: Option<CanvasMode>,
    pub canvas_walk: Option<CanvasWalk>,
    pub canvas_out_ms: Option<u64>,
    pub canvas_pan_ms: Option<u64>,
    pub canvas_in_ms: Option<u64>,
    pub canvas_pan_axis: Option<CanvasPanAxis>,
    pub canvas_overview_scale: Option<OverviewScale>,
    pub canvas_tile_count: Option<RawCanvasTileCount>,
    pub canvas_max_tile_count: Option<usize>,
    pub fallback: Option<Seq<char>>,
}

impl View for RawTransitionProfile {
    type V = ProfileView;

    open spec fn view(&self) -> ProfileView {
        ProfileView {
            kind: self.kind,
            direction: self.direction,
            duration_ms: self.duration_ms,
            easing: self.easing,
            mode_value: text::text_if(self.mode_value),
            push_mode: self.push_mode,
            canvas_mode: self.canvas_mode,
            canvas_walk: self.canvas_walk,
            canvas_out_ms: self.canvas_out_ms,
            canvas_pan_ms: self.canvas_pan_ms,
            canvas_in_ms: self.canvas_in_ms,
            canvas_pan_axis: self.canvas_pan_axis,
            canvas_overview_scale: self.canvas_overview_scale,
            canvas_tile_count: self.canvas_tile_count,
            canvas_max_tile_count: self.canvas_max_tile_count,
            fallback: text::text_if(self.fallback),
        }
    }
}

/// A configuration as written, before references are resolved.
#[derive(Clone, Debug)]
pub struct RawConfig {
    pub wall_dir: Option<String>,
    pub state_dir: Option<String>,
    pub quarantine_dir: Option<String>,
    pub favorite_weight: Option<usize>,
    pub max_history: Option<usize>,
    pub scale_mode: ScaleMode,
    pub duration_ms: u64,
    pub easing: Easing,
    pub push_mode: PushMode,
    pub canvas_out_ms: u64,
    pub canvas_pan_ms: u64,
    pub canvas_in_ms: u64,
    pub canvas_mode: CanvasMode,
    pub canvas_walk: CanvasWalk,
    pub canvas_pan_axis: CanvasPanAxis,
    pub canvas_overview_scale: OverviewScale,
    pub canvas_tile_count: RawCanvasTileCount,
    pub canvas_max_tile_count: Option<usize>,
    pub canvas_thumbnail_max_edge: u32,
    pub canvas_cache_workers: usize,
    pub canvas_cache_backend: CacheBackend,
    pub canvas_cache_memory_mib: usize,
    pub decode_full_workers: usize,
    pub transition_profiles: TextMap<RawTransitionProfile>,
    pub transition_next: String,
    pub transition_back: String,
    pub transition_shift_forward: String,
    pub transition_shift_back: String,
    pub transition_replace: String,
    pub transition_quarantine: String,
    pub transition_startup: String,
}

/// The profiles of a table, in the order of their names.
pub open spec fn profile_entries(map: TextMap<RawTransitionProfile>) -> Seq<
    (Seq<char>, ProfileView),
> {
    textmap::map_entries(map.raw(), |profile: RawTransitionProfile| profile@)
}

/// A configuration as written, as a mathematical value.
pub struct RawView {
    pub wall_dir: Option<Seq<char>>,
    pub state_dir: Option<Seq<char>>,
    pub quarantine_dir: Option<Seq<char>>,
    pub favorite_weight: Option<usize>,
    pub max_history: Option<usize>,
    pub scale_mode: ScaleMode,
    pub duration_ms: u64,
    pub easing: Easing,
    pub push_mode: PushMode,
    pub canvas_out_ms: u64,
    pub canvas_pan_ms: u64,
    pub canvas_in_ms: u64,
    pub canvas_mode: CanvasMode,
    pub canvas_walk: CanvasWalk,
    pub canvas_pan_axis: CanvasPanAxis,
    pub canvas_overview_scale: OverviewScale,
    pub canvas_tile_count: RawCanvasTileCount,
    pub canvas_max_tile_count: Option<usize>,
    pub canvas_thumbnail_max_edge: u32,
    pub canvas_cache_workers: usize,
    pub canvas_cache_backend: CacheBackend,
    pub canvas_cache_memory_mib: usize,
    pub decode_full_workers: usize,
    pub transition_profiles: Seq<(Seq<char>, ProfileView)>,
    pub transition_next: Seq<char>,
    pub transition_back: Seq<char>,
    pub transition_shift_forward: Seq<char>,
    pub transition_shift_back: Seq<char>,
    pub transition_replace: Seq<char>,
    pub transition_quarantine: Seq<char>,
    pub transition_startup: Seq<char>,
}

impl View for RawConfig {
    type V = RawView;

    open spec fn view(&self) -> RawView {
        RawView {
            wall_dir: text::text_if(self.wall_dir),
            state_dir: text::text_if(self.state_dir),
            quarantine_dir: text::text_if(self.quarantine_dir),
            favorite_weight: self.favorite_weight,
            max_history: self.max_history,
            scale_mode: self.scale_mode,
            duration_ms: self.duration_ms,
            easing: self.easing,
            push_mode: self.push_mode,
            canvas_out_ms: self.canvas_out_ms,
            canvas_pan_ms: self.canvas_pan_ms,
            canvas_in_ms: self.canvas_in_ms,
            canvas_mode: self.canvas_mode,
            canvas_walk: self.canvas_walk,
            canvas_pan_axis: self.canvas_pan_axis,
            canvas_overview_scale: self.canvas_overview_scale,
            canvas_tile_count: self.canvas_tile_count,
            canvas_max_tile_count: self.canvas_max_tile_count,
            canvas_thumbnail_max_edge: self.canvas_thumbnail_max_edge,
            canvas_cache_workers: self.canvas_cache_workers,
            canvas_cache_backend: self.canvas_cache_backend,
            canvas_cache_memory_mib: self.canvas_cache_memory_mib,
            decode_full_workers: self.decode_full_workers,
            transition_profiles: profile_entries(self.transition_profiles),
            transition_next: self.transition_next@,
            transition_back: self.transition_back@,
            transition_shift_forward: self.transition_shift_forward@,
            transition_shift_back: self.transition_shift_back@,
            transition_replace: self.transition_replace@,
            transition_quarantine: self.transition_quarantine@,
            transition_startup: self.transition_startup@,
        }
    }
}

/// The configuration of the daemon.
#[derive(Clone, Debug)]
pub struct MuralConfig {
    pub wall_dir: Option<String>,
    pub state_dir: Option<String>,
    pub quarantine_dir: Option<String>,
    pub favorite_weight: Option<usize>,
    pub max_history: Option<usize>,
    pub scale_mode: ScaleMode,
    pub decode_full_workers: usize,
    pub canvas_thumbnail_max_edge: u32,
    pub canvas_cache_workers: usize,
    pub canvas_cache_backend: CacheBackend,
    pub canvas_cache_memory_bytes: usize,
    pub actions: ActionTransitions,
    pub world_fallback_transition: Option<Transition>,
}

/// The configuration of the daemon, as a mathematical value.
pub struct ConfigView {
    pub wall_dir: Option<Seq<char>>,
    pub state_dir: Option<Seq<char>>,
    pub quarantine_dir: Option<Seq<char>>,
    pub favorite_weight: Option<usize>,
    pub max_history: Option<usize>,
    pub scale_mode: ScaleMode,
    pub decode_full_workers: usize,
    pub canvas_thumbnail_max_edge: u32,
    pub canvas_cache_workers: usize,
    pub canvas_cache_backend: CacheBackend,
    pub canvas_cache_memory_bytes: usize,
    pub actions: ActionTransitions,
    pub world_fallback_transition: Option<Transition>,
}

impl View for MuralConfig {
    type V = ConfigView;

    open spec fn view(&self) -> ConfigView {
        ConfigView {
            wall_dir: text::text_if(self.wall_dir),
            state_dir: text::text_if(self.state_dir),
            quarantine_dir: text::text_if(self.quarantine_dir),
            favorite_weight: self.favorite_weight,
            max_history: self.max_history,
            scale_mode: self.scale_mode,
            decode_full_workers: self.decode_full_workers,
            canvas_thumbnail_max_edge: self.canvas_thumbnail_max_edge,
            canvas_cache_workers: self.canvas_cache_workers,
            canvas_cache_backend: self.canvas_cache_backend,
            canvas_cache_memory_bytes: self.canvas_cache_memory_bytes,
            actions: self.actions,
            world_fallback_transition: self.world_fallback_transition,
        }
    }
}

/// What a configuration depends on besides its own text.
#[derive(Clone, Debug)]
pub struct Host {
    /// The home directory, where it is known.
    pub home: Option<String>,
    /// How many threads can run at once.
    pub parallelism: usize,
}

/// What a configuration depends on besides its own text, as a mathematical value.
pub struct HostView {
    pub home: Option<Seq<char>>,
    pub parallelism: usize,
}

impl View for Host {
    type V = HostView;

    open spec fn view(&self) -> HostView {
        HostView { home: text::text_if(self.home), parallelism: self.parallelism }
    }
}

/// A profile that says nothing.
pub open spec fn empty_profile() -> ProfileView {
    ProfileView {
        kind: None,
        direction: None,
        duration_ms: None,
        easing: None,
        mode_value: None,
        push_mode: None,
        canvas_mode: None,
        canvas_walk: None,
        canvas_out_ms: None,
        canvas_pan_ms: None,
        canvas_in_ms: None,
        canvas_pan_axis: None,
        canvas_overview_scale: None,
        canvas_tile_count: None,
        canvas_max_tile_count: None,
        fallback: None,
    }
}

impl RawTransitionProfile {
    /// A profile that says nothing.
    pub fn empty() -> (profile: Self)
        ensures
            profile@ == empty_profile(),
    {
        RawTransitionProfile {
            kind: None,
            direction: None,
            duration_ms: None,
            easing: None,
            mode_value: None,
            push_mode: None,
            canvas_mode: None,
            canvas_walk: None,
            canvas_out_ms: None,
            canvas_pan_ms: None,
            canvas_in_ms: None,
            canvas_pan_axis: None,
            canvas_overview_scale: None,
            canvas_tile_count: None,
            canvas_max_tile_count: None,
            fallback: None,
        }
    }

    fn copy(&self) -> (profile: Self)
        ensures
            profile@ == self@,
    {
        RawTransitionProfile {
            kind: self.kind,
            direction: self.direction,
            duration_ms: self.duration_ms,
            easing: self.easing,
            mode_value: copy_text_if(&self.mode_value),
            push_mode: self.push_mode,
            canvas_mode: self.canvas_mode,
            canvas_walk: self.canvas_walk,
            canvas_out_ms: self.canvas_out_ms,
            canvas_pan_ms: self.canvas_pan_ms,
            canvas_in_ms: self.canvas_in_ms,
            canvas_pan_axis: self.canvas_pan_axis,
            canvas_overview_scale: self.canvas_overview_scale,
            canvas_tile_count: self.canvas_tile_count,
            canvas_max_tile_count: self.canvas_max_tile_count,
            fallback: copy_text_if(&self.fallback),
        }
    }
}

/// The configuration that an empty file stands for.
pub open spec fn default_raw() -> RawView {
    RawView {
        wall_dir: None,
        state_dir: None,
        quarantine_dir: None,
        favorite_weight: None,
        max_history: None,
        scale_mode: ScaleMode::Fill,
        duration_ms: DEFAULT_DURATION_MS,
        easing: Easing::EaseOutCubic,
        push_mode: PushMode::Portal,
        canvas_out_ms: DEFAULT_CANVAS_OUT_MS,
        canvas_pan_ms: DEFAULT_CANVAS_PAN_MS,
        canvas_in_ms: DEFAULT_CANVAS_IN_MS,
        canvas_mode: CanvasMode::Clipped,
        canvas_walk: CanvasWalk::Paged,
        canvas_pan_axis: CanvasPanAxis::Auto,
        canvas_overview_scale: protocol::default_scale(),
        canvas_tile_count: RawCanvasTileCount::Auto,
        canvas_max_tile_count: None,
        canvas_thumbnail_max_edge: DEFAULT_CANVAS_THUMBNAIL_MAX_EDGE,
        canvas_cache_workers: 1,
        canvas_cache_backend: CacheBackend::Auto,
        canvas_cache_memory_mib: DEFAULT_CANVAS_CACHE_MEMORY_MIB,
        decode_full_workers: 2,
        transition_profiles: Seq::empty(),
        transition_next: "push:up"@,
        transition_back: "push:down"@,
        transition_shift_forward: "push:left"@,
        transition_shift_back: "push:right"@,
        transition_replace: "cut"@,
        transition_quarantine: "cut"@,
        transition_startup: "cut"@,
    }
}

impl Default for RawConfig {
    /// The configuration that an empty file stands for.
    fn default() -> (raw: Self)
        ensures
            raw@ == default_raw(),
    {
        let raw = RawConfig {
            wall_dir: None,
            state_dir: None,
            quarantine_dir: None,
            favorite_weight: None,
            max_history: None,
            scale_mode: ScaleMode::Fill,
            duration_ms: DEFAULT_DURATION_MS,
            easing: Easing::EaseOutCubic,
            push_mode: PushMode::Portal,
            canvas_out_ms: DEFAULT_CANVAS_OUT_MS,
            canvas_pan_ms: DEFAULT_CANVAS_PAN_MS,
            canvas_in_ms: DEFAULT_CANVAS_IN_MS,
            canvas_mode: CanvasMode::Clipped,
            canvas_walk: CanvasWalk::Paged,
            canvas_pan_axis: CanvasPanAxis::Auto,
            canvas_overview_scale: default_overview_scale(),
            canvas_tile_count: RawCanvasTileCount::Auto,
            canvas_max_tile_count: None,
            canvas_thumbnail_max_edge: DEFAULT_CANVAS_THUMBNAIL_MAX_EDGE,
            canvas_cache_workers: 1,
            canvas_cache_backend: CacheBackend::Auto,
            canvas_cache_memory_mib: DEFAULT_CANVAS_CACHE_MEMORY_MIB,
            decode_full_workers: 2,
            transition_profiles: TextMap::new(),
            transition_next: copy_text("push:up"),
            transition_back: copy_text("push:down"),
            transition_shift_forward: copy_text("push:left"),
            transition_shift_back: copy_text("push:right"),
            transition_replace: copy_text("cut"),
            transition_quarantine: copy_text("cut"),
            transition_startup: copy_text("cut"),
        };
        assert(raw@.transition_profiles =~= Seq::<(Seq<char>, ProfileView)>::empty());
        raw
    }
}

// ---------------------------------------------------------------------------
// Settings and what is wrong with them

/// Where a setting stands: under a key on a line of a file, or in a variable.
#[derive(Clone, Copy, Debug)]
pub enum Place<'a> {
    Line { path: &'a str, line: usize, key: &'a str },
    Variable { name: &'a str },
}

/// Where a setting stands, as a mathematical value.
pub enum PlaceView {
    Line { path: Seq<char>, line: nat, key: Seq<char> },
    Variable { name: Seq<char> },
}

impl<'a> View for Place<'a> {
    type V = PlaceView;

    open spec fn view(&self) -> PlaceView {
        match self {
            Place::Line { path, line, key } => PlaceView::Line {
                path: path@,
                line: *line as nat,
                key: key@,
            },
            Place::Variable { name } => PlaceView::Variable { name: name@ },
        }
    }
}

/// A message with the line that it is about in front.
pub open spec fn on_line(path: Seq<char>, line: nat, message: Seq<char>) -> Seq<char> {
    path + ":"@ + text::decimal_text(line) + ": "@ + message
}

/// A message with the place that it is about in front.
pub open spec fn located(place: PlaceView, message: Seq<char>) -> Seq<char> {
    match place {
        PlaceView::Line { path, line, .. } => on_line(path, line, message),
        PlaceView::Variable { name } => name + ": "@ + message,
    }
}

/// The message that a setting cannot be read.
pub open spec fn unreadable(place: PlaceView, what: Seq<char>, error: Seq<char>) -> Seq<char> {
    match place {
        PlaceView::Line { path, line, key } => on_line(
            path,
            line,
            "invalid "@ + what + " for "@ + key + ": "@ + error,
        ),
        PlaceView::Variable { name } => name + ": invalid "@ + what + ": "@ + error,
    }
}

/// The message that a setting is not in its range.
pub open spec fn out_of_range(place: PlaceView, range: Seq<char>) -> Seq<char> {
    match place {
        PlaceView::Line { path, line, key } => on_line(path, line, key + " must be "@ + range),
        PlaceView::Variable { name } => name + ": must be "@ + range,
    }
}

fn message_on_line(path: &str, line: usize, message: &str) -> (text: String)
    ensures
        text@ == on_line(path@, line as nat, message@),
{
    let number = decimal_usize(line);
    concat5(path, ":", number.as_str(), ": ", message)
}

impl<'a> Place<'a> {
    fn located(self, message: &str) -> (text: String)
        ensures
            text@ == located(self@, message@),
    {
        match self {
            Place::Line { path, line, .. } => message_on_line(path, line, message),
            Place::Variable { name } => concat3(name, ": ", message),
        }
    }

    fn unreadable(self, what: &str, error: &str) -> (text: String)
        ensures
            text@ == unreadable(self@, what@, error@),
    {
        match self {
            Place::Line { path, line, key } => {
                let mut message = concat5("invalid ", what, " for ", key, ": ");
                message.append(error);
                message_on_line(path, line, message.as_str())
            },
            Place::Variable { name } => concat5(name, ": invalid ", what, ": ", error),
        }
    }

    fn out_of_range(self, range: &str) -> (text: String)
        ensures
            text@ == out_of_range(self@, range@),
    {
        match self {
            Place::Line { path, line, key } => {
                let message = concat3(key, " must be ", range);
                message_on_line(path, line, message.as_str())
            },
            Place::Variable { name } => concat3(name, ": must be ", range),
        }
    }
}

/// What a setting gives whose value is read elsewhere.
pub open spec fn placed<T>(place: PlaceView, result: Result<T, Seq<char>>) -> Result<T, Seq<char>> {
    match result {
        Ok(value) => Ok(value),
        Err(message) => Err(located(place, message)),
    }
}

fn read_at<T>(place: Place<'_>, result: Result<T, ProtocolError>) -> (read: Result<T, String>)
    ensures
        match (result, read) {
            (Ok(value), Ok(found)) => value == found,
            (Err(error), Err(message)) => message@ == located(place@, error@),
            _ => false,
        },
{
    match result {
        Ok(value) => Ok(value),
        Err(error) => Err(place.located(error.message())),
    }
}

/// A setting that is a number from one to a limit.
pub open spec fn positive_setting(place: PlaceView, value: Seq<char>, max: nat) -> Result<
    nat,
    Seq<char>,
> {
    match text::unsigned_value(value, max) {
        Err(error) => Err(unreadable(place, "integer"@, error.spec_message())),
        Ok(number) => if number == 0 {
            Err(out_of_range(place, "greater than zero"@))
        } else {
            Ok(number)
        },
    }
}

fn read_positive(place: Place<'_>, value: &str, max: u64) -> (result: Result<u64, String>)
    ensures
        match (result, positive_setting(place@, value@, max as nat)) {
            (Ok(number), Ok(expected)) => number == expected && 0 < number <= max,
            (Err(message), Err(expected)) => message@ == expected,
            _ => false,
        },
{
    proof {
        text::lemma_unsigned_value_bounded(value@, max as nat);
    }
    match parse_unsigned(value, max) {
        Err(error) => Err(place.unreadable("integer", error.message())),
        Ok(number) => if number == 0 {
            Err(place.out_of_range("greater than zero"))
        } else {
            Ok(number)
        },
    }
}

/// A setting that is a count from one up.
pub open spec fn count_setting(place: PlaceView, value: Seq<char>) -> Result<usize, Seq<char>> {
    match positive_setting(place, value, usize::MAX as nat) {
        Ok(number) => Ok(number as usize),
        Err(message) => Err(message),
    }
}

fn read_count(place: Place<'_>, value: &str) -> (result: Result<usize, String>)
    ensures
        error::agrees(result, count_setting(place@, value@)),
{
    match read_positive(place, value, usize::MAX as u64) {
        Ok(number) => Ok(number as usize),
        Err(message) => Err(message),
    }
}

/// A setting in milliseconds.
pub open spec fn milliseconds_setting(place: PlaceView, value: Seq<char>) -> Result<
    u64,
    Seq<char>,
> {
    match positive_setting(place, value, u64::MAX as nat) {
        Ok(number) => Ok(number as u64),
        Err(message) => Err(message),
    }
}

fn read_milliseconds(place: Place<'_>, value: &str) -> (result: Result<u64, String>)
    ensures
        error::agrees(result, milliseconds_setting(place@, value@)),
{
    read_positive(place, value, u64::MAX)
}

/// A setting that is a length in pixels.
pub open spec fn edge_setting(place: PlaceView, value: Seq<char>) -> Result<u32, Seq<char>> {
    match positive_setting(place, value, u32::MAX as nat) {
        Ok(number) => Ok(number as u32),
        Err(message) => Err(message),
    }
}

fn read_edge(place: Place<'_>, value: &str) -> (result: Result<u32, String>)
    ensures
        error::agrees(result, edge_setting(place@, value@)),
{
    match read_positive(place, value, u32::MAX as u64) {
        Ok(number) => Ok(number as u32),
        Err(message) => Err(message),
    }
}

/// A number of workers, kept from one to what the host can run, and to 32.
pub open spec fn clamped_workers(value: usize, parallelism: usize) -> usize {
    let available = if parallelism < 1 {
        1
    } else if parallelism > 32 {
        32
    } else {
        parallelism
    };
    if value < 1 {
        1
    } else if value > available {
        available
    } else {
        value
    }
}

/// Keeps a number of workers from one to what the host can run, and to 32.
pub fn clamp_worker_count(value: usize, parallelism: usize) -> (workers: usize)
    ensures
        workers == clamped_workers(value, parallelism),
{
    let available: usize = if parallelism < 1 {
        1
    } else if parallelism > 32 {
        32
    } else {
        parallelism
    };
    if value < 1 {
        1
    } else if value > available {
        available
    } else {
        value
    }
}

/// A number of workers is from one to 32, and keeping it there twice changes nothing.
pub proof fn law_worker_counts_are_bounded(value: usize, parallelism: usize)
    ensures
        1 <= clamped_workers(value, parallelism) <= 32,
        parallelism >= 1 ==> clamped_workers(value, parallelism) <= parallelism,
        clamped_workers(clamped_workers(value, parallelism), parallelism) == clamped_workers(
            value,
            parallelism,
        ),
        1 <= value <= 32 && value <= parallelism ==> clamped_workers(value, parallelism) == value,
{
}

/// A setting that is a number of workers.
pub open spec fn workers_setting(place: PlaceView, value: Seq<char>, parallelism: usize) -> Result<
    usize,
    Seq<char>,
> {
    match count_setting(place, value) {
        Ok(number) => Ok(clamped_workers(number, parallelism)),
        Err(message) => Err(message),
    }
}

fn read_workers(place: Place<'_>, value: &str, parallelism: usize) -> (result: Result<
    usize,
    String,
>)
    ensures
        error::agrees(result, workers_setting(place@, value@, parallelism)),
{
    let number: usize = read_count(place, value)?;
    Ok(clamp_worker_count(number, parallelism))
}

/// A setting that is a limit on the number of tiles.
pub open spec fn tile_limit_setting(place: PlaceView, value: Seq<char>) -> Result<
    usize,
    Seq<char>,
> {
    match count_setting(place, value) {
        Err(message) => Err(message),
        Ok(number) => if number > MAX_CANVAS_TILE_COUNT {
            Err(out_of_range(place, "at most "@ + text::decimal_text(MAX_CANVAS_TILE_COUNT as nat)))
        } else {
            Ok(number)
        },
    }
}

fn read_tile_limit(place: Place<'_>, value: &str) -> (result: Result<usize, String>)
    ensures
        error::agrees(result, tile_limit_setting(place@, value@)),
{
    let number: usize = read_count(place, value)?;
    if number > MAX_CANVAS_TILE_COUNT {
        let limit = decimal_usize(MAX_CANVAS_TILE_COUNT);
        let range = concat2("at most ", limit.as_str());
        return Err(place.out_of_range(range.as_str()));
    }
    Ok(number)
}

/// A setting that is a number of tiles.
pub open spec fn tile_count_setting(place: PlaceView, value: Seq<char>) -> Result<
    RawCanvasTileCount,
    Seq<char>,
> {
    if value == "auto"@ {
        Ok(RawCanvasTileCount::Auto)
    } else {
        match tile_limit_setting(place, value) {
            Ok(number) => Ok(RawCanvasTileCount::Fixed(number)),
            Err(message) => Err(message),
        }
    }
}

fn read_tile_count(place: Place<'_>, value: &str) -> (result: Result<RawCanvasTileCount, String>)
    ensures
        error::agrees(result, tile_count_setting(place@, value@)),
{
    if text_eq(value, "auto") {
        return Ok(RawCanvasTileCount::Auto);
    }
    let number: usize = read_tile_limit(place, value)?;
    Ok(RawCanvasTileCount::Fixed(number))
}

/// A setting that is an overview scale.
pub open spec fn scale_setting(place: PlaceView, value: Seq<char>) -> Result<
    OverviewScale,
    Seq<char>,
> {
    match scale::scale_reading(value) {
        ScaleReading::Empty => Err(
            unreadable(place, "number"@, "cannot parse float from empty string"@),
        ),
        ScaleReading::Invalid => Err(unreadable(place, "number"@, "invalid float literal"@)),
        ScaleReading::OutOfRange => Err(out_of_range(place, "greater than 0 and at most 1"@)),
        ScaleReading::Scale(scale) => Ok(scale),
    }
}

fn read_overview_scale(place: Place<'_>, value: &str) -> (result: Result<OverviewScale, String>)
    ensures
        error::agrees(result, scale_setting(place@, value@)),
{
    match read_scale(value) {
        ScaleReading::Empty => Err(
            place.unreadable("number", "cannot parse float from empty string"),
        ),
        ScaleReading::Invalid => Err(place.unreadable("number", "invalid float literal")),
        ScaleReading::OutOfRange => Err(place.out_of_range("greater than 0 and at most 1")),
        ScaleReading::Scale(scale) => Ok(scale),
    }
}

// ---------------------------------------------------------------------------
// Profiles

/// The type that a profile declares.
pub open spec fn profile_kind(value: Seq<char>) -> Result<TransitionKind, Seq<char>> {
    match TransitionKind::named(value) {
        Some(kind) => Ok(kind),
        None => Err("unknown transition profile type: "@ + value),
    }
}

fn builtin_transition_kind(name: &str) -> (kind: Option<TransitionKind>)
    ensures
        kind == TransitionKind::named(name@),
{
    match transition_descriptor(name) {
        Some(descriptor) => Some(descriptor.kind),
        None => None,
    }
}

fn read_kind(value: &str) -> (result: Result<TransitionKind, ProtocolError>)
    ensures
        error::agrees(result, profile_kind(value@)),
{
    match builtin_transition_kind(value) {
        Some(kind) => Ok(kind),
        None => Err(
            ProtocolError::new(concat2("unknown transition profile type: ", value)),
        ),
    }
}

/// The value of a result that is one.
pub open spec fn ok_of<T>(result: Result<T, Seq<char>>) -> Option<T> {
    match result {
        Ok(value) => Some(value),
        Err(_) => None,
    }
}

/// A profile with its mode set. The profiles named after the two transitions that have
/// modes take only their own; any other profile takes the modes of both.
pub open spec fn profile_with_mode(
    profile: ProfileView,
    name: Seq<char>,
    place: PlaceView,
    value: Seq<char>,
) -> Result<ProfileView, Seq<char>> {
    let noted = ProfileView { mode_value: Some(value), ..profile };
    if name == "push"@ {
        match placed(place, PushMode::named(value)) {
            Ok(mode) => Ok(ProfileView { push_mode: Some(mode), canvas_mode: None, ..noted }),
            Err(message) => Err(message),
        }
    } else if name == "canvas"@ {
        match placed(place, CanvasMode::named(value)) {
            Ok(mode) => Ok(ProfileView { push_mode: None, canvas_mode: Some(mode), ..noted }),
            Err(message) => Err(message),
        }
    } else if PushMode::named(value) is Err && CanvasMode::named(value) is Err {
        Err(located(place, "unknown transition mode: "@ + value))
    } else {
        Ok(
            ProfileView {
                push_mode: ok_of(PushMode::named(value)),
                canvas_mode: ok_of(CanvasMode::named(value)),
                ..noted
            },
        )
    }
}

/// A profile with a field set, or nothing where there is no such field.
pub open spec fn profile_with(
    profile: ProfileView,
    name: Seq<char>,
    field: Seq<char>,
    place: PlaceView,
    value: Seq<char>,
) -> Result<Option<ProfileView>, Seq<char>> {
    if field == "type"@ {
        match placed(place, profile_kind(value)) {
            Ok(value) => Ok(Some(ProfileView { kind: Some(value), ..profile })),
            Err(message) => Err(message),
        }
    } else if field == "direction"@ {
        match placed(place, PushDirection::named(value)) {
            Ok(value) => Ok(Some(ProfileView { direction: Some(value), ..profile })),
            Err(message) => Err(message),
        }
    } else if field == "duration_ms"@ {
        match milliseconds_setting(place, value) {
            Ok(value) => Ok(Some(ProfileView { duration_ms: Some(value), ..profile })),
            Err(message) => Err(message),
        }
    } else if field == "easing"@ {
        match placed(place, Easing::named(value)) {
            Ok(value) => Ok(Some(ProfileView { easing: Some(value), ..profile })),
            Err(message) => Err(message),
        }
    } else if field == "mode"@ {
        match profile_with_mode(profile, name, place, value) {
            Ok(changed) => Ok(Some(changed)),
            Err(message) => Err(message),
        }
    } else if field == "walk"@ {
        match placed(place, CanvasWalk::named(value)) {
            Ok(value) => Ok(Some(ProfileView { canvas_walk: Some(value), ..profile })),
            Err(message) => Err(message),
        }
    } else if field == "zoom_out_ms"@ {
        match milliseconds_setting(place, value) {
            Ok(value) => Ok(Some(ProfileView { canvas_out_ms: Some(value), ..profile })),
            Err(message) => Err(message),
        }
    } else if field == "pan_ms"@ {
        match milliseconds_setting(place, value) {
            Ok(value) => Ok(Some(ProfileView { canvas_pan_ms: Some(value), ..profile })),
            Err(message) => Err(message),
        }
    } else if field == "zoom_in_ms"@ {
        match milliseconds_setting(place, value) {
            Ok(value) => Ok(Some(ProfileView { canvas_in_ms: Some(value), ..profile })),
            Err(message) => Err(message),
        }
    } else if field == "pan_axis"@ {
        match placed(place, CanvasPanAxis::named(value)) {
            Ok(value) => Ok(Some(ProfileView { canvas_pan_axis: Some(value), ..profile })),
            Err(message) => Err(message),
        }
    } else if field == "overview_scale"@ {
        match scale_setting(place, value) {
            Ok(value) => Ok(Some(ProfileView { canvas_overview_scale: Some(value), ..profile })),
            Err(message) => Err(message),
        }
    } else if field == "tile_count"@ {
        match tile_count_setting(place, value) {
            Ok(value) => Ok(Some(ProfileView { canvas_tile_count: Some(value), ..profile })),
            Err(message) => Err(message),
        }
    } else if field == "max_tile_count"@ {
        match tile_limit_setting(place, value) {
            Ok(value) => Ok(Some(ProfileView { canvas_max_tile_count: Some(value), ..profile })),
            Err(message) => Err(message),
        }
    } else if field == "fallback"@ {
        if name != "world"@ {
            Err(
                located(
                    place,
                    "transition."@ + name + ".fallback is only supported for world"@,
                ),
            )
        } else {
            Ok(Some(ProfileView { fallback: Some(value), ..profile }))
        }
    } else {
        Ok(None)
    }
}

impl RawTransitionProfile {
    fn apply_mode(&mut self, name: &str, place: Place<'_>, value: &str) -> (result: Result<
        (),
        String,
    >)
        ensures
            match (result, profile_with_mode(old(self)@, name@, place@, value@)) {
                (Ok(_), Ok(changed)) => final(self)@ == changed,
                (Err(message), Err(expected)) => message@ == expected,
                _ => false,
            },
    {
        self.mode_value = Some(copy_text(value));
        if text_eq(name, "push") {
            self.push_mode = Some(read_at(place, PushMode::parse(value))?);
            self.canvas_mode = None;
        } else if text_eq(name, "canvas") {
            self.push_mode = None;
            self.canvas_mode = Some(read_at(place, CanvasMode::parse(value))?);
        } else {
            let push_mode = match PushMode::parse(value) {
                Ok(mode) => Some(mode),
                Err(_) => None,
            };
            let canvas_mode = match CanvasMode::parse(value) {
                Ok(mode) => Some(mode),
                Err(_) => None,
            };
            if push_mode.is_none() && canvas_mode.is_none() {
                let message = concat2("unknown transition mode: ", value);
                return Err(place.located(message.as_str()));
            }
            self.push_mode = push_mode;
            self.canvas_mode = canvas_mode;
        }
        Ok(())
    }

    /// Sets a field of the profile, and says whether there is such a field.
    fn apply_field(&mut self, name: &str, field: &str, place: Place<'_>, value: &str) -> (result:
        Result<bool, String>)
        ensures
            match (result, profile_with(old(self)@, name@, field@, place@, value@)) {
                (Ok(known), Ok(Some(changed))) => known && final(self)@ == changed,
                (Ok(known), Ok(None)) => !known && final(self)@ == old(self)@,
                (Err(message), Err(expected)) => message@ == expected,
                _ => false,
            },
    {
        if text_eq(field, "type") {
            self.kind = Some(read_at(place, read_kind(value))?);
        } else if text_eq(field, "direction") {
            self.direction = Some(read_at(place, PushDirection::parse(value))?);
        } else if text_eq(field, "duration_ms") {
            self.duration_ms = Some(read_milliseconds(place, value)?);
        } else if text_eq(field, "easing") {
            self.easing = Some(read_at(place, Easing::parse(value))?);
        } else if text_eq(field, "mode") {
            self.apply_mode(name, place, value)?;
        } else if text_eq(field, "walk") {
            self.canvas_walk = Some(read_at(place, CanvasWalk::parse(value))?);
        } else if text_eq(field, "zoom_out_ms") {
            self.canvas_out_ms = Some(read_milliseconds(place, value)?);
        } else if text_eq(field, "pan_ms") {
            self.canvas_pan_ms = Some(read_milliseconds(place, value)?);
        } else if text_eq(field, "zoom_in_ms") {
            self.canvas_in_ms = Some(read_milliseconds(place, value)?);
        } else if text_eq(field, "pan_axis") {
            self.canvas_pan_axis = Some(read_at(place, CanvasPanAxis::parse(value))?);
        } else if text_eq(field, "overview_scale") {
            self.canvas_overview_scale = Some(read_overview_scale(place, value)?);
        } else if text_eq(field, "tile_count") {
            self.canvas_tile_count = Some(read_tile_count(place, value)?);
        } else if text_eq(field, "max_tile_count") {
            self.canvas_max_tile_count = Some(read_tile_limit(place, value)?);
        } else if text_eq(field, "fallback") {
            if !text_eq(name, "world") {
                let message = concat3(
                    "transition.",
                    name,
                    ".fallback is only supported for world",
                );
                return Err(place.located(message.as_str()));
            }
            self.fallback = Some(copy_text(value));
        } else {
            return Ok(false);
        }
        Ok(true)
    }
}

/// The profile of a name: one that says nothing where none is written.
pub open spec fn profile_of(raw: RawView, name: Seq<char>) -> ProfileView {
    match textmap::entries_get(raw.transition_profiles, name) {
        Some(profile) => profile,
        None => empty_profile(),
    }
}

/// The name of a profile and the field of it that a key is about.
pub open spec fn profile_key(key: Seq<char>) -> Option<(Seq<char>, Seq<char>)> {
    if !text::starts(key, "transition."@) {
        None
    } else {
        match text::split_at_first(key.skip("transition."@.len() as int), '.') {
            Some((name, field)) => if name.len() == 0 || field.len() == 0 {
                None
            } else {
                Some((name, field))
            },
            None => None,
        }
    }
}

/// The message that a key has no meaning.
pub open spec fn unknown_key(path: Seq<char>, line: nat, key: Seq<char>) -> Seq<char> {
    on_line(path, line, "unknown config key: "@ + key)
}

/// A configuration with a field of a profile set.
pub open spec fn raw_with_profile(
    raw: RawView,
    path: Seq<char>,
    line: nat,
    key: Seq<char>,
    value: Seq<char>,
) -> Result<RawView, Seq<char>> {
    match profile_key(key) {
        None => Err(unknown_key(path, line, key)),
        Some((name, field)) => match profile_with(
            profile_of(raw, name),
            name,
            field,
            PlaceView::Line { path, line, key },
            value,
        ) {
            Err(message) => Err(message),
            Ok(None) => Err(unknown_key(path, line, key)),
            Ok(Some(profile)) => Ok(
                RawView {
                    transition_profiles: textmap::entries_insert(raw.transition_profiles, name, profile),
                    ..raw
                },
            ),
        },
    }
}

/// A configuration with the value of a key set.
pub open spec fn raw_with(
    raw: RawView,
    host: HostView,
    path: Seq<char>,
    line: nat,
    key: Seq<char>,
    value: Seq<char>,
) -> Result<RawView, Seq<char>> {
    let place = PlaceView::Line { path, line, key };
    if key == "wall_dir"@ {
        Ok(RawView { wall_dir: Some(paths::home_expanded(value, host.home)), ..raw })
    } else if key == "state_dir"@ {
        Ok(RawView { state_dir: Some(paths::home_expanded(value, host.home)), ..raw })
    } else if key == "quarantine_dir"@ {
        Ok(RawView { quarantine_dir: Some(paths::home_expanded(value, host.home)), ..raw })
    } else if key == "favorite_weight"@ {
        match count_setting(place, value) {
            Ok(value) => Ok(RawView { favorite_weight: Some(value), ..raw }),
            Err(message) => Err(message),
        }
    } else if key == "max_history"@ {
        match count_setting(place, value) {
            Ok(value) => Ok(RawView { max_history: Some(value), ..raw }),
            Err(message) => Err(message),
        }
    } else if key == "scale_mode"@ {
        match placed(place, ScaleMode::named(value)) {
            Ok(value) => Ok(RawView { scale_mode: value, ..raw }),
            Err(message) => Err(message),
        }
    } else if key == "canvas.thumbnail_max_edge"@ {
        match edge_setting(place, value) {
            Ok(value) => Ok(RawView { canvas_thumbnail_max_edge: value, ..raw }),
            Err(message) => Err(message),
        }
    } else if key == "canvas.cache.workers"@ {
        match workers_setting(place, value, host.parallelism) {
            Ok(value) => Ok(RawView { canvas_cache_workers: value, ..raw }),
            Err(message) => Err(message),
        }
    } else if key == "canvas.cache.backend"@ {
        match placed(place, CacheBackend::named(value)) {
            Ok(value) => Ok(RawView { canvas_cache_backend: value, ..raw }),
            Err(message) => Err(message),
        }
    } else if key == "canvas.cache.memory_mib"@ {
        match count_setting(place, value) {
            Ok(value) => Ok(RawView { canvas_cache_memory_mib: value, ..raw }),
            Err(message) => Err(message),
        }
    } else if key == "decode.full_workers"@ {
        match workers_setting(place, value, host.parallelism) {
            Ok(value) => Ok(RawView { decode_full_workers: value, ..raw }),
            Err(message) => Err(message),
        }
    } else if key == "action.next"@ {
        Ok(RawView { transition_next: value, ..raw })
    } else if key == "action.back"@ {
        Ok(RawView { transition_back: value, ..raw })
    } else if key == "action.shift_forward"@ {
        Ok(RawView { transition_shift_forward: value, ..raw })
    } else if key == "action.shift_back"@ {
        Ok(RawView { transition_shift_back: value, ..raw })
    } else if key == "action.replace"@ {
        Ok(RawView { transition_replace: value, ..raw })
    } else if key == "action.quarantine"@ {
        Ok(RawView { transition_quarantine: value, ..raw })
    } else if key == "action.startup"@ {
        Ok(RawView { transition_startup: value, ..raw })
    } else {
        raw_with_profile(raw, path, line, key, value)
    }
}

fn home_of(host: &Host) -> (home: Option<&str>)
    ensures
        paths::str_if(home) == host@.home,
{
    match &host.home {
        Some(home) => Some(home.as_str()),
        None => None,
    }
}

/// The name of a profile and the field of it that a key is about.
fn split_profile_key(key: &str) -> (result: Option<(String, String)>)
    ensures
        match (result, profile_key(key@)) {
            (Some((name, field)), Some(expected)) => name@ == expected.0 && field@ == expected.1,
            (None, None) => true,
            _ => false,
        },
{
    if !starts_with(key, "transition.") {
        return None;
    }
    proof {
        reveal_strlit("transition.");
        assert("transition."@.len() == 11);
    }
    let chars = chars_of(key);
    let rest = text_of_range(&chars, 11, chars.len());
    assert(rest@ =~= key@.skip(11));
    match split_once(rest.as_str(), '.') {
        None => None,
        Some((name, field)) => {
            proof {
                reveal_strlit("");
                if name@.len() == 0 {
                    assert(name@ =~= ""@);
                }
                if field@.len() == 0 {
                    assert(field@ =~= ""@);
                }
            }
            if text_eq(name.as_str(), "") || text_eq(field.as_str(), "") {
                None
            } else {
                Some((name, field))
            }
        },
    }
}

impl RawConfig {
    /// Sets a field of a profile. What the configuration holds after an error is left
    /// open.
    fn apply_transition_profile_value(&mut self, path: &str, line: usize, key: &str, value: &str)
        -> (result: Result<(), String>)
        ensures
            match (result, raw_with_profile(old(self)@, path@, line as nat, key@, value@)) {
                (Ok(_), Ok(changed)) => final(self)@ == changed,
                (Err(message), Err(expected)) => message@ == expected,
                _ => false,
            },
    {
        let ghost view = |profile: RawTransitionProfile| profile@;
        let ghost before = self.transition_profiles.raw();
        if let Some((name, field)) = split_profile_key(key) {
            proof {
                textmap::lemma_map_get(before, view, name@);
            }
            let mut profile = match self.transition_profiles.get(name.as_str()) {
                Some(profile) => profile.copy(),
                None => RawTransitionProfile::empty(),
            };
            assert(profile@ == profile_of(self@, name@));
            let place = Place::Line { path, line, key };
            if profile.apply_field(name.as_str(), field.as_str(), place, value)? {
                proof {
                    textmap::lemma_map_insert(before, view, name@, profile);
                }
                self.transition_profiles.insert(name, profile);
                return Ok(());
            }
        }
        let message = concat2("unknown config key: ", key);
        Err(message_on_line(path, line, message.as_str()))
    }

    /// Sets the value of a key. What the configuration holds after an error is left open.
    fn apply_value(
        &mut self,
        host: &Host,
        path: &str,
        line: usize,
        key: &str,
        value: &str,
    ) -> (result: Result<(), String>)
        ensures
            match (result, raw_with(old(self)@, host@, path@, line as nat, key@, value@)) {
                (Ok(_), Ok(changed)) => final(self)@ == changed,
                (Err(message), Err(expected)) => message@ == expected,
                _ => false,
            },
    {
        let place = Place::Line { path, line, key };
        if text_eq(key, "wall_dir") {
            self.wall_dir = Some(expand_home(value, home_of(host)));
        } else if text_eq(key, "state_dir") {
            self.state_dir = Some(expand_home(value, home_of(host)));
        } else if text_eq(key, "quarantine_dir") {
            self.quarantine_dir = Some(expand_home(value, home_of(host)));
        } else if text_eq(key, "favorite_weight") {
            self.favorite_weight = Some(read_count(place, value)?);
        } else if text_eq(key, "max_history") {
            self.max_history = Some(read_count(place, value)?);
        } else if text_eq(key, "scale_mode") {
            self.scale_mode = read_at(place, ScaleMode::parse(value))?;
        } else if text_eq(key, "canvas.thumbnail_max_edge") {
            self.canvas_thumbnail_max_edge = read_edge(place, value)?;
        } else if text_eq(key, "canvas.cache.workers") {
            self.canvas_cache_workers = read_workers(place, value, host.parallelism)?;
        } else if text_eq(key, "canvas.cache.backend") {
            self.canvas_cache_backend = read_at(place, CacheBackend::parse(value))?;
        } else if text_eq(key, "canvas.cache.memory_mib") {
            self.canvas_cache_memory_mib = read_count(place, value)?;
        } else if text_eq(key, "decode.full_workers") {
            self.decode_full_workers = read_workers(place, value, host.parallelism)?;
        } else if text_eq(key, "action.next") {
            self.transition_next = copy_text(value);
        } else if text_eq(key, "action.back") {
            self.transition_back = copy_text(value);
        } else if text_eq(key, "action.shift_forward") {
            self.transition_shift_forward = copy_text(value);
        } else if text_eq(key, "action.shift_back") {
            self.transition_shift_back = copy_text(value);
        } else if text_eq(key, "action.replace") {
            self.transition_replace = copy_text(value);
        } else if text_eq(key, "action.quarantine") {
            self.transition_quarantine = copy_text(value);
        } else if text_eq(key, "action.startup") {
            self.transition_startup = copy_text(value);
        } else {
            return self.apply_transition_profile_value(path, line, key, value);
        }
        Ok(())
    }
}

// ---------------------------------------------------------------------------
// Lines

/// A line up to a comment: a `#` or a `;` outside quotes starts one.
pub open spec fn before_comment(line: Seq<char>, single: bool, double: bool) -> Seq<char>
    decreases line.len(),
{
    if line.len() == 0 {
        line
    } else if (line[0] == '#' || line[0] == ';') && !single && !double {
        Seq::empty()
    } else {
        seq![line[0]] + before_comment(
            line.skip(1),
            if line[0] == '\'' && !double {
                !single
            } else {
                single
            },
            if line[0] == '"' && !single {
                !double
            } else {
                double
            },
        )
    }
}

/// Cuts a comment off a line.
pub fn strip_inline_comment(line: &str) -> (result: String)
    ensures
        result@ == before_comment(line@, false, false),
{
    let chars = chars_of(line);
    let mut single = false;
    let mut double = false;
    let mut i: usize = 0;
    assert(line@.skip(0) =~= line@);
    assert(line@.take(0) + before_comment(line@, false, false) =~= before_comment(
        line@,
        false,
        false,
    ));
    while i < chars.len()
        invariant
            i <= chars@.len(),
            chars@ == line@,
            line@.take(i as int) + before_comment(line@.skip(i as int), single, double)
                == before_comment(line@, false, false),
        decreases chars@.len() - i,
    {
        let c = chars[i];
        let ghost rest = line@.skip(i as int);
        assert(rest.skip(1) =~= line@.skip(i + 1));
        if (c == '#' || c == ';') && !single && !double {
            let result = text_of_range(&chars, 0, i);
            assert(result@ =~= line@.take(i as int) + Seq::<char>::empty());
            return result;
        }
        if c == '\'' && !double {
            single = !single;
        } else if c == '"' && !single {
            double = !double;
        }
        assert(line@.take(i as int) + (seq![c] + before_comment(line@.skip(i + 1), single, double))
            =~= line@.take(i + 1) + before_comment(line@.skip(i + 1), single, double));
        i = i + 1;
    }
    assert(line@.take(i as int) + line@.skip(i as int) =~= line@);
    copy_text(line)
}

/// A value without the quotes around it.
pub open spec fn unquoted(value: Seq<char>) -> Seq<char> {
    if value.len() >= 2 && value[0] == value.last() && (value[0] == '"' || value[0] == '\'') {
        value.subrange(1, value.len() - 1)
    } else {
        value
    }
}

/// Takes off the quotes around a value.
pub fn unquote(value: &str) -> (result: String)
    ensures
        result@ == unquoted(value@),
{
    let chars = chars_of(value);
    let len: usize = chars.len();
    if len >= 2 && ((chars[0] == '"' && chars[len - 1] == '"') || (chars[0] == '\'' && chars[len - 1]
        == '\'')) {
        text_of_range(&chars, 1, len - 1)
    } else {
        copy_text(value)
    }
}

/// A configuration with a line of a file applied.
pub open spec fn with_line(
    raw: RawView,
    host: HostView,
    path: Seq<char>,
    number: nat,
    line: Seq<char>,
) -> Result<RawView, Seq<char>> {
    let content = text::trimmed(before_comment(line, false, false));
    if content.len() == 0 {
        Ok(raw)
    } else {
        match text::split_at_first(content, '=') {
            None => Err(on_line(path, number, "expected key = value"@)),
            Some((key, value)) => raw_with(
                raw,
                host,
                path,
                number,
                text::trimmed(key),
                unquoted(text::trimmed(value)),
            ),
        }
    }
}

/// A configuration with the lines of a file applied, from the first on.
pub open spec fn with_lines(
    raw: RawView,
    host: HostView,
    path: Seq<char>,
    lines: Seq<Seq<char>>,
) -> Result<RawView, Seq<char>>
    decreases lines.len(),
{
    if lines.len() == 0 {
        Ok(raw)
    } else {
        match with_lines(raw, host, path, lines.drop_last()) {
            Err(message) => Err(message),
            Ok(done) => with_line(done, host, path, lines.len(), lines.last()),
        }
    }
}

proof fn lemma_line_error_stays(
    raw: RawView,
    host: HostView,
    path: Seq<char>,
    lines: Seq<Seq<char>>,
    n: int,
)
    requires
        0 <= n <= lines.len(),
        with_lines(raw, host, path, lines.take(n)) is Err,
    ensures
        with_lines(raw, host, path, lines) == with_lines(raw, host, path, lines.take(n)),
    decreases lines.len() - n,
{
    if n == lines.len() {
        assert(lines.take(n) =~= lines);
    } else {
        assert(lines.take(n + 1).drop_last() =~= lines.take(n));
        lemma_line_error_stays(raw, host, path, lines, n + 1);
    }
}

impl RawConfig {
    fn apply_line(&mut self, host: &Host, path: &str, number: usize, line: &str) -> (result: Result<
        (),
        String,
    >)
        ensures
            match (result, with_line(old(self)@, host@, path@, number as nat, line@)) {
                (Ok(_), Ok(changed)) => final(self)@ == changed,
                (Err(message), Err(expected)) => message@ == expected,
                _ => false,
            },
    {
        let bare = strip_inline_comment(line);
        let content = trim(bare.as_str());
        proof {
            reveal_strlit("");
            if content@.len() == 0 {
                assert(content@ =~= ""@);
            }
        }
        if text_eq(content.as_str(), "") {
            return Ok(());
        }
        match split_once(content.as_str(), '=') {
            None => Err(message_on_line(path, number, "expected key = value")),
            Some((raw_key, raw_value)) => {
                let key = trim(raw_key.as_str());
                let quoted = trim(raw_value.as_str());
                let value = unquote(quoted.as_str());
                self.apply_value(host, path, number, key.as_str(), value.as_str())
            },
        }
    }

    /// Applies the text of a file. What the configuration holds after an error is left
    /// open.
    pub fn apply_file(&mut self, host: &Host, path: &str, content: &str) -> (result: Result<
        (),
        String,
    >)
        ensures
            match (result, with_lines(old(self)@, host@, path@, text::lines_of(content@))) {
                (Ok(_), Ok(changed)) => final(self)@ == changed,
                (Err(message), Err(expected)) => message@ == expected,
                _ => false,
            },
    {
        let list = lines(content);
        let ghost start = self@;
        let ghost all = text::texts(list@);
        let mut i: usize = 0;
        assert(all.take(0) =~= Seq::<Seq<char>>::empty());
        while i < list.len()
            invariant
                i <= list@.len(),
                all == text::texts(list@),
                all == text::lines_of(content@),
                start == old(self)@,
                with_lines(start, host@, path@, all.take(i as int)) == Ok::<RawView, Seq<char>>(
                    self@,
                ),
            decreases list@.len() - i,
        {
            proof {
                assert(all.take(i + 1).drop_last() =~= all.take(i as int));
                assert(all.take(i + 1).last() == list@[i as int]@);
            }
            match self.apply_line(host, path, i + 1, list[i].as_str()) {
                Ok(()) => {},
                Err(message) => {
                    proof {
                        lemma_line_error_stays(start, host@, path@, all, i + 1);
                    }
                    return Err(message);
                },
            }
            i = i + 1;
        }
        assert(all.take(i as int) =~= all);
        Ok(())
    }
}

// ---------------------------------------------------------------------------
// Variables

/// The variables that override a configuration, in the order in which they apply.
pub open spec fn variable_names() -> Seq<Seq<char>> {
    seq![
        "MURAL_SCALE_MODE"@,
        "MURAL_CANVAS_ZOOM_OUT_MS"@,
        "MURAL_CANVAS_PAN_MS"@,
        "MURAL_CANVAS_ZOOM_IN_MS"@,
        "MURAL_CANVAS_MODE"@,
        "MURAL_CANVAS_WALK"@,
        "MURAL_CANVAS_PAN_AXIS"@,
        "MURAL_CANVAS_OVERVIEW_SCALE"@,
        "MURAL_CANVAS_TILE_COUNT"@,
        "MURAL_CANVAS_MAX_TILE_COUNT"@,
        "MURAL_CANVAS_THUMBNAIL_MAX_EDGE"@,
        "MURAL_CANVAS_CACHE_WORKERS"@,
        "MURAL_CANVAS_CACHE_BACKEND"@,
        "MURAL_CANVAS_CACHE_MEMORY_MIB"@,
        "MURAL_DECODE_FULL_WORKERS"@,
    ]
}

/// The variables that override a configuration, in the order in which they apply.
pub fn config_variables() -> (list: Vec<&'static str>)
    ensures
        registry::names(list@) == variable_names(),
{
    let list = vec![
        "MURAL_SCALE_MODE",
        "MURAL_CANVAS_ZOOM_OUT_MS",
        "MURAL_CANVAS_PAN_MS",
        "MURAL_CANVAS_ZOOM_IN_MS",
        "MURAL_CANVAS_MODE",
        "MURAL_CANVAS_WALK",
        "MURAL_CANVAS_PAN_AXIS",
        "MURAL_CANVAS_OVERVIEW_SCALE",
        "MURAL_CANVAS_TILE_COUNT",
        "MURAL_CANVAS_MAX_TILE_COUNT",
        "MURAL_CANVAS_THUMBNAIL_MAX_EDGE",
        "MURAL_CANVAS_CACHE_WORKERS",
        "MURAL_CANVAS_CACHE_BACKEND",
        "MURAL_CANVAS_CACHE_MEMORY_MIB",
        "MURAL_DECODE_FULL_WORKERS",
    ];
    assert(registry::names(list@) =~= variable_names());
    list
}

/// A configuration with a variable applied.
pub open spec fn with_variable(
    raw: RawView,
    host: HostView,
    name: Seq<char>,
    value: Seq<char>,
) -> Result<RawView, Seq<char>> {
    let place = PlaceView::Variable { name };
    if name == "MURAL_SCALE_MODE"@ {
        match placed(place, ScaleMode::named(value)) {
            Ok(value) => Ok(RawView { scale_mode: value, ..raw }),
            Err(message) => Err(message),
        }
    } else if name == "MURAL_CANVAS_ZOOM_OUT_MS"@ {
        match milliseconds_setting(place, value) {
            Ok(value) => Ok(RawView { canvas_out_ms: value, ..raw }),
            Err(message) => Err(message),
        }
    } else if name == "MURAL_CANVAS_PAN_MS"@ {
        match milliseconds_setting(place, value) {
            Ok(value) => Ok(RawView { canvas_pan_ms: value, ..raw }),
            Err(message) => Err(message),
        }
    } else if name == "MURAL_CANVAS_ZOOM_IN_MS"@ {
        match milliseconds_setting(place, value) {
            Ok(value) => Ok(RawView { canvas_in_ms: value, ..raw }),
            Err(message) => Err(message),
        }
    } else if name == "MURAL_CANVAS_MODE"@ {
        match placed(place, CanvasMode::named(value)) {
            Ok(value) => Ok(RawView { canvas_mode: value, ..raw }),
            Err(message) => Err(message),
        }
    } else if name == "MURAL_CANVAS_WALK"@ {
        match placed(place, CanvasWalk::named(value)) {
            Ok(value) => Ok(RawView { canvas_walk: value, ..raw }),
            Err(message) => Err(message),
        }
    } else if name == "MURAL_CANVAS_PAN_AXIS"@ {
        match placed(place, CanvasPanAxis::named(value)) {
            Ok(value) => Ok(RawView { canvas_pan_axis: value, ..raw }),
            Err(message) => Err(message),
        }
    } else if name == "MURAL_CANVAS_OVERVIEW_SCALE"@ {
        match scale_setting(place, value) {
            Ok(value) => Ok(RawView { canvas_overview_scale: value, ..raw }),
            Err(message) => Err(message),
        }
    } else if name == "MURAL_CANVAS_TILE_COUNT"@ {
        match tile_count_setting(place, value) {
            Ok(value) => Ok(RawView { canvas_tile_count: value, ..raw }),
            Err(message) => Err(message),
        }
    } else if name == "MURAL_CANVAS_MAX_TILE_COUNT"@ {
        match tile_limit_setting(place, value) {
            Ok(value) => Ok(RawView { canvas_max_tile_count: Some(value), ..raw }),
            Err(message) => Err(message),
        }
    } else if name == "MURAL_CANVAS_THUMBNAIL_MAX_EDGE"@ {
        match edge_setting(place, value) {
            Ok(value) => Ok(RawView { canvas_thumbnail_max_edge: value, ..raw }),
            Err(message) => Err(message),
        }
    } else if name == "MURAL_CANVAS_CACHE_WORKERS"@ {
        match workers_setting(place, value, host.parallelism) {
            Ok(value) => Ok(RawView { canvas_cache_workers: value, ..raw }),
            Err(message) => Err(message),
        }
    } else if name == "MURAL_CANVAS_CACHE_BACKEND"@ {
        match placed(place, CacheBackend::named(value)) {
            Ok(value) => Ok(RawView { canvas_cache_backend: value, ..raw }),
            Err(message) => Err(message),
        }
    } else if name == "MURAL_CANVAS_CACHE_MEMORY_MIB"@ {
        match count_setting(place, value) {
            Ok(value) => Ok(RawView { canvas_cache_memory_mib: value, ..raw }),
            Err(message) => Err(message),
        }
    } else if name == "MURAL_DECODE_FULL_WORKERS"@ {
        match workers_setting(place, value, host.parallelism) {
            Ok(value) => Ok(RawView { decode_full_workers: value, ..raw }),
            Err(message) => Err(message),
        }
    } else {
        Ok(raw)
    }
}

/// A configuration with those of the named variables applied that an environment sets.
pub open spec fn with_variables(
    raw: RawView,
    host: HostView,
    environment: Seq<(Seq<char>, Seq<char>)>,
    names: Seq<Seq<char>>,
) -> Result<RawView, Seq<char>>
    decreases names.len(),
{
    if names.len() == 0 {
        Ok(raw)
    } else {
        match with_variables(raw, host, environment, names.drop_last()) {
            Err(message) => Err(message),
            Ok(done) => match textmap::entries_get(environment, names.last()) {
                None => Ok(done),
                Some(value) => with_variable(done, host, names.last(), value),
            },
        }
    }
}

proof fn lemma_variable_error_stays(
    raw: RawView,
    host: HostView,
    environment: Seq<(Seq<char>, Seq<char>)>,
    names: Seq<Seq<char>>,
    n: int,
)
    requires
        0 <= n <= names.len(),
        with_variables(raw, host, environment, names.take(n)) is Err,
    ensures
        with_variables(raw, host, environment, names) == with_variables(
            raw,
            host,
            environment,
            names.take(n),
        ),
    decreases names.len() - n,
{
    if n == names.len() {
        assert(names.take(n) =~= names);
    } else {
        assert(names.take(n + 1).drop_last() =~= names.take(n));
        lemma_variable_error_stays(raw, host, environment, names, n + 1);
    }
}

/// The value of a variable of an environment.
pub fn variable<'a>(environment: &'a TextMap<String>, name: &str) -> (value: Option<&'a str>)
    ensures
        paths::str_if(value) == textmap::entries_get(textmap::text_entries(*environment), name@),
{
    proof {
        textmap::lemma_map_get(environment.raw(), |text: String| text@, name@);
        assert(textmap::text_entries(*environment) =~= textmap::map_entries(
            environment.raw(),
            |text: String| text@,
        ));
    }
    match environment.get(name) {
        Some(text) => Some(text.as_str()),
        None => None,
    }
}

impl RawConfig {
    fn apply_variable(&mut self, host: &Host, name: &str, value: &str) -> (result: Result<
        (),
        String,
    >)
        ensures
            match (result, with_variable(old(self)@, host@, name@, value@)) {
                (Ok(_), Ok(changed)) => final(self)@ == changed,
                (Err(message), Err(expected)) => message@ == expected,
                _ => false,
            },
    {
        let place = Place::Variable { name };
        if text_eq(name, "MURAL_SCALE_MODE") {
            self.scale_mode = read_at(place, ScaleMode::parse(value))?;
        } else if text_eq(name, "MURAL_CANVAS_ZOOM_OUT_MS") {
            self.canvas_out_ms = read_milliseconds(place, value)?;
        } else if text_eq(name, "MURAL_CANVAS_PAN_MS") {
            self.canvas_pan_ms = read_milliseconds(place, value)?;
        } else if text_eq(name, "MURAL_CANVAS_ZOOM_IN_MS") {
            self.canvas_in_ms = read_milliseconds(place, value)?;
        } else if text_eq(name, "MURAL_CANVAS_MODE") {
            self.canvas_mode = read_at(place, CanvasMode::parse(value))?;
        } else if text_eq(name, "MURAL_CANVAS_WALK") {
            self.canvas_walk = read_at(place, CanvasWalk::parse(value))?;
        } else if text_eq(name, "MURAL_CANVAS_PAN_AXIS") {
            self.canvas_pan_axis = read_at(place, CanvasPanAxis::parse(value))?;
        } else if text_eq(name, "MURAL_CANVAS_OVERVIEW_SCALE") {
            self.canvas_overview_scale = read_overview_scale(place, value)?;
        } else if text_eq(name, "MURAL_CANVAS_TILE_COUNT") {
            self.canvas_tile_count = read_tile_count(place, value)?;
        } else if text_eq(name, "MURAL_CANVAS_MAX_TILE_COUNT") {
            self.canvas_max_tile_count = Some(read_tile_limit(place, value)?);
        } else if text_eq(name, "MURAL_CANVAS_THUMBNAIL_MAX_EDGE") {
            self.canvas_thumbnail_max_edge = read_edge(place, value)?;
        } else if text_eq(name, "MURAL_CANVAS_CACHE_WORKERS") {
            self.canvas_cache_workers = read_workers(place, value, host.parallelism)?;
        } else if text_eq(name, "MURAL_CANVAS_CACHE_BACKEND") {
            self.canvas_cache_backend = read_at(place, CacheBackend::parse(value))?;
        } else if text_eq(name, "MURAL_CANVAS_CACHE_MEMORY_MIB") {
            self.canvas_cache_memory_mib = read_count(place, value)?;
        } else if text_eq(name, "MURAL_DECODE_FULL_WORKERS") {
            self.decode_full_workers = read_workers(place, value, host.parallelism)?;
        }
        Ok(())
    }

    /// Applies the variables of an environment. What the configuration holds after an
    /// error is left open.
    pub fn apply_env(&mut self, host: &Host, environment: &TextMap<String>) -> (result: Result<
        (),
        String,
    >)
        ensures
            match (
                result,
                with_variables(
                    old(self)@,
                    host@,
                    textmap::text_entries(*environment),
                    variable_names(),
                ),
            ) {
                (Ok(_), Ok(changed)) => final(self)@ == changed,
                (Err(message), Err(expected)) => message@ == expected,
                _ => false,
            },
    {
        let list = config_variables();
        let ghost start = self@;
        let ghost values = textmap::text_entries(*environment);
        let ghost all = variable_names();
        let mut i: usize = 0;
        assert(all.take(0) =~= Seq::<Seq<char>>::empty());
        while i < list.len()
            invariant
                i <= list@.len(),
                all == registry::names(list@),
                all == variable_names(),
                start == old(self)@,
                values == textmap::text_entries(*environment),
                with_variables(start, host@, values, all.take(i as int)) == Ok::<
                    RawView,
                    Seq<char>,
                >(self@),
            decreases list@.len() - i,
        {
            proof {
                assert(all.take(i + 1).drop_last() =~= all.take(i as int));
                assert(all.take(i + 1).last() == list@[i as int]@);
            }
            if let Some(value) = variable(environment, list[i]) {
                match self.apply_variable(host, list[i], value) {
                    Ok(()) => {},
                    Err(message) => {
                        proof {
                            lemma_variable_error_stays(start, host@, values, all, i + 1);
                        }
                        return Err(message);
                    },
                }
            }
            i = i + 1;
        }
        assert(all.take(i as int) =~= all);
        Ok(())
    }
}

// ---------------------------------------------------------------------------
// References

/// The first of two values that is there, or a third.
pub open spec fn first_of<T>(first: Option<T>, second: Option<T>, last: T) -> T {
    match first {
        Some(value) => value,
        None => match second {
            Some(value) => value,
            None => last,
        },
    }
}

fn pick<T: Copy>(first: Option<T>, second: Option<T>, last: T) -> (value: T)
    ensures
        value == first_of(first, second, last),
{
    match first {
        Some(value) => value,
        None => match second {
            Some(value) => value,
            None => last,
        },
    }
}

/// The profile that a reference names, and what it overrides.
pub open spec fn reference_parts(reference: Seq<char>) -> Result<
    (Seq<char>, Option<Seq<char>>),
    Seq<char>,
> {
    match text::split_at_first(reference, ':') {
        None => Ok((reference, None)),
        Some((name, suffix)) => if name.len() == 0 {
            Err("transition reference '"@ + reference + "' has an empty profile name"@)
        } else if suffix.len() == 0 {
            Err("transition reference '"@ + reference + "' has an empty override"@)
        } else {
            Ok((name, Some(suffix)))
        },
    }
}

fn split_transition_ref(reference: &str) -> (result: Result<(String, Option<String>), String>)
    ensures
        match (result, reference_parts(reference@)) {
            (Ok((name, suffix)), Ok(expected)) => name@ == expected.0 && text::text_if(suffix)
                == expected.1,
            (Err(message), Err(expected)) => message@ == expected,
            _ => false,
        },
{
    match split_once(reference, ':') {
        None => Ok((copy_text(reference), None)),
        Some((name, suffix)) => {
            proof {
                reveal_strlit("");
                if name@.len() == 0 {
                    assert(name@ =~= ""@);
                }
                if suffix@.len() == 0 {
                    assert(suffix@ =~= ""@);
                }
            }
            if text_eq(name.as_str(), "") {
                Err(
                    concat3("transition reference '", reference, "' has an empty profile name"),
                )
            } else if text_eq(suffix.as_str(), "") {
                Err(concat3("transition reference '", reference, "' has an empty override"))
            } else {
                Ok((name, Some(suffix)))
            }
        },
    }
}

/// The kind of transition that a profile stands for.
pub open spec fn kind_of(raw: RawView, name: Seq<char>) -> Option<TransitionKind> {
    match profile_of(raw, name).kind {
        Some(kind) => Some(kind),
        None => TransitionKind::named(name),
    }
}

/// The message that the mode of a profile belongs to another transition.
pub open spec fn wrong_mode(
    name: Seq<char>,
    value: Seq<char>,
    kind: Seq<char>,
    expected: Seq<char>,
) -> Seq<char> {
    "transition profile '"@ + name + "' mode '"@ + value + "' is not valid for "@ + kind
        + "; expected "@ + expected
}

fn incompatible_transition_mode(name: &str, value: &str, kind: &str, expected: &str) -> (message:
    String)
    ensures
        message@ == wrong_mode(name@, value@, kind@, expected@),
{
    let mut message = concat5(
        "transition profile '",
        name,
        "' mode '",
        value,
        "' is not valid for ",
    );
    message.append(kind);
    message.append("; expected ");
    message.append(expected);
    message
}

/// The push mode that a profile sets, if any.
pub open spec fn own_push_mode(name: Seq<char>, profile: ProfileView) -> Result<
    Option<PushMode>,
    Seq<char>,
> {
    match profile.push_mode {
        Some(mode) => Ok(Some(mode)),
        None => match profile.mode_value {
            Some(value) => Err(wrong_mode(name, value, "push"@, "portal, screen, or pan"@)),
            None => Ok(None),
        },
    }
}

/// The push mode of a profile: its own, that of the profile `push`, or the default.
pub open spec fn push_mode_of(raw: RawView, name: Seq<char>, profile: ProfileView) -> Result<
    PushMode,
    Seq<char>,
> {
    match own_push_mode(name, profile) {
        Err(message) => Err(message),
        Ok(Some(mode)) => Ok(mode),
        Ok(None) => if name == "push"@ {
            Ok(raw.push_mode)
        } else {
            match own_push_mode("push"@, profile_of(raw, "push"@)) {
                Err(message) => Err(message),
                Ok(Some(mode)) => Ok(mode),
                Ok(None) => Ok(raw.push_mode),
            }
        },
    }
}

/// The canvas mode that a profile sets, if any.
pub open spec fn own_canvas_mode(name: Seq<char>, profile: ProfileView) -> Result<
    Option<CanvasMode>,
    Seq<char>,
> {
    match profile.canvas_mode {
        Some(mode) => Ok(Some(mode)),
        None => match profile.mode_value {
            Some(value) => Err(
                wrong_mode(name, value, "canvas"@, "clipped, morph, overlap, collage, or span"@),
            ),
            None => Ok(None),
        },
    }
}

/// The canvas mode of a profile: its own, that of the profile `canvas`, or the default.
pub open spec fn canvas_mode_of(raw: RawView, name: Seq<char>, profile: ProfileView) -> Result<
    CanvasMode,
    Seq<char>,
> {
    match own_canvas_mode(name, profile) {
        Err(message) => Err(message),
        Ok(Some(mode)) => Ok(mode),
        Ok(None) => if name == "canvas"@ {
            Ok(raw.canvas_mode)
        } else {
            match own_canvas_mode("canvas"@, profile_of(raw, "canvas"@)) {
                Err(message) => Err(message),
                Ok(Some(mode)) => Ok(mode),
                Ok(None) => Ok(raw.canvas_mode),
            }
        },
    }
}

/// The canvas walk of a profile.
pub open spec fn walk_of(raw: RawView, profile: ProfileView) -> CanvasWalk {
    first_of(
        profile.canvas_walk,
        profile_of(raw, "canvas"@).canvas_walk,
        raw.canvas_walk,
    )
}

/// The number of canvas tiles of a profile.
pub open spec fn tile_count_of(raw: RawView, profile: ProfileView) -> CanvasTileCount {
    let built_in = profile_of(raw, "canvas"@);
    match first_of(profile.canvas_tile_count, built_in.canvas_tile_count, raw.canvas_tile_count) {
        RawCanvasTileCount::Fixed(count) => CanvasTileCount::Fixed(count),
        RawCanvasTileCount::Auto => CanvasTileCount::Auto {
            max: match profile.canvas_max_tile_count {
                Some(max) => Some(max),
                None => match built_in.canvas_max_tile_count {
                    Some(max) => Some(max),
                    None => raw.canvas_max_tile_count,
                },
            },
        },
    }
}

/// The message that a reference overrides what cannot be overridden.
pub open spec fn no_override(name: Seq<char>) -> Seq<char> {
    "transition '"@ + name + "' does not accept ':override'"@
}

/// The duration of a profile, with that of the profile of its kind behind it.
pub open spec fn duration_of(raw: RawView, profile: ProfileView, built_in: ProfileView) -> u64 {
    first_of(profile.duration_ms, built_in.duration_ms, raw.duration_ms)
}

/// The easing of a profile, with that of the profile of its kind behind it.
pub open spec fn easing_of(raw: RawView, profile: ProfileView, built_in: ProfileView) -> Easing {
    first_of(profile.easing, built_in.easing, raw.easing)
}

/// The push transition of a profile.
pub open spec fn push_of(raw: RawView, name: Seq<char>, suffix: Option<Seq<char>>) -> Result<
    Transition,
    Seq<char>,
> {
    let profile = profile_of(raw, name);
    let built_in = profile_of(raw, "push"@);
    let direction = match suffix {
        Some(suffix) => match PushDirection::named(suffix) {
            Ok(direction) => Ok(Some(direction)),
            Err(message) => Err(message),
        },
        None => Ok(profile.direction),
    };
    match direction {
        Err(message) => Err(message),
        Ok(None) => Err("push transition '"@ + name + "' requires a direction"@),
        Ok(Some(direction)) => match push_mode_of(raw, name, profile) {
            Err(message) => Err(message),
            Ok(mode) => Ok(
                Transition::Push {
                    direction,
                    duration_ms: duration_of(raw, profile, built_in),
                    easing: easing_of(raw, profile, built_in),
                    mode,
                },
            ),
        },
    }
}

/// The canvas transition of a profile.
pub open spec fn canvas_of(raw: RawView, name: Seq<char>, suffix: Option<Seq<char>>) -> Result<
    Transition,
    Seq<char>,
> {
    let profile = profile_of(raw, name);
    let built_in = profile_of(raw, "canvas"@);
    let pan_axis = match suffix {
        Some(suffix) => CanvasPanAxis::named(suffix),
        None => Ok(
            first_of(profile.canvas_pan_axis, built_in.canvas_pan_axis, raw.canvas_pan_axis),
        ),
    };
    match pan_axis {
        Err(message) => Err(message),
        Ok(pan_axis) => match canvas_mode_of(raw, name, profile) {
            Err(message) => Err(message),
            Ok(mode) => match protocol::mode_walk_check(mode, walk_of(raw, profile)) {
                Err(message) => Err(message),
                Ok(_) => Ok(
                    Transition::Canvas {
                        zoom_out_ms: first_of(
                            profile.canvas_out_ms,
                            built_in.canvas_out_ms,
                            raw.canvas_out_ms,
                        ),
                        pan_ms: first_of(
                            profile.canvas_pan_ms,
                            built_in.canvas_pan_ms,
                            raw.canvas_pan_ms,
                        ),
                        zoom_in_ms: first_of(
                            profile.canvas_in_ms,
                            built_in.canvas_in_ms,
                            raw.canvas_in_ms,
                        ),
                        easing: easing_of(raw, profile, built_in),
                        mode,
                        walk: walk_of(raw, profile),
                        pan_axis,
                        overview_scale: first_of(
                            profile.canvas_overview_scale,
                            built_in.canvas_overview_scale,
                            raw.canvas_overview_scale,
                        ),
                        tile_count: tile_count_of(raw, profile),
                    },
                ),
            },
        },
    }
}

/// The transition that a reference stands for.
pub open spec fn resolved(raw: RawView, reference: Seq<char>) -> Result<Transition, Seq<char>> {
    match reference_parts(reference) {
        Err(message) => Err(message),
        Ok((name, suffix)) => {
            let profile = profile_of(raw, name);
            match kind_of(raw, name) {
                None => Err("transition profile '"@ + name + "' is not defined"@),
                Some(TransitionKind::Cut) => if suffix is Some {
                    Err(no_override(name))
                } else {
                    Ok(Transition::Cut)
                },
                Some(TransitionKind::Fade) => if suffix is Some {
                    Err(no_override(name))
                } else {
                    Ok(
                        Transition::Fade {
                            duration_ms: duration_of(raw, profile, profile_of(raw, "fade"@)),
                            easing: easing_of(raw, profile, profile_of(raw, "fade"@)),
                        },
                    )
                },
                Some(TransitionKind::World) => if suffix is Some {
                    Err(no_override(name))
                } else {
                    Ok(
                        Transition::World {
                            duration_ms: duration_of(raw, profile, profile_of(raw, "world"@)),
                            easing: easing_of(raw, profile, profile_of(raw, "world"@)),
                        },
                    )
                },
                Some(TransitionKind::Push) => push_of(raw, name, suffix),
                Some(TransitionKind::Canvas) => canvas_of(raw, name, suffix),
            }
        },
    }
}

fn reject_transition_suffix(name: &str, suffix: &Option<String>) -> (result: Result<(), String>)
    ensures
        error::agrees(
            result,
            if text::text_if(*suffix) is Some {
                Err(no_override(name@))
            } else {
                Ok(())
            },
        ),
{
    match suffix {
        Some(_) => Err(concat3("transition '", name, "' does not accept ':override'")),
        None => Ok(()),
    }
}

impl RawConfig {
    /// The profile of a name: one that says nothing where none is written.
    fn profile(&self, name: &str) -> (profile: RawTransitionProfile)
        ensures
            profile@ == profile_of(self@, name@),
    {
        proof {
            textmap::lemma_map_get(
                self.transition_profiles.raw(),
                |profile: RawTransitionProfile| profile@,
                name@,
            );
        }
        match self.transition_profiles.get(name) {
            Some(profile) => profile.copy(),
            None => RawTransitionProfile::empty(),
        }
    }

    fn own_push_mode(name: &str, profile: &RawTransitionProfile) -> (result: Result<
        Option<PushMode>,
        String,
    >)
        ensures
            error::agrees(result, own_push_mode(name@, profile@)),
    {
        match profile.push_mode {
            Some(mode) => Ok(Some(mode)),
            None => match &profile.mode_value {
                Some(value) => Err(
                    incompatible_transition_mode(
                        name,
                        value.as_str(),
                        "push",
                        "portal, screen, or pan",
                    ),
                ),
                None => Ok(None),
            },
        }
    }

    fn resolve_push_mode(&self, name: &str, profile: &RawTransitionProfile) -> (result: Result<
        PushMode,
        String,
    >)
        ensures
            error::agrees(result, push_mode_of(self@, name@, profile@)),
    {
        if let Some(mode) = Self::own_push_mode(name, profile)? {
            return Ok(mode);
        }
        if !text_eq(name, "push") {
            let built_in = self.profile("push");
            if let Some(mode) = Self::own_push_mode("push", &built_in)? {
                return Ok(mode);
            }
        }
        Ok(self.push_mode)
    }

    fn own_canvas_mode(name: &str, profile: &RawTransitionProfile) -> (result: Result<
        Option<CanvasMode>,
        String,
    >)
        ensures
            error::agrees(result, own_canvas_mode(name@, profile@)),
    {
        match profile.canvas_mode {
            Some(mode) => Ok(Some(mode)),
            None => match &profile.mode_value {
                Some(value) => Err(
                    incompatible_transition_mode(
                        name,
                        value.as_str(),
                        "canvas",
                        "clipped, morph, overlap, collage, or span",
                    ),
                ),
                None => Ok(None),
            },
        }
    }

    fn resolve_canvas_mode(&self, name: &str, profile: &RawTransitionProfile) -> (result: Result<
        CanvasMode,
        String,
    >)
        ensures
            error::agrees(result, canvas_mode_of(self@, name@, profile@)),
    {
        if let Some(mode) = Self::own_canvas_mode(name, profile)? {
            return Ok(mode);
        }
        if !text_eq(name, "canvas") {
            let built_in = self.profile("canvas");
            if let Some(mode) = Self::own_canvas_mode("canvas", &built_in)? {
                return Ok(mode);
            }
        }
        Ok(self.canvas_mode)
    }

    fn resolve_canvas_walk(&self, profile: &RawTransitionProfile) -> (walk: CanvasWalk)
        ensures
            walk == walk_of(self@, profile@),
    {
        let built_in = self.profile("canvas");
        pick(profile.canvas_walk, built_in.canvas_walk, self.canvas_walk)
    }

    fn resolve_canvas_tile_count(&self, profile: &RawTransitionProfile) -> (tile_count:
        CanvasTileCount)
        ensures
            tile_count == tile_count_of(self@, profile@),
    {
        let built_in = self.profile("canvas");
        match pick(profile.canvas_tile_count, built_in.canvas_tile_count, self.canvas_tile_count) {
            RawCanvasTileCount::Fixed(count) => CanvasTileCount::Fixed(count),
            RawCanvasTileCount::Auto => CanvasTileCount::Auto {
                max: match profile.canvas_max_tile_count {
                    Some(max) => Some(max),
                    None => match built_in.canvas_max_tile_count {
                        Some(max) => Some(max),
                        None => self.canvas_max_tile_count,
                    },
                },
            },
        }
    }

    fn resolve_push(&self, name: &str, suffix: &Option<String>) -> (result: Result<
        Transition,
        String,
    >)
        ensures
            error::agrees(result, push_of(self@, name@, text::text_if(*suffix))),
    {
        let profile = self.profile(name);
        let built_in = self.profile("push");
        let direction = match suffix {
            Some(suffix) => match PushDirection::parse(suffix.as_str()) {
                Ok(direction) => Some(direction),
                Err(error) => {
                    return Err(error.to_text());
                },
            },
            None => profile.direction,
        };
        let direction = match direction {
            Some(direction) => direction,
            None => {
                return Err(concat3("push transition '", name, "' requires a direction"));
            },
        };
        let mode = self.resolve_push_mode(name, &profile)?;
        Ok(
            Transition::Push {
                direction,
                duration_ms: pick(profile.duration_ms, built_in.duration_ms, self.duration_ms),
                easing: pick(profile.easing, built_in.easing, self.easing),
                mode,
            },
        )
    }

    fn resolve_canvas(&self, name: &str, suffix: &Option<String>) -> (result: Result<
        Transition,
        String,
    >)
        ensures
            error::agrees(result, canvas_of(self@, name@, text::text_if(*suffix))),
    {
        let profile = self.profile(name);
        let built_in = self.profile("canvas");
        let pan_axis = match suffix {
            Some(suffix) => match CanvasPanAxis::parse(suffix.as_str()) {
                Ok(pan_axis) => pan_axis,
                Err(error) => {
                    return Err(error.to_text());
                },
            },
            None => pick(profile.canvas_pan_axis, built_in.canvas_pan_axis, self.canvas_pan_axis),
        };
        let mode = self.resolve_canvas_mode(name, &profile)?;
        let walk = self.resolve_canvas_walk(&profile);
        match validate_canvas_mode_walk(mode, walk) {
            Ok(()) => {},
            Err(error) => {
                return Err(error.to_text());
            },
        }
        Ok(
            Transition::Canvas {
                zoom_out_ms: pick(
                    profile.canvas_out_ms,
                    built_in.canvas_out_ms,
                    self.canvas_out_ms,
                ),
                pan_ms: pick(profile.canvas_pan_ms, built_in.canvas_pan_ms, self.canvas_pan_ms),
                zoom_in_ms: pick(profile.canvas_in_ms, built_in.canvas_in_ms, self.canvas_in_ms),
                easing: pick(profile.easing, built_in.easing, self.easing),
                mode,
                walk,
                pan_axis,
                overview_scale: pick(
                    profile.canvas_overview_scale,
                    built_in.canvas_overview_scale,
                    self.canvas_overview_scale,
                ),
                tile_count: self.resolve_canvas_tile_count(&profile),
            },
        )
    }

    /// The transition that a reference stands for.
    pub fn resolve_transition_ref(&self, reference: &str) -> (result: Result<Transition, String>)
        ensures
            error::agrees(result, resolved(self@, reference@)),
    {
        let (name, suffix) = split_transition_ref(reference)?;
        let name = name.as_str();
        let profile = self.profile(name);
        let kind = match profile.kind {
            Some(kind) => kind,
            None => match builtin_transition_kind(name) {
                Some(kind) => kind,
                None => {
                    return Err(concat3("transition profile '", name, "' is not defined"));
                },
            },
        };
        match kind {
            TransitionKind::Cut => {
                reject_transition_suffix(name, &suffix)?;
                Ok(Transition::Cut)
            },
            TransitionKind::Fade => {
                reject_transition_suffix(name, &suffix)?;
                let built_in = self.profile("fade");
                Ok(
                    Transition::Fade {
                        duration_ms: pick(
                            profile.duration_ms,
                            built_in.duration_ms,
                            self.duration_ms,
                        ),
                        easing: pick(profile.easing, built_in.easing, self.easing),
                    },
                )
            },
            TransitionKind::World => {
                reject_transition_suffix(name, &suffix)?;
                let built_in = self.profile("world");
                Ok(
                    Transition::World {
                        duration_ms: pick(
                            profile.duration_ms,
                            built_in.duration_ms,
                            self.duration_ms,
                        ),
                        easing: pick(profile.easing, built_in.easing, self.easing),
                    },
                )
            },
            TransitionKind::Push => self.resolve_push(name, &suffix),
            TransitionKind::Canvas => self.resolve_canvas(name, &suffix),
        }
    }
}

// ---------------------------------------------------------------------------
// Checks

/// The fields of a profile and whether each is set.
pub open spec fn populated(profile: ProfileView) -> Seq<(Seq<char>, bool)> {
    seq![
        ("direction"@, profile.direction is Some),
        ("duration_ms"@, profile.duration_ms is Some),
        ("easing"@, profile.easing is Some),
        ("mode"@, profile.mode_value is Some),
        ("walk"@, profile.canvas_walk is Some),
        ("zoom_out_ms"@, profile.canvas_out_ms is Some),
        ("pan_ms"@, profile.canvas_pan_ms is Some),
        ("zoom_in_ms"@, profile.canvas_in_ms is Some),
        ("pan_axis"@, profile.canvas_pan_axis is Some),
        ("overview_scale"@, profile.canvas_overview_scale is Some),
        ("tile_count"@, profile.canvas_tile_count is Some),
        ("max_tile_count"@, profile.canvas_max_tile_count is Some),
        ("fallback"@, profile.fallback is Some),
    ]
}

/// The fields of a list and whether each is set.
pub open spec fn field_flags(list: Seq<(&'static str, bool)>) -> Seq<(Seq<char>, bool)> {
    Seq::new(list.len(), |i: int| (list[i].0@, list[i].1))
}

impl RawTransitionProfile {
    fn populated_fields(&self) -> (list: Vec<(&'static str, bool)>)
        ensures
            field_flags(list@) == populated(self@),
    {
        let list = vec![
            ("direction", self.direction.is_some()),
            ("duration_ms", self.duration_ms.is_some()),
            ("easing", self.easing.is_some()),
            ("mode", self.mode_value.is_some()),
            ("walk", self.canvas_walk.is_some()),
            ("zoom_out_ms", self.canvas_out_ms.is_some()),
            ("pan_ms", self.canvas_pan_ms.is_some()),
            ("zoom_in_ms", self.canvas_in_ms.is_some()),
            ("pan_axis", self.canvas_pan_axis.is_some()),
            ("overview_scale", self.canvas_overview_scale.is_some()),
            ("tile_count", self.canvas_tile_count.is_some()),
            ("max_tile_count", self.canvas_max_tile_count.is_some()),
            ("fallback", self.fallback.is_some()),
        ];
        assert(field_flags(list@) =~= populated(self@));
        list
    }
}

/// Whether a list of parameters holds one of a name.
pub open spec fn has_parameter(parameters: Seq<ParameterView>, name: Seq<char>) -> bool {
    exists|i: int| 0 <= i < parameters.len() && (#[trigger] parameters[i]).name == name
}

/// Whether a transition has a field: one of its parameters, or the fallback of `world`.
pub open spec fn supports(kind: TransitionKind, field: Seq<char>) -> bool {
    has_parameter(
        registry::schema(kind).parameters,
        field,
    ) || (kind == TransitionKind::World && field
        == "fallback"@)
}

/// The first field that is set and that a transition does not have.
pub open spec fn unsupported(fields: Seq<(Seq<char>, bool)>, kind: TransitionKind) -> Option<
    Seq<char>,
>
    decreases fields.len(),
{
    if fields.len() == 0 {
        None
    } else if fields[0].1 && !supports(kind, fields[0].0) {
        Some(fields[0].0)
    } else {
        unsupported(fields.skip(1), kind)
    }
}

fn lists_parameter(list: &Vec<TransitionParameterDescriptor>, name: &str) -> (found: bool)
    ensures
        found == has_parameter(registry::parameter_views(list@), name@),
{
    let ghost views = registry::parameter_views(list@);
    let mut i: usize = 0;
    while i < list.len()
        invariant
            i <= list@.len(),
            views == registry::parameter_views(list@),
            forall|k: int| 0 <= k < i ==> (#[trigger] views[k]).name != name@,
        decreases list@.len() - i,
    {
        assert(views[i as int] == list@[i as int]@);
        if text_eq(list[i].name, name) {
            return true;
        }
        i = i + 1;
    }
    false
}

fn descriptor_of(kind: TransitionKind) -> (descriptor: TransitionDescriptor)
    ensures
        descriptor@ == (kind, registry::schema(kind)),
{
    proof {
        kind.law_round_trip();
    }
    match transition_descriptor(kind.as_str()) {
        Some(descriptor) => descriptor,
        None => vstd::pervasive::unreached(),
    }
}

fn find_unsupported(fields: &Vec<(&'static str, bool)>, kind: TransitionKind) -> (result: Option<
    &'static str,
>)
    ensures
        paths::str_if(result) == unsupported(field_flags(fields@), kind),
{
    let descriptor = descriptor_of(kind);
    let ghost all = field_flags(fields@);
    let mut i: usize = 0;
    assert(all.skip(0) =~= all);
    while i < fields.len()
        invariant
            i <= fields@.len(),
            all == field_flags(fields@),
            descriptor@ == (kind, registry::schema(kind)),
            unsupported(all.skip(i as int), kind) == unsupported(all, kind),
        decreases fields@.len() - i,
    {
        assert(all.skip(i as int)[0] == all[i as int]);
        assert(all.skip(i as int).skip(1) =~= all.skip(i + 1));
        let (field, set) = fields[i];
        if set && !lists_parameter(&descriptor.parameters, field) && !(kind
            == TransitionKind::World && text_eq(field, "fallback")) {
            return Some(field);
        }
        i = i + 1;
    }
    None
}

/// What is wrong with a profile.
pub open spec fn profile_check(raw: RawView, name: Seq<char>, profile: ProfileView) -> Result<
    (),
    Seq<char>,
> {
    let declared = match profile.kind {
        Some(kind) => Some(kind),
        None => TransitionKind::named(name),
    };
    match declared {
        None => Err(
            "transition profile '"@ + name
                + "' must declare a compiled-in type with transition."@ + name + ".type"@,
        ),
        Some(kind) => if TransitionKind::named(name) is Some && TransitionKind::named(name)
            != Some(kind) {
            Err("built-in transition profile '"@ + name + "' cannot be retyped"@)
        } else {
            match unsupported(populated(profile), kind) {
                Some(field) => Err(
                    "transition profile '"@ + name + "' field '"@ + field
                        + "' is not valid for "@ + registry::schema(kind).name,
                ),
                None => match kind {
                    TransitionKind::Push => match push_mode_of(raw, name, profile) {
                        Err(message) => Err(message),
                        Ok(_) => Ok(()),
                    },
                    TransitionKind::Canvas => match canvas_mode_of(raw, name, profile) {
                        Err(message) => Err(message),
                        Ok(mode) => match protocol::mode_walk_check(mode, walk_of(raw, profile)) {
                            Err(message) => Err(
                                "transition profile '"@ + name + "' is invalid: "@ + message,
                            ),
                            Ok(_) => Ok(()),
                        },
                    },
                    TransitionKind::World => if name != "world"@ && profile.fallback is Some {
                        Err(
                            "transition profile '"@ + name
                                + "' field 'fallback' is only valid on the built-in world profile"@,
                        )
                    } else {
                        Ok(())
                    },
                    _ => Ok(()),
                },
            }
        },
    }
}

/// What is wrong with the first profile that is wrong, in the order of the names.
pub open spec fn profiles_check(raw: RawView, profiles: Seq<(Seq<char>, ProfileView)>) -> Result<
    (),
    Seq<char>,
>
    decreases profiles.len(),
{
    if profiles.len() == 0 {
        Ok(())
    } else {
        match profiles_check(raw, profiles.drop_last()) {
            Err(message) => Err(message),
            Ok(_) => profile_check(raw, profiles.last().0, profiles.last().1),
        }
    }
}

proof fn lemma_profile_error_stays(
    raw: RawView,
    profiles: Seq<(Seq<char>, ProfileView)>,
    n: int,
)
    requires
        0 <= n <= profiles.len(),
        profiles_check(raw, profiles.take(n)) is Err,
    ensures
        profiles_check(raw, profiles) == profiles_check(raw, profiles.take(n)),
    decreases profiles.len() - n,
{
    if n == profiles.len() {
        assert(profiles.take(n) =~= profiles);
    } else {
        assert(profiles.take(n + 1).drop_last() =~= profiles.take(n));
        lemma_profile_error_stays(raw, profiles, n + 1);
    }
}

/// The transition for an interrupted world move.
pub open spec fn fallback_of(raw: RawView) -> Result<Option<Transition>, Seq<char>> {
    match profile_of(raw, "world"@).fallback {
        None => Ok(None),
        Some(reference) => match resolved(raw, reference) {
            Err(message) => Err(message),
            Ok(transition) => if transition is Cut || transition is Push {
                Ok(Some(transition))
            } else {
                Err("transition.world.fallback must reference cut or push"@)
            },
        },
    }
}

/// The transitions of the actions.
pub open spec fn actions_of(raw: RawView) -> Result<ActionTransitions, Seq<char>> {
    match resolved(raw, raw.transition_next) {
        Err(message) => Err(message),
        Ok(next) => match resolved(raw, raw.transition_back) {
            Err(message) => Err(message),
            Ok(back) => match resolved(raw, raw.transition_shift_forward) {
                Err(message) => Err(message),
                Ok(shift_forward) => match resolved(raw, raw.transition_shift_back) {
                    Err(message) => Err(message),
                    Ok(shift_back) => match resolved(raw, raw.transition_replace) {
                        Err(message) => Err(message),
                        Ok(replace) => match resolved(raw, raw.transition_quarantine) {
                            Err(message) => Err(message),
                            Ok(quarantine) => match resolved(raw, raw.transition_startup) {
                                Err(message) => Err(message),
                                Ok(startup) => Ok(
                                    ActionTransitions {
                                        next,
                                        back,
                                        shift_forward,
                                        shift_back,
                                        replace,
                                        quarantine,
                                        startup,
                                    },
                                ),
                            },
                        },
                    },
                },
            },
        },
    }
}

/// A size in MiB as bytes, at most what a size can be.
pub open spec fn mib_bytes(mib: usize) -> usize {
    if mib * MIB_BYTES <= usize::MAX {
        (mib * MIB_BYTES) as usize
    } else {
        usize::MAX
    }
}

fn mib_to_bytes(mib: usize) -> (bytes: usize)
    ensures
        bytes == mib_bytes(mib),
{
    match mib.checked_mul(MIB_BYTES) {
        Some(bytes) => bytes,
        None => usize::MAX,
    }
}

/// The configuration that a written one stands for.
pub open spec fn built(raw: RawView, parallelism: usize) -> Result<ConfigView, Seq<char>> {
    match profiles_check(raw, raw.transition_profiles) {
        Err(message) => Err(message),
        Ok(_) => match fallback_of(raw) {
            Err(message) => Err(message),
            Ok(world_fallback_transition) => match actions_of(raw) {
                Err(message) => Err(message),
                Ok(actions) => Ok(
                    ConfigView {
                        wall_dir: raw.wall_dir,
                        state_dir: raw.state_dir,
                        quarantine_dir: raw.quarantine_dir,
                        favorite_weight: raw.favorite_weight,
                        max_history: raw.max_history,
                        scale_mode: raw.scale_mode,
                        decode_full_workers: clamped_workers(
                            raw.decode_full_workers,
                            parallelism,
                        ),
                        canvas_thumbnail_max_edge: raw.canvas_thumbnail_max_edge,
                        canvas_cache_workers: clamped_workers(
                            raw.canvas_cache_workers,
                            parallelism,
                        ),
                        canvas_cache_backend: raw.canvas_cache_backend,
                        canvas_cache_memory_bytes: mib_bytes(raw.canvas_cache_memory_mib),
                        actions,
                        world_fallback_transition,
                    },
                ),
            },
        },
    }
}

impl RawConfig {
    fn check_profile(&self, name: &str, profile: &RawTransitionProfile) -> (result: Result<
        (),
        String,
    >)
        ensures
            error::agrees(result, profile_check(self@, name@, profile@)),
    {
        let built_in = builtin_transition_kind(name);
        let kind = match profile.kind {
            Some(kind) => kind,
            None => match built_in {
                Some(kind) => kind,
                None => {
                    return Err(
                        concat5(
                            "transition profile '",
                            name,
                            "' must declare a compiled-in type with transition.",
                            name,
                            ".type",
                        ),
                    );
                },
            },
        };
        if let Some(expected) = built_in {
            if expected != kind {
                return Err(
                    concat3("built-in transition profile '", name, "' cannot be retyped"),
                );
            }
        }
        let fields = profile.populated_fields();
        if let Some(field) = find_unsupported(&fields, kind) {
            let descriptor = descriptor_of(kind);
            let mut message = concat5(
                "transition profile '",
                name,
                "' field '",
                field,
                "' is not valid for ",
            );
            message.append(descriptor.name);
            return Err(message);
        }
        match kind {
            TransitionKind::Push => {
                let _ = self.resolve_push_mode(name, profile)?;
                Ok(())
            },
            TransitionKind::Canvas => {
                let mode = self.resolve_canvas_mode(name, profile)?;
                let walk = self.resolve_canvas_walk(profile);
                match validate_canvas_mode_walk(mode, walk) {
                    Ok(()) => Ok(()),
                    Err(error) => Err(
                        concat4(
                            "transition profile '",
                            name,
                            "' is invalid: ",
                            error.message(),
                        ),
                    ),
                }
            },
            TransitionKind::World => if !text_eq(name, "world") && profile.fallback.is_some() {
                Err(
                    concat3(
                        "transition profile '",
                        name,
                        "' field 'fallback' is only valid on the built-in world profile",
                    ),
                )
            } else {
                Ok(())
            },
            TransitionKind::Cut | TransitionKind::Fade => Ok(()),
        }
    }

    /// Checks every profile, whether or not an action refers to it.
    pub fn validate_transition_profiles(&self) -> (result: Result<(), String>)
        ensures
            error::agrees(result, profiles_check(self@, self@.transition_profiles)),
    {
        let ghost all = self@.transition_profiles;
        let mut i: usize = 0;
        assert(all.take(0) =~= Seq::<(Seq<char>, ProfileView)>::empty());
        while i < self.transition_profiles.len()
            invariant
                i <= self.transition_profiles.raw().len(),
                all == self@.transition_profiles,
                all == profile_entries(self.transition_profiles),
                profiles_check(self@, all.take(i as int)) == Ok::<(), Seq<char>>(()),
            decreases self.transition_profiles.raw().len() - i,
        {
            proof {
                assert(all.take(i + 1).drop_last() =~= all.take(i as int));
                assert(all.take(i + 1).last() == all[i as int]);
            }
            match self.check_profile(
                self.transition_profiles.key_at(i),
                self.transition_profiles.value_at(i),
            ) {
                Ok(()) => {},
                Err(message) => {
                    proof {
                        lemma_profile_error_stays(self@, all, i + 1);
                    }
                    return Err(message);
                },
            }
            i = i + 1;
        }
        assert(all.take(i as int) =~= all);
        Ok(())
    }

    /// The transition for an interrupted world move.
    pub fn resolve_world_fallback_transition(&self) -> (result: Result<Option<Transition>, String>)
        ensures
            error::agrees(result, fallback_of(self@)),
    {
        let world = self.profile("world");
        let reference = match &world.fallback {
            None => {
                return Ok(None);
            },
            Some(reference) => reference,
        };
        let transition = self.resolve_transition_ref(reference.as_str())?;
        match transition {
            Transition::Cut | Transition::Push { .. } => Ok(Some(transition)),
            _ => Err(copy_text("transition.world.fallback must reference cut or push")),
        }
    }

    fn resolve_actions(&self) -> (result: Result<ActionTransitions, String>)
        ensures
            error::agrees(result, actions_of(self@)),
    {
        let next = self.resolve_transition_ref(self.transition_next.as_str())?;
        let back = self.resolve_transition_ref(self.transition_back.as_str())?;
        let shift_forward = self.resolve_transition_ref(self.transition_shift_forward.as_str())?;
        let shift_back = self.resolve_transition_ref(self.transition_shift_back.as_str())?;
        let replace = self.resolve_transition_ref(self.transition_replace.as_str())?;
        let quarantine = self.resolve_transition_ref(self.transition_quarantine.as_str())?;
        let startup = self.resolve_transition_ref(self.transition_startup.as_str())?;
        Ok(
            ActionTransitions {
                next,
                back,
                shift_forward,
                shift_back,
                replace,
                quarantine,
                startup,
            },
        )
    }

    /// The configuration that this one stands for, on a host that can run so many threads.
    pub fn build(self, parallelism: usize) -> (result: Result<MuralConfig, String>)
        ensures
            error::agrees_view(result, built(self@, parallelism)),
    {
        self.validate_transition_profiles()?;
        let world_fallback_transition = self.resolve_world_fallback_transition()?;
        let actions = self.resolve_actions()?;
        Ok(
            MuralConfig {
                wall_dir: self.wall_dir,
                state_dir: self.state_dir,
                quarantine_dir: self.quarantine_dir,
                favorite_weight: self.favorite_weight,
                max_history: self.max_history,
                scale_mode: self.scale_mode,
                decode_full_workers: clamp_worker_count(self.decode_full_workers, parallelism),
                canvas_thumbnail_max_edge: self.canvas_thumbnail_max_edge,
                canvas_cache_workers: clamp_worker_count(self.canvas_cache_workers, parallelism),
                canvas_cache_backend: self.canvas_cache_backend,
                canvas_cache_memory_bytes: mib_to_bytes(self.canvas_cache_memory_mib),
                actions,
                world_fallback_transition,
            },
        )
    }
}

// ---------------------------------------------------------------------------
// The configuration of the daemon

/// What was found where the configuration file is looked for.
#[derive(Clone, Debug)]
pub enum ConfigSource {
    /// There is no place to look.
    Nowhere,
    /// There is no file.
    Missing { path: String },
    /// The file cannot be read.
    Unreadable { path: String, error: String },
    /// The file holds a text.
    Content { path: String, content: String },
}

/// The configuration that a file and an environment give.
pub open spec fn loaded(
    source: ConfigSource,
    host: HostView,
    environment: Seq<(Seq<char>, Seq<char>)>,
) -> Result<ConfigView, Seq<char>> {
    let from_file = match source {
        ConfigSource::Nowhere => Ok(default_raw()),
        ConfigSource::Missing { path } => if textmap::entries_get(environment, "MURAL_CONFIG"@) is Some {
            Err("MURAL_CONFIG does not exist: "@ + path@)
        } else {
            Ok(default_raw())
        },
        ConfigSource::Unreadable { path, error } => Err(
            "failed to read config "@ + path@ + ": "@ + error@,
        ),
        ConfigSource::Content { path, content } => with_lines(
            default_raw(),
            host,
            path@,
            text::lines_of(content@),
        ),
    };
    match from_file {
        Err(message) => Err(message),
        Ok(raw) => match with_variables(raw, host, environment, variable_names()) {
            Err(message) => Err(message),
            Ok(raw) => built(raw, host.parallelism),
        },
    }
}

/// How large the preview of a canvas transition can get.
pub open spec fn tile_count_key(tile_count: CanvasTileCount) -> usize {
    match tile_count {
        CanvasTileCount::Fixed(count) => count,
        CanvasTileCount::Auto { max: Some(count) } => count,
        CanvasTileCount::Auto { max: None } => MAX_CANVAS_TILE_COUNT,
    }
}

fn canvas_tile_count_sort_key(tile_count: CanvasTileCount) -> (key: usize)
    ensures
        key == tile_count_key(tile_count),
{
    match tile_count {
        CanvasTileCount::Fixed(count) => count,
        CanvasTileCount::Auto { max: Some(count) } => count,
        CanvasTileCount::Auto { max: None } => MAX_CANVAS_TILE_COUNT,
    }
}

/// Whether a canvas transition is the last of those of a list with the largest preview.
pub open spec fn is_largest_canvas(list: Seq<Transition>, n: int) -> bool {
    &&& 0 <= n < list.len()
    &&& list[n] is Canvas
    &&& forall|k: int|
        0 <= k < list.len() && (#[trigger] list[k]) is Canvas ==> tile_count_key(
            list[k]->tile_count,
        ) <= tile_count_key(list[n]->tile_count)
    &&& forall|k: int|
        n < k < list.len() && (#[trigger] list[k]) is Canvas ==> tile_count_key(
            list[k]->tile_count,
        ) < tile_count_key(list[n]->tile_count)
}

impl MuralConfig {
    /// The configuration that a file and an environment give.
    pub fn load(source: &ConfigSource, host: &Host, environment: &TextMap<String>) -> (result:
        Result<Self, String>)
        ensures
            error::agrees_view(result, loaded(*source, host@, textmap::text_entries(*environment))),
    {
        let mut raw = RawConfig::default();
        match source {
            ConfigSource::Nowhere => {},
            ConfigSource::Missing { path } => {
                if variable(environment, "MURAL_CONFIG").is_some() {
                    return Err(concat2("MURAL_CONFIG does not exist: ", path.as_str()));
                }
            },
            ConfigSource::Unreadable { path, error } => {
                return Err(
                    concat4("failed to read config ", path.as_str(), ": ", error.as_str()),
                );
            },
            ConfigSource::Content { path, content } => {
                raw.apply_file(host, path.as_str(), content.as_str())?;
            },
        }
        raw.apply_env(host, environment)?;
        raw.build(host.parallelism)
    }

    /// The transition of a wallpaper action.
    pub fn transition_for_action(&self, action: &WallpaperAction) -> (transition: Transition)
        ensures
            transition == self@.actions.of_action(*action),
    {
        self.actions.transition_for_wallpaper_action(action)
    }

    /// The transition at startup.
    pub fn startup_transition(&self) -> (transition: Transition)
        ensures
            transition == self@.actions.startup,
    {
        self.actions.startup
    }

    /// Whether an action uses the canvas transition.
    pub fn uses_canvas_transition(&self) -> (result: bool)
        ensures
            result == exists|i: int|
                0 <= i < self@.actions.listed().len() && (
                #[trigger] self@.actions.listed()[i]) is Canvas,
    {
        let list = self.actions.transitions();
        let mut i: usize = 0;
        while i < list.len()
            invariant
                i <= list@.len(),
                list@ == self@.actions.listed(),
                forall|k: int| 0 <= k < i ==> !((#[trigger] list@[k]) is Canvas),
            decreases list@.len() - i,
        {
            if let Transition::Canvas { .. } = list[i] {
                assert(self@.actions.listed()[i as int] is Canvas);
                return true;
            }
            i = i + 1;
        }
        false
    }

    /// Whether an action uses the world transition.
    pub fn uses_world_transition(&self) -> (result: bool)
        ensures
            result == exists|i: int|
                0 <= i < self@.actions.listed().len() && (
                #[trigger] self@.actions.listed()[i]) is World,
    {
        let list = self.actions.transitions();
        let mut i: usize = 0;
        while i < list.len()
            invariant
                i <= list@.len(),
                list@ == self@.actions.listed(),
                forall|k: int| 0 <= k < i ==> !((#[trigger] list@[k]) is World),
            decreases list@.len() - i,
        {
            if let Transition::World { .. } = list[i] {
                assert(self@.actions.listed()[i as int] is World);
                return true;
            }
            i = i + 1;
        }
        false
    }

    /// The canvas transition of an action whose preview is the largest.
    pub fn canvas_prewarm_transition(&self) -> (result: Option<Transition>)
        ensures
            match result {
                Some(transition) => exists|n: int| #[trigger]
                    is_largest_canvas(self@.actions.listed(), n) && transition
                        == self@.actions.listed()[n],
                None => forall|k: int|
                    0 <= k < self@.actions.listed().len() ==> !((
                    #[trigger] self@.actions.listed()[k]) is Canvas),
            },
    {
        let list = self.actions.transitions();
        let mut best: Option<usize> = None;
        let mut best_key: usize = 0;
        let mut i: usize = 0;
        while i < list.len()
            invariant
                i <= list@.len(),
                list@ == self@.actions.listed(),
                match best {
                    Some(n) => {
                        &&& n < i
                        &&& is_largest_canvas(list@.take(i as int), n as int)
                        &&& best_key == tile_count_key(list@[n as int]->tile_count)
                    },
                    None => forall|k: int| 0 <= k < i ==> !((#[trigger] list@[k]) is Canvas),
                },
            decreases list@.len() - i,
        {
            let ghost before = list@.take(i as int);
            let ghost after = list@.take(i + 1);
            assert(forall|k: int| 0 <= k < i ==> #[trigger] after[k] == before[k]);
            assert(forall|k: int| 0 <= k < i ==> #[trigger] before[k] == list@[k]);
            assert(after[i as int] == list@[i as int]);
            if let Transition::Canvas { tile_count, .. } = list[i] {
                let key: usize = canvas_tile_count_sort_key(tile_count);
                if best.is_none() || best_key <= key {
                    best = Some(i);
                    best_key = key;
                }
            }
            i = i + 1;
        }
        assert(list@.take(i as int) =~= list@);
        match best {
            Some(n) => Some(list[n]),
            None => None,
        }
    }

    /// The transition for an interrupted world move.
    pub fn world_fallback_transition(&self) -> (transition: Option<Transition>)
        ensures
            transition == self@.world_fallback_transition,
    {
        self.world_fallback_transition
    }
}

} // verus!
