//! The command line of the client: what it asks of the daemon.

use crate::arguments::{
    is_canvas_transition_token, parse_canvas_max_tile_count, parse_canvas_overview_scale,
    parse_canvas_pan_axis, parse_canvas_tile_count, parse_duration, parse_single_index,
    require_positional_count,
};
use crate::output::PrintMode;
use crate::protocol::{
    default_overview_scale, validate_canvas_mode_walk, CanvasMode, CanvasPanAxis,
    CanvasTileCount, CanvasWalk, Easing, PushMode, ScaleMode, Transition, WallpaperAction,
    DEFAULT_CANVAS_IN_MS, DEFAULT_CANVAS_OUT_MS, DEFAULT_CANVAS_PAN_MS, DEFAULT_DURATION_MS,
};
use crate::request::{Request, RequestView, WallpaperRequest};
use crate::scale::OverviewScale;
use crate::text::{concat2, concat3, contains_text, copy_text, starts_with_char, text_eq};
use crate::arguments;
use crate::error;
use crate::paths;
use crate::protocol;
use crate::text;
use vstd::prelude::*;

verus! {

// ---------------------------------------------------------------------------
// Transitions

/// A transition with the settings of the command line.
pub open spec fn transition_with(
    token: Seq<char>,
    duration_ms: u64,
    easing: Easing,
    mode: Option<Seq<char>>,
    canvas: CanvasSettings,
) -> Result<Transition, Seq<char>> {
    match protocol::cli_transition(token, duration_ms, easing) {
        Err(message) => Err(message),
        Ok(Transition::Push { direction, duration_ms, easing, mode: push_mode }) => match mode {
            None => Ok(Transition::Push { direction, duration_ms, easing, mode: push_mode }),
            Some(name) => match PushMode::named(name) {
                Err(message) => Err(message),
                Ok(mode) => Ok(Transition::Push { direction, duration_ms, easing, mode }),
            },
        },
        Ok(Transition::Canvas { easing, mode: default_mode, walk, pan_axis, .. }) => {
            let named = match mode {
                None => Ok(default_mode),
                Some(name) => CanvasMode::named(name),
            };
            let walk = match canvas.walk {
                Some(walk) => walk,
                None => walk,
            };
            match named {
                Err(message) => Err(message),
                Ok(mode) => match protocol::mode_walk_check(mode, walk) {
                    Err(message) => Err(message),
                    Ok(_) => Ok(
                        Transition::Canvas {
                            zoom_out_ms: canvas.out_ms,
                            pan_ms: canvas.pan_ms,
                            zoom_in_ms: canvas.in_ms,
                            easing,
                            mode,
                            walk,
                            pan_axis: match canvas.pan_axis {
                                Some(axis) => axis,
                                None => pan_axis,
                            },
                            overview_scale: canvas.overview_scale,
                            tile_count: canvas.tile_count,
                        },
                    ),
                },
            }
        },
        Ok(transition) => if mode is Some {
            Err("--mode requires a push or canvas transition"@)
        } else {
            Ok(transition)
        },
    }
}

/// The settings of a canvas transition on the command line.
#[derive(Clone, Copy, Debug, PartialEq, Eq, Structural)]
pub struct CanvasSettings {
    pub out_ms: u64,
    pub pan_ms: u64,
    pub in_ms: u64,
    pub walk: Option<CanvasWalk>,
    pub pan_axis: Option<CanvasPanAxis>,
    pub overview_scale: OverviewScale,
    pub tile_count: CanvasTileCount,
}

/// The settings of a canvas transition unless told otherwise.
pub open spec fn usual_canvas() -> CanvasSettings {
    CanvasSettings {
        out_ms: DEFAULT_CANVAS_OUT_MS,
        pan_ms: DEFAULT_CANVAS_PAN_MS,
        in_ms: DEFAULT_CANVAS_IN_MS,
        walk: None,
        pan_axis: None,
        overview_scale: protocol::default_scale(),
        tile_count: CanvasTileCount::Auto { max: None },
    }
}

impl CanvasSettings {
    /// The settings of a canvas transition unless told otherwise.
    pub fn usual() -> (settings: Self)
        ensures
            settings == usual_canvas(),
    {
        CanvasSettings {
            out_ms: DEFAULT_CANVAS_OUT_MS,
            pan_ms: DEFAULT_CANVAS_PAN_MS,
            in_ms: DEFAULT_CANVAS_IN_MS,
            walk: None,
            pan_axis: None,
            overview_scale: default_overview_scale(),
            tile_count: CanvasTileCount::Auto { max: None },
        }
    }
}

/// A transition with the settings of the command line.
pub fn build_transition(
    transition_token: &str,
    duration_ms: u64,
    easing: Easing,
    mode: Option<&str>,
    canvas: CanvasSettings,
) -> (result: Result<Transition, String>)
    ensures
        error::agrees(
            result,
            transition_with(transition_token@, duration_ms, easing, paths::str_if(mode), canvas),
        ),
{
    let transition = match Transition::parse_cli_token(transition_token, duration_ms, easing) {
        Err(error) => {
            return Err(error.to_text());
        },
        Ok(transition) => transition,
    };
    match transition {
        Transition::Push { direction, duration_ms, easing, mode: push_mode } => match mode {
            None => Ok(transition),
            Some(name) => match PushMode::parse(name) {
                Err(error) => Err(error.to_text()),
                Ok(mode) => Ok(Transition::Push { direction, duration_ms, easing, mode }),
            },
        },
        Transition::Canvas { easing, mode: default_mode, walk, pan_axis, .. } => {
            let mode = match mode {
                None => default_mode,
                Some(name) => match CanvasMode::parse(name) {
                    Err(error) => {
                        return Err(error.to_text());
                    },
                    Ok(mode) => mode,
                },
            };
            let walk = match canvas.walk {
                Some(walk) => walk,
                None => walk,
            };
            match validate_canvas_mode_walk(mode, walk) {
                Err(error) => Err(error.to_text()),
                Ok(_) => Ok(
                    Transition::Canvas {
                        zoom_out_ms: canvas.out_ms,
                        pan_ms: canvas.pan_ms,
                        zoom_in_ms: canvas.in_ms,
                        easing,
                        mode,
                        walk,
                        pan_axis: match canvas.pan_axis {
                            Some(axis) => axis,
                            None => pan_axis,
                        },
                        overview_scale: canvas.overview_scale,
                        tile_count: canvas.tile_count,
                    },
                ),
            }
        },
        _ => if mode.is_some() {
            Err(copy_text("--mode requires a push or canvas transition"))
        } else {
            Ok(transition)
        },
    }
}

// ---------------------------------------------------------------------------
// Options of wallpaper actions

/// What the command line says of a wallpaper action.
#[derive(Clone, Debug, PartialEq, Eq)]
pub struct WallpaperCliOptions {
    pub positionals: Vec<String>,
    pub transition_token: String,
    pub transition_explicit: bool,
    pub transition_token_explicit: bool,
    pub duration_ms: u64,
    pub easing: Easing,
    pub mode: Option<String>,
    pub canvas: CanvasSettings,
    pub canvas_option_explicit: bool,
    pub scale_mode: Option<ScaleMode>,
    pub transition: Option<Transition>,
    pub json: bool,
}

/// What the command line says of a wallpaper action, as a mathematical value.
pub struct CliView {
    pub positionals: Seq<Seq<char>>,
    pub token: Seq<char>,
    pub explicit: bool,
    pub token_explicit: bool,
    pub duration_ms: u64,
    pub easing: Easing,
    pub mode: Option<Seq<char>>,
    pub canvas: CanvasSettings,
    pub canvas_explicit: bool,
    pub scale_mode: Option<ScaleMode>,
    pub transition: Option<Transition>,
    pub json: bool,
}

impl View for WallpaperCliOptions {
    type V = CliView;

    open spec fn view(&self) -> CliView {
        CliView {
            positionals: text::texts(self.positionals@),
            token: self.transition_token@,
            explicit: self.transition_explicit,
            token_explicit: self.transition_token_explicit,
            duration_ms: self.duration_ms,
            easing: self.easing,
            mode: text::text_if(self.mode),
            canvas: self.canvas,
            canvas_explicit: self.canvas_option_explicit,
            scale_mode: self.scale_mode,
            transition: self.transition,
            json: self.json,
        }
    }
}

/// What is known of a wallpaper action before its options are read.
pub open spec fn no_options(token: Seq<char>) -> CliView {
    CliView {
        positionals: Seq::empty(),
        token,
        explicit: false,
        token_explicit: false,
        duration_ms: DEFAULT_DURATION_MS,
        easing: Easing::EaseOutCubic,
        mode: None,
        canvas: usual_canvas(),
        canvas_explicit: false,
        scale_mode: None,
        transition: None,
        json: false,
    }
}

/// What to say of an option of a wallpaper action that has no value, if it is one that
/// needs a value.
pub open spec fn value_missing(option: Seq<char>) -> Option<Seq<char>> {
    if option == "-t"@ || option == "--transition"@ {
        Some("--transition requires a value"@)
    } else if option == "--duration-ms"@ {
        Some("--duration-ms requires milliseconds"@)
    } else if option == "--easing"@ {
        Some("--easing requires a value"@)
    } else if option == "--mode"@ {
        Some("--mode requires a value"@)
    } else if option == "--canvas-zoom-out-ms"@ {
        Some("--canvas-zoom-out-ms requires milliseconds"@)
    } else if option == "--canvas-pan-ms"@ {
        Some("--canvas-pan-ms requires milliseconds"@)
    } else if option == "--canvas-pan-axis"@ {
        Some("--canvas-pan-axis requires a value"@)
    } else if option == "--canvas-walk"@ {
        Some("--canvas-walk requires a value"@)
    } else if option == "--canvas-zoom-in-ms"@ {
        Some("--canvas-zoom-in-ms requires milliseconds"@)
    } else if option == "--canvas-overview-scale"@ {
        Some("--canvas-overview-scale requires a value"@)
    } else if option == "--canvas-tile-count"@ {
        Some("--canvas-tile-count requires a value"@)
    } else if option == "--canvas-max-tile-count"@ {
        Some("--canvas-max-tile-count requires a value"@)
    } else if option == "--scale-mode"@ {
        Some("--scale-mode requires a value"@)
    } else {
        None
    }
}

/// What to say of an option of a wallpaper action that has no value.
pub fn missing_value(option: &str) -> (message: Option<&'static str>)
    ensures
        paths::str_if(message) == value_missing(option@),
{
    if text_eq(option, "-t") || text_eq(option, "--transition") {
        Some("--transition requires a value")
    } else if text_eq(option, "--duration-ms") {
        Some("--duration-ms requires milliseconds")
    } else if text_eq(option, "--easing") {
        Some("--easing requires a value")
    } else if text_eq(option, "--mode") {
        Some("--mode requires a value")
    } else if text_eq(option, "--canvas-zoom-out-ms") {
        Some("--canvas-zoom-out-ms requires milliseconds")
    } else if text_eq(option, "--canvas-pan-ms") {
        Some("--canvas-pan-ms requires milliseconds")
    } else if text_eq(option, "--canvas-pan-axis") {
        Some("--canvas-pan-axis requires a value")
    } else if text_eq(option, "--canvas-walk") {
        Some("--canvas-walk requires a value")
    } else if text_eq(option, "--canvas-zoom-in-ms") {
        Some("--canvas-zoom-in-ms requires milliseconds")
    } else if text_eq(option, "--canvas-overview-scale") {
        Some("--canvas-overview-scale requires a value")
    } else if text_eq(option, "--canvas-tile-count") {
        Some("--canvas-tile-count requires a value")
    } else if text_eq(option, "--canvas-max-tile-count") {
        Some("--canvas-max-tile-count requires a value")
    } else if text_eq(option, "--scale-mode") {
        Some("--scale-mode requires a value")
    } else {
        None
    }
}

/// The settings of a canvas with a tile count: a greatest count that was set before stays
/// where the daemon is to choose.
pub open spec fn with_tile_count(canvas: CanvasSettings, count: CanvasTileCount) -> CanvasSettings {
    match (count, canvas.tile_count) {
        (CanvasTileCount::Auto { .. }, CanvasTileCount::Auto { .. }) => canvas,
        _ => CanvasSettings { tile_count: count, ..canvas },
    }
}

/// The settings of a canvas with a greatest tile count, which counts only where the daemon
/// is to choose.
pub open spec fn with_max_count(canvas: CanvasSettings, max: usize) -> CanvasSettings {
    match canvas.tile_count {
        CanvasTileCount::Auto { .. } => CanvasSettings {
            tile_count: CanvasTileCount::Auto { max: Some(max) },
            ..canvas
        },
        CanvasTileCount::Fixed(_) => canvas,
    }
}

/// The settings of a canvas with one option set, if it is an option of a canvas.
pub open spec fn canvas_with(canvas: CanvasSettings, option: Seq<char>, value: Seq<char>) -> Option<
    Result<CanvasSettings, Seq<char>>,
> {
    if option == "--canvas-zoom-out-ms"@ {
        Some(
            match arguments::duration_in(value) {
                Err(message) => Err(message),
                Ok(out_ms) => Ok(CanvasSettings { out_ms, ..canvas }),
            },
        )
    } else if option == "--canvas-pan-ms"@ {
        Some(
            match arguments::duration_in(value) {
                Err(message) => Err(message),
                Ok(pan_ms) => Ok(CanvasSettings { pan_ms, ..canvas }),
            },
        )
    } else if option == "--canvas-pan-axis"@ {
        Some(
            match CanvasPanAxis::named(value) {
                Err(message) => Err(message),
                Ok(axis) => Ok(CanvasSettings { pan_axis: Some(axis), ..canvas }),
            },
        )
    } else if option == "--canvas-walk"@ {
        Some(
            match CanvasWalk::named(value) {
                Err(message) => Err(message),
                Ok(walk) => Ok(CanvasSettings { walk: Some(walk), ..canvas }),
            },
        )
    } else if option == "--canvas-zoom-in-ms"@ {
        Some(
            match arguments::duration_in(value) {
                Err(message) => Err(message),
                Ok(in_ms) => Ok(CanvasSettings { in_ms, ..canvas }),
            },
        )
    } else if option == "--canvas-overview-scale"@ {
        Some(
            match arguments::overview_scale_in(value) {
                Err(message) => Err(message),
                Ok(overview_scale) => Ok(CanvasSettings { overview_scale, ..canvas }),
            },
        )
    } else if option == "--canvas-tile-count"@ {
        Some(
            match arguments::tile_count_in(value) {
                Err(message) => Err(message),
                Ok(count) => Ok(with_tile_count(canvas, count)),
            },
        )
    } else if option == "--canvas-max-tile-count"@ {
        Some(
            match arguments::tiles_in(value) {
                Err(message) => Err(message),
                Ok(max) => Ok(with_max_count(canvas, max)),
            },
        )
    } else {
        None
    }
}

impl CanvasSettings {
    /// The settings with one option set, if it is an option of a canvas.
    pub fn with_option(self, option: &str, value: &str) -> (result: Option<Result<Self, String>>)
        ensures
            match (result, canvas_with(self, option@, value@)) {
                (Some(result), Some(expected)) => error::agrees(result, expected),
                (None, None) => true,
                _ => false,
            },
    {
        if text_eq(option, "--canvas-zoom-out-ms") {
            Some(
                match parse_duration(value) {
                    Err(message) => Err(message),
                    Ok(out_ms) => Ok(CanvasSettings { out_ms, ..self }),
                },
            )
        } else if text_eq(option, "--canvas-pan-ms") {
            Some(
                match parse_duration(value) {
                    Err(message) => Err(message),
                    Ok(pan_ms) => Ok(CanvasSettings { pan_ms, ..self }),
                },
            )
        } else if text_eq(option, "--canvas-pan-axis") {
            Some(
                match parse_canvas_pan_axis(value) {
                    Err(message) => Err(message),
                    Ok(axis) => Ok(CanvasSettings { pan_axis: Some(axis), ..self }),
                },
            )
        } else if text_eq(option, "--canvas-walk") {
            Some(
                match CanvasWalk::parse(value) {
                    Err(error) => Err(error.to_text()),
                    Ok(walk) => Ok(CanvasSettings { walk: Some(walk), ..self }),
                },
            )
        } else if text_eq(option, "--canvas-zoom-in-ms") {
            Some(
                match parse_duration(value) {
                    Err(message) => Err(message),
                    Ok(in_ms) => Ok(CanvasSettings { in_ms, ..self }),
                },
            )
        } else if text_eq(option, "--canvas-overview-scale") {
            Some(
                match parse_canvas_overview_scale(value) {
                    Err(message) => Err(message),
                    Ok(overview_scale) => Ok(CanvasSettings { overview_scale, ..self }),
                },
            )
        } else if text_eq(option, "--canvas-tile-count") {
            Some(
                match parse_canvas_tile_count(value) {
                    Err(message) => Err(message),
                    Ok(count) => match (count, self.tile_count) {
                        (CanvasTileCount::Auto { .. }, CanvasTileCount::Auto { .. }) => Ok(self),
                        _ => Ok(CanvasSettings { tile_count: count, ..self }),
                    },
                },
            )
        } else if text_eq(option, "--canvas-max-tile-count") {
            Some(
                match parse_canvas_max_tile_count(value) {
                    Err(message) => Err(message),
                    Ok(max) => match self.tile_count {
                        CanvasTileCount::Auto { .. } => Ok(
                            CanvasSettings {
                                tile_count: CanvasTileCount::Auto { max: Some(max) },
                                ..self
                            },
                        ),
                        CanvasTileCount::Fixed(_) => Ok(self),
                    },
                },
            )
        } else {
            None
        }
    }
}

/// What is known of a wallpaper action after one of its options that has a value. An
/// option of a canvas implies the canvas transition where no transition is named before
/// it.
pub open spec fn cli_with(o: CliView, option: Seq<char>, value: Seq<char>) -> Result<
    CliView,
    Seq<char>,
> {
    if option == "-t"@ || option == "--transition"@ {
        Ok(CliView { explicit: true, token_explicit: true, token: value, ..o })
    } else if option == "--duration-ms"@ {
        match arguments::duration_in(value) {
            Err(message) => Err(message),
            Ok(duration_ms) => Ok(CliView { explicit: true, duration_ms, ..o }),
        }
    } else if option == "--easing"@ {
        match Easing::named(value) {
            Err(message) => Err(message),
            Ok(easing) => Ok(CliView { explicit: true, easing, ..o }),
        }
    } else if option == "--mode"@ {
        Ok(CliView { explicit: true, mode: Some(value), ..o })
    } else {
        match canvas_with(o.canvas, option, value) {
            Some(Err(message)) => Err(message),
            Some(Ok(canvas)) => Ok(
                CliView {
                    explicit: true,
                    canvas_explicit: true,
                    token: if o.token.len() == 0 {
                        "canvas"@
                    } else {
                        o.token
                    },
                    token_explicit: o.token_explicit || o.token.len() == 0,
                    canvas,
                    ..o
                },
            ),
            None => match ScaleMode::named(value) {
                Err(message) => Err(message),
                Ok(mode) => Ok(CliView { scale_mode: Some(mode), ..o }),
            },
        }
    }
}

/// What is known of a wallpaper action after the arguments from one on.
pub open spec fn cli_from(args: Seq<Seq<char>>, index: int, o: CliView) -> Result<
    CliView,
    Seq<char>,
>
    decreases args.len() - index,
{
    if index >= args.len() {
        Ok(o)
    } else if args[index] == "--json"@ {
        cli_from(args, index + 1, CliView { json: true, ..o })
    } else {
        match value_missing(args[index]) {
            Some(message) => if index + 1 >= args.len() {
                Err(message)
            } else {
                match cli_with(o, args[index], args[index + 1]) {
                    Err(message) => Err(message),
                    Ok(next) => cli_from(args, index + 2, next),
                }
            },
            None => if args[index].len() > 0 && args[index][0] == '-' {
                Err("unknown wallpaper option: "@ + args[index])
            } else {
                cli_from(
                    args,
                    index + 1,
                    CliView { positionals: o.positionals.push(args[index]), ..o },
                )
            },
        }
    }
}

/// The transition that options give to a wallpaper action, in which a default stands for a
/// transition that is not named.
pub open spec fn with_transition(o: CliView, default_token: Seq<char>) -> Result<
    CliView,
    Seq<char>,
> {
    let token = if o.token.len() == 0 {
        default_token
    } else {
        o.token
    };
    if !o.explicit {
        Ok(CliView { token, ..o })
    } else if o.canvas_explicit && !arguments::is_canvas_token(token) {
        Err("canvas options require --transition canvas"@)
    } else {
        match transition_with(token, o.duration_ms, o.easing, o.mode, o.canvas) {
            Err(message) => Err(message),
            Ok(transition) => Ok(CliView { token, transition: Some(transition), ..o }),
        }
    }
}

/// What the command line says of a wallpaper action.
pub open spec fn wallpaper_options(args: Seq<Seq<char>>, default_token: Seq<char>) -> Result<
    CliView,
    Seq<char>,
> {
    match cli_from(args, 0, no_options(Seq::empty())) {
        Err(message) => Err(message),
        Ok(o) => with_transition(o, default_token),
    }
}

impl WallpaperCliOptions {
    fn none(token: &str) -> (options: Self)
        ensures
            options@ == no_options(token@),
    {
        let options = WallpaperCliOptions {
            positionals: Vec::new(),
            transition_token: copy_text(token),
            transition_explicit: false,
            transition_token_explicit: false,
            duration_ms: DEFAULT_DURATION_MS,
            easing: Easing::EaseOutCubic,
            mode: None,
            canvas: CanvasSettings::usual(),
            canvas_option_explicit: false,
            scale_mode: None,
            transition: None,
            json: false,
        };
        assert(options@.positionals =~= Seq::<Seq<char>>::empty());
        options
    }

    fn set_option(&mut self, option: &str, value: &str) -> (result: Result<(), String>)
        ensures
            match (result, cli_with(old(self)@, option@, value@)) {
                (Ok(_), Ok(next)) => final(self)@ == next,
                (Err(message), Err(expected)) => message@ == expected,
                _ => false,
            },
    {
        if text_eq(option, "-t") || text_eq(option, "--transition") {
            self.transition_explicit = true;
            self.transition_token_explicit = true;
            self.transition_token = copy_text(value);
            return Ok(());
        }
        if text_eq(option, "--duration-ms") {
            self.duration_ms = parse_duration(value)?;
            self.transition_explicit = true;
            return Ok(());
        }
        if text_eq(option, "--easing") {
            match Easing::parse(value) {
                Err(error) => {
                    return Err(error.to_text());
                },
                Ok(easing) => {
                    self.easing = easing;
                },
            }
            self.transition_explicit = true;
            return Ok(());
        }
        if text_eq(option, "--mode") {
            self.mode = Some(copy_text(value));
            self.transition_explicit = true;
            return Ok(());
        }
        match self.canvas.with_option(option, value) {
            Some(Err(message)) => Err(message),
            Some(Ok(canvas)) => {
                self.canvas = canvas;
                self.transition_explicit = true;
                self.canvas_option_explicit = true;
                proof {
                    reveal_strlit("");
                    if self.transition_token@.len() == 0 {
                        assert(self.transition_token@ =~= ""@);
                    }
                }
                if text_eq(self.transition_token.as_str(), "") {
                    self.transition_token = copy_text("canvas");
                    self.transition_token_explicit = true;
                }
                Ok(())
            },
            None => match ScaleMode::parse(value) {
                Err(error) => Err(error.to_text()),
                Ok(mode) => {
                    self.scale_mode = Some(mode);
                    Ok(())
                },
            },
        }
    }

    fn settle_transition(&mut self, default_transition: &str) -> (result: Result<(), String>)
        ensures
            match (result, with_transition(old(self)@, default_transition@)) {
                (Ok(_), Ok(next)) => final(self)@ == next,
                (Err(message), Err(expected)) => message@ == expected,
                _ => false,
            },
    {
        proof {
            reveal_strlit("");
            if self.transition_token@.len() == 0 {
                assert(self.transition_token@ =~= ""@);
            }
        }
        if text_eq(self.transition_token.as_str(), "") {
            self.transition_token = copy_text(default_transition);
        }
        if !self.transition_explicit {
            return Ok(());
        }
        if self.canvas_option_explicit && !is_canvas_transition_token(
            self.transition_token.as_str(),
        ) {
            return Err(copy_text("canvas options require --transition canvas"));
        }
        let mode = match &self.mode {
            Some(mode) => Some(mode.as_str()),
            None => None,
        };
        let transition = build_transition(
            self.transition_token.as_str(),
            self.duration_ms,
            self.easing,
            mode,
            self.canvas,
        )?;
        self.transition = Some(transition);
        Ok(())
    }
}

/// Reads what the command line says of a wallpaper action whose usual transition is known.
pub fn parse_wallpaper_options(args: &Vec<String>, default_transition: &str) -> (result: Result<
    WallpaperCliOptions,
    String,
>)
    ensures
        error::agrees_view(result, wallpaper_options(text::texts(args@), default_transition@)),
{
    let ghost all = text::texts(args@);
    let ghost wanted = cli_from(all, 0, no_options(Seq::empty()));
    let mut options = WallpaperCliOptions::none("");
    proof {
        reveal_strlit("");
        assert(""@ =~= Seq::<char>::empty());
    }
    let mut index: usize = 0;
    while index < args.len()
        invariant
            index <= args@.len(),
            all == text::texts(args@),
            all.len() == args@.len(),
            wanted == cli_from(all, 0, no_options(Seq::empty())),
            wanted == cli_from(all, index as int, options@),
        decreases args@.len() - index,
    {
        let arg = args[index].as_str();
        assert(all[index as int] == arg@);
        if text_eq(arg, "--json") {
            options.json = true;
            index = index + 1;
            continue ;
        }
        match missing_value(arg) {
            Some(message) => {
                if args.len() - index < 2 {
                    return Err(copy_text(message));
                }
                assert(all[index + 1] == args@[index + 1]@);
                options.set_option(arg, args[index + 1].as_str())?;
                index = index + 2;
            },
            None => {
                if starts_with_char(arg, '-') {
                    return Err(concat2("unknown wallpaper option: ", arg));
                }
                let ghost before = options@;
                options.positionals.push(copy_text(arg));
                assert(options@.positionals =~= before.positionals.push(arg@));
                assert(options@ == (CliView {
                    positionals: before.positionals.push(arg@),
                    ..before
                }));
                index = index + 1;
            },
        }
    }
    options.settle_transition(default_transition)?;
    Ok(options)
}

/// What is known of a wallpaper action without a transition after the arguments from one
/// on.
pub open spec fn plain_from(args: Seq<Seq<char>>, index: int, command: Seq<char>, o: CliView) -> Result<
    CliView,
    Seq<char>,
>
    decreases args.len() - index,
{
    if index >= args.len() {
        Ok(o)
    } else if args[index] == "--json"@ {
        plain_from(args, index + 1, command, CliView { json: true, ..o })
    } else if args[index].len() > 0 && args[index][0] == '-' {
        Err(command + " does not accept option: "@ + args[index])
    } else {
        plain_from(
            args,
            index + 1,
            command,
            CliView { positionals: o.positionals.push(args[index]), ..o },
        )
    }
}

/// Reads what the command line says of a wallpaper action that has no transition.
pub fn parse_json_only_options(args: &Vec<String>, command: &str) -> (result: Result<
    WallpaperCliOptions,
    String,
>)
    ensures
        error::agrees_view(result, plain_from(text::texts(args@), 0, command@, no_options("cut"@))),
{
    let ghost all = text::texts(args@);
    let ghost wanted = plain_from(all, 0, command@, no_options("cut"@));
    let mut options = WallpaperCliOptions::none("cut");
    let mut index: usize = 0;
    while index < args.len()
        invariant
            index <= args@.len(),
            all == text::texts(args@),
            all.len() == args@.len(),
            wanted == plain_from(all, 0, command@, no_options("cut"@)),
            wanted == plain_from(all, index as int, command@, options@),
        decreases args@.len() - index,
    {
        let arg = args[index].as_str();
        assert(all[index as int] == arg@);
        if text_eq(arg, "--json") {
            options.json = true;
        } else if starts_with_char(arg, '-') {
            return Err(concat3(command, " does not accept option: ", arg));
        } else {
            let ghost before = options@;
            options.positionals.push(copy_text(arg));
            assert(options@.positionals =~= before.positionals.push(arg@));
            assert(options@ == (CliView {
                positionals: before.positionals.push(arg@),
                ..before
            }));
        }
        index = index + 1;
    }
    Ok(options)
}

/// What is known of a wallpaper action once its usual transition is known.
pub open spec fn with_default(o: CliView, default_token: Seq<char>) -> Result<CliView, Seq<char>> {
    if !o.explicit {
        Ok(CliView { token: default_token, transition: None, ..o })
    } else if !o.token_explicit {
        match transition_with(default_token, o.duration_ms, o.easing, o.mode, o.canvas) {
            Err(message) => Err(message),
            Ok(transition) => Ok(
                CliView { token: default_token, transition: Some(transition), ..o },
            ),
        }
    } else {
        Ok(o)
    }
}

impl WallpaperCliOptions {
    /// What is known of a wallpaper action once its usual transition is known.
    pub fn with_default_transition(self, default_transition: &str) -> (result: Result<
        Self,
        String,
    >)
        ensures
            error::agrees_view(result, with_default(self@, default_transition@)),
    {
        let mut options = self;
        if !options.transition_explicit {
            options.transition_token = copy_text(default_transition);
            options.transition = None;
        } else if !options.transition_token_explicit {
            let mode = match &options.mode {
                Some(mode) => Some(mode.as_str()),
                None => None,
            };
            let transition = build_transition(
                default_transition,
                options.duration_ms,
                options.easing,
                mode,
                options.canvas,
            )?;
            options.transition_token = copy_text(default_transition);
            options.transition = Some(transition);
        }
        Ok(options)
    }
}

// ---------------------------------------------------------------------------
// Wallpaper actions

/// A request, and how its answer is printed.
#[derive(Clone, Debug, PartialEq)]
pub struct BuiltCommand {
    pub request: Request,
    pub print_mode: PrintMode,
}

/// A request, and how its answer is printed, as a mathematical value.
pub struct BuiltView {
    pub request: RequestView,
    pub print_mode: PrintMode,
}

impl View for BuiltCommand {
    type V = BuiltView;

    open spec fn view(&self) -> BuiltView {
        BuiltView { request: self.request@, print_mode: self.print_mode }
    }
}

/// Whether a result stands for the expected command, for help that is asked for, or is an
/// error with the expected message.
pub open spec fn is_built(
    result: Result<Option<BuiltCommand>, String>,
    expected: Result<Option<BuiltView>, Seq<char>>,
) -> bool {
    match (result, expected) {
        (Ok(Some(command)), Ok(Some(wanted))) => command@ == wanted,
        (Ok(None), Ok(None)) => true,
        (Err(message), Err(wanted)) => message@ == wanted,
        _ => false,
    }
}

/// Whether a command is a wallpaper action.
pub open spec fn is_action_name(command: Seq<char>) -> bool {
    ||| command == "next"@
    ||| command == "back"@
    ||| command == "shift"@
    ||| command == "shift-forward"@
    ||| command == "shift-back"@
    ||| command == "replace"@
    ||| command == "quarantine"@
    ||| command == "quarentine"@
    ||| command == "favorite"@
    ||| command == "unfavorite"@
    ||| command == "favorites"@
    ||| command == "current"@
    ||| command == "rescan"@
}

/// Whether a command is a wallpaper action.
pub fn is_wallpaper_command(command: &str) -> (result: bool)
    ensures
        result == is_action_name(command@),
{
    text_eq(command, "next") || text_eq(command, "back") || text_eq(command, "shift") || text_eq(
        command,
        "shift-forward",
    ) || text_eq(command, "shift-back") || text_eq(command, "replace") || text_eq(
        command,
        "quarantine",
    ) || text_eq(command, "quarentine") || text_eq(command, "favorite") || text_eq(
        command,
        "unfavorite",
    ) || text_eq(command, "favorites") || text_eq(command, "current") || text_eq(
        command,
        "rescan",
    )
}

/// An action without arguments, with its options.
pub open spec fn bare_action(
    command: Seq<char>,
    action: WallpaperAction,
    options: Result<CliView, Seq<char>>,
) -> Result<(WallpaperAction, CliView), Seq<char>> {
    match options {
        Err(message) => Err(message),
        Ok(o) => match arguments::count_check(command, o.positionals, 0) {
            Err(message) => Err(message),
            Ok(_) => Ok((action, o)),
        },
    }
}

/// The index that an action has for its only argument, with its options.
pub open spec fn indexed_action(command: Seq<char>, options: Result<CliView, Seq<char>>) -> Result<
    (usize, CliView),
    Seq<char>,
> {
    match options {
        Err(message) => Err(message),
        Ok(o) => match arguments::single_index(command, o.positionals) {
            Err(message) => Err(message),
            Ok(index) => Ok((index, o)),
        },
    }
}

/// The shift that arguments ask for, with its options.
pub open spec fn shift_action(args: Seq<Seq<char>>) -> Result<
    (WallpaperAction, CliView),
    Seq<char>,
> {
    match wallpaper_options(args, "push:left"@) {
        Err(message) => Err(message),
        Ok(o) => {
            let direction = if o.positionals.len() == 0 {
                "forward"@
            } else {
                o.positionals[0]
            };
            if o.positionals.len() > 1 {
                Err("shift accepts at most one direction"@)
            } else if direction == "f"@ || direction == "forward"@ {
                match with_default(o, "push:left"@) {
                    Err(message) => Err(message),
                    Ok(o) => Ok((WallpaperAction::ShiftForward, o)),
                }
            } else if direction == "b"@ || direction == "back"@ || direction == "backward"@ {
                match with_default(o, "push:right"@) {
                    Err(message) => Err(message),
                    Ok(o) => Ok((WallpaperAction::ShiftBack, o)),
                }
            } else {
                Err("shift direction must be one of: forward, f, back, backward, b"@)
            }
        },
    }
}

/// The wallpaper action that a command and its arguments ask for, with its options.
pub open spec fn action_for(command: Seq<char>, args: Seq<Seq<char>>) -> Result<
    (WallpaperAction, CliView),
    Seq<char>,
> {
    if command == "next"@ {
        bare_action(command, WallpaperAction::Next, wallpaper_options(args, "push:up"@))
    } else if command == "back"@ {
        bare_action(command, WallpaperAction::Back, wallpaper_options(args, "push:down"@))
    } else if command == "shift"@ {
        shift_action(args)
    } else if command == "shift-forward"@ {
        bare_action(
            command,
            WallpaperAction::ShiftForward,
            wallpaper_options(args, "push:left"@),
        )
    } else if command == "shift-back"@ {
        bare_action(
            command,
            WallpaperAction::ShiftBack,
            wallpaper_options(args, "push:right"@),
        )
    } else if command == "replace"@ {
        match indexed_action(command, wallpaper_options(args, "cut"@)) {
            Err(message) => Err(message),
            Ok((index, o)) => Ok((WallpaperAction::Replace { index }, o)),
        }
    } else if command == "quarantine"@ || command == "quarentine"@ {
        match indexed_action(command, wallpaper_options(args, "cut"@)) {
            Err(message) => Err(message),
            Ok((index, o)) => Ok((WallpaperAction::Quarantine { index }, o)),
        }
    } else if command == "favorite"@ {
        match indexed_action(command, plain_from(args, 0, command, no_options("cut"@))) {
            Err(message) => Err(message),
            Ok((index, o)) => Ok((WallpaperAction::Favorite { index }, o)),
        }
    } else if command == "unfavorite"@ {
        match indexed_action(command, plain_from(args, 0, command, no_options("cut"@))) {
            Err(message) => Err(message),
            Ok((index, o)) => Ok((WallpaperAction::Unfavorite { index }, o)),
        }
    } else if command == "favorites"@ {
        bare_action(
            command,
            WallpaperAction::Favorites,
            plain_from(args, 0, command, no_options("cut"@)),
        )
    } else if command == "current"@ {
        bare_action(
            command,
            WallpaperAction::Current,
            plain_from(args, 0, command, no_options("cut"@)),
        )
    } else if command == "rescan"@ {
        bare_action(
            command,
            WallpaperAction::Rescan,
            plain_from(args, 0, command, no_options("cut"@)),
        )
    } else {
        Err("unknown command: "@ + command)
    }
}

/// The request that a wallpaper action and its arguments ask for, or help.
pub open spec fn wallpaper_command(command: Seq<char>, args: Seq<Seq<char>>) -> Result<
    Option<BuiltView>,
    Seq<char>,
> {
    if arguments::asks_help(args) {
        Ok(None)
    } else {
        match action_for(command, args) {
            Err(message) => Err(message),
            Ok((action, o)) => Ok(
                Some(
                    BuiltView {
                        request: RequestView::Wallpaper(
                            WallpaperRequest {
                                action,
                                transition: o.transition,
                                scale_mode: o.scale_mode,
                            },
                        ),
                        print_mode: if o.json {
                            PrintMode::WallpaperJson
                        } else {
                            PrintMode::WallpaperText
                        },
                    },
                ),
            ),
        }
    }
}

fn wants_help(args: &Vec<String>) -> (result: bool)
    ensures
        result == arguments::asks_help(text::texts(args@)),
{
    contains_text(args, "-h") || contains_text(args, "--help")
}

fn bare(
    command: &str,
    action: WallpaperAction,
    options: Result<WallpaperCliOptions, String>,
    Ghost(expected): Ghost<Result<CliView, Seq<char>>>,
) -> (result: Result<(WallpaperAction, WallpaperCliOptions), String>)
    requires
        error::agrees_view(options, expected),
    ensures
        match (result, bare_action(command@, action, expected)) {
            (Ok(found), Ok(wanted)) => (found.0, found.1@) == wanted,
            (Err(message), Err(wanted)) => message@ == wanted,
            _ => false,
        },
{
    let options = options?;
    require_positional_count(command, &options.positionals, 0)?;
    Ok((action, options))
}

fn indexed(
    command: &str,
    options: Result<WallpaperCliOptions, String>,
    Ghost(expected): Ghost<Result<CliView, Seq<char>>>,
) -> (result: Result<(usize, WallpaperCliOptions), String>)
    requires
        error::agrees_view(options, expected),
    ensures
        match (result, indexed_action(command@, expected)) {
            (Ok(found), Ok(wanted)) => (found.0, found.1@) == wanted,
            (Err(message), Err(wanted)) => message@ == wanted,
            _ => false,
        },
{
    let options = options?;
    let index = parse_single_index(command, &options.positionals)?;
    Ok((index, options))
}

fn parse_shift(args: &Vec<String>) -> (result: Result<(WallpaperAction, WallpaperCliOptions), String>)
    ensures
        match (result, shift_action(text::texts(args@))) {
            (Ok(found), Ok(wanted)) => (found.0, found.1@) == wanted,
            (Err(message), Err(wanted)) => message@ == wanted,
            _ => false,
        },
{
    let options = parse_wallpaper_options(args, "push:left")?;
    assert(options@.positionals.len() == options.positionals@.len());
    if options.positionals.len() > 1 {
        return Err(copy_text("shift accepts at most one direction"));
    }
    let direction = if options.positionals.len() == 0 {
        copy_text("forward")
    } else {
        copy_text(options.positionals[0].as_str())
    };
    let direction = direction.as_str();
    if text_eq(direction, "f") || text_eq(direction, "forward") {
        let options = options.with_default_transition("push:left")?;
        Ok((WallpaperAction::ShiftForward, options))
    } else if text_eq(direction, "b") || text_eq(direction, "back") || text_eq(
        direction,
        "backward",
    ) {
        let options = options.with_default_transition("push:right")?;
        Ok((WallpaperAction::ShiftBack, options))
    } else {
        Err(copy_text("shift direction must be one of: forward, f, back, backward, b"))
    }
}

fn parse_action(command: &str, args: &Vec<String>) -> (result: Result<
    (WallpaperAction, WallpaperCliOptions),
    String,
>)
    ensures
        match (result, action_for(command@, text::texts(args@))) {
            (Ok(found), Ok(wanted)) => (found.0, found.1@) == wanted,
            (Err(message), Err(wanted)) => message@ == wanted,
            _ => false,
        },
{
    let ghost all = text::texts(args@);
    if text_eq(command, "next") {
        bare(
            command,
            WallpaperAction::Next,
            parse_wallpaper_options(args, "push:up"),
            Ghost(wallpaper_options(all, "push:up"@)),
        )
    } else if text_eq(command, "back") {
        bare(
            command,
            WallpaperAction::Back,
            parse_wallpaper_options(args, "push:down"),
            Ghost(wallpaper_options(all, "push:down"@)),
        )
    } else if text_eq(command, "shift") {
        parse_shift(args)
    } else if text_eq(command, "shift-forward") {
        bare(
            command,
            WallpaperAction::ShiftForward,
            parse_wallpaper_options(args, "push:left"),
            Ghost(wallpaper_options(all, "push:left"@)),
        )
    } else if text_eq(command, "shift-back") {
        bare(
            command,
            WallpaperAction::ShiftBack,
            parse_wallpaper_options(args, "push:right"),
            Ghost(wallpaper_options(all, "push:right"@)),
        )
    } else if text_eq(command, "replace") {
        let (index, options) = indexed(
            command,
            parse_wallpaper_options(args, "cut"),
            Ghost(wallpaper_options(all, "cut"@)),
        )?;
        Ok((WallpaperAction::Replace { index }, options))
    } else if text_eq(command, "quarantine") || text_eq(command, "quarentine") {
        let (index, options) = indexed(
            command,
            parse_wallpaper_options(args, "cut"),
            Ghost(wallpaper_options(all, "cut"@)),
        )?;
        Ok((WallpaperAction::Quarantine { index }, options))
    } else if text_eq(command, "favorite") {
        let (index, options) = indexed(
            command,
            parse_json_only_options(args, command),
            Ghost(plain_from(all, 0, command@, no_options("cut"@))),
        )?;
        Ok((WallpaperAction::Favorite { index }, options))
    } else if text_eq(command, "unfavorite") {
        let (index, options) = indexed(
            command,
            parse_json_only_options(args, command),
            Ghost(plain_from(all, 0, command@, no_options("cut"@))),
        )?;
        Ok((WallpaperAction::Unfavorite { index }, options))
    } else if text_eq(command, "favorites") {
        bare(
            command,
            WallpaperAction::Favorites,
            parse_json_only_options(args, command),
            Ghost(plain_from(all, 0, command@, no_options("cut"@))),
        )
    } else if text_eq(command, "current") {
        bare(
            command,
            WallpaperAction::Current,
            parse_json_only_options(args, command),
            Ghost(plain_from(all, 0, command@, no_options("cut"@))),
        )
    } else if text_eq(command, "rescan") {
        bare(
            command,
            WallpaperAction::Rescan,
            parse_json_only_options(args, command),
            Ghost(plain_from(all, 0, command@, no_options("cut"@))),
        )
    } else {
        Err(concat2("unknown command: ", command))
    }
}

/// The request that a wallpaper action and its arguments ask for. Nothing comes where help
/// is asked for.
pub fn parse_wallpaper_command(command: &str, args: &Vec<String>) -> (result: Result<
    Option<BuiltCommand>,
    String,
>)
    ensures
        is_built(result, wallpaper_command(command@, text::texts(args@))),
{
    if wants_help(args) {
        return Ok(None);
    }
    let (action, options) = parse_action(command, args)?;
    Ok(
        Some(
            BuiltCommand {
                request: Request::Wallpaper(
                    WallpaperRequest {
                        action,
                        transition: options.transition,
                        scale_mode: options.scale_mode,
                    },
                ),
                print_mode: if options.json {
                    PrintMode::WallpaperJson
                } else {
                    PrintMode::WallpaperText
                },
            },
        ),
    )
}

} // verus!
