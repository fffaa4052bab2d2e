//! The commands of the client that are no wallpaper actions, and the choice among all.

use crate::arguments::{
    canonical_image_path, is_canvas_transition_token, parse_cache_workers, parse_duration,
    parse_flag_only, require_no_args, ImagePath,
};
use crate::cli::{
    is_wallpaper_command, missing_value, parse_wallpaper_command, BuiltCommand, BuiltView,
    CanvasSettings,
};
use crate::output::PrintMode;
use crate::protocol::{
    CacheAction, CacheBackend, CacheWarmScope, Easing, PushMode, ScaleMode, Transition,
    DEFAULT_CANVAS_CACHE_WORKERS, DEFAULT_DURATION_MS,
};
use crate::request::{
    CacheRequest, ClearRequest, ClearView, PreloadRequest, Request, RequestView, SetRequest,
    SetView,
};
use crate::text::{
    concat2, concat3, contains_char, contains_text, copy_text, split_once, starts_with_char,
    text_eq,
};
use crate::textmap::TextMap;
use crate::arguments;
use crate::text;
use crate::textmap;
use crate::cli;
use crate::error;
use crate::protocol;
use vstd::prelude::*;

verus! {

// ---------------------------------------------------------------------------
// Outputs with images

/// The outputs with their images after one more output.
pub open spec fn output_inserted(
    outputs: Seq<(Seq<char>, Seq<char>)>,
    name: Seq<char>,
    path: Seq<char>,
    images: Seq<(Seq<char>, ImagePath)>,
) -> Result<Seq<(Seq<char>, Seq<char>)>, Seq<char>> {
    if name.len() == 0 {
        Err("output name must not be empty"@)
    } else if path.len() == 0 {
        Err("image path for output "@ + name + " must not be empty"@)
    } else {
        match arguments::image_in(images, path) {
            Err(message) => Err(message),
            Ok(full) => if textmap::entries_get(outputs, name) is Some {
                Err("duplicate output: "@ + name)
            } else {
                Ok(textmap::entries_insert(outputs, name, full))
            },
        }
    }
}

fn is_empty(text: &str) -> (result: bool)
    ensures
        result == (text@.len() == 0),
{
    proof {
        reveal_strlit("");
        if text@.len() == 0 {
            assert(text@ =~= ""@);
        }
    }
    text_eq(text, "")
}

fn insert_output_path(
    outputs: &mut TextMap<String>,
    name: &str,
    path: &str,
    images: &TextMap<ImagePath>,
) -> (result: Result<(), String>)
    ensures
        match (
            result,
            output_inserted(textmap::text_entries(*old(outputs)), name@, path@, images.raw()),
        ) {
            (Ok(_), Ok(next)) => textmap::text_entries(*final(outputs)) == next,
            (Err(message), Err(expected)) => message@ == expected,
            _ => false,
        },
{
    let ghost before = outputs.raw();
    if is_empty(name) {
        return Err(copy_text("output name must not be empty"));
    }
    if is_empty(path) {
        return Err(concat3("image path for output ", name, " must not be empty"));
    }
    let full = canonical_image_path(images, path)?;
    proof {
        textmap::lemma_map_get(before, |value: String| value@, name@);
        textmap::lemma_map_insert(before, |value: String| value@, name@, full);
    }
    if outputs.contains_key(name) {
        return Err(concat2("duplicate output: ", name));
    }
    outputs.insert(copy_text(name), full);
    Ok(())
}

/// The outputs with their images, and an output whose image is yet to come.
pub struct PairsView {
    pub outputs: Seq<(Seq<char>, Seq<char>)>,
    pub pending: Option<Seq<char>>,
}

/// The outputs with their images while arguments are read.
pub struct OutputPairs {
    pub outputs: TextMap<String>,
    pub pending: Option<String>,
}

impl View for OutputPairs {
    type V = PairsView;

    open spec fn view(&self) -> PairsView {
        PairsView { outputs: textmap::text_entries(self.outputs), pending: text::text_if(self.pending) }
    }
}

/// The outputs after an output option, and where the arguments go on behind it.
pub open spec fn output_option(
    args: Seq<Seq<char>>,
    index: int,
    pairs: PairsView,
    images: Seq<(Seq<char>, ImagePath)>,
) -> Result<(int, PairsView), Seq<char>> {
    if pairs.pending is Some {
        Err("missing image path for output "@ + pairs.pending->Some_0)
    } else if index + 1 >= args.len() {
        Err("--output requires NAME or NAME=PATH"@)
    } else {
        let value = args[index + 1];
        match text::split_at_first(value, '=') {
            Some((name, path)) => match output_inserted(pairs.outputs, name, path, images) {
                Err(message) => Err(message),
                Ok(outputs) => Ok((index + 2, PairsView { outputs, ..pairs })),
            },
            None => if value.len() == 0 {
                Err("output name must not be empty"@)
            } else if index + 2 < args.len() && !(args[index + 2].len() > 0 && args[index + 2][0]
                == '-') {
                match output_inserted(pairs.outputs, value, args[index + 2], images) {
                    Err(message) => Err(message),
                    Ok(outputs) => Ok((index + 3, PairsView { outputs, ..pairs })),
                }
            } else {
                Ok((index + 2, PairsView { pending: Some(value), ..pairs }))
            },
        }
    }
}

/// The outputs after a path that stands by itself.
pub open spec fn path_assigned(
    path: Seq<char>,
    pairs: PairsView,
    images: Seq<(Seq<char>, ImagePath)>,
) -> Result<PairsView, Seq<char>> {
    match pairs.pending {
        None => Err("unexpected positional image path: "@ + path),
        Some(name) => match output_inserted(pairs.outputs, name, path, images) {
            Err(message) => Err(message),
            Ok(outputs) => Ok(PairsView { outputs, pending: None }),
        },
    }
}

/// The outputs once all arguments are read.
pub open spec fn pairs_done(pairs: PairsView, command: Seq<char>) -> Result<
    Seq<(Seq<char>, Seq<char>)>,
    Seq<char>,
> {
    if pairs.pending is Some {
        Err("missing image path for output "@ + pairs.pending->Some_0)
    } else if pairs.outputs.len() == 0 {
        Err(command + " requires at least one --output NAME PATH or --output NAME=PATH"@)
    } else {
        Ok(pairs.outputs)
    }
}

impl OutputPairs {
    fn new() -> (pairs: Self)
        ensures
            pairs@ == (PairsView { outputs: Seq::empty(), pending: None }),
    {
        let pairs = OutputPairs { outputs: TextMap::new(), pending: None };
        assert(pairs@.outputs =~= Seq::<(Seq<char>, Seq<char>)>::empty());
        pairs
    }

    fn parse_output_path_option(
        &mut self,
        args: &Vec<String>,
        index: usize,
        images: &TextMap<ImagePath>,
    ) -> (result: Result<usize, String>)
        requires
            index < args@.len(),
        ensures
            match (result, output_option(text::texts(args@), index as int, old(self)@, images.raw())) {
                (Ok(next), Ok((expected, pairs))) => {
                    &&& next == expected
                    &&& index < next <= args@.len()
                    &&& final(self)@ == pairs
                },
                (Err(message), Err(expected)) => message@ == expected,
                _ => false,
            },
    {
        let ghost all = text::texts(args@);
        assert(all.len() == args@.len());
        if let Some(output) = &self.pending {
            return Err(concat2("missing image path for output ", output.as_str()));
        }
        if args.len() - index < 2 {
            return Err(copy_text("--output requires NAME or NAME=PATH"));
        }
        let value = args[index + 1].as_str();
        assert(all[index + 1] == value@);
        if let Some((name, path)) = split_once(value, '=') {
            insert_output_path(&mut self.outputs, name.as_str(), path.as_str(), images)?;
            return Ok(index + 2);
        }
        if is_empty(value) {
            return Err(copy_text("output name must not be empty"));
        }
        if args.len() - index > 2 {
            assert(all[index + 2] == args@[index + 2]@);
            if !starts_with_char(args[index + 2].as_str(), '-') {
                insert_output_path(&mut self.outputs, value, args[index + 2].as_str(), images)?;
                return Ok(index + 3);
            }
        }
        self.pending = Some(copy_text(value));
        Ok(index + 2)
    }

    fn assign_positional_path(&mut self, path: &str, images: &TextMap<ImagePath>) -> (result: Result<
        (),
        String,
    >)
        ensures
            match (result, path_assigned(path@, old(self)@, images.raw())) {
                (Ok(_), Ok(pairs)) => final(self)@ == pairs,
                (Err(message), Err(expected)) => message@ == expected,
                _ => false,
            },
    {
        let mut pending: Option<String> = None;
        std::mem::swap(&mut pending, &mut self.pending);
        match pending {
            None => Err(concat2("unexpected positional image path: ", path)),
            Some(name) => insert_output_path(&mut self.outputs, name.as_str(), path, images),
        }
    }

    fn finish(self, command_name: &str) -> (result: Result<TextMap<String>, String>)
        ensures
            match (result, pairs_done(self@, command_name@)) {
                (Ok(outputs), Ok(expected)) => textmap::text_entries(outputs) == expected,
                (Err(message), Err(expected)) => message@ == expected,
                _ => false,
            },
    {
        if let Some(output) = &self.pending {
            return Err(concat2("missing image path for output ", output.as_str()));
        }
        if self.outputs.is_empty() {
            return Err(
                concat2(
                    command_name,
                    " requires at least one --output NAME PATH or --output NAME=PATH",
                ),
            );
        }
        Ok(self.outputs)
    }
}

/// The outputs after the arguments from one on.
pub open spec fn pairs_from(
    args: Seq<Seq<char>>,
    index: int,
    command: Seq<char>,
    pairs: PairsView,
    images: Seq<(Seq<char>, ImagePath)>,
) -> Result<PairsView, Seq<char>>
    decreases args.len() - index,
{
    if index >= args.len() {
        Ok(pairs)
    } else if args[index] == "-o"@ || args[index] == "--output"@ {
        match output_option(args, index, pairs, images) {
            Err(message) => Err(message),
            Ok((next, pairs)) => pairs_from(args, next, command, pairs, images),
        }
    } else if args[index].len() > 0 && args[index][0] == '-' {
        Err("unknown "@ + command + " option: "@ + args[index])
    } else {
        match path_assigned(args[index], pairs, images) {
            Err(message) => Err(message),
            Ok(pairs) => pairs_from(args, index + 1, command, pairs, images),
        }
    }
}

/// The outputs with their images that arguments name.
pub open spec fn output_paths(
    args: Seq<Seq<char>>,
    command: Seq<char>,
    images: Seq<(Seq<char>, ImagePath)>,
) -> Result<Seq<(Seq<char>, Seq<char>)>, Seq<char>> {
    match pairs_from(
        args,
        0,
        command,
        PairsView { outputs: Seq::empty(), pending: None },
        images,
    ) {
        Err(message) => Err(message),
        Ok(pairs) => pairs_done(pairs, command),
    }
}

/// Reads the outputs with their images that arguments name.
pub fn parse_output_path_args(
    args: &Vec<String>,
    command_name: &str,
    images: &TextMap<ImagePath>,
) -> (result: Result<TextMap<String>, String>)
    ensures
        match (result, output_paths(text::texts(args@), command_name@, images.raw())) {
            (Ok(outputs), Ok(expected)) => textmap::text_entries(outputs) == expected,
            (Err(message), Err(expected)) => message@ == expected,
            _ => false,
        },
{
    let ghost all = text::texts(args@);
    let ghost start = PairsView { outputs: Seq::empty(), pending: None };
    let ghost wanted = pairs_from(all, 0, command_name@, start, images.raw());
    let mut pairs = OutputPairs::new();
    let mut index: usize = 0;
    while index < args.len()
        invariant
            index <= args@.len(),
            all == text::texts(args@),
            all.len() == args@.len(),
            wanted == pairs_from(
                all,
                0,
                command_name@,
                (PairsView { outputs: Seq::empty(), pending: None }),
                images.raw(),
            ),
            wanted == pairs_from(all, index as int, command_name@, pairs@, images.raw()),
        decreases args@.len() - index,
    {
        let arg = args[index].as_str();
        assert(all[index as int] == arg@);
        if text_eq(arg, "-o") || text_eq(arg, "--output") {
            index = pairs.parse_output_path_option(args, index, images)?;
        } else if starts_with_char(arg, '-') {
            return Err(concat2(concat3("unknown ", command_name, " option: ").as_str(), arg));
        } else {
            pairs.assign_positional_path(arg, images)?;
            index = index + 1;
        }
    }
    pairs.finish(command_name)
}

// ---------------------------------------------------------------------------
// Setting outputs

/// What the command line says of setting outputs.
pub struct SetOptions {
    pub pairs: OutputPairs,
    pub transition_token: String,
    pub duration_ms: u64,
    pub easing: Easing,
    pub mode: Option<String>,
    pub canvas_option_explicit: bool,
    pub scale_mode: ScaleMode,
    pub allow_partial: bool,
}

/// What the command line says of setting outputs, as a mathematical value.
pub struct SetOptionsView {
    pub pairs: PairsView,
    pub token: Seq<char>,
    pub duration_ms: u64,
    pub easing: Easing,
    pub mode: Option<Seq<char>>,
    pub canvas_explicit: bool,
    pub scale_mode: ScaleMode,
    pub allow_partial: bool,
}

impl View for SetOptions {
    type V = SetOptionsView;

    open spec fn view(&self) -> SetOptionsView {
        SetOptionsView {
            pairs: self.pairs@,
            token: self.transition_token@,
            duration_ms: self.duration_ms,
            easing: self.easing,
            mode: text::text_if(self.mode),
            canvas_explicit: self.canvas_option_explicit,
            scale_mode: self.scale_mode,
            allow_partial: self.allow_partial,
        }
    }
}

/// What is known of setting outputs before arguments are read.
pub open spec fn no_set_options() -> SetOptionsView {
    SetOptionsView {
        pairs: PairsView { outputs: Seq::empty(), pending: None },
        token: "cut"@,
        duration_ms: DEFAULT_DURATION_MS,
        easing: Easing::EaseOutCubic,
        mode: None,
        canvas_explicit: false,
        scale_mode: ScaleMode::Fill,
        allow_partial: false,
    }
}

/// What to say of an option for setting outputs that has no value, if it is one that needs
/// a value.
pub open spec fn set_value_missing(option: Seq<char>) -> Option<Seq<char>> {
    if option == "--canvas-walk"@ {
        None
    } else {
        cli::value_missing(option)
    }
}

/// What is known of setting outputs after an option that has a value. An option of a
/// canvas is checked, and implies the canvas transition in place of a cut.
pub open spec fn set_with(o: SetOptionsView, option: Seq<char>, value: Seq<char>) -> Result<
    SetOptionsView,
    Seq<char>,
> {
    if option == "-t"@ || option == "--transition"@ {
        Ok(SetOptionsView { token: value, ..o })
    } else if option == "--duration-ms"@ {
        match arguments::duration_in(value) {
            Err(message) => Err(message),
            Ok(duration_ms) => Ok(SetOptionsView { duration_ms, ..o }),
        }
    } else if option == "--easing"@ {
        match Easing::named(value) {
            Err(message) => Err(message),
            Ok(easing) => Ok(SetOptionsView { easing, ..o }),
        }
    } else if option == "--mode"@ {
        Ok(SetOptionsView { mode: Some(value), ..o })
    } else {
        match cli::canvas_with(cli::usual_canvas(), option, value) {
            Some(Err(message)) => Err(message),
            Some(Ok(_)) => Ok(
                SetOptionsView {
                    canvas_explicit: true,
                    token: if o.token == "cut"@ {
                        "canvas"@
                    } else {
                        o.token
                    },
                    ..o
                },
            ),
            None => match ScaleMode::named(value) {
                Err(message) => Err(message),
                Ok(scale_mode) => Ok(SetOptionsView { scale_mode, ..o }),
            },
        }
    }
}

/// What is known of setting outputs after the arguments from one on.
pub open spec fn set_from(
    args: Seq<Seq<char>>,
    index: int,
    o: SetOptionsView,
    images: Seq<(Seq<char>, ImagePath)>,
) -> Result<SetOptionsView, Seq<char>>
    decreases args.len() - index,
{
    if index >= args.len() {
        Ok(o)
    } else if args[index] == "-o"@ || args[index] == "--output"@ {
        match output_option(args, index, o.pairs, images) {
            Err(message) => Err(message),
            Ok((next, pairs)) => set_from(args, next, SetOptionsView { pairs, ..o }, images),
        }
    } else if args[index] == "--allow-partial"@ {
        set_from(args, index + 1, SetOptionsView { allow_partial: true, ..o }, images)
    } else {
        match set_value_missing(args[index]) {
            Some(message) => if index + 1 >= args.len() {
                Err(message)
            } else {
                match set_with(o, args[index], args[index + 1]) {
                    Err(message) => Err(message),
                    Ok(next) => set_from(args, index + 2, next, images),
                }
            },
            None => if args[index].len() > 0 && args[index][0] == '-' {
                Err("unknown set option: "@ + args[index])
            } else {
                match path_assigned(args[index], o.pairs, images) {
                    Err(message) => Err(message),
                    Ok(pairs) => set_from(args, index + 1, SetOptionsView { pairs, ..o }, images),
                }
            },
        }
    }
}

/// The transition that options give to setting outputs.
pub open spec fn set_transition(o: SetOptionsView) -> Result<Transition, Seq<char>> {
    match protocol::cli_transition(o.token, o.duration_ms, o.easing) {
        Err(message) => Err(message),
        Ok(transition) => if o.canvas_explicit && !arguments::is_canvas_token(o.token) {
            Err("canvas options require --transition canvas"@)
        } else {
            match transition {
                Transition::Canvas { .. } => Err(
                    "canvas transitions are only supported for wallpaper navigation actions; use next/back/shift/replace/quarantine, or use set with cut, push, or world"@,
                ),
                Transition::Push { direction, duration_ms, easing, mode: push_mode } => match o.mode {
                    None => Ok(transition),
                    Some(name) => match PushMode::named(name) {
                        Err(message) => Err(message),
                        Ok(mode) => Ok(
                            Transition::Push { direction, duration_ms, easing, mode },
                        ),
                    },
                },
                _ => if o.mode is Some {
                    Err("--mode requires a push transition for set"@)
                } else {
                    Ok(transition)
                },
            }
        },
    }
}

/// The request to set outputs that arguments ask for, or help.
pub open spec fn set_request(args: Seq<Seq<char>>, images: Seq<(Seq<char>, ImagePath)>) -> Result<
    Option<RequestView>,
    Seq<char>,
> {
    if arguments::asks_help(args) {
        Ok(None)
    } else {
        match set_from(args, 0, no_set_options(), images) {
            Err(message) => Err(message),
            Ok(o) => match pairs_done(o.pairs, "set"@) {
                Err(message) => Err(message),
                Ok(outputs) => match set_transition(o) {
                    Err(message) => Err(message),
                    Ok(transition) => Ok(
                        Some(
                            RequestView::SetOutputs(
                                SetView {
                                    outputs,
                                    transition,
                                    scale_mode: o.scale_mode,
                                    allow_partial: o.allow_partial,
                                },
                            ),
                        ),
                    ),
                },
            },
        }
    }
}

/// Whether a result stands for the expected request, for help that is asked for, or is an
/// error with the expected message.
pub open spec fn is_request(
    result: Result<Option<Request>, String>,
    expected: Result<Option<RequestView>, Seq<char>>,
) -> bool {
    match (result, expected) {
        (Ok(Some(request)), Ok(Some(wanted))) => request@ == wanted,
        (Ok(None), Ok(None)) => true,
        (Err(message), Err(wanted)) => message@ == wanted,
        _ => false,
    }
}

fn wants_help(args: &Vec<String>) -> (result: bool)
    ensures
        result == arguments::asks_help(text::texts(args@)),
{
    contains_text(args, "-h") || contains_text(args, "--help")
}

impl SetOptions {
    fn set_option(&mut self, option: &str, value: &str) -> (result: Result<(), String>)
        ensures
            match (result, set_with(old(self)@, option@, value@)) {
                (Ok(_), Ok(next)) => final(self)@ == next,
                (Err(message), Err(expected)) => message@ == expected,
                _ => false,
            },
    {
        if text_eq(option, "-t") || text_eq(option, "--transition") {
            self.transition_token = copy_text(value);
            return Ok(());
        }
        if text_eq(option, "--duration-ms") {
            self.duration_ms = parse_duration(value)?;
            return Ok(());
        }
        if text_eq(option, "--easing") {
            match Easing::parse(value) {
                Err(error) => {
                    return Err(error.to_text());
                },
                Ok(easing) => {
                    self.easing = easing;
                },
            }
            return Ok(());
        }
        if text_eq(option, "--mode") {
            self.mode = Some(copy_text(value));
            return Ok(());
        }
        match CanvasSettings::usual().with_option(option, value) {
            Some(Err(message)) => Err(message),
            Some(Ok(_)) => {
                self.canvas_option_explicit = true;
                if text_eq(self.transition_token.as_str(), "cut") {
                    self.transition_token = copy_text("canvas");
                }
                Ok(())
            },
            None => match ScaleMode::parse(value) {
                Err(error) => Err(error.to_text()),
                Ok(mode) => {
                    self.scale_mode = mode;
                    Ok(())
                },
            },
        }
    }

    fn transition(&self) -> (result: Result<Transition, String>)
        ensures
            error::agrees(result, set_transition(self@)),
    {
        let token = self.transition_token.as_str();
        let transition = match Transition::parse_cli_token(token, self.duration_ms, self.easing) {
            Err(error) => {
                return Err(error.to_text());
            },
            Ok(transition) => transition,
        };
        if self.canvas_option_explicit && !is_canvas_transition_token(token) {
            return Err(copy_text("canvas options require --transition canvas"));
        }
        match transition {
            Transition::Canvas { .. } => Err(
                copy_text(
                    "canvas transitions are only supported for wallpaper navigation actions; use next/back/shift/replace/quarantine, or use set with cut, push, or world",
                ),
            ),
            Transition::Push { direction, duration_ms, easing, mode: push_mode } => match &self.mode {
                None => Ok(transition),
                Some(name) => match PushMode::parse(name.as_str()) {
                    Err(error) => Err(error.to_text()),
                    Ok(mode) => Ok(Transition::Push { direction, duration_ms, easing, mode }),
                },
            },
            _ => if self.mode.is_some() {
                Err(copy_text("--mode requires a push transition for set"))
            } else {
                Ok(transition)
            },
        }
    }
}

/// The request to set outputs that arguments ask for. Nothing comes where help is asked
/// for.
pub fn parse_set(args: &Vec<String>, images: &TextMap<ImagePath>) -> (result: Result<
    Option<Request>,
    String,
>)
    ensures
        is_request(result, set_request(text::texts(args@), images.raw())),
{
    if wants_help(args) {
        return Ok(None);
    }
    let ghost all = text::texts(args@);
    let ghost wanted = set_from(all, 0, no_set_options(), images.raw());
    let mut options = SetOptions {
        pairs: OutputPairs::new(),
        transition_token: copy_text("cut"),
        duration_ms: DEFAULT_DURATION_MS,
        easing: Easing::EaseOutCubic,
        mode: None,
        canvas_option_explicit: false,
        scale_mode: ScaleMode::Fill,
        allow_partial: false,
    };
    let mut index: usize = 0;
    while index < args.len()
        invariant
            index <= args@.len(),
            all == text::texts(args@),
            all.len() == args@.len(),
            !arguments::asks_help(all),
            wanted == set_from(all, 0, no_set_options(), images.raw()),
            wanted == set_from(all, index as int, options@, images.raw()),
        decreases args@.len() - index,
    {
        let arg = args[index].as_str();
        assert(all[index as int] == arg@);
        if text_eq(arg, "-o") || text_eq(arg, "--output") {
            index = options.pairs.parse_output_path_option(args, index, images)?;
        } else if text_eq(arg, "--allow-partial") {
            options.allow_partial = true;
            index = index + 1;
        } else {
            let missing = if text_eq(arg, "--canvas-walk") {
                None
            } else {
                missing_value(arg)
            };
            match missing {
                Some(message) => {
                    if args.len() - index < 2 {
                        return Err(copy_text(message));
                    }
                    assert(all[index + 1] == args@[index + 1]@);
                    options.set_option(arg, args[index + 1].as_str())?;
                    index = index + 2;
                },
                None => {
                    if starts_with_char(arg, '-') {
                        return Err(concat2("unknown set option: ", arg));
                    }
                    options.pairs.assign_positional_path(arg, images)?;
                    index = index + 1;
                },
            }
        }
    }
    let transition = options.transition();
    let scale_mode = options.scale_mode;
    let allow_partial = options.allow_partial;
    let outputs = options.pairs.finish("set")?;
    let transition = transition?;
    Ok(
        Some(
            Request::SetOutputs(SetRequest { outputs, transition, scale_mode, allow_partial }),
        ),
    )
}

/// The request to load images ahead that arguments ask for, or help.
pub open spec fn preload_request(args: Seq<Seq<char>>, images: Seq<(Seq<char>, ImagePath)>) -> Result<
    Option<RequestView>,
    Seq<char>,
> {
    if arguments::asks_help(args) {
        Ok(None)
    } else {
        match output_paths(args, "preload"@, images) {
            Err(message) => Err(message),
            Ok(outputs) => Ok(Some(RequestView::Preload(outputs))),
        }
    }
}

/// The request to load images ahead that arguments ask for. Nothing comes where help is
/// asked for.
pub fn parse_preload(args: &Vec<String>, images: &TextMap<ImagePath>) -> (result: Result<
    Option<Request>,
    String,
>)
    ensures
        is_request(result, preload_request(text::texts(args@), images.raw())),
{
    if wants_help(args) {
        return Ok(None);
    }
    let outputs = parse_output_path_args(args, "preload", images)?;
    Ok(Some(Request::Preload(PreloadRequest { outputs })))
}

// ---------------------------------------------------------------------------
// Clearing outputs

/// What is to be cleared after the arguments from one on.
pub open spec fn clear_from(args: Seq<Seq<char>>, index: int, clear: ClearView) -> Result<
    ClearView,
    Seq<char>,
>
    decreases args.len() - index,
{
    if index >= args.len() {
        Ok(clear)
    } else if args[index] == "-o"@ || args[index] == "--output"@ {
        if index + 1 >= args.len() {
            Err("--output requires an output name"@)
        } else if args[index + 1].contains('=') {
            Err("clear --output accepts only an output name"@)
        } else if args[index + 1].len() == 0 {
            Err("output name must not be empty"@)
        } else {
            clear_from(
                args,
                index + 2,
                ClearView { outputs: clear.outputs.push(args[index + 1]), ..clear },
            )
        }
    } else if args[index] == "--color"@ {
        if index + 1 >= args.len() {
            Err("--color requires a value"@)
        } else {
            clear_from(args, index + 2, ClearView { color: args[index + 1], ..clear })
        }
    } else {
        Err("clear does not accept argument: "@ + args[index])
    }
}

/// The request to clear outputs that arguments ask for, or help.
pub open spec fn clear_request(args: Seq<Seq<char>>) -> Result<Option<RequestView>, Seq<char>> {
    if arguments::asks_help(args) {
        Ok(None)
    } else {
        match clear_from(args, 0, ClearView { outputs: Seq::empty(), color: "#000000"@ }) {
            Err(message) => Err(message),
            Ok(clear) => Ok(Some(RequestView::Clear(clear))),
        }
    }
}

/// The request to clear outputs that arguments ask for. Nothing comes where help is asked
/// for.
pub fn parse_clear(args: &Vec<String>) -> (result: Result<Option<Request>, String>)
    ensures
        is_request(result, clear_request(text::texts(args@))),
{
    if wants_help(args) {
        return Ok(None);
    }
    let ghost all = text::texts(args@);
    let ghost start = ClearView { outputs: Seq::empty(), color: "#000000"@ };
    let ghost wanted = clear_from(all, 0, start);
    let mut request = ClearRequest { outputs: Vec::new(), color: copy_text("#000000") };
    let mut index: usize = 0;
    assert(request@.outputs =~= Seq::<Seq<char>>::empty());
    while index < args.len()
        invariant
            index <= args@.len(),
            all == text::texts(args@),
            all.len() == args@.len(),
            !arguments::asks_help(all),
            start == (ClearView { outputs: Seq::empty(), color: "#000000"@ }),
            wanted == clear_from(all, 0, start),
            wanted == clear_from(all, index as int, request@),
        decreases args@.len() - index,
    {
        let arg = args[index].as_str();
        assert(all[index as int] == arg@);
        if text_eq(arg, "-o") || text_eq(arg, "--output") {
            if args.len() - index < 2 {
                return Err(copy_text("--output requires an output name"));
            }
            let output = args[index + 1].as_str();
            assert(all[index + 1] == output@);
            if contains_char(output, '=') {
                return Err(copy_text("clear --output accepts only an output name"));
            }
            if is_empty(output) {
                return Err(copy_text("output name must not be empty"));
            }
            let ghost before = request@;
            request.outputs.push(copy_text(output));
            assert(request@.outputs =~= before.outputs.push(output@));
            assert(request@ == (ClearView { outputs: before.outputs.push(output@), ..before }));
        } else if text_eq(arg, "--color") {
            if args.len() - index < 2 {
                return Err(copy_text("--color requires a value"));
            }
            assert(all[index + 1] == args@[index + 1]@);
            request.color = copy_text(args[index + 1].as_str());
        } else {
            return Err(concat2("clear does not accept argument: ", arg));
        }
        index = index + 2;
    }
    Ok(Some(Request::Clear(request)))
}

// ---------------------------------------------------------------------------
// The cache

/// What is to be warmed after the arguments from one on.
pub open spec fn warm_from(
    args: Seq<Seq<char>>,
    index: int,
    scope: CacheWarmScope,
    workers: usize,
    backend: CacheBackend,
) -> Result<CacheAction, Seq<char>>
    decreases args.len() - index,
{
    if index >= args.len() {
        Ok(CacheAction::Warm { scope, workers, backend })
    } else if args[index] == "--json"@ {
        warm_from(args, index + 1, scope, workers, backend)
    } else if args[index] == "--scope"@ {
        if index + 1 >= args.len() {
            Err("--scope requires current or all"@)
        } else {
            match CacheWarmScope::named(args[index + 1]) {
                Err(message) => Err(message),
                Ok(scope) => warm_from(args, index + 2, scope, workers, backend),
            }
        }
    } else if args[index] == "--workers"@ {
        if index + 1 >= args.len() {
            Err("--workers requires a positive integer"@)
        } else {
            match arguments::positive_count_in(args[index + 1], "cache worker count"@) {
                Err(message) => Err(message),
                Ok(workers) => warm_from(args, index + 2, scope, workers, backend),
            }
        }
    } else if args[index] == "--backend"@ {
        if index + 1 >= args.len() {
            Err("--backend requires auto, vips, or internal"@)
        } else {
            match CacheBackend::named(args[index + 1]) {
                Err(message) => Err(message),
                Ok(backend) => warm_from(args, index + 2, scope, workers, backend),
            }
        }
    } else if args[index].len() > 0 && args[index][0] == '-' {
        Err("unknown cache warm option: "@ + args[index])
    } else {
        Err("cache warm does not accept argument: "@ + args[index])
    }
}

/// The request about the cache that arguments ask for, or help.
pub open spec fn cache_request(args: Seq<Seq<char>>) -> Result<Option<RequestView>, Seq<char>> {
    if args.len() == 0 || arguments::asks_help(args) {
        Ok(None)
    } else {
        let action = if args[0] == "status"@ {
            match arguments::flag_in(args.skip(1), "cache status"@, "--json"@) {
                Err(message) => Err(message),
                Ok(_) => Ok(CacheAction::Status),
            }
        } else if args[0] == "clear"@ {
            match arguments::flag_in(args.skip(1), "cache clear"@, "--json"@) {
                Err(message) => Err(message),
                Ok(_) => Ok(CacheAction::Clear),
            }
        } else if args[0] == "warm"@ {
            warm_from(
                args,
                1,
                CacheWarmScope::Current,
                DEFAULT_CANVAS_CACHE_WORKERS,
                CacheBackend::Auto,
            )
        } else {
            Err("unknown cache action: "@ + args[0])
        };
        match action {
            Err(message) => Err(message),
            Ok(action) => Ok(Some(RequestView::Cache(CacheRequest { action }))),
        }
    }
}

/// The arguments behind the first.
pub fn after_first(args: &Vec<String>) -> (rest: Vec<String>)
    requires
        args@.len() > 0,
    ensures
        text::texts(rest@) == text::texts(args@).skip(1),
{
    let ghost all = text::texts(args@);
    let mut rest: Vec<String> = Vec::new();
    let mut i: usize = 1;
    assert(text::texts(rest@) =~= all.subrange(1, 1));
    while i < args.len()
        invariant
            1 <= i <= args@.len(),
            all == text::texts(args@),
            text::texts(rest@) == all.subrange(1, i as int),
        decreases args@.len() - i,
    {
        let ghost before = text::texts(rest@);
        rest.push(copy_text(args[i].as_str()));
        assert(text::texts(rest@) =~= before.push(args@[i as int]@));
        assert(text::texts(rest@) =~= all.subrange(1, i + 1));
        i = i + 1;
    }
    assert(text::texts(rest@) =~= all.skip(1));
    rest
}

fn parse_warm(args: &Vec<String>) -> (result: Result<CacheAction, String>)
    requires
        args@.len() > 0,
    ensures
        error::agrees(
            result,
            warm_from(
                text::texts(args@),
                1,
                CacheWarmScope::Current,
                DEFAULT_CANVAS_CACHE_WORKERS,
                CacheBackend::Auto,
            ),
        ),
{
    let ghost all = text::texts(args@);
    let ghost wanted = warm_from(
        all,
        1,
        CacheWarmScope::Current,
        DEFAULT_CANVAS_CACHE_WORKERS,
        CacheBackend::Auto,
    );
    let mut scope = CacheWarmScope::Current;
    let mut workers: usize = DEFAULT_CANVAS_CACHE_WORKERS;
    let mut backend = CacheBackend::Auto;
    let mut index: usize = 1;
    while index < args.len()
        invariant
            index <= args@.len(),
            all == text::texts(args@),
            all.len() == args@.len(),
            wanted == warm_from(
                all,
                1,
                CacheWarmScope::Current,
                DEFAULT_CANVAS_CACHE_WORKERS,
                CacheBackend::Auto,
            ),
            wanted == warm_from(all, index as int, scope, workers, backend),
        decreases args@.len() - index,
    {
        let arg = args[index].as_str();
        assert(all[index as int] == arg@);
        if text_eq(arg, "--json") {
            index = index + 1;
            continue ;
        }
        let missing = if text_eq(arg, "--scope") {
            "--scope requires current or all"
        } else if text_eq(arg, "--workers") {
            "--workers requires a positive integer"
        } else if text_eq(arg, "--backend") {
            "--backend requires auto, vips, or internal"
        } else if starts_with_char(arg, '-') {
            return Err(concat2("unknown cache warm option: ", arg));
        } else {
            return Err(concat2("cache warm does not accept argument: ", arg));
        };
        if args.len() - index < 2 {
            return Err(copy_text(missing));
        }
        let value = args[index + 1].as_str();
        assert(all[index + 1] == value@);
        if text_eq(arg, "--scope") {
            scope = match CacheWarmScope::parse(value) {
                Err(error) => {
                    return Err(error.to_text());
                },
                Ok(scope) => scope,
            };
        } else if text_eq(arg, "--workers") {
            workers = parse_cache_workers(value)?;
        } else {
            backend = match CacheBackend::parse(value) {
                Err(error) => {
                    return Err(error.to_text());
                },
                Ok(backend) => backend,
            };
        }
        index = index + 2;
    }
    Ok(CacheAction::Warm { scope, workers, backend })
}

/// The request about the cache that arguments ask for. Nothing comes where help is asked
/// for.
pub fn parse_cache(args: &Vec<String>) -> (result: Result<Option<Request>, String>)
    ensures
        is_request(result, cache_request(text::texts(args@))),
{
    assert(text::texts(args@).len() == args@.len());
    if args.len() == 0 || wants_help(args) {
        return Ok(None);
    }
    let name = args[0].as_str();
    let action = if text_eq(name, "status") {
        parse_flag_only(&after_first(args), "cache status", "--json")?;
        CacheAction::Status
    } else if text_eq(name, "clear") {
        parse_flag_only(&after_first(args), "cache clear", "--json")?;
        CacheAction::Clear
    } else if text_eq(name, "warm") {
        parse_warm(args)?
    } else {
        return Err(concat2("unknown cache action: ", name));
    };
    Ok(Some(Request::Cache(CacheRequest { action })))
}

// ---------------------------------------------------------------------------
// Questions

/// Whether the raw answer is asked for, or help, where no other argument can stand.
pub open spec fn json_from(args: Seq<Seq<char>>, index: int, command: Seq<char>, json: bool) -> Result<
    Option<bool>,
    Seq<char>,
>
    decreases args.len() - index,
{
    if index >= args.len() {
        Ok(Some(json))
    } else if args[index] == "--json"@ {
        json_from(args, index + 1, command, true)
    } else if args[index] == "-h"@ || args[index] == "--help"@ {
        Ok(None)
    } else {
        Err(command + " does not accept argument: "@ + args[index])
    }
}

fn parse_json_flag(args: &Vec<String>, command: &str) -> (result: Result<Option<bool>, String>)
    ensures
        error::agrees(result, json_from(text::texts(args@), 0, command@, false)),
{
    let ghost all = text::texts(args@);
    let ghost wanted = json_from(all, 0, command@, false);
    let mut json = false;
    let mut index: usize = 0;
    while index < args.len()
        invariant
            index <= args@.len(),
            all == text::texts(args@),
            all.len() == args@.len(),
            wanted == json_from(all, 0, command@, false),
            wanted == json_from(all, index as int, command@, json),
        decreases args@.len() - index,
    {
        let arg = args[index].as_str();
        assert(all[index as int] == arg@);
        if text_eq(arg, "--json") {
            json = true;
        } else if text_eq(arg, "-h") || text_eq(arg, "--help") {
            return Ok(None);
        } else {
            return Err(concat3(command, " does not accept argument: ", arg));
        }
        index = index + 1;
    }
    Ok(Some(json))
}

/// The question for capabilities that arguments ask, or help.
pub open spec fn capabilities_command(args: Seq<Seq<char>>) -> Result<Option<BuiltView>, Seq<char>> {
    match json_from(args, 0, "capabilities"@, false) {
        Err(message) => Err(message),
        Ok(None) => Ok(None),
        Ok(Some(json)) => Ok(
            Some(
                BuiltView {
                    request: RequestView::Capabilities,
                    print_mode: if json {
                        PrintMode::RawJson
                    } else {
                        PrintMode::CapabilitiesText
                    },
                },
            ),
        ),
    }
}

/// The question for capabilities that arguments ask. Nothing comes where help is asked
/// for.
pub fn parse_capabilities_command(args: &Vec<String>) -> (result: Result<
    Option<BuiltCommand>,
    String,
>)
    ensures
        cli::is_built(result, capabilities_command(text::texts(args@))),
{
    match parse_json_flag(args, "capabilities")? {
        None => Ok(None),
        Some(json) => Ok(
            Some(
                BuiltCommand {
                    request: Request::Capabilities,
                    print_mode: if json {
                        PrintMode::RawJson
                    } else {
                        PrintMode::CapabilitiesText
                    },
                },
            ),
        ),
    }
}

/// A question with an answer in JSON, or help.
pub open spec fn json_question(
    args: Seq<Seq<char>>,
    command: Seq<char>,
    request: RequestView,
) -> Result<Option<RequestView>, Seq<char>> {
    match json_from(args, 0, command, false) {
        Err(message) => Err(message),
        Ok(None) => Ok(None),
        Ok(Some(_)) => Ok(Some(request)),
    }
}

/// A question without arguments, or help.
pub open spec fn plain_question(
    args: Seq<Seq<char>>,
    command: Seq<char>,
    request: RequestView,
) -> Result<Option<RequestView>, Seq<char>> {
    if arguments::asks_help(args) {
        Ok(None)
    } else {
        match arguments::no_args(args, command) {
            Err(message) => Err(message),
            Ok(_) => Ok(Some(request)),
        }
    }
}

/// The question for the daemon's health. Nothing comes where help is asked for.
pub fn parse_health(args: &Vec<String>) -> (result: Result<Option<Request>, String>)
    ensures
        is_request(result, json_question(text::texts(args@), "health"@, RequestView::Health)),
{
    match parse_json_flag(args, "health")? {
        None => Ok(None),
        Some(_) => Ok(Some(Request::Health)),
    }
}

/// The question for the daemon's state. Nothing comes where help is asked for.
pub fn parse_query(args: &Vec<String>) -> (result: Result<Option<Request>, String>)
    ensures
        is_request(result, json_question(text::texts(args@), "query"@, RequestView::Query)),
{
    match parse_json_flag(args, "query")? {
        None => Ok(None),
        Some(_) => Ok(Some(Request::Query)),
    }
}

/// The question whether the daemon is there. Nothing comes where help is asked for.
pub fn parse_ping(args: &Vec<String>) -> (result: Result<Option<Request>, String>)
    ensures
        is_request(result, plain_question(text::texts(args@), "ping"@, RequestView::Ping)),
{
    if wants_help(args) {
        return Ok(None);
    }
    require_no_args(args, "ping")?;
    Ok(Some(Request::Ping))
}

/// The request that the daemon ends. Nothing comes where help is asked for.
pub fn parse_stop(args: &Vec<String>) -> (result: Result<Option<Request>, String>)
    ensures
        is_request(result, plain_question(text::texts(args@), "stop"@, RequestView::Stop)),
{
    if wants_help(args) {
        return Ok(None);
    }
    require_no_args(args, "stop")?;
    Ok(Some(Request::Stop))
}

// ---------------------------------------------------------------------------
// All commands

/// The request of a command whose answer is printed as it comes, or help.
pub open spec fn raw_request(
    command: Seq<char>,
    args: Seq<Seq<char>>,
    images: Seq<(Seq<char>, ImagePath)>,
) -> Result<Option<RequestView>, Seq<char>> {
    if command == "ping"@ {
        plain_question(args, command, RequestView::Ping)
    } else if command == "health"@ {
        json_question(args, command, RequestView::Health)
    } else if command == "query"@ {
        json_question(args, command, RequestView::Query)
    } else if command == "set"@ {
        set_request(args, images)
    } else if command == "preload"@ {
        preload_request(args, images)
    } else if command == "clear"@ {
        clear_request(args)
    } else if command == "cache"@ {
        cache_request(args)
    } else if command == "stop"@ {
        plain_question(args, command, RequestView::Stop)
    } else if command == "-h"@ || command == "--help"@ {
        Ok(None)
    } else {
        Err("unknown command: "@ + command)
    }
}

/// What arguments ask of the daemon, or help.
pub open spec fn command_for(args: Seq<Seq<char>>, images: Seq<(Seq<char>, ImagePath)>) -> Result<
    Option<BuiltView>,
    Seq<char>,
> {
    let command = args[0];
    let rest = args.skip(1);
    if command == "capabilities"@ {
        capabilities_command(rest)
    } else {
        match raw_request(command, rest, images) {
            Ok(Some(request)) => Ok(
                Some(BuiltView { request, print_mode: PrintMode::RawJson }),
            ),
            Ok(None) => Ok(None),
            Err(message) => if cli::is_action_name(command) {
                cli::wallpaper_command(command, rest)
            } else {
                Err(message)
            },
        }
    }
}

fn parse_raw_request(command: &str, rest: &Vec<String>, images: &TextMap<ImagePath>) -> (result:
    Result<Option<Request>, String>)
    ensures
        is_request(result, raw_request(command@, text::texts(rest@), images.raw())),
{
    if text_eq(command, "ping") {
        parse_ping(rest)
    } else if text_eq(command, "health") {
        parse_health(rest)
    } else if text_eq(command, "query") {
        parse_query(rest)
    } else if text_eq(command, "set") {
        parse_set(rest, images)
    } else if text_eq(command, "preload") {
        parse_preload(rest, images)
    } else if text_eq(command, "clear") {
        parse_clear(rest)
    } else if text_eq(command, "cache") {
        parse_cache(rest)
    } else if text_eq(command, "stop") {
        parse_stop(rest)
    } else if text_eq(command, "-h") || text_eq(command, "--help") {
        Ok(None)
    } else {
        Err(concat2("unknown command: ", command))
    }
}

/// What arguments ask of the daemon, and how the answer is printed. Nothing comes where
/// help is asked for.
pub fn build_command(args: &Vec<String>, images: &TextMap<ImagePath>) -> (result: Result<
    Option<BuiltCommand>,
    String,
>)
    requires
        args@.len() > 0,
    ensures
        cli::is_built(result, command_for(text::texts(args@), images.raw())),
{
    let command = args[0].as_str();
    let rest = after_first(args);
    assert(text::texts(args@)[0] == command@);
    if text_eq(command, "capabilities") {
        return parse_capabilities_command(&rest);
    }
    match parse_raw_request(command, &rest, images) {
        Ok(Some(request)) => Ok(Some(BuiltCommand { request, print_mode: PrintMode::RawJson })),
        Ok(None) => Ok(None),
        Err(message) => if is_wallpaper_command(command) {
            parse_wallpaper_command(command, &rest)
        } else {
            Err(message)
        },
    }
}

} // verus!
