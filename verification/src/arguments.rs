//! Reading single arguments of the command line.

use crate::protocol::{CanvasPanAxis, CanvasTileCount, MAX_CANVAS_TILE_COUNT};
use crate::scale::{read_scale, OverviewScale, ScaleReading};
use crate::text::{
    concat2, concat3, concat4, copy_text, decimal_u64, decimal_usize, parse_u64,
    parse_usize, text_eq, IntError,
};
use crate::textmap::TextMap;
use crate::error;
use crate::scale;
use crate::text;
use crate::textmap;
use vstd::prelude::*;

verus! {

/// How long to wait for the daemon, in milliseconds, unless told otherwise.
pub const DEFAULT_TIMEOUT: u64 = 30_000;

// ---------------------------------------------------------------------------
// Numbers

/// The message that a text is no number.
pub open spec fn no_number(what: Seq<char>, input: Seq<char>, error: IntError) -> Seq<char> {
    "invalid "@ + what + " "@ + input + ": "@ + error.spec_message()
}

fn not_a_number(what: &str, input: &str, error: IntError) -> (message: String)
    ensures
        message@ == no_number(what@, input@, error),
{
    concat3(concat4("invalid ", what, " ", input).as_str(), ": ", error.message())
}

/// The count that a text gives.
pub open spec fn count_in(input: Seq<char>, what: Seq<char>) -> Result<usize, Seq<char>> {
    match text::unsigned_value(input, usize::MAX as nat) {
        Err(error) => Err(no_number(what, input, error)),
        Ok(count) => Ok(count as usize),
    }
}

fn read_count(input: &str, what: &str) -> (result: Result<usize, String>)
    ensures
        error::agrees(result, count_in(input@, what@)),
{
    match parse_usize(input) {
        Err(error) => Err(not_a_number(what, input, error)),
        Ok(count) => Ok(count),
    }
}

/// The count above zero that a text gives.
pub open spec fn positive_count_in(input: Seq<char>, what: Seq<char>) -> Result<usize, Seq<char>> {
    match count_in(input, what) {
        Err(message) => Err(message),
        Ok(count) => if count == 0 {
            Err(what + " must be greater than zero"@)
        } else {
            Ok(count)
        },
    }
}

fn read_positive_count(input: &str, what: &str) -> (result: Result<usize, String>)
    ensures
        error::agrees(result, positive_count_in(input@, what@)),
{
    let count = read_count(input, what)?;
    if count == 0 {
        return Err(concat2(what, " must be greater than zero"));
    }
    Ok(count)
}

/// The duration in milliseconds that a text gives.
pub open spec fn duration_in(input: Seq<char>) -> Result<u64, Seq<char>> {
    match text::unsigned_value(input, u64::MAX as nat) {
        Err(error) => Err(no_number("duration"@, input, error)),
        Ok(duration) => if duration == 0 {
            Err("duration must be greater than zero"@)
        } else {
            Ok(duration as u64)
        },
    }
}

/// Reads a duration in milliseconds.
pub fn parse_duration(input: &str) -> (result: Result<u64, String>)
    ensures
        error::agrees(result, duration_in(input@)),
{
    match parse_u64(input) {
        Err(error) => Err(not_a_number("duration", input, error)),
        Ok(duration) => if duration == 0 {
            Err(copy_text("duration must be greater than zero"))
        } else {
            Ok(duration)
        },
    }
}

/// Reads a number of workers.
pub fn parse_cache_workers(input: &str) -> (result: Result<usize, String>)
    ensures
        error::agrees(result, positive_count_in(input@, "cache worker count"@)),
{
    read_positive_count(input, "cache worker count")
}

/// Reads a limit.
pub fn parse_positive_limit(input: &str) -> (result: Result<usize, String>)
    ensures
        error::agrees(result, positive_count_in(input@, "limit"@)),
{
    read_positive_count(input, "limit")
}

/// Reads a count.
pub fn parse_nonnegative_usize(input: &str) -> (result: Result<usize, String>)
    ensures
        error::agrees(result, count_in(input@, "integer"@)),
{
    read_count(input, "integer")
}

/// The number of tiles that a text gives.
pub open spec fn tiles_in(input: Seq<char>) -> Result<usize, Seq<char>> {
    match positive_count_in(input, "canvas tile count"@) {
        Err(message) => Err(message),
        Ok(count) => if count > MAX_CANVAS_TILE_COUNT {
            Err(
                "canvas tile count must be at most "@ + text::decimal_text(MAX_CANVAS_TILE_COUNT as nat),
            )
        } else {
            Ok(count)
        },
    }
}

/// Reads the greatest number of tiles of a canvas.
pub fn parse_canvas_max_tile_count(input: &str) -> (result: Result<usize, String>)
    ensures
        error::agrees(result, tiles_in(input@)),
{
    let count = read_positive_count(input, "canvas tile count")?;
    if count > MAX_CANVAS_TILE_COUNT {
        return Err(
            concat2(
                "canvas tile count must be at most ",
                decimal_usize(MAX_CANVAS_TILE_COUNT).as_str(),
            ),
        );
    }
    Ok(count)
}

/// The tile count that a text gives: a number, or the word that leaves it to the daemon.
pub open spec fn tile_count_in(input: Seq<char>) -> Result<CanvasTileCount, Seq<char>> {
    if input == "auto"@ {
        Ok(CanvasTileCount::Auto { max: None })
    } else {
        match tiles_in(input) {
            Err(message) => Err(message),
            Ok(count) => Ok(CanvasTileCount::Fixed(count)),
        }
    }
}

/// Reads the tile count of a canvas.
pub fn parse_canvas_tile_count(input: &str) -> (result: Result<CanvasTileCount, String>)
    ensures
        error::agrees(result, tile_count_in(input@)),
{
    if text_eq(input, "auto") {
        return Ok(CanvasTileCount::Auto { max: None });
    }
    let count = parse_canvas_max_tile_count(input)?;
    Ok(CanvasTileCount::Fixed(count))
}

/// The scale that a text gives.
pub open spec fn overview_scale_in(input: Seq<char>) -> Result<OverviewScale, Seq<char>> {
    match scale::scale_reading(input) {
        ScaleReading::Empty => Err(
            "invalid canvas overview scale "@ + input + ": "@
                + "cannot parse float from empty string"@,
        ),
        ScaleReading::Invalid => Err(
            "invalid canvas overview scale "@ + input + ": "@ + "invalid float literal"@,
        ),
        ScaleReading::OutOfRange => Err(
            "canvas overview scale must be greater than 0 and at most 1"@,
        ),
        ScaleReading::Scale(scale) => Ok(scale),
    }
}

/// Reads the scale of a canvas overview.
pub fn parse_canvas_overview_scale(input: &str) -> (result: Result<OverviewScale, String>)
    ensures
        error::agrees(result, overview_scale_in(input@)),
{
    match read_scale(input) {
        ScaleReading::Empty => Err(
            concat4(
                "invalid canvas overview scale ",
                input,
                ": ",
                "cannot parse float from empty string",
            ),
        ),
        ScaleReading::Invalid => Err(
            concat4("invalid canvas overview scale ", input, ": ", "invalid float literal"),
        ),
        ScaleReading::OutOfRange => Err(
            copy_text("canvas overview scale must be greater than 0 and at most 1"),
        ),
        ScaleReading::Scale(scale) => Ok(scale),
    }
}

/// Reads the axis along which a canvas pans.
pub fn parse_canvas_pan_axis(input: &str) -> (result: Result<CanvasPanAxis, String>)
    ensures
        error::agrees(result, CanvasPanAxis::named(input@)),
{
    match CanvasPanAxis::parse(input) {
        Ok(axis) => Ok(axis),
        Err(error) => Err(error.to_text()),
    }
}

/// Whether a spelling is one of the canvas transition.
pub open spec fn is_canvas_token(input: Seq<char>) -> bool {
    ||| input == "canvas"@
    ||| input == "canvas:auto"@
    ||| input == "canvas:horizontal"@
    ||| input == "canvas:vertical"@
}

/// Whether a spelling is one of the canvas transition.
pub fn is_canvas_transition_token(input: &str) -> (result: bool)
    ensures
        result == is_canvas_token(input@),
{
    text_eq(input, "canvas") || text_eq(input, "canvas:auto") || text_eq(
        input,
        "canvas:horizontal",
    ) || text_eq(input, "canvas:vertical")
}

// ---------------------------------------------------------------------------
// Lists of arguments

/// Whether help is asked for.
pub open spec fn asks_help(args: Seq<Seq<char>>) -> bool {
    args.contains("-h"@) || args.contains("--help"@)
}

/// Checks that there is no argument.
pub open spec fn no_args(args: Seq<Seq<char>>, command: Seq<char>) -> Result<(), Seq<char>> {
    if args.len() == 0 {
        Ok(())
    } else {
        Err(command + " does not accept argument: "@ + args[0])
    }
}

/// Checks that there is no argument.
pub fn require_no_args(args: &Vec<String>, command_name: &str) -> (result: Result<(), String>)
    ensures
        error::agrees(result, no_args(text::texts(args@), command_name@)),
{
    assert(text::texts(args@).len() == args@.len());
    if args.len() == 0 {
        Ok(())
    } else {
        Err(concat3(command_name, " does not accept argument: ", args[0].as_str()))
    }
}

/// Checks the number of arguments that are no options.
pub open spec fn count_check(command: Seq<char>, list: Seq<Seq<char>>, count: nat) -> Result<
    (),
    Seq<char>,
> {
    if list.len() == count {
        Ok(())
    } else {
        Err(
            command + " expects "@ + text::decimal_text(count) + " positional argument(s), got "@
                + text::decimal_text(list.len()),
        )
    }
}

/// Checks the number of arguments that are no options.
pub fn require_positional_count(command: &str, positionals: &Vec<String>, count: usize) -> (result:
    Result<(), String>)
    ensures
        error::agrees(result, count_check(command@, text::texts(positionals@), count as nat)),
{
    assert(text::texts(positionals@).len() == positionals@.len());
    if positionals.len() == count {
        Ok(())
    } else {
        Err(
            concat2(
                concat4(
                    command,
                    " expects ",
                    decimal_usize(count).as_str(),
                    " positional argument(s), got ",
                ).as_str(),
                decimal_usize(positionals.len()).as_str(),
            ),
        )
    }
}

/// The index that is the only argument.
pub open spec fn single_index(command: Seq<char>, list: Seq<Seq<char>>) -> Result<
    usize,
    Seq<char>,
> {
    match count_check(command, list, 1) {
        Err(message) => Err(message),
        Ok(_) => match text::unsigned_value(list[0], usize::MAX as nat) {
            Err(error) => Err(
                command + " requires a 0-based integer index: "@ + error.spec_message(),
            ),
            Ok(index) => Ok(index as usize),
        },
    }
}

/// Reads the index that is the only argument.
pub fn parse_single_index(command: &str, positionals: &Vec<String>) -> (result: Result<
    usize,
    String,
>)
    ensures
        error::agrees(result, single_index(command@, text::texts(positionals@))),
{
    require_positional_count(command, positionals, 1)?;
    assert(text::texts(positionals@).len() == positionals@.len());
    match parse_usize(positionals[0].as_str()) {
        Err(error) => Err(
            concat3(command, " requires a 0-based integer index: ", error.message()),
        ),
        Ok(index) => Ok(index),
    }
}

/// Whether a flag is given, where there can be no other argument.
pub open spec fn flag_in(args: Seq<Seq<char>>, command: Seq<char>, flag: Seq<char>) -> Result<
    bool,
    Seq<char>,
>
    decreases args.len(),
{
    if args.len() == 0 {
        Ok(false)
    } else {
        match flag_in(args.drop_last(), command, flag) {
            Err(message) => Err(message),
            Ok(_) => if args.last() == flag {
                Ok(true)
            } else {
                Err(command + " does not accept argument: "@ + args.last())
            },
        }
    }
}

proof fn lemma_flag_error_stays(
    args: Seq<Seq<char>>,
    command: Seq<char>,
    flag: Seq<char>,
    n: int,
)
    requires
        0 <= n <= args.len(),
        flag_in(args.take(n), command, flag) is Err,
    ensures
        flag_in(args, command, flag) == flag_in(args.take(n), command, flag),
    decreases args.len() - n,
{
    if n == args.len() {
        assert(args.take(n) =~= args);
    } else {
        assert(args.take(n + 1).drop_last() =~= args.take(n));
        lemma_flag_error_stays(args, command, flag, n + 1);
    }
}

/// Whether a flag is given, where there can be no other argument.
pub fn parse_flag_only(args: &Vec<String>, command: &str, flag: &str) -> (result: Result<
    bool,
    String,
>)
    ensures
        error::agrees(result, flag_in(text::texts(args@), command@, flag@)),
{
    let ghost all = text::texts(args@);
    let mut found = false;
    let mut i: usize = 0;
    assert(all.take(0) =~= Seq::<Seq<char>>::empty());
    while i < args.len()
        invariant
            i <= args@.len(),
            all == text::texts(args@),
            flag_in(all.take(i as int), command@, flag@) == Ok::<bool, Seq<char>>(found),
        decreases args@.len() - i,
    {
        proof {
            assert(all.take(i + 1).drop_last() =~= all.take(i as int));
            assert(all.take(i + 1).last() == args@[i as int]@);
        }
        if !text_eq(args[i].as_str(), flag) {
            proof {
                lemma_flag_error_stays(all, command@, flag@, i + 1);
            }
            return Err(concat3(command, " does not accept argument: ", args[i].as_str()));
        }
        found = true;
        i = i + 1;
    }
    assert(all.take(i as int) =~= all);
    Ok(found)
}

// ---------------------------------------------------------------------------
// Options of every command

/// The time to wait that a text gives.
pub open spec fn timeout_in(value: Seq<char>) -> Result<u64, Seq<char>> {
    match text::unsigned_value(value, u64::MAX as nat) {
        Err(_) => Err("--timeout-ms must be a positive integer: "@ + value),
        Ok(millis) => if millis == 0 {
            Err("--timeout-ms must be greater than zero"@)
        } else {
            Ok(millis as u64)
        },
    }
}

/// Reads the time to wait, in milliseconds.
pub fn parse_timeout_ms(value: &str) -> (result: Result<u64, String>)
    ensures
        error::agrees(result, timeout_in(value@)),
{
    match parse_u64(value) {
        Err(_) => Err(concat2("--timeout-ms must be a positive integer: ", value)),
        Ok(millis) => if millis == 0 {
            Err(copy_text("--timeout-ms must be greater than zero"))
        } else {
            Ok(millis)
        },
    }
}

/// The socket, the time to wait, and the other arguments.
pub struct GlobalsView {
    pub socket: Option<Seq<char>>,
    pub timeout: u64,
    pub rest: Seq<Seq<char>>,
}

/// The options of every command among the arguments from one on, beside what was found
/// before it.
pub open spec fn globals_from(args: Seq<Seq<char>>, index: int, found: GlobalsView) -> Result<
    GlobalsView,
    Seq<char>,
>
    decreases args.len() - index,
{
    if index >= args.len() {
        Ok(found)
    } else if args[index] == "--socket"@ {
        if index + 1 >= args.len() {
            Err("--socket requires a path"@)
        } else {
            globals_from(
                args,
                index + 2,
                GlobalsView { socket: Some(args[index + 1]), ..found },
            )
        }
    } else if args[index] == "--timeout-ms"@ {
        if index + 1 >= args.len() {
            Err("--timeout-ms requires a value"@)
        } else {
            match timeout_in(args[index + 1]) {
                Err(message) => Err(message),
                Ok(timeout) => globals_from(args, index + 2, GlobalsView { timeout, ..found }),
            }
        }
    } else {
        globals_from(
            args,
            index + 1,
            GlobalsView { rest: found.rest.push(args[index]), ..found },
        )
    }
}

/// Takes the options of every command out of the arguments: the socket, the time to wait
/// in milliseconds, and the other arguments in their order.
pub fn extract_global_options(args: Vec<String>) -> (result: Result<
    (Option<String>, u64, Vec<String>),
    String,
>)
    ensures
        match (
            result,
            globals_from(
                text::texts(args@),
                0,
                (GlobalsView { socket: None, timeout: DEFAULT_TIMEOUT, rest: Seq::empty() }),
            ),
        ) {
            (Ok(found), Ok(expected)) => {
                &&& text::text_if(found.0) == expected.socket
                &&& found.1 == expected.timeout
                &&& text::texts(found.2@) == expected.rest
            },
            (Err(message), Err(expected)) => message@ == expected,
            _ => false,
        },
{
    let ghost all = text::texts(args@);
    let ghost wanted = globals_from(
        all,
        0,
        (GlobalsView { socket: None, timeout: DEFAULT_TIMEOUT, rest: Seq::empty() }),
    );
    let mut socket: Option<String> = None;
    let mut timeout: u64 = DEFAULT_TIMEOUT;
    let mut rest: Vec<String> = Vec::new();
    let mut i: usize = 0;
    assert(text::texts(rest@) =~= Seq::<Seq<char>>::empty());
    while i < args.len()
        invariant
            i <= args@.len(),
            all == text::texts(args@),
            all.len() == args@.len(),
            wanted == globals_from(
                all,
                0,
                (GlobalsView { socket: None, timeout: DEFAULT_TIMEOUT, rest: Seq::empty() }),
            ),
            wanted == globals_from(
                all,
                i as int,
                (GlobalsView { socket: text::text_if(socket), timeout, rest: text::texts(rest@) }),
            ),
        decreases args@.len() - i,
    {
        let arg = args[i].as_str();
        assert(all[i as int] == arg@);
        if text_eq(arg, "--socket") {
            if args.len() - i < 2 {
                return Err(copy_text("--socket requires a path"));
            }
            socket = Some(copy_text(args[i + 1].as_str()));
            assert(all[i + 1] == args@[i + 1]@);
            i = i + 2;
        } else if text_eq(arg, "--timeout-ms") {
            if args.len() - i < 2 {
                return Err(copy_text("--timeout-ms requires a value"));
            }
            assert(all[i + 1] == args@[i + 1]@);
            timeout = parse_timeout_ms(args[i + 1].as_str())?;
            i = i + 2;
        } else {
            let ghost before = text::texts(rest@);
            rest.push(copy_text(arg));
            assert(text::texts(rest@) =~= before.push(arg@));
            i = i + 1;
        }
    }
    Ok((socket, timeout, rest))
}

/// A duration in words: in seconds where that is exact and not zero, else in
/// milliseconds.
pub open spec fn duration_text(millis: u64) -> Seq<char> {
    if millis >= 1000 && millis % 1000 == 0 {
        text::decimal_text((millis / 1000) as nat) + "s"@
    } else {
        text::decimal_text(millis as nat) + "ms"@
    }
}

/// A duration in words.
pub fn format_duration(millis: u64) -> (text: String)
    ensures
        text@ == duration_text(millis),
{
    if millis >= 1000 && millis % 1000 == 0 {
        concat2(decimal_u64(millis / 1000).as_str(), "s")
    } else {
        concat2(decimal_u64(millis).as_str(), "ms")
    }
}

// ---------------------------------------------------------------------------
// Images

/// What is known of the path of an image.
#[derive(Clone, Debug, PartialEq, Eq)]
pub enum ImagePath {
    /// It leads to a file, with this path.
    File(String),
    /// It leads to something else, with this path.
    NotFile(String),
    /// It leads to a file whose path is no text.
    NotText,
    /// It leads nowhere, and why.
    Unresolved(String),
}

/// The path of an image in full, or why there is none. Of a path that was not looked up
/// nothing is known.
pub open spec fn image_in(images: Seq<(Seq<char>, ImagePath)>, path: Seq<char>) -> Result<
    Seq<char>,
    Seq<char>,
> {
    match textmap::entries_get(images, path) {
        Some(ImagePath::File(full)) => Ok(full@),
        Some(ImagePath::NotFile(full)) => Err("image path is not a file: "@ + full@),
        Some(ImagePath::NotText) => Err("image path is not valid UTF-8: "@ + path),
        Some(ImagePath::Unresolved(error)) => Err(
            "failed to resolve image path "@ + path + ": "@ + error@,
        ),
        None => Err("failed to resolve image path "@ + path + ": "@ + "not looked up"@),
    }
}

/// The path of an image in full, or why there is none.
pub fn canonical_image_path(images: &TextMap<ImagePath>, path: &str) -> (result: Result<
    String,
    String,
>)
    ensures
        error::agrees_view(result, image_in(images.raw(), path@)),
{
    match images.get(path) {
        Some(known) => match known {
            ImagePath::File(full) => Ok(copy_text(full.as_str())),
            ImagePath::NotFile(full) => Err(concat2("image path is not a file: ", full.as_str())),
            ImagePath::NotText => Err(concat2("image path is not valid UTF-8: ", path)),
            ImagePath::Unresolved(error) => Err(
                concat4("failed to resolve image path ", path, ": ", error.as_str()),
            ),
        },
        None => Err(concat4("failed to resolve image path ", path, ": ", "not looked up")),
    }
}

} // verus!
