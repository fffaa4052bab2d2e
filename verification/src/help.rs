//! The help that the program prints.

use crate::text::{concat3, copy_text, text_eq};
use vstd::prelude::*;

verus! {

/// The help of the program.
pub open spec fn general_help() -> Seq<char> {
    "muralctl\n\nUSAGE:\n    muralctl [--socket PATH] [--timeout-ms MS] COMMAND [ARGS]\n\nGLOBAL OPTIONS:\n    --socket PATH      Connect to PATH instead of the default mural socket\n    --timeout-ms MS    Give up if the daemon does not respond within MS milliseconds (default: 30000)\n    -V, --version      Print the Mural version and exit\n\nCOMMANDS:\n    next         Show the next wallpaper set\n    back         Show the previous wallpaper set\n    shift        Slide wallpapers forward/backward by one output\n    replace      Replace one current output wallpaper\n    quarantine   Move one current wallpaper to quarantine and replace it\n    favorite     Mark one current wallpaper as favorite\n    unfavorite   Remove one current wallpaper from favorites\n    favorites    List favorite wallpapers\n    current      Show current wallpaper rows\n    rescan       Rescan the top-level wallpaper directory\n    cache        Inspect or warm the canvas thumbnail cache\n    world        Inspect virtual world cache state\n    capabilities Show protocol and compiled-in transition capabilities\n    ping         Check daemon health\n    health       Print supervisor and renderer health as JSON\n    query        Print daemon state as JSON\n    set          Set one or more output image paths\n    preload      Validate paths only; cache warming is handled by `cache warm`\n    clear        Clear known outputs to a color\n    stop         Ask the daemon to exit\n\nRun `muralctl COMMAND --help` for command-specific help."@
}

/// The help of the program.
pub fn help_text() -> (text: String)
    ensures
        text@ == general_help(),
{
    copy_text("muralctl\n\nUSAGE:\n    muralctl [--socket PATH] [--timeout-ms MS] COMMAND [ARGS]\n\nGLOBAL OPTIONS:\n    --socket PATH      Connect to PATH instead of the default mural socket\n    --timeout-ms MS    Give up if the daemon does not respond within MS milliseconds (default: 30000)\n    -V, --version      Print the Mural version and exit\n\nCOMMANDS:\n    next         Show the next wallpaper set\n    back         Show the previous wallpaper set\n    shift        Slide wallpapers forward/backward by one output\n    replace      Replace one current output wallpaper\n    quarantine   Move one current wallpaper to quarantine and replace it\n    favorite     Mark one current wallpaper as favorite\n    unfavorite   Remove one current wallpaper from favorites\n    favorites    List favorite wallpapers\n    current      Show current wallpaper rows\n    rescan       Rescan the top-level wallpaper directory\n    cache        Inspect or warm the canvas thumbnail cache\n    world        Inspect virtual world cache state\n    capabilities Show protocol and compiled-in transition capabilities\n    ping         Check daemon health\n    health       Print supervisor and renderer health as JSON\n    query        Print daemon state as JSON\n    set          Set one or more output image paths\n    preload      Validate paths only; cache warming is handled by `cache warm`\n    clear        Clear known outputs to a color\n    stop         Ask the daemon to exit\n\nRun `muralctl COMMAND --help` for command-specific help.")
}

/// The help of `capabilities`.
pub open spec fn capabilities_help() -> Seq<char> {
    "USAGE:\n    muralctl capabilities [--json]\n\nShow the daemon protocol version and compiled-in transition schemas."@
}

/// The help of `capabilities`.
pub fn capabilities_help_text() -> (text: String)
    ensures
        text@ == capabilities_help(),
{
    copy_text("USAGE:\n    muralctl capabilities [--json]\n\nShow the daemon protocol version and compiled-in transition schemas.")
}

/// The help of `set`.
pub open spec fn set_help() -> Seq<char> {
    "USAGE:\n    muralctl set --output NAME PATH [OPTIONS]\n    muralctl set --output NAME=PATH [--output NAME=PATH ...] [OPTIONS]\n\nOPTIONS:\n    -o, --output NAME PATH     Output/image pair\n    -o, --output NAME=PATH     Output/image pair\n    -t, --transition NAME      cut, fade, world, push:up, push:down, push:left, push:right\n        --duration-ms MS       Transition duration in milliseconds\n        --easing NAME          linear, ease-out-cubic, ease-in-out-cubic\n        --mode NAME            portal, screen, pan\n        --scale-mode NAME      fill, fit, center, stretch\n        --allow-partial        Request partial success for future renderer support\n        --socket PATH          Override the daemon socket path\n        --timeout-ms MS        Override the daemon response timeout\n\nCanvas still requires wallpaper action history; use next/back/shift/replace/quarantine for canvas."@
}

/// The help of `set`.
pub fn set_help_text() -> (text: String)
    ensures
        text@ == set_help(),
{
    copy_text("USAGE:\n    muralctl set --output NAME PATH [OPTIONS]\n    muralctl set --output NAME=PATH [--output NAME=PATH ...] [OPTIONS]\n\nOPTIONS:\n    -o, --output NAME PATH     Output/image pair\n    -o, --output NAME=PATH     Output/image pair\n    -t, --transition NAME      cut, fade, world, push:up, push:down, push:left, push:right\n        --duration-ms MS       Transition duration in milliseconds\n        --easing NAME          linear, ease-out-cubic, ease-in-out-cubic\n        --mode NAME            portal, screen, pan\n        --scale-mode NAME      fill, fit, center, stretch\n        --allow-partial        Request partial success for future renderer support\n        --socket PATH          Override the daemon socket path\n        --timeout-ms MS        Override the daemon response timeout\n\nCanvas still requires wallpaper action history; use next/back/shift/replace/quarantine for canvas.")
}

/// The help of `cache`.
pub open spec fn cache_help() -> Seq<char> {
    "USAGE:\n    muralctl cache status [--json]\n    muralctl cache warm [--scope current|all] [--workers N] [--backend auto|vips|internal] [--json]\n    muralctl cache clear [--json]\n\nCanvas cache warming is nonblocking; the daemon schedules thumbnail work and returns immediately."@
}

/// The help of `cache`.
pub fn cache_help_text() -> (text: String)
    ensures
        text@ == cache_help(),
{
    copy_text("USAGE:\n    muralctl cache status [--json]\n    muralctl cache warm [--scope current|all] [--workers N] [--backend auto|vips|internal] [--json]\n    muralctl cache clear [--json]\n\nCanvas cache warming is nonblocking; the daemon schedules thumbnail work and returns immediately.")
}

/// The help of `world`.
pub open spec fn world_help() -> Seq<char> {
    "USAGE:\n    muralctl world cache COMMAND [OPTIONS]\n\nRun `muralctl world cache --help` for cache commands."@
}

/// The help of `world`.
pub fn world_help_text() -> (text: String)
    ensures
        text@ == world_help(),
{
    copy_text("USAGE:\n    muralctl world cache COMMAND [OPTIONS]\n\nRun `muralctl world cache --help` for cache commands.")
}

/// The help of `world cache`.
pub open spec fn world_cache_help() -> Seq<char> {
    "USAGE:\n    muralctl world cache status [--json]\n    muralctl world cache index [--json]\n    muralctl world cache failures [--json]\n    muralctl world cache compute --scope all [--dry-run] [--background] [--limit N] [--tile-limit N] [--workers N] [--progress] [--json]\n    muralctl world cache compute --scope route --from PATH --to PATH [--dry-run] [--background] [--tile-limit N] [--workers N] [--progress] [--json]\n    muralctl world cache compute --scope route --route FROM TO [--route FROM TO ...] [--dry-run] [--background] [--tile-limit N] [--workers N] [--progress] [--json]\n    muralctl world cache compute --scope neighborhood --center PATH [--center PATH ...] [--radius N] [--lod N] [--dry-run] [--background] [--tile-limit N] [--workers N] [--progress] [--json]\n\nWorld cache commands run offline and do not require a running murald daemon."@
}

/// The help of `world cache`.
pub fn world_cache_help_text() -> (text: String)
    ensures
        text@ == world_cache_help(),
{
    copy_text("USAGE:\n    muralctl world cache status [--json]\n    muralctl world cache index [--json]\n    muralctl world cache failures [--json]\n    muralctl world cache compute --scope all [--dry-run] [--background] [--limit N] [--tile-limit N] [--workers N] [--progress] [--json]\n    muralctl world cache compute --scope route --from PATH --to PATH [--dry-run] [--background] [--tile-limit N] [--workers N] [--progress] [--json]\n    muralctl world cache compute --scope route --route FROM TO [--route FROM TO ...] [--dry-run] [--background] [--tile-limit N] [--workers N] [--progress] [--json]\n    muralctl world cache compute --scope neighborhood --center PATH [--center PATH ...] [--radius N] [--lod N] [--dry-run] [--background] [--tile-limit N] [--workers N] [--progress] [--json]\n\nWorld cache commands run offline and do not require a running murald daemon.")
}

/// The help of `health`.
pub open spec fn health_help() -> Seq<char> {
    "USAGE:\n    muralctl health [--json]\n\nPrint supervisor and renderer health as JSON."@
}

/// The help of `health`.
pub fn health_help_text() -> (text: String)
    ensures
        text@ == health_help(),
{
    copy_text("USAGE:\n    muralctl health [--json]\n\nPrint supervisor and renderer health as JSON.")
}

/// The help of `ping`.
pub open spec fn ping_help() -> Seq<char> {
    "USAGE:\n    muralctl ping [--socket PATH] [--timeout-ms MS]"@
}

/// The help of `ping`.
pub fn ping_help_text() -> (text: String)
    ensures
        text@ == ping_help(),
{
    copy_text("USAGE:\n    muralctl ping [--socket PATH] [--timeout-ms MS]")
}

/// The help of `query`.
pub open spec fn query_help() -> Seq<char> {
    "USAGE:\n    muralctl query [--json] [--socket PATH] [--timeout-ms MS]"@
}

/// The help of `query`.
pub fn query_help_text() -> (text: String)
    ensures
        text@ == query_help(),
{
    copy_text("USAGE:\n    muralctl query [--json] [--socket PATH] [--timeout-ms MS]")
}

/// The help of `preload`.
pub open spec fn preload_help() -> Seq<char> {
    "USAGE:\n    muralctl preload --output NAME PATH [--output NAME=PATH ...] [--socket PATH] [--timeout-ms MS]"@
}

/// The help of `preload`.
pub fn preload_help_text() -> (text: String)
    ensures
        text@ == preload_help(),
{
    copy_text("USAGE:\n    muralctl preload --output NAME PATH [--output NAME=PATH ...] [--socket PATH] [--timeout-ms MS]")
}

/// The help of `clear`.
pub open spec fn clear_help() -> Seq<char> {
    "USAGE:\n    muralctl clear [--output NAME ...] [--color #000000] [--socket PATH] [--timeout-ms MS]"@
}

/// The help of `clear`.
pub fn clear_help_text() -> (text: String)
    ensures
        text@ == clear_help(),
{
    copy_text("USAGE:\n    muralctl clear [--output NAME ...] [--color #000000] [--socket PATH] [--timeout-ms MS]")
}

/// The help of `stop`.
pub open spec fn stop_help() -> Seq<char> {
    "USAGE:\n    muralctl stop [--socket PATH] [--timeout-ms MS]"@
}

/// The help of `stop`.
pub fn stop_help_text() -> (text: String)
    ensures
        text@ == stop_help(),
{
    copy_text("USAGE:\n    muralctl stop [--socket PATH] [--timeout-ms MS]")
}

/// The options for moving over a canvas, and what a wallpaper command takes otherwise.
pub open spec fn canvas_options() -> Seq<char> {
    "[--canvas-zoom-out-ms MS] [--canvas-pan-ms MS] [--canvas-zoom-in-ms MS] [--canvas-walk paged|strip] [--canvas-pan-axis auto|horizontal|vertical] [--canvas-overview-scale SCALE] [--canvas-tile-count auto|N] [--canvas-max-tile-count N]"@
}

/// Where the defaults come from, and what the options take.
pub open spec fn defaults_note() -> Seq<char> {
    "Defaults are read by murald from its config file unless overridden here.\n\n--transition accepts cut, fade, world, push:DIR, or canvas. --mode selects portal|screen|pan for push transitions, or clipped|morph|overlap|collage|span for canvas transitions. --canvas-walk selects paged row/column canvas order or the older centered strip walk. Canvas modes collage and span require --canvas-walk strip."@
}

/// The help of a command that changes wallpapers, after the words that it starts with.
pub open spec fn change_help(start: Seq<char>) -> Seq<char> {
    start
        + " [--json] [--transition NAME] [--duration-ms MS] [--easing NAME] [--mode NAME] "@
        + canvas_options() + " [--scale-mode NAME]\n\n"@ + defaults_note()
}

fn change_help_text(start: &str) -> (text: String)
    ensures
        text@ == change_help(start@),
{
    let options = concat3(
        start,
        " [--json] [--transition NAME] [--duration-ms MS] [--easing NAME] [--mode NAME] ",
        "[--canvas-zoom-out-ms MS] [--canvas-pan-ms MS] [--canvas-zoom-in-ms MS] [--canvas-walk paged|strip] [--canvas-pan-axis auto|horizontal|vertical] [--canvas-overview-scale SCALE] [--canvas-tile-count auto|N] [--canvas-max-tile-count N]",
    );
    concat3(
        &options,
        " [--scale-mode NAME]\n\n",
        "Defaults are read by murald from its config file unless overridden here.\n\n--transition accepts cut, fade, world, push:DIR, or canvas. --mode selects portal|screen|pan for push transitions, or clipped|morph|overlap|collage|span for canvas transitions. --canvas-walk selects paged row/column canvas order or the older centered strip walk. Canvas modes collage and span require --canvas-walk strip.",
    )
}

/// The help of a wallpaper command.
pub open spec fn wallpaper_help(command: Seq<char>) -> Seq<char> {
    if command == "next"@ {
        change_help("USAGE:\n    muralctl next"@)
    } else if command == "back"@ {
        change_help("USAGE:\n    muralctl back"@)
    } else if command == "shift"@ || command == "shift-forward"@ || command == "shift-back"@ {
        change_help("USAGE:\n    muralctl shift [forward|back]"@)
    } else if command == "replace"@ {
        change_help("USAGE:\n    muralctl replace INDEX"@)
    } else if command == "quarantine"@ || command == "quarentine"@ {
        change_help("USAGE:\n    muralctl quarantine INDEX"@)
    } else if command == "favorite"@ {
        "USAGE:\n    muralctl favorite INDEX [--json]"@
    } else if command == "unfavorite"@ {
        "USAGE:\n    muralctl unfavorite INDEX [--json]"@
    } else if command == "favorites"@ {
        "USAGE:\n    muralctl favorites [--json]"@
    } else if command == "current"@ {
        "USAGE:\n    muralctl current [--json]"@
    } else if command == "rescan"@ {
        "USAGE:\n    muralctl rescan [--json]"@
    } else {
        general_help()
    }
}

/// The help of a wallpaper command.
pub fn wallpaper_help_text(command: &str) -> (text: String)
    ensures
        text@ == wallpaper_help(command@),
{
    if text_eq(command, "next") {
        change_help_text("USAGE:\n    muralctl next")
    } else if text_eq(command, "back") {
        change_help_text("USAGE:\n    muralctl back")
    } else if text_eq(command, "shift") || text_eq(command, "shift-forward") || text_eq(command, "shift-back") {
        change_help_text("USAGE:\n    muralctl shift [forward|back]")
    } else if text_eq(command, "replace") {
        change_help_text("USAGE:\n    muralctl replace INDEX")
    } else if text_eq(command, "quarantine") || text_eq(command, "quarentine") {
        change_help_text("USAGE:\n    muralctl quarantine INDEX")
    } else if text_eq(command, "favorite") {
        copy_text("USAGE:\n    muralctl favorite INDEX [--json]")
    } else if text_eq(command, "unfavorite") {
        copy_text("USAGE:\n    muralctl unfavorite INDEX [--json]")
    } else if text_eq(command, "favorites") {
        copy_text("USAGE:\n    muralctl favorites [--json]")
    } else if text_eq(command, "current") {
        copy_text("USAGE:\n    muralctl current [--json]")
    } else if text_eq(command, "rescan") {
        copy_text("USAGE:\n    muralctl rescan [--json]")
    } else {
        help_text()
    }
}

/// The help of a command.
pub open spec fn command_help(command: Seq<char>) -> Seq<char> {
    if command == "capabilities"@ {
        capabilities_help()
    } else if command == "set"@ {
        set_help()
    } else if command == "cache"@ {
        cache_help()
    } else if command == "health"@ {
        health_help()
    } else if command == "ping"@ {
        ping_help()
    } else if command == "query"@ {
        query_help()
    } else if command == "preload"@ {
        preload_help()
    } else if command == "clear"@ {
        clear_help()
    } else if command == "stop"@ {
        stop_help()
    } else {
        wallpaper_help(command)
    }
}

/// The help of a command.
pub fn command_help_text(command: &str) -> (text: String)
    ensures
        text@ == command_help(command@),
{
    if text_eq(command, "capabilities") {
        capabilities_help_text()
    } else if text_eq(command, "set") {
        set_help_text()
    } else if text_eq(command, "cache") {
        cache_help_text()
    } else if text_eq(command, "health") {
        health_help_text()
    } else if text_eq(command, "ping") {
        ping_help_text()
    } else if text_eq(command, "query") {
        query_help_text()
    } else if text_eq(command, "preload") {
        preload_help_text()
    } else if text_eq(command, "clear") {
        clear_help_text()
    } else if text_eq(command, "stop") {
        stop_help_text()
    } else {
        wallpaper_help_text(command)
    }
}

} // verus!
