//! What the command line asks of the daemon, the daemon understands.

use crate::arguments::ImagePath;
use crate::cli::{CanvasSettings, CliView};
use crate::commands::{PairsView, SetOptionsView};
use crate::protocol::{
    CacheAction, CacheBackend, CacheWarmScope, CanvasTileCount, Transition, MAX_CANVAS_TILE_COUNT,
};
use crate::request::{RequestView, WallpaperRequest};
use crate::arguments;
use crate::cli;
use crate::commands;
use crate::json;
use crate::protocol;
use crate::request;
use crate::request_law;
use crate::scale;
use crate::text;
use crate::textmap;
use vstd::prelude::*;

verus! {

// ---------------------------------------------------------------------------
// Outputs with images

/// Whether the images that were found have paths.
pub open spec fn found_images(images: Seq<(Seq<char>, ImagePath)>) -> bool {
    forall|i: int|
        0 <= i < images.len() ==> ((#[trigger] images[i]).1 matches ImagePath::File(full)
            ==> full@.len() > 0)
}

/// Whether neither a name nor a path is empty.
spec fn filled(outputs: Seq<(Seq<char>, Seq<char>)>) -> bool {
    forall|i: int|
        0 <= i < outputs.len() ==> (#[trigger] outputs[i]).0.len() > 0 && outputs[i].1.len() > 0
}

spec fn sound_pairs(outputs: Seq<(Seq<char>, Seq<char>)>) -> bool {
    textmap::keys_ascending(outputs) && filled(outputs)
}

proof fn lemma_image(images: Seq<(Seq<char>, ImagePath)>, path: Seq<char>)
    requires
        found_images(images),
    ensures
        arguments::image_in(images, path) matches Ok(full) ==> full.len() > 0,
    decreases images.len(),
{
    if images.len() > 0 {
        let tail = images.drop_first();
        assert forall|i: int| 0 <= i < tail.len() implies ((
        #[trigger] tail[i]).1 matches ImagePath::File(full) ==> full@.len() > 0) by {
            assert(tail[i] == images[i + 1]);
        }
        lemma_image(tail, path);
        assert(images[0].1 matches ImagePath::File(full) ==> full@.len() > 0);
    }
}

proof fn lemma_insert_filled(
    outputs: Seq<(Seq<char>, Seq<char>)>,
    name: Seq<char>,
    path: Seq<char>,
)
    requires
        filled(outputs),
        name.len() > 0,
        path.len() > 0,
    ensures
        filled(textmap::entries_insert(outputs, name, path)),
    decreases outputs.len(),
{
    let all = textmap::entries_insert(outputs, name, path);
    if outputs.len() > 0 {
        let tail = outputs.drop_first();
        assert forall|i: int| 0 <= i < tail.len() implies (#[trigger] tail[i]).0.len() > 0
            && tail[i].1.len() > 0 by {
            assert(tail[i] == outputs[i + 1]);
        }
        lemma_insert_filled(tail, name, path);
        let inserted = textmap::entries_insert(tail, name, path);
        assert forall|i: int| 0 <= i < all.len() implies (#[trigger] all[i]).0.len() > 0
            && all[i].1.len() > 0 by {
            assert(all[i] == (name, path) || all[i] == outputs[i] || all[i] == outputs[i - 1]
                || all[i] == inserted[i - 1]);
        }
    }
}

proof fn lemma_inserted(
    outputs: Seq<(Seq<char>, Seq<char>)>,
    name: Seq<char>,
    path: Seq<char>,
    images: Seq<(Seq<char>, ImagePath)>,
)
    requires
        found_images(images),
        sound_pairs(outputs),
    ensures
        commands::output_inserted(outputs, name, path, images) matches Ok(next) ==> sound_pairs(
            next,
        ),
{
    lemma_image(images, path);
    if let Ok(full) = arguments::image_in(images, path) {
        if name.len() > 0 {
            lemma_insert_filled(outputs, name, full);
            textmap::lemma_insert_ascending(outputs, name, full);
        }
    }
}

proof fn lemma_output_option(
    args: Seq<Seq<char>>,
    index: int,
    pairs: PairsView,
    images: Seq<(Seq<char>, ImagePath)>,
)
    requires
        found_images(images),
        sound_pairs(pairs.outputs),
    ensures
        commands::output_option(args, index, pairs, images) matches Ok((_, next)) ==> sound_pairs(
            next.outputs,
        ),
{
    let value = args[index + 1];
    if let Some((name, path)) = text::split_at_first(value, '=') {
        lemma_inserted(pairs.outputs, name, path, images);
    }
    lemma_inserted(pairs.outputs, value, args[index + 2], images);
}

proof fn lemma_path_assigned(
    path: Seq<char>,
    pairs: PairsView,
    images: Seq<(Seq<char>, ImagePath)>,
)
    requires
        found_images(images),
        sound_pairs(pairs.outputs),
    ensures
        commands::path_assigned(path, pairs, images) matches Ok(next) ==> sound_pairs(next.outputs),
{
    if let Some(name) = pairs.pending {
        lemma_inserted(pairs.outputs, name, path, images);
    }
}

proof fn lemma_pairs_from(
    args: Seq<Seq<char>>,
    index: int,
    command: Seq<char>,
    pairs: PairsView,
    images: Seq<(Seq<char>, ImagePath)>,
)
    requires
        found_images(images),
        sound_pairs(pairs.outputs),
    ensures
        commands::pairs_from(args, index, command, pairs, images) matches Ok(next) ==> sound_pairs(
            next.outputs,
        ),
    decreases args.len() - index,
{
    if index < args.len() {
        lemma_output_option(args, index, pairs, images);
        lemma_path_assigned(args[index], pairs, images);
        if args[index] == "-o"@ || args[index] == "--output"@ {
            if let Ok((next, pairs)) = commands::output_option(args, index, pairs, images) {
                lemma_pairs_from(args, next, command, pairs, images);
            }
        } else if let Ok(pairs) = commands::path_assigned(args[index], pairs, images) {
            lemma_pairs_from(args, index + 1, command, pairs, images);
        }
    }
}

proof fn lemma_set_from(
    args: Seq<Seq<char>>,
    index: int,
    o: SetOptionsView,
    images: Seq<(Seq<char>, ImagePath)>,
)
    requires
        found_images(images),
        sound_pairs(o.pairs.outputs),
    ensures
        commands::set_from(args, index, o, images) matches Ok(next) ==> sound_pairs(
            next.pairs.outputs,
        ),
    decreases args.len() - index,
{
    if index < args.len() {
        lemma_output_option(args, index, o.pairs, images);
        lemma_path_assigned(args[index], o.pairs, images);
        if args[index] == "-o"@ || args[index] == "--output"@ {
            if let Ok((next, pairs)) = commands::output_option(args, index, o.pairs, images) {
                lemma_set_from(args, next, SetOptionsView { pairs, ..o }, images);
            }
        } else if args[index] == "--allow-partial"@ {
            lemma_set_from(
                args,
                index + 1,
                SetOptionsView { allow_partial: true, ..o },
                images,
            );
        } else if commands::set_value_missing(args[index]) is Some {
            if index + 1 < args.len() {
                if let Ok(next) = commands::set_with(o, args[index], args[index + 1]) {
                    lemma_set_from(args, index + 2, next, images);
                }
            }
        } else if let Ok(pairs) = commands::path_assigned(args[index], o.pairs, images) {
            lemma_set_from(args, index + 1, SetOptionsView { pairs, ..o }, images);
        }
    }
}

// ---------------------------------------------------------------------------
// Transitions

spec fn sound_count(count: CanvasTileCount) -> bool {
    match count {
        CanvasTileCount::Auto { max: None } => true,
        CanvasTileCount::Auto { max: Some(max) } => 1 <= max <= MAX_CANVAS_TILE_COUNT,
        CanvasTileCount::Fixed(count) => 1 <= count <= MAX_CANVAS_TILE_COUNT,
    }
}

spec fn sound_canvas(canvas: CanvasSettings) -> bool {
    &&& canvas.out_ms > 0
    &&& canvas.pan_ms > 0
    &&& canvas.in_ms > 0
    &&& canvas.overview_scale.valid()
    &&& sound_count(canvas.tile_count)
}

spec fn sound_options(o: CliView) -> bool {
    &&& sound_canvas(o.canvas)
    &&& o.transition matches Some(transition) ==> sound_transition(transition)
}

/// Whether a transition is valid, but for how small its scale may be.
spec fn sound_transition(transition: Transition) -> bool {
    keeps_scale(transition) ==> request_law::valid_transition(transition)
}

/// Whether the scale of a canvas transition, written with six decimals, is not zero.
pub open spec fn keeps_scale(transition: Transition) -> bool {
    transition matches Transition::Canvas { overview_scale, .. } ==> scale::scale_reading(
        scale::scale_text(overview_scale),
    ) is Scale
}

proof fn lemma_canvas_with(canvas: CanvasSettings, option: Seq<char>, value: Seq<char>)
    requires
        sound_canvas(canvas),
    ensures
        cli::canvas_with(canvas, option, value) matches Some(Ok(next)) ==> sound_canvas(next),
{
    scale::lemma_scale_reading_valid(value);
}

proof fn lemma_transition_with(o: CliView, token: Seq<char>)
    requires
        sound_options(o),
    ensures
        cli::transition_with(token, o.duration_ms, o.easing, o.mode, o.canvas) matches Ok(
            transition,
        ) ==> sound_transition(transition),
{
}

proof fn lemma_cli_from(args: Seq<Seq<char>>, index: int, o: CliView)
    requires
        sound_options(o),
    ensures
        cli::cli_from(args, index, o) matches Ok(next) ==> sound_options(next),
    decreases args.len() - index,
{
    if index < args.len() {
        if args[index] == "--json"@ {
            lemma_cli_from(args, index + 1, CliView { json: true, ..o });
        } else if cli::value_missing(args[index]) is Some {
            lemma_canvas_with(o.canvas, args[index], args[index + 1]);
            if index + 1 < args.len() {
                if let Ok(next) = cli::cli_with(o, args[index], args[index + 1]) {
                    lemma_cli_from(args, index + 2, next);
                }
            }
        } else {
            lemma_cli_from(
                args,
                index + 1,
                CliView { positionals: o.positionals.push(args[index]), ..o },
            );
        }
    }
}

proof fn lemma_plain_from(args: Seq<Seq<char>>, index: int, command: Seq<char>, o: CliView)
    requires
        sound_options(o),
    ensures
        cli::plain_from(args, index, command, o) matches Ok(next) ==> sound_options(next),
    decreases args.len() - index,
{
    if index < args.len() {
        if args[index] == "--json"@ {
            lemma_plain_from(args, index + 1, command, CliView { json: true, ..o });
        } else {
            lemma_plain_from(
                args,
                index + 1,
                command,
                CliView { positionals: o.positionals.push(args[index]), ..o },
            );
        }
    }
}

proof fn lemma_no_options(token: Seq<char>)
    ensures
        sound_options(cli::no_options(token)),
{
    scale::OverviewScale::lemma_of_bits(protocol::DEFAULT_CANVAS_OVERVIEW_SCALE_BITS);
}

proof fn lemma_wallpaper_options(args: Seq<Seq<char>>, default_token: Seq<char>)
    ensures
        cli::wallpaper_options(args, default_token) matches Ok(o) ==> sound_options(o),
{
    lemma_no_options(Seq::empty());
    lemma_cli_from(args, 0, cli::no_options(Seq::empty()));
    if let Ok(o) = cli::cli_from(args, 0, cli::no_options(Seq::empty())) {
        lemma_transition_with(o, default_token);
        lemma_transition_with(o, o.token);
    }
}

proof fn lemma_action_for(command: Seq<char>, args: Seq<Seq<char>>)
    ensures
        cli::action_for(command, args) matches Ok((_, o)) ==> sound_options(o),
{
    lemma_no_options("cut"@);
    lemma_plain_from(args, 0, command, cli::no_options("cut"@));
    lemma_wallpaper_options(args, "push:up"@);
    lemma_wallpaper_options(args, "push:down"@);
    lemma_wallpaper_options(args, "push:left"@);
    lemma_wallpaper_options(args, "push:right"@);
    lemma_wallpaper_options(args, "cut"@);
    if let Ok(o) = cli::wallpaper_options(args, "push:left"@) {
        lemma_transition_with(o, "push:left"@);
        lemma_transition_with(o, "push:right"@);
    }
}

// ---------------------------------------------------------------------------
// All commands

proof fn lemma_warm_from(
    args: Seq<Seq<char>>,
    index: int,
    scope: CacheWarmScope,
    workers: usize,
    backend: CacheBackend,
)
    requires
        workers > 0,
    ensures
        commands::warm_from(args, index, scope, workers, backend) matches Ok(
            CacheAction::Warm { workers, .. },
        ) ==> workers > 0,
    decreases args.len() - index,
{
    if index < args.len() {
        let value = args[index + 1];
        if args[index] == "--json"@ {
            lemma_warm_from(args, index + 1, scope, workers, backend);
        } else if index + 1 >= args.len() {
        } else if args[index] == "--scope"@ {
            if let Ok(scope) = CacheWarmScope::named(value) {
                lemma_warm_from(args, index + 2, scope, workers, backend);
            }
        } else if args[index] == "--workers"@ {
            if let Ok(workers) = arguments::positive_count_in(value, "cache worker count"@) {
                lemma_warm_from(args, index + 2, scope, workers, backend);
            }
        } else if args[index] == "--backend"@ {
            if let Ok(backend) = CacheBackend::named(value) {
                lemma_warm_from(args, index + 2, scope, workers, backend);
            }
        }
    }
}

/// Whether the scale of the transition that a request names, written with six decimals,
/// is not zero.
pub open spec fn scale_is_kept(request: RequestView) -> bool {
    request matches RequestView::Wallpaper(WallpaperRequest {
        transition: Some(transition),
        ..
    }) ==> keeps_scale(transition)
}

proof fn lemma_set_request(args: Seq<Seq<char>>, images: Seq<(Seq<char>, ImagePath)>)
    requires
        found_images(images),
    ensures
        commands::set_request(args, images) matches Ok(Some(request)) ==> request is SetOutputs
            && request_law::valid_request(request),
{
    lemma_set_from(args, 0, commands::no_set_options(), images);
}

proof fn lemma_preload_request(args: Seq<Seq<char>>, images: Seq<(Seq<char>, ImagePath)>)
    requires
        found_images(images),
    ensures
        commands::preload_request(args, images) matches Ok(Some(request)) ==> request is Preload
            && request_law::valid_request(request),
{
    lemma_pairs_from(
        args,
        0,
        "preload"@,
        PairsView { outputs: Seq::empty(), pending: None },
        images,
    );
}

proof fn lemma_cache_request(args: Seq<Seq<char>>)
    ensures
        commands::cache_request(args) matches Ok(Some(request)) ==> request is Cache
            && request_law::valid_request(request),
{
    lemma_warm_from(
        args,
        1,
        CacheWarmScope::Current,
        protocol::DEFAULT_CANVAS_CACHE_WORKERS,
        CacheBackend::Auto,
    );
}

/// Every request that the command line builds is read on the public socket as the request
/// that it is; the scale of a canvas comes back with six decimals, and must not be so small
/// that these are all zero.
pub proof fn law_commands_are_understood(
    args: Seq<Seq<char>>,
    images: Seq<(Seq<char>, ImagePath)>,
)
    requires
        args.len() > 0,
        found_images(images),
    ensures
        commands::command_for(args, images) matches Ok(Some(built)) ==> (scale_is_kept(
            built.request,
        ) ==> request::request_in(json::encoded(request::request_json(built.request)), false)
            == Ok::<RequestView, Seq<char>>(request_law::request_again(built.request))),
{
    let rest = args.skip(1);
    lemma_set_request(rest, images);
    lemma_preload_request(rest, images);
    lemma_cache_request(rest);
    lemma_action_for(args[0], rest);
    if let Ok(Some(built)) = commands::command_for(args, images) {
        let request = built.request;
        assert(scale_is_kept(request) ==> request_law::valid_request(request));
        if scale_is_kept(request) {
            request_law::law_request_round_trip(request);
            request::law_public_requests_agree(json::encoded(request::request_json(request)));
            assert(!(request_law::request_again(request) is RenderCanvasSet));
            assert(!(request_law::request_again(request) is RenderWorldSet));
        }
    }
}

} // verus!
