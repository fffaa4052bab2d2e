//! What is proved of answers: what a daemon tells of its transitions, what is printed of an answer,
//! and where programs meet.

use crate::control::ControlView;
use crate::json::Json;
use crate::layout::StoredView;
use crate::output::{PrintMode, PrintedView};
use crate::protocol::{
    CanvasMode, CanvasPanAxis, CanvasWalk, DaemonMode, Easing, PushDirection, PushMode,
    TransitionKind,
};
use crate::registry::{CapabilityView, DefaultView, ParameterView};
use crate::response::{CapabilitiesView, WallpaperView};
use crate::action_law;
use crate::arguments;
use crate::change;
use crate::layout;
use crate::library_law;
use crate::output;
use crate::paths;
use crate::preview;
use crate::registry;
use crate::response;
use crate::text;
use crate::textlist;
use crate::textmap;
use crate::wallpaper;
use vstd::prelude::*;

verus! {

// ---------------------------------------------------------------------------
// Capabilities

/// The parameters of a kind of transition, by their names.
pub open spec fn parameter_names(kind: TransitionKind) -> Seq<Seq<char>> {
    Seq::new(
        registry::schema(kind).parameters.len(),
        |i: int| registry::schema(kind).parameters[i].name,
    )
}

/// A daemon tells the parameters that the messages about a transition have, under their names.
pub proof fn law_parameters_are_those_of_messages()
    ensures
        parameter_names(TransitionKind::Cut) == Seq::<Seq<char>>::empty(),
        parameter_names(TransitionKind::Fade) == seq!["duration_ms"@, "easing"@],
        parameter_names(TransitionKind::World) == seq!["duration_ms"@, "easing"@],
        parameter_names(TransitionKind::Push) == seq![
            "direction"@,
            "duration_ms"@,
            "easing"@,
            "mode"@,
        ],
        parameter_names(TransitionKind::Canvas) == seq![
            "zoom_out_ms"@,
            "pan_ms"@,
            "zoom_in_ms"@,
            "easing"@,
            "mode"@,
            "walk"@,
            "pan_axis"@,
            "overview_scale"@,
            "tile_count"@,
            "max_tile_count"@,
        ],
{
    assert(parameter_names(TransitionKind::Cut) =~= Seq::<Seq<char>>::empty());
    assert(parameter_names(TransitionKind::Fade) =~= seq!["duration_ms"@, "easing"@]);
    assert(parameter_names(TransitionKind::World) =~= seq!["duration_ms"@, "easing"@]);
    assert(parameter_names(TransitionKind::Push) =~= seq![
        "direction"@,
        "duration_ms"@,
        "easing"@,
        "mode"@,
    ]);
    assert(parameter_names(TransitionKind::Canvas) =~= seq![
        "zoom_out_ms"@,
        "pan_ms"@,
        "zoom_in_ms"@,
        "easing"@,
        "mode"@,
        "walk"@,
        "pan_axis"@,
        "overview_scale"@,
        "tile_count"@,
        "max_tile_count"@,
    ]);
}

/// Every value that a parameter can have is told, by its name.
#[verifier::spinoff_prover]
pub proof fn law_every_value_is_told(
    easing: Easing,
    direction: PushDirection,
    push_mode: PushMode,
    canvas_mode: CanvasMode,
    walk: CanvasWalk,
    axis: CanvasPanAxis,
)
    ensures
        registry::easing_parameter_view().allowed_values.contains(easing.name()),
        registry::direction_parameter_view().allowed_values.contains(direction.name()),
        registry::push_mode_parameter_view().allowed_values.contains(push_mode.name()),
        registry::canvas_mode_parameter_view().allowed_values.contains(canvas_mode.name()),
        registry::walk_parameter_view().allowed_values.contains(walk.name()),
        registry::pan_axis_parameter_view().allowed_values.contains(axis.name()),
{
    let e = registry::easing_parameter_view().allowed_values;
    assert(e[0] == Easing::Linear.name());
    assert(e[1] == Easing::EaseOutCubic.name());
    assert(e[2] == Easing::EaseInOutCubic.name());
    let d = registry::direction_parameter_view().allowed_values;
    assert(d[0] == PushDirection::Up.name());
    assert(d[1] == PushDirection::Down.name());
    assert(d[2] == PushDirection::Left.name());
    assert(d[3] == PushDirection::Right.name());
    let p = registry::push_mode_parameter_view().allowed_values;
    assert(p[0] == PushMode::Portal.name());
    assert(p[1] == PushMode::Screen.name());
    assert(p[2] == PushMode::Pan.name());
    let c = registry::canvas_mode_parameter_view().allowed_values;
    assert(c[0] == CanvasMode::Clipped.name());
    assert(c[1] == CanvasMode::Morph.name());
    assert(c[2] == CanvasMode::Overlap.name());
    assert(c[3] == CanvasMode::Collage.name());
    assert(c[4] == CanvasMode::Span.name());
    let w = registry::walk_parameter_view().allowed_values;
    assert(w[0] == CanvasWalk::Paged.name());
    assert(w[1] == CanvasWalk::Strip.name());
    let a = registry::pan_axis_parameter_view().allowed_values;
    assert(a[0] == CanvasPanAxis::Auto.name());
    assert(a[1] == CanvasPanAxis::Horizontal.name());
    assert(a[2] == CanvasPanAxis::Vertical.name());
}

/// Only the direction of a push must be said. Of every other parameter a daemon tells what it is
/// taken to be where nothing is said.
pub proof fn law_defaults_are_told()
    ensures
        registry::direction_parameter_view().required,
        registry::direction_parameter_view().default_value is None,
        forall|kind: TransitionKind, i: int|
            0 <= i < registry::schema(kind).parameters.len() && #[trigger] registry::schema(
                kind,
            ).parameters[i] != registry::direction_parameter_view()
                ==> !registry::schema(kind).parameters[i].required,
        registry::duration_parameter_view().default_value == Some(DefaultView::Integer(900)),
        registry::zoom_out_parameter_view().default_value == Some(DefaultView::Integer(180)),
        registry::pan_parameter_view().default_value == Some(DefaultView::Integer(80)),
        registry::zoom_in_parameter_view().default_value == Some(DefaultView::Integer(260)),
        registry::easing_parameter_view().default_value == Some(
            DefaultView::Text(Easing::EaseOutCubic.name()),
        ),
        registry::push_mode_parameter_view().default_value == Some(
            DefaultView::Text(PushMode::Portal.name()),
        ),
        registry::canvas_mode_parameter_view().default_value == Some(
            DefaultView::Text(CanvasMode::Clipped.name()),
        ),
        registry::walk_parameter_view().default_value == Some(
            DefaultView::Text(CanvasWalk::Paged.name()),
        ),
        registry::pan_axis_parameter_view().default_value == Some(
            DefaultView::Text(CanvasPanAxis::Auto.name()),
        ),
        registry::tile_count_parameter_view().default_value == Some(DefaultView::Text("auto"@)),
        registry::max_tile_count_parameter_view().default_value is None,
{
}

/// A canvas is for wallpaper actions alone; the world is for a daemon with a supervisor alone,
/// and experimental; every other transition is for both uses.
pub proof fn law_uses_are_told(kind: TransitionKind, mode: DaemonMode)
    ensures
        ({
            let scopes = response::offered_scopes(kind, registry::schema(kind).scopes, mode);
            &&& scopes.wallpaper_actions <==> !(kind is World && mode is Standalone)
            &&& scopes.explicit_set <==> !(kind is World && mode is Standalone) && !(kind is Canvas)
            &&& registry::schema(kind).experimental <==> kind is World
            &&& registry::schema(kind).name == kind.name()
        }),
{
}

// ---------------------------------------------------------------------------
// What is printed

/// What is asked for as JSON is printed as it came. An error is printed apart from other
/// answers, with its message.
pub proof fn law_answers_are_printed(answer: Seq<char>, mode: PrintMode)
    ensures
        mode is RawJson || mode is WallpaperJson ==> output::printed(answer, mode) == Ok::<
            PrintedView,
            Seq<char>,
        >(PrintedView::Output(answer + "\n"@)),
        (mode is CapabilitiesText || mode is WallpaperText) && (response::status_in(answer) matches Some(
            (status, _),
        ) && status == "error"@) ==> (output::printed(answer, mode) matches Ok(
            PrintedView::ErrorOutput(text),
        ) && (output::error_said(answer) matches Some(message) ==> text == message + "\n"@)),
{
}

/// Of what is shown now each output is told in a line: its index, its name, a star where its
/// wallpaper is a favorite, and the wallpaper. After a change only the names and wallpapers are
/// told, and of favorites just the list of them.
pub proof fn law_wallpapers_are_printed(response: WallpaperView, i: int)
    ensures
        response.action == "favorites"@ ==> output::wallpaper_lines(response)
            == response.favorites,
        response.action == "current"@ && 0 <= i < response.entries.len() ==> {
            let entry = response.entries[i];
            &&& output::wallpaper_lines(response).len() == response.entries.len()
            &&& output::wallpaper_lines(response)[i] == text::decimal_text(entry.index as nat)
                + "\t"@ + entry.output + "\t"@ + (if entry.favorite {
                "*"@
            } else {
                "-"@
            }) + "\t"@ + entry.path
        },
        response.action == "next"@ && 0 <= i < response.entries.len() ==> {
            &&& output::wallpaper_lines(response).len() == response.entries.len()
            &&& output::wallpaper_lines(response)[i] == response.entries[i].output + "\t"@
                + response.entries[i].path
        },
        response.action == "rescan"@ && response.message.len() > 0
            ==> output::wallpaper_lines(response) == seq![response.message],
{
    reveal_strlit("favorites");
    reveal_strlit("current");
    reveal_strlit("favorite");
    reveal_strlit("unfavorite");
    reveal_strlit("rescan");
    reveal_strlit("next");
    assert("favorites"@.len() == 9 && "current"@.len() == 7 && "favorite"@.len() == 8);
    assert("unfavorite"@.len() == 10 && "rescan"@.len() == 6 && "next"@.len() == 4);
}

/// Of what outputs show, each is told with its place, its name, its wallpaper, and whether that
/// is a favorite. Nothing of what they show changes by telling it.
pub proof fn law_current_tells_what_is_shown(
    c: ControlView,
    names: Seq<Seq<char>>,
    stored: StoredView,
)
    requires
        0 < names.len() <= usize::MAX,
    ensures
        ({
            let (_, shown) = wallpaper::taken(c, names, stored);
            let (next, answer) = change::current(c, names, stored);
            &&& answer matches Ok(response) ==> {
                &&& layout::shown(shown, false) is Ok
                &&& shown.window().len() >= names.len() ==> action_law::tells(
                    response.entries,
                    c.favorites,
                    names,
                    shown.window(),
                )
                &&& response.action == "current"@
            }
            &&& layout::shown(shown, false) is Ok ==> answer is Ok
            &&& next.library == c.library
            &&& next.favorites == c.favorites
            &&& next.bag == c.bag
            &&& next.pos == c.pos
            &&& next.rng == c.rng
        }),
{
}

// ---------------------------------------------------------------------------
// Where programs meet

/// The file of settings is the one that is named; else it lies below the directory for settings
/// where that is absolute, and else below the home directory.
pub proof fn law_settings_are_found(
    own: Option<Seq<char>>,
    base: Option<Seq<char>>,
    home: Option<Seq<char>>,
)
    ensures
        match paths::config_place(own, base, home) {
            Some(place) => {
                &&& own matches Some(path) ==> place == paths::home_expanded(path, home)
                &&& own is None && (base matches Some(dir) && dir.len() > 0 && dir[0] == '/')
                    ==> place == paths::joined(base->Some_0, "mural/config"@)
                &&& own is None && !(base matches Some(dir) && dir.len() > 0 && dir[0] == '/')
                    ==> home is Some && place == paths::joined(
                    home->Some_0,
                    ".config/mural/config"@,
                )
            },
            None => own is None && home is None,
        },
{
}

/// The socket is the one that is named; else it lies in the directory for running programs where
/// that is absolute, and else in one that is the user's own.
pub proof fn law_socket_is_found(
    own: Option<Seq<char>>,
    runtime: Option<Seq<char>>,
    uid: Option<u32>,
)
    ensures
        ({
            let place = paths::socket_place(own, runtime, uid);
            let named = own matches Some(socket) && socket.len() > 0;
            let rooted = runtime matches Some(dir) && dir.len() > 0 && dir[0] == '/';
            &&& named ==> place == Ok::<Seq<char>, Seq<char>>(own->Some_0)
            &&& !named && rooted ==> place == Ok::<Seq<char>, Seq<char>>(
                paths::joined(runtime->Some_0, "mural/mural.sock"@),
            )
            &&& !named && !rooted ==> match uid {
                Some(uid) => place == Ok::<Seq<char>, Seq<char>>(
                    "/tmp/mural-"@ + text::decimal_text(uid as nat) + "/mural.sock"@,
                ),
                None => place is Err,
            }
        }),
{
}

/// A time is told in seconds where it is whole seconds, and in milliseconds where it is not.
pub proof fn law_times_are_told(seconds: u64, millis: u64)
    requires
        0 < seconds,
        seconds * 1000 <= u64::MAX,
        millis < 1000 || millis % 1000 != 0,
    ensures
        arguments::duration_text((seconds * 1000) as u64) == text::decimal_text(seconds as nat)
            + "s"@,
        arguments::duration_text(millis) == text::decimal_text(millis as nat) + "ms"@,
{
}

// ---------------------------------------------------------------------------
// Names and previews

/// A file that is moved where its name is taken gets a number in front of its extension.
pub proof fn law_numbers_stand_before_the_extension(
    stem: Seq<char>,
    extension: Seq<char>,
    number: nat,
)
    requires
        stem.len() > 0,
        extension.len() > 0,
        !extension.contains('.'),
        number > 0,
    ensures
        wallpaper::numbered_name(stem + "."@ + extension, number) == stem + "."@
            + text::decimal_text(number) + "."@ + extension,
        wallpaper::numbered_name(stem + "."@ + extension, 0) == stem + "."@ + extension,
{
    let name = stem + "."@ + extension;
    library_law::lemma_last_dot(stem, extension);
    reveal_strlit(".");
    reveal_strlit("..");
    assert("."@.len() == 1 && ".."@.len() == 2);
    assert(name.len() >= 3);
    assert(name.take(stem.len() as int) =~= stem);
    assert(name.skip(stem.len() as int + 1) =~= extension);
}

proof fn lemma_last_spare(list: Seq<Seq<char>>, required: Seq<Seq<char>>)
    ensures
        -1 <= preview::last_spare(list, required) < list.len(),
        preview::last_spare(list, required) >= 0 ==> !required.contains(
            list[preview::last_spare(list, required)],
        ),
        forall|i: int|
            preview::last_spare(list, required) < i < list.len() ==> required.contains(
                #[trigger] list[i],
            ),
    decreases list.len(),
{
    if list.len() > 0 && required.contains(list.last()) {
        let fewer = list.drop_last();
        lemma_last_spare(fewer, required);
        assert forall|i: int| preview::last_spare(list, required) < i < list.len() implies required.contains(
            #[trigger] list[i],
        ) by {
            if i < fewer.len() {
                assert(fewer[i] == list[i]);
            }
        }
    }
}

/// A required wallpaper is added behind the others where there is room. Where there is none it
/// takes the place of the last one that is not required itself, and every other one stays in its
/// place.
pub proof fn law_required_take_the_last_spare_place(
    list: Seq<Seq<char>>,
    required: Seq<Seq<char>>,
    path: Seq<char>,
    limit: nat,
)
    requires
        path.len() > 0,
        !list.contains(path),
    ensures
        ({
            let after = preview::with_required(list, required, path, limit);
            &&& list.len() < limit ==> after == list.push(path)
            &&& list.len() >= limit ==> after.len() == list.len()
            &&& list.len() >= limit ==> forall|i: int|
                0 <= i < list.len() ==> #[trigger] after[i] == if !required.contains(list[i]) && (
                forall|k: int| i < k < list.len() ==> required.contains(#[trigger] list[k])) {
                    path
                } else {
                    list[i]
                }
        }),
{
    lemma_last_spare(list, required);
    let spare = preview::last_spare(list, required);
    let after = preview::with_required(list, required, path, limit);
    if list.len() >= limit {
        assert forall|i: int| 0 <= i < list.len() implies #[trigger] after[i] == if !required.contains(
            list[i],
        ) && (forall|k: int| i < k < list.len() ==> required.contains(#[trigger] list[k])) {
            path
        } else {
            list[i]
        } by {
            if i > spare {
                assert(required.contains(list[i]));
            } else if i < spare {
                assert(!required.contains(list[spare]));
            }
        }
    }
}

// ---------------------------------------------------------------------------
// Printed capabilities

/// Whether a text begins with another.
pub open spec fn begins(line: Seq<char>, start: Seq<char>) -> bool {
    start.len() <= line.len() && line.take(start.len() as int) == start
}

proof fn lemma_begins_further(line: Seq<char>, start: Seq<char>, more: Seq<char>)
    requires
        begins(line, start),
    ensures
        begins(line + more, start),
{
    assert((line + more).take(start.len() as int) =~= line.take(start.len() as int));
}

proof fn lemma_parameter_begins(parameter: ParameterView)
    ensures
        begins(
            output::parameter_line(parameter),
            "      "@ + parameter.name + " ("@ + parameter.value_type.name(),
        ),
{
    let start = "      "@ + parameter.name + " ("@ + parameter.value_type.name();
    let asked = if parameter.required {
        "required"@
    } else {
        "optional"@
    };
    let named = start + ", "@ + asked + ")"@;
    assert(start.take(start.len() as int) =~= start);
    lemma_begins_further(start, start, ", "@);
    lemma_begins_further(start + ", "@, start, asked);
    lemma_begins_further(start + ", "@ + asked, start, ")"@);
    let values = textlist::joined_by(parameter.allowed_values, ", "@);
    let listed = if parameter.allowed_values.len() == 0 {
        named
    } else {
        named + ": "@ + values
    };
    lemma_begins_further(named, start, ": "@);
    lemma_begins_further(named + ": "@, start, values);
    let settled = match parameter.default_value {
        Some(value) => listed + "; default="@ + response::default_text(value),
        None => listed,
    };
    if let Some(value) = parameter.default_value {
        lemma_begins_further(listed, start, "; default="@);
        lemma_begins_further(listed + "; default="@, start, response::default_text(value));
    }
    if let Some(constraint) = parameter.constraint {
        lemma_begins_further(settled, start, "; "@);
        lemma_begins_further(settled + "; "@, start, constraint);
    }
}

proof fn lemma_head_line(transition: CapabilityView)
    ensures
        ({
            let one = output::capability_lines(transition);
            let head = "  "@ + transition.name + " ("@ + transition.class.name() + ", "@;
            &&& one.len() == 4 + transition.parameters.len()
            &&& one[0] == head + output::standing(transition.scopes, transition.experimental) + ")"@
            &&& begins(one[0], head)
            &&& forall|p: int|
                0 <= p < transition.parameters.len() ==> #[trigger] one[4 + p]
                    == output::parameter_line(transition.parameters[p])
        }),
{
    let head = "  "@ + transition.name + " ("@ + transition.class.name() + ", "@;
    let standing = output::standing(transition.scopes, transition.experimental);
    assert(head.take(head.len() as int) =~= head);
    lemma_begins_further(head, head, standing);
    lemma_begins_further(head + standing, head, ")"@);
}

proof fn lemma_lines_of_one(transitions: Seq<CapabilityView>, t: int) -> (at: int)
    requires
        0 <= t < transitions.len(),
    ensures
        ({
            let all = output::capabilities_lines(transitions);
            let one = output::capability_lines(transitions[t]);
            0 <= at && at + one.len() <= all.len() && all.subrange(at, (at + one.len()) as int) == one
        }),
    decreases transitions.len(),
{
    let all = output::capabilities_lines(transitions);
    let before = output::capabilities_lines(transitions.drop_last());
    let one = output::capability_lines(transitions[t]);
    if t == transitions.len() - 1 {
        assert(all.subrange(before.len() as int, (before.len() + one.len()) as int) =~= one);
        before.len() as int
    } else {
        let at = lemma_lines_of_one(transitions.drop_last(), t);
        assert(all.subrange(at, (at + one.len()) as int) =~= before.subrange(
            at,
            (at + one.len()) as int,
        ));
        at
    }
}

/// The versions and the mode of the daemon come first. Each transition is told under its name and
/// its class, by lines that stand together; it is said to be supported where it can be asked for
/// and is no trial, and to be unavailable where it cannot be asked for. Each of its parameters
/// has a line that starts with the parameter's name and type.
pub proof fn law_capabilities_are_printed(response: CapabilitiesView, t: int) -> (at: int)
    requires
        0 <= t < response.transitions.len(),
    ensures
        ({
            let lines = output::capabilities_report(response);
            let transition = response.transitions[t];
            let head = "  "@ + transition.name + " ("@ + transition.class.name() + ", "@;
            let asked = transition.scopes.explicit_set || transition.scopes.wallpaper_actions;
            &&& lines[0] == "Capabilities schema version: "@ + text::decimal_text(
                response.schema_version as nat,
            )
            &&& lines[1] == "Protocol version: "@ + text::decimal_text(
                response.protocol_version as nat,
            )
            &&& lines[2] == "Daemon mode: "@ + response.daemon_mode.name()
            &&& 4 <= at
            &&& at + 4 + transition.parameters.len() <= lines.len()
            &&& begins(lines[at], head)
            &&& asked && !transition.experimental ==> lines[at] == head + "supported"@ + ")"@
            &&& asked && transition.experimental ==> lines[at] == head + "experimental"@ + ")"@
            &&& !asked && !transition.experimental ==> lines[at] == head
                + "unavailable in this daemon mode"@ + ")"@
            &&& forall|p: int|
                0 <= p < transition.parameters.len() ==> begins(
                    #[trigger] lines[at + 4 + p],
                    "      "@ + transition.parameters[p].name + " ("@
                        + transition.parameters[p].value_type.name(),
                )
        }),
{
    let lines = output::capabilities_report(response);
    let all = output::capabilities_lines(response.transitions);
    let transition = response.transitions[t];
    let one = output::capability_lines(transition);
    let found = lemma_lines_of_one(response.transitions, t);
    let at = found + 4;
    lemma_head_line(transition);
    assert forall|i: int| 0 <= i < one.len() implies #[trigger] lines[at + i] == one[i] by {
        assert(all[found + i] == all.subrange(found, (found + one.len()) as int)[i]);
    }
    assert(lines[at + 0] == one[0]);
    assert forall|p: int| 0 <= p < transition.parameters.len() implies begins(
        #[trigger] lines[at + 4 + p],
        "      "@ + transition.parameters[p].name + " ("@ + transition.parameters[p].value_type.name(),
    ) by {
        assert(lines[at + (4 + p)] == one[4 + p]);
        lemma_parameter_begins(transition.parameters[p]);
    }
    at
}

/// An answer is taken for one of a kind only where it says that all went well and names that
/// kind. Where it says that something failed, its message is what is told.
pub proof fn law_answers_of_another_kind_are_refused(
    fields: Seq<(Seq<char>, Json)>,
    kind: Seq<char>,
    fallback: Seq<char>,
)
    ensures
        response::response_check(fields, kind, fallback) is Ok <==> {
            &&& textmap::entries_get(fields, "status"@) == Some(Json::Str("ok"@))
            &&& textmap::entries_get(fields, "type"@) == Some(Json::Str(kind))
        },
        textmap::entries_get(fields, "status"@) == Some(Json::Str("error"@)) ==> {
            &&& textmap::entries_get(fields, "message"@) matches Some(Json::Str(message))
                ==> response::response_check(fields, kind, fallback) == Err::<(), Seq<char>>(message)
            &&& textmap::entries_get(fields, "message"@) is None ==> response::response_check(
                fields,
                kind,
                fallback,
            ) == Err::<(), Seq<char>>(fallback)
        },
{
    reveal_strlit("ok");
    reveal_strlit("error");
    assert("ok"@.len() == 2 && "error"@.len() == 5);
}

} // verus!
