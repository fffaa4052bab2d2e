//! What the client prints of the daemon's answers.

use crate::json::Json;
use crate::registry::{CapabilityView, ParameterView, TransitionScopes};
use crate::report::push_all;
use crate::response::{
    parse_capabilities_response, parse_wallpaper_response, response_error_message,
    response_is_error, CapabilitiesResponse, CapabilitiesView, EntryView, TransitionCapability,
    TransitionParameterCapability, WallpaperResponse, WallpaperView,
};
use crate::text::{
    concat2, concat3, concat4, concat5, copy_text, decimal_u32, decimal_usize, text_eq,
};
use crate::textlist::{join_texts, text_of_lines};
use crate::error;
use crate::response;
use crate::text;
use crate::textlist;
use crate::textmap;
use vstd::prelude::*;

verus! {

/// How an answer is printed.
#[derive(Clone, Copy, Debug, PartialEq, Eq, Structural)]
pub enum PrintMode {
    RawJson,
    CapabilitiesText,
    WallpaperText,
    WallpaperJson,
}

/// What to say of an error that has no message.
pub open spec fn error_fallback(mode: PrintMode) -> Seq<char> {
    match mode {
        PrintMode::CapabilitiesText => "capabilities request failed"@,
        PrintMode::WallpaperText => "wallpaper request failed"@,
        _ => "daemon request failed"@,
    }
}

/// What to say of an error that has no message.
pub fn human_error_fallback(print_mode: PrintMode) -> (message: &'static str)
    ensures
        message@ == error_fallback(print_mode),
{
    match print_mode {
        PrintMode::CapabilitiesText => "capabilities request failed",
        PrintMode::WallpaperText => "wallpaper request failed",
        PrintMode::RawJson | PrintMode::WallpaperJson => "daemon request failed",
    }
}

// ---------------------------------------------------------------------------
// Capabilities

/// How far a transition can be used.
pub open spec fn standing(scopes: TransitionScopes, experimental: bool) -> Seq<char> {
    let available = scopes.explicit_set || scopes.wallpaper_actions;
    if !available && experimental {
        "experimental, unavailable in this daemon mode"@
    } else if !available {
        "unavailable in this daemon mode"@
    } else if experimental {
        "experimental"@
    } else {
        "supported"@
    }
}

/// The line on where a transition can be used.
pub open spec fn scopes_line(scopes: TransitionScopes) -> Seq<char> {
    if scopes.explicit_set && scopes.wallpaper_actions {
        "    Scopes: explicit set, wallpaper actions"@
    } else if scopes.explicit_set {
        "    Scopes: explicit set"@
    } else if scopes.wallpaper_actions {
        "    Scopes: wallpaper actions"@
    } else {
        "    Scopes: none (unavailable in this daemon mode)"@
    }
}

/// The line on what a transition requires.
pub open spec fn requirements_line(requirements: Seq<Seq<char>>) -> Seq<char> {
    if requirements.len() == 0 {
        "    Requirements: none"@
    } else {
        "    Requirements: "@ + textlist::joined_by(requirements, ", "@)
    }
}

/// The line on a parameter.
pub open spec fn parameter_line(parameter: ParameterView) -> Seq<char> {
    let named = "      "@ + parameter.name + " ("@ + parameter.value_type.name() + ", "@ + (
    if parameter.required {
        "required"@
    } else {
        "optional"@
    }) + ")"@;
    let listed = if parameter.allowed_values.len() == 0 {
        named
    } else {
        named + ": "@ + textlist::joined_by(parameter.allowed_values, ", "@)
    };
    let settled = match parameter.default_value {
        Some(value) => listed + "; default="@ + response::default_text(value),
        None => listed,
    };
    match parameter.constraint {
        Some(constraint) => settled + "; "@ + constraint,
        None => settled,
    }
}

/// The lines on a transition.
pub open spec fn capability_lines(transition: CapabilityView) -> Seq<Seq<char>> {
    let head = seq![
        "  "@ + transition.name + " ("@ + transition.class.name() + ", "@ + standing(
            transition.scopes,
            transition.experimental,
        ) + ")"@,
        scopes_line(transition.scopes),
        requirements_line(transition.requirements),
    ];
    if transition.parameters.len() == 0 {
        head.push("    Parameters: none"@)
    } else {
        head.push("    Parameters:"@) + Seq::new(
            transition.parameters.len(),
            |i: int| parameter_line(transition.parameters[i]),
        )
    }
}

/// The lines on transitions.
pub open spec fn capabilities_lines(transitions: Seq<CapabilityView>) -> Seq<Seq<char>>
    decreases transitions.len(),
{
    if transitions.len() == 0 {
        Seq::empty()
    } else {
        capabilities_lines(transitions.drop_last()) + capability_lines(transitions.last())
    }
}

/// The lines on what a daemon can do.
pub open spec fn capabilities_report(response: CapabilitiesView) -> Seq<Seq<char>> {
    seq![
        "Capabilities schema version: "@ + text::decimal_text(response.schema_version as nat),
        "Protocol version: "@ + text::decimal_text(response.protocol_version as nat),
        "Daemon mode: "@ + response.daemon_mode.name(),
        "Transitions:"@,
    ] + capabilities_lines(response.transitions)
}

fn text_of_parameter(parameter: &TransitionParameterCapability) -> (line: String)
    ensures
        line@ == parameter_line(parameter@),
{
    let mut line = concat4("      ", parameter.name.as_str(), " (", parameter.value_type.as_str());
    line.append(", ");
    line.append(
        if parameter.required {
            "required"
        } else {
            "optional"
        },
    );
    line.append(")");
    assert(text::texts(parameter.allowed_values@).len() == parameter.allowed_values@.len());
    if parameter.allowed_values.len() > 0 {
        line.append(": ");
        line.append(join_texts(&parameter.allowed_values, ", ").as_str());
    }
    if let Some(value) = &parameter.default_value {
        line.append("; default=");
        line.append(value.to_text().as_str());
    }
    if let Some(constraint) = &parameter.constraint {
        line.append("; ");
        line.append(constraint.as_str());
    }
    line
}

fn text_of_standing(scopes: TransitionScopes, experimental: bool) -> (text: &'static str)
    ensures
        text@ == standing(scopes, experimental),
{
    let available = scopes.explicit_set || scopes.wallpaper_actions;
    if !available && experimental {
        "experimental, unavailable in this daemon mode"
    } else if !available {
        "unavailable in this daemon mode"
    } else if experimental {
        "experimental"
    } else {
        "supported"
    }
}

fn text_of_scopes(scopes: TransitionScopes) -> (text: &'static str)
    ensures
        text@ == scopes_line(scopes),
{
    if scopes.explicit_set && scopes.wallpaper_actions {
        "    Scopes: explicit set, wallpaper actions"
    } else if scopes.explicit_set {
        "    Scopes: explicit set"
    } else if scopes.wallpaper_actions {
        "    Scopes: wallpaper actions"
    } else {
        "    Scopes: none (unavailable in this daemon mode)"
    }
}

fn lines_of_capability(transition: &TransitionCapability) -> (list: Vec<String>)
    ensures
        text::texts(list@) == capability_lines(transition@),
{
    let mut list: Vec<String> = Vec::new();
    list.push(
        concat2(
            concat5(
                "  ",
                transition.name.as_str(),
                " (",
                transition.class.as_str(),
                ", ",
            ).as_str(),
            concat2(text_of_standing(transition.scopes, transition.experimental), ")").as_str(),
        ),
    );
    assert(list@[0]@ =~= capability_lines(transition@)[0]);
    list.push(copy_text(text_of_scopes(transition.scopes)));
    assert(text::texts(transition.requirements@).len() == transition.requirements@.len());
    if transition.requirements.len() == 0 {
        list.push(copy_text("    Requirements: none"));
    } else {
        list.push(
            concat2("    Requirements: ", join_texts(&transition.requirements, ", ").as_str()),
        );
    }
    let ghost view = transition@;
    assert(view.parameters.len() == transition.parameters@.len());
    if transition.parameters.len() == 0 {
        list.push(copy_text("    Parameters: none"));
        assert(text::texts(list@) =~= capability_lines(view));
        return list;
    }
    list.push(copy_text("    Parameters:"));
    let ghost head = text::texts(list@);
    let ghost rest = Seq::new(view.parameters.len(), |i: int| parameter_line(view.parameters[i]));
    assert(capability_lines(view) =~= head + rest);
    let mut i: usize = 0;
    assert(text::texts(list@) =~= head + rest.take(0));
    while i < transition.parameters.len()
        invariant
            i <= transition.parameters@.len(),
            view == transition@,
            view.parameters.len() == transition.parameters@.len(),
            rest == Seq::new(
                view.parameters.len(),
                |i: int| parameter_line(view.parameters[i]),
            ),
            text::texts(list@) == head + rest.take(i as int),
        decreases transition.parameters@.len() - i,
    {
        let ghost before = text::texts(list@);
        let line = text_of_parameter(&transition.parameters[i]);
        list.push(line);
        proof {
            assert(line@ == rest[i as int]);
            assert(text::texts(list@) =~= before.push(line@));
            assert(text::texts(list@) =~= head + rest.take(i + 1));
        }
        i = i + 1;
    }
    assert(rest.take(i as int) =~= rest);
    list
}

/// What a daemon can do, in words.
pub fn format_capabilities_text(response: &CapabilitiesResponse) -> (text: String)
    ensures
        text@ == textlist::lines_text(capabilities_report(response@)),
{
    let mut list: Vec<String> = Vec::new();
    list.push(
        concat2("Capabilities schema version: ", decimal_u32(response.schema_version).as_str()),
    );
    list.push(concat2("Protocol version: ", decimal_u32(response.protocol_version).as_str()));
    list.push(concat2("Daemon mode: ", response.daemon_mode.as_str()));
    list.push(copy_text("Transitions:"));
    let ghost head = text::texts(list@);
    let ghost view = response@;
    assert(head =~= seq![
        "Capabilities schema version: "@ + text::decimal_text(view.schema_version as nat),
        "Protocol version: "@ + text::decimal_text(view.protocol_version as nat),
        "Daemon mode: "@ + view.daemon_mode.name(),
        "Transitions:"@,
    ]);
    let mut i: usize = 0;
    assert(view.transitions.len() == response.transitions@.len());
    assert(view.transitions.take(0) =~= Seq::<CapabilityView>::empty());
    assert(text::texts(list@) =~= head + capabilities_lines(view.transitions.take(0)));
    while i < response.transitions.len()
        invariant
            i <= response.transitions@.len(),
            view == response@,
            view.transitions.len() == response.transitions@.len(),
            text::texts(list@) == head + capabilities_lines(view.transitions.take(i as int)),
        decreases response.transitions@.len() - i,
    {
        let ghost before = capabilities_lines(view.transitions.take(i as int));
        let lines = lines_of_capability(&response.transitions[i]);
        let ghost added = text::texts(lines@);
        proof {
            let longer = view.transitions.take(i + 1);
            assert(longer.drop_last() =~= view.transitions.take(i as int));
            assert(longer.last() == response.transitions@[i as int]@);
            assert((head + before) + added =~= head + (before + added));
        }
        push_all(&mut list, lines);
        i = i + 1;
    }
    assert(view.transitions.take(i as int) =~= view.transitions);
    text_of_lines(&list)
}

// ---------------------------------------------------------------------------
// Wallpapers

/// The lines on the rows of a wallpaper response: with their numbers and marks, or by
/// output alone.
pub open spec fn entry_lines(entries: Seq<EntryView>, numbered: bool) -> Seq<Seq<char>> {
    Seq::new(
        entries.len(),
        |i: int|
            if numbered {
                text::decimal_text(entries[i].index as nat) + "\t"@ + entries[i].output + "\t"@ + (
                if entries[i].favorite {
                    "*"@
                } else {
                    "-"@
                }) + "\t"@ + entries[i].path
            } else {
                entries[i].output + "\t"@ + entries[i].path
            },
    )
}

/// A message as lines: none where it is empty.
pub open spec fn message_lines(message: Seq<char>) -> Seq<Seq<char>> {
    if message.len() == 0 {
        Seq::empty()
    } else {
        seq![message]
    }
}

/// The lines on a wallpaper action.
pub open spec fn wallpaper_lines(response: WallpaperView) -> Seq<Seq<char>> {
    if response.action == "favorites"@ {
        response.favorites
    } else if response.action == "current"@ {
        entry_lines(response.entries, true)
    } else if response.action == "favorite"@ || response.action == "unfavorite"@ || response.action
        == "rescan"@ {
        message_lines(response.message)
    } else if response.entries.len() == 0 {
        message_lines(response.message)
    } else {
        entry_lines(response.entries, false)
    }
}

fn lines_of_entries(response: &WallpaperResponse, numbered: bool) -> (list: Vec<String>)
    ensures
        text::texts(list@) == entry_lines(response@.entries, numbered),
{
    let ghost view = response@.entries;
    let ghost wanted = entry_lines(view, numbered);
    let mut list: Vec<String> = Vec::new();
    let mut i: usize = 0;
    assert(view.len() == response.entries@.len());
    assert(text::texts(list@) =~= wanted.take(0));
    while i < response.entries.len()
        invariant
            i <= response.entries@.len(),
            view == response@.entries,
            view.len() == response.entries@.len(),
            wanted == entry_lines(view, numbered),
            text::texts(list@) == wanted.take(i as int),
        decreases response.entries@.len() - i,
    {
        let ghost before = text::texts(list@);
        let entry = &response.entries[i];
        assert(view[i as int] == entry@);
        let line = if numbered {
            let mut line = concat4(
                decimal_usize(entry.index).as_str(),
                "\t",
                entry.output.as_str(),
                "\t",
            );
            line.append(
                if entry.favorite {
                    "*"
                } else {
                    "-"
                },
            );
            line.append("\t");
            line.append(entry.path.as_str());
            line
        } else {
            concat3(entry.output.as_str(), "\t", entry.path.as_str())
        };
        list.push(line);
        proof {
            assert(line@ == wanted[i as int]);
            assert(text::texts(list@) =~= before.push(line@));
            assert(text::texts(list@) =~= wanted.take(i + 1));
        }
        i = i + 1;
    }
    assert(wanted.take(i as int) =~= wanted);
    list
}

fn lines_of_message(message: &str) -> (list: Vec<String>)
    ensures
        text::texts(list@) == message_lines(message@),
{
    proof {
        reveal_strlit("");
        if message@.len() == 0 {
            assert(message@ =~= ""@);
        }
    }
    let mut list: Vec<String> = Vec::new();
    if !text_eq(message, "") {
        list.push(copy_text(message));
    }
    assert(text::texts(list@) =~= message_lines(message@));
    list
}

/// What came of a wallpaper action, in words.
pub fn wallpaper_text(response: &WallpaperResponse) -> (text: String)
    ensures
        text@ == textlist::lines_text(wallpaper_lines(response@)),
{
    let action = response.action.as_str();
    assert(response@.entries.len() == response.entries@.len());
    if text_eq(action, "favorites") {
        text_of_lines(&response.favorites)
    } else if text_eq(action, "current") {
        text_of_lines(&lines_of_entries(response, true))
    } else if text_eq(action, "favorite") || text_eq(action, "unfavorite") || text_eq(
        action,
        "rescan",
    ) || response.entries.len() == 0 {
        text_of_lines(&lines_of_message(response.message.as_str()))
    } else {
        text_of_lines(&lines_of_entries(response, false))
    }
}

// ---------------------------------------------------------------------------
// Answers

/// What is printed of an answer, and where.
#[derive(Clone, Debug, PartialEq, Eq)]
pub enum Printed {
    /// To the output.
    Output(String),
    /// To the error output.
    ErrorOutput(String),
}

/// What is printed of an answer, as a mathematical value.
pub enum PrintedView {
    Output(Seq<char>),
    ErrorOutput(Seq<char>),
}

impl View for Printed {
    type V = PrintedView;

    open spec fn view(&self) -> PrintedView {
        match self {
            Printed::Output(text) => PrintedView::Output(text@),
            Printed::ErrorOutput(text) => PrintedView::ErrorOutput(text@),
        }
    }
}

/// The message of an answer that is an error.
pub open spec fn error_said(answer: Seq<char>) -> Option<Seq<char>> {
    match response::status_in(answer) {
        Some((status, fields)) => if status == "error"@ {
            match textmap::entries_get(fields, "message"@) {
                Some(Json::Str(message)) => Some(message),
                _ => None,
            }
        } else {
            None
        },
        None => None,
    }
}

/// What is printed of an answer, or why it cannot be understood.
pub open spec fn printed(answer: Seq<char>, mode: PrintMode) -> Result<PrintedView, Seq<char>> {
    if mode == PrintMode::RawJson || mode == PrintMode::WallpaperJson {
        Ok(PrintedView::Output(answer + "\n"@))
    } else if response::status_in(answer) matches Some((status, _)) && status == "error"@ {
        Ok(
            PrintedView::ErrorOutput(
                (match error_said(answer) {
                    Some(message) => message,
                    None => error_fallback(mode),
                }) + "\n"@,
            ),
        )
    } else if mode == PrintMode::CapabilitiesText {
        match response::capabilities_in(answer) {
            Err(message) => Err(message),
            Ok(response) => Ok(PrintedView::Output(textlist::lines_text(capabilities_report(response)))),
        }
    } else {
        match response::wallpaper_response_in(answer) {
            Err(message) => Err(message),
            Ok(response) => Ok(PrintedView::Output(textlist::lines_text(wallpaper_lines(response)))),
        }
    }
}

/// What is printed of an answer, or why it cannot be understood.
pub fn print_response(response: &str, print_mode: PrintMode) -> (result: Result<Printed, String>)
    ensures
        error::agrees_view(result, printed(response@, print_mode)),
{
    if print_mode == PrintMode::RawJson || print_mode == PrintMode::WallpaperJson {
        return Ok(Printed::Output(concat2(response, "\n")));
    }
    if response_is_error(response) {
        let message = match response_error_message(response) {
            Some(message) => message,
            None => copy_text(human_error_fallback(print_mode)),
        };
        return Ok(Printed::ErrorOutput(concat2(message.as_str(), "\n")));
    }
    if print_mode == PrintMode::CapabilitiesText {
        match parse_capabilities_response(response) {
            Err(error) => Err(error.to_text()),
            Ok(capabilities) => Ok(Printed::Output(format_capabilities_text(&capabilities))),
        }
    } else {
        match parse_wallpaper_response(response) {
            Err(error) => Err(error.to_text()),
            Ok(wallpaper) => Ok(Printed::Output(wallpaper_text(&wallpaper))),
        }
    }
}

} // verus!
