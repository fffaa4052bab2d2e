//! What a command line asks for as a whole.

use crate::arguments::parse_flag_only;
use crate::commands::after_first;
use crate::text::{concat2, contains_text, copy_text, text_eq};
use crate::arguments;
use crate::error;
use crate::text;
use vstd::prelude::*;

verus! {

/// What a command line asks for, when the options for all commands are taken off it.
#[derive(Clone, Copy, Debug, PartialEq, Eq)]
pub enum Invocation {
    Help,
    Version,
    /// A command on the world, which needs no daemon.
    World,
    /// A request to the daemon.
    Daemon,
}

/// What a command line asks for.
pub open spec fn invocation_of(args: Seq<Seq<char>>) -> Invocation {
    if args.len() == 0 {
        Invocation::Help
    } else if args.len() == 1 && (args[0] == "-V"@ || args[0] == "--version"@) {
        Invocation::Version
    } else if args[0] == "world"@ {
        Invocation::World
    } else {
        Invocation::Daemon
    }
}

/// What a command line asks for.
pub fn invocation(args: &Vec<String>) -> (asked: Invocation)
    ensures
        asked == invocation_of(text::texts(args@)),
{
    assert(text::texts(args@).len() == args@.len());
    if args.len() == 0 {
        return Invocation::Help;
    }
    assert(text::texts(args@)[0] == args@[0]@);
    if args.len() == 1 && (text_eq(&args[0], "-V") || text_eq(&args[0], "--version")) {
        Invocation::Version
    } else if text_eq(&args[0], "world") {
        Invocation::World
    } else {
        Invocation::Daemon
    }
}

/// A command on the world.
#[derive(Clone, Copy, Debug, PartialEq, Eq)]
pub enum WorldCommand {
    Help,
    CacheHelp,
    Status { json: bool },
    Index { json: bool },
    Failures { json: bool },
    /// What to compute is said by the arguments that follow.
    Compute,
}

/// The command on the cache of the world that arguments stand for.
pub open spec fn world_cache_command_of(args: Seq<Seq<char>>) -> Result<WorldCommand, Seq<char>> {
    if args.len() == 0 || arguments::asks_help(args) {
        Ok(WorldCommand::CacheHelp)
    } else if args[0] == "status"@ {
        match arguments::flag_in(args.skip(1), "world cache status"@, "--json"@) {
            Ok(json) => Ok(WorldCommand::Status { json }),
            Err(message) => Err(message),
        }
    } else if args[0] == "index"@ {
        match arguments::flag_in(args.skip(1), "world cache index"@, "--json"@) {
            Ok(json) => Ok(WorldCommand::Index { json }),
            Err(message) => Err(message),
        }
    } else if args[0] == "failures"@ {
        match arguments::flag_in(args.skip(1), "world cache failures"@, "--json"@) {
            Ok(json) => Ok(WorldCommand::Failures { json }),
            Err(message) => Err(message),
        }
    } else if args[0] == "compute"@ {
        Ok(WorldCommand::Compute)
    } else {
        Err("unknown world cache action: "@ + args[0])
    }
}

/// The command on the world that arguments stand for.
pub open spec fn world_command_of(args: Seq<Seq<char>>) -> Result<WorldCommand, Seq<char>> {
    if args.len() == 0 || arguments::asks_help(args) {
        Ok(WorldCommand::Help)
    } else if args[0] != "cache"@ {
        Err("unknown world action: "@ + args[0])
    } else {
        world_cache_command_of(args.skip(1))
    }
}

/// The command on the cache of the world that arguments stand for.
pub fn parse_world_cache_command(args: &Vec<String>) -> (result: Result<WorldCommand, String>)
    ensures
        error::agrees(result, world_cache_command_of(text::texts(args@))),
{
    assert(text::texts(args@).len() == args@.len());
    if args.len() == 0 || contains_text(args, "-h") || contains_text(args, "--help") {
        return Ok(WorldCommand::CacheHelp);
    }
    assert(text::texts(args@)[0] == args@[0]@);
    let action = &args[0];
    if text_eq(action, "status") {
        let json = parse_flag_only(&after_first(args), "world cache status", "--json")?;
        Ok(WorldCommand::Status { json })
    } else if text_eq(action, "index") {
        let json = parse_flag_only(&after_first(args), "world cache index", "--json")?;
        Ok(WorldCommand::Index { json })
    } else if text_eq(action, "failures") {
        let json = parse_flag_only(&after_first(args), "world cache failures", "--json")?;
        Ok(WorldCommand::Failures { json })
    } else if text_eq(action, "compute") {
        Ok(WorldCommand::Compute)
    } else {
        Err(concat2("unknown world cache action: ", action))
    }
}

/// The command on the world that arguments stand for.
pub fn parse_world_command(args: &Vec<String>) -> (result: Result<WorldCommand, String>)
    ensures
        error::agrees(result, world_command_of(text::texts(args@))),
{
    assert(text::texts(args@).len() == args@.len());
    if args.len() == 0 || contains_text(args, "-h") || contains_text(args, "--help") {
        return Ok(WorldCommand::Help);
    }
    assert(text::texts(args@)[0] == args@[0]@);
    if !text_eq(&args[0], "cache") {
        return Err(concat2("unknown world action: ", &args[0]));
    }
    parse_world_cache_command(&after_first(args))
}

/// The arguments that a computation in the background is not given again.
pub open spec fn is_dropped(arg: Seq<char>, parent_json: bool) -> bool {
    arg == "--background"@ || (parent_json && arg == "--json"@)
}

/// The arguments that are left for a computation in the background.
pub open spec fn background_rest(args: Seq<Seq<char>>, parent_json: bool) -> Seq<Seq<char>>
    decreases args.len(),
{
    if args.len() == 0 {
        Seq::empty()
    } else {
        let before = background_rest(args.drop_last(), parent_json);
        if is_dropped(args.last(), parent_json) {
            before
        } else {
            before.push(args.last())
        }
    }
}

/// The command line of a computation in the background: the same work in the foreground,
/// and without the wish for JSON that has been met already.
pub fn background_args(args: &Vec<String>, parent_json: bool) -> (child: Vec<String>)
    ensures
        text::texts(child@) == seq!["world"@, "cache"@, "compute"@] + background_rest(
            text::texts(args@),
            parent_json,
        ),
{
    let ghost all = text::texts(args@);
    let mut child: Vec<String> = Vec::new();
    child.push(copy_text("world"));
    child.push(copy_text("cache"));
    child.push(copy_text("compute"));
    let ghost start = seq!["world"@, "cache"@, "compute"@];
    assert(all.take(0) =~= Seq::<Seq<char>>::empty());
    assert(text::texts(child@) =~= start + background_rest(all.take(0), parent_json));
    let mut i: usize = 0;
    while i < args.len()
        invariant
            i <= args@.len(),
            all == text::texts(args@),
            start == seq!["world"@, "cache"@, "compute"@],
            text::texts(child@) == start + background_rest(all.take(i as int), parent_json),
        decreases args@.len() - i,
    {
        let ghost before = text::texts(child@);
        proof {
            assert(all.take(i + 1).drop_last() =~= all.take(i as int));
            assert(all.take(i + 1).last() == args@[i as int]@);
        }
        let arg = &args[i];
        if !(text_eq(arg, "--background") || (parent_json && text_eq(arg, "--json"))) {
            child.push(copy_text(arg));
            assert(text::texts(child@) =~= before.push(arg@));
        }
        assert(text::texts(child@) =~= start + background_rest(all.take(i + 1), parent_json));
        i = i + 1;
    }
    assert(all.take(i as int) =~= all);
    child
}

/// A computation in the background is not asked to run in the background again.
pub proof fn law_background_runs_in_front(args: Seq<Seq<char>>, parent_json: bool)
    ensures
        !background_rest(args, parent_json).contains("--background"@),
        parent_json ==> !background_rest(args, parent_json).contains("--json"@),
    decreases args.len(),
{
    if args.len() > 0 {
        law_background_runs_in_front(args.drop_last(), parent_json);
        let before = background_rest(args.drop_last(), parent_json);
        let after = background_rest(args, parent_json);
        assert forall|word: Seq<char>|
            !before.contains(word) && word != args.last() implies !after.contains(word) by {
            if after.contains(word) {
                let i = choose|i: int| 0 <= i < after.len() && after[i] == word;
                assert(before[i] == word);
            }
        }
    }
}

} // verus!
