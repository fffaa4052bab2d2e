//! Paths as texts, and where the project keeps its files.

use crate::text::{
    chars_of, concat2, concat3, copy_text, decimal_u32, starts_with, starts_with_char, text_eq,
    text_of_range,
};
use crate::error;
use crate::text;
use crate::textlist::split_text;
use crate::textlist;
use vstd::prelude::*;

verus! {

/// Whether a path starts at the root.
pub open spec fn is_rooted(path: Seq<char>) -> bool {
    path.len() > 0 && path[0] == '/'
}

/// A path below a directory: the path itself where it starts at the root.
pub open spec fn joined(dir: Seq<char>, path: Seq<char>) -> Seq<char> {
    if is_rooted(path) || dir.len() == 0 {
        path
    } else if dir.last() == '/' {
        dir + path
    } else {
        dir + "/"@ + path
    }
}

/// Whether a path starts at the root.
pub fn is_absolute(path: &str) -> (result: bool)
    ensures
        result == is_rooted(path@),
{
    starts_with_char(path, '/')
}

/// A path below a directory.
pub fn join(dir: &str, path: &str) -> (result: String)
    ensures
        result@ == joined(dir@, path@),
{
    if is_absolute(path) {
        return copy_text(path);
    }
    let chars = chars_of(dir);
    if chars.len() == 0 {
        copy_text(path)
    } else if chars[chars.len() - 1] == '/' {
        concat2(dir, path)
    } else {
        concat3(dir, "/", path)
    }
}

/// A path with a leading `~` replaced by the home directory, where that is known.
pub open spec fn home_expanded(path: Seq<char>, home: Option<Seq<char>>) -> Seq<char> {
    match home {
        None => path,
        Some(home) => if path == "~"@ {
            home
        } else if text::starts(path, "~/"@) {
            joined(home, path.skip(2))
        } else {
            path
        },
    }
}

/// The view of a text that may be missing.
pub open spec fn str_if(text: Option<&str>) -> Option<Seq<char>> {
    match text {
        Some(text) => Some(text@),
        None => None,
    }
}

/// Replaces a leading `~` by the home directory.
pub fn expand_home(path: &str, home: Option<&str>) -> (result: String)
    ensures
        result@ == home_expanded(path@, str_if(home)),
{
    let home = match home {
        None => {
            return copy_text(path);
        },
        Some(home) => home,
    };
    if text_eq(path, "~") {
        copy_text(home)
    } else if starts_with(path, "~/") {
        proof {
            reveal_strlit("~/");
        }
        let chars = chars_of(path);
        let rest = text_of_range(&chars, 2, chars.len());
        assert(rest@ =~= path@.skip(2));
        join(home, rest.as_str())
    } else {
        copy_text(path)
    }
}

/// A base directory that an environment gives: it counts where it starts at the root.
pub open spec fn rooted_if(value: Option<Seq<char>>) -> Option<Seq<char>> {
    match value {
        Some(path) => if is_rooted(path) {
            Some(path)
        } else {
            None
        },
        None => None,
    }
}

/// Where the configuration file is looked for.
pub open spec fn config_place(
    mural_config: Option<Seq<char>>,
    xdg_config_home: Option<Seq<char>>,
    home: Option<Seq<char>>,
) -> Option<Seq<char>> {
    match mural_config {
        Some(path) => Some(home_expanded(path, home)),
        None => match rooted_if(xdg_config_home) {
            Some(base) => Some(joined(base, "mural/config"@)),
            None => match home {
                Some(home) => Some(joined(home, ".config/mural/config"@)),
                None => None,
            },
        },
    }
}

/// Where the configuration file is looked for: the explicit path, else the directory
/// for configuration files where it is absolute, else the home directory.
pub fn config_path_from(
    mural_config: Option<&str>,
    xdg_config_home: Option<&str>,
    home: Option<&str>,
) -> (result: Option<String>)
    ensures
        text::text_if(result) == config_place(
            str_if(mural_config),
            str_if(xdg_config_home),
            str_if(home),
        ),
{
    if let Some(path) = mural_config {
        return Some(expand_home(path, home));
    }
    if let Some(base) = xdg_config_home {
        if is_absolute(base) {
            return Some(join(base, "mural/config"));
        }
    }
    match home {
        Some(home) => Some(join(home, ".config/mural/config")),
        None => None,
    }
}

/// The socket of a user, where no runtime directory is known.
pub open spec fn fallback_socket(uid: Option<u32>) -> Result<Seq<char>, Seq<char>> {
    match uid {
        Some(uid) => Ok("/tmp/mural-"@ + text::decimal_text(uid as nat) + "/mural.sock"@),
        None => Err(
            "cannot determine the effective UID for the fallback mural socket; set MURAL_SOCKET or XDG_RUNTIME_DIR"@,
        ),
    }
}

/// The socket of a user, where no runtime directory is known.
pub fn fallback_socket_path_for_uid(uid: Option<u32>) -> (result: Result<String, String>)
    ensures
        error::agrees_view(result, fallback_socket(uid)),
{
    match uid {
        Some(uid) => {
            let digits = decimal_u32(uid);
            Ok(concat3("/tmp/mural-", digits.as_str(), "/mural.sock"))
        },
        None => Err(
            copy_text(
                "cannot determine the effective UID for the fallback mural socket; set MURAL_SOCKET or XDG_RUNTIME_DIR",
            ),
        ),
    }
}

/// Where the daemon listens by default.
pub open spec fn socket_place(
    mural_socket: Option<Seq<char>>,
    runtime_dir: Option<Seq<char>>,
    uid: Option<u32>,
) -> Result<Seq<char>, Seq<char>> {
    match mural_socket {
        Some(socket) if socket.len() > 0 => Ok(socket),
        _ => match rooted_if(runtime_dir) {
            Some(dir) => Ok(joined(dir, "mural/mural.sock"@)),
            None => fallback_socket(uid),
        },
    }
}

/// Return the default runtime socket path.
///
/// This uses `$MURAL_SOCKET` first for testing and ad-hoc sessions, then
/// `$XDG_RUNTIME_DIR/mural/mural.sock`, and finally an effective-UID-scoped path
/// under `/tmp` as a last resort for non-systemd test environments. The values of the
/// two variables and the effective UID are given by the caller.
pub fn default_socket_path(
    mural_socket: Option<&str>,
    runtime_dir: Option<&str>,
    uid: Option<u32>,
) -> (result: Result<String, String>)
    ensures
        error::agrees_view(
            result,
            socket_place(str_if(mural_socket), str_if(runtime_dir), uid),
        ),
{
    if let Some(socket) = mural_socket {
        if !text_eq(socket, "") {
            proof {
                reveal_strlit("");
                if socket@.len() == 0 {
                    assert(socket@ =~= ""@);
                }
            }
            return Ok(copy_text(socket));
        }
        proof {
            reveal_strlit("");
        }
    }
    if let Some(dir) = runtime_dir {
        if is_absolute(dir) {
            return Ok(join(dir, "mural/mural.sock"));
        }
    }
    fallback_socket_path_for_uid(uid)
}


// ---------------------------------------------------------------------------
// The parts of a path

/// Whether a piece between slashes counts: it is not empty, and not `.`.
pub open spec fn is_part(piece: Seq<char>) -> bool {
    piece.len() > 0 && piece != "."@
}

/// The parts of a path: the names between its slashes, behind a `/` where it starts at
/// the root, or a `.` where it starts with that.
pub open spec fn parts_of(path: Seq<char>) -> Seq<Seq<char>> {
    let pieces = text::split_all(path, '/');
    let names = pieces.filter(|piece: Seq<char>| is_part(piece));
    if is_rooted(path) {
        seq!["/"@] + names
    } else if pieces[0] == "."@ {
        seq!["."@] + names
    } else {
        names
    }
}

/// The parts of a path.
pub fn path_parts(path: &str) -> (result: Vec<String>)
    ensures
        text::texts(result@) == parts_of(path@),
{
    let pieces = split_text(path, '/');
    let ghost all = text::texts(pieces@);
    let ghost keep = |piece: Seq<char>| is_part(piece);
    let ghost head = if is_rooted(path@) {
        seq!["/"@]
    } else if all[0] == "."@ {
        seq!["."@]
    } else {
        Seq::<Seq<char>>::empty()
    };
    let mut result: Vec<String> = Vec::new();
    proof {
        lemma_split_some(path@, '/');
    }
    if is_absolute(path) {
        result.push(copy_text("/"));
    } else if text_eq(pieces[0].as_str(), ".") {
        result.push(copy_text("."));
    }
    let mut i: usize = 0;
    proof {
        reveal(Seq::filter);
        assert(all.take(0) =~= Seq::<Seq<char>>::empty());
        assert(text::texts(result@) =~= head + all.take(0).filter(keep));
    }
    while i < pieces.len()
        invariant
            i <= pieces@.len(),
            all == text::texts(pieces@),
            keep == (|piece: Seq<char>| is_part(piece)),
            text::texts(result@) == head + all.take(i as int).filter(keep),
        decreases pieces@.len() - i,
    {
        proof {
            reveal(Seq::filter);
            reveal_strlit("");
            assert(all.take(i + 1).drop_last() =~= all.take(i as int));
            assert(all.take(i + 1).last() == pieces@[i as int]@);
            if pieces@[i as int]@.len() == 0 {
                assert(pieces@[i as int]@ =~= ""@);
            }
        }
        if !text_eq(pieces[i].as_str(), "") && !text_eq(pieces[i].as_str(), ".") {
            let ghost before = text::texts(result@);
            result.push(copy_text(pieces[i].as_str()));
            assert(text::texts(result@) =~= before.push(pieces@[i as int]@));
            assert(before.push(pieces@[i as int]@) =~= head + all.take(i + 1).filter(keep));
        }
        i = i + 1;
    }
    assert(all.take(i as int) =~= all);
    assert(text::texts(result@) =~= parts_of(path@));
    result
}

proof fn lemma_split_some(s: Seq<char>, c: char)
    ensures
        text::split_all(s, c).len() > 0,
{
}

/// The parts of the directory that a path stands in, if it stands in one.
pub open spec fn parent_parts(path: Seq<char>) -> Option<Seq<Seq<char>>> {
    let parts = parts_of(path);
    if parts.len() == 0 || (parts.len() == 1 && parts[0] == "/"@) {
        None
    } else {
        Some(parts.drop_last())
    }
}

/// Whether a path stands directly in a directory.
pub open spec fn stands_in(path: Seq<char>, dir: Seq<char>) -> bool {
    parent_parts(path) == Some(parts_of(dir))
}

/// Whether a path is a directory or stands somewhere below it.
pub open spec fn is_within(path: Seq<char>, dir: Seq<char>) -> bool {
    parts_of(dir).is_prefix_of(parts_of(path))
}

/// The name of the file at a path: its last part, where that is a name.
pub open spec fn name_of_file(path: Seq<char>) -> Option<Seq<char>> {
    let parts = parts_of(path);
    if parts.len() == 0 || parts.last() == "/"@ || parts.last() == "."@ || parts.last() == ".."@ {
        None
    } else {
        Some(parts.last())
    }
}

/// The place of the last occurrence of a character, or -1.
pub open spec fn last_index(s: Seq<char>, c: char) -> int
    decreases s.len(),
{
    if s.len() == 0 {
        -1
    } else if s.last() == c {
        s.len() - 1
    } else {
        last_index(s.drop_last(), c)
    }
}

/// A file name in front of its last dot, and what follows that. A name that starts with
/// its only dot, or has none, has no extension.
pub open spec fn stem_and_extension(name: Seq<char>) -> (Seq<char>, Option<Seq<char>>) {
    let dot = last_index(name, '.');
    if name == ".."@ || dot <= 0 || dot >= name.len() {
        (name, None)
    } else {
        (name.take(dot), Some(name.skip(dot + 1)))
    }
}

fn same_parts(a: &Vec<String>, a_len: usize, b: &Vec<String>) -> (same: bool)
    requires
        a_len <= a@.len(),
    ensures
        same == (text::texts(a@).take(a_len as int) == text::texts(b@)),
{
    if a_len != b.len() {
        assert(text::texts(a@).take(a_len as int).len() != text::texts(b@).len());
        return false;
    }
    let mut i: usize = 0;
    while i < a_len
        invariant
            i <= a_len == b@.len(),
            a_len <= a@.len(),
            forall|k: int| 0 <= k < i ==> (#[trigger] a@[k])@ == b@[k]@,
        decreases a_len - i,
    {
        if !text_eq(a[i].as_str(), b[i].as_str()) {
            assert(text::texts(a@).take(a_len as int)[i as int] != text::texts(b@)[i as int]);
            return false;
        }
        i = i + 1;
    }
    assert(text::texts(a@).take(a_len as int) =~= text::texts(b@));
    true
}

/// Whether a path stands directly in a directory.
pub fn is_in_dir(path: &str, dir: &str) -> (result: bool)
    ensures
        result == stands_in(path@, dir@),
{
    let parts = path_parts(path);
    let dir_parts = path_parts(dir);
    if parts.len() == 0 {
        return false;
    }
    assert(text::texts(parts@)[0] == parts@[0]@);
    if parts.len() == 1 && text_eq(parts[0].as_str(), "/") {
        return false;
    }
    assert(text::texts(parts@).drop_last() =~= text::texts(parts@).take(parts@.len() - 1));
    same_parts(&parts, parts.len() - 1, &dir_parts)
}

/// Whether a path is a directory or stands somewhere below it.
pub fn is_below(path: &str, dir: &str) -> (result: bool)
    ensures
        result == is_within(path@, dir@),
{
    let parts = path_parts(path);
    let dir_parts = path_parts(dir);
    if dir_parts.len() > parts.len() {
        return false;
    }
    assert(text::texts(parts@).take(dir_parts@.len() as int) =~= text::texts(parts@).subrange(
        0,
        text::texts(dir_parts@).len() as int,
    ));
    same_parts(&parts, dir_parts.len(), &dir_parts)
}

/// The name of the file at a path.
pub fn file_name(path: &str) -> (result: Option<String>)
    ensures
        text::text_if(result) == name_of_file(path@),
{
    let parts = path_parts(path);
    if parts.len() == 0 {
        return None;
    }
    let last: usize = parts.len() - 1;
    assert(text::texts(parts@).last() == parts@[last as int]@);
    if text_eq(parts[last].as_str(), "/") || text_eq(parts[last].as_str(), ".") || text_eq(
        parts[last].as_str(),
        "..",
    ) {
        return None;
    }
    Some(copy_text(parts[last].as_str()))
}

/// Splits a file name at its last dot.
pub fn split_extension(name: &str) -> (result: (String, Option<String>))
    ensures
        result.0@ == stem_and_extension(name@).0,
        text::text_if(result.1) == stem_and_extension(name@).1,
{
    let chars = chars_of(name);
    if text_eq(name, "..") {
        return (copy_text(name), None);
    }
    let mut i: usize = chars.len();
    assert(name@.take(i as int) =~= name@);
    while i > 0
        invariant
            i <= chars@.len(),
            chars@ == name@,
            name@ != ".."@,
            last_index(name@, '.') == last_index(name@.take(i as int), '.'),
        decreases i,
    {
        assert(name@.take(i as int).last() == name@[i - 1]);
        assert(name@.take(i as int).drop_last() =~= name@.take(i - 1));
        if chars[i - 1] == '.' {
            if i == 1 {
                return (copy_text(name), None);
            }
            let stem = text_of_range(&chars, 0, i - 1);
            let extension = text_of_range(&chars, i, chars.len());
            assert(stem@ =~= name@.take(i - 1));
            assert(extension@ =~= name@.skip(i as int));
            return (stem, Some(extension));
        }
        i = i - 1;
    }
    (copy_text(name), None)
}

/// The place of the last occurrence is one, or there is none.
pub proof fn lemma_last_index(s: Seq<char>, c: char)
    ensures
        -1 <= last_index(s, c) < s.len(),
        last_index(s, c) >= 0 ==> s[last_index(s, c)] == c,
    decreases s.len(),
{
    if s.len() > 0 && s.last() != c {
        lemma_last_index(s.drop_last(), c);
    }
}

/// The name of a file is not empty.
pub proof fn lemma_file_name_some(path: Seq<char>)
    ensures
        name_of_file(path) matches Some(name) ==> name.len() > 0,
{
    let keep = |piece: Seq<char>| is_part(piece);
    let pieces = text::split_all(path, '/');
    let names = pieces.filter(keep);
    let parts = parts_of(path);
    if let Some(name) = name_of_file(path) {
        if names.len() > 0 {
            assert(parts.last() == names.last());
            assert(names.contains(names.last()));
            textlist::lemma_filter_contains(pieces, keep, names.last());
        } else {
            assert(parts =~= seq!["/"@] || parts =~= seq!["."@]);
        }
    }
}

} // verus!
