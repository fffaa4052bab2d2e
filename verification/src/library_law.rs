//! What is proved of the library: where it is kept, which files belong to it, and what reading
//! it again changes.

use crate::config::ConfigView;
use crate::control::{ControlView, DiskView};
use crate::library::StoredLists;
use crate::control;
use crate::drawing;
use crate::library;
use crate::paths;
use crate::random;
use crate::scale;
use crate::text;
use crate::textlist;
use crate::textmap;
use crate::wallpaper;
use vstd::prelude::*;

verus! {

// ---------------------------------------------------------------------------
// Places and numbers

/// Where a value comes from: a variable of this program goes before the configuration, that
/// before a common variable, and that before the default.
pub open spec fn comes_in_order<T>(
    result: T,
    own: Option<T>,
    configured: Option<T>,
    common: Option<T>,
    default: T,
) -> bool {
    &&& own is Some ==> own == Some(result)
    &&& own is None && configured is Some ==> configured == Some(result)
    &&& own is None && configured is None && common is Some ==> common == Some(result)
    &&& own is None && configured is None && common is None ==> default == result
}

/// The directories of wallpapers, of the state and of the quarantine come from the variables
/// and settings that are named after them.
pub proof fn law_places_come_in_order(
    config: ConfigView,
    environment: Seq<(Seq<char>, Seq<char>)>,
    home: Seq<char>,
)
    ensures
        ({
            let (wall_dir, state_dir, quarantine_dir) = library::places(config, environment, home);
            let read = |name: Seq<char>| match textmap::entries_get(environment, name) {
                Some(value) => Some(paths::home_expanded(value, Some(home))),
                None => None,
            };
            &&& comes_in_order(
                wall_dir,
                read("MURAL_WALL_DIR"@),
                config.wall_dir,
                read("WALL_DIR"@),
                paths::joined(home, "Pictures/wallpapers"@),
            )
            &&& comes_in_order(
                quarantine_dir,
                read("MURAL_QUARANTINE_DIR"@),
                config.quarantine_dir,
                read("QUARANTINE_DIR"@),
                paths::joined(wall_dir, ".quarantine"@),
            )
            &&& comes_in_order(
                state_dir,
                read("MURAL_STATE_DIR"@),
                config.state_dir,
                None,
                match textmap::entries_get(environment, "XDG_STATE_HOME"@) {
                    Some(base) => if base.len() > 0 && base[0] == '/' {
                        paths::joined(base, "mural"@)
                    } else {
                        paths::joined(home, ".local/state/mural"@)
                    },
                    None => paths::joined(home, ".local/state/mural"@),
                },
            )
        }),
{
}

/// The weight of favorites and the length of histories come from the variables and settings
/// that are named after them. Neither is zero, and a variable that is no number counts as not
/// set.
pub proof fn law_numbers_come_in_order(
    config: ConfigView,
    environment: Seq<(Seq<char>, Seq<char>)>,
    home: Seq<char>,
    lists: StoredLists,
    rng: u64,
)
    ensures
        ({
            let c = library::recalled(config, environment, home, lists, rng);
            let read = |name: Seq<char>| match textmap::entries_get(environment, name) {
                Some(value) => match text::unsigned_value(value, usize::MAX as nat) {
                    Ok(number) => Some(if number == 0 { 1nat } else { number }),
                    Err(_) => None,
                },
                None => None,
            };
            let set = |value: Option<usize>| match value {
                Some(number) => Some(if number == 0 { 1nat } else { number as nat }),
                None => None,
            };
            &&& comes_in_order(
                c.favorite_weight as nat,
                read("MURAL_FAVORITE_WEIGHT"@),
                set(config.favorite_weight),
                read("FAVORITE_WEIGHT"@),
                4,
            )
            &&& comes_in_order(
                c.max_history as nat,
                read("MURAL_MAX_HISTORY"@),
                set(config.max_history),
                read("MAX_HISTORY"@),
                1000,
            )
        }),
{
    lemma_number_bound(environment, "MURAL_FAVORITE_WEIGHT"@);
    lemma_number_bound(environment, "FAVORITE_WEIGHT"@);
    lemma_number_bound(environment, "MURAL_MAX_HISTORY"@);
    lemma_number_bound(environment, "MAX_HISTORY"@);
}

proof fn lemma_number_bound(environment: Seq<(Seq<char>, Seq<char>)>, name: Seq<char>)
    ensures
        textmap::entries_get(environment, name) matches Some(value) ==> (text::unsigned_value(
            value,
            usize::MAX as nat,
        ) matches Ok(number) ==> number <= usize::MAX),
{
    if let Some(value) = textmap::entries_get(environment, name) {
        text::lemma_unsigned_value_bounded(value, usize::MAX as nat);
    }
}

// ---------------------------------------------------------------------------
// Files

proof fn lemma_split_joined(a: Seq<char>, b: Seq<char>)
    ensures
        text::split_all(a + "/"@ + b, '/') == text::split_all(a, '/') + text::split_all(b, '/'),
    decreases a.len(),
{
    reveal_strlit("/");
    assert("/"@.len() == 1 && "/"@[0] == '/');
    let all = a + "/"@ + b;
    let i = text::first_index(a, '/');
    text::lemma_first_index(a, '/');
    text::lemma_first_index(all, '/');
    if i < a.len() {
        assert(all[i] == a[i]);
        assert(text::first_index(all, '/') == i) by {
            assert forall|k: int| 0 <= k < i implies all[k] != '/' by {
                assert(all[k] == a[k]);
            }
        }
        assert(all.take(i) =~= a.take(i));
        assert(all.skip(i + 1) =~= a.skip(i + 1) + "/"@ + b);
        lemma_split_joined(a.skip(i + 1), b);
        assert(text::split_all(all, '/') =~= text::split_all(a, '/') + text::split_all(b, '/'));
    } else {
        assert(all[a.len() as int] == '/');
        assert(text::first_index(all, '/') == a.len()) by {
            assert forall|k: int| 0 <= k < a.len() implies all[k] != '/' by {
                assert(all[k] == a[k]);
            }
        }
        assert(all.take(a.len() as int) =~= a);
        assert(all.skip(a.len() as int + 1) =~= b);
    }
}

proof fn lemma_filter_push(list: Seq<Seq<char>>, last: Seq<char>)
    requires
        paths::is_part(last),
    ensures
        (list + seq![last]).filter(|piece: Seq<char>| paths::is_part(piece)) == list.filter(
            |piece: Seq<char>| paths::is_part(piece),
        ).push(last),
{
    reveal(Seq::filter);
    let all = list + seq![last];
    assert(all.drop_last() =~= list);
    assert(all.last() == last);
}

/// Whether a text can name a file.
pub open spec fn is_file_name(name: Seq<char>) -> bool {
    &&& name.len() > 0
    &&& !name.contains('/')
    &&& name != "."@
    &&& name != ".."@
}

/// A file whose path is a directory, a slash and a name stands in that directory, below every
/// directory that that one is below, and has that name.
#[verifier::spinoff_prover]
pub proof fn law_files_stand_in_their_directory(dir: Seq<char>, name: Seq<char>, above: Seq<char>)
    requires
        dir.len() > 0,
        is_file_name(name),
    ensures
        ({
            let path = dir + "/"@ + name;
            &&& paths::parts_of(path) == paths::parts_of(dir).push(name)
            &&& paths::stands_in(path, dir)
            &&& paths::is_within(path, dir)
            &&& paths::is_within(dir, above) ==> paths::is_within(path, above)
            &&& paths::name_of_file(path) == Some(name)
        }),
{
    let path = dir + "/"@ + name;
    lemma_split_joined(dir, name);
    text::lemma_first_index(name, '/');
    assert(text::split_all(name, '/') == seq![name]);
    lemma_filter_push(text::split_all(dir, '/'), name);
    let pieces = text::split_all(path, '/');
    assert(pieces[0] == text::split_all(dir, '/')[0]);
    assert(path[0] == dir[0]);
    let parts = paths::parts_of(path);
    assert(parts =~= paths::parts_of(dir).push(name));
    assert(parts.drop_last() =~= paths::parts_of(dir));
    reveal_strlit("/");
    assert("/"@[0] == '/');
    assert(name != "/"@) by {
        if name == "/"@ {
            assert(name.contains(name[0]));
        }
    }
    if parts.len() == 1 {
        assert(parts[0] == name);
    }
    assert(paths::parts_of(dir).is_prefix_of(parts));
}

/// A file in a directory below another one does not stand in that other one itself.
pub proof fn law_deeper_files_stand_elsewhere(dir: Seq<char>, below: Seq<char>, name: Seq<char>)
    requires
        dir.len() > 0,
        is_file_name(below),
        is_file_name(name),
    ensures
        !paths::stands_in(dir + "/"@ + below + "/"@ + name, dir),
        paths::is_within(dir + "/"@ + below + "/"@ + name, dir),
{
    let inner = dir + "/"@ + below;
    law_files_stand_in_their_directory(dir, below, dir);
    law_files_stand_in_their_directory(inner, name, dir);
    let parts = paths::parts_of(inner + "/"@ + name);
    assert(parts.drop_last() =~= paths::parts_of(inner));
    assert(paths::parts_of(inner).len() == paths::parts_of(dir).len() + 1);
}

pub proof fn lemma_last_dot(stem: Seq<char>, extension: Seq<char>)
    requires
        !extension.contains('.'),
    ensures
        paths::last_index(stem + "."@ + extension, '.') == stem.len(),
    decreases extension.len(),
{
    reveal_strlit(".");
    assert("."@.len() == 1 && "."@[0] == '.');
    let name = stem + "."@ + extension;
    if extension.len() > 0 {
        let shorter = extension.drop_last();
        assert(name.last() == extension.last());
        assert(extension.contains(extension.last()));
        assert(name.drop_last() =~= stem + "."@ + shorter);
        assert forall|c: char| shorter.contains(c) implies extension.contains(c) by {
            let i = choose|i: int| 0 <= i < shorter.len() && shorter[i] == c;
            assert(extension[i] == c);
        }
        lemma_last_dot(stem, shorter);
    } else {
        assert(name.last() == '.');
    }
}

/// A file is an image where what follows the last dot of its name says so, in small letters or
/// capitals.
#[verifier::spinoff_prover]
pub proof fn law_images_are_told_by_their_extension(
    dir: Seq<char>,
    stem: Seq<char>,
    extension: Seq<char>,
)
    requires
        dir.len() > 0,
        stem.len() > 0,
        !stem.contains('/'),
        !extension.contains('.'),
        !extension.contains('/'),
        extension.len() > 0,
    ensures
        control::is_image_name(dir + "/"@ + (stem + "."@ + extension)) <==> {
            ||| scale::is_word_in_any_case(extension, "jpg"@)
            ||| scale::is_word_in_any_case(extension, "jpeg"@)
            ||| scale::is_word_in_any_case(extension, "png"@)
            ||| scale::is_word_in_any_case(extension, "webp"@)
        },
{
    let name = stem + "."@ + extension;
    reveal_strlit(".");
    reveal_strlit("..");
    assert("."@.len() == 1 && "."@[0] == '.' && ".."@.len() == 2);
    assert(name.len() >= 3);
    assert(!name.contains('/')) by {
        assert forall|i: int| 0 <= i < name.len() implies name[i] != '/' by {
            if i < stem.len() {
                assert(name[i] == stem[i]);
                assert(stem.contains(stem[i]));
            } else if i > stem.len() {
                let k = i - stem.len() - 1;
                assert(name[i] == extension[k]);
                assert(extension.contains(extension[k]));
            }
        }
    }
    law_files_stand_in_their_directory(dir, name, dir);
    lemma_last_dot(stem, extension);
    assert(name.skip(stem.len() as int + 1) =~= extension);
}

/// The library is the images that stand in its directory and not in quarantine, in ascending
/// order and each once.
pub proof fn law_scan_finds_the_wallpapers(
    wall_dir: Seq<char>,
    quarantine_dir: Seq<char>,
    disk: DiskView,
    path: Seq<char>,
)
    ensures
        match control::scanned(wall_dir, quarantine_dir, disk) {
            Ok(library) => {
                &&& disk.error is None
                &&& library.contains(path) <==> {
                    &&& disk.files.contains(path)
                    &&& paths::stands_in(path, wall_dir)
                    &&& !paths::is_within(path, quarantine_dir)
                    &&& control::is_image_name(path)
                }
                &&& forall|i: int, j: int|
                    0 <= i < j < library.len() ==> text::text_before(
                        #[trigger] library[i],
                        #[trigger] library[j],
                    )
            },
            Err(message) => disk.error == Some(message),
        },
{
    let keep = |path: Seq<char>| control::is_wall_path(wall_dir, quarantine_dir, path);
    textlist::lemma_sorted_unique(disk.files.filter(keep));
    textlist::lemma_filter_contains(disk.files, keep, path);
}

// ---------------------------------------------------------------------------
// Reading the library again

/// Reading the library again tells how many wallpapers it did not have and how many it has no
/// longer. What the bag held of those that stay stays in its order, and what is new is in the
/// bag.
#[verifier::spinoff_prover]
pub proof fn law_rescan_tells_what_changed(c: ControlView, disk: DiskView, wall: Seq<char>)
    requires
        drawing::sound_control(c),
        disk.error is None,
        drawing::bag_size(c, drawing::on_disk(c, disk), disk.files) <= usize::MAX,
    ensures
        control::rescanned(c, disk) matches Ok((next, added, removed)) && {
            let stays = c.bag.filter(
                |held: Seq<char>| next.library.contains(held) && disk.files.contains(held),
            );
            &&& next.library.contains(wall) <==> disk.files.contains(wall) && control::is_wall_path(
                c.wall_dir,
                c.quarantine_dir,
                wall,
            )
            &&& added == next.library.filter(|held: Seq<char>| !c.library.contains(held)).len()
            &&& removed == textlist::sorted_unique(c.library).filter(
                |held: Seq<char>| !next.library.contains(held),
            ).len()
            &&& stays.len() + added > 0 ==> {
                &&& next.bag.len() == stays.len() + added
                &&& next.bag.take(stays.len() as int) == stays
                &&& next.bag.skip(stays.len() as int).to_multiset() == next.library.filter(
                    |held: Seq<char>| !c.library.contains(held),
                ).to_multiset()
                &&& next.pos == if c.pos <= stays.len() {
                    c.pos as int
                } else {
                    stays.len() as int
                }
            }
            &&& stays.len() + added == 0 && next.library.len() > 0 ==> next.pos == 0
            &&& next.wall_dir == c.wall_dir
            &&& next.state_dir == c.state_dir
            &&& next.quarantine_dir == c.quarantine_dir
            &&& next.layouts == c.layouts
            &&& next.favorite_weight == c.favorite_weight
            &&& next.max_history == c.max_history
        },
{
    drawing::lemma_rescanned(c, disk);
    drawing::lemma_on_disk(c, disk);
    let library = control::wallpapers(c.wall_dir, c.quarantine_dir, disk.files);
    let new = textlist::not_held_by(library, c.library);
    let kept = textlist::held_by_both(c.bag, library, disk.files);
    let next = control::rescanned(c, disk)->Ok_0.0;
    drawing::lemma_weighted(
        library,
        control::kept_favorites(c.favorites, library, disk.files),
        c.favorite_weight,
        wall,
    );
    drawing::lemma_filter_len(library, |text: Seq<char>| !c.library.contains(text));
    random::lemma_shuffle_len(new, c.rng);
    random::law_shuffle_permutes(new, c.rng);
    let additions = random::shuffled(new, c.rng).0;
    if kept.len() + new.len() > 0 {
        assert(next.bag == kept + additions);
        assert(next.bag.take(kept.len() as int) =~= kept);
        assert(next.bag.skip(kept.len() as int) =~= additions);
    }
}

/// A library is opened with what its disk holds; it cannot be opened without a home directory or
/// where the disk cannot be read.
pub proof fn law_libraries_open_with_what_is_on_disk(
    config: ConfigView,
    environment: Seq<(Seq<char>, Seq<char>)>,
    lists: StoredLists,
    disk: DiskView,
    rng: u64,
)
    ensures
        match library::opened(config, environment, lists, disk, rng) {
            Ok(c) => textmap::entries_get(environment, "HOME"@) matches Some(home) && {
                let (wall_dir, state_dir, quarantine_dir) = library::places(
                    config,
                    environment,
                    home,
                );
                &&& c.wall_dir == wall_dir
                &&& c.state_dir == state_dir
                &&& c.quarantine_dir == quarantine_dir
                &&& control::scanned(wall_dir, quarantine_dir, disk) == Ok::<
                    Seq<Seq<char>>,
                    Seq<char>,
                >(c.library)
                &&& c.layouts.len() == 0
            },
            Err(_) => textmap::entries_get(environment, "HOME"@) is None || disk.error is Some,
        },
{
}

/// An output can be named by a number below the number of outputs, and by no other.
pub proof fn law_outputs_are_counted_from_zero(count: nat, index: usize, label: Seq<char>)
    ensures
        wallpaper::index_check(count, index, label) is Ok <==> index < count,
{
}

/// One text stands before another where it is the beginning of the other, or has the smaller
/// character at the first place in which they differ.
pub proof fn law_order_is_by_characters(a: Seq<char>, b: Seq<char>, k: int)
    requires
        0 <= k <= a.len(),
        k <= b.len(),
        forall|i: int| 0 <= i < k ==> a[i] == b[i],
    ensures
        k == a.len() && k < b.len() ==> text::text_before(a, b),
        k == b.len() ==> !text::text_before(a, b),
        k < a.len() && k < b.len() && a[k] != b[k] ==> (text::text_before(a, b) <==> a[k] < b[k]),
    decreases k,
{
    if k > 0 {
        assert forall|i: int| 0 <= i < k - 1 implies a.drop_first()[i] == b.drop_first()[i] by {
            assert(a[i + 1] == b[i + 1]);
        }
        assert(a[0] == b[0]);
        law_order_is_by_characters(a.drop_first(), b.drop_first(), k - 1);
    }
}

} // verus!
