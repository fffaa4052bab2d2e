//! Drawing from the bag comes to an end.

use crate::control::{ControlView, DiskView, Task};
use crate::layout::LayoutView;
use crate::control;
use crate::layout;
use crate::random;
use crate::textlist;
use crate::textmap;
use vstd::prelude::*;

verus! {

/// Whether a layout has an output and room for a row, and its window starts within a row.
pub open spec fn sound_layout(layout: LayoutView) -> bool {
    1 <= layout.out_count && layout.offset < layout.out_count && 1 <= layout.max_history
}

/// Whether a library is in order: the wallpapers and the favorites sorted, each once; every
/// wallpaper of the bag one of the library; every wallpaper where wallpapers are kept.
pub open spec fn sound_control(c: ControlView) -> bool {
    &&& textlist::ascending(c.library)
    &&& textlist::ascending(c.favorites)
    &&& c.favorite_weight >= 1
    &&& c.max_history >= 1
    &&& forall|wall: Seq<char>| #[trigger] c.bag.contains(wall) ==> c.library.contains(wall)
    &&& forall|wall: Seq<char>| #[trigger]
        c.library.contains(wall) ==> control::is_wall_path(c.wall_dir, c.quarantine_dir, wall)
    &&& sound_layouts(c.layouts)
}

/// Whether the layouts of a table are in order.
pub open spec fn sound_layouts(layouts: Seq<(Seq<char>, LayoutView)>) -> bool {
    &&& textmap::keys_ascending(layouts)
    &&& forall|key: Seq<char>|
        (#[trigger] textmap::entries_get(layouts, key)) matches Some(layout) ==> sound_layout(layout)
}

/// The wallpapers on disk.
pub open spec fn on_disk(c: ControlView, disk: DiskView) -> Seq<Seq<char>> {
    control::wallpapers(c.wall_dir, c.quarantine_dir, disk.files)
}

/// How many wallpapers a fresh bag for a library holds.
pub open spec fn bag_size(c: ControlView, library: Seq<Seq<char>>, files: Seq<Seq<char>>) -> nat {
    control::weighted(
        library,
        control::kept_favorites(c.favorites, library, files),
        c.favorite_weight,
    ).len()
}

/// Whether the bag stays within what a size can be.
pub open spec fn has_room(c: ControlView, disk: DiskView) -> bool {
    &&& bag_size(c, c.library, disk.files) <= usize::MAX / 8
    &&& bag_size(c, on_disk(c, disk), disk.files) <= usize::MAX / 8
    &&& c.bag.len() <= if c.library == on_disk(c, disk) {
        usize::MAX / 4
    } else {
        usize::MAX / 8
    }
}

// ---------------------------------------------------------------------------
// What filling and reading again do

/// The wallpapers on disk are in order, and are the files that are wallpapers.
pub proof fn lemma_on_disk(c: ControlView, disk: DiskView)
    ensures
        textlist::ascending(on_disk(c, disk)),
        forall|wall: Seq<char>| #[trigger]
            on_disk(c, disk).contains(wall) == (disk.files.contains(wall) && control::is_wall_path(
                c.wall_dir,
                c.quarantine_dir,
                wall,
            )),
{
    let keep = |path: Seq<char>| control::is_wall_path(c.wall_dir, c.quarantine_dir, path);
    textlist::lemma_sorted_unique(disk.files.filter(keep));
    assert forall|wall: Seq<char>| #[trigger] on_disk(c, disk).contains(wall) == (
    disk.files.contains(wall) && control::is_wall_path(c.wall_dir, c.quarantine_dir, wall)) by {
        textlist::lemma_filter_contains(disk.files, keep, wall);
    }
}

proof fn lemma_repeated(wall: Seq<char>, times: nat, other: Seq<char>)
    requires
        times > 0,
    ensures
        control::repeated(wall, times).contains(other) == (other == wall),
{
    assert(control::repeated(wall, times)[0] == wall);
}

proof fn lemma_append_contains(a: Seq<Seq<char>>, b: Seq<Seq<char>>, text: Seq<char>)
    ensures
        (a + b).contains(text) == (a.contains(text) || b.contains(text)),
{
    let both = a + b;
    if a.contains(text) {
        let i = choose|i: int| 0 <= i < a.len() && a[i] == text;
        assert(both[i] == text);
    }
    if b.contains(text) {
        let i = choose|i: int| 0 <= i < b.len() && b[i] == text;
        assert(both[a.len() + i] == text);
    }
    if both.contains(text) {
        let i = choose|i: int| 0 <= i < both.len() && both[i] == text;
        if i < a.len() {
            assert(a[i] == text);
        } else {
            assert(b[i - a.len()] == text);
        }
    }
}

pub proof fn lemma_weighted(
    library: Seq<Seq<char>>,
    favorites: Seq<Seq<char>>,
    weight: usize,
    wall: Seq<char>,
)
    requires
        weight >= 1,
    ensures
        control::weighted(library, favorites, weight).contains(wall) == library.contains(wall),
        library.len() <= control::weighted(library, favorites, weight).len(),
    decreases library.len(),
{
    if library.len() > 0 {
        let head = library.drop_last();
        let last = library.last();
        let times = control::copies(last, favorites, weight);
        lemma_weighted(head, favorites, weight, wall);
        lemma_repeated(last, times, wall);
        lemma_append_contains(
            control::weighted(head, favorites, weight),
            control::repeated(last, times),
            wall,
        );
        assert(library =~= head.push(last));
        textlist::lemma_push_contains(head, last, wall);
    }
}

/// The favorites that are kept are those that the library knows and that are on disk.
pub proof fn lemma_kept(
    favorites: Seq<Seq<char>>,
    library: Seq<Seq<char>>,
    files: Seq<Seq<char>>,
    wall: Seq<char>,
)
    ensures
        control::kept_favorites(favorites, library, files).contains(wall) == (favorites.contains(
            wall,
        ) && library.contains(wall) && files.contains(wall)),
{
    textlist::lemma_sorted_unique(textlist::held_by_both(favorites, library, files));
    textlist::lemma_filter_contains(
        favorites,
        |text: Seq<char>| library.contains(text) && files.contains(text),
        wall,
    );
}

proof fn lemma_weighted_fewer(
    library: Seq<Seq<char>>,
    fewer: Seq<Seq<char>>,
    more: Seq<Seq<char>>,
    weight: usize,
)
    requires
        forall|wall: Seq<char>| #[trigger] fewer.contains(wall) ==> more.contains(wall),
    ensures
        control::weighted(library, fewer, weight).len() <= control::weighted(
            library,
            more,
            weight,
        ).len(),
    decreases library.len(),
{
    if library.len() > 0 {
        lemma_weighted_fewer(library.drop_last(), fewer, more, weight);
        assert(fewer.contains(library.last()) ==> more.contains(library.last()));
    }
}

/// A part of a library takes no more room in a bag than the whole.
pub proof fn lemma_weighted_take(
    library: Seq<Seq<char>>,
    favorites: Seq<Seq<char>>,
    weight: usize,
    n: int,
)
    requires
        0 <= n <= library.len(),
    ensures
        control::weighted(library.take(n), favorites, weight).len() <= control::weighted(
            library,
            favorites,
            weight,
        ).len(),
    decreases library.len(),
{
    if n < library.len() {
        lemma_weighted_take(library.drop_last(), favorites, weight, n);
        assert(library.drop_last().take(n) =~= library.take(n));
    } else {
        assert(library.take(n) =~= library);
    }
}

/// With fewer favorites a fresh bag is no larger.
pub proof fn lemma_bag_size(
    c: ControlView,
    next: ControlView,
    library: Seq<Seq<char>>,
    files: Seq<Seq<char>>,
)
    requires
        next.favorite_weight == c.favorite_weight,
        forall|wall: Seq<char>| #[trigger] next.favorites.contains(wall) ==> c.favorites.contains(wall),
    ensures
        bag_size(next, library, files) <= bag_size(c, library, files),
        library.len() <= bag_size(c, library, files) || c.favorite_weight == 0,
{
    let fewer = control::kept_favorites(next.favorites, library, files);
    let more = control::kept_favorites(c.favorites, library, files);
    assert forall|wall: Seq<char>| #[trigger] fewer.contains(wall) implies more.contains(wall) by {
        lemma_kept(next.favorites, library, files, wall);
        lemma_kept(c.favorites, library, files, wall);
    }
    lemma_weighted_fewer(library, fewer, more, c.favorite_weight);
    if c.favorite_weight >= 1 {
        lemma_weighted(library, more, c.favorite_weight, Seq::empty());
    }
}

/// A fresh bag holds the wallpapers of the library, and no others.
pub proof fn lemma_rebuilt(c: ControlView, files: Seq<Seq<char>>)
    requires
        c.favorite_weight >= 1,
        bag_size(c, c.library, files) <= usize::MAX || control::rebuilt(c, files).bag.len()
            <= usize::MAX,
    ensures
        textlist::ascending(control::rebuilt(c, files).favorites),
        forall|wall: Seq<char>| #[trigger]
            control::rebuilt(c, files).favorites.contains(wall) ==> c.favorites.contains(wall),
        control::rebuilt(c, files).bag.len() == bag_size(c, c.library, files),
        c.library.len() <= control::rebuilt(c, files).bag.len(),
        forall|wall: Seq<char>| #[trigger]
            control::rebuilt(c, files).bag.contains(wall) == c.library.contains(wall),
{
    let next = control::rebuilt(c, files);
    textlist::lemma_sorted_unique(textlist::held_by_both(c.favorites, c.library, files));
    let walls = control::weighted(c.library, next.favorites, c.favorite_weight);
    lemma_weighted(c.library, next.favorites, c.favorite_weight, Seq::empty());
    assert forall|wall: Seq<char>| #[trigger] next.favorites.contains(wall) implies
        c.favorites.contains(wall) by {
        lemma_kept(c.favorites, c.library, files, wall);
    }
    random::lemma_shuffle_len(walls, c.rng);
    random::law_shuffle_permutes(walls, c.rng);
    assert forall|wall: Seq<char>| #[trigger] next.bag.contains(wall) == c.library.contains(
        wall,
    ) by {
        lemma_weighted(c.library, next.favorites, c.favorite_weight, wall);
        random::lemma_shuffle_contains(walls, c.rng, wall);
    }
}

pub proof fn lemma_filter_len(list: Seq<Seq<char>>, keep: spec_fn(Seq<char>) -> bool)
    ensures
        list.filter(keep).len() <= list.len(),
        (forall|i: int| 0 <= i < list.len() ==> keep(#[trigger] list[i])) ==> list.filter(keep)
            == list,
        (forall|i: int| 0 <= i < list.len() ==> !keep(#[trigger] list[i])) ==> list.filter(keep)
            == Seq::<Seq<char>>::empty(),
    decreases list.len(),
{
    reveal(Seq::filter);
    if list.len() > 0 {
        let head = list.drop_last();
        lemma_filter_len(head, keep);
        assert(forall|i: int| 0 <= i < head.len() ==> #[trigger] head[i] == list[i]);
        assert(list[list.len() - 1] == list.last());
        assert(list =~= head.push(list.last()));
        if forall|i: int| 0 <= i < list.len() ==> keep(#[trigger] list[i]) {
            assert(forall|i: int| 0 <= i < head.len() ==> keep(#[trigger] head[i]));
        }
        if forall|i: int| 0 <= i < list.len() ==> !keep(#[trigger] list[i]) {
            assert(forall|i: int| 0 <= i < head.len() ==> !keep(#[trigger] head[i]));
        }
    } else {
        assert(list.filter(keep) =~= list);
        assert(list =~= Seq::<Seq<char>>::empty());
    }
}

/// A library that is read from disk again is in order, and has the wallpapers on disk.
/// Nothing else changes where it had them before.
pub proof fn lemma_rescanned(c: ControlView, disk: DiskView)
    requires
        disk.error is None,
        c.favorite_weight >= 1,
        bag_size(c, on_disk(c, disk), disk.files) <= usize::MAX || (control::rescanned(
            c,
            disk,
        ) matches Ok((next, _, _)) && next.bag.len() <= usize::MAX),
    ensures
        control::rescanned(c, disk) matches Ok((next, _, _)) && {
            &&& next.library == on_disk(c, disk)
            &&& textlist::ascending(next.favorites)
            &&& forall|wall: Seq<char>| #[trigger]
                next.favorites.contains(wall) ==> c.favorites.contains(wall)
            &&& next.bag.len() <= c.bag.len() + on_disk(c, disk).len() || next.bag.len()
                <= bag_size(c, on_disk(c, disk), disk.files)
            &&& forall|wall: Seq<char>| #[trigger]
                next.bag.contains(wall) ==> next.library.contains(wall)
            &&& next.layouts == c.layouts
            &&& next.wall_dir == c.wall_dir
            &&& next.quarantine_dir == c.quarantine_dir
            &&& next.favorite_weight == c.favorite_weight
            &&& next.max_history == c.max_history
            &&& (c.library == on_disk(c, disk) && c.bag.len() > 0 && c.pos <= c.bag.len() && (
            forall|wall: Seq<char>| #[trigger]
                c.bag.contains(wall) ==> c.library.contains(wall))) ==> next.bag == c.bag
                && next.pos == c.pos && next.rng == c.rng
        },
{
    let library = on_disk(c, disk);
    lemma_on_disk(c, disk);
    let new = textlist::not_held_by(library, c.library);
    let kept = textlist::held_by_both(c.bag, library, disk.files);
    textlist::lemma_sorted_unique(textlist::held_by_both(c.favorites, library, disk.files));
    lemma_filter_len(library, |text: Seq<char>| !c.library.contains(text));
    lemma_filter_len(
        c.bag,
        |text: Seq<char>| library.contains(text) && disk.files.contains(text),
    );
    lemma_bag_size(c, c, library, disk.files);
    random::lemma_shuffle_len(new, c.rng);
    let (additions, rng) = random::shuffled(new, c.rng);
    assert forall|wall: Seq<char>| #[trigger] (kept + additions).contains(wall) implies
        library.contains(wall) by {
        lemma_append_contains(kept, additions, wall);
        textlist::lemma_filter_contains(
            c.bag,
            |text: Seq<char>| library.contains(text) && disk.files.contains(text),
            wall,
        );
        random::lemma_shuffle_contains(new, c.rng, wall);
        textlist::lemma_filter_contains(library, |text: Seq<char>| !c.library.contains(text), wall);
    }
    let next = ControlView {
        library,
        favorites: control::kept_favorites(c.favorites, library, disk.files),
        bag: kept + additions,
        pos: if c.pos > kept.len() {
            kept.len() as usize
        } else {
            c.pos
        },
        rng,
        ..c
    };
    assert forall|wall: Seq<char>| #[trigger] next.favorites.contains(wall) implies
        c.favorites.contains(wall) by {
        lemma_kept(c.favorites, library, disk.files, wall);
    }
    lemma_bag_size(c, next, library, disk.files);
    if next.bag.len() == 0 && library.len() > 0 {
        lemma_rebuilt(next, disk.files);
    }
    if c.library == library && c.bag.len() > 0 && c.pos <= c.bag.len() && (forall|wall: Seq<char>|
     #[trigger] c.bag.contains(wall) ==> c.library.contains(wall)) {
        assert forall|i: int| 0 <= i < c.bag.len() implies library.contains(#[trigger] c.bag[i])
            && disk.files.contains(c.bag[i]) by {
            assert(c.bag.contains(c.bag[i]));
            assert(c.library.contains(c.bag[i]));
        }
        assert(kept == c.bag);
        assert forall|i: int| 0 <= i < library.len() implies c.library.contains(
            #[trigger] library[i],
        ) by {
            assert(library.contains(library[i]));
        }
        assert(new == Seq::<Seq<char>>::empty());
        assert(kept + additions =~= c.bag);
    }
}

// ---------------------------------------------------------------------------
// A draw ends

/// How many different wallpapers a draw needs.
pub open spec fn needed(task: Task) -> nat {
    if task.repeat {
        1
    } else {
        task.count
    }
}

/// Whether there are enough wallpapers on disk for a draw, or none at all, or the disk
/// cannot be read.
pub open spec fn is_supplied(
    c: ControlView,
    disk: DiskView,
    exclude: Option<Seq<char>>,
    need: nat,
) -> bool {
    disk.error is Some || on_disk(c, disk).len() == 0 || control::others(
        on_disk(c, disk),
        exclude,
    ).len() >= need
}

/// Whether a wallpaper is passed over.
spec fn is_bad(disk: DiskView, task: Task, wall: Seq<char>) -> bool {
    task.exclude == Some(wall) || !disk.files.contains(wall)
}

/// Whether a wallpaper is picked.
spec fn is_good(disk: DiskView, task: Task, picked: Seq<Seq<char>>, wall: Seq<char>) -> bool {
    !is_bad(disk, task, wall) && (task.repeat || !picked.contains(wall))
}

/// Where the next good or bad wallpaper of the bag stands, or the length of the bag.
spec fn next_in(
    bag: Seq<Seq<char>>,
    pos: int,
    wanted: spec_fn(Seq<char>) -> bool,
) -> int
    decreases bag.len() - pos,
{
    if pos < 0 || pos >= bag.len() {
        bag.len() as int
    } else if wanted(bag[pos]) {
        pos
    } else {
        next_in(bag, pos + 1, wanted)
    }
}

proof fn lemma_next_in(bag: Seq<Seq<char>>, pos: int, wanted: spec_fn(Seq<char>) -> bool)
    requires
        0 <= pos <= bag.len(),
    ensures
        pos <= next_in(bag, pos, wanted) <= bag.len(),
        next_in(bag, pos, wanted) < bag.len() ==> wanted(bag[next_in(bag, pos, wanted)]),
        forall|i: int|
            pos <= i < bag.len() && wanted(#[trigger] bag[i]) ==> next_in(bag, pos, wanted) <= i,
    decreases bag.len() - pos,
{
    if pos < bag.len() && !wanted(bag[pos]) {
        lemma_next_in(bag, pos + 1, wanted);
    }
}

/// Whether the library has a wallpaper that would be picked.
spec fn has_good(
    c: ControlView,
    disk: DiskView,
    task: Task,
    picked: Seq<Seq<char>>,
) -> bool {
    exists|wall: Seq<char>| #[trigger]
        c.library.contains(wall) && is_good(disk, task, picked, wall)
}

pub proof fn lemma_distinct_fits(small: Seq<Seq<char>>, large: Seq<Seq<char>>)
    requires
        small.no_duplicates(),
        forall|text: Seq<char>| #[trigger] small.contains(text) ==> large.contains(text),
    ensures
        small.len() <= large.len(),
{
    small.unique_seq_to_set();
    vstd::seq_lib::seq_to_set_is_finite(large);
    vstd::seq_lib::seq_to_set_is_finite(small);
    large.lemma_cardinality_of_set();
    assert(small.to_set().subset_of(large.to_set()));
    vstd::set_lib::lemma_len_subset(small.to_set(), large.to_set());
}

pub proof fn lemma_others(list: Seq<Seq<char>>, exclude: Option<Seq<char>>)
    requires
        list.no_duplicates(),
    ensures
        control::others(list, exclude).no_duplicates(),
        forall|wall: Seq<char>| #[trigger]
            control::others(list, exclude).contains(wall) == (list.contains(wall) && exclude != Some(wall)),
{
    if let Some(out) = exclude {
        let keep = |text: Seq<char>| !seq![out].contains(text);
        assert(forall|text: Seq<char>| seq![out].contains(text) == (text == out)) by {
            assert forall|text: Seq<char>| seq![out].contains(text) == (text == out) by {
                assert(seq![out][0] == out);
            }
        }
        assert forall|wall: Seq<char>| #[trigger] control::others(list, exclude).contains(wall) == (
        list.contains(wall) && exclude != Some(wall)) by {
            textlist::lemma_filter_contains(list, keep, wall);
        }
        lemma_filter_distinct(list, keep);
    }
}

proof fn lemma_filter_distinct(list: Seq<Seq<char>>, keep: spec_fn(Seq<char>) -> bool)
    requires
        list.no_duplicates(),
    ensures
        list.filter(keep).no_duplicates(),
    decreases list.len(),
{
    reveal(Seq::filter);
    if list.len() > 0 {
        let head = list.drop_last();
        let kept = head.filter(keep);
        lemma_filter_distinct(head, keep);
        textlist::lemma_filter_contains(head, keep, list.last());
        assert(!head.contains(list.last())) by {
            if head.contains(list.last()) {
                let i = choose|i: int| 0 <= i < head.len() && head[i] == list.last();
                assert(list[i] == list[list.len() - 1]);
            }
        }
        let all = kept.push(list.last());
        assert forall|i: int, j: int| 0 <= i < all.len() && 0 <= j < all.len() && i != j implies
            all[i] != all[j] by {
            if i == kept.len() {
                assert(kept.contains(kept[j]));
            }
            if j == kept.len() {
                assert(kept.contains(kept[i]));
            }
        }
    }
}

/// A library with enough wallpapers has one that is picked, or one that is passed over.
proof fn lemma_good_or_bad(
    c: ControlView,
    disk: DiskView,
    task: Task,
    picked: Seq<Seq<char>>,
)
    requires
        textlist::ascending(c.library),
        picked.len() < task.count,
        control::others(c.library, task.exclude).len() >= needed(task),
        !has_good(c, disk, task, picked),
    ensures
        exists|wall: Seq<char>| #[trigger] c.library.contains(wall) && is_bad(disk, task, wall),
{
    textlist::lemma_ascending_distinct(c.library);
    lemma_others(c.library, task.exclude);
    let rest = control::others(c.library, task.exclude);
    if task.repeat {
        let wall = rest[0];
        assert(rest.contains(wall));
        assert(c.library.contains(wall));
        assert(!is_good(disk, task, picked, wall));
    } else {
        if forall|wall: Seq<char>| #[trigger]
            c.library.contains(wall) ==> !is_bad(disk, task, wall) {
            assert forall|wall: Seq<char>| #[trigger] rest.contains(wall) implies picked.contains(
                wall,
            ) by {
                assert(c.library.contains(wall));
                assert(!is_good(disk, task, picked, wall));
            }
            lemma_distinct_fits(rest, picked);
        }
    }
}

/// The wallpapers on disk have one that is picked, where they are enough.
proof fn lemma_disk_has_good(
    c: ControlView,
    disk: DiskView,
    task: Task,
    picked: Seq<Seq<char>>,
)
    requires
        c.library == on_disk(c, disk),
        picked.len() < task.count,
        control::others(c.library, task.exclude).len() >= needed(task),
    ensures
        has_good(c, disk, task, picked),
{
    lemma_on_disk(c, disk);
    if !has_good(c, disk, task, picked) {
        textlist::lemma_ascending_distinct(c.library);
        lemma_others(c.library, task.exclude);
        let rest = control::others(c.library, task.exclude);
        assert forall|wall: Seq<char>| #[trigger] rest.contains(wall) implies picked.contains(
            wall,
        ) && !task.repeat by {
            assert(c.library.contains(wall));
            assert(!is_good(disk, task, picked, wall));
        }
        if task.repeat {
            assert(rest.contains(rest[0]));
        }
        lemma_distinct_fits(rest, picked);
    }
}

/// What holds while a draw goes on.
spec fn is_drawing(c: ControlView, disk: DiskView, task: Task) -> bool {
    &&& sound_control(c)
    &&& has_room(c, disk)
    &&& is_supplied(c, disk, task.exclude, needed(task))
    &&& c.library.len() == 0 || control::others(c.library, task.exclude).len() >= needed(task)
}

spec fn wanted_in(
    c: ControlView,
    disk: DiskView,
    task: Task,
    picked: Seq<Seq<char>>,
) -> spec_fn(Seq<char>) -> bool {
    if has_good(c, disk, task, picked) {
        |wall: Seq<char>| is_good(disk, task, picked, wall)
    } else {
        |wall: Seq<char>| is_bad(disk, task, wall)
    }
}

spec fn stale(c: ControlView, disk: DiskView) -> nat {
    if c.library == on_disk(c, disk) {
        0
    } else {
        1
    }
}

spec fn waiting(
    c: ControlView,
    disk: DiskView,
    task: Task,
    picked: Seq<Seq<char>>,
    attempts: usize,
) -> int {
    if has_good(c, disk, task, picked) || attempts > usize::MAX / 2 {
        0
    } else {
        usize::MAX - attempts
    }
}

spec fn passes(
    c: ControlView,
    disk: DiskView,
    task: Task,
    picked: Seq<Seq<char>>,
) -> int {
    if c.pos < c.bag.len() && next_in(c.bag, c.pos as int, wanted_in(c, disk, task, picked))
        < c.bag.len() {
        0
    } else {
        1
    }
}

spec fn distance(
    c: ControlView,
    disk: DiskView,
    task: Task,
    picked: Seq<Seq<char>>,
) -> int {
    if c.pos < c.bag.len() {
        next_in(c.bag, c.pos as int, wanted_in(c, disk, task, picked)) - c.pos
    } else {
        0
    }
}

/// A draw ends, where there are enough wallpapers on disk, none at all, or the disk cannot
/// be read.
#[verifier::spinoff_prover]
#[verifier::rlimit(80)]
proof fn lemma_draw_ends(
    c: ControlView,
    disk: DiskView,
    task: Task,
    picked: Seq<Seq<char>>,
    attempts: usize,
)
    requires
        is_drawing(c, disk, task),
    ensures
        control::ends(c, disk, task, picked, attempts),
    decreases
            task.count - picked.len(),
            stale(c, disk),
            waiting(c, disk, task, picked, attempts),
            passes(c, disk, task, picked),
            distance(c, disk, task, picked),
{
    if picked.len() >= task.count {
        assert(control::draw(c, disk, task, picked, attempts, 0) is Some);
    } else {
        let full = if c.pos >= c.bag.len() {
            control::rebuilt(c, disk.files)
        } else {
            c
        };
        lemma_rebuilt(c, disk.files);
        lemma_bag_size(c, full, c.library, disk.files);
        lemma_bag_size(c, full, on_disk(c, disk), disk.files);
        if full.bag.len() == 0 {
            assert(control::draw(c, disk, task, picked, attempts, 1) is Some);
        } else {
            let wall = full.bag[full.pos as int];
            assert(full.bag.contains(wall));
            assert(c.library.contains(wall));
            let next = ControlView { pos: (full.pos + 1) as usize, ..full };
            let tried = layout::saturated(attempts + 1);
            assert(is_drawing(next, disk, task));
            let wanted = wanted_in(c, disk, task, picked);
            assert(has_good(next, disk, task, picked) == has_good(c, disk, task, picked));
            assert(wanted_in(next, disk, task, picked) == wanted);
            if has_good(c, disk, task, picked) {
            } else {
                lemma_good_or_bad(c, disk, task, picked);
            }
            let some = choose|w: Seq<char>| #[trigger] c.library.contains(w) && wanted(w);
            assert(c.library.contains(some) && wanted(some));
            if c.pos < c.bag.len() {
                lemma_next_in(c.bag, c.pos as int, wanted);
            }
            lemma_next_in(next.bag, next.pos as int, wanted);
            if c.pos >= c.bag.len() {
                assert(full.bag.contains(some));
                let i = choose|i: int| 0 <= i < full.bag.len() && full.bag[i] == some;
                assert(full.bag[i] == some);
            }
            if is_bad(disk, task, wall) {
                if tried > control::patience(next) {
                    if disk.error is Some {
                        assert(control::draw(c, disk, task, picked, attempts, 1) is Some);
                    } else {
                        lemma_rescanned(next, disk);
                        let fresh = control::rescanned(next, disk)->Ok_0.0;
                        lemma_on_disk(c, disk);
                        assert(on_disk(fresh, disk) == on_disk(c, disk));
                        lemma_bag_size(next, fresh, on_disk(c, disk), disk.files);
                        assert(is_drawing(fresh, disk, task));
                        if stale(c, disk) == 0 {
                            if c.library.len() > 0 {
                                lemma_disk_has_good(c, disk, task, picked);
                            }
                            assert(fresh.bag == next.bag && fresh.pos == next.pos);
                            assert(has_good(fresh, disk, task, picked) == has_good(
                                c,
                                disk,
                                task,
                                picked,
                            ));
                        }
                        lemma_draw_ends(fresh, disk, task, picked, 0);
                        let fuel = choose|fuel: nat| #[trigger]
                            control::draw(fresh, disk, task, picked, 0, fuel) is Some;
                        assert(control::draw(c, disk, task, picked, attempts, fuel + 1) is Some);
                    }
                } else {
                    lemma_draw_ends(next, disk, task, picked, tried);
                    let fuel = choose|fuel: nat| #[trigger]
                        control::draw(next, disk, task, picked, tried, fuel) is Some;
                    assert(control::draw(c, disk, task, picked, attempts, fuel + 1) is Some);
                }
            } else if !task.repeat && picked.contains(wall) {
                lemma_draw_ends(next, disk, task, picked, tried);
                let fuel = choose|fuel: nat| #[trigger]
                    control::draw(next, disk, task, picked, tried, fuel) is Some;
                assert(control::draw(c, disk, task, picked, attempts, fuel + 1) is Some);
            } else {
                let more = picked.push(wall);
                lemma_draw_ends(next, disk, task, more, tried);
                let fuel = choose|fuel: nat| #[trigger]
                    control::draw(next, disk, task, more, tried, fuel) is Some;
                assert(control::draw(c, disk, task, picked, attempts, fuel + 1) is Some);
            }
        }
    }
}

/// Whether wallpapers are those of the library that are on disk, other than one, and all
/// different where none may come twice.
pub open spec fn well_picked(
    c: ControlView,
    disk: DiskView,
    task: Task,
    picked: Seq<Seq<char>>,
) -> bool {
    &&& forall|i: int|
        0 <= i < picked.len() ==> on_disk(c, disk).contains(#[trigger] picked[i]) && task.exclude
            != Some(picked[i])
    &&& task.repeat || picked.no_duplicates()
}

/// Whether a library is another one but for what drawing from it changes.
pub open spec fn same_library(a: ControlView, b: ControlView) -> bool {
    &&& a.wall_dir == b.wall_dir
    &&& a.state_dir == b.state_dir
    &&& a.quarantine_dir == b.quarantine_dir
    &&& a.favorite_weight == b.favorite_weight
    &&& a.max_history == b.max_history
    &&& a.layouts == b.layouts
}

/// Whether a library is what drawing from another one can leave: it has the wallpapers that
/// the other had, or those that are on disk.
pub open spec fn continues(next: ControlView, c: ControlView, disk: DiskView) -> bool {
    same_library(next, c) && (next.library == c.library || next.library == on_disk(c, disk))
}

#[verifier::spinoff_prover]
#[verifier::rlimit(40)]
proof fn lemma_draw_result(
    c: ControlView,
    disk: DiskView,
    task: Task,
    picked: Seq<Seq<char>>,
    attempts: usize,
    fuel: nat,
)
    requires
        is_drawing(c, disk, task),
        well_picked(c, disk, task, picked),
        picked.len() <= task.count,
        control::draw(c, disk, task, picked, attempts, fuel) is Some,
    ensures
        ({
            let (next, result) = control::draw(c, disk, task, picked, attempts, fuel)->Some_0;
            &&& sound_control(next)
            &&& has_room(next, disk)
            &&& continues(next, c, disk)
            &&& result matches Ok(walls) ==> walls.len() == task.count && well_picked(
                c,
                disk,
                task,
                walls,
            )
        }),
    decreases fuel,
{
    if picked.len() < task.count && fuel > 0 {
        let full = if c.pos >= c.bag.len() {
            control::rebuilt(c, disk.files)
        } else {
            c
        };
        lemma_rebuilt(c, disk.files);
        lemma_bag_size(c, full, c.library, disk.files);
        lemma_bag_size(c, full, on_disk(c, disk), disk.files);
        lemma_on_disk(c, disk);
        if full.bag.len() > 0 {
            let wall = full.bag[full.pos as int];
            assert(full.bag.contains(wall));
            assert(c.library.contains(wall));
            let next = ControlView { pos: (full.pos + 1) as usize, ..full };
            let tried = layout::saturated(attempts + 1);
            let left = (fuel - 1) as nat;
            assert(is_drawing(next, disk, task));
            if is_bad(disk, task, wall) {
                if tried > control::patience(next) {
                    if disk.error is None {
                        lemma_rescanned(next, disk);
                        let fresh = control::rescanned(next, disk)->Ok_0.0;
                        assert(on_disk(fresh, disk) == on_disk(c, disk));
                        lemma_bag_size(next, fresh, on_disk(c, disk), disk.files);
                        assert(is_drawing(fresh, disk, task));
                        lemma_draw_result(fresh, disk, task, picked, 0, left);
                    }
                } else {
                    lemma_draw_result(next, disk, task, picked, tried, left);
                }
            } else if !task.repeat && picked.contains(wall) {
                lemma_draw_result(next, disk, task, picked, tried, left);
            } else {
                let more = picked.push(wall);
                assert(on_disk(c, disk).contains(wall));
                assert(well_picked(next, disk, task, more)) by {
                    assert(forall|i: int| 0 <= i < picked.len() ==> #[trigger] more[i] == picked[i]);
                    if !task.repeat {
                        assert forall|i: int, j: int|
                            0 <= i < more.len() && 0 <= j < more.len() && i != j implies more[i]
                            != more[j] by {
                            if i == picked.len() {
                                assert(picked.contains(picked[j]));
                            }
                            if j == picked.len() {
                                assert(picked.contains(picked[i]));
                            }
                        }
                    }
                }
                lemma_draw_result(next, disk, task, more, tried, left);
            }
        }
    }
}

/// Drawing wallpapers ends, where there are enough on disk, none at all, or the disk cannot
/// be read. The wallpapers that are drawn are as many as asked for, on disk, other than the
/// one left out, and all different where the library has enough. The library stays in
/// order, with the wallpapers that it had or those that are on disk.
pub proof fn law_drawing(
    c: ControlView,
    disk: DiskView,
    count: nat,
    exclude: Option<Seq<char>>,
)
    requires
        sound_control(c),
        has_room(c, disk),
        count > 0,
        control::others(c.library, exclude).len() == 0 || is_supplied(
            c,
            disk,
            exclude,
            needed(control::task_for(c.library, count, exclude)),
        ),
    ensures
        control::draw_ends(c, disk, count, exclude),
        ({
            let (next, result) = control::drawn(c, disk, count, exclude);
            &&& sound_control(next)
            &&& has_room(next, disk)
            &&& continues(next, c, disk)
            &&& result matches Ok(walls) ==> walls.len() == count && well_picked(
                c,
                disk,
                control::task_for(c.library, count, exclude),
                walls,
            )
        }),
{
    let full = if c.bag.len() == 0 {
        control::rebuilt(c, disk.files)
    } else {
        c
    };
    lemma_rebuilt(c, disk.files);
    lemma_bag_size(c, full, c.library, disk.files);
    lemma_bag_size(c, full, on_disk(c, disk), disk.files);
    let task = control::task_for(full.library, count, exclude);
    if full.bag.len() > 0 && !(control::others(full.library, exclude).len() == 0 && count > 0) {
        assert(is_drawing(full, disk, task));
        lemma_draw_ends(full, disk, task, Seq::empty(), 0);
        let fuel = choose|fuel: nat| #[trigger]
            control::draw(full, disk, task, Seq::empty(), 0, fuel) is Some;
        control::lemma_finish(full, disk, task, Seq::empty(), 0, fuel);
        lemma_draw_result(full, disk, task, Seq::empty(), 0, fuel);
    }
}

} // verus!
