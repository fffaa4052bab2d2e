//! The wallpaper library: which files it holds, and the bag from which wallpapers are
//! drawn.

use crate::layout::{LayoutState, LayoutView};
use crate::paths::{file_name, is_below, is_in_dir, split_extension};
use crate::random::SimpleRng;
use crate::scale::is_word_any_case;
use crate::text::{chars_of, concat2, contains_text, copy_text, text_eq};
use crate::textlist::{drop_text, keep_held_by_both, keep_not_held_by, sort_unique};
use crate::textmap::TextMap;
use crate::layout;
use crate::paths;
use crate::random;
use crate::scale;
use crate::text;
use crate::textlist;
use crate::textmap;
use vstd::prelude::*;

verus! {

/// Where wallpapers and the state of the library are kept.
#[derive(Clone, Debug, PartialEq, Eq)]
pub struct WallpaperPaths {
    pub wall_dir: String,
    pub state_dir: String,
    pub quarantine_dir: String,
}

/// What is on disk while an action runs.
#[derive(Clone, Debug, PartialEq, Eq)]
pub struct Disk {
    /// The paths of files.
    pub files: Vec<String>,
    /// Why the directory of wallpapers cannot be listed, if it cannot.
    pub error: Option<String>,
    /// The paths that are taken in the quarantine directory.
    pub taken: Vec<String>,
}

/// What is on disk, as a mathematical value.
pub struct DiskView {
    pub files: Seq<Seq<char>>,
    pub error: Option<Seq<char>>,
    pub taken: Seq<Seq<char>>,
}

impl View for Disk {
    type V = DiskView;

    open spec fn view(&self) -> DiskView {
        DiskView {
            files: text::texts(self.files@),
            error: text::text_if(self.error),
            taken: text::texts(self.taken@),
        }
    }
}

/// The wallpaper library and what has been shown of it.
#[derive(Debug)]
pub struct WallpaperControl {
    pub wall_dir: String,
    pub state_dir: String,
    pub quarantine_dir: String,
    pub favorite_weight: usize,
    pub max_history: usize,
    pub library: Vec<String>,
    pub favorites: Vec<String>,
    pub shuffle_bag: Vec<String>,
    pub shuffle_pos: usize,
    pub layouts: TextMap<LayoutState>,
    pub rng: SimpleRng,
}

/// The wallpaper library, as a mathematical value.
pub struct ControlView {
    pub wall_dir: Seq<char>,
    pub state_dir: Seq<char>,
    pub quarantine_dir: Seq<char>,
    pub favorite_weight: usize,
    pub max_history: usize,
    pub library: Seq<Seq<char>>,
    pub favorites: Seq<Seq<char>>,
    pub bag: Seq<Seq<char>>,
    pub pos: usize,
    pub layouts: Seq<(Seq<char>, LayoutView)>,
    pub rng: u64,
}

/// The layouts of a table, in the order of their names.
pub open spec fn layout_entries(map: TextMap<LayoutState>) -> Seq<(Seq<char>, LayoutView)> {
    textmap::map_entries(map.raw(), |layout: LayoutState| layout@)
}

impl View for WallpaperControl {
    type V = ControlView;

    open spec fn view(&self) -> ControlView {
        ControlView {
            wall_dir: self.wall_dir@,
            state_dir: self.state_dir@,
            quarantine_dir: self.quarantine_dir@,
            favorite_weight: self.favorite_weight,
            max_history: self.max_history,
            library: text::texts(self.library@),
            favorites: text::texts(self.favorites@),
            bag: text::texts(self.shuffle_bag@),
            pos: self.shuffle_pos,
            layouts: layout_entries(self.layouts),
            rng: self.rng.state,
        }
    }
}

// ---------------------------------------------------------------------------
// Which files are wallpapers

/// Whether the name of a file has the extension of an image that can be shown.
pub open spec fn is_image_name(path: Seq<char>) -> bool {
    match paths::name_of_file(path) {
        Some(name) => match paths::stem_and_extension(name).1 {
            Some(extension) => {
                ||| scale::is_word_in_any_case(extension, "jpg"@)
                ||| scale::is_word_in_any_case(extension, "jpeg"@)
                ||| scale::is_word_in_any_case(extension, "png"@)
                ||| scale::is_word_in_any_case(extension, "webp"@)
            },
            None => false,
        },
        None => false,
    }
}

/// Whether a path is that of a wallpaper: an image directly in the directory of wallpapers
/// and not in quarantine.
pub open spec fn is_wall_path(
    wall_dir: Seq<char>,
    quarantine_dir: Seq<char>,
    path: Seq<char>,
) -> bool {
    paths::stands_in(path, wall_dir) && !paths::is_within(path, quarantine_dir) && is_image_name(path)
}

/// The wallpapers among files, in order.
pub open spec fn wallpapers(
    wall_dir: Seq<char>,
    quarantine_dir: Seq<char>,
    files: Seq<Seq<char>>,
) -> Seq<Seq<char>> {
    textlist::sorted_unique(
        files.filter(|path: Seq<char>| is_wall_path(wall_dir, quarantine_dir, path)),
    )
}

/// Whether the name of a file has the extension of an image that can be shown.
pub fn is_supported_wallpaper(path: &str) -> (result: bool)
    ensures
        result == is_image_name(path@),
{
    let name = match file_name(path) {
        Some(name) => name,
        None => {
            return false;
        },
    };
    let (_, extension) = split_extension(name.as_str());
    match extension {
        Some(extension) => {
            let chars = chars_of(extension.as_str());
            is_word_any_case(&chars, "jpg") || is_word_any_case(&chars, "jpeg")
                || is_word_any_case(&chars, "png") || is_word_any_case(&chars, "webp")
        },
        None => false,
    }
}

/// Whether a path is that of a wallpaper.
pub fn is_wallpaper_path(wall_dir: &str, quarantine_dir: &str, path: &str) -> (result: bool)
    ensures
        result == is_wall_path(wall_dir@, quarantine_dir@, path@),
{
    is_in_dir(path, wall_dir) && !is_below(path, quarantine_dir) && is_supported_wallpaper(path)
}

/// The wallpapers on disk, or why they cannot be listed.
pub open spec fn scanned(
    wall_dir: Seq<char>,
    quarantine_dir: Seq<char>,
    disk: DiskView,
) -> Result<Seq<Seq<char>>, Seq<char>> {
    match disk.error {
        Some(message) => Err(message),
        None => Ok(wallpapers(wall_dir, quarantine_dir, disk.files)),
    }
}

fn scan_top_level_library_paths(wall_dir: &str, quarantine_dir: &str, disk: &Disk) -> (result:
    Result<Vec<String>, String>)
    ensures
        match (result, scanned(wall_dir@, quarantine_dir@, disk@)) {
            (Ok(list), Ok(expected)) => text::texts(list@) == expected,
            (Err(message), Err(expected)) => message@ == expected,
            _ => false,
        },
{
    if let Some(message) = &disk.error {
        return Err(copy_text(message.as_str()));
    }
    let ghost all = text::texts(disk.files@);
    let ghost keep = |path: Seq<char>| is_wall_path(wall_dir@, quarantine_dir@, path);
    let mut found: Vec<String> = Vec::new();
    let mut i: usize = 0;
    proof {
        reveal(Seq::filter);
        assert(all.take(0) =~= Seq::<Seq<char>>::empty());
        assert(text::texts(found@) =~= all.take(0).filter(keep));
    }
    while i < disk.files.len()
        invariant
            i <= disk.files@.len(),
            all == text::texts(disk.files@),
            keep == (|path: Seq<char>| is_wall_path(wall_dir@, quarantine_dir@, path)),
            text::texts(found@) == all.take(i as int).filter(keep),
        decreases disk.files@.len() - i,
    {
        proof {
            reveal(Seq::filter);
            assert(all.take(i + 1).drop_last() =~= all.take(i as int));
            assert(all.take(i + 1).last() == disk.files@[i as int]@);
        }
        if is_wallpaper_path(wall_dir, quarantine_dir, disk.files[i].as_str()) {
            let ghost before = found@;
            found.push(copy_text(disk.files[i].as_str()));
            assert(text::texts(found@) =~= text::texts(before).push(disk.files@[i as int]@));
        }
        i = i + 1;
    }
    assert(all.take(i as int) =~= all);
    Ok(sort_unique(&found))
}

/// The wallpapers on disk, or why they cannot be listed.
pub fn scan_top_level_library(paths: &WallpaperPaths, disk: &Disk) -> (result: Result<
    Vec<String>,
    String,
>)
    ensures
        match (result, scanned(paths.wall_dir@, paths.quarantine_dir@, disk@)) {
            (Ok(list), Ok(expected)) => text::texts(list@) == expected,
            (Err(message), Err(expected)) => message@ == expected,
            _ => false,
        },
{
    scan_top_level_library_paths(paths.wall_dir.as_str(), paths.quarantine_dir.as_str(), disk)
}

// ---------------------------------------------------------------------------
// The bag

/// A list of one text, so many times.
pub open spec fn repeated(text: Seq<char>, times: nat) -> Seq<Seq<char>> {
    Seq::new(times, |i: int| text)
}

/// How often a wallpaper goes into the bag.
pub open spec fn copies(wall: Seq<char>, favorites: Seq<Seq<char>>, weight: usize) -> nat {
    if favorites.contains(wall) && weight > 1 {
        weight as nat
    } else {
        1
    }
}

/// The wallpapers of the library, favorites as often as they weigh.
pub open spec fn weighted(
    library: Seq<Seq<char>>,
    favorites: Seq<Seq<char>>,
    weight: usize,
) -> Seq<Seq<char>>
    decreases library.len(),
{
    if library.len() == 0 {
        Seq::empty()
    } else {
        weighted(library.drop_last(), favorites, weight) + repeated(
            library.last(),
            copies(library.last(), favorites, weight),
        )
    }
}

/// The favorites that are in the library and on disk, in order.
pub open spec fn kept_favorites(
    favorites: Seq<Seq<char>>,
    library: Seq<Seq<char>>,
    files: Seq<Seq<char>>,
) -> Seq<Seq<char>> {
    textlist::sorted_unique(textlist::held_by_both(favorites, library, files))
}

/// The library with a fresh bag.
pub open spec fn rebuilt(c: ControlView, files: Seq<Seq<char>>) -> ControlView {
    let favorites = kept_favorites(c.favorites, c.library, files);
    let (bag, rng) = random::shuffled(weighted(c.library, favorites, c.favorite_weight), c.rng);
    ControlView { favorites, bag, pos: 0, rng, ..c }
}

/// The library with the wallpapers on disk, how many are new and how many are gone. New
/// wallpapers go to the end of the bag, those that are gone leave it.
pub open spec fn rescanned(c: ControlView, disk: DiskView) -> Result<
    (ControlView, nat, nat),
    Seq<char>,
> {
    match scanned(c.wall_dir, c.quarantine_dir, disk) {
        Err(message) => Err(message),
        Ok(library) => {
            let new = textlist::not_held_by(library, c.library);
            let gone = textlist::not_held_by(textlist::sorted_unique(c.library), library);
            let kept = textlist::held_by_both(c.bag, library, disk.files);
            let (additions, rng) = random::shuffled(new, c.rng);
            let next = ControlView {
                library,
                favorites: kept_favorites(c.favorites, library, disk.files),
                bag: kept + additions,
                pos: if c.pos > kept.len() {
                    kept.len() as usize
                } else {
                    c.pos
                },
                rng,
                ..c
            };
            Ok(
                (
                    if next.bag.len() == 0 && library.len() > 0 {
                        rebuilt(next, disk.files)
                    } else {
                        next
                    },
                    new.len(),
                    gone.len(),
                ),
            )
        },
    }
}

/// The wallpapers of a list other than one.
pub open spec fn others(list: Seq<Seq<char>>, exclude: Option<Seq<char>>) -> Seq<Seq<char>> {
    match exclude {
        Some(wall) => textlist::without(list, wall),
        None => list,
    }
}

/// What is drawn: so many wallpapers, other than one, and whether one can come twice.
pub struct Task {
    pub count: nat,
    pub exclude: Option<Seq<char>>,
    pub repeat: bool,
}

/// How many draws in vain lead to a look at the disk.
pub open spec fn patience(c: ControlView) -> usize {
    let twice = layout::saturated((c.bag.len() * 2) as int);
    if twice > 32 {
        twice
    } else {
        32
    }
}

/// The message that there are no wallpapers.
pub open spec fn no_wallpapers(wall_dir: Seq<char>) -> Seq<char> {
    "no wallpapers found in "@ + wall_dir
}

/// Draws from the bag, at most `fuel` times, until enough wallpapers are picked. What is
/// to be left out, or is no longer on disk, is passed over; after many draws in vain the
/// library is read from disk again. An empty bag is filled afresh.
pub open spec fn draw(
    c: ControlView,
    disk: DiskView,
    task: Task,
    picked: Seq<Seq<char>>,
    attempts: usize,
    fuel: nat,
) -> Option<(ControlView, Result<Seq<Seq<char>>, Seq<char>>)>
    decreases fuel,
{
    if picked.len() >= task.count {
        Some((c, Ok(picked)))
    } else if fuel == 0 {
        None
    } else {
        let full = if c.pos >= c.bag.len() {
            rebuilt(c, disk.files)
        } else {
            c
        };
        if full.bag.len() == 0 {
            Some((full, Err(no_wallpapers(c.wall_dir))))
        } else {
            let wall = full.bag[full.pos as int];
            let next = ControlView { pos: (full.pos + 1) as usize, ..full };
            let tried = layout::saturated(attempts + 1);
            let left = (fuel - 1) as nat;
            if task.exclude == Some(wall) || !disk.files.contains(wall) {
                if tried > patience(next) {
                    match rescanned(next, disk) {
                        Err(message) => Some((next, Err(message))),
                        Ok((fresh, _, _)) => draw(fresh, disk, task, picked, 0, left),
                    }
                } else {
                    draw(next, disk, task, picked, tried, left)
                }
            } else if !task.repeat && picked.contains(wall) {
                draw(next, disk, task, picked, tried, left)
            } else {
                draw(next, disk, task, picked.push(wall), tried, left)
            }
        }
    }
}

/// What a draw gives once it ends.
pub open spec fn finish(
    c: ControlView,
    disk: DiskView,
    task: Task,
    picked: Seq<Seq<char>>,
    attempts: usize,
) -> (ControlView, Result<Seq<Seq<char>>, Seq<char>>) {
    let fuel = choose|fuel: nat| #[trigger] draw(c, disk, task, picked, attempts, fuel) is Some;
    draw(c, disk, task, picked, attempts, fuel)->Some_0
}

/// Whether a draw ends.
pub open spec fn ends(
    c: ControlView,
    disk: DiskView,
    task: Task,
    picked: Seq<Seq<char>>,
    attempts: usize,
) -> bool {
    exists|fuel: nat| #[trigger] draw(c, disk, task, picked, attempts, fuel) is Some
}

/// The task of drawing so many wallpapers: one can come twice only where there are not
/// enough others.
pub open spec fn task_for(
    library: Seq<Seq<char>>,
    count: nat,
    exclude: Option<Seq<char>>,
) -> Task {
    Task { count, exclude, repeat: others(library, exclude).len() < count }
}

/// The library once so many wallpapers are drawn, and the wallpapers.
pub open spec fn drawn(
    c: ControlView,
    disk: DiskView,
    count: nat,
    exclude: Option<Seq<char>>,
) -> (ControlView, Result<Seq<Seq<char>>, Seq<char>>) {
    let full = if c.bag.len() == 0 {
        rebuilt(c, disk.files)
    } else {
        c
    };
    if full.bag.len() == 0 {
        (full, Err(no_wallpapers(c.wall_dir)))
    } else if others(full.library, exclude).len() == 0 && count > 0 {
        (full, Err("no replacement wallpapers found in "@ + c.wall_dir))
    } else {
        finish(full, disk, task_for(full.library, count, exclude), Seq::empty(), 0)
    }
}

proof fn lemma_fuel(
    c: ControlView,
    disk: DiskView,
    task: Task,
    picked: Seq<Seq<char>>,
    attempts: usize,
    a: nat,
    b: nat,
)
    requires
        draw(c, disk, task, picked, attempts, a) is Some,
        draw(c, disk, task, picked, attempts, b) is Some,
    ensures
        draw(c, disk, task, picked, attempts, a) == draw(c, disk, task, picked, attempts, b),
    decreases a,
{
    if picked.len() < task.count && a > 0 && b > 0 {
        let full = if c.pos >= c.bag.len() {
            rebuilt(c, disk.files)
        } else {
            c
        };
        if full.bag.len() > 0 {
            let wall = full.bag[full.pos as int];
            let next = ControlView { pos: (full.pos + 1) as usize, ..full };
            let tried = layout::saturated(attempts + 1);
            let a1 = (a - 1) as nat;
            let b1 = (b - 1) as nat;
            if task.exclude == Some(wall) || !disk.files.contains(wall) {
                if tried > patience(next) {
                    if let Ok((fresh, _, _)) = rescanned(next, disk) {
                        lemma_fuel(fresh, disk, task, picked, 0, a1, b1);
                    }
                } else {
                    lemma_fuel(next, disk, task, picked, tried, a1, b1);
                }
            } else if !task.repeat && picked.contains(wall) {
                lemma_fuel(next, disk, task, picked, tried, a1, b1);
            } else {
                lemma_fuel(next, disk, task, picked.push(wall), tried, a1, b1);
            }
        }
    }
}

/// What a draw gives does not depend on how many more draws it might have made.
pub proof fn lemma_finish(
    c: ControlView,
    disk: DiskView,
    task: Task,
    picked: Seq<Seq<char>>,
    attempts: usize,
    fuel: nat,
)
    requires
        draw(c, disk, task, picked, attempts, fuel) is Some,
    ensures
        finish(c, disk, task, picked, attempts) == draw(
            c,
            disk,
            task,
            picked,
            attempts,
            fuel,
        )->Some_0,
{
    let chosen = choose|fuel: nat| #[trigger] draw(c, disk, task, picked, attempts, fuel) is Some;
    lemma_fuel(c, disk, task, picked, attempts, chosen, fuel);
}

fn count_others(list: &Vec<String>, exclude: Option<&str>) -> (count: usize)
    ensures
        count == others(text::texts(list@), paths::str_if(exclude)).len(),
{
    match exclude {
        Some(wall) => {
            let rest = drop_text(list, wall);
            assert(text::texts(rest@).len() == rest@.len());
            rest.len()
        },
        None => list.len(),
    }
}

impl WallpaperControl {
    pub(crate) fn sanitize_favorites(&mut self, disk: &Disk)
        ensures
            final(self)@ == (ControlView {
                favorites: kept_favorites(old(self)@.favorites, old(self)@.library, disk@.files),
                ..old(self)@
            }),
    {
        let kept = keep_held_by_both(&self.favorites, &self.library, &disk.files);
        self.favorites = sort_unique(&kept);
    }

    fn shuffle(&mut self, values: &mut Vec<String>)
        ensures
            (text::texts(final(values)@), final(self)@.rng) == random::shuffled(
                text::texts(old(values)@),
                old(self)@.rng,
            ),
            final(self)@ == (ControlView { rng: final(self)@.rng, ..old(self)@ }),
    {
        let mut n: usize = values.len();
        let ghost goal = random::shuffled(text::texts(values@), self@.rng);
        while n > 1
            invariant
                n <= values@.len(),
                goal == random::shuffled_below(text::texts(values@), n as nat, self@.rng),
                self@ == (ControlView { rng: self@.rng, ..old(self)@ }),
            decreases n,
        {
            let ghost before = text::texts(values@);
            let with: usize = self.rng.next_usize(n);
            let last: usize = n - 1;
            if with < last {
                let high = copy_text(values[last].as_str());
                let low = copy_text(values[with].as_str());
                values.set(last, low);
                values.set(with, high);
            }
            assert(text::texts(values@) =~= random::exchanged(before, n - 1, with as int));
            n = n - 1;
        }
    }

    /// Fills the bag afresh.
    pub(crate) fn rebuild_bag(&mut self, disk: &Disk)
        ensures
            final(self)@ == rebuilt(old(self)@, disk@.files),
    {
        self.sanitize_favorites(disk);
        let ghost library = text::texts(self.library@);
        let ghost favorites = text::texts(self.favorites@);
        let ghost start = self@;
        let mut bag: Vec<String> = Vec::new();
        let mut i: usize = 0;
        assert(library.take(0) =~= Seq::<Seq<char>>::empty());
        assert(text::texts(bag@) =~= Seq::<Seq<char>>::empty());
        while i < self.library.len()
            invariant
                i <= self.library@.len(),
                library == text::texts(self.library@),
                favorites == text::texts(self.favorites@),
                start == self@,
                text::texts(bag@) == weighted(
                    library.take(i as int),
                    favorites,
                    self.favorite_weight,
                ),
            decreases self.library@.len() - i,
        {
            proof {
                assert(library.take(i + 1).drop_last() =~= library.take(i as int));
                assert(library.take(i + 1).last() == self.library@[i as int]@);
            }
            let ghost before = text::texts(bag@);
            let ghost wall = library[i as int];
            let times: usize = if self.favorite_weight > 1 && contains_text(
                &self.favorites,
                self.library[i].as_str(),
            ) {
                self.favorite_weight
            } else {
                1
            };
            let mut k: usize = 0;
            assert(before + repeated(wall, 0) =~= before);
            while k < times
                invariant
                    i < self.library@.len(),
                    k <= times,
                    wall == self.library@[i as int]@,
                    start == self@,
                    text::texts(bag@) == before + repeated(wall, k as nat),
                decreases times - k,
            {
                let ghost so_far = text::texts(bag@);
                bag.push(copy_text(self.library[i].as_str()));
                assert(text::texts(bag@) =~= so_far.push(wall));
                assert(so_far.push(wall) =~= before + repeated(wall, (k + 1) as nat));
                k = k + 1;
            }
            i = i + 1;
        }
        assert(library.take(i as int) =~= library);
        self.shuffle(&mut bag);
        self.shuffle_bag = bag;
        self.shuffle_pos = 0;
    }

    /// Reads the library from disk again, and says how many wallpapers are new and how many
    /// are gone.
    pub(crate) fn rescan_top_level(&mut self, disk: &Disk) -> (result: Result<
        (usize, usize),
        String,
    >)
        ensures
            match (result, rescanned(old(self)@, disk@)) {
                (Ok((added, removed)), Ok((next, new, gone))) => final(self)@ == next && added
                    == new && removed == gone,
                (Err(message), Err(expected)) => message@ == expected && final(self)@
                    == old(self)@,
                _ => false,
            },
    {
        let library = scan_top_level_library_paths(
            self.wall_dir.as_str(),
            self.quarantine_dir.as_str(),
            disk,
        )?;
        let known = sort_unique(&self.library);
        let gone = keep_not_held_by(&known, &library);
        let mut new = keep_not_held_by(&library, &self.library);
        let removed: usize = gone.len();
        let added: usize = new.len();
        assert(text::texts(gone@).len() == gone@.len());
        assert(text::texts(new@).len() == new@.len());
        self.library = library;
        self.sanitize_favorites(disk);
        let kept = keep_held_by_both(&self.shuffle_bag, &self.library, &disk.files);
        assert(text::texts(kept@).len() == kept@.len());
        self.shuffle_bag = kept;
        if self.shuffle_pos > self.shuffle_bag.len() {
            self.shuffle_pos = self.shuffle_bag.len();
        }
        self.shuffle(&mut new);
        let ghost before = text::texts(self.shuffle_bag@);
        let ghost additions = text::texts(new@);
        self.shuffle_bag.append(&mut new);
        assert(text::texts(self.shuffle_bag@) =~= before + additions);
        assert(text::texts(self.shuffle_bag@).len() == self.shuffle_bag@.len());
        assert(text::texts(self.library@).len() == self.library@.len());
        if self.shuffle_bag.len() == 0 && self.library.len() > 0 {
            self.rebuild_bag(disk);
        }
        Ok((added, removed))
    }

    fn no_wallpapers(&self) -> (message: String)
        ensures
            message@ == no_wallpapers(self@.wall_dir),
    {
        concat2("no wallpapers found in ", self.wall_dir.as_str())
    }

    /// Draws wallpapers from the bag.
    pub(crate) fn bag_next_n(
        &mut self,
        disk: &Disk,
        count: usize,
        exclude: Option<&str>,
    ) -> (result:
        Result<Vec<String>, String>)
        requires
            draw_ends(old(self)@, disk@, count as nat, paths::str_if(exclude)),
        ensures
            ({
                let (next, expected) = drawn(
                    old(self)@,
                    disk@,
                    count as nat,
                    paths::str_if(exclude),
                );
                final(self)@ == next && match (result, expected) {
                    (Ok(list), Ok(walls)) => text::texts(list@) == walls,
                    (Err(message), Err(text)) => message@ == text,
                    _ => false,
                }
            }),
    {
        let ghost out = paths::str_if(exclude);
        assert(text::texts(self.shuffle_bag@).len() == self.shuffle_bag@.len());
        if self.shuffle_bag.len() == 0 {
            self.rebuild_bag(disk);
        }
        assert(text::texts(self.shuffle_bag@).len() == self.shuffle_bag@.len());
        if self.shuffle_bag.len() == 0 {
            return Err(self.no_wallpapers());
        }
        let available: usize = count_others(&self.library, exclude);
        if available == 0 && count > 0 {
            return Err(
                concat2("no replacement wallpapers found in ", self.wall_dir.as_str()),
            );
        }
        let repeat = available < count;
        let ghost task = task_for(self@.library, count as nat, out);
        let ghost start = self@;
        let ghost mut fuel = choose|fuel: nat| #[trigger]
            draw(self@, disk@, task, Seq::empty(), 0, fuel) is Some;
        let ghost goal = draw(self@, disk@, task, Seq::empty(), 0, fuel);
        proof {
            lemma_finish(self@, disk@, task, Seq::empty(), 0, fuel);
        }
        let mut picked: Vec<String> = Vec::new();
        let mut attempts: usize = 0;
        assert(text::texts(picked@) =~= Seq::<Seq<char>>::empty());
        while picked.len() < count
            invariant
                task.count == count,
                task.exclude == paths::str_if(exclude),
                task.repeat == repeat,
                goal is Some,
                goal->Some_0 == drawn(old(self)@, disk@, count as nat, paths::str_if(exclude)),
                self@.wall_dir == old(self)@.wall_dir,
                draw(self@, disk@, task, text::texts(picked@), attempts, fuel) == goal,
            decreases fuel,
        {
            assert(text::texts(self.shuffle_bag@).len() == self.shuffle_bag@.len());
            assert(text::texts(picked@).len() == picked@.len());
            if self.shuffle_pos >= self.shuffle_bag.len() {
                self.rebuild_bag(disk);
                assert(text::texts(self.shuffle_bag@).len() == self.shuffle_bag@.len());
                if self.shuffle_bag.len() == 0 {
                    return Err(self.no_wallpapers());
                }
            }
            let ghost full = self@;
            let wall = copy_text(self.shuffle_bag[self.shuffle_pos].as_str());
            assert(wall@ == full.bag[full.pos as int]);
            self.shuffle_pos = self.shuffle_pos + 1;
            assert(self@ == (ControlView { pos: (full.pos + 1) as usize, ..full }));
            attempts = attempts.saturating_add(1);
            let excluded = match exclude {
                Some(out) => text_eq(out, wall.as_str()),
                None => false,
            };
            if excluded || !contains_text(&disk.files, wall.as_str()) {
                let twice: usize = match self.shuffle_bag.len().checked_mul(2) {
                    Some(twice) => twice,
                    None => usize::MAX,
                };
                let limit: usize = if twice > 32 {
                    twice
                } else {
                    32
                };
                if attempts > limit {
                    let _ = self.rescan_top_level(disk)?;
                    attempts = 0;
                }
            } else if repeat || !contains_text(&picked, wall.as_str()) {
                let ghost before = text::texts(picked@);
                picked.push(wall);
                assert(text::texts(picked@) =~= before.push(wall@));
            }
            proof {
                fuel = (fuel - 1) as nat;
            }
        }
        assert(text::texts(picked@).len() == picked@.len());
        Ok(picked)
    }
}

/// Whether drawing so many wallpapers comes to an end.
pub open spec fn draw_ends(
    c: ControlView,
    disk: DiskView,
    count: nat,
    exclude: Option<Seq<char>>,
) -> bool {
    let full = if c.bag.len() == 0 {
        rebuilt(c, disk.files)
    } else {
        c
    };
    full.bag.len() == 0 || (others(full.library, exclude).len() == 0 && count > 0) || ends(
        full,
        disk,
        task_for(full.library, count, exclude),
        Seq::empty(),
        0,
    )
}

} // verus!
