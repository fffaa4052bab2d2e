//! Setting up the wallpaper library, and what is kept of it on disk.

use crate::change::PreparedWallpaperChange;
use crate::config::{variable, ConfigView, MuralConfig};
use crate::control::{
    is_wallpaper_path, ControlView, Disk, DiskView, WallpaperControl, WallpaperPaths,
};
use crate::layout::{read_lines, read_usize, LayoutView};
use crate::paths::{expand_home, is_absolute, join};
use crate::random::SimpleRng;
use crate::text::{contains_text, copy_text, copy_texts, decimal_usize, parse_usize};
use crate::textlist::{place_text, text_of_lines};
use crate::textmap::TextMap;
use crate::control;
use crate::drawing;
use crate::layout;
use crate::paths;
use crate::text;
use crate::textlist;
use crate::textmap;
use vstd::prelude::*;

verus! {

// ---------------------------------------------------------------------------
// Settings

/// Where the state of the library is kept by default.
pub open spec fn state_place(xdg_state_home: Option<Seq<char>>, home: Seq<char>) -> Seq<char> {
    match paths::rooted_if(xdg_state_home) {
        Some(base) => paths::joined(base, "mural"@),
        None => paths::joined(home, ".local/state/mural"@),
    }
}

/// Where the state of the library is kept by default: below the directory for state
/// files where that is absolute, else below the home directory.
pub fn default_state_dir(xdg_state_home: Option<&str>, home: &str) -> (dir: String)
    ensures
        dir@ == state_place(paths::str_if(xdg_state_home), home@),
{
    if let Some(base) = xdg_state_home {
        if is_absolute(base) {
            return join(base, "mural");
        }
    }
    join(home, ".local/state/mural")
}

/// The path that a variable gives.
pub open spec fn variable_path(
    environment: Seq<(Seq<char>, Seq<char>)>,
    name: Seq<char>,
    home: Seq<char>,
) -> Option<Seq<char>> {
    match textmap::entries_get(environment, name) {
        Some(value) => Some(paths::home_expanded(value, Some(home))),
        None => None,
    }
}

/// The first of three values that is there, or a fourth.
pub open spec fn first_of_three<T>(
    first: Option<T>,
    second: Option<T>,
    third: Option<T>,
    last: T,
) -> T {
    match first {
        Some(value) => value,
        None => match second {
            Some(value) => value,
            None => match third {
                Some(value) => value,
                None => last,
            },
        },
    }
}

/// Where wallpapers are kept, where their state is, and where those in quarantine are.
pub open spec fn places(
    config: ConfigView,
    environment: Seq<(Seq<char>, Seq<char>)>,
    home: Seq<char>,
) -> (Seq<char>, Seq<char>, Seq<char>) {
    let wall_dir = first_of_three(
        variable_path(environment, "MURAL_WALL_DIR"@, home),
        config.wall_dir,
        variable_path(environment, "WALL_DIR"@, home),
        paths::joined(home, "Pictures/wallpapers"@),
    );
    let state_dir = first_of_three(
        variable_path(environment, "MURAL_STATE_DIR"@, home),
        config.state_dir,
        None,
        state_place(textmap::entries_get(environment, "XDG_STATE_HOME"@), home),
    );
    let quarantine_dir = first_of_three(
        variable_path(environment, "MURAL_QUARANTINE_DIR"@, home),
        config.quarantine_dir,
        variable_path(environment, "QUARANTINE_DIR"@, home),
        paths::joined(wall_dir, ".quarantine"@),
    );
    (wall_dir, state_dir, quarantine_dir)
}

fn env_path(environment: &TextMap<String>, name: &str, home: &str) -> (path: Option<String>)
    ensures
        text::text_if(path) == variable_path(textmap::text_entries(*environment), name@, home@),
{
    match variable(environment, name) {
        Some(value) => Some(expand_home(value, Some(home))),
        None => None,
    }
}

fn pick_path(
    first: Option<String>,
    second: &Option<String>,
    third: Option<String>,
    last: String,
) -> (path: String)
    ensures
        path@ == first_of_three(
            text::text_if(first),
            text::text_if(*second),
            text::text_if(third),
            last@,
        ),
{
    match first {
        Some(path) => path,
        None => match second {
            Some(path) => copy_text(path.as_str()),
            None => match third {
                Some(path) => path,
                None => last,
            },
        },
    }
}

/// Where wallpapers are kept, where their state is, and where those in quarantine are:
/// variables of this program come first, then the configuration, then common variables,
/// then places below the home directory.
pub fn configured_wallpaper_paths(config: &MuralConfig, environment: &TextMap<String>) -> (result:
    Result<WallpaperPaths, String>)
    ensures
        match (result, textmap::entries_get(textmap::text_entries(*environment), "HOME"@)) {
            (Ok(paths), Some(home)) => (
                paths.wall_dir@,
                paths.state_dir@,
                paths.quarantine_dir@,
            ) == places(config@, textmap::text_entries(*environment), home),
            (Err(message), None) => message@ == "HOME is not set"@,
            _ => false,
        },
{
    let home = match variable(environment, "HOME") {
        Some(home) => home,
        None => {
            return Err(copy_text("HOME is not set"));
        },
    };
    let wall_dir = pick_path(
        env_path(environment, "MURAL_WALL_DIR", home),
        &config.wall_dir,
        env_path(environment, "WALL_DIR", home),
        join(home, "Pictures/wallpapers"),
    );
    let state_dir = pick_path(
        env_path(environment, "MURAL_STATE_DIR", home),
        &config.state_dir,
        None,
        default_state_dir(variable(environment, "XDG_STATE_HOME"), home),
    );
    let quarantine_dir = pick_path(
        env_path(environment, "MURAL_QUARANTINE_DIR", home),
        &config.quarantine_dir,
        env_path(environment, "QUARANTINE_DIR", home),
        join(wall_dir.as_str(), ".quarantine"),
    );
    Ok(WallpaperPaths { wall_dir, state_dir, quarantine_dir })
}

/// The number that a variable gives, if it is one.
pub open spec fn variable_number(
    environment: Seq<(Seq<char>, Seq<char>)>,
    name: Seq<char>,
) -> Option<usize> {
    match textmap::entries_get(environment, name) {
        Some(value) => match text::unsigned_value(value, usize::MAX as nat) {
            Ok(number) => Some(number as usize),
            Err(_) => None,
        },
        None => None,
    }
}

fn env_usize(environment: &TextMap<String>, name: &str) -> (number: Option<usize>)
    ensures
        number == variable_number(textmap::text_entries(*environment), name@),
{
    match variable(environment, name) {
        Some(value) => match parse_usize(value) {
            Ok(number) => Some(number),
            Err(_) => None,
        },
        None => None,
    }
}

/// A number that is at least one.
pub open spec fn at_least_one(value: usize) -> usize {
    if value < 1 {
        1
    } else {
        value
    }
}

fn pick_number(
    first: Option<usize>,
    second: Option<usize>,
    third: Option<usize>,
    last: usize,
) -> (number: usize)
    ensures
        number == at_least_one(first_of_three(first, second, third, last)),
{
    let number: usize = match first {
        Some(number) => number,
        None => match second {
            Some(number) => number,
            None => match third {
                Some(number) => number,
                None => last,
            },
        },
    };
    if number < 1 {
        1
    } else {
        number
    }
}

// ---------------------------------------------------------------------------
// Loading

/// What the files of the library hold, where they can be read.
#[derive(Clone, Debug, PartialEq, Eq)]
pub struct StoredLists {
    pub library: Option<String>,
    pub favorites: Option<String>,
    pub walls: Option<String>,
    pub walls_idx: Option<String>,
}

/// The library as its files and settings give it, before the disk is read.
pub open spec fn recalled(
    config: ConfigView,
    environment: Seq<(Seq<char>, Seq<char>)>,
    home: Seq<char>,
    lists: StoredLists,
    rng: u64,
) -> ControlView {
    let (wall_dir, state_dir, quarantine_dir) = places(config, environment, home);
    ControlView {
        wall_dir,
        state_dir,
        quarantine_dir,
        favorite_weight: at_least_one(
            first_of_three(
                variable_number(environment, "MURAL_FAVORITE_WEIGHT"@),
                config.favorite_weight,
                variable_number(environment, "FAVORITE_WEIGHT"@),
                4,
            ),
        ),
        max_history: at_least_one(
            first_of_three(
                variable_number(environment, "MURAL_MAX_HISTORY"@),
                config.max_history,
                variable_number(environment, "MAX_HISTORY"@),
                1000,
            ),
        ),
        library: layout::stored_lines(text::text_if(lists.library)),
        favorites: layout::stored_lines(text::text_if(lists.favorites)),
        bag: layout::stored_lines(text::text_if(lists.walls)),
        pos: layout::stored_number(text::text_if(lists.walls_idx), 0),
        layouts: Seq::empty(),
        rng,
    }
}

/// The library as its files, its settings and the disk give it.
pub open spec fn opened(
    config: ConfigView,
    environment: Seq<(Seq<char>, Seq<char>)>,
    lists: StoredLists,
    disk: DiskView,
    rng: u64,
) -> Result<ControlView, Seq<char>> {
    match textmap::entries_get(environment, "HOME"@) {
        None => Err("HOME is not set"@),
        Some(home) => match control::rescanned(recalled(config, environment, home, lists, rng), disk) {
            Err(message) => Err(message),
            Ok((c, _, _)) => Ok(
                if c.bag.len() == 0 && c.library.len() > 0 {
                    control::rebuilt(c, disk.files)
                } else {
                    c
                },
            ),
        },
    }
}

impl WallpaperControl {
    /// The library as its files, its settings and the disk give it.
    pub fn load(
        config: &MuralConfig,
        environment: &TextMap<String>,
        lists: &StoredLists,
        disk: &Disk,
        rng: SimpleRng,
    ) -> (result: Result<Self, String>)
        ensures
            match (
                result,
                opened(config@, textmap::text_entries(*environment), *lists, disk@, rng.state),
            ) {
                (Ok(control), Ok(expected)) => control@ == expected && drawing::sound_control(control@),
                (Err(message), Err(expected)) => message@ == expected,
                _ => false,
            },
    {
        let paths = configured_wallpaper_paths(config, environment)?;
        let favorite_weight: usize = pick_number(
            env_usize(environment, "MURAL_FAVORITE_WEIGHT"),
            config.favorite_weight,
            env_usize(environment, "FAVORITE_WEIGHT"),
            4,
        );
        let max_history: usize = pick_number(
            env_usize(environment, "MURAL_MAX_HISTORY"),
            config.max_history,
            env_usize(environment, "MAX_HISTORY"),
            1000,
        );
        let mut control = WallpaperControl {
            wall_dir: paths.wall_dir,
            state_dir: paths.state_dir,
            quarantine_dir: paths.quarantine_dir,
            favorite_weight,
            max_history,
            library: read_lines(&lists.library),
            favorites: read_lines(&lists.favorites),
            shuffle_bag: read_lines(&lists.walls),
            shuffle_pos: read_usize(&lists.walls_idx, 0),
            layouts: TextMap::new(),
            rng,
        };
        assert(control@.layouts =~= Seq::<(Seq<char>, LayoutView)>::empty());
        let ghost start = control@;
        let _ = control.rescan_top_level(disk)?;
        assert(text::texts(control.library@).len() == control.library.len());
        assert(text::texts(control.shuffle_bag@).len() == control.shuffle_bag.len());
        let ghost after = control@;
        proof {
            drawing::lemma_rescanned(start, disk@);
            drawing::lemma_on_disk(start, disk@);
        }
        if control.shuffle_bag.len() == 0 && control.library.len() > 0 {
            control.rebuild_bag(disk);
            assert(text::texts(control.shuffle_bag@).len() == control.shuffle_bag.len());
            proof {
                drawing::lemma_rebuilt(after, disk@.files);
            }
        }
        Ok(control)
    }

    /// The directory of wallpapers.
    pub fn wall_dir(&self) -> (dir: &str)
        ensures
            dir@ == self@.wall_dir,
    {
        self.wall_dir.as_str()
    }

    /// The directory of the state of the library.
    pub fn state_dir(&self) -> (dir: &str)
        ensures
            dir@ == self@.state_dir,
    {
        self.state_dir.as_str()
    }

    /// The wallpapers of the library.
    pub fn library_paths(&self) -> (list: Vec<String>)
        ensures
            text::texts(list@) == self@.library,
    {
        copy_texts(&self.library)
    }

    /// Adds a file to the library, at the end of the bag, if it is a wallpaper and new. Says
    /// whether it did.
    pub fn add_top_level_file(&mut self, path: &str, disk: &Disk) -> (added: bool)
        requires
            drawing::sound_control(old(self)@),
        ensures
            added == (control::is_wall_path(old(self)@.wall_dir, old(self)@.quarantine_dir, path@)
                && disk@.files.contains(path@) && !old(self)@.library.contains(path@)),
            final(self)@ == if added {
                ControlView {
                    library: textlist::placed_in(old(self)@.library, path@),
                    bag: old(self)@.bag.push(path@),
                    ..old(self)@
                }
            } else {
                old(self)@
            },
            drawing::sound_control(final(self)@),
    {
        if !is_wallpaper_path(self.wall_dir.as_str(), self.quarantine_dir.as_str(), path)
            || !contains_text(&disk.files, path) || contains_text(&self.library, path) {
            return false;
        }
        proof {
            textlist::lemma_placed_in(self@.library, path@);
            assert forall|wall: Seq<char>| #[trigger] self@.bag.push(path@).contains(wall) implies
                textlist::placed_in(self@.library, path@).contains(wall) by {
                textlist::lemma_push_contains(self@.bag, path@, wall);
                assert(self@.bag.contains(wall) ==> self@.library.contains(wall));
            }
            assert forall|wall: Seq<char>| #[trigger]
                textlist::placed_in(self@.library, path@).contains(wall) implies control::is_wall_path(
                self@.wall_dir,
                self@.quarantine_dir,
                wall,
            ) by {
                assert(self@.library.contains(wall) || wall == path@);
            }
        }
        place_text(&mut self.library, path);
        let ghost before = text::texts(self.shuffle_bag@);
        self.shuffle_bag.push(copy_text(path));
        assert(text::texts(self.shuffle_bag@) =~= before.push(path@));
        assert(self@ == (ControlView {
            library: textlist::placed_in(old(self)@.library, path@),
            bag: old(self)@.bag.push(path@),
            ..old(self)@
        }));
        true
    }
}

// ---------------------------------------------------------------------------
// What is kept on disk

/// The files of the library and what they hold.
pub open spec fn core_files(c: ControlView) -> Seq<(Seq<char>, Seq<char>)> {
    seq![
        (paths::joined(c.state_dir, "library"@), textlist::lines_text(c.library)),
        (paths::joined(c.state_dir, "favorites"@), textlist::lines_text(c.favorites)),
        (paths::joined(c.state_dir, "walls"@), textlist::lines_text(c.bag)),
        (paths::joined(c.state_dir, "walls_idx"@), text::decimal_text(c.pos as nat) + "\n"@),
    ]
}

/// The wallpapers that the layouts of a table have shown.
pub open spec fn all_shown(layouts: Seq<(Seq<char>, LayoutView)>) -> Seq<Seq<char>>
    decreases layouts.len(),
{
    if layouts.len() == 0 {
        Seq::empty()
    } else {
        all_shown(layouts.drop_last()) + layout::flat(layouts.last().1.history)
    }
}

impl WallpaperControl {
    /// The files of the library and what they hold, in the order in which they are written.
    pub fn core_state(&self) -> (list: Vec<(String, String)>)
        ensures
            layout::file_entries(list@) == core_files(self@),
    {
        let mut position = decimal_usize(self.shuffle_pos);
        position.append("\n");
        let dir = self.state_dir.as_str();
        let list = vec![
            (join(dir, "library"), text_of_lines(&self.library)),
            (join(dir, "favorites"), text_of_lines(&self.favorites)),
            (join(dir, "walls"), text_of_lines(&self.shuffle_bag)),
            (join(dir, "walls_idx"), position),
        ];
        assert(layout::file_entries(list@) =~= core_files(self@));
        list
    }

    /// Every wallpaper that the library knows of: those in it, the favorites, those in the
    /// bag, and those that its layouts have shown.
    pub fn known_paths(&self) -> (list: Vec<String>)
        ensures
            text::texts(list@) == self@.library + self@.favorites + self@.bag + all_shown(
                self@.layouts,
            ),
    {
        let mut list = copy_texts(&self.library);
        let mut more = copy_texts(&self.favorites);
        let ghost library = text::texts(list@);
        let ghost favorites = text::texts(more@);
        list.append(&mut more);
        assert(text::texts(list@) =~= library + favorites);
        let mut bag = copy_texts(&self.shuffle_bag);
        let ghost walls = text::texts(bag@);
        list.append(&mut bag);
        let ghost head = library + favorites + walls;
        assert(text::texts(list@) =~= head);
        let ghost all = self@.layouts;
        let mut i: usize = 0;
        assert(all.take(0) =~= Seq::<(Seq<char>, LayoutView)>::empty());
        assert(text::texts(list@) =~= head + all_shown(all.take(0)));
        while i < self.layouts.len()
            invariant
                i <= self.layouts.raw().len(),
                all == control::layout_entries(self.layouts),
                text::texts(list@) == head + all_shown(all.take(i as int)),
            decreases self.layouts.raw().len() - i,
        {
            proof {
                assert(all.take(i + 1).drop_last() =~= all.take(i as int));
                assert(all.take(i + 1).last() == all[i as int]);
            }
            let mut shown = self.layouts.value_at(i).flattened_history();
            let ghost added = text::texts(shown@);
            let ghost before = text::texts(list@);
            list.append(&mut shown);
            assert(text::texts(list@) =~= before + added);
            assert(before + added =~= head + all_shown(all.take(i + 1)));
            i = i + 1;
        }
        assert(all.take(i as int) =~= all);
        list
    }
}

// ---------------------------------------------------------------------------
// What a change leaves to be written

impl PreparedWallpaperChange {
    /// The files of the layout of the change and what they hold.
    pub fn layout_files(&self) -> (list: Vec<(String, String)>)
        ensures
            layout::file_entries(list@) == layout::layout_files(self@.layout),
    {
        self.layout.files()
    }
}

} // verus!
