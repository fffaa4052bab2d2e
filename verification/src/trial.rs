//! Finding out whether a change can be prepared, by a trial on a copy of the library.

use crate::control::{
    scan_top_level_library, ControlView, Disk, DiskView, WallpaperControl, WallpaperPaths,
};
use crate::layout::{LayoutState, LayoutView, StoredLayout};
use crate::protocol::WallpaperAction;
use crate::text::{contains_text, copy_text, copy_texts, text_eq};
use crate::textmap::TextMap;
use crate::wallpaper::{validate_output_index, ActiveOutput};
use crate::change;
use crate::control;
use crate::drawing;
use crate::error;
use crate::paths;
use crate::text;
use crate::textlist;
use crate::textmap;
use crate::wallpaper;
use vstd::prelude::*;

verus! {

// ---------------------------------------------------------------------------
// Copies

fn copy_layouts(map: &TextMap<LayoutState>) -> (copy: TextMap<LayoutState>)
    ensures
        control::layout_entries(copy) == control::layout_entries(*map),
{
    map.ordered();
    let mut copy: TextMap<LayoutState> = TextMap::new();
    let mut i: usize = 0;
    while i < map.len()
        invariant
            i <= map.raw().len(),
            textmap::keys_ascending(map.raw()),
            copy.raw().len() == i,
            forall|k: int|
                0 <= k < i ==> (#[trigger] copy.raw()[k]).0 == map.raw()[k].0 && copy.raw()[k].1@
                    == map.raw()[k].1@,
        decreases map.raw().len() - i,
    {
        let ghost before = copy.raw();
        let layout = map.value_at(i).copy();
        proof {
            assert forall|k: int| 0 <= k < before.len() implies text::text_before(
                (#[trigger] before[k]).0,
                map.raw()[i as int].0,
            ) by {
                assert(text::text_before(map.raw()[k].0, map.raw()[i as int].0));
            }
            textmap::lemma_insert_last(before, map.raw()[i as int].0, layout);
        }
        copy.insert(copy_text(map.key_at(i)), layout);
        i = i + 1;
    }
    assert(control::layout_entries(copy) =~= control::layout_entries(*map));
    copy
}

fn same_texts(a: &Vec<String>, b: &Vec<String>) -> (same: bool)
    ensures
        same == (text::texts(a@) == text::texts(b@)),
{
    if a.len() != b.len() {
        assert(text::texts(a@).len() != text::texts(b@).len());
        return false;
    }
    let mut i: usize = 0;
    while i < a.len()
        invariant
            i <= a@.len() == b@.len(),
            forall|k: int| 0 <= k < i ==> (#[trigger] a@[k])@ == b@[k]@,
        decreases a@.len() - i,
    {
        if !text_eq(a[i].as_str(), b[i].as_str()) {
            assert(text::texts(a@)[i as int] != text::texts(b@)[i as int]);
            return false;
        }
        i = i + 1;
    }
    assert(text::texts(a@) =~= text::texts(b@));
    true
}

fn has_other(list: &Vec<String>, exclude: Option<&str>) -> (found: bool)
    ensures
        found == (control::others(text::texts(list@), paths::str_if(exclude)).len() > 0),
{
    let ghost all = text::texts(list@);
    assert(all.len() == list@.len());
    match exclude {
        None => list.len() > 0,
        Some(wall) => {
            let ghost keep = |other: Seq<char>| !seq![wall@].contains(other);
            assert(seq![wall@][0] == wall@);
            let mut i: usize = 0;
            while i < list.len()
                invariant
                    i <= list@.len(),
                    exclude == Some(wall),
                    all == text::texts(list@),
                    all.len() == list@.len(),
                    forall|k: int| 0 <= k < i ==> #[trigger] all[k] == wall@,
                    keep == (|other: Seq<char>| !seq![wall@].contains(other)),
                decreases list@.len() - i,
            {
                assert(all[i as int] == list@[i as int]@);
                assert(seq![wall@][0] == wall@);
                if !text_eq(list[i].as_str(), wall) {
                    proof {
                        assert(all.contains(all[i as int]));
                        textlist::lemma_filter_contains(all, keep, all[i as int]);
                    }
                    return true;
                }
                i = i + 1;
            }
            proof {
                assert forall|k: int| 0 <= k < all.len() implies !keep(#[trigger] all[k]) by {
                    assert(seq![wall@][0] == all[k]);
                }
                drawing::lemma_filter_len(all, keep);
            }
            false
        },
    }
}

// ---------------------------------------------------------------------------
// Tests

impl WallpaperControl {
    fn scan(&self, disk: &Disk) -> (walls: Vec<String>)
        ensures
            text::texts(walls@) == drawing::on_disk(self@, disk@),
    {
        let paths = WallpaperPaths {
            wall_dir: copy_text(self.wall_dir.as_str()),
            state_dir: copy_text(self.state_dir.as_str()),
            quarantine_dir: copy_text(self.quarantine_dir.as_str()),
        };
        let readable = Disk {
            files: copy_texts(&disk.files),
            error: None,
            taken: copy_texts(&disk.taken),
        };
        match scan_top_level_library(&paths, &readable) {
            Ok(walls) => walls,
            Err(_) => vstd::pervasive::unreached(),
        }
    }

    fn bag_fits(&self, library: &Vec<String>, disk: &Disk, limit: usize) -> (result: bool)
        requires
            self.favorite_weight >= 1,
        ensures
            result == (drawing::bag_size(self@, text::texts(library@), disk@.files) <= limit),
    {
        let ghost all = text::texts(library@);
        let ghost kept = control::kept_favorites(self@.favorites, all, disk@.files);
        let mut total: usize = 0;
        let mut i: usize = 0;
        assert(all.take(0) =~= Seq::<Seq<char>>::empty());
        while i < library.len()
            invariant
                i <= library@.len(),
                all == text::texts(library@),
                all.len() == library@.len(),
                kept == control::kept_favorites(self@.favorites, all, disk@.files),
                self.favorite_weight >= 1,
                total <= limit,
                total == control::weighted(all.take(i as int), kept, self.favorite_weight).len(),
            decreases library@.len() - i,
        {
            let wall = library[i].as_str();
            proof {
                assert(all.take(i + 1).drop_last() =~= all.take(i as int));
                assert(all.take(i + 1).last() == wall@);
                assert(all[i as int] == wall@);
                drawing::lemma_kept(self@.favorites, all, disk@.files, wall@);
                drawing::lemma_weighted_take(all, kept, self.favorite_weight, i + 1);
            }
            let times: usize = if contains_text(&self.favorites, wall) && contains_text(
                &disk.files,
                wall,
            ) {
                self.favorite_weight
            } else {
                1
            };
            if times > limit - total {
                return false;
            }
            total = total + times;
            i = i + 1;
        }
        assert(all.take(i as int) =~= all);
        true
    }

    fn copy(&self) -> (copy: Self)
        ensures
            copy@ == self@,
    {
        WallpaperControl {
            wall_dir: copy_text(self.wall_dir.as_str()),
            state_dir: copy_text(self.state_dir.as_str()),
            quarantine_dir: copy_text(self.quarantine_dir.as_str()),
            favorite_weight: self.favorite_weight,
            max_history: self.max_history,
            library: copy_texts(&self.library),
            favorites: copy_texts(&self.favorites),
            shuffle_bag: copy_texts(&self.shuffle_bag),
            shuffle_pos: self.shuffle_pos,
            layouts: copy_layouts(&self.layouts),
            rng: self.rng,
        }
    }

    fn has_room(&self, disk: &Disk) -> (result: bool)
        requires
            drawing::sound_control(self@),
        ensures
            result == drawing::has_room(self@, disk@),
    {
        let walls = self.scan(disk);
        assert(text::texts(self.shuffle_bag@).len() == self.shuffle_bag@.len());
        let eighth: usize = usize::MAX / 8;
        let room: usize = if same_texts(&self.library, &walls) {
            usize::MAX / 4
        } else {
            eighth
        };
        self.bag_fits(&self.library, disk, eighth) && self.bag_fits(&walls, disk, eighth)
            && self.shuffle_bag.len() <= room
    }

    fn is_ready(&self, disk: &Disk, count: usize) -> (result: bool)
        requires
            drawing::sound_control(self@),
        ensures
            result == wallpaper::is_ready(self@, disk@, count),
    {
        let walls = self.scan(disk);
        assert(text::texts(walls@).len() == walls@.len());
        assert(text::texts(self.library@).len() == self.library@.len());
        if count < 1 || !self.has_room(disk) {
            return false;
        }
        let need: usize = if self.library.len() < count {
            1
        } else {
            count
        };
        disk.error.is_some() || walls.len() == 0 || walls.len() >= need
    }

    fn can_draw_one(&self, disk: &Disk, exclude: Option<&str>) -> (result: bool)
        requires
            drawing::sound_control(self@),
        ensures
            result == wallpaper::can_draw(self@, disk@, 1, paths::str_if(exclude)),
    {
        let walls = self.scan(disk);
        assert(text::texts(walls@).len() == walls@.len());
        self.has_room(disk) && (!has_other(&self.library, exclude) || disk.error.is_some()
            || walls.len() == 0 || has_other(&walls, exclude))
    }

    fn can_fill(&self, layout: &LayoutState, disk: &Disk) -> (result: bool)
        requires
            drawing::sound_control(self@),
            drawing::sound_layout(layout@),
        ensures
            result == wallpaper::can_fill(self@, layout@, disk@),
    {
        layout.reaches_window() || ((layout.max_history >= 2 || layout.offset == 0 || layout.idx
            == 0) && self.is_ready(disk, layout.out_count))
    }

    // ---------------------------------------------------------------------------
    // Steps of a trial: nothing comes where a step cannot be taken

    fn try_start(&mut self, layout: &mut LayoutState, disk: &Disk) -> (result: Option<
        Result<(), String>,
    >)
        requires
            drawing::sound_control(old(self)@),
            drawing::sound_layout(old(layout)@),
        ensures
            result is Some == wallpaper::can_start(old(self)@, old(layout)@, disk@),
            result matches Some(result) ==> {
                let (next, after, expected) = wallpaper::started(
                    old(self)@,
                    old(layout)@,
                    disk@,
                );
                final(self)@ == next && final(layout)@ == after && error::agrees(result, expected)
            },
            drawing::sound_control(final(self)@),
            drawing::sound_layout(final(layout)@),
    {
        assert(layout@.history.len() == layout.history@.len());
        if layout.history.len() == 0 && !self.is_ready(disk, layout.out_count) {
            return None;
        }
        Some(self.ensure_initialized(layout, disk))
    }

    fn try_fill(&mut self, layout: &mut LayoutState, disk: &Disk) -> (result: Option<
        Result<(), String>,
    >)
        requires
            drawing::sound_control(old(self)@),
            drawing::sound_layout(old(layout)@),
        ensures
            result is Some == wallpaper::can_fill(old(self)@, old(layout)@, disk@),
            result matches Some(result) ==> {
                let (next, after, expected) = wallpaper::extended(
                    old(self)@,
                    old(layout)@,
                    disk@,
                );
                final(self)@ == next && final(layout)@ == after && error::agrees(result, expected)
                    && (result is Ok ==> final(layout)@.is_filled())
            },
            drawing::sound_control(final(self)@),
            drawing::sound_layout(final(layout)@),
    {
        if !self.can_fill(layout, disk) {
            return None;
        }
        Some(self.ensure_window(layout, disk))
    }

    fn try_settle(&mut self, layout: &mut LayoutState, disk: &Disk) -> (result: Option<
        Result<(), String>,
    >)
        requires
            drawing::sound_control(old(self)@),
            drawing::sound_layout(old(layout)@),
        ensures
            result is Some == wallpaper::can_settle(old(self)@, old(layout)@, disk@),
            result matches Some(result) ==> {
                let (next, after, expected) = wallpaper::settled(
                    old(self)@,
                    old(layout)@,
                    disk@,
                );
                final(self)@ == next && final(layout)@ == after && error::agrees(result, expected)
                    && (result is Ok ==> final(layout)@.is_filled())
            },
            drawing::sound_control(final(self)@),
            drawing::sound_layout(final(layout)@),
    {
        match self.try_start(layout, disk) {
            None => None,
            Some(Err(message)) => Some(Err(message)),
            Some(Ok(())) => self.try_fill(layout, disk),
        }
    }

    fn can_move(&self, layout: &LayoutState, disk: &Disk, action: &WallpaperAction) -> (result:
        bool)
        requires
            drawing::sound_control(self@),
            drawing::sound_layout(layout@),
            layout@.history.len() > 0,
            action is Next || action is Back || action is ShiftForward || action is ShiftBack,
        ensures
            result == change::can_choose(self@, layout@, disk@, *action),
    {
        assert(layout@.history.len() == layout.history@.len());
        let mut moved = layout.copy();
        match action {
            WallpaperAction::Next => {
                let index: usize = if layout.idx < 1 {
                    1
                } else {
                    layout.idx
                };
                if index == usize::MAX {
                    return false;
                }
                moved.idx = index + 1;
                assert(moved@ == wallpaper::window_of(layout@, (index + 1) as usize));
                index < layout.history.len() || self.can_fill(&moved, disk)
            },
            WallpaperAction::ShiftForward => {
                if layout.offset + 1 >= layout.out_count {
                    if layout.idx == usize::MAX {
                        return false;
                    }
                    moved.offset = 0;
                    moved.idx = layout.idx + 1;
                } else {
                    moved.offset = layout.offset + 1;
                }
                if moved.idx < 1 {
                    moved.idx = 1;
                    moved.offset = 0;
                }
                assert(moved@ == wallpaper::shifted_on(layout@));
                self.can_fill(&moved, disk)
            },
            _ => true,
        }
    }

    #[verifier::spinoff_prover]
    #[verifier::rlimit(30)]
    fn try_action(&mut self, layout: &mut LayoutState, disk: &Disk, action: &WallpaperAction)
        -> (result: Option<Result<Vec<String>, String>>)
        requires
            drawing::sound_control(old(self)@),
            drawing::sound_layout(old(layout)@),
        ensures
            result is Some == change::can_choose(old(self)@, old(layout)@, disk@, *action),
            result matches Some(result) ==> {
                let (next, after, expected) = change::chosen(
                    old(self)@,
                    old(layout)@,
                    disk@,
                    *action,
                );
                final(self)@ == next && final(layout)@ == after && match (result, expected) {
                    (Ok(list), Ok((walls, _))) => text::texts(list@) == walls,
                    (Err(message), Err(text)) => message@ == text,
                    _ => false,
                }
            },
            drawing::sound_control(final(self)@),
            drawing::sound_layout(final(layout)@),
    {
        match action {
            WallpaperAction::Next
            | WallpaperAction::Back
            | WallpaperAction::ShiftForward
            | WallpaperAction::ShiftBack => {
                match self.try_start(layout, disk) {
                    None => {
                        return None;
                    },
                    Some(Err(message)) => {
                        return Some(Err(message));
                    },
                    Some(Ok(())) => {},
                }
                proof {
                    lemma_started_stays(old(self)@, old(layout)@, disk@);
                }
                if !self.can_move(layout, disk, action) {
                    return None;
                }
            },
            WallpaperAction::Replace { .. } | WallpaperAction::Quarantine { .. } => {
                match self.try_settle(layout, disk) {
                    None => {
                        return None;
                    },
                    Some(Err(message)) => {
                        return Some(Err(message));
                    },
                    Some(Ok(())) => {},
                }
                proof {
                    lemma_settled_stays(self@, layout@, disk@);
                }
                let drawable = match action {
                    WallpaperAction::Quarantine { index } => {
                        let current = layout.get_window();
                        assert(text::texts(current@).len() == current@.len());
                        if *index < current.len() {
                            let target = current[*index].as_str();
                            assert(target@ == text::texts(current@)[*index as int]);
                            self.prepare_quarantine_move(disk, target).is_err()
                                || self.can_draw_one(disk, Some(target))
                        } else {
                            true
                        }
                    },
                    _ => self.can_draw_one(disk, None),
                };
                if !drawable {
                    return None;
                }
            },
            _ => {},
        }
        match self.run_action(layout, disk, action) {
            Ok((list, _)) => Some(Ok(list)),
            Err(message) => Some(Err(message)),
        }
    }
}

proof fn lemma_started_stays(c: ControlView, layout: LayoutView, disk: DiskView)
    requires
        drawing::sound_layout(layout),
        wallpaper::started(c, layout, disk).2 is Ok,
    ensures
        ({
            let (c1, l1, _) = wallpaper::started(c, layout, disk);
            l1.history.len() > 0 && wallpaper::started(c1, l1, disk) == (
                c1,
                l1,
                Ok::<(), Seq<char>>(()),
            )
        }),
{
}

proof fn lemma_settled_stays(c: ControlView, layout: LayoutView, disk: DiskView)
    requires
        drawing::sound_layout(layout),
        layout.is_filled(),
    ensures
        layout.history.len() > 0,
        wallpaper::settled(c, layout, disk) == (c, layout, Ok::<(), Seq<char>>(())),
        wallpaper::can_settle(c, layout, disk),
{
    assert(0 * layout.out_count == 0) by (nonlinear_arith);
}

// ---------------------------------------------------------------------------
// Trials

impl WallpaperControl {
    /// Whether an action can be prepared on outputs.
    #[verifier::spinoff_prover]
    #[verifier::rlimit(30)]
    pub fn can_prepare(
        &self,
        action: &WallpaperAction,
        outputs: &Vec<ActiveOutput>,
        capture_canvas_positions: bool,
        disk: &Disk,
        stored: &StoredLayout,
    ) -> (result: bool)
        requires
            drawing::sound_control(self@),
        ensures
            result == change::can_prepare(
                self@,
                *action,
                wallpaper::output_names(outputs@),
                capture_canvas_positions,
                disk@,
                stored@,
            ),
    {
        let ghost names = wallpaper::output_names(outputs@);
        assert(names.len() == outputs@.len());
        if outputs.len() == 0 {
            return true;
        }
        let checked = match action {
            WallpaperAction::Replace { index } => validate_output_index(
                outputs,
                *index,
                "replace",
            ),
            WallpaperAction::Quarantine { index } => validate_output_index(
                outputs,
                *index,
                "quarantine",
            ),
            _ => Ok(()),
        };
        if checked.is_err() {
            return true;
        }
        proof {
            wallpaper::lemma_taken(self@, names, stored@);
        }
        let mut trial = self.copy();
        let (_key, mut layout) = trial.take_layout(outputs, stored);
        if capture_canvas_positions {
            match trial.try_settle(&mut layout, disk) {
                None => {
                    return false;
                },
                Some(Err(_)) => {
                    return true;
                },
                Some(Ok(())) => {},
            }
        }
        let selection = match trial.try_action(&mut layout, disk, action) {
            None => {
                return false;
            },
            Some(Err(_)) => {
                return true;
            },
            Some(Ok(selection)) => selection,
        };
        assert(text::texts(selection@).len() == selection@.len());
        if selection.len() < outputs.len() {
            match trial.try_fill(&mut layout, disk) {
                None => {
                    return false;
                },
                Some(Err(_)) => {
                    return true;
                },
                Some(Ok(())) => {},
            }
        }
        trial.is_ready(disk, 1)
    }

    /// Whether what outputs show at startup can be prepared.
    pub fn can_prepare_startup(
        &self,
        outputs: &Vec<ActiveOutput>,
        disk: &Disk,
        stored: &StoredLayout,
    ) -> (result: bool)
        requires
            drawing::sound_control(self@),
        ensures
            result == change::can_prepare_startup(
                self@,
                wallpaper::output_names(outputs@),
                disk@,
                stored@,
            ),
    {
        let ghost names = wallpaper::output_names(outputs@);
        assert(names.len() == outputs@.len());
        if outputs.len() == 0 {
            return true;
        }
        proof {
            wallpaper::lemma_taken(self@, names, stored@);
        }
        let mut trial = self.copy();
        let (_key, mut layout) = trial.take_layout(outputs, stored);
        match trial.try_settle(&mut layout, disk) {
            None => false,
            Some(Err(_)) => true,
            Some(Ok(())) => trial.is_ready(disk, 1),
        }
    }

    /// Whether the wallpaper of an output can be made a favorite, or no longer one.
    pub fn can_favor(
        &self,
        outputs: &Vec<ActiveOutput>,
        index: usize,
        favorite: bool,
        disk: &Disk,
        stored: &StoredLayout,
    ) -> (result: bool)
        requires
            drawing::sound_control(self@),
        ensures
            result == change::can_favor(
                self@,
                wallpaper::output_names(outputs@),
                index,
                favorite,
                disk@,
                stored@,
            ),
    {
        let ghost names = wallpaper::output_names(outputs@);
        assert(names.len() == outputs@.len());
        let action: &str = if favorite {
            "favorite"
        } else {
            "unfavorite"
        };
        if validate_output_index(outputs, index, action).is_err() {
            return true;
        }
        assert(names.len() == outputs.len());
        proof {
            wallpaper::lemma_taken(self@, names, stored@);
        }
        let mut trial = self.copy();
        let (_key, layout) = trial.take_layout(outputs, stored);
        layout.current_selection(true).is_err() || trial.can_fill(&layout, disk)
    }
}

} // verus!
