//! Whether there are wallpapers enough for what outputs are to show.

use crate::control::{ControlView, DiskView};
use crate::layout::{LayoutView, StoredView};
use crate::protocol::WallpaperAction;
use crate::change;
use crate::control;
use crate::drawing;
use crate::textlist;
use crate::wallpaper;
use vstd::prelude::*;

verus! {

// ---------------------------------------------------------------------------
// What suffices

/// Whether an action shifts the window within its rows.
pub open spec fn is_shift(action: WallpaperAction) -> bool {
    action is ShiftForward || action is ShiftBack
}

/// Whether the library and the disk suffice for whatever outputs are to show: there are
/// wallpapers enough on disk, none at all, or the disk cannot be read; and a history of one
/// row is not to be shifted.
pub open spec fn is_ample(
    c: ControlView,
    names: Seq<Seq<char>>,
    disk: DiskView,
    stored: StoredView,
    shifts: bool,
) -> bool {
    let (left, layout) = wallpaper::taken(c, names, stored);
    &&& wallpaper::is_ready(left, disk, layout.out_count)
    &&& layout.idx < usize::MAX
    &&& layout.max_history >= 2 || layout.out_count == 1 || (layout.offset == 0 && !shifts)
}

/// Whether the library and the disk suffice for an action on outputs.
pub open spec fn is_ample_for(
    c: ControlView,
    action: WallpaperAction,
    names: Seq<Seq<char>>,
    disk: DiskView,
    stored: StoredView,
) -> bool {
    names.len() == 0 || (is_ample(c, names, disk, stored, is_shift(action)) && (
    action is Quarantine ==> can_spare(c, disk)))
}

/// Whether the library can do without any one wallpaper: where only one is on disk, it
/// knows no other.
pub open spec fn can_spare(c: ControlView, disk: DiskView) -> bool {
    ||| disk.error is Some
    ||| drawing::on_disk(c, disk).len() != 1
    ||| forall|wall: Seq<char>| #[trigger]
        c.library.contains(wall) ==> wall == drawing::on_disk(c, disk)[0]
}

pub proof fn lemma_spare(c: ControlView, next: ControlView, disk: DiskView)
    requires
        can_spare(c, disk),
        drawing::continues(next, c, disk),
    ensures
        can_spare(next, disk),
{
}

proof fn lemma_draw_without(c: ControlView, disk: DiskView, count: usize, out: Seq<char>)
    requires
        wallpaper::is_ready(c, disk, count),
        can_spare(c, disk),
    ensures
        wallpaper::can_draw(c, disk, 1, Some(out)),
        control::draw_ends(c, disk, 1, Some(out)),
        control::drawn(c, disk, 1, Some(out)).1 matches Ok(walls) ==> walls.len() == 1,
        wallpaper::is_ready(control::drawn(c, disk, 1, Some(out)).0, disk, count),
        drawing::continues(control::drawn(c, disk, 1, Some(out)).0, c, disk),
{
    let walls = drawing::on_disk(c, disk);
    drawing::lemma_on_disk(c, disk);
    textlist::lemma_ascending_distinct(walls);
    textlist::lemma_ascending_distinct(c.library);
    drawing::lemma_others(walls, Some(out));
    drawing::lemma_others(c.library, Some(out));
    let rest = control::others(c.library, Some(out));
    if disk.error is None && walls.len() > 0 && rest.len() > 0 {
        assert(rest.contains(rest[0]));
        assert(c.library.contains(rest[0]));
        let wall = if walls[0] == out && walls.len() > 1 {
            walls[1]
        } else {
            walls[0]
        };
        assert(walls.contains(wall));
        assert(control::others(walls, Some(out)).contains(wall));
    }
    drawing::law_drawing(c, disk, 1, Some(out));
}

// ---------------------------------------------------------------------------
// Why it suffices

/// Whether rows can be drawn for a layout, and its history has room for its window.
spec fn is_steady(c: ControlView, layout: LayoutView, disk: DiskView) -> bool {
    &&& wallpaper::is_ready(c, disk, layout.out_count)
    &&& drawing::sound_layout(layout)
    &&& layout.max_history >= 2 || layout.offset == 0
}

/// Whether a library and a layout are what an action leaves of others.
spec fn is_left(
    c: ControlView,
    layout: LayoutView,
    next: ControlView,
    after: LayoutView,
    disk: DiskView,
) -> bool {
    &&& is_steady(next, after, disk)
    &&& drawing::continues(next, c, disk)
    &&& after.out_count == layout.out_count
    &&& after.max_history == layout.max_history
}

proof fn lemma_started(c: ControlView, layout: LayoutView, disk: DiskView)
    requires
        is_steady(c, layout, disk),
    ensures
        ({
            let (next, after, _) = wallpaper::started(c, layout, disk);
            is_left(c, layout, next, after, disk) && (after.idx <= layout.idx || after.idx == 1)
        }),
        wallpaper::can_start(c, layout, disk),
{
    wallpaper::lemma_ready_after(c, disk, layout.out_count);
}

proof fn lemma_extended(c: ControlView, layout: LayoutView, disk: DiskView)
    requires
        is_steady(c, layout, disk),
    ensures
        ({
            let (next, after, _) = wallpaper::extended(c, layout, disk);
            is_left(c, layout, next, after, disk) && (after.idx <= layout.idx || after.idx == 1)
        }),
        wallpaper::can_fill(c, layout, disk),
    decreases wallpaper::missing_rows(layout),
{
    if !layout.is_filled() {
        wallpaper::lemma_ready_after(c, disk, layout.out_count);
        let (next, result) = control::drawn(c, disk, layout.out_count as nat, None);
        if let Ok(row) = result {
            wallpaper::lemma_grown(layout, row);
            lemma_extended(next, wallpaper::grown(layout, row), disk);
        }
    }
}

proof fn lemma_settled(c: ControlView, layout: LayoutView, disk: DiskView)
    requires
        is_steady(c, layout, disk),
    ensures
        ({
            let (next, after, _) = wallpaper::settled(c, layout, disk);
            is_left(c, layout, next, after, disk) && (after.idx <= layout.idx || after.idx == 1)
        }),
        wallpaper::can_settle(c, layout, disk),
{
    lemma_started(c, layout, disk);
    let (c1, l1, _) = wallpaper::started(c, layout, disk);
    lemma_extended(c1, l1, disk);
}

proof fn lemma_stepped(c: ControlView, layout: LayoutView, disk: DiskView, back: bool)
    requires
        is_steady(c, layout, disk),
        layout.idx < usize::MAX,
    ensures
        ({
            let (next, after, _) = wallpaper::stepped(c, layout, disk, back);
            is_left(c, layout, next, after, disk)
        }),
        wallpaper::can_step(c, layout, disk, back),
{
    lemma_started(c, layout, disk);
    let (c1, l1, _) = wallpaper::started(c, layout, disk);
    let index = if l1.idx < 1 {
        1usize
    } else {
        l1.idx
    };
    lemma_extended(c1, wallpaper::window_of(l1, (index + 1) as usize), disk);
}

proof fn lemma_shifted(c: ControlView, layout: LayoutView, disk: DiskView, forward: bool)
    requires
        is_steady(c, layout, disk),
        layout.idx < usize::MAX,
        layout.max_history >= 2 || layout.out_count == 1,
    ensures
        ({
            let (next, after, _) = wallpaper::shifted(c, layout, disk, forward);
            is_left(c, layout, next, after, disk)
        }),
        wallpaper::can_shift(c, layout, disk, forward),
{
    lemma_started(c, layout, disk);
    let (c1, l1, _) = wallpaper::started(c, layout, disk);
    lemma_extended(c1, wallpaper::shifted_on(l1), disk);
}

proof fn lemma_replaced(
    c: ControlView,
    layout: LayoutView,
    disk: DiskView,
    index: usize,
    exclude: Option<Seq<char>>,
)
    requires
        is_steady(c, layout, disk),
        exclude is Some ==> can_spare(c, disk),
    ensures
        ({
            let (next, after, _) = wallpaper::replaced(c, layout, disk, index, exclude);
            is_left(c, layout, next, after, disk)
        }),
        wallpaper::can_replace(c, layout, disk, exclude),
{
    lemma_settled(c, layout, disk);
    let (c1, l1, _) = wallpaper::settled(c, layout, disk);
    wallpaper::lemma_ready_after(c1, disk, l1.out_count);
    if let Some(out) = exclude {
        lemma_spare(c, c1, disk);
        lemma_draw_without(c1, disk, l1.out_count, out);
    }
}

proof fn lemma_chosen(
    c: ControlView,
    layout: LayoutView,
    disk: DiskView,
    action: WallpaperAction,
)
    requires
        is_steady(c, layout, disk),
        layout.idx < usize::MAX,
        is_shift(action) ==> layout.max_history >= 2 || layout.out_count == 1,
        action is Quarantine ==> can_spare(c, disk),
    ensures
        ({
            let (next, after, _) = change::chosen(c, layout, disk, action);
            is_left(c, layout, next, after, disk)
        }),
        change::can_choose(c, layout, disk, action),
{
    match action {
        WallpaperAction::Next => lemma_stepped(c, layout, disk, false),
        WallpaperAction::Back => lemma_stepped(c, layout, disk, true),
        WallpaperAction::ShiftForward => lemma_shifted(c, layout, disk, true),
        WallpaperAction::ShiftBack => lemma_shifted(c, layout, disk, false),
        WallpaperAction::Replace { index } => lemma_replaced(c, layout, disk, index, None),
        WallpaperAction::Quarantine { index } => {
            lemma_settled(c, layout, disk);
            let (c1, l1, _) = wallpaper::settled(c, layout, disk);
            lemma_spare(c, c1, disk);
            lemma_replaced(c1, l1, disk, index, Some(l1.window()[index as int]));
        },
        _ => {},
    }
}

proof fn lemma_one_is_ready(c: ControlView, disk: DiskView, count: usize)
    requires
        wallpaper::is_ready(c, disk, count),
    ensures
        wallpaper::is_ready(c, disk, 1),
{
}

/// Where the library and the disk suffice for an action, it can be prepared.
pub proof fn law_ample_actions_can_be_prepared(
    c: ControlView,
    action: WallpaperAction,
    names: Seq<Seq<char>>,
    capture: bool,
    disk: DiskView,
    stored: StoredView,
)
    requires
        drawing::sound_control(c),
        names.len() <= usize::MAX,
        is_ample_for(c, action, names, disk, stored),
    ensures
        change::can_prepare(c, action, names, capture, disk, stored),
{
    if names.len() > 0 && change::action_check(action, names.len()) is Ok {
        let (c1, l1) = wallpaper::taken(c, names, stored);
        wallpaper::lemma_taken(c, names, stored);
        lemma_settled(c1, l1, disk);
        let (c2, l2, before) = change::positioned(c1, l1, disk, capture);
        if action is Quarantine {
            assert(can_spare(c1, disk));
            lemma_spare(c1, c2, disk);
        }
        lemma_chosen(c2, l2, disk, action);
        let (c3, l3, picked) = change::chosen(c2, l2, disk, action);
        lemma_extended(c3, l3, disk);
        if let Ok((selection, _)) = picked {
            let c4 = change::completed(c3, l3, disk, selection, names.len()).0;
            lemma_one_is_ready(c4, disk, l3.out_count);
        }
    }
}

/// Where the library and the disk suffice, what outputs show at startup can be prepared, and
/// the wallpaper of an output can be made a favorite.
pub proof fn law_ample_displays_can_be_prepared(
    c: ControlView,
    names: Seq<Seq<char>>,
    index: usize,
    favorite: bool,
    disk: DiskView,
    stored: StoredView,
)
    requires
        drawing::sound_control(c),
        0 < names.len() <= usize::MAX,
        is_ample(c, names, disk, stored, false),
    ensures
        change::can_prepare_startup(c, names, disk, stored),
        change::can_favor(c, names, index, favorite, disk, stored),
{
    let (c1, l1) = wallpaper::taken(c, names, stored);
    wallpaper::lemma_taken(c, names, stored);
    lemma_settled(c1, l1, disk);
    lemma_extended(c1, l1, disk);
    lemma_one_is_ready(wallpaper::settled(c1, l1, disk).0, disk, l1.out_count);
}

} // verus!
