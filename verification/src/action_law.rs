//! What is proved of the actions on wallpapers: which places of the history they show, and
//! what they change in it.

use crate::change::PreparedView;
use crate::control::{ControlView, DiskView};
use crate::layout::{LayoutView, StoredView};
use crate::protocol::WallpaperAction;
use crate::response::EntryView;
use crate::wallpaper::MoveView;
use crate::change;
use crate::control;
use crate::display_law;
use crate::drawing;
use crate::layout;
use crate::paths;
use crate::textlist;
use crate::textmap;
use crate::wallpaper;
use crate::wallpaper_law;
use vstd::prelude::*;

verus! {

// ---------------------------------------------------------------------------
// The window

/// A history laid end to end is its first rows laid end to end, and its last row behind them;
/// where every row has as many wallpapers, each stands where its row and its place in the row
/// put it.
pub proof fn law_rows_lie_end_to_end(
    history: Seq<Seq<Seq<char>>>,
    row: Seq<Seq<char>>,
    count: nat,
    i: int,
    k: int,
)
    ensures
        layout::flat(history.push(row)) == layout::flat(history) + row,
        layout::flat(Seq::empty()) == Seq::<Seq<char>>::empty(),
        (0 <= i < history.len() && 0 <= k < count && forall|j: int|
            0 <= j < history.len() ==> (#[trigger] history[j]).len() == count) ==> {
            &&& layout::flat(history).len() == history.len() * count
            &&& 0 <= i * count + k < layout::flat(history).len()
            &&& layout::flat(history)[i * count + k] == history[i][k]
        },
{
    assert(history.push(row).drop_last() =~= history);
    if 0 <= i < history.len() && 0 <= k < count && forall|j: int|
        0 <= j < history.len() ==> (#[trigger] history[j]).len() == count {
        display_law::lemma_row_at(history, count, i);
        assert((i + 1) * count == i * count + count) by (nonlinear_arith);
        let part = layout::flat(history).subrange(i * count, (i + 1) * count);
        assert(part[k] == layout::flat(history)[i * count + k]);
    }
}

/// A window shows as many wallpapers of the history as there are outputs, one after the other,
/// from the row of its index and the place of its offset on.
pub proof fn law_window_shows_its_place(layout: LayoutView, k: int)
    requires
        display_law::is_orderly(layout),
        layout.idx >= 1,
        0 <= k < layout.out_count,
        (layout.idx - 1) * layout.out_count + layout.offset + layout.out_count
            <= layout.history.len() * layout.out_count,
    ensures
        layout.window().len() == layout.out_count,
        layout.offset + k < layout.out_count ==> layout.window()[k] == layout.history[layout.idx
            - 1][layout.offset + k],
        layout.offset + k >= layout.out_count ==> layout.window()[k]
            == layout.history[layout.idx as int][layout.offset + k - layout.out_count],
{
    let out = layout.out_count as nat;
    let history = layout.history;
    let none = Seq::<Seq<char>>::empty();
    let i = layout.idx - 1;
    wallpaper_law::lemma_flat_len(history, out);
    assert(i * out >= 0) by (nonlinear_arith)
        requires
            i >= 0,
    ;
    assert((i + 1) * out == i * out + out) by (nonlinear_arith);
    assert(i < history.len()) by (nonlinear_arith)
        requires
            i * out + layout.offset + out <= history.len() * out,
            out >= 1,
            layout.offset >= 0,
    ;
    if layout.offset + k < out {
        law_rows_lie_end_to_end(history, none, out, i, layout.offset + k);
    } else {
        assert(i + 1 < history.len()) by (nonlinear_arith)
            requires
                i * out + layout.offset + out <= history.len() * out,
                out >= 1,
                layout.offset >= 1,
        ;
        law_rows_lie_end_to_end(history, none, out, i + 1, layout.offset + k - out);
    }
}

// ---------------------------------------------------------------------------
// On and back

/// Whether a layout shows one of its rows.
pub open spec fn shows_row(layout: LayoutView) -> bool {
    &&& display_law::is_orderly(layout)
    &&& layout.offset == 0
    &&& 1 <= layout.idx <= layout.history.len()
}

/// The next action shows the row behind the one that is shown, where there is one, and leaves
/// the history and the library alone.
pub proof fn law_next_shows_the_next_row(c: ControlView, layout: LayoutView, disk: DiskView)
    requires
        shows_row(layout),
        layout.idx < layout.history.len(),
    ensures
        change::chosen(c, layout, disk, WallpaperAction::Next) == (
            c,
            LayoutView { idx: (layout.idx + 1) as usize, ..layout },
            Ok::<(Seq<Seq<char>>, Option<MoveView>), Seq<char>>(
                (layout.history[layout.idx as int], None),
            ),
        ),
{
    let moved = LayoutView { idx: (layout.idx + 1) as usize, ..layout };
    assert(layout.history.len() < usize::MAX) by (nonlinear_arith)
        requires
            (layout.history.len() + 1) * layout.out_count < usize::MAX,
            layout.out_count >= 1,
    ;
    display_law::lemma_window_is_row(moved);
}

/// Behind the last row the next action shows a row that is drawn: it becomes the last row of
/// the history, whose oldest row leaves it where it is full.
pub proof fn law_next_draws_behind_the_last_row(
    c: ControlView,
    layout: LayoutView,
    disk: DiskView,
)
    requires
        shows_row(layout),
        layout.idx == layout.history.len(),
        layout.max_history >= 2,
        (layout.history.len() + 2) * layout.out_count < usize::MAX,
        wallpaper::is_ready(c, disk, layout.out_count),
    ensures
        ({
            let (drawn, row) = control::drawn(c, disk, layout.out_count as nat, None);
            let (next, after, result) = change::chosen(c, layout, disk, WallpaperAction::Next);
            match result {
                Ok((selection, plan)) => {
                    &&& row == Ok::<Seq<Seq<char>>, Seq<char>>(selection)
                    &&& next == drawn
                    &&& plan is None
                    &&& selection.len() == layout.out_count
                    &&& after.history.last() == selection
                    &&& after.idx == after.history.len()
                    &&& after.offset == 0
                    &&& layout.history.len() < layout.max_history ==> after.history
                        == layout.history.push(selection)
                    &&& layout.history.len() == layout.max_history ==> after.history
                        == layout.history.skip(1).push(selection)
                },
                Err(message) => row == Err::<Seq<Seq<char>>, Seq<char>>(message),
            }
        }),
{
    display_law::lemma_next_is_drawn(c, layout, disk);
    let (next, after, result) = wallpaper::stepped(c, layout, disk, false);
    match result {
        Ok(selection) => {
            display_law::lemma_window_is_row(after);
            let longer = layout.history.push(selection);
            assert(longer.skip(0) =~= longer);
            assert(longer.skip(1) =~= layout.history.skip(1).push(selection));
            if layout.history.len() == layout.max_history {
                assert(after.history.len() <= layout.max_history) by {
                    lemma_step_is_bounded(c, layout, disk);
                }
            }
        },
        Err(_) => {
            lemma_step_fails(c, layout, disk);
        },
    }
}

proof fn lemma_step_is_bounded(c: ControlView, layout: LayoutView, disk: DiskView)
    requires
        shows_row(layout),
        layout.idx == layout.history.len(),
        layout.max_history >= 2,
        (layout.history.len() + 2) * layout.out_count < usize::MAX,
        wallpaper::is_ready(c, disk, layout.out_count),
        wallpaper::stepped(c, layout, disk, false).2 is Ok,
    ensures
        wallpaper::stepped(c, layout, disk, false).1.history.len() <= layout.max_history,
{
    let moved = wallpaper::window_of(layout, (layout.idx + 1) as usize);
    lemma_moved_is_short(layout);
    let (next, result) = control::drawn(c, disk, layout.out_count as nat, None);
    display_law::lemma_next_is_drawn(c, layout, disk);
    if let Ok(row) = result {
        let after = wallpaper::grown(moved, row);
        wallpaper::lemma_grown(moved, row);
        wallpaper::lemma_ready_after(c, disk, layout.out_count);
        lemma_grown_is_filled(layout, row);
        assert(wallpaper::extended(next, after, disk) == (next, after, Ok::<(), Seq<char>>(())));
    }
}

proof fn lemma_moved_is_short(layout: LayoutView)
    requires
        shows_row(layout),
        layout.idx == layout.history.len(),
        (layout.history.len() + 2) * layout.out_count < usize::MAX,
    ensures
        layout.history.len() < usize::MAX,
        !wallpaper::window_of(layout, (layout.idx + 1) as usize).is_filled(),
        wallpaper::is_reachable(wallpaper::window_of(layout, (layout.idx + 1) as usize)),
{
    let len = layout.history.len() as int;
    let out = layout.out_count as int;
    assert((len + 1) * out + out == (len + 2) * out) by (nonlinear_arith);
    assert(len < usize::MAX) by (nonlinear_arith)
        requires
            (len + 2) * out < usize::MAX,
            out >= 1,
            len >= 0,
    ;
    let moved = wallpaper::window_of(layout, (layout.idx + 1) as usize);
    display_law::lemma_filled(moved);
    assert(len * out + out > len * out);
}

proof fn lemma_grown_is_filled(layout: LayoutView, row: Seq<Seq<char>>)
    requires
        shows_row(layout),
        layout.idx == layout.history.len(),
        layout.max_history >= 2,
        (layout.history.len() + 2) * layout.out_count < usize::MAX,
        row.len() == layout.out_count,
    ensures
        wallpaper::grown(
            wallpaper::window_of(layout, (layout.idx + 1) as usize),
            row,
        ).is_filled(),
{
    lemma_moved_is_short(layout);
    let moved = wallpaper::window_of(layout, (layout.idx + 1) as usize);
    let after = wallpaper::grown(moved, row);
    let longer = layout.history.push(row);
    let dropped = longer.len() - after.history.len();
    assert forall|k: int| 0 <= k < after.history.len() implies (#[trigger] after.history[k]).len()
        == layout.out_count by {
        assert(after.history[k] == longer[k + dropped]);
        if k + dropped < layout.history.len() {
            assert(longer[k + dropped] == layout.history[k + dropped]);
        }
    }
    let len = layout.history.len() as int;
    let out = layout.out_count as int;
    assert((after.history.len() + 1) * out <= (len + 2) * out) by (nonlinear_arith)
        requires
            after.history.len() <= len + 1,
            out >= 1,
    ;
    display_law::lemma_window_is_row(after);
}

proof fn lemma_step_fails(c: ControlView, layout: LayoutView, disk: DiskView)
    requires
        shows_row(layout),
        layout.idx == layout.history.len(),
        layout.max_history >= 2,
        (layout.history.len() + 2) * layout.out_count < usize::MAX,
        wallpaper::is_ready(c, disk, layout.out_count),
        wallpaper::stepped(c, layout, disk, false).2 is Err,
    ensures
        control::drawn(c, disk, layout.out_count as nat, None).1 is Err,
        control::drawn(c, disk, layout.out_count as nat, None).1->Err_0 == wallpaper::stepped(
            c,
            layout,
            disk,
            false,
        ).2->Err_0,
{
    let moved = wallpaper::window_of(layout, (layout.idx + 1) as usize);
    lemma_moved_is_short(layout);
    let (next, result) = control::drawn(c, disk, layout.out_count as nat, None);
    if let Ok(row) = result {
        let after = wallpaper::grown(moved, row);
        wallpaper::lemma_grown(moved, row);
        wallpaper::lemma_ready_after(c, disk, layout.out_count);
        lemma_grown_is_filled(layout, row);
        assert(wallpaper::extended(next, after, disk) == (next, after, Ok::<(), Seq<char>>(())));
    }
}

/// The back action shows the row before the one that is shown, or the first again, and leaves
/// the history and the library alone.
pub proof fn law_back_shows_the_row_before(c: ControlView, layout: LayoutView, disk: DiskView)
    requires
        shows_row(layout),
    ensures
        ({
            let idx = if layout.idx > 1 {
                (layout.idx - 1) as usize
            } else {
                1usize
            };
            change::chosen(c, layout, disk, WallpaperAction::Back) == (
                c,
                LayoutView { idx, ..layout },
                Ok::<(Seq<Seq<char>>, Option<MoveView>), Seq<char>>(
                    (layout.history[idx - 1], None),
                ),
            )
        }),
{
    let idx = if layout.idx > 1 {
        (layout.idx - 1) as usize
    } else {
        1usize
    };
    display_law::lemma_window_is_row(LayoutView { idx, ..layout });
}

/// Shifting forward moves every wallpaper to the output before, where the history reaches one
/// further: the last output shows the next wallpaper of the history.
pub proof fn law_shift_forward_moves_to_the_front(
    c: ControlView,
    layout: LayoutView,
    disk: DiskView,
    i: int,
)
    requires
        display_law::is_orderly(layout),
        layout.idx >= 1,
        layout.idx < usize::MAX,
        0 <= i < layout.out_count,
        (layout.idx - 1) * layout.out_count + layout.offset + 1 + layout.out_count
            <= layout.history.len() * layout.out_count,
    ensures
        ({
            let (next, after, result) = change::chosen(
                c,
                layout,
                disk,
                WallpaperAction::ShiftForward,
            );
            let start = (layout.idx - 1) * layout.out_count + layout.offset;
            &&& next == c
            &&& after.history == layout.history
            &&& result matches Ok((selection, plan)) && plan is None && selection.len()
                == layout.out_count && selection[i] == layout::flat(layout.history)[start + 1 + i]
            &&& i + 1 < layout.out_count ==> result->Ok_0.0[i] == layout.window()[i + 1]
        }),
{
    let out = layout.out_count as int;
    let len = layout.history.len() as int;
    let moved = wallpaper::shifted_on(layout);
    wallpaper_law::lemma_flat_len(layout.history, layout.out_count as nat);
    let start = (layout.idx - 1) * out + layout.offset;
    assert((layout.idx - 1) * out >= 0) by (nonlinear_arith)
        requires
            layout.idx >= 1,
            out >= 1,
    ;
    assert(layout.idx * out == (layout.idx - 1) * out + out) by (nonlinear_arith);
    assert(moved.start() == start + 1);
    assert(len > 0) by (nonlinear_arith)
        requires
            start + 1 + out <= len * out,
            start >= 0,
            out >= 1,
    ;
    display_law::lemma_filled(moved);
    display_law::lemma_filled(layout);
    let all = layout::flat(layout.history);
    assert(moved.window() == all.subrange(start + 1, start + 1 + out));
    assert(layout.window() == all.subrange(start, start + out));
}

/// Shifting back moves every wallpaper to the output behind: the first output shows the
/// wallpaper of the history before. At the start of the history nothing moves.
pub proof fn law_shift_back_moves_to_the_end(
    c: ControlView,
    layout: LayoutView,
    disk: DiskView,
    i: int,
)
    requires
        display_law::is_orderly(layout),
        layout.idx >= 1,
        0 <= i < layout.out_count,
        (layout.idx - 1) * layout.out_count + layout.offset + layout.out_count
            <= layout.history.len() * layout.out_count,
    ensures
        ({
            let (next, after, result) = change::chosen(
                c,
                layout,
                disk,
                WallpaperAction::ShiftBack,
            );
            let start = (layout.idx - 1) * layout.out_count + layout.offset;
            &&& next == c
            &&& after.history == layout.history
            &&& result matches Ok((selection, plan)) && plan is None && selection.len()
                == layout.out_count && selection[i] == layout::flat(layout.history)[if start > 0 {
                start - 1 + i
            } else {
                i
            }]
            &&& start > 0 && i > 0 ==> result->Ok_0.0[i] == layout.window()[i - 1]
        }),
{
    let out = layout.out_count as int;
    let len = layout.history.len() as int;
    let moved = wallpaper::shifted_back(layout);
    wallpaper_law::lemma_flat_len(layout.history, layout.out_count as nat);
    let start = (layout.idx - 1) * out + layout.offset;
    assert((layout.idx - 1) * out >= 0) by (nonlinear_arith)
        requires
            layout.idx >= 1,
            out >= 1,
    ;
    assert((layout.idx - 1) * out == (layout.idx - 2) * out + out) by (nonlinear_arith);
    assert(layout.idx == 1 ==> (layout.idx - 1) * out == 0) by (nonlinear_arith);
    assert(layout.idx >= 2 ==> (layout.idx - 2) * out >= 0) by (nonlinear_arith)
        requires
            out >= 1,
    ;
    assert(len > 0) by (nonlinear_arith)
        requires
            start + out <= len * out,
            start >= 0,
            out >= 1,
    ;
    let all = layout::flat(layout.history);
    assert(layout.window() == all.subrange(start, start + out));
    if start > 0 {
        assert(moved.start() == start - 1);
        assert(moved.window() == all.subrange(start - 1, start - 1 + out));
    } else {
        assert(moved == layout);
    }
}

// ---------------------------------------------------------------------------
// Replacing

/// Replacing the wallpaper of an output changes that output alone: every other shows what it
/// showed, and this one a wallpaper that is drawn. What is shown becomes the last row of the
/// history, behind the row that was shown.
#[verifier::spinoff_prover]
pub proof fn law_replace_changes_one_output(
    c: ControlView,
    layout: LayoutView,
    disk: DiskView,
    index: usize,
)
    requires
        display_law::is_orderly(layout),
        layout.is_filled(),
        index < layout.out_count,
        layout.idx < usize::MAX,
        drawing::sound_control(c),
        wallpaper::can_draw(c, disk, 1, None),
    ensures
        ({
            let (drawn, walls) = control::drawn(c, disk, 1, None);
            let (next, after, result) = change::chosen(
                c,
                layout,
                disk,
                WallpaperAction::Replace { index },
            );
            match result {
                Ok((selection, plan)) => {
                    &&& plan is None
                    &&& next == drawn
                    &&& walls matches Ok(walls) && walls.len() == 1 && selection[index as int]
                        == walls[0]
                    &&& selection.len() == layout.window().len()
                    &&& selection.len() == layout.out_count
                    &&& forall|i: int|
                        0 <= i < selection.len() && i != index ==> #[trigger] selection[i]
                            == layout.window()[i]
                    &&& drawing::on_disk(c, disk).contains(selection[index as int])
                    &&& is_branch(layout, after, selection)
                },
                Err(message) => walls == Err::<Seq<Seq<char>>, Seq<char>>(message),
            }
        }),
{
    display_law::lemma_filled(layout);
    drawing::law_drawing(c, disk, 1, None);
    assert(0 * layout.out_count == 0);
    lemma_rows_fit(layout);
    lemma_branch(layout, change::chosen(
        c,
        layout,
        disk,
        WallpaperAction::Replace { index },
    ).2->Ok_0.0);
}

/// Whether a layout shows a row as its last one, behind the rows of another layout up to the
/// one that that shows, as many of them as there is room for.
pub open spec fn is_branch(layout: LayoutView, after: LayoutView, row: Seq<Seq<char>>) -> bool {
    let kept = if layout.history.len() > layout.idx {
        layout.history.take(layout.idx as int)
    } else {
        layout.history
    };
    &&& after.history.len() >= 1
    &&& after.history.last() == row
    &&& after.idx == after.history.len()
    &&& after.offset == 0
    &&& after.out_count == layout.out_count
    &&& after.max_history == layout.max_history
    &&& after.layout_dir == layout.layout_dir
    &&& kept.len() < layout.max_history ==> after.history == kept.push(row)
    &&& kept.len() >= layout.max_history ==> after.history.len() == layout.max_history
        && after.history.drop_last() == kept.skip(kept.len() + 1 - layout.max_history)
}

proof fn lemma_rows_fit(layout: LayoutView)
    requires
        display_law::is_orderly(layout),
    ensures
        layout.history.len() < usize::MAX,
{
    assert(layout.history.len() < usize::MAX) by (nonlinear_arith)
        requires
            (layout.history.len() + 1) * layout.out_count < usize::MAX,
            layout.out_count >= 1,
    ;
}

proof fn lemma_branch(layout: LayoutView, row: Seq<Seq<char>>)
    requires
        layout.max_history >= 1,
        layout.history.len() < usize::MAX,
    ensures
        is_branch(layout, layout.branched(row), row),
{
    let kept = if layout.history.len() > layout.idx {
        layout.history.take(layout.idx as int)
    } else {
        layout.history
    };
    let after = layout.branched(row);
    let longer = kept.push(row);
    if longer.len() > layout.max_history {
        assert(after.history.drop_last() =~= kept.skip(kept.len() + 1 - layout.max_history));
    }
}

/// Quarantining the wallpaper of an output changes that output alone: it shows a wallpaper
/// that is drawn and is another one. The wallpaper that it showed is the one that is moved, to
/// a path that nothing stands at.
#[verifier::spinoff_prover]
pub proof fn law_quarantine_removes_what_the_output_shows(
    c: ControlView,
    layout: LayoutView,
    disk: DiskView,
    index: usize,
)
    requires
        display_law::is_orderly(layout),
        layout.is_filled(),
        index < layout.out_count,
        layout.idx < usize::MAX,
        drawing::sound_control(c),
        wallpaper::can_draw(c, disk, 1, Some(layout.window()[index as int])),
    ensures
        ({
            let target = layout.window()[index as int];
            let (next, after, result) = change::chosen(
                c,
                layout,
                disk,
                WallpaperAction::Quarantine { index },
            );
            result matches Ok((selection, plan)) ==> {
                &&& selection.len() == layout.out_count
                &&& forall|i: int|
                    0 <= i < selection.len() && i != index ==> #[trigger] selection[i]
                        == layout.window()[i]
                &&& selection[index as int] != target
                &&& drawing::on_disk(c, disk).contains(selection[index as int])
                &&& control::drawn(c, disk, 1, Some(target)) == (
                    next,
                    Ok::<Seq<Seq<char>>, Seq<char>>(seq![selection[index as int]]),
                )
                &&& is_branch(layout, after, selection)
                &&& disk.files.contains(target) == (plan is Some)
                &&& plan matches Some(plan) ==> plan.source == target && !plan.moved
            }
        }),
{
    let target = layout.window()[index as int];
    display_law::lemma_filled(layout);
    drawing::law_drawing(c, disk, 1, Some(target));
    assert(0 * layout.out_count == 0);
    let (next, after, result) = change::chosen(
        c,
        layout,
        disk,
        WallpaperAction::Quarantine { index },
    );
    lemma_rows_fit(layout);
    if let Ok((selection, plan)) = result {
        lemma_branch(layout, selection);
        let walls = control::drawn(c, disk, 1, Some(target)).1->Ok_0;
        assert(drawing::on_disk(c, disk).contains(walls[0]));
        assert(walls =~= seq![walls[0]]);
    }
}

/// A wallpaper goes into quarantine under its own name where nothing stands there, and never
/// to where something stands.
pub proof fn law_quarantine_overwrites_nothing(c: ControlView, disk: DiskView, target: Seq<char>)
    requires
        disk.files.contains(target),
    ensures
        match (wallpaper::quarantine_plan(c, disk, target), paths::name_of_file(target)) {
            (Ok(Some(plan)), Some(name)) => {
                &&& plan.source == target
                &&& !plan.moved
                &&& !disk.taken.contains(plan.destination)
                &&& !disk.taken.contains(paths::joined(c.quarantine_dir, name))
                    ==> plan.destination == paths::joined(c.quarantine_dir, name)
            },
            (Err(_), None) => true,
            _ => false,
        },
{
    if let Some(name) = paths::name_of_file(target) {
        let dir = c.quarantine_dir;
        paths::lemma_file_name_some(target);
        wallpaper::lemma_free_path(dir, name, disk.taken);
    }
}

// ---------------------------------------------------------------------------
// Changes

/// The entries of a response: for each output, in order, its place, its name, the wallpaper
/// that it shows and whether that is a favorite.
pub open spec fn tells(
    entries: Seq<EntryView>,
    favorites: Seq<Seq<char>>,
    names: Seq<Seq<char>>,
    selection: Seq<Seq<char>>,
) -> bool {
    entries.len() == names.len() && forall|i: int|
        0 <= i < entries.len() ==> {
            let entry = #[trigger] entries[i];
            &&& entry.index == i
            &&& entry.output == names[i]
            &&& entry.path == selection[i]
            &&& entry.favorite == favorites.contains(selection[i])
        }
}

/// A change shows what its action has chosen, where the files of that are there, and tells it
/// for each output; it keeps the layout and the place in the bag from before it.
pub proof fn law_changes_show_what_is_chosen(
    c: ControlView,
    action: WallpaperAction,
    names: Seq<Seq<char>>,
    disk: DiskView,
    stored: StoredView,
)
    requires
        0 < names.len() <= usize::MAX,
        change::action_check(action, names.len()) is Ok,
        ({
            let (c1, l1) = wallpaper::taken(c, names, stored);
            change::chosen(c1, l1, disk, action).2 matches Ok((selection, _)) && selection.len()
                >= names.len() && display_law::all_there(selection, disk)
        }),
    ensures
        ({
            let (c1, l1) = wallpaper::taken(c, names, stored);
            let (c2, l2, result) = change::chosen(c1, l1, disk, action);
            let (selection, plan) = result->Ok_0;
            change::prepared(c, action, names, false, disk, stored) matches (next, Ok(change)) && {
                &&& next == c2
                &&& change.selection == selection
                &&& change.layout == l2
                &&& change.layout_before == l1
                &&& change.quarantine == plan
                &&& change.canvas_before_start is None
                &&& change.canvas_after_start is None
                &&& change.shuffle_pos_before == c.pos
                &&& change.shuffle_bag_len_before == c.bag.len()
                &&& tells(change.entries, next.favorites, names, selection)
            }
        }),
{
    let (c1, l1) = wallpaper::taken(c, names, stored);
    let (c2, l2, result) = change::chosen(c1, l1, disk, action);
    display_law::lemma_nothing_mended(c2, disk, result->Ok_0.0);
}

/// Where the window starts before and after a change is told in wallpapers of the history, if
/// it is asked for.
pub proof fn law_captured_positions_are_those_of_the_windows(
    c: ControlView,
    action: WallpaperAction,
    names: Seq<Seq<char>>,
    disk: DiskView,
    stored: StoredView,
)
    requires
        0 < names.len() <= usize::MAX,
        change::action_check(action, names.len()) is Ok,
        ({
            let (c1, l1) = wallpaper::taken(c, names, stored);
            let (c2, l2, result) = change::chosen(c1, l1, disk, action);
            &&& display_law::is_orderly(l1)
            &&& display_law::is_orderly(l2)
            &&& l1.is_filled()
            &&& l2.is_filled()
            &&& result matches Ok((selection, _)) && selection.len() >= names.len()
                && display_law::all_there(selection, disk)
        }),
    ensures
        ({
            let (c1, l1) = wallpaper::taken(c, names, stored);
            let (c2, l2, result) = change::chosen(c1, l1, disk, action);
            change::prepared(c, action, names, true, disk, stored) matches (next, Ok(change)) && {
                &&& change.selection == result->Ok_0.0
                &&& change.layout == l2
                &&& change.canvas_before_start matches Some(before) && before == (l1.idx - 1)
                    * l1.out_count + l1.offset
                &&& change.canvas_after_start matches Some(after) && after == (l2.idx - 1)
                    * l2.out_count + l2.offset
            }
        }),
{
    let (c1, l1) = wallpaper::taken(c, names, stored);
    let (c2, l2, result) = change::chosen(c1, l1, disk, action);
    lemma_counted(l1);
    lemma_counted(l2);
    display_law::lemma_nothing_mended(c2, disk, result->Ok_0.0);
}

proof fn lemma_counted(layout: LayoutView)
    requires
        display_law::is_orderly(layout),
        layout.is_filled(),
    ensures
        layout.history.len() > 0,
        layout.counted_start() == (layout.idx - 1) * layout.out_count + layout.offset,
        wallpaper::is_reachable(layout),
{
    let out = layout.out_count as int;
    let len = layout.history.len() as int;
    display_law::lemma_filled(layout);
    assert((len + 1) * out == len * out + out) by (nonlinear_arith);
    assert((layout.idx - 1) * out >= 0) by (nonlinear_arith)
        requires
            layout.idx >= 1,
            out >= 1,
    ;
}

/// The index of an action is refused exactly where there is no such output.
pub proof fn law_only_missing_outputs_are_refused(action: WallpaperAction, count: nat)
    ensures
        change::action_check(action, count) is Err <==> match action {
            WallpaperAction::Replace { index } => index >= count,
            WallpaperAction::Quarantine { index } => index >= count,
            _ => false,
        },
{
}

// ---------------------------------------------------------------------------
// Keeping and undoing

/// A change that is kept leaves the library as it is, but for a wallpaper that went into
/// quarantine: that is no longer in the library, the favorites or the bag, whose others keep
/// their order.
pub proof fn law_kept_changes_take_out_what_is_quarantined(
    c: ControlView,
    change: PreparedView,
    wall: Seq<char>,
)
    requires
        drawing::sound_control(c),
    ensures
        ({
            let kept = change::committed(c, change);
            let stays = match change.quarantine {
                Some(plan) => wall != plan.source,
                None => true,
            };
            &&& kept.library.contains(wall) == (c.library.contains(wall) && stays)
            &&& kept.favorites.contains(wall) == (c.favorites.contains(wall) && stays)
            &&& kept.bag.contains(wall) == (c.bag.contains(wall) && stays)
            &&& change.quarantine is None ==> kept.library == c.library && kept.favorites
                == c.favorites && kept.bag == c.bag
            &&& kept.pos == c.pos
            &&& kept.rng == c.rng
            &&& kept.wall_dir == c.wall_dir
            &&& kept.favorite_weight == c.favorite_weight
            &&& textmap::entries_get(kept.layouts, change.layout_key) == Some(change.layout)
        }),
{
    if let Some(plan) = change.quarantine {
        lemma_without(c.library, plan.source, wall);
        lemma_without(c.favorites, plan.source, wall);
        lemma_without(c.bag, plan.source, wall);
    }
    textmap::lemma_get_after_insert(c.layouts, change.layout_key, change.layout, change.layout_key);
}

proof fn lemma_without(list: Seq<Seq<char>>, out: Seq<char>, wall: Seq<char>)
    ensures
        textlist::without(list, out).contains(wall) == (list.contains(wall) && wall != out),
{
    assert(seq![out][0] == out);
    textlist::lemma_filter_contains(list, |text: Seq<char>| !seq![out].contains(text), wall);
}

/// Keeping or undoing a change leaves the layouts of other outputs alone.
pub proof fn law_other_layouts_stay(c: ControlView, change: PreparedView, key: Seq<char>)
    requires
        drawing::sound_control(c),
        key != change.layout_key,
    ensures
        textmap::entries_get(change::committed(c, change).layouts, key) == textmap::entries_get(
            c.layouts,
            key,
        ),
        textmap::entries_get(change::rolled_back(c, change).layouts, key) == textmap::entries_get(
            c.layouts,
            key,
        ),
{
    textmap::lemma_get_after_insert(c.layouts, change.layout_key, change.layout, key);
    textmap::lemma_get_after_insert(c.layouts, change.layout_key, change.layout_before, key);
}

/// A change that is undone leaves the layout from before it, and where the bag has kept its
/// length the place in the bag from before it; nothing else of the library changes.
pub proof fn law_undone_changes_restore(c: ControlView, change: PreparedView)
    requires
        drawing::sound_control(c),
        change.shuffle_pos_before <= change.shuffle_bag_len_before,
    ensures
        ({
            let back = change::rolled_back(c, change);
            &&& textmap::entries_get(back.layouts, change.layout_key) == Some(change.layout_before)
            &&& back.pos == if c.bag.len() == change.shuffle_bag_len_before {
                change.shuffle_pos_before
            } else {
                c.pos
            }
            &&& back.library == c.library
            &&& back.favorites == c.favorites
            &&& back.bag == c.bag
            &&& back.rng == c.rng
        }),
{
    textmap::lemma_get_after_insert(
        c.layouts,
        change.layout_key,
        change.layout_before,
        change.layout_key,
    );
}

// ---------------------------------------------------------------------------
// Favorites

/// The favorite action is about the wallpaper that the output of the index shows: that becomes
/// a favorite, or is no longer one, and no other does; the response tells it for each output.
#[verifier::spinoff_prover]
pub proof fn law_favorite_is_what_the_output_shows(
    c: ControlView,
    names: Seq<Seq<char>>,
    index: usize,
    favorite: bool,
    disk: DiskView,
    stored: StoredView,
    wall: Seq<char>,
)
    requires
        drawing::sound_control(c),
        index < names.len() <= usize::MAX,
        ({
            let (c1, l1) = wallpaper::taken(c, names, stored);
            &&& display_law::is_orderly(l1)
            &&& l1.is_filled()
            &&& l1.out_count == names.len()
        }),
    ensures
        ({
            let (c1, l1) = wallpaper::taken(c, names, stored);
            let target = l1.window()[index as int];
            let (next, result) = change::favored(c, names, index, favorite, disk, stored);
            match result {
                Ok(response) => {
                    &&& next.favorites.contains(wall) == ((if wall == target {
                        favorite
                    } else {
                        c.favorites.contains(wall)
                    }) && c.library.contains(wall) && disk.files.contains(wall))
                    &&& tells(response.entries, next.favorites, names, l1.window())
                    &&& next.library == c.library
                    &&& textmap::entries_get(next.layouts, wallpaper::layout_key(names)) == Some(l1)
                },
                Err(message) => favorite && !disk.files.contains(target) && next.favorites
                    == c.favorites,
            }
        }),
{
    let (c1, l1) = wallpaper::taken(c, names, stored);
    display_law::lemma_filled(l1);
    lemma_counted(l1);
    wallpaper::lemma_taken(c, names, stored);
    let target = l1.window()[index as int];
    wallpaper_law::law_favorites_are_those_chosen(c1, disk.files, target, favorite, wall);
    let chosen = change::with_favorite(c1.favorites, target, favorite);
    let next = control::rebuilt(ControlView { favorites: chosen, ..c1 }, disk.files);
    textmap::lemma_get_after_insert(
        next.layouts,
        wallpaper::layout_key(names),
        l1,
        wallpaper::layout_key(names),
    );
}

// ---------------------------------------------------------------------------
// Files that are gone

/// Wallpapers whose files are there stay in their places when those whose files are gone are
/// replaced, and something has changed only where a file is gone.
pub proof fn law_mending_keeps_what_is_there(
    c: ControlView,
    disk: DiskView,
    selection: Seq<Seq<char>>,
)
    ensures
        wallpaper::mended(c, disk, selection).1 matches Ok((walls, changed)) ==> {
            &&& walls.len() == selection.len()
            &&& forall|i: int|
                0 <= i < walls.len() && (selection[i].len() == 0 || disk.files.contains(
                    selection[i],
                )) ==> #[trigger] walls[i] == selection[i]
            &&& changed <==> exists|i: int|
                0 <= i < selection.len() && (#[trigger] selection[i]).len() > 0
                    && !disk.files.contains(selection[i])
        },
    decreases selection.len(),
{
    if selection.len() > 0 {
        let fewer = selection.drop_last();
        law_mending_keeps_what_is_there(c, disk, fewer);
        let last = selection.len() - 1;
        if let Ok((walls, changed)) = wallpaper::mended(c, disk, selection).1 {
            let (done, before) = wallpaper::mended(c, disk, fewer).1->Ok_0;
            assert forall|i: int|
                0 <= i < walls.len() && (selection[i].len() == 0 || disk.files.contains(
                    selection[i],
                )) implies #[trigger] walls[i] == selection[i] by {
                if i < last {
                    assert(fewer[i] == selection[i]);
                    assert(done[i] == walls[i]);
                }
            }
            if before {
                let i = choose|i: int|
                    0 <= i < fewer.len() && (#[trigger] fewer[i]).len() > 0
                        && !disk.files.contains(fewer[i]);
                assert(selection[i] == fewer[i]);
            }
            if exists|i: int|
                0 <= i < selection.len() && (#[trigger] selection[i]).len() > 0
                    && !disk.files.contains(selection[i]) {
                let i = choose|i: int|
                    0 <= i < selection.len() && (#[trigger] selection[i]).len() > 0
                        && !disk.files.contains(selection[i]);
                if i < last {
                    assert(fewer[i] == selection[i]);
                }
            }
            assert(selection[last] == selection.last());
        }
    }
}

/// What was mended is shown from then on. It stands in the row of the window where the window is
/// a row, with every other row as it was; and else in a row of its own.
pub proof fn law_mended_rows_are_remembered(layout: LayoutView, selection: Seq<Seq<char>>, i: int)
    requires
        display_law::is_orderly(layout),
        layout.offset == 0,
        1 <= layout.idx <= layout.history.len(),
        selection.len() == layout.out_count,
        0 <= i < layout.history.len(),
    ensures
        ({
            let after = wallpaper::remembered(layout, selection);
            &&& after.window() == selection
            &&& after.history.len() == layout.history.len()
            &&& after.history[i] == if i == layout.idx - 1 {
                selection
            } else {
                layout.history[i]
            }
            &&& after.idx == layout.idx
            &&& after.offset == 0
        }),
{
    let after = wallpaper::remembered(layout, selection);
    assert(display_law::is_orderly(after));
    display_law::lemma_window_is_row(after);
}

/// At startup outputs show what they showed last, where that is complete and its files are there.
/// Nothing is drawn for it, and nothing of the layout changes.
pub proof fn law_startup_shows_what_was_shown(
    c: ControlView,
    names: Seq<Seq<char>>,
    disk: DiskView,
    stored: StoredView,
)
    requires
        drawing::sound_control(c),
        0 < names.len() <= usize::MAX,
        ({
            let (_, shown) = wallpaper::taken(c, names, stored);
            &&& shown.history.len() > 0
            &&& shown.is_filled()
            &&& display_law::all_there(shown.window(), disk)
        }),
    ensures
        ({
            let (c1, shown) = wallpaper::taken(c, names, stored);
            let (next, result) = change::prepared_startup(c, names, disk, stored);
            result matches Ok(change) && {
                &&& change.selection == shown.window()
                &&& change.layout == shown
                &&& change.layout_before == shown
                &&& change.quarantine is None
                &&& next == c1
                &&& change.shuffle_pos_before == c.pos
                &&& change.canvas_before_start == change.canvas_after_start
            }
        }),
{
    let (c1, shown) = wallpaper::taken(c, names, stored);
    wallpaper::lemma_taken(c, names, stored);
    assert(wallpaper::is_reachable(shown));
    display_law::lemma_nothing_mended(c1, disk, shown.window());
}

} // verus!
