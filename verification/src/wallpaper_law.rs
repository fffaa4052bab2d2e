//! What holds of wallpaper actions.

use crate::change::PreparedView;
use crate::control::{ControlView, DiskView};
use crate::layout::{LayoutView, StoredView};
use crate::protocol::WallpaperAction;
use crate::text::IntError;
use crate::change;
use crate::control;
use crate::drawing;
use crate::layout;
use crate::library;
use crate::random;
use crate::text;
use crate::textlist;
use crate::textmap;
use crate::wallpaper;
use vstd::prelude::*;

verus! {

// ---------------------------------------------------------------------------
// Moving on and back

/// Whether every row of a layout has a wallpaper for each output.
pub open spec fn is_even(layout: LayoutView) -> bool {
    forall|i: int|
        0 <= i < layout.history.len() ==> (#[trigger] layout.history[i]).len()
            == layout.out_count
}

/// Whether a layout shows something in full, and stays within what a size can be for one
/// more row.
pub open spec fn is_showing(layout: LayoutView) -> bool {
    &&& wallpaper::is_reachable(layout)
    &&& is_even(layout)
    &&& layout.idx >= 1
    &&& layout.max_history >= 2
    &&& (layout.history.len() + 3) * layout.out_count <= usize::MAX
    &&& layout.start() + layout.out_count <= layout.history.len() * layout.out_count
}

pub proof fn lemma_flat_len(history: Seq<Seq<Seq<char>>>, count: nat)
    requires
        forall|i: int| 0 <= i < history.len() ==> (#[trigger] history[i]).len() == count,
    ensures
        layout::flat(history).len() == history.len() * count,
    decreases history.len(),
{
    if history.len() > 0 {
        let head = history.drop_last();
        assert(forall|i: int| 0 <= i < head.len() ==> #[trigger] head[i] == history[i]);
        lemma_flat_len(head, count);
        assert(history[history.len() - 1] == history.last());
        assert(history.len() * count == head.len() * count + count) by (nonlinear_arith)
            requires
                history.len() == head.len() + 1,
        ;
    } else {
        assert(0 * count == 0) by (nonlinear_arith);
    }
}

proof fn lemma_flat_skip(history: Seq<Seq<Seq<char>>>, count: nat, n: nat)
    requires
        n <= history.len(),
        forall|i: int| 0 <= i < history.len() ==> (#[trigger] history[i]).len() == count,
    ensures
        n * count <= layout::flat(history).len(),
        layout::flat(history.skip(n as int)) == layout::flat(history).skip((n * count) as int),
    decreases history.len(),
{
    lemma_flat_len(history, count);
    assert(n * count <= history.len() * count) by (nonlinear_arith)
        requires
            n <= history.len(),
    ;
    let rest = history.skip(n as int);
    if n == history.len() {
        assert(rest =~= Seq::<Seq<Seq<char>>>::empty());
        assert(layout::flat(history).skip((n * count) as int) =~= Seq::<Seq<char>>::empty());
    } else {
        let head = history.drop_last();
        assert(forall|i: int| 0 <= i < head.len() ==> #[trigger] head[i] == history[i]);
        lemma_flat_skip(head, count, n);
        assert(rest.drop_last() =~= head.skip(n as int));
        assert(rest.last() == history.last());
        assert(layout::flat(history).skip((n * count) as int) =~= layout::flat(head).skip((n * count) as int)
            + history.last());
    }
}

/// A window that lacks one row is filled by one, and stands on the same wallpapers as
/// before, but for what the history drops at its old end.
proof fn lemma_extended_once(c: ControlView, layout: LayoutView, disk: DiskView)
    requires
        wallpaper::is_ready(c, disk, layout.out_count),
        wallpaper::is_reachable(layout),
        is_even(layout),
        layout.idx >= 1,
        layout.max_history >= 2,
        (layout.history.len() + 2) * layout.out_count <= usize::MAX,
        layout.start() <= layout.history.len() * layout.out_count,
    ensures
        ({
            let (next, after, result) = wallpaper::extended(c, layout, disk);
            result is Ok ==> {
                &&& is_even(after)
                &&& after.out_count == layout.out_count
                &&& after.offset == layout.offset
                &&& after.history.len() > 0
                &&& 1 <= after.idx
                &&& exists|dropped: nat, row: Seq<Seq<char>>|
                    {
                        &&& #[trigger] is_later(layout, after, dropped, row)
                        &&& dropped > 0 ==> after.idx == layout.max_history - (
                        if layout.offset > 0 {
                            1int
                        } else {
                            0
                        })
                    }
            }
        }),
{
    let out = layout.out_count as int;
    let len = layout.history.len() as int;
    assert((len + 1) * out <= (len + 2) * out) by (nonlinear_arith)
        requires
            out >= 1,
    ;
    lemma_saturation(layout);
    let (next, after, result) = wallpaper::extended(c, layout, disk);
    if layout.is_filled() {
        assert(layout.history.len() > 0) by {
            if len == 0 {
                assert(layout::rows_before(layout.idx) * out >= 0) by (nonlinear_arith)
                    requires
                        layout::rows_before(layout.idx) >= 0,
                        out >= 1,
                ;
                assert(len * out == 0) by (nonlinear_arith)
                    requires
                        len == 0,
                ;
            }
        }
        let none = Seq::<Seq<char>>::empty();
        assert(layout::flat(layout.history) + none =~= layout::flat(layout.history));
        assert(layout::flat(layout.history).skip(0) =~= layout::flat(layout.history));
        assert(0 * out == 0);
        assert(is_later(layout, layout, 0, none));
    } else {
        drawing::law_drawing(c, disk, layout.out_count as nat, None);
        let (c1, drawn_row) = control::drawn(c, disk, layout.out_count as nat, None);
        if let Ok(row) = drawn_row {
            let big = wallpaper::grown(layout, row);
            let longer = layout.history.push(row);
            wallpaper::lemma_grown(layout, row);
            let more = if layout.offset > 0 {
                1int
            } else {
                0
            };
            assert(len < layout.idx + more) by {
                wallpaper::lemma_missing_rows(layout);
            }
            assert(layout.idx - 1 + more <= len) by (nonlinear_arith)
                requires
                    (layout.idx - 1) * out + layout.offset <= len * out,
                    0 <= layout.offset < out,
                    more == (if layout.offset > 0 {
                        1int
                    } else {
                        0
                    }),
            ;
            assert(forall|i: int| 0 <= i < len ==> #[trigger] longer[i] == layout.history[i]);
            let dropped = if longer.len() <= layout.max_history {
                0nat
            } else {
                (longer.len() - layout.max_history) as nat
            };
            lemma_flat_skip(longer, layout.out_count as nat, dropped);
            assert(longer.drop_last() =~= layout.history);
            assert(longer.skip(0) =~= longer);
            assert(big.history == longer.skip(dropped as int));
            assert(big.idx == layout.idx - dropped);
            assert forall|i: int| 0 <= i < big.history.len() implies (
            #[trigger] big.history[i]).len() == layout.out_count by {
                assert(big.history[i] == longer[i + dropped]);
            }
            assert(big.history.len() * out <= usize::MAX) by (nonlinear_arith)
                requires
                    big.history.len() <= len + 1,
                    (len + 2) * out <= usize::MAX,
                    out >= 1,
            ;
            assert((big.idx - 1) * out + big.offset <= big.history.len() * out) by (nonlinear_arith)
                requires
                    big.idx - 1 + more <= big.history.len(),
                    0 <= big.offset < out,
                    more == (if big.offset > 0 {
                        1int
                    } else {
                        0
                    }),
            ;
            assert((big.history.len() + 1) * out <= usize::MAX) by (nonlinear_arith)
                requires
                    big.history.len() <= len + 1,
                    (len + 2) * out <= usize::MAX,
                    out >= 1,
            ;
            lemma_saturation(big);
            assert(big.is_filled()) by {
                assert((big.idx - 1) * out + big.offset + out <= big.history.len() * out)
                    by (nonlinear_arith)
                    requires
                        big.idx + more <= big.history.len(),
                        0 <= big.offset < out,
                        more == (if big.offset > 0 {
                            1int
                        } else {
                            0
                        }),
                ;
            }
            assert(wallpaper::extended(c, layout, disk) == wallpaper::extended(c1, big, disk));
            assert(wallpaper::extended(c1, big, disk) == (c1, big, Ok::<(), Seq<char>>(())));
            assert(dropped * out <= len * out) by (nonlinear_arith)
                requires
                    dropped <= len,
                    out >= 1,
            ;
            lemma_flat_len(layout.history, layout.out_count as nat);
            assert(is_later(layout, big, dropped, row));
        }
    }
}

/// Whether a layout is another one with a row added, or none, and rows dropped at the old
/// end of its history.
pub open spec fn is_later(
    layout: LayoutView,
    after: LayoutView,
    dropped: nat,
    row: Seq<Seq<char>>,
) -> bool {
    &&& after.idx == layout.idx - dropped
    &&& dropped * layout.out_count <= layout::flat(layout.history).len()
    &&& layout::flat(after.history) == (layout::flat(layout.history) + row).skip(
        (dropped * layout.out_count) as int,
    )
}

proof fn lemma_saturation(layout: LayoutView)
    requires
        drawing::sound_layout(layout),
        layout.idx >= 1,
        (layout.history.len() + 1) * layout.out_count <= usize::MAX,
        layout.start() <= layout.history.len() * layout.out_count,
    ensures
        layout.counted_start() == layout.start(),
        layout.is_filled() == (layout.start() + layout.out_count <= layout.history.len()
            * layout.out_count),
{
    let out = layout.out_count as int;
    let len = layout.history.len() as int;
    assert((len + 1) * out == len * out + out) by (nonlinear_arith);
    assert(layout::rows_before(layout.idx) * out >= 0) by (nonlinear_arith)
        requires
            layout::rows_before(layout.idx) >= 0,
            out >= 1,
    ;
}

/// A window that has been moved on by some rows' worth of a longer history shows, moved
/// back, what it showed.
proof fn lemma_window_kept(
    layout: LayoutView,
    moved: LayoutView,
    after: LayoutView,
    back: LayoutView,
    dropped: nat,
    row: Seq<Seq<char>>,
)
    requires
        is_showing(layout),
        moved.history == layout.history,
        moved.out_count == layout.out_count,
        is_later(moved, after, dropped, row),
        after.out_count == layout.out_count,
        back.history == after.history,
        back.out_count == layout.out_count,
        back.idx >= 1,
        back.start() == layout.start() - dropped * layout.out_count,
        back.start() >= 0,
    ensures
        back.window() == layout.window(),
{
    lemma_flat_len(layout.history, layout.out_count as nat);
    let all = layout::flat(layout.history);
    let cut = (dropped * layout.out_count) as int;
    assert(layout::rows_before(layout.idx) * layout.out_count >= 0) by (nonlinear_arith)
        requires
            layout::rows_before(layout.idx) >= 0,
    ;
    let from = layout.start();
    let to = from + layout.out_count;
    assert(layout::flat(back.history).len() == all.len() + row.len() - cut);
    assert(layout::flat(back.history).subrange(from - cut, to - cut) =~= all.subrange(from, to));
}

/// The row that is shown before the next one is shown again by going back, where the
/// history has room for both.
pub proof fn law_back_undoes_next(c: ControlView, layout: LayoutView, disk: DiskView)
    requires
        wallpaper::is_ready(c, disk, layout.out_count),
        is_showing(layout),
        layout.idx < usize::MAX,
    ensures
        ({
            let (c1, next, selection) = wallpaper::stepped(c, layout, disk, false);
            selection is Ok ==> wallpaper::stepped(c1, next, disk, true).2 == Ok::<
                Seq<Seq<char>>,
                Seq<char>,
            >(layout.window())
        }),
{
    let out = layout.out_count as int;
    let len = layout.history.len() as int;
    assert(len > 0) by {
        if len == 0 {
            assert(layout::rows_before(layout.idx) * out >= 0) by (nonlinear_arith)
                requires
                    layout::rows_before(layout.idx) >= 0,
                    out >= 1,
            ;
            assert(len * out == 0) by (nonlinear_arith)
                requires
                    len == 0,
            ;
        }
    }
    let moved = wallpaper::window_of(layout, (layout.idx + 1) as usize);
    assert(moved.start() == layout.start() + out) by (nonlinear_arith)
        requires
            moved.start() == (moved.idx - 1) * out + moved.offset,
            layout.start() == (layout.idx - 1) * out + layout.offset,
            moved.idx == layout.idx + 1,
            moved.offset == layout.offset,
    ;
    assert((len + 3) * out >= (len + 2) * out) by (nonlinear_arith)
        requires
            out >= 1,
    ;
    let (c1, next, selection) = wallpaper::stepped(c, layout, disk, false);
    if selection is Ok {
        if layout.idx < len {
            assert(next == moved);
            let back = wallpaper::window_of(next, (next.idx - 1) as usize);
            assert(back == layout);
        } else {
            lemma_extended_once(c, moved, disk);
            assert(wallpaper::extended(c, moved, disk).1 == next);
            assert(wallpaper::extended(c, moved, disk).0 == c1);
            let (dropped, row) = choose|dropped: nat, row: Seq<Seq<char>>|
                {
                    &&& #[trigger] is_later(moved, next, dropped, row)
                    &&& dropped > 0 ==> next.idx == moved.max_history - (if moved.offset > 0 {
                        1int
                    } else {
                        0
                    })
                };
            let back = wallpaper::window_of(next, (next.idx - 1) as usize);
            assert(layout.idx + 1 <= len + 1 && layout.offset == 0) by (nonlinear_arith)
                requires
                    (layout.idx - 1) * out + layout.offset + out <= len * out,
                    layout.idx >= len,
                    0 <= layout.offset < out,
            ;
            assert(back.start() == layout.start() - dropped * out) by (nonlinear_arith)
                requires
                    back.start() == (next.idx - 2) * out + next.offset,
                    layout.start() == (layout.idx - 1) * out + layout.offset,
                    next.idx == layout.idx + 1 - dropped,
                    next.offset == layout.offset,
            ;
            assert((next.idx - 2) * out >= 0) by (nonlinear_arith)
                requires
                    next.idx >= 2,
                    out >= 1,
            ;
            assert(wallpaper::stepped(c1, next, disk, true).2 == Ok::<Seq<Seq<char>>, Seq<char>>(
                back.window(),
            ));
            lemma_window_kept(layout, moved, next, back, dropped, row);
        }
    }
}

/// What is shown before the window moves on by one wallpaper is shown again by moving it
/// back, where the history has room for both.
pub proof fn law_shift_back_undoes_shift(c: ControlView, layout: LayoutView, disk: DiskView)
    requires
        wallpaper::is_ready(c, disk, layout.out_count),
        is_showing(layout),
        layout.idx < usize::MAX,
    ensures
        ({
            let (c1, next, selection) = wallpaper::shifted(c, layout, disk, true);
            selection is Ok ==> wallpaper::shifted(c1, next, disk, false).2 == Ok::<
                Seq<Seq<char>>,
                Seq<char>,
            >(layout.window())
        }),
{
    let out = layout.out_count as int;
    let len = layout.history.len() as int;
    lemma_showing(layout);
    let moved = wallpaper::shifted_on(layout);
    lemma_shifted_start(layout);
    let (c1, next, selection) = wallpaper::shifted(c, layout, disk, true);
    if selection is Ok {
        lemma_extended_once(c, moved, disk);
        assert(wallpaper::extended(c, moved, disk).1 == next);
        assert(wallpaper::extended(c, moved, disk).0 == c1);
        let (dropped, row) = choose|dropped: nat, row: Seq<Seq<char>>|
            {
                &&& #[trigger] is_later(moved, next, dropped, row)
                &&& dropped > 0 ==> next.idx == moved.max_history - (if moved.offset > 0 {
                    1int
                } else {
                    0
                })
            };
        let back = wallpaper::shifted_back(next);
        assert(back.start() == layout.start() - dropped * out) by (nonlinear_arith)
            requires
                back.start() == (if back.idx == 0 {
                    0
                } else {
                    back.idx - 1
                }) * out + back.offset,
                layout.start() == (layout.idx - 1) * out + layout.offset,
                layout.idx >= 1,
                back.idx >= 1,
                next.offset > 0 ==> back.idx == layout.idx - dropped && back.offset
                    == layout.offset,
                next.offset == 0 ==> back.idx == layout.idx - dropped && back.offset
                    == layout.offset,
        ;
        assert(back.start() >= 0) by (nonlinear_arith)
            requires
                back.start() == (if back.idx == 0 {
                    0
                } else {
                    back.idx - 1
                }) * out + back.offset,
                back.idx >= 1,
                out >= 1,
                back.offset >= 0,
        ;
        lemma_window_kept(layout, moved, next, back, dropped, row);
    }
}

proof fn lemma_showing(layout: LayoutView)
    requires
        is_showing(layout),
    ensures
        layout.history.len() > 0,
        (layout.history.len() + 2) * layout.out_count <= usize::MAX,
{
    let out = layout.out_count as int;
    let len = layout.history.len() as int;
    assert(len > 0) by (nonlinear_arith)
        requires
            layout::rows_before(layout.idx) * out + layout.offset + out <= len * out,
            layout::rows_before(layout.idx) >= 0,
            layout.offset >= 0,
            out >= 1,
            len >= 0,
    ;
    assert((len + 3) * out >= (len + 2) * out) by (nonlinear_arith)
        requires
            out >= 1,
    ;
}

proof fn lemma_shifted_start(layout: LayoutView)
    requires
        drawing::sound_layout(layout),
        1 <= layout.idx < usize::MAX,
    ensures
        wallpaper::shifted_on(layout).start() == layout.start() + 1,
{
    let moved = wallpaper::shifted_on(layout);
    let out = layout.out_count as int;
    if layout.offset + 1 >= layout.out_count {
        assert((moved.idx - 1) * out == (layout.idx - 1) * out + out) by (nonlinear_arith)
            requires
                moved.idx == layout.idx + 1,
        ;
    }
}

/// A window that moves on by one wallpaper shows all but the first of what it showed, one
/// place further to the front.
pub proof fn law_shift_moves_by_one(c: ControlView, layout: LayoutView, disk: DiskView, i: int)
    requires
        wallpaper::is_ready(c, disk, layout.out_count),
        is_showing(layout),
        layout.idx < usize::MAX,
        0 <= i < layout.out_count - 1,
    ensures
        wallpaper::shifted(c, layout, disk, true).2 matches Ok(selection) ==> i < selection.len()
            && selection[i] == layout.window()[i + 1],
{
    let out = layout.out_count as int;
    let len = layout.history.len() as int;
    lemma_showing(layout);
    lemma_flat_len(layout.history, layout.out_count as nat);
    let moved = wallpaper::shifted_on(layout);
    lemma_shifted_start(layout);
    let (c1, next, selection) = wallpaper::shifted(c, layout, disk, true);
    if selection is Ok {
        lemma_extended_once(c, moved, disk);
        assert(wallpaper::extended(c, moved, disk).1 == next);
        let (dropped, row) = choose|dropped: nat, row: Seq<Seq<char>>|
            {
                &&& #[trigger] is_later(moved, next, dropped, row)
                &&& dropped > 0 ==> next.idx == moved.max_history - (if moved.offset > 0 {
                    1int
                } else {
                    0
                })
            };
        let cut = dropped * out;
        assert(next.start() == layout.start() + 1 - cut) by (nonlinear_arith)
            requires
                next.start() == (next.idx - 1) * out + next.offset,
                moved.start() == (moved.idx - 1) * out + moved.offset,
                moved.start() == layout.start() + 1,
                next.idx == moved.idx - dropped,
                next.offset == moved.offset,
                cut == dropped * out,
        ;
        assert((next.idx - 1) * out >= 0) by (nonlinear_arith)
            requires
                next.idx >= 1,
                out >= 1,
        ;
        let all = layout::flat(layout.history);
        let after = layout::flat(next.history);
        assert(after.len() == all.len() + row.len() - cut);
        assert(after[next.start() + i] == all[layout.start() + i + 1]);
    }
}

// ---------------------------------------------------------------------------
// The history

/// The history of a layout that gets a row never has more rows than it may.
pub proof fn law_history_is_bounded(layout: LayoutView, row: Seq<Seq<char>>)
    requires
        layout.max_history >= 1,
    ensures
        layout.with_row(row).history.len() <= layout.max_history,
        layout.branched(row).history.len() <= layout.max_history,
{
}

/// What an action that replaces a wallpaper shows is the newest row of the history, and the
/// window stands on it.
pub proof fn law_branch_shows_the_row(layout: LayoutView, row: Seq<Seq<char>>)
    requires
        layout.max_history >= 1,
        layout.history.len() < usize::MAX,
    ensures
        ({
            let after = layout.branched(row);
            &&& after.history.len() >= 1
            &&& after.history.last() == row
            &&& after.idx == after.history.len()
            &&& after.offset == 0
        }),
{
    let cut = layout.trimmed_rows();
    let history = cut.history.push(row);
    assert(history.last() == row);
}

// ---------------------------------------------------------------------------
// Undoing a change

proof fn lemma_started_sound(c: ControlView, layout: LayoutView, disk: DiskView)
    requires
        drawing::sound_control(c),
        wallpaper::can_start(c, layout, disk),
    ensures
        drawing::sound_control(wallpaper::started(c, layout, disk).0),
        drawing::same_library(wallpaper::started(c, layout, disk).0, c),
{
    if layout.history.len() == 0 {
        wallpaper::lemma_ready_after(c, disk, layout.out_count);
    }
}

proof fn lemma_extended_sound(c: ControlView, layout: LayoutView, disk: DiskView)
    requires
        drawing::sound_control(c),
        wallpaper::can_fill(c, layout, disk),
    ensures
        drawing::sound_control(wallpaper::extended(c, layout, disk).0),
        drawing::same_library(wallpaper::extended(c, layout, disk).0, c),
    decreases wallpaper::missing_rows(layout),
{
    if !layout.is_filled() {
        wallpaper::lemma_ready_after(c, disk, layout.out_count);
        let (next, result) = control::drawn(c, disk, layout.out_count as nat, None);
        if let Ok(row) = result {
            wallpaper::lemma_grown(layout, row);
            lemma_extended_sound(next, wallpaper::grown(layout, row), disk);
        }
    }
}

proof fn lemma_settled_sound(c: ControlView, layout: LayoutView, disk: DiskView)
    requires
        drawing::sound_control(c),
        wallpaper::can_settle(c, layout, disk),
    ensures
        drawing::sound_control(wallpaper::settled(c, layout, disk).0),
        drawing::same_library(wallpaper::settled(c, layout, disk).0, c),
{
    lemma_started_sound(c, layout, disk);
    let (c1, l1, begun) = wallpaper::started(c, layout, disk);
    if begun is Ok {
        lemma_extended_sound(c1, l1, disk);
    }
}

proof fn lemma_replaced_sound(
    c: ControlView,
    layout: LayoutView,
    disk: DiskView,
    index: usize,
    exclude: Option<Seq<char>>,
)
    requires
        drawing::sound_control(c),
        wallpaper::can_replace(c, layout, disk, exclude),
    ensures
        drawing::sound_control(wallpaper::replaced(c, layout, disk, index, exclude).0),
        drawing::same_library(wallpaper::replaced(c, layout, disk, index, exclude).0, c),
{
    lemma_settled_sound(c, layout, disk);
    let (c1, _, begun) = wallpaper::settled(c, layout, disk);
    if begun is Ok {
        drawing::law_drawing(c1, disk, 1, exclude);
    }
}

proof fn lemma_chosen_sound(
    c: ControlView,
    layout: LayoutView,
    disk: DiskView,
    action: WallpaperAction,
)
    requires
        drawing::sound_control(c),
        change::can_choose(c, layout, disk, action),
    ensures
        drawing::sound_control(change::chosen(c, layout, disk, action).0),
        drawing::same_library(change::chosen(c, layout, disk, action).0, c),
{
    match action {
        WallpaperAction::Next | WallpaperAction::Back => {
            lemma_started_sound(c, layout, disk);
            let (c1, l1, begun) = wallpaper::started(c, layout, disk);
            let index = if l1.idx < 1 {
                1usize
            } else {
                l1.idx
            };
            if action is Next && begun is Ok && index >= l1.history.len() {
                lemma_extended_sound(c1, wallpaper::window_of(l1, (index + 1) as usize), disk);
            }
        },
        WallpaperAction::ShiftForward | WallpaperAction::ShiftBack => {
            lemma_started_sound(c, layout, disk);
            let (c1, l1, begun) = wallpaper::started(c, layout, disk);
            if action is ShiftForward && begun is Ok {
                lemma_extended_sound(c1, wallpaper::shifted_on(l1), disk);
            }
        },
        WallpaperAction::Replace { index } => lemma_replaced_sound(c, layout, disk, index, None),
        WallpaperAction::Quarantine { index } => {
            lemma_settled_sound(c, layout, disk);
            let (c1, l1, settled) = wallpaper::settled(c, layout, disk);
            if settled is Ok && index < l1.window().len() {
                let target = l1.window()[index as int];
                if wallpaper::quarantine_plan(c1, disk, target) is Ok {
                    lemma_replaced_sound(c1, l1, disk, index, Some(target));
                }
            }
        },
        _ => {},
    }
}

/// Mending a selection keeps its length and leaves the library in order.
pub proof fn lemma_mended(c: ControlView, disk: DiskView, selection: Seq<Seq<char>>)
    requires
        wallpaper::is_ready(c, disk, 1),
    ensures
        ({
            let (next, result) = wallpaper::mended(c, disk, selection);
            &&& wallpaper::is_ready(next, disk, 1)
            &&& drawing::same_library(next, c)
            &&& result matches Ok((walls, changed)) ==> walls.len() == selection.len() && (!changed
                ==> walls == selection)
        }),
    decreases selection.len(),
{
    if selection.len() > 0 {
        lemma_mended(c, disk, selection.drop_last());
        let (c1, before) = wallpaper::mended(c, disk, selection.drop_last());
        wallpaper::lemma_ready_after(c1, disk, 1);
        assert(selection.drop_last().push(selection.last()) =~= selection);
    } else {
        assert(selection =~= Seq::<Seq<char>>::empty());
    }
}

/// Preparing a change leaves the library in order, and the layouts of other outputs alone.
pub proof fn law_preparing_keeps_order(
    c: ControlView,
    action: WallpaperAction,
    names: Seq<Seq<char>>,
    capture: bool,
    disk: DiskView,
    stored: StoredView,
)
    requires
        drawing::sound_control(c),
        names.len() <= usize::MAX,
        change::can_prepare(c, action, names, capture, disk, stored),
    ensures
        drawing::sound_control(change::prepared(c, action, names, capture, disk, stored).0),
        change::prepared(c, action, names, capture, disk, stored).1 is Ok ==> drawing::same_library(
            change::prepared(c, action, names, capture, disk, stored).0,
            wallpaper::taken(c, names, stored).0,
        ),
{
    if names.len() > 0 && change::action_check(action, names.len()) is Ok {
        let (c1, l1) = wallpaper::taken(c, names, stored);
        wallpaper::lemma_taken(c, names, stored);
        if capture {
            lemma_settled_sound(c1, l1, disk);
        }
        let (c2, l2, before) = change::positioned(c1, l1, disk, capture);
        if before is Ok {
            lemma_chosen_sound(c2, l2, disk, action);
            let (c3, l3, picked) = change::chosen(c2, l2, disk, action);
            if let Ok((selection, _)) = picked {
                if selection.len() < names.len() {
                    lemma_extended_sound(c3, l3, disk);
                }
                let (c4, l4, full) = change::completed(c3, l3, disk, selection, names.len());
                if let Ok(walls) = full {
                    lemma_mended(c4, disk, walls);
                }
            }
        }
    }
}

/// A change that is undone leaves the layout that was there before it, and the place in the
/// bag where the bag has kept its length.
pub proof fn law_rollback_restores(
    c: ControlView,
    action: WallpaperAction,
    names: Seq<Seq<char>>,
    capture: bool,
    disk: DiskView,
    stored: StoredView,
)
    requires
        drawing::sound_control(c),
        c.pos <= c.bag.len(),
        names.len() <= usize::MAX,
        change::can_prepare(c, action, names, capture, disk, stored),
    ensures
        ({
            let (next, result) = change::prepared(c, action, names, capture, disk, stored);
            result matches Ok(change) ==> {
                let back = change::rolled_back(next, change);
                &&& wallpaper::taken(back, names, stored).1 == wallpaper::taken(c, names, stored).1
                &&& next.bag.len() == c.bag.len() ==> back.pos == c.pos
                &&& back.bag == next.bag
                &&& back.library == next.library
                &&& back.favorites == next.favorites
            }
        }),
{
    let (next, result) = change::prepared(c, action, names, capture, disk, stored);
    law_preparing_keeps_order(c, action, names, capture, disk, stored);
    if let Ok(change) = result {
        textmap::lemma_get_after_insert(
            next.layouts,
            change.layout_key,
            change.layout_before,
            change.layout_key,
        );
    }
}

/// Whether a library has drawn from its bag without filling the bag afresh or reading the disk
/// again: its wallpapers, its favorites, the bag and the random numbers are as they were.
pub open spec fn has_only_drawn(c: ControlView, next: ControlView) -> bool {
    &&& next.library == c.library
    &&& next.favorites == c.favorites
    &&& next.bag == c.bag
    &&& next.rng == c.rng
}

/// A change that is undone can be prepared again, and is the same change, where the bag was not
/// filled afresh meanwhile.
pub proof fn law_rollback_repeats(
    c: ControlView,
    action: WallpaperAction,
    names: Seq<Seq<char>>,
    capture: bool,
    disk: DiskView,
    stored: StoredView,
    later: StoredView,
)
    requires
        drawing::sound_control(c),
        c.pos <= c.bag.len(),
        names.len() <= usize::MAX,
        change::can_prepare(c, action, names, capture, disk, stored),
        has_only_drawn(c, change::prepared(c, action, names, capture, disk, stored).0),
    ensures
        ({
            let (next, result) = change::prepared(c, action, names, capture, disk, stored);
            result matches Ok(change) ==> {
                let back = change::rolled_back(next, change);
                &&& change::can_prepare(back, action, names, capture, disk, later)
                &&& change::prepared(back, action, names, capture, disk, later) == (next, result)
            }
        }),
{
    let (next, result) = change::prepared(c, action, names, capture, disk, stored);
    law_preparing_keeps_order(c, action, names, capture, disk, stored);
    if let Ok(change) = result {
        let key = wallpaper::layout_key(names);
        let (c1, l1) = wallpaper::taken(c, names, stored);
        let back = change::rolled_back(next, change);
        textmap::lemma_get_after_remove(c.layouts, key, key);
        assert(textmap::entries_get(c1.layouts, key) is None);
        textmap::lemma_get_after_insert(next.layouts, key, l1, key);
        textmap::lemma_remove_after_insert(next.layouts, key, l1);
        assert(wallpaper::taken(back, names, later) == (c1, l1));
    }
}

/// A change that is kept leaves the layout that it prepared.
pub proof fn law_commit_keeps_the_layout(
    c: ControlView,
    change: PreparedView,
    names: Seq<Seq<char>>,
    stored: StoredView,
)
    requires
        drawing::sound_control(c),
        change.layout_key == wallpaper::layout_key(names),
    ensures
        wallpaper::taken(change::committed(c, change), names, stored).1 == change.layout,
{
    textmap::lemma_get_after_insert(c.layouts, change.layout_key, change.layout, change.layout_key);
}

// ---------------------------------------------------------------------------
// The bag

proof fn lemma_weighted_count(
    library: Seq<Seq<char>>,
    favorites: Seq<Seq<char>>,
    weight: usize,
    wall: Seq<char>,
)
    requires
        library.no_duplicates(),
    ensures
        control::weighted(library, favorites, weight).to_multiset().count(wall) == if library.contains(
            wall,
        ) {
            control::copies(wall, favorites, weight)
        } else {
            0
        },
    decreases library.len(),
{
    broadcast use vstd::seq_lib::group_to_multiset_ensures;

    let all = control::weighted(library, favorites, weight);
    if library.len() == 0 {
        assert(all =~= Seq::<Seq<char>>::empty());
        assert(!all.contains(wall));
    } else {
        let head = library.drop_last();
        let last = library.last();
        lemma_weighted_count(head, favorites, weight, wall);
        let times = control::copies(last, favorites, weight);
        lemma_repeated_count(last, times, wall);
        vstd::seq_lib::lemma_multiset_commutative(
            control::weighted(head, favorites, weight),
            control::repeated(last, times),
        );
        assert(library =~= head.push(last));
        textlist::lemma_push_contains(head, last, wall);
        assert(!head.contains(last)) by {
            if head.contains(last) {
                let i = choose|i: int| 0 <= i < head.len() && head[i] == last;
                assert(library[i] == library[library.len() - 1]);
            }
        }
    }
}

proof fn lemma_repeated_count(text: Seq<char>, times: nat, other: Seq<char>)
    ensures
        control::repeated(text, times).to_multiset().count(other) == if other == text {
            times
        } else {
            0
        },
    decreases times,
{
    broadcast use vstd::seq_lib::group_to_multiset_ensures;

    let all = control::repeated(text, times);
    if times == 0 {
        assert(all =~= Seq::<Seq<char>>::empty());
        assert(!all.contains(other));
    } else {
        let less = control::repeated(text, (times - 1) as nat);
        lemma_repeated_count(text, (times - 1) as nat, other);
        assert(all =~= less.push(text));
    }
}

/// A fresh bag holds every wallpaper of the library once, and a favorite as often as
/// favorites weigh.
pub proof fn law_bag_is_weighted(c: ControlView, files: Seq<Seq<char>>, wall: Seq<char>)
    requires
        drawing::sound_control(c),
        drawing::bag_size(c, c.library, files) <= usize::MAX,
    ensures
        control::rebuilt(c, files).bag.to_multiset().count(wall) == if !c.library.contains(wall) {
            0
        } else if control::rebuilt(c, files).favorites.contains(wall) {
            c.favorite_weight as nat
        } else {
            1
        },
{
    let next = control::rebuilt(c, files);
    let all = control::weighted(c.library, next.favorites, c.favorite_weight);
    drawing::lemma_rebuilt(c, files);
    random::lemma_shuffle_len(all, c.rng);
    random::law_shuffle_permutes(all, c.rng);
    textlist::lemma_ascending_distinct(c.library);
    lemma_weighted_count(c.library, next.favorites, c.favorite_weight, wall);
}

/// Reading the library again from a disk that has not changed finds nothing new and nothing
/// gone.
pub proof fn law_rescan_settles(c: ControlView, disk: DiskView)
    requires
        c.favorite_weight >= 1,
        drawing::bag_size(c, drawing::on_disk(c, disk), disk.files) <= usize::MAX,
    ensures
        control::rescanned(c, disk) matches Ok((next, _, _)) ==> (control::rescanned(next, disk) matches Ok(
            (again, added, removed),
        ) && again.library == next.library && added == 0 && removed == 0),
{
    if disk.error is None {
        drawing::lemma_rescanned(c, disk);
        drawing::lemma_on_disk(c, disk);
        let next = control::rescanned(c, disk)->Ok_0.0;
        assert(drawing::on_disk(next, disk) == drawing::on_disk(c, disk));
        let library = next.library;
        assert(forall|i: int| 0 <= i < library.len() ==> library.contains(#[trigger] library[i]));
        let keep = |text: Seq<char>| !library.contains(text);
        drawing::lemma_filter_len(library, keep);
        textlist::lemma_sorted_unique(library);
        let sorted = textlist::sorted_unique(library);
        assert forall|i: int| 0 <= i < sorted.len() implies !keep(#[trigger] sorted[i]) by {
            assert(sorted.contains(sorted[i]));
        }
        drawing::lemma_filter_len(sorted, keep);
    }
}

/// Making a wallpaper a favorite, or no longer one, changes nothing for the others: with the
/// bag filled afresh, the favorites are those that were chosen, so far as the library knows
/// them and they are on disk.
pub proof fn law_favorites_are_those_chosen(
    c: ControlView,
    files: Seq<Seq<char>>,
    target: Seq<char>,
    favorite: bool,
    wall: Seq<char>,
)
    requires
        drawing::sound_control(c),
    ensures
        ({
            let chosen = change::with_favorite(c.favorites, target, favorite);
            let next = control::rebuilt(ControlView { favorites: chosen, ..c }, files);
            next.favorites.contains(wall) == ((if wall == target {
                favorite
            } else {
                c.favorites.contains(wall)
            }) && c.library.contains(wall) && files.contains(wall))
        }),
{
    let chosen = change::with_favorite(c.favorites, target, favorite);
    textlist::lemma_placed_in(c.favorites, target);
    textlist::lemma_filter_contains(
        c.favorites,
        |text: Seq<char>| !seq![target].contains(text),
        wall,
    );
    assert(seq![target][0] == target);
    textlist::lemma_sorted_unique(textlist::held_by_both(chosen, c.library, files));
    textlist::lemma_filter_contains(
        chosen,
        |text: Seq<char>| c.library.contains(text) && files.contains(text),
        wall,
    );
}

// ---------------------------------------------------------------------------
// What is kept on disk

proof fn lemma_trimmed_number(n: nat)
    ensures
        text::trimmed(text::decimal_text(n) + "\n"@) == text::decimal_text(n),
{
    let digits = text::decimal_text(n);
    let text = digits + "\n"@;
    reveal_strlit("\n");
    text::lemma_decimal_text_shape(n);
    assert(text::is_digit(digits[0]));
    assert(text::is_digit(digits[digits.len() - 1]));
    assert(text[0] == digits[0]);
    assert(text.last() == '\n');
    assert(text.drop_last() =~= digits);
    assert(text::trim_start(text) == text);
    assert(text::trim_end(text) == text::trim_end(digits));
    assert(text::trim_end(digits) == digits);
}

proof fn lemma_stored_number(n: usize)
    ensures
        layout::stored_number(Some(text::decimal_text(n as nat) + "\n"@), 0) == n,
{
    lemma_trimmed_number(n as nat);
    text::lemma_decimal_round_trip(n as nat, usize::MAX as nat, IntError::PosOverflow);
    text::lemma_decimal_text_shape(n as nat);
}

/// Whether a row can be kept on a line: its wallpapers hold no tab and no line break.
pub open spec fn is_storable_row(row: Seq<Seq<char>>) -> bool {
    &&& row.len() > 0
    &&& textlist::joined_by(row, "\t"@).len() > 0
    &&& textlist::is_line(textlist::joined_by(row, "\t"@))
    &&& forall|i: int, k: int|
        0 <= i < row.len() && 0 <= k < row[i].len() ==> #[trigger] row[i][k] != '\t'
}

proof fn lemma_stored_rows(history: Seq<Seq<Seq<char>>>)
    requires
        forall|i: int| 0 <= i < history.len() ==> is_storable_row(#[trigger] history[i]),
    ensures
        layout::stored_rows(layout::row_texts(history)) == history,
    decreases history.len(),
{
    let lines = layout::row_texts(history);
    if history.len() == 0 {
        assert(lines =~= Seq::<Seq<char>>::empty());
        assert(history =~= Seq::<Seq<Seq<char>>>::empty());
    } else {
        let head = history.drop_last();
        assert(forall|i: int| 0 <= i < head.len() ==> #[trigger] head[i] == history[i]);
        lemma_stored_rows(head);
        assert(lines.drop_last() =~= layout::row_texts(head));
        let row = history[history.len() - 1];
        assert(is_storable_row(row));
        assert(lines.last() == textlist::joined_by(row, "\t"@));
        reveal_strlit("\t");
        assert("\t"@ =~= seq!['\t']);
        textlist::law_join_round_trip(row, '\t');
        assert(history =~= head.push(row));
    }
}

/// A layout that is written to its files is read back from them.
pub proof fn law_layout_round_trip(layout: LayoutView)
    requires
        drawing::sound_layout(layout),
        layout.idx >= 1 || layout.history.len() == 0,
        forall|i: int|
            0 <= i < layout.history.len() ==> is_storable_row(#[trigger] layout.history[i]),
    ensures
        layout::stored_layout(
            layout.layout_dir,
            layout.out_count,
            layout.max_history,
            (StoredView {
                history: Some(layout::layout_files(layout)[0].1),
                index: Some(layout::layout_files(layout)[1].1),
                offset: Some(layout::layout_files(layout)[2].1),
            }),
        ) == layout,
{
    let lines = layout::row_texts(layout.history);
    assert forall|i: int| 0 <= i < lines.len() implies textlist::is_line(#[trigger] lines[i]) by {
        assert(is_storable_row(layout.history[i]));
    }
    textlist::law_lines_round_trip(lines);
    lemma_stored_rows(layout.history);
    lemma_stored_number(layout.idx);
    lemma_stored_number(layout.offset);
    assert(layout.offset % layout.out_count == layout.offset) by (nonlinear_arith)
        requires
            layout.offset < layout.out_count,
    ;
}

/// The lists of the library that are written to its files are read back from them.
pub proof fn law_library_round_trip(c: ControlView)
    requires
        forall|i: int| 0 <= i < c.library.len() ==> textlist::is_line(#[trigger] c.library[i]),
        forall|i: int| 0 <= i < c.favorites.len() ==> textlist::is_line(#[trigger] c.favorites[i]),
        forall|i: int| 0 <= i < c.bag.len() ==> textlist::is_line(#[trigger] c.bag[i]),
    ensures
        layout::stored_lines(Some(library::core_files(c)[0].1)) == c.library,
        layout::stored_lines(Some(library::core_files(c)[1].1)) == c.favorites,
        layout::stored_lines(Some(library::core_files(c)[2].1)) == c.bag,
        layout::stored_number(Some(library::core_files(c)[3].1), 0) == c.pos,
{
    textlist::law_lines_round_trip(c.library);
    textlist::law_lines_round_trip(c.favorites);
    textlist::law_lines_round_trip(c.bag);
    lemma_stored_number(c.pos);
}

} // verus!
