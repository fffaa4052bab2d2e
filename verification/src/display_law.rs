//! What outputs are told to show is what they are said to show.

use crate::control::{ControlView, DiskView};
use crate::layout::{LayoutView, StoredView};
use crate::protocol::WallpaperAction;
use crate::response::WallpaperView;
use crate::change;
use crate::control;
use crate::drawing;
use crate::layout;
use crate::wallpaper;
use crate::wallpaper_law;
use vstd::prelude::*;

verus! {

// ---------------------------------------------------------------------------
// Rows and windows

/// Whether the rows of a layout are in order: every one has a wallpaper for each output, the
/// window stands somewhere once there are rows, and the rows stay within what a size can be.
pub open spec fn is_orderly(layout: LayoutView) -> bool {
    &&& drawing::sound_layout(layout)
    &&& wallpaper_law::is_even(layout)
    &&& layout.history.len() > 0 ==> layout.idx >= 1
    &&& (layout.history.len() + 1) * layout.out_count < usize::MAX
}

/// Whether the rows of a layout are in order, and stay within what a size can be however many
/// are added.
pub open spec fn is_tidy(layout: LayoutView) -> bool {
    is_orderly(layout) && (layout.max_history + 1) * layout.out_count < usize::MAX
}

/// A row in the rows laid end to end.
pub proof fn lemma_row_at(history: Seq<Seq<Seq<char>>>, count: nat, i: int)
    requires
        0 <= i < history.len(),
        forall|k: int| 0 <= k < history.len() ==> (#[trigger] history[k]).len() == count,
    ensures
        layout::flat(history).len() == history.len() * count,
        0 <= i * count <= (i + 1) * count <= layout::flat(history).len(),
        layout::flat(history).subrange(i * count, (i + 1) * count) == history[i],
    decreases history.len(),
{
    let head = history.drop_last();
    let last = history[history.len() - 1];
    assert(forall|k: int| 0 <= k < head.len() ==> #[trigger] head[k] == history[k]);
    wallpaper_law::lemma_flat_len(history, count);
    wallpaper_law::lemma_flat_len(head, count);
    assert(0 <= i * count <= (i + 1) * count <= history.len() * count) by (nonlinear_arith)
        requires
            0 <= i < history.len(),
    ;
    assert(head.len() * count + count == history.len() * count) by (nonlinear_arith)
        requires
            head.len() + 1 == history.len(),
    ;
    if i < head.len() {
        lemma_row_at(head, count, i);
        assert(layout::flat(history).subrange(i * count, (i + 1) * count) =~= layout::flat(
            head,
        ).subrange(i * count, (i + 1) * count));
    } else {
        assert(i == head.len());
        assert(layout::flat(history).subrange(i * count, (i + 1) * count) =~= last);
    }
}

pub proof fn lemma_filled(layout: LayoutView)
    requires
        is_orderly(layout),
    ensures
        layout.is_filled() == (layout.start() + layout.out_count <= layout.history.len()
            * layout.out_count),
        layout.is_filled() == (layout.window().len() == layout.out_count),
        layout.window().len() <= layout.out_count,
        layout.is_filled() ==> layout.history.len() > 0,
{
    let out = layout.out_count as int;
    let len = layout.history.len() as int;
    let before = layout::rows_before(layout.idx);
    wallpaper_law::lemma_flat_len(layout.history, layout.out_count as nat);
    assert((len + 1) * out == len * out + out) by (nonlinear_arith);
    assert(before * out >= 0 && len * out >= 0) by (nonlinear_arith)
        requires
            before >= 0,
            len >= 0,
            out >= 1,
    ;
    assert(len == 0 ==> len * out == 0) by (nonlinear_arith);
}

/// A window that starts with a row is that row.
pub proof fn lemma_window_is_row(layout: LayoutView)
    requires
        is_orderly(layout),
        1 <= layout.idx <= layout.history.len(),
        layout.offset == 0,
    ensures
        layout.window() == layout.history[layout.idx - 1],
        layout.is_filled(),
{
    let out = layout.out_count as int;
    let i = layout.idx - 1;
    lemma_row_at(layout.history, layout.out_count as nat, i);
    assert((i + 1) * out == i * out + out) by (nonlinear_arith);
    lemma_filled(layout);
}

proof fn lemma_cut_even(history: Seq<Seq<Seq<char>>>, count: nat, n: int)
    requires
        0 <= n <= history.len(),
        forall|k: int| 0 <= k < history.len() ==> (#[trigger] history[k]).len() == count,
    ensures
        forall|k: int| 0 <= k < history.skip(n).len() ==> (#[trigger] history.skip(n)[k]).len()
            == count,
        forall|k: int| 0 <= k < history.take(n).len() ==> (#[trigger] history.take(n)[k]).len()
            == count,
{
    assert forall|k: int| 0 <= k < history.skip(n).len() implies (
    #[trigger] history.skip(n)[k]).len() == count by {
        assert(history.skip(n)[k] == history[k + n]);
    }
    assert forall|k: int| 0 <= k < history.take(n).len() implies (
    #[trigger] history.take(n)[k]).len() == count by {
        assert(history.take(n)[k] == history[k]);
    }
}

proof fn lemma_pruned(layout: LayoutView)
    requires
        drawing::sound_layout(layout),
        wallpaper_law::is_even(layout),
        layout.idx >= 1,
        (layout.max_history + 1) * layout.out_count < usize::MAX,
    ensures
        is_tidy(layout.pruned()),
{
    let after = layout.pruned();
    if layout.history.len() > layout.max_history {
        lemma_cut_even(
            layout.history,
            layout.out_count as nat,
            layout.history.len() - layout.max_history,
        );
    }
    assert((after.history.len() + 1) * layout.out_count <= (layout.max_history + 1)
        * layout.out_count) by (nonlinear_arith)
        requires
            after.history.len() <= layout.max_history,
            layout.out_count >= 1,
    ;
}

proof fn lemma_branched(layout: LayoutView, row: Seq<Seq<char>>)
    requires
        is_tidy(layout),
        layout.idx >= 1,
        row.len() == layout.out_count,
    ensures
        is_tidy(layout.branched(row)),
        layout.branched(row).window() == row,
        layout.branched(row).is_filled(),
        layout.branched(row).idx >= 1,
        layout.branched(row).history.len() > 0,
        layout.branched(row).out_count == layout.out_count,
{
    assert(layout.history.len() < usize::MAX) by (nonlinear_arith)
        requires
            (layout.history.len() + 1) * layout.out_count < usize::MAX,
            layout.out_count >= 1,
    ;
    let cut = layout.trimmed_rows();
    if layout.history.len() > layout.idx {
        lemma_cut_even(layout.history, layout.out_count as nat, layout.idx as int);
    }
    let history = cut.history.push(row);
    let longer = LayoutView { history, idx: history.len() as usize, offset: 0, ..cut };
    assert forall|k: int| 0 <= k < history.len() implies (#[trigger] history[k]).len()
        == layout.out_count by {
        if k < cut.history.len() {
            assert(history[k] == cut.history[k]);
        }
    }
    lemma_pruned(longer);
    wallpaper_law::law_branch_shows_the_row(layout, row);
    let after = layout.branched(row);
    lemma_window_is_row(after);
    assert(after.history[after.idx - 1] == after.history.last());
}

// ---------------------------------------------------------------------------
// Actions

/// Whether a layout shows a selection.
spec fn shows(c: ControlView, layout: LayoutView, selection: Seq<Seq<char>>) -> bool {
    &&& drawing::sound_control(c)
    &&& is_tidy(layout)
    &&& layout.idx >= 1
    &&& layout.history.len() > 0
    &&& selection == layout.window()
}

proof fn lemma_started(c: ControlView, layout: LayoutView, disk: DiskView)
    requires
        drawing::sound_control(c),
        is_tidy(layout),
        wallpaper::can_start(c, layout, disk),
    ensures
        ({
            let (next, after, result) = wallpaper::started(c, layout, disk);
            result is Ok ==> shows(next, after, after.window()) && after.out_count
                == layout.out_count
        }),
{
    if layout.history.len() == 0 {
        wallpaper::lemma_ready_after(c, disk, layout.out_count);
        let (next, result) = control::drawn(c, disk, layout.out_count as nat, None);
        if let Ok(row) = result {
            let grown = LayoutView { history: layout.history.push(row), idx: 1, offset: 0, ..layout };
            assert(wallpaper_law::is_even(grown)) by {
                assert(grown.history[0] == row);
            }
            lemma_pruned(grown);
            assert(grown.pruned() == wallpaper::started(c, layout, disk).1);
        }
    }
}

proof fn lemma_extended(c: ControlView, layout: LayoutView, disk: DiskView)
    requires
        drawing::sound_control(c),
        is_tidy(layout),
        layout.idx >= 1,
        wallpaper::can_fill(c, layout, disk),
    ensures
        ({
            let (next, after, result) = wallpaper::extended(c, layout, disk);
            result is Ok ==> shows(next, after, after.window()) && after.is_filled()
                && after.out_count == layout.out_count
        }),
    decreases wallpaper::missing_rows(layout),
{
    lemma_filled(layout);
    if !layout.is_filled() {
        wallpaper::lemma_ready_after(c, disk, layout.out_count);
        let (next, result) = control::drawn(c, disk, layout.out_count as nat, None);
        if let Ok(row) = result {
            let longer = LayoutView { history: layout.history.push(row), ..layout };
            assert forall|k: int| 0 <= k < longer.history.len() implies (
            #[trigger] longer.history[k]).len() == layout.out_count by {
                if k < layout.history.len() {
                    assert(longer.history[k] == layout.history[k]);
                }
            }
            lemma_pruned(longer);
            wallpaper::lemma_grown(layout, row);
            lemma_extended(next, wallpaper::grown(layout, row), disk);
        }
    }
}

proof fn lemma_settled(c: ControlView, layout: LayoutView, disk: DiskView)
    requires
        drawing::sound_control(c),
        is_tidy(layout),
        wallpaper::can_settle(c, layout, disk),
    ensures
        ({
            let (next, after, result) = wallpaper::settled(c, layout, disk);
            result is Ok ==> shows(next, after, after.window()) && after.is_filled()
                && after.out_count == layout.out_count
        }),
{
    lemma_started(c, layout, disk);
    let (c1, l1, begun) = wallpaper::started(c, layout, disk);
    if begun is Ok {
        lemma_extended(c1, l1, disk);
    }
}

proof fn lemma_stepped(c: ControlView, layout: LayoutView, disk: DiskView, back: bool)
    requires
        drawing::sound_control(c),
        is_tidy(layout),
        wallpaper::can_step(c, layout, disk, back),
    ensures
        ({
            let (next, after, result) = wallpaper::stepped(c, layout, disk, back);
            result matches Ok(selection) ==> shows(next, after, selection) && after.out_count
                == layout.out_count
        }),
{
    lemma_started(c, layout, disk);
    let (c1, l1, begun) = wallpaper::started(c, layout, disk);
    if begun is Ok && !back && l1.idx >= l1.history.len() {
        lemma_extended(c1, wallpaper::window_of(l1, (l1.idx + 1) as usize), disk);
    }
}

proof fn lemma_shifted(c: ControlView, layout: LayoutView, disk: DiskView, forward: bool)
    requires
        drawing::sound_control(c),
        is_tidy(layout),
        wallpaper::can_shift(c, layout, disk, forward),
    ensures
        ({
            let (next, after, result) = wallpaper::shifted(c, layout, disk, forward);
            result matches Ok(selection) ==> shows(next, after, selection) && after.out_count
                == layout.out_count
        }),
{
    lemma_started(c, layout, disk);
    let (c1, l1, begun) = wallpaper::started(c, layout, disk);
    if begun is Ok && forward {
        lemma_extended(c1, wallpaper::shifted_on(l1), disk);
    }
}

proof fn lemma_replaced(
    c: ControlView,
    layout: LayoutView,
    disk: DiskView,
    index: usize,
    exclude: Option<Seq<char>>,
)
    requires
        drawing::sound_control(c),
        is_tidy(layout),
        wallpaper::can_replace(c, layout, disk, exclude),
    ensures
        ({
            let (next, after, result) = wallpaper::replaced(c, layout, disk, index, exclude);
            result matches Ok(selection) ==> shows(next, after, selection) && after.out_count
                == layout.out_count
        }),
{
    lemma_settled(c, layout, disk);
    let (c1, l1, begun) = wallpaper::settled(c, layout, disk);
    if begun is Ok {
        drawing::law_drawing(c1, disk, 1, exclude);
        lemma_filled(l1);
        if let Ok(walls) = control::drawn(c1, disk, 1, exclude).1 {
            lemma_branched(l1, wallpaper::with_wall(l1.window(), index, walls[0]));
        }
    }
}

proof fn lemma_chosen(
    c: ControlView,
    layout: LayoutView,
    disk: DiskView,
    action: WallpaperAction,
)
    requires
        drawing::sound_control(c),
        is_tidy(layout),
        change::can_choose(c, layout, disk, action),
    ensures
        ({
            let (next, after, result) = change::chosen(c, layout, disk, action);
            result matches Ok((selection, _)) ==> shows(next, after, selection) && after.out_count
                == layout.out_count
        }),
{
    match action {
        WallpaperAction::Next => lemma_stepped(c, layout, disk, false),
        WallpaperAction::Back => lemma_stepped(c, layout, disk, true),
        WallpaperAction::ShiftForward => lemma_shifted(c, layout, disk, true),
        WallpaperAction::ShiftBack => lemma_shifted(c, layout, disk, false),
        WallpaperAction::Replace { index } => lemma_replaced(c, layout, disk, index, None),
        WallpaperAction::Quarantine { index } => {
            lemma_settled(c, layout, disk);
            let (c1, l1, settled) = wallpaper::settled(c, layout, disk);
            if settled is Ok && index < l1.window().len() {
                let target = l1.window()[index as int];
                if wallpaper::quarantine_plan(c1, disk, target) is Ok {
                    lemma_replaced(c1, l1, disk, index, Some(target));
                }
            }
        },
        _ => {},
    }
}

proof fn lemma_healed(c: ControlView, layout: LayoutView, disk: DiskView)
    requires
        shows(c, layout, layout.window()),
        layout.is_filled(),
        wallpaper::is_ready(c, disk, 1),
    ensures
        ({
            let (next, after, result) = wallpaper::healed(c, layout, disk, layout.window());
            result matches Ok(selection) ==> shows(next, after, selection) && after.is_filled()
        }),
{
    let selection = layout.window();
    lemma_filled(layout);
    wallpaper_law::lemma_mended(c, disk, selection);
    if let Ok((walls, changed)) = wallpaper::mended(c, disk, selection).1 {
        if changed {
            if layout.offset == 0 && 1 <= layout.idx <= layout.history.len() {
                let after = wallpaper::remembered(layout, walls);
                assert forall|k: int| 0 <= k < after.history.len() implies (
                #[trigger] after.history[k]).len() == layout.out_count by {
                    if k != layout.idx - 1 {
                        assert(after.history[k] == layout.history[k]);
                    }
                }
                lemma_window_is_row(after);
            } else {
                lemma_branched(layout, walls);
            }
        }
    }
}

// ---------------------------------------------------------------------------
// What is said

/// The response that says that outputs show a selection.
pub open spec fn saying(
    favorites: Seq<Seq<char>>,
    names: Seq<Seq<char>>,
    selection: Seq<Seq<char>>,
) -> WallpaperView {
    WallpaperView {
        entries: wallpaper::entries_for(favorites, names, selection),
        ..change::bare_response("current"@, Seq::empty())
    }
}

/// Once the change that an action makes is kept, the outputs are said to show what the change
/// was to show.
pub proof fn law_current_tells_what_was_kept(
    c: ControlView,
    action: WallpaperAction,
    names: Seq<Seq<char>>,
    capture: bool,
    disk: DiskView,
    stored: StoredView,
    later: StoredView,
)
    requires
        drawing::sound_control(c),
        0 < names.len() <= usize::MAX,
        is_tidy(wallpaper::taken(c, names, stored).1),
        wallpaper::taken(c, names, stored).1.out_count == names.len(),
        change::can_prepare(c, action, names, capture, disk, stored),
    ensures
        ({
            let (next, result) = change::prepared(c, action, names, capture, disk, stored);
            let kept = change::committed(next, result->Ok_0);
            result matches Ok(change) ==> change::current(kept, names, later).1 == Ok::<
                WallpaperView,
                Seq<char>,
            >(saying(kept.favorites, names, change.selection))
        }),
{
    let (next, result) = change::prepared(c, action, names, capture, disk, stored);
    if let Ok(change) = result {
        let (c1, l1) = wallpaper::taken(c, names, stored);
        wallpaper::lemma_taken(c, names, stored);
        if capture {
            lemma_settled(c1, l1, disk);
        }
        let (c2, l2, _) = change::positioned(c1, l1, disk, capture);
        lemma_chosen(c2, l2, disk, action);
        let (c3, l3, picked) = change::chosen(c2, l2, disk, action);
        let selection = picked->Ok_0.0;
        lemma_filled(l3);
        if selection.len() < names.len() {
            lemma_extended(c3, l3, disk);
        }
        let (c4, l4, _) = change::completed(c3, l3, disk, selection, names.len());
        lemma_healed(c4, l4, disk);
        lemma_kept(next, change, names, later);
    }
}

/// Once what outputs show at startup is kept, they are said to show it.
pub proof fn law_current_tells_what_was_shown_at_startup(
    c: ControlView,
    names: Seq<Seq<char>>,
    disk: DiskView,
    stored: StoredView,
    later: StoredView,
)
    requires
        drawing::sound_control(c),
        0 < names.len() <= usize::MAX,
        is_tidy(wallpaper::taken(c, names, stored).1),
        change::can_prepare_startup(c, names, disk, stored),
    ensures
        ({
            let (next, result) = change::prepared_startup(c, names, disk, stored);
            let kept = change::committed(next, result->Ok_0);
            result matches Ok(change) ==> change::current(kept, names, later).1 == Ok::<
                WallpaperView,
                Seq<char>,
            >(saying(kept.favorites, names, change.selection))
        }),
{
    let (next, result) = change::prepared_startup(c, names, disk, stored);
    if let Ok(change) = result {
        let (c1, l1) = wallpaper::taken(c, names, stored);
        wallpaper::lemma_taken(c, names, stored);
        lemma_settled(c1, l1, disk);
        let (c2, l2, _) = wallpaper::settled(c1, l1, disk);
        lemma_healed(c2, l2, disk);
        lemma_kept(next, change, names, later);
    }
}

/// Whether every wallpaper of a selection is on disk, or stands for none.
pub open spec fn all_there(selection: Seq<Seq<char>>, disk: DiskView) -> bool {
    forall|i: int|
        0 <= i < selection.len() ==> disk.files.contains(#[trigger] selection[i])
            || selection[i].len() == 0
}

/// Nothing is mended where nothing is gone.
pub proof fn lemma_nothing_mended(c: ControlView, disk: DiskView, selection: Seq<Seq<char>>)
    requires
        all_there(selection, disk),
    ensures
        wallpaper::mended(c, disk, selection) == (
            c,
            Ok::<(Seq<Seq<char>>, bool), Seq<char>>((selection, false)),
        ),
    decreases selection.len(),
{
    if selection.len() > 0 {
        let head = selection.drop_last();
        assert forall|i: int| 0 <= i < head.len() implies disk.files.contains(#[trigger] head[i])
            || head[i].len() == 0 by {
            assert(head[i] == selection[i]);
        }
        lemma_nothing_mended(c, disk, head);
        assert(selection[selection.len() - 1] == selection.last());
        assert(head.push(selection.last()) =~= selection);
    } else {
        assert(selection =~= Seq::<Seq<char>>::empty());
    }
}

/// Once what outputs show at startup is kept, they show it at the next startup too, where its
/// files are still there. The next startup can be prepared on the same disk, and on every
/// other for whose wallpapers there is room.
pub proof fn law_startup_repeats(
    c: ControlView,
    names: Seq<Seq<char>>,
    disk: DiskView,
    stored: StoredView,
    later_disk: DiskView,
    later: StoredView,
)
    requires
        drawing::sound_control(c),
        0 < names.len() <= usize::MAX,
        is_tidy(wallpaper::taken(c, names, stored).1),
        change::can_prepare_startup(c, names, disk, stored),
    ensures
        ({
            let (next, result) = change::prepared_startup(c, names, disk, stored);
            let kept = change::committed(next, result->Ok_0);
            result matches Ok(change) ==> all_there(change.selection, later_disk) ==> (
            change::prepared_startup(kept, names, later_disk, later).1 matches Ok(again)
                && again.selection == change.selection && again.action == "startup"@
                && again.layout == change.layout)
        }),
        ({
            let (next, result) = change::prepared_startup(c, names, disk, stored);
            let kept = change::committed(next, result->Ok_0);
            result is Ok && (later_disk == disk || drawing::has_room(kept, later_disk))
                ==> change::can_prepare_startup(kept, names, later_disk, later)
        }),
{
    let (next, result) = change::prepared_startup(c, names, disk, stored);
    if let Ok(change) = result {
        let (c1, l1) = wallpaper::taken(c, names, stored);
        wallpaper::lemma_taken(c, names, stored);
        lemma_settled(c1, l1, disk);
        let (c2, l2, _) = wallpaper::settled(c1, l1, disk);
        lemma_healed(c2, l2, disk);
        let kept = change::committed(next, change);
        wallpaper_law::law_commit_keeps_the_layout(next, change, names, later);
        let (k1, k2) = wallpaper::taken(kept, names, later);
        assert(k2 == change.layout);
        assert(wallpaper::settled(k1, k2, later_disk) == (k1, k2, Ok::<(), Seq<char>>(())));
        wallpaper_law::lemma_mended(c2, disk, l2.window());
        wallpaper::lemma_with_layout(next, change.layout_key, change.layout);
        wallpaper::lemma_taken(kept, names, later);
        assert(drawing::on_disk(k1, later_disk) == drawing::on_disk(next, later_disk));
        if all_there(change.selection, later_disk) {
            lemma_nothing_mended(k1, later_disk, change.selection);
        }
    }
}

proof fn lemma_kept(
    c: ControlView,
    change: change::PreparedView,
    names: Seq<Seq<char>>,
    later: StoredView,
)
    requires
        names.len() > 0,
        shows(c, change.layout, change.selection),
        change.layout.is_filled(),
        change.layout_key == wallpaper::layout_key(names),
    ensures
        change::current(change::committed(c, change), names, later).1 == Ok::<
            WallpaperView,
            Seq<char>,
        >(saying(change::committed(c, change).favorites, names, change.selection)),
{
    wallpaper_law::law_commit_keeps_the_layout(c, change, names, later);
}

// ---------------------------------------------------------------------------
// On, on and back

/// Whether a layout stands on its last row.
pub open spec fn is_at_end(layout: LayoutView) -> bool {
    &&& is_orderly(layout)
    &&& layout.history.len() > 0
    &&& layout.idx == layout.history.len()
    &&& layout.offset == 0
}

/// The next row behind the last one is drawn, and is shown as it is drawn.
#[verifier::spinoff_prover]
pub proof fn lemma_next_is_drawn(c: ControlView, layout: LayoutView, disk: DiskView)
    requires
        wallpaper::is_ready(c, disk, layout.out_count),
        is_at_end(layout),
        layout.max_history >= 2,
        (layout.history.len() + 2) * layout.out_count < usize::MAX,
    ensures
        ({
            let (next, after, result) = wallpaper::stepped(c, layout, disk, false);
            result matches Ok(selection) ==> {
                &&& wallpaper::is_ready(next, disk, layout.out_count)
                &&& drawing::same_library(next, c)
                &&& is_at_end(after)
                &&& 2 <= after.history.len() <= layout.history.len() + 1
                &&& after.out_count == layout.out_count
                &&& after.max_history == layout.max_history
                &&& selection == after.window()
                &&& selection.len() == layout.out_count
                &&& after.is_filled()
                &&& all_there(selection, disk)
                &&& control::drawn(c, disk, layout.out_count as nat, None) == (
                    next,
                    Ok::<Seq<Seq<char>>, Seq<char>>(selection),
                )
                &&& after.history == layout.history.push(selection).skip(
                    layout.history.len() + 1 - after.history.len(),
                )
                &&& after.history.len() < layout.history.len() + 1 ==> after.history.len()
                    == layout.max_history
            }
        }),
        wallpaper::can_step(c, layout, disk, false),
{
    let len = layout.history.len() as int;
    let out = layout.out_count as int;
    assert((len + 1) * out + out == (len + 2) * out) by (nonlinear_arith);
    assert(len < usize::MAX) by (nonlinear_arith)
        requires
            (len + 2) * out < usize::MAX,
            out >= 1,
            len >= 0,
    ;
    let moved = wallpaper::window_of(layout, (layout.idx + 1) as usize);
    lemma_filled(moved);
    assert(len * out + out > len * out);
    assert(!moved.is_filled());
    wallpaper::lemma_ready_after(c, disk, layout.out_count);
    drawing::law_drawing(c, disk, layout.out_count as nat, None);
    drawing::lemma_on_disk(c, disk);
    let (next, result) = control::drawn(c, disk, layout.out_count as nat, None);
    if let Ok(row) = result {
        let longer = LayoutView { history: layout.history.push(row), ..moved };
        assert forall|k: int| 0 <= k < longer.history.len() implies (
        #[trigger] longer.history[k]).len() == layout.out_count by {
            if k < layout.history.len() {
                assert(longer.history[k] == layout.history[k]);
            }
        }
        if longer.history.len() > layout.max_history {
            lemma_cut_even(
                longer.history,
                layout.out_count as nat,
                longer.history.len() - layout.max_history,
            );
        }
        let after = wallpaper::grown(moved, row);
        assert(after == longer.pruned());
        assert((after.history.len() + 1) * out <= (len + 2) * out) by (nonlinear_arith)
            requires
                after.history.len() <= len + 1,
                out >= 1,
        ;
        assert(after.idx == after.history.len());
        lemma_window_is_row(after);
        assert(after.history[after.idx - 1] == row);
        wallpaper::lemma_grown(moved, row);
        assert(wallpaper::extended(next, after, disk) == (next, after, Ok::<(), Seq<char>>(())));
        assert(longer.history.skip(0) =~= longer.history);
        assert(all_there(row, disk)) by {
            assert forall|i: int| 0 <= i < row.len() implies disk.files.contains(
                #[trigger] row[i],
            ) || row[i].len() == 0 by {
                assert(drawing::on_disk(c, disk).contains(row[i]));
            }
        }
    }
}

/// What going on shows, where the window stands on the last row.
#[verifier::spinoff_prover]
proof fn lemma_going_on(
    c: ControlView,
    names: Seq<Seq<char>>,
    capture: bool,
    disk: DiskView,
    stored: StoredView,
)
    requires
        0 < names.len() <= usize::MAX,
        ({
            let (c1, l1) = wallpaper::taken(c, names, stored);
            &&& wallpaper::is_ready(c1, disk, l1.out_count)
            &&& is_at_end(l1)
            &&& l1.out_count == names.len()
            &&& l1.max_history >= 2
            &&& (l1.history.len() + 2) * l1.out_count < usize::MAX
        }),
    ensures
        change::can_prepare(c, WallpaperAction::Next, names, capture, disk, stored),
        ({
            let (c1, l1) = wallpaper::taken(c, names, stored);
            let (next, result) = change::prepared(
                c,
                WallpaperAction::Next,
                names,
                capture,
                disk,
                stored,
            );
            let (c3, l3, picked) = wallpaper::stepped(c1, l1, disk, false);
            result matches Ok(change) ==> {
                &&& picked is Ok
                &&& next == c3
                &&& change.layout == l3
                &&& change.selection == l3.window()
                &&& change.quarantine is None
                &&& change.layout_key == wallpaper::layout_key(names)
            }
        }),
{
    let (c1, l1) = wallpaper::taken(c, names, stored);
    lemma_window_is_row(l1);
    lemma_next_is_drawn(c1, l1, disk);
    assert(wallpaper::settled(c1, l1, disk) == (c1, l1, Ok::<(), Seq<char>>(())));
    let (c3, l3, picked) = wallpaper::stepped(c1, l1, disk, false);
    if let Ok(selection) = picked {
        lemma_nothing_mended(c3, disk, selection);
    }
}

/// What going on shows first, where nothing was shown before.
#[verifier::spinoff_prover]
proof fn lemma_going_first(
    c: ControlView,
    names: Seq<Seq<char>>,
    capture: bool,
    disk: DiskView,
    stored: StoredView,
)
    requires
        drawing::sound_control(c),
        0 < names.len() <= usize::MAX,
        change::can_prepare(c, WallpaperAction::Next, names, capture, disk, stored),
        ({
            let (c1, l1) = wallpaper::taken(c, names, stored);
            &&& l1.history.len() == 0
            &&& l1.out_count == names.len()
            &&& l1.max_history >= 2
            &&& 3 * l1.out_count < usize::MAX
        }),
    ensures
        ({
            let (c1, l1) = wallpaper::taken(c, names, stored);
            let (next, result) = change::prepared(
                c,
                WallpaperAction::Next,
                names,
                capture,
                disk,
                stored,
            );
            result matches Ok(change) ==> {
                &&& wallpaper::is_ready(next, disk, l1.out_count)
                &&& drawing::same_library(next, c1)
                &&& is_at_end(change.layout)
                &&& change.layout.history.len() == 2
                &&& change.layout.out_count == l1.out_count
                &&& change.layout.max_history == l1.max_history
                &&& change.layout.is_filled()
                &&& change.selection == change.layout.window()
                &&& change.selection.len() == names.len()
                &&& all_there(change.selection, disk)
                &&& change.quarantine is None
                &&& change.layout_key == wallpaper::layout_key(names)
            }
        }),
{
    let (c1, l1) = wallpaper::taken(c, names, stored);
    wallpaper::lemma_taken(c, names, stored);
    assert(wallpaper::can_start(c1, l1, disk));
    wallpaper::lemma_ready_after(c1, disk, l1.out_count);
    let (s1, t1, begun) = wallpaper::started(c1, l1, disk);
    if begun is Ok {
        let row = control::drawn(c1, disk, l1.out_count as nat, None).1->Ok_0;
        assert(t1.history =~= seq![row]);
        assert(wallpaper_law::is_even(t1)) by {
            assert(t1.history[0] == row);
        }
        assert((t1.history.len() + 1) * t1.out_count == 2 * t1.out_count);
        assert(is_at_end(t1));
        lemma_window_is_row(t1);
        lemma_next_is_drawn(s1, t1, disk);
        assert(wallpaper::started(s1, t1, disk) == (s1, t1, Ok::<(), Seq<char>>(())));
        assert(wallpaper::settled(c1, l1, disk) == (s1, t1, Ok::<(), Seq<char>>(())));
        assert(wallpaper::stepped(c1, l1, disk, false) == wallpaper::stepped(s1, t1, disk, false));
        let (c3, l3, picked) = wallpaper::stepped(s1, t1, disk, false);
        if let Ok(selection) = picked {
            lemma_nothing_mended(c3, disk, selection);
        }
    }
}

/// A change that is kept leaves its layout, and wallpapers enough.
proof fn lemma_ready_when_kept(
    c: ControlView,
    change: change::PreparedView,
    names: Seq<Seq<char>>,
    disk: DiskView,
    later: StoredView,
)
    requires
        0 < names.len() <= usize::MAX,
        wallpaper::is_ready(c, disk, change.layout.out_count),
        drawing::sound_layout(change.layout),
        change.quarantine is None,
        change.layout_key == wallpaper::layout_key(names),
    ensures
        wallpaper::taken(change::committed(c, change), names, later).1 == change.layout,
        wallpaper::is_ready(
            wallpaper::taken(change::committed(c, change), names, later).0,
            disk,
            change.layout.out_count,
        ),
{
    let kept = change::committed(c, change);
    wallpaper_law::law_commit_keeps_the_layout(c, change, names, later);
    wallpaper::lemma_with_layout(c, change.layout_key, change.layout);
    wallpaper::lemma_taken(kept, names, later);
    let left = wallpaper::taken(kept, names, later).0;
    assert(drawing::on_disk(left, disk) == drawing::on_disk(c, disk));
}

/// What going back shows, where the row before is there.
#[verifier::spinoff_prover]
proof fn lemma_going_back(
    c: ControlView,
    names: Seq<Seq<char>>,
    capture: bool,
    disk: DiskView,
    stored: StoredView,
)
    requires
        0 < names.len() <= usize::MAX,
        ({
            let (c1, l1) = wallpaper::taken(c, names, stored);
            let back = wallpaper::window_of(l1, (l1.idx - 1) as usize);
            &&& wallpaper::is_ready(c1, disk, l1.out_count)
            &&& drawing::sound_layout(l1)
            &&& l1.is_filled()
            &&& l1.history.len() > 0
            &&& l1.idx >= 2
            &&& back.window().len() == names.len()
            &&& all_there(back.window(), disk)
        }),
    ensures
        change::can_prepare(c, WallpaperAction::Back, names, capture, disk, stored),
        ({
            let (_, l1) = wallpaper::taken(c, names, stored);
            let back = wallpaper::window_of(l1, (l1.idx - 1) as usize);
            change::prepared(c, WallpaperAction::Back, names, capture, disk, stored).1 matches Ok(
                change,
            ) && change.selection == back.window()
        }),
{
    let (c1, l1) = wallpaper::taken(c, names, stored);
    let back = wallpaper::window_of(l1, (l1.idx - 1) as usize);
    assert(wallpaper::settled(c1, l1, disk) == (c1, l1, Ok::<(), Seq<char>>(())));
    assert(wallpaper::stepped(c1, l1, disk, true) == (
        c1,
        back,
        Ok::<Seq<Seq<char>>, Seq<char>>(back.window()),
    ));
    assert(wallpaper::is_ready(c1, disk, 1));
    lemma_nothing_mended(c1, disk, back.window());
}

/// Going on, on and back from the start shows what going on showed first, where the files stay
/// and the history has room.
#[verifier::spinoff_prover]
#[verifier::rlimit(30)]
pub proof fn law_back_shows_the_first(
    c: ControlView,
    names: Seq<Seq<char>>,
    captures: (bool, bool, bool),
    disk: DiskView,
    stored: StoredView,
    later: StoredView,
    last: StoredView,
)
    requires
        drawing::sound_control(c),
        0 < names.len(),
        5 * names.len() <= usize::MAX,
        wallpaper::taken(c, names, stored).1.history.len() == 0,
        wallpaper::taken(c, names, stored).1.out_count == names.len(),
        wallpaper::taken(c, names, stored).1.max_history >= 2,
        change::can_prepare(c, WallpaperAction::Next, names, captures.0, disk, stored),
    ensures
        ({
            let (c1, first) = change::prepared(
                c,
                WallpaperAction::Next,
                names,
                captures.0,
                disk,
                stored,
            );
            let k1 = change::committed(c1, first->Ok_0);
            let (c2, second) = change::prepared(
                k1,
                WallpaperAction::Next,
                names,
                captures.1,
                disk,
                later,
            );
            let k2 = change::committed(c2, second->Ok_0);
            let third = change::prepared(k2, WallpaperAction::Back, names, captures.2, disk, last).1;
            first is Ok ==> {
                &&& change::can_prepare(
                    k1,
                    WallpaperAction::Next,
                    names,
                    captures.1,
                    disk,
                    later,
                )
                &&& second is Ok ==> {
                    &&& change::can_prepare(
                        k2,
                        WallpaperAction::Back,
                        names,
                        captures.2,
                        disk,
                        last,
                    )
                    &&& third is Ok
                    &&& third->Ok_0.selection == first->Ok_0.selection
                }
            }
        }),
{
    lemma_going_first(c, names, captures.0, disk, stored);
    let (c1, first) = change::prepared(c, WallpaperAction::Next, names, captures.0, disk, stored);
    if let Ok(a) = first {
        let k1 = change::committed(c1, a);
        lemma_ready_when_kept(c1, a, names, disk, later);
        let (t1, l1) = wallpaper::taken(k1, names, later);
        assert((l1.history.len() + 2) * l1.out_count == 4 * l1.out_count);
        assert((l1.history.len() + 3) * l1.out_count == 5 * l1.out_count);
        lemma_going_on(k1, names, captures.1, disk, later);
        lemma_next_is_drawn(t1, l1, disk);
        let (c2, second) = change::prepared(
            k1,
            WallpaperAction::Next,
            names,
            captures.1,
            disk,
            later,
        );
        if let Ok(b) = second {
            lemma_filled(l1);
            assert(wallpaper_law::is_showing(l1));
            wallpaper_law::law_back_undoes_next(t1, l1, disk);
            let k2 = change::committed(c2, b);
            lemma_ready_when_kept(c2, b, names, disk, last);
            let l2 = wallpaper::taken(k2, names, last).1;
            assert(wallpaper::window_of(l2, (l2.idx - 1) as usize).window() == a.selection);
            lemma_going_back(k2, names, captures.2, disk, last);
        }
    }
}

} // verus!
