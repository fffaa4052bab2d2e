//! Wallpaper actions: what each of them shows next.

use crate::control::{ControlView, Disk, DiskView, WallpaperControl};
use crate::layout::{LayoutState, LayoutView, StoredLayout, StoredView};
use crate::paths::{file_name, join, split_extension};
use crate::response::{EntryView, WallpaperEntry};
use crate::text::{
    concat2, concat3, concat4, concat5, contains_text, copy_text, copy_texts, decimal_usize,
    text_eq, IntError,
};
use crate::textlist::join_texts;
use crate::control;
use crate::drawing;
use crate::error;
use crate::layout;
use crate::paths;
use crate::response;
use crate::text;
use crate::textlist;
use crate::textmap;
use vstd::prelude::*;

verus! {

// ---------------------------------------------------------------------------
// The window on the history

/// Whether the library can supply rows of so many wallpapers.
pub open spec fn is_ready(c: ControlView, disk: DiskView, count: usize) -> bool {
    &&& count >= 1
    &&& drawing::sound_control(c)
    &&& drawing::has_room(c, disk)
    &&& drawing::is_supplied(
        c,
        disk,
        None,
        drawing::needed(control::task_for(c.library, count as nat, None)),
    )
}

/// Whether the history of a layout can grow to the end of the window, where it does not
/// reach there already: a history of one row has no room for a window that starts within a
/// row.
pub open spec fn is_reachable(layout: LayoutView) -> bool {
    &&& drawing::sound_layout(layout)
    &&& layout.max_history >= 2 || layout.offset == 0 || layout.idx == 0 || layout.is_filled()
}

/// How many rows are missing to the end of the window.
pub open spec fn missing_rows(layout: LayoutView) -> int {
    let last = if layout.idx == 0 {
        1int
    } else {
        layout.idx as int
    };
    let end = if layout.offset > 0 {
        last + 1
    } else {
        last
    };
    if end > layout.history.len() {
        end - layout.history.len()
    } else {
        0
    }
}

pub proof fn lemma_missing_rows(layout: LayoutView)
    requires
        drawing::sound_layout(layout),
        !layout.is_filled(),
    ensures
        missing_rows(layout) > 0,
{
    let before = layout::rows_before(layout.idx);
    let out = layout.out_count as int;
    let offset = layout.offset as int;
    let len = layout.history.len() as int;
    assert(len * out >= 0) by (nonlinear_arith)
        requires
            len >= 0,
            out >= 1,
    ;
    assert(before * out >= 0) by (nonlinear_arith)
        requires
            before >= 0,
            out >= 1,
    ;
    assert(len * out < before * out + offset + out);
    assert(len < before + 1 + (if offset > 0 {
        1int
    } else {
        0
    })) by (nonlinear_arith)
        requires
            len * out < before * out + offset + out,
            0 <= offset < out,
    ;
}

/// A layout with a row added, and its window at the start where it was nowhere.
pub open spec fn grown(layout: LayoutView, row: Seq<Seq<char>>) -> LayoutView {
    let longer = layout.with_row(row);
    if longer.idx < 1 {
        LayoutView { idx: 1, offset: 0, ..longer }
    } else {
        longer
    }
}

pub proof fn lemma_grown(layout: LayoutView, row: Seq<Seq<char>>)
    requires
        is_reachable(layout),
        !layout.is_filled(),
    ensures
        is_reachable(grown(layout, row)),
        missing_rows(grown(layout, row)) < missing_rows(layout),
        missing_rows(layout) > 0,
        grown(layout, row).out_count == layout.out_count,
        grown(layout, row).idx <= layout.idx || grown(layout, row).idx == 1,
{
    lemma_missing_rows(layout);
}

/// The library and a layout once its history reaches to the end of the window: rows are
/// drawn until it does.
pub open spec fn extended(c: ControlView, layout: LayoutView, disk: DiskView) -> (
    ControlView,
    LayoutView,
    Result<(), Seq<char>>,
)
    decreases missing_rows(layout),
    when is_reachable(layout)
    via extended_ends
{
    if layout.is_filled() {
        (c, layout, Ok(()))
    } else {
        let (next, result) = control::drawn(c, disk, layout.out_count as nat, None);
        match result {
            Err(message) => (next, layout, Err(message)),
            Ok(row) => extended(next, grown(layout, row), disk),
        }
    }
}

#[via_fn]
proof fn extended_ends(c: ControlView, layout: LayoutView, disk: DiskView) {
    if !layout.is_filled() {
        let (next, result) = control::drawn(c, disk, layout.out_count as nat, None);
        if let Ok(row) = result {
            lemma_grown(layout, row);
        }
    }
}

pub proof fn lemma_ready_after(c: ControlView, disk: DiskView, count: usize)
    requires
        is_ready(c, disk, count),
    ensures
        control::draw_ends(c, disk, count as nat, None),
        control::draw_ends(c, disk, 1, None),
        is_ready(control::drawn(c, disk, count as nat, None).0, disk, count),
        is_ready(control::drawn(c, disk, 1, None).0, disk, count),
        control::drawn(c, disk, count as nat, None).1 matches Ok(row) ==> row.len() == count,
        control::drawn(c, disk, 1, None).1 matches Ok(row) ==> row.len() == 1,
        drawing::continues(control::drawn(c, disk, count as nat, None).0, c, disk),
        drawing::continues(control::drawn(c, disk, 1, None).0, c, disk),
{
    drawing::law_drawing(c, disk, count as nat, None);
    drawing::law_drawing(c, disk, 1, None);
}

/// The library and a layout that has shown something.
pub open spec fn started(c: ControlView, layout: LayoutView, disk: DiskView) -> (
    ControlView,
    LayoutView,
    Result<(), Seq<char>>,
) {
    if layout.history.len() > 0 {
        (c, layout, Ok(()))
    } else {
        let (next, result) = control::drawn(c, disk, layout.out_count as nat, None);
        match result {
            Err(message) => (next, layout, Err(message)),
            Ok(row) => (
                next,
                LayoutView { idx: 1, offset: 0, ..layout.with_row(row) },
                Ok(()),
            ),
        }
    }
}

/// A layout with its window at a row.
pub open spec fn window_of(layout: LayoutView, index: usize) -> LayoutView {
    LayoutView { idx: index, ..layout }
}

/// What the next or the previous row shows.
pub open spec fn stepped(c: ControlView, layout: LayoutView, disk: DiskView, back: bool) -> (
    ControlView,
    LayoutView,
    Result<Seq<Seq<char>>, Seq<char>>,
) {
    let (c1, l1, begun) = started(c, layout, disk);
    match begun {
        Err(message) => (c1, l1, Err(message)),
        Ok(_) => {
            let index = if l1.idx < 1 {
                1usize
            } else {
                l1.idx
            };
            if back {
                let l2 = window_of(
                    l1,
                    if index > 1 {
                        (index - 1) as usize
                    } else {
                        index
                    },
                );
                (c1, l2, Ok(l2.window()))
            } else {
                let l2 = window_of(l1, (index + 1) as usize);
                if index < l1.history.len() {
                    (c1, l2, Ok(l2.window()))
                } else {
                    let (c3, l3, reached) = extended(c1, l2, disk);
                    match reached {
                        Err(message) => (c3, l3, Err(message)),
                        Ok(_) => (c3, l3, Ok(l3.window())),
                    }
                }
            }
        },
    }
}

/// A layout with its window one wallpaper on.
pub open spec fn shifted_on(layout: LayoutView) -> LayoutView {
    let moved = if layout.offset + 1 >= layout.out_count {
        LayoutView { offset: 0, idx: (layout.idx + 1) as usize, ..layout }
    } else {
        LayoutView { offset: (layout.offset + 1) as usize, ..layout }
    };
    if moved.idx < 1 {
        LayoutView { idx: 1, offset: 0, ..moved }
    } else {
        moved
    }
}

/// A layout with its window one wallpaper back.
pub open spec fn shifted_back(layout: LayoutView) -> LayoutView {
    if layout.offset > 0 {
        LayoutView { offset: (layout.offset - 1) as usize, ..layout }
    } else if layout.idx > 1 {
        LayoutView {
            idx: (layout.idx - 1) as usize,
            offset: (layout.out_count - 1) as usize,
            ..layout
        }
    } else {
        layout
    }
}

/// What a window one wallpaper on or back shows.
pub open spec fn shifted(c: ControlView, layout: LayoutView, disk: DiskView, forward: bool) -> (
    ControlView,
    LayoutView,
    Result<Seq<Seq<char>>, Seq<char>>,
) {
    let (c1, l1, begun) = started(c, layout, disk);
    match begun {
        Err(message) => (c1, l1, Err(message)),
        Ok(_) => if forward {
            let (c2, l2, reached) = extended(c1, shifted_on(l1), disk);
            match reached {
                Err(message) => (c2, l2, Err(message)),
                Ok(_) => (c2, l2, Ok(l2.window())),
            }
        } else {
            (c1, shifted_back(l1), Ok(shifted_back(l1).window()))
        },
    }
}

/// The library and a layout that shows something in full.
pub open spec fn settled(c: ControlView, layout: LayoutView, disk: DiskView) -> (
    ControlView,
    LayoutView,
    Result<(), Seq<char>>,
) {
    let (c1, l1, begun) = started(c, layout, disk);
    match begun {
        Err(message) => (c1, l1, Err(message)),
        Ok(_) => extended(c1, l1, disk),
    }
}

/// A selection with one of its wallpapers replaced.
pub open spec fn with_wall(selection: Seq<Seq<char>>, index: usize, wall: Seq<char>) -> Seq<
    Seq<char>,
> {
    if index < selection.len() {
        selection.update(index as int, wall)
    } else {
        selection
    }
}

/// What is shown once one wallpaper is replaced by a drawn one.
pub open spec fn replaced(
    c: ControlView,
    layout: LayoutView,
    disk: DiskView,
    index: usize,
    exclude: Option<Seq<char>>,
) -> (ControlView, LayoutView, Result<Seq<Seq<char>>, Seq<char>>) {
    let (c1, l1, begun) = settled(c, layout, disk);
    match begun {
        Err(message) => (c1, l1, Err(message)),
        Ok(_) => {
            let (c2, result) = control::drawn(c1, disk, 1, exclude);
            match result {
                Err(message) => (c2, l1, Err(message)),
                Ok(walls) => {
                    let selection = with_wall(l1.window(), index, walls[0]);
                    (c2, l1.branched(selection), Ok(selection))
                },
            }
        },
    }
}

/// A selection with drawn wallpapers in place of those that are gone, and whether any was.
pub open spec fn mended(c: ControlView, disk: DiskView, selection: Seq<Seq<char>>) -> (
    ControlView,
    Result<(Seq<Seq<char>>, bool), Seq<char>>,
)
    decreases selection.len(),
{
    if selection.len() == 0 {
        (c, Ok((Seq::empty(), false)))
    } else {
        let (c1, before) = mended(c, disk, selection.drop_last());
        let wall = selection.last();
        match before {
            Err(message) => (c1, Err(message)),
            Ok((done, changed)) => if wall.len() == 0 || disk.files.contains(wall) {
                (c1, Ok((done.push(wall), changed)))
            } else {
                let (c2, result) = control::drawn(c1, disk, 1, None);
                match result {
                    Err(message) => (c2, Err(message)),
                    Ok(walls) => (c2, Ok((done.push(walls[0]), true))),
                }
            },
        }
    }
}

/// A layout that remembers a mended selection: in the row of the window where that is one
/// row, else in a row of its own.
pub open spec fn remembered(layout: LayoutView, selection: Seq<Seq<char>>) -> LayoutView {
    if layout.offset == 0 && 1 <= layout.idx <= layout.history.len() {
        LayoutView { history: layout.history.update(layout.idx - 1, selection), ..layout }
    } else {
        layout.branched(selection)
    }
}

/// What is shown once the wallpapers that are gone are replaced.
pub open spec fn healed(
    c: ControlView,
    layout: LayoutView,
    disk: DiskView,
    selection: Seq<Seq<char>>,
) -> (ControlView, LayoutView, Result<Seq<Seq<char>>, Seq<char>>) {
    let (c1, result) = mended(c, disk, selection);
    match result {
        Err(message) => (c1, layout, Err(message)),
        Ok((walls, changed)) => (
            c1,
            if changed {
                remembered(layout, walls)
            } else {
                layout
            },
            Ok(walls),
        ),
    }
}

// ---------------------------------------------------------------------------
// What can be drawn and reached

/// Whether so many wallpapers can be drawn without one.
pub open spec fn can_draw(
    c: ControlView,
    disk: DiskView,
    count: nat,
    exclude: Option<Seq<char>>,
) -> bool {
    &&& drawing::sound_control(c)
    &&& drawing::has_room(c, disk)
    &&& control::others(c.library, exclude).len() == 0 || drawing::is_supplied(
        c,
        disk,
        exclude,
        drawing::needed(control::task_for(c.library, count, exclude)),
    )
}

/// Whether the history of a layout can be made to reach to the end of the window.
pub open spec fn can_fill(c: ControlView, layout: LayoutView, disk: DiskView) -> bool {
    is_reachable(layout) && (layout.is_filled() || is_ready(c, disk, layout.out_count))
}

/// Whether a layout has shown something, or can.
pub open spec fn can_start(c: ControlView, layout: LayoutView, disk: DiskView) -> bool {
    layout.history.len() > 0 || is_ready(c, disk, layout.out_count)
}

/// Whether a layout can show something in full.
pub open spec fn can_settle(c: ControlView, layout: LayoutView, disk: DiskView) -> bool {
    let (c1, l1, begun) = started(c, layout, disk);
    can_start(c, layout, disk) && (begun is Ok ==> can_fill(c1, l1, disk))
}

/// Whether a layout can go to the next or the previous row.
pub open spec fn can_step(c: ControlView, layout: LayoutView, disk: DiskView, back: bool) -> bool {
    let (c1, l1, begun) = started(c, layout, disk);
    let index = if l1.idx < 1 {
        1usize
    } else {
        l1.idx
    };
    &&& can_start(c, layout, disk)
    &&& begun is Ok && !back ==> index < usize::MAX
    &&& begun is Ok && !back && index >= l1.history.len() ==> can_fill(
        c1,
        window_of(l1, (index + 1) as usize),
        disk,
    )
}

/// Whether a layout can go on or back by one wallpaper.
pub open spec fn can_shift(
    c: ControlView,
    layout: LayoutView,
    disk: DiskView,
    forward: bool,
) -> bool {
    let (c1, l1, begun) = started(c, layout, disk);
    &&& can_start(c, layout, disk)
    &&& begun is Ok && forward ==> l1.idx < usize::MAX || l1.offset + 1 < l1.out_count
    &&& begun is Ok && forward ==> can_fill(c1, shifted_on(l1), disk)
}

/// Whether one wallpaper of a layout can be replaced by a drawn one.
pub open spec fn can_replace(
    c: ControlView,
    layout: LayoutView,
    disk: DiskView,
    exclude: Option<Seq<char>>,
) -> bool {
    let (c1, l1, begun) = settled(c, layout, disk);
    can_settle(c, layout, disk) && (begun is Ok ==> can_draw(c1, disk, 1, exclude))
}

/// Whether a result stands for the expected one.
pub open spec fn gives(
    result: Result<Vec<String>, String>,
    expected: Result<Seq<Seq<char>>, Seq<char>>,
) -> bool {
    match (result, expected) {
        (Ok(list), Ok(walls)) => text::texts(list@) == walls,
        (Err(message), Err(text)) => message@ == text,
        _ => false,
    }
}

impl WallpaperControl {
    pub(crate) fn make_random_one(&mut self, disk: &Disk, exclude: Option<&str>) -> (result: Result<
        String,
        String,
    >)
        requires
            control::draw_ends(old(self)@, disk@, 1, paths::str_if(exclude)),
            control::drawn(
                old(self)@,
                disk@,
                1,
                paths::str_if(exclude),
            ).1 matches Ok(walls) ==> walls.len() == 1,
        ensures
            final(self)@ == control::drawn(old(self)@, disk@, 1, paths::str_if(exclude)).0,
            match (result, control::drawn(old(self)@, disk@, 1, paths::str_if(exclude)).1) {
                (Ok(wall), Ok(walls)) => wall@ == walls[0],
                (Err(message), Err(text)) => message@ == text,
                _ => false,
            },
    {
        let walls = self.bag_next_n(disk, 1, exclude)?;
        assert(text::texts(walls@).len() == walls@.len());
        assert(text::texts(walls@)[0] == walls@[0]@);
        Ok(copy_text(walls[0].as_str()))
    }

    pub(crate) fn ensure_initialized(
        &mut self,
        layout: &mut LayoutState,
        disk: &Disk,
    ) -> (result: Result<
        (),
        String,
    >)
        requires
            drawing::sound_control(old(self)@),
            drawing::sound_layout(old(layout)@),
            can_start(old(self)@, old(layout)@, disk@),
        ensures
            ({
                let (next, after, expected) = started(old(self)@, old(layout)@, disk@);
                final(self)@ == next && final(layout)@ == after && error::agrees(result, expected)
            }),
            drawing::sound_control(final(self)@),
            drawing::sound_layout(final(layout)@),
    {
        assert(layout::rows(layout.history@).len() == layout.history@.len());
        if layout.history.len() == 0 {
            proof {
                lemma_ready_after(self@, disk@, layout.out_count);
            }
            let selection = self.bag_next_n(disk, layout.out_count, None)?;
            layout.append_set(selection);
            layout.idx = 1;
            layout.offset = 0;
        }
        Ok(())
    }

    pub(crate) fn ensure_window(
        &mut self,
        layout: &mut LayoutState,
        disk: &Disk,
    ) -> (result: Result<
        (),
        String,
    >)
        requires
            drawing::sound_control(old(self)@),
            can_fill(old(self)@, old(layout)@, disk@),
        ensures
            ({
                let (next, after, expected) = extended(old(self)@, old(layout)@, disk@);
                final(self)@ == next && final(layout)@ == after && error::agrees(result, expected)
            }),
            drawing::sound_control(final(self)@),
            drawing::sound_layout(final(layout)@),
            result is Ok ==> final(layout)@.is_filled(),
    {
        loop
            invariant
                drawing::sound_control(self@),
                can_fill(self@, layout@, disk@),
                extended(self@, layout@, disk@) == extended(old(self)@, old(layout)@, disk@),
            decreases missing_rows(layout@),
        {
            if layout.reaches_window() {
                return Ok(());
            }
            proof {
                lemma_ready_after(self@, disk@, layout.out_count);
            }
            let ghost before = layout@;
            let selection = self.bag_next_n(disk, layout.out_count, None)?;
            proof {
                lemma_grown(before, text::texts(selection@));
            }
            layout.append_set(selection);
            if layout.idx < 1 {
                layout.idx = 1;
                layout.offset = 0;
            }
        }
    }

    pub(crate) fn run_next_back(
        &mut self,
        layout: &mut LayoutState,
        disk: &Disk,
        back: bool,
    ) -> (result:
        Result<Vec<String>, String>)
        requires
            drawing::sound_control(old(self)@),
            drawing::sound_layout(old(layout)@),
            can_step(old(self)@, old(layout)@, disk@, back),
        ensures
            ({
                let (next, after, expected) = stepped(old(self)@, old(layout)@, disk@, back);
                final(self)@ == next && final(layout)@ == after && gives(result, expected)
            }),
            drawing::sound_control(final(self)@),
            drawing::sound_layout(final(layout)@),
    {
        self.ensure_initialized(layout, disk)?;
        assert(layout::rows(layout.history@).len() == layout.history@.len());
        if layout.idx < 1 {
            layout.idx = 1;
        }
        if back {
            if layout.idx > 1 {
                layout.idx = layout.idx - 1;
            }
        } else if layout.idx < layout.history.len() {
            layout.idx = layout.idx + 1;
        } else {
            layout.idx = layout.idx + 1;
            self.ensure_window(layout, disk)?;
        }
        Ok(layout.get_window())
    }

    pub(crate) fn run_shift(
        &mut self,
        layout: &mut LayoutState,
        disk: &Disk,
        forward: bool,
    ) -> (result: Result<
        Vec<String>,
        String,
    >)
        requires
            drawing::sound_control(old(self)@),
            drawing::sound_layout(old(layout)@),
            can_shift(old(self)@, old(layout)@, disk@, forward),
        ensures
            ({
                let (next, after, expected) = shifted(old(self)@, old(layout)@, disk@, forward);
                final(self)@ == next && final(layout)@ == after && gives(result, expected)
            }),
            drawing::sound_control(final(self)@),
            drawing::sound_layout(final(layout)@),
    {
        self.ensure_initialized(layout, disk)?;
        if forward {
            layout.offset = layout.offset + 1;
            if layout.offset >= layout.out_count {
                layout.offset = 0;
                layout.idx = layout.idx + 1;
            }
            if layout.idx < 1 {
                layout.idx = 1;
                layout.offset = 0;
            }
            self.ensure_window(layout, disk)?;
        } else if layout.offset > 0 {
            layout.offset = layout.offset - 1;
        } else if layout.idx > 1 {
            layout.idx = layout.idx - 1;
            layout.offset = layout.out_count - 1;
        }
        Ok(layout.get_window())
    }

    pub(crate) fn run_replace(
        &mut self,
        layout: &mut LayoutState,
        disk: &Disk,
        index: usize,
        exclude: Option<&str>,
    ) -> (result: Result<Vec<String>, String>)
        requires
            drawing::sound_control(old(self)@),
            drawing::sound_layout(old(layout)@),
            can_replace(old(self)@, old(layout)@, disk@, paths::str_if(exclude)),
        ensures
            ({
                let (next, after, expected) = replaced(
                    old(self)@,
                    old(layout)@,
                    disk@,
                    index,
                    paths::str_if(exclude),
                );
                final(self)@ == next && final(layout)@ == after && gives(result, expected)
            }),
            drawing::sound_control(final(self)@),
            drawing::sound_layout(final(layout)@),
    {
        self.ensure_initialized(layout, disk)?;
        self.ensure_window(layout, disk)?;
        proof {
            drawing::law_drawing(self@, disk@, 1, paths::str_if(exclude));
        }
        let mut selection = layout.get_window();
        let replacement = self.make_random_one(disk, exclude)?;
        let ghost before = text::texts(selection@);
        assert(before.len() == selection@.len());
        if index < selection.len() {
            selection.set(index, replacement);
        }
        assert(text::texts(selection@) =~= with_wall(before, index, replacement@));
        let result = copy_texts(&selection);
        layout.branch(selection);
        Ok(result)
    }

    pub(crate) fn heal_selection(
        &mut self,
        layout: &mut LayoutState,
        disk: &Disk,
        selection: Vec<String>,
    )
        -> (result: Result<Vec<String>, String>)
        requires
            drawing::sound_control(old(self)@),
            drawing::sound_layout(old(layout)@),
            is_ready(old(self)@, disk@, 1),
        ensures
            ({
                let (next, after, expected) = healed(
                    old(self)@,
                    old(layout)@,
                    disk@,
                    text::texts(selection@),
                );
                final(self)@ == next && final(layout)@ == after && gives(result, expected)
            }),
            drawing::sound_control(final(self)@),
            drawing::sound_layout(final(layout)@),
    {
        let ghost all = text::texts(selection@);
        let ghost start = self@;
        let mut changed = false;
        let mut walls: Vec<String> = Vec::new();
        let mut i: usize = 0;
        assert(all.take(0) =~= Seq::<Seq<char>>::empty());
        assert(text::texts(walls@) =~= Seq::<Seq<char>>::empty());
        while i < selection.len()
            invariant
                i <= selection@.len(),
                all == text::texts(selection@),
                start == old(self)@,
                layout@ == old(layout)@,
                drawing::sound_layout(layout@),
                is_ready(self@, disk@, 1),
                mended(start, disk@, all.take(i as int)) == (
                    self@,
                    Ok::<(Seq<Seq<char>>, bool), Seq<char>>((text::texts(walls@), changed)),
                ),
            decreases selection@.len() - i,
        {
            proof {
                reveal_strlit("");
                assert(all.take(i + 1).drop_last() =~= all.take(i as int));
                assert(all.take(i + 1).last() == selection@[i as int]@);
                if selection@[i as int]@.len() == 0 {
                    assert(selection@[i as int]@ =~= ""@);
                }
                lemma_ready_after(self@, disk@, 1);
            }
            let ghost before = text::texts(walls@);
            if text_eq(selection[i].as_str(), "") || contains_text(
                &disk.files,
                selection[i].as_str(),
            ) {
                walls.push(copy_text(selection[i].as_str()));
                assert(text::texts(walls@) =~= before.push(selection@[i as int]@));
            } else {
                match self.make_random_one(disk, None) {
                    Ok(wall) => {
                        walls.push(wall);
                        assert(text::texts(walls@) =~= before.push(wall@));
                    },
                    Err(message) => {
                        proof {
                            lemma_mend_error_stays(start, disk@, all, i + 1);
                        }
                        return Err(message);
                    },
                }
                changed = true;
            }
            i = i + 1;
        }
        assert(all.take(i as int) =~= all);
        if changed {
            let remembered = copy_texts(&walls);
            assert(layout::rows(layout.history@).len() == layout.history@.len());
            if layout.offset == 0 && layout.idx >= 1 && layout.idx <= layout.history.len() {
                let ghost history = layout::rows(layout.history@);
                layout.history.set(layout.idx - 1, remembered);
                assert(layout::rows(layout.history@) =~= history.update(layout.idx - 1, text::texts(walls@)));
            } else {
                layout.branch(remembered);
            }
        }
        Ok(walls)
    }
}

proof fn lemma_mend_error_stays(
    c: ControlView,
    disk: DiskView,
    selection: Seq<Seq<char>>,
    n: int,
)
    requires
        0 <= n <= selection.len(),
        mended(c, disk, selection.take(n)).1 is Err,
    ensures
        mended(c, disk, selection) == mended(c, disk, selection.take(n)),
    decreases selection.len() - n,
{
    if n == selection.len() {
        assert(selection.take(n) =~= selection);
    } else {
        assert(selection.take(n + 1).drop_last() =~= selection.take(n));
        lemma_mend_error_stays(c, disk, selection, n + 1);
    }
}

// ---------------------------------------------------------------------------
// Outputs and entries

/// An output that shows wallpapers.
#[derive(Clone, Debug, PartialEq, Eq)]
pub struct ActiveOutput {
    pub name: String,
    pub x: i32,
    pub y: i32,
}

/// The names of outputs.
pub open spec fn output_names(outputs: Seq<ActiveOutput>) -> Seq<Seq<char>> {
    Seq::new(outputs.len(), |i: int| outputs[i].name@)
}

/// The rows of a response: one for each output and the wallpaper that it shows.
pub open spec fn entries_for(
    favorites: Seq<Seq<char>>,
    names: Seq<Seq<char>>,
    selection: Seq<Seq<char>>,
) -> Seq<EntryView> {
    Seq::new(
        if names.len() <= selection.len() {
            names.len()
        } else {
            selection.len()
        },
        |i: int|
            EntryView {
                index: i as usize,
                output: names[i],
                favorite: favorites.contains(selection[i]),
                path: selection[i],
            },
    )
}

/// What is wrong with the index of an output.
pub open spec fn index_check(count: nat, index: usize, label: Seq<char>) -> Result<
    (),
    Seq<char>,
> {
    if index >= count {
        Err(
            label + " index out of range (0.."@ + text::decimal_text(
                if count == 0 {
                    0
                } else {
                    (count - 1) as nat
                },
            ) + ")"@,
        )
    } else {
        Ok(())
    }
}

pub(crate) fn validate_output_index(
    outputs: &Vec<ActiveOutput>,
    index: usize,
    label: &str,
) -> (result: Result<
    (),
    String,
>)
    ensures
        error::agrees(result, index_check(outputs@.len(), index, label@)),
{
    if index >= outputs.len() {
        let last: usize = if outputs.len() == 0 {
            0
        } else {
            outputs.len() - 1
        };
        let digits = decimal_usize(last);
        return Err(concat4(label, " index out of range (0..", digits.as_str(), ")"));
    }
    Ok(())
}

/// The name of the layout of outputs.
pub open spec fn layout_key(names: Seq<Seq<char>>) -> Seq<char> {
    textlist::joined_by(names, "+"@)
}

/// The name of the layout of outputs.
pub fn layout_key_for(outputs: &Vec<ActiveOutput>) -> (key: String)
    ensures
        key@ == layout_key(output_names(outputs@)),
{
    let ghost names = output_names(outputs@);
    let mut list: Vec<String> = Vec::new();
    let mut i: usize = 0;
    assert(text::texts(list@) =~= names.take(0));
    while i < outputs.len()
        invariant
            i <= outputs@.len(),
            names == output_names(outputs@),
            text::texts(list@) == names.take(i as int),
        decreases outputs@.len() - i,
    {
        let ghost before = text::texts(list@);
        list.push(copy_text(outputs[i].name.as_str()));
        assert(text::texts(list@) =~= before.push(names[i as int]));
        i = i + 1;
        assert(text::texts(list@) =~= names.take(i as int));
    }
    assert(names.take(i as int) =~= names);
    join_texts(&list, "+")
}

/// Where the files of a layout stand.
pub open spec fn layout_place(state_dir: Seq<char>, key: Seq<char>) -> Seq<char> {
    paths::joined(state_dir, "layout-"@ + key)
}

/// The layout of outputs, taken from the library or from its files.
pub open spec fn taken(c: ControlView, names: Seq<Seq<char>>, stored: StoredView) -> (
    ControlView,
    LayoutView,
) {
    let key = layout_key(names);
    match textmap::entries_get(c.layouts, key) {
        Some(layout) => (
            ControlView { layouts: textmap::entries_remove(c.layouts, key), ..c },
            layout,
        ),
        None => (
            c,
            layout::stored_layout(
                layout_place(c.state_dir, key),
                names.len() as usize,
                c.max_history,
                stored,
            ),
        ),
    }
}

/// A library with a layout put back.
pub open spec fn with_layout(c: ControlView, key: Seq<char>, layout: LayoutView) -> ControlView {
    ControlView { layouts: textmap::entries_insert(c.layouts, key, layout), ..c }
}

pub proof fn lemma_taken(c: ControlView, names: Seq<Seq<char>>, stored: StoredView)
    requires
        drawing::sound_control(c),
        1 <= names.len() <= usize::MAX,
    ensures
        drawing::sound_control(taken(c, names, stored).0),
        drawing::sound_layout(taken(c, names, stored).1),
{
    let key = layout_key(names);
    textmap::lemma_remove_ascending(c.layouts, key);
    let left = textmap::entries_remove(c.layouts, key);
    assert forall|other: Seq<char>| (#[trigger] textmap::entries_get(left, other)) matches Some(layout)
        ==> drawing::sound_layout(layout) by {
        textmap::lemma_get_after_remove(c.layouts, key, other);
        assert(textmap::entries_get(c.layouts, other) matches Some(layout) ==> drawing::sound_layout(layout));
    }
    assert(textmap::entries_get(c.layouts, key) matches Some(layout) ==> drawing::sound_layout(layout));
}

pub proof fn lemma_with_layout(c: ControlView, key: Seq<char>, layout: LayoutView)
    requires
        drawing::sound_control(c),
        drawing::sound_layout(layout),
    ensures
        drawing::sound_control(with_layout(c, key, layout)),
{
    textmap::lemma_insert_ascending(c.layouts, key, layout);
    let all = textmap::entries_insert(c.layouts, key, layout);
    assert forall|other: Seq<char>| (#[trigger] textmap::entries_get(all, other)) matches Some(found)
        ==> drawing::sound_layout(found) by {
        textmap::lemma_get_after_insert(c.layouts, key, layout, other);
        assert(textmap::entries_get(c.layouts, other) matches Some(found) ==> drawing::sound_layout(found));
    }
}

impl WallpaperControl {
    pub(crate) fn entries(
        &self,
        outputs: &Vec<ActiveOutput>,
        selection: &Vec<String>,
    ) -> (list: Vec<
        WallpaperEntry,
    >)
        ensures
            response::entries_of(list@) == entries_for(
                self@.favorites,
                output_names(outputs@),
                text::texts(selection@),
            ),
    {
        let ghost all = entries_for(
            self@.favorites,
            output_names(outputs@),
            text::texts(selection@),
        );
        let count: usize = if outputs.len() <= selection.len() {
            outputs.len()
        } else {
            selection.len()
        };
        let mut list: Vec<WallpaperEntry> = Vec::new();
        let mut i: usize = 0;
        assert(response::entries_of(list@) =~= all.take(0));
        while i < count
            invariant
                i <= count,
                count <= outputs@.len(),
                count <= selection@.len(),
                count == all.len(),
                all == entries_for(
                    self@.favorites,
                    output_names(outputs@),
                    text::texts(selection@),
                ),
                response::entries_of(list@) == all.take(i as int),
            decreases count - i,
        {
            let ghost before = response::entries_of(list@);
            let entry = WallpaperEntry {
                index: i,
                output: copy_text(outputs[i].name.as_str()),
                favorite: contains_text(&self.favorites, selection[i].as_str()),
                path: copy_text(selection[i].as_str()),
            };
            assert(entry@ == all[i as int]);
            list.push(entry);
            assert(response::entries_of(list@) =~= before.push(all[i as int]));
            i = i + 1;
            assert(response::entries_of(list@) =~= all.take(i as int));
        }
        assert(all.take(i as int) =~= all);
        list
    }

    pub(crate) fn put_layout(&mut self, key: String, layout: LayoutState)
        ensures
            final(self)@ == with_layout(old(self)@, key@, layout@),
    {
        proof {
            textmap::lemma_map_insert(
                self.layouts.raw(),
                |layout: LayoutState| layout@,
                key@,
                layout,
            );
        }
        self.layouts.insert(key, layout);
    }

    pub(crate) fn take_layout(
        &mut self,
        outputs: &Vec<ActiveOutput>,
        stored: &StoredLayout,
    ) -> (result: (
        String,
        LayoutState,
    ))
        ensures
            (final(self)@, result.1@) == taken(old(self)@, output_names(outputs@), stored@),
            result.0@ == layout_key(output_names(outputs@)),
    {
        let key = layout_key_for(outputs);
        let ghost view = |layout: LayoutState| layout@;
        proof {
            textmap::lemma_map_get(self.layouts.raw(), view, key@);
            textmap::lemma_map_remove(self.layouts.raw(), view, key@);
        }
        if self.layouts.contains_key(key.as_str()) {
            match self.layouts.remove(key.as_str()) {
                Some(layout) => {
                    return (key, layout);
                },
                None => {},
            }
        }
        let name = concat2("layout-", key.as_str());
        let dir = join(self.state_dir.as_str(), name.as_str());
        let layout = LayoutState::load(dir, outputs.len(), self.max_history, stored);
        (key, layout)
    }
}

// ---------------------------------------------------------------------------
// Quarantine

/// A file that is to be moved into quarantine, and whether it has been.
#[derive(Clone, Debug, PartialEq, Eq)]
pub struct QuarantineMove {
    pub source: String,
    pub destination: String,
    pub moved: bool,
}

/// A move into quarantine, as a mathematical value.
pub struct MoveView {
    pub source: Seq<char>,
    pub destination: Seq<char>,
    pub moved: bool,
}

impl View for QuarantineMove {
    type V = MoveView;

    open spec fn view(&self) -> MoveView {
        MoveView {
            source: self.source@,
            destination: self.destination@,
            moved: self.moved,
        }
    }
}

/// A move that may be missing.
pub open spec fn move_if(plan: Option<QuarantineMove>) -> Option<MoveView> {
    match plan {
        Some(plan) => Some(plan@),
        None => None,
    }
}

/// The name of a file with a number in front of its extension; its own for zero.
pub open spec fn numbered_name(name: Seq<char>, number: nat) -> Seq<char> {
    let (stem, extension) = paths::stem_and_extension(name);
    if number == 0 {
        name
    } else {
        match extension {
            Some(extension) => stem + "."@ + text::decimal_text(number) + "."@ + extension,
            None => stem + "."@ + text::decimal_text(number),
        }
    }
}

/// Whether a number is the first whose path is not taken.
pub open spec fn is_first_free(
    dir: Seq<char>,
    name: Seq<char>,
    taken: Seq<Seq<char>>,
    number: nat,
) -> bool {
    &&& !taken.contains(paths::joined(dir, numbered_name(name, number)))
    &&& forall|k: nat|
        k < number ==> taken.contains(paths::joined(dir, #[trigger] numbered_name(name, k)))
}

/// The path in a directory that a file of a name gets: the first that is not taken.
pub open spec fn free_path(dir: Seq<char>, name: Seq<char>, taken: Seq<Seq<char>>) -> Seq<char> {
    let number = choose|number: nat| is_first_free(dir, name, taken, number);
    paths::joined(dir, numbered_name(name, number))
}

proof fn lemma_numbers_differ(dir: Seq<char>, name: Seq<char>, a: nat, b: nat)
    requires
        a < b,
        name.len() > 0,
    ensures
        paths::joined(dir, numbered_name(name, a)) != paths::joined(dir, numbered_name(name, b)),
{
    let (stem, extension) = paths::stem_and_extension(name);
    reveal_strlit(".");
    reveal_strlit("/");
    text::lemma_decimal_text_shape(a);
    text::lemma_decimal_text_shape(b);
    let dot = paths::last_index(name, '.');
    paths::lemma_last_index(name, '.');
    let tail = match extension {
        Some(extension) => "."@ + extension,
        None => Seq::empty(),
    };
    assert(name =~= stem + tail);
    let x = numbered_name(name, a);
    let y = numbered_name(name, b);
    assert(y =~= stem + "."@ + text::decimal_text(b) + tail);
    assert(stem.len() > 0);
    assert(x[0] == stem[0] && y[0] == stem[0]);
    if paths::joined(dir, x) == paths::joined(dir, y) {
        let from = if paths::is_rooted(x) || dir.len() == 0 {
            0int
        } else if dir.last() == '/' {
            dir.len() as int
        } else {
            (dir.len() + 1) as int
        };
        assert(paths::joined(dir, x).skip(from) =~= x);
        assert(paths::joined(dir, y).skip(from) =~= y);
        assert(x == y);
        if a > 0 {
            assert(x =~= stem + "."@ + text::decimal_text(a) + tail);
            let start = stem.len() + 1;
            let end = x.len() - tail.len();
            assert(x.subrange(start as int, end) =~= text::decimal_text(a));
            assert(y.subrange(start as int, end) =~= text::decimal_text(b));
            text::lemma_decimal_round_trip(a, b, IntError::PosOverflow);
            text::lemma_decimal_round_trip(b, b, IntError::PosOverflow);
        }
    }
}

proof fn lemma_some_number_is_free(dir: Seq<char>, name: Seq<char>, taken: Seq<Seq<char>>)
    requires
        name.len() > 0,
    ensures
        exists|k: nat|
            k <= taken.len() && !taken.contains(
                paths::joined(dir, #[trigger] numbered_name(name, k)),
            ),
{
    if forall|k: nat|
        k <= taken.len() ==> taken.contains(paths::joined(dir, #[trigger] numbered_name(name, k))) {
        let all = Seq::new(
            taken.len() + 1,
            |k: int| paths::joined(dir, numbered_name(name, k as nat)),
        );
        assert forall|i: int, j: int|
            0 <= i < all.len() && 0 <= j < all.len() && i != j implies all[i] != all[j] by {
            if i < j {
                lemma_numbers_differ(dir, name, i as nat, j as nat);
            } else {
                lemma_numbers_differ(dir, name, j as nat, i as nat);
            }
        }
        assert forall|text: Seq<char>| #[trigger] all.contains(text) implies taken.contains(
            text,
        ) by {
            let k = choose|k: int| 0 <= k < all.len() && all[k] == text;
            assert(taken.contains(paths::joined(dir, numbered_name(name, k as nat))));
        }
        drawing::lemma_distinct_fits(all, taken);
    }
}

/// A path that is free is the first number's that is.
pub proof fn lemma_free_path(dir: Seq<char>, name: Seq<char>, taken: Seq<Seq<char>>)
    requires
        name.len() > 0,
    ensures
        !taken.contains(free_path(dir, name, taken)),
        !taken.contains(paths::joined(dir, name)) ==> free_path(dir, name, taken)
            == paths::joined(dir, name),
        exists|number: nat|
            free_path(dir, name, taken) == paths::joined(dir, #[trigger] numbered_name(name, number)),
{
    lemma_some_number_is_free(dir, name, taken);
    let k = choose|k: nat|
        k <= taken.len() && !taken.contains(paths::joined(dir, #[trigger] numbered_name(name, k)));
    lemma_first_number(dir, name, taken, k);
    let number = choose|number: nat| is_first_free(dir, name, taken, number);
    assert(is_first_free(dir, name, taken, number));
    assert(numbered_name(name, 0) == name);
    if number > 0 {
        assert(taken.contains(paths::joined(dir, numbered_name(name, 0))));
    }
}

proof fn lemma_first_number(dir: Seq<char>, name: Seq<char>, taken: Seq<Seq<char>>, k: nat)
    requires
        !taken.contains(paths::joined(dir, numbered_name(name, k))),
    ensures
        exists|number: nat| is_first_free(dir, name, taken, number),
    decreases k,
{
    if exists|less: nat|
        less < k && !taken.contains(paths::joined(dir, #[trigger] numbered_name(name, less))) {
        let less = choose|less: nat|
            less < k && !taken.contains(paths::joined(dir, #[trigger] numbered_name(name, less)));
        lemma_first_number(dir, name, taken, less);
    } else {
        assert(is_first_free(dir, name, taken, k));
    }
}

fn numbered(name: &str, number: usize) -> (result: String)
    ensures
        result@ == numbered_name(name@, number as nat),
{
    if number == 0 {
        return copy_text(name);
    }
    let (stem, extension) = split_extension(name);
    let digits = decimal_usize(number);
    match extension {
        Some(extension) => concat5(
            stem.as_str(),
            ".",
            digits.as_str(),
            ".",
            extension.as_str(),
        ),
        None => concat3(stem.as_str(), ".", digits.as_str()),
    }
}

/// The path in a directory that a file of a name gets: the first that is not taken.
pub fn unique_destination(dir: &str, name: &str, taken: &Vec<String>) -> (path: String)
    requires
        name@.len() > 0,
    ensures
        path@ == free_path(dir@, name@, text::texts(taken@)),
        !text::texts(taken@).contains(path@),
{
    proof {
        lemma_some_number_is_free(dir@, name@, text::texts(taken@));
    }
    let ghost limit = choose|k: nat|
        k <= text::texts(taken@).len() && !text::texts(taken@).contains(
            paths::joined(dir@, #[trigger] numbered_name(name@, k)),
        );
    assert(limit <= taken@.len());
    let mut number: usize = 0;
    loop
        invariant
            number <= limit,
            limit <= taken@.len(),
            !text::texts(taken@).contains(paths::joined(dir@, numbered_name(name@, limit))),
            forall|k: nat|
                k < number ==> text::texts(taken@).contains(
                    paths::joined(dir@, #[trigger] numbered_name(name@, k)),
                ),
        decreases limit - number,
    {
        let candidate = numbered(name, number);
        let path = join(dir, candidate.as_str());
        if !contains_text(taken, path.as_str()) {
            proof {
                let list = text::texts(taken@);
                assert(is_first_free(dir@, name@, list, number as nat));
                let chosen = choose|k: nat| is_first_free(dir@, name@, list, k);
                if chosen < number {
                    assert(list.contains(paths::joined(dir@, numbered_name(name@, chosen))));
                }
                if chosen > number {
                    assert(list.contains(paths::joined(dir@, numbered_name(name@, number as nat))));
                }
            }
            return path;
        }
        assert(number < limit);
        assert(taken.len() == taken@.len());
        number = number + 1;
    }
}

/// How a wallpaper goes into quarantine: not at all where it is no longer on disk.
pub open spec fn quarantine_plan(c: ControlView, disk: DiskView, target: Seq<char>) -> Result<
    Option<MoveView>,
    Seq<char>,
> {
    if !disk.files.contains(target) {
        Ok(None)
    } else {
        match paths::name_of_file(target) {
            None => Err("cannot quarantine path without file name: "@ + target),
            Some(name) => Ok(
                Some(
                    MoveView {
                        source: target,
                        destination: free_path(c.quarantine_dir, name, disk.taken),
                        moved: false,
                    },
                ),
            ),
        }
    }
}

impl WallpaperControl {
    pub(crate) fn prepare_quarantine_move(&self, disk: &Disk, target: &str) -> (result: Result<
        Option<QuarantineMove>,
        String,
    >)
        ensures
            match (result, quarantine_plan(self@, disk@, target@)) {
                (Ok(plan), Ok(expected)) => move_if(plan) == expected,
                (Err(message), Err(expected)) => message@ == expected,
                _ => false,
            },
    {
        if !contains_text(&disk.files, target) {
            return Ok(None);
        }
        match file_name(target) {
            None => Err(concat2("cannot quarantine path without file name: ", target)),
            Some(name) => {
                proof {
                    paths::lemma_file_name_some(target@);
                }
                let destination = unique_destination(
                    self.quarantine_dir.as_str(),
                    name.as_str(),
                    &disk.taken,
                );
                Ok(Some(QuarantineMove { source: copy_text(target), destination, moved: false }))
            },
        }
    }
}

} // verus!
