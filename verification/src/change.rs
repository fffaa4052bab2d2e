//! Changes of what is shown: how they are prepared, and how they are kept or undone.

use crate::control::{ControlView, Disk, DiskView, WallpaperControl};
use crate::layout::{LayoutState, LayoutView, StoredLayout, StoredView};
use crate::protocol::WallpaperAction;
use crate::response::{EntryView, WallpaperEntry, WallpaperResponse, WallpaperView};
use crate::text::{concat2, concat5, contains_text, copy_text, copy_texts, decimal_usize};
use crate::textlist::{drop_text, place_text};
use crate::wallpaper::{validate_output_index, ActiveOutput, MoveView, QuarantineMove};
use crate::control;
use crate::drawing;
use crate::error;
use crate::layout;
use crate::response;
use crate::text;
use crate::textlist;
use crate::wallpaper;
use vstd::prelude::*;

verus! {

/// A change that is ready to be shown.
#[derive(Debug)]
pub struct PreparedWallpaperChange {
    pub action: String,
    pub entries: Vec<WallpaperEntry>,
    pub selection: Vec<String>,
    pub canvas_before_start: Option<usize>,
    pub canvas_after_start: Option<usize>,
    pub layout_key: String,
    pub layout_before: LayoutState,
    pub layout: LayoutState,
    pub quarantine: Option<QuarantineMove>,
    pub shuffle_pos_before: usize,
    pub shuffle_bag_len_before: usize,
}

/// A change that is ready to be shown, as a mathematical value.
pub struct PreparedView {
    pub action: Seq<char>,
    pub entries: Seq<EntryView>,
    pub selection: Seq<Seq<char>>,
    pub canvas_before_start: Option<usize>,
    pub canvas_after_start: Option<usize>,
    pub layout_key: Seq<char>,
    pub layout_before: LayoutView,
    pub layout: LayoutView,
    pub quarantine: Option<MoveView>,
    pub shuffle_pos_before: usize,
    pub shuffle_bag_len_before: nat,
}

impl View for PreparedWallpaperChange {
    type V = PreparedView;

    open spec fn view(&self) -> PreparedView {
        PreparedView {
            action: self.action@,
            entries: response::entries_of(self.entries@),
            selection: text::texts(self.selection@),
            canvas_before_start: self.canvas_before_start,
            canvas_after_start: self.canvas_after_start,
            layout_key: self.layout_key@,
            layout_before: self.layout_before@,
            layout: self.layout@,
            quarantine: wallpaper::move_if(self.quarantine),
            shuffle_pos_before: self.shuffle_pos_before,
            shuffle_bag_len_before: self.shuffle_bag_len_before as nat,
        }
    }
}

// ---------------------------------------------------------------------------
// Preparing

/// What is wrong with the index of an action.
pub open spec fn action_check(action: WallpaperAction, count: nat) -> Result<(), Seq<char>> {
    match action {
        WallpaperAction::Replace { index } => wallpaper::index_check(count, index, "replace"@),
        WallpaperAction::Quarantine { index } => wallpaper::index_check(count, index, "quarantine"@),
        _ => Ok(()),
    }
}

/// Where the window starts before a change, if that is asked for.
pub open spec fn positioned(c: ControlView, layout: LayoutView, disk: DiskView, capture: bool) -> (
    ControlView,
    LayoutView,
    Result<Option<usize>, Seq<char>>,
) {
    if capture {
        let (c1, l1, result) = wallpaper::settled(c, layout, disk);
        match result {
            Err(message) => (c1, l1, Err(message)),
            Ok(_) => (c1, l1, Ok(Some(l1.counted_start()))),
        }
    } else {
        (c, layout, Ok(None))
    }
}

/// What is shown once a wallpaper goes into quarantine, and how it goes there.
pub open spec fn quarantined(c: ControlView, layout: LayoutView, disk: DiskView, index: usize) -> (
    ControlView,
    LayoutView,
    Result<(Seq<Seq<char>>, Option<MoveView>), Seq<char>>,
) {
    let (c1, l1, result) = wallpaper::settled(c, layout, disk);
    match result {
        Err(message) => (c1, l1, Err(message)),
        Ok(_) => if index >= l1.window().len() {
            (
                c1,
                l1,
                Err(
                    "quarantine failed to locate wall at index "@ + text::decimal_text(index as nat),
                ),
            )
        } else {
            let target = l1.window()[index as int];
            match wallpaper::quarantine_plan(c1, disk, target) {
                Err(message) => (c1, l1, Err(message)),
                Ok(plan) => {
                    let (c2, l2, result) = wallpaper::replaced(c1, l1, disk, index, Some(target));
                    match result {
                        Err(message) => (c2, l2, Err(message)),
                        Ok(selection) => (c2, l2, Ok((selection, plan))),
                    }
                },
            }
        },
    }
}

/// What an action shows.
pub open spec fn chosen(
    c: ControlView,
    layout: LayoutView,
    disk: DiskView,
    action: WallpaperAction,
) -> (ControlView, LayoutView, Result<(Seq<Seq<char>>, Option<MoveView>), Seq<char>>) {
    let (c1, l1, result) = match action {
        WallpaperAction::Next => wallpaper::stepped(c, layout, disk, false),
        WallpaperAction::Back => wallpaper::stepped(c, layout, disk, true),
        WallpaperAction::ShiftForward => wallpaper::shifted(c, layout, disk, true),
        WallpaperAction::ShiftBack => wallpaper::shifted(c, layout, disk, false),
        WallpaperAction::Replace { index } => wallpaper::replaced(c, layout, disk, index, None),
        _ => (c, layout, Err(action.name() + " does not render wallpapers"@)),
    };
    match action {
        WallpaperAction::Quarantine { index } => quarantined(c, layout, disk, index),
        _ => match result {
            Err(message) => (c1, l1, Err(message)),
            Ok(selection) => (c1, l1, Ok((selection, None))),
        },
    }
}

/// A selection with a wallpaper for every output.
pub open spec fn completed(
    c: ControlView,
    layout: LayoutView,
    disk: DiskView,
    selection: Seq<Seq<char>>,
    count: nat,
) -> (ControlView, LayoutView, Result<Seq<Seq<char>>, Seq<char>>) {
    if selection.len() < count {
        let (c1, l1, result) = wallpaper::extended(c, layout, disk);
        match result {
            Err(message) => (c1, l1, Err(message)),
            Ok(_) => (c1, l1, Ok(l1.window())),
        }
    } else {
        (c, layout, Ok(selection))
    }
}

/// A change of the outputs that an action makes, prepared.
pub open spec fn prepared(
    c: ControlView,
    action: WallpaperAction,
    names: Seq<Seq<char>>,
    capture: bool,
    disk: DiskView,
    stored: StoredView,
) -> (ControlView, Result<PreparedView, Seq<char>>) {
    if names.len() == 0 {
        (c, Err("no active outputs"@))
    } else {
        match action_check(action, names.len()) {
            Err(message) => (c, Err(message)),
            Ok(_) => {
                let (c1, l1) = wallpaper::taken(c, names, stored);
                let (c2, l2, before) = positioned(c1, l1, disk, capture);
                match before {
                    Err(message) => (c2, Err(message)),
                    Ok(canvas_before_start) => {
                        let (c3, l3, picked) = chosen(c2, l2, disk, action);
                        match picked {
                            Err(message) => (c3, Err(message)),
                            Ok((selection, quarantine)) => {
                                let (c4, l4, full) = completed(
                                    c3,
                                    l3,
                                    disk,
                                    selection,
                                    names.len(),
                                );
                                match full {
                                    Err(message) => (c4, Err(message)),
                                    Ok(selection) => {
                                        let (c5, l5, whole) = wallpaper::healed(c4, l4, disk, selection);
                                        match whole {
                                            Err(message) => (c5, Err(message)),
                                            Ok(selection) => (
                                                c5,
                                                Ok(
                                                    PreparedView {
                                                        action: action.name(),
                                                        entries: wallpaper::entries_for(
                                                            c5.favorites,
                                                            names,
                                                            selection,
                                                        ),
                                                        selection,
                                                        canvas_before_start,
                                                        canvas_after_start: if capture {
                                                            Some(l5.counted_start())
                                                        } else {
                                                            None
                                                        },
                                                        layout_key: wallpaper::layout_key(names),
                                                        layout_before: l1,
                                                        layout: l5,
                                                        quarantine,
                                                        shuffle_pos_before: c1.pos,
                                                        shuffle_bag_len_before: c1.bag.len(),
                                                    },
                                                ),
                                            ),
                                        }
                                    },
                                }
                            },
                        }
                    },
                }
            },
        }
    }
}

/// What outputs show at startup, prepared: what they showed last, or something new.
pub open spec fn prepared_startup(
    c: ControlView,
    names: Seq<Seq<char>>,
    disk: DiskView,
    stored: StoredView,
) -> (ControlView, Result<PreparedView, Seq<char>>) {
    if names.len() == 0 {
        (c, Err("no active outputs"@))
    } else {
        let (c1, l1) = wallpaper::taken(c, names, stored);
        let (c2, l2, begun) = wallpaper::settled(c1, l1, disk);
        match begun {
            Err(message) => (c2, Err(message)),
            Ok(_) => {
                let (c3, l3, whole) = wallpaper::healed(c2, l2, disk, l2.window());
                match whole {
                    Err(message) => (c3, Err(message)),
                    Ok(selection) => (
                        c3,
                        Ok(
                            PreparedView {
                                action: "startup"@,
                                entries: wallpaper::entries_for(c3.favorites, names, selection),
                                selection,
                                canvas_before_start: Some(l3.counted_start()),
                                canvas_after_start: Some(l3.counted_start()),
                                layout_key: wallpaper::layout_key(names),
                                layout_before: l1,
                                layout: l3,
                                quarantine: None,
                                shuffle_pos_before: c1.pos,
                                shuffle_bag_len_before: c1.bag.len(),
                            },
                        ),
                    ),
                }
            },
        }
    }
}

// ---------------------------------------------------------------------------
// When a change can be prepared

/// Whether a wallpaper of a layout can go into quarantine, with a drawn one in its place.
pub open spec fn can_quarantine(
    c: ControlView,
    layout: LayoutView,
    disk: DiskView,
    index: usize,
) -> bool {
    let (c1, l1, result) = wallpaper::settled(c, layout, disk);
    &&& wallpaper::can_settle(c, layout, disk)
    &&& result is Ok && index < l1.window().len() && wallpaper::quarantine_plan(
        c1,
        disk,
        l1.window()[index as int],
    ) is Ok ==> wallpaper::can_replace(c1, l1, disk, Some(l1.window()[index as int]))
}

/// Whether what an action shows can be found.
pub open spec fn can_choose(
    c: ControlView,
    layout: LayoutView,
    disk: DiskView,
    action: WallpaperAction,
) -> bool {
    match action {
        WallpaperAction::Next => wallpaper::can_step(c, layout, disk, false),
        WallpaperAction::Back => wallpaper::can_step(c, layout, disk, true),
        WallpaperAction::ShiftForward => wallpaper::can_shift(c, layout, disk, true),
        WallpaperAction::ShiftBack => wallpaper::can_shift(c, layout, disk, false),
        WallpaperAction::Replace { .. } => wallpaper::can_replace(c, layout, disk, None),
        WallpaperAction::Quarantine { index } => can_quarantine(c, layout, disk, index),
        _ => true,
    }
}

/// Whether what is shown once an action is chosen can be completed and mended.
pub open spec fn can_finish(
    c: ControlView,
    layout: LayoutView,
    disk: DiskView,
    selection: Seq<Seq<char>>,
    count: nat,
) -> bool {
    let (c1, _, result) = completed(c, layout, disk, selection, count);
    &&& selection.len() < count ==> wallpaper::can_fill(c, layout, disk)
    &&& result is Ok ==> wallpaper::is_ready(c1, disk, 1)
}

/// Whether an action can be prepared on outputs: every wallpaper that it draws can be drawn,
/// and every window that it fills can be reached.
pub open spec fn can_prepare(
    c: ControlView,
    action: WallpaperAction,
    names: Seq<Seq<char>>,
    capture: bool,
    disk: DiskView,
    stored: StoredView,
) -> bool {
    let (c1, l1) = wallpaper::taken(c, names, stored);
    let (c2, l2, before) = positioned(c1, l1, disk, capture);
    let (c3, l3, picked) = chosen(c2, l2, disk, action);
    names.len() > 0 && action_check(action, names.len()) is Ok ==> {
        &&& capture ==> wallpaper::can_settle(c1, l1, disk)
        &&& before is Ok ==> can_choose(c2, l2, disk, action)
        &&& before is Ok && picked is Ok ==> can_finish(c3, l3, disk, picked->Ok_0.0, names.len())
    }
}

/// Whether what outputs show at startup can be prepared.
pub open spec fn can_prepare_startup(
    c: ControlView,
    names: Seq<Seq<char>>,
    disk: DiskView,
    stored: StoredView,
) -> bool {
    let (c1, l1) = wallpaper::taken(c, names, stored);
    let (c2, _, begun) = wallpaper::settled(c1, l1, disk);
    names.len() > 0 ==> {
        &&& wallpaper::can_settle(c1, l1, disk)
        &&& begun is Ok ==> wallpaper::is_ready(c2, disk, 1)
    }
}

impl WallpaperControl {
    fn settle(&mut self, layout: &mut LayoutState, disk: &Disk) -> (result: Result<(), String>)
        requires
            drawing::sound_control(old(self)@),
            drawing::sound_layout(old(layout)@),
            wallpaper::can_settle(old(self)@, old(layout)@, disk@),
        ensures
            ({
                let (next, after, expected) = wallpaper::settled(old(self)@, old(layout)@, disk@);
                final(self)@ == next && final(layout)@ == after && error::agrees(result, expected)
            }),
            drawing::sound_control(final(self)@),
            drawing::sound_layout(final(layout)@),
    {
        self.ensure_initialized(layout, disk)?;
        self.ensure_window(layout, disk)
    }

    fn run_quarantine(&mut self, layout: &mut LayoutState, disk: &Disk, index: usize) -> (result:
        Result<(Vec<String>, Option<QuarantineMove>), String>)
        requires
            drawing::sound_control(old(self)@),
            drawing::sound_layout(old(layout)@),
            can_quarantine(old(self)@, old(layout)@, disk@, index),
        ensures
            ({
                let (next, after, expected) = quarantined(old(self)@, old(layout)@, disk@, index);
                final(self)@ == next && final(layout)@ == after && match (result, expected) {
                    (Ok((list, plan)), Ok((walls, wanted))) => text::texts(list@) == walls && wallpaper::move_if(
                        plan,
                    ) == wanted,
                    (Err(message), Err(text)) => message@ == text,
                    _ => false,
                }
            }),
            drawing::sound_control(final(self)@),
            drawing::sound_layout(final(layout)@),
    {
        self.settle(layout, disk)?;
        let current = layout.get_window();
        assert(text::texts(current@).len() == current@.len());
        if index >= current.len() {
            let digits = decimal_usize(index);
            return Err(concat2("quarantine failed to locate wall at index ", digits.as_str()));
        }
        let target = current[index].as_str();
        assert(target@ == text::texts(current@)[index as int]);
        let plan = self.prepare_quarantine_move(disk, target)?;
        let selection = self.run_replace(layout, disk, index, Some(target))?;
        Ok((selection, plan))
    }

    pub(crate) fn run_action(&mut self, layout: &mut LayoutState, disk: &Disk, action: &WallpaperAction)
        -> (result: Result<(Vec<String>, Option<QuarantineMove>), String>)
        requires
            drawing::sound_control(old(self)@),
            drawing::sound_layout(old(layout)@),
            can_choose(old(self)@, old(layout)@, disk@, *action),
        ensures
            ({
                let (next, after, expected) = chosen(old(self)@, old(layout)@, disk@, *action);
                final(self)@ == next && final(layout)@ == after && match (result, expected) {
                    (Ok((list, plan)), Ok((walls, wanted))) => text::texts(list@) == walls && wallpaper::move_if(
                        plan,
                    ) == wanted,
                    (Err(message), Err(text)) => message@ == text,
                    _ => false,
                }
            }),
            drawing::sound_control(final(self)@),
            drawing::sound_layout(final(layout)@),
    {
        let selection = match action {
            WallpaperAction::Next => self.run_next_back(layout, disk, false)?,
            WallpaperAction::Back => self.run_next_back(layout, disk, true)?,
            WallpaperAction::ShiftForward => self.run_shift(layout, disk, true)?,
            WallpaperAction::ShiftBack => self.run_shift(layout, disk, false)?,
            WallpaperAction::Replace { index } => self.run_replace(layout, disk, *index, None)?,
            WallpaperAction::Quarantine { index } => {
                return self.run_quarantine(layout, disk, *index);
            },
            _ => {
                return Err(concat2(action.as_str(), " does not render wallpapers"));
            },
        };
        Ok((selection, None))
    }

    /// Prepares the change of the outputs that an action makes. The layout of the outputs
    /// leaves the library until the change is kept or undone.
    #[verifier::spinoff_prover]
    #[verifier::rlimit(40)]
    pub fn prepare_wallpaper_change(
        &mut self,
        action: &WallpaperAction,
        outputs: &Vec<ActiveOutput>,
        capture_canvas_positions: bool,
        disk: &Disk,
        stored: &StoredLayout,
    ) -> (result: Result<PreparedWallpaperChange, String>)
        requires
            drawing::sound_control(old(self)@),
            can_prepare(
                old(self)@,
                *action,
                wallpaper::output_names(outputs@),
                capture_canvas_positions,
                disk@,
                stored@,
            ),
        ensures
            ({
                let (next, expected) = prepared(
                    old(self)@,
                    *action,
                    wallpaper::output_names(outputs@),
                    capture_canvas_positions,
                    disk@,
                    stored@,
                );
                final(self)@ == next && error::agrees_view(result, expected)
            }),
            drawing::sound_control(final(self)@),
            result matches Ok(change) ==> drawing::sound_layout(change@.layout) && drawing::sound_layout(
                change@.layout_before,
            ),
    {
        let ghost names = wallpaper::output_names(outputs@);
        assert(names.len() == outputs@.len());
        if outputs.len() == 0 {
            return Err(copy_text("no active outputs"));
        }
        match action {
            WallpaperAction::Replace { index } => {
                validate_output_index(outputs, *index, "replace")?;
            },
            WallpaperAction::Quarantine { index } => {
                validate_output_index(outputs, *index, "quarantine")?;
            },
            _ => {},
        }
        proof {
            wallpaper::lemma_taken(self@, names, stored@);
        }
        let (layout_key, mut layout) = self.take_layout(outputs, stored);
        let ghost c1 = self@;
        let ghost l1 = layout@;
        let layout_before = layout.copy();
        let shuffle_pos_before: usize = self.shuffle_pos;
        let shuffle_bag_len_before: usize = self.shuffle_bag.len();
        assert(text::texts(self.shuffle_bag@).len() == self.shuffle_bag@.len());
        let canvas_before_start = if capture_canvas_positions {
            self.settle(&mut layout, disk)?;
            Some(layout.window_start())
        } else {
            None
        };
        let ghost c2 = self@;
        assert((c2, layout@, Ok::<Option<usize>, Seq<char>>(canvas_before_start)) == positioned(
            c1,
            l1,
            disk@,
            capture_canvas_positions,
        ));
        let (selection, quarantine) = self.run_action(&mut layout, disk, action)?;
        assert(text::texts(selection@).len() == selection@.len());
        let selection = if selection.len() < outputs.len() {
            self.ensure_window(&mut layout, disk)?;
            layout.get_window()
        } else {
            selection
        };
        let selection = self.heal_selection(&mut layout, disk, selection)?;
        let canvas_after_start = if capture_canvas_positions {
            Some(layout.window_start())
        } else {
            None
        };
        let entries = self.entries(outputs, &selection);
        Ok(
            PreparedWallpaperChange {
                action: copy_text(action.as_str()),
                entries,
                selection,
                canvas_before_start,
                canvas_after_start,
                layout_key,
                layout_before,
                layout,
                quarantine,
                shuffle_pos_before,
                shuffle_bag_len_before,
            },
        )
    }

    /// Prepares what outputs show at startup: what they showed last, or something new.
    pub fn prepare_startup_display(
        &mut self,
        outputs: &Vec<ActiveOutput>,
        disk: &Disk,
        stored: &StoredLayout,
    ) -> (result: Result<PreparedWallpaperChange, String>)
        requires
            drawing::sound_control(old(self)@),
            can_prepare_startup(old(self)@, wallpaper::output_names(outputs@), disk@, stored@),
        ensures
            ({
                let (next, expected) = prepared_startup(
                    old(self)@,
                    wallpaper::output_names(outputs@),
                    disk@,
                    stored@,
                );
                final(self)@ == next && error::agrees_view(result, expected)
            }),
            drawing::sound_control(final(self)@),
            result matches Ok(change) ==> drawing::sound_layout(change@.layout) && drawing::sound_layout(
                change@.layout_before,
            ),
    {
        let ghost names = wallpaper::output_names(outputs@);
        assert(names.len() == outputs@.len());
        if outputs.len() == 0 {
            return Err(copy_text("no active outputs"));
        }
        proof {
            wallpaper::lemma_taken(self@, names, stored@);
        }
        let (layout_key, mut layout) = self.take_layout(outputs, stored);
        let layout_before = layout.copy();
        let shuffle_pos_before: usize = self.shuffle_pos;
        let shuffle_bag_len_before: usize = self.shuffle_bag.len();
        assert(text::texts(self.shuffle_bag@).len() == self.shuffle_bag@.len());
        self.settle(&mut layout, disk)?;
        let selection = layout.get_window();
        let selection = self.heal_selection(&mut layout, disk, selection)?;
        let entries = self.entries(outputs, &selection);
        let start: usize = layout.window_start();
        Ok(
            PreparedWallpaperChange {
                action: copy_text("startup"),
                entries,
                selection,
                canvas_before_start: Some(start),
                canvas_after_start: Some(start),
                layout_key,
                layout_before,
                layout,
                quarantine: None,
                shuffle_pos_before,
                shuffle_bag_len_before,
            },
        )
    }
}

// ---------------------------------------------------------------------------
// Keeping and undoing

/// A library in which a change is undone: the layout is what it was, and so is the place in
/// the bag where the bag has not been changed in length.
pub open spec fn rolled_back(c: ControlView, change: PreparedView) -> ControlView {
    let pos = if c.bag.len() == change.shuffle_bag_len_before {
        if change.shuffle_pos_before <= c.bag.len() {
            change.shuffle_pos_before
        } else {
            c.bag.len() as usize
        }
    } else {
        c.pos
    };
    wallpaper::with_layout(ControlView { pos, ..c }, change.layout_key, change.layout_before)
}

/// A library in which a change is kept: a wallpaper that went into quarantine is gone.
pub open spec fn committed(c: ControlView, change: PreparedView) -> ControlView {
    let left = match change.quarantine {
        Some(plan) => ControlView {
            library: textlist::without(c.library, plan.source),
            favorites: textlist::without(c.favorites, plan.source),
            bag: textlist::without(c.bag, plan.source),
            ..c
        },
        None => c,
    };
    wallpaper::with_layout(left, change.layout_key, change.layout)
}

proof fn lemma_without_ascending(list: Seq<Seq<char>>, text: Seq<char>)
    requires
        textlist::ascending(list),
    ensures
        textlist::ascending(textlist::without(list, text)),
        forall|other: Seq<char>| #[trigger]
            textlist::without(list, text).contains(other) == (list.contains(other) && other != text),
    decreases list.len(),
{
    textlist::lemma_ascending_distinct(list);
    drawing::lemma_others(list, Some(text));
    assert(textlist::without(list, text) == control::others(list, Some(text)));
    let keep = |other: Seq<char>| !seq![text].contains(other);
    lemma_filter_ascending(list, keep);
}

proof fn lemma_filter_ascending(list: Seq<Seq<char>>, keep: spec_fn(Seq<char>) -> bool)
    requires
        textlist::ascending(list),
    ensures
        textlist::ascending(list.filter(keep)),
    decreases list.len(),
{
    reveal(Seq::filter);
    if list.len() > 0 {
        let head = list.drop_last();
        lemma_filter_ascending(head, keep);
        let kept = head.filter(keep);
        let all = kept.push(list.last());
        assert forall|i: int, j: int| 0 <= i < j < all.len() implies text::text_before(
            #[trigger] all[i],
            #[trigger] all[j],
        ) by {
            if j == kept.len() {
                assert(kept.contains(kept[i]));
                textlist::lemma_filter_contains(head, keep, kept[i]);
                let k = choose|k: int| 0 <= k < head.len() && head[k] == kept[i];
                assert(text::text_before(list[k], list[list.len() - 1]));
            }
        }
    }
}

impl PreparedWallpaperChange {
    /// The file to move into quarantine and where it goes, if there is one.
    pub fn quarantine_move(&self, disk: &Disk) -> (result: Option<(String, String)>)
        ensures
            match (result, self@.quarantine) {
                (Some((source, destination)), Some(plan)) => source@ == plan.source && destination@
                    == plan.destination && disk@.files.contains(plan.source),
                (None, Some(plan)) => !disk@.files.contains(plan.source),
                (None, None) => true,
                _ => false,
            },
    {
        match &self.quarantine {
            Some(plan) => if contains_text(&disk.files, plan.source.as_str()) {
                Some((copy_text(plan.source.as_str()), copy_text(plan.destination.as_str())))
            } else {
                None
            },
            None => None,
        }
    }

    /// Notes that the file has been moved into quarantine.
    pub fn set_moved(&mut self)
        ensures
            final(self)@ == (PreparedView {
                quarantine: match old(self)@.quarantine {
                    Some(plan) => Some(MoveView { moved: true, ..plan }),
                    None => None,
                },
                ..old(self)@
            }),
    {
        let mut plan: Option<QuarantineMove> = None;
        std::mem::swap(&mut plan, &mut self.quarantine);
        self.quarantine = match plan {
            Some(plan) => Some(
                QuarantineMove {
                    source: plan.source,
                    destination: plan.destination,
                    moved: true,
                },
            ),
            None => None,
        };
    }
}

impl WallpaperControl {
    /// The file to move back out of quarantine and where it goes, if it has been moved.
    pub fn rollback_quarantine(prepared: &PreparedWallpaperChange) -> (result: Option<
        (String, String),
    >)
        ensures
            match (result, prepared@.quarantine) {
                (Some((from, to)), Some(plan)) => plan.moved && from@ == plan.destination && to@
                    == plan.source,
                (None, Some(plan)) => !plan.moved,
                (None, None) => true,
                _ => false,
            },
    {
        match &prepared.quarantine {
            Some(plan) => if plan.moved {
                Some((copy_text(plan.destination.as_str()), copy_text(plan.source.as_str())))
            } else {
                None
            },
            None => None,
        }
    }

    /// Undoes a change.
    pub fn rollback_wallpaper_change(&mut self, prepared: PreparedWallpaperChange)
        requires
            drawing::sound_control(old(self)@),
            drawing::sound_layout(prepared@.layout_before),
        ensures
            final(self)@ == rolled_back(old(self)@, prepared@),
            drawing::sound_control(final(self)@),
    {
        assert(text::texts(self.shuffle_bag@).len() == self.shuffle_bag@.len());
        if self.shuffle_bag.len() == prepared.shuffle_bag_len_before {
            self.shuffle_pos = if prepared.shuffle_pos_before <= self.shuffle_bag.len() {
                prepared.shuffle_pos_before
            } else {
                self.shuffle_bag.len()
            };
        }
        assert(self@ == (ControlView { pos: self.shuffle_pos, ..old(self)@ }));
        proof {
            wallpaper::lemma_with_layout(self@, prepared.layout_key@, prepared.layout_before@);
        }
        self.put_layout(prepared.layout_key, prepared.layout_before);
    }

    /// Keeps a change.
    pub fn commit_wallpaper_change(&mut self, prepared: PreparedWallpaperChange) -> (response:
        WallpaperResponse)
        requires
            drawing::sound_control(old(self)@),
            drawing::sound_layout(prepared@.layout),
        ensures
            final(self)@ == committed(old(self)@, prepared@),
            drawing::sound_control(final(self)@),
            response@ == (WallpaperView {
                entries: prepared@.entries,
                ..bare_response(prepared@.action, Seq::empty())
            }),
    {
        if let Some(plan) = &prepared.quarantine {
            proof {
                lemma_without_ascending(self@.library, plan.source@);
                lemma_without_ascending(self@.favorites, plan.source@);
                assert forall|wall: Seq<char>| #[trigger]
                    textlist::without(self@.bag, plan.source@).contains(wall) implies textlist::without(
                    self@.library,
                    plan.source@,
                ).contains(wall) by {
                    textlist::lemma_filter_contains(
                        self@.bag,
                        |text: Seq<char>| !seq![plan.source@].contains(text),
                        wall,
                    );
                    assert(seq![plan.source@][0] == plan.source@);
                    assert(self@.library.contains(wall));
                }
                assert forall|wall: Seq<char>| #[trigger]
                    textlist::without(self@.library, plan.source@).contains(wall) implies control::is_wall_path(
                    self@.wall_dir,
                    self@.quarantine_dir,
                    wall,
                ) by {
                    assert(self@.library.contains(wall));
                }
            }
            self.library = drop_text(&self.library, plan.source.as_str());
            self.favorites = drop_text(&self.favorites, plan.source.as_str());
            self.shuffle_bag = drop_text(&self.shuffle_bag, plan.source.as_str());
            assert(self@ == (ControlView {
                library: textlist::without(old(self)@.library, plan.source@),
                favorites: textlist::without(old(self)@.favorites, plan.source@),
                bag: textlist::without(old(self)@.bag, plan.source@),
                ..old(self)@
            }));
        }
        proof {
            wallpaper::lemma_with_layout(self@, prepared.layout_key@, prepared.layout@);
        }
        self.put_layout(prepared.layout_key, prepared.layout);
        WallpaperResponse {
            action: prepared.action,
            message: no_text(),
            entries: prepared.entries,
            favorites: no_texts(),
        }
    }
}

// ---------------------------------------------------------------------------
// Responses

/// A response without rows and favorites.
pub open spec fn bare_response(action: Seq<char>, message: Seq<char>) -> WallpaperView {
    WallpaperView { action, message, entries: Seq::empty(), favorites: Seq::empty() }
}

/// The message of an action on a wallpaper.
pub open spec fn target_message(action: Seq<char>, index: usize, target: Seq<char>) -> Seq<char> {
    action + "\t"@ + text::decimal_text(index as nat) + "\t"@ + target
}

/// What outputs show, as a response. Their layout stays in the library.
pub open spec fn current(
    c: ControlView,
    names: Seq<Seq<char>>,
    stored: StoredView,
) -> (ControlView, Result<WallpaperView, Seq<char>>) {
    if names.len() == 0 {
        (c, Err("no active outputs"@))
    } else {
        let (c1, layout) = wallpaper::taken(c, names, stored);
        let c2 = wallpaper::with_layout(c1, wallpaper::layout_key(names), layout);
        match layout::shown(layout, false) {
            Err(message) => (c2, Err(message)),
            Ok(selection) => (
                c2,
                Ok(
                    WallpaperView {
                        entries: wallpaper::entries_for(c1.favorites, names, selection),
                        ..bare_response("current"@, Seq::empty())
                    },
                ),
            ),
        }
    }
}

/// The favorites with a wallpaper added or taken out.
pub open spec fn with_favorite(
    favorites: Seq<Seq<char>>,
    target: Seq<char>,
    favorite: bool,
) -> Seq<Seq<char>> {
    if !favorite {
        textlist::without(favorites, target)
    } else if favorites.contains(target) {
        favorites
    } else {
        textlist::placed_in(favorites, target)
    }
}

/// The name of the action that makes a wallpaper a favorite, or not.
pub open spec fn favorite_name(favorite: bool) -> Seq<char> {
    if favorite {
        "favorite"@
    } else {
        "unfavorite"@
    }
}

/// A library in which the wallpaper of an output is a favorite, or not; and the response. The
/// bag is filled afresh.
pub open spec fn favored(
    c: ControlView,
    names: Seq<Seq<char>>,
    index: usize,
    favorite: bool,
    disk: DiskView,
    stored: StoredView,
) -> (ControlView, Result<WallpaperView, Seq<char>>) {
    let action = favorite_name(favorite);
    match wallpaper::index_check(names.len(), index, action) {
        Err(message) => (c, Err(message)),
        Ok(_) => {
            let key = wallpaper::layout_key(names);
            let (c1, l1) = wallpaper::taken(c, names, stored);
            match layout::shown(l1, true) {
                Err(message) => (wallpaper::with_layout(c1, key, l1), Err(message)),
                Ok(_) => {
                    let (c2, l2, reached) = wallpaper::extended(c1, l1, disk);
                    match reached {
                        Err(message) => (wallpaper::with_layout(c2, key, l2), Err(message)),
                        Ok(_) => {
                            let selection = l2.window();
                            if index >= selection.len() {
                                (
                                    c2,
                                    Err(
                                        "failed to locate wall at index "@ + text::decimal_text(
                                            index as nat,
                                        ),
                                    ),
                                )
                            } else {
                                let target = selection[index as int];
                                if favorite && !disk.files.contains(target) {
                                    (
                                        wallpaper::with_layout(c2, key, l2),
                                        Err("favorite target missing: "@ + target),
                                    )
                                } else {
                                    let c3 = control::rebuilt(
                                        ControlView {
                                            favorites: with_favorite(
                                                c2.favorites,
                                                target,
                                                favorite,
                                            ),
                                            ..c2
                                        },
                                        disk.files,
                                    );
                                    (
                                        wallpaper::with_layout(c3, key, l2),
                                        Ok(
                                            WallpaperView {
                                                entries: wallpaper::entries_for(
                                                    c3.favorites,
                                                    names,
                                                    selection,
                                                ),
                                                ..bare_response(
                                                    action,
                                                    target_message(action, index, target),
                                                )
                                            },
                                        ),
                                    )
                                }
                            }
                        },
                    }
                },
            }
        },
    }
}

/// Whether the wallpaper of an output can be made a favorite, or no longer one.
pub open spec fn can_favor(
    c: ControlView,
    names: Seq<Seq<char>>,
    index: usize,
    favorite: bool,
    disk: DiskView,
    stored: StoredView,
) -> bool {
    let (c1, l1) = wallpaper::taken(c, names, stored);
    wallpaper::index_check(names.len(), index, favorite_name(favorite)) is Ok && layout::shown(
        l1,
        true,
    ) is Ok ==> wallpaper::can_fill(c1, l1, disk)
}

fn no_texts() -> (list: Vec<String>)
    ensures
        text::texts(list@) == Seq::<Seq<char>>::empty(),
{
    let list: Vec<String> = Vec::new();
    assert(text::texts(list@) =~= Seq::<Seq<char>>::empty());
    list
}

fn no_entries() -> (list: Vec<WallpaperEntry>)
    ensures
        response::entries_of(list@) == Seq::<EntryView>::empty(),
{
    let list: Vec<WallpaperEntry> = Vec::new();
    assert(response::entries_of(list@) =~= Seq::<EntryView>::empty());
    list
}

fn no_text() -> (text: String)
    ensures
        text@ == Seq::<char>::empty(),
{
    let text = String::new();
    assert(text@ =~= Seq::<char>::empty());
    text
}

impl WallpaperControl {
    /// Reads the library from disk again.
    pub fn rescan_response(&mut self, disk: &Disk) -> (result: Result<WallpaperResponse, String>)
        requires
            drawing::sound_control(old(self)@),
        ensures
            match (result, control::rescanned(old(self)@, disk@)) {
                (Ok(response), Ok((next, added, removed))) => final(self)@ == next && response@
                    == bare_response(
                    "rescan"@,
                    "library\t"@ + text::decimal_text(next.library.len()) + "\tadded\t"@ + text::decimal_text(
                        added,
                    ) + "\tremoved\t"@ + text::decimal_text(removed),
                ),
                (Err(message), Err(expected)) => message@ == expected && final(self)@
                    == old(self)@,
                _ => false,
            },
            drawing::sound_control(final(self)@),
    {
        let (added, removed) = self.rescan_top_level(disk)?;
        assert(text::texts(self.library@).len() == self.library@.len());
        assert(text::texts(self.shuffle_bag@).len() == self.shuffle_bag.len());
        proof {
            drawing::lemma_rescanned(old(self)@, disk@);
            drawing::lemma_on_disk(old(self)@, disk@);
        }
        let count = decimal_usize(self.library.len());
        let new = decimal_usize(added);
        let gone = decimal_usize(removed);
        let mut message = concat5(
            "library\t",
            count.as_str(),
            "\tadded\t",
            new.as_str(),
            "\tremoved\t",
        );
        message.append(gone.as_str());
        Ok(
            WallpaperResponse {
                action: copy_text("rescan"),
                message,
                entries: no_entries(),
                favorites: no_texts(),
            },
        )
    }

    /// The favorites.
    pub fn favorites_response(&self) -> (response: WallpaperResponse)
        ensures
            response@ == (WallpaperView {
                favorites: self@.favorites,
                ..bare_response("favorites"@, Seq::empty())
            }),
    {
        WallpaperResponse {
            action: copy_text("favorites"),
            message: no_text(),
            entries: no_entries(),
            favorites: copy_texts(&self.favorites),
        }
    }

    /// What outputs show.
    pub fn current_response(&mut self, outputs: &Vec<ActiveOutput>, stored: &StoredLayout)
        -> (result: Result<WallpaperResponse, String>)
        requires
            drawing::sound_control(old(self)@),
        ensures
            ({
                let (next, expected) = current(
                    old(self)@,
                    wallpaper::output_names(outputs@),
                    stored@,
                );
                final(self)@ == next && error::agrees_view(result, expected)
            }),
            drawing::sound_control(final(self)@),
    {
        let ghost names = wallpaper::output_names(outputs@);
        assert(names.len() == outputs@.len());
        if outputs.len() == 0 {
            return Err(copy_text("no active outputs"));
        }
        proof {
            wallpaper::lemma_taken(self@, names, stored@);
        }
        let (layout_key, layout) = self.take_layout(outputs, stored);
        proof {
            wallpaper::lemma_with_layout(self@, layout_key@, layout@);
        }
        match layout.current_selection(false) {
            Ok(selection) => {
                let entries = self.entries(outputs, &selection);
                self.put_layout(layout_key, layout);
                Ok(
                    WallpaperResponse {
                        action: copy_text("current"),
                        message: no_text(),
                        entries,
                        favorites: no_texts(),
                    },
                )
            },
            Err(message) => {
                self.put_layout(layout_key, layout);
                Err(message)
            },
        }
    }

    /// Makes the wallpaper of an output a favorite, or no longer one.
    #[verifier::spinoff_prover]
    #[verifier::rlimit(40)]
    pub fn favorite_action(
        &mut self,
        outputs: &Vec<ActiveOutput>,
        index: usize,
        favorite: bool,
        disk: &Disk,
        stored: &StoredLayout,
    ) -> (result: Result<WallpaperResponse, String>)
        requires
            drawing::sound_control(old(self)@),
            can_favor(
                old(self)@,
                wallpaper::output_names(outputs@),
                index,
                favorite,
                disk@,
                stored@,
            ),
        ensures
            ({
                let (next, expected) = favored(
                    old(self)@,
                    wallpaper::output_names(outputs@),
                    index,
                    favorite,
                    disk@,
                    stored@,
                );
                final(self)@ == next && error::agrees_view(result, expected)
            }),
            drawing::sound_control(final(self)@),
    {
        let ghost names = wallpaper::output_names(outputs@);
        assert(names.len() == outputs@.len());
        let action: &str = if favorite {
            "favorite"
        } else {
            "unfavorite"
        };
        validate_output_index(outputs, index, action)?;
        assert(names.len() == outputs.len());
        proof {
            wallpaper::lemma_taken(self@, names, stored@);
        }
        let (layout_key, mut layout) = self.take_layout(outputs, stored);
        match layout.current_selection(true) {
            Ok(_) => {},
            Err(message) => {
                proof {
                    wallpaper::lemma_with_layout(self@, layout_key@, layout@);
                }
                self.put_layout(layout_key, layout);
                return Err(message);
            },
        }
        match self.ensure_window(&mut layout, disk) {
            Ok(()) => {},
            Err(message) => {
                proof {
                    wallpaper::lemma_with_layout(self@, layout_key@, layout@);
                }
                self.put_layout(layout_key, layout);
                return Err(message);
            },
        }
        let selection = layout.get_window();
        assert(text::texts(selection@).len() == selection@.len());
        if index >= selection.len() {
            let digits = decimal_usize(index);
            return Err(concat2("failed to locate wall at index ", digits.as_str()));
        }
        let target = selection[index].as_str();
        assert(target@ == text::texts(selection@)[index as int]);
        let ghost c2 = self@;
        if favorite {
            if !contains_text(&disk.files, target) {
                let message = concat2("favorite target missing: ", target);
                proof {
                    wallpaper::lemma_with_layout(self@, layout_key@, layout@);
                }
                self.put_layout(layout_key, layout);
                return Err(message);
            }
            if !contains_text(&self.favorites, target) {
                place_text(&mut self.favorites, target);
            }
        } else {
            self.favorites = drop_text(&self.favorites, target);
        }
        let ghost middle = self@;
        assert(middle == (ControlView {
            favorites: with_favorite(c2.favorites, target@, favorite),
            ..c2
        }));
        self.rebuild_bag(disk);
        proof {
            assert(self@.bag.len() == self.shuffle_bag.len());
            drawing::lemma_rebuilt(middle, disk@.files);
            wallpaper::lemma_with_layout(self@, layout_key@, layout@);
        }
        let digits = decimal_usize(index);
        let message = concat5(action, "\t", digits.as_str(), "\t", target);
        let entries = self.entries(outputs, &selection);
        self.put_layout(layout_key, layout);
        Ok(
            WallpaperResponse {
                action: copy_text(action),
                message,
                entries,
                favorites: no_texts(),
            },
        )
    }
}

} // verus!
