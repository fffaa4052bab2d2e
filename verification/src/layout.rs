//! The history of what a set of outputs has shown, and the window on it that is shown.

use crate::paths::join;
use crate::text::{copy_text, copy_texts, decimal_usize, lines, parse_usize, text_eq, trim};
use crate::textlist::{join_texts, split_text, text_of_lines};
use crate::paths;
use crate::text;
use crate::textlist;
use vstd::prelude::*;

verus! {

/// The history of what a set of outputs has shown: rows of one wallpaper for each
/// output, and the place of the window in the rows laid end to end.
#[derive(Clone, Debug, PartialEq, Eq)]
pub struct LayoutState {
    pub layout_dir: String,
    pub out_count: usize,
    pub max_history: usize,
    pub history: Vec<Vec<String>>,
    pub idx: usize,
    pub offset: usize,
}

/// A layout, as a mathematical value.
pub struct LayoutView {
    pub layout_dir: Seq<char>,
    pub out_count: usize,
    pub max_history: usize,
    pub history: Seq<Seq<Seq<char>>>,
    pub idx: usize,
    pub offset: usize,
}

/// The texts of the rows of a history.
pub open spec fn rows(history: Seq<Vec<String>>) -> Seq<Seq<Seq<char>>> {
    Seq::new(history.len(), |i: int| text::texts(history[i]@))
}

impl View for LayoutState {
    type V = LayoutView;

    open spec fn view(&self) -> LayoutView {
        LayoutView {
            layout_dir: self.layout_dir@,
            out_count: self.out_count,
            max_history: self.max_history,
            history: rows(self.history@),
            idx: self.idx,
            offset: self.offset,
        }
    }
}

/// The rows of a history laid end to end.
pub open spec fn flat(history: Seq<Seq<Seq<char>>>) -> Seq<Seq<char>>
    decreases history.len(),
{
    if history.len() == 0 {
        Seq::empty()
    } else {
        flat(history.drop_last()) + history.last()
    }
}

/// A number kept to what a size can be.
pub open spec fn saturated(value: int) -> usize {
    if value > usize::MAX {
        usize::MAX
    } else {
        value as usize
    }
}

/// How many rows stand before the window.
pub open spec fn rows_before(idx: usize) -> int {
    if idx == 0 {
        0
    } else {
        idx - 1
    }
}

impl LayoutView {
    /// Where the window starts in the rows laid end to end.
    pub open spec fn start(self) -> int {
        rows_before(self.idx) * self.out_count + self.offset
    }

    /// The window: as many wallpapers as there are outputs, or those that are there.
    pub open spec fn window(self) -> Seq<Seq<char>> {
        let all = flat(self.history);
        let from = if self.start() > all.len() {
            all.len() as int
        } else {
            self.start()
        };
        let to = if from + self.out_count > all.len() {
            all.len() as int
        } else {
            from + self.out_count
        };
        all.subrange(from, to)
    }

    /// Where the window starts, kept to what a size can be.
    pub open spec fn counted_start(self) -> usize {
        saturated(saturated(rows_before(self.idx) * self.out_count) + self.offset)
    }

    /// Whether the history reaches to the end of the window.
    pub open spec fn is_filled(self) -> bool {
        saturated(self.history.len() * self.out_count) >= saturated(
            self.counted_start() + self.out_count,
        )
    }

    /// A layout whose history has grown too long, cut at its old end.
    pub open spec fn pruned(self) -> LayoutView {
        if self.history.len() <= self.max_history {
            self
        } else {
            let dropped = self.history.len() - self.max_history;
            LayoutView {
                history: self.history.skip(dropped),
                idx: if self.idx == 0 {
                    0
                } else if self.idx - dropped < 1 {
                    1
                } else {
                    (self.idx - dropped) as usize
                },
                ..self
            }
        }
    }

    /// A layout with a row added to its history.
    pub open spec fn with_row(self, row: Seq<Seq<char>>) -> LayoutView {
        LayoutView { history: self.history.push(row), ..self }.pruned()
    }

    /// A layout without the rows after the window's.
    pub open spec fn trimmed_rows(self) -> LayoutView {
        if self.history.len() > self.idx {
            LayoutView { history: self.history.take(self.idx as int), ..self }
        } else {
            self
        }
    }

    /// A layout whose history ends in a row, with the window on that row.
    pub open spec fn branched(self, row: Seq<Seq<char>>) -> LayoutView {
        let cut = self.trimmed_rows();
        let history = cut.history.push(row);
        LayoutView { history, idx: history.len() as usize, offset: 0, ..cut }.pruned()
    }
}

/// What the files of a layout hold, where they can be read.
#[derive(Clone, Debug, PartialEq, Eq)]
pub struct StoredLayout {
    pub history: Option<String>,
    pub index: Option<String>,
    pub offset: Option<String>,
}

/// What the files of a layout hold, as a mathematical value.
pub struct StoredView {
    pub history: Option<Seq<char>>,
    pub index: Option<Seq<char>>,
    pub offset: Option<Seq<char>>,
}

impl View for StoredLayout {
    type V = StoredView;

    open spec fn view(&self) -> StoredView {
        StoredView {
            history: text::text_if(self.history),
            index: text::text_if(self.index),
            offset: text::text_if(self.offset),
        }
    }
}

/// The lines of a file, none where it cannot be read.
pub open spec fn stored_lines(content: Option<Seq<char>>) -> Seq<Seq<char>> {
    match content {
        Some(content) => text::lines_of(content),
        None => Seq::empty(),
    }
}

/// The number that a file holds, or a default.
pub open spec fn stored_number(content: Option<Seq<char>>, default: usize) -> usize {
    match content {
        Some(content) => match text::unsigned_value(text::trimmed(content), usize::MAX as nat) {
            Ok(number) => number as usize,
            Err(_) => default,
        },
        None => default,
    }
}

/// The rows of a history that lines hold: a row each, its wallpapers between tabs.
pub open spec fn stored_rows(lines: Seq<Seq<char>>) -> Seq<Seq<Seq<char>>>
    decreases lines.len(),
{
    if lines.len() == 0 {
        Seq::empty()
    } else if lines.last().len() == 0 {
        stored_rows(lines.drop_last())
    } else {
        stored_rows(lines.drop_last()).push(text::split_all(lines.last(), '\t'))
    }
}

/// The layout that files hold.
pub open spec fn stored_layout(
    layout_dir: Seq<char>,
    out_count: usize,
    max_history: usize,
    stored: StoredView,
) -> LayoutView {
    let history = stored_rows(stored_lines(stored.history));
    let index = stored_number(stored.index, 0);
    let offset = stored_number(stored.offset, 0);
    LayoutView {
        layout_dir,
        out_count,
        max_history,
        history,
        idx: if index < 1 && history.len() > 0 {
            1
        } else {
            index
        },
        offset: if out_count > 0 {
            (offset % out_count) as usize
        } else {
            offset
        },
    }
}

/// The lines of a file, none where it cannot be read.
pub fn read_lines(content: &Option<String>) -> (list: Vec<String>)
    ensures
        text::texts(list@) == stored_lines(text::text_if(*content)),
{
    match content {
        Some(content) => lines(content.as_str()),
        None => {
            let none: Vec<String> = Vec::new();
            assert(text::texts(none@) =~= Seq::<Seq<char>>::empty());
            none
        },
    }
}

/// The number that a file holds, or a default.
pub fn read_usize(content: &Option<String>, default: usize) -> (number: usize)
    ensures
        number == stored_number(text::text_if(*content), default),
{
    match content {
        Some(content) => {
            let bare = trim(content.as_str());
            match parse_usize(bare.as_str()) {
                Ok(number) => number,
                Err(_) => default,
            }
        },
        None => default,
    }
}

fn saturating_product(a: usize, b: usize) -> (product: usize)
    ensures
        product == saturated(a * b),
{
    match a.checked_mul(b) {
        Some(product) => product,
        None => usize::MAX,
    }
}

/// A history with a row of its own for each row.
pub fn copy_rows(history: &Vec<Vec<String>>) -> (copy: Vec<Vec<String>>)
    ensures
        rows(copy@) == rows(history@),
{
    let mut copy: Vec<Vec<String>> = Vec::new();
    let mut i: usize = 0;
    while i < history.len()
        invariant
            i <= history@.len(),
            rows(copy@) == rows(history@).take(i as int),
        decreases history@.len() - i,
    {
        let ghost before = copy@;
        copy.push(copy_texts(&history[i]));
        assert(rows(copy@) =~= rows(before).push(text::texts(history@[i as int]@)));
        i = i + 1;
        assert(rows(copy@) =~= rows(history@).take(i as int));
    }
    assert(rows(copy@) =~= rows(history@));
    copy
}

impl LayoutState {
    /// The layout that files hold.
    pub fn load(
        layout_dir: String,
        out_count: usize,
        max_history: usize,
        stored: &StoredLayout,
    ) -> (layout: Self)
        ensures
            layout@ == stored_layout(layout_dir@, out_count, max_history, stored@),
    {
        let list = read_lines(&stored.history);
        let ghost all = text::texts(list@);
        let mut history: Vec<Vec<String>> = Vec::new();
        let mut i: usize = 0;
        assert(all.take(0) =~= Seq::<Seq<char>>::empty());
        assert(rows(history@) =~= Seq::<Seq<Seq<char>>>::empty());
        while i < list.len()
            invariant
                i <= list@.len(),
                all == text::texts(list@),
                rows(history@) == stored_rows(all.take(i as int)),
            decreases list@.len() - i,
        {
            proof {
                reveal_strlit("");
                assert(all.take(i + 1).drop_last() =~= all.take(i as int));
                assert(all.take(i + 1).last() == list@[i as int]@);
                if list@[i as int]@.len() == 0 {
                    assert(list@[i as int]@ =~= ""@);
                }
            }
            if !text_eq(list[i].as_str(), "") {
                let ghost before = history@;
                history.push(split_text(list[i].as_str(), '\t'));
                assert(rows(history@) =~= rows(before).push(text::split_all(list@[i as int]@, '\t')));
            }
            i = i + 1;
        }
        assert(all.take(i as int) =~= all);
        let index: usize = read_usize(&stored.index, 0);
        let offset: usize = read_usize(&stored.offset, 0);
        LayoutState {
            layout_dir,
            out_count,
            max_history,
            idx: if index < 1 && history.len() > 0 {
                1
            } else {
                index
            },
            offset: if out_count > 0 {
                offset % out_count
            } else {
                offset
            },
            history,
        }
    }

    /// A copy of the layout.
    pub fn copy(&self) -> (layout: Self)
        ensures
            layout@ == self@,
    {
        LayoutState {
            layout_dir: copy_text(self.layout_dir.as_str()),
            out_count: self.out_count,
            max_history: self.max_history,
            history: copy_rows(&self.history),
            idx: self.idx,
            offset: self.offset,
        }
    }

    /// Where the window starts in the rows laid end to end.
    pub fn window_start(&self) -> (start: usize)
        ensures
            start == self@.counted_start(),
    {
        let before: usize = if self.idx == 0 {
            0
        } else {
            self.idx - 1
        };
        saturating_product(before, self.out_count).saturating_add(self.offset)
    }

    /// Whether the history reaches to the end of the window.
    pub fn reaches_window(&self) -> (result: bool)
        ensures
            result == self@.is_filled(),
    {
        let end: usize = self.window_start().saturating_add(self.out_count);
        saturating_product(self.history.len(), self.out_count) >= end
    }

    /// The rows of the history laid end to end.
    pub fn flattened_history(&self) -> (list: Vec<String>)
        ensures
            text::texts(list@) == flat(self@.history),
    {
        let ghost all = self@.history;
        let mut list: Vec<String> = Vec::new();
        let mut i: usize = 0;
        assert(all.take(0) =~= Seq::<Seq<Seq<char>>>::empty());
        assert(text::texts(list@) =~= Seq::<Seq<char>>::empty());
        while i < self.history.len()
            invariant
                i <= self.history@.len(),
                all == rows(self.history@),
                text::texts(list@) == flat(all.take(i as int)),
            decreases self.history@.len() - i,
        {
            proof {
                assert(all.take(i + 1).drop_last() =~= all.take(i as int));
                assert(all.take(i + 1).last() == text::texts(self.history@[i as int]@));
            }
            let ghost before = text::texts(list@);
            let mut row = copy_texts(&self.history[i]);
            let ghost added = row@;
            list.append(&mut row);
            assert(text::texts(list@) =~= before + text::texts(added));
            i = i + 1;
        }
        assert(all.take(i as int) =~= all);
        list
    }

    /// The window: as many wallpapers as there are outputs, or those that are there.
    pub fn get_window(&self) -> (list: Vec<String>)
        ensures
            text::texts(list@) == self@.window(),
    {
        let all = self.flattened_history();
        let start: usize = self.window_start();
        let ghost flat_texts = text::texts(all@);
        proof {
            let before = rows_before(self.idx) * self.out_count;
            assert(before >= 0) by (nonlinear_arith)
                requires
                    before == rows_before(self.idx) * self.out_count,
                    rows_before(self.idx) >= 0,
            ;
        }
        let from: usize = if start > all.len() {
            all.len()
        } else {
            start
        };
        let to: usize = if self.out_count > all.len() - from {
            all.len()
        } else {
            from + self.out_count
        };
        let mut list: Vec<String> = Vec::new();
        let mut i: usize = from;
        assert(text::texts(list@) =~= flat_texts.subrange(from as int, from as int));
        while i < to
            invariant
                from <= i <= to <= all@.len(),
                flat_texts == text::texts(all@),
                text::texts(list@) == flat_texts.subrange(from as int, i as int),
            decreases to - i,
        {
            let ghost before = text::texts(list@);
            list.push(copy_text(all[i].as_str()));
            assert(text::texts(list@) =~= before.push(flat_texts[i as int]));
            i = i + 1;
            assert(text::texts(list@) =~= flat_texts.subrange(from as int, i as int));
        }
        list
    }

    /// The window that is shown, if there is one.
    pub fn current_selection(&self, allow_extend: bool) -> (result: Result<Vec<String>, String>)
        ensures
            match (result, shown(self@, allow_extend)) {
                (Ok(list), Ok(expected)) => text::texts(list@) == expected,
                (Err(message), Err(expected)) => message@ == expected,
                _ => false,
            },
    {
        if self.history.len() == 0 || self.idx < 1 {
            return Err(copy_text("no current wallpaper history; run muralctl next first"));
        }
        if !allow_extend && !self.reaches_window() {
            return Err(copy_text("current wallpaper history is incomplete"));
        }
        Ok(self.get_window())
    }

    fn prune_history(&mut self)
        ensures
            final(self)@ == old(self)@.pruned(),
    {
        if self.history.len() <= self.max_history {
            return;
        }
        let dropped: usize = self.history.len() - self.max_history;
        let ghost before = rows(self.history@);
        let mut kept: Vec<Vec<String>> = Vec::new();
        let mut i: usize = dropped;
        assert(rows(kept@) =~= before.subrange(dropped as int, dropped as int));
        while i < self.history.len()
            invariant
                dropped <= i <= self.history@.len(),
                before == rows(self.history@),
                *self == *old(self),
                rows(kept@) == before.subrange(dropped as int, i as int),
            decreases self.history@.len() - i,
        {
            let ghost so_far = rows(kept@);
            kept.push(copy_texts(&self.history[i]));
            assert(rows(kept@) =~= so_far.push(before[i as int]));
            i = i + 1;
            assert(rows(kept@) =~= before.subrange(dropped as int, i as int));
        }
        assert(rows(kept@) =~= before.skip(dropped as int));
        self.history = kept;
        if self.idx > 0 {
            self.idx = if self.idx > dropped {
                self.idx - dropped
            } else {
                1
            };
        }
    }

    /// Adds a row to the history.
    pub fn append_set(&mut self, selection: Vec<String>)
        ensures
            final(self)@ == old(self)@.with_row(text::texts(selection@)),
    {
        let ghost before = rows(self.history@);
        self.history.push(selection);
        assert(rows(self.history@) =~= before.push(text::texts(selection@)));
        self.prune_history();
    }

    fn trim_history(&mut self)
        ensures
            final(self)@ == old(self)@.trimmed_rows(),
    {
        if self.history.len() > self.idx {
            let ghost before = rows(self.history@);
            self.history.truncate(self.idx);
            assert(rows(self.history@) =~= before.take(self.idx as int));
        }
    }

    /// Ends the history in a row, and moves the window to it.
    pub fn branch(&mut self, selection: Vec<String>)
        ensures
            final(self)@ == old(self)@.branched(text::texts(selection@)),
    {
        self.trim_history();
        let ghost before = rows(self.history@);
        self.history.push(selection);
        assert(rows(self.history@) =~= before.push(text::texts(selection@)));
        self.idx = self.history.len();
        self.offset = 0;
        self.prune_history();
    }

    /// The files of the layout and what they hold, in the order in which they are written.
    pub fn files(&self) -> (list: Vec<(String, String)>)
        ensures
            file_entries(list@) == layout_files(self@),
    {
        let ghost all = self@.history;
        let mut list: Vec<String> = Vec::new();
        let mut i: usize = 0;
        assert(text::texts(list@) =~= row_texts(all.take(0)));
        while i < self.history.len()
            invariant
                i <= self.history@.len(),
                all == rows(self.history@),
                text::texts(list@) == row_texts(all.take(i as int)),
            decreases self.history@.len() - i,
        {
            let ghost before = text::texts(list@);
            list.push(join_texts(&self.history[i], "\t"));
            assert(text::texts(list@) =~= before.push(textlist::joined_by(all[i as int], "\t"@)));
            i = i + 1;
            assert(text::texts(list@) =~= row_texts(all.take(i as int)));
        }
        assert(all.take(i as int) =~= all);
        let mut index = decimal_usize(self.idx);
        index.append("\n");
        let mut offset = decimal_usize(self.offset);
        offset.append("\n");
        let dir = self.layout_dir.as_str();
        let files = vec![
            (join(dir, "history"), text_of_lines(&list)),
            (join(dir, "index"), index),
            (join(dir, "offset"), offset),
        ];
        assert(file_entries(files@) =~= layout_files(self@));
        files
    }
}

/// The window that is shown: it must be there in full, unless it can be extended.
pub open spec fn shown(layout: LayoutView, allow_extend: bool) -> Result<
    Seq<Seq<char>>,
    Seq<char>,
> {
    if layout.history.len() == 0 || layout.idx < 1 {
        Err("no current wallpaper history; run muralctl next first"@)
    } else if !allow_extend && !layout.is_filled() {
        Err("current wallpaper history is incomplete"@)
    } else {
        Ok(layout.window())
    }
}

/// The rows of a history as texts, the wallpapers of each between tabs.
pub open spec fn row_texts(history: Seq<Seq<Seq<char>>>) -> Seq<Seq<char>> {
    Seq::new(history.len(), |i: int| textlist::joined_by(history[i], "\t"@))
}

/// The paths of files and what they hold.
pub open spec fn file_entries(list: Seq<(String, String)>) -> Seq<(Seq<char>, Seq<char>)> {
    Seq::new(list.len(), |i: int| (list[i].0@, list[i].1@))
}

/// The files of a layout and what they hold.
pub open spec fn layout_files(layout: LayoutView) -> Seq<(Seq<char>, Seq<char>)> {
    seq![
        (paths::joined(layout.layout_dir, "history"@), textlist::lines_text(row_texts(layout.history))),
        (paths::joined(layout.layout_dir, "index"@), text::decimal_text(layout.idx as nat) + "\n"@),
        (paths::joined(layout.layout_dir, "offset"@), text::decimal_text(layout.offset as nat) + "\n"@),
    ]
}

} // verus!
