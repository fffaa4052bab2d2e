//! Which wallpapers the preview of a canvas transition shows.

use crate::change::{PreparedView, PreparedWallpaperChange};
use crate::control::{ControlView, WallpaperControl};
use crate::text::{
    concat2, concat3, concat5, contains_text, copy_text, copy_texts, decimal_usize,
    text_eq,
};
use crate::layout;
use crate::text;
use vstd::prelude::*;

verus! {

/// The wallpapers of a preview and where it starts in the history.
#[derive(Clone, Debug, PartialEq, Eq)]
pub struct CanvasPreviewWindow {
    pub paths: Vec<String>,
    pub start_index: usize,
}

// ---------------------------------------------------------------------------
// The bag

/// The next wallpapers of the bag.
pub open spec fn bag_ahead(c: ControlView, count: usize) -> Seq<Seq<char>> {
    let from = if c.pos > c.bag.len() {
        c.bag.len() as int
    } else {
        c.pos as int
    };
    let to = if from + count > c.bag.len() {
        c.bag.len() as int
    } else {
        from + count
    };
    c.bag.subrange(from, to)
}

/// Wallpapers of the bag around its place, as a ring; or the first of the library where the
/// bag is empty.
pub open spec fn bag_around(c: ControlView, count: usize) -> Seq<Seq<char>> {
    let len = c.bag.len() as int;
    if len == 0 {
        c.library.take(
            if count > c.library.len() {
                c.library.len() as int
            } else {
                count as int
            },
        )
    } else {
        let back = if c.pos < count / 2 {
            0
        } else {
            c.pos - count / 2
        };
        let start = if back > len {
            len
        } else {
            back
        };
        Seq::new(
            if count as int > len {
                len as nat
            } else {
                count as nat
            },
            |i: int| c.bag[(start + i) % len],
        )
    }
}

impl WallpaperControl {
    fn peek_bag_forward(&self, count: usize) -> (list: Vec<String>)
        ensures
            text::texts(list@) == bag_ahead(self@, count),
    {
        let ghost bag = text::texts(self.shuffle_bag@);
        let len: usize = self.shuffle_bag.len();
        let from: usize = if self.shuffle_pos > len {
            len
        } else {
            self.shuffle_pos
        };
        let to: usize = if count > len - from {
            len
        } else {
            from + count
        };
        let mut list: Vec<String> = Vec::new();
        let mut i: usize = from;
        assert(text::texts(list@) =~= bag.subrange(from as int, from as int));
        while i < to
            invariant
                from <= i <= to <= self.shuffle_bag@.len(),
                bag == text::texts(self.shuffle_bag@),
                text::texts(list@) == bag.subrange(from as int, i as int),
            decreases to - i,
        {
            let ghost before = text::texts(list@);
            list.push(copy_text(self.shuffle_bag[i].as_str()));
            assert(text::texts(list@) =~= before.push(bag[i as int]));
            i = i + 1;
            assert(text::texts(list@) =~= bag.subrange(from as int, i as int));
        }
        list
    }

    fn peek_bag_window(&self, count: usize) -> (list: Vec<String>)
        ensures
            text::texts(list@) == bag_around(self@, count),
    {
        let ghost all = bag_around(self@, count);
        let mut list: Vec<String> = Vec::new();
        let mut i: usize = 0;
        let len: usize = self.shuffle_bag.len();
        assert(text::texts(self.shuffle_bag@).len() == len);
        assert(text::texts(self.library@).len() == self.library@.len());
        if len == 0 {
            let wanted: usize = if count > self.library.len() {
                self.library.len()
            } else {
                count
            };
            assert(text::texts(list@) =~= all.take(0));
            while i < wanted
                invariant
                    i <= wanted <= self.library@.len(),
                    all == text::texts(self.library@).take(wanted as int),
                    text::texts(list@) == all.take(i as int),
                decreases wanted - i,
            {
                let ghost before = text::texts(list@);
                list.push(copy_text(self.library[i].as_str()));
                assert(text::texts(list@) =~= before.push(all[i as int]));
                i = i + 1;
                assert(text::texts(list@) =~= all.take(i as int));
            }
            assert(all.take(i as int) =~= all);
            return list;
        }
        let half: usize = count / 2;
        let back: usize = if self.shuffle_pos < half {
            0
        } else {
            self.shuffle_pos - half
        };
        let start: usize = if back > len {
            len
        } else {
            back
        };
        let wanted: usize = if count > len {
            len
        } else {
            count
        };
        let first: usize = if start == len {
            0
        } else {
            start
        };
        assert(text::texts(list@) =~= all.take(0));
        while i < wanted
            invariant
                i <= wanted <= len,
                0 < len == self.shuffle_bag@.len(),
                start <= len,
                first == (if start == len {
                    0
                } else {
                    start
                }),
                wanted == all.len(),
                forall|k: int|
                    0 <= k < all.len() ==> #[trigger] all[k] == text::texts(self.shuffle_bag@)[(start
                        + k) % (len as int)],
                text::texts(list@) == all.take(i as int),
            decreases wanted - i,
        {
            let place: usize = if first < len - i {
                first + i
            } else {
                first - (len - i)
            };
            proof {
                lemma_ring(start as int, i as int, len as int, place as int);
            }
            let ghost before = text::texts(list@);
            list.push(copy_text(self.shuffle_bag[place].as_str()));
            assert(text::texts(list@) =~= before.push(all[i as int]));
            i = i + 1;
            assert(text::texts(list@) =~= all.take(i as int));
        }
        assert(all.take(i as int) =~= all);
        list
    }

    /// The next wallpapers of the bag.
    pub fn upcoming_shuffle_paths(&self, count: usize) -> (list: Vec<String>)
        ensures
            text::texts(list@) == bag_ahead(self@, count),
    {
        self.peek_bag_forward(count)
    }
}

proof fn lemma_ring(start: int, i: int, len: int, place: int)
    requires
        0 <= start <= len,
        0 <= i < len,
        0 <= place < len,
        place == start + i || place == start + i - len || place == start + i - 2 * len,
    ensures
        (start + i) % len == place,
{
    assert((start + i) % len == place) by (nonlinear_arith)
        requires
            0 <= start <= len,
            0 <= i < len,
            0 <= place < len,
            place == start + i || place == start + i - len || place == start + i - 2 * len,
    ;
}

// ---------------------------------------------------------------------------
// A preview with required wallpapers

/// The place of the last wallpaper of a preview that is not required, or -1.
pub open spec fn last_spare(preview: Seq<Seq<char>>, required: Seq<Seq<char>>) -> int
    decreases preview.len(),
{
    if preview.len() == 0 {
        -1
    } else if !required.contains(preview.last()) {
        preview.len() - 1
    } else {
        last_spare(preview.drop_last(), required)
    }
}

/// A preview with a required wallpaper: added where there is room, else in place of the last
/// that is not required.
pub open spec fn with_required(
    preview: Seq<Seq<char>>,
    required: Seq<Seq<char>>,
    path: Seq<char>,
    limit: nat,
) -> Seq<Seq<char>> {
    if path.len() == 0 || preview.contains(path) {
        preview
    } else if preview.len() < limit {
        preview.push(path)
    } else if last_spare(preview, required) >= 0 {
        preview.update(last_spare(preview, required), path)
    } else {
        preview
    }
}

/// A preview with the first of the required wallpapers.
pub open spec fn with_all_required(
    preview: Seq<Seq<char>>,
    required: Seq<Seq<char>>,
    limit: nat,
    n: nat,
) -> Seq<Seq<char>>
    decreases n,
{
    if n == 0 || n > required.len() {
        preview
    } else {
        with_required(
            with_all_required(preview, required, limit, (n - 1) as nat),
            required,
            required[n - 1],
            limit,
        )
    }
}

/// The wallpapers of a list that are there.
pub open spec fn nonempty(list: Seq<Seq<char>>) -> Seq<Seq<char>> {
    list.filter(|path: Seq<char>| path.len() > 0)
}

/// How many wallpapers a preview has at most.
pub open spec fn preview_limit(tile_count: usize, required: nat) -> nat {
    if tile_count as nat >= required && tile_count >= 1 {
        tile_count as nat
    } else if required >= 1 {
        required
    } else {
        1
    }
}

/// The preview of so many tiles, with the required wallpapers in it.
pub open spec fn preview_of(c: ControlView, required: Seq<Seq<char>>, tile_count: usize) -> Seq<
    Seq<char>,
> {
    let limit = preview_limit(tile_count, required.len());
    let filled = with_all_required(
        bag_around(c, limit as usize),
        required,
        limit,
        required.len(),
    );
    let all = if filled.len() == 0 {
        nonempty(required)
    } else {
        filled
    };
    all.take(
        if all.len() > limit {
            limit as int
        } else {
            all.len() as int
        },
    )
}

proof fn lemma_last_spare(preview: Seq<Seq<char>>, required: Seq<Seq<char>>)
    ensures
        ({
            let place = last_spare(preview, required);
            if place < 0 {
                forall|k: int|
                    0 <= k < preview.len() ==> required.contains(#[trigger] preview[k])
            } else {
                place < preview.len() && !required.contains(preview[place])
            }
        }),
    decreases preview.len(),
{
    if preview.len() > 0 {
        let head = preview.drop_last();
        lemma_last_spare(head, required);
        if last_spare(preview, required) < 0 {
            assert forall|k: int| 0 <= k < preview.len() implies required.contains(
                #[trigger] preview[k],
            ) by {
                if k < head.len() {
                    assert(required.contains(head[k]));
                }
            }
        }
    }
}

/// A preview that holds nothing but required wallpapers, and none of them twice, has room for
/// another one.
proof fn lemma_spare_is_left(
    preview: Seq<Seq<char>>,
    required: Seq<Seq<char>>,
    path: Seq<char>,
)
    requires
        preview.no_duplicates(),
        required.contains(path),
        !preview.contains(path),
        preview.len() >= required.len(),
    ensures
        last_spare(preview, required) >= 0,
{
    lemma_last_spare(preview, required);
    if last_spare(preview, required) < 0 {
        let held = preview.to_set();
        let wanted = required.to_set();
        preview.unique_seq_to_set();
        required.lemma_cardinality_of_set();
        assert forall|p: Seq<char>| held.insert(path).contains(p) implies wanted.contains(p) by {
            if held.contains(p) {
                let k = choose|k: int| 0 <= k < preview.len() && preview[k] == p;
                assert(required.contains(preview[k]));
            }
        }
        assert(held.insert(path).subset_of(wanted));
        vstd::set_lib::lemma_len_subset(held.insert(path), wanted);
    }
}

proof fn lemma_required_stay(
    preview: Seq<Seq<char>>,
    required: Seq<Seq<char>>,
    limit: nat,
    n: nat,
)
    requires
        preview.no_duplicates(),
        preview.len() <= limit,
        required.len() <= limit,
        n <= required.len(),
    ensures
        with_all_required(preview, required, limit, n).no_duplicates(),
        with_all_required(preview, required, limit, n).len() <= limit,
        forall|k: int|
            0 <= k < n && (#[trigger] required[k]).len() > 0 ==> with_all_required(
                preview,
                required,
                limit,
                n,
            ).contains(required[k]),
    decreases n,
{
    if n > 0 {
        let before = with_all_required(preview, required, limit, (n - 1) as nat);
        let after = with_all_required(preview, required, limit, n);
        let path = required[n - 1];
        lemma_required_stay(preview, required, limit, (n - 1) as nat);
        lemma_last_spare(before, required);
        let place = last_spare(before, required);
        if path.len() > 0 && !before.contains(path) {
            if before.len() >= limit {
                assert(required.contains(path));
                lemma_spare_is_left(before, required, path);
                assert(after[place] == path);
            } else {
                assert(after[before.len() as int] == path);
            }
        }
        assert forall|k: int| 0 <= k < n && (#[trigger] required[k]).len() > 0 implies after.contains(
            required[k],
        ) by {
            if k < n - 1 {
                let at = choose|at: int| 0 <= at < before.len() && before[at] == required[k];
                if at == place && before.len() >= limit {
                    assert(required.contains(required[k]));
                }
                assert(after[at] == required[k] || !(path.len() > 0 && !before.contains(path)));
                assert(after.contains(required[k]));
            }
        }
    }
}

/// A preview holds every required wallpaper and no more wallpapers than it may, where the bag
/// holds none of the wallpapers around its place twice.
pub proof fn law_preview_holds_the_required(
    c: ControlView,
    required: Seq<Seq<char>>,
    tile_count: usize,
    k: int,
)
    requires
        0 <= k < required.len(),
        required[k].len() > 0,
        required.len() <= usize::MAX,
        bag_around(c, preview_limit(tile_count, required.len()) as usize).no_duplicates(),
    ensures
        preview_of(c, required, tile_count).contains(required[k]),
        preview_of(c, required, tile_count).len() <= preview_limit(tile_count, required.len()),
{
    let limit = preview_limit(tile_count, required.len());
    let around = bag_around(c, limit as usize);
    lemma_required_stay(around, required, limit, required.len());
    let filled = with_all_required(around, required, limit, required.len());
    assert(filled.contains(required[k]));
    assert(filled.take(filled.len() as int) =~= filled);
}

fn find_last_spare(preview: &Vec<String>, required: &Vec<String>) -> (place: Option<usize>)
    ensures
        match place {
            Some(place) => place == last_spare(
                text::texts(preview@),
                text::texts(required@),
            ) && place
                < preview@.len(),
            None => last_spare(text::texts(preview@), text::texts(required@)) < 0,
        },
{
    let ghost all = text::texts(preview@);
    let mut n: usize = preview.len();
    assert(all.take(n as int) =~= all);
    while n > 0
        invariant
            n <= preview@.len(),
            all == text::texts(preview@),
            last_spare(all, text::texts(required@)) == last_spare(
                all.take(n as int),
                text::texts(required@),
            ),
        decreases n,
    {
        assert(all.take(n as int).last() == preview@[n - 1]@);
        assert(all.take(n as int).drop_last() =~= all.take(n - 1));
        if !contains_text(required, preview[n - 1].as_str()) {
            return Some(n - 1);
        }
        n = n - 1;
    }
    None
}

impl WallpaperControl {
    /// The preview of so many tiles, with the required wallpapers in it.
    pub fn preview_window(&self, required: &Vec<String>, tile_count: usize) -> (list: Vec<String>)
        ensures
            text::texts(list@) == preview_of(self@, text::texts(required@), tile_count),
    {
        let ghost wanted = text::texts(required@);
        assert(wanted.len() == required@.len());
        let more: usize = if tile_count >= required.len() {
            tile_count
        } else {
            required.len()
        };
        let limit: usize = if more >= 1 {
            more
        } else {
            1
        };
        let mut preview = self.peek_bag_window(limit);
        let ghost start = text::texts(preview@);
        let mut i: usize = 0;
        while i < required.len()
            invariant
                i <= required@.len(),
                wanted == text::texts(required@),
                text::texts(preview@) == with_all_required(start, wanted, limit as nat, i as nat),
            decreases required@.len() - i,
        {
            let ghost before = text::texts(preview@);
            proof {
                reveal_strlit("");
                if required@[i as int]@.len() == 0 {
                    assert(required@[i as int]@ =~= ""@);
                }
                assert(before.len() == preview@.len());
            }
            if !text_eq(required[i].as_str(), "") && !contains_text(
                &preview,
                required[i].as_str(),
            ) {
                if preview.len() < limit {
                    preview.push(copy_text(required[i].as_str()));
                    assert(text::texts(preview@) =~= before.push(wanted[i as int]));
                } else if let Some(place) = find_last_spare(&preview, required) {
                    preview.set(place, copy_text(required[i].as_str()));
                    assert(text::texts(preview@) =~= before.update(place as int, wanted[i as int]));
                }
            }
            i = i + 1;
        }
        assert(text::texts(preview@).len() == preview@.len());
        if preview.len() == 0 {
            let ghost keep = |path: Seq<char>| path.len() > 0;
            let mut k: usize = 0;
            proof {
                reveal(Seq::filter);
                assert(wanted.take(0) =~= Seq::<Seq<char>>::empty());
                assert(text::texts(preview@) =~= wanted.take(0).filter(keep));
            }
            while k < required.len()
                invariant
                    k <= required@.len(),
                    wanted == text::texts(required@),
                    keep == (|path: Seq<char>| path.len() > 0),
                    text::texts(preview@) == wanted.take(k as int).filter(keep),
                decreases required@.len() - k,
            {
                proof {
                    reveal(Seq::filter);
                    reveal_strlit("");
                    assert(wanted.take(k + 1).drop_last() =~= wanted.take(k as int));
                    assert(wanted.take(k + 1).last() == required@[k as int]@);
                    if required@[k as int]@.len() == 0 {
                        assert(required@[k as int]@ =~= ""@);
                    }
                }
                if !text_eq(required[k].as_str(), "") {
                    let ghost before = text::texts(preview@);
                    preview.push(copy_text(required[k].as_str()));
                    assert(text::texts(preview@) =~= before.push(required@[k as int]@));
                }
                k = k + 1;
            }
            assert(wanted.take(k as int) =~= wanted);
        }
        let ghost all = text::texts(preview@);
        assert(all.len() == preview@.len());
        if preview.len() > limit {
            preview.truncate(limit);
        }
        assert(text::texts(preview@) =~= all.take(
            if all.len() > limit {
                limit as int
            } else {
                all.len() as int
            },
        ));
        preview
    }
}

// ---------------------------------------------------------------------------
// A preview of the history

/// How far a place is from another.
pub open spec fn apart(a: int, b: int) -> int {
    if a < b {
        b - a
    } else {
        a - b
    }
}

/// The place of a path in a list that is closest to another place, the first of two.
pub open spec fn closest(paths: Seq<Seq<char>>, path: Seq<char>, anchor: int) -> Option<int>
    decreases paths.len(),
{
    if paths.len() == 0 {
        None
    } else {
        let before = closest(paths.drop_last(), path, anchor);
        if paths.last() != path {
            before
        } else {
            match before {
                None => Some(paths.len() - 1),
                Some(place) => if apart(paths.len() - 1, anchor) < apart(place, anchor) {
                    Some(paths.len() - 1)
                } else {
                    Some(place)
                },
            }
        }
    }
}

/// The closest place of a path holds the path, and no other place of it is closer.
pub proof fn law_closest(paths: Seq<Seq<char>>, path: Seq<char>, anchor: int)
    ensures
        match closest(paths, path, anchor) {
            Some(place) => {
                &&& 0 <= place < paths.len()
                &&& paths[place] == path
                &&& forall|k: int|
                    0 <= k < paths.len() && #[trigger] paths[k] == path ==> apart(place, anchor)
                        <= apart(k, anchor)
                &&& forall|k: int|
                    0 <= k < place && #[trigger] paths[k] == path ==> apart(place, anchor)
                        < apart(k, anchor)
            },
            None => !paths.contains(path),
        },
    decreases paths.len(),
{
    if paths.len() > 0 {
        let head = paths.drop_last();
        law_closest(head, path, anchor);
        assert(forall|k: int| 0 <= k < head.len() ==> #[trigger] paths[k] == head[k]);
        if closest(paths, path, anchor) is None {
            if paths.contains(path) {
                let k = choose|k: int| 0 <= k < paths.len() && paths[k] == path;
                assert(head[k] == path);
            }
        }
    }
}

/// A range of the history that also covers the closest places of paths, or the message
/// that one of them is not there.
pub open spec fn covering(
    history: Seq<Seq<char>>,
    paths: Seq<Seq<char>>,
    anchor: int,
    range: (int, int),
    absent: Seq<char>,
) -> Result<(int, int), Seq<char>>
    decreases paths.len(),
{
    if paths.len() == 0 {
        Ok(range)
    } else {
        match covering(history, paths.drop_last(), anchor, range, absent) {
            Err(message) => Err(message),
            Ok((start, end)) => if paths.last().len() == 0 {
                Ok((start, end))
            } else {
                match closest(history, paths.last(), anchor) {
                    None => Err(absent + paths.last()),
                    Some(place) => Ok(
                        (
                            if place < start {
                                place
                            } else {
                                start
                            },
                            if place + 1 > end {
                                place + 1
                            } else {
                                end
                            },
                        ),
                    ),
                }
            },
        }
    }
}

proof fn lemma_covering_error_stays(
    history: Seq<Seq<char>>,
    paths: Seq<Seq<char>>,
    anchor: int,
    range: (int, int),
    absent: Seq<char>,
    n: int,
)
    requires
        0 <= n <= paths.len(),
        covering(history, paths.take(n), anchor, range, absent) is Err,
    ensures
        covering(history, paths, anchor, range, absent) == covering(
            history,
            paths.take(n),
            anchor,
            range,
            absent,
        ),
    decreases paths.len() - n,
{
    if n == paths.len() {
        assert(paths.take(n) =~= paths);
    } else {
        assert(paths.take(n + 1).drop_last() =~= paths.take(n));
        lemma_covering_error_stays(history, paths, anchor, range, absent, n + 1);
    }
}

/// The first path of a list that is there and that another list does not hold.
pub open spec fn first_absent(paths: Seq<Seq<char>>, list: Seq<Seq<char>>) -> Option<Seq<char>>
    decreases paths.len(),
{
    if paths.len() == 0 {
        None
    } else if paths[0].len() > 0 && !list.contains(paths[0]) {
        Some(paths[0])
    } else {
        first_absent(paths.skip(1), list)
    }
}

/// The smaller of two numbers.
pub open spec fn smaller(a: int, b: int) -> int {
    if a < b {
        a
    } else {
        b
    }
}

/// The larger of two numbers.
pub open spec fn larger(a: int, b: int) -> int {
    if a < b {
        b
    } else {
        a
    }
}

/// The message that a preview cannot be placed in the history.
pub open spec fn no_positions() -> Seq<char> {
    "canvas transition requires captured wallpaper history positions; prepare the wallpaper action with a canvas transition"@
}

/// The range of the history that a preview has to show: the windows before and after a
/// change, and the wallpapers that are shown before and after it.
pub open spec fn required_range(
    history: Seq<Seq<char>>,
    outputs: int,
    before: usize,
    after: usize,
    current: Seq<Seq<char>>,
    selection: Seq<Seq<char>>,
) -> Result<(int, int), Seq<char>> {
    let len = history.len() as int;
    let from = smaller(before as int, len);
    let to = smaller(after as int, len);
    let start = smaller(from, to);
    let end = larger(
        larger(smaller(from + outputs, len), smaller(to + outputs, len)),
        start,
    );
    match covering(
        history,
        current,
        from,
        (start, end),
        "canvas transition requires the current wallpaper to be in mural history: "@,
    ) {
        Err(message) => Err(message),
        Ok(range) => covering(
            history,
            selection,
            to,
            range,
            "canvas transition target is not in mural history: "@,
        ),
    }
}

/// The preview of a range of the history in so many tiles: the range in the middle, and
/// the next wallpapers of the bag behind the end of the history. It must hold every
/// wallpaper that is shown before or after the change.
pub open spec fn preview_of_range(
    c: ControlView,
    history: Seq<Seq<char>>,
    range: (int, int),
    tiles: int,
    shown: Seq<Seq<char>>,
) -> Result<(Seq<Seq<char>>, int), Seq<char>> {
    let need = range.1 - range.0;
    if need > tiles {
        Err(
            "canvas transition needs "@ + text::decimal_text(need as nat)
                + " ordered history tile(s), but tile_count is "@ + text::decimal_text(tiles as nat)
                + "; increase transition.canvas.tile_count or transition.canvas.max_tile_count"@,
        )
    } else {
        let start = larger(range.0 - (tiles - need) / 2, 0);
        let past = history.subrange(start, smaller(start + tiles, history.len() as int));
        let preview = past + bag_ahead(c, (tiles - past.len()) as usize);
        match first_absent(shown, preview) {
            Some(path) => Err(
                "canvas transition could not fit required wallpaper in preview window: "@ + path
                    + "; increase transition.canvas.tile_count or transition.canvas.max_tile_count"@,
            ),
            None => Ok((preview, start)),
        }
    }
}

/// The preview of a change in so many tiles.
pub open spec fn canvas_window(
    c: ControlView,
    change: PreparedView,
    current: Seq<Seq<char>>,
    tile_count: usize,
) -> Result<(Seq<Seq<char>>, int), Seq<char>> {
    let tiles = larger(tile_count as int, 1);
    let history = layout::flat(change.layout.history);
    if history.len() == 0 {
        Err("canvas transition requires wallpaper history; run a wallpaper action first"@)
    } else {
        match (change.canvas_before_start, change.canvas_after_start) {
            (Some(before), Some(after)) => match required_range(
                history,
                larger(change.layout.out_count as int, 1),
                before,
                after,
                current,
                change.selection,
            ) {
                Err(message) => Err(message),
                Ok(range) => preview_of_range(
                    c,
                    history,
                    range,
                    tiles,
                    current + change.selection,
                ),
            },
            _ => Err(no_positions()),
        }
    }
}

fn closest_path_index(paths: &Vec<String>, path: &str, anchor: usize) -> (place: Option<usize>)
    ensures
        match (place, closest(text::texts(paths@), path@, anchor as int)) {
            (Some(place), Some(expected)) => place == expected && place < paths@.len(),
            (None, None) => true,
            _ => false,
        },
{
    let ghost all = text::texts(paths@);
    let mut best: Option<usize> = None;
    let mut i: usize = 0;
    assert(all.take(0) =~= Seq::<Seq<char>>::empty());
    while i < paths.len()
        invariant
            i <= paths@.len(),
            all == text::texts(paths@),
            match (best, closest(all.take(i as int), path@, anchor as int)) {
                (Some(place), Some(expected)) => place == expected && place < i,
                (None, None) => true,
                _ => false,
            },
        decreases paths@.len() - i,
    {
        assert(all.take(i + 1).drop_last() =~= all.take(i as int));
        assert(all.take(i + 1).last() == paths@[i as int]@);
        if text_eq(paths[i].as_str(), path) {
            let closer = match best {
                None => true,
                Some(place) => {
                    let new: usize = if i < anchor {
                        anchor - i
                    } else {
                        i - anchor
                    };
                    let known: usize = if place < anchor {
                        anchor - place
                    } else {
                        place - anchor
                    };
                    new < known
                },
            };
            if closer {
                best = Some(i);
            }
        }
        i = i + 1;
    }
    assert(all.take(i as int) =~= all);
    best
}

fn cover(
    history: &Vec<String>,
    paths: &Vec<String>,
    anchor: usize,
    from: usize,
    to: usize,
    absent: &str,
) -> (result: Result<(usize, usize), String>)
    requires
        from <= to <= history@.len(),
    ensures
        match (
            result,
            covering(
                text::texts(history@),
                text::texts(paths@),
                anchor as int,
                (from as int, to as int),
                absent@,
            ),
        ) {
            (Ok((start, end)), Ok((first, last))) => start == first && end == last && start <= end
                <= history@.len(),
            (Err(message), Err(expected)) => message@ == expected,
            _ => false,
        },
{
    let ghost all = text::texts(paths@);
    let ghost range = (from as int, to as int);
    let mut start: usize = from;
    let mut end: usize = to;
    let mut i: usize = 0;
    assert(all.take(0) =~= Seq::<Seq<char>>::empty());
    while i < paths.len()
        invariant
            i <= paths@.len(),
            all == text::texts(paths@),
            range == (from as int, to as int),
            start <= end <= history@.len(),
            covering(
                text::texts(history@),
                all.take(i as int),
                anchor as int,
                range,
                absent@,
            ) == Ok::<
                (int, int),
                Seq<char>,
            >((start as int, end as int)),
        decreases paths@.len() - i,
    {
        proof {
            reveal_strlit("");
            assert(all.take(i + 1).drop_last() =~= all.take(i as int));
            assert(all.take(i + 1).last() == paths@[i as int]@);
            if paths@[i as int]@.len() == 0 {
                assert(paths@[i as int]@ =~= ""@);
            }
        }
        if !text_eq(paths[i].as_str(), "") {
            match closest_path_index(history, paths[i].as_str(), anchor) {
                None => {
                    proof {
                        lemma_covering_error_stays(
                            text::texts(history@),
                            all,
                            anchor as int,
                            range,
                            absent@,
                            i + 1,
                        );
                    }
                    return Err(concat2(absent, paths[i].as_str()));
                },
                Some(place) => {
                    if place < start {
                        start = place;
                    }
                    assert(history.len() == history@.len());
                    if place + 1 > end {
                        end = place + 1;
                    }
                },
            }
        }
        i = i + 1;
    }
    assert(all.take(i as int) =~= all);
    Ok((start, end))
}

fn find_absent(paths: &Vec<String>, list: &Vec<String>) -> (result: Option<String>)
    ensures
        text::text_if(result) == first_absent(text::texts(paths@), text::texts(list@)),
{
    let ghost all = text::texts(paths@);
    let mut i: usize = 0;
    assert(all.skip(0) =~= all);
    while i < paths.len()
        invariant
            i <= paths@.len(),
            all == text::texts(paths@),
            first_absent(all.skip(i as int), text::texts(list@)) == first_absent(all, text::texts(list@)),
        decreases paths@.len() - i,
    {
        proof {
            reveal_strlit("");
            assert(all.skip(i as int)[0] == paths@[i as int]@);
            assert(all.skip(i as int).skip(1) =~= all.skip(i + 1));
            if paths@[i as int]@.len() == 0 {
                assert(paths@[i as int]@ =~= ""@);
            }
        }
        if !text_eq(paths[i].as_str(), "") && !contains_text(list, paths[i].as_str()) {
            return Some(copy_text(paths[i].as_str()));
        }
        i = i + 1;
    }
    assert(all.skip(i as int) =~= Seq::<Seq<char>>::empty());
    None
}

fn least(a: usize, b: usize) -> (result: usize)
    ensures
        result == smaller(a as int, b as int),
{
    if a < b {
        a
    } else {
        b
    }
}

fn most(a: usize, b: usize) -> (result: usize)
    ensures
        result == larger(a as int, b as int),
{
    if a < b {
        b
    } else {
        a
    }
}

impl WallpaperControl {
    fn preview_range(
        &self,
        history: &Vec<String>,
        start: usize,
        end: usize,
        tiles: usize,
        shown: &Vec<String>,
    ) -> (result: Result<CanvasPreviewWindow, String>)
        requires
            start <= end <= history@.len(),
        ensures
            match (
                result,
                preview_of_range(
                    self@,
                    text::texts(history@),
                    (start as int, end as int),
                    tiles as int,
                    text::texts(shown@),
                ),
            ) {
                (Ok(window), Ok((paths, from))) => text::texts(window.paths@) == paths
                    && window.start_index == from,
                (Err(message), Err(expected)) => message@ == expected,
                _ => false,
            },
    {
        let need: usize = end - start;
        if need > tiles {
            let needed = decimal_usize(need);
            let given = decimal_usize(tiles);
            return Err(
                concat5(
                    "canvas transition needs ",
                    needed.as_str(),
                    " ordered history tile(s), but tile_count is ",
                    given.as_str(),
                    "; increase transition.canvas.tile_count or transition.canvas.max_tile_count",
                ),
            );
        }
        let lead: usize = (tiles - need) / 2;
        let from: usize = if start < lead {
            0
        } else {
            start - lead
        };
        let to: usize = if tiles > history.len() - from {
            history.len()
        } else {
            from + tiles
        };
        let ghost all = text::texts(history@);
        let mut preview: Vec<String> = Vec::new();
        let mut i: usize = from;
        assert(text::texts(preview@) =~= all.subrange(from as int, from as int));
        while i < to
            invariant
                from <= i <= to <= history@.len(),
                all == text::texts(history@),
                text::texts(preview@) == all.subrange(from as int, i as int),
            decreases to - i,
        {
            let ghost before = text::texts(preview@);
            preview.push(copy_text(history[i].as_str()));
            assert(text::texts(preview@) =~= before.push(all[i as int]));
            i = i + 1;
            assert(text::texts(preview@) =~= all.subrange(from as int, i as int));
        }
        let ghost past = text::texts(preview@);
        assert(past.len() == to - from);
        let mut next = self.peek_bag_forward(tiles - (to - from));
        let ghost ahead = text::texts(next@);
        preview.append(&mut next);
        assert(text::texts(preview@) =~= past + ahead);
        match find_absent(shown, &preview) {
            Some(path) => Err(
                concat3(
                    "canvas transition could not fit required wallpaper in preview window: ",
                    path.as_str(),
                    "; increase transition.canvas.tile_count or transition.canvas.max_tile_count",
                ),
            ),
            None => Ok(CanvasPreviewWindow { paths: preview, start_index: from }),
        }
    }

    /// The preview of a change in so many tiles. It shows the history in order, with what is
    /// shown before and after the change in it.
    pub fn canvas_preview_window_for_prepared_change(
        &self,
        prepared: &PreparedWallpaperChange,
        current: &Vec<String>,
        tile_count: usize,
    ) -> (result: Result<CanvasPreviewWindow, String>)
        ensures
            match (result, canvas_window(self@, prepared@, text::texts(current@), tile_count)) {
                (Ok(window), Ok((paths, start))) => text::texts(window.paths@) == paths
                    && window.start_index == start,
                (Err(message), Err(expected)) => message@ == expected,
                _ => false,
            },
    {
        let tiles: usize = most(tile_count, 1);
        let history = prepared.layout.flattened_history();
        let ghost all = text::texts(history@);
        assert(all.len() == history@.len());
        if history.len() == 0 {
            return Err(
                copy_text(
                    "canvas transition requires wallpaper history; run a wallpaper action first",
                ),
            );
        }
        let outputs: usize = most(prepared.layout.out_count, 1);
        let (before, after) = match (prepared.canvas_before_start, prepared.canvas_after_start) {
            (Some(before), Some(after)) => (before, after),
            _ => {
                return Err(
                    copy_text(
                        "canvas transition requires captured wallpaper history positions; prepare the wallpaper action with a canvas transition",
                    ),
                );
            },
        };
        let len: usize = history.len();
        let from: usize = least(before, len);
        let from_end: usize = if outputs > len - from {
            len
        } else {
            from + outputs
        };
        let to: usize = least(after, len);
        let to_end: usize = if outputs > len - to {
            len
        } else {
            to + outputs
        };
        let start: usize = least(from, to);
        let end: usize = most(most(from_end, to_end), start);
        let (start, end) = cover(
            &history,
            current,
            from,
            start,
            end,
            "canvas transition requires the current wallpaper to be in mural history: ",
        )?;
        let (start, end) = cover(
            &history,
            &prepared.selection,
            to,
            start,
            end,
            "canvas transition target is not in mural history: ",
        )?;
        let mut shown = copy_texts(current);
        let mut selected = copy_texts(&prepared.selection);
        let ghost first = text::texts(shown@);
        let ghost second = text::texts(selected@);
        shown.append(&mut selected);
        assert(text::texts(shown@) =~= first + second);
        self.preview_range(&history, start, end, tiles, &shown)
    }
}

} // verus!
