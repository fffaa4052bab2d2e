//! What is proved of the previews of canvas transitions: they hold what changes, in order.

use crate::change::PreparedView;
use crate::control::{ControlView, DiskView};
use crate::control;
use crate::drawing;
use crate::layout;
use crate::preview;
use vstd::prelude::*;

verus! {

// ---------------------------------------------------------------------------
// The bag

/// The wallpapers ahead are the next of the bag, in its order, and as many as are asked for
/// where it has so many left.
pub proof fn law_ahead_are_the_next_of_the_bag(c: ControlView, count: usize)
    ensures
        ({
            let list = preview::bag_ahead(c, count);
            &&& list.len() <= count
            &&& c.pos <= c.bag.len() ==> {
                &&& c.pos + list.len() <= c.bag.len()
                &&& list.len() < count ==> c.pos + list.len() == c.bag.len()
                &&& forall|i: int| 0 <= i < list.len() ==> #[trigger] list[i] == c.bag[c.pos + i]
            }
            &&& c.pos > c.bag.len() ==> list.len() == 0
        }),
{
}

/// The first of the wallpapers ahead is the one that is drawn next, where it is on disk.
pub proof fn law_first_ahead_is_drawn_next(c: ControlView, disk: DiskView, count: usize)
    requires
        count > 0,
        c.pos < c.bag.len(),
        disk.files.contains(c.bag[c.pos as int]),
        c.library.len() > 0,
        drawing::sound_control(c),
        drawing::has_room(c, disk),
        drawing::is_supplied(
            c,
            disk,
            None,
            drawing::needed(control::task_for(c.library, 1, None)),
        ),
    ensures
        preview::bag_ahead(c, count).len() > 0,
        control::drawn(c, disk, 1, None).1 == Ok::<Seq<Seq<char>>, Seq<char>>(
            seq![preview::bag_ahead(c, count)[0]],
        ),
{
    let task = control::task_for(c.library, 1, None);
    let none = Seq::<Seq<char>>::empty();
    let wall = c.bag[c.pos as int];
    drawing::law_drawing(c, disk, 1, None);
    let next = ControlView { pos: (c.pos + 1) as usize, ..c };
    assert(none.push(wall) =~= seq![wall]);
    let fuel = choose|fuel: nat| #[trigger] control::draw(c, disk, task, none, 0, fuel) is Some;
    assert(control::draw(c, disk, task, none, 0, fuel) is Some);
    assert(fuel > 0);
    assert(!none.contains(wall));
    assert(control::draw(
        next,
        disk,
        task,
        none.push(wall),
        layout::saturated(1),
        (fuel - 1) as nat,
    ) == Some((next, Ok::<Seq<Seq<char>>, Seq<char>>(none.push(wall)))));
}

/// The wallpapers around the place of the bag are of the bag, follow one another as on a
/// ring, and hold the one that is drawn next.
pub proof fn law_around_is_a_stretch_of_the_ring(c: ControlView, count: usize)
    ensures
        ({
            let list = preview::bag_around(c, count);
            let len = c.bag.len() as int;
            &&& c.bag.len() > 0 ==> list.len() == if count <= c.bag.len() {
                count as nat
            } else {
                c.bag.len()
            }
            &&& c.bag.len() > 0 ==> exists|start: int|
                0 <= start < len && #[trigger] is_on_ring(list, c.bag, start)
            &&& 0 < count && c.pos < c.bag.len() ==> list.contains(c.bag[c.pos as int])
            &&& c.bag.len() == 0 ==> list.len() <= count && list.len() <= c.library.len() && (
            list.len() < count ==> list.len() == c.library.len()) && forall|i: int|
                0 <= i < list.len() ==> #[trigger] list[i] == c.library[i]
        }),
{
    let list = preview::bag_around(c, count);
    let len = c.bag.len() as int;
    if len > 0 {
        let back = if c.pos < count / 2 {
            0int
        } else {
            c.pos - count / 2
        };
        let start = if back >= len {
            0
        } else {
            back
        };
        let first = if back > len {
            len
        } else {
            back
        };
        assert forall|i: int| 0 <= i < list.len() implies #[trigger] list[i] == c.bag[(start + i)
            % len] by {
            if first == len {
                vstd::arithmetic::div_mod::lemma_mod_add_multiples_vanish(i, len);
            }
        }
        assert(is_on_ring(list, c.bag, start));
        if 0 < count && c.pos < c.bag.len() {
            let i = c.pos - start;
            vstd::arithmetic::div_mod::lemma_small_mod(c.pos as nat, len as nat);
            assert(list[i] == c.bag[c.pos as int]);
        }
    }
}

/// Whether a list is a stretch of a ring.
pub open spec fn is_on_ring(list: Seq<Seq<char>>, ring: Seq<Seq<char>>, start: int) -> bool {
    forall|i: int|
        0 <= i < list.len() ==> #[trigger] list[i] == ring[(start + i) % (ring.len() as int)]
}

// ---------------------------------------------------------------------------
// The range

proof fn lemma_first_absent(paths: Seq<Seq<char>>, list: Seq<Seq<char>>)
    ensures
        match preview::first_absent(paths, list) {
            None => forall|k: int|
                0 <= k < paths.len() && (#[trigger] paths[k]).len() > 0 ==> list.contains(paths[k]),
            Some(path) => paths.contains(path) && path.len() > 0 && !list.contains(path),
        },
    decreases paths.len(),
{
    if paths.len() > 0 && !(paths[0].len() > 0 && !list.contains(paths[0])) {
        let rest = paths.skip(1);
        lemma_first_absent(rest, list);
        match preview::first_absent(paths, list) {
            None => {
                assert forall|k: int|
                    0 <= k < paths.len() && (#[trigger] paths[k]).len() > 0 implies list.contains(
                    paths[k],
                ) by {
                    if k > 0 {
                        assert(rest[k - 1] == paths[k]);
                    }
                }
            },
            Some(path) => {
                let k = choose|k: int| 0 <= k < rest.len() && rest[k] == path;
                assert(paths[k + 1] == path);
            },
        }
    }
}

/// A range of the history that fits in the tiles is previewed: the preview starts no later
/// and reaches no less far, it shows the history in order and behind its end the next of the
/// bag, and the spare tiles before and behind the range differ by at most one, unless the
/// history starts where the preview does.
#[verifier::spinoff_prover]
pub proof fn law_preview_frames_the_range(
    c: ControlView,
    history: Seq<Seq<char>>,
    start: int,
    end: int,
    tiles: usize,
    shown: Seq<Seq<char>>,
)
    requires
        0 <= start <= end <= history.len(),
        end - start <= tiles,
        forall|k: int|
            0 <= k < shown.len() && (#[trigger] shown[k]).len() > 0 ==> history.subrange(
                start,
                end,
            ).contains(shown[k]),
    ensures
        preview::preview_of_range(c, history, (start, end), tiles as int, shown) matches Ok(
            (list, from),
        ) && {
            &&& 0 <= from <= start
            &&& end <= from + tiles
            &&& start - from <= (from + tiles) - end
            &&& from > 0 ==> (from + tiles) - end <= start - from + 1
            &&& end - from <= list.len() <= tiles
            &&& forall|i: int|
                from <= i < history.len() && i - from < tiles ==> list[i - from]
                    == #[trigger] history[i]
            &&& forall|k: int|
                history.len() - from <= k < list.len() ==> #[trigger] list[k] == c.bag[c.pos + k - (
                history.len() - from)]
            &&& list.len() < tiles && c.pos <= c.bag.len() ==> list.len() - (history.len() - from)
                == c.bag.len() - c.pos
            &&& forall|k: int|
                0 <= k < shown.len() && (#[trigger] shown[k]).len() > 0 ==> list.contains(shown[k])
        },
{
    let need = end - start;
    let from = preview::larger(start - (tiles - need) / 2, 0);
    let to = preview::smaller(from + tiles, history.len() as int);
    let past = history.subrange(from, to);
    let ahead = preview::bag_ahead(c, (tiles - past.len()) as usize);
    let list = past + ahead;
    law_ahead_are_the_next_of_the_bag(c, (tiles - past.len()) as usize);
    assert forall|i: int| from <= i < history.len() && i - from < tiles implies list[i - from]
        == #[trigger] history[i] by {
        assert(list[i - from] == past[i - from]);
    }
    assert forall|k: int| 0 <= k < shown.len() && (#[trigger] shown[k]).len() > 0 implies list.contains(
        shown[k],
    ) by {
        let range = history.subrange(start, end);
        let at = choose|at: int| 0 <= at < range.len() && range[at] == shown[k];
        assert(history[start + at] == shown[k]);
        assert(list[start + at - from] == history[start + at]);
    }
    lemma_first_absent(shown, list);
    if preview::first_absent(shown, list) is Some {
        let path = preview::first_absent(shown, list)->0;
        let k = choose|k: int| 0 <= k < shown.len() && shown[k] == path;
        assert(list.contains(shown[k]));
    }
    assert forall|k: int| history.len() - from <= k < list.len() implies #[trigger] list[k]
        == c.bag[c.pos + k - (history.len() - from)] by {
        assert(list[k] == ahead[k - past.len()]);
    }
}

/// A range that needs more tiles than there are is refused, and so is a preview that misses
/// what is shown before or after the change; no other is.
pub proof fn law_preview_is_refused_only_where_it_does_not_fit(
    c: ControlView,
    history: Seq<Seq<char>>,
    start: int,
    end: int,
    tiles: usize,
    shown: Seq<Seq<char>>,
)
    requires
        0 <= start <= end <= history.len(),
    ensures
        end - start > tiles ==> preview::preview_of_range(
            c,
            history,
            (start, end),
            tiles as int,
            shown,
        ) is Err,
        end - start <= tiles && preview::preview_of_range(
            c,
            history,
            (start, end),
            tiles as int,
            shown,
        ) is Err ==> exists|k: int|
            0 <= k < shown.len() && (#[trigger] shown[k]).len() > 0 && !history.subrange(
                start,
                end,
            ).contains(shown[k]),
{
    if end - start <= tiles && preview::preview_of_range(
        c,
        history,
        (start, end),
        tiles as int,
        shown,
    ) is Err {
        if forall|k: int|
            0 <= k < shown.len() && (#[trigger] shown[k]).len() > 0 ==> history.subrange(
                start,
                end,
            ).contains(shown[k]) {
            law_preview_frames_the_range(c, history, start, end, tiles, shown);
        }
    }
}

/// Whether a range covers a place of a path, one that no other place of the path is nearer to
/// an anchor than.
pub open spec fn covers_nearest(
    history: Seq<Seq<char>>,
    path: Seq<char>,
    anchor: int,
    start: int,
    end: int,
) -> bool {
    exists|place: int|
        start <= place < end && 0 <= place < history.len() && #[trigger] history[place] == path
            && forall|other: int|
            0 <= other < history.len() && #[trigger] history[other] == path ==> preview::apart(
                place,
                anchor,
            ) <= preview::apart(other, anchor)
}

#[verifier::spinoff_prover]
proof fn lemma_covering(
    history: Seq<Seq<char>>,
    paths: Seq<Seq<char>>,
    anchor: int,
    range: (int, int),
    absent: Seq<char>,
)
    requires
        0 <= range.0 <= range.1 <= history.len(),
    ensures
        match preview::covering(history, paths, anchor, range, absent) {
            Ok((start, end)) => {
                &&& 0 <= start <= range.0
                &&& range.1 <= end <= history.len()
                &&& forall|k: int|
                    0 <= k < paths.len() && (#[trigger] paths[k]).len() > 0 ==> covers_nearest(
                        history,
                        paths[k],
                        anchor,
                        start,
                        end,
                    )
                &&& start < range.0 ==> paths.contains(history[start])
                &&& end > range.1 ==> paths.contains(history[end - 1])
            },
            Err(message) => exists|k: int|
                0 <= k < paths.len() && (#[trigger] paths[k]).len() > 0 && !history.contains(
                    paths[k],
                ) && message == absent + paths[k],
        },
    decreases paths.len(),
{
    if paths.len() > 0 {
        let head = paths.drop_last();
        let last = paths.last();
        lemma_covering(history, head, anchor, range, absent);
        preview::law_closest(history, last, anchor);
        assert(paths[paths.len() - 1] == last);
        match preview::covering(history, head, anchor, range, absent) {
            Err(message) => {
                let k = choose|k: int|
                    0 <= k < head.len() && (#[trigger] head[k]).len() > 0 && !history.contains(
                        head[k],
                    ) && message == absent + head[k];
                assert(paths[k] == head[k]);
            },
            Ok((a, b)) => {
                if let Ok((start, end)) = preview::covering(history, paths, anchor, range, absent) {
                    assert forall|k: int|
                        0 <= k < paths.len() && (#[trigger] paths[k]).len() > 0 implies covers_nearest(
                        history,
                        paths[k],
                        anchor,
                        start,
                        end,
                    ) by {
                        if k < head.len() {
                            assert(head[k] == paths[k]);
                            assert(covers_nearest(history, head[k], anchor, a, b));
                            let place = choose|place: int|
                                a <= place < b && 0 <= place < history.len()
                                    && #[trigger] history[place] == head[k] && forall|other: int|
                                    0 <= other < history.len() && #[trigger] history[other]
                                        == head[k] ==> preview::apart(place, anchor)
                                        <= preview::apart(other, anchor);
                            assert(history[place] == paths[k]);
                        } else {
                            let place = preview::closest(history, last, anchor)->0;
                            assert(history[place] == paths[k]);
                        }
                    }
                    if start < range.0 {
                        if start < a {
                            assert(history[start] == last);
                        } else {
                            let k = choose|k: int| 0 <= k < head.len() && head[k] == history[start];
                            assert(paths[k] == history[start]);
                        }
                    }
                    if end > range.1 {
                        if end > b {
                            assert(history[end - 1] == last);
                        } else {
                            let k = choose|k: int|
                                0 <= k < head.len() && head[k] == history[end - 1];
                            assert(paths[k] == history[end - 1]);
                        }
                    }
                }
            },
        }
    }
}

/// The range that a preview has to show covers the windows before and after the change, and
/// for each wallpaper that is shown before or after it the place nearest to that window. It
/// begins and ends with one of these. It is missing only where the history does not hold one
/// of the wallpapers.
#[verifier::spinoff_prover]
pub proof fn law_required_range_is_what_changes(
    history: Seq<Seq<char>>,
    outputs: int,
    before: usize,
    after: usize,
    current: Seq<Seq<char>>,
    selection: Seq<Seq<char>>,
)
    requires
        outputs >= 1,
        before + outputs <= history.len(),
        after + outputs <= history.len(),
    ensures
        match preview::required_range(history, outputs, before, after, current, selection) {
            Ok((start, end)) => {
                &&& 0 <= start <= before
                &&& start <= after
                &&& before + outputs <= end <= history.len()
                &&& after + outputs <= end
                &&& start == before || start == after || current.contains(history[start])
                    || selection.contains(history[start])
                &&& end == before + outputs || end == after + outputs || current.contains(
                    history[end - 1],
                ) || selection.contains(history[end - 1])
                &&& forall|k: int|
                    0 <= k < current.len() && (#[trigger] current[k]).len() > 0 ==> covers_nearest(
                        history,
                        current[k],
                        before as int,
                        start,
                        end,
                    )
                &&& forall|k: int|
                    0 <= k < selection.len() && (#[trigger] selection[k]).len() > 0
                        ==> covers_nearest(history, selection[k], after as int, start, end)
            },
            Err(_) => exists|k: int|
                0 <= k < (current + selection).len() && (#[trigger] (current
                    + selection)[k]).len() > 0 && !history.contains((current + selection)[k]),
        },
{
    let len = history.len() as int;
    let start = preview::smaller(before as int, after as int);
    let end = preview::larger(before + outputs, after + outputs);
    let one = "canvas transition requires the current wallpaper to be in mural history: "@;
    let two = "canvas transition target is not in mural history: "@;
    let both = current + selection;
    lemma_covering(history, current, before as int, (start, end), one);
    match preview::covering(history, current, before as int, (start, end), one) {
        Err(message) => {
            let k = choose|k: int|
                0 <= k < current.len() && (#[trigger] current[k]).len() > 0 && !history.contains(
                    current[k],
                ) && message == one + current[k];
            assert(both[k] == current[k]);
        },
        Ok((a, b)) => {
            lemma_covering(history, selection, after as int, (a, b), two);
            match preview::covering(history, selection, after as int, (a, b), two) {
                Err(message) => {
                    let k = choose|k: int|
                        0 <= k < selection.len() && (#[trigger] selection[k]).len() > 0
                            && !history.contains(selection[k]) && message == two + selection[k];
                    assert(both[current.len() + k] == selection[k]);
                },
                Ok((s, e)) => {
                    assert forall|k: int|
                        0 <= k < current.len() && (#[trigger] current[k]).len() > 0 implies covers_nearest(
                        history,
                        current[k],
                        before as int,
                        s,
                        e,
                    ) by {
                        assert(covers_nearest(history, current[k], before as int, a, b));
                        let place = choose|place: int|
                            a <= place < b && 0 <= place < history.len()
                                && #[trigger] history[place] == current[k] && forall|other: int|
                                0 <= other < history.len() && #[trigger] history[other]
                                    == current[k] ==> preview::apart(place, before as int)
                                    <= preview::apart(other, before as int);
                        assert(history[place] == current[k]);
                    }
                },
            }
        },
    }
}

/// Where no wallpaper comes twice, the range that changes is that of the two windows.
#[verifier::spinoff_prover]
proof fn lemma_range_of_windows(
    history: Seq<Seq<char>>,
    count: int,
    before: usize,
    after: usize,
    current: Seq<Seq<char>>,
    selection: Seq<Seq<char>>,
)
    requires
        count >= 1,
        before + count <= history.len(),
        after + count <= history.len(),
        current == history.subrange(before as int, before + count),
        selection == history.subrange(after as int, after + count),
        history.no_duplicates(),
    ensures
        preview::required_range(history, count, before, after, current, selection) == Ok::<
            (int, int),
            Seq<char>,
        >(
            (
                preview::smaller(before as int, after as int),
                preview::larger(before + count, after + count),
            ),
        ),
{
    let shown = current + selection;
    law_required_range_is_what_changes(history, count, before, after, current, selection);
    match preview::required_range(history, count, before, after, current, selection) {
        Err(_) => {
            let k = choose|k: int|
                0 <= k < shown.len() && (#[trigger] shown[k]).len() > 0 && !history.contains(
                    shown[k],
                );
            if k < count {
                assert(history[before + k] == shown[k]);
            } else {
                assert(history[after + k - count] == shown[k]);
            }
        },
        Ok((start, end)) => {
            if current.contains(history[start]) {
                lemma_in_window(history, count, before as int, current, start);
            }
            if selection.contains(history[start]) {
                lemma_in_window(history, count, after as int, selection, start);
            }
            if current.contains(history[end - 1]) {
                lemma_in_window(history, count, before as int, current, end - 1);
            }
            if selection.contains(history[end - 1]) {
                lemma_in_window(history, count, after as int, selection, end - 1);
            }
        },
    }
}

proof fn lemma_in_window(
    history: Seq<Seq<char>>,
    count: int,
    from: int,
    window: Seq<Seq<char>>,
    place: int,
)
    requires
        0 <= from <= from + count <= history.len(),
        window == history.subrange(from, from + count),
        history.no_duplicates(),
        0 <= place < history.len(),
        window.contains(history[place]),
    ensures
        from <= place < from + count,
{
    let k = choose|k: int| 0 <= k < window.len() && window[k] == history[place];
    assert(history[from + k] == history[place]);
}

/// A change whose windows before and after it are what was and what is shown can be previewed
/// wherever both windows together fit in the tiles: the preview holds both windows, in the
/// order of the history and starting where it says, and is no longer than it may be.
#[verifier::spinoff_prover]
pub proof fn law_changes_that_fit_can_be_previewed(
    c: ControlView,
    change: PreparedView,
    current: Seq<Seq<char>>,
    tile_count: usize,
    before: usize,
    after: usize,
)
    requires
        change.canvas_before_start == Some(before),
        change.canvas_after_start == Some(after),
        change.layout.out_count >= 1,
        ({
            let history = layout::flat(change.layout.history);
            let count = change.layout.out_count;
            &&& before + count <= history.len()
            &&& after + count <= history.len()
            &&& current == history.subrange(before as int, before + count)
            &&& change.selection == history.subrange(after as int, after + count)
            &&& history.no_duplicates()
            &&& preview::apart(before as int, after as int) + count <= tile_count
        }),
    ensures
        ({
            let history = layout::flat(change.layout.history);
            let count = change.layout.out_count;
            preview::canvas_window(c, change, current, tile_count) matches Ok((list, from)) && {
                &&& 0 <= from <= before
                &&& from <= after
                &&& before + count <= from + list.len()
                &&& after + count <= from + list.len()
                &&& list.len() <= tile_count
                &&& list.subrange(before - from, before - from + count) == current
                &&& list.subrange(after - from, after - from + count) == change.selection
            }
        }),
{
    let history = layout::flat(change.layout.history);
    let count = change.layout.out_count as int;
    let selection = change.selection;
    let shown = current + selection;
    let start = preview::smaller(before as int, after as int);
    let end = preview::larger(before + count, after + count);
    lemma_range_of_windows(history, count, before, after, current, selection);
    assert forall|k: int| 0 <= k < shown.len() && (#[trigger] shown[k]).len() > 0 implies history.subrange(
        start,
        end,
    ).contains(shown[k]) by {
        let range = history.subrange(start, end);
        if k < count {
            assert(range[before + k - start] == shown[k]);
        } else {
            assert(range[after + k - count - start] == shown[k]);
        }
    }
    law_preview_frames_the_range(c, history, start, end, tile_count, shown);
    let (list, from) = preview::preview_of_range(
        c,
        history,
        (start, end),
        tile_count as int,
        shown,
    )->Ok_0;
    assert(preview::canvas_window(c, change, current, tile_count) == Ok::<
        (Seq<Seq<char>>, int),
        Seq<char>,
    >((list, from)));
    assert forall|i: int| 0 <= i < count implies list[before - from + i] == current[i] by {
        assert(list[before + i - from] == history[before + i]);
    }
    assert forall|i: int| 0 <= i < count implies list[after - from + i] == selection[i] by {
        assert(list[after + i - from] == history[after + i]);
    }
    assert(list.subrange(before - from, before - from + count) =~= current);
    assert(list.subrange(after - from, after - from + count) =~= selection);
}

} // verus!
