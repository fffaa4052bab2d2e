//! The wallpaper library: what it holds, what is shown of it and how that is undone.

use mural::change::PreparedWallpaperChange;
use mural::config::{ConfigSource, Host, MuralConfig};
use mural::control::{Disk, WallpaperControl};
use mural::layout::{LayoutState, StoredLayout};
use mural::library::{configured_wallpaper_paths, default_state_dir, StoredLists};
use mural::protocol::WallpaperAction;
use mural::random::SimpleRng;
use mural::textmap::TextMap;
use mural::wallpaper::{layout_key_for, unique_destination, ActiveOutput};

const WALLS: &str = "/t/walls";

fn disk(names: &[&str]) -> Disk {
    Disk {
        files: names.iter().map(|name| format!("{WALLS}/{name}")).collect(),
        error: None,
        taken: Vec::new(),
    }
}

fn usual_disk() -> Disk {
    disk(&["a.jpg", "b.png", "c.webp", "d.jpeg"])
}

fn nothing_stored() -> StoredLayout {
    StoredLayout { history: None, index: None, offset: None }
}

fn empty_control() -> WallpaperControl {
    WallpaperControl {
        wall_dir: WALLS.to_owned(),
        state_dir: "/t/state".to_owned(),
        quarantine_dir: "/t/walls/.quarantine".to_owned(),
        favorite_weight: 4,
        max_history: 1000,
        library: Vec::new(),
        favorites: Vec::new(),
        shuffle_bag: Vec::new(),
        shuffle_pos: 0,
        layouts: TextMap::new(),
        rng: SimpleRng { state: 1 },
    }
}

fn test_control() -> WallpaperControl {
    let mut control = empty_control();
    control.rescan_response(&usual_disk()).unwrap();
    control
}

fn outputs() -> Vec<ActiveOutput> {
    vec![
        ActiveOutput { name: "DP-1".to_owned(), x: 0, y: 0 },
        ActiveOutput { name: "DP-2".to_owned(), x: 100, y: 0 },
    ]
}

fn paths(values: &[&str]) -> Vec<String> {
    values.iter().map(|value| (*value).to_owned()).collect()
}

fn prepare(control: &mut WallpaperControl, action: WallpaperAction) -> PreparedWallpaperChange {
    let disk = usual_disk();
    let stored = nothing_stored();
    assert!(control.can_prepare(&action, &outputs(), false, &disk, &stored));
    control.prepare_wallpaper_change(&action, &outputs(), false, &disk, &stored).unwrap()
}

fn startup(control: &mut WallpaperControl) -> PreparedWallpaperChange {
    control.prepare_startup_display(&outputs(), &usual_disk(), &nothing_stored()).unwrap()
}

fn layout(out_count: usize, history: Vec<Vec<String>>, idx: usize, offset: usize) -> LayoutState {
    LayoutState { layout_dir: String::new(), out_count, max_history: 1000, history, idx, offset }
}

fn prepared_for_canvas_preview(
    history: Vec<Vec<String>>,
    before_start: usize,
    after_start: usize,
    out_count: usize,
) -> PreparedWallpaperChange {
    let selection = history
        .iter()
        .flat_map(|row| row.iter().cloned())
        .skip(after_start)
        .take(out_count)
        .collect();
    PreparedWallpaperChange {
        action: "shift-back".to_owned(),
        entries: Vec::new(),
        selection,
        canvas_before_start: Some(before_start),
        canvas_after_start: Some(after_start),
        layout_key: "test".to_owned(),
        layout_before: layout(out_count, Vec::new(), 0, 0),
        layout: layout(out_count, history, after_start / out_count + 1, after_start % out_count),
        quarantine: None,
        shuffle_pos_before: 0,
        shuffle_bag_len_before: 0,
    }
}

#[test]
fn state_dir_ignores_empty_or_relative_xdg_home() {
    let home = "/home/test";
    let fallback = "/home/test/.local/state/mural";

    for xdg_home in [Some(""), Some("relative")] {
        assert_eq!(default_state_dir(xdg_home, home), fallback);
    }
    assert_eq!(default_state_dir(Some("/tmp/xdg-state"), home), "/tmp/xdg-state/mural");
}

#[test]
fn indexes_only_top_level_supported_images() {
    let mut control = test_control();
    let now = disk(&["a.jpg", "b.png", "c.webp", "d.jpeg", "nested/hidden.jpg", "note.txt"]);
    control.rescan_response(&now).unwrap();
    assert_eq!(control.library.len(), 4);
}

#[test]
fn new_top_level_file_is_added_to_bag() {
    let mut control = test_control();
    let path = "/t/walls/new.jpg";
    let now = disk(&["a.jpg", "b.png", "c.webp", "d.jpeg", "new.jpg"]);
    assert!(control.add_top_level_file(path, &now));
    assert!(control.library.iter().any(|wall| wall.ends_with("new.jpg")));
    assert!(control.shuffle_bag.iter().any(|wall| wall.ends_with("new.jpg")));
}

#[test]
fn next_back_and_shift_use_flattened_history() {
    let mut control = test_control();
    let first = prepare(&mut control, WallpaperAction::Next);
    let first_selection = first.selection.clone();
    control.commit_wallpaper_change(first);
    let second = prepare(&mut control, WallpaperAction::Next);
    control.commit_wallpaper_change(second);
    let back = prepare(&mut control, WallpaperAction::Back);
    assert_eq!(back.selection, first_selection);
    control.commit_wallpaper_change(back);

    let shifted = prepare(&mut control, WallpaperAction::ShiftForward);
    assert_eq!(shifted.selection[0], first_selection[1]);
}

#[test]
fn rollback_restores_staged_layout_and_shuffle_cursor() {
    let mut control = test_control();
    let initial_shuffle_pos = control.shuffle_pos;

    let staged = prepare(&mut control, WallpaperAction::Next);
    assert!(control.shuffle_pos > initial_shuffle_pos);
    let staged_selection = staged.selection.clone();

    control.rollback_wallpaper_change(staged);
    assert_eq!(control.shuffle_pos, initial_shuffle_pos);

    let staged_again = prepare(&mut control, WallpaperAction::Next);
    assert_eq!(staged_again.selection, staged_selection);
}

#[test]
fn startup_display_creates_or_restores_current_selection() {
    let mut control = test_control();
    let first = startup(&mut control);
    let first_selection = first.selection.clone();
    control.commit_wallpaper_change(first);

    let restored = startup(&mut control);
    assert_eq!(restored.selection, first_selection);
}

#[test]
fn preview_window_includes_required_paths() {
    let control = test_control();
    let required = paths(&["/t/walls/a.jpg", "/t/walls/missing-but-current.jpg"]);

    let preview = control.preview_window(&required, 3);

    assert!(preview.iter().any(|path| path == &required[0]));
    assert!(preview.iter().any(|path| path == &required[1]));
    assert_eq!(preview.len(), 3);
}

#[test]
fn upcoming_shuffle_paths_peeks_forward_from_current_cursor() {
    let mut control = test_control();
    control.shuffle_bag = paths(&["bag-a", "bag-b", "bag-c"]);
    control.shuffle_pos = 1;

    assert_eq!(control.upcoming_shuffle_paths(2), paths(&["bag-b", "bag-c"]));
    assert!(control.upcoming_shuffle_paths(0).is_empty());
}

#[test]
fn canvas_preview_uses_flattened_history_for_shift_back() {
    let mut control = test_control();
    control.shuffle_bag = paths(&["bag-a", "bag-b"]);
    control.shuffle_pos = 0;
    let history = vec![
        paths(&["previous", "left", "middle"]),
        paths(&["right", "future-a", "future-b"]),
    ];
    let prepared = prepared_for_canvas_preview(history, 1, 0, 3);

    let preview = control
        .canvas_preview_window_for_prepared_change(
            &prepared,
            &paths(&["left", "middle", "right"]),
            5,
        )
        .unwrap();

    assert_eq!(preview.start_index, 0);
    assert_eq!(preview.paths, paths(&["previous", "left", "middle", "right", "future-a"]));
}

#[test]
fn canvas_preview_preserves_forward_history_distance() {
    let mut control = test_control();
    control.shuffle_bag = paths(&["bag-a", "bag-b"]);
    control.shuffle_pos = 0;
    let history = vec![
        paths(&["previous", "left", "middle"]),
        paths(&["right", "future-a", "future-b"]),
        paths(&["future-c", "future-d", "future-e"]),
    ];
    let prepared = prepared_for_canvas_preview(history, 1, 4, 3);

    let preview = control
        .canvas_preview_window_for_prepared_change(
            &prepared,
            &paths(&["left", "middle", "right"]),
            8,
        )
        .unwrap();

    assert_eq!(preview.start_index, 0);
    assert_eq!(
        preview.paths,
        paths(&[
            "previous", "left", "middle", "right", "future-a", "future-b", "future-c", "future-d"
        ])
    );
}

#[test]
fn canvas_preview_fills_after_history_from_forward_bag_cursor() {
    let mut control = test_control();
    control.shuffle_bag = paths(&["bag-0", "bag-1", "bag-2", "bag-3"]);
    control.shuffle_pos = 2;
    let history = vec![paths(&["a", "b", "c"]), paths(&["d", "e", "f"])];
    let prepared = prepared_for_canvas_preview(history, 1, 2, 3);

    let preview = control
        .canvas_preview_window_for_prepared_change(&prepared, &paths(&["b", "c", "d"]), 8)
        .unwrap();

    assert_eq!(preview.start_index, 0);
    assert_eq!(preview.paths, paths(&["a", "b", "c", "d", "e", "f", "bag-2", "bag-3"]));
}

#[test]
fn canvas_preview_errors_when_current_is_not_in_history() {
    let control = test_control();
    let history = vec![paths(&["a", "b", "c"]), paths(&["d", "e", "f"])];
    let prepared = prepared_for_canvas_preview(history, 1, 2, 3);

    let error = control
        .canvas_preview_window_for_prepared_change(&prepared, &paths(&["outside"]), 8)
        .unwrap_err();

    assert!(error.contains("current wallpaper"));
    assert!(error.contains("outside"));
}

#[test]
fn shift_back_undoes_shift_forward() {
    let mut control = test_control();
    let first = startup(&mut control);
    control.commit_wallpaper_change(first);
    let second = prepare(&mut control, WallpaperAction::Next);
    let shown = second.selection.clone();
    control.commit_wallpaper_change(second);

    let forward = prepare(&mut control, WallpaperAction::ShiftForward);
    assert_eq!(forward.selection[0], shown[1]);
    control.commit_wallpaper_change(forward);
    let back = prepare(&mut control, WallpaperAction::ShiftBack);

    assert_eq!(back.selection, shown);
}

#[test]
fn the_history_is_bounded() {
    let mut control = test_control();
    control.max_history = 3;
    for _ in 0..6 {
        let next = prepare(&mut control, WallpaperAction::Next);
        control.commit_wallpaper_change(next);
    }

    assert_eq!(control.layouts.value_at(0).history.len(), 3);
}

#[test]
fn a_favorite_is_drawn_more_often_and_listed() {
    let mut control = test_control();
    let first = startup(&mut control);
    let shown = first.selection[1].clone();
    control.commit_wallpaper_change(first);
    let response = control
        .favorite_action(&outputs(), 1, true, &usual_disk(), &nothing_stored())
        .unwrap();

    assert_eq!(control.favorites, vec![shown.clone()]);
    assert!(response.message.contains(&shown), "{}", response.message);
    assert_eq!(control.favorites_response().favorites, vec![shown.clone()]);
    let row = control.current_response(&outputs(), &nothing_stored()).unwrap();
    assert_eq!(row.entries[1].path, shown);
    assert!(row.entries[1].favorite);
    assert!(!row.entries[0].favorite);
}

#[test]
fn a_wallpaper_in_quarantine_leaves_the_library() {
    let mut control = test_control();
    let first = startup(&mut control);
    let gone = first.selection[0].clone();
    control.commit_wallpaper_change(first);

    let mut prepared = prepare(&mut control, WallpaperAction::Quarantine { index: 0 });
    let (source, destination) = prepared.quarantine_move(&usual_disk()).unwrap();
    assert_eq!(source, gone);
    assert!(destination.starts_with("/t/walls/.quarantine/"), "{destination}");
    assert_eq!(WallpaperControl::rollback_quarantine(&prepared), None);
    prepared.set_moved();
    assert_eq!(
        WallpaperControl::rollback_quarantine(&prepared),
        Some((destination, source))
    );
    assert_ne!(prepared.selection[0], gone);
    control.commit_wallpaper_change(prepared);

    assert!(!control.library.contains(&gone));
    assert!(!control.shuffle_bag.contains(&gone));
}

#[test]
fn a_quarantined_file_gets_a_name_of_its_own() {
    assert_eq!(unique_destination("/q", "a.jpg", &paths(&[])), "/q/a.jpg");
    assert_ne!(unique_destination("/q", "a.jpg", &paths(&["/q/a.jpg"])), "/q/a.jpg");
}

#[test]
fn an_output_that_is_not_there_is_refused() {
    let mut control = test_control();
    let action = WallpaperAction::Replace { index: 2 };
    let error = control
        .prepare_wallpaper_change(&action, &outputs(), false, &usual_disk(), &nothing_stored())
        .unwrap_err();
    assert!(error.contains("replace"), "{error}");

    let error = control
        .prepare_wallpaper_change(
            &WallpaperAction::Next,
            &Vec::new(),
            false,
            &usual_disk(),
            &nothing_stored(),
        )
        .unwrap_err();
    assert_eq!(error, "no active outputs");
}

#[test]
fn an_empty_library_shows_nothing() {
    let mut control = empty_control();
    let error = control
        .prepare_startup_display(&outputs(), &disk(&[]), &nothing_stored())
        .unwrap_err();

    assert!(!error.is_empty());
}

#[test]
fn a_rescan_reports_what_came_and_went() {
    let mut control = test_control();
    control.rescan_response(&disk(&["a.jpg", "b.png", "new.webp"])).unwrap();

    assert_eq!(control.library, paths(&["/t/walls/a.jpg", "/t/walls/b.png", "/t/walls/new.webp"]));
    let again = control.rescan_response(&disk(&["a.jpg", "b.png", "new.webp"])).unwrap();
    assert!(again.message.contains('0'), "{}", again.message);
}

#[test]
fn the_state_that_is_written_is_loaded_again() {
    let mut control = test_control();
    let first = startup(&mut control);
    control.commit_wallpaper_change(first);
    let files = control.core_state();
    let content = |name: &str| {
        files
            .iter()
            .find(|(path, _)| path.ends_with(name))
            .map(|(_, text)| text.clone())
    };
    let mut environment = TextMap::new();
    environment.insert("HOME".to_owned(), "/home/test".to_owned());
    let host = Host { home: Some("/home/test".to_owned()), parallelism: 2 };
    let source = ConfigSource::Content {
        path: "config".to_owned(),
        content: "wall_dir = /t/walls\nstate_dir = /t/state\n".to_owned(),
    };
    let config = MuralConfig::load(&source, &host, &environment).unwrap();
    let places = configured_wallpaper_paths(&config, &environment).unwrap();
    assert_eq!(places.wall_dir, "/t/walls");
    assert_eq!(places.state_dir, "/t/state");

    let lists = StoredLists {
        library: content("/library"),
        favorites: content("/favorites"),
        walls: content("/walls"),
        walls_idx: content("/walls_idx"),
    };
    let loaded = WallpaperControl::load(
        &config,
        &environment,
        &lists,
        &usual_disk(),
        SimpleRng { state: 9 },
    )
    .unwrap();

    assert_eq!(loaded.library, control.library);
    assert_eq!(loaded.shuffle_bag, control.shuffle_bag);
    assert_eq!(loaded.shuffle_pos, control.shuffle_pos);
}

#[test]
fn a_layout_is_kept_under_the_names_of_its_outputs() {
    let key = layout_key_for(&outputs());

    assert!(key.contains("DP-1"), "{key}");
    assert!(key.contains("DP-2"), "{key}");
}

#[test]
fn the_same_seed_draws_the_same() {
    let mut first = SimpleRng::seeded(10, 20, 30);
    let mut second = SimpleRng::seeded(10, 20, 30);

    for upper in 1..50 {
        let value = first.next_usize(upper);
        assert_eq!(value, second.next_usize(upper));
        assert!(value < upper);
    }
}

#[test]
fn a_history_of_one_row_still_shifts_back() {
    let mut control = test_control();
    control.max_history = 1;
    let stored = StoredLayout {
        history: Some(
            "/t/walls/a.jpg\t/t/walls/b.png\n/t/walls/c.webp\t/t/walls/d.jpeg\n".to_owned(),
        ),
        index: Some("1\n".to_owned()),
        offset: Some("1\n".to_owned()),
    };

    let change = control
        .prepare_wallpaper_change(
            &WallpaperAction::ShiftBack,
            &outputs(),
            true,
            &usual_disk(),
            &stored,
        )
        .unwrap();

    assert_eq!(change.selection, paths(&["/t/walls/a.jpg", "/t/walls/b.png"]));
    assert_eq!(change.canvas_before_start, Some(1));
    assert_eq!(change.canvas_after_start, Some(0));
}

#[test]
fn a_row_that_was_shown_needs_no_other_wallpapers() {
    let mut control = test_control();
    let stored = StoredLayout {
        history: Some(
            "/t/walls/a.jpg\t/t/walls/a.jpg\n/t/walls/c.webp\t/t/walls/d.jpeg\n".to_owned(),
        ),
        index: Some("2\n".to_owned()),
        offset: None,
    };
    let one_left = disk(&["a.jpg"]);
    assert!(control.can_prepare(&WallpaperAction::Back, &outputs(), false, &one_left, &stored));
    assert!(!control.can_prepare(&WallpaperAction::Next, &outputs(), false, &one_left, &stored));

    let change = control
        .prepare_wallpaper_change(&WallpaperAction::Back, &outputs(), false, &one_left, &stored)
        .unwrap();

    assert_eq!(change.selection, paths(&["/t/walls/a.jpg", "/t/walls/a.jpg"]));
}

#[test]
fn startup_shows_the_same_once_it_was_kept() {
    let mut control = test_control();
    let first = startup(&mut control);
    let shown = first.selection.clone();
    control.commit_wallpaper_change(first);

    let again = startup(&mut control);

    assert_eq!(again.selection, shown);
}

#[test]
fn an_action_that_was_undone_shows_the_same_again() {
    let mut control = test_control();
    for action in [WallpaperAction::Next, WallpaperAction::ShiftForward] {
        let first = prepare(&mut control, action.clone());
        let shown = first.selection.clone();
        control.rollback_wallpaper_change(first);

        let again = prepare(&mut control, action);

        assert_eq!(again.selection, shown);
        control.rollback_wallpaper_change(again);
    }
}

#[test]
fn back_after_two_steps_shows_the_first_again() {
    let mut control = test_control();
    let mut shown = Vec::new();
    for action in [WallpaperAction::Next, WallpaperAction::Next, WallpaperAction::Back] {
        let change = prepare(&mut control, action);
        shown.push(change.selection.clone());
        control.commit_wallpaper_change(change);
    }

    assert_eq!(shown[2], shown[0]);
}

#[test]
fn a_weight_of_favorites_takes_no_room_without_favorites() {
    let mut control = empty_control();
    control.favorite_weight = usize::MAX;
    control.rescan_response(&usual_disk()).unwrap();

    let change = prepare(&mut control, WallpaperAction::Next);

    assert_eq!(change.selection.len(), 2);
    assert_eq!(control.shuffle_bag.len(), 4);
}

#[test]
fn what_cannot_be_drawn_cannot_be_prepared() {
    let control = test_control();
    let stored = nothing_stored();
    let one_left = disk(&["a.jpg"]);
    let none_left = disk(&[]);

    assert!(control.can_prepare_startup(&outputs(), &usual_disk(), &stored));
    assert!(!control.can_prepare_startup(&outputs(), &one_left, &stored));
    assert!(control.can_prepare_startup(&outputs(), &none_left, &stored));
    assert!(control.can_prepare_startup(&Vec::new(), &one_left, &stored));
    assert!(control.can_prepare(
        &WallpaperAction::Replace { index: 2 },
        &outputs(),
        false,
        &one_left,
        &stored
    ));
    assert!(control.can_favor(&outputs(), 0, true, &one_left, &stored));
    assert!(control.can_favor(&outputs(), 9, true, &one_left, &stored));
}

#[test]
fn the_library_is_told_in_order() {
    let control = test_control();
    assert_eq!(
        control.library_paths(),
        paths(&["/t/walls/a.jpg", "/t/walls/b.png", "/t/walls/c.webp", "/t/walls/d.jpeg"])
    );
}

#[test]
fn what_is_kept_is_what_is_said_to_be_shown() {
    let mut control = test_control();
    for action in [
        WallpaperAction::Next,
        WallpaperAction::Next,
        WallpaperAction::ShiftForward,
        WallpaperAction::Back,
        WallpaperAction::Replace { index: 1 },
        WallpaperAction::ShiftBack,
    ] {
        let change = prepare(&mut control, action);
        let selection = change.selection.clone();
        control.commit_wallpaper_change(change);
        let current = control.current_response(&outputs(), &nothing_stored()).unwrap();
        let said: Vec<String> = current.entries.iter().map(|entry| entry.path.clone()).collect();
        assert_eq!(said, selection);
    }
}
