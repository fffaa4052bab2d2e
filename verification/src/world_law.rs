//! What holds of the index of the world cache.

use crate::config::ConfigView;
use crate::control::DiskView;
use crate::text::IntError;
use crate::tiles::{SnapshotView, DEFAULT_WORLD_TILE_CELLS};
use crate::world_cache::{
    CacheFilesView, ManifestState, ManifestView, PartsView, StoredTextView, WORLD_ORDER_POLICY,
};
use crate::control;
use crate::hashing;
use crate::text;
use crate::textlist;
use crate::tiles;
use crate::world_cache;
use vstd::prelude::*;

verus! {

proof fn lemma_setting(prefix: Seq<char>, key: Seq<char>, value: Seq<char>)
    requires
        prefix == key.push('='),
        forall|i: int| 0 <= i < key.len() ==> #[trigger] key[i] != '=' && key[i] != '\n',
        textlist::is_line(value),
    ensures
        text::split_at_first(prefix + value, '=') == Some((key, value)),
        textlist::is_line(prefix + value),
{
    let line = prefix + value;
    text::lemma_first_index(line, '=');
    let n = key.len() as int;
    let i = text::first_index(line, '=');
    assert(line[n] == '=');
    if i < n {
        assert(line[i] == key[i]);
    }
    assert(i == n);
    assert(line.take(n) =~= key);
    assert(line.skip(n + 1) =~= value);
    assert forall|k: int| 0 <= k < line.len() implies #[trigger] line[k] != '\n' by {
        if k < n {
            assert(line[k] == key[k]);
        } else if k > n {
            assert(line[k] == value[k - n - 1]);
        }
    }
    if value.len() > 0 {
        assert(line.last() == value.last());
    }
}

proof fn lemma_decimal_is_line(n: nat)
    ensures
        textlist::is_line(text::decimal_text(n)),
{
    text::lemma_decimal_text_shape(n);
    let text = text::decimal_text(n);
    assert(text::is_digit(text[text.len() - 1]));
    assert forall|i: int| 0 <= i < text.len() implies #[trigger] text[i] != '\n' by {
        assert(text::is_digit(text[i]));
    }
}

proof fn lemma_hex_is_line(n: u64)
    ensures
        textlist::is_line(text::hex_text(n as nat, 16)),
{
    hashing::lemma_hex_digits(n as nat, 16);
    let text = text::hex_text(n as nat, 16);
    assert(hashing::hex_digit(text[15]) is Some);
    assert forall|i: int| 0 <= i < text.len() implies #[trigger] text[i] != '\n' by {
        assert(hashing::hex_digit(text[i]) is Some);
    }
}

proof fn lemma_keys()
    ensures
        "version="@ == "version"@.push('='),
        "order_policy="@ == "order_policy"@.push('='),
        "library_count="@ == "library_count"@.push('='),
        "columns="@ == "columns"@.push('='),
        "rows="@ == "rows"@.push('='),
        "fingerprint="@ == "fingerprint"@.push('='),
        forall|i: int| 0 <= i < 7 ==> #[trigger] "version"@[i] != '=' && "version"@[i] != '\n',
        forall|i: int|
            0 <= i < 12 ==> #[trigger] "order_policy"@[i] != '=' && "order_policy"@[i] != '\n',
        forall|i: int|
            0 <= i < 13 ==> #[trigger] "library_count"@[i] != '=' && "library_count"@[i] != '\n',
        forall|i: int| 0 <= i < 7 ==> #[trigger] "columns"@[i] != '=' && "columns"@[i] != '\n',
        forall|i: int| 0 <= i < 4 ==> #[trigger] "rows"@[i] != '=' && "rows"@[i] != '\n',
        forall|i: int|
            0 <= i < 11 ==> #[trigger] "fingerprint"@[i] != '=' && "fingerprint"@[i] != '\n',
        "version"@.len() == 7,
        "order_policy"@.len() == 12,
        "library_count"@.len() == 13,
        "columns"@.len() == 7,
        "rows"@.len() == 4,
        "fingerprint"@.len() == 11,
        "version"@ != "columns"@,
{
    reveal_strlit("version");
    reveal_strlit("order_policy");
    reveal_strlit("library_count");
    reveal_strlit("columns");
    reveal_strlit("rows");
    reveal_strlit("fingerprint");
    reveal_strlit("version=");
    reveal_strlit("order_policy=");
    reveal_strlit("library_count=");
    reveal_strlit("columns=");
    reveal_strlit("rows=");
    reveal_strlit("fingerprint=");
    assert("version="@ =~= "version"@.push('='));
    assert("order_policy="@ =~= "order_policy"@.push('='));
    assert("library_count="@ =~= "library_count"@.push('='));
    assert("columns="@ =~= "columns"@.push('='));
    assert("rows="@ =~= "rows"@.push('='));
    assert("fingerprint="@ =~= "fingerprint"@.push('='));
    assert("version"@[0] != "columns"@[0]);
}

/// A manifest that is written is read back.
pub proof fn law_manifest_round_trip(manifest: ManifestView)
    requires
        textlist::is_line(manifest.order_policy),
    ensures
        world_cache::manifest_in(
            textlist::lines_text(world_cache::manifest_lines(manifest)),
        ) == Some(manifest),
{
    let list = world_cache::manifest_lines(manifest);
    let version = text::decimal_text(manifest.version as nat);
    let count = text::decimal_text(manifest.library_count as nat);
    let columns = text::decimal_text(manifest.columns as nat);
    let rows = text::decimal_text(manifest.rows as nat);
    let print = text::hex_text(manifest.fingerprint as nat, 16);
    lemma_keys();
    lemma_decimal_is_line(manifest.version as nat);
    lemma_decimal_is_line(manifest.library_count as nat);
    lemma_decimal_is_line(manifest.columns as nat);
    lemma_decimal_is_line(manifest.rows as nat);
    lemma_hex_is_line(manifest.fingerprint);
    lemma_setting("version="@, "version"@, version);
    lemma_setting("order_policy="@, "order_policy"@, manifest.order_policy);
    lemma_setting("library_count="@, "library_count"@, count);
    lemma_setting("columns="@, "columns"@, columns);
    lemma_setting("rows="@, "rows"@, rows);
    lemma_setting("fingerprint="@, "fingerprint"@, print);
    text::lemma_decimal_round_trip(
        manifest.version as nat,
        u32::MAX as nat,
        IntError::PosOverflow,
    );
    text::lemma_decimal_round_trip(
        manifest.library_count as nat,
        usize::MAX as nat,
        IntError::PosOverflow,
    );
    text::lemma_decimal_round_trip(
        manifest.columns as nat,
        usize::MAX as nat,
        IntError::PosOverflow,
    );
    text::lemma_decimal_round_trip(
        manifest.rows as nat,
        usize::MAX as nat,
        IntError::PosOverflow,
    );
    hashing::law_hex_round_trip(manifest.fingerprint);
    assert forall|i: int| 0 <= i < list.len() implies textlist::is_line(#[trigger] list[i]) by {
        assert(i == 0 || i == 1 || i == 2 || i == 3 || i == 4 || i == 5);
    }
    textlist::law_lines_round_trip(list);
    let p0 = world_cache::parts_in(list.take(0));
    assert(list.take(0) =~= Seq::<Seq<char>>::empty());
    assert(list.take(1).drop_last() =~= list.take(0));
    assert(list.take(2).drop_last() =~= list.take(1));
    assert(list.take(3).drop_last() =~= list.take(2));
    assert(list.take(4).drop_last() =~= list.take(3));
    assert(list.take(5).drop_last() =~= list.take(4));
    assert(list.take(6).drop_last() =~= list.take(5));
    assert(list.take(6) =~= list);
    let p1 = PartsView { version: Some(manifest.version), ..p0->Some_0 };
    assert(world_cache::parts_in(list.take(1)) == Some(p1));
    let p2 = PartsView { order_policy: Some(manifest.order_policy), ..p1 };
    assert(world_cache::parts_in(list.take(2)) == Some(p2));
    let p3 = PartsView { library_count: Some(manifest.library_count), ..p2 };
    assert(world_cache::parts_in(list.take(3)) == Some(p3));
    let p4 = PartsView { columns: Some(manifest.columns), ..p3 };
    assert(world_cache::parts_in(list.take(4)) == Some(p4));
    let p5 = PartsView { rows: Some(manifest.rows), ..p4 };
    assert(world_cache::parts_in(list.take(5)) == Some(p5));
    let p6 = PartsView { fingerprint: Some(manifest.fingerprint), ..p5 };
    assert(world_cache::parts_in(list.take(6)) == Some(p6));
}

proof fn lemma_policy_is_line()
    ensures
        textlist::is_line(WORLD_ORDER_POLICY@),
{
    reveal_strlit("path-snapshot-v1");
}

/// An index is current for the library it was made for, and stale for one that lies on
/// another grid or has another fingerprint.
pub proof fn law_index_tells_libraries_apart(
    state_dir: Seq<char>,
    library: Seq<Seq<char>>,
    other: Seq<Seq<char>>,
    path: Seq<char>,
)
    ensures
        world_cache::state_of(
            StoredTextView::Content(world_cache::index_of(state_dir, library).manifest_text),
            path,
            world_cache::manifest_for(tiles::snapshot_of(other)),
        ) == Ok::<ManifestState, Seq<char>>(
            if world_cache::manifest_for(tiles::snapshot_of(library)) == world_cache::manifest_for(tiles::snapshot_of(other)) {
                ManifestState::Current
            } else {
                ManifestState::Stale
            },
        ),
{
    lemma_policy_is_line();
    law_manifest_round_trip(world_cache::manifest_for(tiles::snapshot_of(library)));
}

/// What was indexed is read back from the index alone, whatever has become of the library
/// since.
pub proof fn law_indexed_snapshot_survives(
    config: ConfigView,
    environment: Seq<(Seq<char>, Seq<char>)>,
    library: Seq<Seq<char>>,
)
    requires
        world_cache::world_places(config, environment) is Ok,
        library.len() <= usize::MAX,
        forall|i: int| 0 <= i < library.len() ==> textlist::is_line(#[trigger] library[i]),
    ensures
        ({
            let index = world_cache::index_of(
                world_cache::world_places(config, environment)->Ok_0.1,
                library,
            );
            world_cache::indexed_snapshot(
                config,
                environment,
                StoredTextView::Content(index.manifest_text),
                StoredTextView::Content(index.snapshot_text),
            ) == Ok::<Option<SnapshotView>, Seq<char>>(Some(tiles::snapshot_of(library)))
        }),
{
    lemma_policy_is_line();
    law_manifest_round_trip(world_cache::manifest_for(tiles::snapshot_of(library)));
    textlist::law_lines_round_trip(library);
}

/// A stored snapshot is found again under its fingerprint.
pub proof fn law_stored_snapshot_is_found(
    config: ConfigView,
    environment: Seq<(Seq<char>, Seq<char>)>,
    library: Seq<Seq<char>>,
    disk: DiskView,
)
    requires
        world_cache::world_places(config, environment) is Ok,
        forall|i: int| 0 <= i < library.len() ==> textlist::is_line(#[trigger] library[i]),
    ensures
        world_cache::snapshot_by_fingerprint(
            config,
            environment,
            tiles::snapshot_of(library).fingerprint,
            StoredTextView::Content(textlist::lines_text(library)),
            disk,
        ) == Ok::<Option<SnapshotView>, Seq<char>>(Some(tiles::snapshot_of(library))),
{
    textlist::law_lines_round_trip(library);
}

/// The cache is called ready only where its index is current, there is a wallpaper, and
/// no thumbnail and no tile is missing.
pub proof fn law_ready_means_complete(
    config: ConfigView,
    environment: Seq<(Seq<char>, Seq<char>)>,
    disk: DiskView,
    cache: CacheFilesView,
    edge: u32,
)
    requires
        world_cache::world_status(config, environment, disk, cache, edge) is Ok,
    ensures
        ({
            let status = world_cache::world_status(config, environment, disk, cache, edge)->Ok_0;
            status.ready <==> {
                &&& status.manifest_state == ManifestState::Current
                &&& status.library_count > 0
                &&& status.cell_missing == 0
                &&& status.world_tile_missing == 0
            }
        }),
{
    let (wall_dir, state_dir, quarantine_dir) = world_cache::world_places(config, environment)->Ok_0;
    let library = control::scanned(wall_dir, quarantine_dir, disk)->Ok_0;
    let cells = tiles::cells_of(
        library,
        world_cache::world_dir(state_dir),
        edge,
        cache.found,
        cache.error,
    )->Ok_0;
    let tiles = tiles::pyramid_from(
        world_cache::world_dir(state_dir),
        world_cache::tiles_for(tiles::snapshot_of(library), edge, DEFAULT_WORLD_TILE_CELLS),
        0,
        world_cache::keys_of(cells),
    );
    tiles::lemma_stored_count(world_cache::cell_images(cells), cache.images);
    tiles::lemma_stored_count(world_cache::tile_images(tiles), cache.images);
}

} // verus!
