//! The work of making the world cache: what is told of it, and what comes of it.

use crate::hashing::padded_usize;
use crate::report::{
    encode_world_cache_status, encode_world_lod_plans, json_string, push_all, FailureView,
    WorldCacheFailureRecord,
};
use crate::selection::{
    estimated_world_cache_remaining_bytes, world_lod_plan_counts, WorldCacheSelection,
    WorldWorkPlan,
};
use crate::text::{
    concat2, concat3, concat4, concat5, copy_text, decimal_u128, decimal_u32, decimal_u64,
    decimal_usize, text_of_bool,
};
use crate::textlist::text_of_lines;
use crate::textmap::TextMap;
use crate::tiles::{
    TileView, WorldCellCacheEntry, WorldTileCacheEntry, DEFAULT_WORLD_CELL_THUMBNAIL_EDGE,
    DEFAULT_WORLD_TILE_CELLS,
};
use crate::world_cache::WorldLodPlan;
use crate::hashing;
use crate::report;
use crate::selection;
use crate::text;
use crate::textlist;
use crate::tiles;
use vstd::prelude::*;

verus! {

// ---------------------------------------------------------------------------
// Sizes and rates

/// How many bytes a unit has that is so many steps above the byte.
pub open spec fn unit_bytes(step: nat) -> nat {
    if step == 0 {
        1
    } else if step == 1 {
        1024
    } else if step == 2 {
        1024 * 1024
    } else if step == 3 {
        1024 * 1024 * 1024
    } else {
        1024 * 1024 * 1024 * 1024
    }
}

/// The name of a unit.
pub open spec fn unit_name(step: nat) -> Seq<char> {
    if step == 0 {
        "B"@
    } else if step == 1 {
        "KiB"@
    } else if step == 2 {
        "MiB"@
    } else if step == 3 {
        "GiB"@
    } else {
        "TiB"@
    }
}

/// The unit in which a size is told: the first in which it is below 1024, or the last.
pub open spec fn unit_for(bytes: nat) -> nat {
    if bytes < 1024 {
        0
    } else if bytes < 1024 * 1024 {
        1
    } else if bytes < 1024 * 1024 * 1024 {
        2
    } else if bytes < 1024 * 1024 * 1024 * 1024 {
        3
    } else {
        4
    }
}

/// A size in words: bytes as they are, and greater units rounded to a tenth.
pub open spec fn size_text(bytes: u64) -> Seq<char> {
    let step = unit_for(bytes as nat);
    let unit = unit_bytes(step);
    if step == 0 {
        text::decimal_text(bytes as nat) + " B"@
    } else {
        let tenths = (bytes * 10 + unit / 2) as nat / unit;
        text::decimal_text(tenths / 10) + "."@ + text::decimal_text(tenths % 10) + " "@
            + unit_name(step)
    }
}

/// A size in words.
pub fn format_bytes(bytes: u64) -> (text: String)
    ensures
        text@ == size_text(bytes),
{
    if bytes < 1024 {
        return concat2(decimal_u64(bytes).as_str(), " B");
    }
    let (unit, name): (u64, &'static str) = if bytes < 1024 * 1024 {
        (1024, "KiB")
    } else if bytes < 1024 * 1024 * 1024 {
        (1024 * 1024, "MiB")
    } else if bytes < 1024 * 1024 * 1024 * 1024 {
        (1024 * 1024 * 1024, "GiB")
    } else {
        (1024 * 1024 * 1024 * 1024, "TiB")
    };
    let tenths: u128 = ((bytes as u128) * 10 + (unit as u128) / 2) / (unit as u128);
    concat5(
        decimal_u128(tenths / 10).as_str(),
        ".",
        decimal_u128(tenths % 10).as_str(),
        " ",
        name,
    )
}

/// A rate in words: so many pieces in so many milliseconds, to a thousandth of a piece in a
/// second.
pub open spec fn rate_text(processed: usize, elapsed_ms: u128) -> Seq<char> {
    let rate = (processed * 1_000_000) as nat / tiles::one_or_more(elapsed_ms as nat);
    text::decimal_text(rate / 1000) + "."@ + hashing::padded(rate % 1000, 3)
}

/// A rate in words.
pub fn format_rate_per_second(processed: usize, elapsed_ms: u128) -> (text: String)
    ensures
        text@ == rate_text(processed, elapsed_ms),
{
    let elapsed: u128 = if elapsed_ms == 0 {
        1
    } else {
        elapsed_ms
    };
    let rate: u128 = (processed as u128) * 1_000_000 / elapsed;
    concat3(
        decimal_u128(rate / 1000).as_str(),
        ".",
        padded_usize((rate % 1000) as usize, 3).as_str(),
    )
}

// ---------------------------------------------------------------------------
// The plan

/// What the work comes to, in JSON.
pub open spec fn plan_report(plan: WorldWorkPlan, failed: usize) -> Seq<char> {
    "{\"status\":"@ + report::status_json(plan.status, failed) + ",\"thumbnail_count\":"@
        + text::decimal_text(plan.thumbnail_count as nat) + ",\"thumbnail_ready\":"@
        + text::decimal_text(plan.thumbnail_ready as nat) + ",\"thumbnail_missing\":"@
        + text::decimal_text(plan.thumbnail_missing as nat) + ",\"world_tile_count\":"@
        + text::decimal_text(plan.world_tile_count as nat) + ",\"world_tile_ready\":"@
        + text::decimal_text(plan.world_tile_ready as nat) + ",\"world_tile_missing\":"@
        + text::decimal_text(plan.world_tile_missing as nat) + ",\"planned_world_lods\":"@
        + report::plans_json(plan.world_lods@) + ",\"estimated_remaining_bytes\":"@
        + text::decimal_text(plan.estimated_remaining_bytes as nat) + ",\"dry_run\":"@
        + text::bool_text(plan.dry_run) + "}"@
}

/// What a level comes to, in words.
pub open spec fn lod_planned(lod: WorldLodPlan) -> Seq<char> {
    "world tiles L"@ + text::decimal_text(lod.lod as nat) + " "@
        + text::decimal_text(lod.tile_ready as nat) + "/"@
        + text::decimal_text(lod.tile_count as nat) + " ready; "@
        + text::decimal_text(lod.tile_missing as nat) + " planned"@
}

/// What the levels come to, in words.
pub open spec fn lods_planned(lods: Seq<WorldLodPlan>) -> Seq<Seq<char>> {
    if lods.len() == 0 {
        seq!["world tiles 0 planned"@]
    } else {
        Seq::new(lods.len(), |i: int| lod_planned(lods[i]))
    }
}

/// What a level comes to, in figures.
pub open spec fn lod_figures(lod: WorldLodPlan) -> Seq<Seq<char>> {
    seq![
        "world_tiles_l"@ + text::decimal_text(lod.lod as nat) + "_planned\t"@
            + text::decimal_text(lod.tile_count as nat),
        "world_tiles_l"@ + text::decimal_text(lod.lod as nat) + "_ready\t"@
            + text::decimal_text(lod.tile_ready as nat),
        "world_tiles_l"@ + text::decimal_text(lod.lod as nat) + "_missing\t"@
            + text::decimal_text(lod.tile_missing as nat),
    ]
}

/// What levels come to, in figures.
pub open spec fn lods_figures(lods: Seq<WorldLodPlan>) -> Seq<Seq<char>>
    decreases lods.len(),
{
    if lods.len() == 0 {
        Seq::empty()
    } else {
        lods_figures(lods.drop_last()) + lod_figures(lods.last())
    }
}

/// What the work comes to, in words or in figures.
pub open spec fn plan_lines(plan: WorldWorkPlan, progress: bool) -> Seq<Seq<char>> {
    let told = if progress {
        seq![
            "indexed "@ + text::decimal_text(plan.status.library_count as nat) + " wallpapers"@,
            "cell thumbnails "@ + text::decimal_text(plan.thumbnail_ready as nat) + "/"@
                + text::decimal_text(plan.thumbnail_count as nat) + " ready; "@
                + text::decimal_text(plan.thumbnail_missing as nat) + " planned"@,
        ] + lods_planned(plan.world_lods@) + seq![
            "estimated remaining "@ + size_text(plan.estimated_remaining_bytes) + " ("@
                + text::decimal_text(plan.estimated_remaining_bytes as nat) + " bytes)"@,
        ]
    } else {
        seq![
            "library\t"@ + text::decimal_text(plan.status.library_count as nat),
            "cell_thumbnails_planned\t"@ + text::decimal_text(plan.thumbnail_count as nat),
            "cell_thumbnails_ready\t"@ + text::decimal_text(plan.thumbnail_ready as nat),
            "cell_thumbnails_missing\t"@ + text::decimal_text(plan.thumbnail_missing as nat),
            "world_tiles_planned\t"@ + text::decimal_text(plan.world_tile_count as nat),
            "world_tiles_ready\t"@ + text::decimal_text(plan.world_tile_ready as nat),
            "world_tiles_missing\t"@ + text::decimal_text(plan.world_tile_missing as nat),
            "estimated_remaining_bytes\t"@
                + text::decimal_text(plan.estimated_remaining_bytes as nat),
        ] + lods_figures(plan.world_lods@)
    };
    let noted = if plan.dry_run {
        told.push("dry_run\ttrue"@)
    } else {
        told
    };
    noted.push("message\tworld tile LOD generation planned from real cached imagery"@)
}

fn planned_lods(lods: &Vec<WorldLodPlan>) -> (list: Vec<String>)
    ensures
        text::texts(list@) == lods_planned(lods@),
{
    let mut list: Vec<String> = Vec::new();
    if lods.len() == 0 {
        list.push(copy_text("world tiles 0 planned"));
        assert(text::texts(list@) =~= lods_planned(lods@));
        return list;
    }
    let ghost wanted = lods_planned(lods@);
    let mut i: usize = 0;
    assert(text::texts(list@) =~= wanted.take(0));
    while i < lods.len()
        invariant
            i <= lods@.len(),
            lods@.len() > 0,
            wanted == lods_planned(lods@),
            text::texts(list@) == wanted.take(i as int),
        decreases lods@.len() - i,
    {
        let ghost before = text::texts(list@);
        let lod = &lods[i];
        list.push(
            concat5(
                concat5(
                    "world tiles L",
                    decimal_usize(lod.lod).as_str(),
                    " ",
                    decimal_usize(lod.tile_ready).as_str(),
                    "/",
                ).as_str(),
                decimal_usize(lod.tile_count).as_str(),
                " ready; ",
                decimal_usize(lod.tile_missing).as_str(),
                " planned",
            ),
        );
        proof {
            assert(list@.last()@ == lod_planned(lods@[i as int]));
            assert(text::texts(list@) =~= before.push(list@.last()@));
            assert(text::texts(list@) =~= wanted.take(i + 1));
        }
        i = i + 1;
    }
    assert(wanted.take(i as int) =~= wanted);
    list
}

fn figures_of_lods(lods: &Vec<WorldLodPlan>) -> (list: Vec<String>)
    ensures
        text::texts(list@) == lods_figures(lods@),
{
    let mut list: Vec<String> = Vec::new();
    let mut i: usize = 0;
    assert(lods@.take(0) =~= Seq::<WorldLodPlan>::empty());
    assert(text::texts(list@) =~= Seq::<Seq<char>>::empty());
    while i < lods.len()
        invariant
            i <= lods@.len(),
            text::texts(list@) == lods_figures(lods@.take(i as int)),
        decreases lods@.len() - i,
    {
        let ghost before = text::texts(list@);
        let lod = &lods[i];
        let mut three: Vec<String> = Vec::new();
        three.push(
            concat4(
                "world_tiles_l",
                decimal_usize(lod.lod).as_str(),
                "_planned\t",
                decimal_usize(lod.tile_count).as_str(),
            ),
        );
        three.push(
            concat4(
                "world_tiles_l",
                decimal_usize(lod.lod).as_str(),
                "_ready\t",
                decimal_usize(lod.tile_ready).as_str(),
            ),
        );
        three.push(
            concat4(
                "world_tiles_l",
                decimal_usize(lod.lod).as_str(),
                "_missing\t",
                decimal_usize(lod.tile_missing).as_str(),
            ),
        );
        proof {
            assert(text::texts(three@) =~= lod_figures(lods@[i as int]));
            assert(lods@.take(i + 1).drop_last() =~= lods@.take(i as int));
        }
        push_all(&mut list, three);
        i = i + 1;
    }
    assert(lods@.take(i as int) =~= lods@);
    list
}

/// What the work comes to as it is printed: in JSON, in words or in figures.
pub fn world_cache_plan_text(plan: &WorldWorkPlan, failed: usize, progress: bool, json: bool) -> (text:
    String)
    ensures
        text@ == if json {
            plan_report(*plan, failed) + "\n"@
        } else {
            textlist::lines_text(plan_lines(*plan, progress))
        },
{
    if json {
        let mut text = copy_text("{\"status\":");
        text.append(encode_world_cache_status(&plan.status, failed).as_str());
        text.append(",\"thumbnail_count\":");
        text.append(decimal_usize(plan.thumbnail_count).as_str());
        text.append(",\"thumbnail_ready\":");
        text.append(decimal_usize(plan.thumbnail_ready).as_str());
        text.append(",\"thumbnail_missing\":");
        text.append(decimal_usize(plan.thumbnail_missing).as_str());
        text.append(",\"world_tile_count\":");
        text.append(decimal_usize(plan.world_tile_count).as_str());
        text.append(",\"world_tile_ready\":");
        text.append(decimal_usize(plan.world_tile_ready).as_str());
        text.append(",\"world_tile_missing\":");
        text.append(decimal_usize(plan.world_tile_missing).as_str());
        text.append(",\"planned_world_lods\":");
        text.append(encode_world_lod_plans(&plan.world_lods).as_str());
        text.append(",\"estimated_remaining_bytes\":");
        text.append(decimal_u64(plan.estimated_remaining_bytes).as_str());
        text.append(",\"dry_run\":");
        text.append(text_of_bool(plan.dry_run).as_str());
        text.append("}");
        text.append("\n");
        return text;
    }
    let mut list: Vec<String> = Vec::new();
    if progress {
        list.push(
            concat3("indexed ", decimal_usize(plan.status.library_count).as_str(), " wallpapers"),
        );
        list.push(
            concat3(
                concat5(
                    "cell thumbnails ",
                    decimal_usize(plan.thumbnail_ready).as_str(),
                    "/",
                    decimal_usize(plan.thumbnail_count).as_str(),
                    " ready; ",
                ).as_str(),
                decimal_usize(plan.thumbnail_missing).as_str(),
                " planned",
            ),
        );
        assert(text::texts(list@) =~= seq![
            "indexed "@ + text::decimal_text(plan.status.library_count as nat) + " wallpapers"@,
            "cell thumbnails "@ + text::decimal_text(plan.thumbnail_ready as nat) + "/"@
                + text::decimal_text(plan.thumbnail_count as nat) + " ready; "@
                + text::decimal_text(plan.thumbnail_missing as nat) + " planned"@,
        ]);
        push_all(&mut list, planned_lods(&plan.world_lods));
        let ghost before = text::texts(list@);
        list.push(
            concat5(
                "estimated remaining ",
                format_bytes(plan.estimated_remaining_bytes).as_str(),
                " (",
                decimal_u64(plan.estimated_remaining_bytes).as_str(),
                " bytes)",
            ),
        );
        assert(text::texts(list@) =~= before.push(list@.last()@));
        assert(text::texts(list@) =~= before + seq![
            "estimated remaining "@ + size_text(plan.estimated_remaining_bytes) + " ("@
                + text::decimal_text(plan.estimated_remaining_bytes as nat) + " bytes)"@,
        ]);
    } else {
        list.push(concat2("library\t", decimal_usize(plan.status.library_count).as_str()));
        list.push(
            concat2("cell_thumbnails_planned\t", decimal_usize(plan.thumbnail_count).as_str()),
        );
        list.push(concat2("cell_thumbnails_ready\t", decimal_usize(plan.thumbnail_ready).as_str()));
        list.push(
            concat2("cell_thumbnails_missing\t", decimal_usize(plan.thumbnail_missing).as_str()),
        );
        list.push(concat2("world_tiles_planned\t", decimal_usize(plan.world_tile_count).as_str()));
        list.push(concat2("world_tiles_ready\t", decimal_usize(plan.world_tile_ready).as_str()));
        list.push(
            concat2("world_tiles_missing\t", decimal_usize(plan.world_tile_missing).as_str()),
        );
        list.push(
            concat2(
                "estimated_remaining_bytes\t",
                decimal_u64(plan.estimated_remaining_bytes).as_str(),
            ),
        );
        assert(text::texts(list@) =~= seq![
            "library\t"@ + text::decimal_text(plan.status.library_count as nat),
            "cell_thumbnails_planned\t"@ + text::decimal_text(plan.thumbnail_count as nat),
            "cell_thumbnails_ready\t"@ + text::decimal_text(plan.thumbnail_ready as nat),
            "cell_thumbnails_missing\t"@ + text::decimal_text(plan.thumbnail_missing as nat),
            "world_tiles_planned\t"@ + text::decimal_text(plan.world_tile_count as nat),
            "world_tiles_ready\t"@ + text::decimal_text(plan.world_tile_ready as nat),
            "world_tiles_missing\t"@ + text::decimal_text(plan.world_tile_missing as nat),
            "estimated_remaining_bytes\t"@
                + text::decimal_text(plan.estimated_remaining_bytes as nat),
        ]);
        push_all(&mut list, figures_of_lods(&plan.world_lods));
    }
    if plan.dry_run {
        let ghost before = text::texts(list@);
        list.push(copy_text("dry_run\ttrue"));
        assert(text::texts(list@) =~= before.push("dry_run\ttrue"@));
    }
    let ghost before = text::texts(list@);
    list.push(copy_text("message\tworld tile LOD generation planned from real cached imagery"));
    assert(text::texts(list@) =~= before.push("message\tworld tile LOD generation planned from real cached imagery"@));
    text_of_lines(&list)
}

/// What is told of work that goes on by itself.
pub open spec fn background_report(pid: u32, log_path: Seq<char>, json: bool) -> Seq<char> {
    if json {
        "{\"background_pid\":"@ + text::decimal_text(pid as nat) + ",\"background_log\":"@
            + report::quoted_text(log_path) + ",\"message\":"@
            + report::quoted_text("world cache compute started in background"@) + "}"@ + "\n"@
    } else {
        textlist::lines_text(seq![
            "background_pid\t"@ + text::decimal_text(pid as nat),
            "background_log\t"@ + log_path,
            "message\tworld cache compute started in background"@,
        ])
    }
}

/// What is told of work that goes on by itself.
pub fn background_world_cache_compute_text(pid: u32, log_path: &str, json: bool) -> (text: String)
    ensures
        text@ == background_report(pid, log_path@, json),
{
    if json {
        let mut text = copy_text("{\"background_pid\":");
        text.append(decimal_u32(pid).as_str());
        text.append(",\"background_log\":");
        text.append(json_string(log_path).as_str());
        text.append(",\"message\":");
        text.append(json_string("world cache compute started in background").as_str());
        text.append("}");
        text.append("\n");
        return text;
    }
    let mut list: Vec<String> = Vec::new();
    list.push(concat2("background_pid\t", decimal_u32(pid).as_str()));
    list.push(concat2("background_log\t", log_path));
    list.push(copy_text("message\tworld cache compute started in background"));
    assert(text::texts(list@) =~= seq![
        "background_pid\t"@ + text::decimal_text(pid as nat),
        "background_log\t"@ + log_path@,
        "message\tworld cache compute started in background"@,
    ]);
    text_of_lines(&list)
}

// ---------------------------------------------------------------------------
// Work in progress

/// What has come of the work.
#[derive(Clone, Copy, Debug, PartialEq, Eq, Structural)]
pub struct WorldCacheComputeResult {
    pub cell_generated: usize,
    pub cell_skipped: usize,
    pub tile_generated: usize,
    pub tile_skipped: usize,
    pub failed: usize,
    pub limited: bool,
}

/// What has come of the work, in JSON or in figures.
pub open spec fn result_report(result: WorldCacheComputeResult, json: bool) -> Seq<char> {
    if json {
        "{\"cell_generated\":"@ + text::decimal_text(result.cell_generated as nat)
            + ",\"cell_skipped\":"@ + text::decimal_text(result.cell_skipped as nat)
            + ",\"tile_generated\":"@ + text::decimal_text(result.tile_generated as nat)
            + ",\"tile_skipped\":"@ + text::decimal_text(result.tile_skipped as nat)
            + ",\"failed\":"@ + text::decimal_text(result.failed as nat) + ",\"limited\":"@
            + text::bool_text(result.limited) + ",\"thumbnail_edge\":"@
            + text::decimal_text(DEFAULT_WORLD_CELL_THUMBNAIL_EDGE as nat) + ",\"tile_cells\":"@
            + text::decimal_text(DEFAULT_WORLD_TILE_CELLS as nat) + "}"@ + "\n"@
    } else {
        textlist::lines_text(seq![
            "cell_generated\t"@ + text::decimal_text(result.cell_generated as nat),
            "cell_skipped\t"@ + text::decimal_text(result.cell_skipped as nat),
            "tile_generated\t"@ + text::decimal_text(result.tile_generated as nat),
            "tile_skipped\t"@ + text::decimal_text(result.tile_skipped as nat),
            "failed\t"@ + text::decimal_text(result.failed as nat),
            "limited\t"@ + text::bool_text(result.limited),
            "thumbnail_edge\t"@ + text::decimal_text(DEFAULT_WORLD_CELL_THUMBNAIL_EDGE as nat),
            "tile_cells\t"@ + text::decimal_text(DEFAULT_WORLD_TILE_CELLS as nat),
        ])
    }
}

/// What has come of the work as it is printed.
pub fn world_cache_result_text(result: &WorldCacheComputeResult, json: bool) -> (text: String)
    ensures
        text@ == result_report(*result, json),
{
    if json {
        let mut text = copy_text("{\"cell_generated\":");
        text.append(decimal_usize(result.cell_generated).as_str());
        text.append(",\"cell_skipped\":");
        text.append(decimal_usize(result.cell_skipped).as_str());
        text.append(",\"tile_generated\":");
        text.append(decimal_usize(result.tile_generated).as_str());
        text.append(",\"tile_skipped\":");
        text.append(decimal_usize(result.tile_skipped).as_str());
        text.append(",\"failed\":");
        text.append(decimal_usize(result.failed).as_str());
        text.append(",\"limited\":");
        text.append(text_of_bool(result.limited).as_str());
        text.append(",\"thumbnail_edge\":");
        text.append(decimal_u32(DEFAULT_WORLD_CELL_THUMBNAIL_EDGE).as_str());
        text.append(",\"tile_cells\":");
        text.append(decimal_usize(DEFAULT_WORLD_TILE_CELLS).as_str());
        text.append("}");
        text.append("\n");
        return text;
    }
    let mut list: Vec<String> = Vec::new();
    list.push(concat2("cell_generated\t", decimal_usize(result.cell_generated).as_str()));
    list.push(concat2("cell_skipped\t", decimal_usize(result.cell_skipped).as_str()));
    list.push(concat2("tile_generated\t", decimal_usize(result.tile_generated).as_str()));
    list.push(concat2("tile_skipped\t", decimal_usize(result.tile_skipped).as_str()));
    list.push(concat2("failed\t", decimal_usize(result.failed).as_str()));
    list.push(concat2("limited\t", text_of_bool(result.limited).as_str()));
    list.push(concat2("thumbnail_edge\t", decimal_u32(DEFAULT_WORLD_CELL_THUMBNAIL_EDGE).as_str()));
    list.push(concat2("tile_cells\t", decimal_usize(DEFAULT_WORLD_TILE_CELLS).as_str()));
    assert(text::texts(list@) =~= seq![
        "cell_generated\t"@ + text::decimal_text(result.cell_generated as nat),
        "cell_skipped\t"@ + text::decimal_text(result.cell_skipped as nat),
        "tile_generated\t"@ + text::decimal_text(result.tile_generated as nat),
        "tile_skipped\t"@ + text::decimal_text(result.tile_skipped as nat),
        "failed\t"@ + text::decimal_text(result.failed as nat),
        "limited\t"@ + text::bool_text(result.limited),
        "thumbnail_edge\t"@ + text::decimal_text(DEFAULT_WORLD_CELL_THUMBNAIL_EDGE as nat),
        "tile_cells\t"@ + text::decimal_text(DEFAULT_WORLD_TILE_CELLS as nat),
    ]);
    text_of_lines(&list)
}

/// What is told before the work starts.
pub open spec fn start_lines(selection: WorldCacheSelection, lods: Seq<WorldLodPlan>, bytes: u64) -> Seq<
    Seq<char>,
> {
    seq![
        "indexed "@ + text::decimal_text(selection.status.library_count as nat) + " wallpapers"@,
        "cell thumbnails starting 0/"@ + text::decimal_text(selection.cell_indices@.len())
            + (if selection.limited { " limited"@ } else { Seq::<char>::empty() }),
    ] + Seq::new(
        lods.len(),
        |i: int| "world tiles L"@ + text::decimal_text(lods[i].lod as nat) + " starting 0/"@
            + text::decimal_text(
            lods[i].tile_count as nat,
        ),
    ) + seq![
        "estimated remaining "@ + size_text(bytes) + " ("@ + text::decimal_text(bytes as nat)
            + " bytes)"@,
    ]
}

/// What is told before the work starts.
pub fn world_cache_start_text(selection: &WorldCacheSelection, files: &TextMap<u64>) -> (text: String)
    ensures
        text@ == textlist::lines_text(
            start_lines(
                *selection,
                selection::lod_plans(selection@.tiles, files.raw()),
                selection::work_estimate(selection@, files.raw()),
            ),
        ),
{
    let lods = world_lod_plan_counts(&selection.tile_entries, files);
    let bytes = estimated_world_cache_remaining_bytes(selection, files);
    let mut list: Vec<String> = Vec::new();
    list.push(
        concat3(
            "indexed ",
            decimal_usize(selection.status.library_count).as_str(),
            " wallpapers",
        ),
    );
    proof {
        reveal_strlit("");
        assert(""@ =~= Seq::<char>::empty());
    }
    let limited = if selection.limited {
        " limited"
    } else {
        ""
    };
    list.push(
        concat3(
            "cell thumbnails starting 0/",
            decimal_usize(selection.cell_indices.len()).as_str(),
            limited,
        ),
    );
    let ghost head = text::texts(list@);
    assert(head =~= seq![
        "indexed "@ + text::decimal_text(selection.status.library_count as nat) + " wallpapers"@,
        "cell thumbnails starting 0/"@ + text::decimal_text(selection.cell_indices@.len())
            + (if selection.limited { " limited"@ } else { Seq::<char>::empty() }),
    ]);
    let ghost middle = Seq::new(
        lods@.len(),
        |i: int| "world tiles L"@ + text::decimal_text(lods@[i].lod as nat) + " starting 0/"@
            + text::decimal_text(
            lods@[i].tile_count as nat,
        ),
    );
    let mut i: usize = 0;
    assert(text::texts(list@) =~= head + middle.take(0));
    while i < lods.len()
        invariant
            i <= lods@.len(),
            middle == Seq::new(
                lods@.len(),
                |i: int| "world tiles L"@ + text::decimal_text(lods@[i].lod as nat)
                    + " starting 0/"@
                    + text::decimal_text(lods@[i].tile_count as nat),
            ),
            text::texts(list@) == head + middle.take(i as int),
        decreases lods@.len() - i,
    {
        let ghost before = text::texts(list@);
        let lod = &lods[i];
        list.push(
            concat4(
                "world tiles L",
                decimal_usize(lod.lod).as_str(),
                " starting 0/",
                decimal_usize(lod.tile_count).as_str(),
            ),
        );
        proof {
            assert(list@.last()@ == middle[i as int]);
            assert(text::texts(list@) =~= before.push(list@.last()@));
            assert(text::texts(list@) =~= head + middle.take(i + 1));
        }
        i = i + 1;
    }
    assert(middle.take(i as int) =~= middle);
    let ghost before = text::texts(list@);
    list.push(
        concat5(
            "estimated remaining ",
            format_bytes(bytes).as_str(),
            " (",
            decimal_u64(bytes).as_str(),
            " bytes)",
        ),
    );
    proof {
        assert(text::texts(list@) =~= before.push(list@.last()@));
        assert(text::texts(list@) =~= start_lines(*selection, lods@, bytes));
    }
    text_of_lines(&list)
}

/// How far the thumbnails are, in words.
pub open spec fn cell_progress(done: usize, total: usize, result: WorldCacheComputeResult) -> Seq<char> {
    "cell thumbnails "@ + text::decimal_text(done as nat) + "/"@ + text::decimal_text(total as nat)
        + " generated="@ + text::decimal_text(result.cell_generated as nat) + " skipped="@
        + text::decimal_text(result.cell_skipped as nat) + " failed="@
        + text::decimal_text(result.failed as nat)
}

/// How far the thumbnails are, in words.
pub fn cell_progress_text(done: usize, total: usize, result: &WorldCacheComputeResult) -> (text: String)
    ensures
        text@ == cell_progress(done, total, *result),
{
    let mut text = copy_text("cell thumbnails ");
    text.append(decimal_usize(done).as_str());
    text.append("/");
    text.append(decimal_usize(total).as_str());
    text.append(" generated=");
    text.append(decimal_usize(result.cell_generated).as_str());
    text.append(" skipped=");
    text.append(decimal_usize(result.cell_skipped).as_str());
    text.append(" failed=");
    text.append(decimal_usize(result.failed).as_str());
    text
}

/// How far the tiles are, in words.
pub open spec fn tile_progress(
    done: usize,
    total: usize,
    lod: usize,
    result: WorldCacheComputeResult,
) -> Seq<char> {
    "world tiles "@ + text::decimal_text(done as nat) + "/"@ + text::decimal_text(total as nat)
        + " L"@ + text::decimal_text(lod as nat) + " generated="@
        + text::decimal_text(result.tile_generated as nat) + " skipped="@
        + text::decimal_text(result.tile_skipped as nat) + " failed="@
        + text::decimal_text(result.failed as nat)
}

/// How far the tiles are, in words.
pub fn tile_progress_text(
    done: usize,
    total: usize,
    lod: usize,
    result: &WorldCacheComputeResult,
) -> (text: String)
    ensures
        text@ == tile_progress(done, total, lod, *result),
{
    let mut text = copy_text("world tiles ");
    text.append(decimal_usize(done).as_str());
    text.append("/");
    text.append(decimal_usize(total).as_str());
    text.append(" L");
    text.append(decimal_usize(lod).as_str());
    text.append(" generated=");
    text.append(decimal_usize(result.tile_generated).as_str());
    text.append(" skipped=");
    text.append(decimal_usize(result.tile_skipped).as_str());
    text.append(" failed=");
    text.append(decimal_usize(result.failed).as_str());
    text
}

/// What is told once the work is done.
pub open spec fn end_lines(processed: usize, elapsed_ms: u128) -> Seq<Seq<char>> {
    seq![
        "elapsed_ms\t"@ + text::decimal_text(elapsed_ms as nat),
        "work_rate_per_sec\t"@ + rate_text(processed, elapsed_ms),
    ]
}

/// How many pieces of work were selected.
pub open spec fn pieces(selection: WorldCacheSelection) -> usize {
    let count = selection.cell_indices@.len() + selection.tile_entries@.len();
    if count > usize::MAX {
        usize::MAX
    } else {
        count as usize
    }
}

/// What is told once the work is done.
pub fn world_cache_end_text(selection: &WorldCacheSelection, elapsed_ms: u128) -> (text: String)
    ensures
        text@ == textlist::lines_text(end_lines(pieces(*selection), elapsed_ms)),
{
    let processed = selection.cell_indices.len().saturating_add(selection.tile_entries.len());
    let mut list: Vec<String> = Vec::new();
    list.push(concat2("elapsed_ms\t", decimal_u128(elapsed_ms).as_str()));
    list.push(
        concat2("work_rate_per_sec\t", format_rate_per_second(processed, elapsed_ms).as_str()),
    );
    assert(text::texts(list@) =~= end_lines(processed, elapsed_ms));
    text_of_lines(&list)
}

/// The work while it goes on: what has come of it, and what went wrong.
#[derive(Clone, Debug, PartialEq, Eq)]
pub struct ComputeRun {
    pub result: WorldCacheComputeResult,
    pub failures: Vec<WorldCacheFailureRecord>,
}

/// The work while it goes on, as a mathematical value.
pub struct RunView {
    pub result: WorldCacheComputeResult,
    pub failures: Seq<FailureView>,
}

impl View for ComputeRun {
    type V = RunView;

    open spec fn view(&self) -> RunView {
        RunView { result: self.result, failures: report::failure_views(self.failures@) }
    }
}

impl RunView {
    /// Whether each failure is counted once.
    pub open spec fn counts_failures(self) -> bool {
        self.result.failed == self.failures.len()
    }
}

/// What came of a thumbnail.
#[derive(Clone, Debug, PartialEq, Eq)]
pub enum CellOutcome {
    /// It was there.
    Ready,
    /// It was made.
    Made,
    /// It could not be made, and why.
    Failed(String),
}

/// What came of a tile.
#[derive(Clone, Debug, PartialEq, Eq)]
pub enum TileOutcome {
    /// It was there.
    Ready,
    /// It was made, without the wallpapers that could not be shown.
    Made(Vec<WorldCacheFailureRecord>),
    /// It could not be made, and why.
    Failed(String),
}

/// The work before it starts.
pub open spec fn run_start(limited: bool) -> RunView {
    RunView {
        result: WorldCacheComputeResult {
            cell_generated: 0,
            cell_skipped: 0,
            tile_generated: 0,
            tile_skipped: 0,
            failed: 0,
            limited,
        },
        failures: Seq::empty(),
    }
}

/// The work with failures added.
pub open spec fn with_failures(run: RunView, more: Seq<FailureView>) -> RunView {
    RunView {
        result: WorldCacheComputeResult {
            failed: (run.failures.len() + more.len()) as usize,
            ..run.result
        },
        failures: run.failures + more,
    }
}

/// The work after a thumbnail.
pub open spec fn after_cell(run: RunView, source: Seq<char>, outcome: CellOutcome) -> RunView {
    match outcome {
        CellOutcome::Ready => RunView {
            result: WorldCacheComputeResult {
                cell_skipped: (run.result.cell_skipped + 1) as usize,
                ..run.result
            },
            ..run
        },
        CellOutcome::Made => RunView {
            result: WorldCacheComputeResult {
                cell_generated: (run.result.cell_generated + 1) as usize,
                ..run.result
            },
            ..run
        },
        CellOutcome::Failed(message) => with_failures(
            run,
            seq![FailureView { kind: "cell"@, item: source, message: message@ }],
        ),
    }
}

/// How a tile is named among failures.
pub open spec fn tile_name(tile: TileView) -> Seq<char> {
    "l"@ + text::decimal_text(tile.lod) + " r"@ + text::decimal_text(tile.tile_row) + " c"@
        + text::decimal_text(
        tile.tile_column,
    )
}

/// The work after a tile.
pub open spec fn after_tile(run: RunView, tile: TileView, outcome: TileOutcome) -> RunView {
    match outcome {
        TileOutcome::Ready => RunView {
            result: WorldCacheComputeResult {
                tile_skipped: (run.result.tile_skipped + 1) as usize,
                ..run.result
            },
            ..run
        },
        TileOutcome::Made(failures) => with_failures(
            RunView {
                result: WorldCacheComputeResult {
                    tile_generated: (run.result.tile_generated + 1) as usize,
                    ..run.result
                },
                ..run
            },
            report::failure_views(failures@),
        ),
        TileOutcome::Failed(message) => with_failures(
            run,
            seq![
                FailureView {
                    kind: "tile"@,
                    item: tile_name(tile) + " "@ + tile.image_path,
                    message: message@,
                },
            ],
        ),
    }
}

/// What is told of a thumbnail that could not be made.
pub open spec fn cell_notes(source: Seq<char>, outcome: CellOutcome) -> Seq<Seq<char>> {
    match outcome {
        CellOutcome::Failed(message) => seq![
            "muralctl: failed world cell thumbnail "@ + source + ": "@ + message@,
        ],
        _ => Seq::empty(),
    }
}

/// What is told of a tile that could not be made, or lacks wallpapers.
pub open spec fn tile_notes(tile: TileView, outcome: TileOutcome) -> Seq<Seq<char>> {
    match outcome {
        TileOutcome::Ready => Seq::empty(),
        TileOutcome::Made(failures) => Seq::new(
            failures@.len(),
            |i: int|
                "muralctl: skipped world cell thumbnail "@ + failures@[i].item@ + ": "@
                    + failures@[i].message@,
        ),
        TileOutcome::Failed(message) => seq![
            "muralctl: failed world tile "@ + tile_name(tile) + ": "@ + message@,
        ],
    }
}

fn name_of_tile(tile: &WorldTileCacheEntry) -> (name: String)
    ensures
        name@ == tile_name(tile@),
{
    let mut name = concat2("l", decimal_usize(tile.lod).as_str());
    name.append(" r");
    name.append(decimal_usize(tile.tile_row).as_str());
    name.append(" c");
    name.append(decimal_usize(tile.tile_column).as_str());
    name
}

impl ComputeRun {
    /// The work before it starts.
    pub fn new(limited: bool) -> (run: Self)
        ensures
            run@ == run_start(limited),
            run@.counts_failures(),
    {
        let run = ComputeRun {
            result: WorldCacheComputeResult {
                cell_generated: 0,
                cell_skipped: 0,
                tile_generated: 0,
                tile_skipped: 0,
                failed: 0,
                limited,
            },
            failures: Vec::new(),
        };
        assert(run@.failures =~= Seq::<FailureView>::empty());
        run
    }

    fn add_failures(&mut self, more: Vec<WorldCacheFailureRecord>)
        ensures
            final(self)@ == with_failures(old(self)@, report::failure_views(more@)),
            final(self)@.counts_failures(),
    {
        let ghost before = self.failures@;
        let ghost added = more@;
        let mut more = more;
        self.failures.append(&mut more);
        proof {
            assert(report::failure_views(self.failures@) =~= report::failure_views(before)
                + report::failure_views(added));
            assert(report::failure_views(self.failures@).len() == self.failures.len());
        }
        self.result.failed = self.failures.len();
    }

    /// Notes what came of a thumbnail, and gives what is told of it.
    pub fn cell_done(&mut self, entry: &WorldCellCacheEntry, outcome: CellOutcome) -> (notes: Vec<
        String,
    >)
        requires
            old(self)@.counts_failures(),
            old(self).result.cell_generated < usize::MAX,
            old(self).result.cell_skipped < usize::MAX,
        ensures
            final(self)@ == after_cell(old(self)@, entry.source_path@, outcome),
            final(self)@.counts_failures(),
            text::texts(notes@) == cell_notes(entry.source_path@, outcome),
    {
        let mut notes: Vec<String> = Vec::new();
        let ghost source = entry.source_path@;
        match outcome {
            CellOutcome::Ready => {
                self.result.cell_skipped = self.result.cell_skipped + 1;
                assert(text::texts(notes@) =~= cell_notes(source, CellOutcome::Ready));
            },
            CellOutcome::Made => {
                self.result.cell_generated = self.result.cell_generated + 1;
                assert(text::texts(notes@) =~= cell_notes(source, CellOutcome::Made));
            },
            CellOutcome::Failed(message) => {
                notes.push(
                    concat4(
                        "muralctl: failed world cell thumbnail ",
                        entry.source_path.as_str(),
                        ": ",
                        message.as_str(),
                    ),
                );
                let ghost said = message@;
                let mut more: Vec<WorldCacheFailureRecord> = Vec::new();
                more.push(
                    WorldCacheFailureRecord {
                        kind: copy_text("cell"),
                        item: copy_text(entry.source_path.as_str()),
                        message,
                    },
                );
                proof {
                    assert(text::texts(notes@) =~= cell_notes(source, CellOutcome::Failed(message)));
                    assert(report::failure_views(more@) =~= seq![
                        FailureView { kind: "cell"@, item: source, message: said },
                    ]);
                }
                self.add_failures(more);
            },
        }
        notes
    }

    /// Notes what came of a tile, and gives what is told of it.
    pub fn tile_done(&mut self, tile: &WorldTileCacheEntry, outcome: TileOutcome) -> (notes: Vec<
        String,
    >)
        requires
            old(self)@.counts_failures(),
            old(self).result.tile_generated < usize::MAX,
            old(self).result.tile_skipped < usize::MAX,
        ensures
            final(self)@ == after_tile(old(self)@, tile@, outcome),
            final(self)@.counts_failures(),
            text::texts(notes@) == tile_notes(tile@, outcome),
    {
        let mut notes: Vec<String> = Vec::new();
        match outcome {
            TileOutcome::Ready => {
                self.result.tile_skipped = self.result.tile_skipped + 1;
                assert(text::texts(notes@) =~= tile_notes(tile@, TileOutcome::Ready));
            },
            TileOutcome::Made(failures) => {
                let ghost wanted = tile_notes(tile@, TileOutcome::Made(failures));
                let mut i: usize = 0;
                assert(text::texts(notes@) =~= wanted.take(0));
                while i < failures.len()
                    invariant
                        i <= failures@.len(),
                        wanted == tile_notes(tile@, TileOutcome::Made(failures)),
                        text::texts(notes@) == wanted.take(i as int),
                    decreases failures@.len() - i,
                {
                    let ghost before = text::texts(notes@);
                    let line = concat4(
                        "muralctl: skipped world cell thumbnail ",
                        failures[i].item.as_str(),
                        ": ",
                        failures[i].message.as_str(),
                    );
                    notes.push(line);
                    proof {
                        assert(text::texts(notes@) =~= before.push(line@));
                        assert(text::texts(notes@) =~= wanted.take(i + 1));
                    }
                    i = i + 1;
                }
                assert(wanted.take(i as int) =~= wanted);
                self.result.tile_generated = self.result.tile_generated + 1;
                self.add_failures(failures);
            },
            TileOutcome::Failed(message) => {
                let name = name_of_tile(tile);
                notes.push(
                    concat4("muralctl: failed world tile ", name.as_str(), ": ", message.as_str()),
                );
                let ghost said = message@;
                let mut more: Vec<WorldCacheFailureRecord> = Vec::new();
                more.push(
                    WorldCacheFailureRecord {
                        kind: copy_text("tile"),
                        item: concat3(name.as_str(), " ", tile.image_path.as_str()),
                        message,
                    },
                );
                proof {
                    assert(text::texts(notes@) =~= tile_notes(tile@, TileOutcome::Failed(message)));
                    assert(report::failure_views(more@) =~= seq![
                        FailureView {
                            kind: "tile"@,
                            item: tile_name(tile@) + " "@ + tile@.image_path,
                            message: said,
                        },
                    ]);
                }
                self.add_failures(more);
            },
        }
        notes
    }
}

} // verus!
