//! What is proved of the figures that are printed: under which label each of them stands.

use crate::report::WorldCacheFailureRecord;
use crate::run::WorldCacheComputeResult;
use crate::selection::{WorldCacheSelection, WorldWorkPlan};
use crate::tiles::WorldLodCacheStatus;
use crate::world_cache::{WorldCacheStatus, WorldLodPlan};
use crate::report;
use crate::run;
use crate::text;
use vstd::prelude::*;

verus! {

/// Whether a text holds a value behind a label.
pub open spec fn tells(text: Seq<char>, label: Seq<char>, value: Seq<char>) -> bool {
    exists|i: int|
        #![trigger text.subrange(i, i + (label + value).len() as int)]
        0 <= i && i + (label + value).len() <= text.len() && text.subrange(
            i,
            i + (label + value).len() as int,
        ) == label + value
}

/// What a text tells, it tells with more behind it; and what is put behind it, it tells too.
proof fn lemma_tells(text: Seq<char>, label: Seq<char>, value: Seq<char>)
    ensures
        tells(text + label + value, label, value),
        forall|other: Seq<char>, said: Seq<char>| #[trigger]
            tells(text, other, said) ==> tells(text + label + value, other, said),
{
    let all = text + label + value;
    let at = text.len() as int;
    assert(all.subrange(at, at + (label + value).len() as int) =~= label + value);
    assert forall|other: Seq<char>, said: Seq<char>| #[trigger] tells(text, other, said) implies tells(
        all,
        other,
        said,
    ) by {
        let i = choose|i: int|
            #![trigger text.subrange(i, i + (other + said).len() as int)]
            0 <= i && i + (other + said).len() <= text.len() && text.subrange(
                i,
                i + (other + said).len() as int,
            ) == other + said;
        assert(all.subrange(i, i + (other + said).len() as int) =~= text.subrange(
            i,
            i + (other + said).len() as int,
        ));
    }
}

/// The state of a level tells its figures under their names.
#[verifier::spinoff_prover]
pub proof fn law_level_status_tells_its_figures(lod: WorldLodCacheStatus)
    ensures
        tells(report::lod_json(lod), "{\"lod\":"@, text::decimal_text(lod.lod as nat)),
        tells(
            report::lod_json(lod),
            ",\"tile_ready\":"@,
            text::decimal_text(lod.tile_ready as nat),
        ),
        tells(
            report::lod_json(lod),
            ",\"tile_missing\":"@,
            text::decimal_text(lod.tile_missing as nat),
        ),
{
    let told = Seq::<char>::empty();
    lemma_tells(told, "{\"lod\":"@, text::decimal_text(lod.lod as nat));
    let told = told + "{\"lod\":"@ + text::decimal_text(lod.lod as nat);
    lemma_tells(told, ",\"tile_ready\":"@, text::decimal_text(lod.tile_ready as nat));
    let told = told + ",\"tile_ready\":"@ + text::decimal_text(lod.tile_ready as nat);
    lemma_tells(told, ",\"tile_missing\":"@, text::decimal_text(lod.tile_missing as nat));
    let told = told + ",\"tile_missing\":"@ + text::decimal_text(lod.tile_missing as nat);
    lemma_tells(told, "}"@, Seq::empty());
    assert(told + "}"@ + Seq::<char>::empty() =~= report::lod_json(lod));
}

/// The plan of a level tells its figures under their names.
#[verifier::spinoff_prover]
pub proof fn law_level_plan_tells_its_figures(lod: WorldLodPlan)
    ensures
        tells(report::plan_json(lod), "{\"lod\":"@, text::decimal_text(lod.lod as nat)),
        tells(
            report::plan_json(lod),
            ",\"tile_count\":"@,
            text::decimal_text(lod.tile_count as nat),
        ),
        tells(
            report::plan_json(lod),
            ",\"tile_ready\":"@,
            text::decimal_text(lod.tile_ready as nat),
        ),
        tells(
            report::plan_json(lod),
            ",\"tile_missing\":"@,
            text::decimal_text(lod.tile_missing as nat),
        ),
{
    let told = Seq::<char>::empty();
    lemma_tells(told, "{\"lod\":"@, text::decimal_text(lod.lod as nat));
    let told = told + "{\"lod\":"@ + text::decimal_text(lod.lod as nat);
    lemma_tells(told, ",\"tile_count\":"@, text::decimal_text(lod.tile_count as nat));
    let told = told + ",\"tile_count\":"@ + text::decimal_text(lod.tile_count as nat);
    lemma_tells(told, ",\"tile_ready\":"@, text::decimal_text(lod.tile_ready as nat));
    let told = told + ",\"tile_ready\":"@ + text::decimal_text(lod.tile_ready as nat);
    lemma_tells(told, ",\"tile_missing\":"@, text::decimal_text(lod.tile_missing as nat));
    let told = told + ",\"tile_missing\":"@ + text::decimal_text(lod.tile_missing as nat);
    lemma_tells(told, "}"@, Seq::empty());
    assert(told + "}"@ + Seq::<char>::empty() =~= report::plan_json(lod));
}

/// A failure tells what it was about, what failed and why.
#[verifier::spinoff_prover]
pub proof fn law_failure_tells_what_and_why(failure: WorldCacheFailureRecord)
    ensures
        tells(report::failure_json(failure), "{\"kind\":"@, report::quoted_text(failure.kind@)),
        tells(report::failure_json(failure), ",\"item\":"@, report::quoted_text(failure.item@)),
        tells(
            report::failure_json(failure),
            ",\"message\":"@,
            report::quoted_text(failure.message@),
        ),
{
    let told = Seq::<char>::empty();
    lemma_tells(told, "{\"kind\":"@, report::quoted_text(failure.kind@));
    let told = told + "{\"kind\":"@ + report::quoted_text(failure.kind@);
    lemma_tells(told, ",\"item\":"@, report::quoted_text(failure.item@));
    let told = told + ",\"item\":"@ + report::quoted_text(failure.item@);
    lemma_tells(told, ",\"message\":"@, report::quoted_text(failure.message@));
    let told = told + ",\"message\":"@ + report::quoted_text(failure.message@);
    lemma_tells(told, "}"@, Seq::empty());
    assert(told + "}"@ + Seq::<char>::empty() =~= report::failure_json(failure));
}

/// The state of the cache tells its figures under their names.
#[verifier::spinoff_prover]
pub proof fn law_status_tells_its_figures(status: WorldCacheStatus, failed: usize)
    ensures
        tells(report::status_json(status, failed), "{\"wall_dir\":"@, report::quoted_text(status.wall_dir@)),
        tells(
            report::status_json(status, failed),
            ",\"state_dir\":"@,
            report::quoted_text(status.state_dir@),
        ),
        tells(
            report::status_json(status, failed),
            ",\"cache_dir\":"@,
            report::quoted_text(status.cache_dir@),
        ),
        tells(
            report::status_json(status, failed),
            ",\"manifest\":"@,
            report::quoted_text(status.manifest_path@),
        ),
        tells(
            report::status_json(status, failed),
            ",\"library\":"@,
            text::decimal_text(status.library_count as nat),
        ),
        tells(
            report::status_json(status, failed),
            ",\"columns\":"@,
            text::decimal_text(status.columns as nat),
        ),
        tells(
            report::status_json(status, failed),
            ",\"rows\":"@,
            text::decimal_text(status.rows as nat),
        ),
        tells(
            report::status_json(status, failed),
            ",\"fingerprint\":\""@,
            text::hex_text(status.fingerprint as nat, 16),
        ),
        tells(
            report::status_json(status, failed),
            "\",\"order_policy\":"@,
            report::quoted_text(status.order_policy@),
        ),
        tells(
            report::status_json(status, failed),
            ",\"thumbnail_edge\":"@,
            text::decimal_text(status.thumbnail_edge as nat),
        ),
        tells(
            report::status_json(status, failed),
            ",\"cell_ready\":"@,
            text::decimal_text(status.cell_ready as nat),
        ),
        tells(
            report::status_json(status, failed),
            ",\"cell_missing\":"@,
            text::decimal_text(status.cell_missing as nat),
        ),
        tells(
            report::status_json(status, failed),
            ",\"world_tile_ready\":"@,
            text::decimal_text(status.world_tile_ready as nat),
        ),
        tells(
            report::status_json(status, failed),
            ",\"world_tile_missing\":"@,
            text::decimal_text(status.world_tile_missing as nat),
        ),
        tells(
            report::status_json(status, failed),
            ",\"world_lods\":"@,
            report::lods_json(status.world_lods@),
        ),
        tells(
            report::status_json(status, failed),
            ",\"last_compute_failed\":"@,
            text::decimal_text(failed as nat),
        ),
        tells(
            report::status_json(status, failed),
            ",\"failure_log\":"@,
            report::quoted_text(report::failure_log_place(status.cache_dir@)),
        ),
        tells(
            report::status_json(status, failed),
            ",\"manifest_state\":"@,
            report::quoted_text(status.manifest_state.spec_name()),
        ),
        tells(report::status_json(status, failed), ",\"ready\":"@, text::bool_text(status.ready)),
        tells(
            report::status_json(status, failed),
            ",\"message\":"@,
            report::quoted_text(status.message@),
        ),
{
    let told = Seq::<char>::empty();
    lemma_tells(told, "{\"wall_dir\":"@, report::quoted_text(status.wall_dir@));
    let told = told + "{\"wall_dir\":"@ + report::quoted_text(status.wall_dir@);
    lemma_tells(told, ",\"state_dir\":"@, report::quoted_text(status.state_dir@));
    let told = told + ",\"state_dir\":"@ + report::quoted_text(status.state_dir@);
    lemma_tells(told, ",\"cache_dir\":"@, report::quoted_text(status.cache_dir@));
    let told = told + ",\"cache_dir\":"@ + report::quoted_text(status.cache_dir@);
    lemma_tells(told, ",\"manifest\":"@, report::quoted_text(status.manifest_path@));
    let told = told + ",\"manifest\":"@ + report::quoted_text(status.manifest_path@);
    lemma_tells(told, ",\"library\":"@, text::decimal_text(status.library_count as nat));
    let told = told + ",\"library\":"@ + text::decimal_text(status.library_count as nat);
    lemma_tells(told, ",\"columns\":"@, text::decimal_text(status.columns as nat));
    let told = told + ",\"columns\":"@ + text::decimal_text(status.columns as nat);
    lemma_tells(told, ",\"rows\":"@, text::decimal_text(status.rows as nat));
    let told = told + ",\"rows\":"@ + text::decimal_text(status.rows as nat);
    lemma_tells(told, ",\"fingerprint\":\""@, text::hex_text(status.fingerprint as nat, 16));
    let told = told + ",\"fingerprint\":\""@ + text::hex_text(status.fingerprint as nat, 16);
    lemma_tells(told, "\",\"order_policy\":"@, report::quoted_text(status.order_policy@));
    let told = told + "\",\"order_policy\":"@ + report::quoted_text(status.order_policy@);
    lemma_tells(told, ",\"thumbnail_edge\":"@, text::decimal_text(status.thumbnail_edge as nat));
    let told = told + ",\"thumbnail_edge\":"@ + text::decimal_text(status.thumbnail_edge as nat);
    lemma_tells(told, ",\"cell_ready\":"@, text::decimal_text(status.cell_ready as nat));
    let told = told + ",\"cell_ready\":"@ + text::decimal_text(status.cell_ready as nat);
    lemma_tells(told, ",\"cell_missing\":"@, text::decimal_text(status.cell_missing as nat));
    let told = told + ",\"cell_missing\":"@ + text::decimal_text(status.cell_missing as nat);
    lemma_tells(
        told,
        ",\"world_tile_ready\":"@,
        text::decimal_text(status.world_tile_ready as nat),
    );
    let told = told + ",\"world_tile_ready\":"@
        + text::decimal_text(status.world_tile_ready as nat);
    lemma_tells(
        told,
        ",\"world_tile_missing\":"@,
        text::decimal_text(status.world_tile_missing as nat),
    );
    let told = told + ",\"world_tile_missing\":"@
        + text::decimal_text(status.world_tile_missing as nat);
    lemma_tells(told, ",\"world_lods\":"@, report::lods_json(status.world_lods@));
    let told = told + ",\"world_lods\":"@ + report::lods_json(status.world_lods@);
    lemma_tells(told, ",\"last_compute_failed\":"@, text::decimal_text(failed as nat));
    let told = told + ",\"last_compute_failed\":"@ + text::decimal_text(failed as nat);
    lemma_tells(
        told,
        ",\"failure_log\":"@,
        report::quoted_text(report::failure_log_place(status.cache_dir@)),
    );
    let told = told + ",\"failure_log\":"@
        + report::quoted_text(report::failure_log_place(status.cache_dir@));
    lemma_tells(
        told,
        ",\"manifest_state\":"@,
        report::quoted_text(status.manifest_state.spec_name()),
    );
    let told = told + ",\"manifest_state\":"@
        + report::quoted_text(status.manifest_state.spec_name());
    lemma_tells(told, ",\"ready\":"@, text::bool_text(status.ready));
    let told = told + ",\"ready\":"@ + text::bool_text(status.ready);
    lemma_tells(told, ",\"message\":"@, report::quoted_text(status.message@));
    let told = told + ",\"message\":"@ + report::quoted_text(status.message@);
    lemma_tells(told, "}"@, Seq::empty());
    assert(told + "}"@ + Seq::<char>::empty() =~= report::status_json(status, failed));
}

/// The plan of the work tells its figures under their names.
#[verifier::spinoff_prover]
pub proof fn law_plan_tells_its_figures(plan: WorldWorkPlan, failed: usize)
    ensures
        tells(run::plan_report(plan, failed), "{\"status\":"@, report::status_json(plan.status, failed)),
        tells(
            run::plan_report(plan, failed),
            ",\"thumbnail_count\":"@,
            text::decimal_text(plan.thumbnail_count as nat),
        ),
        tells(
            run::plan_report(plan, failed),
            ",\"thumbnail_ready\":"@,
            text::decimal_text(plan.thumbnail_ready as nat),
        ),
        tells(
            run::plan_report(plan, failed),
            ",\"thumbnail_missing\":"@,
            text::decimal_text(plan.thumbnail_missing as nat),
        ),
        tells(
            run::plan_report(plan, failed),
            ",\"world_tile_count\":"@,
            text::decimal_text(plan.world_tile_count as nat),
        ),
        tells(
            run::plan_report(plan, failed),
            ",\"world_tile_ready\":"@,
            text::decimal_text(plan.world_tile_ready as nat),
        ),
        tells(
            run::plan_report(plan, failed),
            ",\"world_tile_missing\":"@,
            text::decimal_text(plan.world_tile_missing as nat),
        ),
        tells(
            run::plan_report(plan, failed),
            ",\"planned_world_lods\":"@,
            report::plans_json(plan.world_lods@),
        ),
        tells(
            run::plan_report(plan, failed),
            ",\"estimated_remaining_bytes\":"@,
            text::decimal_text(plan.estimated_remaining_bytes as nat),
        ),
        tells(run::plan_report(plan, failed), ",\"dry_run\":"@, text::bool_text(plan.dry_run)),
{
    let told = Seq::<char>::empty();
    lemma_tells(told, "{\"status\":"@, report::status_json(plan.status, failed));
    let told = told + "{\"status\":"@ + report::status_json(plan.status, failed);
    lemma_tells(told, ",\"thumbnail_count\":"@, text::decimal_text(plan.thumbnail_count as nat));
    let told = told + ",\"thumbnail_count\":"@ + text::decimal_text(plan.thumbnail_count as nat);
    lemma_tells(told, ",\"thumbnail_ready\":"@, text::decimal_text(plan.thumbnail_ready as nat));
    let told = told + ",\"thumbnail_ready\":"@ + text::decimal_text(plan.thumbnail_ready as nat);
    lemma_tells(
        told,
        ",\"thumbnail_missing\":"@,
        text::decimal_text(plan.thumbnail_missing as nat),
    );
    let told = told + ",\"thumbnail_missing\":"@
        + text::decimal_text(plan.thumbnail_missing as nat);
    lemma_tells(told, ",\"world_tile_count\":"@, text::decimal_text(plan.world_tile_count as nat));
    let told = told + ",\"world_tile_count\":"@ + text::decimal_text(plan.world_tile_count as nat);
    lemma_tells(told, ",\"world_tile_ready\":"@, text::decimal_text(plan.world_tile_ready as nat));
    let told = told + ",\"world_tile_ready\":"@ + text::decimal_text(plan.world_tile_ready as nat);
    lemma_tells(
        told,
        ",\"world_tile_missing\":"@,
        text::decimal_text(plan.world_tile_missing as nat),
    );
    let told = told + ",\"world_tile_missing\":"@
        + text::decimal_text(plan.world_tile_missing as nat);
    lemma_tells(told, ",\"planned_world_lods\":"@, report::plans_json(plan.world_lods@));
    let told = told + ",\"planned_world_lods\":"@ + report::plans_json(plan.world_lods@);
    lemma_tells(
        told,
        ",\"estimated_remaining_bytes\":"@,
        text::decimal_text(plan.estimated_remaining_bytes as nat),
    );
    let told = told + ",\"estimated_remaining_bytes\":"@
        + text::decimal_text(plan.estimated_remaining_bytes as nat);
    lemma_tells(told, ",\"dry_run\":"@, text::bool_text(plan.dry_run));
    let told = told + ",\"dry_run\":"@ + text::bool_text(plan.dry_run);
    lemma_tells(told, "}"@, Seq::empty());
    assert(told + "}"@ + Seq::<char>::empty() =~= run::plan_report(plan, failed));
}

/// What has come of the work tells its figures under their names.
#[verifier::spinoff_prover]
pub proof fn law_result_tells_its_figures(result: WorldCacheComputeResult)
    ensures
        tells(run::result_report(result, true), "{\"cell_generated\":"@, text::decimal_text(result.cell_generated as nat)),
        tells(
            run::result_report(result, true),
            ",\"cell_skipped\":"@,
            text::decimal_text(result.cell_skipped as nat),
        ),
        tells(
            run::result_report(result, true),
            ",\"tile_generated\":"@,
            text::decimal_text(result.tile_generated as nat),
        ),
        tells(
            run::result_report(result, true),
            ",\"tile_skipped\":"@,
            text::decimal_text(result.tile_skipped as nat),
        ),
        tells(
            run::result_report(result, true),
            ",\"failed\":"@,
            text::decimal_text(result.failed as nat),
        ),
        tells(run::result_report(result, true), ",\"limited\":"@, text::bool_text(result.limited)),
        tells(run::result_report(result, true), ",\"thumbnail_edge\":"@, text::decimal_text(384)),
        tells(run::result_report(result, true), ",\"tile_cells\":"@, text::decimal_text(8)),
        tells(run::result_report(result, true), "}"@, "\n"@),
{
    let told = Seq::<char>::empty();
    lemma_tells(told, "{\"cell_generated\":"@, text::decimal_text(result.cell_generated as nat));
    let told = told + "{\"cell_generated\":"@ + text::decimal_text(result.cell_generated as nat);
    lemma_tells(told, ",\"cell_skipped\":"@, text::decimal_text(result.cell_skipped as nat));
    let told = told + ",\"cell_skipped\":"@ + text::decimal_text(result.cell_skipped as nat);
    lemma_tells(told, ",\"tile_generated\":"@, text::decimal_text(result.tile_generated as nat));
    let told = told + ",\"tile_generated\":"@ + text::decimal_text(result.tile_generated as nat);
    lemma_tells(told, ",\"tile_skipped\":"@, text::decimal_text(result.tile_skipped as nat));
    let told = told + ",\"tile_skipped\":"@ + text::decimal_text(result.tile_skipped as nat);
    lemma_tells(told, ",\"failed\":"@, text::decimal_text(result.failed as nat));
    let told = told + ",\"failed\":"@ + text::decimal_text(result.failed as nat);
    lemma_tells(told, ",\"limited\":"@, text::bool_text(result.limited));
    let told = told + ",\"limited\":"@ + text::bool_text(result.limited);
    lemma_tells(told, ",\"thumbnail_edge\":"@, text::decimal_text(384));
    let told = told + ",\"thumbnail_edge\":"@ + text::decimal_text(384);
    lemma_tells(told, ",\"tile_cells\":"@, text::decimal_text(8));
    let told = told + ",\"tile_cells\":"@ + text::decimal_text(8);
    lemma_tells(told, "}"@, "\n"@);
    let told = told + "}"@ + "\n"@;
    assert(told =~= run::result_report(result, true));
}

/// How far the thumbnails are tells its figures under their names.
#[verifier::spinoff_prover]
pub proof fn law_thumbnail_progress_tells_its_figures(
    done: usize,
    total: usize,
    result: WorldCacheComputeResult,
)
    ensures
        tells(
            run::cell_progress(done, total, result),
            "cell thumbnails "@,
            text::decimal_text(done as nat),
        ),
        tells(run::cell_progress(done, total, result), "/"@, text::decimal_text(total as nat)),
        tells(
            run::cell_progress(done, total, result),
            " generated="@,
            text::decimal_text(result.cell_generated as nat),
        ),
        tells(
            run::cell_progress(done, total, result),
            " skipped="@,
            text::decimal_text(result.cell_skipped as nat),
        ),
        tells(
            run::cell_progress(done, total, result),
            " failed="@,
            text::decimal_text(result.failed as nat),
        ),
{
    let told = Seq::<char>::empty();
    lemma_tells(told, "cell thumbnails "@, text::decimal_text(done as nat));
    let told = told + "cell thumbnails "@ + text::decimal_text(done as nat);
    lemma_tells(told, "/"@, text::decimal_text(total as nat));
    let told = told + "/"@ + text::decimal_text(total as nat);
    lemma_tells(told, " generated="@, text::decimal_text(result.cell_generated as nat));
    let told = told + " generated="@ + text::decimal_text(result.cell_generated as nat);
    lemma_tells(told, " skipped="@, text::decimal_text(result.cell_skipped as nat));
    let told = told + " skipped="@ + text::decimal_text(result.cell_skipped as nat);
    lemma_tells(told, " failed="@, text::decimal_text(result.failed as nat));
    let told = told + " failed="@ + text::decimal_text(result.failed as nat);
    assert(told =~= run::cell_progress(done, total, result));
}

/// How far the tiles are tells its figures under their names.
#[verifier::spinoff_prover]
pub proof fn law_tile_progress_tells_its_figures(
    done: usize,
    total: usize,
    lod: usize,
    result: WorldCacheComputeResult,
)
    ensures
        tells(
            run::tile_progress(done, total, lod, result),
            "world tiles "@,
            text::decimal_text(done as nat),
        ),
        tells(run::tile_progress(done, total, lod, result), "/"@, text::decimal_text(total as nat)),
        tells(run::tile_progress(done, total, lod, result), " L"@, text::decimal_text(lod as nat)),
        tells(
            run::tile_progress(done, total, lod, result),
            " generated="@,
            text::decimal_text(result.tile_generated as nat),
        ),
        tells(
            run::tile_progress(done, total, lod, result),
            " skipped="@,
            text::decimal_text(result.tile_skipped as nat),
        ),
        tells(
            run::tile_progress(done, total, lod, result),
            " failed="@,
            text::decimal_text(result.failed as nat),
        ),
{
    let told = Seq::<char>::empty();
    lemma_tells(told, "world tiles "@, text::decimal_text(done as nat));
    let told = told + "world tiles "@ + text::decimal_text(done as nat);
    lemma_tells(told, "/"@, text::decimal_text(total as nat));
    let told = told + "/"@ + text::decimal_text(total as nat);
    lemma_tells(told, " L"@, text::decimal_text(lod as nat));
    let told = told + " L"@ + text::decimal_text(lod as nat);
    lemma_tells(told, " generated="@, text::decimal_text(result.tile_generated as nat));
    let told = told + " generated="@ + text::decimal_text(result.tile_generated as nat);
    lemma_tells(told, " skipped="@, text::decimal_text(result.tile_skipped as nat));
    let told = told + " skipped="@ + text::decimal_text(result.tile_skipped as nat);
    lemma_tells(told, " failed="@, text::decimal_text(result.failed as nat));
    let told = told + " failed="@ + text::decimal_text(result.failed as nat);
    assert(told =~= run::tile_progress(done, total, lod, result));
}

/// Each line of the state of the cache tells a figure behind its name.
#[verifier::spinoff_prover]
pub proof fn law_status_lines_tell_their_figures(status: WorldCacheStatus, failed: usize)
    ensures
        report::status_lines(status, failed).contains("wall_dir\t"@ + status.wall_dir@),
        report::status_lines(status, failed).contains("state_dir\t"@ + status.state_dir@),
        report::status_lines(status, failed).contains("cache_dir\t"@ + status.cache_dir@),
        report::status_lines(status, failed).contains("manifest\t"@ + status.manifest_path@),
        report::status_lines(status, failed).contains(
            "library\t"@ + text::decimal_text(status.library_count as nat),
        ),
        report::status_lines(status, failed).contains(
            "grid\t"@ + text::decimal_text(
                status.columns as nat,
            ) + "x"@ + text::decimal_text(status.rows as nat),
        ),
        report::status_lines(status, failed).contains(
            "fingerprint\t"@ + text::hex_text(status.fingerprint as nat, 16),
        ),
        report::status_lines(status, failed).contains("order_policy\t"@ + status.order_policy@),
        report::status_lines(status, failed).contains(
            "thumbnail_edge\t"@ + text::decimal_text(status.thumbnail_edge as nat),
        ),
        report::status_lines(status, failed).contains(
            "cell_ready\t"@ + text::decimal_text(status.cell_ready as nat),
        ),
        report::status_lines(status, failed).contains(
            "cell_missing\t"@ + text::decimal_text(status.cell_missing as nat),
        ),
        report::status_lines(status, failed).contains(
            "world_tile_ready\t"@ + text::decimal_text(status.world_tile_ready as nat),
        ),
        report::status_lines(status, failed).contains(
            "world_tile_missing\t"@ + text::decimal_text(status.world_tile_missing as nat),
        ),
        report::status_lines(status, failed).contains(
            "last_compute_failed\t"@ + text::decimal_text(failed as nat),
        ),
        report::status_lines(status, failed).contains(
            "failure_log\t"@ + report::failure_log_place(status.cache_dir@),
        ),
        report::status_lines(status, failed).contains(
            "manifest_state\t"@ + status.manifest_state.spec_name(),
        ),
        report::status_lines(status, failed).contains("ready\t"@ + text::bool_text(status.ready)),
        report::status_lines(status, failed).contains("message\t"@ + status.message@),
{
    let lines = report::status_lines(status, failed);
    assert(lines[0] == "wall_dir\t"@ + status.wall_dir@);
    assert(lines[1] == "state_dir\t"@ + status.state_dir@);
    assert(lines[2] == "cache_dir\t"@ + status.cache_dir@);
    assert(lines[3] == "manifest\t"@ + status.manifest_path@);
    assert(lines[4] == "library\t"@ + text::decimal_text(status.library_count as nat));
    assert(
        lines[5] == "grid\t"@ + text::decimal_text(
            status.columns as nat,
        ) + "x"@ + text::decimal_text(status.rows as nat)
    );
    assert(lines[6] == "fingerprint\t"@ + text::hex_text(status.fingerprint as nat, 16));
    assert(lines[7] == "order_policy\t"@ + status.order_policy@);
    assert(lines[8] == "thumbnail_edge\t"@ + text::decimal_text(status.thumbnail_edge as nat));
    assert(lines[9] == "cell_ready\t"@ + text::decimal_text(status.cell_ready as nat));
    assert(lines[10] == "cell_missing\t"@ + text::decimal_text(status.cell_missing as nat));
    assert(lines[11] == "world_tile_ready\t"@ + text::decimal_text(status.world_tile_ready as nat));
    assert(
        lines[12] == "world_tile_missing\t"@ + text::decimal_text(status.world_tile_missing as nat)
    );
    assert(
        lines[13 + status.world_lods@.len() as int] == "last_compute_failed\t"@ + text::decimal_text(failed as nat)
    );
    assert(
        lines[13 + status.world_lods@.len() as int + 1] == "failure_log\t"@ + report::failure_log_place(status.cache_dir@)
    );
    assert(
        lines[13 + status.world_lods@.len() as int + 2] == "manifest_state\t"@ + status.manifest_state.spec_name()
    );
    assert(
        lines[13 + status.world_lods@.len() as int + 3] == "ready\t"@ + text::bool_text(
            status.ready,
        )
    );
    assert(lines[13 + status.world_lods@.len() as int + 4] == "message\t"@ + status.message@);
}

/// Each line of the plan of the work tells a figure behind its name.
#[verifier::spinoff_prover]
pub proof fn law_plan_lines_tell_their_figures(plan: WorldWorkPlan)
    ensures
        run::plan_lines(plan, false).contains(
            "library\t"@ + text::decimal_text(plan.status.library_count as nat),
        ),
        run::plan_lines(plan, false).contains(
            "cell_thumbnails_planned\t"@ + text::decimal_text(plan.thumbnail_count as nat),
        ),
        run::plan_lines(plan, false).contains(
            "cell_thumbnails_ready\t"@ + text::decimal_text(plan.thumbnail_ready as nat),
        ),
        run::plan_lines(plan, false).contains(
            "cell_thumbnails_missing\t"@ + text::decimal_text(plan.thumbnail_missing as nat),
        ),
        run::plan_lines(plan, false).contains(
            "world_tiles_planned\t"@ + text::decimal_text(plan.world_tile_count as nat),
        ),
        run::plan_lines(plan, false).contains(
            "world_tiles_ready\t"@ + text::decimal_text(plan.world_tile_ready as nat),
        ),
        run::plan_lines(plan, false).contains(
            "world_tiles_missing\t"@ + text::decimal_text(plan.world_tile_missing as nat),
        ),
        run::plan_lines(plan, false).contains(
            "estimated_remaining_bytes\t"@ + text::decimal_text(
                plan.estimated_remaining_bytes as nat,
            ),
        ),
{
    let lines = run::plan_lines(plan, false);
    assert(lines[0] == "library\t"@ + text::decimal_text(plan.status.library_count as nat));
    assert(
        lines[1] == "cell_thumbnails_planned\t"@ + text::decimal_text(plan.thumbnail_count as nat)
    );
    assert(
        lines[2] == "cell_thumbnails_ready\t"@ + text::decimal_text(plan.thumbnail_ready as nat)
    );
    assert(
        lines[3] == "cell_thumbnails_missing\t"@ + text::decimal_text(
            plan.thumbnail_missing as nat,
        )
    );
    assert(lines[4] == "world_tiles_planned\t"@ + text::decimal_text(plan.world_tile_count as nat));
    assert(lines[5] == "world_tiles_ready\t"@ + text::decimal_text(plan.world_tile_ready as nat));
    assert(
        lines[6] == "world_tiles_missing\t"@ + text::decimal_text(plan.world_tile_missing as nat)
    );
    assert(
        lines[7] == "estimated_remaining_bytes\t"@ + text::decimal_text(
            plan.estimated_remaining_bytes as nat,
        )
    );
}

/// The plan of the work in words tells what is there of what is wanted, and what is not.
pub proof fn law_plan_words_tell_their_figures(plan: WorldWorkPlan)
    ensures
        run::plan_lines(plan, true)[1] == "cell thumbnails "@ + text::decimal_text(
            plan.thumbnail_ready as nat,
        ) + "/"@ + text::decimal_text(plan.thumbnail_count as nat) + " ready; "@
            + text::decimal_text(plan.thumbnail_missing as nat) + " planned"@,
        run::plan_lines(plan, true)[0] == "indexed "@ + text::decimal_text(
            plan.status.library_count as nat,
        ) + " wallpapers"@,
{
}

/// The plan of a level tells its figures behind their names.
pub proof fn law_level_lines_tell_their_figures(lod: WorldLodPlan, status: WorldLodCacheStatus)
    ensures
        ({
            let name = "world_tiles_l"@ + text::decimal_text(lod.lod as nat);
            &&& run::lod_figures(lod)[0] == name + "_planned\t"@ + text::decimal_text(
                lod.tile_count as nat,
            )
            &&& run::lod_figures(lod)[1] == name + "_ready\t"@ + text::decimal_text(
                lod.tile_ready as nat,
            )
            &&& run::lod_figures(lod)[2] == name + "_missing\t"@ + text::decimal_text(
                lod.tile_missing as nat,
            )
        }),
        report::lod_line(status) == "world_tiles_l"@ + text::decimal_text(status.lod as nat)
            + "\tready\t"@ + text::decimal_text(status.tile_ready as nat) + "\tmissing\t"@
            + text::decimal_text(status.tile_missing as nat),
        run::lod_planned(lod) == "world tiles L"@ + text::decimal_text(lod.lod as nat) + " "@
            + text::decimal_text(lod.tile_ready as nat) + "/"@ + text::decimal_text(
            lod.tile_count as nat,
        ) + " ready; "@ + text::decimal_text(lod.tile_missing as nat) + " planned"@,
{
}

/// Work counts the thumbnails and the tiles that are selected.
pub proof fn law_work_counts_its_pieces(selection: WorldCacheSelection)
    requires
        selection.cell_indices@.len() + selection.tile_entries@.len() <= usize::MAX,
    ensures
        run::pieces(selection) == selection.cell_indices@.len() + selection.tile_entries@.len(),
{
}

/// A field of a failure stays within its place in the log: it takes no other line and no other
/// column, and is as it was but for the marks that would part it.
pub proof fn law_fields_stay_in_their_place(field: Seq<char>, i: int)
    requires
        0 <= i < field.len(),
    ensures
        report::on_one_line(field).len() == field.len(),
        report::on_one_line(field)[i] != '\t',
        report::on_one_line(field)[i] != '\n',
        report::on_one_line(field)[i] != '\r',
        field[i] != '\t' && field[i] != '\n' && field[i] != '\r' ==> report::on_one_line(field)[i]
            == field[i],
{
}

} // verus!
