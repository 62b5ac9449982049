//! What the reports hold under each name.

use crate::captures;
use crate::captures::CaptureNumberView;
use crate::complexity;
use crate::complexity::CrateDelta;
use crate::complexity::CrateLoad;
use crate::complexity::CrateSnapshot;
use crate::complexity::GraphDeltaReport;
use crate::complexity::GraphMetrics;
use crate::complexity::MetricDelta;
use crate::complexity::MetricDeltas;
use crate::complexity_report;
use crate::complexity_report::EntropyTexts;
use crate::complexity_report::SnapshotTexts;
use crate::drift_analysis::FingerprintDrift;
use crate::json;
use crate::json::JsonView;
use crate::semantic::SemanticGraph;
use crate::text;
use vstd::prelude::*;

verus! {

/// A member is found under its key where no earlier one has that key.
pub proof fn lemma_member_at(ms: Seq<(Seq<char>, JsonView)>, i: int)
    requires
        0 <= i < ms.len(),
        forall|j: int| 0 <= j < i ==> (#[trigger] ms[j]).0 != ms[i].0,
    ensures
        json::member(ms, ms[i].0) == Some(ms[i].1),
    decreases ms.len(),
{
    if i > 0 {
        let rest = ms.drop_first();
        assert(rest[i - 1] == ms[i]);
        assert forall|j: int| 0 <= j < i - 1 implies (#[trigger] rest[j]).0 != rest[i - 1].0 by {
            assert(rest[j] == ms[j + 1]);
        }
        assert(ms[0].0 != ms[i].0);
        lemma_member_at(rest, i - 1);
    }
}

/// The numbers of a snapshot are read back from it, each as it was written.
pub proof fn law_a_snapshot_is_read_back(m: GraphMetrics, entropy: Seq<char>)
    ensures
        ({
            let row = captures::row_of(complexity_report::snapshot_totals_value(m, entropy));
            &&& row.entropy == CaptureNumberView::Printed(entropy)
            &&& row.artifact_writer_dispersion_count == CaptureNumberView::Natural(m.artifact_writer_dispersion_count)
            &&& row.error_shaping_dispersion_count == CaptureNumberView::Natural(m.error_shaping_dispersion_count)
            &&& row.pathway_count == CaptureNumberView::Natural(m.pathway_count)
            &&& row.redundant_path_count == CaptureNumberView::Natural(m.redundant_path_count)
            &&& row.representation_fanout_count == CaptureNumberView::Natural(m.representation_fanout_count)
            &&& row.state_transition_dispersion_count == CaptureNumberView::Natural(m.state_transition_dispersion_count)
        }),
{
    let ms = complexity_report::snapshot_totals_value(m, entropy)->Object_0;
    reveal_strlit("artifact_writer_dispersion_count");
    reveal_strlit("error_shaping_dispersion_count");
    reveal_strlit("overall_graph_entropy_score");
    reveal_strlit("pathway_count");
    reveal_strlit("redundant_path_count");
    reveal_strlit("representation_fanout_count");
    reveal_strlit("state_transition_dispersion_count");
    assert("artifact_writer_dispersion_count"@.len() == 32);
    assert("error_shaping_dispersion_count"@.len() == 30);
    assert("overall_graph_entropy_score"@.len() == 27);
    assert("pathway_count"@.len() == 13);
    assert("redundant_path_count"@.len() == 20);
    assert("representation_fanout_count"@.len() == 27);
    assert("state_transition_dispersion_count"@.len() == 33);
    assert("overall_graph_entropy_score"@[0] != "representation_fanout_count"@[0]);
    lemma_member_at(ms, 0);
    lemma_member_at(ms, 1);
    lemma_member_at(ms, 2);
    lemma_member_at(ms, 3);
    lemma_member_at(ms, 4);
    lemma_member_at(ms, 5);
    lemma_member_at(ms, 6);
}

/// The snapshot of a crate is read back under its name.
pub proof fn law_a_crate_snapshot_is_read_back(
    name: String,
    metrics: GraphMetrics,
    call_edge_count: usize,
    t: SnapshotTexts,
)
    ensures
        ({
            let c = CrateSnapshot::Counted { name, metrics, call_edge_count };
            let v = complexity_report::snapshot_crate_value(c, t);
            let row = captures::row_of(v);
            &&& json::text_field(v, "crate"@) == Some(name@)
            &&& json::text_field(v, "status"@) == Some("ok"@)
            &&& json::field(v, "call_edge_count"@) == Some(JsonView::Uint(call_edge_count as u64))
            &&& row.entropy == CaptureNumberView::Printed(t.entropy@)
            &&& row.artifact_writer_dispersion_count == CaptureNumberView::Natural(metrics.artifact_writer_dispersion_count)
            &&& row.error_shaping_dispersion_count == CaptureNumberView::Natural(metrics.error_shaping_dispersion_count)
            &&& row.pathway_count == CaptureNumberView::Natural(metrics.pathway_count)
            &&& row.redundant_path_count == CaptureNumberView::Natural(metrics.redundant_path_count)
            &&& row.representation_fanout_count == CaptureNumberView::Natural(metrics.representation_fanout_count)
            &&& row.state_transition_dispersion_count == CaptureNumberView::Natural(metrics.state_transition_dispersion_count)
        }),
{
    let c = CrateSnapshot::Counted { name, metrics, call_edge_count };
    let ms = complexity_report::snapshot_crate_value(c, t)->Object_0;
    reveal_strlit("artifact_writer_dispersion_count");
    reveal_strlit("call_edge_count");
    reveal_strlit("crate");
    reveal_strlit("error_shaping_dispersion_count");
    reveal_strlit("overall_graph_entropy_score");
    reveal_strlit("pathway_count");
    reveal_strlit("redundant_path_count");
    reveal_strlit("representation_fanout_count");
    reveal_strlit("state_transition_dispersion_count");
    reveal_strlit("status");
    reveal_strlit("top_entropy_hotspots");
    assert("artifact_writer_dispersion_count"@.len() == 32);
    assert("call_edge_count"@.len() == 15);
    assert("crate"@.len() == 5);
    assert("error_shaping_dispersion_count"@.len() == 30);
    assert("overall_graph_entropy_score"@.len() == 27);
    assert("pathway_count"@.len() == 13);
    assert("redundant_path_count"@.len() == 20);
    assert("representation_fanout_count"@.len() == 27);
    assert("state_transition_dispersion_count"@.len() == 33);
    assert("status"@.len() == 6);
    assert("top_entropy_hotspots"@.len() == 20);
    assert("overall_graph_entropy_score"@[0] != "representation_fanout_count"@[0]);
    assert("redundant_path_count"@[0] != "top_entropy_hotspots"@[0]);
    lemma_member_at(ms, 0);
    lemma_member_at(ms, 1);
    lemma_member_at(ms, 2);
    lemma_member_at(ms, 3);
    lemma_member_at(ms, 4);
    lemma_member_at(ms, 5);
    lemma_member_at(ms, 6);
    lemma_member_at(ms, 7);
    lemma_member_at(ms, 8);
    lemma_member_at(ms, 9);
    lemma_member_at(ms, 10);
}

/// A count's change tells what was before and after, what was added or taken, and
/// whether that is better.
pub proof fn law_a_change_tells_before_and_after(d: MetricDelta)
    ensures
        ({
            let v = complexity_report::count_delta_value(d);
            &&& json::field(v, "before"@) == Some(JsonView::Number(text::dec(d.before as nat) + ".0"@))
            &&& json::field(v, "after"@) == Some(JsonView::Number(text::dec(d.after as nat) + ".0"@))
            &&& d.after >= d.before ==> json::field(v, "delta"@) == Some(
                JsonView::Number(text::dec((d.after - d.before) as nat) + ".0"@),
            )
            &&& d.after < d.before ==> json::field(v, "delta"@) == Some(
                JsonView::Number("-"@ + text::dec((d.before - d.after) as nat) + ".0"@),
            )
            &&& json::field(v, "improved"@) == Some(JsonView::Bool(d.improved))
        }),
{
    let ms = complexity_report::count_delta_value(d)->Object_0;
    reveal_strlit("after");
    reveal_strlit("before");
    reveal_strlit("delta");
    reveal_strlit("improved");
    assert("after"@.len() == 5);
    assert("before"@.len() == 6);
    assert("delta"@.len() == 5);
    assert("improved"@.len() == 8);
    assert("after"@[0] != "delta"@[0]);
    lemma_member_at(ms, 0);
    lemma_member_at(ms, 1);
    lemma_member_at(ms, 2);
    lemma_member_at(ms, 3);
}

/// The changes of the totals and of a crate stand under the names of their metrics.
pub proof fn law_changes_stand_under_their_names(m: MetricDeltas, d: CrateDelta, t: EntropyTexts)
    ensures
        ({
            let v = complexity_report::metric_deltas_value(m, t);
            let c = complexity_report::crate_delta_value(d, t);
            &&& json::text_field(c, "crate"@) == Some(d.name@)
            &&& json::field(v, "overall_graph_entropy_score"@) == Some(
                complexity_report::entropy_delta_value(m.entropy, t),
            )
            &&& json::field(c, "overall_graph_entropy_score"@) == Some(
                complexity_report::entropy_delta_value(d.metrics.entropy, t),
            )
            &&& json::field(v, "artifact_writer_dispersion_count"@) == Some(
                complexity_report::count_delta_value(m.artifact_writer_dispersion_count),
            )
            &&& json::field(c, "artifact_writer_dispersion_count"@) == Some(
                complexity_report::count_delta_value(d.metrics.artifact_writer_dispersion_count),
            )
            &&& json::field(v, "error_shaping_dispersion_count"@) == Some(
                complexity_report::count_delta_value(m.error_shaping_dispersion_count),
            )
            &&& json::field(c, "error_shaping_dispersion_count"@) == Some(
                complexity_report::count_delta_value(d.metrics.error_shaping_dispersion_count),
            )
            &&& json::field(v, "pathway_count"@) == Some(
                complexity_report::count_delta_value(m.pathway_count),
            )
            &&& json::field(c, "pathway_count"@) == Some(
                complexity_report::count_delta_value(d.metrics.pathway_count),
            )
            &&& json::field(v, "redundant_path_count"@) == Some(
                complexity_report::count_delta_value(m.redundant_path_count),
            )
            &&& json::field(c, "redundant_path_count"@) == Some(
                complexity_report::count_delta_value(d.metrics.redundant_path_count),
            )
            &&& json::field(v, "representation_fanout_count"@) == Some(
                complexity_report::count_delta_value(m.representation_fanout_count),
            )
            &&& json::field(c, "representation_fanout_count"@) == Some(
                complexity_report::count_delta_value(d.metrics.representation_fanout_count),
            )
            &&& json::field(v, "state_transition_dispersion_count"@) == Some(
                complexity_report::count_delta_value(m.state_transition_dispersion_count),
            )
            &&& json::field(c, "state_transition_dispersion_count"@) == Some(
                complexity_report::count_delta_value(d.metrics.state_transition_dispersion_count),
            )
        }),
{
    let ms = complexity_report::metric_deltas_value(m, t)->Object_0;
    let cs = complexity_report::crate_delta_value(d, t)->Object_0;
    reveal_strlit("artifact_writer_dispersion_count");
    reveal_strlit("error_shaping_dispersion_count");
    reveal_strlit("overall_graph_entropy_score");
    reveal_strlit("pathway_count");
    reveal_strlit("redundant_path_count");
    reveal_strlit("representation_fanout_count");
    reveal_strlit("state_transition_dispersion_count");
    reveal_strlit("crate");
    assert("artifact_writer_dispersion_count"@.len() == 32);
    assert("error_shaping_dispersion_count"@.len() == 30);
    assert("overall_graph_entropy_score"@.len() == 27);
    assert("pathway_count"@.len() == 13);
    assert("redundant_path_count"@.len() == 20);
    assert("representation_fanout_count"@.len() == 27);
    assert("state_transition_dispersion_count"@.len() == 33);
    assert("crate"@.len() == 5);
    assert("overall_graph_entropy_score"@[0] != "representation_fanout_count"@[0]);
    lemma_member_at(ms, 0);
    lemma_member_at(ms, 1);
    lemma_member_at(ms, 2);
    lemma_member_at(ms, 3);
    lemma_member_at(ms, 4);
    lemma_member_at(ms, 5);
    lemma_member_at(ms, 6);
    lemma_member_at(cs, 0);
    lemma_member_at(cs, 1);
    lemma_member_at(cs, 2);
    lemma_member_at(cs, 3);
    lemma_member_at(cs, 4);
    lemma_member_at(cs, 5);
    lemma_member_at(cs, 6);
    lemma_member_at(cs, 7);
}

/// A report of changes tells whether they passed, and which metrics got better or
/// worse.
pub proof fn law_a_report_of_changes_tells_the_outcome(
    d: GraphDeltaReport,
    t: EntropyTexts,
    ts: Seq<EntropyTexts>,
    before_ms: JsonView,
    after_ms: JsonView,
    now_ms: u64,
)
    ensures
        ({
            let v = complexity_report::delta_report_value(d, t, ts, before_ms, after_ms, now_ms);
            &&& json::field(v, "verification_passed"@) == Some(
                JsonView::Bool(d.verification_passed),
            )
            &&& json::field(v, "before_generated_at_ms"@) == Some(before_ms)
            &&& json::field(v, "after_generated_at_ms"@) == Some(after_ms)
            &&& json::field(v, "generated_at_ms"@) == Some(JsonView::Uint(now_ms))
            &&& json::field(v, "improved_metrics"@) == Some(
                json::text_array_view(text::texts(d.improved_metrics@)),
            )
            &&& json::field(v, "regressed_metrics"@) == Some(
                json::text_array_view(text::texts(d.regressed_metrics@)),
            )
            &&& json::field(v, "metrics"@) == Some(
                complexity_report::metric_deltas_value(d.metrics, t),
            )
            &&& json::text_field(v, "kind"@) == Some("graph_delta_verification"@)
        }),
{
    let ms = complexity_report::delta_report_value(d, t, ts, before_ms, after_ms, now_ms)->Object_0;
    reveal_strlit("after_generated_at_ms");
    reveal_strlit("before_generated_at_ms");
    reveal_strlit("generated_at_ms");
    reveal_strlit("improved_metrics");
    reveal_strlit("kind");
    reveal_strlit("metrics");
    reveal_strlit("per_crate");
    reveal_strlit("regressed_metrics");
    reveal_strlit("verification_passed");
    reveal_strlit("version");
    assert("after_generated_at_ms"@.len() == 21);
    assert("before_generated_at_ms"@.len() == 22);
    assert("generated_at_ms"@.len() == 15);
    assert("improved_metrics"@.len() == 16);
    assert("kind"@.len() == 4);
    assert("metrics"@.len() == 7);
    assert("per_crate"@.len() == 9);
    assert("regressed_metrics"@.len() == 17);
    assert("verification_passed"@.len() == 19);
    assert("version"@.len() == 7);
    assert("metrics"@[0] != "version"@[0]);
    lemma_member_at(ms, 0);
    lemma_member_at(ms, 1);
    lemma_member_at(ms, 2);
    lemma_member_at(ms, 3);
    lemma_member_at(ms, 4);
    lemma_member_at(ms, 5);
    lemma_member_at(ms, 6);
    lemma_member_at(ms, 7);
    lemma_member_at(ms, 8);
    lemma_member_at(ms, 9);
}

/// Without an earlier snapshot there is nothing to hold the new one against, and the
/// report says so.
pub proof fn law_a_first_snapshot_is_no_change(after_ms: JsonView, now_ms: u64)
    ensures
        ({
            let v = complexity_report::no_baseline_value(after_ms, now_ms);
            &&& json::text_field(v, "status"@) == Some("no_baseline"@)
            &&& json::field(v, "after_generated_at_ms"@) == Some(after_ms)
            &&& json::field(v, "generated_at_ms"@) == Some(JsonView::Uint(now_ms))
            &&& json::text_field(v, "kind"@) == Some("graph_delta_verification"@)
        }),
{
    let ms = complexity_report::no_baseline_value(after_ms, now_ms)->Object_0;
    reveal_strlit("after_generated_at_ms");
    reveal_strlit("generated_at_ms");
    reveal_strlit("kind");
    reveal_strlit("message");
    reveal_strlit("status");
    reveal_strlit("version");
    assert("after_generated_at_ms"@.len() == 21);
    assert("generated_at_ms"@.len() == 15);
    assert("kind"@.len() == 4);
    assert("message"@.len() == 7);
    assert("status"@.len() == 6);
    assert("version"@.len() == 7);
    assert("message"@[0] != "version"@[0]);
    lemma_member_at(ms, 0);
    lemma_member_at(ms, 1);
    lemma_member_at(ms, 2);
    lemma_member_at(ms, 3);
    lemma_member_at(ms, 4);
    lemma_member_at(ms, 5);
}

/// Drift is reported with what got better and what got worse.
pub proof fn law_drift_is_reported_with_its_symbols(d: FingerprintDrift)
    ensures
        ({
            let v = complexity_report::drift_value(d);
            &&& json::field(v, "improved"@) == Some(json::text_array_view(text::texts(d.improved@)))
            &&& json::field(v, "regressed"@) == Some(
                json::text_array_view(text::texts(d.regressed@)),
            )
            &&& json::field(v, "stable_count"@) == Some(JsonView::Uint(d.stable_count as u64))
            &&& json::text_field(v, "stable_hash"@) == Some(d.stable_hash@)
        }),
{
    let ms = complexity_report::drift_value(d)->Object_0;
    reveal_strlit("improved");
    reveal_strlit("regressed");
    reveal_strlit("reward");
    reveal_strlit("stable_count");
    reveal_strlit("stable_hash");
    assert("improved"@.len() == 8);
    assert("regressed"@.len() == 9);
    assert("reward"@.len() == 6);
    assert("stable_count"@.len() == 12);
    assert("stable_hash"@.len() == 11);
    lemma_member_at(ms, 0);
    lemma_member_at(ms, 1);
    lemma_member_at(ms, 2);
    lemma_member_at(ms, 3);
    lemma_member_at(ms, 4);
}

/// One more crate adds its numbers to the totals, each to its own.
pub proof fn law_a_crate_adds_to_the_totals(
    ls: Seq<CrateLoad>,
    name: String,
    graph: SemanticGraph,
    entropy: u64,
    whole: u64,
)
    ensures
        ({
            let l = CrateLoad::Loaded { name, graph, entropy };
            let m = complexity::metrics_of(graph, entropy);
            let before = complexity::totals_over(ls, whole);
            let after = complexity::totals_over(ls.push(l), whole);
            &&& after.entropy == whole
            &&& after.artifact_writer_dispersion_count < u64::MAX ==> after.artifact_writer_dispersion_count
                == before.artifact_writer_dispersion_count + m.artifact_writer_dispersion_count
            &&& after.error_shaping_dispersion_count < u64::MAX ==> after.error_shaping_dispersion_count
                == before.error_shaping_dispersion_count + m.error_shaping_dispersion_count
            &&& after.pathway_count < u64::MAX ==> after.pathway_count
                == before.pathway_count + m.pathway_count
            &&& after.redundant_path_count < u64::MAX ==> after.redundant_path_count
                == before.redundant_path_count + m.redundant_path_count
            &&& after.representation_fanout_count < u64::MAX ==> after.representation_fanout_count
                == before.representation_fanout_count + m.representation_fanout_count
            &&& after.state_transition_dispersion_count < u64::MAX ==> after.state_transition_dispersion_count
                == before.state_transition_dispersion_count + m.state_transition_dispersion_count
        }),
{
    let l = CrateLoad::Loaded { name, graph, entropy };
    assert(ls.push(l).drop_last() =~= ls);
}

} // verus!
