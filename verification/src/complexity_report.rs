//! The complexity reports as values. Scores that are no whole numbers are handed
//! in as they are written.

use crate::complexity;
use crate::complexity::{
    complexity_proxy, CrateDelta, CrateSnapshot, GraphDeltaReport, GraphMetrics, GraphOnlyEntry,
    GraphVerificationSnapshot, MetricDelta, MetricDeltas,
};
use crate::drift_analysis::FingerprintDrift;
use crate::inter_complexity;
use crate::inter_complexity::write_points;
use crate::json;
use crate::json::{
    and, array, boolean, members, number, object, optional_string, string, string_array, uint,
    written, Json, JsonView,
};
use crate::semantic;
use crate::semantic::{one_place_score, SymbolSummary};
use crate::text;
use crate::text::{count_text, wide_decimal};
use vstd::prelude::*;
use vstd::string::*;

verus! {

// ---------------------------------------------------------------------------
// The graph-only report
// ---------------------------------------------------------------------------

/// An entry with its scores as they are written.
#[derive(Debug)]
pub struct WrittenEntry {
    pub entry: GraphOnlyEntry,
    pub stmt_density: String,
    pub b_transitive: String,
    pub heat_score: String,
    pub graph_complexity_score: String,
}

/// The branch score of an entry with two decimal places.
pub open spec fn branch_text(e: WrittenEntry) -> Seq<char> {
    inter_complexity::points_text(e.entry.branch_half_points) + "0"@
}

fn write_branch(e: &WrittenEntry) -> (r: String)
    ensures
        r@ == branch_text(*e),
{
    let mut t = write_points(e.entry.branch_half_points);
    t.append("0");
    t
}

/// The metrics of an entry.
pub open spec fn entry_metrics_value(
    e: WrittenEntry,
) -> JsonView {
    let mir_blocks = e.entry.mir_blocks;
    let mir_stmts = e.entry.mir_stmts;
    let branch = branch_text(e);
    let stmt_density = e.stmt_density@;
    let b_transitive = e.b_transitive@;
    let heat_score = e.heat_score@;
    let call_in = e.entry.call_in;
    let call_out = e.entry.call_out;
    let duplicate_body_count = e.entry.duplicate_body_count;
    let redundant_path_count = e.entry.redundant_path_count;
    let pathway_membership_count = e.entry.pathway_membership_count;
    let pathway_wrapper_count = e.entry.pathway_wrapper_count;
    let scc_size = e.entry.scc_size;
    let recursive = e.entry.is_directly_recursive;
    let graph_complexity_score = e.graph_complexity_score@;
    JsonView::Object(
        json::no_members().push(
            ("b_transitive"@, JsonView::Text(b_transitive)),
        ).push(
            ("branch_score"@, JsonView::Text(branch)),
        ).push(
            ("call_in"@, JsonView::Uint(call_in as u64)),
        ).push(
            ("call_out"@, JsonView::Uint(call_out as u64)),
        ).push(
            ("duplicate_body_count"@, JsonView::Uint(duplicate_body_count as u64)),
        ).push(
            ("graph_complexity_score"@, JsonView::Text(graph_complexity_score)),
        ).push(
            ("heat_score"@, JsonView::Text(heat_score)),
        ).push(
            ("is_directly_recursive"@, JsonView::Bool(recursive)),
        ).push(
            ("mir_blocks"@, JsonView::Uint(mir_blocks as u64)),
        ).push(
            ("mir_stmts"@, JsonView::Uint(mir_stmts as u64)),
        ).push(
            ("pathway_membership_count"@, JsonView::Uint(pathway_membership_count as u64)),
        ).push(
            ("pathway_wrapper_count"@, JsonView::Uint(pathway_wrapper_count as u64)),
        ).push(
            ("redundant_path_count"@, JsonView::Uint(redundant_path_count as u64)),
        ).push(
            ("scc_size"@, JsonView::Uint(scc_size as u64)),
        ).push(
            ("stmt_density"@, JsonView::Text(stmt_density)),
        ),
    )
}

/// The metrics of an entry.
pub fn write_entry_metrics_value(
    e: &WrittenEntry,
) -> (r: Json)
    ensures
        r@ == entry_metrics_value(*e),
{
    let mir_blocks: usize = e.entry.mir_blocks;
    let mir_stmts: usize = e.entry.mir_stmts;
    let branch = write_branch(e);
    let stmt_density = e.stmt_density.as_str();
    let b_transitive = e.b_transitive.as_str();
    let heat_score = e.heat_score.as_str();
    let call_in: usize = e.entry.call_in;
    let call_out: usize = e.entry.call_out;
    let duplicate_body_count: usize = e.entry.duplicate_body_count;
    let redundant_path_count: usize = e.entry.redundant_path_count;
    let pathway_membership_count: usize = e.entry.pathway_membership_count;
    let pathway_wrapper_count: usize = e.entry.pathway_wrapper_count;
    let scc_size: usize = e.entry.scc_size;
    let recursive = e.entry.is_directly_recursive;
    let graph_complexity_score = e.graph_complexity_score.as_str();
    let value = members();
    let value = and(value, "b_transitive", string(b_transitive));
    let value = and(value, "branch_score", string(branch.as_str()));
    let value = and(value, "call_in", uint(call_in));
    let value = and(value, "call_out", uint(call_out));
    let value = and(value, "duplicate_body_count", uint(duplicate_body_count));
    let value = and(value, "graph_complexity_score", string(graph_complexity_score));
    let value = and(value, "heat_score", string(heat_score));
    let value = and(value, "is_directly_recursive", boolean(recursive));
    let value = and(value, "mir_blocks", uint(mir_blocks));
    let value = and(value, "mir_stmts", uint(mir_stmts));
    let value = and(value, "pathway_membership_count", uint(pathway_membership_count));
    let value = and(value, "pathway_wrapper_count", uint(pathway_wrapper_count));
    let value = and(value, "redundant_path_count", uint(redundant_path_count));
    let value = and(value, "scc_size", uint(scc_size));
    let value = and(value, "stmt_density", string(stmt_density));
    let value = object(value);
    value
}

/// An entry of the report.
pub open spec fn graph_only_entry_value(
    e: WrittenEntry,
) -> JsonView {
    let crate_name = e.entry.crate_name@;
    let symbol = e.entry.symbol@;
    let file = e.entry.display_file@;
    let line = e.entry.line;
    let metrics = entry_metrics_value(e);
    JsonView::Object(
        json::no_members().push(
            ("crate"@, JsonView::Text(crate_name)),
        ).push(
            ("file"@, JsonView::Text(file)),
        ).push(
            ("line"@, JsonView::Uint(line as u64)),
        ).push(
            ("metrics"@, metrics),
        ).push(
            ("symbol"@, JsonView::Text(symbol)),
        ),
    )
}

/// An entry of the report.
pub fn write_graph_only_entry_value(
    e: &WrittenEntry,
) -> (r: Json)
    ensures
        r@ == graph_only_entry_value(*e),
{
    let crate_name = e.entry.crate_name.as_str();
    let symbol = e.entry.symbol.as_str();
    let file = e.entry.display_file.as_str();
    let line: usize = e.entry.line as usize;
    let metrics = write_entry_metrics_value(e);
    let value = members();
    let value = and(value, "crate", string(crate_name));
    let value = and(value, "file", string(file));
    let value = and(value, "line", uint(line));
    let value = and(value, "metrics", metrics);
    let value = and(value, "symbol", string(symbol));
    let value = object(value);
    value
}

/// Entries of the report.
pub open spec fn graph_only_entry_values(v: Seq<WrittenEntry>) -> JsonView {
    JsonView::Array(v.map_values(|x: WrittenEntry| graph_only_entry_value(x)))
}

/// Entries of the report.
pub fn write_graph_only_entry_values(v: &Vec<WrittenEntry>) -> (r: Json)
    ensures
        r@ == graph_only_entry_values(v@),
{
    let mut values: Vec<Json> = Vec::new();
    let mut i: usize = 0;
    while i < v.len()
        invariant
            i <= v@.len(),
            values@.len() == i,
            forall|k: int| 0 <= k < i ==> (#[trigger] values@[k])@ == graph_only_entry_value(v@[k]),
        decreases v@.len() - i,
    {
        values.push(write_graph_only_entry_value(&v[i]));
        i += 1;
    }
    let r = array(values);
    assert(r@->Array_0 =~= graph_only_entry_values(v@)->Array_0);
    r
}

/// One crate of the graph-only report: its score and its first entries, or why its
/// graph could not be loaded.
#[derive(Debug)]
pub enum GraphOnlyCrate {
    Counted { name: String, score: String, top: Vec<WrittenEntry> },
    Failed { name: String, error: String },
}

/// A crate whose graph could not be loaded.
pub open spec fn failed_crate_value(name: Seq<char>, error: Seq<char>) -> JsonView {
    JsonView::Object(
        json::no_members().push(
            ("crate"@, JsonView::Text(name)),
        ).push(
            ("error"@, JsonView::Text(error)),
        ).push(
            ("status"@, JsonView::Text("error"@)),
        ),
    )
}

/// A crate whose graph could not be loaded.
pub fn graph_complexity_crate_error(name: &str, error: &str) -> (r: Json)
    ensures
        r@ == failed_crate_value(name@, error@),
{
    let value = members();
    let value = and(value, "crate", string(name));
    let value = and(value, "error", string(error));
    let value = and(value, "status", string("error"));
    let value = object(value);
    value
}

/// One crate of the graph-only report.
pub open spec fn graph_only_crate_value(c: GraphOnlyCrate) -> JsonView {
    match c {
        GraphOnlyCrate::Counted { name, score, top } => {
            let name = name@;
            let score = score@;
            let top_values = graph_only_entry_values(top@);
            JsonView::Object(
                json::no_members().push(
                    ("crate"@, JsonView::Text(name)),
                ).push(
                    ("graph_entropy_score"@, JsonView::Text(score)),
                ).push(
                    ("status"@, JsonView::Text("ok"@)),
                ).push(
                    ("top"@, top_values),
                ),
            )
        },
        GraphOnlyCrate::Failed { name, error } => failed_crate_value(name@, error@),
    }
}

/// One crate of the graph-only report.
pub fn write_graph_only_crate_value(c: &GraphOnlyCrate) -> (r: Json)
    ensures
        r@ == graph_only_crate_value(*c),
{
    match c {
        GraphOnlyCrate::Counted { name, score, top } => {
            let name = name.as_str();
            let score = score.as_str();
            let top_values = write_graph_only_entry_values(top);
            let value = members();
            let value = and(value, "crate", string(name));
            let value = and(value, "graph_entropy_score", string(score));
            let value = and(value, "status", string("ok"));
            let value = and(value, "top", top_values);
            let value = object(value);
            value
        },
        GraphOnlyCrate::Failed { name, error } => {
            graph_complexity_crate_error(name.as_str(), error.as_str())
        },
    }
}

/// The crates of the graph-only report.
pub open spec fn graph_only_crate_values(v: Seq<GraphOnlyCrate>) -> JsonView {
    JsonView::Array(v.map_values(|x: GraphOnlyCrate| graph_only_crate_value(x)))
}

/// The crates of the graph-only report.
pub fn write_graph_only_crate_values(v: &Vec<GraphOnlyCrate>) -> (r: Json)
    ensures
        r@ == graph_only_crate_values(v@),
{
    let mut values: Vec<Json> = Vec::new();
    let mut i: usize = 0;
    while i < v.len()
        invariant
            i <= v@.len(),
            values@.len() == i,
            forall|k: int| 0 <= k < i ==> (#[trigger] values@[k])@ == graph_only_crate_value(v@[k]),
        decreases v@.len() - i,
    {
        values.push(write_graph_only_crate_value(&v[i]));
        i += 1;
    }
    let r = array(values);
    assert(r@->Array_0 =~= graph_only_crate_values(v@)->Array_0);
    r
}

/// How the scores of the graph-only report are made.
pub open spec fn graph_only_scoring_value(
) -> JsonView {
    JsonView::Object(
        json::no_members().push(
            ("B_norm"@, JsonView::Text("terminator-weighted local branch score normalized by crate max"@)),
        ).push(
            ("B_transitive_norm"@, JsonView::Text("local branch score plus mean direct callee branch score, normalized"@)),
        ).push(
            ("duplicate_norm"@, JsonView::Text("MIR fingerprint sibling count normalized"@)),
        ).push(
            ("graph_complexity_score"@, JsonView::Text("0.25·B_norm + 0.15·stmt_density_norm + 0.20·B_transitive_norm + 0.15·heat_norm + 0.10·duplicate_norm + 0.05·redundant_path_norm + 0.05·pathway_norm + 0.05·loop_norm"@)),
        ).push(
            ("heat_norm"@, JsonView::Text("branch_score × ln(call_in + 1), normalized"@)),
        ).push(
            ("loop_norm"@, JsonView::Text("call-graph SCC size normalized"@)),
        ).push(
            ("pathway_norm"@, JsonView::Text("alpha-pathway chain participation normalized"@)),
        ).push(
            ("redundant_path_norm"@, JsonView::Text("duplicate CFG path pair count normalized"@)),
        ),
    )
}

/// How the scores of the graph-only report are made.
pub fn write_graph_only_scoring_value(
) -> (r: Json)
    ensures
        r@ == graph_only_scoring_value(),
{
    let value = members();
    let value = and(value, "B_norm", string("terminator-weighted local branch score normalized by crate max"));
    let value = and(value, "B_transitive_norm", string("local branch score plus mean direct callee branch score, normalized"));
    let value = and(value, "duplicate_norm", string("MIR fingerprint sibling count normalized"));
    let value = and(value, "graph_complexity_score", string("0.25·B_norm + 0.15·stmt_density_norm + 0.20·B_transitive_norm + 0.15·heat_norm + 0.10·duplicate_norm + 0.05·redundant_path_norm + 0.05·pathway_norm + 0.05·loop_norm"));
    let value = and(value, "heat_norm", string("branch_score × ln(call_in + 1), normalized"));
    let value = and(value, "loop_norm", string("call-graph SCC size normalized"));
    let value = and(value, "pathway_norm", string("alpha-pathway chain participation normalized"));
    let value = and(value, "redundant_path_norm", string("duplicate CFG path pair count normalized"));
    let value = object(value);
    value
}

/// The graph-only report. Without crates it says nothing more.
pub open spec fn graph_only_report_value(
    crates: Seq<GraphOnlyCrate>,
    top: Seq<WrittenEntry>,
    overall: Seq<char>,
    now_ms: u64,
) -> JsonView {
    let one = JsonView::Uint(1);
    if crates.len() == 0 {
        let none = JsonView::Array(Seq::empty());
        let none2 = JsonView::Array(Seq::empty());
        JsonView::Object(
            json::no_members().push(
                ("crates"@, none),
            ).push(
                ("global_top"@, none2),
            ).push(
                ("kind"@, JsonView::Text("graph_only_complexity"@)),
            ).push(
                ("version"@, one),
            ),
        )
    } else {
        let crate_values = graph_only_crate_values(crates);
        let time = JsonView::Uint(now_ms);
        let top_values = graph_only_entry_values(top);
        let scoring = graph_only_scoring_value();
        JsonView::Object(
            json::no_members().push(
                ("crates"@, crate_values),
            ).push(
                ("generated_at_ms"@, time),
            ).push(
                ("global_top"@, top_values),
            ).push(
                ("kind"@, JsonView::Text("graph_only_complexity"@)),
            ).push(
                ("objective"@, JsonView::Text("min structural control entropy using graph.json only"@)),
            ).push(
                ("overall_graph_entropy_score"@, JsonView::Text(overall)),
            ).push(
                ("scoring"@, scoring),
            ).push(
                ("version"@, one),
            ),
        )
    }
}

fn empty_array() -> (r: Json)
    ensures
        r@ == JsonView::Array(Seq::empty()),
{
    let items: Vec<Json> = Vec::new();
    let r = array(items);
    assert(r@->Array_0 =~= Seq::<JsonView>::empty());
    r
}

/// The graph-only report: `top` are its first entries over all crates, `overall`
/// the mean of all scores as it is written.
pub fn build_graph_only_complexity_report(
    crates: &Vec<GraphOnlyCrate>,
    top: &Vec<WrittenEntry>,
    overall: &str,
    now_ms: u64,
) -> (r: Json)
    ensures
        r@ == graph_only_report_value(crates@, top@, overall@, now_ms),
{
    let one = number(1);
    if crates.len() == 0 {
        let none = empty_array();
        let none2 = empty_array();
        let value = members();
        let value = and(value, "crates", none);
        let value = and(value, "global_top", none2);
        let value = and(value, "kind", string("graph_only_complexity"));
        let value = and(value, "version", one);
        let value = object(value);
        value
    } else {
        let crate_values = write_graph_only_crate_values(crates);
        let time = number(now_ms);
        let top_values = write_graph_only_entry_values(top);
        let scoring = write_graph_only_scoring_value();
        let value = members();
        let value = and(value, "crates", crate_values);
        let value = and(value, "generated_at_ms", time);
        let value = and(value, "global_top", top_values);
        let value = and(value, "kind", string("graph_only_complexity"));
        let value = and(value, "objective", string("min structural control entropy using graph.json only"));
        let value = and(value, "overall_graph_entropy_score", string(overall));
        let value = and(value, "scoring", scoring);
        let value = and(value, "version", one);
        let value = object(value);
        value
    }
}

// ---------------------------------------------------------------------------
// The complexity report
// ---------------------------------------------------------------------------

/// A branch score in half points as a number, null where it is not known.
pub open spec fn branch_value(h: Option<u64>) -> JsonView {
    match h {
        Some(_) => JsonView::Number(semantic::one_place(h)),
        None => JsonView::Null,
    }
}

fn write_branch_value(h: Option<u64>) -> (r: Json)
    ensures
        r@ == branch_value(h),
{
    match h {
        Some(_) => written(one_place_score(h).as_str()),
        None => Json::Null,
    }
}

/// What a complexity report says of a symbol, with the scores that were computed.
#[derive(Debug)]
pub struct ComplexityTexts {
    pub stmt_density: String,
    pub objective_score: String,
}

/// An entry of a crate in the complexity report.
pub open spec fn complexity_entry_value(
    s: SymbolSummary,
    t: ComplexityTexts,
) -> JsonView {
    let symbol = s.symbol@;
    let file = s.display_file@;
    let line = s.line;
    let blocks = complexity::blocks_of(s);
    let stmts = complexity::stmts_of(s);
    let proxy = inter_complexity::points_text(complexity::points_of(s) as u128);
    let density = t.stmt_density@;
    let score = t.objective_score@;
    let fingerprint = json::optional_text_view(text::optional(s.mir_fingerprint));
    let branch = branch_value(s.branch_half_points);
    let recursive = s.is_directly_recursive;
    JsonView::Object(
        json::no_members().push(
            ("branch_score"@, branch),
        ).push(
            ("complexity_proxy"@, JsonView::Number(proxy)),
        ).push(
            ("file"@, JsonView::Text(file)),
        ).push(
            ("is_directly_recursive"@, JsonView::Bool(recursive)),
        ).push(
            ("line"@, JsonView::Uint(line as u64)),
        ).push(
            ("mir_blocks"@, JsonView::Uint(blocks as u64)),
        ).push(
            ("mir_fingerprint"@, fingerprint),
        ).push(
            ("mir_stmts"@, JsonView::Uint(stmts as u64)),
        ).push(
            ("objective_score"@, JsonView::Text(score)),
        ).push(
            ("stmt_density"@, JsonView::Text(density)),
        ).push(
            ("symbol"@, JsonView::Text(symbol)),
        ),
    )
}

/// An entry of a crate in the complexity report.
pub fn write_complexity_entry_value(
    s: &SymbolSummary,
    t: &ComplexityTexts,
) -> (r: Json)
    ensures
        r@ == complexity_entry_value(*s, *t),
{
    let symbol = s.symbol.as_str();
    let file = s.display_file.as_str();
    let line: usize = s.line as usize;
    let blocks: usize = complexity::block_count(s);
    let stmts: usize = complexity::stmt_count(s);
    let proxy = write_points(complexity_proxy(s));
    let density = t.stmt_density.as_str();
    let score = t.objective_score.as_str();
    let fingerprint = optional_string(&s.mir_fingerprint);
    let branch = write_branch_value(s.branch_half_points);
    let recursive = s.is_directly_recursive;
    let value = members();
    let value = and(value, "branch_score", branch);
    let value = and(value, "complexity_proxy", written(proxy.as_str()));
    let value = and(value, "file", string(file));
    let value = and(value, "is_directly_recursive", boolean(recursive));
    let value = and(value, "line", uint(line));
    let value = and(value, "mir_blocks", uint(blocks));
    let value = and(value, "mir_fingerprint", fingerprint);
    let value = and(value, "mir_stmts", uint(stmts));
    let value = and(value, "objective_score", string(score));
    let value = and(value, "stmt_density", string(density));
    let value = and(value, "symbol", string(symbol));
    let value = object(value);
    value
}

/// An entry of the complexity report over all crates.
pub open spec fn global_complexity_entry_value(
    crate_name: Seq<char>,
    s: SymbolSummary,
    t: ComplexityTexts,
) -> JsonView {
    let symbol = s.symbol@;
    let file = s.display_file@;
    let line = s.line;
    let blocks = complexity::blocks_of(s);
    let stmts = complexity::stmts_of(s);
    let proxy = inter_complexity::points_text(complexity::points_of(s) as u128);
    let density = t.stmt_density@;
    let score = t.objective_score@;
    JsonView::Object(
        json::no_members().push(
            ("complexity_proxy"@, JsonView::Number(proxy)),
        ).push(
            ("crate"@, JsonView::Text(crate_name)),
        ).push(
            ("file"@, JsonView::Text(file)),
        ).push(
            ("line"@, JsonView::Uint(line as u64)),
        ).push(
            ("mir_blocks"@, JsonView::Uint(blocks as u64)),
        ).push(
            ("mir_stmts"@, JsonView::Uint(stmts as u64)),
        ).push(
            ("objective_score"@, JsonView::Text(score)),
        ).push(
            ("stmt_density"@, JsonView::Text(density)),
        ).push(
            ("symbol"@, JsonView::Text(symbol)),
        ),
    )
}

/// An entry of the complexity report over all crates.
pub fn write_global_complexity_entry_value(
    crate_name: &str,
    s: &SymbolSummary,
    t: &ComplexityTexts,
) -> (r: Json)
    ensures
        r@ == global_complexity_entry_value(crate_name@, *s, *t),
{
    let symbol = s.symbol.as_str();
    let file = s.display_file.as_str();
    let line: usize = s.line as usize;
    let blocks: usize = complexity::block_count(s);
    let stmts: usize = complexity::stmt_count(s);
    let proxy = write_points(complexity_proxy(s));
    let density = t.stmt_density.as_str();
    let score = t.objective_score.as_str();
    let value = members();
    let value = and(value, "complexity_proxy", written(proxy.as_str()));
    let value = and(value, "crate", string(crate_name));
    let value = and(value, "file", string(file));
    let value = and(value, "line", uint(line));
    let value = and(value, "mir_blocks", uint(blocks));
    let value = and(value, "mir_stmts", uint(stmts));
    let value = and(value, "objective_score", string(score));
    let value = and(value, "stmt_density", string(density));
    let value = and(value, "symbol", string(symbol));
    let value = object(value);
    value
}

/// One crate of the complexity report.
pub open spec fn crate_complexity_value(
    name: Seq<char>,
    top: JsonView,
) -> JsonView {
    JsonView::Object(
        json::no_members().push(
            ("crate"@, JsonView::Text(name)),
        ).push(
            ("metric"@, JsonView::Text("objective_score(B*0.6+R*0.4)"@)),
        ).push(
            ("status"@, JsonView::Text("ok"@)),
        ).push(
            ("top"@, top),
        ),
    )
}

/// One crate of the complexity report.
pub fn write_crate_complexity_value(
    name: &str,
    top: Json,
) -> (r: Json)
    ensures
        r@ == crate_complexity_value(name@, top@),
{
    let value = members();
    let value = and(value, "crate", string(name));
    let value = and(value, "metric", string("objective_score(B*0.6+R*0.4)"));
    let value = and(value, "status", string("ok"));
    let value = and(value, "top", top);
    let value = object(value);
    value
}

/// How the scores within functions are made.
pub open spec fn intra_scoring_value(
) -> JsonView {
    JsonView::Object(
        json::no_members().push(
            ("B_norm"@, JsonView::Text("branch_score / max_branch_score  (terminator-weighted: SwitchInt×2+Call×1+Assert×0.5)"@)),
        ).push(
            ("R_norm"@, JsonView::Text("stmt_density / max_stmt_density  (redundancy proxy: dense logic per branch)"@)),
        ).push(
            ("objective_score"@, JsonView::Text("0.6·B_norm + 0.4·R_norm  ∈ [0,1]  (higher = higher-value target)"@)),
        ).push(
            ("stmt_density"@, JsonView::Text("mir_stmts / mir_blocks"@)),
        ),
    )
}

/// How the scores within functions are made.
pub fn write_intra_scoring_value(
) -> (r: Json)
    ensures
        r@ == intra_scoring_value(),
{
    let value = members();
    let value = and(value, "B_norm", string("branch_score / max_branch_score  (terminator-weighted: SwitchInt×2+Call×1+Assert×0.5)"));
    let value = and(value, "R_norm", string("stmt_density / max_stmt_density  (redundancy proxy: dense logic per branch)"));
    let value = and(value, "objective_score", string("0.6·B_norm + 0.4·R_norm  ∈ [0,1]  (higher = higher-value target)"));
    let value = and(value, "stmt_density", string("mir_stmts / mir_blocks"));
    let value = object(value);
    value
}

/// How the scores across functions are made.
pub open spec fn inter_scoring_value(
) -> JsonView {
    JsonView::Object(
        json::no_members().push(
            ("B_transitive"@, JsonView::Text("branch_score(F) + mean(branch_score(callee)) — depth-1 propagation"@)),
        ).push(
            ("D_det"@, JsonView::Text("1.0 − branch_score_norm  (determinism proxy)"@)),
        ).push(
            ("R_body"@, JsonView::Text("1.0 if MIR fingerprint+signature+callees match another function (semantic duplicate)"@)),
        ).push(
            ("branch_score"@, JsonView::Text("SwitchInt×2.0 + Call×1.0 + Assert×0.5 over non-cleanup MIR blocks"@)),
        ).push(
            ("heat_score"@, JsonView::Text("branch_score × ln(call_in + 1) — complexity weighted by call frequency"@)),
        ).push(
            ("inter_objective"@, JsonView::Text("0.30·B_transitive_norm + 0.20·R_body + 0.20·(1−D_det) + 0.30·heat_norm"@)),
        ),
    )
}

/// How the scores across functions are made.
pub fn write_inter_scoring_value(
) -> (r: Json)
    ensures
        r@ == inter_scoring_value(),
{
    let value = members();
    let value = and(value, "B_transitive", string("branch_score(F) + mean(branch_score(callee)) — depth-1 propagation"));
    let value = and(value, "D_det", string("1.0 − branch_score_norm  (determinism proxy)"));
    let value = and(value, "R_body", string("1.0 if MIR fingerprint+signature+callees match another function (semantic duplicate)"));
    let value = and(value, "branch_score", string("SwitchInt×2.0 + Call×1.0 + Assert×0.5 over non-cleanup MIR blocks"));
    let value = and(value, "heat_score", string("branch_score × ln(call_in + 1) — complexity weighted by call frequency"));
    let value = and(value, "inter_objective", string("0.30·B_transitive_norm + 0.20·R_body + 0.20·(1−D_det) + 0.30·heat_norm"));
    let value = object(value);
    value
}

/// What a complexity report says of an evaluation, its scores as they are written.
#[derive(Debug)]
pub struct EvalSection {
    pub overall_score: String,
    pub objective_progress: String,
    pub safety: String,
    pub task_velocity: String,
    pub issue_health: String,
    pub semantic_contract: String,
    pub semantic_fn_error_rate: String,
    pub diagnostics_repair_pressure: String,
    pub semantic_fn_total: usize,
    pub semantic_fn_with_any_error: usize,
    pub objectives_completed: usize,
    pub objectives_total: usize,
    pub completed_tasks: usize,
    pub total_tasks: usize,
}

/// A part of a whole.
pub open spec fn fraction(part: usize, whole: usize) -> Seq<char> {
    text::dec(part as nat) + "/"@ + text::dec(whole as nat)
}

fn write_fraction(part: usize, whole: usize) -> (r: String)
    ensures
        r@ == fraction(part, whole),
{
    let mut t = count_text(part);
    t.append("/");
    t.append(count_text(whole).as_str());
    t
}

/// What a complexity report says of an evaluation.
pub open spec fn eval_section_value(
    e: EvalSection,
) -> JsonView {
    let overall_score = e.overall_score@;
    let objective_progress = e.objective_progress@;
    let safety = e.safety@;
    let task_velocity = e.task_velocity@;
    let issue_health = e.issue_health@;
    let semantic_contract = e.semantic_contract@;
    let semantic_fn_error_rate = e.semantic_fn_error_rate@;
    let diagnostics_repair_pressure = e.diagnostics_repair_pressure@;
    let fn_total = e.semantic_fn_total;
    let fn_errors = e.semantic_fn_with_any_error;
    let objectives = fraction(e.objectives_completed, e.objectives_total);
    let tasks = fraction(e.completed_tasks, e.total_tasks);
    JsonView::Object(
        json::no_members().push(
            ("diagnostics_repair_pressure"@, JsonView::Number(diagnostics_repair_pressure)),
        ).push(
            ("issue_health"@, JsonView::Number(issue_health)),
        ).push(
            ("objective_progress"@, JsonView::Number(objective_progress)),
        ).push(
            ("objectives"@, JsonView::Text(objectives)),
        ).push(
            ("overall_score"@, JsonView::Number(overall_score)),
        ).push(
            ("safety"@, JsonView::Number(safety)),
        ).push(
            ("semantic_contract"@, JsonView::Number(semantic_contract)),
        ).push(
            ("semantic_fn_error_rate"@, JsonView::Number(semantic_fn_error_rate)),
        ).push(
            ("semantic_fn_total"@, JsonView::Uint(fn_total as u64)),
        ).push(
            ("semantic_fn_with_any_error"@, JsonView::Uint(fn_errors as u64)),
        ).push(
            ("task_velocity"@, JsonView::Number(task_velocity)),
        ).push(
            ("tasks"@, JsonView::Text(tasks)),
        ),
    )
}

/// What a complexity report says of an evaluation.
pub fn write_eval_section_value(
    e: &EvalSection,
) -> (r: Json)
    ensures
        r@ == eval_section_value(*e),
{
    let overall_score = e.overall_score.as_str();
    let objective_progress = e.objective_progress.as_str();
    let safety = e.safety.as_str();
    let task_velocity = e.task_velocity.as_str();
    let issue_health = e.issue_health.as_str();
    let semantic_contract = e.semantic_contract.as_str();
    let semantic_fn_error_rate = e.semantic_fn_error_rate.as_str();
    let diagnostics_repair_pressure = e.diagnostics_repair_pressure.as_str();
    let fn_total: usize = e.semantic_fn_total;
    let fn_errors: usize = e.semantic_fn_with_any_error;
    let objectives = write_fraction(e.objectives_completed, e.objectives_total);
    let tasks = write_fraction(e.completed_tasks, e.total_tasks);
    let value = members();
    let value = and(value, "diagnostics_repair_pressure", written(diagnostics_repair_pressure));
    let value = and(value, "issue_health", written(issue_health));
    let value = and(value, "objective_progress", written(objective_progress));
    let value = and(value, "objectives", string(objectives.as_str()));
    let value = and(value, "overall_score", written(overall_score));
    let value = and(value, "safety", written(safety));
    let value = and(value, "semantic_contract", written(semantic_contract));
    let value = and(value, "semantic_fn_error_rate", written(semantic_fn_error_rate));
    let value = and(value, "semantic_fn_total", uint(fn_total));
    let value = and(value, "semantic_fn_with_any_error", uint(fn_errors));
    let value = and(value, "task_velocity", written(task_velocity));
    let value = and(value, "tasks", string(tasks.as_str()));
    let value = object(value);
    value
}

/// Half points as a number.
pub open spec fn half_points_text(h: int) -> Seq<char> {
    if h < 0 {
        "-"@ + inter_complexity::points_text((-h) as u128)
    } else {
        inter_complexity::points_text(h as u128)
    }
}

fn write_half_points(h: i128) -> (r: String)
    requires
        h > i128::MIN,
    ensures
        r@ == half_points_text(h as int),
{
    if h < 0 {
        let mut t = "-".to_owned();
        t.append(write_points((-h) as u128).as_str());
        t
    } else {
        write_points(h as u128)
    }
}

/// What a complexity report says of a drift.
pub open spec fn drift_value(
    d: FingerprintDrift,
) -> JsonView {
    let improved = text::texts(d.improved@);
    let regressed = text::texts(d.regressed@);
    let stable_count = d.stable_count;
    let reward = half_points_text(2 * d.improved@.len() - 3 * d.regressed@.len());
    let stable_hash = d.stable_hash@;
    JsonView::Object(
        json::no_members().push(
            ("improved"@, json::text_array_view(improved)),
        ).push(
            ("regressed"@, json::text_array_view(regressed)),
        ).push(
            ("reward"@, JsonView::Number(reward)),
        ).push(
            ("stable_count"@, JsonView::Uint(stable_count as u64)),
        ).push(
            ("stable_hash"@, JsonView::Text(stable_hash)),
        ),
    )
}

/// What a complexity report says of a drift.
pub fn write_drift_value(
    d: &FingerprintDrift,
) -> (r: Json)
    ensures
        r@ == drift_value(*d),
{
    let improved = &d.improved;
    let regressed = &d.regressed;
    let stable_count: usize = d.stable_count;
    let reward = write_half_points(d.reward_half_points());
    let stable_hash = d.stable_hash.as_str();
    let value = members();
    let value = and(value, "improved", string_array(improved));
    let value = and(value, "regressed", string_array(regressed));
    let value = and(value, "reward", written(reward.as_str()));
    let value = and(value, "stable_count", uint(stable_count));
    let value = and(value, "stable_hash", string(stable_hash));
    let value = object(value);
    value
}

/// The complexity report.
pub open spec fn complexity_report_value(
    per_crate: JsonView,
    global_top: JsonView,
    inter: JsonView,
    e: EvalSection,
    d: FingerprintDrift,
    now_ms: u64,
) -> JsonView {
    let two = JsonView::Uint(2);
    let time = JsonView::Uint(now_ms);
    let intra = intra_scoring_value();
    let across = inter_scoring_value();
    let eval = eval_section_value(e);
    let drift = drift_value(d);
    JsonView::Object(
        json::no_members().push(
            ("eval"@, eval),
        ).push(
            ("execution_model"@, JsonView::Text("Detect(this_report) → Propose(LLM/issues) → Apply(patch/rename) → Verify(build+test)"@)),
        ).push(
            ("fingerprint_drift"@, drift),
        ).push(
            ("generated_at_ms"@, time),
        ).push(
            ("global_top"@, global_top),
        ).push(
            ("inter"@, inter),
        ).push(
            ("inter_scoring"@, across),
        ).push(
            ("intra_scoring"@, intra),
        ).push(
            ("objective"@, JsonView::Text("min(B) + min(R)  s.t. correctness invariant"@)),
        ).push(
            ("per_crate"@, per_crate),
        ).push(
            ("version"@, two),
        ),
    )
}

/// The complexity report.
pub fn build_complexity_report(
    per_crate: Json,
    global_top: Json,
    inter: Json,
    e: &EvalSection,
    d: &FingerprintDrift,
    now_ms: u64,
) -> (r: Json)
    ensures
        r@ == complexity_report_value(per_crate@, global_top@, inter@, *e, *d, now_ms),
{
    let two = number(2);
    let time = number(now_ms);
    let intra = write_intra_scoring_value();
    let across = write_inter_scoring_value();
    let eval = write_eval_section_value(e);
    let drift = write_drift_value(d);
    let value = members();
    let value = and(value, "eval", eval);
    let value = and(value, "execution_model", string("Detect(this_report) → Propose(LLM/issues) → Apply(patch/rename) → Verify(build+test)"));
    let value = and(value, "fingerprint_drift", drift);
    let value = and(value, "generated_at_ms", time);
    let value = and(value, "global_top", global_top);
    let value = and(value, "inter", inter);
    let value = and(value, "inter_scoring", across);
    let value = and(value, "intra_scoring", intra);
    let value = and(value, "objective", string("min(B) + min(R)  s.t. correctness invariant"));
    let value = and(value, "per_crate", per_crate);
    let value = and(value, "version", two);
    let value = object(value);
    value
}

// ---------------------------------------------------------------------------
// The graph verification snapshot
// ---------------------------------------------------------------------------

/// The entropy of a crate as it is written, and its first entries.
#[derive(Debug)]
pub struct SnapshotTexts {
    pub entropy: String,
    pub top: Vec<WrittenEntry>,
}

/// The metrics of all crates together.
pub open spec fn snapshot_totals_value(
    m: GraphMetrics,
    entropy: Seq<char>,
) -> JsonView {
    let pathway_count = JsonView::Uint(m.pathway_count);
    let redundant_path_count = JsonView::Uint(m.redundant_path_count);
    let artifact_writer_dispersion_count = JsonView::Uint(m.artifact_writer_dispersion_count);
    let error_shaping_dispersion_count = JsonView::Uint(m.error_shaping_dispersion_count);
    let state_transition_dispersion_count = JsonView::Uint(m.state_transition_dispersion_count);
    let representation_fanout_count = JsonView::Uint(m.representation_fanout_count);
    JsonView::Object(
        json::no_members().push(
            ("artifact_writer_dispersion_count"@, artifact_writer_dispersion_count),
        ).push(
            ("error_shaping_dispersion_count"@, error_shaping_dispersion_count),
        ).push(
            ("overall_graph_entropy_score"@, JsonView::Number(entropy)),
        ).push(
            ("pathway_count"@, pathway_count),
        ).push(
            ("redundant_path_count"@, redundant_path_count),
        ).push(
            ("representation_fanout_count"@, representation_fanout_count),
        ).push(
            ("state_transition_dispersion_count"@, state_transition_dispersion_count),
        ),
    )
}

/// The metrics of all crates together.
pub fn write_snapshot_totals_value(
    m: &GraphMetrics,
    entropy: &str,
) -> (r: Json)
    ensures
        r@ == snapshot_totals_value(*m, entropy@),
{
    let pathway_count = number(m.pathway_count);
    let redundant_path_count = number(m.redundant_path_count);
    let artifact_writer_dispersion_count = number(m.artifact_writer_dispersion_count);
    let error_shaping_dispersion_count = number(m.error_shaping_dispersion_count);
    let state_transition_dispersion_count = number(m.state_transition_dispersion_count);
    let representation_fanout_count = number(m.representation_fanout_count);
    let value = members();
    let value = and(value, "artifact_writer_dispersion_count", artifact_writer_dispersion_count);
    let value = and(value, "error_shaping_dispersion_count", error_shaping_dispersion_count);
    let value = and(value, "overall_graph_entropy_score", written(entropy));
    let value = and(value, "pathway_count", pathway_count);
    let value = and(value, "redundant_path_count", redundant_path_count);
    let value = and(value, "representation_fanout_count", representation_fanout_count);
    let value = and(value, "state_transition_dispersion_count", state_transition_dispersion_count);
    let value = object(value);
    value
}

/// One crate of the snapshot.
pub open spec fn snapshot_crate_value(c: CrateSnapshot, t: SnapshotTexts) -> JsonView {
    match c {
        CrateSnapshot::Counted { name, metrics, call_edge_count } => {
            let name = name@;
            let entropy = t.entropy@;
            let top_values = graph_only_entry_values(t.top@);
            let pathway_count = JsonView::Uint(metrics.pathway_count);
            let redundant_path_count = JsonView::Uint(metrics.redundant_path_count);
            let artifact_writer_dispersion_count = JsonView::Uint(metrics.artifact_writer_dispersion_count);
            let error_shaping_dispersion_count = JsonView::Uint(metrics.error_shaping_dispersion_count);
            let state_transition_dispersion_count = JsonView::Uint(metrics.state_transition_dispersion_count);
            let representation_fanout_count = JsonView::Uint(metrics.representation_fanout_count);
            JsonView::Object(
                json::no_members().push(
                    ("artifact_writer_dispersion_count"@, artifact_writer_dispersion_count),
                ).push(
                    ("call_edge_count"@, JsonView::Uint(call_edge_count as u64)),
                ).push(
                    ("crate"@, JsonView::Text(name)),
                ).push(
                    ("error_shaping_dispersion_count"@, error_shaping_dispersion_count),
                ).push(
                    ("overall_graph_entropy_score"@, JsonView::Number(entropy)),
                ).push(
                    ("pathway_count"@, pathway_count),
                ).push(
                    ("redundant_path_count"@, redundant_path_count),
                ).push(
                    ("representation_fanout_count"@, representation_fanout_count),
                ).push(
                    ("state_transition_dispersion_count"@, state_transition_dispersion_count),
                ).push(
                    ("status"@, JsonView::Text("ok"@)),
                ).push(
                    ("top_entropy_hotspots"@, top_values),
                ),
            )
        },
        CrateSnapshot::Failed { name, error } => failed_crate_value(name@, error@),
    }
}

/// One crate of the snapshot.
pub fn write_snapshot_crate_value(c: &CrateSnapshot, t: &SnapshotTexts) -> (r: Json)
    ensures
        r@ == snapshot_crate_value(*c, *t),
{
    match c {
        CrateSnapshot::Counted { name, metrics, call_edge_count } => {
            let name = name.as_str();
            let entropy = t.entropy.as_str();
            let call_edge_count: usize = *call_edge_count;
            let top_values = write_graph_only_entry_values(&t.top);
            let pathway_count = number(metrics.pathway_count);
            let redundant_path_count = number(metrics.redundant_path_count);
            let artifact_writer_dispersion_count = number(metrics.artifact_writer_dispersion_count);
            let error_shaping_dispersion_count = number(metrics.error_shaping_dispersion_count);
            let state_transition_dispersion_count = number(metrics.state_transition_dispersion_count);
            let representation_fanout_count = number(metrics.representation_fanout_count);
            let value = members();
            let value = and(value, "artifact_writer_dispersion_count", artifact_writer_dispersion_count);
            let value = and(value, "call_edge_count", uint(call_edge_count));
            let value = and(value, "crate", string(name));
            let value = and(value, "error_shaping_dispersion_count", error_shaping_dispersion_count);
            let value = and(value, "overall_graph_entropy_score", written(entropy));
            let value = and(value, "pathway_count", pathway_count);
            let value = and(value, "redundant_path_count", redundant_path_count);
            let value = and(value, "representation_fanout_count", representation_fanout_count);
            let value = and(value, "state_transition_dispersion_count", state_transition_dispersion_count);
            let value = and(value, "status", string("ok"));
            let value = and(value, "top_entropy_hotspots", top_values);
            let value = object(value);
            value
        },
        CrateSnapshot::Failed { name, error } => {
            graph_complexity_crate_error(name.as_str(), error.as_str())
        },
    }
}

/// The crates of the snapshot.
pub open spec fn snapshot_crate_values(v: Seq<CrateSnapshot>, ts: Seq<SnapshotTexts>) -> JsonView {
    JsonView::Array(Seq::new(v.len(), |i: int| snapshot_crate_value(v[i], ts[i])))
}

/// The crates of the snapshot.
pub fn write_snapshot_crate_values(v: &Vec<CrateSnapshot>, ts: &Vec<SnapshotTexts>) -> (r: Json)
    requires
        v@.len() == ts@.len(),
    ensures
        r@ == snapshot_crate_values(v@, ts@),
{
    let mut values: Vec<Json> = Vec::new();
    let mut i: usize = 0;
    while i < v.len()
        invariant
            i <= v@.len(),
            v@.len() == ts@.len(),
            values@.len() == i,
            forall|k: int|
                0 <= k < i ==> (#[trigger] values@[k])@ == snapshot_crate_value(v@[k], ts@[k]),
        decreases v@.len() - i,
    {
        values.push(write_snapshot_crate_value(&v[i], &ts[i]));
        i += 1;
    }
    let r = array(values);
    assert(r@->Array_0 =~= snapshot_crate_values(v@, ts@)->Array_0);
    r
}

/// The snapshot as it is written.
pub open spec fn verification_snapshot_value(
    s: GraphVerificationSnapshot,
    entropy: Seq<char>,
    ts: Seq<SnapshotTexts>,
    top: Seq<WrittenEntry>,
    now_ms: u64,
) -> JsonView {
    let one = JsonView::Uint(1);
    let time = JsonView::Uint(now_ms);
    let totals = snapshot_totals_value(s.totals, entropy);
    let top_values = graph_only_entry_values(top);
    let crate_values = snapshot_crate_values(s.crates@, ts);
    JsonView::Object(
        json::no_members().push(
            ("crates"@, crate_values),
        ).push(
            ("generated_at_ms"@, time),
        ).push(
            ("global_top"@, top_values),
        ).push(
            ("kind"@, JsonView::Text("graph_verification_snapshot"@)),
        ).push(
            ("totals"@, totals),
        ).push(
            ("version"@, one),
        ),
    )
}

/// The snapshot as it is written: `entropy` is that of all entries, `ts` are the texts
/// of its crates, and `top` its first entries over all crates.
pub fn write_verification_snapshot_value(
    s: &GraphVerificationSnapshot,
    entropy: &str,
    ts: &Vec<SnapshotTexts>,
    top: &Vec<WrittenEntry>,
    now_ms: u64,
) -> (r: Json)
    requires
        ts@.len() == s.crates@.len(),
    ensures
        r@ == verification_snapshot_value(*s, entropy@, ts@, top@, now_ms),
{
    let one = number(1);
    let time = number(now_ms);
    let totals = write_snapshot_totals_value(&s.totals, entropy);
    let top_values = write_graph_only_entry_values(top);
    let crate_values = write_snapshot_crate_values(&s.crates, ts);
    let value = members();
    let value = and(value, "crates", crate_values);
    let value = and(value, "generated_at_ms", time);
    let value = and(value, "global_top", top_values);
    let value = and(value, "kind", string("graph_verification_snapshot"));
    let value = and(value, "totals", totals);
    let value = and(value, "version", one);
    let value = object(value);
    value
}

// ---------------------------------------------------------------------------
// The graph delta report
// ---------------------------------------------------------------------------

/// The entropy before and after, and how it moved, as they are written.
#[derive(Debug)]
pub struct EntropyTexts {
    pub before: String,
    pub after: String,
    pub delta: String,
}

/// A whole number as a number with a decimal place.
pub open spec fn whole_text(n: int) -> Seq<char> {
    if n < 0 {
        "-"@ + text::dec((-n) as nat) + ".0"@
    } else {
        text::dec(n as nat) + ".0"@
    }
}

fn write_whole(n: i128) -> (r: String)
    requires
        n > i128::MIN,
    ensures
        r@ == whole_text(n as int),
{
    if n < 0 {
        let mut t = "-".to_owned();
        t.append(wide_decimal((-n) as u128).as_str());
        t.append(".0");
        t
    } else {
        let mut t = wide_decimal(n as u128);
        t.append(".0");
        t
    }
}

/// How a metric moved.
pub open spec fn metric_delta_value(
    before: Seq<char>,
    after: Seq<char>,
    delta: Seq<char>,
    improved: bool,
) -> JsonView {
    JsonView::Object(
        json::no_members().push(
            ("after"@, JsonView::Number(after)),
        ).push(
            ("before"@, JsonView::Number(before)),
        ).push(
            ("delta"@, JsonView::Number(delta)),
        ).push(
            ("improved"@, JsonView::Bool(improved)),
        ),
    )
}

/// How a metric moved.
pub fn write_metric_delta_value(
    before: &str,
    after: &str,
    delta: &str,
    improved: bool,
) -> (r: Json)
    ensures
        r@ == metric_delta_value(before@, after@, delta@, improved),
{
    let value = members();
    let value = and(value, "after", written(after));
    let value = and(value, "before", written(before));
    let value = and(value, "delta", written(delta));
    let value = and(value, "improved", boolean(improved));
    let value = object(value);
    value
}

/// How a count moved.
pub open spec fn count_delta_value(d: MetricDelta) -> JsonView {
    metric_delta_value(
        whole_text(d.before as int),
        whole_text(d.after as int),
        whole_text(d.after - d.before),
        d.improved,
    )
}

/// How a count moved.
pub fn write_count_delta_value(d: &MetricDelta) -> (r: Json)
    ensures
        r@ == count_delta_value(*d),
{
    let before: i128 = d.before as i128;
    let after: i128 = d.after as i128;
    write_metric_delta_value(
        write_whole(before).as_str(),
        write_whole(after).as_str(),
        write_whole(after - before).as_str(),
        d.improved,
    )
}

/// How the entropy moved.
pub open spec fn entropy_delta_value(d: MetricDelta, t: EntropyTexts) -> JsonView {
    metric_delta_value(t.before@, t.after@, t.delta@, d.improved)
}

fn write_entropy_delta_value(d: &MetricDelta, t: &EntropyTexts) -> (r: Json)
    ensures
        r@ == entropy_delta_value(*d, *t),
{
    write_metric_delta_value(t.before.as_str(), t.after.as_str(), t.delta.as_str(), d.improved)
}

/// How the metrics moved.
pub open spec fn metric_deltas_value(
    m: MetricDeltas,
    t: EntropyTexts,
) -> JsonView {
    let entropy = entropy_delta_value(m.entropy, t);
    let pathway_count = count_delta_value(m.pathway_count);
    let redundant_path_count = count_delta_value(m.redundant_path_count);
    let artifact_writer_dispersion_count = count_delta_value(m.artifact_writer_dispersion_count);
    let error_shaping_dispersion_count = count_delta_value(m.error_shaping_dispersion_count);
    let state_transition_dispersion_count = count_delta_value(m.state_transition_dispersion_count);
    let representation_fanout_count = count_delta_value(m.representation_fanout_count);
    JsonView::Object(
        json::no_members().push(
            ("artifact_writer_dispersion_count"@, artifact_writer_dispersion_count),
        ).push(
            ("error_shaping_dispersion_count"@, error_shaping_dispersion_count),
        ).push(
            ("overall_graph_entropy_score"@, entropy),
        ).push(
            ("pathway_count"@, pathway_count),
        ).push(
            ("redundant_path_count"@, redundant_path_count),
        ).push(
            ("representation_fanout_count"@, representation_fanout_count),
        ).push(
            ("state_transition_dispersion_count"@, state_transition_dispersion_count),
        ),
    )
}

/// How the metrics moved.
pub fn write_metric_deltas_value(
    m: &MetricDeltas,
    t: &EntropyTexts,
) -> (r: Json)
    ensures
        r@ == metric_deltas_value(*m, *t),
{
    let entropy = write_entropy_delta_value(&m.entropy, t);
    let pathway_count = write_count_delta_value(&m.pathway_count);
    let redundant_path_count = write_count_delta_value(&m.redundant_path_count);
    let artifact_writer_dispersion_count = write_count_delta_value(&m.artifact_writer_dispersion_count);
    let error_shaping_dispersion_count = write_count_delta_value(&m.error_shaping_dispersion_count);
    let state_transition_dispersion_count = write_count_delta_value(&m.state_transition_dispersion_count);
    let representation_fanout_count = write_count_delta_value(&m.representation_fanout_count);
    let value = members();
    let value = and(value, "artifact_writer_dispersion_count", artifact_writer_dispersion_count);
    let value = and(value, "error_shaping_dispersion_count", error_shaping_dispersion_count);
    let value = and(value, "overall_graph_entropy_score", entropy);
    let value = and(value, "pathway_count", pathway_count);
    let value = and(value, "redundant_path_count", redundant_path_count);
    let value = and(value, "representation_fanout_count", representation_fanout_count);
    let value = and(value, "state_transition_dispersion_count", state_transition_dispersion_count);
    let value = object(value);
    value
}

/// How the metrics of a crate moved.
pub open spec fn crate_delta_value(
    d: CrateDelta,
    t: EntropyTexts,
) -> JsonView {
    let name = d.name@;
    let entropy = entropy_delta_value(d.metrics.entropy, t);
    let pathway_count = count_delta_value(d.metrics.pathway_count);
    let redundant_path_count = count_delta_value(d.metrics.redundant_path_count);
    let artifact_writer_dispersion_count = count_delta_value(d.metrics.artifact_writer_dispersion_count);
    let error_shaping_dispersion_count = count_delta_value(d.metrics.error_shaping_dispersion_count);
    let state_transition_dispersion_count = count_delta_value(d.metrics.state_transition_dispersion_count);
    let representation_fanout_count = count_delta_value(d.metrics.representation_fanout_count);
    JsonView::Object(
        json::no_members().push(
            ("artifact_writer_dispersion_count"@, artifact_writer_dispersion_count),
        ).push(
            ("crate"@, JsonView::Text(name)),
        ).push(
            ("error_shaping_dispersion_count"@, error_shaping_dispersion_count),
        ).push(
            ("overall_graph_entropy_score"@, entropy),
        ).push(
            ("pathway_count"@, pathway_count),
        ).push(
            ("redundant_path_count"@, redundant_path_count),
        ).push(
            ("representation_fanout_count"@, representation_fanout_count),
        ).push(
            ("state_transition_dispersion_count"@, state_transition_dispersion_count),
        ),
    )
}

/// How the metrics of a crate moved.
pub fn write_crate_delta_value(
    d: &CrateDelta,
    t: &EntropyTexts,
) -> (r: Json)
    ensures
        r@ == crate_delta_value(*d, *t),
{
    let name = d.name.as_str();
    let entropy = write_entropy_delta_value(&d.metrics.entropy, t);
    let pathway_count = write_count_delta_value(&d.metrics.pathway_count);
    let redundant_path_count = write_count_delta_value(&d.metrics.redundant_path_count);
    let artifact_writer_dispersion_count = write_count_delta_value(&d.metrics.artifact_writer_dispersion_count);
    let error_shaping_dispersion_count = write_count_delta_value(&d.metrics.error_shaping_dispersion_count);
    let state_transition_dispersion_count = write_count_delta_value(&d.metrics.state_transition_dispersion_count);
    let representation_fanout_count = write_count_delta_value(&d.metrics.representation_fanout_count);
    let value = members();
    let value = and(value, "artifact_writer_dispersion_count", artifact_writer_dispersion_count);
    let value = and(value, "crate", string(name));
    let value = and(value, "error_shaping_dispersion_count", error_shaping_dispersion_count);
    let value = and(value, "overall_graph_entropy_score", entropy);
    let value = and(value, "pathway_count", pathway_count);
    let value = and(value, "redundant_path_count", redundant_path_count);
    let value = and(value, "representation_fanout_count", representation_fanout_count);
    let value = and(value, "state_transition_dispersion_count", state_transition_dispersion_count);
    let value = object(value);
    value
}

/// How the metrics of the crates moved.
pub open spec fn crate_delta_values(v: Seq<CrateDelta>, ts: Seq<EntropyTexts>) -> JsonView {
    JsonView::Array(Seq::new(v.len(), |i: int| crate_delta_value(v[i], ts[i])))
}

/// How the metrics of the crates moved.
pub fn write_crate_delta_values(v: &Vec<CrateDelta>, ts: &Vec<EntropyTexts>) -> (r: Json)
    requires
        v@.len() == ts@.len(),
    ensures
        r@ == crate_delta_values(v@, ts@),
{
    let mut values: Vec<Json> = Vec::new();
    let mut i: usize = 0;
    while i < v.len()
        invariant
            i <= v@.len(),
            v@.len() == ts@.len(),
            values@.len() == i,
            forall|k: int|
                0 <= k < i ==> (#[trigger] values@[k])@ == crate_delta_value(v@[k], ts@[k]),
        decreases v@.len() - i,
    {
        values.push(write_crate_delta_value(&v[i], &ts[i]));
        i += 1;
    }
    let r = array(values);
    assert(r@->Array_0 =~= crate_delta_values(v@, ts@)->Array_0);
    r
}

/// The delta report as it is written.
pub open spec fn delta_report_value(
    d: GraphDeltaReport,
    t: EntropyTexts,
    ts: Seq<EntropyTexts>,
    before_ms: JsonView,
    after_ms: JsonView,
    now_ms: u64,
) -> JsonView {
    let one = JsonView::Uint(1);
    let time = JsonView::Uint(now_ms);
    let metrics = metric_deltas_value(d.metrics, t);
    let improved = text::texts(d.improved_metrics@);
    let regressed = text::texts(d.regressed_metrics@);
    let passed = d.verification_passed;
    let crate_values = crate_delta_values(d.per_crate@, ts);
    JsonView::Object(
        json::no_members().push(
            ("after_generated_at_ms"@, after_ms),
        ).push(
            ("before_generated_at_ms"@, before_ms),
        ).push(
            ("generated_at_ms"@, time),
        ).push(
            ("improved_metrics"@, json::text_array_view(improved)),
        ).push(
            ("kind"@, JsonView::Text("graph_delta_verification"@)),
        ).push(
            ("metrics"@, metrics),
        ).push(
            ("per_crate"@, crate_values),
        ).push(
            ("regressed_metrics"@, json::text_array_view(regressed)),
        ).push(
            ("verification_passed"@, JsonView::Bool(passed)),
        ).push(
            ("version"@, one),
        ),
    )
}

/// The delta report as it is written: `t` are the texts of the entropy over all
/// crates, `ts` those of each, and the times are those of the two captures.
pub fn write_delta_report_value(
    d: &GraphDeltaReport,
    t: &EntropyTexts,
    ts: &Vec<EntropyTexts>,
    before_ms: Json,
    after_ms: Json,
    now_ms: u64,
) -> (r: Json)
    requires
        ts@.len() == d.per_crate@.len(),
    ensures
        r@ == delta_report_value(*d, *t, ts@, before_ms@, after_ms@, now_ms),
{
    let one = number(1);
    let time = number(now_ms);
    let metrics = write_metric_deltas_value(&d.metrics, t);
    let improved = &d.improved_metrics;
    let regressed = &d.regressed_metrics;
    let passed = d.verification_passed;
    let crate_values = write_crate_delta_values(&d.per_crate, ts);
    let value = members();
    let value = and(value, "after_generated_at_ms", after_ms);
    let value = and(value, "before_generated_at_ms", before_ms);
    let value = and(value, "generated_at_ms", time);
    let value = and(value, "improved_metrics", string_array(improved));
    let value = and(value, "kind", string("graph_delta_verification"));
    let value = and(value, "metrics", metrics);
    let value = and(value, "per_crate", crate_values);
    let value = and(value, "regressed_metrics", string_array(regressed));
    let value = and(value, "verification_passed", boolean(passed));
    let value = and(value, "version", one);
    let value = object(value);
    value
}

/// The delta report where there was no capture before.
pub open spec fn no_baseline_value(
    after_ms: JsonView,
    now_ms: u64,
) -> JsonView {
    let one = JsonView::Uint(1);
    let time = JsonView::Uint(now_ms);
    JsonView::Object(
        json::no_members().push(
            ("after_generated_at_ms"@, after_ms),
        ).push(
            ("generated_at_ms"@, time),
        ).push(
            ("kind"@, JsonView::Text("graph_delta_verification"@)),
        ).push(
            ("message"@, JsonView::Text("No previous graph verification snapshot was available; current snapshot has been recorded as the new baseline."@)),
        ).push(
            ("status"@, JsonView::Text("no_baseline"@)),
        ).push(
            ("version"@, one),
        ),
    )
}

/// The delta report where there was no capture before.
pub fn write_no_baseline_value(
    after_ms: Json,
    now_ms: u64,
) -> (r: Json)
    ensures
        r@ == no_baseline_value(after_ms@, now_ms),
{
    let one = number(1);
    let time = number(now_ms);
    let value = members();
    let value = and(value, "after_generated_at_ms", after_ms);
    let value = and(value, "generated_at_ms", time);
    let value = and(value, "kind", string("graph_delta_verification"));
    let value = and(value, "message", string("No previous graph verification snapshot was available; current snapshot has been recorded as the new baseline."));
    let value = and(value, "status", string("no_baseline"));
    let value = and(value, "version", one);
    let value = object(value);
    value
}

} // verus!
