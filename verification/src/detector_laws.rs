//! What the graph detectors open and resolve, in terms of the edges of a graph.

use crate::components;
use crate::graph_metrics;
use crate::graph_metrics::{CrateGraph, Detector};
use crate::groups;
use crate::issues;
use crate::issues::IssueView;
use crate::proposals;
use crate::semantic;
use crate::semantic::{Edge, SemanticGraph};
use crate::text;
use vstd::prelude::*;

verus! {

// ---------------------------------------------------------------------------
// Edges and the symbols at their starts
// ---------------------------------------------------------------------------

/// A path of a crate, and neither a place in a control flow nor in a file.
pub open spec fn is_symbol(t: Seq<char>) -> bool {
    text::has_text(t, "::"@) && !text::has_prefix(t, "cfg::"@) && !text::has_prefix(t, "path::"@)
}

/// An edge of the list leads from the one to the other.
pub open spec fn joins(v: Seq<Edge>, from: Seq<char>, to: Seq<char>) -> bool {
    exists|i: int| 0 <= i < v.len() && (#[trigger] v[i]).from@ == from && v[i].to@ == to
}

/// An edge leads from a symbol to something with a name.
pub open spec fn leads(v: Seq<Edge>, from: Seq<char>, to: Seq<char>) -> bool {
    is_symbol(from) && !text::blank(to) && joins(v, from, to)
}

/// Two different symbols lead to it.
pub open spec fn shared(v: Seq<Edge>, to: Seq<char>) -> bool {
    exists|a: Seq<char>, b: Seq<char>|
        a != b && #[trigger] leads(v, a, to) && #[trigger] leads(v, b, to)
}

/// The symbols of the list all lead to it.
pub open spec fn all_lead(v: Seq<Edge>, from: Seq<Seq<char>>, to: Seq<char>) -> bool {
    forall|i: int| 0 <= i < from.len() ==> leads(v, #[trigger] from[i], to)
}

/// At least `n` different symbols lead to it.
pub open spec fn crowded(v: Seq<Edge>, to: Seq<char>, n: nat) -> bool {
    exists|from: Seq<Seq<char>>|
        from.no_duplicates() && from.len() == n && #[trigger] all_lead(v, from, to)
}

pub proof fn lemma_joins(v: Seq<Edge>, from: Seq<char>, to: Seq<char>)
    ensures
        semantic::edges_of(v).contains((from, to)) <==> joins(v, from, to),
{
    let es = semantic::edges_of(v);
    if es.contains((from, to)) {
        let i = choose|i: int| 0 <= i < es.len() && es[i] == (from, to);
        assert(v[i].from@ == from && v[i].to@ == to);
    }
    if joins(v, from, to) {
        let i = choose|i: int| 0 <= i < v.len() && (#[trigger] v[i]).from@ == from && v[i].to@ == to;
        assert(es[i] == (from, to));
    }
}

proof fn lemma_leads(v: Seq<Edge>, from: Seq<char>, to: Seq<char>)
    ensures
        groups::flipped(graph_metrics::observed(semantic::edges_of(v))).contains((to, from))
            <==> leads(v, from, to),
{
    let es = semantic::edges_of(v);
    let seen = graph_metrics::observed(es);
    let back = groups::flipped(seen);
    lemma_joins(v, from, to);
    components::lemma_filter_contains(
        es,
        |e: (Seq<char>, Seq<char>)| graph_metrics::symbol_like(e.0) && !text::blank(e.1),
        (from, to),
    );
    if back.contains((to, from)) {
        let i = choose|i: int| 0 <= i < back.len() && back[i] == (to, from);
        assert(seen[i] == (from, to));
    }
    if seen.contains((from, to)) {
        let i = choose|i: int| 0 <= i < seen.len() && seen[i] == (from, to);
        assert(back[i] == (to, from));
    }
}

/// A group holds each symbol that leads to its key, once.
pub proof fn lemma_observers(v: Seq<Edge>, i: int)
    requires
        0 <= i < graph_metrics::observers(semantic::edges_of(v)).len(),
    ensures
        ({
            let x = graph_metrics::observers(semantic::edges_of(v))[i];
            &&& x.1.no_duplicates()
            &&& forall|s: Seq<char>| #[trigger] x.1.contains(s) <==> leads(v, s, x.0)
        }),
{
    let es = groups::flipped(graph_metrics::observed(semantic::edges_of(v)));
    let x = graph_metrics::observers(semantic::edges_of(v))[i];
    groups::lemma_sorted_set(groups::seconds_of(es, x.0));
    assert forall|s: Seq<char>| #[trigger] x.1.contains(s) <==> leads(v, s, x.0) by {
        groups::law_groups_hold_the_edges(es, x.0, s);
        lemma_leads(v, s, x.0);
    }
}

/// Each thing that a symbol leads to is the key of a group.
pub proof fn lemma_observed_somewhere(v: Seq<Edge>, from: Seq<char>, to: Seq<char>) -> (i: int)
    requires
        leads(v, from, to),
    ensures
        0 <= i < graph_metrics::observers(semantic::edges_of(v)).len(),
        graph_metrics::observers(semantic::edges_of(v))[i].0 == to,
{
    let es = groups::flipped(graph_metrics::observed(semantic::edges_of(v)));
    let keys = groups::sorted_set(groups::firsts(es));
    lemma_leads(v, from, to);
    groups::law_groups_hold_the_edges(es, to, from);
    let i = choose|i: int| 0 <= i < keys.len() && keys[i] == to;
    assert(graph_metrics::observers(semantic::edges_of(v))[i].0 == keys[i]);
    i
}

/// How many members a group has, told by the edges.
pub proof fn lemma_crowd(v: Seq<Edge>, to: Seq<char>, members: Seq<Seq<char>>, n: nat)
    requires
        members.no_duplicates(),
        forall|s: Seq<char>| #[trigger] members.contains(s) <==> leads(v, s, to),
    ensures
        members.len() >= n <==> crowded(v, to, n),
        members.len() > 1 <==> shared(v, to),
{
    if members.len() >= n {
        let some = members.take(n as int);
        assert forall|i: int| 0 <= i < some.len() implies leads(v, #[trigger] some[i], to) by {
            assert(members.contains(members[i]));
        }
        assert(all_lead(v, some, to));
    }
    if crowded(v, to, n) {
        let some = choose|some: Seq<Seq<char>>|
            some.no_duplicates() && some.len() == n && #[trigger] all_lead(v, some, to);
        some.unique_seq_to_set();
        members.unique_seq_to_set();
        assert(some.to_set().subset_of(members.to_set())) by {
            assert forall|s: Seq<char>| some.to_set().contains(s) implies members.to_set().contains(
                s,
            ) by {
                let i = choose|i: int| 0 <= i < some.len() && some[i] == s;
                assert(leads(v, some[i], to));
            }
        }
        vstd::set_lib::lemma_len_subset(some.to_set(), members.to_set());
    }
    if members.len() > 1 {
        assert(members.contains(members[0]) && members.contains(members[1]));
        assert(leads(v, members[0], to) && leads(v, members[1], to));
    }
    if shared(v, to) {
        let (a, b) = choose|a: Seq<char>, b: Seq<char>|
            a != b && #[trigger] leads(v, a, to) && #[trigger] leads(v, b, to);
        assert(members.contains(a) && members.contains(b));
        let i = choose|i: int| 0 <= i < members.len() && members[i] == a;
        let j = choose|j: int| 0 <= j < members.len() && members[j] == b;
        assert(i != j);
    }
}

// ---------------------------------------------------------------------------
// What reports do to the issues
// ---------------------------------------------------------------------------

/// Each issue is as it was, or resolved; none is new.
pub open spec fn opens_nothing(before: Seq<IssueView>, after: Seq<IssueView>) -> bool {
    &&& after.len() == before.len()
    &&& forall|k: int|
        0 <= k < after.len() ==> #[trigger] after[k] == before[k] || after[k].status == "resolved"@
}

/// Exactly one issue has this id, and it is open.
pub open spec fn opened_once(fs: Seq<IssueView>, id: Seq<char>) -> bool {
    exists|k: int|
        0 <= k < fs.len() && (#[trigger] fs[k]).id == id && fs[k].status == "open"@ && forall|j: int|
            0 <= j < fs.len() && (#[trigger] fs[j]).id == id ==> j == k
}

proof fn lemma_inactive_reports(fs: Seq<IssueView>, ps: Seq<(IssueView, bool)>)
    requires
        forall|i: int| 0 <= i < ps.len() ==> !(#[trigger] ps[i]).1,
    ensures
        opens_nothing(fs, proposals::upserted_all(fs, ps)),
    decreases ps.len(),
{
    if ps.len() > 0 {
        let front = ps.drop_last();
        assert forall|i: int| 0 <= i < front.len() implies !(#[trigger] front[i]).1 by {
            assert(front[i] == ps[i]);
        }
        lemma_inactive_reports(fs, front);
        let was = proposals::upserted_all(fs, front);
        assert(!ps[ps.len() - 1].1);
        issues::lemma_first_with_id(was, ps.last().0.id);
    }
}

proof fn lemma_quiet_crate(d: Detector, fs: Seq<IssueView>, name: Seq<char>, g: SemanticGraph)
    requires
        forall|i: int|
            0 <= i < graph_metrics::reports(d, name, g).len() ==> !(
            #[trigger] graph_metrics::reports(d, name, g)[i]).1,
    ensures
        opens_nothing(fs, graph_metrics::detected_in(d, fs, name, g)),
{
    let ps = graph_metrics::reports(d, name, g);
    lemma_inactive_reports(fs, ps);
    let after = graph_metrics::detected_in(d, fs, name, g);
    let mid = proposals::upserted_all(fs, ps);
    assert forall|k: int| 0 <= k < after.len() implies #[trigger] after[k] == fs[k]
        || after[k].status == "resolved"@ by {
        assert(mid[k] == fs[k] || mid[k].status == "resolved"@);
    }
}

/// A detector with no active report opens no issue, whatever crates it looks at.
pub proof fn law_no_active_report_opens_nothing(
    d: Detector,
    fs: Seq<IssueView>,
    cs: Seq<CrateGraph>,
)
    requires
        forall|j: int, i: int|
            #![trigger graph_metrics::reports(d, graph_metrics::crate_id(cs[j].name@), cs[j].graph)[i]]
            0 <= j < cs.len() && 0 <= i < graph_metrics::reports(
                d,
                graph_metrics::crate_id(cs[j].name@),
                cs[j].graph,
            ).len() ==> !graph_metrics::reports(
                d,
                graph_metrics::crate_id(cs[j].name@),
                cs[j].graph,
            )[i].1,
    ensures
        opens_nothing(fs, graph_metrics::detected(d, fs, cs)),
    decreases cs.len(),
{
    if cs.len() > 0 {
        let front = cs.drop_last();
        assert forall|j: int, i: int|
            #![trigger graph_metrics::reports(d, graph_metrics::crate_id(front[j].name@), front[j].graph)[i]]
            0 <= j < front.len() && 0 <= i < graph_metrics::reports(
                d,
                graph_metrics::crate_id(front[j].name@),
                front[j].graph,
            ).len() implies !graph_metrics::reports(
            d,
            graph_metrics::crate_id(front[j].name@),
            front[j].graph,
        )[i].1 by {
            assert(front[j] == cs[j]);
        }
        law_no_active_report_opens_nothing(d, fs, front);
        let was = graph_metrics::detected(d, fs, front);
        assert(cs.last() == cs[cs.len() - 1]);
        lemma_quiet_crate(d, was, graph_metrics::crate_id(cs.last().name@), cs.last().graph);
        let after = graph_metrics::detected(d, fs, cs);
        assert forall|k: int| 0 <= k < after.len() implies #[trigger] after[k] == fs[k]
            || after[k].status == "resolved"@ by {
            assert(was[k] == fs[k] || was[k].status == "resolved"@);
        }
    }
}

proof fn lemma_reported_so_far(fs: Seq<IssueView>, ps: Seq<(IssueView, bool)>, i: int)
    requires
        issues::distinct_ids(fs),
        proposals::reports_once(ps),
        0 <= i < ps.len(),
        ps[i].1,
        ps[i].0.status == "open"@,
    ensures
        issues::distinct_ids(proposals::upserted_all(fs, ps)),
        opened_once(proposals::upserted_all(fs, ps), ps[i].0.id),
    decreases ps.len(),
{
    let front = ps.drop_last();
    lemma_ids_stay_distinct(fs, front);
    let was = proposals::upserted_all(fs, front);
    let r = proposals::upserted_all(fs, ps);
    issues::law_upsert_keeps_ids_distinct(was, ps.last().0, ps.last().1);
    issues::lemma_first_with_id(was, ps.last().0.id);
    let id = ps[i].0.id;
    let at = issues::first_with_id(was, ps.last().0.id);
    if i == ps.len() - 1 {
        if at < was.len() {
            assert(r[at].id == id && r[at].status == "open"@);
        } else {
            assert(r[was.len() as int].id == id && r[was.len() as int].status == "open"@);
        }
        let k = if at < was.len() { at } else { was.len() as int };
        assert forall|j: int| 0 <= j < r.len() && (#[trigger] r[j]).id == id implies j == k by {
            assert(r[k].id == id);
        }
    } else {
        assert(ps[i].0.id != ps[ps.len() - 1].0.id);
        assert(proposals::reports_once(front)) by {
            assert forall|a: int, b: int| 0 <= a < b < front.len() implies (
            #[trigger] front[a]).0.id != (#[trigger] front[b]).0.id by {
                assert(ps[a].0.id != ps[b].0.id);
            }
        }
        assert(front[i] == ps[i]);
        lemma_reported_so_far(fs, front, i);
        let k = choose|k: int|
            0 <= k < was.len() && (#[trigger] was[k]).id == id && was[k].status == "open"@ && forall|
                j: int,
            |
                0 <= j < was.len() && (#[trigger] was[j]).id == id ==> j == k;
        assert(k != at);
        assert(r[k] == was[k]);
        assert forall|j: int| 0 <= j < r.len() && (#[trigger] r[j]).id == id implies j == k by {
            assert(r[k].id == id);
        }
    }
}

proof fn lemma_ids_stay_distinct(fs: Seq<IssueView>, ps: Seq<(IssueView, bool)>)
    requires
        issues::distinct_ids(fs),
    ensures
        issues::distinct_ids(proposals::upserted_all(fs, ps)),
    decreases ps.len(),
{
    if ps.len() > 0 {
        lemma_ids_stay_distinct(fs, ps.drop_last());
        issues::law_upsert_keeps_ids_distinct(
            proposals::upserted_all(fs, ps.drop_last()),
            ps.last().0,
            ps.last().1,
        );
    }
}

/// An active report of a detector leaves exactly one issue of its id, and that one
/// is open.
pub proof fn law_an_active_report_is_open_once(
    d: Detector,
    fs: Seq<IssueView>,
    name: Seq<char>,
    g: SemanticGraph,
    i: int,
)
    requires
        issues::distinct_ids(fs),
        proposals::reports_once(graph_metrics::reports(d, name, g)),
        0 <= i < graph_metrics::reports(d, name, g).len(),
        graph_metrics::reports(d, name, g)[i].1,
        graph_metrics::reports(d, name, g)[i].0.status == "open"@,
    ensures
        opened_once(
            graph_metrics::detected_in(d, fs, name, g),
            graph_metrics::reports(d, name, g)[i].0.id,
        ),
{
    let ps = graph_metrics::reports(d, name, g);
    lemma_reported_so_far(fs, ps, i);
    let mid = proposals::upserted_all(fs, ps);
    let id = ps[i].0.id;
    let k = choose|k: int|
        0 <= k < mid.len() && (#[trigger] mid[k]).id == id && mid[k].status == "open"@ && forall|
            j: int,
        |
            0 <= j < mid.len() && (#[trigger] mid[j]).id == id ==> j == k;
    let r = graph_metrics::detected_in(d, fs, name, g);
    assert(proposals::ids_of(ps)[i] == id);
    assert(proposals::ids_of(ps).contains(id));
    assert(r[k] == mid[k]);
    assert forall|j: int| 0 <= j < r.len() && (#[trigger] r[j]).id == id implies j == k by {
        assert(mid[j].id == id);
    }
}

// ---------------------------------------------------------------------------
// Artifacts and states with several symbols
// ---------------------------------------------------------------------------

/// The id of the issue on the writers of an artifact.
pub open spec fn artifact_id(name: Seq<char>, artifact: Seq<char>) -> Seq<char> {
    "auto_artifact_writer_dispersion_"@ + text::identifier_fragment(name) + "_"@ + text::dec(
        text::text_hash(name + ":"@ + artifact) as nat,
    )
}

/// The report tells who writes the artifact: it is active and open where two
/// symbols do, and urgent where four do.
pub open spec fn tells_of_artifact(
    p: (IssueView, bool),
    name: Seq<char>,
    writes: Seq<Edge>,
    artifact: Seq<char>,
) -> bool {
    &&& p.0.id == artifact_id(name, artifact)
    &&& p.1 <==> shared(writes, artifact)
    &&& p.0.status == if shared(writes, artifact) { "open"@ } else { "resolved"@ }
    &&& p.0.priority == if crowded(writes, artifact, 4) { "high"@ } else { "medium"@ }
}

/// Each report tells of an artifact that a symbol writes.
pub proof fn law_artifact_reports_tell_who_writes(name: Seq<char>, g: SemanticGraph, i: int)
    requires
        0 <= i < graph_metrics::reports(Detector::ArtifactWriters, name, g).len(),
    ensures
        exists|artifact: Seq<char>| #[trigger]
            tells_of_artifact(
                graph_metrics::reports(Detector::ArtifactWriters, name, g)[i],
                name,
                g.artifact_writes@,
                artifact,
            ),
{
    let v = g.artifact_writes@;
    let x = graph_metrics::observers(semantic::edges_of(v))[i];
    lemma_observers(v, i);
    lemma_crowd(v, x.0, x.1, 4);
    assert(tells_of_artifact(
        graph_metrics::reports(Detector::ArtifactWriters, name, g)[i],
        name,
        v,
        x.0,
    ));
}

proof fn lemma_artifact_is_reported(
    name: Seq<char>,
    g: SemanticGraph,
    writer: Seq<char>,
    artifact: Seq<char>,
) -> (i: int)
    requires
        leads(g.artifact_writes@, writer, artifact),
    ensures
        0 <= i < graph_metrics::reports(Detector::ArtifactWriters, name, g).len(),
        tells_of_artifact(
            graph_metrics::reports(Detector::ArtifactWriters, name, g)[i],
            name,
            g.artifact_writes@,
            artifact,
        ),
{
    let v = g.artifact_writes@;
    let i = lemma_observed_somewhere(v, writer, artifact);
    let x = graph_metrics::observers(semantic::edges_of(v))[i];
    lemma_observers(v, i);
    lemma_crowd(v, x.0, x.1, 4);
    i
}

/// Every artifact that a symbol writes is reported on.
pub proof fn law_every_written_artifact_is_reported(
    name: Seq<char>,
    g: SemanticGraph,
    writer: Seq<char>,
    artifact: Seq<char>,
)
    requires
        leads(g.artifact_writes@, writer, artifact),
    ensures
        exists|i: int|
            0 <= i < graph_metrics::reports(Detector::ArtifactWriters, name, g).len()
                && tells_of_artifact(
                #[trigger] graph_metrics::reports(Detector::ArtifactWriters, name, g)[i],
                name,
                g.artifact_writes@,
                artifact,
            ),
{
    let i = lemma_artifact_is_reported(name, g, writer, artifact);
}

/// Where no artifact of any crate is written by two different symbols, the
/// detector of artifact writers opens no issue.
pub proof fn law_single_writers_open_nothing(fs: Seq<IssueView>, cs: Seq<CrateGraph>)
    requires
        forall|j: int, artifact: Seq<char>|
            0 <= j < cs.len() ==> !#[trigger] shared(cs[j].graph.artifact_writes@, artifact),
    ensures
        opens_nothing(fs, graph_metrics::detected(Detector::ArtifactWriters, fs, cs)),
{
    let d = Detector::ArtifactWriters;
    assert forall|j: int, i: int|
        #![trigger graph_metrics::reports(d, graph_metrics::crate_id(cs[j].name@), cs[j].graph)[i]]
        0 <= j < cs.len() && 0 <= i < graph_metrics::reports(
            d,
            graph_metrics::crate_id(cs[j].name@),
            cs[j].graph,
        ).len() implies !graph_metrics::reports(
        d,
        graph_metrics::crate_id(cs[j].name@),
        cs[j].graph,
    )[i].1 by {
        law_artifact_reports_tell_who_writes(
            graph_metrics::crate_id(cs[j].name@),
            cs[j].graph,
            i,
        );
    }
    law_no_active_report_opens_nothing(d, fs, cs);
}

/// An artifact with two different writers is left with exactly one issue, which is
/// open, where no two artifacts of the crate share an id.
pub proof fn law_several_writers_are_opened_once(
    fs: Seq<IssueView>,
    name: Seq<char>,
    g: SemanticGraph,
    artifact: Seq<char>,
)
    requires
        issues::distinct_ids(fs),
        proposals::reports_once(graph_metrics::reports(Detector::ArtifactWriters, name, g)),
        shared(g.artifact_writes@, artifact),
    ensures
        opened_once(
            graph_metrics::detected_in(Detector::ArtifactWriters, fs, name, g),
            artifact_id(name, artifact),
        ),
{
    let (a, b) = choose|a: Seq<char>, b: Seq<char>|
        a != b && #[trigger] leads(g.artifact_writes@, a, artifact) && #[trigger] leads(
            g.artifact_writes@,
            b,
            artifact,
        );
    let i = lemma_artifact_is_reported(name, g, a, artifact);
    law_an_active_report_is_open_once(Detector::ArtifactWriters, fs, name, g, i);
}

} // verus!
