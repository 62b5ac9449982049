//! What a detector reports, and how its reports change a list of issues.

use crate::issues;
use crate::issues::{resolve_stale, upsert_bridge_issue, Issue, IssueView};
use crate::tally;
use crate::text;
use vstd::prelude::*;

verus! {

/// A report of a detector: the issue as it should be, and whether it is active.
#[derive(Debug)]
pub struct Proposal {
    pub issue: Issue,
    pub active: bool,
}

impl View for Proposal {
    type V = (IssueView, bool);

    open spec fn view(&self) -> (IssueView, bool) {
        (self.issue@, self.active)
    }
}

/// The reports of a list.
pub open spec fn proposals_of(v: Seq<Proposal>) -> Seq<(IssueView, bool)> {
    v.map_values(|p: Proposal| p@)
}

/// The ids that are reported.
pub open spec fn ids_of(ps: Seq<(IssueView, bool)>) -> Seq<Seq<char>> {
    ps.map_values(|p: (IssueView, bool)| p.0.id)
}

/// The issues after all reports.
pub open spec fn upserted_all(fs: Seq<IssueView>, ps: Seq<(IssueView, bool)>) -> Seq<IssueView>
    decreases ps.len(),
{
    if ps.len() == 0 {
        fs
    } else {
        issues::upserted(upserted_all(fs, ps.drop_last()), ps.last().0, ps.last().1)
    }
}

/// How many changes all reports make.
pub open spec fn changes_all(fs: Seq<IssueView>, ps: Seq<(IssueView, bool)>) -> nat
    decreases ps.len(),
{
    if ps.len() == 0 {
        0
    } else {
        changes_all(fs, ps.drop_last()) + issues::upsert_changes(
            upserted_all(fs, ps.drop_last()),
            ps.last().0,
            ps.last().1,
        )
    }
}

/// The issues after all reports of a family, with those of the family resolved
/// that are no longer reported.
pub open spec fn synced(
    fs: Seq<IssueView>,
    ps: Seq<(IssueView, bool)>,
    prefix: Seq<char>,
) -> Seq<IssueView> {
    issues::stale_resolved(upserted_all(fs, ps), prefix, ids_of(ps))
}

/// How many changes that makes.
pub open spec fn sync_changes(
    fs: Seq<IssueView>,
    ps: Seq<(IssueView, bool)>,
    prefix: Seq<char>,
) -> nat {
    changes_all(fs, ps) + issues::stale_count(upserted_all(fs, ps), prefix, ids_of(ps))
}

/// Brings the issues up to date with all reports; tells how many changes that
/// made.
pub fn apply_proposals(issues: &mut Vec<Issue>, proposals: Vec<Proposal>) -> (r: usize)
    ensures
        issues::findings(final(issues)@) == upserted_all(
            issues::findings(old(issues)@),
            proposals_of(proposals@),
        ),
        r == tally::capped_count(
            changes_all(issues::findings(old(issues)@), proposals_of(proposals@)),
        ),
{
    let ghost fs = issues::findings(issues@);
    let ghost ps = proposals_of(proposals@);
    let mut changes: usize = 0;
    assert(ps.take(0) =~= Seq::<(IssueView, bool)>::empty());
    for p in it: proposals
        invariant
            ps == proposals_of(it.seq()),
            issues::findings(issues@) == upserted_all(fs, ps.take(it.index())),
            changes == tally::capped_count(changes_all(fs, ps.take(it.index()))),
    {
        proof {
            assert(ps.take(it.index() + 1).drop_last() =~= ps.take(it.index()));
            assert(ps.take(it.index() + 1).last() == p@);
        }
        let made: usize = upsert_bridge_issue(issues, p.issue, p.active);
        changes = changes.saturating_add(made);
    }
    assert(ps.take(ps.len() as int) =~= ps);
    changes
}

/// The ids that are reported.
pub fn proposed_ids(proposals: &Vec<Proposal>) -> (r: Vec<String>)
    ensures
        text::texts(r@) == ids_of(proposals_of(proposals@)),
{
    let mut ids: Vec<String> = Vec::new();
    let mut i: usize = 0;
    while i < proposals.len()
        invariant
            i <= proposals@.len(),
            ids@.len() == i,
            forall|k: int| 0 <= k < i ==> (#[trigger] ids@[k])@ == proposals@[k].issue.id@,
        decreases proposals@.len() - i,
    {
        ids.push(proposals[i].issue.id.clone());
        i += 1;
    }
    assert(text::texts(ids@) =~= ids_of(proposals_of(proposals@)));
    ids
}

/// Brings the issues of a family up to date with all its reports; tells how many
/// changes that made.
pub fn sync_family(issues: &mut Vec<Issue>, proposals: Vec<Proposal>, prefix: &str) -> (r: usize)
    ensures
        issues::findings(final(issues)@) == synced(
            issues::findings(old(issues)@),
            proposals_of(proposals@),
            prefix@,
        ),
        r == tally::capped_count(
            sync_changes(issues::findings(old(issues)@), proposals_of(proposals@), prefix@),
        ),
{
    let ids = proposed_ids(&proposals);
    let changed: usize = apply_proposals(issues, proposals);
    let resolved: usize = resolve_stale(issues, prefix, &ids);
    changed.saturating_add(resolved)
}

/// One more report behind the others.
pub fn and_proposal(list: Vec<Proposal>, issue: Issue, active: bool) -> (r: Vec<Proposal>)
    ensures
        proposals_of(r@) == proposals_of(list@).push((issue@, active)),
{
    let mut out = list;
    let ghost before = out@;
    out.push(Proposal { issue, active });
    assert(proposals_of(out@) =~= proposals_of(before).push((issue@, active)));
    out
}

/// The issue of a report is as the report wants it.
pub open spec fn settled(fs: Seq<IssueView>, p: (IssueView, bool)) -> bool {
    let at = issues::first_with_id(fs, p.0.id);
    if at < fs.len() {
        fs[at] == (IssueView { status: issues::target_status(p.1), ..p.0 })
    } else {
        !p.1
    }
}

/// An active report that is added says that it is open.
pub open spec fn opens_when_active(p: (IssueView, bool)) -> bool {
    p.1 ==> p.0.status == issues::target_status(true)
}

/// A settled report changes nothing.
pub proof fn law_a_settled_report_changes_nothing(fs: Seq<IssueView>, p: (IssueView, bool))
    requires
        settled(fs, p),
    ensures
        issues::upserted(fs, p.0, p.1) == fs,
        issues::upsert_changes(fs, p.0, p.1) == 0,
{
    let at = issues::first_with_id(fs, p.0.id);
    issues::lemma_first_with_id(fs, p.0.id);
    if at < fs.len() {
        assert(issues::upserted(fs, p.0, p.1) =~= fs);
        issues::law_no_difference_is_equality(
            fs[at],
            IssueView { status: issues::target_status(p.1), ..p.0 },
        );
    }
}

/// A report is settled once it has been applied.
pub proof fn law_an_applied_report_is_settled(fs: Seq<IssueView>, p: (IssueView, bool))
    requires
        opens_when_active(p),
    ensures
        settled(issues::upserted(fs, p.0, p.1), p),
{
    let at = issues::first_with_id(fs, p.0.id);
    let g = issues::upserted(fs, p.0, p.1);
    issues::lemma_first_with_id(fs, p.0.id);
    if at < fs.len() {
        assert forall|i: int| 0 <= i < at implies (#[trigger] g[i]).id != p.0.id by {
            assert(g[i] == fs[i]);
        }
        issues::lemma_first_with_id_at(g, p.0.id, at);
    } else if p.1 {
        assert forall|i: int| 0 <= i < fs.len() implies (#[trigger] g[i]).id != p.0.id by {
            assert(g[i] == fs[i]);
        }
        issues::lemma_first_with_id_at(g, p.0.id, fs.len() as int);
    }
}

/// A report leaves reports of other ids settled.
proof fn lemma_stays_settled(fs: Seq<IssueView>, p: (IssueView, bool), q: (IssueView, bool))
    requires
        settled(fs, p),
        p.0.id != q.0.id,
    ensures
        settled(issues::upserted(fs, q.0, q.1), p),
{
    let g = issues::upserted(fs, q.0, q.1);
    let at = issues::first_with_id(fs, p.0.id);
    let there = issues::first_with_id(fs, q.0.id);
    issues::lemma_first_with_id(fs, p.0.id);
    issues::lemma_first_with_id(fs, q.0.id);
    if at < fs.len() {
        assert forall|i: int| 0 <= i < at implies (#[trigger] g[i]).id != p.0.id by {
            if i != there {
                assert(g[i] == fs[i]);
            }
        }
        assert(g[at] == fs[at]);
        issues::lemma_first_with_id_at(g, p.0.id, at);
    } else {
        assert forall|i: int| 0 <= i < g.len() implies (#[trigger] g[i]).id != p.0.id by {
            if i < fs.len() && i != there {
                assert(g[i] == fs[i]);
            }
        }
        issues::lemma_first_with_id_none(g, p.0.id);
    }
}

/// No id is reported twice.
pub open spec fn reports_once(ps: Seq<(IssueView, bool)>) -> bool {
    forall|i: int, j: int| 0 <= i < j < ps.len() ==> (#[trigger] ps[i]).0.id != (#[trigger] ps[j]).0.id
}

proof fn lemma_all_settled(fs: Seq<IssueView>, ps: Seq<(IssueView, bool)>, n: int)
    requires
        0 <= n <= ps.len(),
        reports_once(ps),
        forall|i: int| 0 <= i < ps.len() ==> opens_when_active(#[trigger] ps[i]),
    ensures
        forall|i: int| 0 <= i < n ==> settled(upserted_all(fs, ps.take(n)), #[trigger] ps[i]),
    decreases n,
{
    if n > 0 {
        lemma_all_settled(fs, ps, n - 1);
        let before = upserted_all(fs, ps.take(n - 1));
        assert(ps.take(n).drop_last() =~= ps.take(n - 1));
        assert(ps.take(n).last() == ps[n - 1]);
        assert forall|i: int| 0 <= i < n implies settled(
            upserted_all(fs, ps.take(n)),
            #[trigger] ps[i],
        ) by {
            if i < n - 1 {
                lemma_stays_settled(before, ps[i], ps[n - 1]);
            } else {
                law_an_applied_report_is_settled(before, ps[i]);
            }
        }
    }
}

proof fn lemma_nothing_left(fs: Seq<IssueView>, ps: Seq<(IssueView, bool)>, n: int)
    requires
        0 <= n <= ps.len(),
        forall|i: int| 0 <= i < ps.len() ==> settled(fs, #[trigger] ps[i]),
    ensures
        upserted_all(fs, ps.take(n)) == fs,
        changes_all(fs, ps.take(n)) == 0,
    decreases n,
{
    if n > 0 {
        lemma_nothing_left(fs, ps, n - 1);
        assert(ps.take(n).drop_last() =~= ps.take(n - 1));
        assert(ps.take(n).last() == ps[n - 1]);
        law_a_settled_report_changes_nothing(fs, ps[n - 1]);
    }
}

/// Resolving what is stale leaves reports settled that are kept.
proof fn lemma_resolving_keeps_settled(
    fs: Seq<IssueView>,
    prefix: Seq<char>,
    kept: Seq<Seq<char>>,
    p: (IssueView, bool),
)
    requires
        settled(fs, p),
        kept.contains(p.0.id),
    ensures
        settled(issues::stale_resolved(fs, prefix, kept), p),
{
    let g = issues::stale_resolved(fs, prefix, kept);
    let at = issues::first_with_id(fs, p.0.id);
    issues::lemma_first_with_id(fs, p.0.id);
    assert forall|i: int| 0 <= i < fs.len() implies (#[trigger] g[i]).id == fs[i].id by {
        assert(g[i] == issues::resolved_if_stale(fs[i], prefix, kept));
    }
    if at < fs.len() {
        assert(g[at] == issues::resolved_if_stale(fs[at], prefix, kept));
        issues::lemma_first_with_id_at(g, p.0.id, at);
    } else {
        issues::lemma_first_with_id_none(g, p.0.id);
    }
}

/// A detector that reports the same again changes nothing: no issue is added
/// twice, and what was resolved stays resolved.
pub proof fn law_reporting_again_changes_nothing(
    fs: Seq<IssueView>,
    ps: Seq<(IssueView, bool)>,
    prefix: Seq<char>,
)
    requires
        reports_once(ps),
        forall|i: int| 0 <= i < ps.len() ==> opens_when_active(#[trigger] ps[i]),
    ensures
        synced(synced(fs, ps, prefix), ps, prefix) == synced(fs, ps, prefix),
        sync_changes(synced(fs, ps, prefix), ps, prefix) == 0,
{
    let applied = upserted_all(fs, ps);
    let kept = ids_of(ps);
    let g = synced(fs, ps, prefix);
    assert(ps.take(ps.len() as int) =~= ps);
    lemma_all_settled(fs, ps, ps.len() as int);
    assert forall|i: int| 0 <= i < ps.len() implies settled(g, #[trigger] ps[i]) by {
        assert(kept[i] == ps[i].0.id);
        lemma_resolving_keeps_settled(applied, prefix, kept, ps[i]);
    }
    lemma_nothing_left(g, ps, ps.len() as int);
    issues::law_resolving_is_idempotent(applied, prefix, kept);
}

} // verus!
