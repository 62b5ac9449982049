//! Rounds of reports: what a run of the detectors does to the issues, and that doing it
//! again does nothing more.

use crate::issues;
use crate::issues::IssueView;
use crate::proposals;
use vstd::prelude::*;

verus! {

/// One step of a round: a report on an issue, or a family of issues of which those that
/// are not kept are resolved.
pub enum Step {
    Report(IssueView, bool),
    Resolve(Seq<char>, Seq<Seq<char>>),
}

/// The issues after one step.
pub open spec fn stepped(fs: Seq<IssueView>, s: Step) -> Seq<IssueView> {
    match s {
        Step::Report(issue, active) => issues::upserted(fs, issue, active),
        Step::Resolve(prefix, kept) => issues::stale_resolved(fs, prefix, kept),
    }
}

/// The issues after a round.
pub open spec fn round(fs: Seq<IssueView>, steps: Seq<Step>) -> Seq<IssueView>
    decreases steps.len(),
{
    if steps.len() == 0 {
        fs
    } else {
        stepped(round(fs, steps.drop_last()), steps.last())
    }
}

/// An active report says that it is open.
pub open spec fn says_open(s: Step) -> bool {
    s matches Step::Report(issue, active) ==> proposals::opens_when_active((issue, active))
}

/// Every active report of a round says that it is open.
pub open spec fn all_say_open(steps: Seq<Step>) -> bool {
    forall|i: int| 0 <= i < steps.len() ==> says_open(#[trigger] steps[i])
}

/// The steps of some reports.
pub open spec fn report_steps(ps: Seq<(IssueView, bool)>) -> Seq<Step> {
    ps.map_values(|p: (IssueView, bool)| Step::Report(p.0, p.1))
}

/// Two lists have the same ids, as far as the first goes.
pub open spec fn same_ids(a: Seq<IssueView>, b: Seq<IssueView>) -> bool {
    &&& a.len() <= b.len()
    &&& forall|j: int| 0 <= j < a.len() ==> (#[trigger] a[j]).id == b[j].id
}

proof fn lemma_first_is_the_same(a: Seq<IssueView>, b: Seq<IssueView>, id: Seq<char>)
    requires
        same_ids(a, b),
    ensures
        issues::first_with_id(a, id) < a.len() ==> issues::first_with_id(b, id)
            == issues::first_with_id(a, id),
        issues::first_with_id(b, id) < a.len() ==> issues::first_with_id(b, id)
            == issues::first_with_id(a, id),
        issues::first_with_id(a, id) == a.len() ==> issues::first_with_id(b, id) >= a.len(),
{
    let at = issues::first_with_id(a, id);
    let there = issues::first_with_id(b, id);
    issues::lemma_first_with_id(a, id);
    issues::lemma_first_with_id(b, id);
    if at < a.len() {
        assert(b[at].id == a[at].id);
        assert forall|i: int| 0 <= i < at implies (#[trigger] b[i]).id != id by {
            assert(a[i].id != id);
        }
        issues::lemma_first_with_id_at(b, id, at);
    } else if there < a.len() {
        assert(a[there].id == b[there].id);
    }
}

/// What one step does to the issue at one place.
proof fn lemma_step(fs: Seq<IssueView>, s: Step)
    ensures
        same_ids(fs, stepped(fs, s)),
        stepped(fs, s).len() <= fs.len() + 1,
        stepped(fs, s).len() > fs.len() ==> (s matches Step::Report(issue, active) && active
            && issues::first_with_id(fs, issue.id) == fs.len() && stepped(fs, s).last() == issue),
        forall|j: int|
            0 <= j < fs.len() ==> #[trigger] stepped(fs, s)[j] == (match s {
                Step::Report(issue, active) => if issues::first_with_id(fs, issue.id) == j {
                    IssueView { status: issues::target_status(active), ..issue }
                } else {
                    fs[j]
                },
                Step::Resolve(prefix, kept) => issues::resolved_if_stale(fs[j], prefix, kept),
            }),
{
    match s {
        Step::Report(issue, _) => {
            issues::lemma_first_with_id(fs, issue.id);
        },
        Step::Resolve(_, _) => {},
    }
}

/// A round goes on where its first part ended.
proof fn lemma_round_step(fs: Seq<IssueView>, steps: Seq<Step>, k: int)
    requires
        0 <= k < steps.len(),
    ensures
        round(fs, steps.take(k + 1)) == stepped(round(fs, steps.take(k)), steps[k]),
{
    assert(steps.take(k + 1).drop_last() =~= steps.take(k));
    assert(steps.take(k + 1).last() == steps[k]);
}

/// No step takes an issue away or gives it another id.
proof fn lemma_ids_stay(fs: Seq<IssueView>, steps: Seq<Step>, i: int, k: int)
    requires
        0 <= i <= k <= steps.len(),
    ensures
        same_ids(round(fs, steps.take(i)), round(fs, steps.take(k))),
    decreases k - i,
{
    if i < k {
        lemma_ids_stay(fs, steps, i, k - 1);
        lemma_round_step(fs, steps, k - 1);
        let before = round(fs, steps.take(k - 1));
        lemma_step(before, steps[k - 1]);
        let first = round(fs, steps.take(i));
        let last = round(fs, steps.take(k));
        assert forall|j: int| 0 <= j < first.len() implies (#[trigger] first[j]).id == last[j].id by {
            assert(first[j].id == before[j].id);
            assert(before[j].id == stepped(before, steps[k - 1])[j].id);
        }
    }
}

/// A round takes no issue away and gives none another id.
pub proof fn law_a_round_takes_no_issue_away(fs: Seq<IssueView>, steps: Seq<Step>)
    ensures
        same_ids(fs, round(fs, steps)),
{
    let n = steps.len() as int;
    assert(steps.take(0) =~= Seq::<Step>::empty());
    assert(steps.take(n) =~= steps);
    lemma_ids_stay(fs, steps, 0, n);
}

/// The step `i` of a round sets the issue that ends at the place `j`.
pub open spec fn sets(fs: Seq<IssueView>, steps: Seq<Step>, i: int, j: int) -> bool {
    match steps[i] {
        Step::Report(issue, active) => {
            &&& issues::first_with_id(round(fs, steps), issue.id) == j
            &&& (j < round(fs, steps.take(i)).len() || active)
        },
        Step::Resolve(_, _) => false,
    }
}

/// One of the first `k` steps sets the issue that ends at the place `j`.
pub open spec fn set_before(fs: Seq<IssueView>, steps: Seq<Step>, k: int, j: int) -> bool {
    exists|i: int| 0 <= i < k && #[trigger] sets(fs, steps, i, j)
}

/// What was not there before a round was set in it.
proof fn lemma_new_is_set(fs: Seq<IssueView>, steps: Seq<Step>, k: int, j: int)
    requires
        0 <= k <= steps.len(),
        fs.len() <= j < round(fs, steps.take(k)).len(),
    ensures
        set_before(fs, steps, k, j),
    decreases k,
{
    let end = round(fs, steps);
    assert(steps.take(steps.len() as int) =~= steps);
    assert(steps.take(0) =~= Seq::<Step>::empty());
    if k > 0 {
        let before = round(fs, steps.take(k - 1));
        lemma_round_step(fs, steps, k - 1);
        if j < before.len() {
            lemma_new_is_set(fs, steps, k - 1, j);
            let i = choose|i: int| 0 <= i < k - 1 && #[trigger] sets(fs, steps, i, j);
            assert(sets(fs, steps, i, j));
        } else {
            lemma_step(before, steps[k - 1]);
            lemma_ids_stay(fs, steps, k, steps.len() as int);
            let after = round(fs, steps.take(k));
            let id = after[j].id;
            issues::lemma_first_with_id(before, id);
            assert(same_ids(before, after));
            assert forall|i: int| 0 <= i < j implies (#[trigger] end[i]).id != id by {
                assert(before[i].id == after[i].id);
                assert(after[i].id == end[i].id);
            }
            assert(end[j].id == after[j].id);
            issues::lemma_first_with_id_at(end, id, j);
            assert(sets(fs, steps, k - 1, j));
        }
    }
}

/// The second time a round adds nothing.
proof fn lemma_nothing_new(fs: Seq<IssueView>, steps: Seq<Step>, k: int)
    requires
        0 <= k <= steps.len(),
    ensures
        round(round(fs, steps), steps.take(k)).len() == round(fs, steps).len(),
        same_ids(round(fs, steps), round(round(fs, steps), steps.take(k))),
    decreases k,
{
    let end = round(fs, steps);
    assert(steps.take(0) =~= Seq::<Step>::empty());
    assert(steps.take(steps.len() as int) =~= steps);
    if k > 0 {
        lemma_nothing_new(fs, steps, k - 1);
        let again = round(end, steps.take(k - 1));
        lemma_round_step(end, steps, k - 1);
        lemma_step(again, steps[k - 1]);
        let next = stepped(again, steps[k - 1]);
        if next.len() > again.len() {
            let issue = steps[k - 1]->Report_0;
            let before = round(fs, steps.take(k - 1));
            let after = round(fs, steps.take(k));
            lemma_round_step(fs, steps, k - 1);
            lemma_step(before, steps[k - 1]);
            lemma_ids_stay(fs, steps, k, steps.len() as int);
            issues::lemma_first_with_id(before, issue.id);
            lemma_first_is_the_same(end, again, issue.id);
            issues::lemma_first_with_id(end, issue.id);
            let at = issues::first_with_id(before, issue.id);
            if at < before.len() {
                assert(before[at].id == after[at].id);
                assert(after[at].id == end[at].id);
            } else {
                assert(after.last() == issue);
                assert(after[after.len() - 1].id == end[after.len() - 1].id);
            }
            assert(false);
        }
        assert forall|j: int| 0 <= j < end.len() implies (#[trigger] end[j]).id == next[j].id by {
            assert(end[j].id == again[j].id);
            assert(again[j].id == next[j].id);
        }
    }
}

/// An issue that no step sets stays resolved once it is.
proof fn lemma_stays_resolved(fs: Seq<IssueView>, steps: Seq<Step>, i: int, k: int, j: int)
    requires
        0 <= i <= k <= steps.len(),
        0 <= j < fs.len(),
        !set_before(fs, steps, steps.len() as int, j),
        round(fs, steps.take(i))[j].status == "resolved"@,
    ensures
        round(fs, steps.take(k))[j].status == "resolved"@,
    decreases k - i,
{
    if i < k {
        lemma_stays_resolved(fs, steps, i, k - 1, j);
        lemma_round_step(fs, steps, k - 1);
        lemma_untouched(fs, steps, k - 1, j);
    }
}

/// A step leaves an issue that no step sets, or resolves it.
proof fn lemma_untouched(fs: Seq<IssueView>, steps: Seq<Step>, k: int, j: int)
    requires
        0 <= k < steps.len(),
        0 <= j < fs.len(),
        !set_before(fs, steps, steps.len() as int, j),
    ensures
        ({
            let before = round(fs, steps.take(k))[j];
            round(fs, steps.take(k + 1))[j] == (match steps[k] {
                Step::Report(_, _) => before,
                Step::Resolve(prefix, kept) => issues::resolved_if_stale(before, prefix, kept),
            })
        }),
{
    let before = round(fs, steps.take(k));
    assert(steps.take(0) =~= Seq::<Step>::empty());
    assert(steps.take(steps.len() as int) =~= steps);
    lemma_ids_stay(fs, steps, 0, k);
    lemma_ids_stay(fs, steps, k, steps.len() as int);
    lemma_round_step(fs, steps, k);
    lemma_step(before, steps[k]);
    match steps[k] {
        Step::Report(issue, _) => {
            lemma_first_is_the_same(before, round(fs, steps), issue.id);
            assert(!sets(fs, steps, k, j));
        },
        Step::Resolve(_, _) => {},
    }
    assert(stepped(before, steps[k])[j] == round(fs, steps.take(k + 1))[j]);
}

/// An issue that no step sets is left alone the second time.
proof fn lemma_left_alone(fs: Seq<IssueView>, steps: Seq<Step>, k: int, j: int)
    requires
        0 <= k <= steps.len(),
        0 <= j < round(fs, steps).len(),
        !set_before(fs, steps, steps.len() as int, j),
    ensures
        round(round(fs, steps), steps.take(k))[j] == round(fs, steps)[j],
    decreases k,
{
    let end = round(fs, steps);
    let n = steps.len() as int;
    assert(steps.take(0) =~= Seq::<Step>::empty());
    assert(steps.take(n) =~= steps);
    if j >= fs.len() {
        lemma_new_is_set(fs, steps, n, j);
    }
    if k > 0 {
        lemma_left_alone(fs, steps, k - 1, j);
        lemma_nothing_new(fs, steps, k - 1);
        let again = round(end, steps.take(k - 1));
        lemma_round_step(end, steps, k - 1);
        lemma_step(again, steps[k - 1]);
        match steps[k - 1] {
            Step::Report(issue, _) => {
                lemma_first_is_the_same(end, again, issue.id);
                issues::lemma_first_with_id(end, issue.id);
                lemma_ids_stay(fs, steps, 0, k - 1);
                assert(!sets(fs, steps, k - 1, j));
            },
            Step::Resolve(prefix, kept) => {
                let before = round(fs, steps.take(k - 1));
                lemma_untouched(fs, steps, k - 1, j);
                lemma_ids_stay(fs, steps, k - 1, n);
                lemma_ids_stay(fs, steps, 0, k - 1);
                assert(before[j].id == end[j].id);
                if text_matches(end[j], prefix, kept) {
                    assert(round(fs, steps.take(k))[j].status == "resolved"@);
                    lemma_stays_resolved(fs, steps, k, n, j);
                }
            },
        }
        assert(stepped(again, steps[k - 1])[j] == end[j]);
    }
}

/// The issue is of a family and not among what is kept of it.
spec fn text_matches(i: IssueView, prefix: Seq<char>, kept: Seq<Seq<char>>) -> bool {
    crate::text::has_prefix(i.id, prefix) && !kept.contains(i.id)
}

/// Once a step has set an issue, it is the same the first and the second time.
proof fn lemma_same_once_set(fs: Seq<IssueView>, steps: Seq<Step>, k: int, j: int)
    requires
        0 <= k <= steps.len(),
        0 <= j < round(fs, steps).len(),
        all_say_open(steps),
        set_before(fs, steps, k, j),
    ensures
        j < round(fs, steps.take(k)).len(),
        round(round(fs, steps), steps.take(k))[j] == round(fs, steps.take(k))[j],
    decreases k,
{
    let end = round(fs, steps);
    let n = steps.len() as int;
    assert(steps.take(n) =~= steps);
    let i = choose|i: int| 0 <= i < k && #[trigger] sets(fs, steps, i, j);
    assert(k > 0);
    let before = round(fs, steps.take(k - 1));
    let again = round(end, steps.take(k - 1));
    lemma_round_step(fs, steps, k - 1);
    lemma_round_step(end, steps, k - 1);
    lemma_step(before, steps[k - 1]);
    lemma_step(again, steps[k - 1]);
    lemma_nothing_new(fs, steps, k - 1);
    lemma_ids_stay(fs, steps, k - 1, n);
    lemma_ids_stay(fs, steps, k, n);
    let after = round(fs, steps.take(k));
    if set_before(fs, steps, k - 1, j) {
        lemma_same_once_set(fs, steps, k - 1, j);
        match steps[k - 1] {
            Step::Report(issue, _) => {
                lemma_first_is_the_same(before, end, issue.id);
                lemma_first_is_the_same(end, again, issue.id);
                issues::lemma_first_with_id(end, issue.id);
                issues::lemma_first_with_id(again, issue.id);
            },
            Step::Resolve(_, _) => {},
        }
        assert(stepped(again, steps[k - 1])[j] == stepped(before, steps[k - 1])[j]);
    } else {
        assert(sets(fs, steps, k - 1, j)) by {
            if i < k - 1 {
                assert(set_before(fs, steps, k - 1, j));
            }
        }
        let issue = steps[k - 1]->Report_0;
        let active = steps[k - 1]->Report_1;
        assert(says_open(steps[k - 1]));
        lemma_first_is_the_same(before, end, issue.id);
        lemma_first_is_the_same(end, again, issue.id);
        issues::lemma_first_with_id(end, issue.id);
        issues::lemma_first_with_id(before, issue.id);
        issues::lemma_first_with_id(again, issue.id);
        assert(stepped(again, steps[k - 1])[j] == (IssueView {
            status: issues::target_status(active),
            ..issue
        }));
        if j >= before.len() {
            assert(after.len() == before.len() + 1);
            assert(after[before.len() as int] == issue);
            assert(end[before.len() as int].id == issue.id);
        }
        assert(stepped(before, steps[k - 1])[j] == (IssueView {
            status: issues::target_status(active),
            ..issue
        }));
    }
}

/// A round that is gone through again changes nothing, whatever issues it starts from
/// and however often it reports on one of them.
pub proof fn law_a_second_round_changes_nothing(fs: Seq<IssueView>, steps: Seq<Step>)
    requires
        all_say_open(steps),
    ensures
        round(round(fs, steps), steps) == round(fs, steps),
{
    let end = round(fs, steps);
    let n = steps.len() as int;
    assert(steps.take(n) =~= steps);
    lemma_nothing_new(fs, steps, n);
    assert forall|j: int| 0 <= j < end.len() implies #[trigger] round(end, steps)[j] == end[j] by {
        if set_before(fs, steps, n, j) {
            lemma_same_once_set(fs, steps, n, j);
        } else {
            lemma_left_alone(fs, steps, n, j);
        }
    }
    assert(round(end, steps) =~= end);
}

/// A round in two parts.
pub proof fn lemma_round_in_parts(fs: Seq<IssueView>, a: Seq<Step>, b: Seq<Step>)
    ensures
        round(fs, a + b) == round(round(fs, a), b),
    decreases b.len(),
{
    if b.len() == 0 {
        assert(a + b =~= a);
    } else {
        lemma_round_in_parts(fs, a, b.drop_last());
        assert((a + b).drop_last() =~= a + b.drop_last());
        assert((a + b).last() == b.last());
    }
}

/// Reports one after the other are a round.
pub proof fn lemma_reports_are_a_round(fs: Seq<IssueView>, ps: Seq<(IssueView, bool)>)
    ensures
        proposals::upserted_all(fs, ps) == round(fs, report_steps(ps)),
    decreases ps.len(),
{
    if ps.len() > 0 {
        lemma_reports_are_a_round(fs, ps.drop_last());
        assert(report_steps(ps).drop_last() =~= report_steps(ps.drop_last()));
        assert(report_steps(ps).last() == Step::Report(ps.last().0, ps.last().1));
    }
}

/// Both parts of a round say that they are open.
pub proof fn lemma_parts_say_open(a: Seq<Step>, b: Seq<Step>)
    requires
        all_say_open(a),
        all_say_open(b),
    ensures
        all_say_open(a + b),
{
    assert forall|i: int| 0 <= i < (a + b).len() implies says_open(#[trigger] (a + b)[i]) by {
        if i < a.len() {
            assert((a + b)[i] == a[i]);
        } else {
            assert((a + b)[i] == b[i - a.len()]);
        }
    }
}

/// Reports that say that they are open make a round that does.
pub proof fn lemma_reports_say_open(ps: Seq<(IssueView, bool)>)
    requires
        forall|i: int| 0 <= i < ps.len() ==> proposals::opens_when_active(#[trigger] ps[i]),
    ensures
        all_say_open(report_steps(ps)),
{
    assert forall|i: int| 0 <= i < report_steps(ps).len() implies says_open(
        #[trigger] report_steps(ps)[i],
    ) by {
        assert(report_steps(ps)[i] == Step::Report(ps[i].0, ps[i].1));
        assert(proposals::opens_when_active(ps[i]));
    }
}

/// No issue with the id is open.
pub open spec fn none_open(fs: Seq<IssueView>, id: Seq<char>) -> bool {
    forall|j: int| 0 <= j < fs.len() && (#[trigger] fs[j]).id == id ==> !issues::open_issue(fs[j])
}

/// No step reports on the id.
pub open spec fn unreported(steps: Seq<Step>, id: Seq<char>) -> bool {
    forall|i: int|
        0 <= i < steps.len() ==> ((#[trigger] steps[i]) matches Step::Report(issue, _) ==> issue.id
            != id)
}

/// A round that does not report on an id opens no issue with it.
pub proof fn lemma_none_opens(fs: Seq<IssueView>, steps: Seq<Step>, id: Seq<char>)
    requires
        none_open(fs, id),
        unreported(steps, id),
    ensures
        none_open(round(fs, steps), id),
    decreases steps.len(),
{
    if steps.len() > 0 {
        let front = steps.drop_last();
        assert forall|i: int| 0 <= i < front.len() implies ((#[trigger] front[i]) matches Step::Report(
            issue,
            _,
        ) ==> issue.id != id) by {
            assert(front[i] == steps[i]);
        }
        lemma_none_opens(fs, front, id);
        let before = round(fs, front);
        let s = steps.last();
        assert(steps[steps.len() - 1] == s);
        lemma_step(before, s);
        let after = stepped(before, s);
        assert forall|j: int| 0 <= j < after.len() && (#[trigger] after[j]).id
            == id implies !issues::open_issue(after[j]) by {
            if j < before.len() {
                assert(before[j].id == after[j].id);
            } else {
                assert(after[j] == after.last());
            }
        }
    }
}

/// A round that resolves the family of an id, and reports on the id at no step, leaves no
/// issue with it open.
pub proof fn lemma_family_is_closed(fs: Seq<IssueView>, steps: Seq<Step>, p: int, id: Seq<char>)
    requires
        0 <= p < steps.len(),
        steps[p] matches Step::Resolve(prefix, kept) && crate::text::has_prefix(id, prefix)
            && !kept.contains(id),
        unreported(steps, id),
    ensures
        none_open(round(fs, steps), id),
{
    let prefix = steps[p]->Resolve_0;
    let kept = steps[p]->Resolve_1;
    let before = round(fs, steps.take(p));
    lemma_round_step(fs, steps, p);
    lemma_step(before, steps[p]);
    let middle = round(fs, steps.take(p + 1));
    assert forall|j: int| 0 <= j < middle.len() && (#[trigger] middle[j]).id
        == id implies !issues::open_issue(middle[j]) by {
        assert(middle[j] == issues::resolved_if_stale(before[j], prefix, kept));
    }
    let rest = steps.skip(p + 1);
    assert forall|i: int| 0 <= i < rest.len() implies ((#[trigger] rest[i]) matches Step::Report(
        issue,
        _,
    ) ==> issue.id != id) by {
        assert(rest[i] == steps[i + p + 1]);
    }
    lemma_none_opens(middle, rest, id);
    assert(steps.take(p + 1) + rest =~= steps);
    lemma_round_in_parts(fs, steps.take(p + 1), rest);
}

} // verus!
