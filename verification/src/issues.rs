//! Issues: the tracked findings, and how a detector keeps its own up to date.

use crate::json;
use crate::json::{same_json, Json};
use crate::text;
use crate::text::{same, starts_with};
use vstd::prelude::*;

verus! {

/// A tracked finding.
#[derive(Debug)]
pub struct Issue {
    pub id: String,
    pub title: String,
    pub status: String,
    pub priority: String,
    pub kind: String,
    pub description: String,
    pub location: String,
    pub scope: String,
    pub metrics: Json,
    pub acceptance_criteria: Vec<String>,
    pub evidence: Vec<String>,
    pub discovered_by: String,
}

/// A tracked finding as a mathematical value.
pub struct IssueView {
    pub id: Seq<char>,
    pub title: Seq<char>,
    pub status: Seq<char>,
    pub priority: Seq<char>,
    pub kind: Seq<char>,
    pub description: Seq<char>,
    pub location: Seq<char>,
    pub scope: Seq<char>,
    pub metrics: json::JsonView,
    pub acceptance_criteria: Seq<Seq<char>>,
    pub evidence: Seq<Seq<char>>,
    pub discovered_by: Seq<char>,
}

impl View for Issue {
    type V = IssueView;

    open spec fn view(&self) -> IssueView {
        IssueView {
            id: self.id@,
            title: self.title@,
            status: self.status@,
            priority: self.priority@,
            kind: self.kind@,
            description: self.description@,
            location: self.location@,
            scope: self.scope@,
            metrics: self.metrics@,
            acceptance_criteria: text::texts(self.acceptance_criteria@),
            evidence: text::texts(self.evidence@),
            discovered_by: self.discovered_by@,
        }
    }
}

/// The issues of a file.
#[derive(Debug)]
pub struct IssuesFile {
    pub version: u32,
    pub issues: Vec<Issue>,
}

/// The findings of a list.
pub open spec fn findings(v: Seq<Issue>) -> Seq<IssueView> {
    v.map_values(|i: Issue| i@)
}

impl Default for Issue {
    fn default() -> (r: Self)
        ensures
            r@ == empty_issue(),
    {
        let r = Issue {
            id: String::new(),
            title: String::new(),
            status: String::new(),
            priority: String::new(),
            kind: String::new(),
            description: String::new(),
            location: String::new(),
            scope: String::new(),
            metrics: Json::Null,
            acceptance_criteria: Vec::new(),
            evidence: Vec::new(),
            discovered_by: String::new(),
        };
        assert(text::texts(r.evidence@) =~= Seq::<Seq<char>>::empty());
        assert(text::texts(r.acceptance_criteria@) =~= Seq::<Seq<char>>::empty());
        r
    }
}

/// The finding that says nothing.
pub open spec fn empty_issue() -> IssueView {
    IssueView {
        id: Seq::empty(),
        title: Seq::empty(),
        status: Seq::empty(),
        priority: Seq::empty(),
        kind: Seq::empty(),
        description: Seq::empty(),
        location: Seq::empty(),
        scope: Seq::empty(),
        metrics: json::JsonView::Null,
        acceptance_criteria: Seq::empty(),
        evidence: Seq::empty(),
        discovered_by: Seq::empty(),
    }
}

// ---------------------------------------------------------------------------
// Status
// ---------------------------------------------------------------------------

/// An issue is open until it is resolved, closed or set aside.
pub open spec fn open_issue(i: IssueView) -> bool {
    i.status != "resolved"@ && i.status != "wontfix"@ && i.status != "closed"@
}

/// Whether an issue is open.
pub fn is_open(issue: &Issue) -> (r: bool)
    ensures
        r == open_issue(issue@),
{
    let s = issue.status.as_str();
    !(same(s, "resolved") || same(s, "wontfix") || same(s, "closed"))
}

/// Whether a list of texts is another.
pub fn same_texts(a: &Vec<String>, b: &Vec<String>) -> (r: bool)
    ensures
        r == (text::texts(a@) == text::texts(b@)),
{
    if a.len() != b.len() {
        assert(text::texts(a@).len() != text::texts(b@).len());
        return false;
    }
    let mut i: usize = 0;
    while i < a.len()
        invariant
            i <= a.len(),
            a.len() == b.len(),
            forall|k: int| 0 <= k < i ==> (#[trigger] a@[k])@ == b@[k]@,
        decreases a.len() - i,
    {
        if !same(a[i].as_str(), b[i].as_str()) {
            assert(text::texts(a@)[i as int] != text::texts(b@)[i as int]);
            return false;
        }
        i += 1;
    }
    assert(text::texts(a@) =~= text::texts(b@));
    true
}

/// Whether `list` holds the text `t`.
pub fn holds_text(list: &Vec<String>, t: &str) -> (r: bool)
    ensures
        r == text::texts(list@).contains(t@),
{
    let mut i: usize = 0;
    while i < list.len()
        invariant
            i <= list.len(),
            forall|k: int| 0 <= k < i ==> (#[trigger] list@[k])@ != t@,
        decreases list.len() - i,
    {
        if same(list[i].as_str(), t) {
            assert(text::texts(list@)[i as int] == t@);
            return true;
        }
        i += 1;
    }
    assert forall|k: int| 0 <= k < text::texts(list@).len() implies text::texts(list@)[k] != t@ by {
        assert(list@[k]@ != t@);
    }
    false
}

// ---------------------------------------------------------------------------
// Keeping a finding up to date
// ---------------------------------------------------------------------------

spec fn one_if(b: bool) -> nat {
    if b {
        1
    } else {
        0
    }
}

/// The status that a detector gives its finding.
pub open spec fn target_status(active: bool) -> Seq<char> {
    if active {
        "open"@
    } else {
        "resolved"@
    }
}

/// In how many fields besides the id two findings differ.
pub closed spec fn differing_fields(a: IssueView, b: IssueView) -> nat {
    one_if(a.title != b.title) + one_if(a.status != b.status) + one_if(a.priority != b.priority)
        + one_if(a.kind != b.kind) + one_if(a.description != b.description) + one_if(
        a.location != b.location,
    ) + one_if(a.metrics != b.metrics) + one_if(a.scope != b.scope) + one_if(
        a.acceptance_criteria != b.acceptance_criteria,
    ) + one_if(a.evidence != b.evidence) + one_if(a.discovered_by != b.discovered_by)
}

/// Two findings of one id differ in no field exactly where they are the same.
pub proof fn law_no_difference_is_equality(a: IssueView, b: IssueView)
    requires
        a.id == b.id,
    ensures
        differing_fields(a, b) == 0 <==> a == b,
{
}

/// The place of the first finding with this id, or the length of the list.
pub open spec fn first_with_id(fs: Seq<IssueView>, id: Seq<char>) -> int
    decreases fs.len(),
{
    if fs.len() == 0 {
        0
    } else if fs.first().id == id {
        0
    } else {
        1 + first_with_id(fs.drop_first(), id)
    }
}

/// The findings after a detector has reported `desired`: the one of that id is
/// brought up to date and opened or resolved, and a new one is added where it is
/// active.
pub open spec fn upserted(fs: Seq<IssueView>, desired: IssueView, active: bool) -> Seq<IssueView> {
    let at = first_with_id(fs, desired.id);
    if at < fs.len() {
        fs.update(at, IssueView { status: target_status(active), ..desired })
    } else if active {
        fs.push(desired)
    } else {
        fs
    }
}

/// How many changes that makes: one for each field that changes, one for a new
/// finding.
pub open spec fn upsert_changes(fs: Seq<IssueView>, desired: IssueView, active: bool) -> nat {
    let at = first_with_id(fs, desired.id);
    if at < fs.len() {
        differing_fields(fs[at], IssueView { status: target_status(active), ..desired })
    } else if active {
        1
    } else {
        0
    }
}

pub proof fn lemma_first_with_id(fs: Seq<IssueView>, id: Seq<char>)
    ensures
        0 <= first_with_id(fs, id) <= fs.len(),
        first_with_id(fs, id) < fs.len() ==> fs[first_with_id(fs, id)].id == id,
        forall|i: int| 0 <= i < first_with_id(fs, id) ==> (#[trigger] fs[i]).id != id,
    decreases fs.len(),
{
    if fs.len() > 0 && fs.first().id != id {
        let rest = fs.drop_first();
        lemma_first_with_id(rest, id);
        let at = first_with_id(fs, id);
        if at < fs.len() {
            assert(fs[at] == rest[at - 1]);
        }
        assert forall|i: int| 0 <= i < at implies (#[trigger] fs[i]).id != id by {
            if i > 0 {
                assert(fs[i] == rest[i - 1]);
            }
        }
    }
}

pub proof fn lemma_first_with_id_at(fs: Seq<IssueView>, id: Seq<char>, at: int)
    requires
        0 <= at < fs.len(),
        fs[at].id == id,
        forall|i: int| 0 <= i < at ==> (#[trigger] fs[i]).id != id,
    ensures
        first_with_id(fs, id) == at,
{
    lemma_first_with_id(fs, id);
}

pub proof fn lemma_first_with_id_none(fs: Seq<IssueView>, id: Seq<char>)
    requires
        forall|i: int| 0 <= i < fs.len() ==> (#[trigger] fs[i]).id != id,
    ensures
        first_with_id(fs, id) == fs.len(),
{
    lemma_first_with_id(fs, id);
}

/// Each finding has its own id.
pub open spec fn distinct_ids(fs: Seq<IssueView>) -> bool {
    forall|i: int, j: int|
        0 <= i < j < fs.len() ==> (#[trigger] fs[i]).id != (#[trigger] fs[j]).id
}

/// A report never puts a second finding of one id into the list.
pub proof fn law_upsert_keeps_ids_distinct(fs: Seq<IssueView>, desired: IssueView, active: bool)
    requires
        distinct_ids(fs),
    ensures
        distinct_ids(upserted(fs, desired, active)),
{
    lemma_first_with_id(fs, desired.id);
    let r = upserted(fs, desired, active);
    assert forall|i: int, j: int| 0 <= i < j < r.len() implies (#[trigger] r[i]).id != (
    #[trigger] r[j]).id by {
        if j < fs.len() {
            assert(fs[i].id != fs[j].id);
        }
    }
}

/// Reporting the same finding again changes nothing: once its state is in the
/// list, no further change is counted.
pub proof fn law_upsert_is_idempotent(fs: Seq<IssueView>, desired: IssueView, active: bool)
    requires
        desired.status == target_status(active),
    ensures
        upserted(upserted(fs, desired, active), desired, active) == upserted(fs, desired, active),
        upsert_changes(upserted(fs, desired, active), desired, active) == 0,
{
    lemma_first_with_id(fs, desired.id);
    let at = first_with_id(fs, desired.id);
    let once = upserted(fs, desired, active);
    let last = IssueView { status: target_status(active), ..desired };
    if at < fs.len() || active {
        assert(once[at] == last);
        assert forall|i: int| 0 <= i < at implies (#[trigger] once[i]).id != desired.id by {
            assert(once[i] == fs[i]);
        }
        lemma_first_with_id_at(once, desired.id, at);
        law_no_difference_is_equality(once[at], last);
        assert(upserted(once, desired, active) =~= once);
    }
}

/// A report touches no finding of another id.
pub proof fn law_upsert_keeps_other_findings(
    fs: Seq<IssueView>,
    desired: IssueView,
    active: bool,
    i: int,
)
    requires
        0 <= i < fs.len(),
        fs[i].id != desired.id,
    ensures
        upserted(fs, desired, active)[i] == fs[i],
{
    lemma_first_with_id(fs, desired.id);
}

/// An inactive report resolves the finding of its id, where there is one.
pub proof fn law_inactive_report_resolves(fs: Seq<IssueView>, desired: IssueView)
    requires
        first_with_id(fs, desired.id) < fs.len(),
    ensures
        upserted(fs, desired, false)[first_with_id(fs, desired.id)].status == "resolved"@,
        upserted(fs, desired, false).len() == fs.len(),
{
    lemma_first_with_id(fs, desired.id);
}

fn flag(b: bool) -> (r: usize)
    ensures
        r == one_if(b),
        r <= 1,
{
    if b {
        1
    } else {
        0
    }
}

/// In how many fields `existing` differs from `desired` with the status `target`.
#[verifier::rlimit(60)]
#[verifier::spinoff_prover]
fn count_differences(existing: &Issue, desired: &Issue, target: &str) -> (r: usize)
    ensures
        r == differing_fields(existing@, (IssueView { status: target@, ..desired@ })),
{
    let ghost a = existing@;
    let ghost b = IssueView { status: target@, ..desired@ };
    let title: usize = flag(!same(existing.title.as_str(), desired.title.as_str()));
    assert(title == one_if(a.title != b.title));
    let status: usize = flag(!same(existing.status.as_str(), target));
    assert(status == one_if(a.status != b.status));
    let priority: usize = flag(!same(existing.priority.as_str(), desired.priority.as_str()));
    assert(priority == one_if(a.priority != b.priority));
    let kind: usize = flag(!same(existing.kind.as_str(), desired.kind.as_str()));
    assert(kind == one_if(a.kind != b.kind));
    let description: usize = flag(!same(existing.description.as_str(), desired.description.as_str()));
    assert(description == one_if(a.description != b.description));
    let location: usize = flag(!same(existing.location.as_str(), desired.location.as_str()));
    assert(location == one_if(a.location != b.location));
    let metrics: usize = flag(!same_json(&existing.metrics, &desired.metrics));
    assert(metrics == one_if(a.metrics != b.metrics));
    let scope: usize = flag(!same(existing.scope.as_str(), desired.scope.as_str()));
    assert(scope == one_if(a.scope != b.scope));
    let acceptance_criteria: usize = flag(
        !same_texts(&existing.acceptance_criteria, &desired.acceptance_criteria),
    );
    assert(acceptance_criteria == one_if(a.acceptance_criteria != b.acceptance_criteria));
    let evidence: usize = flag(!same_texts(&existing.evidence, &desired.evidence));
    assert(evidence == one_if(a.evidence != b.evidence));
    let discovered_by: usize = flag(
        !same(existing.discovered_by.as_str(), desired.discovered_by.as_str()),
    );
    assert(discovered_by == one_if(a.discovered_by != b.discovered_by));
    title + status + priority + kind + description + location + metrics + scope
        + acceptance_criteria + evidence + discovered_by
}

/// Brings the finding of a detector up to date; tells how many changes that made.
pub fn upsert_bridge_issue(issues: &mut Vec<Issue>, desired: Issue, active: bool) -> (r: usize)
    ensures
        findings(final(issues)@) == upserted(findings(old(issues)@), desired@, active),
        r == upsert_changes(findings(old(issues)@), desired@, active),
{
    let ghost fs = findings(issues@);
    let mut i: usize = 0;
    while i < issues.len()
        invariant
            i <= issues.len(),
            issues@ == old(issues)@,
            fs == findings(issues@),
            forall|k: int| 0 <= k < i ==> (#[trigger] fs[k]).id != desired.id@,
        decreases issues.len() - i,
    {
        if same(issues[i].id.as_str(), desired.id.as_str()) {
            proof {
                assert(fs[i as int].id == desired.id@);
                lemma_first_with_id_at(fs, desired.id@, i as int);
            }
            let target: &str = if active {
                "open"
            } else {
                "resolved"
            };
            let mutated: usize = count_differences(&issues[i], &desired, target);
            let mut updated = desired;
            updated.status = target.to_owned();
            issues.set(i, updated);
            assert(findings(issues@) =~= upserted(fs, desired@, active));
            return mutated;
        }
        i += 1;
    }
    proof {
        lemma_first_with_id_none(fs, desired.id@);
    }
    if active {
        issues.push(desired);
        assert(findings(issues@) =~= fs.push(desired@));
        1
    } else {
        0
    }
}

// ---------------------------------------------------------------------------
// Resolving what a detector no longer reports
// ---------------------------------------------------------------------------

/// A finding of the family `prefix` that is not among `kept` and not resolved.
pub open spec fn stale(i: IssueView, prefix: Seq<char>, kept: Seq<Seq<char>>) -> bool {
    &&& text::has_prefix(i.id, prefix)
    &&& !kept.contains(i.id)
    &&& i.status != "resolved"@
}

/// The finding, resolved where it is stale.
pub open spec fn resolved_if_stale(
    i: IssueView,
    prefix: Seq<char>,
    kept: Seq<Seq<char>>,
) -> IssueView {
    if stale(i, prefix, kept) {
        IssueView { status: "resolved"@, ..i }
    } else {
        i
    }
}

/// The findings with the stale ones resolved.
pub open spec fn stale_resolved(
    fs: Seq<IssueView>,
    prefix: Seq<char>,
    kept: Seq<Seq<char>>,
) -> Seq<IssueView> {
    fs.map_values(|i: IssueView| resolved_if_stale(i, prefix, kept))
}

/// How many findings are stale.
pub open spec fn stale_count(fs: Seq<IssueView>, prefix: Seq<char>, kept: Seq<Seq<char>>) -> nat
    decreases fs.len(),
{
    if fs.len() == 0 {
        0
    } else {
        stale_count(fs.drop_last(), prefix, kept) + if stale(fs.last(), prefix, kept) {
            1nat
        } else {
            0
        }
    }
}

/// Resolves the findings of a family that are no longer reported; tells how many.
pub fn resolve_stale(issues: &mut Vec<Issue>, prefix: &str, kept: &Vec<String>) -> (r: usize)
    ensures
        findings(final(issues)@) == stale_resolved(
            findings(old(issues)@),
            prefix@,
            text::texts(kept@),
        ),
        r == stale_count(findings(old(issues)@), prefix@, text::texts(kept@)),
{
    let ghost fs = findings(issues@);
    let ghost keep = text::texts(kept@);
    let mut mutated: usize = 0;
    let mut i: usize = 0;
    assert(fs.take(0) =~= Seq::<IssueView>::empty());
    while i < issues.len()
        invariant
            i <= issues.len(),
            issues.len() == fs.len(),
            fs == findings(old(issues)@),
            keep == text::texts(kept@),
            mutated <= i,
            mutated == stale_count(fs.take(i as int), prefix@, keep),
            forall|k: int|
                0 <= k < i ==> (#[trigger] issues@[k])@ == resolved_if_stale(fs[k], prefix@, keep),
            forall|k: int| i <= k < fs.len() ==> (#[trigger] issues@[k])@ == fs[k],
        decreases issues.len() - i,
    {
        proof {
            assert(fs.take(i + 1).drop_last() =~= fs.take(i as int));
            assert(fs.take(i + 1).last() == fs[i as int]);
            assert(issues@[i as int]@ == fs[i as int]);
        }
        if starts_with(issues[i].id.as_str(), prefix) && !holds_text(kept, issues[i].id.as_str())
            && !same(issues[i].status.as_str(), "resolved") {
            issues[i].status = "resolved".to_owned();
            mutated += 1;
        }
        i += 1;
    }
    proof {
        assert(fs.take(i as int) =~= fs);
        assert(findings(issues@) =~= stale_resolved(fs, prefix@, keep));
    }
    mutated
}

/// Resolving again finds nothing left to resolve.
pub proof fn law_resolving_is_idempotent(
    fs: Seq<IssueView>,
    prefix: Seq<char>,
    kept: Seq<Seq<char>>,
)
    ensures
        stale_resolved(stale_resolved(fs, prefix, kept), prefix, kept) == stale_resolved(
            fs,
            prefix,
            kept,
        ),
        stale_count(stale_resolved(fs, prefix, kept), prefix, kept) == 0,
    decreases fs.len(),
{
    let once = stale_resolved(fs, prefix, kept);
    assert(stale_resolved(once, prefix, kept) =~= once);
    if fs.len() > 0 {
        law_resolving_is_idempotent(fs.drop_last(), prefix, kept);
        assert(once.drop_last() =~= stale_resolved(fs.drop_last(), prefix, kept));
        assert(once.last() == resolved_if_stale(fs.last(), prefix, kept));
    }
}

} // verus!
