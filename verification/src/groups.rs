//! Ordered sets of texts, and edges grouped by where they start.

use crate::order;
use crate::order::{sort_ranked, sort_texts, Ranked};
use crate::semantic;
use crate::semantic::Edge;
use crate::tally;
use crate::text;
use crate::text::{is_blank, same, text_at_most};
use vstd::hash_map::StringHashMap;
use vstd::hash_set::StringHashSet;
use vstd::prelude::*;

verus! {

/// The texts of `s`, each once, in the order of their first places.
pub open spec fn distinct(s: Seq<Seq<char>>) -> Seq<Seq<char>>
    decreases s.len(),
{
    if s.len() == 0 {
        s
    } else if s.drop_last().contains(s.last()) {
        distinct(s.drop_last())
    } else {
        distinct(s.drop_last()).push(s.last())
    }
}

/// The texts of `s`, each once, in lexicographic order.
pub open spec fn sorted_set(s: Seq<Seq<char>>) -> Seq<Seq<char>> {
    order::sorted_texts(distinct(s))
}

/// What the edges lead to from `key`.
pub open spec fn seconds_of(es: Seq<(Seq<char>, Seq<char>)>, key: Seq<char>) -> Seq<Seq<char>>
    decreases es.len(),
{
    if es.len() == 0 {
        Seq::empty()
    } else if es.last().0 == key {
        seconds_of(es.drop_last(), key).push(es.last().1)
    } else {
        seconds_of(es.drop_last(), key)
    }
}

/// Where the edges start.
pub open spec fn firsts(es: Seq<(Seq<char>, Seq<char>)>) -> Seq<Seq<char>> {
    es.map_values(|e: (Seq<char>, Seq<char>)| e.0)
}

/// Where the edges lead to.
pub open spec fn seconds(es: Seq<(Seq<char>, Seq<char>)>) -> Seq<Seq<char>> {
    es.map_values(|e: (Seq<char>, Seq<char>)| e.1)
}

/// The edges the other way round.
pub open spec fn flipped(es: Seq<(Seq<char>, Seq<char>)>) -> Seq<(Seq<char>, Seq<char>)> {
    es.map_values(|e: (Seq<char>, Seq<char>)| (e.1, e.0))
}

/// The set of what the edges lead to from `key`.
pub open spec fn members(es: Seq<(Seq<char>, Seq<char>)>, key: Seq<char>) -> Seq<Seq<char>> {
    sorted_set(seconds_of(es, key))
}

/// Each start with the set of what its edges lead to, in the order of the starts.
pub open spec fn grouped(es: Seq<(Seq<char>, Seq<char>)>) -> Seq<(Seq<char>, Seq<Seq<char>>)> {
    sorted_set(firsts(es)).map_values(|k: Seq<char>| (k, members(es, k)))
}

/// The edges whose end is not blank.
pub open spec fn with_ends(es: Seq<(Seq<char>, Seq<char>)>) -> Seq<(Seq<char>, Seq<char>)> {
    es.filter(|e: (Seq<char>, Seq<char>)| !text::blank(e.1))
}

/// Nothing is lost and nothing is added, and no text occurs twice.
pub proof fn lemma_distinct(s: Seq<Seq<char>>)
    ensures
        forall|x: Seq<char>| #[trigger] distinct(s).contains(x) <==> s.contains(x),
        distinct(s).no_duplicates(),
        distinct(s).len() <= s.len(),
    decreases s.len(),
{
    if s.len() > 0 {
        let before = s.drop_last();
        lemma_distinct(before);
        if !before.contains(s.last()) {
            assert(!distinct(before).contains(s.last()));
        }
        assert forall|x: Seq<char>| #[trigger] distinct(s).contains(x) <==> s.contains(x) by {
            if s.contains(x) {
                let i = choose|i: int| 0 <= i < s.len() && s[i] == x;
                if i < before.len() {
                    assert(before[i] == x);
                    assert(distinct(before).contains(x));
                    let j = choose|j: int| 0 <= j < distinct(before).len() && distinct(before)[j] == x;
                    assert(distinct(s)[j] == x);
                } else if before.contains(s.last()) {
                    assert(distinct(before).contains(x));
                } else {
                    assert(distinct(s)[distinct(before).len() as int] == x);
                }
            }
            if distinct(s).contains(x) {
                let j = choose|j: int| 0 <= j < distinct(s).len() && distinct(s)[j] == x;
                if j < distinct(before).len() {
                    assert(distinct(before)[j] == x);
                    assert(distinct(before).contains(x));
                    let i = choose|i: int| 0 <= i < before.len() && before[i] == x;
                    assert(s[i] == x);
                } else {
                    assert(s[s.len() - 1] == x);
                }
            }
        }
    }
}

/// A sorted set holds what the list holds.
pub proof fn lemma_sorted_set(s: Seq<Seq<char>>)
    ensures
        forall|x: Seq<char>| #[trigger] sorted_set(s).contains(x) <==> s.contains(x),
        sorted_set(s).no_duplicates(),
        order::in_order(sorted_set(s), |a: Seq<char>, b: Seq<char>| text::text_le(a, b)),
{
    let le = |a: Seq<char>, b: Seq<char>| text::text_le(a, b);
    lemma_distinct(s);
    assert forall|a: Seq<char>, b: Seq<char>| #[trigger] le(a, b) || le(b, a) by {
        text::lemma_text_le_total(a, b);
    }
    assert forall|a: Seq<char>, b: Seq<char>, c: Seq<char>| #[trigger]
        le(a, b) && #[trigger] le(b, c) implies le(a, c) by {
        text::lemma_text_le_transitive(a, b, c);
    }
    order::lemma_stable_sorted(distinct(s), le);
    let d = distinct(s);
    let r = sorted_set(s);
    assert(r.to_multiset() == d.to_multiset());
    d.lemma_multiset_has_no_duplicates();
    assert(r.no_duplicates()) by {
        r.lemma_multiset_has_no_duplicates_conv();
    }
    assert forall|x: Seq<char>| #[trigger] r.contains(x) <==> s.contains(x) by {
        broadcast use vstd::seq_lib::group_to_multiset_ensures;

        assert(r.contains(x) <==> r.to_multiset().count(x) > 0);
        assert(d.contains(x) <==> d.to_multiset().count(x) > 0);
    }
}

/// The texts of a list, each once.
pub fn distinct_texts(v: &Vec<String>) -> (r: Vec<String>)
    ensures
        text::texts(r@) == distinct(text::texts(v@)),
{
    let ghost all = text::texts(v@);
    let mut seen = StringHashSet::new();
    let mut out: Vec<String> = Vec::new();
    let mut i: usize = 0;
    proof {
        assert(all.take(0) =~= Seq::<Seq<char>>::empty());
        assert(text::texts(out@) =~= Seq::<Seq<char>>::empty());
    }
    while i < v.len()
        invariant
            i <= v.len(),
            all == text::texts(v@),
            forall|x: Seq<char>| #[trigger]
                seen@.contains(x) <==> all.take(i as int).contains(x),
            text::texts(out@) == distinct(all.take(i as int)),
        decreases v.len() - i,
    {
        let ghost x = v@[i as int]@;
        let ghost before = text::texts(out@);
        let ghost head = all.take(i as int);
        proof {
            assert(all.take(i + 1).drop_last() =~= head);
            assert(all.take(i + 1).last() == x);
            assert(all.take(i + 1) =~= head.push(x));
        }
        let ghost longer = head.push(x);
        if seen.insert(v[i].clone()) {
            out.push(v[i].clone());
            assert(text::texts(out@) =~= before.push(x));
        }
        proof {
            assert forall|y: Seq<char>| #[trigger] seen@.contains(y) <==> longer.contains(y) by {
                if head.contains(y) {
                    let j = choose|j: int| 0 <= j < head.len() && head[j] == y;
                    assert(longer[j] == y);
                }
                if longer.contains(y) {
                    let j = choose|j: int| 0 <= j < longer.len() && longer[j] == y;
                    if j < head.len() {
                        assert(head[j] == y);
                    }
                }
                assert(longer[head.len() as int] == x);
            }
        }
        i += 1;
    }
    assert(all.take(i as int) =~= all);
    out
}

/// The texts of a list, each once, in lexicographic order.
pub fn sorted_distinct(v: &Vec<String>) -> (r: Vec<String>)
    ensures
        text::texts(r@) == sorted_set(text::texts(v@)),
{
    sort_texts(distinct_texts(v))
}

/// What the edges lead to from `key`.
pub fn ends_of(edges: &Vec<Edge>, key: &str) -> (r: Vec<String>)
    ensures
        text::texts(r@) == seconds_of(semantic::edges_of(edges@), key@),
{
    let ghost es = semantic::edges_of(edges@);
    let mut out: Vec<String> = Vec::new();
    let mut i: usize = 0;
    proof {
        assert(es.take(0) =~= Seq::<(Seq<char>, Seq<char>)>::empty());
        assert(text::texts(out@) =~= Seq::<Seq<char>>::empty());
    }
    while i < edges.len()
        invariant
            i <= edges.len(),
            es == semantic::edges_of(edges@),
            text::texts(out@) == seconds_of(es.take(i as int), key@),
        decreases edges.len() - i,
    {
        let ghost before = text::texts(out@);
        proof {
            assert(es.take(i + 1).drop_last() =~= es.take(i as int));
            assert(es.take(i + 1).last() == edges@[i as int]@);
        }
        if same(edges[i].from.as_str(), key) {
            out.push(edges[i].to.clone());
            assert(text::texts(out@) =~= before.push(edges@[i as int].to@));
        }
        i += 1;
    }
    assert(es.take(i as int) =~= es);
    out
}

/// Where the edges start.
pub fn starts(edges: &Vec<Edge>) -> (r: Vec<String>)
    ensures
        text::texts(r@) == firsts(semantic::edges_of(edges@)),
{
    let mut out: Vec<String> = Vec::new();
    let mut i: usize = 0;
    while i < edges.len()
        invariant
            i <= edges.len(),
            out@.len() == i,
            forall|k: int| 0 <= k < i ==> (#[trigger] out@[k])@ == edges@[k].from@,
        decreases edges.len() - i,
    {
        out.push(edges[i].from.clone());
        i += 1;
    }
    assert(text::texts(out@) =~= firsts(semantic::edges_of(edges@)));
    out
}

/// Where the edges lead to.
pub fn ends(edges: &Vec<Edge>) -> (r: Vec<String>)
    ensures
        text::texts(r@) == seconds(semantic::edges_of(edges@)),
{
    let mut out: Vec<String> = Vec::new();
    let mut i: usize = 0;
    while i < edges.len()
        invariant
            i <= edges.len(),
            out@.len() == i,
            forall|k: int| 0 <= k < i ==> (#[trigger] out@[k])@ == edges@[k].to@,
        decreases edges.len() - i,
    {
        out.push(edges[i].to.clone());
        i += 1;
    }
    assert(text::texts(out@) =~= seconds(semantic::edges_of(edges@)));
    out
}

/// The edges the other way round.
pub fn flip(edges: &Vec<Edge>) -> (r: Vec<Edge>)
    ensures
        semantic::edges_of(r@) == flipped(semantic::edges_of(edges@)),
{
    let mut out: Vec<Edge> = Vec::new();
    let mut i: usize = 0;
    while i < edges.len()
        invariant
            i <= edges.len(),
            out@.len() == i,
            forall|k: int|
                0 <= k < i ==> (#[trigger] out@[k])@ == (edges@[k].to@, edges@[k].from@),
        decreases edges.len() - i,
    {
        out.push(Edge { from: edges[i].to.clone(), to: edges[i].from.clone() });
        i += 1;
    }
    assert(semantic::edges_of(out@) =~= flipped(semantic::edges_of(edges@)));
    out
}

/// The edges whose end is not blank.
pub fn drop_blank_ends(edges: &Vec<Edge>) -> (r: Vec<Edge>)
    ensures
        semantic::edges_of(r@) == with_ends(semantic::edges_of(edges@)),
{
    let ghost es = semantic::edges_of(edges@);
    let mut out: Vec<Edge> = Vec::new();
    let mut i: usize = 0;
    proof {
        reveal(Seq::filter);
        assert(es.take(0) =~= Seq::<(Seq<char>, Seq<char>)>::empty());
        assert(semantic::edges_of(out@) =~= Seq::<(Seq<char>, Seq<char>)>::empty());
    }
    while i < edges.len()
        invariant
            i <= edges.len(),
            es == semantic::edges_of(edges@),
            semantic::edges_of(out@) == with_ends(es.take(i as int)),
        decreases edges.len() - i,
    {
        let ghost before = semantic::edges_of(out@);
        proof {
            reveal(Seq::filter);
            assert(es.take(i + 1).drop_last() =~= es.take(i as int));
            assert(es.take(i + 1).last() == edges@[i as int]@);
        }
        if !is_blank(edges[i].to.as_str()) {
            out.push(Edge { from: edges[i].from.clone(), to: edges[i].to.clone() });
            assert(semantic::edges_of(out@) =~= before.push(edges@[i as int]@));
        }
        i += 1;
    }
    assert(es.take(i as int) =~= es);
    out
}

/// A start with the set of what its edges lead to.
#[derive(Debug)]
pub struct Group {
    pub key: String,
    pub members: Vec<String>,
}

impl View for Group {
    type V = (Seq<char>, Seq<Seq<char>>);

    open spec fn view(&self) -> (Seq<char>, Seq<Seq<char>>) {
        (self.key@, text::texts(self.members@))
    }
}

/// The groups of a list.
pub open spec fn groups_of(v: Seq<Group>) -> Seq<(Seq<char>, Seq<Seq<char>>)> {
    v.map_values(|g: Group| g@)
}

/// Groups edges by where they start.
pub fn group_edges(edges: &Vec<Edge>) -> (r: Vec<Group>)
    ensures
        groups_of(r@) == grouped(semantic::edges_of(edges@)),
{
    let ghost es = semantic::edges_of(edges@);
    let all_starts = starts(edges);
    let keys = sorted_distinct(&all_starts);
    let mut out: Vec<Group> = Vec::new();
    let mut i: usize = 0;
    while i < keys.len()
        invariant
            i <= keys.len(),
            es == semantic::edges_of(edges@),
            out@.len() == i,
            forall|k: int|
                0 <= k < i ==> (#[trigger] out@[k])@ == (keys@[k]@, members(es, keys@[k]@)),
        decreases keys.len() - i,
    {
        let reached = ends_of(edges, keys[i].as_str());
        out.push(Group { key: keys[i].clone(), members: sorted_distinct(&reached) });
        i += 1;
    }
    proof {
        let ks = sorted_set(firsts(es));
        assert(text::texts(keys@) == ks);
        assert forall|k: int| 0 <= k < keys@.len() implies #[trigger] keys@[k]@ == ks[k] by {
            assert(text::texts(keys@)[k] == keys@[k]@);
        }
        assert(ks.len() == keys@.len());
        assert(groups_of(out@) =~= grouped(es));
    }
    out
}

/// The groups with at least `least` members.
pub open spec fn wide(
    gs: Seq<(Seq<char>, Seq<Seq<char>>)>,
    least: nat,
) -> Seq<(Seq<char>, Seq<Seq<char>>)> {
    gs.filter(|g: (Seq<char>, Seq<Seq<char>>)| g.1.len() >= least)
}

/// How many groups have at least `least` members.
pub fn count_wide(gs: &Vec<Group>, least: usize) -> (r: usize)
    ensures
        r == wide(groups_of(gs@), least as nat).len(),
        r <= gs@.len(),
{
    let ghost all = groups_of(gs@);
    let mut count: usize = 0;
    let mut i: usize = 0;
    proof {
        reveal(Seq::filter);
        assert(all.take(0) =~= Seq::<(Seq<char>, Seq<Seq<char>>)>::empty());
    }
    while i < gs.len()
        invariant
            i <= gs.len(),
            all == groups_of(gs@),
            count <= i,
            count == wide(all.take(i as int), least as nat).len(),
        decreases gs.len() - i,
    {
        proof {
            reveal(Seq::filter);
            assert(all.take(i + 1).drop_last() =~= all.take(i as int));
            assert(all.take(i + 1).last() == gs@[i as int]@);
            assert(gs@[i as int]@.1.len() == gs@[i as int].members@.len());
        }
        if gs[i].members.len() >= least {
            count += 1;
        }
        i += 1;
    }
    assert(all.take(i as int) =~= all);
    count
}

/// Every edge is in exactly the group of its start.
pub proof fn law_groups_hold_the_edges(
    es: Seq<(Seq<char>, Seq<char>)>,
    key: Seq<char>,
    member: Seq<char>,
)
    ensures
        members(es, key).contains(member) <==> es.contains((key, member)),
        sorted_set(firsts(es)).contains(key) <==> exists|m: Seq<char>| es.contains((key, m)),
{
    lemma_sorted_set(seconds_of(es, key));
    lemma_sorted_set(firsts(es));
    lemma_seconds_of(es, key, member);
    if firsts(es).contains(key) {
        let i = choose|i: int| 0 <= i < firsts(es).len() && firsts(es)[i] == key;
        assert(es[i] == (key, es[i].1));
        assert(es.contains((key, es[i].1)));
    }
    if exists|m: Seq<char>| es.contains((key, m)) {
        let m = choose|m: Seq<char>| es.contains((key, m));
        let i = choose|i: int| 0 <= i < es.len() && es[i] == (key, m);
        assert(firsts(es)[i] == key);
    }
}

pub proof fn lemma_seconds_of(es: Seq<(Seq<char>, Seq<char>)>, key: Seq<char>, x: Seq<char>)
    ensures
        seconds_of(es, key).contains(x) <==> es.contains((key, x)),
    decreases es.len(),
{
    if es.len() > 0 {
        let before = es.drop_last();
        lemma_seconds_of(before, key, x);
        let now = seconds_of(es, key);
        let was = seconds_of(before, key);
        if es.contains((key, x)) {
            let i = choose|i: int| 0 <= i < es.len() && es[i] == (key, x);
            if i < before.len() {
                assert(before[i] == (key, x));
                assert(was.contains(x));
                let j = choose|j: int| 0 <= j < was.len() && was[j] == x;
                assert(now[j] == x);
            } else {
                assert(now[was.len() as int] == x);
            }
        }
        if now.contains(x) {
            let j = choose|j: int| 0 <= j < now.len() && now[j] == x;
            if j < was.len() {
                assert(was[j] == x);
                assert(before.contains((key, x)));
                let i = choose|i: int| 0 <= i < before.len() && before[i] == (key, x);
                assert(es[i] == (key, x));
            } else {
                assert(es[es.len() - 1] == (key, x));
            }
        }
    }
}

/// The set of what the edges lead to from `key`.
pub fn members_of(edges: &Vec<Edge>, key: &str) -> (r: Vec<String>)
    ensures
        text::texts(r@) == members(semantic::edges_of(edges@), key@),
{
    let found = ends_of(edges, key);
    sorted_distinct(&found)
}

/// The larger group comes first, then the one whose key is first in the order of
/// texts.
impl Ranked for Group {
    open spec fn rank_le(a: (Seq<char>, Seq<Seq<char>>), b: (Seq<char>, Seq<Seq<char>>)) -> bool {
        if a.1.len() != b.1.len() {
            a.1.len() > b.1.len()
        } else {
            text::text_le(a.0, b.0)
        }
    }

    fn ranks_at_most(&self, other: &Self) -> (r: bool) {
        assert(self@.1.len() == self.members@.len());
        assert(other@.1.len() == other.members@.len());
        if self.members.len() != other.members.len() {
            self.members.len() > other.members.len()
        } else {
            text_at_most(self.key.as_str(), other.key.as_str())
        }
    }

    proof fn rank_total(a: (Seq<char>, Seq<Seq<char>>), b: (Seq<char>, Seq<Seq<char>>)) {
        text::lemma_text_le_total(a.0, b.0);
    }

    proof fn rank_transitive(
        a: (Seq<char>, Seq<Seq<char>>),
        b: (Seq<char>, Seq<Seq<char>>),
        c: (Seq<char>, Seq<Seq<char>>),
    ) {
        if text::text_le(a.0, b.0) && text::text_le(b.0, c.0) {
            text::lemma_text_le_transitive(a.0, b.0, c.0);
        }
    }
}

/// The groups by size, the largest first.
pub open spec fn by_size(gs: Seq<(Seq<char>, Seq<Seq<char>>)>) -> Seq<
    (Seq<char>, Seq<Seq<char>>),
> {
    order::stable_sorted(
        gs,
        |a: (Seq<char>, Seq<Seq<char>>), b: (Seq<char>, Seq<Seq<char>>)| Group::rank_le(a, b),
    )
}

/// Sorts groups by size, the largest first.
pub fn sort_by_size(gs: Vec<Group>) -> (r: Vec<Group>)
    ensures
        groups_of(r@) == by_size(groups_of(gs@)),
{
    let ghost before = gs@;
    let out = sort_ranked(gs);
    assert(groups_of(before) =~= order::views(before));
    assert(groups_of(out@) =~= order::views(out@));
    out
}

/// The members of all groups in a row.
pub open spec fn joined_members(gs: Seq<(Seq<char>, Seq<Seq<char>>)>) -> Seq<Seq<char>>
    decreases gs.len(),
{
    if gs.len() == 0 {
        Seq::empty()
    } else {
        joined_members(gs.drop_last()) + gs.last().1
    }
}

/// The set of the members of all groups.
pub open spec fn all_members(gs: Seq<(Seq<char>, Seq<Seq<char>>)>) -> Seq<Seq<char>> {
    sorted_set(joined_members(gs))
}

/// The set of the members of all groups.
pub fn collect_members(gs: &Vec<Group>) -> (r: Vec<String>)
    ensures
        text::texts(r@) == all_members(groups_of(gs@)),
{
    let ghost all = groups_of(gs@);
    let mut out: Vec<String> = Vec::new();
    let mut i: usize = 0;
    proof {
        assert(all.take(0) =~= Seq::<(Seq<char>, Seq<Seq<char>>)>::empty());
        assert(text::texts(out@) =~= Seq::<Seq<char>>::empty());
    }
    while i < gs.len()
        invariant
            i <= gs@.len(),
            all == groups_of(gs@),
            text::texts(out@) == joined_members(all.take(i as int)),
        decreases gs@.len() - i,
    {
        proof {
            assert(all.take(i + 1).drop_last() =~= all.take(i as int));
            assert(all.take(i + 1).last() == gs@[i as int]@);
        }
        let ghost before = out@;
        let mut more = text::copy_texts(&gs[i].members);
        let ghost added = more@;
        out.append(&mut more);
        assert(text::texts(out@) =~= text::texts(before) + text::texts(added));
        i += 1;
    }
    assert(all.take(i as int) =~= all);
    sorted_distinct(&out)
}

/// How many members all groups have together.
pub open spec fn size_sum(gs: Seq<(Seq<char>, Seq<Seq<char>>)>) -> nat
    decreases gs.len(),
{
    if gs.len() == 0 {
        0
    } else {
        size_sum(gs.drop_last()) + gs.last().1.len()
    }
}

/// How many members all groups have together, at most the largest count.
pub open spec fn total_of(gs: Seq<(Seq<char>, Seq<Seq<char>>)>) -> usize {
    tally::capped_count(size_sum(gs))
}

/// How many members all groups have together.
pub fn count_total(gs: &Vec<Group>) -> (r: usize)
    ensures
        r == total_of(groups_of(gs@)),
{
    let ghost all = groups_of(gs@);
    let mut total: usize = 0;
    let mut i: usize = 0;
    assert(all.take(0) =~= Seq::<(Seq<char>, Seq<Seq<char>>)>::empty());
    while i < gs.len()
        invariant
            i <= gs@.len(),
            all == groups_of(gs@),
            total == tally::capped_count(size_sum(all.take(i as int))),
        decreases gs@.len() - i,
    {
        proof {
            assert(all.take(i + 1).drop_last() =~= all.take(i as int));
            assert(all.take(i + 1).last() == gs@[i as int]@);
            assert(gs@[i as int]@.1.len() == gs@[i as int].members@.len());
        }
        total = total.saturating_add(gs[i].members.len());
        i += 1;
    }
    assert(all.take(i as int) =~= all);
    total
}

/// Each start with all that its edges lead to, sorted, as often as they do.
pub open spec fn bags(es: Seq<(Seq<char>, Seq<char>)>) -> Seq<(Seq<char>, Seq<Seq<char>>)> {
    sorted_set(firsts(es)).map_values(
        |k: Seq<char>| (k, order::sorted_texts(seconds_of(es, k))),
    )
}

/// Groups edges by where they start; an end occurs as often as edges lead to it.
pub fn bag_edges(edges: &Vec<Edge>) -> (r: Vec<Group>)
    ensures
        groups_of(r@) == bags(semantic::edges_of(edges@)),
{
    let ghost es = semantic::edges_of(edges@);
    let all_starts = starts(edges);
    let keys = sorted_distinct(&all_starts);
    let mut out: Vec<Group> = Vec::new();
    let mut i: usize = 0;
    while i < keys.len()
        invariant
            i <= keys@.len(),
            es == semantic::edges_of(edges@),
            out@.len() == i,
            forall|k: int|
                0 <= k < i ==> (#[trigger] out@[k])@ == (
                    keys@[k]@,
                    order::sorted_texts(seconds_of(es, keys@[k]@)),
                ),
        decreases keys@.len() - i,
    {
        let reached = ends_of(edges, keys[i].as_str());
        out.push(Group { key: keys[i].clone(), members: sort_texts(reached) });
        i += 1;
    }
    proof {
        let ks = sorted_set(firsts(es));
        assert(text::texts(keys@) == ks);
        assert forall|k: int| 0 <= k < keys@.len() implies #[trigger] keys@[k]@ == ks[k] by {
            assert(text::texts(keys@)[k] == keys@[k]@);
        }
        assert(ks.len() == keys@.len());
        assert(groups_of(out@) =~= bags(es));
    }
    out
}

/// What the last edge from `key` leads to.
pub open spec fn last_end(es: Seq<(Seq<char>, Seq<char>)>, key: Seq<char>) -> Option<Seq<char>>
    decreases es.len(),
{
    if es.len() == 0 {
        None
    } else if es.last().0 == key {
        Some(es.last().1)
    } else {
        last_end(es.drop_last(), key)
    }
}

/// The map tells where the last edge from each start stands.
pub open spec fn indexes_last(m: Map<Seq<char>, usize>, es: Seq<(Seq<char>, Seq<char>)>) -> bool {
    &&& forall|k: Seq<char>| #[trigger] m.contains_key(k) <==> last_end(es, k) is Some
    &&& forall|k: Seq<char>| #[trigger]
        m.contains_key(k) ==> m[k] < es.len() && last_end(es, k) == Some(es[m[k] as int].1)
}

/// Where the last edge from each start stands.
pub fn index_last(edges: &Vec<Edge>) -> (r: StringHashMap<usize>)
    ensures
        indexes_last(r@, semantic::edges_of(edges@)),
{
    let ghost es = semantic::edges_of(edges@);
    let mut map: StringHashMap<usize> = StringHashMap::new();
    let mut i: usize = 0;
    assert(es.take(0) =~= Seq::<(Seq<char>, Seq<char>)>::empty());
    while i < edges.len()
        invariant
            i <= edges@.len(),
            es == semantic::edges_of(edges@),
            indexes_last(map@, es.take(i as int)),
        decreases edges@.len() - i,
    {
        proof {
            assert(es.take(i + 1).drop_last() =~= es.take(i as int));
            assert(es.take(i + 1).last() == edges@[i as int]@);
        }
        let ghost was = map@;
        map.insert(edges[i].from.clone(), i);
        proof {
            assert forall|k: Seq<char>| #[trigger] map@.contains_key(k) implies map@[k] < es.take(
                i + 1,
            ).len() && last_end(es.take(i + 1), k) == Some(es.take(i + 1)[map@[k] as int].1) by {
                if k != edges@[i as int].from@ {
                    assert(was.contains_key(k));
                    assert(es.take(i + 1)[was[k] as int] == es.take(i as int)[was[k] as int]);
                }
            }
        }
        i += 1;
    }
    assert(es.take(i as int) =~= es);
    map
}

/// What the last edge from `key` leads to.
pub fn find_last_end<'a>(edges: &'a Vec<Edge>, index: &StringHashMap<usize>, key: &str) -> (r:
    Option<&'a str>)
    requires
        indexes_last(index@, semantic::edges_of(edges@)),
    ensures
        text::optional_ref(r) == last_end(semantic::edges_of(edges@), key@),
{
    match index.get(key) {
        Some(i) => {
            assert(semantic::edges_of(edges@)[*i as int] == edges@[*i as int]@);
            Some(edges[*i].to.as_str())
        },
        None => None,
    }
}

} // verus!
