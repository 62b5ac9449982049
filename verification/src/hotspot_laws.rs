//! Which functions are hotspots, which bodies are the same, and in which order
//! entries stand.

use crate::components;
use crate::graph_metrics;
use crate::inter_complexity;
use crate::inter_complexity::{
    BlockCall, BlockCallView, BodyView, CrateAnalysis, ScoredInterEntry,
};
use crate::issues;
use crate::issues::IssueView;
use crate::order::Ranked;
use crate::order;
use crate::semantic::{RelationEdge, SymbolSummary};
use crate::text;
use vstd::prelude::*;

verus! {

// ---------------------------------------------------------------------------
// Order
// ---------------------------------------------------------------------------

/// Ranked entries hold what was ranked, a higher objective never behind a lower one.
pub proof fn law_a_higher_objective_comes_first(
    es: Seq<ScoredInterEntry>,
    ranked: Seq<ScoredInterEntry>,
    i: int,
    j: int,
)
    requires
        ranked == order::stable_sorted(
            es,
            |a: ScoredInterEntry, b: ScoredInterEntry| ScoredInterEntry::rank_le(a, b),
        ),
        0 <= i < ranked.len(),
        0 <= j < ranked.len(),
        ranked[i].objective > ranked[j].objective,
    ensures
        i < j,
        ranked.to_multiset() == es.to_multiset(),
{
    let le = |a: ScoredInterEntry, b: ScoredInterEntry| ScoredInterEntry::rank_le(a, b);
    order::lemma_stable_sorted(es, le);
    if j < i {
        assert(le(ranked[j], ranked[i]));
    }
}

/// The calls of a function stand in the order of its blocks.
pub proof fn law_callees_stand_in_the_order_of_blocks(
    es: Seq<RelationEdge>,
    symbol: Seq<char>,
    i: int,
    j: int,
)
    requires
        0 <= i < j < inter_complexity::calls_from(es, symbol).len(),
    ensures
        ({
            let all = inter_complexity::calls_from(es, symbol);
            let sorted = order::stable_sorted(
                all,
                |a: BlockCallView, b: BlockCallView| BlockCall::rank_le(a, b),
            );
            &&& sorted.to_multiset() == all.to_multiset()
            &&& sorted.len() == all.len()
            &&& sorted[i].block <= sorted[j].block
        }),
{
    let all = inter_complexity::calls_from(es, symbol);
    let le = |a: BlockCallView, b: BlockCallView| BlockCall::rank_le(a, b);
    order::lemma_stable_sorted(all, le);
    assert(le(order::stable_sorted(all, le)[i], order::stable_sorted(all, le)[j]));
}

/// A call from a block of the function counts among its calls, and nothing else does.
pub proof fn law_a_block_calls_for_its_function(
    es: Seq<RelationEdge>,
    e: RelationEdge,
    symbol: Seq<char>,
)
    ensures
        ({
            let before = inter_complexity::calls_from(es, symbol);
            let after = inter_complexity::calls_from(es.push(e), symbol);
            let c = inter_complexity::block_call(e);
            &&& e.relation@ != "Call"@ ==> c is None
            &&& !text::has_text(e.from@, "::bb"@) ==> c is None
            &&& c matches Some(call) ==> call.callee == e.to@ && text::parsed(
                text::after_last(e.from@, "::bb"@),
            ) == Some(call.block) && text::after_bytes(
                text::before_last(e.from@, "::bb"@),
                5,
            ) == Some(call.symbol)
            &&& after == match c {
                Some(call) => if call.symbol == symbol {
                    before.push(call)
                } else {
                    before
                },
                None => before,
            }
        }),
{
    assert(es.push(e).drop_last() =~= es);
}

// ---------------------------------------------------------------------------
// Hotspots
// ---------------------------------------------------------------------------

/// An entry is a hotspot exactly where its objective is at least that of two tenths,
/// no open issue has its id and none stands at its place. The issue is open, and its
/// priority follows the objective.
pub proof fn law_a_hotspot_is_hot_and_not_known(
    e: ScoredInterEntry,
    name: Seq<char>,
    active: Seq<Seq<char>>,
    open: Seq<Seq<char>>,
)
    ensures
        ({
            let id = "auto_inter_complexity_"@ + name + "_"@ + text::hex(
                text::text_hash(e.entry.symbol@) as nat,
            );
            let place = inter_complexity::entry_location(e);
            let there = exists|i: int|
                0 <= i < open.len() && text::has_text(#[trigger] open[i], place);
            let r = inter_complexity::hotspot(e, name, active, open);
            let twin = e.entry.duplicate_of@.len() > 0;
            &&& r is Some <==> e.objective >= 0x3FC999999999999A && !there && !active.contains(id)
            &&& r matches Some(issue) ==> {
                &&& issue.id == id
                &&& issue.status == "open"@
                &&& issue.location == place
                &&& issue.kind == if twin { "redundancy"@ } else { "performance"@ }
                &&& e.objective >= 0x3FE6666666666666 ==> issue.priority == "high"@
                &&& 0x3FD999999999999A <= e.objective < 0x3FE6666666666666 ==> issue.priority
                    == "medium"@
                &&& e.objective < 0x3FD999999999999A ==> issue.priority == "low"@
            }
        }),
{
}

/// A function that calls itself is reported once, urgently from a branch score of
/// ten, and no other function is.
pub proof fn law_recursion_is_reported_once(
    e: ScoredInterEntry,
    name: Seq<char>,
    known: Seq<Seq<char>>,
)
    ensures
        ({
            let id = "auto_recursive_"@ + name + "_"@ + text::dec(
                text::text_hash(e.entry.symbol@) as nat,
            );
            let r = inter_complexity::recursion(e, name, known);
            &&& r is Some <==> e.entry.is_directly_recursive && !known.contains(id)
            &&& r matches Some(issue) ==> {
                &&& issue.id == id
                &&& issue.status == "open"@
                &&& issue.kind == "performance"@
                &&& issue.location == inter_complexity::entry_location(e)
                &&& issue.priority == if e.entry.branch_half_points >= 20 {
                    "high"@
                } else {
                    "medium"@
                }
            }
        }),
{
}

/// Same bodies are reported where at least two of them are no constants.
pub proof fn law_duplicates_are_reported_from_two(group: Seq<Seq<char>>, known: Seq<Seq<char>>)
    ensures
        ({
            let merged = inter_complexity::actionable(group);
            let r = inter_complexity::duplication(group, known);
            let id = "auto_mir_dup_"@ + text::hex(
                text::text_hash(text::joined(order::sorted_texts(merged), ","@)) as nat,
            );
            &&& r is Some <==> merged.len() >= 2 && !known.contains(id)
            &&& r matches Some(issue) ==> issue.id == id && issue.status == "open"@
                && issue.priority == "medium"@ && issue.kind == "redundancy"@
        }),
{
}

/// A name is that of a constant where its last part has a capital and no small
/// letter; the bodies that can be merged are those of all others.
pub proof fn law_constants_are_not_merged(group: Seq<Seq<char>>, s: Seq<char>)
    ensures
        ({
            let leaf = text::after_last(s, "::"@);
            let capital = exists|i: int|
                0 <= i < leaf.len() && 'A' <= #[trigger] leaf[i] && leaf[i] <= 'Z';
            let small = exists|i: int|
                0 <= i < leaf.len() && 'a' <= #[trigger] leaf[i] && leaf[i] <= 'z';
            inter_complexity::actionable(group).contains(s) <==> group.contains(s) && !(capital
                && !small)
        }),
{
    let leaf = text::after_last(s, "::"@);
    components::lemma_filter_contains(
        group,
        |s: Seq<char>| !inter_complexity::const_like(s),
        s,
    );
    if exists|i: int| 0 <= i < leaf.len() && text::ascii_upper(#[trigger] leaf[i]) {
        let i = choose|i: int| 0 <= i < leaf.len() && text::ascii_upper(#[trigger] leaf[i]);
        assert('A' <= leaf[i] && leaf[i] <= 'Z');
    }
    if exists|i: int| 0 <= i < leaf.len() && 'A' <= #[trigger] leaf[i] && leaf[i] <= 'Z' {
        let i = choose|i: int| 0 <= i < leaf.len() && 'A' <= #[trigger] leaf[i] && leaf[i] <= 'Z';
        assert(text::ascii_upper(leaf[i]));
    }
    if exists|i: int| 0 <= i < leaf.len() && text::ascii_lower(#[trigger] leaf[i]) {
        let i = choose|i: int| 0 <= i < leaf.len() && text::ascii_lower(#[trigger] leaf[i]);
        assert('a' <= leaf[i] && leaf[i] <= 'z');
    }
    if exists|i: int| 0 <= i < leaf.len() && 'a' <= #[trigger] leaf[i] && leaf[i] <= 'z' {
        let i = choose|i: int| 0 <= i < leaf.len() && 'a' <= #[trigger] leaf[i] && leaf[i] <= 'z';
        assert(text::ascii_lower(leaf[i]));
    }
}

/// Hotspots come from the first entries alone, as many as are asked for; what calls
/// itself and what occurs twice comes from all of them.
pub proof fn law_hotspots_come_from_the_top(a: CrateAnalysis, fs: Seq<IssueView>, top: usize)
    ensures
        ({
            let es = a.entries@;
            let n = if es.len() <= top { es.len() as int } else { top as int };
            let gs = inter_complexity::lists(a.duplicate_groups@);
            let open = fs.filter(|f: IssueView| issues::open_issue(f));
            let hot = inter_complexity::hotspots(
                es,
                a.name@,
                open.map_values(|f: IssueView| f.id),
                open.map_values(|f: IssueView| f.location),
                n,
            );
            let looped = inter_complexity::recursions(
                es,
                a.name@,
                fs.map_values(|f: IssueView| f.id),
                es.len() as int,
            );
            let twice = inter_complexity::duplications(
                gs,
                fs.map_values(|f: IssueView| f.id),
                gs.len() as int,
            );
            &&& inter_complexity::found_in(a, fs, top) == hot + looped + twice
            &&& hot.len() <= top
            &&& looped.len() <= es.len()
            &&& twice.len() <= gs.len()
        }),
{
    let es = a.entries@;
    let n = if es.len() <= top { es.len() as int } else { top as int };
    let gs = inter_complexity::lists(a.duplicate_groups@);
    lemma_no_more_hotspots(
        es,
        a.name@,
        inter_complexity::open_ids(fs),
        inter_complexity::open_places(fs),
        n,
    );
    lemma_no_more_recursions(es, a.name@, graph_metrics::ids(fs), es.len() as int);
    lemma_no_more_duplications(gs, graph_metrics::ids(fs), gs.len() as int);
}

proof fn lemma_no_more_hotspots(
    es: Seq<ScoredInterEntry>,
    name: Seq<char>,
    active: Seq<Seq<char>>,
    open: Seq<Seq<char>>,
    n: int,
)
    requires
        n >= 0,
    ensures
        inter_complexity::hotspots(es, name, active, open, n).len() <= n,
    decreases n,
{
    if n > 0 {
        lemma_no_more_hotspots(es, name, active, open, n - 1);
    }
}

proof fn lemma_no_more_recursions(
    es: Seq<ScoredInterEntry>,
    name: Seq<char>,
    known: Seq<Seq<char>>,
    n: int,
)
    requires
        n >= 0,
    ensures
        inter_complexity::recursions(es, name, known, n).len() <= n,
    decreases n,
{
    if n > 0 {
        lemma_no_more_recursions(es, name, known, n - 1);
    }
}

proof fn lemma_no_more_duplications(gs: Seq<Seq<Seq<char>>>, known: Seq<Seq<char>>, n: int)
    requires
        n >= 0,
    ensures
        inter_complexity::duplications(gs, known, n).len() <= n,
    decreases n,
{
    if n > 0 {
        lemma_no_more_duplications(gs, known, n - 1);
    }
}

/// Each hotspot among the first entries is reported.
pub proof fn law_each_hotspot_is_reported(
    es: Seq<ScoredInterEntry>,
    name: Seq<char>,
    active: Seq<Seq<char>>,
    open: Seq<Seq<char>>,
    n: int,
    i: int,
)
    requires
        0 <= i < n,
        inter_complexity::hotspot(es[i], name, active, open) is Some,
    ensures
        exists|k: int|
            0 <= k < inter_complexity::hotspots(es, name, active, open, n).len() && Some(
                #[trigger] inter_complexity::hotspots(es, name, active, open, n)[k],
            ) == inter_complexity::hotspot(es[i], name, active, open),
    decreases n,
{
    let all = inter_complexity::hotspots(es, name, active, open, n);
    let was = inter_complexity::hotspots(es, name, active, open, n - 1);
    if i < n - 1 {
        law_each_hotspot_is_reported(es, name, active, open, n - 1, i);
        let k = choose|k: int|
            0 <= k < was.len() && Some(#[trigger] was[k]) == inter_complexity::hotspot(
                es[i],
                name,
                active,
                open,
            );
        assert(all[k] == was[k]);
    } else {
        assert(Some(all[was.len() as int]) == inter_complexity::hotspot(es[i], name, active, open));
    }
}

// ---------------------------------------------------------------------------
// Bodies
// ---------------------------------------------------------------------------

/// The bodies at two places have the same fingerprint, signature and callees.
pub open spec fn alike(bs: Seq<BodyView>, i: int, j: int) -> bool {
    bs[i].fingerprint == bs[j].fingerprint && bs[i].signature == bs[j].signature && bs[i].callees
        == bs[j].callees
}

proof fn lemma_sharing(bs: Seq<BodyView>, b: BodyView, s: Seq<char>)
    ensures
        inter_complexity::sharing(bs, b).contains(s) <==> exists|k: int|
            0 <= k < bs.len() && (#[trigger] bs[k]).symbol == s && inter_complexity::same_body(
                bs[k],
                b,
            ),
{
    let p = |x: BodyView| inter_complexity::same_body(x, b);
    let kept = bs.filter(p);
    let all = inter_complexity::sharing(bs, b);
    if all.contains(s) {
        let i = choose|i: int| 0 <= i < all.len() && all[i] == s;
        components::lemma_filter_contains(bs, p, kept[i]);
        assert(kept.contains(kept[i]));
        let k = choose|k: int| 0 <= k < bs.len() && bs[k] == kept[i];
        assert(bs[k].symbol == s && p(bs[k]));
    }
    if exists|k: int|
        0 <= k < bs.len() && (#[trigger] bs[k]).symbol == s && inter_complexity::same_body(
            bs[k],
            b,
        ) {
        let k = choose|k: int|
            0 <= k < bs.len() && (#[trigger] bs[k]).symbol == s && inter_complexity::same_body(
                bs[k],
                b,
            );
        components::lemma_filter_contains(bs, p, bs[k]);
        assert(bs.contains(bs[k]));
        let i = choose|i: int| 0 <= i < kept.len() && kept[i] == bs[k];
        assert(all[i] == s);
    }
}

/// Every group of bodies holds at least two, and the symbols of a group have bodies
/// that are alike.
pub proof fn law_bodies_of_a_group_are_alike(bs: Seq<BodyView>, n: int, k: int)
    requires
        0 <= n <= bs.len(),
        0 <= k < inter_complexity::body_groups(bs, n).len(),
    ensures
        ({
            let group = inter_complexity::body_groups(bs, n)[k];
            &&& group.len() >= 2
            &&& exists|i: int| #[trigger] holds_alike(bs, group, i)
        }),
    decreases n,
{
    let was = inter_complexity::body_groups(bs, n - 1);
    let all = inter_complexity::body_groups(bs, n);
    if k < was.len() {
        law_bodies_of_a_group_are_alike(bs, n - 1, k);
        assert(all[k] == was[k]);
    } else {
        let group = inter_complexity::sharing(bs, bs[n - 1]);
        assert(all[k] == group);
        assert forall|s: Seq<char>| #[trigger] group.contains(s) <==> exists|j: int|
            0 <= j < bs.len() && (#[trigger] bs[j]).symbol == s && alike(bs, j, n - 1) by {
            lemma_sharing(bs, bs[n - 1], s);
            if group.contains(s) {
                let j = choose|j: int|
                    0 <= j < bs.len() && (#[trigger] bs[j]).symbol == s
                        && inter_complexity::same_body(bs[j], bs[n - 1]);
                assert(alike(bs, j, n - 1));
            }
            if exists|j: int| 0 <= j < bs.len() && (#[trigger] bs[j]).symbol == s && alike(
                bs,
                j,
                n - 1,
            ) {
                let j = choose|j: int|
                    0 <= j < bs.len() && (#[trigger] bs[j]).symbol == s && alike(bs, j, n - 1);
                assert(inter_complexity::same_body(bs[j], bs[n - 1]));
            }
        }
        assert(holds_alike(bs, group, n - 1));
    }
}

/// The group holds the symbols whose bodies are like that at place `i`.
pub open spec fn holds_alike(bs: Seq<BodyView>, group: Seq<Seq<char>>, i: int) -> bool {
    &&& 0 <= i < bs.len()
    &&& forall|s: Seq<char>| #[trigger]
        group.contains(s) <==> exists|j: int|
            0 <= j < bs.len() && (#[trigger] bs[j]).symbol == s && alike(bs, j, i)
}

/// A summary has a body where it has a fingerprint.
pub proof fn law_a_fingerprint_makes_a_body(
    ss: Seq<SymbolSummary>,
    es: Seq<RelationEdge>,
    s: SymbolSummary,
)
    ensures
        ({
            let before = inter_complexity::bodies(ss, es);
            let after = inter_complexity::bodies(ss.push(s), es);
            match s.mir_fingerprint {
                Some(fp) => {
                    &&& after.len() == before.len() + 1
                    &&& after.drop_last() == before
                    &&& after.last().fingerprint == fp@
                    &&& after.last().symbol == s.symbol@
                    &&& after.last().callees == inter_complexity::callee_text(es, s.symbol@)
                    &&& s.signature matches Some(t) ==> after.last().signature == t@
                },
                None => after == before,
            }
        }),
{
    assert(ss.push(s).drop_last() =~= ss);
    match s.mir_fingerprint {
        Some(fp) => {
            assert(inter_complexity::bodies(ss.push(s), es).drop_last()
                =~= inter_complexity::bodies(ss, es));
        },
        None => {},
    }
}

proof fn lemma_last_group(gs: Seq<Seq<Seq<char>>>, symbol: Seq<char>)
    requires
        gs.len() > 0,
        gs.last().contains(symbol),
    ensures
        forall|s: Seq<char>| #[trigger]
            inter_complexity::siblings(gs, symbol).contains(s) ==> gs.last().contains(s) && s
                != symbol,
{
    broadcast use vstd::seq_lib::group_filter_ensures;

    let r = inter_complexity::siblings(gs, symbol);
    assert forall|s: Seq<char>| #[trigger] r.contains(s) implies gs.last().contains(s) && s
        != symbol by {
        broadcast use Seq::lemma_filter_contains_rev;

        let i = choose|i: int| 0 <= i < r.len() && r[i] == s;
        assert(r[i] != symbol);
    }
}

/// A symbol is no sibling of its own; its siblings share a group with it.
pub proof fn law_siblings_are_others(gs: Seq<Seq<Seq<char>>>, symbol: Seq<char>, s: Seq<char>)
    ensures
        !inter_complexity::siblings(gs, symbol).contains(symbol),
        inter_complexity::siblings(gs, symbol).contains(s) ==> exists|k: int|
            0 <= k < gs.len() && (#[trigger] gs[k]).contains(symbol) && gs[k].contains(s),
        (forall|k: int| 0 <= k < gs.len() ==> !(#[trigger] gs[k]).contains(symbol))
            ==> inter_complexity::siblings(gs, symbol).len() == 0,
    decreases gs.len(),
{
    if gs.len() > 0 {
        let front = gs.drop_last();
        law_siblings_are_others(front, symbol, s);
        assert(gs[gs.len() - 1] == gs.last());
        if gs.last().contains(symbol) {
            lemma_last_group(gs, symbol);
            if inter_complexity::siblings(gs, symbol).contains(s) {
                assert(gs[gs.len() - 1].contains(symbol) && gs[gs.len() - 1].contains(s));
            }
        } else {
            if inter_complexity::siblings(front, symbol).contains(s) {
                let k = choose|k: int|
                    0 <= k < front.len() && (#[trigger] front[k]).contains(symbol)
                        && front[k].contains(s);
                assert(gs[k] == front[k]);
            }
            if forall|k: int| 0 <= k < gs.len() ==> !(#[trigger] gs[k]).contains(symbol) {
                assert forall|k: int| 0 <= k < front.len() implies !(#[trigger] front[k]).contains(
                    symbol,
                ) by {
                    assert(gs[k] == front[k]);
                }
            }
        }
    }
}

// ---------------------------------------------------------------------------
// Counts
// ---------------------------------------------------------------------------

/// A call counts for what it calls, and its points for what makes it, where they are
/// known.
pub proof fn law_a_call_counts_at_both_ends(
    es: Seq<(Seq<char>, Seq<char>)>,
    ss: Seq<SymbolSummary>,
    symbol: Seq<char>,
    e: (Seq<char>, Seq<char>),
)
    ensures
        ({
            let was = inter_complexity::called_points(es, ss, symbol);
            let now = inter_complexity::called_points(es.push(e), ss, symbol);
            let known = inter_complexity::known_points(ss, e.1);
            &&& inter_complexity::callers(es.push(e), symbol) == inter_complexity::callers(
                es,
                symbol,
            ) + if e.1 == symbol { 1nat } else { 0nat }
            &&& e.0 != symbol ==> now == was
            &&& known is None ==> now == was
            &&& e.0 == symbol ==> (known matches Some(p) ==> now == (was.0 + p, was.1 + 1))
            &&& inter_complexity::callers(Seq::empty(), symbol) == 0
            &&& inter_complexity::called_points(Seq::empty(), ss, symbol) == (0nat, 0nat)
        }),
{
    assert(es.push(e).drop_last() =~= es);
}

/// The points of a symbol are those that its last summary knows: its branch score,
/// or two for each block where it has none.
pub proof fn law_points_are_the_last_known(
    ss: Seq<SymbolSummary>,
    s: SymbolSummary,
    symbol: Seq<char>,
)
    ensures
        ({
            let before = inter_complexity::known_points(ss, symbol);
            let after = inter_complexity::known_points(ss.push(s), symbol);
            &&& s.symbol@ != symbol ==> after == before
            &&& s.symbol@ == symbol ==> (match s.branch_half_points {
                Some(h) => after == Some(h as nat),
                None => match s.mir_blocks {
                    Some(b) => after == Some(2 * (b as nat)),
                    None => after == before,
                },
            })
        }),
{
    assert(ss.push(s).drop_last() =~= ss);
}

/// A summary has an entry where its complexity is known and it has a branch score or
/// a block.
pub proof fn law_entries_have_some_complexity(ss: Seq<SymbolSummary>, s: SymbolSummary)
    ensures
        ({
            let blocks = match s.mir_blocks {
                Some(b) => b as int,
                None => 0,
            };
            inter_complexity::has_entry(ss, s) <==> match inter_complexity::known_points(
                ss,
                s.symbol@,
            ) {
                Some(p) => p > 0 || blocks > 0,
                None => false,
            }
        }),
{
}

} // verus!
