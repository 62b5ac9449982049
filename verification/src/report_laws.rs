//! What the reports on the complexity of a graph count, and in which order they
//! list.

use crate::complexity;
use crate::complexity::{CrateLoad, GraphMetrics, NamedMetrics, ScoredEntry};
use crate::components;
use crate::detector_laws;
use crate::effect_laws;
use crate::groups;
use crate::order::Ranked;
use crate::order;
use crate::semantic;
use crate::semantic::{Edge, SemanticGraph, SymbolSummary};
use crate::text;
use vstd::prelude::*;

verus! {

/// Entries stand by score, the highest first; those of one score by their branch
/// score, the highest first; and those of one branch score by their symbols.
pub proof fn law_entries_stand_by_score(s: Seq<ScoredEntry>, i: int, j: int)
    requires
        0 <= i < j < s.len(),
    ensures
        ({
            let r = complexity::ranked(s);
            &&& r.len() == s.len()
            &&& r.to_multiset() == s.to_multiset()
            &&& r[i].score >= r[j].score
            &&& r[i].score == r[j].score ==> r[i].entry.branch_half_points
                >= r[j].entry.branch_half_points
            &&& r[i].score == r[j].score && r[i].entry.branch_half_points
                == r[j].entry.branch_half_points ==> text::text_le(
                r[i].entry.symbol@,
                r[j].entry.symbol@,
            )
        }),
{
    let le = |a: ScoredEntry, b: ScoredEntry| ScoredEntry::rank_le(a, b);
    assert forall|a: ScoredEntry, b: ScoredEntry| #[trigger] le(a, b) || le(b, a) by {
        ScoredEntry::rank_total(a, b);
    }
    assert forall|a: ScoredEntry, b: ScoredEntry, c: ScoredEntry| #[trigger]
        le(a, b) && #[trigger] le(b, c) implies le(a, c) by {
        ScoredEntry::rank_transitive(a, b, c);
    }
    order::lemma_stable_sorted(s, le);
    assert(le(complexity::ranked(s)[i], complexity::ranked(s)[j]));
}

/// A report lists the symbols of which a block or a statement is known, and no
/// others.
pub proof fn law_symbols_with_a_body_are_listed(ss: Seq<SymbolSummary>, s: SymbolSummary)
    ensures
        complexity::listed(ss).contains(s) <==> ss.contains(s) && ((s.mir_blocks matches Some(b)
            && b > 0) || (s.mir_stmts matches Some(n) && n > 0)),
{
    components::lemma_filter_contains(ss, |s: SymbolSummary| complexity::has_body(s), s);
}

/// The complexity of a symbol is its branch score, and two half points for each
/// block where that is not known.
pub proof fn law_complexity_is_the_branch_score(s: SymbolSummary)
    ensures
        s.branch_half_points matches Some(h) ==> complexity::points_of(s) == h,
        s.branch_half_points is None ==> (s.mir_blocks matches Some(b) ==> complexity::points_of(s)
            == 2 * b),
        s.branch_half_points is None && s.mir_blocks is None ==> complexity::points_of(s) == 0,
{
}

/// A call adds the points of what is called to its caller, where they are known.
pub proof fn law_callees_add_up(
    es: Seq<(Seq<char>, Seq<char>)>,
    ss: Seq<SymbolSummary>,
    symbol: Seq<char>,
    e: (Seq<char>, Seq<char>),
)
    ensures
        ({
            let was = complexity::callee_points(es, ss, symbol);
            let now = complexity::callee_points(es.push(e), ss, symbol);
            &&& complexity::callee_points(Seq::empty(), ss, symbol) == (0nat, 0nat)
            &&& e.0 != symbol ==> now == was
            &&& semantic::last_of(ss, e.1) is None ==> now == was
            &&& e.0 == symbol ==> (semantic::last_of(ss, e.1) matches Some(i) ==> now == (
                was.0 + complexity::points_of(ss[i]),
                was.1 + 1,
            ))
        }),
{
    assert(es.push(e).drop_last() =~= es);
}

/// A symbol occurs in a chain wherever it stands, and wraps wherever it stands but
/// at the end.
pub proof fn law_chains_hold_their_symbols(
    chains: Seq<Vec<String>>,
    chain: Vec<String>,
    x: Seq<char>,
)
    ensures
        complexity::memberships(chains.push(chain), x) == complexity::memberships(chains, x)
            + complexity::occurrences(text::texts(chain@), x),
        chain@.len() > 0 ==> complexity::memberships(chains.push(chain), x)
            - complexity::wrappers(chains.push(chain), x) == complexity::memberships(chains, x)
            - complexity::wrappers(chains, x) + if chain@.last()@ == x { 1int } else { 0int },
        chain@.len() == 0 ==> complexity::wrappers(chains.push(chain), x)
            == complexity::wrappers(chains, x),
{
    assert(chains.push(chain).drop_last() =~= chains);
    let links = text::texts(chain@);
    if links.len() > 0 {
        assert(links.last() == chain@.last()@);
    }
}

/// A text occurs once more where it is added, and no other does.
pub proof fn law_occurrences_are_counted(s: Seq<Seq<char>>, t: Seq<char>, x: Seq<char>)
    ensures
        complexity::occurrences(Seq::empty(), x) == 0,
        complexity::occurrences(s.push(t), x) == complexity::occurrences(s, x) + if t == x {
            1nat
        } else {
            0nat
        },
{
    assert(s.push(t).drop_last() =~= s);
}

// ---------------------------------------------------------------------------
// Dispersion
// ---------------------------------------------------------------------------

/// Two different symbols have edges to it.
pub open spec fn joined_twice(v: Seq<Edge>, to: Seq<char>) -> bool {
    !text::blank(to) && exists|a: Seq<char>, b: Seq<char>|
        a != b && #[trigger] detector_laws::joins(v, a, to) && #[trigger] detector_laws::joins(
            v,
            b,
            to,
        )
}

proof fn lemma_back(v: Seq<Edge>, from: Seq<char>, to: Seq<char>)
    ensures
        groups::flipped(groups::with_ends(semantic::edges_of(v))).contains((to, from))
            <==> !text::blank(to) && detector_laws::joins(v, from, to),
{
    let es = semantic::edges_of(v);
    let named = groups::with_ends(es);
    let back = groups::flipped(named);
    detector_laws::lemma_joins(v, from, to);
    components::lemma_filter_contains(
        es,
        |e: (Seq<char>, Seq<char>)| !text::blank(e.1),
        (from, to),
    );
    if back.contains((to, from)) {
        let i = choose|i: int| 0 <= i < back.len() && back[i] == (to, from);
        assert(named[i] == (from, to));
    }
    if named.contains((from, to)) {
        let i = choose|i: int| 0 <= i < named.len() && named[i] == (from, to);
        assert(back[i] == (to, from));
    }
}

proof fn lemma_wide(es: Seq<(Seq<char>, Seq<char>)>, p: spec_fn(Seq<char>) -> bool, n: nat)
    requires
        forall|k: Seq<char>| #[trigger] p(k) <==> exists|a: Seq<char>, b: Seq<char>|
            a != b && #[trigger] es.contains((k, a)) && #[trigger] es.contains((k, b)),
    ensures
        groups::wide(groups::grouped(es), 2).len() >= n <==> effect_laws::at_least(p, n),
{
    let keys = groups::sorted_set(groups::firsts(es));
    let f = |k: Seq<char>| (k, groups::members(es, k));
    let q = |g: (Seq<char>, Seq<Seq<char>>)| g.1.len() >= 2;
    let w = |k: Seq<char>| groups::members(es, k).len() >= 2;
    groups::lemma_sorted_set(groups::firsts(es));
    effect_laws::lemma_kept_groups(keys, f, w, q);
    effect_laws::lemma_filtered_once(keys, w);
    let least: nat = 2;
    let q2 = |g: (Seq<char>, Seq<Seq<char>>)| g.1.len() >= least;
    assert(q =~= q2);
    assert(groups::wide(groups::grouped(es), 2).len() == keys.filter(w).len());
    assert forall|k: Seq<char>| #[trigger] keys.filter(w).contains(k) <==> p(k) by {
        components::lemma_filter_contains(keys, w, k);
        let ms = groups::members(es, k);
        groups::lemma_sorted_set(groups::seconds_of(es, k));
        if keys.filter(w).contains(k) {
            groups::law_groups_hold_the_edges(es, k, ms[0]);
            groups::law_groups_hold_the_edges(es, k, ms[1]);
            assert(ms.contains(ms[0]) && ms.contains(ms[1]));
            assert(es.contains((k, ms[0])) && es.contains((k, ms[1])));
        }
        if p(k) {
            let (a, b) = choose|a: Seq<char>, b: Seq<char>|
                a != b && #[trigger] es.contains((k, a)) && #[trigger] es.contains((k, b));
            groups::law_groups_hold_the_edges(es, k, a);
            groups::law_groups_hold_the_edges(es, k, b);
            let i = choose|i: int| 0 <= i < ms.len() && ms[i] == a;
            let j = choose|j: int| 0 <= j < ms.len() && ms[j] == b;
            assert(i != j);
        }
    }
    effect_laws::lemma_at_least(keys.filter(w), p, n);
}

proof fn lemma_joined_twice(v: Seq<Edge>, n: nat)
    ensures
        groups::wide(
            groups::grouped(groups::flipped(groups::with_ends(semantic::edges_of(v)))),
            2,
        ).len() >= n <==> effect_laws::at_least(|to: Seq<char>| joined_twice(v, to), n),
{
    let es = groups::flipped(groups::with_ends(semantic::edges_of(v)));
    let p = |to: Seq<char>| joined_twice(v, to);
    assert forall|k: Seq<char>| #[trigger] p(k) <==> exists|a: Seq<char>, b: Seq<char>|
        a != b && #[trigger] es.contains((k, a)) && #[trigger] es.contains((k, b)) by {
        if p(k) {
            let (a, b) = choose|a: Seq<char>, b: Seq<char>|
                a != b && #[trigger] detector_laws::joins(v, a, k)
                    && #[trigger] detector_laws::joins(v, b, k);
            lemma_back(v, a, k);
            lemma_back(v, b, k);
            assert(es.contains((k, a)) && es.contains((k, b)));
        }
        if exists|a: Seq<char>, b: Seq<char>|
            a != b && #[trigger] es.contains((k, a)) && #[trigger] es.contains((k, b)) {
            let (a, b) = choose|a: Seq<char>, b: Seq<char>|
                a != b && #[trigger] es.contains((k, a)) && #[trigger] es.contains((k, b));
            lemma_back(v, a, k);
            lemma_back(v, b, k);
            assert(detector_laws::joins(v, a, k) && detector_laws::joins(v, b, k));
        }
    }
    lemma_wide(es, p, n);
}

/// At least `n` artifacts are dispersed exactly where at least `n` artifacts are
/// each written by two different symbols; and so it is with states.
pub proof fn law_dispersion_counts_what_two_symbols_share(g: SemanticGraph, n: nat)
    ensures
        complexity::artifact_writer_dispersion(g) >= n <==> effect_laws::at_least(
            |to: Seq<char>| joined_twice(g.artifact_writes@, to),
            n,
        ),
        complexity::state_transition_dispersion(g) >= n <==> effect_laws::at_least(
            |to: Seq<char>| joined_twice(g.state_transitions@, to),
            n,
        ),
{
    lemma_joined_twice(g.artifact_writes@, n);
    lemma_joined_twice(g.state_transitions@, n);
}

/// The symbol shapes an error that has a name.
pub open spec fn shapes(v: Seq<Edge>, symbol: Seq<char>) -> bool {
    exists|i: int| 0 <= i < v.len() && (#[trigger] v[i]).from@ == symbol && !text::blank(v[i].to@)
}

/// Errors are shaped in too many places where at least four different symbols
/// shape them.
pub proof fn law_four_symbols_disperse_errors(g: SemanticGraph)
    ensures
        complexity::error_shaping_dispersion(g) == if effect_laws::at_least(
            |s: Seq<char>| shapes(g.error_shapes@, s),
            4,
        ) {
            1nat
        } else {
            0nat
        },
{
    let v = g.error_shapes@;
    let es = semantic::edges_of(v);
    let named = groups::with_ends(es);
    let all = groups::firsts(named);
    let set = groups::sorted_set(all);
    let p = |s: Seq<char>| shapes(v, s);
    let keep = |e: (Seq<char>, Seq<char>)| !text::blank(e.1);
    groups::lemma_sorted_set(all);
    assert forall|s: Seq<char>| #[trigger] set.contains(s) <==> p(s) by {
        if set.contains(s) {
            let k = choose|k: int| 0 <= k < all.len() && all[k] == s;
            components::lemma_filter_contains(es, keep, named[k]);
            assert(named.contains(named[k]));
            let i = choose|i: int| 0 <= i < es.len() && es[i] == named[k];
            assert(v[i].from@ == s && !text::blank(v[i].to@));
        }
        if p(s) {
            let i = choose|i: int|
                0 <= i < v.len() && (#[trigger] v[i]).from@ == s && !text::blank(v[i].to@);
            components::lemma_filter_contains(es, keep, es[i]);
            assert(es.contains(es[i]));
            let k = choose|k: int| 0 <= k < named.len() && named[k] == es[i];
            assert(all[k] == s);
        }
    }
    effect_laws::lemma_at_least(set, p, 4);
}

/// One more source adds the targets into which two different symbols translate it.
pub proof fn law_fanout_counts_translations(
    reads: Seq<(Seq<char>, Seq<char>)>,
    writes: Seq<(Seq<char>, Seq<char>)>,
    from: Seq<Seq<char>>,
    source: Seq<char>,
    n: nat,
)
    ensures
        complexity::fanout_over(reads, writes, Seq::empty()) == 0,
        complexity::fanout_over(reads, writes, from.push(source)) >= complexity::fanout_over(
            reads,
            writes,
            from,
        ) + n <==> effect_laws::at_least(
            |target: Seq<char>| translated_twice(reads, writes, source, target),
            n,
        ),
{
    assert(from.push(source).drop_last() =~= from);
    let es = complexity::derived_from(reads, writes, source);
    let p = |target: Seq<char>| translated_twice(reads, writes, source, target);
    assert forall|k: Seq<char>| #[trigger] p(k) <==> exists|a: Seq<char>, b: Seq<char>|
        a != b && #[trigger] es.contains((k, a)) && #[trigger] es.contains((k, b)) by {
        if p(k) {
            let (a, b) = choose|a: Seq<char>, b: Seq<char>|
                a != b && #[trigger] translates(reads, writes, source, k, a)
                    && #[trigger] translates(reads, writes, source, k, b);
            effect_laws::law_translators_read_and_write(reads, writes, source, k, a);
            effect_laws::law_translators_read_and_write(reads, writes, source, k, b);
            assert(es.contains((k, a)) && es.contains((k, b)));
        }
        if exists|a: Seq<char>, b: Seq<char>|
            a != b && #[trigger] es.contains((k, a)) && #[trigger] es.contains((k, b)) {
            let (a, b) = choose|a: Seq<char>, b: Seq<char>|
                a != b && #[trigger] es.contains((k, a)) && #[trigger] es.contains((k, b));
            effect_laws::law_translators_read_and_write(reads, writes, source, k, a);
            effect_laws::law_translators_read_and_write(reads, writes, source, k, b);
            assert(translates(reads, writes, source, k, a) && translates(
                reads,
                writes,
                source,
                k,
                b,
            ));
        }
    }
    lemma_wide(es, p, n);
}

/// The symbol reads the source and writes another target.
pub open spec fn translates(
    reads: Seq<(Seq<char>, Seq<char>)>,
    writes: Seq<(Seq<char>, Seq<char>)>,
    source: Seq<char>,
    target: Seq<char>,
    s: Seq<char>,
) -> bool {
    target != source && reads.contains((s, source)) && writes.contains((s, target))
}

/// Two different symbols translate the source into the target.
pub open spec fn translated_twice(
    reads: Seq<(Seq<char>, Seq<char>)>,
    writes: Seq<(Seq<char>, Seq<char>)>,
    source: Seq<char>,
    target: Seq<char>,
) -> bool {
    exists|a: Seq<char>, b: Seq<char>|
        a != b && #[trigger] translates(reads, writes, source, target, a)
            && #[trigger] translates(reads, writes, source, target, b)
}

// ---------------------------------------------------------------------------
// Captures
// ---------------------------------------------------------------------------

/// A metric improved where it fell, and its change is what it rose by.
pub proof fn law_less_is_better(before: u64, after: u64)
    ensures
        ({
            let d = complexity::delta_of(before, after);
            &&& d.before == before && d.after == after
            &&& d.delta == after - before
            &&& d.improved <==> after < before
        }),
{
}

/// A crate that was loaded adds its counts to the totals; one that was not adds
/// nothing.
pub proof fn law_loaded_crates_add_up(
    ls: Seq<CrateLoad>,
    l: CrateLoad,
    count: spec_fn(GraphMetrics) -> u64,
)
    ensures
        complexity::total_over(Seq::empty(), count) == 0,
        complexity::total_over(ls.push(l), count) == complexity::total_over(ls, count) + match l {
            CrateLoad::Loaded { graph, entropy, .. } => count(
                complexity::metrics_of(graph, entropy),
            ) as nat,
            CrateLoad::Failed { .. } => 0nat,
        },
{
    assert(ls.push(l).drop_last() =~= ls);
}

/// The last metrics under a name count; without any, each count is nothing.
pub proof fn law_the_last_metrics_count(v: Seq<NamedMetrics>, m: NamedMetrics, name: Seq<char>)
    ensures
        m.name@ == name ==> complexity::last_metrics(v.push(m), name) == m.metrics,
        m.name@ != name ==> complexity::last_metrics(v.push(m), name) == complexity::last_metrics(
            v,
            name,
        ),
        complexity::last_metrics(Seq::empty(), name).pathway_count == 0,
        complexity::last_metrics(Seq::empty(), name).redundant_path_count == 0,
        complexity::last_metrics(Seq::empty(), name).representation_fanout_count == 0,
        complexity::last_metrics(Seq::empty(), name).entropy == 0,
{
    assert(v.push(m).drop_last() =~= v);
}

/// The metrics of a graph are its own counts.
pub proof fn law_metrics_are_the_counts_of_a_graph(g: SemanticGraph, entropy: u64)
    ensures
        ({
            let m = complexity::metrics_of(g, entropy);
            &&& m.entropy == entropy
            &&& m.pathway_count == g.alpha_pathways@.len() as u64
            &&& m.redundant_path_count == g.redundant_path_owners@.len() as u64
            &&& m.artifact_writer_dispersion_count == complexity::artifact_writer_dispersion(g)
                as u64
            &&& m.error_shaping_dispersion_count == complexity::error_shaping_dispersion(g) as u64
            &&& m.state_transition_dispersion_count == complexity::state_transition_dispersion(g)
                as u64
            &&& complexity::representation_fanout(g) <= u64::MAX ==> m.representation_fanout_count
                == complexity::representation_fanout(g)
        }),
{
}

} // verus!
