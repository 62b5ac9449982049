//! Which tickets a crate gets, and which findings are resolved.

use crate::issues;
use crate::issues::IssueView;
use crate::order;
use crate::order::Ranked;
use crate::semantic::SymbolSummary;
use crate::text;
use crate::tickets;
use crate::tickets::{SizedSymbol, TicketArgs, TicketKind};
use crate::tool_laws;
use vstd::prelude::*;

verus! {

/// The function calls for a ticket: it has at least the blocks, or the statements,
/// that are asked for.
pub open spec fn calls_for(kind: TicketKind, s: SymbolSummary, a: TicketArgs) -> bool {
    s.kind@ == "fn"@ && match kind {
        TicketKind::Branch => tool_laws::counted_size(kind, s) >= a.min_blocks,
        TicketKind::Refactor => tool_laws::counted_size(kind, s) >= a.min_stmts,
    }
}

proof fn lemma_as_many(kind: TicketKind, ss: Seq<SymbolSummary>, min: usize)
    ensures
        tickets::candidates(kind, ss, min).len() == tickets::large(kind, ss, min, ss.len()).len(),
{
    broadcast use vstd::seq_lib::group_to_multiset_ensures;

    let all = tickets::large(kind, ss, min, ss.len());
    let le = |a: SizedSymbol, b: SizedSymbol| <SizedSymbol as Ranked>::rank_le(a, b);
    order::lemma_stable_sorted(all, le);
}

/// Each ticket of a crate is for a function that calls for one of its kind, and no
/// kind has more tickets than the limit.
pub proof fn law_a_ticket_is_called_for(
    name: Seq<char>,
    ss: Seq<SymbolSummary>,
    a: TicketArgs,
    i: int,
)
    requires
        ss.len() <= usize::MAX,
        0 <= i < tickets::crate_tickets(name, ss, a).len(),
    ensures
        tickets::crate_tickets(name, ss, a).len() <= 2 * a.limit,
        exists|kind: TicketKind, k: int|
            0 <= k < ss.len() && calls_for(kind, ss[k], a) && tickets::crate_tickets(name, ss, a)[i]
                == #[trigger] tickets::ticket(kind, name, ss[k]),
{
    let b = tickets::tickets_of(TicketKind::Branch, name, ss, a.min_blocks, a.limit);
    let (kind, min, at) = if i < b.len() {
        (TicketKind::Branch, a.min_blocks, i)
    } else {
        (TicketKind::Refactor, a.min_stmts, i - b.len())
    };
    let found = tickets::candidates(kind, ss, min);
    let x = found[at];
    assert(found.contains(x));
    tool_laws::law_candidates_are_large_functions(kind, ss, min, x);
    let k = x.index as int;
    assert(tickets::crate_tickets(name, ss, a)[i] == tickets::ticket(kind, name, ss[k]));
}

/// A function that calls for a ticket gets one, where the limit leaves room for all.
pub proof fn law_what_calls_for_a_ticket_gets_one(
    name: Seq<char>,
    ss: Seq<SymbolSummary>,
    a: TicketArgs,
    kind: TicketKind,
    k: int,
)
    requires
        ss.len() <= a.limit,
        0 <= k < ss.len(),
        calls_for(kind, ss[k], a),
    ensures
        tickets::crate_tickets(name, ss, a).contains(tickets::ticket(kind, name, ss[k])),
{
    let b = tickets::tickets_of(TicketKind::Branch, name, ss, a.min_blocks, a.limit);
    let r = tickets::tickets_of(TicketKind::Refactor, name, ss, a.min_stmts, a.limit);
    let min = match kind {
        TicketKind::Branch => a.min_blocks,
        TicketKind::Refactor => a.min_stmts,
    };
    let x = SizedSymbol { size: tickets::size_of(kind, ss[k]), index: k as usize };
    tool_laws::law_candidates_are_large_functions(kind, ss, min, x);
    lemma_as_many(kind, ss, min);
    lemma_at_most(kind, ss, min, ss.len());
    let found = tickets::candidates(kind, ss, min);
    let at = choose|at: int| 0 <= at < found.len() && found[at] == x;
    let all = tickets::crate_tickets(name, ss, a);
    match kind {
        TicketKind::Branch => {
            assert(all[at] == tickets::ticket(kind, name, ss[k]));
        },
        TicketKind::Refactor => {
            assert(all[b.len() + at] == r[at]);
            assert(all[b.len() + at] == tickets::ticket(kind, name, ss[k]));
        },
    }
}

proof fn lemma_at_most(kind: TicketKind, ss: Seq<SymbolSummary>, min: usize, n: nat)
    requires
        n <= ss.len(),
    ensures
        tickets::large(kind, ss, min, n).len() <= n,
    decreases n,
{
    if n > 0 {
        lemma_at_most(kind, ss, min, (n - 1) as nat);
    }
}

/// What a family no longer reports is resolved, and nothing else changes.
pub proof fn law_only_what_is_no_longer_reported_is_resolved(
    fs: Seq<IssueView>,
    prefix: Seq<char>,
    kept: Seq<Seq<char>>,
    i: int,
)
    requires
        0 <= i < fs.len(),
    ensures
        ({
            let now = issues::stale_resolved(fs, prefix, kept)[i];
            let ours = text::has_prefix(fs[i].id, prefix);
            &&& issues::stale_resolved(fs, prefix, kept).len() == fs.len()
            &&& ours && !kept.contains(fs[i].id) ==> now == (IssueView {
                status: "resolved"@,
                ..fs[i]
            })
            &&& !ours || kept.contains(fs[i].id) ==> now == fs[i]
        }),
{
}

} // verus!
