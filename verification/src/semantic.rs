//! What the program graph of a crate says, as plain values.

use crate::text;
use crate::text::{decimal, either};
use vstd::hash_map::StringHashMap;
use vstd::prelude::*;
use vstd::string::*;

verus! {

/// What the graph says of one symbol.
///
/// The branch score adds two for a switch, one for a call and one half for an
/// assertion, so it is kept in half points. `display_file` is the file as it is
/// shown to a reader.
#[derive(Debug)]
pub struct SymbolSummary {
    pub symbol: String,
    pub kind: String,
    pub file: String,
    pub display_file: String,
    pub line: u32,
    pub signature: Option<String>,
    pub mir_fingerprint: Option<String>,
    pub mir_blocks: Option<usize>,
    pub mir_stmts: Option<usize>,
    pub call_in: usize,
    pub call_out: usize,
    pub branch_half_points: Option<u64>,
    pub is_directly_recursive: bool,
    pub switchint_count: usize,
    pub has_back_edges: bool,
    /// The switches for each block, as they are written.
    pub switchint_density: RatioText,
    /// The share of the blocks that are no clean-up, as it is written.
    pub non_cleanup_fraction: RatioText,
}

/// A ratio as it is written: with two decimal places, and as a number.
#[derive(Debug)]
pub struct RatioText {
    pub two_places: String,
    pub number: String,
}

/// The half points of a score, none where it is not known.
pub open spec fn known_points(h: Option<u64>) -> nat {
    match h {
        Some(n) => n as nat,
        None => 0,
    }
}

/// A score of half points with one decimal place.
pub open spec fn one_place(h: Option<u64>) -> Seq<char> {
    text::dec(known_points(h) / 2) + if known_points(h) % 2 == 0 {
        ".0"@
    } else {
        ".5"@
    }
}

/// A score of half points with two decimal places.
pub open spec fn two_places(h: Option<u64>) -> Seq<char> {
    one_place(h) + "0"@
}

/// A score of half points with one decimal place.
pub fn one_place_score(h: Option<u64>) -> (r: String)
    ensures
        r@ == one_place(h),
{
    let points: u64 = match h {
        Some(n) => n,
        None => 0,
    };
    let mut t = decimal(points / 2);
    t.append(either(points % 2 == 0, ".0", ".5"));
    t
}

/// A score of half points with two decimal places.
pub fn two_place_score(h: Option<u64>) -> (r: String)
    ensures
        r@ == two_places(h),
{
    let mut t = one_place_score(h);
    t.append("0");
    t
}

/// Two symbols, or a symbol and what it touches.
#[derive(Debug)]
pub struct Edge {
    pub from: String,
    pub to: String,
}

impl View for Edge {
    type V = (Seq<char>, Seq<char>);

    open spec fn view(&self) -> (Seq<char>, Seq<char>) {
        (self.from@, self.to@)
    }
}

/// The edges of a list.
pub open spec fn edges_of(v: Seq<Edge>) -> Seq<(Seq<char>, Seq<char>)> {
    v.map_values(|e: Edge| e@)
}

/// An edge with the relation that it stands for.
#[derive(Debug)]
pub struct RelationEdge {
    pub relation: String,
    pub from: String,
    pub to: String,
}

/// How many back edges the control flow of a symbol has.
#[derive(Debug)]
pub struct BackEdges {
    pub symbol: String,
    pub count: usize,
}

/// The graph of one crate.
#[derive(Debug)]
pub struct SemanticGraph {
    pub summaries: Vec<SymbolSummary>,
    pub call_edges: Vec<Edge>,
    pub bridge_edges: Vec<RelationEdge>,
    pub artifact_writes: Vec<Edge>,
    pub artifact_reads: Vec<Edge>,
    pub state_writes: Vec<Edge>,
    pub state_reads: Vec<Edge>,
    pub state_transitions: Vec<Edge>,
    pub workflow_domains: Vec<Edge>,
    pub error_shapes: Vec<Edge>,
    pub loggers: Vec<Edge>,
    pub process_spawners: Vec<Edge>,
    pub network_users: Vec<Edge>,
    pub transition_coordinators: Vec<Edge>,
    /// The owner of each pair of redundant paths.
    pub redundant_path_owners: Vec<String>,
    /// The chain of symbols of each pathway.
    pub alpha_pathways: Vec<Vec<String>>,
    pub back_edges: Vec<BackEdges>,
    pub counts: GraphCounts,
}

/// How many nodes and edges a graph has.
#[derive(Debug, Clone, Copy)]
pub struct GraphCounts {
    pub nodes: usize,
    pub bridge_edges: usize,
    pub semantic_edges: usize,
    pub cfg_nodes: usize,
    pub cfg_edges: usize,
}

/// The last summary of a symbol.
pub open spec fn last_of(prev: Seq<SymbolSummary>, symbol: Seq<char>) -> Option<int>
    decreases prev.len(),
{
    if prev.len() == 0 {
        None
    } else if prev.last().symbol@ == symbol {
        Some(prev.len() - 1)
    } else {
        last_of(prev.drop_last(), symbol)
    }
}

/// Where the last summary of each symbol stands.
pub fn index_by_symbol(prev: &Vec<SymbolSummary>) -> (r: StringHashMap<usize>)
    ensures
        forall|k: Seq<char>| #[trigger]
            r@.contains_key(k) <==> last_of(prev@, k) is Some,
        forall|k: Seq<char>| #[trigger]
            r@.contains_key(k) ==> last_of(prev@, k) == Some(r@[k] as int),
        forall|k: Seq<char>| #[trigger] r@.contains_key(k) ==> r@[k] < prev@.len(),
{
    let mut map: StringHashMap<usize> = StringHashMap::new();
    let mut i: usize = 0;
    assert(prev@.take(0) =~= Seq::<SymbolSummary>::empty());
    while i < prev.len()
        invariant
            i <= prev.len(),
            forall|k: Seq<char>| #[trigger]
                map@.contains_key(k) <==> last_of(prev@.take(i as int), k) is Some,
            forall|k: Seq<char>| #[trigger]
                map@.contains_key(k) ==> last_of(prev@.take(i as int), k) == Some(map@[k] as int),
            forall|k: Seq<char>| #[trigger] map@.contains_key(k) ==> map@[k] < i,
        decreases prev.len() - i,
    {
        proof {
            assert(prev@.take(i + 1).drop_last() =~= prev@.take(i as int));
            assert(prev@.take(i + 1).last() == prev@[i as int]);
        }
        map.insert(prev[i].symbol.clone(), i);
        i += 1;
    }
    assert(prev@.take(i as int) =~= prev@);
    map
}

} // verus!
