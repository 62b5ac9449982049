//! The issues that the graph detectors report: their texts and metrics.

use crate::groups;
use crate::groups::Group;
use crate::issues;
use crate::issues::{Issue, IssueView};
use crate::json;
use crate::json::{
    and, array, boolean, members, object, string, string_array, uint, written, Json, JsonView,
};
use crate::order;
use crate::order::{sort_ranked, Ranked};
use crate::semantic;
use crate::semantic::{one_place_score, two_place_score, Edge, RatioText, SymbolSummary};
use crate::tally;
use crate::text;
use crate::text::{
    and_text, byte_len, contains, count_text, decimal, drop_prefix, either, empty_list, join,
    quoted_list, replace_char, same, sanitize_fragment, stable_hash, starts_with,
    take_head, text_after_last, text_at_most, text_before_last, to_ascii_lower, wrap_each,
};
use vstd::prelude::*;
use vstd::string::*;
use vstd::utf8::*;

verus! {

// ---------------------------------------------------------------------------
// Names and hashes
// ---------------------------------------------------------------------------

/// The hash of two texts around a separator.
fn pair_hash(a: &str, sep: &str, b: &str) -> (r: u64)
    ensures
        r == text::text_hash(a@ + sep@ + b@),
{
    let t = around(a, sep, b);
    stable_hash(t.as_str())
}

fn triple_hash(crate_name: &str, source: &str, target: &str) -> (r: u64)
    ensures
        r == text::text_hash(crate_name@ + ":"@ + source@ + "->"@ + target@),
{
    let mut t = crate_name.to_owned();
    t.append(":");
    t.append(source);
    t.append("->");
    t.append(target);
    stable_hash(t.as_str())
}

/// Three texts in a row.
fn around(pre: &str, x: &str, post: &str) -> (r: String)
    ensures
        r@ == pre@ + x@ + post@,
{
    let mut t = pre.to_owned();
    t.append(x);
    t.append(post);
    t
}

fn reads_and_writes(from: &str, to: &str) -> (r: String)
    ensures
        r@ == "` reads `"@ + from@ + "` and writes `"@ + to@ + "`"@,
{
    let mut t = "` reads `".to_owned();
    t.append(from);
    t.append("` and writes `");
    t.append(to);
    t.append("`");
    t
}

/// An artifact as it is shown: the last part of its path and name.
pub open spec fn artifact_display(raw: Seq<char>) -> Seq<char> {
    text::after_last(text::after_last(text::without_prefix(raw, "artifact::"@), "/"@), "::"@)
}

/// An artifact as it is shown.
pub fn display_artifact_domain(raw: &str) -> (r: String)
    ensures
        r@ == artifact_display(raw@),
{
    let name = drop_prefix(raw, "artifact::");
    let file = text_after_last(name.as_str(), "/");
    text_after_last(file.as_str(), "::")
}

/// A style of shaping errors as it is shown.
pub open spec fn style_display(raw: Seq<char>) -> Seq<char> {
    text::without_prefix(raw, "error_shape::"@)
}

/// A style of shaping errors as it is shown.
pub fn display_error_style(raw: &str) -> (r: String)
    ensures
        r@ == style_display(raw@),
{
    drop_prefix(raw, "error_shape::")
}

/// A state as it is shown.
pub open spec fn state_display(raw: Seq<char>) -> Seq<char> {
    text::without_prefix(raw, "state::"@)
}

/// A state as it is shown.
pub fn display_state_domain(raw: &str) -> (r: String)
    ensures
        r@ == state_display(raw@),
{
    drop_prefix(raw, "state::")
}

/// States as they are shown.
pub open spec fn states_display(states: Seq<Seq<char>>) -> Seq<Seq<char>> {
    states.map_values(|s: Seq<char>| state_display(s))
}

fn display_states(states: &Vec<String>) -> (r: Vec<String>)
    ensures
        text::texts(r@) == states_display(text::texts(states@)),
{
    let mut out: Vec<String> = Vec::new();
    let mut i: usize = 0;
    while i < states.len()
        invariant
            i <= states@.len(),
            out@.len() == i,
            forall|k: int| 0 <= k < i ==> (#[trigger] out@[k])@ == state_display(states@[k]@),
        decreases states@.len() - i,
    {
        out.push(display_state_domain(states[i].as_str()));
        i += 1;
    }
    assert(text::texts(out@) =~= states_display(text::texts(states@)));
    out
}

/// A domain as it is shown.
pub open spec fn domain_display(raw: Seq<char>) -> Seq<char> {
    if text::has_prefix(raw, "artifact::"@) {
        "artifact:"@ + text::without_prefix(raw, "artifact::"@)
    } else if text::has_prefix(raw, "state::"@) {
        "state:"@ + text::without_prefix(raw, "state::"@)
    } else {
        raw
    }
}

/// A domain as it is shown.
pub fn display_representation_domain(raw: &str) -> (r: String)
    ensures
        r@ == domain_display(raw@),
{
    if starts_with(raw, "artifact::") {
        let rest = drop_prefix(raw, "artifact::");
        let mut shown = "artifact:".to_owned();
        shown.append(rest.as_str());
        shown
    } else if starts_with(raw, "state::") {
        let rest = drop_prefix(raw, "state::");
        let mut shown = "state:".to_owned();
        shown.append(rest.as_str());
        shown
    } else {
        raw.to_owned()
    }
}

/// The module of a symbol: what stands before its last name.
pub open spec fn module_of(symbol: Seq<char>) -> Seq<char> {
    text::before_last(symbol, "::"@)
}

/// The module of a symbol.
pub fn symbol_module(symbol: &str) -> (r: String)
    ensures
        r@ == module_of(symbol@),
{
    text_before_last(symbol, "::")
}

/// A module that may spawn processes.
pub open spec fn process_boundary(module: Seq<char>) -> bool {
    module == "process"@ || text::has_prefix(module, "process::"@) || module == "tools"@
        || text::has_prefix(module, "tools::"@)
}

/// A module that may spawn processes.
pub fn is_canonical_process_boundary(module: &str) -> (r: bool)
    ensures
        r == process_boundary(module@),
{
    same(module, "process") || starts_with(module, "process::") || same(module, "tools")
        || starts_with(module, "tools::")
}

// ---------------------------------------------------------------------------
// The best of some names
// ---------------------------------------------------------------------------

/// A name with a rank. The lower rank is better, then the shorter name, then the
/// one that is first in the order of texts.
#[derive(Debug)]
pub struct RankedName {
    pub name: String,
    pub rank: u64,
}

impl View for RankedName {
    type V = (Seq<char>, u64);

    open spec fn view(&self) -> (Seq<char>, u64) {
        (self.name@, self.rank)
    }
}

impl Ranked for RankedName {
    open spec fn rank_le(a: (Seq<char>, u64), b: (Seq<char>, u64)) -> bool {
        if a.1 != b.1 {
            a.1 < b.1
        } else if encode_utf8(a.0).len() != encode_utf8(b.0).len() {
            encode_utf8(a.0).len() < encode_utf8(b.0).len()
        } else {
            text::text_le(a.0, b.0)
        }
    }

    fn ranks_at_most(&self, other: &Self) -> (r: bool) {
        let mine: usize = byte_len(self.name.as_str());
        let its: usize = byte_len(other.name.as_str());
        if self.rank != other.rank {
            self.rank < other.rank
        } else if mine != its {
            mine < its
        } else {
            text_at_most(self.name.as_str(), other.name.as_str())
        }
    }

    proof fn rank_total(a: (Seq<char>, u64), b: (Seq<char>, u64)) {
        text::lemma_text_le_total(a.0, b.0);
    }

    proof fn rank_transitive(a: (Seq<char>, u64), b: (Seq<char>, u64), c: (Seq<char>, u64)) {
        if text::text_le(a.0, b.0) && text::text_le(b.0, c.0) {
            text::lemma_text_le_transitive(a.0, b.0, c.0);
        }
    }
}

/// The best of some ranked names, or a default where there is none.
pub open spec fn best_of(names: Seq<(Seq<char>, u64)>, default: Seq<char>) -> Seq<char> {
    let sorted = order::stable_sorted(
        names,
        |a: (Seq<char>, u64), b: (Seq<char>, u64)| RankedName::rank_le(a, b),
    );
    if sorted.len() == 0 {
        default
    } else {
        sorted[0].0
    }
}

fn best_name(names: Vec<RankedName>, default: &str) -> (r: String)
    ensures
        r@ == best_of(order::views(names@), default@),
{
    let ghost before = order::views(names@);
    let sorted = sort_ranked(names);
    assert(order::views(sorted@).len() == sorted@.len());
    if sorted.len() == 0 {
        default.to_owned()
    } else {
        assert(order::views(sorted@)[0] == sorted@[0]@);
        sorted[0].name.clone()
    }
}

/// How well a function suits as the one writer of an artifact: one that persists
/// comes first, then one that names the artifact, then one that projects.
pub open spec fn writer_rank(writer: Seq<char>, hint: Seq<char>) -> u64 {
    let lower = text::lower_ascii(writer);
    let persist: u64 = if text::has_text(lower, "persist"@) {
        0
    } else {
        4
    };
    let artifact: u64 = if text::has_text(lower, hint) {
        0
    } else {
        2
    };
    let projection: u64 = if text::has_text(lower, "projection"@) {
        0
    } else {
        1
    };
    (persist + artifact + projection) as u64
}

fn rank_writer(writer: &str, hint: &str) -> (r: u64)
    ensures
        r == writer_rank(writer@, hint@),
{
    let lower = to_ascii_lower(writer);
    let persist: u64 = if contains(lower.as_str(), "persist") {
        0
    } else {
        4
    };
    let artifact: u64 = if contains(lower.as_str(), hint) {
        0
    } else {
        2
    };
    let projection: u64 = if contains(lower.as_str(), "projection") {
        0
    } else {
        1
    };
    persist + artifact + projection
}

/// The function that should write an artifact alone.
pub open spec fn canonical_writer(artifact: Seq<char>, writers: Seq<Seq<char>>) -> Seq<char> {
    let hint = text::lower_ascii(artifact_display(artifact));
    best_of(
        writers.map_values(|w: Seq<char>| (w, writer_rank(w, hint))),
        ""@,
    )
}

/// The function that should write an artifact alone.
pub fn canonical_writer_candidate(artifact: &str, writers: &Vec<String>) -> (r: String)
    ensures
        r@ == canonical_writer(artifact@, text::texts(writers@)),
{
    let shown = display_artifact_domain(artifact);
    let hint = to_ascii_lower(shown.as_str());
    let mut names: Vec<RankedName> = Vec::new();
    let mut i: usize = 0;
    while i < writers.len()
        invariant
            i <= writers@.len(),
            names@.len() == i,
            forall|k: int|
                0 <= k < i ==> (#[trigger] names@[k])@ == (
                    writers@[k]@,
                    writer_rank(writers@[k]@, hint@),
                ),
        decreases writers@.len() - i,
    {
        let rank: u64 = rank_writer(writers[i].as_str(), hint.as_str());
        names.push(RankedName { name: writers[i].clone(), rank });
        i += 1;
    }
    proof {
        let ws = text::texts(writers@);
        assert(order::views(names@) =~= ws.map_values(
            |w: Seq<char>| (w, writer_rank(w, hint@)),
        ));
    }
    best_name(names, "")
}

/// The function that should translate one domain into another alone: one of a
/// canonical module comes first.
pub open spec fn canonical_translator(
    symbols: Seq<Seq<char>>,
    canonical: spec_fn(Seq<char>) -> bool,
) -> Seq<char> {
    best_of(
        symbols.map_values(
            |s: Seq<char>|
                (
                    s,
                    if canonical(s) {
                        0u64
                    } else {
                        1u64
                    },
                ),
        ),
        "one canonical translator"@,
    )
}

/// The function that should translate one domain into another alone. `flags`
/// says of each symbol whether its module is canonical.
pub(crate) fn canonical_representation_target(
    symbols: &Vec<String>,
    flags: &Vec<bool>,
    Ghost(canonical): Ghost<spec_fn(Seq<char>) -> bool>,
) -> (r: String)
    requires
        flags@.len() == symbols@.len(),
        forall|i: int| 0 <= i < flags@.len() ==> #[trigger] flags@[i] == canonical(symbols@[i]@),
    ensures
        r@ == canonical_translator(text::texts(symbols@), canonical),
{
    let mut names: Vec<RankedName> = Vec::new();
    let mut i: usize = 0;
    while i < symbols.len()
        invariant
            i <= symbols@.len(),
            flags@.len() == symbols@.len(),
            forall|k: int|
                0 <= k < flags@.len() ==> #[trigger] flags@[k] == canonical(symbols@[k]@),
            names@.len() == i,
            forall|k: int|
                0 <= k < i ==> (#[trigger] names@[k])@ == (
                    symbols@[k]@,
                    if canonical(symbols@[k]@) {
                        0u64
                    } else {
                        1u64
                    },
                ),
        decreases symbols@.len() - i,
    {
        let rank: u64 = if flags[i] {
            0
        } else {
            1
        };
        names.push(RankedName { name: symbols[i].clone(), rank });
        i += 1;
    }
    proof {
        assert(order::views(names@) =~= text::texts(symbols@).map_values(
            |s: Seq<char>|
                (
                    s,
                    if canonical(s) {
                        0u64
                    } else {
                        1u64
                    },
                ),
        ));
    }
    best_name(names, "one canonical translator")
}

// ---------------------------------------------------------------------------
// Transitions and their proofs
// ---------------------------------------------------------------------------

/// How many symbols have a proof of one kind.
pub open spec fn with_proof(
    symbols: Seq<Seq<char>>,
    proofs: Seq<(Seq<char>, Seq<char>)>,
    kind: Seq<char>,
) -> nat {
    symbols.filter(|s: Seq<char>| groups::members(proofs, s).contains(kind)).len()
}

/// How many symbols have a proof of any kind.
pub open spec fn coordinated(symbols: Seq<Seq<char>>, proofs: Seq<(Seq<char>, Seq<char>)>) -> nat {
    symbols.filter(|s: Seq<char>| groups::members(proofs, s).len() > 0).len()
}

fn count_with_proof(symbols: &Vec<String>, proofs: &Vec<Edge>, kind: &str) -> (r: usize)
    ensures
        r == with_proof(text::texts(symbols@), semantic::edges_of(proofs@), kind@),
{
    let ghost ss = text::texts(symbols@);
    let ghost ps = semantic::edges_of(proofs@);
    let ghost p = |s: Seq<char>| groups::members(ps, s).contains(kind@);
    let mut count: usize = 0;
    let mut i: usize = 0;
    proof {
        reveal(Seq::filter);
        assert(ss.take(0) =~= Seq::<Seq<char>>::empty());
    }
    while i < symbols.len()
        invariant
            i <= symbols@.len(),
            ss == text::texts(symbols@),
            ps == semantic::edges_of(proofs@),
            p == (|s: Seq<char>| groups::members(ps, s).contains(kind@)),
            count <= i,
            count == ss.take(i as int).filter(p).len(),
        decreases symbols@.len() - i,
    {
        proof {
            reveal(Seq::filter);
            assert(ss.take(i + 1).drop_last() =~= ss.take(i as int));
            assert(ss.take(i + 1).last() == symbols@[i as int]@);
        }
        let kinds = groups::members_of(proofs, symbols[i].as_str());
        if issues::holds_text(&kinds, kind) {
            count += 1;
        }
        i += 1;
    }
    assert(ss.take(i as int) =~= ss);
    count
}

fn count_coordinated(symbols: &Vec<String>, proofs: &Vec<Edge>) -> (r: usize)
    ensures
        r == coordinated(text::texts(symbols@), semantic::edges_of(proofs@)),
        r <= symbols@.len(),
{
    let ghost ss = text::texts(symbols@);
    let ghost ps = semantic::edges_of(proofs@);
    let ghost p = |s: Seq<char>| groups::members(ps, s).len() > 0;
    let mut count: usize = 0;
    let mut i: usize = 0;
    proof {
        reveal(Seq::filter);
        assert(ss.take(0) =~= Seq::<Seq<char>>::empty());
    }
    while i < symbols.len()
        invariant
            i <= symbols@.len(),
            ss == text::texts(symbols@),
            ps == semantic::edges_of(proofs@),
            p == (|s: Seq<char>| groups::members(ps, s).len() > 0),
            count <= i,
            count == ss.take(i as int).filter(p).len(),
        decreases symbols@.len() - i,
    {
        proof {
            reveal(Seq::filter);
            assert(ss.take(i + 1).drop_last() =~= ss.take(i as int));
            assert(ss.take(i + 1).last() == symbols@[i as int]@);
        }
        let kinds = groups::members_of(proofs, symbols[i].as_str());
        assert(text::texts(kinds@).len() == kinds@.len());
        if kinds.len() > 0 {
            count += 1;
        }
        i += 1;
    }
    assert(ss.take(i as int) =~= ss);
    count
}

/// The kinds of proof without their common prefix; other texts are left out.
pub open spec fn proof_names(kinds: Seq<Seq<char>>) -> Seq<Seq<char>>
    decreases kinds.len(),
{
    if kinds.len() == 0 {
        kinds
    } else {
        let before = proof_names(kinds.drop_last());
        if text::has_prefix(kinds.last(), "transition::"@) {
            before.push(text::without_prefix(kinds.last(), "transition::"@))
        } else {
            before
        }
    }
}

fn name_proofs(kinds: &Vec<String>) -> (r: Vec<String>)
    ensures
        text::texts(r@) == proof_names(text::texts(kinds@)),
{
    let ghost ks = text::texts(kinds@);
    let mut out = empty_list();
    let mut i: usize = 0;
    assert(ks.take(0) =~= Seq::<Seq<char>>::empty());
    while i < kinds.len()
        invariant
            i <= kinds@.len(),
            ks == text::texts(kinds@),
            text::texts(out@) == proof_names(ks.take(i as int)),
        decreases kinds@.len() - i,
    {
        let ghost before = text::texts(out@);
        proof {
            assert(ks.take(i + 1).drop_last() =~= ks.take(i as int));
            assert(ks.take(i + 1).last() == kinds@[i as int]@);
        }
        if starts_with(kinds[i].as_str(), "transition::") {
            let name = drop_prefix(kinds[i].as_str(), "transition::");
            out.push(name);
            assert(text::texts(out@) =~= before.push(name@));
        }
        i += 1;
    }
    assert(ks.take(i as int) =~= ks);
    out
}

/// How one site moves a state.
pub open spec fn transition_line(
    symbol: Seq<char>,
    proofs: Seq<(Seq<char>, Seq<char>)>,
    state: Seq<char>,
) -> Seq<char> {
    let backing = text::joined(proof_names(groups::members(proofs, symbol)), "+"@);
    if backing.len() > 0 {
        "transition site `"@ + symbol + "` mutates `"@ + state + "` ["@ + backing + "]"@
    } else {
        "transition site `"@ + symbol + "` mutates `"@ + state + "` after branching"@
    }
}

fn write_transition_line(symbol: &str, proofs: &Vec<Edge>, state: &str) -> (r: String)
    ensures
        r@ == transition_line(symbol@, semantic::edges_of(proofs@), state@),
{
    let kinds = groups::members_of(proofs, symbol);
    let names = name_proofs(&kinds);
    let backing = join(&names, "+");
    let mut line = "transition site `".to_owned();
    line.append(symbol);
    line.append("` mutates `");
    line.append(state);
    if text::to_chars(backing.as_str()).len() > 0 {
        line.append("` [");
        line.append(backing.as_str());
        line.append("]");
    } else {
        line.append("` after branching");
    }
    line
}

/// How each site moves a state.
pub open spec fn transition_lines(
    symbols: Seq<Seq<char>>,
    proofs: Seq<(Seq<char>, Seq<char>)>,
    state: Seq<char>,
) -> Seq<Seq<char>> {
    symbols.map_values(|s: Seq<char>| transition_line(s, proofs, state))
}

fn write_transition_lines(symbols: &Vec<String>, proofs: &Vec<Edge>, state: &str) -> (r: Vec<
    String,
>)
    ensures
        text::texts(r@) == transition_lines(
            text::texts(symbols@),
            semantic::edges_of(proofs@),
            state@,
        ),
{
    let ghost ps = semantic::edges_of(proofs@);
    let mut lines: Vec<String> = Vec::new();
    let mut i: usize = 0;
    while i < symbols.len()
        invariant
            i <= symbols@.len(),
            ps == semantic::edges_of(proofs@),
            lines@.len() == i,
            forall|k: int|
                0 <= k < i ==> (#[trigger] lines@[k])@ == transition_line(
                    symbols@[k]@,
                    ps,
                    state@,
                ),
        decreases symbols@.len() - i,
    {
        lines.push(write_transition_line(symbols[i].as_str(), proofs, state));
        i += 1;
    }
    assert(text::texts(lines@) =~= transition_lines(text::texts(symbols@), ps, state@));
    lines
}

// ---------------------------------------------------------------------------
// Bridges
// ---------------------------------------------------------------------------

/// A function and how often bridges call it.
#[derive(Debug)]
pub struct CalledFunction {
    pub symbol: String,
    pub calls: usize,
}

impl View for CalledFunction {
    type V = (Seq<char>, usize);

    open spec fn view(&self) -> (Seq<char>, usize) {
        (self.symbol@, self.calls)
    }
}

/// The functions of a list.
pub open spec fn called_of(v: Seq<CalledFunction>) -> Seq<(Seq<char>, usize)> {
    v.map_values(|c: CalledFunction| c@)
}

/// A threshold that was set, as it is written, and whether the graph exceeds it.
#[derive(Debug)]
pub struct SetThreshold {
    pub value: RatioText,
    pub exceeded: bool,
}

/// How densely bridges join a graph. The ratio is that of the bridge edges to the
/// nodes, as it is written. Where no threshold is set it is ten.
#[derive(Debug)]
pub struct BridgeConnectivityStats {
    pub crate_name: String,
    pub node_count: usize,
    pub bridge_edge_count: usize,
    pub semantic_edge_count: usize,
    pub cfg_node_count: usize,
    pub cfg_edge_count: usize,
    pub bridge_ratio: RatioText,
    pub threshold: Option<SetThreshold>,
    pub candidate_functions: Vec<CalledFunction>,
}

/// The nodes that bridges are measured against: at least one.
pub open spec fn measured_nodes(nodes: usize) -> int {
    if nodes == 0 {
        1
    } else {
        nodes as int
    }
}

/// The graph exceeds its threshold.
pub open spec fn over_threshold(stats: BridgeConnectivityStats) -> bool {
    match stats.threshold {
        Some(t) => t.exceeded,
        None => stats.bridge_edge_count > 10 * measured_nodes(stats.node_count),
    }
}

/// The graph exceeds its threshold.
pub fn exceeds_threshold(stats: &BridgeConnectivityStats) -> (r: bool)
    ensures
        r == over_threshold(*stats),
{
    let nodes: u128 = if stats.node_count == 0 {
        1
    } else {
        stats.node_count as u128
    };
    match &stats.threshold {
        Some(t) => t.exceeded,
        None => (stats.bridge_edge_count as u128) > 10 * nodes,
    }
}

/// The threshold as it is shown.
pub open spec fn threshold_text_of(stats: BridgeConnectivityStats) -> Seq<char> {
    match stats.threshold {
        Some(t) => t.value.two_places@,
        None => "10.00"@,
    }
}

fn threshold_text(stats: &BridgeConnectivityStats) -> (r: &str)
    ensures
        r@ == threshold_text_of(*stats),
{
    match &stats.threshold {
        Some(t) => t.value.two_places.as_str(),
        None => "10.00",
    }
}

/// The threshold as a number.
pub open spec fn threshold_number_of(stats: BridgeConnectivityStats) -> Seq<char> {
    match stats.threshold {
        Some(t) => t.value.number@,
        None => "10.0"@,
    }
}

fn threshold_number(stats: &BridgeConnectivityStats) -> (r: &str)
    ensures
        r@ == threshold_number_of(*stats),
{
    match &stats.threshold {
        Some(t) => t.value.number.as_str(),
        None => "10.0",
    }
}

/// The priority that a ratio of bridge edges to nodes gives: high from twenty,
/// medium from ten.
pub open spec fn band_of(edges: usize, nodes: usize) -> Seq<char> {
    if edges >= 20 * measured_nodes(nodes) {
        "high"@
    } else if edges >= 10 * measured_nodes(nodes) {
        "medium"@
    } else {
        "low"@
    }
}

/// The priority that a ratio of bridge edges to nodes gives.
pub fn priority_from_ratio(edges: usize, nodes: usize) -> (r: &'static str)
    ensures
        r@ == band_of(edges, nodes),
{
    let e: u128 = edges as u128;
    let n: u128 = if nodes == 0 {
        1
    } else {
        nodes as u128
    };
    if e >= 20 * n {
        "high"
    } else if e >= 10 * n {
        "medium"
    } else {
        "low"
    }
}

/// The id of the issue on a graph with too many bridges.
pub fn issue_id(crate_name: &str) -> (r: String)
    ensures
        r@ == "graph_bridge_connectivity_"@ + text::identifier_fragment(crate_name@),
{
    let mut id = "graph_bridge_connectivity_".to_owned();
    id.append(sanitize_fragment(crate_name).as_str());
    id
}

/// One function that bridges call.
pub open spec fn candidate_line(c: (Seq<char>, usize)) -> Seq<char> {
    "- "@ + c.0 + " ("@ + text::dec(c.1 as nat) + " bridge call edge(s))"@
}

/// The functions that bridges call.
pub open spec fn candidates_text(cs: Seq<(Seq<char>, usize)>) -> Seq<char> {
    if cs.len() == 0 {
        "(none found)"@
    } else {
        text::joined(cs.map_values(|c: (Seq<char>, usize)| candidate_line(c)), "\n"@)
    }
}

fn write_candidates(cs: &Vec<CalledFunction>) -> (r: String)
    ensures
        r@ == candidates_text(called_of(cs@)),
{
    if cs.len() == 0 {
        return "(none found)".to_owned();
    }
    let mut lines: Vec<String> = Vec::new();
    let mut i: usize = 0;
    while i < cs.len()
        invariant
            i <= cs@.len(),
            lines@.len() == i,
            forall|k: int| 0 <= k < i ==> (#[trigger] lines@[k])@ == candidate_line(cs@[k]@),
        decreases cs@.len() - i,
    {
        let mut line = "- ".to_owned();
        line.append(cs[i].symbol.as_str());
        line.append(" (");
        line.append(count_text(cs[i].calls).as_str());
        line.append(" bridge call edge(s))");
        lines.push(line);
        i += 1;
    }
    assert(text::texts(lines@) =~= called_of(cs@).map_values(
        |c: (Seq<char>, usize)| candidate_line(c),
    ));
    join(&lines, "\n")
}

/// One function that bridges call.
pub open spec fn candidate_value(c: (Seq<char>, usize)) -> JsonView {
    JsonView::Object(
        json::no_members().push(("bridge_calls"@, JsonView::Uint(c.1 as u64))).push(
            ("symbol"@, JsonView::Text(c.0)),
        ),
    )
}

/// The functions that bridges call.
pub open spec fn candidate_values(cs: Seq<(Seq<char>, usize)>) -> JsonView {
    JsonView::Array(cs.map_values(|c: (Seq<char>, usize)| candidate_value(c)))
}

fn write_candidate_values(cs: &Vec<CalledFunction>) -> (r: Json)
    ensures
        r@ == candidate_values(called_of(cs@)),
{
    let mut values: Vec<Json> = Vec::new();
    let mut i: usize = 0;
    while i < cs.len()
        invariant
            i <= cs@.len(),
            values@.len() == i,
            forall|k: int| 0 <= k < i ==> (#[trigger] values@[k])@ == candidate_value(cs@[k]@),
        decreases cs@.len() - i,
    {
        let value = members();
        let value = and(value, "bridge_calls", uint(cs[i].calls));
        let value = and(value, "symbol", string(cs[i].symbol.as_str()));
        values.push(object(value));
        i += 1;
    }
    let r = array(values);
    assert(r@->Array_0 =~= candidate_values(called_of(cs@))->Array_0);
    r
}

// ---------------------------------------------------------------------------
// The issues
// ---------------------------------------------------------------------------

/// The issue on an artifact and the functions that write it.
pub open spec fn artifact_writer_dispersion_issue(
    crate_name: Seq<char>,
    artifact: Seq<char>,
    writers: Seq<Seq<char>>,
) -> IssueView {
    let display = artifact_display(artifact);
    let canonical = canonical_writer(artifact, writers);
    let canonical_short = text::after_last(canonical, "::"@);
    let writer_list = text::quoted(writers);
    let writer_count = writers.len();
    let fragment = text::identifier_fragment(crate_name);
    let hash = text::text_hash(crate_name + ":"@ + artifact);
    let emits = "` emits `"@ + display + "`"@;
    let evidence = text::wrapped(writers, "writer `"@, emits);
    IssueView {
        id: "auto_artifact_writer_dispersion_"@ + fragment + "_"@ + text::dec(hash as nat),
        title: "Artifact writer dispersion for `"@ + display + "` ("@ + text::dec(writer_count as nat) + " writers)"@,
        status: if writer_count > 1 {
            "open"@
        } else {
            "resolved"@
        },
        priority: if writer_count >= 4 {
            "high"@
        } else {
            "medium"@
        },
        kind: "logic"@,
        description: "Artifact domain `"@ + artifact + "` in crate `"@ + crate_name + "` is written from multiple functions: "@ + writer_list + ".\n\nPersistent artifact writes should flow through one canonical entrypoint per artifact domain. Multiple writers increase state dispersion, make replay semantics harder to reason about, and encourage divergent write behavior.\n\nRecommended canonical entrypoint: `"@ + canonical + "`."@,
        location: "state/rustc/"@ + crate_name + "/graph.json"@,
        scope: "crate:"@ + crate_name,
        metrics: JsonView::Object(
            json::no_members().push(
                ("artifact"@, JsonView::Text(artifact)),
            ).push(
                ("canonical_writer_candidate"@, JsonView::Text(canonical)),
            ).push(
                ("display_artifact"@, JsonView::Text(display)),
            ).push(
                ("task"@, JsonView::Text("CentralizeArtifactWriter"@)),
            ).push(
                ("writer_count"@, JsonView::Uint(writer_count as u64)),
            ).push(
                ("writers"@, json::text_array_view(writers)),
            ),
        ),
        acceptance_criteria: text::no_texts().push(
            "all writes to `"@ + display + "` route through `"@ + canonical_short + "`"@,
        ).push(
            "redundant writer entrypoints for `"@ + display + "` are deleted or converted to thin delegates"@,
        ).push(
            "graph.json is regenerated and the detector reports at most one writer for the artifact"@,
        ),
        evidence: evidence,
        discovered_by: "graph_metrics_detector"@,
    }
}

/// The issue on an artifact and the functions that write it.
pub fn build_artifact_writer_dispersion_issue(
    crate_name: &str,
    artifact: &str,
    writers: &Vec<String>,
) -> (r: Issue)
    ensures
        r@ == artifact_writer_dispersion_issue(crate_name@, artifact@, text::texts(writers@)),
{
    let display = display_artifact_domain(artifact);
    let canonical = canonical_writer_candidate(artifact, writers);
    let canonical_short = text_after_last(canonical.as_str(), "::");
    let writer_list = quoted_list(writers);
    let writer_count: usize = writers.len();
    let fragment = sanitize_fragment(crate_name);
    let hash: u64 = pair_hash(crate_name, ":", artifact);
    let emits = around("` emits `", display.as_str(), "`");
    let evidence = wrap_each(writers, "writer `", emits.as_str());
    let mut id = "auto_artifact_writer_dispersion_".to_owned();
    id.append(fragment.as_str());
    id.append("_");
    id.append(decimal(hash).as_str());
    let mut title = "Artifact writer dispersion for `".to_owned();
    title.append(display.as_str());
    title.append("` (");
    title.append(count_text(writer_count).as_str());
    title.append(" writers)");
    let status = either(writer_count > 1, "open", "resolved").to_owned();
    let priority = either(writer_count >= 4, "high", "medium").to_owned();
    let kind = "logic".to_owned();
    let mut description = "Artifact domain `".to_owned();
    description.append(artifact);
    description.append("` in crate `");
    description.append(crate_name);
    description.append("` is written from multiple functions: ");
    description.append(writer_list.as_str());
    description.append(".\n\nPersistent artifact writes should flow through one canonical entrypoint per artifact domain. Multiple writers increase state dispersion, make replay semantics harder to reason about, and encourage divergent write behavior.\n\nRecommended canonical entrypoint: `");
    description.append(canonical.as_str());
    description.append("`.");
    let mut location = "state/rustc/".to_owned();
    location.append(crate_name);
    location.append("/graph.json");
    let mut scope = "crate:".to_owned();
    scope.append(crate_name);
    let mut criteria_1 = "all writes to `".to_owned();
    criteria_1.append(display.as_str());
    criteria_1.append("` route through `");
    criteria_1.append(canonical_short.as_str());
    criteria_1.append("`");
    let mut criteria_2 = "redundant writer entrypoints for `".to_owned();
    criteria_2.append(display.as_str());
    criteria_2.append("` are deleted or converted to thin delegates");
    let criteria_3 = "graph.json is regenerated and the detector reports at most one writer for the artifact".to_owned();
    let criteria = empty_list();
    let criteria = and_text(criteria, criteria_1);
    let criteria = and_text(criteria, criteria_2);
    let criteria = and_text(criteria, criteria_3);
    let metrics = members();
    let metrics = and(metrics, "artifact", string(artifact));
    let metrics = and(metrics, "canonical_writer_candidate", string(canonical.as_str()));
    let metrics = and(metrics, "display_artifact", string(display.as_str()));
    let metrics = and(metrics, "task", string("CentralizeArtifactWriter"));
    let metrics = and(metrics, "writer_count", uint(writer_count));
    let metrics = and(metrics, "writers", string_array(writers));
    let metrics = object(metrics);
    Issue {
        id,
        title,
        status,
        priority,
        kind,
        description,
        location,
        scope,
        metrics,
        acceptance_criteria: criteria,
        evidence,
        discovered_by: "graph_metrics_detector".to_owned(),
    }
}

/// How one style of shaping errors is used.
pub open spec fn error_style_line(g: (Seq<char>, Seq<Seq<char>>)) -> Seq<char> {
    let key = g.0;
    let members = g.1;
    let style = style_display(key);
    let symbols = text::joined(members, ", "@);
    "error shaping `"@ + style + "` used by "@ + symbols
}

fn write_error_style_line(g: &Group) -> (r: String)
    ensures
        r@ == error_style_line(g@),
{
    let key = g.key.as_str();
    let members = &g.members;
    let style = display_error_style(key);
    let symbols = join(members, ", ");
    let mut line = "error shaping `".to_owned();
    line.append(style.as_str());
    line.append("` used by ");
    line.append(symbols.as_str());
    line
}

/// How one style of shaping errors is used.
pub open spec fn error_style_lines(gs: Seq<(Seq<char>, Seq<Seq<char>>)>) -> Seq<Seq<char>> {
    gs.map_values(|g: (Seq<char>, Seq<Seq<char>>)| error_style_line(g))
}

fn write_error_style_lines(gs: &Vec<Group>) -> (r: Vec<String>)
    ensures
        text::texts(r@) == error_style_lines(groups::groups_of(gs@)),
{
    let mut lines: Vec<String> = Vec::new();
    let mut i: usize = 0;
    while i < gs.len()
        invariant
            i <= gs@.len(),
            lines@.len() == i,
            forall|k: int| 0 <= k < i ==> (#[trigger] lines@[k])@ == error_style_line(gs@[k]@),
        decreases gs@.len() - i,
    {
        lines.push(write_error_style_line(&gs[i]));
        i += 1;
    }
    assert(text::texts(lines@) =~= error_style_lines(groups::groups_of(gs@)));
    lines
}

/// How one style of shaping errors is used.
pub open spec fn error_style_value(g: (Seq<char>, Seq<Seq<char>>)) -> JsonView {
    let key = g.0;
    let members = g.1;
    let style = style_display(key);
    let function_count = members.len();
    JsonView::Object(
        json::no_members().push(
            ("function_count"@, JsonView::Uint(function_count as u64)),
        ).push(
            ("functions"@, json::text_array_view(members)),
        ).push(
            ("style"@, JsonView::Text(style)),
        ),
    )
}

fn write_error_style_value(g: &Group) -> (r: Json)
    ensures
        r@ == error_style_value(g@),
{
    let key = g.key.as_str();
    let members_of = &g.members;
    let style = display_error_style(key);
    let function_count: usize = members_of.len();
    let value = members();
    let value = and(value, "function_count", uint(function_count));
    let value = and(value, "functions", string_array(members_of));
    let value = and(value, "style", string(style.as_str()));
    let value = object(value);
    value
}

/// How one style of shaping errors is used.
pub open spec fn error_style_values(gs: Seq<(Seq<char>, Seq<Seq<char>>)>) -> JsonView {
    JsonView::Array(gs.map_values(|g: (Seq<char>, Seq<Seq<char>>)| error_style_value(g)))
}

fn write_error_style_values(gs: &Vec<Group>) -> (r: Json)
    ensures
        r@ == error_style_values(groups::groups_of(gs@)),
{
    let mut values: Vec<Json> = Vec::new();
    let mut i: usize = 0;
    while i < gs.len()
        invariant
            i <= gs@.len(),
            values@.len() == i,
            forall|k: int| 0 <= k < i ==> (#[trigger] values@[k])@ == error_style_value(gs@[k]@),
        decreases gs@.len() - i,
    {
        values.push(write_error_style_value(&gs[i]));
        i += 1;
    }
    let r = array(values);
    assert(r@->Array_0 =~= error_style_values(groups::groups_of(gs@))->Array_0);
    r
}

/// The issue on the functions that shape errors, by style.
pub open spec fn error_shaping_dispersion_issue(
    crate_name: Seq<char>,
    styles: Seq<(Seq<char>, Seq<Seq<char>>)>,
) -> IssueView {
    let functions = groups::all_members(styles);
    let function_count = functions.len();
    let style_count = styles.len();
    let fragment = text::identifier_fragment(crate_name);
    let evidence = error_style_lines(styles);
    let style_metrics = error_style_values(styles);
    IssueView {
        id: "auto_error_shaping_dispersion_"@ + fragment,
        title: "Error shaping dispersion in `"@ + crate_name + "` ("@ + text::dec(function_count as nat) + " functions, "@ + text::dec(style_count as nat) + " styles)"@,
        status: if function_count >= 4 {
            "open"@
        } else {
            "resolved"@
        },
        priority: if function_count >= 8 {
            "high"@
        } else {
            "medium"@
        },
        kind: "logic"@,
        description: "Compiler-observed error shaping is distributed across "@ + text::dec(function_count as nat) + " function(s) in crate `"@ + crate_name + "`.\n\nDirect use of `map_err`, `context`, and `with_context` across many functions increases error-reporting drift and makes failure semantics harder to standardize. Centralize error shaping behind a smaller helper layer or canonical report boundary."@,
        location: "state/rustc/"@ + crate_name + "/graph.json"@,
        scope: "crate:"@ + crate_name,
        metrics: JsonView::Object(
            json::no_members().push(
                ("function_count"@, JsonView::Uint(function_count as u64)),
            ).push(
                ("functions"@, json::text_array_view(functions)),
            ).push(
                ("style_count"@, JsonView::Uint(style_count as u64)),
            ).push(
                ("styles"@, style_metrics),
            ).push(
                ("task"@, JsonView::Text("CentralizeErrorShaping"@)),
            ),
        ),
        acceptance_criteria: text::no_texts().push(
            "direct error shaping is centralized through a smaller helper surface"@,
        ).push(
            "remaining call sites use consistent error-context conventions"@,
        ).push(
            "graph.json is regenerated and the detector reports a lower function_count"@,
        ),
        evidence: evidence,
        discovered_by: "graph_metrics_detector"@,
    }
}

/// The issue on the functions that shape errors, by style.
pub fn build_error_shaping_dispersion_issue(
    crate_name: &str,
    styles: &Vec<Group>,
) -> (r: Issue)
    ensures
        r@ == error_shaping_dispersion_issue(crate_name@, groups::groups_of(styles@)),
{
    let functions = groups::collect_members(styles);
    let function_count: usize = functions.len();
    let style_count: usize = styles.len();
    let fragment = sanitize_fragment(crate_name);
    let evidence = write_error_style_lines(styles);
    let style_metrics = write_error_style_values(styles);
    let mut id = "auto_error_shaping_dispersion_".to_owned();
    id.append(fragment.as_str());
    let mut title = "Error shaping dispersion in `".to_owned();
    title.append(crate_name);
    title.append("` (");
    title.append(count_text(function_count).as_str());
    title.append(" functions, ");
    title.append(count_text(style_count).as_str());
    title.append(" styles)");
    let status = either(function_count >= 4, "open", "resolved").to_owned();
    let priority = either(function_count >= 8, "high", "medium").to_owned();
    let kind = "logic".to_owned();
    let mut description = "Compiler-observed error shaping is distributed across ".to_owned();
    description.append(count_text(function_count).as_str());
    description.append(" function(s) in crate `");
    description.append(crate_name);
    description.append("`.\n\nDirect use of `map_err`, `context`, and `with_context` across many functions increases error-reporting drift and makes failure semantics harder to standardize. Centralize error shaping behind a smaller helper layer or canonical report boundary.");
    let mut location = "state/rustc/".to_owned();
    location.append(crate_name);
    location.append("/graph.json");
    let mut scope = "crate:".to_owned();
    scope.append(crate_name);
    let criteria_1 = "direct error shaping is centralized through a smaller helper surface".to_owned();
    let criteria_2 = "remaining call sites use consistent error-context conventions".to_owned();
    let criteria_3 = "graph.json is regenerated and the detector reports a lower function_count".to_owned();
    let criteria = empty_list();
    let criteria = and_text(criteria, criteria_1);
    let criteria = and_text(criteria, criteria_2);
    let criteria = and_text(criteria, criteria_3);
    let metrics = members();
    let metrics = and(metrics, "function_count", uint(function_count));
    let metrics = and(metrics, "functions", string_array(&functions));
    let metrics = and(metrics, "style_count", uint(style_count));
    let metrics = and(metrics, "styles", style_metrics);
    let metrics = and(metrics, "task", string("CentralizeErrorShaping"));
    let metrics = object(metrics);
    Issue {
        id,
        title,
        status,
        priority,
        kind,
        description,
        location,
        scope,
        metrics,
        acceptance_criteria: criteria,
        evidence,
        discovered_by: "graph_metrics_detector".to_owned(),
    }
}

/// The issue on a state and the functions that move it.
pub open spec fn state_transition_dispersion_issue(
    crate_name: Seq<char>,
    state_domain: Seq<char>,
    transitions: Seq<Seq<char>>,
    proofs: Seq<(Seq<char>, Seq<char>)>,
) -> IssueView {
    let display = state_display(state_domain);
    let transition_list = text::quoted(transitions);
    let transition_count = transitions.len();
    let workflow_count = with_proof(transitions, proofs, "transition::workflow_coordinated"@);
    let cycle_count = with_proof(transitions, proofs, "transition::read_write_cycle"@);
    let coordinated_count = coordinated(transitions, proofs);
    let all_coordinated = transitions.len() > 0 && coordinated_count == transitions.len();
    let tier = if all_coordinated { "proof"@ } else { "hypothesis"@ };
    let fragment = text::identifier_fragment(crate_name);
    let hash = text::text_hash(crate_name + ":"@ + state_domain);
    let evidence = transition_lines(transitions, proofs, display);
    IssueView {
        id: "auto_state_transition_dispersion_"@ + fragment + "_"@ + text::dec(hash as nat),
        title: "State transition dispersion for `"@ + display + "` ("@ + text::dec(transition_count as nat) + " transition sites)"@,
        status: if transition_count > 1 {
            "open"@
        } else {
            "resolved"@
        },
        priority: if transition_count >= 4 {
            "high"@
        } else {
            "medium"@
        },
        kind: "logic"@,
        description: "Compiler-observed coordinated transitions for state domain `"@ + state_domain + "` are distributed across multiple functions in crate `"@ + crate_name + "`: "@ + transition_list + ".\n\nThese sites are stronger than a bare branch-plus-write signal: each transition is workflow-coordinated or forms a read/write transition cycle before mutating the domain. Transition logic that mutates the same state domain from several unrelated sites tends to create implicit state machines, duplicated guards, and divergent recovery semantics.\n\nExtract one canonical transition layer for `"@ + display + "` and route these sites through it."@,
        location: "state/rustc/"@ + crate_name + "/graph.json"@,
        scope: "crate:"@ + crate_name,
        metrics: JsonView::Object(
            json::no_members().push(
                ("all_coordinated"@, JsonView::Bool(all_coordinated)),
            ).push(
                ("coordinates_transition_count"@, JsonView::Uint(coordinated_count as u64)),
            ).push(
                ("display_state"@, JsonView::Text(display)),
            ).push(
                ("proof_tier"@, JsonView::Text(tier)),
            ).push(
                ("read_write_cycle_count"@, JsonView::Uint(cycle_count as u64)),
            ).push(
                ("state_domain"@, JsonView::Text(state_domain)),
            ).push(
                ("task"@, JsonView::Text("CentralizeStateTransitions"@)),
            ).push(
                ("transition_count"@, JsonView::Uint(transition_count as u64)),
            ).push(
                ("transitions"@, json::text_array_view(transitions)),
            ).push(
                ("workflow_coordinated_count"@, JsonView::Uint(workflow_count as u64)),
            ),
        ),
        acceptance_criteria: text::no_texts().push(
            "state mutations for `"@ + display + "` route through one canonical transition layer"@,
        ).push(
            "branch-local transition logic is reduced or converted to thin delegates"@,
        ).push(
            "graph.json is regenerated and the detector reports at most one transition site for the state domain"@,
        ),
        evidence: evidence,
        discovered_by: "graph_metrics_detector"@,
    }
}

/// The issue on a state and the functions that move it.
pub fn build_state_transition_dispersion_issue(
    crate_name: &str,
    state_domain: &str,
    transitions: &Vec<String>,
    proofs: &Vec<Edge>,
) -> (r: Issue)
    ensures
        r@ == state_transition_dispersion_issue(crate_name@, state_domain@, text::texts(transitions@), semantic::edges_of(proofs@)),
{
    let display = display_state_domain(state_domain);
    let transition_list = quoted_list(transitions);
    let transition_count: usize = transitions.len();
    let workflow_count: usize = count_with_proof(transitions, proofs, "transition::workflow_coordinated");
    let cycle_count: usize = count_with_proof(transitions, proofs, "transition::read_write_cycle");
    let coordinated_count: usize = count_coordinated(transitions, proofs);
    let all_coordinated = transitions.len() > 0 && coordinated_count == transitions.len();
    let tier = either(all_coordinated, "proof", "hypothesis");
    let fragment = sanitize_fragment(crate_name);
    let hash: u64 = pair_hash(crate_name, ":", state_domain);
    let evidence = write_transition_lines(transitions, proofs, display.as_str());
    let mut id = "auto_state_transition_dispersion_".to_owned();
    id.append(fragment.as_str());
    id.append("_");
    id.append(decimal(hash).as_str());
    let mut title = "State transition dispersion for `".to_owned();
    title.append(display.as_str());
    title.append("` (");
    title.append(count_text(transition_count).as_str());
    title.append(" transition sites)");
    let status = either(transition_count > 1, "open", "resolved").to_owned();
    let priority = either(transition_count >= 4, "high", "medium").to_owned();
    let kind = "logic".to_owned();
    let mut description = "Compiler-observed coordinated transitions for state domain `".to_owned();
    description.append(state_domain);
    description.append("` are distributed across multiple functions in crate `");
    description.append(crate_name);
    description.append("`: ");
    description.append(transition_list.as_str());
    description.append(".\n\nThese sites are stronger than a bare branch-plus-write signal: each transition is workflow-coordinated or forms a read/write transition cycle before mutating the domain. Transition logic that mutates the same state domain from several unrelated sites tends to create implicit state machines, duplicated guards, and divergent recovery semantics.\n\nExtract one canonical transition layer for `");
    description.append(display.as_str());
    description.append("` and route these sites through it.");
    let mut location = "state/rustc/".to_owned();
    location.append(crate_name);
    location.append("/graph.json");
    let mut scope = "crate:".to_owned();
    scope.append(crate_name);
    let mut criteria_1 = "state mutations for `".to_owned();
    criteria_1.append(display.as_str());
    criteria_1.append("` route through one canonical transition layer");
    let criteria_2 = "branch-local transition logic is reduced or converted to thin delegates".to_owned();
    let criteria_3 = "graph.json is regenerated and the detector reports at most one transition site for the state domain".to_owned();
    let criteria = empty_list();
    let criteria = and_text(criteria, criteria_1);
    let criteria = and_text(criteria, criteria_2);
    let criteria = and_text(criteria, criteria_3);
    let metrics = members();
    let metrics = and(metrics, "all_coordinated", boolean(all_coordinated));
    let metrics = and(metrics, "coordinates_transition_count", uint(coordinated_count));
    let metrics = and(metrics, "display_state", string(display.as_str()));
    let metrics = and(metrics, "proof_tier", string(tier));
    let metrics = and(metrics, "read_write_cycle_count", uint(cycle_count));
    let metrics = and(metrics, "state_domain", string(state_domain));
    let metrics = and(metrics, "task", string("CentralizeStateTransitions"));
    let metrics = and(metrics, "transition_count", uint(transition_count));
    let metrics = and(metrics, "transitions", string_array(transitions));
    let metrics = and(metrics, "workflow_coordinated_count", uint(workflow_count));
    let metrics = object(metrics);
    Issue {
        id,
        title,
        status,
        priority,
        kind,
        description,
        location,
        scope,
        metrics,
        acceptance_criteria: criteria,
        evidence,
        discovered_by: "graph_metrics_detector".to_owned(),
    }
}

/// A function that leads workflow functions: the phases that it touches and those
/// that it reaches, and how many workflow calls lead to it and from it.
#[derive(Debug)]
pub struct OrchestratorRow {
    pub symbol: String,
    pub direct: Vec<String>,
    pub reached: Vec<String>,
    pub incoming: usize,
    pub outgoing: usize,
}

/// A function that leads workflow functions, as a mathematical value.
pub struct RowView {
    pub symbol: Seq<char>,
    pub direct: Seq<Seq<char>>,
    pub reached: Seq<Seq<char>>,
    pub incoming: usize,
    pub outgoing: usize,
}

impl View for OrchestratorRow {
    type V = RowView;

    open spec fn view(&self) -> RowView {
        RowView {
            symbol: self.symbol@,
            direct: text::texts(self.direct@),
            reached: text::texts(self.reached@),
            incoming: self.incoming,
            outgoing: self.outgoing,
        }
    }
}

/// The rows of a list.
pub open spec fn rows_of(v: Seq<OrchestratorRow>) -> Seq<RowView> {
    v.map_values(|r: OrchestratorRow| r@)
}

/// More phases come first, then more outgoing calls, then the shorter name, then
/// the name that is first in the order of texts.
impl Ranked for OrchestratorRow {
    open spec fn rank_le(a: RowView, b: RowView) -> bool {
        let mine = a.direct.len() + a.reached.len();
        let its = b.direct.len() + b.reached.len();
        if mine != its {
            mine > its
        } else if a.outgoing != b.outgoing {
            a.outgoing > b.outgoing
        } else if encode_utf8(a.symbol).len() != encode_utf8(b.symbol).len() {
            encode_utf8(a.symbol).len() < encode_utf8(b.symbol).len()
        } else {
            text::text_le(a.symbol, b.symbol)
        }
    }

    fn ranks_at_most(&self, other: &Self) -> (r: bool) {
        let mine: u128 = (self.direct.len() as u128) + (self.reached.len() as u128);
        let its: u128 = (other.direct.len() as u128) + (other.reached.len() as u128);
        let my_bytes: usize = byte_len(self.symbol.as_str());
        let its_bytes: usize = byte_len(other.symbol.as_str());
        if mine != its {
            mine > its
        } else if self.outgoing != other.outgoing {
            self.outgoing > other.outgoing
        } else if my_bytes != its_bytes {
            my_bytes < its_bytes
        } else {
            text_at_most(self.symbol.as_str(), other.symbol.as_str())
        }
    }

    proof fn rank_total(a: RowView, b: RowView) {
        text::lemma_text_le_total(a.symbol, b.symbol);
    }

    proof fn rank_transitive(a: RowView, b: RowView, c: RowView) {
        if text::text_le(a.symbol, b.symbol) && text::text_le(b.symbol, c.symbol) {
            text::lemma_text_le_transitive(a.symbol, b.symbol, c.symbol);
        }
    }
}

/// Where the planner loop should be: the first owner, else the first
/// orchestrator, else its usual place.
pub open spec fn loop_target(owners: Seq<RowView>, orchestrators: Seq<RowView>) -> Seq<char> {
    if owners.len() > 0 {
        owners[0].symbol
    } else if orchestrators.len() > 0 {
        orchestrators[0].symbol
    } else {
        "app::run_planner_phase"@
    }
}

fn choose_loop_target(owners: &Vec<OrchestratorRow>, orchestrators: &Vec<OrchestratorRow>) -> (r:
    String)
    ensures
        r@ == loop_target(rows_of(owners@), rows_of(orchestrators@)),
{
    if owners.len() > 0 {
        assert(rows_of(owners@)[0] == owners@[0]@);
        owners[0].symbol.clone()
    } else if orchestrators.len() > 0 {
        assert(rows_of(orchestrators@)[0] == orchestrators@[0]@);
        orchestrators[0].symbol.clone()
    } else {
        "app::run_planner_phase".to_owned()
    }
}

/// Some row is that of a symbol.
pub open spec fn has_row(rows: Seq<RowView>, symbol: Seq<char>) -> bool {
    exists|i: int| 0 <= i < rows.len() && (#[trigger] rows[i]).symbol == symbol
}

fn holds_row(rows: &Vec<OrchestratorRow>, symbol: &str) -> (r: bool)
    ensures
        r == has_row(rows_of(rows@), symbol@),
{
    let mut i: usize = 0;
    while i < rows.len()
        invariant
            i <= rows@.len(),
            forall|k: int| 0 <= k < i ==> (#[trigger] rows_of(rows@)[k]).symbol != symbol@,
        decreases rows@.len() - i,
    {
        assert(rows_of(rows@)[i as int] == rows@[i as int]@);
        if same(rows[i].symbol.as_str(), symbol) {
            return true;
        }
        i += 1;
    }
    false
}

/// The line on one row.
pub open spec fn row_line(row: RowView, role: Seq<char>) -> Seq<char> {
    role + " `"@ + row.symbol + "` touches phases ["@ + text::joined(row.direct, ", "@)
        + "] and reaches ["@ + text::joined(row.reached, ", "@) + "] (incoming_workflow="@
        + text::dec(row.incoming as nat) + ", outgoing_workflow="@ + text::dec(
        row.outgoing as nat,
    ) + ")"@
}

fn write_row_line(row: &OrchestratorRow, role: &str) -> (r: String)
    ensures
        r@ == row_line(row@, role@),
{
    let mut line = role.to_owned();
    line.append(" `");
    line.append(row.symbol.as_str());
    line.append("` touches phases [");
    line.append(join(&row.direct, ", ").as_str());
    line.append("] and reaches [");
    line.append(join(&row.reached, ", ").as_str());
    line.append("] (incoming_workflow=");
    line.append(count_text(row.incoming).as_str());
    line.append(", outgoing_workflow=");
    line.append(count_text(row.outgoing).as_str());
    line.append(")");
    line
}

/// The lines on the orchestrators that are no owners.
pub open spec fn other_lines(owners: Seq<RowView>, rows: Seq<RowView>) -> Seq<Seq<char>>
    decreases rows.len(),
{
    if rows.len() == 0 {
        Seq::empty()
    } else {
        let before = other_lines(owners, rows.drop_last());
        if has_row(owners, rows.last().symbol) {
            before
        } else {
            before.push(row_line(rows.last(), "strong workflow orchestrator"@))
        }
    }
}

/// The lines on the owners, then those on the other orchestrators, at most eight.
pub open spec fn loop_lines(owners: Seq<RowView>, orchestrators: Seq<RowView>) -> Seq<Seq<char>> {
    text::head_of(
        owners.map_values(|r: RowView| row_line(r, "workflow owner candidate"@)) + other_lines(
            owners,
            orchestrators,
        ),
        8,
    )
}

fn write_loop_lines(owners: &Vec<OrchestratorRow>, orchestrators: &Vec<OrchestratorRow>) -> (r: Vec<
    String,
>)
    ensures
        text::texts(r@) == loop_lines(rows_of(owners@), rows_of(orchestrators@)),
{
    let ghost os = rows_of(owners@);
    let ghost rs = rows_of(orchestrators@);
    let mut lines: Vec<String> = Vec::new();
    let mut i: usize = 0;
    while i < owners.len()
        invariant
            i <= owners@.len(),
            lines@.len() == i,
            forall|k: int|
                0 <= k < i ==> (#[trigger] lines@[k])@ == row_line(
                    owners@[k]@,
                    "workflow owner candidate"@,
                ),
        decreases owners@.len() - i,
    {
        lines.push(write_row_line(&owners[i], "workflow owner candidate"));
        i += 1;
    }
    let ghost own = os.map_values(|r: RowView| row_line(r, "workflow owner candidate"@));
    let mut k: usize = 0;
    proof {
        assert(text::texts(lines@) =~= own);
        assert(rs.take(0) =~= Seq::<RowView>::empty());
        assert(text::texts(lines@) =~= own + other_lines(os, rs.take(0)));
    }
    while k < orchestrators.len()
        invariant
            k <= orchestrators@.len(),
            os == rows_of(owners@),
            rs == rows_of(orchestrators@),
            text::texts(lines@) == own + other_lines(os, rs.take(k as int)),
        decreases orchestrators@.len() - k,
    {
        let ghost before = text::texts(lines@);
        proof {
            assert(rs.take(k + 1).drop_last() =~= rs.take(k as int));
            assert(rs.take(k + 1).last() == orchestrators@[k as int]@);
        }
        if !holds_row(owners, orchestrators[k].symbol.as_str()) {
            let line = write_row_line(&orchestrators[k], "strong workflow orchestrator");
            lines.push(line);
            assert(text::texts(lines@) =~= before.push(line@));
            assert(text::texts(lines@) =~= own + other_lines(os, rs.take(k + 1)));
        }
        k += 1;
    }
    assert(rs.take(k as int) =~= rs);
    take_head(&lines, 8)
}

/// One row.
pub open spec fn row_value(row: RowView) -> JsonView {
    JsonView::Object(
        json::no_members().push(("direct_phases"@, json::text_array_view(row.direct))).push(
            ("incoming_workflow"@, JsonView::Uint(row.incoming as u64)),
        ).push(("outgoing_workflow"@, JsonView::Uint(row.outgoing as u64))).push(
            ("reached_phases"@, json::text_array_view(row.reached)),
        ).push(("symbol"@, JsonView::Text(row.symbol))),
    )
}

/// All rows.
pub open spec fn row_values(rows: Seq<RowView>) -> JsonView {
    JsonView::Array(rows.map_values(|r: RowView| row_value(r)))
}

fn write_row_values(rows: &Vec<OrchestratorRow>) -> (r: Json)
    ensures
        r@ == row_values(rows_of(rows@)),
{
    let mut values: Vec<Json> = Vec::new();
    let mut i: usize = 0;
    while i < rows.len()
        invariant
            i <= rows@.len(),
            values@.len() == i,
            forall|k: int| 0 <= k < i ==> (#[trigger] values@[k])@ == row_value(rows@[k]@),
        decreases rows@.len() - i,
    {
        let row = &rows[i];
        let value = members();
        let value = and(value, "direct_phases", string_array(&row.direct));
        let value = and(value, "incoming_workflow", uint(row.incoming));
        let value = and(value, "outgoing_workflow", uint(row.outgoing));
        let value = and(value, "reached_phases", string_array(&row.reached));
        let value = and(value, "symbol", string(row.symbol.as_str()));
        values.push(object(value));
        i += 1;
    }
    let r = array(values);
    assert(r@->Array_0 =~= row_values(rows_of(rows@))->Array_0);
    r
}

/// The issue on the functions that own the planner loop.
pub open spec fn planner_loop_fragmentation_issue(
    crate_name: Seq<char>,
    phase_count: usize,
    planner_count: usize,
    apply_count: usize,
    verify_count: usize,
    owners: Seq<RowView>,
    orchestrators: Seq<RowView>,
) -> IssueView {
    let owner_count = owners.len();
    let orchestrator_count = orchestrators.len();
    let target = loop_target(owners, orchestrators);
    let fragment = text::identifier_fragment(crate_name);
    let evidence = loop_lines(owners, orchestrators);
    let orchestrator_metrics = row_values(orchestrators);
    let owner_metrics = row_values(owners);
    IssueView {
        id: "auto_planner_loop_fragmentation_"@ + fragment,
        title: "Planner/apply/verify fragmentation in `"@ + crate_name + "` ("@ + text::dec(owner_count as nat) + " owner candidates)"@,
        status: if owner_count > 1 {
            "open"@
        } else {
            "resolved"@
        },
        priority: if owner_count >= 4 {
            "high"@
        } else {
            "medium"@
        },
        kind: "logic"@,
        description: "Compiler-observed workflow-domain functions in crate `"@ + crate_name + "` are spread across planner/apply/verify phases without a single clear orchestrator. Detected phase counts: planner="@ + text::dec(planner_count as nat) + ", apply="@ + text::dec(apply_count as nat) + ", verify="@ + text::dec(verify_count as nat) + ". Hypothesis-grade workflow analysis found "@ + text::dec(orchestrator_count as nat) + " strong orchestrators and "@ + text::dec(owner_count as nat) + " owner candidates.\n\nThis usually means the planner/apply/verify loop is fragmented across multiple entrypoints instead of one canonical control path. Consolidate orchestration around `"@ + target + "` or another single workflow owner, and downgrade the remaining sites to thin delegates."@,
        location: "state/rustc/"@ + crate_name + "/graph.json"@,
        scope: "crate:"@ + crate_name,
        metrics: JsonView::Object(
            json::no_members().push(
                ("apply_count"@, JsonView::Uint(apply_count as u64)),
            ).push(
                ("canonical_target_candidate"@, JsonView::Text(target)),
            ).push(
                ("orchestrator_count"@, JsonView::Uint(orchestrator_count as u64)),
            ).push(
                ("orchestrators"@, orchestrator_metrics),
            ).push(
                ("owner_candidate_count"@, JsonView::Uint(owner_count as u64)),
            ).push(
                ("owner_candidates"@, owner_metrics),
            ).push(
                ("phase_count"@, JsonView::Uint(phase_count as u64)),
            ).push(
                ("planner_count"@, JsonView::Uint(planner_count as u64)),
            ).push(
                ("proof_tier"@, JsonView::Text("hypothesis"@)),
            ).push(
                ("task"@, JsonView::Text("CentralizePlannerLoop"@)),
            ).push(
                ("verify_count"@, JsonView::Uint(verify_count as u64)),
            ),
        ),
        acceptance_criteria: text::no_texts().push(
            "planner/apply/verify orchestration is centralized through one canonical control path"@,
        ).push(
            "secondary workflow entrypoints are deleted or reduced to thin delegates"@,
        ).push(
            "graph.json is regenerated and the detector reports at most one owner candidate"@,
        ),
        evidence: evidence,
        discovered_by: "graph_metrics_detector"@,
    }
}

/// The issue on the functions that own the planner loop.
pub fn build_planner_loop_fragmentation_issue(
    crate_name: &str,
    phase_count: usize,
    planner_count: usize,
    apply_count: usize,
    verify_count: usize,
    owners: &Vec<OrchestratorRow>,
    orchestrators: &Vec<OrchestratorRow>,
) -> (r: Issue)
    ensures
        r@ == planner_loop_fragmentation_issue(crate_name@, phase_count, planner_count, apply_count, verify_count, rows_of(owners@), rows_of(orchestrators@)),
{
    let owner_count: usize = owners.len();
    let orchestrator_count: usize = orchestrators.len();
    let target = choose_loop_target(owners, orchestrators);
    let fragment = sanitize_fragment(crate_name);
    let evidence = write_loop_lines(owners, orchestrators);
    let orchestrator_metrics = write_row_values(orchestrators);
    let owner_metrics = write_row_values(owners);
    let mut id = "auto_planner_loop_fragmentation_".to_owned();
    id.append(fragment.as_str());
    let mut title = "Planner/apply/verify fragmentation in `".to_owned();
    title.append(crate_name);
    title.append("` (");
    title.append(count_text(owner_count).as_str());
    title.append(" owner candidates)");
    let status = either(owner_count > 1, "open", "resolved").to_owned();
    let priority = either(owner_count >= 4, "high", "medium").to_owned();
    let kind = "logic".to_owned();
    let mut description = "Compiler-observed workflow-domain functions in crate `".to_owned();
    description.append(crate_name);
    description.append("` are spread across planner/apply/verify phases without a single clear orchestrator. Detected phase counts: planner=");
    description.append(count_text(planner_count).as_str());
    description.append(", apply=");
    description.append(count_text(apply_count).as_str());
    description.append(", verify=");
    description.append(count_text(verify_count).as_str());
    description.append(". Hypothesis-grade workflow analysis found ");
    description.append(count_text(orchestrator_count).as_str());
    description.append(" strong orchestrators and ");
    description.append(count_text(owner_count).as_str());
    description.append(" owner candidates.\n\nThis usually means the planner/apply/verify loop is fragmented across multiple entrypoints instead of one canonical control path. Consolidate orchestration around `");
    description.append(target.as_str());
    description.append("` or another single workflow owner, and downgrade the remaining sites to thin delegates.");
    let mut location = "state/rustc/".to_owned();
    location.append(crate_name);
    location.append("/graph.json");
    let mut scope = "crate:".to_owned();
    scope.append(crate_name);
    let criteria_1 = "planner/apply/verify orchestration is centralized through one canonical control path".to_owned();
    let criteria_2 = "secondary workflow entrypoints are deleted or reduced to thin delegates".to_owned();
    let criteria_3 = "graph.json is regenerated and the detector reports at most one owner candidate".to_owned();
    let criteria = empty_list();
    let criteria = and_text(criteria, criteria_1);
    let criteria = and_text(criteria, criteria_2);
    let criteria = and_text(criteria, criteria_3);
    let metrics = members();
    let metrics = and(metrics, "apply_count", uint(apply_count));
    let metrics = and(metrics, "canonical_target_candidate", string(target.as_str()));
    let metrics = and(metrics, "orchestrator_count", uint(orchestrator_count));
    let metrics = and(metrics, "orchestrators", orchestrator_metrics);
    let metrics = and(metrics, "owner_candidate_count", uint(owner_count));
    let metrics = and(metrics, "owner_candidates", owner_metrics);
    let metrics = and(metrics, "phase_count", uint(phase_count));
    let metrics = and(metrics, "planner_count", uint(planner_count));
    let metrics = and(metrics, "proof_tier", string("hypothesis"));
    let metrics = and(metrics, "task", string("CentralizePlannerLoop"));
    let metrics = and(metrics, "verify_count", uint(verify_count));
    let metrics = object(metrics);
    Issue {
        id,
        title,
        status,
        priority,
        kind,
        description,
        location,
        scope,
        metrics,
        acceptance_criteria: criteria,
        evidence,
        discovered_by: "graph_metrics_detector".to_owned(),
    }
}

/// The issue on a function that hides a state machine.
pub open spec fn implicit_state_machine_issue(
    crate_name: Seq<char>,
    summary: SymbolSummary,
    states: Seq<Seq<char>>,
) -> IssueView {
    let symbol = summary.symbol@;
    let file = summary.display_file@;
    let line = summary.line;
    let switchint_count = summary.switchint_count;
    let back_edges = if summary.has_back_edges { "true"@ } else { "false"@ };
    let score = semantic::two_places(summary.branch_half_points);
    let score_number = semantic::one_place(summary.branch_half_points);
    let domains = text::joined(states_display(states), ", "@);
    let state_count = states.len();
    let loops = summary.has_back_edges;
    let fragment = text::identifier_fragment(crate_name);
    let hash = text::text_hash(crate_name + ":"@ + symbol);
    IssueView {
        id: "auto_implicit_state_machine_"@ + fragment + "_"@ + text::dec(hash as nat),
        title: "Implicit state machine candidate in `"@ + symbol + "`"@,
        status: "open"@,
        priority: if loops || state_count >= 2 {
            "high"@
        } else {
            "medium"@
        },
        kind: "logic"@,
        description: "Function `"@ + symbol + "` in crate `"@ + crate_name + "` combines compiler-observed state transitions with non-trivial branching. This is a hypothesis-grade signal that the function is encoding a state machine implicitly rather than through an explicit enum + transition table.\n\nObserved state domains: "@ + domains + ". Consider extracting a first-class transition type or routing the mutation through a canonical transition engine."@,
        location: file + ":"@ + text::dec(line as nat),
        scope: "crate:"@ + crate_name,
        metrics: JsonView::Object(
            json::no_members().push(
                ("branch_score"@, JsonView::Number(score_number)),
            ).push(
                ("has_back_edges"@, JsonView::Bool(loops)),
            ).push(
                ("proof_tier"@, JsonView::Text("hypothesis"@)),
            ).push(
                ("state_domains"@, json::text_array_view(states)),
            ).push(
                ("switchint_count"@, JsonView::Uint(switchint_count as u64)),
            ).push(
                ("symbol"@, JsonView::Text(symbol)),
            ).push(
                ("task"@, JsonView::Text("ExtractImplicitStateMachine"@)),
            ),
        ),
        acceptance_criteria: text::no_texts().push(
            "branch-driven state mutation is extracted into an explicit state transition abstraction"@,
        ).push(
            "remaining function body delegates to the extracted transition helper or table"@,
        ).push(
            "graph.json is regenerated and the detector no longer reports the function"@,
        ),
        evidence: text::no_texts().push(
            "state transition domains: "@ + domains,
        ).push(
            "branch_score="@ + score + ", switchint_count="@ + text::dec(switchint_count as nat) + ", has_back_edges="@ + back_edges,
        ),
        discovered_by: "graph_metrics_detector"@,
    }
}

/// The issue on a function that hides a state machine.
pub fn build_implicit_state_machine_issue(
    crate_name: &str,
    summary: &SymbolSummary,
    states: &Vec<String>,
) -> (r: Issue)
    ensures
        r@ == implicit_state_machine_issue(crate_name@, *summary, text::texts(states@)),
{
    let symbol = summary.symbol.as_str();
    let file = summary.display_file.as_str();
    let line: u64 = summary.line as u64;
    let switchint_count: usize = summary.switchint_count;
    let back_edges = either(summary.has_back_edges, "true", "false");
    let score = two_place_score(summary.branch_half_points);
    let score_number = one_place_score(summary.branch_half_points);
    let domains = join(&display_states(states), ", ");
    let state_count: usize = states.len();
    let loops = summary.has_back_edges;
    let fragment = sanitize_fragment(crate_name);
    let hash: u64 = pair_hash(crate_name, ":", symbol);
    let mut id = "auto_implicit_state_machine_".to_owned();
    id.append(fragment.as_str());
    id.append("_");
    id.append(decimal(hash).as_str());
    let mut title = "Implicit state machine candidate in `".to_owned();
    title.append(symbol);
    title.append("`");
    let status = "open".to_owned();
    let priority = either(loops || state_count >= 2, "high", "medium").to_owned();
    let kind = "logic".to_owned();
    let mut description = "Function `".to_owned();
    description.append(symbol);
    description.append("` in crate `");
    description.append(crate_name);
    description.append("` combines compiler-observed state transitions with non-trivial branching. This is a hypothesis-grade signal that the function is encoding a state machine implicitly rather than through an explicit enum + transition table.\n\nObserved state domains: ");
    description.append(domains.as_str());
    description.append(". Consider extracting a first-class transition type or routing the mutation through a canonical transition engine.");
    let mut location = file.to_owned();
    location.append(":");
    location.append(decimal(line).as_str());
    let mut scope = "crate:".to_owned();
    scope.append(crate_name);
    let criteria_1 = "branch-driven state mutation is extracted into an explicit state transition abstraction".to_owned();
    let criteria_2 = "remaining function body delegates to the extracted transition helper or table".to_owned();
    let criteria_3 = "graph.json is regenerated and the detector no longer reports the function".to_owned();
    let criteria = empty_list();
    let criteria = and_text(criteria, criteria_1);
    let criteria = and_text(criteria, criteria_2);
    let criteria = and_text(criteria, criteria_3);
    let mut evidence_1 = "state transition domains: ".to_owned();
    evidence_1.append(domains.as_str());
    let mut evidence_2 = "branch_score=".to_owned();
    evidence_2.append(score.as_str());
    evidence_2.append(", switchint_count=");
    evidence_2.append(count_text(switchint_count).as_str());
    evidence_2.append(", has_back_edges=");
    evidence_2.append(back_edges);
    let evidence = empty_list();
    let evidence = and_text(evidence, evidence_1);
    let evidence = and_text(evidence, evidence_2);
    let metrics = members();
    let metrics = and(metrics, "branch_score", written(score_number.as_str()));
    let metrics = and(metrics, "has_back_edges", boolean(loops));
    let metrics = and(metrics, "proof_tier", string("hypothesis"));
    let metrics = and(metrics, "state_domains", string_array(states));
    let metrics = and(metrics, "switchint_count", uint(switchint_count));
    let metrics = and(metrics, "symbol", string(symbol));
    let metrics = and(metrics, "task", string("ExtractImplicitStateMachine"));
    let metrics = object(metrics);
    Issue {
        id,
        title,
        status,
        priority,
        kind,
        description,
        location,
        scope,
        metrics,
        acceptance_criteria: criteria,
        evidence,
        discovered_by: "graph_metrics_detector".to_owned(),
    }
}

/// What one symbol does.
pub open spec fn effect_line(g: (Seq<char>, Seq<Seq<char>>)) -> Seq<char> {
    let key = g.0;
    let members = g.1;
    let effects = text::joined(members, ", "@);
    "`"@ + key + "` directly performs ["@ + effects + "]"@
}

fn write_effect_line(g: &Group) -> (r: String)
    ensures
        r@ == effect_line(g@),
{
    let key = g.key.as_str();
    let members = &g.members;
    let effects = join(members, ", ");
    let mut line = "`".to_owned();
    line.append(key);
    line.append("` directly performs [");
    line.append(effects.as_str());
    line.append("]");
    line
}

/// What one symbol does.
pub open spec fn effect_lines(gs: Seq<(Seq<char>, Seq<Seq<char>>)>) -> Seq<Seq<char>> {
    gs.map_values(|g: (Seq<char>, Seq<Seq<char>>)| effect_line(g))
}

fn write_effect_lines(gs: &Vec<Group>) -> (r: Vec<String>)
    ensures
        text::texts(r@) == effect_lines(groups::groups_of(gs@)),
{
    let mut lines: Vec<String> = Vec::new();
    let mut i: usize = 0;
    while i < gs.len()
        invariant
            i <= gs@.len(),
            lines@.len() == i,
            forall|k: int| 0 <= k < i ==> (#[trigger] lines@[k])@ == effect_line(gs@[k]@),
        decreases gs@.len() - i,
    {
        lines.push(write_effect_line(&gs[i]));
        i += 1;
    }
    assert(text::texts(lines@) =~= effect_lines(groups::groups_of(gs@)));
    lines
}

/// What one symbol does.
pub open spec fn effect_value(g: (Seq<char>, Seq<Seq<char>>)) -> JsonView {
    let key = g.0;
    let members = g.1;
    JsonView::Object(
        json::no_members().push(
            ("effects"@, json::text_array_view(members)),
        ).push(
            ("symbol"@, JsonView::Text(key)),
        ),
    )
}

fn write_effect_value(g: &Group) -> (r: Json)
    ensures
        r@ == effect_value(g@),
{
    let key = g.key.as_str();
    let members_of = &g.members;
    let value = members();
    let value = and(value, "effects", string_array(members_of));
    let value = and(value, "symbol", string(key));
    let value = object(value);
    value
}

/// What one symbol does.
pub open spec fn effect_values(gs: Seq<(Seq<char>, Seq<Seq<char>>)>) -> JsonView {
    JsonView::Array(gs.map_values(|g: (Seq<char>, Seq<Seq<char>>)| effect_value(g)))
}

fn write_effect_values(gs: &Vec<Group>) -> (r: Json)
    ensures
        r@ == effect_values(groups::groups_of(gs@)),
{
    let mut values: Vec<Json> = Vec::new();
    let mut i: usize = 0;
    while i < gs.len()
        invariant
            i <= gs@.len(),
            values@.len() == i,
            forall|k: int| 0 <= k < i ==> (#[trigger] values@[k])@ == effect_value(gs@[k]@),
        decreases gs@.len() - i,
    {
        values.push(write_effect_value(&gs[i]));
        i += 1;
    }
    let r = array(values);
    assert(r@->Array_0 =~= effect_values(groups::groups_of(gs@))->Array_0);
    r
}

/// The issue on a module whose symbols mix effects.
pub open spec fn effect_boundary_leak_issue(
    crate_name: Seq<char>,
    module: Seq<char>,
    rows: Seq<(Seq<char>, Seq<Seq<char>>)>,
) -> IssueView {
    let row_count = rows.len();
    let fragment = text::identifier_fragment(crate_name);
    let hash = text::text_hash(crate_name + ":"@ + module);
    let evidence = effect_lines(rows);
    let symbol_metrics = effect_values(rows);
    IssueView {
        id: "auto_effect_boundary_leak_"@ + fragment + "_"@ + text::dec(hash as nat),
        title: "Effect boundary leak in `"@ + module + "` ("@ + text::dec(row_count as nat) + " effectful symbols)"@,
        status: if row_count == 0 {
            "resolved"@
        } else {
            "open"@
        },
        priority: if row_count >= 2 {
            "high"@
        } else {
            "medium"@
        },
        kind: "logic"@,
        description: "Module `"@ + module + "` in crate `"@ + crate_name + "` directly mixes multiple effect families instead of routing them through a narrower boundary layer. This is a hypothesis-grade boundary leak signal: symbols in the module are simultaneously handling state/artifact IO and error shaping or transition logic.\n\nRecommended direction: move direct effects behind `logging / canonical_writer / app orchestration boundary` and leave `"@ + module + "` with orchestration or pure transformation responsibilities only."@,
        location: "state/rustc/"@ + crate_name + "/graph.json"@,
        scope: "crate:"@ + crate_name,
        metrics: JsonView::Object(
            json::no_members().push(
                ("canonical_target_candidate"@, JsonView::Text("logging / canonical_writer / app orchestration boundary"@)),
            ).push(
                ("module"@, JsonView::Text(module)),
            ).push(
                ("proof_tier"@, JsonView::Text("hypothesis"@)),
            ).push(
                ("symbol_count"@, JsonView::Uint(row_count as u64)),
            ).push(
                ("symbols"@, symbol_metrics),
            ).push(
                ("task"@, JsonView::Text("RepairEffectBoundary"@)),
            ),
        ),
        acceptance_criteria: text::no_texts().push(
            "direct multi-effect work is removed from `"@ + module + "` or routed through a canonical boundary layer"@,
        ).push(
            "remaining symbols in the module focus on orchestration or pure transformation"@,
        ).push(
            "graph.json is regenerated and the detector reports fewer leaked effectful symbols"@,
        ),
        evidence: evidence,
        discovered_by: "graph_metrics_detector"@,
    }
}

/// The issue on a module whose symbols mix effects.
pub fn build_effect_boundary_leak_issue(
    crate_name: &str,
    module: &str,
    rows: &Vec<Group>,
) -> (r: Issue)
    ensures
        r@ == effect_boundary_leak_issue(crate_name@, module@, groups::groups_of(rows@)),
{
    let row_count: usize = rows.len();
    let fragment = sanitize_fragment(crate_name);
    let hash: u64 = pair_hash(crate_name, ":", module);
    let evidence = write_effect_lines(rows);
    let symbol_metrics = write_effect_values(rows);
    let mut id = "auto_effect_boundary_leak_".to_owned();
    id.append(fragment.as_str());
    id.append("_");
    id.append(decimal(hash).as_str());
    let mut title = "Effect boundary leak in `".to_owned();
    title.append(module);
    title.append("` (");
    title.append(count_text(row_count).as_str());
    title.append(" effectful symbols)");
    let status = either(row_count == 0, "resolved", "open").to_owned();
    let priority = either(row_count >= 2, "high", "medium").to_owned();
    let kind = "logic".to_owned();
    let mut description = "Module `".to_owned();
    description.append(module);
    description.append("` in crate `");
    description.append(crate_name);
    description.append("` directly mixes multiple effect families instead of routing them through a narrower boundary layer. This is a hypothesis-grade boundary leak signal: symbols in the module are simultaneously handling state/artifact IO and error shaping or transition logic.\n\nRecommended direction: move direct effects behind `logging / canonical_writer / app orchestration boundary` and leave `");
    description.append(module);
    description.append("` with orchestration or pure transformation responsibilities only.");
    let mut location = "state/rustc/".to_owned();
    location.append(crate_name);
    location.append("/graph.json");
    let mut scope = "crate:".to_owned();
    scope.append(crate_name);
    let mut criteria_1 = "direct multi-effect work is removed from `".to_owned();
    criteria_1.append(module);
    criteria_1.append("` or routed through a canonical boundary layer");
    let criteria_2 = "remaining symbols in the module focus on orchestration or pure transformation".to_owned();
    let criteria_3 = "graph.json is regenerated and the detector reports fewer leaked effectful symbols".to_owned();
    let criteria = empty_list();
    let criteria = and_text(criteria, criteria_1);
    let criteria = and_text(criteria, criteria_2);
    let criteria = and_text(criteria, criteria_3);
    let metrics = members();
    let metrics = and(metrics, "canonical_target_candidate", string("logging / canonical_writer / app orchestration boundary"));
    let metrics = and(metrics, "module", string(module));
    let metrics = and(metrics, "proof_tier", string("hypothesis"));
    let metrics = and(metrics, "symbol_count", uint(row_count));
    let metrics = and(metrics, "symbols", symbol_metrics);
    let metrics = and(metrics, "task", string("RepairEffectBoundary"));
    let metrics = object(metrics);
    Issue {
        id,
        title,
        status,
        priority,
        kind,
        description,
        location,
        scope,
        metrics,
        acceptance_criteria: criteria,
        evidence,
        discovered_by: "graph_metrics_detector".to_owned(),
    }
}

/// The issue on the functions that turn one domain into another.
pub open spec fn representation_fanout_issue(
    crate_name: Seq<char>,
    source: Seq<char>,
    target: Seq<char>,
    symbols: Seq<Seq<char>>,
    canonical: Seq<char>,
) -> IssueView {
    let from = domain_display(source);
    let to = domain_display(target);
    let site_count = symbols.len();
    let fragment = text::identifier_fragment(crate_name);
    let hash = text::text_hash(crate_name + ":"@ + source + "->"@ + target);
    let reads = "` reads `"@ + from + "` and writes `"@ + to + "`"@;
    let evidence = text::wrapped(symbols, "translation site `"@, reads);
    IssueView {
        id: "auto_representation_fanout_"@ + fragment + "_"@ + text::dec(hash as nat),
        title: "Representation fanout from `"@ + from + "` to `"@ + to + "` ("@ + text::dec(site_count as nat) + " translation sites)"@,
        status: if site_count > 1 {
            "open"@
        } else {
            "resolved"@
        },
        priority: if site_count >= 3 {
            "high"@
        } else {
            "medium"@
        },
        kind: "logic"@,
        description: "Crate `"@ + crate_name + "` contains multiple translation sites from `"@ + from + "` to `"@ + to + "`. This is a hypothesis-grade representation fanout signal: the same domain conversion is implemented in several functions instead of being routed through one canonical translator.\n\nRecommended direction: keep one canonical translation entrypoint such as `"@ + canonical + "` and redirect the remaining sites through it."@,
        location: "state/rustc/"@ + crate_name + "/graph.json"@,
        scope: "crate:"@ + crate_name,
        metrics: JsonView::Object(
            json::no_members().push(
                ("canonical_target_candidate"@, JsonView::Text(canonical)),
            ).push(
                ("proof_tier"@, JsonView::Text("hypothesis"@)),
            ).push(
                ("source_domain"@, JsonView::Text(source)),
            ).push(
                ("symbols"@, json::text_array_view(symbols)),
            ).push(
                ("target_domain"@, JsonView::Text(target)),
            ).push(
                ("task"@, JsonView::Text("CentralizeRepresentationTranslation"@)),
            ).push(
                ("translation_site_count"@, JsonView::Uint(site_count as u64)),
            ),
        ),
        acceptance_criteria: text::no_texts().push(
            "one canonical translation path remains for `"@ + from + "` -> `"@ + to + "`"@,
        ).push(
            "other translation sites delegate to the canonical translator or are deleted"@,
        ).push(
            "graph.json is regenerated and the detector reports fewer translation sites for the pair"@,
        ),
        evidence: evidence,
        discovered_by: "graph_metrics_detector"@,
    }
}

/// The issue on the functions that turn one domain into another.
pub fn build_representation_fanout_issue(
    crate_name: &str,
    source: &str,
    target: &str,
    symbols: &Vec<String>,
    canonical: &str,
) -> (r: Issue)
    ensures
        r@ == representation_fanout_issue(crate_name@, source@, target@, text::texts(symbols@), canonical@),
{
    let from = display_representation_domain(source);
    let to = display_representation_domain(target);
    let site_count: usize = symbols.len();
    let fragment = sanitize_fragment(crate_name);
    let hash: u64 = triple_hash(crate_name, source, target);
    let reads = reads_and_writes(from.as_str(), to.as_str());
    let evidence = wrap_each(symbols, "translation site `", reads.as_str());
    let mut id = "auto_representation_fanout_".to_owned();
    id.append(fragment.as_str());
    id.append("_");
    id.append(decimal(hash).as_str());
    let mut title = "Representation fanout from `".to_owned();
    title.append(from.as_str());
    title.append("` to `");
    title.append(to.as_str());
    title.append("` (");
    title.append(count_text(site_count).as_str());
    title.append(" translation sites)");
    let status = either(site_count > 1, "open", "resolved").to_owned();
    let priority = either(site_count >= 3, "high", "medium").to_owned();
    let kind = "logic".to_owned();
    let mut description = "Crate `".to_owned();
    description.append(crate_name);
    description.append("` contains multiple translation sites from `");
    description.append(from.as_str());
    description.append("` to `");
    description.append(to.as_str());
    description.append("`. This is a hypothesis-grade representation fanout signal: the same domain conversion is implemented in several functions instead of being routed through one canonical translator.\n\nRecommended direction: keep one canonical translation entrypoint such as `");
    description.append(canonical);
    description.append("` and redirect the remaining sites through it.");
    let mut location = "state/rustc/".to_owned();
    location.append(crate_name);
    location.append("/graph.json");
    let mut scope = "crate:".to_owned();
    scope.append(crate_name);
    let mut criteria_1 = "one canonical translation path remains for `".to_owned();
    criteria_1.append(from.as_str());
    criteria_1.append("` -> `");
    criteria_1.append(to.as_str());
    criteria_1.append("`");
    let criteria_2 = "other translation sites delegate to the canonical translator or are deleted".to_owned();
    let criteria_3 = "graph.json is regenerated and the detector reports fewer translation sites for the pair".to_owned();
    let criteria = empty_list();
    let criteria = and_text(criteria, criteria_1);
    let criteria = and_text(criteria, criteria_2);
    let criteria = and_text(criteria, criteria_3);
    let metrics = members();
    let metrics = and(metrics, "canonical_target_candidate", string(canonical));
    let metrics = and(metrics, "proof_tier", string("hypothesis"));
    let metrics = and(metrics, "source_domain", string(source));
    let metrics = and(metrics, "symbols", string_array(symbols));
    let metrics = and(metrics, "target_domain", string(target));
    let metrics = and(metrics, "task", string("CentralizeRepresentationTranslation"));
    let metrics = and(metrics, "translation_site_count", uint(site_count));
    let metrics = object(metrics);
    Issue {
        id,
        title,
        status,
        priority,
        kind,
        description,
        location,
        scope,
        metrics,
        acceptance_criteria: criteria,
        evidence,
        discovered_by: "graph_metrics_detector".to_owned(),
    }
}

/// The issue on a function with a heavy loop.
pub open spec fn scc_region_reduction_issue(
    crate_name: Seq<char>,
    summary: SymbolSummary,
    back_edge_count: usize,
    redundant_path_count: usize,
) -> IssueView {
    let symbol = summary.symbol@;
    let file = summary.display_file@;
    let line = summary.line;
    let switchint_count = summary.switchint_count;
    let back_edges = if summary.has_back_edges { "true"@ } else { "false"@ };
    let score = semantic::two_places(summary.branch_half_points);
    let score_number = semantic::one_place(summary.branch_half_points);
    let fragment = text::identifier_fragment(crate_name);
    let hash = text::text_hash(crate_name + ":"@ + symbol);
    IssueView {
        id: "auto_scc_region_reduction_"@ + fragment + "_"@ + text::dec(hash as nat),
        title: "SCC region reduction candidate in `"@ + symbol + "`"@,
        status: "open"@,
        priority: if back_edge_count >= 2 || redundant_path_count >= 2 {
            "high"@
        } else {
            "medium"@
        },
        kind: "logic"@,
        description: "Function `"@ + symbol + "` in crate `"@ + crate_name + "` contains a loop-heavy SCC control region. The CFG shows explicit back edges and branching pressure concentrated in one cycle-heavy region.\n\nRecommended direction: isolate the SCC behind one dispatcher, collapse loop exits, or extract a smaller transition reducer for the cycle."@,
        location: file + ":"@ + text::dec(line as nat),
        scope: "crate:"@ + crate_name,
        metrics: JsonView::Object(
            json::no_members().push(
                ("back_edge_count"@, JsonView::Uint(back_edge_count as u64)),
            ).push(
                ("branch_score"@, JsonView::Number(score_number)),
            ).push(
                ("proof_tier"@, JsonView::Text("hypothesis"@)),
            ).push(
                ("redundant_path_count"@, JsonView::Uint(redundant_path_count as u64)),
            ).push(
                ("region_kind"@, JsonView::Text("loop/SCC"@)),
            ).push(
                ("switchint_count"@, JsonView::Uint(switchint_count as u64)),
            ).push(
                ("symbol"@, JsonView::Text(symbol)),
            ).push(
                ("task"@, JsonView::Text("ReduceSccRegion"@)),
            ),
        ),
        acceptance_criteria: text::no_texts().push(
            "the loop-heavy SCC is reduced to a simpler control cycle or dispatcher"@,
        ).push(
            "remaining back-edge behavior is routed through one canonical reducer"@,
        ).push(
            "graph.json is regenerated and the detector reports lower back-edge pressure for the function"@,
        ),
        evidence: text::no_texts().push(
            "branch_score="@ + score + ", switchint_count="@ + text::dec(switchint_count as nat) + ", has_back_edges="@ + back_edges,
        ).push(
            "back_edge_count="@ + text::dec(back_edge_count as nat) + ", redundant_path_count="@ + text::dec(redundant_path_count as nat),
        ),
        discovered_by: "graph_metrics_detector"@,
    }
}

/// The issue on a function with a heavy loop.
pub fn build_scc_region_reduction_issue(
    crate_name: &str,
    summary: &SymbolSummary,
    back_edge_count: usize,
    redundant_path_count: usize,
) -> (r: Issue)
    ensures
        r@ == scc_region_reduction_issue(crate_name@, *summary, back_edge_count, redundant_path_count),
{
    let symbol = summary.symbol.as_str();
    let file = summary.display_file.as_str();
    let line: u64 = summary.line as u64;
    let switchint_count: usize = summary.switchint_count;
    let back_edges = either(summary.has_back_edges, "true", "false");
    let score = two_place_score(summary.branch_half_points);
    let score_number = one_place_score(summary.branch_half_points);
    let fragment = sanitize_fragment(crate_name);
    let hash: u64 = pair_hash(crate_name, ":", symbol);
    let mut id = "auto_scc_region_reduction_".to_owned();
    id.append(fragment.as_str());
    id.append("_");
    id.append(decimal(hash).as_str());
    let mut title = "SCC region reduction candidate in `".to_owned();
    title.append(symbol);
    title.append("`");
    let status = "open".to_owned();
    let priority = either(back_edge_count >= 2 || redundant_path_count >= 2, "high", "medium").to_owned();
    let kind = "logic".to_owned();
    let mut description = "Function `".to_owned();
    description.append(symbol);
    description.append("` in crate `");
    description.append(crate_name);
    description.append("` contains a loop-heavy SCC control region. The CFG shows explicit back edges and branching pressure concentrated in one cycle-heavy region.\n\nRecommended direction: isolate the SCC behind one dispatcher, collapse loop exits, or extract a smaller transition reducer for the cycle.");
    let mut location = file.to_owned();
    location.append(":");
    location.append(decimal(line).as_str());
    let mut scope = "crate:".to_owned();
    scope.append(crate_name);
    let criteria_1 = "the loop-heavy SCC is reduced to a simpler control cycle or dispatcher".to_owned();
    let criteria_2 = "remaining back-edge behavior is routed through one canonical reducer".to_owned();
    let criteria_3 = "graph.json is regenerated and the detector reports lower back-edge pressure for the function".to_owned();
    let criteria = empty_list();
    let criteria = and_text(criteria, criteria_1);
    let criteria = and_text(criteria, criteria_2);
    let criteria = and_text(criteria, criteria_3);
    let mut evidence_1 = "branch_score=".to_owned();
    evidence_1.append(score.as_str());
    evidence_1.append(", switchint_count=");
    evidence_1.append(count_text(switchint_count).as_str());
    evidence_1.append(", has_back_edges=");
    evidence_1.append(back_edges);
    let mut evidence_2 = "back_edge_count=".to_owned();
    evidence_2.append(count_text(back_edge_count).as_str());
    evidence_2.append(", redundant_path_count=");
    evidence_2.append(count_text(redundant_path_count).as_str());
    let evidence = empty_list();
    let evidence = and_text(evidence, evidence_1);
    let evidence = and_text(evidence, evidence_2);
    let metrics = members();
    let metrics = and(metrics, "back_edge_count", uint(back_edge_count));
    let metrics = and(metrics, "branch_score", written(score_number.as_str()));
    let metrics = and(metrics, "proof_tier", string("hypothesis"));
    let metrics = and(metrics, "redundant_path_count", uint(redundant_path_count));
    let metrics = and(metrics, "region_kind", string("loop/SCC"));
    let metrics = and(metrics, "switchint_count", uint(switchint_count));
    let metrics = and(metrics, "symbol", string(symbol));
    let metrics = and(metrics, "task", string("ReduceSccRegion"));
    let metrics = object(metrics);
    Issue {
        id,
        title,
        status,
        priority,
        kind,
        description,
        location,
        scope,
        metrics,
        acceptance_criteria: criteria,
        evidence,
        discovered_by: "graph_metrics_detector".to_owned(),
    }
}

/// The issue on a function that branches without loops.
pub open spec fn dominator_region_reduction_issue(
    crate_name: Seq<char>,
    summary: SymbolSummary,
    redundant_path_count: usize,
) -> IssueView {
    let symbol = summary.symbol@;
    let file = summary.display_file@;
    let line = summary.line;
    let switchint_count = summary.switchint_count;
    let score = semantic::one_place(summary.branch_half_points);
    let density = summary.switchint_density.two_places@;
    let density_number = summary.switchint_density.number@;
    let fraction = summary.non_cleanup_fraction.two_places@;
    let fraction_number = summary.non_cleanup_fraction.number@;
    let fragment = text::identifier_fragment(crate_name);
    let hash = text::text_hash(crate_name + ":"@ + symbol);
    IssueView {
        id: "auto_dominator_region_reduction_"@ + fragment + "_"@ + text::dec(hash as nat),
        title: "Dominator region reduction candidate in `"@ + symbol + "`"@,
        status: "open"@,
        priority: if redundant_path_count >= 2 || switchint_count >= 3 {
            "high"@
        } else {
            "medium"@
        },
        kind: "logic"@,
        description: "Function `"@ + symbol + "` in crate `"@ + crate_name + "` is a loop-free, heavily-branching dispatch function (branch_score="@ + score + ", switchint_count="@ + text::dec(switchint_count as nat) + ", switchint_density="@ + density + " per block).\n\nFunctions with many SwitchInt terminators and no back-edges are candidates for dominator-region reduction: extract a table-driven dispatcher, collapse parallel match arms into a shared helper, or split the function along its natural branch regions.\n\nRecommended direction: identify the dominant SwitchInt bottleneck and extract each branch arm into a named helper, leaving a thin dispatch entry."@,
        location: file + ":"@ + text::dec(line as nat),
        scope: "crate:"@ + crate_name,
        metrics: JsonView::Object(
            json::no_members().push(
                ("back_edge_count"@, JsonView::Uint(0)),
            ).push(
                ("branch_score"@, JsonView::Number(score)),
            ).push(
                ("non_cleanup_fraction"@, JsonView::Number(fraction_number)),
            ).push(
                ("proof_tier"@, JsonView::Text("hypothesis"@)),
            ).push(
                ("redundant_path_count"@, JsonView::Uint(redundant_path_count as u64)),
            ).push(
                ("region_kind"@, JsonView::Text("loop-free dispatch funnel"@)),
            ).push(
                ("switchint_count"@, JsonView::Uint(switchint_count as u64)),
            ).push(
                ("switchint_density"@, JsonView::Number(density_number)),
            ).push(
                ("symbol"@, JsonView::Text(symbol)),
            ).push(
                ("task"@, JsonView::Text("ReduceDominatorRegion"@)),
            ),
        ),
        acceptance_criteria: text::no_texts().push(
            "the dominant SwitchInt bottleneck is extracted into named branch helpers"@,
        ).push(
            "branch_score and switchint_count decrease measurably after refactor"@,
        ).push(
            "graph.json is regenerated and the detector no longer emits this symbol"@,
        ),
        evidence: text::no_texts().push(
            "branch_score="@ + score + ", switchint_count="@ + text::dec(switchint_count as nat) + ", switchint_density="@ + density,
        ).push(
            "non_cleanup_fraction="@ + fraction + ", redundant_path_count="@ + text::dec(redundant_path_count as nat) + ", back_edges=0"@,
        ),
        discovered_by: "graph_metrics_detector"@,
    }
}

/// The issue on a function that branches without loops.
pub fn build_dominator_region_reduction_issue(
    crate_name: &str,
    summary: &SymbolSummary,
    redundant_path_count: usize,
) -> (r: Issue)
    ensures
        r@ == dominator_region_reduction_issue(crate_name@, *summary, redundant_path_count),
{
    let symbol = summary.symbol.as_str();
    let file = summary.display_file.as_str();
    let line: u64 = summary.line as u64;
    let switchint_count: usize = summary.switchint_count;
    let score = one_place_score(summary.branch_half_points);
    let density = summary.switchint_density.two_places.as_str();
    let density_number = summary.switchint_density.number.as_str();
    let fraction = summary.non_cleanup_fraction.two_places.as_str();
    let fraction_number = summary.non_cleanup_fraction.number.as_str();
    let fragment = sanitize_fragment(crate_name);
    let hash: u64 = pair_hash(crate_name, ":", symbol);
    let mut id = "auto_dominator_region_reduction_".to_owned();
    id.append(fragment.as_str());
    id.append("_");
    id.append(decimal(hash).as_str());
    let mut title = "Dominator region reduction candidate in `".to_owned();
    title.append(symbol);
    title.append("`");
    let status = "open".to_owned();
    let priority = either(redundant_path_count >= 2 || switchint_count >= 3, "high", "medium").to_owned();
    let kind = "logic".to_owned();
    let mut description = "Function `".to_owned();
    description.append(symbol);
    description.append("` in crate `");
    description.append(crate_name);
    description.append("` is a loop-free, heavily-branching dispatch function (branch_score=");
    description.append(score.as_str());
    description.append(", switchint_count=");
    description.append(count_text(switchint_count).as_str());
    description.append(", switchint_density=");
    description.append(density);
    description.append(" per block).\n\nFunctions with many SwitchInt terminators and no back-edges are candidates for dominator-region reduction: extract a table-driven dispatcher, collapse parallel match arms into a shared helper, or split the function along its natural branch regions.\n\nRecommended direction: identify the dominant SwitchInt bottleneck and extract each branch arm into a named helper, leaving a thin dispatch entry.");
    let mut location = file.to_owned();
    location.append(":");
    location.append(decimal(line).as_str());
    let mut scope = "crate:".to_owned();
    scope.append(crate_name);
    let criteria_1 = "the dominant SwitchInt bottleneck is extracted into named branch helpers".to_owned();
    let criteria_2 = "branch_score and switchint_count decrease measurably after refactor".to_owned();
    let criteria_3 = "graph.json is regenerated and the detector no longer emits this symbol".to_owned();
    let criteria = empty_list();
    let criteria = and_text(criteria, criteria_1);
    let criteria = and_text(criteria, criteria_2);
    let criteria = and_text(criteria, criteria_3);
    let mut evidence_1 = "branch_score=".to_owned();
    evidence_1.append(score.as_str());
    evidence_1.append(", switchint_count=");
    evidence_1.append(count_text(switchint_count).as_str());
    evidence_1.append(", switchint_density=");
    evidence_1.append(density);
    let mut evidence_2 = "non_cleanup_fraction=".to_owned();
    evidence_2.append(fraction);
    evidence_2.append(", redundant_path_count=");
    evidence_2.append(count_text(redundant_path_count).as_str());
    evidence_2.append(", back_edges=0");
    let evidence = empty_list();
    let evidence = and_text(evidence, evidence_1);
    let evidence = and_text(evidence, evidence_2);
    let metrics = members();
    let metrics = and(metrics, "back_edge_count", uint(0));
    let metrics = and(metrics, "branch_score", written(score.as_str()));
    let metrics = and(metrics, "non_cleanup_fraction", written(fraction_number));
    let metrics = and(metrics, "proof_tier", string("hypothesis"));
    let metrics = and(metrics, "redundant_path_count", uint(redundant_path_count));
    let metrics = and(metrics, "region_kind", string("loop-free dispatch funnel"));
    let metrics = and(metrics, "switchint_count", uint(switchint_count));
    let metrics = and(metrics, "switchint_density", written(density_number));
    let metrics = and(metrics, "symbol", string(symbol));
    let metrics = and(metrics, "task", string("ReduceDominatorRegion"));
    let metrics = object(metrics);
    Issue {
        id,
        title,
        status,
        priority,
        kind,
        description,
        location,
        scope,
        metrics,
        acceptance_criteria: criteria,
        evidence,
        discovered_by: "graph_metrics_detector".to_owned(),
    }
}

/// What was measured of a graph.
pub open spec fn measured_value(stats: BridgeConnectivityStats) -> JsonView {
    let bridge_edge_count = stats.bridge_edge_count;
    let node_count = stats.node_count;
    let semantic_edge_count = stats.semantic_edge_count;
    let cfg_node_count = stats.cfg_node_count;
    let cfg_edge_count = stats.cfg_edge_count;
    let ratio_number = stats.bridge_ratio.number@;
    JsonView::Object(
        json::no_members().push(
            ("bridge_edge_count"@, JsonView::Uint(bridge_edge_count as u64)),
        ).push(
            ("bridge_ratio"@, JsonView::Number(ratio_number)),
        ).push(
            ("cfg_edge_count"@, JsonView::Uint(cfg_edge_count as u64)),
        ).push(
            ("cfg_node_count"@, JsonView::Uint(cfg_node_count as u64)),
        ).push(
            ("node_count"@, JsonView::Uint(node_count as u64)),
        ).push(
            ("semantic_edge_count"@, JsonView::Uint(semantic_edge_count as u64)),
        ),
    )
}

fn write_measured_value(stats: &BridgeConnectivityStats) -> (r: Json)
    ensures
        r@ == measured_value(*stats),
{
    let bridge_edge_count: usize = stats.bridge_edge_count;
    let node_count: usize = stats.node_count;
    let semantic_edge_count: usize = stats.semantic_edge_count;
    let cfg_node_count: usize = stats.cfg_node_count;
    let cfg_edge_count: usize = stats.cfg_edge_count;
    let ratio_number = stats.bridge_ratio.number.as_str();
    let value = members();
    let value = and(value, "bridge_edge_count", uint(bridge_edge_count));
    let value = and(value, "bridge_ratio", written(ratio_number));
    let value = and(value, "cfg_edge_count", uint(cfg_edge_count));
    let value = and(value, "cfg_node_count", uint(cfg_node_count));
    let value = and(value, "node_count", uint(node_count));
    let value = and(value, "semantic_edge_count", uint(semantic_edge_count));
    let value = object(value);
    value
}

/// What a graph should reach.
pub open spec fn target_value(stats: BridgeConnectivityStats) -> JsonView {
    let threshold_number = threshold_number_of(stats);
    JsonView::Object(
        json::no_members().push(
            ("bridge_edge_count_per_node_max"@, JsonView::Number(threshold_number)),
        ).push(
            ("bridge_ratio_max"@, JsonView::Number(threshold_number)),
        ),
    )
}

fn write_target_value(stats: &BridgeConnectivityStats) -> (r: Json)
    ensures
        r@ == target_value(*stats),
{
    let threshold_number = threshold_number(stats);
    let value = members();
    let value = and(value, "bridge_edge_count_per_node_max", written(threshold_number));
    let value = and(value, "bridge_ratio_max", written(threshold_number));
    let value = object(value);
    value
}

/// The issue on a graph with too many bridges.
pub open spec fn bridge_connectivity_issue(
    stats: BridgeConnectivityStats,
) -> IssueView {
    let crate_name = stats.crate_name@;
    let place = text::with_char_replaced(crate_name, '-', "_"@);
    let ratio = stats.bridge_ratio.two_places@;
    let limit = threshold_text_of(stats);
    let bridge_edges = stats.bridge_edge_count;
    let nodes = stats.node_count;
    let semantic_edges = stats.semantic_edge_count;
    let cfg_nodes = stats.cfg_node_count;
    let cfg_edges = stats.cfg_edge_count;
    let exceeds = over_threshold(stats);
    let urgency = band_of(stats.bridge_edge_count, stats.node_count);
    let candidates = candidates_text(called_of(stats.candidate_functions@));
    let fragment = text::identifier_fragment(crate_name);
    let measured = measured_value(stats);
    let target = target_value(stats);
    let candidate_metrics = candidate_values(called_of(stats.candidate_functions@));
    IssueView {
        id: "graph_bridge_connectivity_"@ + fragment,
        title: "Bridge connectivity overload in `"@ + crate_name + "` graph ("@ + ratio + " bridge edges/node)"@,
        status: if exceeds {
            "open"@
        } else {
            "resolved"@
        },
        priority: urgency,
        kind: "performance"@,
        description: "Bridge connectivity is measured as bridge_edge_count / node_count.\nFor crate `"@ + crate_name + "`:\n- bridge_edge_count = "@ + text::dec(bridge_edges as nat) + "\n- node_count = "@ + text::dec(nodes as nat) + "\n- bridge_ratio = "@ + ratio + "\n- threshold = "@ + limit + "\n- semantic_edge_count = "@ + text::dec(semantic_edges as nat) + "\n- cfg_node_count = "@ + text::dec(cfg_nodes as nat) + "\n- cfg_edge_count = "@ + text::dec(cfg_edges as nat) + "\n\nThis exceeds the detector threshold and indicates the graph is too bridge-dense.\nHigh bridge density increases coupling, slows traversal, and makes the execution graph\nharder to reason about deterministically.\n\nCandidate functions most frequently touched by bridge-connected call edges:\n"@ + candidates + "\n"@,
        location: "state/rustc/"@ + place + "/graph.json"@,
        scope: "state/rustc/"@ + place + "/graph.json"@,
        metrics: JsonView::Object(
            json::no_members().push(
                ("candidate_functions"@, candidate_metrics),
            ).push(
                ("measured"@, measured),
            ).push(
                ("target"@, target),
            ),
        ),
        acceptance_criteria: text::no_texts().push(
            "bridge_ratio <= "@ + limit,
        ).push(
            "bridge_edge_count / node_count <= "@ + limit,
        ).push(
            "graph.json is regenerated and the detector no longer reports the crate as bridge-dense"@,
        ),
        evidence: text::no_texts().push(
            "bridge_edge_count="@ + text::dec(bridge_edges as nat),
        ).push(
            "node_count="@ + text::dec(nodes as nat),
        ).push(
            "bridge_ratio="@ + ratio + " threshold="@ + limit,
        ),
        discovered_by: "graph_metrics_detector"@,
    }
}

/// The issue on a graph with too many bridges.
pub fn build_bridge_connectivity_issue(
    stats: &BridgeConnectivityStats,
) -> (r: Issue)
    ensures
        r@ == bridge_connectivity_issue(*stats),
{
    let crate_name = stats.crate_name.as_str();
    let place = replace_char(crate_name, '-', "_");
    let ratio = stats.bridge_ratio.two_places.as_str();
    let limit = threshold_text(stats);
    let bridge_edges: usize = stats.bridge_edge_count;
    let nodes: usize = stats.node_count;
    let semantic_edges: usize = stats.semantic_edge_count;
    let cfg_nodes: usize = stats.cfg_node_count;
    let cfg_edges: usize = stats.cfg_edge_count;
    let exceeds = exceeds_threshold(stats);
    let urgency = priority_from_ratio(stats.bridge_edge_count, stats.node_count);
    let candidates = write_candidates(&stats.candidate_functions);
    let fragment = sanitize_fragment(crate_name);
    let measured = write_measured_value(stats);
    let target = write_target_value(stats);
    let candidate_metrics = write_candidate_values(&stats.candidate_functions);
    let mut id = "graph_bridge_connectivity_".to_owned();
    id.append(fragment.as_str());
    let mut title = "Bridge connectivity overload in `".to_owned();
    title.append(crate_name);
    title.append("` graph (");
    title.append(ratio);
    title.append(" bridge edges/node)");
    let status = either(exceeds, "open", "resolved").to_owned();
    let priority = urgency.to_owned();
    let kind = "performance".to_owned();
    let mut description = "Bridge connectivity is measured as bridge_edge_count / node_count.\nFor crate `".to_owned();
    description.append(crate_name);
    description.append("`:\n- bridge_edge_count = ");
    description.append(count_text(bridge_edges).as_str());
    description.append("\n- node_count = ");
    description.append(count_text(nodes).as_str());
    description.append("\n- bridge_ratio = ");
    description.append(ratio);
    description.append("\n- threshold = ");
    description.append(limit);
    description.append("\n- semantic_edge_count = ");
    description.append(count_text(semantic_edges).as_str());
    description.append("\n- cfg_node_count = ");
    description.append(count_text(cfg_nodes).as_str());
    description.append("\n- cfg_edge_count = ");
    description.append(count_text(cfg_edges).as_str());
    description.append("\n\nThis exceeds the detector threshold and indicates the graph is too bridge-dense.\nHigh bridge density increases coupling, slows traversal, and makes the execution graph\nharder to reason about deterministically.\n\nCandidate functions most frequently touched by bridge-connected call edges:\n");
    description.append(candidates.as_str());
    description.append("\n");
    let mut location = "state/rustc/".to_owned();
    location.append(place.as_str());
    location.append("/graph.json");
    let mut scope = "state/rustc/".to_owned();
    scope.append(place.as_str());
    scope.append("/graph.json");
    let mut criteria_1 = "bridge_ratio <= ".to_owned();
    criteria_1.append(limit);
    let mut criteria_2 = "bridge_edge_count / node_count <= ".to_owned();
    criteria_2.append(limit);
    let criteria_3 = "graph.json is regenerated and the detector no longer reports the crate as bridge-dense".to_owned();
    let criteria = empty_list();
    let criteria = and_text(criteria, criteria_1);
    let criteria = and_text(criteria, criteria_2);
    let criteria = and_text(criteria, criteria_3);
    let mut evidence_1 = "bridge_edge_count=".to_owned();
    evidence_1.append(count_text(bridge_edges).as_str());
    let mut evidence_2 = "node_count=".to_owned();
    evidence_2.append(count_text(nodes).as_str());
    let mut evidence_3 = "bridge_ratio=".to_owned();
    evidence_3.append(ratio);
    evidence_3.append(" threshold=");
    evidence_3.append(limit);
    let evidence = empty_list();
    let evidence = and_text(evidence, evidence_1);
    let evidence = and_text(evidence, evidence_2);
    let evidence = and_text(evidence, evidence_3);
    let metrics = members();
    let metrics = and(metrics, "candidate_functions", candidate_metrics);
    let metrics = and(metrics, "measured", measured);
    let metrics = and(metrics, "target", target);
    let metrics = object(metrics);
    Issue {
        id,
        title,
        status,
        priority,
        kind,
        description,
        location,
        scope,
        metrics,
        acceptance_criteria: criteria,
        evidence,
        discovered_by: "graph_metrics_detector".to_owned(),
    }
}

/// The direct logging sites of one module.
pub open spec fn logging_line(g: (Seq<char>, Seq<Seq<char>>)) -> Seq<char> {
    let key = g.0;
    let members = g.1;
    let site_count = members.len();
    let sample = text::quoted(text::head_of(members, 3));
    "`"@ + key + "` has "@ + text::dec(site_count as nat) + " direct logging site(s): "@ + sample
}

fn write_logging_line(g: &Group) -> (r: String)
    ensures
        r@ == logging_line(g@),
{
    let key = g.key.as_str();
    let members = &g.members;
    let site_count: usize = members.len();
    let sample = quoted_list(&take_head(members, 3));
    let mut line = "`".to_owned();
    line.append(key);
    line.append("` has ");
    line.append(count_text(site_count).as_str());
    line.append(" direct logging site(s): ");
    line.append(sample.as_str());
    line
}

/// The direct logging sites of one module.
pub open spec fn logging_lines(gs: Seq<(Seq<char>, Seq<Seq<char>>)>) -> Seq<Seq<char>> {
    gs.map_values(|g: (Seq<char>, Seq<Seq<char>>)| logging_line(g))
}

fn write_logging_lines(gs: &Vec<Group>) -> (r: Vec<String>)
    ensures
        text::texts(r@) == logging_lines(groups::groups_of(gs@)),
{
    let mut lines: Vec<String> = Vec::new();
    let mut i: usize = 0;
    while i < gs.len()
        invariant
            i <= gs@.len(),
            lines@.len() == i,
            forall|k: int| 0 <= k < i ==> (#[trigger] lines@[k])@ == logging_line(gs@[k]@),
        decreases gs@.len() - i,
    {
        lines.push(write_logging_line(&gs[i]));
        i += 1;
    }
    assert(text::texts(lines@) =~= logging_lines(groups::groups_of(gs@)));
    lines
}

/// The direct logging sites of one module.
pub open spec fn logging_value(g: (Seq<char>, Seq<Seq<char>>)) -> JsonView {
    let key = g.0;
    let members = g.1;
    let site_count = members.len();
    JsonView::Object(
        json::no_members().push(
            ("direct_logging_count"@, JsonView::Uint(site_count as u64)),
        ).push(
            ("module"@, JsonView::Text(key)),
        ).push(
            ("symbols"@, json::text_array_view(members)),
        ),
    )
}

fn write_logging_value(g: &Group) -> (r: Json)
    ensures
        r@ == logging_value(g@),
{
    let key = g.key.as_str();
    let members_of = &g.members;
    let site_count: usize = members_of.len();
    let value = members();
    let value = and(value, "direct_logging_count", uint(site_count));
    let value = and(value, "module", string(key));
    let value = and(value, "symbols", string_array(members_of));
    let value = object(value);
    value
}

/// The direct logging sites of one module.
pub open spec fn logging_values(gs: Seq<(Seq<char>, Seq<Seq<char>>)>) -> JsonView {
    JsonView::Array(gs.map_values(|g: (Seq<char>, Seq<Seq<char>>)| logging_value(g)))
}

fn write_logging_values(gs: &Vec<Group>) -> (r: Json)
    ensures
        r@ == logging_values(groups::groups_of(gs@)),
{
    let mut values: Vec<Json> = Vec::new();
    let mut i: usize = 0;
    while i < gs.len()
        invariant
            i <= gs@.len(),
            values@.len() == i,
            forall|k: int| 0 <= k < i ==> (#[trigger] values@[k])@ == logging_value(gs@[k]@),
        decreases gs@.len() - i,
    {
        values.push(write_logging_value(&gs[i]));
        i += 1;
    }
    let r = array(values);
    assert(r@->Array_0 =~= logging_values(groups::groups_of(gs@))->Array_0);
    r
}

/// The issue on logging outside the logging module.
pub open spec fn logging_dispersion_issue(
    crate_name: Seq<char>,
    others: Seq<(Seq<char>, Seq<Seq<char>>)>,
    canonical_count: usize,
) -> IssueView {
    let other_count = groups::total_of(others);
    let total = tally::capped_sum(canonical_count, other_count);
    let module_count = others.len();
    let fragment = text::identifier_fragment(crate_name);
    let evidence = text::head_of(logging_lines(others), 8);
    let modules = logging_values(others);
    IssueView {
        id: "auto_logging_dispersion_"@ + fragment,
        title: "Logging dispersion in `"@ + crate_name + "` ("@ + text::dec(other_count as nat) + " direct sites across "@ + text::dec(module_count as nat) + " modules)"@,
        status: if other_count > 10 {
            "open"@
        } else {
            "resolved"@
        },
        priority: if other_count >= 20 {
            "high"@
        } else {
            "medium"@
        },
        kind: "logic"@,
        description: "Crate `"@ + crate_name + "` has "@ + text::dec(other_count as nat) + " function(s) outside the `logging` module that perform direct logging calls ("@ + text::dec(total as nat) + " total, "@ + text::dec(canonical_count as nat) + " in canonical boundary).\n\nDispersed logging makes it hard to add structured event metadata, change log backends, or enforce consistent log levels. Centralizing logging calls through a structured event emission layer reduces this surface.\n\nRecommended direction: route direct log calls through the `logging` module boundary or emit structured events that the logging layer serializes."@,
        location: "state/rustc/"@ + crate_name + "/graph.json"@,
        scope: "crate:"@ + crate_name,
        metrics: JsonView::Object(
            json::no_members().push(
                ("canonical_logging_sites"@, JsonView::Uint(canonical_count as u64)),
            ).push(
                ("modules"@, modules),
            ).push(
                ("non_canonical_logging_sites"@, JsonView::Uint(other_count as u64)),
            ).push(
                ("non_canonical_module_count"@, JsonView::Uint(module_count as u64)),
            ).push(
                ("proof_tier"@, JsonView::Text("hypothesis"@)),
            ).push(
                ("task"@, JsonView::Text("CentralizeLogging"@)),
            ).push(
                ("total_logging_sites"@, JsonView::Uint(total as u64)),
            ),
        ),
        acceptance_criteria: text::no_texts().push(
            "direct logging calls outside `logging::` in `"@ + crate_name + "` reduced by ≥50%"@,
        ).push(
            "remaining direct logging calls are in leaf call sites where delegation adds no value"@,
        ).push(
            "graph.json is regenerated and non_canonical_logging_sites decreases"@,
        ),
        evidence: evidence,
        discovered_by: "graph_metrics_detector"@,
    }
}

/// The issue on logging outside the logging module.
pub fn build_logging_dispersion_issue(
    crate_name: &str,
    others: &Vec<Group>,
    canonical_count: usize,
) -> (r: Issue)
    ensures
        r@ == logging_dispersion_issue(crate_name@, groups::groups_of(others@), canonical_count),
{
    let other_count: usize = groups::count_total(others);
    let total: usize = canonical_count.saturating_add(other_count);
    let module_count: usize = others.len();
    let fragment = sanitize_fragment(crate_name);
    let evidence = take_head(&write_logging_lines(others), 8);
    let modules = write_logging_values(others);
    let mut id = "auto_logging_dispersion_".to_owned();
    id.append(fragment.as_str());
    let mut title = "Logging dispersion in `".to_owned();
    title.append(crate_name);
    title.append("` (");
    title.append(count_text(other_count).as_str());
    title.append(" direct sites across ");
    title.append(count_text(module_count).as_str());
    title.append(" modules)");
    let status = either(other_count > 10, "open", "resolved").to_owned();
    let priority = either(other_count >= 20, "high", "medium").to_owned();
    let kind = "logic".to_owned();
    let mut description = "Crate `".to_owned();
    description.append(crate_name);
    description.append("` has ");
    description.append(count_text(other_count).as_str());
    description.append(" function(s) outside the `logging` module that perform direct logging calls (");
    description.append(count_text(total).as_str());
    description.append(" total, ");
    description.append(count_text(canonical_count).as_str());
    description.append(" in canonical boundary).\n\nDispersed logging makes it hard to add structured event metadata, change log backends, or enforce consistent log levels. Centralizing logging calls through a structured event emission layer reduces this surface.\n\nRecommended direction: route direct log calls through the `logging` module boundary or emit structured events that the logging layer serializes.");
    let mut location = "state/rustc/".to_owned();
    location.append(crate_name);
    location.append("/graph.json");
    let mut scope = "crate:".to_owned();
    scope.append(crate_name);
    let mut criteria_1 = "direct logging calls outside `logging::` in `".to_owned();
    criteria_1.append(crate_name);
    criteria_1.append("` reduced by ≥50%");
    let criteria_2 = "remaining direct logging calls are in leaf call sites where delegation adds no value".to_owned();
    let criteria_3 = "graph.json is regenerated and non_canonical_logging_sites decreases".to_owned();
    let criteria = empty_list();
    let criteria = and_text(criteria, criteria_1);
    let criteria = and_text(criteria, criteria_2);
    let criteria = and_text(criteria, criteria_3);
    let metrics = members();
    let metrics = and(metrics, "canonical_logging_sites", uint(canonical_count));
    let metrics = and(metrics, "modules", modules);
    let metrics = and(metrics, "non_canonical_logging_sites", uint(other_count));
    let metrics = and(metrics, "non_canonical_module_count", uint(module_count));
    let metrics = and(metrics, "proof_tier", string("hypothesis"));
    let metrics = and(metrics, "task", string("CentralizeLogging"));
    let metrics = and(metrics, "total_logging_sites", uint(total));
    let metrics = object(metrics);
    Issue {
        id,
        title,
        status,
        priority,
        kind,
        description,
        location,
        scope,
        metrics,
        acceptance_criteria: criteria,
        evidence,
        discovered_by: "graph_metrics_detector".to_owned(),
    }
}

/// The processes that one module spawns.
pub open spec fn spawn_line(g: (Seq<char>, Seq<Seq<char>>)) -> Seq<char> {
    let key = g.0;
    let members = g.1;
    let sites = text::quoted(members);
    "`"@ + key + "` spawns processes outside canonical boundary: "@ + sites
}

fn write_spawn_line(g: &Group) -> (r: String)
    ensures
        r@ == spawn_line(g@),
{
    let key = g.key.as_str();
    let members = &g.members;
    let sites = quoted_list(members);
    let mut line = "`".to_owned();
    line.append(key);
    line.append("` spawns processes outside canonical boundary: ");
    line.append(sites.as_str());
    line
}

/// The processes that one module spawns.
pub open spec fn spawn_lines(gs: Seq<(Seq<char>, Seq<Seq<char>>)>) -> Seq<Seq<char>> {
    gs.map_values(|g: (Seq<char>, Seq<Seq<char>>)| spawn_line(g))
}

fn write_spawn_lines(gs: &Vec<Group>) -> (r: Vec<String>)
    ensures
        text::texts(r@) == spawn_lines(groups::groups_of(gs@)),
{
    let mut lines: Vec<String> = Vec::new();
    let mut i: usize = 0;
    while i < gs.len()
        invariant
            i <= gs@.len(),
            lines@.len() == i,
            forall|k: int| 0 <= k < i ==> (#[trigger] lines@[k])@ == spawn_line(gs@[k]@),
        decreases gs@.len() - i,
    {
        lines.push(write_spawn_line(&gs[i]));
        i += 1;
    }
    assert(text::texts(lines@) =~= spawn_lines(groups::groups_of(gs@)));
    lines
}

/// The processes that one module spawns.
pub open spec fn spawn_value(g: (Seq<char>, Seq<Seq<char>>)) -> JsonView {
    let key = g.0;
    let members = g.1;
    let canonical = process_boundary(key);
    let spawn_count = members.len();
    JsonView::Object(
        json::no_members().push(
            ("canonical"@, JsonView::Bool(canonical)),
        ).push(
            ("module"@, JsonView::Text(key)),
        ).push(
            ("spawn_count"@, JsonView::Uint(spawn_count as u64)),
        ).push(
            ("symbols"@, json::text_array_view(members)),
        ),
    )
}

fn write_spawn_value(g: &Group) -> (r: Json)
    ensures
        r@ == spawn_value(g@),
{
    let key = g.key.as_str();
    let members_of = &g.members;
    let canonical = is_canonical_process_boundary(key);
    let spawn_count: usize = members_of.len();
    let value = members();
    let value = and(value, "canonical", boolean(canonical));
    let value = and(value, "module", string(key));
    let value = and(value, "spawn_count", uint(spawn_count));
    let value = and(value, "symbols", string_array(members_of));
    let value = object(value);
    value
}

/// The processes that one module spawns.
pub open spec fn spawn_values(gs: Seq<(Seq<char>, Seq<Seq<char>>)>) -> JsonView {
    JsonView::Array(gs.map_values(|g: (Seq<char>, Seq<Seq<char>>)| spawn_value(g)))
}

fn write_spawn_values(gs: &Vec<Group>) -> (r: Json)
    ensures
        r@ == spawn_values(groups::groups_of(gs@)),
{
    let mut values: Vec<Json> = Vec::new();
    let mut i: usize = 0;
    while i < gs.len()
        invariant
            i <= gs@.len(),
            values@.len() == i,
            forall|k: int| 0 <= k < i ==> (#[trigger] values@[k])@ == spawn_value(gs@[k]@),
        decreases gs@.len() - i,
    {
        values.push(write_spawn_value(&gs[i]));
        i += 1;
    }
    let r = array(values);
    assert(r@->Array_0 =~= spawn_values(groups::groups_of(gs@))->Array_0);
    r
}

/// The issue on processes that are spawned outside their boundary.
pub open spec fn process_spawn_dispersion_issue(
    crate_name: Seq<char>,
    all: Seq<(Seq<char>, Seq<Seq<char>>)>,
    others: Seq<(Seq<char>, Seq<Seq<char>>)>,
    canonical: Seq<(Seq<char>, Seq<Seq<char>>)>,
) -> IssueView {
    let other_count = groups::total_of(others);
    let canonical_count = groups::total_of(canonical);
    let total = tally::capped_sum(canonical_count, other_count);
    let module_count = others.len();
    let fragment = text::identifier_fragment(crate_name);
    let evidence = spawn_lines(others);
    let modules = spawn_values(all);
    IssueView {
        id: "auto_process_spawn_dispersion_"@ + fragment,
        title: "Process spawn dispersion in `"@ + crate_name + "` ("@ + text::dec(other_count as nat) + " non-canonical sites across "@ + text::dec(module_count as nat) + " modules)"@,
        status: if module_count > 1 {
            "open"@
        } else {
            "resolved"@
        },
        priority: if module_count >= 3 {
            "high"@
        } else {
            "medium"@
        },
        kind: "logic"@,
        description: "Crate `"@ + crate_name + "` has "@ + text::dec(total as nat) + " process-spawning function(s): "@ + text::dec(canonical_count as nat) + " in canonical boundary module(s) (`process`, `tools`) and "@ + text::dec(other_count as nat) + " outside.\n\nProcess spawning is a high-blast-radius side effect that should flow through a narrow execution boundary. When multiple non-canonical modules spawn subprocesses directly, error handling, environment setup, and stdout/stderr routing tend to diverge.\n\nRecommended direction: route all process spawning through `process::` and restrict callers to that module."@,
        location: "state/rustc/"@ + crate_name + "/graph.json"@,
        scope: "crate:"@ + crate_name,
        metrics: JsonView::Object(
            json::no_members().push(
                ("canonical_spawn_sites"@, JsonView::Uint(canonical_count as u64)),
            ).push(
                ("modules"@, modules),
            ).push(
                ("non_canonical_module_count"@, JsonView::Uint(module_count as u64)),
            ).push(
                ("non_canonical_spawn_sites"@, JsonView::Uint(other_count as u64)),
            ).push(
                ("proof_tier"@, JsonView::Text("hypothesis"@)),
            ).push(
                ("task"@, JsonView::Text("CentralizeProcessSpawning"@)),
            ).push(
                ("total_spawn_sites"@, JsonView::Uint(total as u64)),
            ),
        ),
        acceptance_criteria: text::no_texts().push(
            "all process spawning in `"@ + crate_name + "` routes through `process::` boundary"@,
        ).push(
            "non-canonical process-spawning symbols are eliminated or converted to thin delegates"@,
        ).push(
            "graph.json is regenerated and non_canonical_spawn_sites = 0"@,
        ),
        evidence: evidence,
        discovered_by: "graph_metrics_detector"@,
    }
}

/// The issue on processes that are spawned outside their boundary.
pub fn build_process_spawn_dispersion_issue(
    crate_name: &str,
    all: &Vec<Group>,
    others: &Vec<Group>,
    canonical: &Vec<Group>,
) -> (r: Issue)
    ensures
        r@ == process_spawn_dispersion_issue(crate_name@, groups::groups_of(all@), groups::groups_of(others@), groups::groups_of(canonical@)),
{
    let other_count: usize = groups::count_total(others);
    let canonical_count: usize = groups::count_total(canonical);
    let total: usize = canonical_count.saturating_add(other_count);
    let module_count: usize = others.len();
    let fragment = sanitize_fragment(crate_name);
    let evidence = write_spawn_lines(others);
    let modules = write_spawn_values(all);
    let mut id = "auto_process_spawn_dispersion_".to_owned();
    id.append(fragment.as_str());
    let mut title = "Process spawn dispersion in `".to_owned();
    title.append(crate_name);
    title.append("` (");
    title.append(count_text(other_count).as_str());
    title.append(" non-canonical sites across ");
    title.append(count_text(module_count).as_str());
    title.append(" modules)");
    let status = either(module_count > 1, "open", "resolved").to_owned();
    let priority = either(module_count >= 3, "high", "medium").to_owned();
    let kind = "logic".to_owned();
    let mut description = "Crate `".to_owned();
    description.append(crate_name);
    description.append("` has ");
    description.append(count_text(total).as_str());
    description.append(" process-spawning function(s): ");
    description.append(count_text(canonical_count).as_str());
    description.append(" in canonical boundary module(s) (`process`, `tools`) and ");
    description.append(count_text(other_count).as_str());
    description.append(" outside.\n\nProcess spawning is a high-blast-radius side effect that should flow through a narrow execution boundary. When multiple non-canonical modules spawn subprocesses directly, error handling, environment setup, and stdout/stderr routing tend to diverge.\n\nRecommended direction: route all process spawning through `process::` and restrict callers to that module.");
    let mut location = "state/rustc/".to_owned();
    location.append(crate_name);
    location.append("/graph.json");
    let mut scope = "crate:".to_owned();
    scope.append(crate_name);
    let mut criteria_1 = "all process spawning in `".to_owned();
    criteria_1.append(crate_name);
    criteria_1.append("` routes through `process::` boundary");
    let criteria_2 = "non-canonical process-spawning symbols are eliminated or converted to thin delegates".to_owned();
    let criteria_3 = "graph.json is regenerated and non_canonical_spawn_sites = 0".to_owned();
    let criteria = empty_list();
    let criteria = and_text(criteria, criteria_1);
    let criteria = and_text(criteria, criteria_2);
    let criteria = and_text(criteria, criteria_3);
    let metrics = members();
    let metrics = and(metrics, "canonical_spawn_sites", uint(canonical_count));
    let metrics = and(metrics, "modules", modules);
    let metrics = and(metrics, "non_canonical_module_count", uint(module_count));
    let metrics = and(metrics, "non_canonical_spawn_sites", uint(other_count));
    let metrics = and(metrics, "proof_tier", string("hypothesis"));
    let metrics = and(metrics, "task", string("CentralizeProcessSpawning"));
    let metrics = and(metrics, "total_spawn_sites", uint(total));
    let metrics = object(metrics);
    Issue {
        id,
        title,
        status,
        priority,
        kind,
        description,
        location,
        scope,
        metrics,
        acceptance_criteria: criteria,
        evidence,
        discovered_by: "graph_metrics_detector".to_owned(),
    }
}

/// The network use of one module.
pub open spec fn network_line(g: (Seq<char>, Seq<Seq<char>>)) -> Seq<char> {
    let key = g.0;
    let members = g.1;
    let sites = text::quoted(members);
    "`"@ + key + "` uses network I/O: "@ + sites
}

fn write_network_line(g: &Group) -> (r: String)
    ensures
        r@ == network_line(g@),
{
    let key = g.key.as_str();
    let members = &g.members;
    let sites = quoted_list(members);
    let mut line = "`".to_owned();
    line.append(key);
    line.append("` uses network I/O: ");
    line.append(sites.as_str());
    line
}

/// The network use of one module.
pub open spec fn network_lines(gs: Seq<(Seq<char>, Seq<Seq<char>>)>) -> Seq<Seq<char>> {
    gs.map_values(|g: (Seq<char>, Seq<Seq<char>>)| network_line(g))
}

fn write_network_lines(gs: &Vec<Group>) -> (r: Vec<String>)
    ensures
        text::texts(r@) == network_lines(groups::groups_of(gs@)),
{
    let mut lines: Vec<String> = Vec::new();
    let mut i: usize = 0;
    while i < gs.len()
        invariant
            i <= gs@.len(),
            lines@.len() == i,
            forall|k: int| 0 <= k < i ==> (#[trigger] lines@[k])@ == network_line(gs@[k]@),
        decreases gs@.len() - i,
    {
        lines.push(write_network_line(&gs[i]));
        i += 1;
    }
    assert(text::texts(lines@) =~= network_lines(groups::groups_of(gs@)));
    lines
}

/// The network use of one module.
pub open spec fn network_value(g: (Seq<char>, Seq<Seq<char>>)) -> JsonView {
    let key = g.0;
    let members = g.1;
    let site_count = members.len();
    JsonView::Object(
        json::no_members().push(
            ("module"@, JsonView::Text(key)),
        ).push(
            ("network_site_count"@, JsonView::Uint(site_count as u64)),
        ).push(
            ("symbols"@, json::text_array_view(members)),
        ),
    )
}

fn write_network_value(g: &Group) -> (r: Json)
    ensures
        r@ == network_value(g@),
{
    let key = g.key.as_str();
    let members_of = &g.members;
    let site_count: usize = members_of.len();
    let value = members();
    let value = and(value, "module", string(key));
    let value = and(value, "network_site_count", uint(site_count));
    let value = and(value, "symbols", string_array(members_of));
    let value = object(value);
    value
}

/// The network use of one module.
pub open spec fn network_values(gs: Seq<(Seq<char>, Seq<Seq<char>>)>) -> JsonView {
    JsonView::Array(gs.map_values(|g: (Seq<char>, Seq<Seq<char>>)| network_value(g)))
}

fn write_network_values(gs: &Vec<Group>) -> (r: Json)
    ensures
        r@ == network_values(groups::groups_of(gs@)),
{
    let mut values: Vec<Json> = Vec::new();
    let mut i: usize = 0;
    while i < gs.len()
        invariant
            i <= gs@.len(),
            values@.len() == i,
            forall|k: int| 0 <= k < i ==> (#[trigger] values@[k])@ == network_value(gs@[k]@),
        decreases gs@.len() - i,
    {
        values.push(write_network_value(&gs[i]));
        i += 1;
    }
    let r = array(values);
    assert(r@->Array_0 =~= network_values(groups::groups_of(gs@))->Array_0);
    r
}

/// The issue on network use.
pub open spec fn network_usage_dispersion_issue(
    crate_name: Seq<char>,
    modules: Seq<(Seq<char>, Seq<Seq<char>>)>,
) -> IssueView {
    let total = groups::total_of(modules);
    let module_count = modules.len();
    let fragment = text::identifier_fragment(crate_name);
    let evidence = network_lines(modules);
    let module_metrics = network_values(modules);
    IssueView {
        id: "auto_network_usage_dispersion_"@ + fragment,
        title: "Network usage dispersion in `"@ + crate_name + "` ("@ + text::dec(total as nat) + " sites across "@ + text::dec(module_count as nat) + " modules)"@,
        status: if total > 0 {
            "open"@
        } else {
            "resolved"@
        },
        priority: if module_count >= 3 {
            "high"@
        } else {
            "medium"@
        },
        kind: "logic"@,
        description: "Crate `"@ + crate_name + "` has "@ + text::dec(total as nat) + " network-using function(s) across "@ + text::dec(module_count as nat) + " module(s).\n\nNo canonical network access layer has been identified. Network calls scattered across modules resist uniform retry/timeout policy, make offline testing harder, and leak transport concerns into business logic.\n\nRecommended direction: establish a dedicated network access layer (e.g. `llm_runtime::`) and route all network I/O through it."@,
        location: "state/rustc/"@ + crate_name + "/graph.json"@,
        scope: "crate:"@ + crate_name,
        metrics: JsonView::Object(
            json::no_members().push(
                ("module_count"@, JsonView::Uint(module_count as u64)),
            ).push(
                ("modules"@, module_metrics),
            ).push(
                ("proof_tier"@, JsonView::Text("hypothesis"@)),
            ).push(
                ("task"@, JsonView::Text("CentralizeNetworkAccess"@)),
            ).push(
                ("total_network_sites"@, JsonView::Uint(total as u64)),
            ),
        ),
        acceptance_criteria: text::no_texts().push(
            "all network I/O in `"@ + crate_name + "` routes through one canonical access layer"@,
        ).push(
            "modules outside the network layer do not hold direct network-using symbols"@,
        ).push(
            "graph.json is regenerated and network sites collapse to one module"@,
        ),
        evidence: evidence,
        discovered_by: "graph_metrics_detector"@,
    }
}

/// The issue on network use.
pub fn build_network_usage_dispersion_issue(
    crate_name: &str,
    modules: &Vec<Group>,
) -> (r: Issue)
    ensures
        r@ == network_usage_dispersion_issue(crate_name@, groups::groups_of(modules@)),
{
    let total: usize = groups::count_total(modules);
    let module_count: usize = modules.len();
    let fragment = sanitize_fragment(crate_name);
    let evidence = write_network_lines(modules);
    let module_metrics = write_network_values(modules);
    let mut id = "auto_network_usage_dispersion_".to_owned();
    id.append(fragment.as_str());
    let mut title = "Network usage dispersion in `".to_owned();
    title.append(crate_name);
    title.append("` (");
    title.append(count_text(total).as_str());
    title.append(" sites across ");
    title.append(count_text(module_count).as_str());
    title.append(" modules)");
    let status = either(total > 0, "open", "resolved").to_owned();
    let priority = either(module_count >= 3, "high", "medium").to_owned();
    let kind = "logic".to_owned();
    let mut description = "Crate `".to_owned();
    description.append(crate_name);
    description.append("` has ");
    description.append(count_text(total).as_str());
    description.append(" network-using function(s) across ");
    description.append(count_text(module_count).as_str());
    description.append(" module(s).\n\nNo canonical network access layer has been identified. Network calls scattered across modules resist uniform retry/timeout policy, make offline testing harder, and leak transport concerns into business logic.\n\nRecommended direction: establish a dedicated network access layer (e.g. `llm_runtime::`) and route all network I/O through it.");
    let mut location = "state/rustc/".to_owned();
    location.append(crate_name);
    location.append("/graph.json");
    let mut scope = "crate:".to_owned();
    scope.append(crate_name);
    let mut criteria_1 = "all network I/O in `".to_owned();
    criteria_1.append(crate_name);
    criteria_1.append("` routes through one canonical access layer");
    let criteria_2 = "modules outside the network layer do not hold direct network-using symbols".to_owned();
    let criteria_3 = "graph.json is regenerated and network sites collapse to one module".to_owned();
    let criteria = empty_list();
    let criteria = and_text(criteria, criteria_1);
    let criteria = and_text(criteria, criteria_2);
    let criteria = and_text(criteria, criteria_3);
    let metrics = members();
    let metrics = and(metrics, "module_count", uint(module_count));
    let metrics = and(metrics, "modules", module_metrics);
    let metrics = and(metrics, "proof_tier", string("hypothesis"));
    let metrics = and(metrics, "task", string("CentralizeNetworkAccess"));
    let metrics = and(metrics, "total_network_sites", uint(total));
    let metrics = object(metrics);
    Issue {
        id,
        title,
        status,
        priority,
        kind,
        description,
        location,
        scope,
        metrics,
        acceptance_criteria: criteria,
        evidence,
        discovered_by: "graph_metrics_detector".to_owned(),
    }
}

/// The issue on how a module hangs together.
pub open spec fn module_cohesion_issue(
    crate_name: Seq<char>,
    module: Seq<char>,
    task: Seq<char>,
    internal: usize,
    external: usize,
    symbol_count: usize,
    cohesion: Seq<char>,
    cohesion_number: Seq<char>,
) -> IssueView {
    let large = symbol_count > 5;
    let tier = if large { "high"@ } else { "medium"@ };
    let hash = text::text_hash(module + ":"@ + task);
    IssueView {
        id: "auto_cohesion_"@ + crate_name + "_"@ + text::dec(hash as nat),
        title: "Module cohesion signal `"@ + task + "` in `"@ + module + "` (cohesion="@ + cohesion + ")"@,
        status: "open"@,
        priority: "medium"@,
        kind: "logic"@,
        description: "Module `"@ + module + "` in crate `"@ + crate_name + "` has cohesion="@ + cohesion + " (internal="@ + text::dec(internal as nat) + ", external="@ + text::dec(external as nat) + ", symbols="@ + text::dec(symbol_count as nat) + ").\nRecommended task: "@ + task + "."@,
        scope: "crate:"@ + crate_name,
        metrics: JsonView::Object(
            json::no_members().push(
                ("cohesion"@, JsonView::Number(cohesion_number)),
            ).push(
                ("confidence_tier"@, JsonView::Text(tier)),
            ).push(
                ("correctness_level"@, JsonView::Bool(large)),
            ).push(
                ("external_edges"@, JsonView::Uint(external as u64)),
            ).push(
                ("internal_edges"@, JsonView::Uint(internal as u64)),
            ).push(
                ("module"@, JsonView::Text(module)),
            ).push(
                ("symbol_count"@, JsonView::Uint(symbol_count as u64)),
            ).push(
                ("task"@, JsonView::Text(task)),
            ),
        ),
        acceptance_criteria: text::no_texts().push(
            "module boundary complexity reduced and validated"@,
        ).push(
            "build and tests remain green"@,
        ),
        discovered_by: "graph_metrics_detector"@,
        ..issues::empty_issue()
    }
}

/// The issue on how a module hangs together.
pub fn build_module_cohesion_issue(
    crate_name: &str,
    module: &str,
    task: &str,
    internal: usize,
    external: usize,
    symbol_count: usize,
    cohesion: &str,
    cohesion_number: &str,
) -> (r: Issue)
    ensures
        r@ == module_cohesion_issue(crate_name@, module@, task@, internal, external, symbol_count, cohesion@, cohesion_number@),
{
    let large = symbol_count > 5;
    let tier = either(large, "high", "medium");
    let hash: u64 = pair_hash(module, ":", task);
    let mut id = "auto_cohesion_".to_owned();
    id.append(crate_name);
    id.append("_");
    id.append(decimal(hash).as_str());
    let mut title = "Module cohesion signal `".to_owned();
    title.append(task);
    title.append("` in `");
    title.append(module);
    title.append("` (cohesion=");
    title.append(cohesion);
    title.append(")");
    let status = "open".to_owned();
    let priority = "medium".to_owned();
    let kind = "logic".to_owned();
    let mut description = "Module `".to_owned();
    description.append(module);
    description.append("` in crate `");
    description.append(crate_name);
    description.append("` has cohesion=");
    description.append(cohesion);
    description.append(" (internal=");
    description.append(count_text(internal).as_str());
    description.append(", external=");
    description.append(count_text(external).as_str());
    description.append(", symbols=");
    description.append(count_text(symbol_count).as_str());
    description.append(").\nRecommended task: ");
    description.append(task);
    description.append(".");
    let mut scope = "crate:".to_owned();
    scope.append(crate_name);
    let criteria_1 = "module boundary complexity reduced and validated".to_owned();
    let criteria_2 = "build and tests remain green".to_owned();
    let criteria = empty_list();
    let criteria = and_text(criteria, criteria_1);
    let criteria = and_text(criteria, criteria_2);
    let metrics = members();
    let metrics = and(metrics, "cohesion", written(cohesion_number));
    let metrics = and(metrics, "confidence_tier", string(tier));
    let metrics = and(metrics, "correctness_level", boolean(large));
    let metrics = and(metrics, "external_edges", uint(external));
    let metrics = and(metrics, "internal_edges", uint(internal));
    let metrics = and(metrics, "module", string(module));
    let metrics = and(metrics, "symbol_count", uint(symbol_count));
    let metrics = and(metrics, "task", string(task));
    let metrics = object(metrics);
    Issue {
        id,
        title,
        status,
        priority,
        kind,
        description,
        scope,
        metrics,
        acceptance_criteria: criteria,
        discovered_by: "graph_metrics_detector".to_owned(),
        ..Issue::default()
    }
}

} // verus!
