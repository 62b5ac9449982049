//! Complexity across function boundaries: branching that calls pass on, bodies
//! that occur twice, and the issues that follow from them.

use crate::complexity;
use crate::graph_metrics;
use crate::issues;
use crate::issues::{holds_text, is_open, Issue, IssueView};
use crate::json;
use crate::json::{
    and, array, boolean, members, object, string, string_array, uint, written, Json, JsonView,
};
use crate::order;
use crate::order::{sort_ranked, sort_texts, Ranked};
use crate::semantic;
use crate::semantic::{RelationEdge, SemanticGraph, SymbolSummary};
use crate::text;
use crate::text::{
    and_text, contains, count_text, decimal, either, empty_list, hexadecimal, join, parse_u64,
    same, skip_bytes, stable_hash, text_after_first, text_after_last, text_before_last,
};
use vstd::hash_map::StringHashMap;
use vstd::prelude::*;
use vstd::string::*;

verus! {

// ---------------------------------------------------------------------------
// Names
// ---------------------------------------------------------------------------

/// The id of the issue on a hotspot.
pub open spec fn hotspot_id(crate_name: Seq<char>, symbol: Seq<char>) -> Seq<char> {
    "auto_inter_complexity_"@ + crate_name + "_"@ + text::hex(text::text_hash(symbol) as nat)
}

/// The id of the issue on a hotspot.
pub fn inter_issue_id(crate_name: &str, symbol: &str) -> (r: String)
    ensures
        r@ == hotspot_id(crate_name@, symbol@),
{
    let mut id = "auto_inter_complexity_".to_owned();
    id.append(crate_name);
    id.append("_");
    id.append(hexadecimal(stable_hash(symbol)).as_str());
    id
}

/// The id of the issue on bodies that occur twice.
pub open spec fn duplicate_id(group: Seq<Seq<char>>) -> Seq<char> {
    "auto_mir_dup_"@ + text::hex(
        text::text_hash(text::joined(order::sorted_texts(group), ","@)) as nat,
    )
}

/// The id of the issue on bodies that occur twice.
pub fn mir_dup_issue_id(group: &Vec<String>) -> (r: String)
    ensures
        r@ == duplicate_id(text::texts(group@)),
{
    let sorted = sort_texts(text::copy_texts(group));
    let all = join(&sorted, ",");
    let mut id = "auto_mir_dup_".to_owned();
    id.append(hexadecimal(stable_hash(all.as_str())).as_str());
    id
}

/// The id does not depend on the order of the bodies.
pub proof fn law_duplicate_id_is_order_independent(a: Seq<Seq<char>>, b: Seq<Seq<char>>)
    requires
        a.to_multiset() == b.to_multiset(),
    ensures
        duplicate_id(a) == duplicate_id(b),
{
    order::law_sorting_forgets_the_order(a, b);
}

/// An issue names at most this many bodies.
pub const MAX_DUPLICATE_SYMBOLS_IN_ISSUE: usize = 24;

/// The bodies that an issue names, and how many more there are.
pub open spec fn duplicates_summary(group: Seq<Seq<char>>) -> Seq<char> {
    if group.len() <= MAX_DUPLICATE_SYMBOLS_IN_ISSUE {
        text::joined(group, ", "@)
    } else {
        text::joined(text::head_of(group, MAX_DUPLICATE_SYMBOLS_IN_ISSUE as int), ", "@)
            + ", ... (+"@ + text::dec(
            (group.len() - MAX_DUPLICATE_SYMBOLS_IN_ISSUE) as nat,
        ) + " more)"@
    }
}

/// The bodies that an issue names, and how many more there are.
pub fn summarize_duplicate_symbols(group: &Vec<String>) -> (r: String)
    ensures
        r@ == duplicates_summary(text::texts(group@)),
{
    assert(text::texts(group@).len() == group@.len());
    if group.len() <= MAX_DUPLICATE_SYMBOLS_IN_ISSUE {
        return join(group, ", ");
    }
    let shown = text::take_head(group, MAX_DUPLICATE_SYMBOLS_IN_ISSUE);
    let mut t = join(&shown, ", ");
    t.append(", ... (+");
    t.append(count_text(group.len() - MAX_DUPLICATE_SYMBOLS_IN_ISSUE).as_str());
    t.append(" more)");
    t
}

/// A symbol that is written as a constant: with capitals and without small
/// letters.
pub open spec fn const_like(symbol: Seq<char>) -> bool {
    let leaf = text::after_last(symbol, "::"@);
    &&& exists|i: int| 0 <= i < leaf.len() && text::ascii_upper(#[trigger] leaf[i])
    &&& !(exists|i: int| 0 <= i < leaf.len() && text::ascii_lower(#[trigger] leaf[i]))
}

/// A symbol that is written as a constant.
pub fn looks_like_const_symbol(symbol: &str) -> (r: bool)
    ensures
        r == const_like(symbol@),
{
    let leaf = text_after_last(symbol, "::");
    let chars = text::to_chars(leaf.as_str());
    let mut has_lower: bool = false;
    let mut has_upper: bool = false;
    let mut i: usize = 0;
    while i < chars.len()
        invariant
            i <= chars@.len(),
            chars@ == leaf@,
            has_lower == exists|k: int| 0 <= k < i && text::ascii_lower(#[trigger] leaf@[k]),
            has_upper == exists|k: int| 0 <= k < i && text::ascii_upper(#[trigger] leaf@[k]),
        decreases chars@.len() - i,
    {
        let c = chars[i];
        assert(leaf@[i as int] == c);
        let lower = c >= 'a' && c <= 'z';
        let upper = c >= 'A' && c <= 'Z';
        assert(lower == text::ascii_lower(leaf@[i as int]));
        assert(upper == text::ascii_upper(leaf@[i as int]));
        has_lower = has_lower || lower;
        has_upper = has_upper || upper;
        i += 1;
    }
    has_upper && !has_lower
}

/// The bodies that can be merged: constants stay as they are.
pub open spec fn actionable(group: Seq<Seq<char>>) -> Seq<Seq<char>> {
    group.filter(|s: Seq<char>| !const_like(s))
}

/// The bodies that can be merged.
pub fn actionable_duplicate_symbols(group: &Vec<String>) -> (r: Vec<String>)
    ensures
        text::texts(r@) == actionable(text::texts(group@)),
{
    let ghost all = text::texts(group@);
    let mut out = empty_list();
    let mut i: usize = 0;
    proof {
        reveal(Seq::filter);
        assert(all.take(0) =~= Seq::<Seq<char>>::empty());
    }
    while i < group.len()
        invariant
            i <= group@.len(),
            all == text::texts(group@),
            text::texts(out@) == actionable(all.take(i as int)),
        decreases group@.len() - i,
    {
        proof {
            reveal(Seq::filter);
            assert(all.take(i + 1).drop_last() =~= all.take(i as int));
            assert(all.take(i + 1).last() == group@[i as int]@);
        }
        if !looks_like_const_symbol(group[i].as_str()) {
            out = and_text(out, group[i].clone());
        }
        i += 1;
    }
    assert(all.take(i as int) =~= all);
    out
}

/// A file as it is shown: from its source directory on, or its name alone.
pub open spec fn file_display(path: Seq<char>) -> Seq<char> {
    match text::after_first(path, "/src/"@) {
        Some(rest) => "src/"@ + rest,
        None => text::after_last(path, "/"@),
    }
}

/// A file as it is shown.
pub fn shorten_file(path: &str) -> (r: String)
    ensures
        r@ == file_display(path@),
{
    match text_after_first(path, "/src/") {
        Some(rest) => {
            let mut shown = "src/".to_owned();
            shown.append(rest.as_str());
            shown
        },
        None => text_after_last(path, "/"),
    }
}

/// The bit pattern of the double that is nearest to seven tenths. The patterns of
/// doubles that are not negative order as the doubles do.
pub const HIGH_SCORE: u64 = 0x3FE6666666666666;

/// The bit pattern of the double that is nearest to four tenths.
pub const MEDIUM_SCORE: u64 = 0x3FD999999999999A;

/// The bit pattern of the double that is nearest to two tenths.
pub const ACTION_SCORE: u64 = 0x3FC999999999999A;

/// The priority that a score gives.
pub open spec fn score_band(score: u64) -> Seq<char> {
    if score >= HIGH_SCORE {
        "high"@
    } else if score >= MEDIUM_SCORE {
        "medium"@
    } else {
        "low"@
    }
}

/// The priority that a score gives. The score is the bit pattern of a double.
pub fn priority_from_score(score: u64) -> (r: &'static str)
    ensures
        r@ == score_band(score),
{
    if score >= HIGH_SCORE {
        "high"
    } else if score >= MEDIUM_SCORE {
        "medium"
    } else {
        "low"
    }
}

// ---------------------------------------------------------------------------
// Calls in the order of their blocks
// ---------------------------------------------------------------------------

/// A call from a block of a function.
#[derive(Debug)]
pub struct BlockCall {
    pub symbol: String,
    pub block: u64,
    pub callee: String,
}

/// A call from a block of a function, as a mathematical value.
pub struct BlockCallView {
    pub symbol: Seq<char>,
    pub block: u64,
    pub callee: Seq<char>,
}

impl View for BlockCall {
    type V = BlockCallView;

    open spec fn view(&self) -> BlockCallView {
        BlockCallView { symbol: self.symbol@, block: self.block, callee: self.callee@ }
    }
}

impl Ranked for BlockCall {
    open spec fn rank_le(a: BlockCallView, b: BlockCallView) -> bool {
        a.block <= b.block
    }

    fn ranks_at_most(&self, other: &Self) -> (r: bool) {
        self.block <= other.block
    }

    proof fn rank_total(a: BlockCallView, b: BlockCallView) {
    }

    proof fn rank_transitive(a: BlockCallView, b: BlockCallView, c: BlockCallView) {
    }
}

/// How many bytes stand before the symbol in the name of a block.
pub const BLOCK_PREFIX_LEN: usize = 5;

/// The call that a bridge edge stands for: one from a block, written as
/// `cfg::symbol::bbN`. Whatever stands in the place of `cfg::` is cut off; a name that is
/// too short for that stands for no call.
pub open spec fn block_call(e: RelationEdge) -> Option<BlockCallView> {
    let from = e.from@;
    if e.relation@ == "Call"@ && text::has_text(from, "::bb"@) {
        match (
            text::after_bytes(text::before_last(from, "::bb"@), BLOCK_PREFIX_LEN as nat),
            text::parsed(text::after_last(from, "::bb"@)),
        ) {
            (Some(symbol), Some(block)) => Some(BlockCallView { symbol, block, callee: e.to@ }),
            _ => None,
        }
    } else {
        None
    }
}

fn read_block_call(e: &RelationEdge) -> (r: Option<BlockCall>)
    ensures
        match (r, block_call(*e)) {
            (Some(c), Some(v)) => c@ == v,
            (None, None) => true,
            _ => false,
        },
{
    let from = e.from.as_str();
    if !same(e.relation.as_str(), "Call") || !contains(from, "::bb") {
        return None;
    }
    let owner = text_before_last(from, "::bb");
    let number = text_after_last(from, "::bb");
    match (skip_bytes(owner.as_str(), BLOCK_PREFIX_LEN), parse_u64(number.as_str())) {
        (Some(symbol), Some(block)) => Some(BlockCall { symbol, block, callee: e.to.clone() }),
        _ => None,
    }
}

/// The calls from the blocks of one function, in the order of the edges.
pub open spec fn calls_from(es: Seq<RelationEdge>, symbol: Seq<char>) -> Seq<BlockCallView>
    decreases es.len(),
{
    if es.len() == 0 {
        Seq::empty()
    } else {
        let before = calls_from(es.drop_last(), symbol);
        match block_call(es.last()) {
            Some(c) => if c.symbol == symbol {
                before.push(c)
            } else {
                before
            },
            None => before,
        }
    }
}

/// What a function calls, in the order of its blocks, as one text.
pub open spec fn callee_text(es: Seq<RelationEdge>, symbol: Seq<char>) -> Seq<char> {
    text::joined(
        order::stable_sorted(
            calls_from(es, symbol),
            |a: BlockCallView, b: BlockCallView| BlockCall::rank_le(a, b),
        ).map_values(|c: BlockCallView| c.callee),
        ","@,
    )
}

fn write_callees(edges: &Vec<RelationEdge>, symbol: &str) -> (r: String)
    ensures
        r@ == callee_text(edges@, symbol@),
{
    let ghost es = edges@;
    let mut calls: Vec<BlockCall> = Vec::new();
    let mut i: usize = 0;
    proof {
        assert(es.take(0) =~= Seq::<RelationEdge>::empty());
        assert(order::views(calls@) =~= Seq::<BlockCallView>::empty());
    }
    while i < edges.len()
        invariant
            i <= edges@.len(),
            es == edges@,
            order::views(calls@) == calls_from(es.take(i as int), symbol@),
        decreases edges@.len() - i,
    {
        let ghost before = order::views(calls@);
        proof {
            assert(es.take(i + 1).drop_last() =~= es.take(i as int));
            assert(es.take(i + 1).last() == edges@[i as int]);
        }
        match read_block_call(&edges[i]) {
            Some(c) => {
                if same(c.symbol.as_str(), symbol) {
                    let ghost view = c@;
                    calls.push(c);
                    assert(order::views(calls@) =~= before.push(view));
                }
            },
            None => {},
        }
        i += 1;
    }
    assert(es.take(i as int) =~= es);
    let sorted = sort_ranked(calls);
    let ghost all = order::views(sorted@);
    let mut names: Vec<String> = Vec::new();
    let mut k: usize = 0;
    while k < sorted.len()
        invariant
            k <= sorted@.len(),
            names@.len() == k,
            forall|j: int| 0 <= j < k ==> (#[trigger] names@[j])@ == sorted@[j].callee@,
        decreases sorted@.len() - k,
    {
        names.push(sorted[k].callee.clone());
        k += 1;
    }
    assert(text::texts(names@) =~= all.map_values(|c: BlockCallView| c.callee));
    join(&names, ",")
}

// ---------------------------------------------------------------------------
// Bodies that occur twice
// ---------------------------------------------------------------------------

/// What makes two bodies the same: the fingerprint, the signature, and what is
/// called in the order of the blocks.
#[derive(Debug)]
pub struct BodyKey {
    pub fingerprint: String,
    pub signature: String,
    pub callees: String,
    pub symbol: String,
}

/// What makes two bodies the same, with the symbol that has the body.
pub struct BodyView {
    pub fingerprint: Seq<char>,
    pub signature: Seq<char>,
    pub callees: Seq<char>,
    pub symbol: Seq<char>,
}

impl View for BodyKey {
    type V = BodyView;

    open spec fn view(&self) -> BodyView {
        BodyView {
            fingerprint: self.fingerprint@,
            signature: self.signature@,
            callees: self.callees@,
            symbol: self.symbol@,
        }
    }
}

/// Two bodies are the same.
pub open spec fn same_body(a: BodyView, b: BodyView) -> bool {
    a.fingerprint == b.fingerprint && a.signature == b.signature && a.callees == b.callees
}

fn is_same_body(a: &BodyKey, b: &BodyKey) -> (r: bool)
    ensures
        r == same_body(a@, b@),
{
    same(a.fingerprint.as_str(), b.fingerprint.as_str()) && same(
        a.signature.as_str(),
        b.signature.as_str(),
    ) && same(a.callees.as_str(), b.callees.as_str())
}

/// The bodies of all symbols that have a fingerprint.
pub open spec fn bodies(ss: Seq<SymbolSummary>, es: Seq<RelationEdge>) -> Seq<BodyView>
    decreases ss.len(),
{
    if ss.len() == 0 {
        Seq::empty()
    } else {
        let before = bodies(ss.drop_last(), es);
        let s = ss.last();
        match s.mir_fingerprint {
            Some(fp) => before.push(
                BodyView {
                    fingerprint: fp@,
                    signature: match s.signature {
                        Some(sig) => sig@,
                        None => ""@,
                    },
                    callees: callee_text(es, s.symbol@),
                    symbol: s.symbol@,
                },
            ),
            None => before,
        }
    }
}

fn collect_bodies(g: &SemanticGraph) -> (r: Vec<BodyKey>)
    ensures
        order::views(r@) == bodies(g.summaries@, g.bridge_edges@),
{
    let ghost ss = g.summaries@;
    let mut out: Vec<BodyKey> = Vec::new();
    let mut i: usize = 0;
    proof {
        assert(ss.take(0) =~= Seq::<SymbolSummary>::empty());
        assert(order::views(out@) =~= Seq::<BodyView>::empty());
    }
    while i < g.summaries.len()
        invariant
            i <= g.summaries@.len(),
            ss == g.summaries@,
            order::views(out@) == bodies(ss.take(i as int), g.bridge_edges@),
        decreases g.summaries@.len() - i,
    {
        let s = &g.summaries[i];
        let ghost before = order::views(out@);
        proof {
            assert(ss.take(i + 1).drop_last() =~= ss.take(i as int));
            assert(ss.take(i + 1).last() == *s);
        }
        match &s.mir_fingerprint {
            Some(fp) => {
                let signature = match &s.signature {
                    Some(sig) => sig.clone(),
                    None => "".to_owned(),
                };
                let body = BodyKey {
                    fingerprint: fp.clone(),
                    signature,
                    callees: write_callees(&g.bridge_edges, s.symbol.as_str()),
                    symbol: s.symbol.clone(),
                };
                let ghost view = body@;
                out.push(body);
                assert(order::views(out@) =~= before.push(view));
            },
            None => {},
        }
        i += 1;
    }
    assert(ss.take(i as int) =~= ss);
    out
}

/// The symbols with the same body as `b`.
pub open spec fn sharing(bs: Seq<BodyView>, b: BodyView) -> Seq<Seq<char>> {
    bs.filter(|x: BodyView| same_body(x, b)).map_values(|x: BodyView| x.symbol)
}

fn collect_sharing(bs: &Vec<BodyKey>, b: &BodyKey) -> (r: Vec<String>)
    ensures
        text::texts(r@) == sharing(order::views(bs@), b@),
{
    let ghost all = order::views(bs@);
    let ghost p = |x: BodyView| same_body(x, b@);
    let ghost f = |x: BodyView| x.symbol;
    let mut out = empty_list();
    let mut i: usize = 0;
    proof {
        reveal(Seq::filter);
        assert(all.take(0) =~= Seq::<BodyView>::empty());
        assert(all.take(0).filter(p).map_values(f) =~= Seq::<Seq<char>>::empty());
    }
    while i < bs.len()
        invariant
            i <= bs@.len(),
            all == order::views(bs@),
            p == (|x: BodyView| same_body(x, b@)),
            f == (|x: BodyView| x.symbol),
            text::texts(out@) == all.take(i as int).filter(p).map_values(f),
        decreases bs@.len() - i,
    {
        proof {
            reveal(Seq::filter);
            assert(all.take(i + 1).drop_last() =~= all.take(i as int));
            assert(all.take(i + 1).last() == bs@[i as int]@);
        }
        if is_same_body(&bs[i], b) {
            out = and_text(out, bs[i].symbol.clone());
            assert(text::texts(out@) =~= all.take(i + 1).filter(p).map_values(f));
        }
        i += 1;
    }
    assert(all.take(i as int) =~= all);
    out
}

/// No body before place `i` is the same.
pub open spec fn first_of_its_body(bs: Seq<BodyView>, i: int) -> bool {
    forall|k: int| 0 <= k < i ==> !same_body(#[trigger] bs[k], bs[i])
}

/// The groups of at least two symbols with the same body, in the order in which
/// the bodies occur first.
pub open spec fn body_groups(bs: Seq<BodyView>, n: int) -> Seq<Seq<Seq<char>>>
    decreases n,
{
    if n <= 0 {
        Seq::empty()
    } else {
        let before = body_groups(bs, n - 1);
        let group = sharing(bs, bs[n - 1]);
        if first_of_its_body(bs, n - 1) && group.len() >= 2 {
            before.push(group)
        } else {
            before
        }
    }
}

/// The lists of a list as character sequences.
pub open spec fn lists(v: Seq<Vec<String>>) -> Seq<Seq<Seq<char>>> {
    v.map_values(|l: Vec<String>| text::texts(l@))
}

fn is_first_of_its_body(bs: &Vec<BodyKey>, i: usize) -> (r: bool)
    requires
        i < bs@.len(),
    ensures
        r == first_of_its_body(order::views(bs@), i as int),
{
    let ghost all = order::views(bs@);
    let mut k: usize = 0;
    while k < i
        invariant
            k <= i < bs@.len(),
            all == order::views(bs@),
            forall|j: int| 0 <= j < k ==> !same_body(#[trigger] all[j], all[i as int]),
        decreases i - k,
    {
        assert(all[k as int] == bs@[k as int]@);
        assert(all[i as int] == bs@[i as int]@);
        if is_same_body(&bs[k], &bs[i]) {
            return false;
        }
        k += 1;
    }
    true
}

/// The groups of at least two symbols with the same body.
pub fn collect_body_groups(bs: &Vec<BodyKey>) -> (r: Vec<Vec<String>>)
    ensures
        lists(r@) == body_groups(order::views(bs@), bs@.len() as int),
{
    let ghost all = order::views(bs@);
    let mut out: Vec<Vec<String>> = Vec::new();
    let mut i: usize = 0;
    assert(lists(out@) =~= Seq::<Seq<Seq<char>>>::empty());
    while i < bs.len()
        invariant
            i <= bs@.len(),
            all == order::views(bs@),
            lists(out@) == body_groups(all, i as int),
        decreases bs@.len() - i,
    {
        let ghost before = lists(out@);
        assert(all[i as int] == bs@[i as int]@);
        if is_first_of_its_body(bs, i) {
            let group = collect_sharing(bs, &bs[i]);
            assert(text::texts(group@).len() == group@.len());
            if group.len() >= 2 {
                let ghost view = text::texts(group@);
                out.push(group);
                assert(lists(out@) =~= before.push(view));
            }
        }
        i += 1;
    }
    out
}

/// The other symbols of the last group that holds a symbol.
pub open spec fn siblings(gs: Seq<Seq<Seq<char>>>, symbol: Seq<char>) -> Seq<Seq<char>>
    decreases gs.len(),
{
    if gs.len() == 0 {
        Seq::empty()
    } else if gs.last().contains(symbol) {
        gs.last().filter(|s: Seq<char>| s != symbol)
    } else {
        siblings(gs.drop_last(), symbol)
    }
}

fn find_siblings(gs: &Vec<Vec<String>>, symbol: &str) -> (r: Vec<String>)
    ensures
        text::texts(r@) == siblings(lists(gs@), symbol@),
{
    let ghost all = lists(gs@);
    let mut i: usize = gs.len();
    assert(all.take(i as int) =~= all);
    while i > 0
        invariant
            i <= gs@.len(),
            all == lists(gs@),
            siblings(all.take(i as int), symbol@) == siblings(all, symbol@),
        decreases i,
    {
        proof {
            assert(all.take(i as int).drop_last() =~= all.take(i - 1));
            assert(all.take(i as int).last() == text::texts(gs@[i - 1]@));
        }
        if holds_text(&gs[i - 1], symbol) {
            return without(&gs[i - 1], symbol);
        }
        i -= 1;
    }
    empty_list()
}

fn without(list: &Vec<String>, symbol: &str) -> (r: Vec<String>)
    ensures
        text::texts(r@) == text::texts(list@).filter(|s: Seq<char>| s != symbol@),
{
    let ghost all = text::texts(list@);
    let ghost p = |s: Seq<char>| s != symbol@;
    let mut out = empty_list();
    let mut i: usize = 0;
    proof {
        reveal(Seq::filter);
        assert(all.take(0) =~= Seq::<Seq<char>>::empty());
    }
    while i < list.len()
        invariant
            i <= list@.len(),
            all == text::texts(list@),
            p == (|s: Seq<char>| s != symbol@),
            text::texts(out@) == all.take(i as int).filter(p),
        decreases list@.len() - i,
    {
        proof {
            reveal(Seq::filter);
            assert(all.take(i + 1).drop_last() =~= all.take(i as int));
            assert(all.take(i + 1).last() == list@[i as int]@);
        }
        if !same(list[i].as_str(), symbol) {
            out = and_text(out, list[i].clone());
        }
        i += 1;
    }
    assert(all.take(i as int) =~= all);
    out
}

// ---------------------------------------------------------------------------
// Entries
// ---------------------------------------------------------------------------

/// What is known of one symbol across its calls. Scores are left out that are no
/// whole numbers of half points.
#[derive(Debug)]
pub struct InterEntry {
    pub symbol: String,
    pub file: String,
    pub line: u32,
    /// The blocks of its own body.
    pub b_direct: usize,
    /// The half points of the called symbols that are known, together.
    pub callee_half_points: u128,
    pub callee_count: usize,
    pub call_out: usize,
    pub call_in: usize,
    pub mir_fingerprint: Option<String>,
    /// Other symbols with the same body.
    pub duplicate_of: Vec<String>,
    pub branch_half_points: u128,
    pub is_directly_recursive: bool,
}

/// The half points of a symbol, where anything of its complexity is known.
pub open spec fn points_if_known(s: SymbolSummary) -> Option<nat> {
    match (s.branch_half_points, s.mir_blocks) {
        (Some(h), _) => Some(h as nat),
        (None, Some(b)) => Some(2 * b as nat),
        (None, None) => None,
    }
}

/// The half points of the last summary of a symbol that knows them.
pub open spec fn known_points(ss: Seq<SymbolSummary>, symbol: Seq<char>) -> Option<nat>
    decreases ss.len(),
{
    if ss.len() == 0 {
        None
    } else if ss.last().symbol@ == symbol && points_if_known(ss.last()) is Some {
        points_if_known(ss.last())
    } else {
        known_points(ss.drop_last(), symbol)
    }
}

fn half_points(s: &SymbolSummary) -> (r: Option<u128>)
    ensures
        match (r, points_if_known(*s)) {
            (Some(p), Some(v)) => p == v,
            (None, None) => true,
            _ => false,
        },
{
    match s.branch_half_points {
        Some(h) => Some(h as u128),
        None => match s.mir_blocks {
            Some(b) => Some(2 * (b as u128)),
            None => None,
        },
    }
}

/// The map tells the half points of every symbol that are known.
pub open spec fn maps_points(m: Map<Seq<char>, u128>, ss: Seq<SymbolSummary>) -> bool {
    &&& forall|k: Seq<char>| #[trigger] m.contains_key(k) <==> known_points(ss, k) is Some
    &&& forall|k: Seq<char>| #[trigger]
        m.contains_key(k) ==> known_points(ss, k) == Some(m[k] as nat)
}

fn map_points(summaries: &Vec<SymbolSummary>) -> (r: StringHashMap<u128>)
    ensures
        maps_points(r@, summaries@),
{
    let ghost ss = summaries@;
    let mut map: StringHashMap<u128> = StringHashMap::new();
    let mut i: usize = 0;
    assert(ss.take(0) =~= Seq::<SymbolSummary>::empty());
    while i < summaries.len()
        invariant
            i <= summaries@.len(),
            ss == summaries@,
            maps_points(map@, ss.take(i as int)),
        decreases summaries@.len() - i,
    {
        proof {
            assert(ss.take(i + 1).drop_last() =~= ss.take(i as int));
            assert(ss.take(i + 1).last() == ss[i as int]);
        }
        match half_points(&summaries[i]) {
            Some(p) => {
                map.insert(summaries[i].symbol.clone(), p);
            },
            None => {},
        }
        i += 1;
    }
    assert(ss.take(i as int) =~= ss);
    map
}

/// The half points of what `symbol` calls and how many of these are known.
pub open spec fn called_points(
    es: Seq<(Seq<char>, Seq<char>)>,
    ss: Seq<SymbolSummary>,
    symbol: Seq<char>,
) -> (nat, nat)
    decreases es.len(),
{
    if es.len() == 0 {
        (0, 0)
    } else {
        let before = called_points(es.drop_last(), ss, symbol);
        if es.last().0 == symbol {
            match known_points(ss, es.last().1) {
                Some(p) => (before.0 + p, before.1 + 1),
                None => before,
            }
        } else {
            before
        }
    }
}

/// How many calls lead to `symbol`.
pub open spec fn callers(es: Seq<(Seq<char>, Seq<char>)>, symbol: Seq<char>) -> nat
    decreases es.len(),
{
    if es.len() == 0 {
        0
    } else {
        callers(es.drop_last(), symbol) + if es.last().1 == symbol {
            1nat
        } else {
            0nat
        }
    }
}

fn count_calls(g: &SemanticGraph, points: &StringHashMap<u128>, symbol: &str) -> (r: (
    u128,
    usize,
    usize,
))
    requires
        maps_points(points@, g.summaries@),
    ensures
        ({
            let es = semantic::edges_of(g.call_edges@);
            let called = called_points(es, g.summaries@, symbol@);
            &&& r.0 == complexity::capped_total(called.0)
            &&& r.1 == called.1
            &&& r.2 == callers(es, symbol@)
        }),
{
    let ghost es = semantic::edges_of(g.call_edges@);
    let ghost ss = g.summaries@;
    let mut total: u128 = 0;
    let mut count: usize = 0;
    let mut inward: usize = 0;
    let mut i: usize = 0;
    assert(es.take(0) =~= Seq::<(Seq<char>, Seq<char>)>::empty());
    while i < g.call_edges.len()
        invariant
            i <= g.call_edges@.len(),
            es == semantic::edges_of(g.call_edges@),
            ss == g.summaries@,
            maps_points(points@, ss),
            total == complexity::capped_total(called_points(es.take(i as int), ss, symbol@).0),
            count == called_points(es.take(i as int), ss, symbol@).1,
            inward == callers(es.take(i as int), symbol@),
            count <= i,
            inward <= i,
        decreases g.call_edges@.len() - i,
    {
        let edge = &g.call_edges[i];
        proof {
            assert(es.take(i + 1).drop_last() =~= es.take(i as int));
            assert(es.take(i + 1).last() == edge@);
        }
        if same(edge.from.as_str(), symbol) {
            match points.get(edge.to.as_str()) {
                Some(p) => {
                    total = total.saturating_add(*p);
                    count += 1;
                },
                None => {},
            }
        }
        if same(edge.to.as_str(), symbol) {
            inward += 1;
        }
        i += 1;
    }
    assert(es.take(i as int) =~= es);
    (total, count, inward)
}

/// A summary has an entry: its complexity is known and not nothing.
pub open spec fn has_entry(ss: Seq<SymbolSummary>, s: SymbolSummary) -> bool {
    match known_points(ss, s.symbol@) {
        Some(p) => !(p == 0 && complexity::blocks_of(s) == 0),
        None => false,
    }
}

impl InterEntry {
    /// The entry of the summary `s` in the graph `g`.
    pub open spec fn of(self, g: SemanticGraph, s: SymbolSummary) -> bool {
        let es = semantic::edges_of(g.call_edges@);
        let called = called_points(es, g.summaries@, s.symbol@);
        let bs = bodies(g.summaries@, g.bridge_edges@);
        &&& self.symbol@ == s.symbol@
        &&& self.file@ == s.file@
        &&& self.line == s.line
        &&& self.b_direct == complexity::blocks_of(s)
        &&& self.callee_half_points == complexity::capped_total(called.0)
        &&& self.callee_count == called.1
        &&& self.call_out == s.call_out
        &&& self.call_in == callers(es, s.symbol@)
        &&& text::optional(self.mir_fingerprint) == text::optional(s.mir_fingerprint)
        &&& text::texts(self.duplicate_of@) == siblings(
            body_groups(bs, bs.len() as int),
            s.symbol@,
        )
        &&& Some(self.branch_half_points as nat) == known_points(g.summaries@, s.symbol@)
        &&& self.is_directly_recursive == s.is_directly_recursive
    }
}

/// What was found in one crate: the entries in the order of the graph, the groups
/// of symbols with the same body, and the number of calls.
#[derive(Debug)]
pub struct InterAnalysis {
    pub entries: Vec<InterEntry>,
    pub duplicate_groups: Vec<Vec<String>>,
    pub call_edge_count: usize,
}

/// The summaries that have an entry.
pub open spec fn entered(ss: Seq<SymbolSummary>) -> Seq<SymbolSummary> {
    ss.filter(|s: SymbolSummary| has_entry(ss, s))
}

/// Analyses the graph of a crate.
pub fn analyze(g: &SemanticGraph) -> (r: InterAnalysis)
    ensures
        r.entries@.len() == entered(g.summaries@).len(),
        forall|i: int|
            0 <= i < r.entries@.len() ==> (#[trigger] r.entries@[i]).of(
                *g,
                entered(g.summaries@)[i],
            ),
        lists(r.duplicate_groups@) == body_groups(
            bodies(g.summaries@, g.bridge_edges@),
            bodies(g.summaries@, g.bridge_edges@).len() as int,
        ),
        r.call_edge_count == g.call_edges@.len(),
{
    let points = map_points(&g.summaries);
    let bodies_found = collect_bodies(g);
    let groups = collect_body_groups(&bodies_found);
    let ghost ss = g.summaries@;
    let ghost keep = |s: SymbolSummary| has_entry(ss, s);
    let ghost bs = bodies(ss, g.bridge_edges@);
    assert(bs.len() == bodies_found@.len());
    let mut entries: Vec<InterEntry> = Vec::new();
    let mut i: usize = 0;
    proof {
        reveal(Seq::filter);
        assert(ss.take(0) =~= Seq::<SymbolSummary>::empty());
    }
    while i < g.summaries.len()
        invariant
            i <= g.summaries@.len(),
            ss == g.summaries@,
            keep == (|s: SymbolSummary| has_entry(ss, s)),
            bs == bodies(ss, g.bridge_edges@),
            lists(groups@) == body_groups(bs, bs.len() as int),
            maps_points(points@, ss),
            entries@.len() == ss.take(i as int).filter(keep).len(),
            forall|k: int|
                0 <= k < entries@.len() ==> (#[trigger] entries@[k]).of(
                    *g,
                    ss.take(i as int).filter(keep)[k],
                ),
        decreases g.summaries@.len() - i,
    {
        let s = &g.summaries[i];
        proof {
            reveal(Seq::filter);
            assert(ss.take(i + 1).drop_last() =~= ss.take(i as int));
            assert(ss.take(i + 1).last() == *s);
        }
        let blocks: usize = match s.mir_blocks {
            Some(b) => b,
            None => 0,
        };
        match points.get(s.symbol.as_str()) {
            Some(p) => {
                let p: u128 = *p;
                if !(p == 0 && blocks == 0) {
                    let calls = count_calls(g, &points, s.symbol.as_str());
                    let entry = InterEntry {
                        symbol: s.symbol.clone(),
                        file: s.file.clone(),
                        line: s.line,
                        b_direct: blocks,
                        callee_half_points: calls.0,
                        callee_count: calls.1,
                        call_out: s.call_out,
                        call_in: calls.2,
                        mir_fingerprint: text::copy_optional(&s.mir_fingerprint),
                        duplicate_of: find_siblings(&groups, s.symbol.as_str()),
                        branch_half_points: p,
                        is_directly_recursive: s.is_directly_recursive,
                    };
                    assert(entry.of(*g, *s));
                    entries.push(entry);
                }
            },
            None => {},
        }
        i += 1;
    }
    assert(ss.take(i as int) =~= ss);
    InterAnalysis { entries, duplicate_groups: groups, call_edge_count: g.call_edges.len() }
}

/// An entry with the scores that were computed for it: the objective as the bit
/// pattern of a double, and all of them as they are written.
#[derive(Debug)]
pub struct ScoredInterEntry {
    pub entry: InterEntry,
    pub objective: u64,
    pub objective_text: String,
    pub heat_text: String,
    pub b_transitive_text: String,
    pub d_det_text: String,
}

impl View for ScoredInterEntry {
    type V = ScoredInterEntry;

    open spec fn view(&self) -> ScoredInterEntry {
        *self
    }
}

/// The higher objective comes first.
impl Ranked for ScoredInterEntry {
    open spec fn rank_le(a: ScoredInterEntry, b: ScoredInterEntry) -> bool {
        a.objective >= b.objective
    }

    fn ranks_at_most(&self, other: &Self) -> (r: bool) {
        self.objective >= other.objective
    }

    proof fn rank_total(a: ScoredInterEntry, b: ScoredInterEntry) {
    }

    proof fn rank_transitive(a: ScoredInterEntry, b: ScoredInterEntry, c: ScoredInterEntry) {
    }
}

/// Sorts entries by objective, the highest first; equal ones keep their order.
pub fn rank_entries(entries: Vec<ScoredInterEntry>) -> (r: Vec<ScoredInterEntry>)
    ensures
        r@ == order::stable_sorted(
            entries@,
            |a: ScoredInterEntry, b: ScoredInterEntry| ScoredInterEntry::rank_le(a, b),
        ),
        r@.to_multiset() == entries@.to_multiset(),
        forall|i: int, j: int|
            0 <= i < j < r@.len() ==> (#[trigger] r@[i]).objective >= (#[trigger] r@[j]).objective,
{
    let ghost before = entries@;
    let sorted = sort_ranked(entries);
    proof {
        let le = |a: ScoredInterEntry, b: ScoredInterEntry| ScoredInterEntry::rank_le(a, b);
        assert(order::views(before) =~= before);
        assert(order::views(sorted@) =~= sorted@);
        order::lemma_stable_sorted(before, le);
        assert forall|i: int, j: int| 0 <= i < j < sorted@.len() implies (
        #[trigger] sorted@[i]).objective >= (#[trigger] sorted@[j]).objective by {
            assert(le(sorted@[i], sorted@[j]));
        }
    }
    sorted
}

/// The half points of a branch score with one decimal place.
pub open spec fn points_text(p: u128) -> Seq<char> {
    text::dec((p / 2) as nat) + if p % 2 == 0 {
        ".0"@
    } else {
        ".5"@
    }
}

/// The half points of a branch score with one decimal place.
pub fn write_points(p: u128) -> (r: String)
    ensures
        r@ == points_text(p),
{
    let mut t = text::wide_decimal(p / 2);
    t.append(either(p % 2 == 0, ".0", ".5"));
    t
}

/// Another symbol has the same body.
pub open spec fn is_duplicate(e: ScoredInterEntry) -> bool {
    e.entry.duplicate_of@.len() > 0
}

/// One where another symbol has the same body, else nought.
pub open spec fn r_body(e: ScoredInterEntry) -> Seq<char> {
    if is_duplicate(e) {
        "1.0"@
    } else {
        "0.0"@
    }
}

fn r_body_text(e: &ScoredInterEntry) -> (r: &'static str)
    ensures
        r@ == r_body(*e),
{
    if e.entry.duplicate_of.len() > 0 {
        "1.0"
    } else {
        "0.0"
    }
}

// ---------------------------------------------------------------------------
// Issues
// ---------------------------------------------------------------------------

/// Where an entry stands.
pub open spec fn entry_location(e: ScoredInterEntry) -> Seq<char> {
    file_display(e.entry.file@) + ":"@ + text::dec(e.entry.line as nat)
}

fn hotspot_location(e: &ScoredInterEntry) -> (r: String)
    ensures
        r@ == entry_location(*e),
{
    let mut t = shorten_file(e.entry.file.as_str());
    t.append(":");
    t.append(decimal(e.entry.line as u64).as_str());
    t
}

/// What is said of the symbols with the same body.
pub open spec fn duplicate_note_of(e: ScoredInterEntry) -> Seq<char> {
    if is_duplicate(e) {
        "\n\nThis function has MIR-identical siblings: "@ + text::joined(
            text::texts(e.entry.duplicate_of@),
            ", "@,
        ) + ". Consolidate into a shared helper to eliminate R directly."@
    } else {
        ""@
    }
}

fn duplicate_note(e: &ScoredInterEntry) -> (r: String)
    ensures
        r@ == duplicate_note_of(*e),
{
    if e.entry.duplicate_of.len() > 0 {
        let mut t = "\n\nThis function has MIR-identical siblings: ".to_owned();
        t.append(join(&e.entry.duplicate_of, ", ").as_str());
        t.append(". Consolidate into a shared helper to eliminate R directly.");
        t
    } else {
        "".to_owned()
    }
}

/// What shows that an entry is a hotspot.
pub open spec fn hotspot_evidence(e: ScoredInterEntry) -> Seq<Seq<char>> {
    let branch = points_text(e.entry.branch_half_points);
    let first = text::no_texts().push("inter_objective="@ + e.objective_text@).push(
        "branch_score="@ + branch + " heat_score="@ + e.heat_text@,
    ).push("b_transitive="@ + e.b_transitive_text@).push(
        "r_body="@ + r_body(e) + " d_det="@ + e.d_det_text@,
    ).push(
        "call_out="@ + text::dec(e.entry.call_out as nat) + " call_in="@ + text::dec(
            e.entry.call_in as nat,
        ),
    ).push("location: "@ + entry_location(e));
    let second = text::with_text_if(
        first,
        e.entry.is_directly_recursive,
        "is_directly_recursive=true"@,
    );
    text::with_text_if(
        second,
        is_duplicate(e),
        "MIR duplicates: "@ + text::joined(text::texts(e.entry.duplicate_of@), ", "@),
    )
}

fn write_hotspot_evidence(e: &ScoredInterEntry) -> (r: Vec<String>)
    ensures
        text::texts(r@) == hotspot_evidence(*e),
{
    let branch = write_points(e.entry.branch_half_points);
    let mut a = "inter_objective=".to_owned();
    a.append(e.objective_text.as_str());
    let mut b = "branch_score=".to_owned();
    b.append(branch.as_str());
    b.append(" heat_score=");
    b.append(e.heat_text.as_str());
    let mut c = "b_transitive=".to_owned();
    c.append(e.b_transitive_text.as_str());
    let mut d = "r_body=".to_owned();
    d.append(r_body_text(e));
    d.append(" d_det=");
    d.append(e.d_det_text.as_str());
    let mut f = "call_out=".to_owned();
    f.append(count_text(e.entry.call_out).as_str());
    f.append(" call_in=");
    f.append(count_text(e.entry.call_in).as_str());
    let mut l = "location: ".to_owned();
    l.append(hotspot_location(e).as_str());
    let mut out = empty_list();
    out = and_text(out, a);
    out = and_text(out, b);
    out = and_text(out, c);
    out = and_text(out, d);
    out = and_text(out, f);
    out = and_text(out, l);
    text::push_text_if(&mut out, e.entry.is_directly_recursive, "is_directly_recursive=true");
    let mut twins = "MIR duplicates: ".to_owned();
    twins.append(join(&e.entry.duplicate_of, ", ").as_str());
    text::push_text_if(&mut out, e.entry.duplicate_of.len() > 0, twins.as_str());
    out
}

/// The issue on a hotspot.
pub open spec fn hotspot_issue(
    crate_name: Seq<char>,
    e: ScoredInterEntry,
) -> IssueView {
    let symbol = e.entry.symbol@;
    let short = text::after_last(symbol, "::"@);
    let branch = points_text(e.entry.branch_half_points);
    let call_out = e.entry.call_out;
    let call_in = e.entry.call_in;
    let location = entry_location(e);
    let score = e.objective_text@;
    let heat = e.heat_text@;
    let b_t = e.b_transitive_text@;
    let d = e.d_det_text@;
    let r_b = r_body(e);
    let twin = is_duplicate(e);
    let recursive_note = if e.entry.is_directly_recursive { "\n- is_directly_recursive=true  (consider converting to iteration)"@ } else { ""@ };
    let dup_note = duplicate_note_of(e);
    let lead = if twin { "Reduce inter-function complexity + eliminate duplicate: "@ } else { "Reduce inter-function complexity: "@ };
    let key = hotspot_id(crate_name, symbol);
    let urgency = score_band(e.objective);
    let evidence = hotspot_evidence(e);
    IssueView {
        id: key,
        title: lead + short,
        status: "open"@,
        priority: urgency,
        kind: if twin {
            "redundancy"@
        } else {
            "performance"@
        },
        description: "Inter-function objective score "@ + score + " in crate `"@ + crate_name + "` (threshold for action: ≥0.20).\n\nExecution model: Detect(this issue) → Propose(LLM refactor) → Apply(patch) → Verify(build+test)\n\nMetrics:\n- branch_score="@ + branch + "  (SwitchInt×2+Call×1+Assert×0.5 over non-cleanup blocks)\n- heat_score="@ + heat + "  (branch_score × ln(call_in+1))\n- B_transitive="@ + b_t + "  (local + mean callee branch_score)\n- R_body="@ + r_b + "  (1.0 = MIR duplicate exists)\n- D_det="@ + d + "  (1.0 = fully deterministic)\n- call_out="@ + text::dec(call_out as nat) + "  call_in="@ + text::dec(call_in as nat) + recursive_note + dup_note,
        location: location,
        evidence: evidence,
        discovered_by: "inter_complexity_analyzer"@,
        ..issues::empty_issue()
    }
}

/// The issue on a hotspot.
pub fn build_hotspot_issue(
    crate_name: &str,
    e: &ScoredInterEntry,
) -> (r: Issue)
    ensures
        r@ == hotspot_issue(crate_name@, *e),
{
    let symbol = e.entry.symbol.as_str();
    let short = text_after_last(symbol, "::");
    let branch = write_points(e.entry.branch_half_points);
    let call_out: usize = e.entry.call_out;
    let call_in: usize = e.entry.call_in;
    let location = hotspot_location(e);
    let score = e.objective_text.as_str();
    let heat = e.heat_text.as_str();
    let b_t = e.b_transitive_text.as_str();
    let d = e.d_det_text.as_str();
    let r_b = r_body_text(e);
    let twin = e.entry.duplicate_of.len() > 0;
    let recursive_note = either(e.entry.is_directly_recursive, "\n- is_directly_recursive=true  (consider converting to iteration)", "");
    let dup_note = duplicate_note(e);
    let lead = either(twin, "Reduce inter-function complexity + eliminate duplicate: ", "Reduce inter-function complexity: ");
    let key = inter_issue_id(crate_name, symbol);
    let urgency = priority_from_score(e.objective);
    let evidence = write_hotspot_evidence(e);
    let id = key.as_str().to_owned();
    let mut title = lead.to_owned();
    title.append(short.as_str());
    let status = "open".to_owned();
    let priority = urgency.to_owned();
    let kind = either(twin, "redundancy", "performance").to_owned();
    let mut description = "Inter-function objective score ".to_owned();
    description.append(score);
    description.append(" in crate `");
    description.append(crate_name);
    description.append("` (threshold for action: ≥0.20).\n\nExecution model: Detect(this issue) → Propose(LLM refactor) → Apply(patch) → Verify(build+test)\n\nMetrics:\n- branch_score=");
    description.append(branch.as_str());
    description.append("  (SwitchInt×2+Call×1+Assert×0.5 over non-cleanup blocks)\n- heat_score=");
    description.append(heat);
    description.append("  (branch_score × ln(call_in+1))\n- B_transitive=");
    description.append(b_t);
    description.append("  (local + mean callee branch_score)\n- R_body=");
    description.append(r_b);
    description.append("  (1.0 = MIR duplicate exists)\n- D_det=");
    description.append(d);
    description.append("  (1.0 = fully deterministic)\n- call_out=");
    description.append(count_text(call_out).as_str());
    description.append("  call_in=");
    description.append(count_text(call_in).as_str());
    description.append(recursive_note);
    description.append(dup_note.as_str());
    Issue {
        id,
        title,
        status,
        priority,
        kind,
        description,
        location,
        evidence,
        discovered_by: "inter_complexity_analyzer".to_owned(),
        ..Issue::default()
    }
}

/// The issue on a function that calls itself.
pub open spec fn recursive_issue(
    crate_name: Seq<char>,
    e: ScoredInterEntry,
) -> IssueView {
    let symbol = e.entry.symbol@;
    let short = text::after_last(symbol, "::"@);
    let branch = points_text(e.entry.branch_half_points);
    let call_out = e.entry.call_out;
    let call_in = e.entry.call_in;
    let location = entry_location(e);
    let hash = text::text_hash(symbol);
    let heavy = e.entry.branch_half_points >= 20;
    IssueView {
        id: "auto_recursive_"@ + crate_name + "_"@ + text::dec(hash as nat),
        title: "Direct recursion detected: "@ + short,
        status: "open"@,
        priority: if heavy {
            "high"@
        } else {
            "medium"@
        },
        kind: "performance"@,
        description: "`"@ + symbol + "` calls itself directly (branch_score="@ + branch + ", call_in="@ + text::dec(call_in as nat) + ").\nDirect recursion prevents inlining, risks stack overflow under deep inputs, and complicates static analysis. Consider converting to iteration or introducing a trampoline/accumulator pattern."@,
        location: location,
        evidence: text::no_texts().push(
            "is_directly_recursive=true"@,
        ).push(
            "branch_score="@ + branch,
        ).push(
            "call_in="@ + text::dec(call_in as nat) + " call_out="@ + text::dec(call_out as nat),
        ),
        discovered_by: "inter_complexity_analyzer"@,
        ..issues::empty_issue()
    }
}

/// The issue on a function that calls itself.
pub fn build_recursive_issue(
    crate_name: &str,
    e: &ScoredInterEntry,
) -> (r: Issue)
    ensures
        r@ == recursive_issue(crate_name@, *e),
{
    let symbol = e.entry.symbol.as_str();
    let short = text_after_last(symbol, "::");
    let branch = write_points(e.entry.branch_half_points);
    let call_out: usize = e.entry.call_out;
    let call_in: usize = e.entry.call_in;
    let location = hotspot_location(e);
    let hash: u64 = stable_hash(symbol);
    let heavy = e.entry.branch_half_points >= 20;
    let mut id = "auto_recursive_".to_owned();
    id.append(crate_name);
    id.append("_");
    id.append(decimal(hash).as_str());
    let mut title = "Direct recursion detected: ".to_owned();
    title.append(short.as_str());
    let status = "open".to_owned();
    let priority = either(heavy, "high", "medium").to_owned();
    let kind = "performance".to_owned();
    let mut description = "`".to_owned();
    description.append(symbol);
    description.append("` calls itself directly (branch_score=");
    description.append(branch.as_str());
    description.append(", call_in=");
    description.append(count_text(call_in).as_str());
    description.append(").\nDirect recursion prevents inlining, risks stack overflow under deep inputs, and complicates static analysis. Consider converting to iteration or introducing a trampoline/accumulator pattern.");
    let evidence_1 = "is_directly_recursive=true".to_owned();
    let mut evidence_2 = "branch_score=".to_owned();
    evidence_2.append(branch.as_str());
    let mut evidence_3 = "call_in=".to_owned();
    evidence_3.append(count_text(call_in).as_str());
    evidence_3.append(" call_out=");
    evidence_3.append(count_text(call_out).as_str());
    let evidence = empty_list();
    let evidence = and_text(evidence, evidence_1);
    let evidence = and_text(evidence, evidence_2);
    let evidence = and_text(evidence, evidence_3);
    Issue {
        id,
        title,
        status,
        priority,
        kind,
        description,
        location,
        evidence,
        discovered_by: "inter_complexity_analyzer".to_owned(),
        ..Issue::default()
    }
}

/// The issue on bodies that occur twice.
pub open spec fn duplicate_issue(
    group: Seq<Seq<char>>,
) -> IssueView {
    let size = group.len();
    let key = duplicate_id(group);
    let shown = duplicates_summary(group);
    IssueView {
        id: key,
        title: "MIR-identical functions: "@ + text::dec(size as nat) + " candidates for deduplication"@,
        status: "open"@,
        priority: "medium"@,
        kind: "redundancy"@,
        description: "These "@ + text::dec(size as nat) + " functions share an identical MIR fingerprint and are functionally equivalent. All but one can be replaced with a shared helper, eliminating R directly.\n\nSymbols: "@ + shown,
        evidence: text::no_texts().push(
            "MIR fingerprint shared by: "@ + shown,
        ),
        discovered_by: "inter_complexity_analyzer"@,
        ..issues::empty_issue()
    }
}

/// The issue on bodies that occur twice.
pub fn build_duplicate_issue(
    group: &Vec<String>,
) -> (r: Issue)
    ensures
        r@ == duplicate_issue(text::texts(group@)),
{
    let size: usize = group.len();
    let key = mir_dup_issue_id(group);
    let shown = summarize_duplicate_symbols(group);
    let id = key.as_str().to_owned();
    let mut title = "MIR-identical functions: ".to_owned();
    title.append(count_text(size).as_str());
    title.append(" candidates for deduplication");
    let status = "open".to_owned();
    let priority = "medium".to_owned();
    let kind = "redundancy".to_owned();
    let mut description = "These ".to_owned();
    description.append(count_text(size).as_str());
    description.append(" functions share an identical MIR fingerprint and are functionally equivalent. All but one can be replaced with a shared helper, eliminating R directly.\n\nSymbols: ");
    description.append(shown.as_str());
    let mut evidence_1 = "MIR fingerprint shared by: ".to_owned();
    evidence_1.append(shown.as_str());
    let evidence = empty_list();
    let evidence = and_text(evidence, evidence_1);
    Issue {
        id,
        title,
        status,
        priority,
        kind,
        description,
        evidence,
        discovered_by: "inter_complexity_analyzer".to_owned(),
        ..Issue::default()
    }
}

/// Some text of a list holds another.
pub open spec fn any_holds(list: Seq<Seq<char>>, t: Seq<char>) -> bool {
    exists|i: int| 0 <= i < list.len() && text::has_text(#[trigger] list[i], t)
}

fn any_contains(list: &Vec<String>, t: &str) -> (r: bool)
    ensures
        r == any_holds(text::texts(list@), t@),
{
    let ghost all = text::texts(list@);
    let mut i: usize = 0;
    while i < list.len()
        invariant
            i <= list@.len(),
            all == text::texts(list@),
            forall|k: int| 0 <= k < i ==> !text::has_text(#[trigger] all[k], t@),
        decreases list@.len() - i,
    {
        assert(all[i as int] == list@[i as int]@);
        if contains(list[i].as_str(), t) {
            return true;
        }
        i += 1;
    }
    false
}

/// An optional finding.
pub open spec fn optional_issue(o: Option<Issue>) -> Option<IssueView> {
    match o {
        Some(i) => Some(i@),
        None => None,
    }
}

/// The issue on a hotspot, where its score calls for action and no open issue tracks it:
/// none has its id among `active`, and none stands at its place, among `open`.
pub open spec fn hotspot(
    e: ScoredInterEntry,
    crate_name: Seq<char>,
    active: Seq<Seq<char>>,
    open: Seq<Seq<char>>,
) -> Option<IssueView> {
    if e.objective < ACTION_SCORE || any_holds(open, entry_location(e)) || active.contains(
        hotspot_id(crate_name, e.entry.symbol@),
    ) {
        None
    } else {
        Some(hotspot_issue(crate_name, e))
    }
}

fn propose_hotspot(
    e: &ScoredInterEntry,
    crate_name: &str,
    active: &Vec<String>,
    open: &Vec<String>,
) -> (r: Option<Issue>)
    ensures
        optional_issue(r) == hotspot(*e, crate_name@, text::texts(active@), text::texts(open@)),
{
    if e.objective < ACTION_SCORE {
        return None;
    }
    let location = hotspot_location(e);
    if any_contains(open, location.as_str()) {
        return None;
    }
    let id = inter_issue_id(crate_name, e.entry.symbol.as_str());
    if holds_text(active, id.as_str()) {
        return None;
    }
    Some(build_hotspot_issue(crate_name, e))
}

/// The issue on a function that calls itself, where it is not known already.
pub open spec fn recursion(
    e: ScoredInterEntry,
    crate_name: Seq<char>,
    known: Seq<Seq<char>>,
) -> Option<IssueView> {
    let issue = recursive_issue(crate_name, e);
    if !e.entry.is_directly_recursive || known.contains(issue.id) {
        None
    } else {
        Some(issue)
    }
}

fn propose_recursion(e: &ScoredInterEntry, crate_name: &str, known: &Vec<String>) -> (r: Option<
    Issue,
>)
    ensures
        optional_issue(r) == recursion(*e, crate_name@, text::texts(known@)),
{
    if !e.entry.is_directly_recursive {
        return None;
    }
    let issue = build_recursive_issue(crate_name, e);
    if holds_text(known, issue.id.as_str()) {
        None
    } else {
        Some(issue)
    }
}

/// The issue on bodies that occur twice, where it is not known already.
pub open spec fn duplication(group: Seq<Seq<char>>, known: Seq<Seq<char>>) -> Option<IssueView> {
    let merged = actionable(group);
    if merged.len() < 2 || known.contains(duplicate_id(merged)) {
        None
    } else {
        Some(duplicate_issue(merged))
    }
}

fn propose_duplication(group: &Vec<String>, known: &Vec<String>) -> (r: Option<Issue>)
    ensures
        optional_issue(r) == duplication(text::texts(group@), text::texts(known@)),
{
    let merged = actionable_duplicate_symbols(group);
    assert(text::texts(merged@).len() == merged@.len());
    if merged.len() < 2 {
        return None;
    }
    let id = mir_dup_issue_id(&merged);
    if holds_text(known, id.as_str()) {
        return None;
    }
    Some(build_duplicate_issue(&merged))
}

/// What was analysed of a crate, the entries by objective.
#[derive(Debug)]
pub struct CrateAnalysis {
    pub name: String,
    pub entries: Vec<ScoredInterEntry>,
    pub duplicate_groups: Vec<Vec<String>>,
}

/// The issues on the first `n` hotspots.
pub open spec fn hotspots(
    es: Seq<ScoredInterEntry>,
    crate_name: Seq<char>,
    active: Seq<Seq<char>>,
    open: Seq<Seq<char>>,
    n: int,
) -> Seq<IssueView>
    decreases n,
{
    if n <= 0 {
        Seq::empty()
    } else {
        let before = hotspots(es, crate_name, active, open, n - 1);
        match hotspot(es[n - 1], crate_name, active, open) {
            Some(issue) => before.push(issue),
            None => before,
        }
    }
}

/// The issues on the first `n` entries that call themselves.
pub open spec fn recursions(
    es: Seq<ScoredInterEntry>,
    crate_name: Seq<char>,
    known: Seq<Seq<char>>,
    n: int,
) -> Seq<IssueView>
    decreases n,
{
    if n <= 0 {
        Seq::empty()
    } else {
        let before = recursions(es, crate_name, known, n - 1);
        match recursion(es[n - 1], crate_name, known) {
            Some(issue) => before.push(issue),
            None => before,
        }
    }
}

/// The issues on the first `n` groups of bodies that occur twice.
pub open spec fn duplications(
    gs: Seq<Seq<Seq<char>>>,
    known: Seq<Seq<char>>,
    n: int,
) -> Seq<IssueView>
    decreases n,
{
    if n <= 0 {
        Seq::empty()
    } else {
        let before = duplications(gs, known, n - 1);
        match duplication(gs[n - 1], known) {
            Some(issue) => before.push(issue),
            None => before,
        }
    }
}

/// The issues on one crate: its highest hotspots that no open issue among `fs` tracks,
/// then all that call themselves and the bodies that occur twice, as far as no issue
/// among `fs` has their ids.
pub open spec fn found_in(a: CrateAnalysis, fs: Seq<IssueView>, top: usize) -> Seq<IssueView> {
    let known = graph_metrics::ids(fs);
    let es = a.entries@;
    let n = if es.len() <= top {
        es.len() as int
    } else {
        top as int
    };
    let gs = lists(a.duplicate_groups@);
    hotspots(es, a.name@, open_ids(fs), open_places(fs), n) + recursions(
        es,
        a.name@,
        known,
        es.len() as int,
    ) + duplications(gs, known, gs.len() as int)
}

/// The issues on all crates.
pub open spec fn found_over(
    cs: Seq<CrateAnalysis>,
    fs: Seq<IssueView>,
    top: usize,
) -> Seq<IssueView>
    decreases cs.len(),
{
    if cs.len() == 0 {
        Seq::empty()
    } else {
        found_over(cs.drop_last(), fs, top) + found_in(cs.last(), fs, top)
    }
}

/// The ids of open issues.
pub open spec fn open_ids(fs: Seq<IssueView>) -> Seq<Seq<char>> {
    fs.filter(|f: IssueView| issues::open_issue(f)).map_values(|f: IssueView| f.id)
}

/// Where open issues stand.
pub open spec fn open_places(fs: Seq<IssueView>) -> Seq<Seq<char>> {
    fs.filter(|f: IssueView| issues::open_issue(f)).map_values(|f: IssueView| f.location)
}

fn collect_open_places(issues: &Vec<Issue>) -> (r: Vec<String>)
    ensures
        text::texts(r@) == open_places(issues::findings(issues@)),
{
    let ghost fs = issues::findings(issues@);
    let ghost p = |f: IssueView| issues::open_issue(f);
    let ghost m = |f: IssueView| f.location;
    let mut out = empty_list();
    let mut i: usize = 0;
    proof {
        reveal(Seq::filter);
        assert(fs.take(0) =~= Seq::<IssueView>::empty());
        assert(fs.take(0).filter(p).map_values(m) =~= Seq::<Seq<char>>::empty());
    }
    while i < issues.len()
        invariant
            i <= issues@.len(),
            fs == issues::findings(issues@),
            p == (|f: IssueView| issues::open_issue(f)),
            m == (|f: IssueView| f.location),
            text::texts(out@) == fs.take(i as int).filter(p).map_values(m),
        decreases issues@.len() - i,
    {
        proof {
            reveal(Seq::filter);
            assert(fs.take(i + 1).drop_last() =~= fs.take(i as int));
            assert(fs.take(i + 1).last() == issues@[i as int]@);
        }
        if is_open(&issues[i]) {
            out = and_text(out, issues[i].location.clone());
            assert(text::texts(out@) =~= fs.take(i + 1).filter(p).map_values(m));
        }
        i += 1;
    }
    assert(fs.take(i as int) =~= fs);
    out
}

fn collect_open_ids(issues: &Vec<Issue>) -> (r: Vec<String>)
    ensures
        text::texts(r@) == open_ids(issues::findings(issues@)),
{
    let ghost fs = issues::findings(issues@);
    let ghost p = |f: IssueView| issues::open_issue(f);
    let ghost m = |f: IssueView| f.id;
    let mut out = empty_list();
    let mut i: usize = 0;
    proof {
        reveal(Seq::filter);
        assert(fs.take(0) =~= Seq::<IssueView>::empty());
        assert(fs.take(0).filter(p).map_values(m) =~= Seq::<Seq<char>>::empty());
    }
    while i < issues.len()
        invariant
            i <= issues@.len(),
            fs == issues::findings(issues@),
            p == (|f: IssueView| issues::open_issue(f)),
            m == (|f: IssueView| f.id),
            text::texts(out@) == fs.take(i as int).filter(p).map_values(m),
        decreases issues@.len() - i,
    {
        proof {
            reveal(Seq::filter);
            assert(fs.take(i + 1).drop_last() =~= fs.take(i as int));
            assert(fs.take(i + 1).last() == issues@[i as int]@);
        }
        if is_open(&issues[i]) {
            out = and_text(out, issues[i].id.clone());
            assert(text::texts(out@) =~= fs.take(i + 1).filter(p).map_values(m));
        }
        i += 1;
    }
    assert(fs.take(i as int) =~= fs);
    out
}

fn push_issue(issues: &mut Vec<Issue>, issue: Issue)
    ensures
        issues::findings(final(issues)@) == issues::findings(old(issues)@).push(issue@),
{
    let ghost before = issues@;
    issues.push(issue);
    assert(issues::findings(issues@) =~= issues::findings(before).push(issue@));
}

fn push_hotspots(
    issues: &mut Vec<Issue>,
    a: &CrateAnalysis,
    active: &Vec<String>,
    open: &Vec<String>,
    top: usize,
)
    ensures
        ({
            let es = a.entries@;
            let n = if es.len() <= top {
                es.len() as int
            } else {
                top as int
            };
            issues::findings(final(issues)@) == issues::findings(old(issues)@) + hotspots(
                es,
                a.name@,
                text::texts(active@),
                text::texts(open@),
                n,
            )
        }),
{
    let ghost fs = issues::findings(issues@);
    let ghost ts = text::texts(active@);
    let ghost os = text::texts(open@);
    let mut i: usize = 0;
    assert(issues::findings(issues@) =~= fs + hotspots(a.entries@, a.name@, ts, os, 0));
    while i < a.entries.len() && i < top
        invariant
            i <= a.entries@.len(),
            i <= top,
            ts == text::texts(active@),
            os == text::texts(open@),
            issues::findings(issues@) == fs + hotspots(a.entries@, a.name@, ts, os, i as int),
        decreases a.entries@.len() - i,
    {
        match propose_hotspot(&a.entries[i], a.name.as_str(), active, open) {
            Some(issue) => {
                push_issue(issues, issue);
            },
            None => {},
        }
        assert(issues::findings(issues@) =~= fs + hotspots(a.entries@, a.name@, ts, os, i + 1));
        i += 1;
    }
}

fn push_recursions(issues: &mut Vec<Issue>, a: &CrateAnalysis, known: &Vec<String>)
    ensures
        issues::findings(final(issues)@) == issues::findings(old(issues)@) + recursions(
            a.entries@,
            a.name@,
            text::texts(known@),
            a.entries@.len() as int,
        ),
{
    let ghost fs = issues::findings(issues@);
    let ghost ks = text::texts(known@);
    let mut i: usize = 0;
    assert(issues::findings(issues@) =~= fs + recursions(a.entries@, a.name@, ks, 0));
    while i < a.entries.len()
        invariant
            i <= a.entries@.len(),
            ks == text::texts(known@),
            issues::findings(issues@) == fs + recursions(a.entries@, a.name@, ks, i as int),
        decreases a.entries@.len() - i,
    {
        match propose_recursion(&a.entries[i], a.name.as_str(), known) {
            Some(issue) => {
                push_issue(issues, issue);
            },
            None => {},
        }
        assert(issues::findings(issues@) =~= fs + recursions(a.entries@, a.name@, ks, i + 1));
        i += 1;
    }
}

fn push_duplications(issues: &mut Vec<Issue>, a: &CrateAnalysis, known: &Vec<String>)
    ensures
        issues::findings(final(issues)@) == issues::findings(old(issues)@) + duplications(
            lists(a.duplicate_groups@),
            text::texts(known@),
            lists(a.duplicate_groups@).len() as int,
        ),
{
    let ghost fs = issues::findings(issues@);
    let ghost ks = text::texts(known@);
    let ghost gs = lists(a.duplicate_groups@);
    let mut i: usize = 0;
    assert(issues::findings(issues@) =~= fs + duplications(gs, ks, 0));
    while i < a.duplicate_groups.len()
        invariant
            i <= a.duplicate_groups@.len(),
            ks == text::texts(known@),
            gs == lists(a.duplicate_groups@),
            issues::findings(issues@) == fs + duplications(gs, ks, i as int),
        decreases a.duplicate_groups@.len() - i,
    {
        assert(gs[i as int] == text::texts(a.duplicate_groups@[i as int]@));
        match propose_duplication(&a.duplicate_groups[i], known) {
            Some(issue) => {
                push_issue(issues, issue);
            },
            None => {},
        }
        assert(issues::findings(issues@) =~= fs + duplications(gs, ks, i + 1));
        i += 1;
    }
}

/// Adds issues on the highest hotspots that no open issue tracks, and on functions that
/// call themselves and bodies that occur twice where no issue has their ids; tells how
/// many were added. An issue that was closed stays as it is: a hotspot that comes back
/// gets a new open issue behind it, under the same id.
pub fn generate_hotspot_issues(
    issues: &mut Vec<Issue>,
    analyses: &Vec<CrateAnalysis>,
    top_n: usize,
) -> (r: usize)
    ensures
        ({
            let fs = issues::findings(old(issues)@);
            let new = found_over(analyses@, fs, top_n);
            &&& issues::findings(final(issues)@) == fs + new
            &&& r == new.len()
        }),
{
    let known = graph_metrics::collect_ids(issues);
    let active = collect_open_ids(issues);
    let open = collect_open_places(issues);
    let ghost fs = issues::findings(issues@);
    let ghost cs = analyses@;
    let before: usize = issues.len();
    let mut i: usize = 0;
    proof {
        assert(cs.take(0) =~= Seq::<CrateAnalysis>::empty());
        assert(issues::findings(issues@) =~= fs + found_over(cs.take(0), fs, top_n));
    }
    while i < analyses.len()
        invariant
            i <= analyses@.len(),
            cs == analyses@,
            text::texts(known@) == graph_metrics::ids(fs),
            text::texts(active@) == open_ids(fs),
            text::texts(open@) == open_places(fs),
            issues::findings(issues@) == fs + found_over(cs.take(i as int), fs, top_n),
        decreases analyses@.len() - i,
    {
        proof {
            assert(cs.take(i + 1).drop_last() =~= cs.take(i as int));
            assert(cs.take(i + 1).last() == analyses@[i as int]);
        }
        let a = &analyses[i];
        push_hotspots(issues, a, &active, &open, top_n);
        push_recursions(issues, a, &known);
        push_duplications(issues, a, &known);
        assert(issues::findings(issues@) =~= fs + found_over(cs.take(i + 1), fs, top_n));
        i += 1;
    }
    assert(cs.take(i as int) =~= cs);
    let after: usize = issues.len();
    proof {
        assert(issues::findings(issues@).len() == issues@.len());
        assert(fs.len() == before);
    }
    after - before
}

// ---------------------------------------------------------------------------
// The report
// ---------------------------------------------------------------------------

/// One entry of the report.
pub open spec fn entry_value(e: ScoredInterEntry) -> JsonView {
    let symbol = e.entry.symbol@;
    let branch = points_text(e.entry.branch_half_points);
    let call_out = e.entry.call_out;
    let call_in = e.entry.call_in;
    let objective = e.objective_text@;
    let heat = e.heat_text@;
    let b_t = e.b_transitive_text@;
    let d = e.d_det_text@;
    let r_b = r_body(e);
    let file = file_display(e.entry.file@);
    let line = e.entry.line;
    let b_direct = e.entry.b_direct;
    let recursive = e.entry.is_directly_recursive;
    let twins = text::texts(e.entry.duplicate_of@);
    JsonView::Object(
        json::no_members().push(
            ("b_direct"@, JsonView::Uint(b_direct as u64)),
        ).push(
            ("b_transitive"@, JsonView::Text(b_t)),
        ).push(
            ("branch_score"@, JsonView::Text(branch)),
        ).push(
            ("call_in"@, JsonView::Uint(call_in as u64)),
        ).push(
            ("call_out"@, JsonView::Uint(call_out as u64)),
        ).push(
            ("d_det"@, JsonView::Text(d)),
        ).push(
            ("duplicate_of"@, json::text_array_view(twins)),
        ).push(
            ("file"@, JsonView::Text(file)),
        ).push(
            ("heat_score"@, JsonView::Text(heat)),
        ).push(
            ("inter_objective"@, JsonView::Text(objective)),
        ).push(
            ("is_directly_recursive"@, JsonView::Bool(recursive)),
        ).push(
            ("line"@, JsonView::Uint(line as u64)),
        ).push(
            ("r_body"@, JsonView::Number(r_b)),
        ).push(
            ("symbol"@, JsonView::Text(symbol)),
        ),
    )
}

fn write_entry_value(e: &ScoredInterEntry) -> (r: Json)
    ensures
        r@ == entry_value(*e),
{
    let symbol = e.entry.symbol.as_str();
    let branch = write_points(e.entry.branch_half_points);
    let call_out: usize = e.entry.call_out;
    let call_in: usize = e.entry.call_in;
    let objective = e.objective_text.as_str();
    let heat = e.heat_text.as_str();
    let b_t = e.b_transitive_text.as_str();
    let d = e.d_det_text.as_str();
    let r_b = r_body_text(e);
    let file = shorten_file(e.entry.file.as_str());
    let line: usize = e.entry.line as usize;
    let b_direct: usize = e.entry.b_direct;
    let recursive = e.entry.is_directly_recursive;
    let twins = &e.entry.duplicate_of;
    let value = members();
    let value = and(value, "b_direct", uint(b_direct));
    let value = and(value, "b_transitive", string(b_t));
    let value = and(value, "branch_score", string(branch.as_str()));
    let value = and(value, "call_in", uint(call_in));
    let value = and(value, "call_out", uint(call_out));
    let value = and(value, "d_det", string(d));
    let value = and(value, "duplicate_of", string_array(twins));
    let value = and(value, "file", string(file.as_str()));
    let value = and(value, "heat_score", string(heat));
    let value = and(value, "inter_objective", string(objective));
    let value = and(value, "is_directly_recursive", boolean(recursive));
    let value = and(value, "line", uint(line));
    let value = and(value, "r_body", written(r_b));
    let value = and(value, "symbol", string(symbol));
    let value = object(value);
    value
}

/// How the scores are made.
pub open spec fn scoring_value() -> JsonView {
    JsonView::Object(
        json::no_members().push(
            ("B_transitive"@, JsonView::Text("branch_score(F) + mean(branch_score(callee)) — depth-1 propagation"@)),
        ).push(
            ("D_det"@, JsonView::Text("1.0 − branch_score_norm (higher = more deterministic)"@)),
        ).push(
            ("R_body"@, JsonView::Text("1.0 if MIR fingerprint+signature+callees match another function, else 0.0"@)),
        ).push(
            ("branch_score"@, JsonView::Text("SwitchInt×2.0 + Call×1.0 + Assert×0.5 over non-cleanup MIR blocks"@)),
        ).push(
            ("heat_score"@, JsonView::Text("branch_score × ln(call_in + 1) — complexity weighted by call frequency"@)),
        ).push(
            ("inter_objective"@, JsonView::Text("0.30·B_transitive_norm + 0.20·R_body + 0.20·(1−D_det) + 0.30·heat_norm"@)),
        ),
    )
}

fn write_scoring_value() -> (r: Json)
    ensures
        r@ == scoring_value(),
{
    let value = members();
    let value = and(value, "B_transitive", string("branch_score(F) + mean(branch_score(callee)) — depth-1 propagation"));
    let value = and(value, "D_det", string("1.0 − branch_score_norm (higher = more deterministic)"));
    let value = and(value, "R_body", string("1.0 if MIR fingerprint+signature+callees match another function, else 0.0"));
    let value = and(value, "branch_score", string("SwitchInt×2.0 + Call×1.0 + Assert×0.5 over non-cleanup MIR blocks"));
    let value = and(value, "heat_score", string("branch_score × ln(call_in + 1) — complexity weighted by call frequency"));
    let value = and(value, "inter_objective", string("0.30·B_transitive_norm + 0.20·R_body + 0.20·(1−D_det) + 0.30·heat_norm"));
    let value = object(value);
    value
}

/// The first entries of the report.
pub open spec fn top_values(es: Seq<ScoredInterEntry>, top: usize) -> JsonView {
    let shown = if es.len() <= top {
        es
    } else {
        es.take(top as int)
    };
    JsonView::Array(shown.map_values(|e: ScoredInterEntry| entry_value(e)))
}

fn write_top_values(es: &Vec<ScoredInterEntry>, top: usize) -> (r: Json)
    ensures
        r@ == top_values(es@, top),
{
    let mut values: Vec<Json> = Vec::new();
    let mut i: usize = 0;
    while i < es.len() && i < top
        invariant
            i <= es@.len(),
            i <= top,
            values@.len() == i,
            forall|k: int| 0 <= k < i ==> (#[trigger] values@[k])@ == entry_value(es@[k]),
        decreases es@.len() - i,
    {
        values.push(write_entry_value(&es[i]));
        i += 1;
    }
    let r = array(values);
    assert(r@->Array_0 =~= top_values(es@, top)->Array_0);
    r
}

/// The groups of symbols with the same body.
pub open spec fn group_values(gs: Seq<Seq<Seq<char>>>) -> JsonView {
    JsonView::Array(gs.map_values(|g: Seq<Seq<char>>| json::text_array_view(g)))
}

fn write_group_values(gs: &Vec<Vec<String>>) -> (r: Json)
    ensures
        r@ == group_values(lists(gs@)),
{
    let mut values: Vec<Json> = Vec::new();
    let mut i: usize = 0;
    while i < gs.len()
        invariant
            i <= gs@.len(),
            values@.len() == i,
            forall|k: int|
                0 <= k < i ==> (#[trigger] values@[k])@ == json::text_array_view(
                    text::texts(gs@[k]@),
                ),
        decreases gs@.len() - i,
    {
        values.push(string_array(&gs[i]));
        i += 1;
    }
    let r = array(values);
    assert(r@->Array_0 =~= group_values(lists(gs@))->Array_0);
    r
}

/// The analysis of a crate as a report value.
pub fn to_report_value(a: &CrateAnalysis, call_edge_count: usize, top_n: usize) -> (r: Json)
    ensures
        r@ == JsonView::Object(
            json::no_members().push(
                ("call_edges_analyzed"@, JsonView::Uint(call_edge_count as u64)),
            ).push(
                ("mir_duplicate_groups"@, group_values(lists(a.duplicate_groups@))),
            ).push(("scoring"@, scoring_value())).push(("top"@, top_values(a.entries@, top_n))),
        ),
{
    let value = members();
    let value = and(value, "call_edges_analyzed", uint(call_edge_count));
    let value = and(value, "mir_duplicate_groups", write_group_values(&a.duplicate_groups));
    let value = and(value, "scoring", write_scoring_value());
    let value = and(value, "top", write_top_values(&a.entries, top_n));
    object(value)
}

} // verus!
