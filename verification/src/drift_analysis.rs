//! How the symbols of a crate moved between two captures of its graph.

use crate::fnv;
use crate::fnv::{fnv_byte, fnv_text};
use crate::order;
use crate::order::sort_texts;
use crate::semantic;
use crate::semantic::{index_by_symbol, SymbolSummary};
use crate::tally;
use crate::text;
use crate::text::{hexadecimal_padded, same};
use vstd::hash_map::StringHashMap;
use vstd::prelude::*;
use vstd::string::*;
use vstd::utf8::*;

verus! {

/// The symbols that became simpler and more complex, and a digest of those that
/// stayed: the log does not carry the whole set of stable symbols on every run.
#[derive(Debug, Clone)]
pub struct FingerprintDrift {
    pub improved: Vec<String>,
    pub regressed: Vec<String>,
    /// Always empty: `stable_count` and `stable_hash` stand for it.
    pub stable: Vec<String>,
    pub stable_count: usize,
    pub stable_hash: String,
}

/// How a symbol moved.
#[derive(Debug, Clone, Copy, PartialEq, Eq, Structural)]
pub enum Movement {
    New,
    Stable,
    Improved,
    Regressed,
}

/// The complexity of a symbol: its branch score, its blocks and a tenth of its
/// statements, in tenths.
pub open spec fn complexity_tenths(s: SymbolSummary) -> int {
    let half_points = match s.branch_half_points {
        Some(h) => h as int,
        None => 0,
    };
    let blocks = match s.mir_blocks {
        Some(b) => b as int,
        None => 0,
    };
    let stmts = match s.mir_stmts {
        Some(n) => n as int,
        None => 0,
    };
    5 * half_points + 10 * blocks + stmts
}

/// Two fingerprints are alike.
pub open spec fn same_fingerprint(a: Option<String>, b: Option<String>) -> bool {
    match (a, b) {
        (Some(x), Some(y)) => x@ == y@,
        (None, None) => true,
        _ => false,
    }
}

/// How the symbol of `curr` moved against what was known before.
pub open spec fn movement(prev: Seq<SymbolSummary>, curr: SymbolSummary) -> Movement {
    match semantic::last_of(prev, curr.symbol@) {
        None => Movement::New,
        Some(i) => {
            let before = prev[i];
            if same_fingerprint(before.mir_fingerprint, curr.mir_fingerprint) {
                Movement::Stable
            } else if complexity_tenths(curr) < complexity_tenths(before) {
                Movement::Improved
            } else if complexity_tenths(curr) > complexity_tenths(before) {
                Movement::Regressed
            } else {
                Movement::Stable
            }
        },
    }
}

/// The symbols that moved in one way, in the order of `curr`.
pub open spec fn moved(
    prev: Seq<SymbolSummary>,
    curr: Seq<SymbolSummary>,
    way: Movement,
) -> Seq<Seq<char>>
    decreases curr.len(),
{
    if curr.len() == 0 {
        Seq::empty()
    } else {
        let before = moved(prev, curr.drop_last(), way);
        if movement(prev, curr.last()) == way {
            before.push(curr.last().symbol@)
        } else {
            before
        }
    }
}

/// The offset basis of the digest.
pub const STABLE_HASH_BASIS: u64 = 0xcbf29ce484222325;

/// The hash over texts, each ended by a line feed.
pub open spec fn lines_hash(symbols: Seq<Seq<char>>) -> u64
    decreases symbols.len(),
{
    if symbols.len() == 0 {
        STABLE_HASH_BASIS
    } else {
        fnv::fnv_step(
            fnv::fnv(lines_hash(symbols.drop_last()), encode_utf8(symbols.last())),
            10,
        )
    }
}

/// The digest of a list of symbols.
pub fn stable_symbols_hash(symbols: &Vec<String>) -> (r: String)
    ensures
        r@ == text::hex_padded(lines_hash(text::texts(symbols@)) as nat, 16),
{
    let ghost all = text::texts(symbols@);
    let mut hash: u64 = STABLE_HASH_BASIS;
    let mut i: usize = 0;
    assert(all.take(0) =~= Seq::<Seq<char>>::empty());
    while i < symbols.len()
        invariant
            i <= symbols.len(),
            all == text::texts(symbols@),
            hash == lines_hash(all.take(i as int)),
        decreases symbols.len() - i,
    {
        proof {
            assert(all.take(i + 1).drop_last() =~= all.take(i as int));
            assert(all.take(i + 1).last() == symbols@[i as int]@);
        }
        hash = fnv_byte(fnv_text(hash, symbols[i].as_str()), 10);
        i += 1;
    }
    assert(all.take(i as int) =~= all);
    hexadecimal_padded(hash, 16)
}

fn complexity_score(s: &SymbolSummary) -> (r: u128)
    ensures
        r == complexity_tenths(*s),
{
    let half_points: u128 = match s.branch_half_points {
        Some(h) => h as u128,
        None => 0,
    };
    let blocks: u128 = match s.mir_blocks {
        Some(b) => b as u128,
        None => 0,
    };
    let stmts: u128 = match s.mir_stmts {
        Some(n) => n as u128,
        None => 0,
    };
    5 * half_points + 10 * blocks + stmts
}

fn is_same_fingerprint(a: &Option<String>, b: &Option<String>) -> (r: bool)
    ensures
        r == same_fingerprint(*a, *b),
{
    match (a, b) {
        (Some(x), Some(y)) => same(x.as_str(), y.as_str()),
        (None, None) => true,
        _ => false,
    }
}

/// How a symbol moved.
fn movement_of(
    prev: &Vec<SymbolSummary>,
    index: &StringHashMap<usize>,
    curr: &SymbolSummary,
) -> (r: Movement)
    requires
        forall|k: Seq<char>| #[trigger]
            index@.contains_key(k) <==> semantic::last_of(prev@, k) is Some,
        forall|k: Seq<char>| #[trigger]
            index@.contains_key(k) ==> semantic::last_of(prev@, k) == Some(index@[k] as int),
        forall|k: Seq<char>| #[trigger] index@.contains_key(k) ==> index@[k] < prev@.len(),
    ensures
        r == movement(prev@, *curr),
{
    match index.get(curr.symbol.as_str()) {
        None => Movement::New,
        Some(i) => {
            let before = &prev[*i];
            if is_same_fingerprint(&before.mir_fingerprint, &curr.mir_fingerprint) {
                return Movement::Stable;
            }
            let was: u128 = complexity_score(before);
            let is: u128 = complexity_score(curr);
            if is < was {
                Movement::Improved
            } else if is > was {
                Movement::Regressed
            } else {
                Movement::Stable
            }
        },
    }
}

impl FingerprintDrift {
    /// The drift from `prev` to `curr`.
    pub open spec fn of(self, prev: Seq<SymbolSummary>, curr: Seq<SymbolSummary>) -> bool {
        let stable = order::sorted_texts(moved(prev, curr, Movement::Stable));
        &&& text::texts(self.improved@) == order::sorted_texts(
            moved(prev, curr, Movement::Improved),
        )
        &&& text::texts(self.regressed@) == order::sorted_texts(
            moved(prev, curr, Movement::Regressed),
        )
        &&& self.stable@.len() == 0
        &&& self.stable_count == moved(prev, curr, Movement::Stable).len()
        &&& self.stable_hash@ == text::hex_padded(lines_hash(stable) as nat, 16)
    }

    /// The reward of a drift in half points: two for each symbol that became
    /// simpler, minus three for each that became more complex.
    pub fn reward_half_points(&self) -> (r: i128)
        ensures
            r == 2 * self.improved@.len() - 3 * self.regressed@.len(),
            r > i128::MIN,
    {
        2 * (self.improved.len() as i128) - 3 * (self.regressed.len() as i128)
    }
}

/// How the symbols moved from one capture to the next.
pub fn compute_fingerprint_drift(
    prev_summaries: &Vec<SymbolSummary>,
    curr_summaries: &Vec<SymbolSummary>,
) -> (r: FingerprintDrift)
    ensures
        r.of(prev_summaries@, curr_summaries@),
{
    let index = index_by_symbol(prev_summaries);
    let ghost prev = prev_summaries@;
    let ghost curr = curr_summaries@;
    let mut improved: Vec<String> = Vec::new();
    let mut regressed: Vec<String> = Vec::new();
    let mut stable: Vec<String> = Vec::new();
    let mut i: usize = 0;
    proof {
        let none = Seq::<Seq<char>>::empty();
        assert(curr.take(0) =~= Seq::<SymbolSummary>::empty());
        assert(text::texts(improved@) =~= none);
        assert(text::texts(regressed@) =~= none);
        assert(text::texts(stable@) =~= none);
    }
    while i < curr_summaries.len()
        invariant
            i <= curr_summaries.len(),
            prev == prev_summaries@,
            curr == curr_summaries@,
            forall|k: Seq<char>| #[trigger]
                index@.contains_key(k) <==> semantic::last_of(prev, k) is Some,
            forall|k: Seq<char>| #[trigger]
                index@.contains_key(k) ==> semantic::last_of(prev, k) == Some(index@[k] as int),
            forall|k: Seq<char>| #[trigger] index@.contains_key(k) ==> index@[k] < prev.len(),
            text::texts(improved@) == moved(prev, curr.take(i as int), Movement::Improved),
            text::texts(regressed@) == moved(prev, curr.take(i as int), Movement::Regressed),
            text::texts(stable@) == moved(prev, curr.take(i as int), Movement::Stable),
        decreases curr_summaries.len() - i,
    {
        let ghost name = curr[i as int].symbol@;
        proof {
            assert(curr.take(i + 1).drop_last() =~= curr.take(i as int));
            assert(curr.take(i + 1).last() == curr[i as int]);
        }
        let summary = &curr_summaries[i];
        match movement_of(prev_summaries, &index, summary) {
            Movement::New => {},
            Movement::Stable => {
                let ghost before = text::texts(stable@);
                stable.push(summary.symbol.clone());
                assert(text::texts(stable@) =~= before.push(name));
            },
            Movement::Improved => {
                let ghost before = text::texts(improved@);
                improved.push(summary.symbol.clone());
                assert(text::texts(improved@) =~= before.push(name));
            },
            Movement::Regressed => {
                let ghost before = text::texts(regressed@);
                regressed.push(summary.symbol.clone());
                assert(text::texts(regressed@) =~= before.push(name));
            },
        }
        i += 1;
    }
    assert(curr.take(i as int) =~= curr);
    assert(text::texts(stable@).len() == stable@.len());
    let stable_count: usize = stable.len();
    let stable = sort_texts(stable);
    FingerprintDrift {
        improved: sort_texts(improved),
        regressed: sort_texts(regressed),
        stable: Vec::new(),
        stable_count,
        stable_hash: stable_symbols_hash(&stable),
    }
}

/// A symbol moves in exactly one way: what is known is improved, regressed or
/// stable, and what is new is none of these.
pub proof fn law_known_symbols_are_accounted_for(prev: Seq<SymbolSummary>, curr: Seq<SymbolSummary>)
    ensures
        moved(prev, curr, Movement::New).len() + moved(prev, curr, Movement::Stable).len() + moved(
            prev,
            curr,
            Movement::Improved,
        ).len() + moved(prev, curr, Movement::Regressed).len() == curr.len(),
    decreases curr.len(),
{
    if curr.len() > 0 {
        law_known_symbols_are_accounted_for(prev, curr.drop_last());
    }
}

/// No two summaries are of one symbol.
pub open spec fn distinct(s: Seq<SymbolSummary>) -> bool {
    forall|i: int, j: int|
        0 <= i < j < s.len() ==> (#[trigger] s[i]).symbol@ != (#[trigger] s[j]).symbol@
}

/// A summary of the symbol is among the given ones.
pub open spec fn knows(s: Seq<SymbolSummary>, symbol: Seq<char>) -> bool {
    exists|i: int| 0 <= i < s.len() && (#[trigger] s[i]).symbol@ == symbol
}

proof fn lemma_last_of(s: Seq<SymbolSummary>, symbol: Seq<char>)
    ensures
        match semantic::last_of(s, symbol) {
            Some(i) => 0 <= i < s.len() && s[i].symbol@ == symbol,
            None => !knows(s, symbol),
        },
    decreases s.len(),
{
    if s.len() > 0 && s.last().symbol@ != symbol {
        let front = s.drop_last();
        lemma_last_of(front, symbol);
        if semantic::last_of(s, symbol) is None && knows(s, symbol) {
            let i = choose|i: int| 0 <= i < s.len() && (#[trigger] s[i]).symbol@ == symbol;
            assert(front[i].symbol@ == symbol);
        }
    }
}

/// What moved in one way is the symbol of a summary that did.
proof fn lemma_moved_from(
    prev: Seq<SymbolSummary>,
    curr: Seq<SymbolSummary>,
    way: Movement,
    t: Seq<char>,
) -> (i: int)
    requires
        moved(prev, curr, way).contains(t),
    ensures
        0 <= i < curr.len(),
        curr[i].symbol@ == t,
        movement(prev, curr[i]) == way,
    decreases curr.len(),
{
    let all = moved(prev, curr, way);
    let k = choose|k: int| 0 <= k < all.len() && all[k] == t;
    if movement(prev, curr.last()) == way && k == all.len() - 1 {
        curr.len() - 1
    } else {
        let before = moved(prev, curr.drop_last(), way);
        assert(before[k] == t);
        lemma_moved_from(prev, curr.drop_last(), way, t)
    }
}

proof fn lemma_sorted_holds(s: Seq<Seq<char>>, t: Seq<char>)
    ensures
        order::sorted_texts(s).contains(t) == s.contains(t),
{
    broadcast use vstd::seq_lib::group_to_multiset_ensures;

    order::lemma_sorted_texts(s);
    assert(order::sorted_texts(s).contains(t) == (order::sorted_texts(s).to_multiset().count(t)
        > 0));
    assert(s.contains(t) == (s.to_multiset().count(t) > 0));
}

/// The symbols that became simpler and those that became more complex are listed in
/// order, none is in both lists, and the list of stable symbols is empty.
pub proof fn law_a_drift_is_sorted_and_disjoint(
    drift: FingerprintDrift,
    prev: Seq<SymbolSummary>,
    curr: Seq<SymbolSummary>,
)
    requires
        drift.of(prev, curr),
        distinct(curr),
    ensures
        order::in_order(
            text::texts(drift.improved@),
            |a: Seq<char>, b: Seq<char>| text::text_le(a, b),
        ),
        order::in_order(
            text::texts(drift.regressed@),
            |a: Seq<char>, b: Seq<char>| text::text_le(a, b),
        ),
        forall|t: Seq<char>|
            !(text::texts(drift.improved@).contains(t) && #[trigger] text::texts(
                drift.regressed@,
            ).contains(t)),
        drift.stable@.len() == 0,
{
    let better = moved(prev, curr, Movement::Improved);
    let worse = moved(prev, curr, Movement::Regressed);
    order::lemma_sorted_texts(better);
    order::lemma_sorted_texts(worse);
    assert forall|t: Seq<char>|
        !(text::texts(drift.improved@).contains(t) && #[trigger] text::texts(
            drift.regressed@,
        ).contains(t)) by {
        if text::texts(drift.improved@).contains(t) && text::texts(drift.regressed@).contains(t) {
            lemma_sorted_holds(better, t);
            lemma_sorted_holds(worse, t);
            let i = lemma_moved_from(prev, curr, Movement::Improved, t);
            let j = lemma_moved_from(prev, curr, Movement::Regressed, t);
            if i < j {
                assert(curr[i].symbol@ != curr[j].symbol@);
            } else if j < i {
                assert(curr[j].symbol@ != curr[i].symbol@);
            }
            assert(false);
        }
    }
}

proof fn lemma_known_are_counted(prev: Seq<SymbolSummary>, curr: Seq<SymbolSummary>, n: int)
    requires
        0 <= n <= curr.len(),
    ensures
        moved(prev, curr.take(n), Movement::Stable).len() + moved(
            prev,
            curr.take(n),
            Movement::Improved,
        ).len() + moved(prev, curr.take(n), Movement::Regressed).len() == tally::count_below(
            n,
            |i: int| knows(prev, curr[i].symbol@),
        ),
    decreases n,
{
    if n > 0 {
        lemma_known_are_counted(prev, curr, n - 1);
        assert(curr.take(n).drop_last() =~= curr.take(n - 1));
        assert(curr.take(n).last() == curr[n - 1]);
        lemma_last_of(prev, curr[n - 1].symbol@);
    }
}

/// Every current symbol that was known before is counted once: as simpler, more complex
/// or stable.
pub proof fn law_a_drift_counts_the_known_symbols(
    drift: FingerprintDrift,
    prev: Seq<SymbolSummary>,
    curr: Seq<SymbolSummary>,
)
    requires
        drift.of(prev, curr),
    ensures
        drift.improved@.len() + drift.regressed@.len() + drift.stable_count == tally::count_below(
            curr.len() as int,
            |i: int| knows(prev, curr[i].symbol@),
        ),
{
    lemma_known_are_counted(prev, curr, curr.len() as int);
    assert(curr.take(curr.len() as int) =~= curr);
    order::lemma_sorted_texts(moved(prev, curr, Movement::Improved));
    order::lemma_sorted_texts(moved(prev, curr, Movement::Regressed));
    assert(text::texts(drift.improved@).len() == drift.improved@.len());
    assert(text::texts(drift.regressed@).len() == drift.regressed@.len());
}

/// A symbol whose fingerprint stayed is listed neither as simpler nor as more complex.
pub proof fn law_an_unchanged_fingerprint_is_not_listed(
    drift: FingerprintDrift,
    prev: Seq<SymbolSummary>,
    curr: Seq<SymbolSummary>,
    i: int,
    j: int,
)
    requires
        drift.of(prev, curr),
        distinct(prev),
        distinct(curr),
        0 <= i < prev.len(),
        0 <= j < curr.len(),
        prev[i].symbol@ == curr[j].symbol@,
        same_fingerprint(prev[i].mir_fingerprint, curr[j].mir_fingerprint),
    ensures
        !text::texts(drift.improved@).contains(curr[j].symbol@),
        !text::texts(drift.regressed@).contains(curr[j].symbol@),
{
    let t = curr[j].symbol@;
    lemma_last_of(prev, t);
    assert(knows(prev, t));
    assert(semantic::last_of(prev, t) == Some(i));
    assert(movement(prev, curr[j]) == Movement::Stable);
    lemma_sorted_holds(moved(prev, curr, Movement::Improved), t);
    lemma_sorted_holds(moved(prev, curr, Movement::Regressed), t);
    if moved(prev, curr, Movement::Improved).contains(t) {
        let k = lemma_moved_from(prev, curr, Movement::Improved, t);
        assert(k == j);
    }
    if moved(prev, curr, Movement::Regressed).contains(t) {
        let k = lemma_moved_from(prev, curr, Movement::Regressed, t);
        assert(k == j);
    }
}

proof fn lemma_same_movement(
    a: Seq<SymbolSummary>,
    b: Seq<SymbolSummary>,
    curr: SymbolSummary,
)
    requires
        distinct(a),
        a.to_multiset() == b.to_multiset(),
    ensures
        movement(a, curr) == movement(b, curr),
{
    broadcast use vstd::seq_lib::group_to_multiset_ensures;

    let t = curr.symbol@;
    lemma_last_of(a, t);
    lemma_last_of(b, t);
    match semantic::last_of(a, t) {
        Some(i) => {
            assert(a.contains(a[i]));
            assert(b.to_multiset().count(a[i]) > 0);
            assert(b.contains(a[i]));
            let k = choose|k: int| 0 <= k < b.len() && b[k] == a[i];
            assert(b[k].symbol@ == t);
            let j = semantic::last_of(b, t)->0;
            assert(b.contains(b[j]));
            assert(a.to_multiset().count(b[j]) > 0);
            assert(a.contains(b[j]));
            let h = choose|h: int| 0 <= h < a.len() && a[h] == b[j];
            assert(h == i);
        },
        None => {
            if semantic::last_of(b, t) is Some {
                let j = semantic::last_of(b, t)->0;
                assert(b.contains(b[j]));
                assert(a.to_multiset().count(b[j]) > 0);
                assert(a.contains(b[j]));
                let h = choose|h: int| 0 <= h < a.len() && a[h] == b[j];
                assert(a[h].symbol@ == t);
                assert(false);
            }
        },
    }
}

proof fn lemma_moved_from_the_same(
    a: Seq<SymbolSummary>,
    b: Seq<SymbolSummary>,
    curr: Seq<SymbolSummary>,
    way: Movement,
)
    requires
        distinct(a),
        a.to_multiset() == b.to_multiset(),
    ensures
        moved(a, curr, way) == moved(b, curr, way),
    decreases curr.len(),
{
    if curr.len() > 0 {
        lemma_moved_from_the_same(a, b, curr.drop_last(), way);
        lemma_same_movement(a, b, curr.last());
    }
}

/// Taking one summary away takes its symbol away, where it moved that way.
proof fn lemma_moved_without(
    prev: Seq<SymbolSummary>,
    curr: Seq<SymbolSummary>,
    way: Movement,
    j: int,
)
    requires
        0 <= j < curr.len(),
    ensures
        moved(prev, curr, way).to_multiset() == if movement(prev, curr[j]) == way {
            moved(prev, curr.remove(j), way).to_multiset().insert(curr[j].symbol@)
        } else {
            moved(prev, curr.remove(j), way).to_multiset()
        },
    decreases curr.len(),
{
    broadcast use vstd::seq_lib::group_to_multiset_ensures;

    let front = curr.drop_last();
    let less = curr.remove(j);
    if j == curr.len() - 1 {
        assert(less =~= front);
    } else {
        lemma_moved_without(prev, front, way, j);
        assert(less.drop_last() =~= front.remove(j));
        assert(less.last() == curr.last());
        let x = curr.last().symbol@;
        let y = curr[j].symbol@;
        let rest = moved(prev, front.remove(j), way).to_multiset();
        assert(rest.insert(x).insert(y) =~= rest.insert(y).insert(x));
    }
}

proof fn lemma_moved_in_any_order(
    prev: Seq<SymbolSummary>,
    a: Seq<SymbolSummary>,
    b: Seq<SymbolSummary>,
    way: Movement,
)
    requires
        a.to_multiset() == b.to_multiset(),
    ensures
        moved(prev, a, way).to_multiset() == moved(prev, b, way).to_multiset(),
    decreases a.len(),
{
    broadcast use vstd::seq_lib::group_to_multiset_ensures;

    assert(a.len() == a.to_multiset().len());
    assert(b.len() == b.to_multiset().len());
    if a.len() == 0 {
        assert(a =~= b);
    } else {
        let x = a.last();
        assert(a.contains(x));
        assert(b.to_multiset().count(x) > 0);
        assert(b.contains(x));
        let j = choose|j: int| 0 <= j < b.len() && b[j] == x;
        let n = a.len() - 1;
        assert(a.remove(n).to_multiset() =~= a.to_multiset().remove(x));
        assert(b.remove(j).to_multiset() =~= b.to_multiset().remove(x));
        lemma_moved_in_any_order(prev, a.remove(n), b.remove(j), way);
        lemma_moved_without(prev, a, way, n);
        lemma_moved_without(prev, b, way, j);
    }
}

/// The order in which the summaries come changes nothing of a drift, its digest included.
pub proof fn law_a_drift_forgets_the_order(
    first: FingerprintDrift,
    second: FingerprintDrift,
    prev: Seq<SymbolSummary>,
    curr: Seq<SymbolSummary>,
    other_prev: Seq<SymbolSummary>,
    other_curr: Seq<SymbolSummary>,
)
    requires
        distinct(prev),
        prev.to_multiset() == other_prev.to_multiset(),
        curr.to_multiset() == other_curr.to_multiset(),
        first.of(prev, curr),
        second.of(other_prev, other_curr),
    ensures
        text::texts(first.improved@) == text::texts(second.improved@),
        text::texts(first.regressed@) == text::texts(second.regressed@),
        first.stable_count == second.stable_count,
        first.stable_hash@ == second.stable_hash@,
{
    broadcast use vstd::seq_lib::group_to_multiset_ensures;

    assert forall|way: Movement| #[trigger]
        moved(prev, curr, way).to_multiset() == moved(
            other_prev,
            other_curr,
            way,
        ).to_multiset() by {
        lemma_moved_in_any_order(prev, curr, other_curr, way);
        lemma_moved_from_the_same(prev, other_prev, other_curr, way);
    }
    let ways = (Movement::Improved, Movement::Regressed, Movement::Stable);
    order::law_sorting_forgets_the_order(
        moved(prev, curr, ways.0),
        moved(other_prev, other_curr, ways.0),
    );
    order::law_sorting_forgets_the_order(
        moved(prev, curr, ways.1),
        moved(other_prev, other_curr, ways.1),
    );
    let a = moved(prev, curr, ways.2);
    let b = moved(other_prev, other_curr, ways.2);
    order::law_sorting_forgets_the_order(a, b);
    assert(a.len() == a.to_multiset().len());
    assert(b.len() == b.to_multiset().len());
}

} // verus!
