//! Amounts added up by kind, and the kind that they add up to the most for.

use crate::text;
use crate::text::same;
use vstd::hash_set::StringHashSet;
use vstd::prelude::*;

verus! {

/// An amount of one kind.
#[derive(Debug)]
pub struct KindAmount {
    pub kind: String,
    pub amount: u64,
}

/// The kinds and amounts of a list.
pub open spec fn pairs_of(v: Seq<KindAmount>) -> Seq<(Seq<char>, u64)> {
    v.map_values(|p: KindAmount| (p.kind@, p.amount))
}

/// What the amounts of one kind add up to.
pub open spec fn amount_of(pairs: Seq<(Seq<char>, u64)>, kind: Seq<char>) -> nat
    decreases pairs.len(),
{
    if pairs.len() == 0 {
        0
    } else {
        amount_of(pairs.drop_last(), kind) + if pairs.last().0 == kind {
            pairs.last().1 as nat
        } else {
            0
        }
    }
}

/// `n`, as far as a 64-bit counter holds it.
pub open spec fn capped(n: nat) -> u64 {
    if n <= u64::MAX {
        n as u64
    } else {
        u64::MAX
    }
}

/// `n`, as far as a machine count holds it.
pub open spec fn capped_count(n: nat) -> usize {
    if n <= usize::MAX {
        n as usize
    } else {
        usize::MAX
    }
}

/// The sum of two counts, at most the largest count.
pub open spec fn capped_sum(a: usize, b: usize) -> usize {
    capped_count((a + b) as nat)
}

/// How many numbers below `n` have the property `p`.
pub open spec fn count_below(n: int, p: spec_fn(int) -> bool) -> nat
    decreases n,
{
    if n <= 0 {
        0
    } else {
        count_below(n - 1, p) + if p(n - 1) {
            1nat
        } else {
            0
        }
    }
}

/// `kind` is one whose amounts add up to the most, and `amount` is what they add
/// up to; of no amounts at all it is the empty kind and nothing.
pub open spec fn dominates(pairs: Seq<(Seq<char>, u64)>, kind: Seq<char>, amount: u64) -> bool {
    if pairs.len() == 0 {
        kind.len() == 0 && amount == 0
    } else {
        &&& exists|i: int| 0 <= i < pairs.len() && (#[trigger] pairs[i]).0 == kind
        &&& amount == capped(amount_of(pairs, kind))
        &&& forall|i: int|
            0 <= i < pairs.len() ==> capped(amount_of(pairs, (#[trigger] pairs[i]).0)) <= amount
    }
}

#[verifier::opaque]
spec fn listed(table: Seq<KindAmount>, kind: Seq<char>) -> bool {
    exists|i: int| 0 <= i < table.len() && (#[trigger] table[i]).kind@ == kind
}

#[verifier::opaque]
spec fn occurs(pairs: Seq<(Seq<char>, u64)>, kind: Seq<char>) -> bool {
    exists|i: int| 0 <= i < pairs.len() && (#[trigger] pairs[i]).0 == kind
}

spec fn summed_up(table: Seq<KindAmount>, pairs: Seq<(Seq<char>, u64)>) -> bool {
    &&& forall|i: int, j: int|
        0 <= i < j < table.len() ==> (#[trigger] table[i]).kind@ != (#[trigger] table[j]).kind@
    &&& forall|i: int|
        0 <= i < table.len() ==> (#[trigger] table[i]).amount == capped(
            amount_of(pairs, table[i].kind@),
        )
    &&& forall|kind: Seq<char>| #[trigger] listed(table, kind) <==> occurs(pairs, kind)
}

proof fn lemma_amount_absent(pairs: Seq<(Seq<char>, u64)>, kind: Seq<char>)
    requires
        !occurs(pairs, kind),
    ensures
        amount_of(pairs, kind) == 0,
    decreases pairs.len(),
{
    reveal(occurs);
    if pairs.len() > 0 {
        let front = pairs.drop_last();
        assert(!occurs(front, kind)) by {
            if occurs(front, kind) {
                let j = choose|j: int| 0 <= j < front.len() && (#[trigger] front[j]).0 == kind;
                assert(pairs[j].0 == kind);
            }
        }
        lemma_amount_absent(front, kind);
        assert(pairs[pairs.len() - 1].0 != kind);
    }
}

proof fn lemma_occurs_push(pairs: Seq<(Seq<char>, u64)>, item: (Seq<char>, u64), kind: Seq<char>)
    ensures
        occurs(pairs.push(item), kind) <==> occurs(pairs, kind) || item.0 == kind,
{
    reveal(occurs);
    let next = pairs.push(item);
    if occurs(pairs, kind) {
        let j = choose|j: int| 0 <= j < pairs.len() && (#[trigger] pairs[j]).0 == kind;
        assert(next[j].0 == kind);
    }
    if item.0 == kind {
        assert(next[pairs.len() as int].0 == kind);
    }
    if occurs(next, kind) {
        let j = choose|j: int| 0 <= j < next.len() && (#[trigger] next[j]).0 == kind;
        if j < pairs.len() {
            assert(pairs[j].0 == kind);
        }
    }
}

proof fn lemma_listed_alike(a: Seq<KindAmount>, b: Seq<KindAmount>, kind: Seq<char>)
    requires
        a.len() == b.len(),
        forall|k: int| 0 <= k < a.len() ==> (#[trigger] a[k]).kind@ == b[k].kind@,
    ensures
        listed(a, kind) <==> listed(b, kind),
{
    reveal(listed);
    if listed(a, kind) {
        let k = choose|k: int| 0 <= k < a.len() && (#[trigger] a[k]).kind@ == kind;
        assert(b[k].kind@ == kind);
    }
    if listed(b, kind) {
        let k = choose|k: int| 0 <= k < b.len() && (#[trigger] b[k]).kind@ == kind;
        assert(a[k].kind@ == kind);
    }
}

proof fn lemma_listed_push(table: Seq<KindAmount>, item: KindAmount, kind: Seq<char>)
    ensures
        listed(table.push(item), kind) <==> listed(table, kind) || item.kind@ == kind,
{
    reveal(listed);
    let next = table.push(item);
    if listed(table, kind) {
        let j = choose|j: int| 0 <= j < table.len() && (#[trigger] table[j]).kind@ == kind;
        assert(next[j].kind@ == kind);
    }
    if item.kind@ == kind {
        assert(next[table.len() as int].kind@ == kind);
    }
    if listed(next, kind) {
        let j = choose|j: int| 0 <= j < next.len() && (#[trigger] next[j]).kind@ == kind;
        if j < table.len() {
            assert(table[j].kind@ == kind);
        }
    }
}

proof fn lemma_sum_updated(
    before: Seq<KindAmount>,
    after: Seq<KindAmount>,
    pairs: Seq<(Seq<char>, u64)>,
    i: int,
    kind: Seq<char>,
    amount: u64,
)
    requires
        summed_up(before, pairs),
        0 <= i < before.len(),
        before[i].kind@ == kind,
        after.len() == before.len(),
        after[i].kind@ == kind,
        after[i].amount == capped((before[i].amount + amount) as nat),
        forall|k: int| 0 <= k < before.len() && k != i ==> #[trigger] after[k] == before[k],
    ensures
        summed_up(after, pairs.push((kind, amount))),
{
    let next = pairs.push((kind, amount));
    assert(next.drop_last() =~= pairs);
    assert forall|k: int| 0 <= k < after.len() implies (#[trigger] after[k]).amount == capped(
        amount_of(next, after[k].kind@),
    ) by {
        assert(before[k].amount == capped(amount_of(pairs, before[k].kind@)));
        if k != i {
            assert(after[k] == before[k]);
            assert(before[k].kind@ != kind) by {
                if k < i {
                    assert(before[k].kind@ != before[i].kind@);
                } else {
                    assert(before[i].kind@ != before[k].kind@);
                }
            }
        }
    }
    assert forall|k: int, l: int| 0 <= k < l < after.len() implies (#[trigger] after[k]).kind@ != (
    #[trigger] after[l]).kind@ by {
        assert(before[k].kind@ != before[l].kind@);
    }
    assert forall|name: Seq<char>| #[trigger] listed(after, name) <==> occurs(next, name) by {
        lemma_occurs_push(pairs, (kind, amount), name);
        lemma_listed_alike(after, before, name);
        if name == kind {
            reveal(listed);
            assert(listed(before, kind));
        }
    }
}

proof fn lemma_sum_added(
    before: Seq<KindAmount>,
    item: KindAmount,
    pairs: Seq<(Seq<char>, u64)>,
)
    requires
        summed_up(before, pairs),
        forall|k: int| 0 <= k < before.len() ==> (#[trigger] before[k]).kind@ != item.kind@,
    ensures
        summed_up(before.push(item), pairs.push((item.kind@, item.amount))),
{
    let after = before.push(item);
    let kind = item.kind@;
    let next = pairs.push((kind, item.amount));
    assert(next.drop_last() =~= pairs);
    assert(!listed(before, kind)) by {
        reveal(listed);
    }
    lemma_amount_absent(pairs, kind);
    assert forall|k: int| 0 <= k < after.len() implies (#[trigger] after[k]).amount == capped(
        amount_of(next, after[k].kind@),
    ) by {
        if k < before.len() {
            assert(after[k] == before[k]);
            assert(before[k].kind@ != kind);
        }
    }
    assert forall|k: int, l: int| 0 <= k < l < after.len() implies (#[trigger] after[k]).kind@ != (
    #[trigger] after[l]).kind@ by {
        if l < before.len() {
            assert(before[k].kind@ != before[l].kind@);
        } else {
            assert(before[k].kind@ != kind);
        }
    }
    assert forall|name: Seq<char>| #[trigger] listed(after, name) <==> occurs(next, name) by {
        lemma_occurs_push(pairs, (kind, item.amount), name);
        lemma_listed_push(before, item, name);
    }
}

/// Adds an amount to the table of sums.
fn add_amount(table: &mut Vec<KindAmount>, item: KindAmount, pairs: Ghost<Seq<(Seq<char>, u64)>>)
    requires
        summed_up(old(table)@, pairs@),
    ensures
        summed_up(final(table)@, pairs@.push((item.kind@, item.amount))),
{
    let ghost before = table@;
    let mut i: usize = 0;
    while i < table.len()
        invariant
            table@ == before,
            i <= table.len(),
            summed_up(before, pairs@),
            forall|k: int| 0 <= k < i ==> (#[trigger] before[k]).kind@ != item.kind@,
        decreases table.len() - i,
    {
        if same(table[i].kind.as_str(), item.kind.as_str()) {
            let sum: u64 = table[i].amount.saturating_add(item.amount);
            let name = table[i].kind.clone();
            table.set(i, KindAmount { kind: name, amount: sum });
            proof {
                lemma_sum_updated(before, table@, pairs@, i as int, item.kind@, item.amount);
            }
            return;
        }
        i += 1;
    }
    proof {
        lemma_sum_added(before, item, pairs@);
    }
    table.push(item);
}

/// A kind whose amounts add up to the most, with what they add up to.
pub fn dominant(amounts: Vec<KindAmount>) -> (r: (String, u64))
    ensures
        dominates(pairs_of(amounts@), r.0@, r.1),
{
    let ghost all = pairs_of(amounts@);
    let mut table: Vec<KindAmount> = Vec::new();
    assert(all.take(0) =~= Seq::<(Seq<char>, u64)>::empty());
    assert(summed_up(table@, all.take(0))) by {
        reveal(listed);
        reveal(occurs);
    }
    for item in it: amounts
        invariant
            all == pairs_of(it.seq()),
            summed_up(table@, all.take(it.index())),
    {
        let ghost done = all.take(it.index());
        assert(all.take(it.index() + 1) =~= done.push((item.kind@, item.amount)));
        add_amount(&mut table, item, Ghost(done));
    }
    assert(all.take(all.len() as int) =~= all);
    if table.len() == 0 {
        proof {
            if all.len() > 0 {
                reveal(listed);
                reveal(occurs);
                assert(occurs(all, all[0].0));
                assert(listed(table@, all[0].0));
            }
        }
        return (String::new(), 0);
    }
    let mut best: usize = 0;
    let mut i: usize = 1;
    while i < table.len()
        invariant
            best < table.len(),
            i <= table.len(),
            forall|k: int| 0 <= k < i ==> (#[trigger] table@[k]).amount <= table@[best as int].amount,
        decreases table.len() - i,
    {
        if table[i].amount > table[best].amount {
            best = i;
        }
        i += 1;
    }
    proof {
        let top = table@[best as int];
        reveal(listed);
        reveal(occurs);
        assert(listed(table@, top.kind@));
        assert(occurs(all, top.kind@));
        assert forall|j: int| 0 <= j < all.len() implies capped(
            amount_of(all, (#[trigger] all[j]).0),
        ) <= top.amount by {
            assert(occurs(all, all[j].0));
            assert(listed(table@, all[j].0));
            let k = choose|k: int| 0 <= k < table@.len() && (#[trigger] table@[k]).kind@ == all[j].0;
            assert(table@[k].amount <= top.amount);
        }
    }
    (table[best].kind.clone(), table[best].amount)
}

/// How many different texts of `asked` are missing in `answered`.
pub fn unmatched_count(asked: &Vec<String>, answered: &Vec<String>) -> (r: usize)
    ensures
        r == text::texts(asked@).to_set().difference(text::texts(answered@).to_set()).len(),
{
    let mut known = StringHashSet::new();
    let mut i: usize = 0;
    let ghost answers = text::texts(answered@);
    let ghost questions = text::texts(asked@);
    while i < answered.len()
        invariant
            i <= answered.len(),
            answers == text::texts(answered@),
            known@ == answers.take(i as int).to_set(),
        decreases answered.len() - i,
    {
        known.insert(answered[i].clone());
        proof {
            assert(answers.take(i + 1) =~= answers.take(i as int).push(answered@[i as int]@));
            assert(known@ =~= answers.take(i + 1).to_set()) by {
                lemma_push_to_set(answers.take(i as int), answered@[i as int]@);
            }
        }
        i += 1;
    }
    assert(answers.take(i as int) =~= answers);
    let mut open = StringHashSet::new();
    let mut k: usize = 0;
    assert(open@ =~= questions.take(0).to_set().difference(answers.to_set()));
    while k < asked.len()
        invariant
            k <= asked.len(),
            questions == text::texts(asked@),
            known@ == answers.to_set(),
            open@ == questions.take(k as int).to_set().difference(answers.to_set()),
        decreases asked.len() - k,
    {
        let ghost before = open@;
        if !known.contains(asked[k].as_str()) {
            open.insert(asked[k].clone());
        }
        proof {
            assert(questions.take(k + 1) =~= questions.take(k as int).push(asked@[k as int]@));
            lemma_push_to_set(questions.take(k as int), asked@[k as int]@);
            assert(open@ =~= questions.take(k + 1).to_set().difference(answers.to_set()));
        }
        k += 1;
    }
    assert(questions.take(k as int) =~= questions);
    open.len()
}

proof fn lemma_push_to_set(s: Seq<Seq<char>>, x: Seq<char>)
    ensures
        s.push(x).to_set() == s.to_set().insert(x),
{
    let grown = s.push(x);
    assert forall|y: Seq<char>| grown.to_set().contains(y) <==> s.to_set().insert(x).contains(
        y,
    ) by {
        if s.contains(y) {
            let i = choose|i: int| 0 <= i < s.len() && s[i] == y;
            assert(grown[i] == y);
        }
        if grown.contains(y) {
            let i = choose|i: int| 0 <= i < grown.len() && grown[i] == y;
            if i < s.len() {
                assert(s[i] == y);
            }
        }
        assert(grown[s.len() as int] == x);
    }
    assert(grown.to_set() =~= s.to_set().insert(x));
}

} // verus!
