//! What the operations on texts and the stable order keep.

use crate::groups;
use crate::order;
use crate::semantic;
use crate::semantic::SymbolSummary;
use crate::tally;
use crate::text;
use vstd::prelude::*;

verus! {

// ---------------------------------------------------------------------------
// Order
// ---------------------------------------------------------------------------

/// Two texts are ordered by the first character in which they differ, and a text comes
/// before what it begins.
pub proof fn law_texts_are_ordered_by_their_first_difference(a: Seq<char>, b: Seq<char>, i: int)
    requires
        0 <= i <= a.len(),
        i <= b.len(),
        a.take(i) == b.take(i),
        i < a.len() && i < b.len() ==> a[i] != b[i],
    ensures
        i == a.len() ==> text::text_le(a, b),
        i == b.len() && i < a.len() ==> !text::text_le(a, b),
        i < a.len() && i < b.len() ==> (text::text_le(a, b) <==> a[i] < b[i]),
    decreases i,
{
    if i > 0 {
        assert(a[0] == a.take(i)[0]);
        assert(b[0] == b.take(i)[0]);
        let x = a.drop_first();
        let y = b.drop_first();
        assert(x.take(i - 1) =~= y.take(i - 1)) by {
            assert forall|k: int| 0 <= k < i - 1 implies x[k] == y[k] by {
                assert(a[k + 1] == a.take(i)[k + 1]);
                assert(b[k + 1] == b.take(i)[k + 1]);
            }
        }
        law_texts_are_ordered_by_their_first_difference(x, y, i - 1);
    }
}

/// The two rank alike.
pub open spec fn alike<A>(le: spec_fn(A, A) -> bool, a: A, b: A) -> bool {
    le(a, b) && le(b, a)
}

proof fn lemma_placed_behind<A>(s: Seq<A>, x: A, le: spec_fn(A, A) -> bool, a: A)
    requires
        order::total_preorder(le),
    ensures
        order::placed(s, x, le).filter(|y: A| alike(le, y, a)) == if alike(le, x, a) {
            s.filter(|y: A| alike(le, y, a)).push(x)
        } else {
            s.filter(|y: A| alike(le, y, a))
        },
    decreases s.len(),
{
    reveal(Seq::filter);
    let p = |y: A| alike(le, y, a);
    if s.len() == 0 || le(s.last(), x) {
        assert(s.push(x).drop_last() =~= s);
    } else {
        let front = s.drop_last();
        lemma_placed_behind(front, x, le, a);
        let inner = order::placed(front, x, le);
        assert(inner.push(s.last()).drop_last() =~= inner);
        if p(x) && p(s.last()) {
            assert(le(s.last(), a) && le(a, x));
        }
    }
}

/// Sorting keeps the order of what ranks alike.
pub proof fn law_sorting_keeps_the_order_of_equals<A>(s: Seq<A>, le: spec_fn(A, A) -> bool, a: A)
    requires
        order::total_preorder(le),
    ensures
        order::stable_sorted(s, le).filter(|y: A| alike(le, y, a)) == s.filter(
            |y: A| alike(le, y, a),
        ),
    decreases s.len(),
{
    reveal(Seq::filter);
    if s.len() > 0 {
        law_sorting_keeps_the_order_of_equals(s.drop_last(), le, a);
        lemma_placed_behind(order::stable_sorted(s.drop_last(), le), s.last(), le, a);
    }
}

/// Sorting keeps every item and puts none behind one that ranks later.
pub proof fn law_sorting_orders_what_it_is_given<A>(
    s: Seq<A>,
    le: spec_fn(A, A) -> bool,
    i: int,
    j: int,
)
    requires
        order::total_preorder(le),
        0 <= i < j < s.len(),
    ensures
        order::stable_sorted(s, le).to_multiset() == s.to_multiset(),
        le(order::stable_sorted(s, le)[i], order::stable_sorted(s, le)[j]),
{
    order::lemma_stable_sorted(s, le);
}

// ---------------------------------------------------------------------------
// Parts of texts
// ---------------------------------------------------------------------------

proof fn lemma_last_occurrence(s: Seq<char>, sep: Seq<char>, n: int) -> (i: int)
    requires
        exists|k: int| text::occurs_at(s, sep, k) && k <= n,
        forall|k: int| k > n ==> !text::occurs_at(s, sep, k),
        n >= 0,
    ensures
        text::last_at(s, sep, i),
    decreases n,
{
    if text::occurs_at(s, sep, n) {
        n
    } else {
        let k = choose|k: int| text::occurs_at(s, sep, k) && k <= n;
        assert(k < n);
        lemma_last_occurrence(s, sep, n - 1)
    }
}

proof fn lemma_first_occurrence(s: Seq<char>, sep: Seq<char>, n: int) -> (i: int)
    requires
        exists|k: int| text::occurs_at(s, sep, k) && k >= n,
        forall|k: int| 0 <= k < n ==> !text::occurs_at(s, sep, k),
        0 <= n <= s.len(),
    ensures
        text::first_at(s, sep, i),
    decreases s.len() - n,
{
    if text::occurs_at(s, sep, n) {
        n
    } else {
        let k = choose|k: int| text::occurs_at(s, sep, k) && k >= n;
        assert(k > n);
        lemma_first_occurrence(s, sep, n + 1)
    }
}

/// A text is what stands before its last separator, the separator and what stands
/// behind it, in which the separator does not occur again.
pub proof fn law_a_text_is_cut_at_its_last_separator(s: Seq<char>, sep: Seq<char>)
    requires
        sep.len() > 0,
    ensures
        !text::has_text(s, sep) ==> text::after_last(s, sep) == s && text::before_last(s, sep) == s,
        text::has_text(s, sep) ==> s == text::before_last(s, sep) + sep + text::after_last(s, sep)
            && !text::has_text(text::after_last(s, sep), sep),
{
    if text::has_text(s, sep) {
        let k = choose|k: int| text::occurs_at(s, sep, k);
        let w = lemma_last_occurrence(s, sep, s.len() as int);
        let i = choose|i: int| text::last_at(s, sep, i);
        assert(text::last_at(s, sep, i));
        let rest = text::after_last(s, sep);
        assert(s =~= s.take(i) + s.subrange(i, i + sep.len()) + s.skip(i + sep.len()));
        if text::has_text(rest, sep) {
            let j = choose|j: int| text::occurs_at(rest, sep, j);
            let at = i + sep.len() + j;
            assert(s.subrange(at, at + sep.len()) =~= rest.subrange(j, j + sep.len()));
            assert(text::occurs_at(s, sep, at));
        }
    }
}

/// What stands behind the first separator: before that place it does not occur.
pub proof fn law_a_text_is_cut_at_its_first_separator(s: Seq<char>, sep: Seq<char>)
    requires
        sep.len() > 0,
    ensures
        text::after_first(s, sep) is Some <==> text::has_text(s, sep),
        text::after_first(s, sep) matches Some(rest) ==> exists|i: int|
            #![trigger s.take(i)]
            0 <= i <= s.len() && s == s.take(i) + sep + rest && forall|j: int|
                0 <= j < i ==> !text::occurs_at(s, sep, j),
{
    if text::has_text(s, sep) {
        let k = choose|k: int| text::occurs_at(s, sep, k);
        let w = lemma_first_occurrence(s, sep, 0);
        let i = choose|i: int| text::first_at(s, sep, i);
        assert(text::first_at(s, sep, i));
        assert(s =~= s.take(i) + s.subrange(i, i + sep.len()) + s.skip(i + sep.len()));
        assert(s == s.take(i) + sep + text::after_first(s, sep)->0);
    }
}

proof fn lemma_trim_front(s: Seq<char>) -> (n: int)
    ensures
        0 <= n <= s.len(),
        text::trim_front(s) == s.skip(n),
        forall|k: int| 0 <= k < n ==> text::white_space(#[trigger] s[k]),
        text::trim_front(s).len() > 0 ==> !text::white_space(text::trim_front(s)[0]),
    decreases s.len(),
{
    if s.len() > 0 && text::white_space(s.first()) {
        let rest = s.drop_first();
        let n = lemma_trim_front(rest);
        assert(rest.skip(n) =~= s.skip(n + 1));
        assert forall|k: int| 0 <= k < n + 1 implies text::white_space(#[trigger] s[k]) by {
            if k > 0 {
                assert(s[k] == rest[k - 1]);
            }
        }
        n + 1
    } else {
        assert(s.skip(0) =~= s);
        0
    }
}

proof fn lemma_trim_back(s: Seq<char>) -> (n: int)
    ensures
        0 <= n <= s.len(),
        text::trim_back(s) == s.take(n),
        forall|k: int| n <= k < s.len() ==> text::white_space(#[trigger] s[k]),
        n > 0 ==> !text::white_space(s[n - 1]),
    decreases s.len(),
{
    if s.len() > 0 && text::white_space(s.last()) {
        let front = s.drop_last();
        let n = lemma_trim_back(front);
        assert(front.take(n) =~= s.take(n));
        assert forall|k: int| n <= k < s.len() implies text::white_space(#[trigger] s[k]) by {
            if k < front.len() {
                assert(s[k] == front[k]);
            }
        }
        n
    } else {
        assert(s.take(s.len() as int) =~= s);
        s.len() as int
    }
}

/// Trimming takes white space alone from both ends, and all of it.
pub proof fn law_trimming_takes_white_space(s: Seq<char>)
    ensures
        exists|i: int, j: int|
            #![trigger s.subrange(i, j)]
            0 <= i <= j <= s.len() && text::trimmed(s) == s.subrange(i, j) && (forall|k: int|
                (0 <= k < i || j <= k < s.len()) ==> text::white_space(#[trigger] s[k])) && (i < j
                ==> !text::white_space(s[i]) && !text::white_space(s[j - 1])),
{
    let n = lemma_trim_front(s);
    let mid = text::trim_front(s);
    let m = lemma_trim_back(mid);
    let j = n + m;
    assert(mid.take(m) =~= s.subrange(n, j));
    assert forall|k: int| (0 <= k < n || j <= k < s.len()) implies text::white_space(
        #[trigger] s[k],
    ) by {
        if k >= j {
            assert(s[k] == mid[k - n]);
        }
    }
    if n < j {
        assert(s[n] == mid[0]);
        assert(s[j - 1] == mid[m - 1]);
    }
    assert(text::trimmed(s) == s.subrange(n, j));
}

/// Blanks, tabs and line ends are white space; letters, digits and signs of ASCII are
/// not.
pub proof fn law_white_space_of_ascii(c: char)
    requires
        (c as u32) < 0x80,
    ensures
        text::white_space(c) <==> c == ' ' || (9 <= c as u32 <= 13),
{
}

/// The first line holds no line end, and the text begins with it.
pub proof fn law_a_first_line_begins_its_text(s: Seq<char>)
    ensures
        !text::first_line_of(s).contains('\n'),
        text::first_line_of(s).len() <= s.len(),
        text::first_line_of(s) == s.take(text::first_line_of(s).len() as int),
        !s.contains('\n') ==> text::first_line_of(s) == s,
        s.contains('\n') ==> text::first_line_of(s).len() < s.len() && (s[text::first_line_of(
            s,
        ).len() as int] == '\n' || s[text::first_line_of(s).len() as int] == '\r'),
{
    if s.contains('\n') {
        s.index_of_first_ensures('\n');
        let i = s.index_of_first('\n')->0;
        let line = s.take(i);
        assert forall|k: int| 0 <= k < line.len() implies line[k] != '\n' by {}
        assert(text::first_line_of(s) =~= s.take(text::first_line_of(s).len() as int));
    } else {
        assert(s.take(s.len() as int) =~= s);
    }
}

// ---------------------------------------------------------------------------
// Numbers
// ---------------------------------------------------------------------------

proof fn lemma_dec(n: nat)
    ensures
        text::dec(n).len() > 0,
        forall|i: int| 0 <= i < text::dec(n).len() ==> text::ascii_digit(#[trigger] text::dec(n)[i]),
        text::digits_value(text::dec(n)) == n,
    decreases n,
{
    if n < 10 {
        let d = text::dec(n);
        assert(d.drop_last() =~= Seq::<char>::empty());
        assert(text::digits_value(d.drop_last()) == 0);
        assert(d.last() as int == 48 + n);
    } else {
        lemma_dec(n / 10);
        let d = text::dec(n);
        assert(d.drop_last() =~= text::dec(n / 10));
        assert(d.last() as int == 48 + n % 10);
        assert(n == (n / 10) * 10 + n % 10);
    }
}

/// A number that is written is read back.
pub proof fn law_a_written_number_is_read_back(n: u64)
    ensures
        text::parsed(text::dec(n as nat)) == Some(n),
        text::parsed(seq!['+'] + text::dec(n as nat)) == Some(n),
{
    lemma_dec(n as nat);
    let d = text::dec(n as nat);
    assert(text::ascii_digit(d[0]));
    assert((seq!['+'] + d).skip(1) =~= d);
}

/// What holds anything but digits behind a plus sign is no number, nor is the empty
/// text.
pub proof fn law_no_number_without_digits(s: Seq<char>, i: int)
    ensures
        text::parsed(Seq::empty()) is None,
        0 < i < s.len() && !('0' <= s[i] && s[i] <= '9') ==> text::parsed(s) is None,
        s.len() > 0 && s[0] != '+' && !('0' <= s[0] && s[0] <= '9') ==> text::parsed(s) is None,
{
    let d = text::unsigned(s);
    if 0 < i < s.len() && !('0' <= s[i] && s[i] <= '9') {
        if s[0] == '+' {
            assert(d[i - 1] == s[i]);
        } else {
            assert(d[i] == s[i]);
        }
    }
    if s.len() > 0 && s[0] != '+' {
        assert(d[0] == s[0]);
    }
}

/// A number in base sixteen has the digits of its parts.
pub proof fn law_a_number_in_base_sixteen(n: nat)
    ensures
        n >= 16 ==> text::hex(n) == text::hex(n / 16).push(text::hex(n % 16)[0]),
        n < 16 ==> text::hex(n).len() == 1,
        n < 10 ==> text::hex(n)[0] as int == '0' as int + n,
        10 <= n < 16 ==> text::hex(n)[0] as int == 'a' as int + n - 10,
{
}

// ---------------------------------------------------------------------------
// Letters
// ---------------------------------------------------------------------------

/// Capitals of ASCII become small, and nothing else changes.
pub proof fn law_capitals_become_small(s: Seq<char>, i: int)
    requires
        0 <= i < s.len(),
    ensures
        text::lower_ascii(s).len() == s.len(),
        'A' <= s[i] && s[i] <= 'Z' ==> text::lower_ascii(s)[i] as int == s[i] as int + 32,
        !('A' <= s[i] && s[i] <= 'Z') ==> text::lower_ascii(s)[i] == s[i],
        text::lower_ascii(text::lower_ascii(s)) == text::lower_ascii(s),
{
    assert(text::lower_ascii(text::lower_ascii(s)) =~= text::lower_ascii(s)) by {
        assert forall|k: int| 0 <= k < s.len() implies text::lower_ascii(text::lower_ascii(s))[k]
            == text::lower_ascii(s)[k] by {
            let c = s[k];
        }
    }
}

/// Letters, digits and underscores of ASCII stay; every other character becomes an
/// underscore.
pub proof fn law_a_fragment_holds_letters_and_digits(s: Seq<char>, i: int)
    requires
        0 <= i < s.len(),
    ensures
        ({
            let c = s[i];
            let kept = ('0' <= c && c <= '9') || ('a' <= c && c <= 'z') || ('A' <= c && c <= 'Z')
                || c == '_';
            &&& text::identifier_fragment(s).len() == s.len()
            &&& text::identifier_fragment(s)[i] == if kept { c } else { '_' }
        }),
{
}

/// Each character that is replaced becomes the text; all others stay.
pub proof fn law_a_character_is_replaced(s: Seq<char>, c: char, from: char, to: Seq<char>)
    ensures
        text::with_char_replaced(Seq::empty(), from, to).len() == 0,
        text::with_char_replaced(s.push(c), from, to) == text::with_char_replaced(s, from, to)
            + if c == from {
            to
        } else {
            seq![c]
        },
{
    assert(s.push(c).drop_last() =~= s);
    let r = text::with_char_replaced(s, from, to);
    assert(r.push(c) =~= r + seq![c]);
}

/// A path below another: a slash stands between the two, once; an absolute path stands
/// for itself.
pub proof fn law_a_path_stands_below_its_base(base: Seq<char>, rel: Seq<char>)
    ensures
        rel.len() > 0 && rel[0] == '/' ==> text::below(base, rel) == rel,
        rel.len() > 0 && rel[0] != '/' && base.len() > 0 && base.last() != '/' ==> text::below(
            base,
            rel,
        ) == base.push('/') + rel,
        rel.len() > 0 && rel[0] != '/' && base.len() > 0 && base.last() == '/' ==> text::below(
            base,
            rel,
        ) == base + rel,
        rel.len() > 0 && rel[0] != '/' && base.len() == 0 ==> text::below(base, rel) == rel,
{
    reveal_strlit("/");
    assert("/"@ =~= seq!['/']);
    assert(base + "/"@ =~= base.push('/'));
    if base.len() == 0 {
        assert(base + rel =~= rel);
    }
}

/// The head of a list is its first items, all of them where it is short.
pub proof fn law_a_head_is_the_first_items(s: Seq<Seq<char>>, n: int)
    requires
        n >= 0,
    ensures
        text::head_of(s, n).len() == if s.len() <= n { s.len() as int } else { n },
        forall|i: int|
            0 <= i < text::head_of(s, n).len() ==> #[trigger] text::head_of(s, n)[i] == s[i],
{
}

/// Joined parts: one more part comes behind a separator.
pub proof fn law_parts_are_joined_in_their_order(parts: Seq<Seq<char>>, p: Seq<char>, sep: Seq<char>)
    ensures
        text::joined(Seq::empty(), sep).len() == 0,
        parts.len() == 0 ==> text::joined(parts.push(p), sep) == p,
        parts.len() > 0 ==> text::joined(parts.push(p), sep) == text::joined(parts, sep) + sep + p,
{
    assert(parts.push(p).drop_last() =~= parts);
}

// ---------------------------------------------------------------------------
// Counts and places
// ---------------------------------------------------------------------------

/// The last summary of a symbol is the one that counts.
pub proof fn law_the_last_summary_counts(
    ss: Seq<SymbolSummary>,
    s: SymbolSummary,
    symbol: Seq<char>,
)
    ensures
        semantic::last_of(Seq::empty(), symbol) is None,
        s.symbol@ == symbol ==> semantic::last_of(ss.push(s), symbol) == Some(ss.len() as int),
        s.symbol@ != symbol ==> semantic::last_of(ss.push(s), symbol) == semantic::last_of(
            ss,
            symbol,
        ),
{
    assert(ss.push(s).drop_last() =~= ss);
}

/// The last edge of a start tells where it leads.
pub proof fn law_the_last_edge_counts(
    es: Seq<(Seq<char>, Seq<char>)>,
    e: (Seq<char>, Seq<char>),
    key: Seq<char>,
)
    ensures
        groups::last_end(Seq::empty(), key) is None,
        e.0 == key ==> groups::last_end(es.push(e), key) == Some(e.1),
        e.0 != key ==> groups::last_end(es.push(e), key) == groups::last_end(es, key),
{
    assert(es.push(e).drop_last() =~= es);
}

/// Amounts of one kind add up.
pub proof fn law_amounts_add_up(
    pairs: Seq<(Seq<char>, u64)>,
    p: (Seq<char>, u64),
    kind: Seq<char>,
)
    ensures
        tally::amount_of(Seq::empty(), kind) == 0,
        tally::amount_of(pairs.push(p), kind) == tally::amount_of(pairs, kind) + if p.0 == kind {
            p.1 as nat
        } else {
            0nat
        },
{
    assert(pairs.push(p).drop_last() =~= pairs);
}

/// What is counted is what has the property; capped counts stay as they are up to the
/// largest number.
pub proof fn law_counts_count(n: int, p: spec_fn(int) -> bool, m: nat)
    requires
        n >= 0,
    ensures
        tally::count_below(0, p) == 0,
        tally::count_below(n + 1, p) == tally::count_below(n, p) + if p(n) {
            1nat
        } else {
            0nat
        },
        m <= u64::MAX ==> tally::capped(m) == m,
        m > u64::MAX ==> tally::capped(m) == u64::MAX,
        m <= usize::MAX ==> tally::capped_count(m) == m,
        m > usize::MAX ==> tally::capped_count(m) == usize::MAX,
{
}

/// A set of texts holds what the list holds, each once, in the order of texts.
pub proof fn law_a_set_holds_each_text_once(s: Seq<Seq<char>>, x: Seq<char>, i: int, j: int)
    requires
        0 <= i < j < groups::sorted_set(s).len(),
    ensures
        groups::sorted_set(s).contains(x) <==> s.contains(x),
        groups::sorted_set(s)[i] != groups::sorted_set(s)[j],
        text::text_le(groups::sorted_set(s)[i], groups::sorted_set(s)[j]),
{
    groups::lemma_sorted_set(s);
    let le = |a: Seq<char>, b: Seq<char>| text::text_le(a, b);
    assert(le(groups::sorted_set(s)[i], groups::sorted_set(s)[j]));
}

} // verus!
