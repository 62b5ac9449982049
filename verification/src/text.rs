//! Text primitives: searching, trimming, splitting, joining, ordering and
//! number formatting, stated over sequences of characters.

use std::collections::hash_map::DefaultHasher;
use std::hash::Hasher;
use vstd::prelude::*;
use vstd::std_specs::hash::*;
use vstd::string::*;
use vstd::utf8::*;

verus! {

/// `String::push` appends the given character to the end of the string.
pub assume_specification[ String::push ](s: &mut String, c: char)
    ensures
        final(s)@ == old(s)@.push(c),
;

/// Equality of two string slices is equality of their characters.
pub assume_specification[ <str as PartialEq>::eq ](a: &str, b: &str) -> (res: bool)
    ensures
        res == (a@ == b@),
;

/// What `str::to_lowercase` makes of a text.
pub uninterp spec fn lowercase(s: Seq<char>) -> Seq<char>;

/// `str::to_lowercase` maps a text to lower case by Unicode's rules, the same
/// text always to the same result; on ASCII it makes the capitals small and
/// leaves the rest.
#[verifier::external_body]
pub(crate) fn to_lowercase(s: &str) -> (r: String)
    ensures
        r@ == lowercase(s@),
        is_ascii_chars(s@) ==> r@ == lower_ascii(s@),
{
    s.to_lowercase()
}

// ---------------------------------------------------------------------------
// Models
// ---------------------------------------------------------------------------

/// Owned and borrowed strings of a list, as character sequences.
pub open spec fn texts(v: Seq<String>) -> Seq<Seq<char>> {
    v.map_values(|s: String| s@)
}

/// An optional owned string, as characters.
pub open spec fn optional(o: Option<String>) -> Option<Seq<char>> {
    match o {
        Some(s) => Some(s@),
        None => None,
    }
}

/// An optional borrowed string, as characters.
pub open spec fn optional_ref(o: Option<&str>) -> Option<Seq<char>> {
    match o {
        Some(s) => Some(s@),
        None => None,
    }
}

/// `needle` stands in `s` at position `i`.
pub open spec fn occurs_at(s: Seq<char>, needle: Seq<char>, i: int) -> bool {
    &&& 0 <= i
    &&& i + needle.len() <= s.len()
    &&& s.subrange(i, i + needle.len()) == needle
}

/// `needle` stands somewhere in `s`.
pub open spec fn has_text(s: Seq<char>, needle: Seq<char>) -> bool {
    exists|i: int| occurs_at(s, needle, i)
}

/// `s` begins with `prefix`.
pub open spec fn has_prefix(s: Seq<char>, prefix: Seq<char>) -> bool {
    occurs_at(s, prefix, 0)
}

/// `s` ends with `suffix`.
pub open spec fn has_suffix(s: Seq<char>, suffix: Seq<char>) -> bool {
    occurs_at(s, suffix, s.len() - suffix.len())
}

/// The position of the first occurrence of `needle`.
pub open spec fn first_at(s: Seq<char>, needle: Seq<char>, i: int) -> bool {
    &&& occurs_at(s, needle, i)
    &&& forall|j: int| 0 <= j < i ==> !occurs_at(s, needle, j)
}

/// The position of the last occurrence of `needle`.
pub open spec fn last_at(s: Seq<char>, needle: Seq<char>, i: int) -> bool {
    &&& occurs_at(s, needle, i)
    &&& forall|j: int| i < j ==> !occurs_at(s, needle, j)
}

/// The part of `s` behind the last `sep`, or all of `s` where there is none.
pub open spec fn after_last(s: Seq<char>, sep: Seq<char>) -> Seq<char> {
    if has_text(s, sep) {
        s.skip((choose|i: int| last_at(s, sep, i)) + sep.len())
    } else {
        s
    }
}

/// The part of `s` before the last `sep`, or all of `s` where there is none.
pub open spec fn before_last(s: Seq<char>, sep: Seq<char>) -> Seq<char> {
    if has_text(s, sep) {
        s.take(choose|i: int| last_at(s, sep, i))
    } else {
        s
    }
}

/// `s` without `prefix` in front, where it begins with it.
pub open spec fn without_prefix(s: Seq<char>, prefix: Seq<char>) -> Seq<char> {
    if has_prefix(s, prefix) {
        s.skip(prefix.len() as int)
    } else {
        s
    }
}

/// How many bytes a character takes in UTF-8.
pub open spec fn char_width(c: char) -> nat {
    if (c as u32) < 0x80 {
        1
    } else if (c as u32) < 0x800 {
        2
    } else if (c as u32) < 0x10000 {
        3
    } else {
        4
    }
}

/// What stands behind the first `n` bytes of `s`, where a character begins there or `s`
/// ends there.
pub open spec fn after_bytes(s: Seq<char>, n: nat) -> Option<Seq<char>>
    decreases s.len(),
{
    if n == 0 {
        Some(s)
    } else if s.len() == 0 || char_width(s[0]) > n {
        None
    } else {
        after_bytes(s.drop_first(), (n - char_width(s[0])) as nat)
    }
}

/// The Unicode property `White_Space`.
pub open spec fn white_space(c: char) -> bool {
    ||| '\u{9}' <= c <= '\u{d}'
    ||| c == '\u{20}'
    ||| c == '\u{85}'
    ||| c == '\u{a0}'
    ||| c == '\u{1680}'
    ||| '\u{2000}' <= c <= '\u{200a}'
    ||| c == '\u{2028}'
    ||| c == '\u{2029}'
    ||| c == '\u{202f}'
    ||| c == '\u{205f}'
    ||| c == '\u{3000}'
}

/// Nothing but white space.
pub open spec fn blank(s: Seq<char>) -> bool {
    forall|i: int| 0 <= i < s.len() ==> white_space(#[trigger] s[i])
}

/// `s` without the white space in front.
pub open spec fn trim_front(s: Seq<char>) -> Seq<char>
    decreases s.len(),
{
    if s.len() > 0 && white_space(s.first()) {
        trim_front(s.drop_first())
    } else {
        s
    }
}

/// `s` without the white space at its end.
pub open spec fn trim_back(s: Seq<char>) -> Seq<char>
    decreases s.len(),
{
    if s.len() > 0 && white_space(s.last()) {
        trim_back(s.drop_last())
    } else {
        s
    }
}

/// `s` without white space at either end.
pub open spec fn trimmed(s: Seq<char>) -> Seq<char> {
    trim_back(trim_front(s))
}

/// `s` without any number of copies of `suffix` at its end.
pub open spec fn trim_suffixes(s: Seq<char>, suffix: Seq<char>) -> Seq<char>
    decreases s.len(),
{
    if suffix.len() > 0 && has_suffix(s, suffix) {
        trim_suffixes(s.take(s.len() - suffix.len()), suffix)
    } else {
        s
    }
}

/// The pieces of `s` between the characters `sep`.
pub open spec fn pieces(s: Seq<char>, sep: char) -> Seq<Seq<char>>
    decreases s.len(),
{
    if s.len() == 0 {
        seq![Seq::<char>::empty()]
    } else if s.last() == sep {
        pieces(s.drop_last(), sep).push(Seq::<char>::empty())
    } else {
        let before = pieces(s.drop_last(), sep);
        before.drop_last().push(before.last().push(s.last()))
    }
}

/// `parts` one behind the other with `sep` between them.
pub open spec fn joined(parts: Seq<Seq<char>>, sep: Seq<char>) -> Seq<char>
    decreases parts.len(),
{
    if parts.len() == 0 {
        Seq::empty()
    } else if parts.len() == 1 {
        parts[0]
    } else {
        joined(parts.drop_last(), sep) + sep + parts.last()
    }
}

/// The first line of `s`, without its line ending (`\n` or `\r\n`).
pub open spec fn first_line_of(s: Seq<char>) -> Seq<char> {
    if s.contains('\n') {
        let line = s.take(s.index_of_first('\n')->0);
        if line.len() > 0 && line.last() == '\r' {
            line.drop_last()
        } else {
            line
        }
    } else {
        s
    }
}

/// The digits of `n` in base ten.
pub open spec fn dec(n: nat) -> Seq<char>
    decreases n,
{
    if n < 10 {
        seq![digit(n)]
    } else {
        dec(n / 10).push(digit(n % 10))
    }
}

/// The digits of `n` in base sixteen, lower case.
pub open spec fn hex(n: nat) -> Seq<char>
    decreases n,
{
    if n < 16 {
        seq![digit(n)]
    } else {
        hex(n / 16).push(digit(n % 16))
    }
}

/// `n` in base sixteen, filled up with zeros in front to `width` digits.
pub open spec fn hex_padded(n: nat, width: nat) -> Seq<char> {
    let digits = hex(n);
    if digits.len() < width {
        Seq::new((width - digits.len()) as nat, |i: int| '0') + digits
    } else {
        digits
    }
}

/// The character for a digit below sixteen.
pub open spec fn digit(d: nat) -> char {
    if d < 10 {
        (48 + d) as char
    } else {
        (87 + d) as char
    }
}

pub open spec fn ascii_digit(c: char) -> bool {
    '0' <= c <= '9'
}

pub open spec fn ascii_lower(c: char) -> bool {
    'a' <= c <= 'z'
}

pub open spec fn ascii_upper(c: char) -> bool {
    'A' <= c <= 'Z'
}

pub open spec fn ascii_alphanumeric(c: char) -> bool {
    ascii_digit(c) || ascii_lower(c) || ascii_upper(c)
}

/// `c`, with an ASCII capital made small.
pub open spec fn lower_ascii_char(c: char) -> char {
    if ascii_upper(c) {
        (c as u32 + 32) as char
    } else {
        c
    }
}

/// `s`, with the ASCII capitals made small.
pub open spec fn lower_ascii(s: Seq<char>) -> Seq<char> {
    s.map_values(|c: char| lower_ascii_char(c))
}

/// `s`, with every character outside `[A-Za-z0-9_]` made an underscore.
pub open spec fn identifier_fragment(s: Seq<char>) -> Seq<char> {
    s.map_values(|c: char| if ascii_alphanumeric(c) || c == '_' { c } else { '_' })
}

/// `s`, with every `from` made `to`.
pub open spec fn with_char_replaced(s: Seq<char>, from: char, to: Seq<char>) -> Seq<char>
    decreases s.len(),
{
    if s.len() == 0 {
        Seq::empty()
    } else {
        let front = with_char_replaced(s.drop_last(), from, to);
        if s.last() == from {
            front + to
        } else {
            front.push(s.last())
        }
    }
}

/// The lexicographic order of two texts by their characters' scalar values.
pub open spec fn text_le(a: Seq<char>, b: Seq<char>) -> bool
    decreases a.len(),
{
    if a.len() == 0 {
        true
    } else if b.len() == 0 {
        false
    } else if a.first() != b.first() {
        a.first() < b.first()
    } else {
        text_le(a.drop_first(), b.drop_first())
    }
}

/// What std's default hasher makes of a text: its UTF-8 bytes and the byte that
/// ends a string.
pub open spec fn text_hash(s: Seq<char>) -> u64 {
    DefaultHasher::spec_finish(seq![encode_utf8(s), seq![0xffu8]])
}

// ---------------------------------------------------------------------------
// Characters in and out
// ---------------------------------------------------------------------------

/// An owned copy of an optional string.
pub fn copy_optional(o: &Option<String>) -> (r: Option<String>)
    ensures
        optional(r) == optional(*o),
{
    match o {
        Some(s) => Some(s.clone()),
        None => None,
    }
}

/// An owned copy of an optional borrowed string.
pub fn own_optional(o: Option<&str>) -> (r: Option<String>)
    ensures
        optional(r) == optional_ref(o),
{
    match o {
        Some(s) => Some(s.to_owned()),
        None => None,
    }
}

/// The characters of `s`.
pub fn to_chars(s: &str) -> (r: Vec<char>)
    ensures
        r@ == s@,
{
    let mut out: Vec<char> = Vec::new();
    for c in it: s.chars()
        invariant
            out@ == s@.take(it.index()),
            it.seq() == s@,
    {
        assert(s@.take(it.index() + 1) =~= s@.take(it.index()).push(c));
        out.push(c);
    }
    assert(s@.take(s@.len() as int) =~= s@);
    out
}

/// The string of the characters `v[from..to]`.
pub fn slice_text(v: &Vec<char>, from: usize, to: usize) -> (r: String)
    requires
        from <= to <= v.len(),
    ensures
        r@ == v@.subrange(from as int, to as int),
{
    let mut out = String::new();
    let mut i: usize = from;
    assert(v@.subrange(from as int, from as int) =~= Seq::<char>::empty());
    while i < to
        invariant
            from <= i <= to <= v.len(),
            out@ == v@.subrange(from as int, i as int),
        decreases to - i,
    {
        assert(v@.subrange(from as int, i + 1) =~= v@.subrange(from as int, i as int).push(
            v@[i as int],
        ));
        out.push(v[i]);
        i += 1;
    }
    out
}

/// Whether two texts are the same.
pub fn same(a: &str, b: &str) -> (r: bool)
    ensures
        r == (a@ == b@),
{
    a.eq(b)
}

/// Whether `needle` stands in `s` at position `i`.
fn matches_at(s: &Vec<char>, needle: &Vec<char>, i: usize) -> (r: bool)
    ensures
        r == occurs_at(s@, needle@, i as int),
{
    if needle.len() > s.len() || i > s.len() - needle.len() {
        return false;
    }
    let mut k: usize = 0;
    while k < needle.len()
        invariant
            k <= needle.len(),
            i + needle.len() <= s.len(),
            forall|j: int| 0 <= j < k ==> s@[i + j] == #[trigger] needle@[j],
        decreases needle.len() - k,
    {
        if s[i + k] != needle[k] {
            assert(s@.subrange(i as int, i + needle@.len())[k as int] == s@[i + k]);
            return false;
        }
        k += 1;
    }
    assert(s@.subrange(i as int, i + needle@.len()) =~= needle@);
    true
}

/// The position of the first occurrence of `needle` in `s`.
pub fn find_first(s: &Vec<char>, needle: &Vec<char>) -> (r: Option<usize>)
    ensures
        match r {
            Some(i) => first_at(s@, needle@, i as int),
            None => !has_text(s@, needle@),
        },
{
    if needle.len() > s.len() {
        return None;
    }
    let last: usize = s.len() - needle.len();
    let mut i: usize = 0;
    while i <= last
        invariant
            needle.len() <= s.len(),
            last == s.len() - needle.len(),
            i <= last + 1,
            forall|j: int| 0 <= j < i ==> !occurs_at(s@, needle@, j),
        decreases last + 1 - i,
    {
        if matches_at(s, needle, i) {
            return Some(i);
        }
        if i == last {
            return None;
        }
        i += 1;
    }
    None
}

/// The position of the last occurrence of `needle` in `s`.
pub fn find_last(s: &Vec<char>, needle: &Vec<char>) -> (r: Option<usize>)
    ensures
        match r {
            Some(i) => last_at(s@, needle@, i as int),
            None => !has_text(s@, needle@),
        },
{
    if needle.len() > s.len() {
        return None;
    }
    let mut i: usize = s.len() - needle.len();
    loop
        invariant
            needle.len() <= s.len(),
            i <= s.len() - needle.len(),
            forall|j: int| i < j ==> !occurs_at(s@, needle@, j),
        decreases i,
    {
        if matches_at(s, needle, i) {
            return Some(i);
        }
        if i == 0 {
            return None;
        }
        i -= 1;
    }
}

/// Whether `needle` stands somewhere in `s`.
pub fn contains(s: &str, needle: &str) -> (r: bool)
    ensures
        r == has_text(s@, needle@),
{
    find_first(&to_chars(s), &to_chars(needle)).is_some()
}

/// Whether one of `needles` stands in `s`.
pub fn contains_any(s: &str, needles: &[&str]) -> (r: bool)
    ensures
        r == exists|i: int| 0 <= i < needles@.len() && has_text(s@, #[trigger] needles@[i]@),
{
    let mut i: usize = 0;
    while i < needles.len()
        invariant
            i <= needles.len(),
            forall|j: int| 0 <= j < i ==> !has_text(s@, #[trigger] needles@[j]@),
        decreases needles.len() - i,
    {
        if contains(s, needles[i]) {
            return true;
        }
        i += 1;
    }
    false
}

/// Whether `s` begins with `prefix`.
pub fn starts_with(s: &str, prefix: &str) -> (r: bool)
    ensures
        r == has_prefix(s@, prefix@),
{
    matches_at(&to_chars(s), &to_chars(prefix), 0)
}

/// Whether `s` ends with `suffix`.
pub fn ends_with(s: &str, suffix: &str) -> (r: bool)
    ensures
        r == has_suffix(s@, suffix@),
{
    let s = to_chars(s);
    let suffix = to_chars(suffix);
    if suffix.len() > s.len() {
        return false;
    }
    matches_at(&s, &suffix, s.len() - suffix.len())
}

/// The part of `s` behind the last `sep`, or all of `s` where there is none.
pub fn text_after_last(s: &str, sep: &str) -> (r: String)
    ensures
        r@ == after_last(s@, sep@),
{
    let chars = to_chars(s);
    let sep = to_chars(sep);
    match find_last(&chars, &sep) {
        Some(i) => {
            assert(has_text(chars@, sep@));
            assert((choose|j: int| last_at(chars@, sep@, j)) == i);
            assert(i + sep.len() <= chars.len());
            assert(chars@.skip(i + sep@.len()) =~= chars@.subrange(
                i + sep@.len(),
                chars@.len() as int,
            ));
            slice_text(&chars, i + sep.len(), chars.len())
        },
        None => s.to_owned(),
    }
}

/// The part of `s` before the last `sep`, or all of `s` where there is none.
pub fn text_before_last(s: &str, sep: &str) -> (r: String)
    ensures
        r@ == before_last(s@, sep@),
{
    let chars = to_chars(s);
    let sep = to_chars(sep);
    match find_last(&chars, &sep) {
        Some(i) => {
            assert(has_text(chars@, sep@));
            assert((choose|j: int| last_at(chars@, sep@, j)) == i);
            assert(chars@.take(i as int) =~= chars@.subrange(0, i as int));
            slice_text(&chars, 0, i)
        },
        None => s.to_owned(),
    }
}

/// `s` without `prefix` in front; `None` where it does not begin with it.
pub fn strip_prefix(s: &str, prefix: &str) -> (r: Option<String>)
    ensures
        match r {
            Some(rest) => has_prefix(s@, prefix@) && rest@ == s@.skip(prefix@.len() as int),
            None => !has_prefix(s@, prefix@),
        },
{
    let chars = to_chars(s);
    let prefix = to_chars(prefix);
    if matches_at(&chars, &prefix, 0) {
        assert(chars@.skip(prefix@.len() as int) =~= chars@.subrange(
            prefix@.len() as int,
            chars@.len() as int,
        ));
        Some(slice_text(&chars, prefix.len(), chars.len()))
    } else {
        None
    }
}

/// `s` without `suffix` at its end; `None` where it does not end with it.
pub fn strip_suffix(s: &str, suffix: &str) -> (r: Option<String>)
    ensures
        match r {
            Some(rest) => has_suffix(s@, suffix@) && rest@ == s@.take(s@.len() - suffix@.len()),
            None => !has_suffix(s@, suffix@),
        },
{
    let chars = to_chars(s);
    let suffix = to_chars(suffix);
    if suffix.len() > chars.len() {
        return None;
    }
    let at: usize = chars.len() - suffix.len();
    if matches_at(&chars, &suffix, at) {
        assert(chars@.take(at as int) =~= chars@.subrange(0, at as int));
        Some(slice_text(&chars, 0, at))
    } else {
        None
    }
}

/// What stands behind the first `n` bytes of `s`; `None` where it has fewer, or where
/// no character begins there.
pub fn skip_bytes(s: &str, n: usize) -> (r: Option<String>)
    ensures
        optional(r) == after_bytes(s@, n as nat),
{
    let chars = to_chars(s);
    let mut left: usize = n;
    let mut i: usize = 0;
    assert(chars@.skip(0) =~= chars@);
    while i < chars.len() && left > 0
        invariant
            i <= chars@.len(),
            chars@ == s@,
            after_bytes(s@, n as nat) == after_bytes(chars@.skip(i as int), left as nat),
        decreases chars@.len() - i,
    {
        let width: usize = if (chars[i] as u32) < 0x80 {
            1
        } else if (chars[i] as u32) < 0x800 {
            2
        } else if (chars[i] as u32) < 0x10000 {
            3
        } else {
            4
        };
        assert(chars@.skip(i as int).drop_first() =~= chars@.skip(i + 1));
        if width > left {
            return None;
        }
        left -= width;
        i += 1;
    }
    if left > 0 {
        return None;
    }
    assert(chars@.skip(i as int) =~= chars@.subrange(i as int, chars@.len() as int));
    Some(slice_text(&chars, i, chars.len()))
}

/// `s` without `prefix` in front, where it begins with it.
pub fn drop_prefix(s: &str, prefix: &str) -> (r: String)
    ensures
        r@ == without_prefix(s@, prefix@),
{
    match strip_prefix(s, prefix) {
        Some(rest) => rest,
        None => s.to_owned(),
    }
}

// ---------------------------------------------------------------------------
// White space and lines
// ---------------------------------------------------------------------------

/// Whether `c` has the Unicode property `White_Space`.
pub fn is_white_space(c: char) -> (r: bool)
    ensures
        r == white_space(c),
{
    ('\u{9}' <= c && c <= '\u{d}') || c == '\u{20}' || c == '\u{85}' || c == '\u{a0}' || c
        == '\u{1680}' || ('\u{2000}' <= c && c <= '\u{200a}') || c == '\u{2028}' || c == '\u{2029}'
        || c == '\u{202f}' || c == '\u{205f}' || c == '\u{3000}'
}

proof fn lemma_trim_front_step(s: Seq<char>, i: int)
    requires
        0 <= i < s.len(),
    ensures
        white_space(s[i]) ==> trim_front(s.skip(i)) == trim_front(s.skip(i + 1)),
        !white_space(s[i]) ==> trim_front(s.skip(i)) == s.skip(i),
{
    assert(s.skip(i).drop_first() =~= s.skip(i + 1));
}

/// `s` without white space at either end.
pub fn trim(s: &str) -> (r: String)
    ensures
        r@ == trimmed(s@),
{
    let chars = to_chars(s);
    let mut from: usize = 0;
    assert(chars@.skip(0) =~= chars@);
    while from < chars.len() && is_white_space(chars[from])
        invariant
            from <= chars.len(),
            trim_front(chars@) == trim_front(chars@.skip(from as int)),
        decreases chars.len() - from,
    {
        proof {
            lemma_trim_front_step(chars@, from as int);
        }
        from += 1;
    }
    proof {
        if from < chars.len() {
            lemma_trim_front_step(chars@, from as int);
        }
    }
    let ghost front = chars@.skip(from as int);
    assert(trim_front(chars@) == front);
    let mut to: usize = chars.len();
    assert(chars@.subrange(from as int, to as int) =~= front);
    while to > from && is_white_space(chars[to - 1])
        invariant
            from <= to <= chars.len(),
            trim_back(front) == trim_back(chars@.subrange(from as int, to as int)),
        decreases to,
    {
        proof {
            let part = chars@.subrange(from as int, to as int);
            assert(part.last() == chars@[to - 1]);
            assert(part.drop_last() =~= chars@.subrange(from as int, to - 1));
        }
        to -= 1;
    }
    proof {
        let part = chars@.subrange(from as int, to as int);
        if to > from {
            assert(part.last() == chars@[to - 1]);
        }
    }
    slice_text(&chars, from, to)
}

proof fn lemma_trim_front_blank(s: Seq<char>)
    ensures
        blank(s) <==> trim_front(s).len() == 0,
        blank(s) <==> blank(trim_front(s)),
    decreases s.len(),
{
    if s.len() > 0 && white_space(s.first()) {
        lemma_trim_front_blank(s.drop_first());
        if blank(s.drop_first()) {
            assert forall|i: int| 0 <= i < s.len() implies white_space(#[trigger] s[i]) by {
                if i > 0 {
                    assert(s[i] == s.drop_first()[i - 1]);
                }
            }
        }
        if blank(s) {
            assert forall|i: int| 0 <= i < s.drop_first().len() implies white_space(
                #[trigger] s.drop_first()[i],
            ) by {
                assert(s.drop_first()[i] == s[i + 1]);
            }
        }
    } else if s.len() > 0 {
        assert(!white_space(s[0]));
    }
}

proof fn lemma_trim_back_blank(s: Seq<char>)
    ensures
        blank(s) <==> trim_back(s).len() == 0,
    decreases s.len(),
{
    if s.len() > 0 && white_space(s.last()) {
        lemma_trim_back_blank(s.drop_last());
        if blank(s.drop_last()) {
            assert forall|i: int| 0 <= i < s.len() implies white_space(#[trigger] s[i]) by {
                if i < s.len() - 1 {
                    assert(s[i] == s.drop_last()[i]);
                }
            }
        }
        if blank(s) {
            assert forall|i: int| 0 <= i < s.drop_last().len() implies white_space(
                #[trigger] s.drop_last()[i],
            ) by {
                assert(s.drop_last()[i] == s[i]);
            }
        }
    } else if s.len() > 0 {
        assert(!white_space(s[s.len() - 1]));
    }
}

/// A text is blank exactly where nothing is left of it after trimming.
pub proof fn law_a_blank_text_is_trimmed_away(s: Seq<char>)
    ensures
        blank(s) <==> trimmed(s).len() == 0,
{
    lemma_trim_front_blank(s);
    lemma_trim_back_blank(trim_front(s));
}

/// Whether `s` holds nothing but white space.
pub fn is_blank(s: &str) -> (r: bool)
    ensures
        r == blank(s@),
{
    let chars = to_chars(s);
    let mut i: usize = 0;
    while i < chars.len()
        invariant
            i <= chars.len(),
            chars@ == s@,
            forall|j: int| 0 <= j < i ==> white_space(#[trigger] chars@[j]),
        decreases chars.len() - i,
    {
        if !is_white_space(chars[i]) {
            return false;
        }
        i += 1;
    }
    true
}

/// The first line of `s`, without its line ending.
pub fn first_line(s: &str) -> (r: String)
    ensures
        r@ == first_line_of(s@),
{
    let chars = to_chars(s);
    let mut i: usize = 0;
    while i < chars.len()
        invariant
            i <= chars.len(),
            chars@ == s@,
            forall|j: int| 0 <= j < i ==> chars@[j] != '\n',
        decreases chars.len() - i,
    {
        if chars[i] == '\n' {
            assert(chars@.contains('\n'));
            assert(chars@.index_of_first('\n') == Some(i as int)) by {
                chars@.index_of_first_ensures('\n');
            }
            let ghost line = chars@.take(i as int);
            assert(line =~= chars@.subrange(0, i as int));
            if i > 0 && chars[i - 1] == '\r' {
                assert(line.drop_last() =~= chars@.subrange(0, i - 1));
                return slice_text(&chars, 0, i - 1);
            }
            return slice_text(&chars, 0, i);
        }
        i += 1;
    }
    assert(!chars@.contains('\n'));
    s.to_owned()
}

// ---------------------------------------------------------------------------
// Splitting and joining
// ---------------------------------------------------------------------------

proof fn lemma_pieces_nonempty(s: Seq<char>, sep: char)
    ensures
        pieces(s, sep).len() > 0,
    decreases s.len(),
{
    if s.len() > 0 {
        lemma_pieces_nonempty(s.drop_last(), sep);
    }
}

/// The pieces of `s` between the characters `sep`.
pub fn split(s: &str, sep: char) -> (r: Vec<String>)
    ensures
        texts(r@) == pieces(s@, sep),
        r@.len() > 0,
{
    let chars = to_chars(s);
    let mut out: Vec<String> = Vec::new();
    let mut from: usize = 0;
    let mut i: usize = 0;
    assert(chars@.take(0) =~= Seq::<char>::empty());
    assert(texts(out@).push(chars@.subrange(0, 0)) =~= pieces(chars@.take(0), sep));
    while i < chars.len()
        invariant
            from <= i <= chars.len(),
            texts(out@).push(chars@.subrange(from as int, i as int)) == pieces(
                chars@.take(i as int),
                sep,
            ),
        decreases chars.len() - i,
    {
        proof {
            assert(chars@.take(i + 1).drop_last() =~= chars@.take(i as int));
            assert(chars@.take(i + 1).last() == chars@[i as int]);
        }
        if chars[i] == sep {
            let piece = slice_text(&chars, from, i);
            let ghost before = texts(out@);
            out.push(piece);
            proof {
                assert(texts(out@) =~= before.push(chars@.subrange(from as int, i as int)));
                assert(chars@.subrange(i + 1, i + 1) =~= Seq::<char>::empty());
            }
            from = i + 1;
        } else {
            proof {
                let whole = texts(out@).push(chars@.subrange(from as int, i as int));
                assert(whole.drop_last() =~= texts(out@));
                assert(chars@.subrange(from as int, i + 1) =~= chars@.subrange(
                    from as int,
                    i as int,
                ).push(chars@[i as int]));
            }
        }
        i += 1;
    }
    assert(chars@.take(i as int) =~= chars@);
    let piece = slice_text(&chars, from, chars.len());
    let ghost before = texts(out@);
    out.push(piece);
    assert(texts(out@) =~= before.push(chars@.subrange(from as int, i as int)));
    out
}

/// `parts` one behind the other with `sep` between them.
pub fn join(parts: &Vec<String>, sep: &str) -> (r: String)
    ensures
        r@ == joined(texts(parts@), sep@),
{
    let mut out = String::new();
    let mut i: usize = 0;
    let ghost all = texts(parts@);
    assert(all.take(0) =~= Seq::<Seq<char>>::empty());
    while i < parts.len()
        invariant
            i <= parts.len(),
            all == texts(parts@),
            out@ == joined(all.take(i as int), sep@),
        decreases parts.len() - i,
    {
        proof {
            assert(all.take(i + 1).drop_last() =~= all.take(i as int));
            assert(all.take(i + 1).last() == parts@[i as int]@);
        }
        if i > 0 {
            out.append(sep);
            out.append(parts[i].as_str());
        } else {
            out = parts[i].clone();
        }
        i += 1;
    }
    assert(all.take(i as int) =~= all);
    out
}

/// The pieces of a text, put together again, are the text.
pub proof fn law_pieces_join_to_the_text(s: Seq<char>, sep: char)
    ensures
        joined(pieces(s, sep), seq![sep]) == s,
        pieces(s, sep).len() > 0,
    decreases s.len(),
{
    if s.len() == 0 {
        assert(joined(pieces(s, sep), seq![sep]) =~= s);
    } else {
        let before = pieces(s.drop_last(), sep);
        let all = pieces(s, sep);
        law_pieces_join_to_the_text(s.drop_last(), sep);
        if s.last() == sep {
            assert(all.drop_last() =~= before);
            assert(joined(all, seq![sep]) =~= s);
        } else {
            assert(all.drop_last() =~= before.drop_last());
            assert(all.last() == before.last().push(s.last()));
            if before.len() == 1 {
                assert(joined(before, seq![sep]) == before[0]);
                assert(joined(all, seq![sep]) == all[0]);
                assert(all[0] =~= s);
            } else {
                assert(joined(before, seq![sep]) == joined(before.drop_last(), seq![sep]) + seq![sep]
                    + before.last());
                assert(joined(all, seq![sep]) == joined(all.drop_last(), seq![sep]) + seq![sep]
                    + all.last());
                assert(joined(all, seq![sep]) =~= s.drop_last().push(s.last()));
            }
        }
    }
}

/// No piece of a text holds the character at which it was cut.
pub proof fn lemma_pieces_hold_no_separator(s: Seq<char>, sep: char, i: int)
    requires
        0 <= i < pieces(s, sep).len(),
    ensures
        !pieces(s, sep)[i].contains(sep),
    decreases s.len(),
{
    if s.len() > 0 {
        let before = pieces(s.drop_last(), sep);
        lemma_pieces_nonempty(s.drop_last(), sep);
        if s.last() == sep {
            if i < before.len() {
                lemma_pieces_hold_no_separator(s.drop_last(), sep, i);
            }
        } else {
            lemma_pieces_hold_no_separator(s.drop_last(), sep, if i < before.len() { i } else { before.len() - 1 });
            if i == before.len() - 1 {
                let piece = before.last().push(s.last());
                assert forall|k: int| 0 <= k < piece.len() implies piece[k] != sep by {
                    if k < before.last().len() {
                        assert(before.last()[k] == piece[k]);
                        assert(before.last().contains(before.last()[k]));
                    }
                }
            }
        }
    }
}

proof fn lemma_pieces_of_sum(a: Seq<char>, b: Seq<char>, sep: char)
    requires
        !b.contains(sep),
    ensures
        pieces(a.push(sep) + b, sep) == pieces(a, sep).push(b),
    decreases b.len(),
{
    let whole = a.push(sep) + b;
    if b.len() == 0 {
        assert(whole =~= a.push(sep));
        assert(whole.drop_last() =~= a);
        assert(b =~= Seq::<char>::empty());
    } else {
        assert(whole.drop_last() =~= a.push(sep) + b.drop_last());
        assert(whole.last() == b.last());
        assert(b.contains(b.last()));
        assert forall|k: int| 0 <= k < b.drop_last().len() implies b.drop_last()[k] != sep by {
            assert(b.contains(b[k]));
        }
        lemma_pieces_of_sum(a, b.drop_last(), sep);
        assert(b.drop_last().push(b.last()) =~= b);
        assert(pieces(whole, sep) =~= pieces(a, sep).push(b));
    }
}

proof fn lemma_pieces_of_one(b: Seq<char>, sep: char)
    requires
        !b.contains(sep),
    ensures
        pieces(b, sep) == seq![b],
    decreases b.len(),
{
    if b.len() == 0 {
        assert(b =~= Seq::<char>::empty());
    } else {
        assert(b.contains(b.last()));
        assert forall|k: int| 0 <= k < b.drop_last().len() implies b.drop_last()[k] != sep by {
            assert(b.contains(b[k]));
        }
        lemma_pieces_of_one(b.drop_last(), sep);
        assert(b.drop_last().push(b.last()) =~= b);
        assert(pieces(b, sep) =~= seq![b]);
    }
}

/// Parts that do not hold the separator are found again in what they were put
/// together to.
pub proof fn law_joined_parts_are_its_pieces(parts: Seq<Seq<char>>, sep: char)
    requires
        parts.len() > 0,
        forall|i: int| 0 <= i < parts.len() ==> !(#[trigger] parts[i]).contains(sep),
    ensures
        pieces(joined(parts, seq![sep]), sep) == parts,
    decreases parts.len(),
{
    if parts.len() == 1 {
        lemma_pieces_of_one(parts[0], sep);
        assert(parts =~= seq![parts[0]]);
    } else {
        let front = parts.drop_last();
        assert forall|i: int| 0 <= i < front.len() implies !(#[trigger] front[i]).contains(
            sep,
        ) by {
            assert(front[i] == parts[i]);
        }
        law_joined_parts_are_its_pieces(front, sep);
        let a = joined(front, seq![sep]);
        assert(!parts[parts.len() - 1].contains(sep));
        lemma_pieces_of_sum(a, parts.last(), sep);
        assert(a + seq![sep] + parts.last() =~= a.push(sep) + parts.last());
        assert(front.push(parts.last()) =~= parts);
    }
}

/// `s` without white space in front.
pub fn trim_start(s: &str) -> (r: String)
    ensures
        r@ == trim_front(s@),
{
    let chars = to_chars(s);
    let mut from: usize = 0;
    assert(chars@.skip(0) =~= chars@);
    while from < chars.len() && is_white_space(chars[from])
        invariant
            from <= chars.len(),
            trim_front(chars@) == trim_front(chars@.skip(from as int)),
        decreases chars.len() - from,
    {
        proof {
            lemma_trim_front_step(chars@, from as int);
        }
        from += 1;
    }
    proof {
        if from < chars.len() {
            lemma_trim_front_step(chars@, from as int);
        }
        assert(chars@.subrange(from as int, chars@.len() as int) =~= chars@.skip(from as int));
    }
    slice_text(&chars, from, chars.len())
}

/// `s`, with every `from` made `to`.
pub fn replace_char(s: &str, from: char, to: &str) -> (r: String)
    ensures
        r@ == with_char_replaced(s@, from, to@),
{
    let chars = to_chars(s);
    let mut out = String::new();
    let mut i: usize = 0;
    assert(chars@.take(0) =~= Seq::<char>::empty());
    while i < chars.len()
        invariant
            i <= chars.len(),
            out@ == with_char_replaced(chars@.take(i as int), from, to@),
        decreases chars.len() - i,
    {
        proof {
            assert(chars@.take(i + 1).drop_last() =~= chars@.take(i as int));
            assert(chars@.take(i + 1).last() == chars@[i as int]);
        }
        if chars[i] == from {
            out.append(to);
        } else {
            out.push(chars[i]);
        }
        i += 1;
    }
    assert(chars@.take(i as int) =~= chars@);
    out
}

/// `s` without any number of copies of `suffix` at its end.
pub fn trim_end_matches(s: &str, suffix: &str) -> (r: String)
    ensures
        r@ == trim_suffixes(s@, suffix@),
{
    let mut rest = s.to_owned();
    if suffix.is_empty() {
        return rest;
    }
    loop
        invariant
            suffix@.len() > 0,
            trim_suffixes(s@, suffix@) == trim_suffixes(rest@, suffix@),
        decreases rest@.len(),
    {
        match strip_suffix(rest.as_str(), suffix) {
            Some(shorter) => {
                rest = shorter;
            },
            None => {
                return rest;
            },
        }
    }
}

// ---------------------------------------------------------------------------
// Numbers
// ---------------------------------------------------------------------------

/// The character for a digit below sixteen.
fn digit_char(d: u64) -> (c: char)
    requires
        d < 16,
    ensures
        c == digit(d as nat),
{
    if d < 10 {
        (48 + d as u8) as char
    } else {
        (87 + d as u8) as char
    }
}

/// The digits of `n` in base ten.
pub fn decimal(n: u64) -> (r: String)
    ensures
        r@ == dec(n as nat),
    decreases n,
{
    if n < 10 {
        let mut out = String::new();
        out.push(digit_char(n));
        assert(out@ =~= seq![digit(n as nat)]);
        out
    } else {
        let mut out = decimal(n / 10);
        out.push(digit_char(n % 10));
        out
    }
}

/// The digits of a count in base ten.
pub fn count_text(n: usize) -> (r: String)
    ensures
        r@ == dec(n as nat),
{
    decimal(n as u64)
}

/// The digits of `n` in base sixteen, lower case.
pub fn hexadecimal(n: u64) -> (r: String)
    ensures
        r@ == hex(n as nat),
    decreases n,
{
    if n < 16 {
        let mut out = String::new();
        out.push(digit_char(n));
        assert(out@ =~= seq![digit(n as nat)]);
        out
    } else {
        let mut out = hexadecimal(n / 16);
        out.push(digit_char(n % 16));
        out
    }
}

/// `n` in base sixteen, filled up with zeros in front to `width` digits.
pub fn hexadecimal_padded(n: u64, width: usize) -> (r: String)
    ensures
        r@ == hex_padded(n as nat, width as nat),
{
    let digits = hexadecimal(n);
    let len: usize = digits.as_str().unicode_len();
    if len >= width {
        return digits;
    }
    let mut out = String::new();
    let mut i: usize = 0;
    while i < width - len
        invariant
            i <= width - len,
            len < width,
            out@ == Seq::new(i as nat, |j: int| '0'),
        decreases width - len - i,
    {
        out.push('0');
        assert(out@ =~= Seq::new((i + 1) as nat, |j: int| '0'));
        i += 1;
    }
    out.append(digits.as_str());
    out
}

// ---------------------------------------------------------------------------
// Letters
// ---------------------------------------------------------------------------

/// Whether `c` is an ASCII letter or digit.
pub fn is_ascii_alphanumeric(c: char) -> (r: bool)
    ensures
        r == ascii_alphanumeric(c),
{
    ('0' <= c && c <= '9') || ('a' <= c && c <= 'z') || ('A' <= c && c <= 'Z')
}

fn lower_char(c: char) -> (r: char)
    ensures
        r == lower_ascii_char(c),
{
    if 'A' <= c && c <= 'Z' {
        (c as u8 + 32) as char
    } else {
        c
    }
}

/// `s`, with the ASCII capitals made small.
pub fn to_ascii_lower(s: &str) -> (r: String)
    ensures
        r@ == lower_ascii(s@),
{
    let chars = to_chars(s);
    let mut out = String::new();
    let mut i: usize = 0;
    while i < chars.len()
        invariant
            i <= chars.len(),
            out@ == lower_ascii(chars@.take(i as int)),
        decreases chars.len() - i,
    {
        out.push(lower_char(chars[i]));
        assert(out@ =~= lower_ascii(chars@.take(i + 1)));
        i += 1;
    }
    assert(chars@.take(i as int) =~= chars@);
    out
}

/// `s`, with every character outside `[A-Za-z0-9_]` made an underscore.
pub fn sanitize_fragment(s: &str) -> (r: String)
    ensures
        r@ == identifier_fragment(s@),
{
    let chars = to_chars(s);
    let mut out = String::new();
    let mut i: usize = 0;
    while i < chars.len()
        invariant
            i <= chars.len(),
            out@ == identifier_fragment(chars@.take(i as int)),
        decreases chars.len() - i,
    {
        let c = chars[i];
        out.push(if is_ascii_alphanumeric(c) || c == '_' { c } else { '_' });
        assert(out@ =~= identifier_fragment(chars@.take(i + 1)));
        i += 1;
    }
    assert(chars@.take(i as int) =~= chars@);
    out
}

// ---------------------------------------------------------------------------
// Order and hash
// ---------------------------------------------------------------------------

proof fn lemma_text_le_skip(a: Seq<char>, b: Seq<char>, i: int)
    requires
        0 <= i < a.len(),
        i < b.len(),
    ensures
        a[i] == b[i] ==> text_le(a.skip(i), b.skip(i)) == text_le(a.skip(i + 1), b.skip(i + 1)),
        a[i] != b[i] ==> text_le(a.skip(i), b.skip(i)) == (a[i] < b[i]),
{
    assert(a.skip(i).drop_first() =~= a.skip(i + 1));
    assert(b.skip(i).drop_first() =~= b.skip(i + 1));
}

/// Whether `a` stands before `b` in the lexicographic order, or is `b`.
pub fn text_at_most(a: &str, b: &str) -> (r: bool)
    ensures
        r == text_le(a@, b@),
{
    let x = to_chars(a);
    let y = to_chars(b);
    let mut i: usize = 0;
    assert(x@.skip(0) =~= x@);
    assert(y@.skip(0) =~= y@);
    while i < x.len() && i < y.len()
        invariant
            i <= x.len(),
            i <= y.len(),
            x@ == a@,
            y@ == b@,
            text_le(a@, b@) == text_le(x@.skip(i as int), y@.skip(i as int)),
        decreases x.len() - i,
    {
        proof {
            lemma_text_le_skip(x@, y@, i as int);
        }
        if x[i] != y[i] {
            return x[i] < y[i];
        }
        i += 1;
    }
    i == x.len()
}

/// The order of texts is reflexive.
pub proof fn lemma_text_le_reflexive(a: Seq<char>)
    ensures
        text_le(a, a),
    decreases a.len(),
{
    if a.len() > 0 {
        lemma_text_le_reflexive(a.drop_first());
    }
}

/// The order of texts is total.
pub proof fn lemma_text_le_total(a: Seq<char>, b: Seq<char>)
    ensures
        text_le(a, b) || text_le(b, a),
    decreases a.len(),
{
    if a.len() > 0 && b.len() > 0 && a.first() == b.first() {
        lemma_text_le_total(a.drop_first(), b.drop_first());
    }
}

/// The order of texts is antisymmetric.
pub proof fn lemma_text_le_antisymmetric(a: Seq<char>, b: Seq<char>)
    requires
        text_le(a, b),
        text_le(b, a),
    ensures
        a == b,
    decreases a.len(),
{
    if a.len() > 0 && b.len() > 0 {
        lemma_text_le_antisymmetric(a.drop_first(), b.drop_first());
        assert(a =~= seq![a.first()] + a.drop_first());
        assert(b =~= seq![b.first()] + b.drop_first());
    } else {
        assert(a =~= b);
    }
}

/// The order of texts is transitive.
pub proof fn lemma_text_le_transitive(a: Seq<char>, b: Seq<char>, c: Seq<char>)
    requires
        text_le(a, b),
        text_le(b, c),
    ensures
        text_le(a, c),
    decreases a.len(),
{
    if a.len() > 0 && b.len() > 0 && c.len() > 0 && a.first() == b.first() && b.first()
        == c.first() {
        lemma_text_le_transitive(a.drop_first(), b.drop_first(), c.drop_first());
    }
}

/// A text's hash: the same text has the same hash in every run.
pub fn stable_hash(s: &str) -> (r: u64)
    ensures
        r == text_hash(s@),
{
    let mut hasher = DefaultHasher::new();
    hasher.write(s.as_bytes());
    let end: [u8; 1] = [0xff];
    hasher.write(&end);
    assert(end@ =~= seq![0xffu8]);
    assert(hasher@ =~= seq![encode_utf8(s@), seq![0xffu8]]);
    hasher.finish()
}

/// `s` with `t` at its end where `b` holds.
pub open spec fn with_text_if(s: Seq<Seq<char>>, b: bool, t: Seq<char>) -> Seq<Seq<char>> {
    if b {
        s.push(t)
    } else {
        s
    }
}

/// Puts `t` at the end of a list where `b` holds.
pub fn push_text_if(list: &mut Vec<String>, b: bool, t: &str)
    ensures
        texts(final(list)@) == with_text_if(texts(old(list)@), b, t@),
{
    let ghost before = list@;
    if b {
        list.push(t.to_owned());
        assert(texts(list@) =~= texts(before).push(t@));
    }
}

/// The first of two texts where `b` holds, else the second.
pub fn either<'a>(b: bool, yes: &'a str, no: &'a str) -> (r: &'a str)
    ensures
        r@ == (if b {
            yes@
        } else {
            no@
        }),
{
    if b {
        yes
    } else {
        no
    }
}

/// No texts.
pub open spec fn no_texts() -> Seq<Seq<char>> {
    Seq::empty()
}

/// An empty list of texts.
pub fn empty_list() -> (r: Vec<String>)
    ensures
        texts(r@) == no_texts(),
{
    let r: Vec<String> = Vec::new();
    assert(texts(r@) =~= no_texts());
    r
}

/// The list with one more text behind it.
pub fn and_text(list: Vec<String>, t: String) -> (r: Vec<String>)
    ensures
        texts(r@) == texts(list@).push(t@),
{
    let mut out = list;
    let ghost before = out@;
    out.push(t);
    assert(texts(out@) =~= texts(before).push(t@));
    out
}

/// Each text between two others.
pub open spec fn wrapped(items: Seq<Seq<char>>, pre: Seq<char>, post: Seq<char>) -> Seq<Seq<char>> {
    items.map_values(|x: Seq<char>| pre + x + post)
}

/// Each text between two others.
pub fn wrap_each(items: &Vec<String>, pre: &str, post: &str) -> (r: Vec<String>)
    ensures
        texts(r@) == wrapped(texts(items@), pre@, post@),
{
    let mut out: Vec<String> = Vec::new();
    let mut i: usize = 0;
    while i < items.len()
        invariant
            i <= items.len(),
            out@.len() == i,
            forall|k: int| 0 <= k < i ==> (#[trigger] out@[k])@ == pre@ + items@[k]@ + post@,
        decreases items.len() - i,
    {
        let mut t = pre.to_owned();
        t.append(items[i].as_str());
        t.append(post);
        out.push(t);
        i += 1;
    }
    assert(texts(out@) =~= wrapped(texts(items@), pre@, post@));
    out
}

/// The texts in backquotes, separated by commas.
pub open spec fn quoted(items: Seq<Seq<char>>) -> Seq<char> {
    joined(wrapped(items, "`"@, "`"@), ", "@)
}

/// The texts in backquotes, separated by commas.
pub fn quoted_list(items: &Vec<String>) -> (r: String)
    ensures
        r@ == quoted(texts(items@)),
{
    let marked = wrap_each(items, "`", "`");
    join(&marked, ", ")
}

/// The first texts of a list, at most `n`.
pub open spec fn head_of(items: Seq<Seq<char>>, n: int) -> Seq<Seq<char>> {
    if items.len() <= n {
        items
    } else {
        items.take(n)
    }
}

/// The first texts of a list, at most `n`.
pub fn take_head(items: &Vec<String>, n: usize) -> (r: Vec<String>)
    ensures
        texts(r@) == head_of(texts(items@), n as int),
{
    let mut out = copy_texts(items);
    let ghost all = texts(out@);
    assert(all.len() == out@.len());
    out.truncate(n);
    assert(texts(out@) =~= head_of(all, n as int));
    out
}

/// How many bytes a text takes.
pub fn byte_len(s: &str) -> (r: usize)
    ensures
        r == encode_utf8(s@).len(),
{
    s.as_bytes().len()
}

/// The part of `s` behind the first `sep`, where there is one.
pub open spec fn after_first(s: Seq<char>, sep: Seq<char>) -> Option<Seq<char>> {
    if has_text(s, sep) {
        Some(s.skip((choose|i: int| first_at(s, sep, i)) + sep.len()))
    } else {
        None
    }
}

/// The part of a text behind the first `sep`, where there is one.
pub fn text_after_first(s: &str, sep: &str) -> (r: Option<String>)
    ensures
        optional(r) == after_first(s@, sep@),
{
    let chars = to_chars(s);
    let needle = to_chars(sep);
    match find_first(&chars, &needle) {
        Some(i) => {
            let width: usize = needle.len();
            let len: usize = chars.len();
            assert(occurs_at(chars@, needle@, i as int));
            proof {
                assert(first_at(s@, sep@, i as int));
                let k = choose|k: int| first_at(s@, sep@, k);
                assert(k == i) by {
                    if k < i {
                        assert(occurs_at(s@, sep@, k));
                    } else if i < k {
                        assert(occurs_at(s@, sep@, i as int));
                    }
                }
            }
            let from: usize = i + width;
            let rest = slice_text(&chars, from, len);
            assert(rest@ =~= s@.skip(i + sep@.len()));
            Some(rest)
        },
        None => None,
    }
}

/// A number of 128 bits in decimal digits.
pub fn wide_decimal(n: u128) -> (r: String)
    ensures
        r@ == dec(n as nat),
    decreases n,
{
    let d: char = digit_char((n % 10) as u64);
    if n < 10 {
        let mut out = String::new();
        out.push(d);
        assert(out@ =~= dec(n as nat));
        out
    } else {
        let mut out = wide_decimal(n / 10);
        out.push(d);
        out
    }
}

/// A copy of a list of texts.
pub fn copy_texts(v: &Vec<String>) -> (r: Vec<String>)
    ensures
        texts(r@) == texts(v@),
{
    let mut copy: Vec<String> = Vec::new();
    let mut i: usize = 0;
    while i < v.len()
        invariant
            i <= v.len(),
            copy@.len() == i,
            forall|k: int| 0 <= k < i ==> (#[trigger] copy@[k])@ == v@[k]@,
        decreases v.len() - i,
    {
        copy.push(v[i].clone());
        i += 1;
    }
    assert(texts(copy@) =~= texts(v@));
    copy
}

/// The number that a run of decimal digits denotes.
pub open spec fn digits_value(s: Seq<char>) -> nat
    decreases s.len(),
{
    if s.len() == 0 {
        0
    } else {
        digits_value(s.drop_last()) * 10 + (s.last() as int - '0' as int) as nat
    }
}

/// The digits of a number text: a leading plus sign is allowed.
pub open spec fn unsigned(s: Seq<char>) -> Seq<char> {
    if s.len() > 0 && s[0] == '+' {
        s.skip(1)
    } else {
        s
    }
}

/// The number that a text denotes, where it denotes one of 64 bits.
pub open spec fn parsed(s: Seq<char>) -> Option<u64> {
    let digits = unsigned(s);
    if digits.len() > 0 && (forall|i: int| 0 <= i < digits.len() ==> ascii_digit(#[trigger] digits[i]))
        && digits_value(digits) <= u64::MAX {
        Some(digits_value(digits) as u64)
    } else {
        None
    }
}

proof fn lemma_digits_value_grows(s: Seq<char>, i: int)
    requires
        0 <= i <= s.len(),
    ensures
        digits_value(s.take(i)) <= digits_value(s),
    decreases s.len() - i,
{
    if i < s.len() {
        assert(s.take(i + 1).drop_last() =~= s.take(i));
        lemma_digits_value_grows(s, i + 1);
    } else {
        assert(s.take(i) =~= s);
    }
}

/// Reads a number of 64 bits.
pub fn parse_u64(s: &str) -> (r: Option<u64>)
    ensures
        r == parsed(s@),
{
    let chars = to_chars(s);
    let start: usize = if chars.len() > 0 && chars[0] == '+' {
        1
    } else {
        0
    };
    let ghost digits = unsigned(s@);
    assert(digits =~= s@.skip(start as int));
    if start == chars.len() {
        return None;
    }
    let mut value: u64 = 0;
    let mut i: usize = start;
    assert(digits.take(0) =~= Seq::<char>::empty());
    while i < chars.len()
        invariant
            start <= i <= chars.len(),
            chars@ == s@,
            digits == s@.skip(start as int),
            digits == unsigned(s@),
            value == digits_value(digits.take(i - start)),
            forall|k: int| 0 <= k < i - start ==> ascii_digit(#[trigger] digits[k]),
        decreases chars.len() - i,
    {
        let c = chars[i];
        proof {
            assert(digits[i - start] == c);
            assert(digits.take(i - start + 1).drop_last() =~= digits.take(i - start));
            assert(digits.take(i - start + 1).last() == c);
        }
        if !(c >= '0' && c <= '9') {
            assert(!ascii_digit(digits[i - start]));
            return None;
        }
        let d: u64 = (c as u64) - ('0' as u64);
        proof {
            lemma_digits_value_grows(digits, i - start + 1);
        }
        if value > (u64::MAX - d) / 10 {
            return None;
        }
        value = value * 10 + d;
        i += 1;
    }
    assert(digits.take(i - start) =~= digits);
    Some(value)
}

/// The path of `rel` below `base`, parts separated by slashes. An absolute `rel`
/// stands for itself.
pub open spec fn below(base: Seq<char>, rel: Seq<char>) -> Seq<char> {
    if rel.len() > 0 && rel[0] == '/' {
        rel
    } else if base.len() == 0 || base.last() == '/' {
        base + rel
    } else {
        base + "/"@ + rel
    }
}

/// The path of `rel` below `base`.
pub fn join_path(base: &str, rel: &str) -> (r: String)
    ensures
        r@ == below(base@, rel@),
{
    let b = to_chars(base);
    let p = to_chars(rel);
    if p.len() > 0 && p[0] == '/' {
        return rel.to_owned();
    }
    let mut path = base.to_owned();
    if !(b.len() == 0 || b[b.len() - 1] == '/') {
        path.append("/");
    }
    path.append(rel);
    path
}

} // verus!
