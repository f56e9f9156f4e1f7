//! Character-level string helpers with exact contracts.
use vstd::prelude::*;

use crate::persistent::{
    lemma_text_less_irreflexive, lemma_text_less_total, lemma_text_less_transitive, text_before,
    text_less,
};

verus! {

/// Index of the first occurrence of `c` in `s`, or `s.len()` when `c` does not occur.
pub open spec fn first_index_of(s: Seq<char>, c: char) -> int
    decreases s.len(),
{
    if s.len() == 0 {
        0
    } else if s[0] == c {
        0
    } else {
        1 + first_index_of(s.drop_first(), c)
    }
}

/// Where the first `c` of `s` can stand.
pub proof fn lemma_first_index_of_bounds(s: Seq<char>, c: char)
    ensures
        0 <= first_index_of(s, c) <= s.len(),
        first_index_of(s, c) < s.len() ==> s[first_index_of(s, c)] == c,
    decreases s.len(),
{
    if s.len() > 0 && s[0] != c {
        lemma_first_index_of_bounds(s.drop_first(), c);
    }
}

/// The pieces of `s` between occurrences of `c`, as `s.split(c)` yields them:
/// one piece more than there are occurrences.
pub open spec fn split_pieces(s: Seq<char>, c: char) -> Seq<Seq<char>>
    decreases s.len(),
{
    let i = first_index_of(s, c);
    if i < s.len() {
        proof {
            lemma_first_index_of_bounds(s, c);
        }
        seq![s.take(i)] + split_pieces(s.skip(i + 1), c)
    } else {
        seq![s]
    }
}

/// `str::split_once` with a one-character delimiter: the text before and after
/// the first occurrence of `c`, or `None` when `c` does not occur.
pub open spec fn split_once_spec(s: Seq<char>, c: char) -> Option<(Seq<char>, Seq<char>)> {
    let i = first_index_of(s, c);
    if i < s.len() {
        Some((s.take(i), s.skip(i + 1)))
    } else {
        None
    }
}

/// `prefix` is a prefix of `s`.
pub open spec fn has_prefix(s: Seq<char>, prefix: Seq<char>) -> bool {
    prefix.len() <= s.len() && s.take(prefix.len() as int) == prefix
}

/// `str::strip_prefix`.
pub open spec fn strip_prefix_spec(s: Seq<char>, prefix: Seq<char>) -> Option<Seq<char>> {
    if has_prefix(s, prefix) {
        Some(s.skip(prefix.len() as int))
    } else {
        None
    }
}

/// The Unicode `White_Space` property, as `char::is_whitespace` reports it:
/// tab to carriage return, space, next line, no-break space, ogham space
/// mark, the spaces from en quad to hair space, line and paragraph
/// separators, narrow no-break space, medium mathematical space and
/// ideographic space.
pub open spec fn is_white_space(c: char) -> bool {
    let u = c as int;
    (0x09 <= u <= 0x0D) || u == 0x20 || u == 0x85 || u == 0xA0 || u == 0x1680
        || (0x2000 <= u <= 0x200A) || u == 0x2028 || u == 0x2029 || u == 0x202F
        || u == 0x205F || u == 0x3000
}

/// Number of leading characters of `s` that are white space.
pub open spec fn leading_space(s: Seq<char>) -> int
    decreases s.len(),
{
    if s.len() > 0 && is_white_space(s[0]) {
        1 + leading_space(s.drop_first())
    } else {
        0
    }
}

/// Number of trailing characters of `s` that are white space.
pub open spec fn trailing_space(s: Seq<char>) -> int
    decreases s.len(),
{
    if s.len() > 0 && is_white_space(s.last()) {
        1 + trailing_space(s.drop_last())
    } else {
        0
    }
}

/// `str::trim`: `s` without its leading and trailing white space.
pub open spec fn trim_spec(s: Seq<char>) -> Seq<char> {
    let t = s.skip(leading_space(s));
    t.take(t.len() - trailing_space(t))
}

/// `s` has the two-character separator `::` at position `i`.
pub open spec fn path_sep_at(s: Seq<char>, i: int) -> bool {
    0 <= i && i + 1 < s.len() && s[i] == ':' && s[i + 1] == ':'
}

/// Position of the leftmost `::` in `s`, or `s.len()` when there is none.
pub open spec fn first_path_sep(s: Seq<char>) -> int
    decreases s.len(),
{
    if s.len() < 2 {
        s.len() as int
    } else if path_sep_at(s, 0) {
        0
    } else {
        1 + first_path_sep(s.drop_first())
    }
}

/// The last piece of `s` when it is split on `::` from left to right, as
/// `s.split("::").last()` yields it.
pub open spec fn last_path_segment(s: Seq<char>) -> Seq<char>
    decreases s.len(),
{
    let i = first_path_sep(s);
    if i < s.len() {
        proof {
            lemma_first_path_sep_bounds(s);
        }
        last_path_segment(s.skip(i + 2))
    } else {
        s
    }
}

/// Where the leftmost `::` can stand.
pub proof fn lemma_first_path_sep_bounds(s: Seq<char>)
    ensures
        0 <= first_path_sep(s) <= s.len(),
        first_path_sep(s) < s.len() ==> path_sep_at(s, first_path_sep(s)),
    decreases s.len(),
{
    if s.len() >= 2 && !path_sep_at(s, 0) {
        lemma_first_path_sep_bounds(s.drop_first());
        let i = first_path_sep(s.drop_first());
        if i < s.len() - 1 {
            assert(s.drop_first()[i] == s[i + 1]);
            assert(s.drop_first()[i + 1] == s[i + 2]);
        }
    }
}

proof fn lemma_first_index_of(s: Seq<char>, c: char, i: int)
    requires
        0 <= i <= s.len(),
        forall|j: int| 0 <= j < i ==> s[j] != c,
        i < s.len() ==> s[i] == c,
    ensures
        first_index_of(s, c) == i,
    decreases i,
{
    if i > 0 {
        lemma_first_index_of(s.drop_first(), c, i - 1);
    }
}

proof fn lemma_first_path_sep(s: Seq<char>, i: int)
    requires
        0 <= i < s.len(),
        forall|j: int| 0 <= j < i ==> !path_sep_at(s, j),
        path_sep_at(s, i),
    ensures
        first_path_sep(s) == i,
    decreases i,
{
    if i > 0 {
        assert(!path_sep_at(s, 0));
        assert forall|j: int| 0 <= j < i - 1 implies !path_sep_at(s.drop_first(), j) by {
            assert(!path_sep_at(s, j + 1));
        }
        assert(path_sep_at(s.drop_first(), i - 1));
        lemma_first_path_sep(s.drop_first(), i - 1);
    }
}

proof fn lemma_leading_space(s: Seq<char>, i: int)
    requires
        0 <= i <= s.len(),
        forall|j: int| 0 <= j < i ==> is_white_space(s[j]),
        i < s.len() ==> !is_white_space(s[i]),
    ensures
        leading_space(s) == i,
    decreases i,
{
    if i > 0 {
        lemma_leading_space(s.drop_first(), i - 1);
    }
}

proof fn lemma_trailing_space(s: Seq<char>, k: int)
    requires
        0 <= k <= s.len(),
        forall|j: int| s.len() - k <= j < s.len() ==> is_white_space(s[j]),
        k < s.len() ==> !is_white_space(s[s.len() - k - 1]),
    ensures
        trailing_space(s) == k,
    decreases k,
{
    if k > 0 {
        lemma_trailing_space(s.drop_last(), k - 1);
    }
}

/// Whether `c` has the Unicode `White_Space` property, as
/// `char::is_whitespace` tells.
pub fn char_is_whitespace(c: char) -> (r: bool)
    ensures
        r == is_white_space(c),
{
    ('\u{9}' <= c && c <= '\u{d}') || c == ' ' || c == '\u{85}' || c == '\u{a0}' || c == '\u{1680}'
        || ('\u{2000}' <= c && c <= '\u{200a}') || c == '\u{2028}' || c == '\u{2029}'
        || c == '\u{202f}' || c == '\u{205f}' || c == '\u{3000}'
}

/// The characters of `s`, in order.
pub fn chars_of(s: &str) -> (v: Vec<char>)
    ensures
        v@ == s@,
{
    let mut v: Vec<char> = Vec::new();
    for c in it: s.chars()
        invariant
            v@ == it.seq().take(it.index() as int),
    {
        v.push(c);
    }
    v
}

/// Whether two texts are equal.
pub fn same_text(a: &str, b: &str) -> (r: bool)
    ensures
        r == (a@ == b@),
{
    let x = a.to_owned();
    let y = b.to_owned();
    x == y
}

/// An owned copy of `s`.
pub fn owned(s: &str) -> (r: String)
    ensures
        r@ == s@,
{
    s.to_owned()
}

/// `a` followed by `b`.
pub fn concat(a: &str, b: &str) -> (r: String)
    ensures
        r@ == a@ + b@,
{
    let mut r = a.to_owned();
    r.append(b);
    r
}

/// `a`, `b` and `c` in a row.
pub fn concat3(a: &str, b: &str, c: &str) -> (r: String)
    ensures
        r@ == a@ + b@ + c@,
{
    let mut r = a.to_owned();
    r.append(b);
    r.append(c);
    r
}

/// Position of the first `c` in `s`, or the length of `s`.
pub fn find_char(s: &str, c: char) -> (i: usize)
    ensures
        i == first_index_of(s@, c),
        i <= s@.len(),
{
    let v = chars_of(s);
    let mut i: usize = 0;
    while i < v.len()
        invariant
            v@ == s@,
            i <= v.len(),
            forall|j: int| 0 <= j < i ==> v@[j] != c,
        decreases v.len() - i,
    {
        if v[i] == c {
            proof {
                lemma_first_index_of(s@, c, i as int);
            }
            return i;
        }
        i = i + 1;
    }
    proof {
        lemma_first_index_of(s@, c, i as int);
    }
    i
}

/// `str::split_once` with a one-character delimiter.
pub fn split_once_char(s: &str, c: char) -> (r: Option<(&str, &str)>)
    ensures
        match r {
            Some((a, b)) => split_once_spec(s@, c) == Some((a@, b@)),
            None => split_once_spec(s@, c) is None,
        },
{
    let i = find_char(s, c);
    let n = s.unicode_len();
    if i < n {
        let a = s.substring_char(0, i);
        let b = s.substring_char(i + 1, n);
        Some((a, b))
    } else {
        None
    }
}

/// Whether `s` starts with `prefix`.
pub fn starts_with_text(s: &str, prefix: &str) -> (r: bool)
    ensures
        r == has_prefix(s@, prefix@),
{
    let n = s.unicode_len();
    let m = prefix.unicode_len();
    if m > n {
        return false;
    }
    let head = s.substring_char(0, m);
    same_text(head, prefix)
}

/// `str::strip_prefix`.
pub fn strip_prefix_text<'a>(s: &'a str, prefix: &str) -> (r: Option<&'a str>)
    ensures
        match r {
            Some(t) => strip_prefix_spec(s@, prefix@) == Some(t@),
            None => strip_prefix_spec(s@, prefix@) is None,
        },
{
    if starts_with_text(s, prefix) {
        let n = s.unicode_len();
        let m = prefix.unicode_len();
        Some(s.substring_char(m, n))
    } else {
        None
    }
}

/// `str::trim`.
pub fn trim_text(s: &str) -> (r: &str)
    ensures
        r@ == trim_spec(s@),
{
    let v = chars_of(s);
    let n = v.len();
    let mut a: usize = 0;
    while a < n && char_is_whitespace(v[a])
        invariant
            v@ == s@,
            n == v.len(),
            a <= n,
            forall|j: int| 0 <= j < a ==> is_white_space(v@[j]),
        decreases n - a,
    {
        a = a + 1;
    }
    proof {
        lemma_leading_space(s@, a as int);
    }
    let mut b: usize = n;
    while b > a && char_is_whitespace(v[b - 1])
        invariant
            v@ == s@,
            n == v.len(),
            a <= b <= n,
            forall|j: int| b <= j < n ==> is_white_space(v@[j]),
        decreases b - a,
    {
        b = b - 1;
    }
    proof {
        let t = s@.skip(a as int);
        assert forall|j: int| t.len() - (n - b) <= j < t.len() implies is_white_space(t[j]) by {
            assert(t[j] == s@[j + a]);
        }
        if b > a {
            assert(t[t.len() - (n - b) - 1] == s@[b - 1]);
        }
        lemma_trailing_space(t, (n - b) as int);
        assert(t.take(t.len() - (n - b)) =~= s@.subrange(a as int, b as int));
    }
    s.substring_char(a, b)
}

/// The last piece of `s` after splitting it on `::`; all of `s` when it holds no `::`.
pub fn last_path_segment_of(s: &str) -> (r: &str)
    ensures
        r@ == last_path_segment(s@),
{
    let v = chars_of(s);
    let n = v.len();
    let mut start: usize = 0;
    let mut i: usize = 0;
    assert(s@.skip(0) =~= s@);
    while n > 0 && i < n - 1
        invariant
            v@ == s@,
            n == v.len(),
            start <= i <= n,
            last_path_segment(s@) == last_path_segment(s@.skip(start as int)),
            forall|j: int| start <= j < i ==> !path_sep_at(s@, j),
        decreases n - i,
    {
        if v[i] == ':' && v[i + 1] == ':' {
            proof {
                let t = s@.skip(start as int);
                assert forall|j: int| 0 <= j < i - start implies !path_sep_at(t, j) by {
                    assert(!path_sep_at(s@, j + start));
                }
                assert(path_sep_at(t, i - start));
                lemma_first_path_sep(t, i - start);
                assert(t.skip(i - start + 2) =~= s@.skip(i + 2));
            }
            start = i + 2;
            i = i + 2;
        } else {
            i = i + 1;
        }
    }
    proof {
        let t = s@.skip(start as int);
        assert forall|j: int| 0 <= j < t.len() implies !path_sep_at(t, j) by {
            if j + 1 < t.len() {
                assert(!path_sep_at(s@, j + start));
            }
        }
        lemma_first_path_sep_absent(t);
    }
    s.substring_char(start, n)
}

proof fn lemma_first_path_sep_absent(s: Seq<char>)
    requires
        forall|j: int| 0 <= j < s.len() ==> !path_sep_at(s, j),
    ensures
        first_path_sep(s) == s.len(),
    decreases s.len(),
{
    if s.len() >= 2 {
        assert(!path_sep_at(s, 0));
        assert forall|j: int| 0 <= j < s.len() - 1 implies !path_sep_at(s.drop_first(), j) by {
            assert(!path_sep_at(s, j + 1));
        }
        lemma_first_path_sep_absent(s.drop_first());
    }
}

} // verus!

verus! {

// ---------------------------------------------------------------------------
// Name/value pairs where the last value for a name wins

/// The map that name/value pairs give when taken in order, a later value for
/// a name replacing an earlier one (as collecting them into a map does).
pub open spec fn last_wins(s: Seq<(Seq<char>, Seq<char>)>) -> Map<Seq<char>, Seq<char>>
    decreases s.len(),
{
    if s.len() == 0 {
        Map::empty()
    } else {
        last_wins(s.drop_last()).insert(s.last().0, s.last().1)
    }
}

/// The names of the pairs are strictly ascending (so each occurs once).
pub open spec fn names_ascending(s: Seq<(Seq<char>, Seq<char>)>) -> bool {
    forall|i: int, j: int| 0 <= i < j < s.len() ==> text_less(#[trigger] s[i].0, #[trigger] s[j].0)
}

/// The views of name/value string pairs.
pub open spec fn text_pairs(v: Seq<(String, String)>) -> Seq<(Seq<char>, Seq<char>)> {
    v.map_values(|p: (String, String)| (p.0@, p.1@))
}

proof fn lemma_last_wins_update(s: Seq<(Seq<char>, Seq<char>)>, j: int, k: Seq<char>, v: Seq<char>)
    requires
        names_ascending(s),
        0 <= j < s.len(),
        s[j].0 == k,
    ensures
        last_wins(s.update(j, (k, v))) == last_wins(s).insert(k, v),
    decreases s.len(),
{
    let t = s.update(j, (k, v));
    if j == s.len() - 1 {
        assert(t.drop_last() =~= s.drop_last());
        assert(last_wins(t) =~= last_wins(s).insert(k, v));
    } else {
        let d = s.drop_last();
        assert(names_ascending(d)) by {
            assert forall|a: int, b: int| 0 <= a < b < d.len() implies text_less(#[trigger] d[a].0, #[trigger] d[b].0) by {
                assert(text_less(s[a].0, s[b].0));
            }
        }
        lemma_last_wins_update(d, j, k, v);
        assert(t.drop_last() =~= d.update(j, (k, v)));
        assert(text_less(s[j].0, s.last().0));
        lemma_text_less_irreflexive(k);
        assert(s.last().0 != k);
        assert(last_wins(t) =~= last_wins(s).insert(k, v));
    }
}

proof fn lemma_last_wins_insert(s: Seq<(Seq<char>, Seq<char>)>, j: int, k: Seq<char>, v: Seq<char>)
    requires
        0 <= j <= s.len(),
        forall|a: int| 0 <= a < s.len() ==> #[trigger] s[a].0 != k,
    ensures
        last_wins(s.insert(j, (k, v))) == last_wins(s).insert(k, v),
    decreases s.len(),
{
    let t = s.insert(j, (k, v));
    if j == s.len() {
        assert(t =~= s.push((k, v)));
        assert(t.drop_last() =~= s);
    } else {
        let d = s.drop_last();
        lemma_last_wins_insert(d, j, k, v);
        assert(t.drop_last() =~= d.insert(j, (k, v)));
        assert(t.last() == s.last());
        assert(s.last().0 != k);
        assert(last_wins(t) =~= last_wins(s).insert(k, v));
    }
}

/// Name/value pairs with each name once, in ascending order of names, that
/// give the same map as `pairs` taken in order: a later value for a name
/// replaces an earlier one.
pub fn merge_last_wins(pairs: &Vec<(String, String)>) -> (r: Vec<(String, String)>)
    ensures
        names_ascending(text_pairs(r@)),
        last_wins(text_pairs(r@)) == last_wins(text_pairs(pairs@)),
{
    let mut out: Vec<(String, String)> = Vec::new();
    let mut i: usize = 0;
    assert(text_pairs(out@) =~= Seq::<(Seq<char>, Seq<char>)>::empty());
    assert(text_pairs(pairs@.take(0)) =~= Seq::<(Seq<char>, Seq<char>)>::empty());
    while i < pairs.len()
        invariant
            i <= pairs@.len(),
            names_ascending(text_pairs(out@)),
            last_wins(text_pairs(out@)) == last_wins(text_pairs(pairs@.take(i as int))),
        decreases pairs.len() - i,
    {
        let k = owned(pairs[i].0.as_str());
        let v = owned(pairs[i].1.as_str());
        let ghost before = text_pairs(out@);
        let n = out.len();
        let mut j: usize = 0;
        while j < n && text_before(out[j].0.as_str(), k.as_str())
            invariant
                n == out.len(),
                before == text_pairs(out@),
                j <= n,
                forall|a: int| 0 <= a < j ==> text_less(#[trigger] before[a].0, k@),
            decreases n - j,
        {
            j = j + 1;
        }
        proof {
            let t = text_pairs(pairs@.take(i + 1));
            assert(t.drop_last() =~= text_pairs(pairs@.take(i as int)));
            assert(t.last() == (k@, v@));
        }
        if j < n && same_text(out[j].0.as_str(), k.as_str()) {
            out.set(j, (k, v));
            proof {
                lemma_last_wins_update(before, j as int, k@, v@);
                let after = text_pairs(out@);
                assert(after =~= before.update(j as int, (k@, v@)));
                assert forall|a: int, b: int| 0 <= a < b < after.len() implies text_less(#[trigger] after[a].0, #[trigger] after[b].0) by {
                    assert(after[a].0 == before[a].0 && after[b].0 == before[b].0);
                    assert(text_less(before[a].0, before[b].0));
                }
            }
        } else {
            out.insert(j, (k, v));
            proof {
                let after = text_pairs(out@);
                assert(after =~= before.insert(j as int, (k@, v@)));
                if j < n {
                    assert(!text_less(before[j as int].0, k@));
                    assert(before[j as int].0 != k@);
                    lemma_text_less_total(k@, before[j as int].0);
                }
                assert forall|a: int| 0 <= a < before.len() implies #[trigger] before[a].0 != k@ by {
                    lemma_text_less_irreflexive(k@);
                    if a < j {
                        assert(text_less(before[a].0, k@));
                    } else {
                        assert(text_less(k@, before[j as int].0));
                        if a > j {
                            assert(text_less(before[j as int].0, before[a].0));
                            lemma_text_less_transitive(k@, before[j as int].0, before[a].0);
                        }
                        lemma_text_less_irreflexive(before[a].0);
                    }
                }
                lemma_last_wins_insert(before, j as int, k@, v@);
                assert forall|a: int, b: int| 0 <= a < b < after.len() implies text_less(#[trigger] after[a].0, #[trigger] after[b].0) by {
                    if b < j {
                        assert(text_less(before[a].0, before[b].0));
                    } else if b == j {
                        assert(text_less(before[a].0, k@));
                    } else if a == j {
                        if b - 1 > j {
                            assert(text_less(before[j as int].0, before[b - 1].0));
                            lemma_text_less_transitive(k@, before[j as int].0, before[b - 1].0);
                        }
                    } else if a < j {
                        assert(text_less(before[a].0, k@));
                        lemma_text_less_transitive(before[a].0, k@, before[j as int].0);
                        if b - 1 > j {
                            assert(text_less(before[j as int].0, before[b - 1].0));
                            lemma_text_less_transitive(before[a].0, before[j as int].0, before[b - 1].0);
                        }
                    } else {
                        assert(text_less(before[a - 1].0, before[b - 1].0));
                    }
                }
            }
        }
        i = i + 1;
    }
    assert(pairs@.take(i as int) =~= pairs@);
    out
}

} // verus!
