//! Text helpers: the few facts about `String` that the rest of the crate
//! builds on, and verified conversions, trimming and replacing on top of them.

use vstd::prelude::*;

verus! {

/// `String::push` appends one character to the end of the string.
pub assume_specification[ String::push ](s: &mut String, ch: char)
    ensures
        final(s)@ == old(s)@.push(ch),
;

/// `String::push_str` appends a string slice to the end of the string.
pub assume_specification[ String::push_str ](s: &mut String, other: &str)
    ensures
        final(s)@ == old(s)@ + other@,
;

/// Whether a character has the Unicode `White_Space` property, as
/// `char::is_whitespace` reports it.
pub uninterp spec fn char_is_whitespace(c: char) -> bool;

/// `char::is_whitespace` tells whether the character has the Unicode
/// `White_Space` property; the answer depends on the character alone.
pub assume_specification[ char::is_whitespace ](c: char) -> (b: bool)
    ensures
        b == char_is_whitespace(c),
;

/// How many whitespace characters stand at the start of `s`.
pub open spec fn leading_whitespace(s: Seq<char>) -> nat
    decreases s.len(),
{
    if s.len() > 0 && char_is_whitespace(s[0]) {
        1 + leading_whitespace(s.drop_first())
    } else {
        0
    }
}

/// How many whitespace characters stand at the end of `s`.
pub open spec fn trailing_whitespace(s: Seq<char>) -> nat
    decreases s.len(),
{
    if s.len() > 0 && char_is_whitespace(s.last()) {
        1 + trailing_whitespace(s.drop_last())
    } else {
        0
    }
}

/// `s` without the whitespace at its start and at its end.
pub open spec fn trimmed(s: Seq<char>) -> Seq<char> {
    let rest = s.skip(leading_whitespace(s) as int);
    rest.take(rest.len() - trailing_whitespace(rest))
}

/// `s` with every occurrence of `from` replaced by `to`, scanning from the
/// left; occurrences never overlap. An empty `from` leaves `s` as it is.
pub open spec fn replaced(s: Seq<char>, from: Seq<char>, to: Seq<char>) -> Seq<char>
    decreases s.len(),
{
    if from.len() == 0 || s.len() < from.len() {
        s
    } else if s.take(from.len() as int) == from {
        to + replaced(s.skip(from.len() as int), from, to)
    } else {
        seq![s[0]] + replaced(s.skip(1), from, to)
    }
}

/// The whitespace counted at the start of `s` is whitespace, and what
/// follows it, if anything, is not.
pub proof fn lemma_leading_whitespace(s: Seq<char>)
    ensures
        leading_whitespace(s) <= s.len(),
        forall|i: int| 0 <= i < leading_whitespace(s) ==> char_is_whitespace(#[trigger] s[i]),
        leading_whitespace(s) < s.len() ==> !char_is_whitespace(s[leading_whitespace(s) as int]),
    decreases s.len(),
{
    if s.len() > 0 && char_is_whitespace(s[0]) {
        let t = s.drop_first();
        lemma_leading_whitespace(t);
        assert forall|i: int| 0 <= i < leading_whitespace(s) implies char_is_whitespace(
            #[trigger] s[i],
        ) by {
            if i > 0 {
                assert(s[i] == t[i - 1]);
            }
        }
        if leading_whitespace(s) < s.len() {
            assert(s[leading_whitespace(s) as int] == t[leading_whitespace(t) as int]);
        }
    }
}

/// The whitespace counted at the end of `s` is whitespace, and what stands
/// before it, if anything, is not.
pub proof fn lemma_trailing_whitespace(s: Seq<char>)
    ensures
        trailing_whitespace(s) <= s.len(),
        forall|i: int|
            s.len() - trailing_whitespace(s) <= i < s.len() ==> char_is_whitespace(
                #[trigger] s[i],
            ),
        trailing_whitespace(s) < s.len() ==> !char_is_whitespace(
            s[s.len() - trailing_whitespace(s) - 1],
        ),
    decreases s.len(),
{
    if s.len() > 0 && char_is_whitespace(s.last()) {
        let t = s.drop_last();
        lemma_trailing_whitespace(t);
        assert forall|i: int|
            s.len() - trailing_whitespace(s) <= i < s.len() implies char_is_whitespace(
            #[trigger] s[i],
        ) by {
            if i < s.len() - 1 {
                assert(s[i] == t[i]);
            }
        }
        if trailing_whitespace(s) < s.len() {
            assert(s[s.len() - trailing_whitespace(s) - 1] == t[t.len() - trailing_whitespace(t)
                - 1]);
        }
    }
}

/// A trimmed text is the part of the text between two points, such that all
/// before the first and all from the second on is whitespace, and the part
/// neither starts nor ends with whitespace. Trimming it again changes
/// nothing.
pub proof fn law_trimmed(s: Seq<char>)
    ensures
        ({
            let from = leading_whitespace(s) as int;
            let to = from + trimmed(s).len();
            &&& 0 <= from <= to <= s.len()
            &&& trimmed(s) == s.subrange(from, to)
            &&& forall|i: int| 0 <= i < from ==> char_is_whitespace(#[trigger] s[i])
            &&& forall|i: int| to <= i < s.len() ==> char_is_whitespace(#[trigger] s[i])
        }),
        trimmed(s).len() > 0 ==> !char_is_whitespace(trimmed(s)[0]) && !char_is_whitespace(
            trimmed(s).last(),
        ),
        trimmed(trimmed(s)) == trimmed(s),
{
    let from = leading_whitespace(s) as int;
    lemma_leading_whitespace(s);
    let rest = s.skip(from);
    lemma_trailing_whitespace(rest);
    let t = trimmed(s);
    let to = from + t.len();
    assert(t =~= s.subrange(from, to));
    assert forall|i: int| to <= i < s.len() implies char_is_whitespace(#[trigger] s[i]) by {
        assert(s[i] == rest[i - from]);
    }
    if t.len() > 0 {
        assert(t[0] == s[from]);
        assert(t.last() == rest[rest.len() - trailing_whitespace(rest) - 1]);
        assert(leading_whitespace(t) == 0);
        assert(trailing_whitespace(t) == 0);
        assert(t.skip(0) =~= t);
        assert(t.take(t.len() as int) =~= t);
    } else {
        assert(leading_whitespace(t) == 0);
        assert(t.skip(0) =~= t);
        assert(trailing_whitespace(t) == 0);
        assert(t.take(0) =~= t);
    }
}

/// The characters of a string slice, in order.
pub fn chars_of(s: &str) -> (v: Vec<char>)
    ensures
        v@ == s@,
{
    let mut v: Vec<char> = Vec::new();
    for c in it: s.chars()
        invariant
            it.seq() == s@,
            v@ == s@.take(it.index() as int),
    {
        v.push(c);
    }
    v
}

/// The string made of the characters `v[from..to]`.
pub fn string_of_range(v: &Vec<char>, from: usize, to: usize) -> (s: String)
    requires
        from <= to <= v.len(),
    ensures
        s@ == v@.subrange(from as int, to as int),
{
    let mut s = String::new();
    let mut i: usize = from;
    while i < to
        invariant
            from <= i <= to <= v.len(),
            s@ == v@.subrange(from as int, i as int),
        decreases to - i,
    {
        s.push(v[i]);
        i = i + 1;
    }
    s
}

/// The string made of the characters of `v`.
pub fn string_of(v: &Vec<char>) -> (s: String)
    ensures
        s@ == v@,
{
    let s = string_of_range(v, 0, v.len());
    assert(v@.subrange(0, v@.len() as int) =~= v@);
    s
}

/// A copy of `s` without leading and trailing whitespace.
pub fn trim(s: &str) -> (t: String)
    ensures
        t@ == trimmed(s@),
{
    let v = chars_of(s);
    let n = v.len();
    let mut start: usize = 0;
    assert(v@.skip(0) =~= v@);
    while start < n && v[start].is_whitespace()
        invariant
            n == v.len(),
            start <= n,
            leading_whitespace(v@) == start + leading_whitespace(v@.skip(start as int)),
        decreases n - start,
    {
        assert(v@.skip(start as int).drop_first() =~= v@.skip(start as int + 1));
        start = start + 1;
    }
    assert(leading_whitespace(v@) == start);
    let ghost rest = v@.skip(start as int);
    let mut end: usize = n;
    assert(rest.take(n - start) =~= rest);
    while end > start && v[end - 1].is_whitespace()
        invariant
            n == v.len(),
            start <= end <= n,
            rest == v@.skip(start as int),
            trailing_whitespace(rest) == (n - end) + trailing_whitespace(
                rest.take(end - start),
            ),
        decreases end,
    {
        assert(rest.take(end - start).drop_last() =~= rest.take(end - start - 1));
        end = end - 1;
    }
    proof {
        if end > start {
            assert(rest.take(end - start).last() == v@[end - 1]);
        }
        assert(trailing_whitespace(rest) == n - end);
        assert(rest.take(rest.len() - trailing_whitespace(rest)) =~= v@.subrange(
            start as int,
            end as int,
        ));
    }
    string_of_range(&v, start, end)
}

/// Whether `from` stands in `v` at position `at`.
fn matches_at(v: &Vec<char>, at: usize, from: &Vec<char>) -> (b: bool)
    requires
        at + from.len() <= v.len(),
    ensures
        b == (v@.subrange(at as int, at + from.len()) == from@),
{
    let mut j: usize = 0;
    while j < from.len()
        invariant
            j <= from.len(),
            at + from.len() <= v.len(),
            forall|k: int| 0 <= k < j ==> v@[at + k] == from@[k],
        decreases from.len() - j,
    {
        if v[at + j] != from[j] {
            assert(v@.subrange(at as int, at + from.len())[j as int] != from@[j as int]);
            return false;
        }
        j = j + 1;
    }
    assert(v@.subrange(at as int, at + from.len()) =~= from@);
    true
}

/// A copy of `s` in which every occurrence of `from` is replaced by `to`.
pub fn replace(s: &str, from: &str, to: &str) -> (r: String)
    ensures
        r@ == replaced(s@, from@, to@),
{
    let v = chars_of(s);
    let f = chars_of(from);
    let n = v.len();
    let m = f.len();
    if m == 0 {
        return string_of(&v);
    }
    let mut out = String::new();
    let mut i: usize = 0;
    assert(v@.skip(0) =~= v@);
    assert(out@ + replaced(v@, from@, to@) =~= replaced(v@, from@, to@));
    while i < n
        invariant
            n == v.len(),
            m == f.len(),
            m > 0,
            f@ == from@,
            i <= n,
            out@ + replaced(v@.skip(i as int), from@, to@) == replaced(v@, from@, to@),
        decreases n - i,
    {
        let ghost rest = v@.skip(i as int);
        if n - i >= m && matches_at(&v, i, &f) {
            assert(rest.take(m as int) =~= v@.subrange(i as int, i + m));
            assert(rest.skip(m as int) =~= v@.skip(i + m));
            let ghost before = out@;
            out.push_str(to);
            assert(out@ + replaced(v@.skip(i + m), from@, to@) =~= before + (to@ + replaced(
                rest.skip(m as int),
                from@,
                to@,
            )));
            i = i + m;
        } else {
            if n - i >= m {
                assert(rest.take(m as int) =~= v@.subrange(i as int, i + m));
            }
            assert(rest.skip(1) =~= v@.skip(i + 1));
            let ghost before = out@;
            out.push(v[i]);
            assert(out@ + replaced(v@.skip(i + 1), from@, to@) =~= before + (seq![rest[0]]
                + replaced(rest.skip(1), from@, to@)));
            i = i + 1;
        }
    }
    assert(v@.skip(n as int) =~= Seq::<char>::empty());
    assert(out@ + Seq::<char>::empty() =~= out@);
    out
}

} // verus!
