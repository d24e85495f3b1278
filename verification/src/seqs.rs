//! Combinators over sequences: concatenating a text per element, flattening,
//! finding the first element with a property, and finding a piece of a text.

use vstd::prelude::*;

verus! {

/// The concatenation of `f` applied to each element of `s`, in order.
pub open spec fn concat_map<A>(s: Seq<A>, f: spec_fn(A) -> Seq<char>) -> Seq<char>
    decreases s.len(),
{
    if s.len() == 0 {
        Seq::empty()
    } else {
        concat_map(s.drop_last(), f) + f(s.last())
    }
}

/// One more element adds its text at the end.
pub proof fn lemma_concat_map_take<A>(s: Seq<A>, f: spec_fn(A) -> Seq<char>, i: int)
    requires
        0 <= i < s.len(),
    ensures
        concat_map(s.take(i + 1), f) == concat_map(s.take(i), f) + f(s[i]),
{
    assert(s.take(i + 1).drop_last() =~= s.take(i));
    assert(s.take(i + 1).last() == s[i]);
}

/// The whole sequence is the prefix of its own length.
pub proof fn lemma_concat_map_all<A>(s: Seq<A>, f: spec_fn(A) -> Seq<char>)
    ensures
        concat_map(s.take(s.len() as int), f) == concat_map(s, f),
{
    assert(s.take(s.len() as int) =~= s);
}

/// The text of a concatenation is the concatenation of the texts.
pub proof fn lemma_concat_map_append<A>(a: Seq<A>, b: Seq<A>, f: spec_fn(A) -> Seq<char>)
    ensures
        concat_map(a + b, f) =~= concat_map(a, f) + concat_map(b, f),
    decreases b.len(),
{
    if b.len() == 0 {
        assert(a + b =~= a);
    } else {
        assert((a + b).drop_last() =~= a + b.drop_last());
        assert((a + b).last() == b.last());
        lemma_concat_map_append(a, b.drop_last(), f);
    }
}

/// The first element of `s` that satisfies `p`.
pub open spec fn find_first<A>(s: Seq<A>, p: spec_fn(A) -> bool) -> Option<A>
    decreases s.len(),
{
    if s.len() == 0 {
        None
    } else if p(s[0]) {
        Some(s[0])
    } else {
        find_first(s.drop_first(), p)
    }
}

/// Elements known not to satisfy `p` can be skipped.
pub proof fn lemma_find_first_skip<A>(s: Seq<A>, p: spec_fn(A) -> bool, i: int)
    requires
        0 <= i <= s.len(),
        forall|j: int| 0 <= j < i ==> !p(#[trigger] s[j]),
    ensures
        find_first(s, p) == find_first(s.skip(i), p),
    decreases i,
{
    if i == 0 {
        assert(s.skip(0) =~= s);
    } else {
        lemma_find_first_skip(s, p, i - 1);
        assert(s.skip(i - 1)[0] == s[i - 1]);
        assert(s.skip(i - 1).drop_first() =~= s.skip(i));
    }
}

/// What `find_first` finds satisfies the test and is an element.
pub proof fn lemma_find_first_found<A>(s: Seq<A>, p: spec_fn(A) -> bool)
    ensures
        find_first(s, p) matches Some(x) ==> p(x) && s.contains(x),
    decreases s.len(),
{
    if s.len() > 0 && !p(s[0]) {
        lemma_find_first_found(s.drop_first(), p);
        if let Some(x) = find_first(s.drop_first(), p) {
            let k = choose|k: int| 0 <= k < s.drop_first().len() && s.drop_first()[k] == x;
            assert(s[k + 1] == x);
        }
    }
}

/// One element's text is all of a single-element concatenation.
pub proof fn lemma_concat_map_single<A>(x: A, f: spec_fn(A) -> Seq<char>)
    ensures
        concat_map(seq![x], f) == f(x),
{
    assert(seq![x].drop_last() =~= Seq::<A>::empty());
    assert(seq![x].last() == x);
    assert(concat_map(Seq::<A>::empty(), f) == Seq::<char>::empty());
    assert(Seq::<char>::empty() + f(x) =~= f(x));
}

/// Concatenating over mapped elements is concatenating the composed texts.
pub proof fn lemma_concat_map_map<A, B>(s: Seq<A>, g: spec_fn(A) -> B, f: spec_fn(B) -> Seq<char>)
    ensures
        concat_map(s.map_values(g), f) == concat_map(s, |x: A| f(g(x))),
    decreases s.len(),
{
    if s.len() > 0 {
        assert(s.map_values(g).drop_last() =~= s.drop_last().map_values(g));
        lemma_concat_map_map(s.drop_last(), g, f);
    }
}

/// Concatenating a text for the elements that satisfy `p`, and nothing for
/// the others, concatenates the texts of the elements that `filter` keeps.
pub proof fn lemma_concat_map_filter<A>(
    s: Seq<A>,
    p: spec_fn(A) -> bool,
    f: spec_fn(A) -> Seq<char>,
)
    ensures
        concat_map(s, |x: A| if p(x) { f(x) } else { Seq::empty() }) == concat_map(s.filter(p), f),
    decreases s.len(),
{
    reveal(Seq::filter);
    if s.len() > 0 {
        lemma_concat_map_filter(s.drop_last(), p, f);
        let g = |x: A| if p(x) { f(x) } else { Seq::<char>::empty() };
        if p(s.last()) {
            let t = s.drop_last().filter(p);
            assert(t.push(s.last()).drop_last() =~= t);
            assert(t.push(s.last()).last() == s.last());
        } else {
            assert(concat_map(s.drop_last(), g) + Seq::<char>::empty() =~= concat_map(
                s.drop_last(),
                g,
            ));
        }
    }
}

/// The concatenation of the sequences `g` gives for each element of `s`.
pub open spec fn flat_map<A, B>(s: Seq<A>, g: spec_fn(A) -> Seq<B>) -> Seq<B>
    decreases s.len(),
{
    if s.len() == 0 {
        Seq::empty()
    } else {
        flat_map(s.drop_last(), g) + g(s.last())
    }
}

/// Concatenating the texts of a flattened sequence is concatenating, per
/// element, the texts of its part.
pub proof fn lemma_concat_map_flat<A, B>(
    s: Seq<A>,
    g: spec_fn(A) -> Seq<B>,
    f: spec_fn(B) -> Seq<char>,
)
    ensures
        concat_map(flat_map(s, g), f) == concat_map(s, |x: A| concat_map(g(x), f)),
    decreases s.len(),
{
    if s.len() > 0 {
        lemma_concat_map_flat(s.drop_last(), g, f);
        lemma_concat_map_append(flat_map(s.drop_last(), g), g(s.last()), f);
    }
}

/// Each element of a flattened sequence comes from the part of some element:
/// the result is that element's position and the position within its part.
pub proof fn lemma_flat_map_member<A, B>(s: Seq<A>, g: spec_fn(A) -> Seq<B>, k: int) -> (r: (
    int,
    int,
))
    requires
        0 <= k < flat_map(s, g).len(),
    ensures
        0 <= r.0 < s.len(),
        0 <= r.1 < g(s[r.0]).len(),
        flat_map(s, g)[k] == g(s[r.0])[r.1],
    decreases s.len(),
{
    let p = flat_map(s.drop_last(), g);
    if k < p.len() {
        let (j, m) = lemma_flat_map_member(s.drop_last(), g, k);
        assert(s.drop_last()[j] == s[j]);
        (j, m)
    } else {
        (s.len() - 1, k - p.len())
    }
}

/// Where some element satisfies `p`, `find_first` finds one.
pub proof fn lemma_find_first_some<A>(s: Seq<A>, p: spec_fn(A) -> bool, i: int)
    requires
        0 <= i < s.len(),
        p(s[i]),
    ensures
        find_first(s, p) is Some,
    decreases i,
{
    if i > 0 && !p(s[0]) {
        assert(s.drop_first()[i - 1] == s[i]);
        lemma_find_first_some(s.drop_first(), p, i - 1);
    }
}

/// Whether `part` occurs in `text` as a contiguous piece.
pub open spec fn holds<A>(text: Seq<A>, part: Seq<A>) -> bool {
    exists|i: int|
        0 <= i <= text.len() - part.len() && (#[trigger] text.skip(i)).take(part.len() as int)
            == part
}

/// A text holds what it begins with.
pub proof fn lemma_holds_start<A>(text: Seq<A>, part: Seq<A>)
    requires
        part.len() <= text.len(),
        text.take(part.len() as int) == part,
    ensures
        holds(text, part),
{
    assert(text.skip(0) =~= text);
}

/// A text holds itself.
pub proof fn lemma_holds_self<A>(a: Seq<A>)
    ensures
        holds(a, a),
{
    assert(a.take(a.len() as int) =~= a);
    lemma_holds_start(a, a);
}

/// A concatenation holds its first part.
pub proof fn lemma_holds_prefix<A>(a: Seq<A>, b: Seq<A>)
    ensures
        holds(a + b, a),
{
    assert((a + b).take(a.len() as int) =~= a);
    lemma_holds_start(a + b, a);
}

/// A concatenation holds its last part.
pub proof fn lemma_holds_suffix<A>(a: Seq<A>, b: Seq<A>)
    ensures
        holds(a + b, b),
{
    assert((a + b).skip(a.len() as int).take(b.len() as int) =~= b);
}

/// What a piece holds, the text holds.
pub proof fn lemma_holds_trans<A>(a: Seq<A>, b: Seq<A>, c: Seq<A>)
    requires
        holds(a, b),
        holds(b, c),
    ensures
        holds(a, c),
{
    let i = choose|i: int| 0 <= i <= a.len() - b.len() && (#[trigger] a.skip(i)).take(b.len() as int) == b;
    let j = choose|j: int| 0 <= j <= b.len() - c.len() && (#[trigger] b.skip(j)).take(c.len() as int) == c;
    assert(a.skip(i + j).take(c.len() as int) =~= c) by {
        assert forall|t: int| 0 <= t < c.len() implies a.skip(i + j).take(c.len() as int)[t] == c[t] by {
            assert(c[t] == b.skip(j)[t]);
            assert(b.skip(j)[t] == b[j + t]);
            assert(b[j + t] == a.skip(i).take(b.len() as int)[j + t]);
        }
    }
}

/// What the first part holds, the concatenation holds.
pub proof fn lemma_holds_left<A>(a: Seq<A>, b: Seq<A>, p: Seq<A>)
    requires
        holds(a, p),
    ensures
        holds(a + b, p),
{
    lemma_holds_prefix(a, b);
    lemma_holds_trans(a + b, a, p);
}

/// What the last part holds, the concatenation holds.
pub proof fn lemma_holds_right<A>(a: Seq<A>, b: Seq<A>, p: Seq<A>)
    requires
        holds(b, p),
    ensures
        holds(a + b, p),
{
    lemma_holds_suffix(a, b);
    lemma_holds_trans(a + b, b, p);
}

/// A concatenation holds each of its middle parts.
pub proof fn lemma_holds_mid<A>(a: Seq<A>, p: Seq<A>, b: Seq<A>)
    ensures
        holds(a + p + b, p),
{
    lemma_holds_suffix(a, p);
    lemma_holds_left(a + p, b, p);
}

/// A concatenation holds the text of each element.
pub proof fn lemma_holds_concat_map<A>(s: Seq<A>, f: spec_fn(A) -> Seq<char>, i: int)
    requires
        0 <= i < s.len(),
    ensures
        holds(concat_map(s, f), f(s[i])),
    decreases s.len(),
{
    if i == s.len() - 1 {
        lemma_holds_suffix(concat_map(s.drop_last(), f), f(s.last()));
    } else {
        lemma_holds_concat_map(s.drop_last(), f, i);
        assert(s.drop_last()[i] == s[i]);
        lemma_holds_left(concat_map(s.drop_last(), f), f(s.last()), f(s[i]));
    }
}
} // verus!
