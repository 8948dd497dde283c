//! Sequences used as sets that remember insertion order: filtering one
//! sequence by membership in another, and duplicate-free insertion.
use vstd::prelude::*;

verus! {

/// The elements of `s`, in order, whose membership in `r` equals `present`.
pub open spec fn filter_by<A>(s: Seq<A>, r: Seq<A>, present: bool) -> Seq<A>
    decreases s.len(),
{
    if s.len() == 0 {
        Seq::empty()
    } else {
        let w = filter_by(s.drop_last(), r, present);
        if r.contains(s.last()) == present {
            w.push(s.last())
        } else {
            w
        }
    }
}

/// The elements of `s` that `r` lacks, in the order of `s`.
pub open spec fn without<A>(s: Seq<A>, r: Seq<A>) -> Seq<A> {
    filter_by(s, r, false)
}

/// The elements of `s` that `r` holds too, in the order of `s`.
pub open spec fn within<A>(s: Seq<A>, r: Seq<A>) -> Seq<A> {
    filter_by(s, r, true)
}

/// `s` with `x` appended, unless `s` already holds it.
pub open spec fn insert<A>(s: Seq<A>, x: A) -> Seq<A> {
    if s.contains(x) {
        s
    } else {
        s.push(x)
    }
}

/// Each element of `xs`, in order, inserted into `s`.
pub open spec fn insert_all<A>(s: Seq<A>, xs: Seq<A>) -> Seq<A>
    decreases xs.len(),
{
    if xs.len() == 0 {
        s
    } else {
        insert(insert_all(s, xs.drop_last()), xs.last())
    }
}

pub proof fn lemma_contains_push<A>(s: Seq<A>, a: A, x: A)
    ensures
        s.push(a).contains(x) <==> (s.contains(x) || a == x),
{
    if s.push(a).contains(x) {
        let i = choose|i: int| 0 <= i < s.push(a).len() && s.push(a)[i] == x;
        if i < s.len() {
            assert(s[i] == x);
        }
    }
    if s.contains(x) {
        let i = choose|i: int| 0 <= i < s.len() && s[i] == x;
        assert(s.push(a)[i] == x);
    }
    if a == x {
        assert(s.push(a)[s.len() as int] == x);
    }
}

pub proof fn lemma_contains_drop_last<A>(s: Seq<A>, x: A)
    requires
        s.len() > 0,
    ensures
        s.contains(x) <==> (s.drop_last().contains(x) || s.last() == x),
{
    assert(s.drop_last().push(s.last()) == s);
    lemma_contains_push(s.drop_last(), s.last(), x);
}

pub proof fn lemma_push_no_duplicates<A>(s: Seq<A>, a: A)
    requires
        s.no_duplicates(),
        !s.contains(a),
    ensures
        s.push(a).no_duplicates(),
{
    let t = s.push(a);
    assert forall|i: int, j: int| 0 <= i < t.len() && 0 <= j < t.len() && i != j implies t[i]
        != t[j] by {
        if i == s.len() as int {
            if t[j] == a {
                assert(s[j] == a);
            }
        } else if j == s.len() as int {
            if t[i] == a {
                assert(s[i] == a);
            }
        } else {
            assert(t[i] == s[i] && t[j] == s[j]);
        }
    }
}

pub proof fn lemma_drop_last_no_duplicates<A>(s: Seq<A>)
    requires
        s.no_duplicates(),
        s.len() > 0,
    ensures
        s.drop_last().no_duplicates(),
        !s.drop_last().contains(s.last()),
{
    let d = s.drop_last();
    assert forall|i: int, j: int| 0 <= i < d.len() && 0 <= j < d.len() && i != j implies d[i]
        != d[j] by {
        assert(d[i] == s[i] && d[j] == s[j]);
    }
    if d.contains(s.last()) {
        let i = choose|i: int| 0 <= i < d.len() && d[i] == s.last();
        assert(s[i] == s[s.len() - 1]);
    }
}

/// An element is kept by `filter_by` exactly when `s` holds it and its
/// membership in `r` is the one asked for.
pub proof fn lemma_filter_by_contains<A>(s: Seq<A>, r: Seq<A>, present: bool, x: A)
    ensures
        filter_by(s, r, present).contains(x) <==> (s.contains(x) && r.contains(x) == present),
    decreases s.len(),
{
    if s.len() > 0 {
        lemma_filter_by_contains(s.drop_last(), r, present, x);
        lemma_contains_drop_last(s, x);
        lemma_contains_push(filter_by(s.drop_last(), r, present), s.last(), x);
    }
}

pub proof fn lemma_filter_by_no_duplicates<A>(s: Seq<A>, r: Seq<A>, present: bool)
    requires
        s.no_duplicates(),
    ensures
        filter_by(s, r, present).no_duplicates(),
    decreases s.len(),
{
    if s.len() > 0 {
        lemma_drop_last_no_duplicates(s);
        lemma_filter_by_no_duplicates(s.drop_last(), r, present);
        lemma_filter_by_contains(s.drop_last(), r, present, s.last());
        if r.contains(s.last()) == present {
            lemma_push_no_duplicates(filter_by(s.drop_last(), r, present), s.last());
        }
    }
}

/// `filter_by` keeps all of `s` when every element has the membership asked for.
pub proof fn lemma_filter_by_all<A>(s: Seq<A>, r: Seq<A>, present: bool)
    requires
        forall|x: A| s.contains(x) ==> r.contains(x) == present,
    ensures
        filter_by(s, r, present) == s,
    decreases s.len(),
{
    if s.len() > 0 {
        assert forall|x: A| s.drop_last().contains(x) implies r.contains(x) == present by {
            lemma_contains_drop_last(s, x);
        }
        lemma_filter_by_all(s.drop_last(), r, present);
        lemma_contains_drop_last(s, s.last());
        assert(s.drop_last().push(s.last()) == s);
    }
}

/// `filter_by` keeps nothing when no element has the membership asked for.
pub proof fn lemma_filter_by_none<A>(s: Seq<A>, r: Seq<A>, present: bool)
    requires
        forall|x: A| s.contains(x) ==> r.contains(x) != present,
    ensures
        filter_by(s, r, present).len() == 0,
{
    let f = filter_by(s, r, present);
    if f.len() > 0 {
        lemma_filter_by_contains(s, r, present, f[0]);
        assert(f.contains(f[0]));
    }
}

pub proof fn lemma_insert_contains<A>(s: Seq<A>, a: A, x: A)
    ensures
        insert(s, a).contains(x) <==> (s.contains(x) || a == x),
{
    lemma_contains_push(s, a, x);
}

pub proof fn lemma_insert_no_duplicates<A>(s: Seq<A>, a: A)
    requires
        s.no_duplicates(),
    ensures
        insert(s, a).no_duplicates(),
{
    if !s.contains(a) {
        lemma_push_no_duplicates(s, a);
    }
}

pub proof fn lemma_insert_all_contains<A>(s: Seq<A>, xs: Seq<A>, x: A)
    ensures
        insert_all(s, xs).contains(x) <==> (s.contains(x) || xs.contains(x)),
    decreases xs.len(),
{
    if xs.len() > 0 {
        lemma_insert_all_contains(s, xs.drop_last(), x);
        lemma_insert_contains(insert_all(s, xs.drop_last()), xs.last(), x);
        lemma_contains_drop_last(xs, x);
    }
}

pub proof fn lemma_insert_all_no_duplicates<A>(s: Seq<A>, xs: Seq<A>)
    requires
        s.no_duplicates(),
    ensures
        insert_all(s, xs).no_duplicates(),
    decreases xs.len(),
{
    if xs.len() > 0 {
        lemma_insert_all_no_duplicates(s, xs.drop_last());
        lemma_insert_no_duplicates(insert_all(s, xs.drop_last()), xs.last());
    }
}

/// Two filters agree on `s` when each element's membership tests agree.
pub proof fn lemma_filter_by_congruent<A>(s: Seq<A>, r1: Seq<A>, p1: bool, r2: Seq<A>, p2: bool)
    requires
        forall|x: A| s.contains(x) ==> ((r1.contains(x) == p1) == (r2.contains(x) == p2)),
    ensures
        filter_by(s, r1, p1) == filter_by(s, r2, p2),
    decreases s.len(),
{
    if s.len() > 0 {
        assert forall|x: A| s.drop_last().contains(x) implies ((r1.contains(x) == p1) == (
        r2.contains(x) == p2)) by {
            lemma_contains_drop_last(s, x);
        }
        lemma_filter_by_congruent(s.drop_last(), r1, p1, r2, p2);
        lemma_contains_drop_last(s, s.last());
    }
}

} // verus!
