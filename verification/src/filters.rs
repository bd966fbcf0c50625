//! Facts about the entries that a filter keeps.

use vstd::prelude::*;

verus! {

/// Where no entry passes the test, none is kept.
pub proof fn lemma_filter_none<A>(s: Seq<A>, test: spec_fn(A) -> bool)
    requires
        forall|i: int| 0 <= i < s.len() ==> !test(#[trigger] s[i]),
    ensures
        s.filter(test) == Seq::<A>::empty(),
    decreases s.len(),
{
    reveal(Seq::filter);
    if s.len() > 0 {
        lemma_filter_none(s.drop_last(), test);
    }
}

/// Where every entry passes the test, all are kept.
pub proof fn lemma_filter_all<A>(s: Seq<A>, test: spec_fn(A) -> bool)
    requires
        forall|i: int| 0 <= i < s.len() ==> test(#[trigger] s[i]),
    ensures
        s.filter(test) == s,
    decreases s.len(),
{
    reveal(Seq::filter);
    if s.len() > 0 {
        lemma_filter_all(s.drop_last(), test);
        assert(s.drop_last().push(s.last()) =~= s);
    }
}

/// A test and its opposite part a sequence in two.
pub proof fn lemma_filter_partition<A>(
    s: Seq<A>,
    test: spec_fn(A) -> bool,
    other: spec_fn(A) -> bool,
)
    requires
        forall|a: A| #[trigger] other(a) == !test(a),
    ensures
        s.filter(test).len() + s.filter(other).len() == s.len(),
    decreases s.len(),
{
    reveal(Seq::filter);
    if s.len() > 0 {
        lemma_filter_partition(s.drop_last(), test, other);
    }
}

} // verus!
