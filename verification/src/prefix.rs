//! Facts about prefixes of sequences.
use vstd::prelude::*;

verus! {

/// A sequence is a prefix of itself.
pub broadcast proof fn lemma_prefix_refl<A>(s: Seq<A>)
    ensures
        #[trigger] s.is_prefix_of(s),
{
    assert(s =~= s.subrange(0, s.len() as int));
}

/// A sequence is a prefix of itself with one more element.
pub broadcast proof fn lemma_prefix_push<A>(s: Seq<A>, x: A)
    ensures
        #[trigger] s.is_prefix_of(s.push(x)),
{
    assert(s =~= s.push(x).subrange(0, s.len() as int));
}

/// Being a prefix is transitive.
pub broadcast proof fn lemma_prefix_trans<A>(a: Seq<A>, b: Seq<A>, c: Seq<A>)
    requires
        #[trigger] a.is_prefix_of(b),
        #[trigger] b.is_prefix_of(c),
    ensures
        a.is_prefix_of(c),
{
    assert forall|i: int| 0 <= i < a.len() implies a[i] == c[i] by {
        assert(a[i] == b.subrange(0, a.len() as int)[i]);
        assert(b[i] == c.subrange(0, b.len() as int)[i]);
    }
    assert(a =~= c.subrange(0, a.len() as int));
}

/// Pushing an element and dropping the last one gives the sequence back.
pub broadcast proof fn lemma_push_drop_last<A>(s: Seq<A>, x: A)
    ensures
        #[trigger] s.push(x).drop_last() == s,
{
    assert(s.push(x).drop_last() =~= s);
}

/// The elements of a prefix are those of the sequence it starts.
pub broadcast proof fn lemma_prefix_index<A>(a: Seq<A>, b: Seq<A>, i: int)
    requires
        #[trigger] a.is_prefix_of(b),
        0 <= i < a.len(),
    ensures
        #[trigger] b[i] == a[i],
{
    assert(b.subrange(0, a.len() as int)[i] == b[i]);
}

pub broadcast group group_prefix {
    lemma_prefix_index,
    lemma_push_drop_last,
    lemma_prefix_refl,
    lemma_prefix_push,
    lemma_prefix_trans,
}

} // verus!
