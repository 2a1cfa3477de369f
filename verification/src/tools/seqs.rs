//! Helpers over sequences used by the collectors' specifications.
use vstd::prelude::*;

verus! {

/// The concatenation of `f` applied to each element, in order.
pub open spec fn flat_map<A, B>(s: Seq<A>, f: spec_fn(A) -> Seq<B>) -> Seq<B>
    decreases s.len(),
{
    if s.len() == 0 {
        Seq::empty()
    } else {
        flat_map(s.drop_last(), f) + f(s.last())
    }
}

/// One more element of the input adds its image at the end.
pub proof fn lemma_flat_map_take<A, B>(s: Seq<A>, f: spec_fn(A) -> Seq<B>, i: int)
    requires
        0 <= i < s.len(),
    ensures
        flat_map(s.take(i + 1), f) == flat_map(s.take(i), f) + f(s[i]),
{
    assert(s.take(i + 1).drop_last() =~= s.take(i));
}

/// The whole sequence is its longest prefix.
pub proof fn lemma_take_all<A>(s: Seq<A>)
    ensures
        s.take(s.len() as int) == s,
{
    assert(s.take(s.len() as int) =~= s);
}

/// The elements of a prefix one longer are those of the prefix and the next one.
pub proof fn lemma_take_to_set<A>(s: Seq<A>, i: int)
    requires
        0 <= i < s.len(),
    ensures
        s.take(i + 1).to_set() == s.take(i).to_set().insert(s[i]),
{
    let longer = s.take(i + 1);
    let shorter = s.take(i);
    assert forall|x: A| longer.to_set().contains(x) implies shorter.to_set().insert(s[i]).contains(x) by {
        let j = choose|j: int| 0 <= j < longer.len() && #[trigger] longer[j] == x;
        if j < i {
            assert(shorter[j] == x);
        }
    }
    assert forall|x: A| shorter.to_set().insert(s[i]).contains(x) implies longer.to_set().contains(x) by {
        if x == s[i] {
            assert(longer[i] == x);
        } else {
            let j = choose|j: int| 0 <= j < shorter.len() && #[trigger] shorter[j] == x;
            assert(longer[j] == x);
        }
    }
    assert(longer.to_set() =~= shorter.to_set().insert(s[i]));
}

/// What the image of an element holds, the whole image holds.
pub proof fn lemma_flat_map_contains<A, B>(s: Seq<A>, f: spec_fn(A) -> Seq<B>, i: int, x: B)
    requires
        0 <= i < s.len(),
        f(s[i]).contains(x),
    ensures
        flat_map(s, f).contains(x),
    decreases s.len(),
{
    let prefix = flat_map(s.drop_last(), f);
    let last = f(s.last());
    assert(flat_map(s, f) == prefix + last);
    if i == s.len() - 1 {
        let k = choose|k: int| 0 <= k < last.len() && last[k] == x;
        assert((prefix + last)[prefix.len() + k] == x);
    } else {
        assert(s.drop_last()[i] == s[i]);
        lemma_flat_map_contains(s.drop_last(), f, i, x);
        let k = choose|k: int| 0 <= k < prefix.len() && prefix[k] == x;
        assert((prefix + last)[k] == x);
    }
}

} // verus!
