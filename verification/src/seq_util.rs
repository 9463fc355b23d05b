//! Small general facts about sequences that the stage proofs lean on.
use vstd::prelude::*;

verus! {

/// Pushing and then dropping the last element is the identity; the last
/// element of a pushed sequence is the pushed one.
pub broadcast proof fn lemma_push_drop_last<T>(s: Seq<T>, x: T)
    ensures
        (#[trigger] s.push(x)).drop_last() == s,
        s.push(x).last() == x,
{
    assert(s.push(x).drop_last() =~= s);
}

/// `take(i + 1)` of a sequence is `take(i)` plus the element at `i`.
pub broadcast proof fn lemma_take_one_more<T>(s: Seq<T>, i: int)
    requires
        0 <= i < s.len(),
    ensures
        (#[trigger] s.take(i + 1)).drop_last() == s.take(i),
        s.take(i + 1).last() == s[i],
{
    assert(s.take(i + 1).drop_last() =~= s.take(i));
}

/// Taking the whole length of a sequence is the identity.
pub broadcast proof fn lemma_take_all<T>(s: Seq<T>)
    ensures
        #[trigger] s.take(s.len() as int) == s,
{
    assert(s.take(s.len() as int) =~= s);
}

/// The facts above, as one group.
pub broadcast group group_seq_facts {
    vstd::group_vstd_default,
    vstd::seq_lib::lemma_seq_take_len,
    vstd::seq_lib::lemma_seq_take_index,
    vstd::seq_lib::lemma_seq_skip_len,
    vstd::seq_lib::lemma_seq_skip_index,
    lemma_push_drop_last,
    lemma_take_one_more,
    lemma_take_all,
}

} // verus!
