use vstd::prelude::*;

verus! {

/// First-match lookup over an ordered sequence of key/value pairs.
///
/// Every keyed collection in this crate (JSON objects, archive entries,
/// pass field groups) is an ordered sequence, and every lookup returns
/// the first pair whose key matches; later pairs with the same key are
/// shadowed.
pub open spec fn assoc_first<V>(pairs: Seq<(Seq<char>, V)>, key: Seq<char>) -> Option<V>
    decreases pairs.len(),
{
    if pairs.len() == 0 {
        None
    } else if pairs[0].0 == key {
        Some(pairs[0].1)
    } else {
        assoc_first(pairs.skip(1), key)
    }
}

/// Skipping a prefix that holds no match leaves the lookup unchanged.
pub proof fn lemma_assoc_first_skip<V>(pairs: Seq<(Seq<char>, V)>, key: Seq<char>, i: int)
    requires
        0 <= i <= pairs.len(),
        forall|j: int| 0 <= j < i ==> pairs[j].0 != key,
    ensures
        assoc_first(pairs, key) == assoc_first(pairs.skip(i), key),
    decreases i,
{
    if i > 0 {
        lemma_assoc_first_skip(pairs, key, i - 1);
        assert(pairs.skip(i - 1)[0] == pairs[i - 1]);
        assert(pairs.skip(i - 1).skip(1) =~= pairs.skip(i));
    } else {
        assert(pairs.skip(0) =~= pairs);
    }
}

/// The documented tie-break on duplicate keys: when the pair at `i`
/// matches and no earlier pair does, the lookup returns exactly that
/// pair's value — the first occurrence wins.
pub proof fn lemma_assoc_first_found<V>(pairs: Seq<(Seq<char>, V)>, key: Seq<char>, i: int)
    requires
        0 <= i < pairs.len(),
        pairs[i].0 == key,
        forall|j: int| 0 <= j < i ==> pairs[j].0 != key,
    ensures
        assoc_first(pairs, key) == Some(pairs[i].1),
{
    lemma_assoc_first_skip(pairs, key, i);
    assert(pairs.skip(i)[0] == pairs[i]);
}

/// A sequence without a matching key yields no result.
pub proof fn lemma_assoc_first_none<V>(pairs: Seq<(Seq<char>, V)>, key: Seq<char>)
    requires
        forall|j: int| 0 <= j < pairs.len() ==> pairs[j].0 != key,
    ensures
        assoc_first(pairs, key) is None,
{
    lemma_assoc_first_skip(pairs, key, pairs.len() as int);
    assert(pairs.skip(pairs.len() as int).len() == 0);
}

/// Compares two string slices by their character sequences.
pub fn str_eq(a: &str, b: &str) -> (r: bool)
    ensures
        r == (a@ == b@),
{
    let sa = a.to_owned();
    let sb = b.to_owned();
    sa == sb
}

} // verus!
