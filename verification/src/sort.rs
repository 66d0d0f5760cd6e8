//! Stable insertion sort, specified as a recursive function: the definition
//! the scanner's sorting is proved equal to.

use vstd::prelude::*;

use crate::names::{lex_le, lex_lt};

verus! {

/// Inserts `x` into `s` behind every element whose key is not greater, so
/// that inserting each element of a list in turn sorts it stably.
pub open spec fn insert_sorted<T>(key: spec_fn(T) -> Seq<char>, s: Seq<T>, x: T) -> Seq<T>
    decreases s.len(),
{
    if s.len() == 0 {
        seq![x]
    } else if lex_lt(key(x), key(s.last())) {
        insert_sorted(key, s.drop_last(), x).push(s.last())
    } else {
        s.push(x)
    }
}

/// The stable sort of `s` by `key`: each element inserted, left to right,
/// into the sorted list of its predecessors.
pub open spec fn sort_by_key<T>(key: spec_fn(T) -> Seq<char>, s: Seq<T>) -> Seq<T>
    decreases s.len(),
{
    if s.len() == 0 {
        s
    } else {
        insert_sorted(key, sort_by_key(key, s.drop_last()), s.last())
    }
}

/// The keys of `s` are in ascending order.
pub open spec fn sorted_by_key<T>(key: spec_fn(T) -> Seq<char>, s: Seq<T>) -> bool {
    forall|i: int, j: int| 0 <= i <= j < s.len() ==> lex_le(key(#[trigger] s[i]), key(#[trigger] s[j]))
}

/// Characterizes `insert_sorted` by the insertion position: if everything
/// from `pos` on has a key greater than `x`'s, and the element before `pos`
/// (if any) does not, then inserting `x` lands exactly at `pos`.
pub proof fn lemma_insert_sorted_at<T>(key: spec_fn(T) -> Seq<char>, s: Seq<T>, x: T, pos: int)
    requires
        0 <= pos <= s.len(),
        forall|j: int| pos <= j < s.len() ==> lex_lt(key(x), key(#[trigger] s[j])),
        pos > 0 ==> !lex_lt(key(x), key(s[pos - 1])),
    ensures
        insert_sorted(key, s, x) =~= s.insert(pos, x),
    decreases s.len(),
{
    if pos == s.len() {
        if s.len() == 0 {
        } else {
            assert(!lex_lt(key(x), key(s.last())));
        }
    } else {
        assert(lex_lt(key(x), key(s.last())));
        lemma_insert_sorted_at(key, s.drop_last(), x, pos);
        assert(insert_sorted(key, s, x) =~= s.drop_last().insert(pos, x).push(s.last()));
    }
}

} // verus!
