//! Lookup by key over rows in no particular order.
use vstd::prelude::*;


verus! {

/// The index of the first entry of `ids` equal to `key`.
pub open spec fn first_match(ids: Seq<int>, key: int) -> Option<int>
    decreases ids.len(),
{
    if ids.len() == 0 {
        None
    } else {
        match first_match(ids.drop_last(), key) {
            Some(i) => Some(i),
            None => if ids.last() == key {
                Some(ids.len() - 1)
            } else {
                None
            },
        }
    }
}

/// A match is in range and is a match.
pub proof fn lemma_first_match_in_range(ids: Seq<int>, key: int)
    ensures
        first_match(ids, key) matches Some(i) ==> 0 <= i < ids.len() && ids[i] == key,
    decreases ids.len(),
{
    if ids.len() > 0 {
        lemma_first_match_in_range(ids.drop_last(), key);
    }
}

proof fn lemma_first_match_extends(ids: Seq<int>, key: int, i: int, m: int)
    requires
        0 <= i < m <= ids.len(),
        first_match(ids.take(i + 1), key) == Some(i),
    ensures
        first_match(ids.take(m), key) == Some(i),
    decreases m - i,
{
    if m > i + 1 {
        lemma_first_match_extends(ids, key, i, m - 1);
        assert(ids.take(m).drop_last() =~= ids.take(m - 1));
    }
}

/// A row type with a numeric primary key.
pub trait KeyedRow: Sized {
    spec fn key_of(&self) -> int;

    /// The key of the row, widened to `i64`.
    fn key_value(&self) -> (r: i64)
        ensures
            r == self.key_of(),
    ;
}

/// The keys of `rows`, in order.
pub open spec fn keys_of<R: KeyedRow>(rows: Seq<R>) -> Seq<int> {
    rows.map_values(|r: R| r.key_of())
}

/// The index of the first of `rows` whose key is `key`: a linear scan, since
/// keys are neither unique nor ordered.
pub fn position<R: KeyedRow>(rows: &[R], key: i64) -> (r: Option<usize>)
    ensures
        match first_match(keys_of(rows@), key as int) {
            Some(i) => r matches Some(j) && j == i,
            None => r is None,
        },
        r matches Some(i) ==> i < rows@.len() && rows@[i as int].key_of() == key,
{
    let ghost ids = keys_of(rows@);
    proof {
        lemma_first_match_in_range(ids, key as int);
    }
    let mut i: usize = 0;
    assert(ids.take(0) =~= seq![]);
    while i < rows.len()
        invariant
            ids == keys_of(rows@),
            i <= rows@.len(),
            first_match(ids.take(i as int), key as int) is None,
        decreases rows@.len() - i,
    {
        assert(ids.take(i + 1).drop_last() =~= ids.take(i as int));
        if rows[i].key_value() == key {
            proof {
                lemma_first_match_extends(ids, key as int, i as int, ids.len() as int);
                assert(ids.take(ids.len() as int) =~= ids);
            }
            return Some(i);
        }
        i += 1;
    }
    assert(ids.take(ids.len() as int) =~= ids);
    None
}

} // verus!
