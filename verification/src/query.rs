//! Query parameters as a mapping: each key has one value, the last that was
//! set for it.

use vstd::prelude::*;
use crate::header::{has_name, Field};

verus! {

/// The position-by-position rewrite of a list in which every pair named
/// `key` gets the value `value`.
pub open spec fn replaced(pairs: Seq<Field>, key: Seq<char>, value: Seq<char>) -> Seq<Field> {
    Seq::new(
        pairs.len(),
        |i: int|
            if pairs[i].0 == key {
                (key, value)
            } else {
                pairs[i]
            },
    )
}

/// A list of parameters after one is set: where the key is in the list its
/// value is replaced, where it is not the pair is added at the end. The last
/// value set for a key is the one that stays.
pub open spec fn with_param(pairs: Seq<Field>, key: Seq<char>, value: Seq<char>) -> Seq<Field> {
    if has_name(pairs, key) {
        replaced(pairs, key, value)
    } else {
        pairs.push((key, value))
    }
}

/// No two pairs of the list have the same key.
pub open spec fn distinct_keys(pairs: Seq<Field>) -> bool {
    forall|i: int, j: int|
        0 <= i < j < pairs.len() ==> (#[trigger] pairs[i]).0 != (#[trigger] pairs[j]).0
}

/// Sets a parameter: the last value given for a key wins.
pub fn set_param(pairs: &mut Vec<(String, String)>, key: String, value: String)
    ensures
        final(pairs).deep_view() == with_param(old(pairs).deep_view(), key@, value@),
{
    let ghost before = pairs.deep_view();
    let mut found = false;
    let mut i: usize = 0;
    while i < pairs.len()
        invariant
            i <= pairs.len(),
            pairs.len() == before.len(),
            found == has_name(before.take(i as int), key@),
            forall|j: int|
                0 <= j < i ==> (#[trigger] pairs@[j]).deep_view() == replaced(
                    before,
                    key@,
                    value@,
                )[j],
            forall|j: int|
                i <= j < pairs.len() ==> (#[trigger] pairs@[j]).deep_view() == before[j],
        decreases pairs.len() - i,
    {
        let ghost seen = before.take(i as int);
        let ghost next = before.take(i + 1);
        proof {
            assert(pairs@[i as int].deep_view() == before[i as int]);
            assert(next[i as int] == before[i as int]);
            assert forall|j: int| 0 <= j < i implies #[trigger] seen[j] == next[j] by {}
        }
        if pairs[i].0 == key {
            pairs.set(i, (key.clone(), value.clone()));
            found = true;
        } else {
            proof {
                if has_name(next, key@) {
                    let j = choose|j: int| 0 <= j < next.len() && (#[trigger] next[j]).0 == key@;
                    assert(seen[j].0 == key@);
                }
            }
        }
        i += 1;
    }
    assert(before.take(pairs.len() as int) =~= before);
    if found {
        assert(pairs.deep_view() =~= replaced(before, key@, value@));
    } else {
        pairs.push((key, value));
        assert(pairs.deep_view() =~= before.push((key@, value@)));
    }
}

/// Setting a parameter keeps the keys of a list distinct.
pub proof fn lemma_with_param_distinct(pairs: Seq<Field>, key: Seq<char>, value: Seq<char>)
    requires
        distinct_keys(pairs),
    ensures
        distinct_keys(with_param(pairs, key, value)),
{
    let after = with_param(pairs, key, value);
    assert forall|i: int, j: int| 0 <= i < j < after.len() implies (#[trigger] after[i]).0 != (
    #[trigger] after[j]).0 by {
        if has_name(pairs, key) {
            assert(after[i].0 == pairs[i].0);
            assert(after[j].0 == pairs[j].0);
        } else if j == pairs.len() {
            assert(after[i] == pairs[i]);
        } else {
            assert(after[i] == pairs[i]);
            assert(after[j] == pairs[j]);
        }
    }
}

/// After a parameter is set, its key has the value that was set, wherever
/// the key stands in the list, and it stands somewhere.
pub proof fn lemma_with_param_wins(pairs: Seq<Field>, key: Seq<char>, value: Seq<char>)
    ensures
        has_name(with_param(pairs, key, value), key),
        forall|i: int|
            0 <= i < with_param(pairs, key, value).len() && (#[trigger] with_param(
                pairs,
                key,
                value,
            )[i]).0 == key ==> with_param(pairs, key, value)[i].1 == value,
{
    let after = with_param(pairs, key, value);
    if has_name(pairs, key) {
        let i = choose|i: int| 0 <= i < pairs.len() && (#[trigger] pairs[i]).0 == key;
        assert(after[i].0 == key);
    } else {
        assert(after[pairs.len() as int].0 == key);
        assert forall|i: int|
            0 <= i < after.len() && (#[trigger] after[i]).0 == key implies after[i].1 == value by {
            if i < pairs.len() {
                assert(pairs[i].0 == key);
            }
        }
    }
}

/// A list of parameters read as a mapping: the pairs are set one after the
/// other, so that each key stands once, where it first stood, with the value
/// that was given for it last.
pub open spec fn settled(pairs: Seq<Field>) -> Seq<Field>
    decreases pairs.len(),
{
    if pairs.len() == 0 {
        Seq::<Field>::empty()
    } else {
        with_param(settled(pairs.drop_last()), pairs.last().0, pairs.last().1)
    }
}

/// Reads a list of parameters as a mapping.
pub fn settle(pairs: &Vec<(String, String)>) -> (res: Vec<(String, String)>)
    ensures
        res.deep_view() == settled(pairs.deep_view()),
{
    let ghost view = pairs.deep_view();
    let mut out: Vec<(String, String)> = Vec::new();
    let mut i: usize = 0;
    assert(out.deep_view() =~= settled(view.take(0)));
    while i < pairs.len()
        invariant
            i <= pairs.len(),
            view == pairs.deep_view(),
            out.deep_view() == settled(view.take(i as int)),
        decreases pairs.len() - i,
    {
        let pair = &pairs[i];
        proof {
            assert(view[i as int] == (pair.0@, pair.1@));
            assert(view.take(i + 1).drop_last() =~= view.take(i as int));
            assert(view.take(i + 1).last() == view[i as int]);
        }
        set_param(&mut out, pair.0.clone(), pair.1.clone());
        i += 1;
    }
    assert(view.take(pairs.len() as int) =~= view);
    out
}

/// A mapping has no key twice.
pub proof fn lemma_settled_distinct(pairs: Seq<Field>)
    ensures
        distinct_keys(settled(pairs)),
    decreases pairs.len(),
{
    if pairs.len() > 0 {
        lemma_settled_distinct(pairs.drop_last());
        lemma_with_param_distinct(settled(pairs.drop_last()), pairs.last().0, pairs.last().1);
    }
}

/// A list without a repeated key is already a mapping: it is read as it
/// stands, with each of its pairs.
pub proof fn lemma_settled_of_distinct(pairs: Seq<Field>)
    requires
        distinct_keys(pairs),
    ensures
        settled(pairs) == pairs,
    decreases pairs.len(),
{
    if pairs.len() > 0 {
        let front = pairs.drop_last();
        assert forall|i: int, j: int| 0 <= i < j < front.len() implies (#[trigger] front[i]).0 != (
        #[trigger] front[j]).0 by {
            assert(front[i] == pairs[i]);
            assert(front[j] == pairs[j]);
        }
        lemma_settled_of_distinct(front);
        if has_name(front, pairs.last().0) {
            let i = choose|i: int|
                0 <= i < front.len() && (#[trigger] front[i]).0 == pairs.last().0;
            assert(front[i] == pairs[i]);
            assert(pairs[pairs.len() - 1] == pairs.last());
        }
        assert(front.push(pairs.last()) =~= pairs);
    }
}

/// The last value wins: in the mapping, a key of the list has the value of
/// the last pair of the list with that key.
pub proof fn lemma_settled_last_wins(pairs: Seq<Field>, last: int)
    requires
        0 <= last < pairs.len(),
        forall|j: int| last < j < pairs.len() ==> (#[trigger] pairs[j]).0 != pairs[last].0,
    ensures
        has_name(settled(pairs), pairs[last].0),
        forall|i: int|
            0 <= i < settled(pairs).len() && (#[trigger] settled(pairs)[i]).0 == pairs[last].0
                ==> settled(pairs)[i].1 == pairs[last].1,
    decreases pairs.len(),
{
    let key = pairs[last].0;
    let value = pairs[last].1;
    let front = pairs.drop_last();
    let before = settled(front);
    let after = settled(pairs);
    if last == pairs.len() - 1 {
        assert(pairs.last() == pairs[last]);
        lemma_with_param_wins(before, key, value);
    } else {
        assert(front[last] == pairs[last]);
        assert forall|j: int| last < j < front.len() implies (#[trigger] front[j]).0
            != front[last].0 by {
            assert(front[j] == pairs[j]);
        }
        lemma_settled_last_wins(front, last);
        let other = pairs.last().0;
        assert(pairs.last() == pairs[pairs.len() - 1]);
        assert(other != key);
        let at = choose|i: int| 0 <= i < before.len() && (#[trigger] before[i]).0 == key;
        if has_name(before, other) {
            assert(after[at] == before[at]);
            assert forall|i: int|
                0 <= i < after.len() && (#[trigger] after[i]).0 == key implies after[i].1
                == value by {
                assert(before[i].0 == key);
            }
        } else {
            assert(after[at] == before[at]);
            assert forall|i: int|
                0 <= i < after.len() && (#[trigger] after[i]).0 == key implies after[i].1
                == value by {
                if i < before.len() {
                    assert(before[i].0 == key);
                }
            }
        }
    }
}

} // verus!
