//! Lists of entries that stand for maps: a key is to occur once.

use vstd::prelude::*;

verus! {

/// Whether no key occurs twice in a list of entries, so that the list is a
/// map from its keys.
pub open spec fn distinct_keys<V>(entries: Seq<(String, V)>) -> bool {
    forall|i: int, j: int|
        0 <= i < j < entries.len() ==> (#[trigger] entries[i]).0@ != (#[trigger] entries[j]).0@
}

/// The same of a list of labels as it reads.
pub open spec fn distinct_labels(labels: Seq<(Seq<char>, Seq<char>)>) -> bool {
    forall|i: int, j: int|
        0 <= i < j < labels.len() ==> (#[trigger] labels[i]).0 != (#[trigger] labels[j]).0
}

/// Tells whether no key occurs twice in `entries`.
pub fn has_distinct_keys<V>(entries: &Vec<(String, V)>) -> (distinct: bool)
    ensures
        distinct == distinct_keys(entries@),
{
    let mut j: usize = 0;
    while j < entries.len()
        invariant
            j <= entries.len(),
            distinct_keys(entries@.take(j as int)),
        decreases entries.len() - j,
    {
        let mut i: usize = 0;
        while i < j
            invariant
                i <= j < entries.len(),
                forall|k: int| 0 <= k < i ==> (#[trigger] entries@[k]).0@ != entries@[j as int].0@,
            decreases j - i,
        {
            if entries[i].0 == entries[j].0 {
                return false;
            }
            i = i + 1;
        }
        assert forall|a: int, b: int| 0 <= a < b < j + 1 implies (#[trigger] entries@.take(
            j + 1,
        )[a]).0@ != (#[trigger] entries@.take(j + 1)[b]).0@ by {
            if b < j {
                assert(entries@.take(j as int)[a].0@ != entries@.take(j as int)[b].0@);
            }
        }
        j = j + 1;
    }
    assert(entries@.take(j as int) =~= entries@);
    true
}

/// The labels of a list of pairs are distinct where its keys are.
pub proof fn lemma_labels_of_distinct_keys(labels: Vec<(String, String)>)
    ensures
        distinct_keys(labels@) <==> distinct_labels(labels.deep_view()),
{
    let read = labels.deep_view();
    assert forall|i: int| 0 <= i < labels@.len() implies (#[trigger] read[i]).0 == labels@[i].0@ by {}
    if distinct_keys(labels@) {
        assert forall|i: int, j: int| 0 <= i < j < read.len() implies (#[trigger] read[i]).0 != (
        #[trigger] read[j]).0 by {
            assert(labels@[i].0@ != labels@[j].0@);
        }
    }
    if distinct_labels(read) {
        assert forall|i: int, j: int| 0 <= i < j < labels@.len() implies (#[trigger] labels@[i]).0@
            != (#[trigger] labels@[j]).0@ by {
            assert(read[i].0 != read[j].0);
        }
    }
}

} // verus!
