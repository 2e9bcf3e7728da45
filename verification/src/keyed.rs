//! Sequences of named things: finding a name, and what it means for all the
//! names to differ. A name is any value that can be compared: a text, an id.

use vstd::prelude::*;

verus! {

pub open spec fn shift(found: Option<int>, by: int) -> Option<int> {
    match found {
        Some(i) => Some(i + by),
        None => None,
    }
}

/// The first position at which `name` occurs among `names`.
pub open spec fn index_of<T>(names: Seq<T>, name: T) -> Option<int>
    decreases names.len(),
{
    if names.len() == 0 {
        None
    } else if names[0] == name {
        Some(0)
    } else {
        shift(index_of(names.drop_first(), name), 1)
    }
}

/// No name occurs twice.
pub open spec fn distinct<T>(names: Seq<T>) -> bool {
    forall|i: int, j: int| 0 <= i < j < names.len() ==> names[i] != names[j]
}

/// What `index_of` finds is the first occurrence, and it finds one whenever
/// the name occurs.
pub proof fn lemma_index_of<T>(names: Seq<T>, name: T)
    ensures
        match index_of(names, name) {
            Some(i) => 0 <= i < names.len() && names[i] == name && forall|j: int|
                0 <= j < i ==> names[j] != name,
            None => forall|j: int| 0 <= j < names.len() ==> names[j] != name,
        },
    decreases names.len(),
{
    if names.len() > 0 && names[0] != name {
        let rest = names.drop_first();
        lemma_index_of(rest, name);
        match index_of(rest, name) {
            Some(i) => {
                assert forall|j: int| 0 <= j < i + 1 implies names[j] != name by {
                    if j > 0 {
                        assert(rest[j - 1] == names[j]);
                    }
                }
            },
            None => {
                assert forall|j: int| 0 <= j < names.len() implies names[j] != name by {
                    if j > 0 {
                        assert(rest[j - 1] == names[j]);
                    }
                }
            },
        }
    }
}

/// A name that stands at position `i`, and nowhere before it, is found there.
pub proof fn lemma_index_of_at<T>(names: Seq<T>, name: T, i: int)
    requires
        0 <= i < names.len(),
        names[i] == name,
        forall|j: int| 0 <= j < i ==> names[j] != name,
    ensures
        index_of(names, name) == Some(i),
{
    lemma_index_of(names, name);
}

/// A name that occurs nowhere is not found.
pub proof fn lemma_index_of_absent<T>(names: Seq<T>, name: T)
    requires
        forall|j: int| 0 <= j < names.len() ==> names[j] != name,
    ensures
        index_of(names, name) is None,
{
    lemma_index_of(names, name);
}

/// One step of a search from the front: past a position that does not hold
/// the name, the search goes on in what follows.
pub proof fn lemma_index_of_step<T>(names: Seq<T>, name: T, i: int)
    requires
        0 <= i < names.len(),
        names[i] != name,
    ensures
        shift(index_of(names.skip(i), name), i) == shift(index_of(names.skip(i + 1), name), i + 1),
{
    assert(names.skip(i).drop_first() =~= names.skip(i + 1));
}

/// Adding a name that did not occur keeps the names distinct.
pub proof fn lemma_distinct_push<T>(names: Seq<T>, name: T)
    requires
        distinct(names),
        index_of(names, name) is None,
    ensures
        distinct(names.push(name)),
{
    lemma_index_of(names, name);
}

/// Each of the first `n` names is found where it stands, and so occurs
/// nowhere before.
pub open spec fn found_in_place<T>(names: Seq<T>, n: int) -> bool {
    forall|k: int| 0 <= k < n ==> index_of(names, #[trigger] names[k]) == Some(k)
}

/// The names are distinct exactly when each is found where it stands.
pub proof fn lemma_distinct_found_in_place<T>(names: Seq<T>)
    ensures
        distinct(names) <==> found_in_place(names, names.len() as int),
{
    if distinct(names) {
        assert forall|k: int| 0 <= k < names.len() implies index_of(names, #[trigger] names[k])
            == Some(k) by {
            lemma_index_of(names, names[k]);
        }
    }
    if found_in_place(names, names.len() as int) {
        assert forall|i: int, j: int| 0 <= i < j < names.len() implies names[i] != names[j] by {
            lemma_index_of(names, names[j]);
            assert(index_of(names, names[j]) == Some(j));
        }
    }
}

} // verus!
