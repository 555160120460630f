//! Lexicographic order on words.
//!
//! Keys made of several parts are compared by the words that stand for them,
//! part after part, so one order serves every key type.

use crate::paths::PathOrder;
use vstd::prelude::*;

verus! {

/// The two keys agree before `at`, and there `left` ends or has the smaller
/// word.
pub open spec fn words_less_at(left: Seq<u64>, right: Seq<u64>, at: int) -> bool {
    &&& 0 <= at <= left.len()
    &&& at < right.len()
    &&& forall|i: int| 0 <= i < at ==> left[i] == right[i]
    &&& at == left.len() || left[at] < right[at]
}

/// `left` comes before `right`.
pub open spec fn words_less(left: Seq<u64>, right: Seq<u64>) -> bool {
    exists|at: int| words_less_at(left, right, at)
}

/// No key comes before itself, and of two keys at most one comes first.
pub proof fn lemma_words_asymmetric(left: Seq<u64>, right: Seq<u64>)
    requires
        words_less(left, right),
    ensures
        left != right,
        !words_less(right, left),
{
    let i = choose|at: int| words_less_at(left, right, at);
    if left == right {
        assert(left[i] == right[i]);
    }
    if words_less(right, left) {
        let j = choose|at: int| words_less_at(right, left, at);
        if i < j {
            assert(right[i] == left[i]);
        } else if j < i {
            assert(left[j] == right[j]);
        }
    }
}

/// The order is transitive.
pub proof fn lemma_words_transitive(first: Seq<u64>, second: Seq<u64>, third: Seq<u64>)
    requires
        words_less(first, second),
        words_less(second, third),
    ensures
        words_less(first, third),
{
    let i = choose|at: int| words_less_at(first, second, at);
    let j = choose|at: int| words_less_at(second, third, at);
    let k = if i < j {
        i
    } else {
        j
    };
    assert forall|n: int| 0 <= n < k implies first[n] == third[n] by {
        assert(first[n] == second[n]);
        assert(second[n] == third[n]);
    }
    if i < j {
        assert(second[i] == third[i]);
    } else if j < i {
        assert(first[j] == second[j]);
    }
    assert(words_less_at(first, third, k));
}

/// Which of two keys comes first.
pub fn compare_words(left: &Vec<u64>, right: &Vec<u64>) -> (order: PathOrder)
    ensures
        order == PathOrder::Less <==> words_less(left@, right@),
        order == PathOrder::Equal <==> left@ == right@,
        order == PathOrder::Greater <==> words_less(right@, left@),
{
    let mut i: usize = 0;
    while i < left.len() && i < right.len()
        invariant
            i <= left@.len(),
            i <= right@.len(),
            forall|n: int| 0 <= n < i ==> left@[n] == right@[n],
        decreases left@.len() - i,
    {
        if left[i] < right[i] {
            proof {
                assert(words_less_at(left@, right@, i as int));
                lemma_words_asymmetric(left@, right@);
            }
            return PathOrder::Less;
        }
        if right[i] < left[i] {
            proof {
                assert(words_less_at(right@, left@, i as int));
                lemma_words_asymmetric(right@, left@);
            }
            return PathOrder::Greater;
        }
        i += 1;
    }
    if i < right.len() {
        proof {
            assert(words_less_at(left@, right@, i as int));
            lemma_words_asymmetric(left@, right@);
        }
        PathOrder::Less
    } else if i < left.len() {
        proof {
            assert(words_less_at(right@, left@, i as int));
            lemma_words_asymmetric(right@, left@);
        }
        PathOrder::Greater
    } else {
        proof {
            assert(left@ =~= right@);
            if words_less(left@, right@) {
                lemma_words_asymmetric(left@, right@);
            }
            if words_less(right@, left@) {
                lemma_words_asymmetric(right@, left@);
            }
        }
        PathOrder::Equal
    }
}

/// The keys strictly increase.
pub open spec fn strictly_increasing(keys: Seq<Seq<u64>>) -> bool {
    forall|i: int, j: int|
        #![trigger keys[i], keys[j]]
        0 <= i < j < keys.len() ==> words_less(keys[i], keys[j])
}

/// Putting a new key at its place keeps the keys increasing.
pub proof fn lemma_insert_keeps_order(keys: Seq<Seq<u64>>, key: Seq<u64>, at: int)
    requires
        strictly_increasing(keys),
        0 <= at <= keys.len(),
        at > 0 ==> words_less(keys[at - 1], key),
        at < keys.len() ==> words_less(key, keys[at]),
    ensures
        strictly_increasing(keys.insert(at, key)),
{
    let grown = keys.insert(at, key);
    assert forall|i: int, j: int|
        #![trigger grown[i], grown[j]]
        0 <= i < j < grown.len() implies words_less(grown[i], grown[j]) by {
        let old_i = if i < at {
            i
        } else {
            i - 1
        };
        let old_j = if j < at {
            j
        } else {
            j - 1
        };
        if i == at {
            assert(grown[j] == keys[old_j]);
            if old_j > at {
                assert(words_less(keys[at], keys[old_j]));
                lemma_words_transitive(key, keys[at], keys[old_j]);
            }
        } else if j == at {
            assert(grown[i] == keys[old_i]);
            if old_i < at - 1 {
                assert(words_less(keys[old_i], keys[at - 1]));
                lemma_words_transitive(keys[old_i], keys[at - 1], key);
            }
        } else {
            assert(grown[i] == keys[old_i]);
            assert(grown[j] == keys[old_j]);
        }
    }
}

} // verus!
