//! Turning an output vector into a discrete choice.
use crate::error::NetworkError;
use crate::scalar::Scalar;
use vstd::prelude::*;

verus! {

/// `i` is the first position of `values` that holds a largest element, by
/// rank.
pub open spec fn is_arg_max<T: Scalar>(values: Seq<T>, i: int) -> bool {
    &&& 0 <= i < values.len()
    &&& forall|j: int| 0 <= j < values.len() ==> (#[trigger] values[j]).rank() <= values[i].rank()
    &&& forall|j: int| 0 <= j < i ==> (#[trigger] values[j]).rank() < values[i].rank()
}

/// The position [`arg_max`] selects in a non-empty `values`.
pub open spec fn arg_max_of<T: Scalar>(values: Seq<T>) -> int {
    choose|i: int| is_arg_max(values, i)
}

/// The position of the largest element of `values`; among several largest
/// elements, the first. Fails with `EmptyOutput` on an empty vector.
pub fn arg_max<T: Scalar>(values: &Vec<T>) -> (r: Result<usize, NetworkError>)
    ensures
        match r {
            Ok(i) => is_arg_max(values@, i as int) && i == arg_max_of(values@),
            Err(e) => e == NetworkError::EmptyOutput && values@.len() == 0,
        },
{
    if values.len() == 0 {
        return Err(NetworkError::EmptyOutput);
    }
    let mut best: usize = 0;
    let mut best_key = values[0].order_key();
    let mut k: usize = 1;
    while k < values.len()
        invariant
            1 <= k <= values@.len(),
            best < k,
            best_key == values@[best as int].rank(),
            is_arg_max(values@.take(k as int), best as int),
        decreases values@.len() - k,
    {
        let key = values[k].order_key();
        proof {
            let shorter = values@.take(k as int);
            let longer = values@.take(k + 1);
            assert forall|j: int| 0 <= j < k implies #[trigger] longer[j] == shorter[j] by {}
            assert(longer[k as int] == values@[k as int]);
        }
        if key > best_key {
            best = k;
            best_key = key;
        }
        k = k + 1;
    }
    proof {
        assert(values@.take(k as int) =~= values@);
        lemma_arg_max_unique(values@, best as int, arg_max_of(values@));
    }
    Ok(best)
}

/// A vector has at most one arg-max position.
pub proof fn lemma_arg_max_unique<T: Scalar>(values: Seq<T>, i: int, j: int)
    requires
        is_arg_max(values, i),
        is_arg_max(values, j),
    ensures
        i == j,
{
    if i < j {
        assert(values[i].rank() < values[j].rank());
        assert(values[j].rank() <= values[i].rank());
    } else if j < i {
        assert(values[j].rank() < values[i].rank());
        assert(values[i].rank() <= values[j].rank());
    }
}

/// Where two positions hold elements of equal rank, the selection is never
/// the later one: a tie goes to the lower index.
pub proof fn lemma_tie_goes_to_lower_index<T: Scalar>(values: Seq<T>, low: int, high: int)
    requires
        0 <= low < high < values.len(),
        values[low].rank() == values[high].rank(),
    ensures
        is_arg_max(values, arg_max_of(values)),
        arg_max_of(values) != high,
        is_arg_max(values, high) == false,
{
    lemma_arg_max_exists(values, values.len());
    assert(values.take(values.len() as int) =~= values);
    let i = arg_max_of(values);
    if is_arg_max(values, high) {
        assert(values[low].rank() < values[high].rank());
    }
}

/// Every non-empty prefix of a vector has an arg-max position.
proof fn lemma_arg_max_exists<T: Scalar>(values: Seq<T>, n: nat)
    requires
        0 < n <= values.len(),
    ensures
        exists|i: int| is_arg_max(values.take(n as int), i),
    decreases n,
{
    let prefix = values.take(n as int);
    if n == 1 {
        assert(is_arg_max(prefix, 0));
    } else {
        lemma_arg_max_exists(values, (n - 1) as nat);
        let shorter = values.take(n - 1);
        let b = choose|i: int| is_arg_max(shorter, i);
        assert forall|j: int| 0 <= j < n - 1 implies #[trigger] prefix[j] == shorter[j] by {}
        if prefix[n - 1].rank() > prefix[b].rank() {
            assert(is_arg_max(prefix, n - 1));
        } else {
            assert(is_arg_max(prefix, b));
        }
    }
}

} // verus!
