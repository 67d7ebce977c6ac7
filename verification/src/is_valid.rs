//! Vega's `isValid(value)` expression function on a column.
use vstd::prelude::*;

verus! {

/// Vega's `isValid`: whether each value is non-null.  (NaN counts as valid.)
pub fn is_valid<T>(values: &Vec<Option<T>>) -> (res: Vec<bool>)
    ensures
        res@.len() == values@.len(),
        forall|i: int| 0 <= i < values@.len() ==> #[trigger] res@[i] == values@[i] is Some,
{
    let mut res: Vec<bool> = Vec::new();
    let mut i: usize = 0;
    while i < values.len()
        invariant
            i <= values.len(),
            res@.len() == i,
            forall|j: int| 0 <= j < i ==> #[trigger] res@[j] == values@[j] is Some,
        decreases values.len() - i,
    {
        res.push(values[i].is_some());
        i = i + 1;
    }
    res
}

} // verus!
