//! Lists.

use vstd::prelude::*;

verus! {

/// A list in the opposite order.
pub fn reversed<T>(list: Vec<T>) -> (opposite: Vec<T>)
    ensures
        opposite@ == list@.reverse(),
{
    let ghost all = list@;
    let mut rest = list;
    let mut opposite: Vec<T> = Vec::new();
    while rest.len() > 0
        invariant
            rest@.len() <= all.len(),
            rest@ == all.take(rest@.len() as int),
            opposite@ == all.reverse().take(all.len() - rest@.len()),
        decreases rest.len(),
    {
        let ghost left = rest@.len();
        match rest.pop() {
            Some(item) => {
                opposite.push(item);
                proof {
                    assert(rest@ =~= all.take(left - 1));
                    assert(opposite@ =~= all.reverse().take(all.len() - left + 1));
                }
            },
            None => {},
        }
    }
    assert(opposite@ =~= all.reverse());
    opposite
}

} // verus!
