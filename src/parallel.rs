use vstd::prelude::*;
use rayon::prelude::{IntoParallelIterator, ParallelIterator};

verus! {

/// Relies on rayon's `ParallelIterator::for_each` over
/// `(0..n).into_par_iter()`: `op` is called once with each index below `n`,
/// on any worker thread and in no fixed order.
#[verifier::external_body]
pub(crate) fn par_for_each_index<OP>(n: usize, op: OP)
    where
        OP: Fn(usize) + Sync + Send,
    requires
        forall|i: usize| i < n ==> op.requires((i,)),
{
    (0..n).into_par_iter().for_each(op)
}

} // verus!
