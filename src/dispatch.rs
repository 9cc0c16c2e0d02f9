//! Broadcasting one left operand over a sequence of right operands and
//! applying a binary operation at each position, in either execution mode.
use vstd::prelude::*;
use rayon::prelude::{IntoParallelRefIterator, ParallelIterator};
use crate::mode::ExecutionMode;

verus! {

/// `f` may be called on the left operand paired with every right operand.
pub open spec fn callable_on_all<T, U, F: Fn(&T, &T) -> U>(f: F, left: T, rights: Seq<T>) -> bool {
    forall|i: int| 0 <= i < rights.len() ==> f.requires((&left, &rights[i]))
}

/// `r` holds, position by position, a result of `f` on the left operand and
/// the right operand at the same position: the same length, no truncation,
/// no reordering.
pub open spec fn is_batch_result<T, U, F: Fn(&T, &T) -> U>(
    f: F,
    left: T,
    rights: Seq<T>,
    r: Seq<U>,
) -> bool {
    &&& r.len() == rights.len()
    &&& forall|i: int| 0 <= i < rights.len() ==> f.ensures((&left, &rights[i]), #[trigger] r[i])
}

/// `f` gives one result for each pair of arguments.
pub open spec fn is_functional<T, U, F: Fn(&T, &T) -> U>(f: F) -> bool {
    forall|a: T, b: T, r1: U, r2: U|
        f.ensures((&a, &b), r1) && f.ensures((&a, &b), r2) ==> r1 == r2
}

/// Applies `f` to each position in turn on the calling thread.
pub fn apply_sequential<T, U, F: Fn(&T, &T) -> U>(left: &T, rights: &Vec<T>, f: &F) -> (r: Vec<U>)
    requires
        callable_on_all(*f, *left, rights@),
    ensures
        is_batch_result(*f, *left, rights@, r@),
{
    let n = rights.len();
    let mut out: Vec<U> = Vec::with_capacity(n);
    let mut i: usize = 0;
    while i < n
        invariant
            n == rights@.len(),
            i <= n,
            callable_on_all(*f, *left, rights@),
            out@.len() == i,
            forall|j: int| 0 <= j < i ==> f.ensures((left, &rights@[j]), #[trigger] out@[j]),
        decreases n - i,
    {
        let y = f(left, &rights[i]);
        out.push(y);
        i = i + 1;
    }
    out
}

/// Relies on rayon's `par_iter().map(..).collect()` over a slice: an indexed
/// parallel iterator collected into a `Vec` keeps the positions of its input,
/// and each element is the closure's result on the element at that position.
#[verifier::external_body]
fn par_map_collect<T: Sync + Send, U: Send, F: Fn(&T, &T) -> U + Sync>(
    left: &T,
    rights: &Vec<T>,
    f: &F,
) -> (r: Vec<U>)
    requires
        callable_on_all(*f, *left, rights@),
    ensures
        is_batch_result(*f, *left, rights@, r@),
{
    rights.par_iter().map(|y| f(left, y)).collect()
}

/// Broadcasts `left` over `rights` and applies `f` at each position, over a
/// pool of worker threads or on the calling thread as `mode` says. The result
/// has one entry per right operand, in the same order, in both modes.
pub fn dispatch<T: Sync + Send, U: Send, F: Fn(&T, &T) -> U + Sync>(
    left: &T,
    rights: &Vec<T>,
    f: &F,
    mode: ExecutionMode,
) -> (r: Vec<U>)
    requires
        callable_on_all(*f, *left, rights@),
    ensures
        is_batch_result(*f, *left, rights@, r@),
{
    match mode {
        ExecutionMode::Parallel => par_map_collect(left, rights, f),
        ExecutionMode::SingleThreaded => apply_sequential(left, rights, f),
    }
}

} // verus!
