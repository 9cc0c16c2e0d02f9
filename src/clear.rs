//! The meaning of the four operators on cleartext 64-bit integers, and the
//! check of decrypted batch results against it.
use vstd::prelude::*;
use crate::mode::Operator;

verus! {

/// What `a op b` is on 64-bit unsigned integers: addition, subtraction and
/// multiplication wrap modulo 2^64; division is the integer quotient and has
/// no value for a zero divisor.
pub open spec fn clear_spec(op: Operator, a: u64, b: u64) -> Option<u64> {
    match op {
        Operator::Add => Some(((a as int + b as int) % 0x1_0000_0000_0000_0000) as u64),
        Operator::Sub => Some(((a as int - b as int) % 0x1_0000_0000_0000_0000) as u64),
        Operator::Mul => Some(((a as int * b as int) % 0x1_0000_0000_0000_0000) as u64),
        Operator::Div => if b == 0 { None } else { Some((a / b) as u64) },
    }
}

/// Computes `a op b` on cleartext, the value a decrypted result is held to.
pub fn clear_result(op: Operator, a: u64, b: u64) -> (r: Option<u64>)
    ensures
        r == clear_spec(op, a, b),
{
    match op {
        Operator::Add => Some(a.wrapping_add(b)),
        Operator::Sub => Some(a.wrapping_sub(b)),
        Operator::Mul => Some(a.wrapping_mul(b)),
        Operator::Div => if b == 0 { None } else { Some(a / b) },
    }
}

} // verus!

verus! {

/// Position `i` of a decrypted batch is correct: both sequences reach it and
/// the decrypted value is the cleartext result of `a op bs[i]`, which exists.
pub open spec fn position_ok(op: Operator, a: u64, bs: Seq<u64>, decrypted: Seq<u64>, i: int) -> bool {
    &&& 0 <= i < bs.len()
    &&& i < decrypted.len()
    &&& clear_spec(op, a, bs[i]) == Some(decrypted[i])
}

/// Holds the decrypted results of a batch `a op bs[i]` to the cleartext
/// arithmetic. Returns `Ok` when every position is correct and nothing is
/// missing or extra, and otherwise `Err` with the first failing position. A
/// division by zero has no cleartext result, so it is always reported at its
/// position, whatever value came back for it.
pub fn check_decrypted(op: Operator, a: u64, bs: &Vec<u64>, decrypted: &Vec<u64>) -> (r: Result<(), usize>)
    ensures
        r is Ok <==> bs@.len() == decrypted@.len()
            && forall|i: int| 0 <= i < bs@.len() ==> position_ok(op, a, bs@, decrypted@, i),
        r matches Err(p) ==> {
            &&& !position_ok(op, a, bs@, decrypted@, p as int)
            &&& p <= bs@.len() && p <= decrypted@.len()
            &&& forall|j: int| 0 <= j < p ==> position_ok(op, a, bs@, decrypted@, j)
        },
{
    let n = if bs.len() < decrypted.len() { bs.len() } else { decrypted.len() };
    let mut i: usize = 0;
    while i < n
        invariant
            n <= bs@.len(),
            n <= decrypted@.len(),
            n == bs@.len() || n == decrypted@.len(),
            i <= n,
            forall|j: int| 0 <= j < i ==> position_ok(op, a, bs@, decrypted@, j),
        decreases n - i,
    {
        match clear_result(op, a, bs[i]) {
            Some(v) => {
                if v != decrypted[i] {
                    assert(!position_ok(op, a, bs@, decrypted@, i as int));
                    return Err(i);
                }
            },
            None => {
                assert(!position_ok(op, a, bs@, decrypted@, i as int));
                return Err(i);
            },
        }
        i = i + 1;
    }
    if bs.len() != decrypted.len() {
        assert(!position_ok(op, a, bs@, decrypted@, n as int));
        return Err(n);
    }
    Ok(())
}

} // verus!
