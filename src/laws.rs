//! Properties that relate several batch results to one another.
use vstd::prelude::*;
use tfhe::{ClientKey, ServerKey};
use crate::cipher::{
    checked_result, cipher_result, decrypted, flag_value, is_checked_batch, is_cipher_batch, key_pair,
    quotients_outcome, Checked, Ciphertext,
};
use crate::clear::{clear_spec, position_ok};
use crate::mode::Operator;
use crate::dispatch::{is_batch_result, is_functional};

verus! {

/// The sequence `s` reordered by the index map `sigma`: entry `j` of the
/// result is entry `sigma[j]` of `s`.
pub open spec fn permuted<T>(s: Seq<T>, sigma: Seq<int>) -> Seq<T> {
    Seq::new(sigma.len(), |j: int| s[sigma[j]])
}

/// `sigma` is a permutation of the positions `0 .. n`.
pub open spec fn is_permutation(sigma: Seq<int>, n: nat) -> bool {
    &&& sigma.len() == n
    &&& forall|j: int| 0 <= j < n ==> 0 <= #[trigger] sigma[j] < n
    &&& forall|j: int, k: int| 0 <= j < n && 0 <= k < n && j != k ==> sigma[j] != sigma[k]
}

/// The execution mode affects only scheduling: for an operation that gives one
/// result per pair of operands, any two batch results on the same left operand
/// and the same right operands are equal, position by position. `dispatch`
/// ensures the same `is_batch_result` in `Parallel` and in `SingleThreaded`
/// mode, so its results in the two modes are equal.
pub proof fn lemma_mode_does_not_change_result<T, U, F: Fn(&T, &T) -> U>(
    f: F,
    left: T,
    rights: Seq<T>,
    r_parallel: Seq<U>,
    r_sequential: Seq<U>,
)
    requires
        is_functional(f),
        is_batch_result(f, left, rights, r_parallel),
        is_batch_result(f, left, rights, r_sequential),
    ensures
        r_parallel == r_sequential,
{
    assert forall|i: int| 0 <= i < r_parallel.len() implies r_parallel[i] == r_sequential[i] by {
        assert(f.ensures((&left, &rights[i]), r_parallel[i]));
        assert(f.ensures((&left, &rights[i]), r_sequential[i]));
    }
    assert(r_parallel =~= r_sequential);
}

/// A batch result has exactly one entry per right operand; in particular an
/// empty sequence of right operands gives an empty result.
pub proof fn lemma_length_matches<T, U, F: Fn(&T, &T) -> U>(f: F, left: T, rights: Seq<T>, r: Seq<U>)
    requires
        is_batch_result(f, left, rights, r),
    ensures
        r.len() == rights.len(),
        rights.len() == 0 ==> r == Seq::<U>::empty(),
{
    if rights.len() == 0 {
        assert(r =~= Seq::<U>::empty());
    }
}

/// Order is preserved: permuting the right operands by `sigma` permutes the
/// result by the same `sigma`.
pub proof fn lemma_permutation_carries_over<T, U, F: Fn(&T, &T) -> U>(
    f: F,
    left: T,
    rights: Seq<T>,
    sigma: Seq<int>,
    r: Seq<U>,
    r_permuted: Seq<U>,
)
    requires
        is_functional(f),
        is_permutation(sigma, rights.len()),
        is_batch_result(f, left, rights, r),
        is_batch_result(f, left, permuted(rights, sigma), r_permuted),
    ensures
        r_permuted == permuted(r, sigma),
{
    let p = permuted(rights, sigma);
    assert forall|j: int| 0 <= j < r_permuted.len() implies r_permuted[j] == permuted(r, sigma)[j] by {
        let k = sigma[j];
        assert(0 <= k < rights.len());
        assert(p[j] == rights[k]);
        assert(f.ensures((&left, &p[j]), r_permuted[j]));
        assert(f.ensures((&left, &rights[k]), r[k]));
    }
    assert(r_permuted =~= permuted(r, sigma));
}

/// On ciphertexts the execution mode does not change the result either: under
/// every client key of `key`, any two results that `dispatch_cipher` may
/// return for the same operator and operands, one per mode, decrypt to the
/// same value at every position that has a cleartext result.
pub proof fn lemma_cipher_mode_does_not_change_result(
    op: Operator,
    key: ServerKey,
    left: Ciphertext,
    rights: Seq<Ciphertext>,
    r_parallel: Seq<Ciphertext>,
    r_sequential: Seq<Ciphertext>,
)
    requires
        is_cipher_batch(op, key, left, rights, r_parallel),
        is_cipher_batch(op, key, left, rights, r_sequential),
    ensures
        r_parallel.len() == r_sequential.len(),
        forall|ck: ClientKey, i: int|
            key_pair(ck, key) && 0 <= i < rights.len()
                && clear_spec(op, decrypted(ck, left), decrypted(ck, rights[i])) is Some ==>
                #[trigger] decrypted(ck, r_parallel[i]) == decrypted(ck, r_sequential[i]),
{
    assert forall|ck: ClientKey, i: int|
        key_pair(ck, key) && 0 <= i < rights.len()
            && clear_spec(op, decrypted(ck, left), decrypted(ck, rights[i])) is Some implies
            #[trigger] decrypted(ck, r_parallel[i]) == decrypted(ck, r_sequential[i]) by {
        assert(cipher_result(op, key, left, rights[i], r_parallel[i]));
        assert(cipher_result(op, key, left, rights[i], r_sequential[i]));
    }
}

/// On ciphertexts, permuting the right operands by `sigma` permutes the
/// decrypted results by the same `sigma`, under every client key of `key`.
pub proof fn lemma_cipher_permutation_carries_over(
    op: Operator,
    key: ServerKey,
    left: Ciphertext,
    rights: Seq<Ciphertext>,
    sigma: Seq<int>,
    r: Seq<Ciphertext>,
    r_permuted: Seq<Ciphertext>,
)
    requires
        is_permutation(sigma, rights.len()),
        is_cipher_batch(op, key, left, rights, r),
        is_cipher_batch(op, key, left, permuted(rights, sigma), r_permuted),
    ensures
        r_permuted.len() == r.len(),
        forall|ck: ClientKey, j: int|
            key_pair(ck, key) && 0 <= j < rights.len()
                && clear_spec(op, decrypted(ck, left), decrypted(ck, rights[sigma[j]])) is Some ==>
                #[trigger] decrypted(ck, r_permuted[j]) == decrypted(ck, r[sigma[j]]),
{
    let p = permuted(rights, sigma);
    assert forall|ck: ClientKey, j: int|
        key_pair(ck, key) && 0 <= j < rights.len()
            && clear_spec(op, decrypted(ck, left), decrypted(ck, rights[sigma[j]])) is Some implies
            #[trigger] decrypted(ck, r_permuted[j]) == decrypted(ck, r[sigma[j]]) by {
        let k = sigma[j];
        assert(0 <= k < rights.len());
        assert(p[j] == rights[k]);
        assert(cipher_result(op, key, left, p[j], r_permuted[j]));
        assert(cipher_result(op, key, left, rights[k], r[k]));
    }
}

/// A division by zero is reported, in either mode: decrypting the result of
/// `dispatch_division` with `decrypt_quotients` fails exactly when some divisor
/// decrypts to zero, and then names the first such position; otherwise it
/// gives every quotient, in order.
pub proof fn lemma_zero_divisor_reported(
    ck: ClientKey,
    key: ServerKey,
    left: Ciphertext,
    rights: Seq<Ciphertext>,
    rs: Seq<Checked<Ciphertext>>,
    outcome: Result<Vec<u64>, usize>,
)
    requires
        key_pair(ck, key),
        is_checked_batch(key, left, rights, rs),
        quotients_outcome(ck, rs, outcome),
    ensures
        outcome is Err <==> exists|i: int| 0 <= i < rights.len() && decrypted(ck, #[trigger] rights[i]) == 0,
        outcome matches Err(p) ==> {
            &&& p < rights.len()
            &&& decrypted(ck, rights[p as int]) == 0
            &&& forall|j: int| 0 <= j < p ==> decrypted(ck, #[trigger] rights[j]) != 0
        },
        outcome matches Ok(v) ==> {
            &&& v@.len() == rights.len()
            &&& forall|i: int| 0 <= i < rights.len() ==>
                #[trigger] v@[i] == decrypted(ck, left) / decrypted(ck, rights[i])
        },
{
    assert forall|i: int| 0 <= i < rights.len() implies
        (flag_value(ck, rs[i].divisor_is_zero) <==> decrypted(ck, #[trigger] rights[i]) == 0) by {
        assert(checked_result(key, left, rights[i], rs[i]));
    }
    match outcome {
        Ok(v) => {
            assert forall|i: int| 0 <= i < rights.len() implies
                #[trigger] v@[i] == decrypted(ck, left) / decrypted(ck, rights[i]) by {
                assert(checked_result(key, left, rights[i], rs[i]));
                assert(!flag_value(ck, rs[i].divisor_is_zero));
            }
            if exists|i: int| 0 <= i < rights.len() && decrypted(ck, #[trigger] rights[i]) == 0 {
                let i = choose|i: int| 0 <= i < rights.len() && decrypted(ck, #[trigger] rights[i]) == 0;
                assert(!flag_value(ck, rs[i].divisor_is_zero));
            }
        },
        Err(p) => {
            assert(decrypted(ck, rights[p as int]) == 0);
            assert forall|j: int| 0 <= j < p implies decrypted(ck, #[trigger] rights[j]) != 0 by {
                assert(!flag_value(ck, rs[j].divisor_is_zero));
            }
        },
    }
}

/// A division by an operand that is zero never passes the check of decrypted
/// results: its position fails, whatever value was decrypted there.
pub proof fn lemma_zero_divisor_fails(a: u64, bs: Seq<u64>, decrypted: Seq<u64>, i: int)
    requires
        0 <= i < bs.len(),
        bs[i] == 0,
    ensures
        !position_ok(Operator::Div, a, bs, decrypted, i),
{
}

} // verus!
