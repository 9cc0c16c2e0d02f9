//! Batch arithmetic on `FheUint64` ciphertexts under an explicit server key,
//! stated over the values the ciphertexts decrypt to.
//!
//! The server key of the encrypted-integer library is installed per thread,
//! so it is handed to each operator application: the application installs it
//! on whichever thread runs it, the calling thread or a worker of the pool,
//! and leaves it installed there.
use vstd::prelude::*;
use tfhe::prelude::{FheDecrypt, FheEncrypt, FheEq};
use tfhe::{ClientKey, FheBool, FheUint64, ServerKey};
use crate::clear::clear_spec;
use crate::mode::{ExecutionMode, Operator};
use crate::dispatch::dispatch;

verus! {

#[verifier::external_type_specification]
#[verifier::external_body]
pub struct ExServerKey(tfhe::ServerKey);

#[verifier::external_type_specification]
#[verifier::external_body]
pub struct ExClientKey(tfhe::ClientKey);

#[verifier::external_type_specification]
#[verifier::external_body]
pub struct ExFheBool(tfhe::FheBool);

/// One encrypted 64-bit unsigned integer, a `tfhe::FheUint64`. The library
/// never reads its contents. (Verus cannot be given tfhe's type directly,
/// since its generic parameter is bound by a trait that tfhe keeps private.)
#[verifier::external_body]
pub struct Ciphertext(pub FheUint64);

/// The value that `c` decrypts to under the client key `ck`.
pub uninterp spec fn decrypted(ck: ClientKey, c: Ciphertext) -> u64;

/// The value that the encrypted flag `f` decrypts to under `ck`.
pub uninterp spec fn flag_value(ck: ClientKey, f: FheBool) -> bool;

/// `sk` is the server key made from the client key `ck`.
pub uninterp spec fn key_pair(ck: ClientKey, sk: ServerKey) -> bool;

/// `c` is a ciphertext of the parameter set of `sk`, encrypted under the
/// client key that `sk` was made from, or computed from such ciphertexts.
pub uninterp spec fn fits_key(sk: ServerKey, c: Ciphertext) -> bool;

/// Relies on `tfhe::ServerKey::new`: the server key made from `ck`.
#[verifier::external_body]
fn fhe_server_key(ck: &ClientKey) -> (r: ServerKey)
    ensures
        key_pair(*ck, r),
{
    ServerKey::new(ck)
}

/// Relies on `FheUint64::encrypt` under a client key, which cannot fail for a
/// `u64`: the ciphertext decrypts to `v` and fits every server key of `ck`.
#[verifier::external_body]
fn fhe_encrypt(ck: &ClientKey, v: u64) -> (r: Ciphertext)
    ensures
        decrypted(*ck, r) == v,
        forall|sk: ServerKey| #[trigger] key_pair(*ck, sk) ==> fits_key(sk, r),
{
    Ciphertext(FheUint64::encrypt(v, ck))
}

/// Relies on `FheDecrypt<u64>::decrypt` for `FheUint64`.
#[verifier::external_body]
fn fhe_decrypt(ck: &ClientKey, c: &Ciphertext) -> (r: u64)
    ensures
        r == decrypted(*ck, *c),
{
    c.0.decrypt(ck)
}

/// Relies on `FheDecrypt<bool>::decrypt` for `FheBool`.
#[verifier::external_body]
fn fhe_decrypt_flag(ck: &ClientKey, f: &FheBool) -> (r: bool)
    ensures
        r == flag_value(*ck, *f),
{
    f.decrypt(ck)
}

/// Relies on `tfhe::set_server_key` and `&FheUint64 + &FheUint64`, which tfhe
/// documents as modular: the sum wraps around at 2^64.
#[verifier::external_body]
fn fhe_add(key: &ServerKey, a: &Ciphertext, b: &Ciphertext) -> (r: Ciphertext)
    requires
        fits_key(*key, *a),
        fits_key(*key, *b),
    ensures
        fits_key(*key, r),
        forall|ck: ClientKey| #[trigger] key_pair(ck, *key) ==>
            clear_spec(Operator::Add, decrypted(ck, *a), decrypted(ck, *b)) == Some(decrypted(ck, r)),
{
    tfhe::set_server_key(key.clone());
    Ciphertext(&a.0 + &b.0)
}

/// Relies on `tfhe::set_server_key` and `&FheUint64 - &FheUint64`, which tfhe
/// documents as modular: the difference wraps around at 2^64.
#[verifier::external_body]
fn fhe_sub(key: &ServerKey, a: &Ciphertext, b: &Ciphertext) -> (r: Ciphertext)
    requires
        fits_key(*key, *a),
        fits_key(*key, *b),
    ensures
        fits_key(*key, r),
        forall|ck: ClientKey| #[trigger] key_pair(ck, *key) ==>
            clear_spec(Operator::Sub, decrypted(ck, *a), decrypted(ck, *b)) == Some(decrypted(ck, r)),
{
    tfhe::set_server_key(key.clone());
    Ciphertext(&a.0 - &b.0)
}

/// Relies on `tfhe::set_server_key` and `&FheUint64 * &FheUint64`, which tfhe
/// documents as modular: the product wraps around at 2^64.
#[verifier::external_body]
fn fhe_mul(key: &ServerKey, a: &Ciphertext, b: &Ciphertext) -> (r: Ciphertext)
    requires
        fits_key(*key, *a),
        fits_key(*key, *b),
    ensures
        fits_key(*key, r),
        forall|ck: ClientKey| #[trigger] key_pair(ck, *key) ==>
            clear_spec(Operator::Mul, decrypted(ck, *a), decrypted(ck, *b)) == Some(decrypted(ck, r)),
{
    tfhe::set_server_key(key.clone());
    Ciphertext(&a.0 * &b.0)
}

/// Relies on `tfhe::set_server_key` and `&FheUint64 / &FheUint64`: the integer
/// quotient when the divisor is not zero. Nothing is stated of the value for
/// a zero divisor, which tfhe says not to rely on.
#[verifier::external_body]
fn fhe_div(key: &ServerKey, a: &Ciphertext, b: &Ciphertext) -> (r: Ciphertext)
    requires
        fits_key(*key, *a),
        fits_key(*key, *b),
    ensures
        fits_key(*key, r),
        forall|ck: ClientKey| #[trigger] key_pair(ck, *key) ==>
            clear_spec(Operator::Div, decrypted(ck, *a), decrypted(ck, *b)) is Some ==>
            clear_spec(Operator::Div, decrypted(ck, *a), decrypted(ck, *b)) == Some(decrypted(ck, r)),
{
    tfhe::set_server_key(key.clone());
    Ciphertext(&a.0 / &b.0)
}

/// Relies on `tfhe::set_server_key` and `FheEq<u64>::eq` for `FheUint64`: an
/// encrypted flag that is set exactly when `b` decrypts to zero.
#[verifier::external_body]
fn fhe_is_zero(key: &ServerKey, b: &Ciphertext) -> (r: FheBool)
    requires
        fits_key(*key, *b),
    ensures
        forall|ck: ClientKey| #[trigger] key_pair(ck, *key) ==>
            (flag_value(ck, r) <==> decrypted(ck, *b) == 0),
{
    tfhe::set_server_key(key.clone());
    b.0.eq(0u64)
}

/// Makes the server key of the client key `ck`.
pub fn new_server_key(ck: &ClientKey) -> (r: ServerKey)
    ensures
        key_pair(*ck, r),
{
    fhe_server_key(ck)
}

/// Encrypts `v` under `ck`.
pub fn encrypt(ck: &ClientKey, v: u64) -> (r: Ciphertext)
    ensures
        decrypted(*ck, r) == v,
        forall|sk: ServerKey| #[trigger] key_pair(*ck, sk) ==> fits_key(sk, r),
{
    fhe_encrypt(ck, v)
}

/// Decrypts every ciphertext of `cs` under `ck`, in order.
pub fn decrypt_all(ck: &ClientKey, cs: &Vec<Ciphertext>) -> (r: Vec<u64>)
    ensures
        r@.len() == cs@.len(),
        forall|i: int| 0 <= i < cs@.len() ==> r@[i] == decrypted(*ck, #[trigger] cs@[i]),
{
    let n = cs.len();
    let mut out: Vec<u64> = Vec::with_capacity(n);
    let mut i: usize = 0;
    while i < n
        invariant
            n == cs@.len(),
            i <= n,
            out@.len() == i,
            forall|j: int| 0 <= j < i ==> out@[j] == decrypted(*ck, #[trigger] cs@[j]),
        decreases n - i,
    {
        out.push(fhe_decrypt(ck, &cs[i]));
        i = i + 1;
    }
    out
}

/// `r` is a correct result of `a op b` under every client key of `key`: it
/// fits `key` and decrypts to the cleartext result wherever that exists.
pub open spec fn cipher_result(op: Operator, key: ServerKey, a: Ciphertext, b: Ciphertext, r: Ciphertext) -> bool {
    &&& fits_key(key, r)
    &&& forall|ck: ClientKey| #[trigger] key_pair(ck, key) ==>
        clear_spec(op, decrypted(ck, a), decrypted(ck, b)) is Some ==>
        clear_spec(op, decrypted(ck, a), decrypted(ck, b)) == Some(decrypted(ck, r))
}

/// Every entry of `s` fits `key`.
pub open spec fn all_fit(key: ServerKey, s: Seq<Ciphertext>) -> bool {
    forall|i: int| 0 <= i < s.len() ==> fits_key(key, #[trigger] s[i])
}

/// `r` holds, at each position `i`, a correct result of `left op rights[i]`.
pub open spec fn is_cipher_batch(
    op: Operator,
    key: ServerKey,
    left: Ciphertext,
    rights: Seq<Ciphertext>,
    r: Seq<Ciphertext>,
) -> bool {
    &&& r.len() == rights.len()
    &&& forall|i: int| 0 <= i < rights.len() ==> cipher_result(op, key, left, rights[i], #[trigger] r[i])
}

/// Applies operator `op` to two ciphertexts under `key`.
pub fn apply_operator(key: &ServerKey, op: Operator, a: &Ciphertext, b: &Ciphertext) -> (r: Ciphertext)
    requires
        fits_key(*key, *a),
        fits_key(*key, *b),
    ensures
        cipher_result(op, *key, *a, *b, r),
{
    match op {
        Operator::Add => fhe_add(key, a, b),
        Operator::Sub => fhe_sub(key, a, b),
        Operator::Mul => fhe_mul(key, a, b),
        Operator::Div => fhe_div(key, a, b),
    }
}

/// Broadcasts `left` over `rights` and applies `op` under `key` at each
/// position, scheduled as `mode` says. Entry `i` of the result is
/// `left op rights[i]`, in the order of `rights` in both modes. For a zero
/// divisor nothing is stated of the entry: see `dispatch_division`.
pub fn dispatch_cipher(
    key: &ServerKey,
    op: Operator,
    left: &Ciphertext,
    rights: &Vec<Ciphertext>,
    mode: ExecutionMode,
) -> (r: Vec<Ciphertext>)
    requires
        fits_key(*key, *left),
        all_fit(*key, rights@),
    ensures
        is_cipher_batch(op, *key, *left, rights@, r@),
{
    let k: Ghost<ServerKey> = Ghost(*key);
    let f = |x: &Ciphertext, y: &Ciphertext| -> (z: Ciphertext)
        requires
            fits_key(k@, *x),
            fits_key(k@, *y),
        ensures
            cipher_result(op, k@, *x, *y, z),
        { apply_operator(key, op, x, y) };
    let r = dispatch(left, rights, &f, mode);
    assert forall|i: int| 0 <= i < rights@.len() implies cipher_result(op, *key, *left, rights@[i], #[trigger] r@[i]) by {
        assert(f.ensures((left, &rights@[i]), r@[i]));
    }
    r
}

/// A quotient together with an encrypted flag that is set when the divisor
/// was zero, in which case the quotient has no meaning.
pub struct Checked<T> {
    pub quotient: T,
    pub divisor_is_zero: FheBool,
}

/// `z` is a checked quotient of `a / b` under every client key of `key`.
pub open spec fn checked_result(key: ServerKey, a: Ciphertext, b: Ciphertext, z: Checked<Ciphertext>) -> bool {
    &&& fits_key(key, z.quotient)
    &&& forall|ck: ClientKey| #[trigger] key_pair(ck, key) ==> {
        &&& (flag_value(ck, z.divisor_is_zero) <==> decrypted(ck, b) == 0)
        &&& decrypted(ck, b) != 0 ==> decrypted(ck, z.quotient) == decrypted(ck, a) / decrypted(ck, b)
    }
}

/// `r` holds, at each position `i`, a checked quotient of `left / rights[i]`.
pub open spec fn is_checked_batch(
    key: ServerKey,
    left: Ciphertext,
    rights: Seq<Ciphertext>,
    r: Seq<Checked<Ciphertext>>,
) -> bool {
    &&& r.len() == rights.len()
    &&& forall|i: int| 0 <= i < rights.len() ==> checked_result(key, left, rights[i], #[trigger] r[i])
}

/// Divides `a` by `b` under `key`, and tests `b` against zero.
pub fn checked_divide(key: &ServerKey, a: &Ciphertext, b: &Ciphertext) -> (r: Checked<Ciphertext>)
    requires
        fits_key(*key, *a),
        fits_key(*key, *b),
    ensures
        checked_result(*key, *a, *b, r),
{
    let q = fhe_div(key, a, b);
    let z = fhe_is_zero(key, b);
    Checked { quotient: q, divisor_is_zero: z }
}

/// Broadcasts `left` over `rights` and divides at each position, scheduled as
/// `mode` says. Each entry carries the quotient and a flag that is set
/// exactly when its divisor is zero, in the order of `rights`.
pub fn dispatch_division(
    key: &ServerKey,
    left: &Ciphertext,
    rights: &Vec<Ciphertext>,
    mode: ExecutionMode,
) -> (r: Vec<Checked<Ciphertext>>)
    requires
        fits_key(*key, *left),
        all_fit(*key, rights@),
    ensures
        is_checked_batch(*key, *left, rights@, r@),
{
    let k: Ghost<ServerKey> = Ghost(*key);
    let f = |x: &Ciphertext, y: &Ciphertext| -> (z: Checked<Ciphertext>)
        requires
            fits_key(k@, *x),
            fits_key(k@, *y),
        ensures
            checked_result(k@, *x, *y, z),
        { checked_divide(key, x, y) };
    let r = dispatch(left, rights, &f, mode);
    assert forall|i: int| 0 <= i < rights@.len() implies checked_result(*key, *left, rights@[i], #[trigger] r@[i]) by {
        assert(f.ensures((left, &rights@[i]), r@[i]));
    }
    r
}

/// What decrypting a batch of checked quotients under `ck` may give: the
/// position of the first set flag, or, when no flag is set, every quotient in
/// order.
pub open spec fn quotients_outcome(ck: ClientKey, rs: Seq<Checked<Ciphertext>>, r: Result<Vec<u64>, usize>) -> bool {
    match r {
        Ok(v) => {
            &&& forall|i: int| 0 <= i < rs.len() ==> !flag_value(ck, #[trigger] rs[i].divisor_is_zero)
            &&& v@.len() == rs.len()
            &&& forall|i: int| 0 <= i < rs.len() ==> v@[i] == decrypted(ck, #[trigger] rs[i].quotient)
        },
        Err(p) => {
            &&& p < rs.len()
            &&& flag_value(ck, rs[p as int].divisor_is_zero)
            &&& forall|j: int| 0 <= j < p ==> !flag_value(ck, #[trigger] rs[j].divisor_is_zero)
        },
    }
}

/// Decrypts a batch of checked quotients under `ck`. A set flag is a division
/// by zero: it is reported as `Err` with the first such position, and no
/// quotient is returned.
pub fn decrypt_quotients(ck: &ClientKey, rs: &Vec<Checked<Ciphertext>>) -> (r: Result<Vec<u64>, usize>)
    ensures
        quotients_outcome(*ck, rs@, r),
{
    let n = rs.len();
    let mut out: Vec<u64> = Vec::with_capacity(n);
    let mut i: usize = 0;
    while i < n
        invariant
            n == rs@.len(),
            i <= n,
            out@.len() == i,
            forall|j: int| 0 <= j < i ==> !flag_value(*ck, #[trigger] rs@[j].divisor_is_zero),
            forall|j: int| 0 <= j < i ==> out@[j] == decrypted(*ck, #[trigger] rs@[j].quotient),
        decreases n - i,
    {
        if fhe_decrypt_flag(ck, &rs[i].divisor_is_zero) {
            return Err(i);
        }
        out.push(fhe_decrypt(ck, &rs[i].quotient));
        i = i + 1;
    }
    Ok(out)
}

/// Elementwise batch arithmetic with a broadcast left operand. Each operation
/// pairs `self` with every entry of `other`, evaluates under `key`, and returns
/// one result per entry of `other`, in its order, whatever `mode` is. A call
/// leaves `key` installed on the calling thread and on the workers it used.
pub trait HomomorphicOps: Sized {
    /// `a` can be operated on with `key`.
    spec fn fits(key: ServerKey, a: Self) -> bool;

    /// The value `a` decrypts to under `ck`.
    spec fn value(ck: ClientKey, a: Self) -> u64;

    /// Entry `i` of the result decrypts to the wrapping sum of `self` and `other[i]`.
    fn homomorphic_add(self, other: Vec<Self>, mode: ExecutionMode, key: &ServerKey) -> (r: Vec<Self>)
        requires
            Self::fits(*key, self),
            forall|i: int| 0 <= i < other@.len() ==> Self::fits(*key, #[trigger] other@[i]),
        ensures
            r@.len() == other@.len(),
            forall|i: int| 0 <= i < other@.len() ==> Self::fits(*key, #[trigger] r@[i]),
            forall|ck: ClientKey, i: int| key_pair(ck, *key) && 0 <= i < other@.len() ==>
                clear_spec(Operator::Add, Self::value(ck, self), Self::value(ck, other@[i]))
                    == Some(#[trigger] Self::value(ck, r@[i])),
    ;

    /// Entry `i` of the result decrypts to the wrapping difference of `self` and `other[i]`.
    fn homomorphic_sub(self, other: Vec<Self>, mode: ExecutionMode, key: &ServerKey) -> (r: Vec<Self>)
        requires
            Self::fits(*key, self),
            forall|i: int| 0 <= i < other@.len() ==> Self::fits(*key, #[trigger] other@[i]),
        ensures
            r@.len() == other@.len(),
            forall|i: int| 0 <= i < other@.len() ==> Self::fits(*key, #[trigger] r@[i]),
            forall|ck: ClientKey, i: int| key_pair(ck, *key) && 0 <= i < other@.len() ==>
                clear_spec(Operator::Sub, Self::value(ck, self), Self::value(ck, other@[i]))
                    == Some(#[trigger] Self::value(ck, r@[i])),
    ;

    /// Entry `i` of the result decrypts to the wrapping product of `self` and `other[i]`.
    fn homomorphic_mul(self, other: Vec<Self>, mode: ExecutionMode, key: &ServerKey) -> (r: Vec<Self>)
        requires
            Self::fits(*key, self),
            forall|i: int| 0 <= i < other@.len() ==> Self::fits(*key, #[trigger] other@[i]),
        ensures
            r@.len() == other@.len(),
            forall|i: int| 0 <= i < other@.len() ==> Self::fits(*key, #[trigger] r@[i]),
            forall|ck: ClientKey, i: int| key_pair(ck, *key) && 0 <= i < other@.len() ==>
                clear_spec(Operator::Mul, Self::value(ck, self), Self::value(ck, other@[i]))
                    == Some(#[trigger] Self::value(ck, r@[i])),
    ;

    /// Entry `i` of the result holds the quotient of `self` by `other[i]` and
    /// a flag that decrypts to `true` exactly when `other[i]` decrypts to zero;
    /// `decrypt_quotients` turns a set flag into a reported failure.
    fn homomorphic_div(self, other: Vec<Self>, mode: ExecutionMode, key: &ServerKey) -> (r: Vec<Checked<Self>>)
        requires
            Self::fits(*key, self),
            forall|i: int| 0 <= i < other@.len() ==> Self::fits(*key, #[trigger] other@[i]),
        ensures
            r@.len() == other@.len(),
            forall|i: int| 0 <= i < other@.len() ==> Self::fits(*key, #[trigger] r@[i].quotient),
            forall|ck: ClientKey, i: int| key_pair(ck, *key) && 0 <= i < other@.len() ==>
                (#[trigger] flag_value(ck, r@[i].divisor_is_zero) <==> Self::value(ck, other@[i]) == 0),
            forall|ck: ClientKey, i: int| key_pair(ck, *key) && 0 <= i < other@.len() && Self::value(ck, other@[i]) != 0 ==>
                #[trigger] Self::value(ck, r@[i].quotient) == Self::value(ck, self) / Self::value(ck, other@[i]),
    ;
}

impl HomomorphicOps for Ciphertext {
    open spec fn fits(key: ServerKey, a: Ciphertext) -> bool {
        fits_key(key, a)
    }

    open spec fn value(ck: ClientKey, a: Ciphertext) -> u64 {
        decrypted(ck, a)
    }

    fn homomorphic_add(self, other: Vec<Ciphertext>, mode: ExecutionMode, key: &ServerKey) -> (r: Vec<Ciphertext>) {
        let r = dispatch_cipher(key, Operator::Add, &self, &other, mode);
        assert forall|ck: ClientKey, i: int| key_pair(ck, *key) && 0 <= i < other@.len() implies
            clear_spec(Operator::Add, decrypted(ck, self), decrypted(ck, other@[i]))
                == Some(#[trigger] decrypted(ck, r@[i])) by {
            assert(cipher_result(Operator::Add, *key, self, other@[i], r@[i]));
        }
        r
    }

    fn homomorphic_sub(self, other: Vec<Ciphertext>, mode: ExecutionMode, key: &ServerKey) -> (r: Vec<Ciphertext>) {
        let r = dispatch_cipher(key, Operator::Sub, &self, &other, mode);
        assert forall|ck: ClientKey, i: int| key_pair(ck, *key) && 0 <= i < other@.len() implies
            clear_spec(Operator::Sub, decrypted(ck, self), decrypted(ck, other@[i]))
                == Some(#[trigger] decrypted(ck, r@[i])) by {
            assert(cipher_result(Operator::Sub, *key, self, other@[i], r@[i]));
        }
        r
    }

    fn homomorphic_mul(self, other: Vec<Ciphertext>, mode: ExecutionMode, key: &ServerKey) -> (r: Vec<Ciphertext>) {
        let r = dispatch_cipher(key, Operator::Mul, &self, &other, mode);
        assert forall|ck: ClientKey, i: int| key_pair(ck, *key) && 0 <= i < other@.len() implies
            clear_spec(Operator::Mul, decrypted(ck, self), decrypted(ck, other@[i]))
                == Some(#[trigger] decrypted(ck, r@[i])) by {
            assert(cipher_result(Operator::Mul, *key, self, other@[i], r@[i]));
        }
        r
    }

    fn homomorphic_div(self, other: Vec<Ciphertext>, mode: ExecutionMode, key: &ServerKey) -> (r: Vec<Checked<Ciphertext>>) {
        let r = dispatch_division(key, &self, &other, mode);
        assert forall|ck: ClientKey, i: int| key_pair(ck, *key) && 0 <= i < other@.len() implies
            (#[trigger] flag_value(ck, r@[i].divisor_is_zero) <==> decrypted(ck, other@[i]) == 0) by {
            assert(checked_result(*key, self, other@[i], r@[i]));
        }
        assert forall|ck: ClientKey, i: int| key_pair(ck, *key) && 0 <= i < other@.len() && decrypted(ck, other@[i]) != 0 implies
            #[trigger] decrypted(ck, r@[i].quotient) == decrypted(ck, self) / decrypted(ck, other@[i]) by {
            assert(checked_result(*key, self, other@[i], r@[i]));
        }
        r
    }
}

} // verus!
