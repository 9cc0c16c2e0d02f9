use fhe_dispatch::clear::{check_decrypted, clear_result};
use fhe_dispatch::mode::{ExecutionMode, Operator};
use fhe_dispatch::dispatch::{apply_sequential, dispatch};

const A: u64 = 1234567890123456789;
const B: u64 = 9876543210987654321;

fn wrapping(op: Operator) -> impl Fn(&u64, &u64) -> u64 + Sync {
    move |x: &u64, y: &u64| match op {
        Operator::Add => x.wrapping_add(*y),
        Operator::Sub => x.wrapping_sub(*y),
        Operator::Mul => x.wrapping_mul(*y),
        Operator::Div => x / y,
    }
}

#[test]
fn modes_agree_for_every_operator() {
    let rights: Vec<u64> = vec![1, 7, 0xffff_ffff_ffff_ffff, 12345, 3, 99, 2, 1 << 40];
    for op in [Operator::Add, Operator::Sub, Operator::Mul, Operator::Div] {
        let f = wrapping(op);
        let par = dispatch(&A, &rights, &f, ExecutionMode::Parallel);
        let seq = dispatch(&A, &rights, &f, ExecutionMode::SingleThreaded);
        assert_eq!(par, seq);
    }
}

#[test]
fn empty_operands_give_empty_result() {
    let rights: Vec<u64> = Vec::new();
    let f = wrapping(Operator::Add);
    assert!(dispatch(&5, &rights, &f, ExecutionMode::Parallel).is_empty());
    assert!(dispatch(&5, &rights, &f, ExecutionMode::SingleThreaded).is_empty());
    assert!(apply_sequential(&5, &rights, &f).is_empty());
}

#[test]
fn result_length_matches_operands() {
    let rights: Vec<u64> = (1..=1000).collect();
    let f = wrapping(Operator::Mul);
    assert_eq!(dispatch(&3, &rights, &f, ExecutionMode::Parallel).len(), 1000);
    assert_eq!(dispatch(&3, &rights, &f, ExecutionMode::SingleThreaded).len(), 1000);
}

#[test]
fn permuting_operands_permutes_results() {
    let rights: Vec<u64> = vec![10, 20, 30, 40, 50];
    let sigma: Vec<usize> = vec![3, 0, 4, 1, 2];
    let permuted: Vec<u64> = sigma.iter().map(|&k| rights[k]).collect();
    let f = wrapping(Operator::Sub);
    for mode in [ExecutionMode::Parallel, ExecutionMode::SingleThreaded] {
        let r = dispatch(&100, &rights, &f, mode);
        let rp = dispatch(&100, &permuted, &f, mode);
        let expected: Vec<u64> = sigma.iter().map(|&k| r[k]).collect();
        assert_eq!(rp, expected);
    }
}

#[test]
fn parallel_keeps_positions_on_a_large_batch() {
    let rights: Vec<u64> = (0..5000).collect();
    let f = wrapping(Operator::Add);
    let r = dispatch(&1, &rights, &f, ExecutionMode::Parallel);
    let expected: Vec<u64> = (1..5001).collect();
    assert_eq!(r, expected);
}

#[test]
fn scenario_addition() {
    assert_eq!(clear_result(Operator::Add, A, B), Some(11111111101111111110));
    let f = wrapping(Operator::Add);
    let r = dispatch(&A, &vec![B], &f, ExecutionMode::Parallel);
    assert_eq!(check_decrypted(Operator::Add, A, &vec![B], &r), Ok(()));
    assert_eq!(r, vec![11111111101111111110]);
}

#[test]
fn addition_wraps_at_the_width() {
    assert_eq!(clear_result(Operator::Add, u64::MAX, 2), Some(1));
}

#[test]
fn scenario_subtraction_underflows() {
    assert_eq!(clear_result(Operator::Sub, A, B), Some(9804768752845354084));
    assert_eq!(clear_result(Operator::Sub, B, A), Some(8641975320864197532));
    let f = wrapping(Operator::Sub);
    let r = dispatch(&A, &vec![B], &f, ExecutionMode::SingleThreaded);
    assert_eq!(check_decrypted(Operator::Sub, A, &vec![B], &r), Ok(()));
}

#[test]
fn multiplication_wraps() {
    assert_eq!(clear_result(Operator::Mul, A, B), Some(5547335688409725829));
}

#[test]
fn division_truncates() {
    assert_eq!(clear_result(Operator::Div, A, B), Some(0));
    assert_eq!(clear_result(Operator::Div, B, A), Some(8));
    assert_eq!(clear_result(Operator::Div, 7, 0), None);
}

#[test]
fn scenario_batch_broadcast() {
    let rights: Vec<u64> = vec![2, 3, 4];
    let f = wrapping(Operator::Add);
    for mode in [ExecutionMode::Parallel, ExecutionMode::SingleThreaded] {
        let r = dispatch(&5, &rights, &f, mode);
        assert_eq!(r, vec![7, 8, 9]);
        assert_eq!(check_decrypted(Operator::Add, 5, &rights, &r), Ok(()));
    }
}

#[test]
fn zero_divisor_is_reported_at_its_position() {
    let bs: Vec<u64> = vec![2, 0, 5];
    let decrypted: Vec<u64> = vec![5, u64::MAX, 2];
    assert_eq!(check_decrypted(Operator::Div, 10, &bs, &decrypted), Err(1));
}

#[test]
fn wrong_value_is_reported_at_first_position() {
    let bs: Vec<u64> = vec![1, 2, 3];
    assert_eq!(check_decrypted(Operator::Mul, 4, &bs, &vec![4, 9, 13]), Err(1));
    assert_eq!(check_decrypted(Operator::Mul, 4, &bs, &vec![4, 8, 12]), Ok(()));
}

#[test]
fn missing_or_extra_results_are_reported() {
    let bs: Vec<u64> = vec![1, 2, 3];
    assert_eq!(check_decrypted(Operator::Add, 1, &bs, &vec![2, 3]), Err(2));
    assert_eq!(check_decrypted(Operator::Add, 1, &bs, &vec![2, 3, 4, 5]), Err(3));
    assert_eq!(check_decrypted(Operator::Add, 1, &Vec::new(), &Vec::new()), Ok(()));
}
