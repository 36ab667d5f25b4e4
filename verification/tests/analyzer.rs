use swanky::analyzer::{Analyzer, AnalyzerItem};
use swanky::fancy::{Fancy, FancyBinary, FancyInput, FancyReveal, OrMany, PairwiseOr};

// Binary gadgets, built from the basic gates the way binary circuit
// libraries build them.

fn bin_encode(a: &mut Analyzer, x: u128, nbits: usize) -> Vec<AnalyzerItem> {
    let values: Vec<u16> = (0..nbits).map(|i| ((x >> i) & 1) as u16).collect();
    let moduli = vec![2u16; nbits];
    a.encode_many(&values, &moduli).unwrap()
}

fn bin_and(a: &mut Analyzer, xs: &[AnalyzerItem], ys: &[AnalyzerItem]) -> Vec<AnalyzerItem> {
    xs.iter().zip(ys.iter()).map(|(x, y)| a.and(x, y).unwrap()).collect()
}

fn bin_addition(
    a: &mut Analyzer,
    xs: &[AnalyzerItem],
    ys: &[AnalyzerItem],
) -> (Vec<AnalyzerItem>, AnalyzerItem) {
    let (z, mut c) = a.adder(&xs[0], &ys[0], None).unwrap();
    let mut bs = vec![z];
    for i in 1..xs.len() {
        let (z, c2) = a.adder(&xs[i], &ys[i], Some(&c)).unwrap();
        c = c2;
        bs.push(z);
    }
    (bs, c)
}

fn bin_addition_no_carry(
    a: &mut Analyzer,
    xs: &[AnalyzerItem],
    ys: &[AnalyzerItem],
) -> Vec<AnalyzerItem> {
    if xs.len() == 1 {
        return vec![a.xor(&xs[0], &ys[0]).unwrap()];
    }
    let (z, mut c) = a.adder(&xs[0], &ys[0], None).unwrap();
    let mut bs = vec![z];
    for i in 1..xs.len() - 1 {
        let (z, c2) = a.adder(&xs[i], &ys[i], Some(&c)).unwrap();
        c = c2;
        bs.push(z);
    }
    let last = xs.len() - 1;
    let z = a
        .xor_many(&[xs[last].clone(), ys[last].clone(), c])
        .unwrap();
    bs.push(z);
    bs
}

fn bin_constant_bundle(a: &mut Analyzer, val: u128, nbits: usize) -> Vec<AnalyzerItem> {
    (0..nbits)
        .map(|i| a.constant(((val >> i) & 1) as u16, 2).unwrap())
        .collect()
}

fn bin_twos_complement(a: &mut Analyzer, xs: &[AnalyzerItem]) -> Vec<AnalyzerItem> {
    let not_xs: Vec<AnalyzerItem> = xs.iter().map(|x| a.negate(x).unwrap()).collect();
    let one = bin_constant_bundle(a, 1, xs.len());
    bin_addition_no_carry(a, &not_xs, &one)
}

fn bin_mul(a: &mut Analyzer, xs: &[AnalyzerItem], ys: &[AnalyzerItem]) -> Vec<AnalyzerItem> {
    let mut sum: Vec<AnalyzerItem> = xs.iter().map(|x| a.and(x, &ys[0]).unwrap()).collect();
    let zero = a.constant(0, 2).unwrap();
    sum.push(zero);
    for i in 1..xs.len() {
        let mul: Vec<AnalyzerItem> = xs.iter().map(|x| a.and(x, &ys[i]).unwrap()).collect();
        let zero = a.constant(0, 2).unwrap();
        let mut shifted = vec![zero; i];
        shifted.extend(mul);
        let (mut res, carry) = bin_addition(a, &sum, &shifted);
        res.push(carry);
        sum = res;
    }
    sum
}

fn counts(a: &Analyzer) -> (usize, usize, usize, usize, usize) {
    (a.ninputs(), a.nands(), a.nxors(), a.nnegs(), a.nconstants())
}

#[test]
fn single_and_gate_count_is_correct() {
    let nbits = 64;
    let x = 0;
    let y = 0;
    let mut analyzer_test: Analyzer = Analyzer::new();
    {
        let x = bin_encode(&mut analyzer_test, x, nbits);
        let y = bin_encode(&mut analyzer_test, y, nbits);
        let _c = bin_and(&mut analyzer_test, &x, &y);
    }
    assert_eq!(counts(&analyzer_test), (128, 64, 0, 0, 0));
}

#[test]
fn binary_addition_counts_are_correct() {
    let nbits = 64;
    let x = 0;
    let y = 0;
    let mut analyzer_test: Analyzer = Analyzer::new();
    {
        let x = bin_encode(&mut analyzer_test, x, nbits);
        let y = bin_encode(&mut analyzer_test, y, nbits);
        let _c = bin_addition(&mut analyzer_test, &x, &y);
    }
    assert_eq!(counts(&analyzer_test), (128, 64 * 2, 64 * 5, 0, 0));
}

#[test]
fn binary_multiplication_counts_are_correct() {
    let nbits = 64;
    let x = 0;
    let y = 0;
    let mut analyzer_test: Analyzer = Analyzer::new();
    {
        let x = bin_encode(&mut analyzer_test, x, nbits);
        let y = bin_encode(&mut analyzer_test, y, nbits);
        let _c = bin_mul(&mut analyzer_test, &x, &y);
    }
    assert_eq!(
        counts(&analyzer_test),
        (
            128,
            (65..128).sum::<usize>() * 2 + 64 * 64,
            (65..128).sum::<usize>() * 5,
            0,
            64
        )
    );
}

#[test]
fn binady_twos_complement_counts_are_correct() {
    let nbits = 64;
    let x = 0;
    let mut analyzer_test: Analyzer = Analyzer::new();
    {
        let x = bin_encode(&mut analyzer_test, x, nbits);
        let _c = bin_twos_complement(&mut analyzer_test, &x);
    }
    assert_eq!(counts(&analyzer_test), (64, 63 * 2, 63 * 5 + 3, 64, 64));
}

#[test]
fn new_analyzer_counts_nothing() {
    let a = Analyzer::new();
    assert_eq!(counts(&a), (0, 0, 0, 0, 0));
}

#[test]
fn composite_gates_are_counted_as_basic_gates() {
    let mut a = Analyzer::new();
    let w = a.receive_many(&[2, 2, 3]).unwrap();
    assert_eq!(w.len(), 3);
    assert_eq!(w[2].modulus(), 3);
    let o = a.or(&w[0], &w[1]).unwrap();
    assert_eq!(o.modulus(), 2);
    assert_eq!(counts(&a), (3, 1, 0, 3, 0));
    a.or_many(&w).unwrap();
    assert_eq!(counts(&a), (3, 4, 0, 12, 0));
    a.and_many(&w[..2]).unwrap();
    a.xor_many(&w).unwrap();
    assert_eq!(counts(&a), (3, 6, 3, 12, 0));
    a.mux_constant_bits(&w[0], true, false).unwrap();
    assert_eq!(counts(&a), (3, 6, 3, 13, 2));
    let m = a.mux(&w[0], &w[2], &w[1]).unwrap();
    assert_eq!(m.modulus(), 3);
    assert_eq!(counts(&a), (3, 7, 5, 13, 2));
    let c = a.constant(1, 5).unwrap();
    assert_eq!(c.modulus(), 5);
    assert_eq!(a.output(&c).unwrap(), None);
    assert_eq!(a.reveal_wire(&c).unwrap(), 0);
    assert_eq!(counts(&a), (3, 7, 5, 13, 3));
}

#[test]
fn or_many_circuit_counts_one_or_per_extra_input() {
    let mut a = Analyzer::new();
    let w = a.receive_many(&[2; 5]).unwrap();
    let out = OrMany::new().execute(&mut a, &w).unwrap();
    assert_eq!(out.modulus(), 2);
    assert_eq!(counts(&a), (5, 4, 0, 12, 0));
}

#[test]
fn pairwise_or_circuit_counts_one_or_per_pair() {
    let mut a = Analyzer::new();
    let x = a.receive_many(&[2; 7]).unwrap();
    let y = a.encode_many(&[1; 7], &[2; 7]).unwrap();
    let out = PairwiseOr::new().execute(&mut a, &x, &y).unwrap();
    assert_eq!(out.len(), 7);
    assert_eq!(counts(&a), (14, 7, 0, 21, 0));
}

#[test]
fn preprocessing_sizes_follow_counts() {
    let mut a = Analyzer::new();
    let xs = bin_encode(&mut a, 5, 4);
    let ys = bin_encode(&mut a, 3, 4);
    let _ = bin_and(&mut a, &xs, &ys);
    assert_eq!(a.preprocessing_sizes(), (4, 12));
}
