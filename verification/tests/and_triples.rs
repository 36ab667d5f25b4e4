use rand::rngs::StdRng;
use rand::{Rng, SeedableRng};
use swanky::and_triples::{bucket_size, buckets, shuffle_with, AndTriple, AndTripleGenerator};
use swanky::authbits::{lsb, AuthShare, AuthShareGenerator};
use swanky::block::{xor_u8x16, U8x16};
use swanky::leaky_and_triples::{lsbs, LeakyAndTriple, LeakyAndTripleGenerator};
use swanky::party::{Prover, Verifier};

fn scaled(b: bool, delta: &U8x16) -> U8x16 {
    if b {
        *delta
    } else {
        [0u8; 16]
    }
}

/// One honestly dealt random share for each party.
fn deal_share(
    delta_a: &U8x16,
    delta_b: &U8x16,
    rng: &mut StdRng,
) -> (AuthShare<Prover>, AuthShare<Verifier>) {
    let (x1, x2): (bool, bool) = (rng.gen(), rng.gen());
    let k1: U8x16 = rng.gen();
    let m1 = xor_u8x16(&k1, &scaled(x1, delta_b));
    let k2: U8x16 = rng.gen();
    let m2 = xor_u8x16(&k2, &scaled(x2, delta_a));
    (
        AuthShare::<Prover>::new(x1, m1, k2),
        AuthShare::<Verifier>::new(x2, m2, k1),
    )
}

/// Run leaky AND triple generation between Party A and Party B.
fn generate(
    ntriples: usize,
    seed: u64,
) -> (
    Vec<LeakyAndTriple<Prover>>,
    Vec<LeakyAndTriple<Verifier>>,
    LeakyAndTripleGenerator<Prover>,
    LeakyAndTripleGenerator<Verifier>,
) {
    let mut rng = StdRng::seed_from_u64(seed);
    let gen_a = LeakyAndTripleGenerator::<Prover>::new(rng.gen());
    let gen_b = LeakyAndTripleGenerator::<Verifier>::new(rng.gen());
    let (delta_a, delta_b) = (gen_a.delta(), gen_b.delta());
    let mut raw_a = vec![];
    let mut raw_b = vec![];
    for _ in 0..ntriples {
        let (xa, xb) = deal_share(&delta_a, &delta_b, &mut rng);
        let (ya, yb) = deal_share(&delta_a, &delta_b, &mut rng);
        let (ra, rb) = deal_share(&delta_a, &delta_b, &mut rng);
        raw_a.push(LeakyAndTriple::new(xa, ya, ra));
        raw_b.push(LeakyAndTriple::new(xb, yb, rb));
    }
    let ca = gen_a.correlations(&raw_a);
    let cb = gen_b.correlations(&raw_b);
    let ga = gen_a.g_messages(&raw_a, &ca);
    let gb = gen_b.g_messages(&raw_b, &cb);
    let ea = gen_a.e_values(&raw_a, &ca, &gb);
    let eb = gen_b.e_values(&raw_b, &cb, &ga);
    let sa = gen_a.s_values(&raw_a, &ea);
    let sb = gen_b.s_values(&raw_b, &eb);
    let (la, lb) = (lsbs(&sa), lsbs(&sb));
    let mut out_a = vec![];
    let mut out_b = vec![];
    gen_a.finish(&raw_a, &sa, &lb, &mut out_a);
    gen_b.finish(&raw_b, &sb, &la, &mut out_b);
    (out_a, out_b, gen_a, gen_b)
}

/// Open shares both ways; `None` on a failed check.
fn open(
    delta_a: U8x16,
    delta_b: U8x16,
    a: &[AuthShare<Prover>],
    b: &[AuthShare<Verifier>],
) -> Option<Vec<bool>> {
    let gen_a = AuthShareGenerator::<Prover>::new_with_delta(delta_a);
    let gen_b = AuthShareGenerator::<Verifier>::new_with_delta(delta_b);
    let (bits_a, macs_a) = gen_a.open_messages(a);
    let (bits_b, macs_b) = gen_b.open_messages(b);
    let mut out_a = vec![];
    let mut out_b = vec![];
    gen_a.validate_open(a, &bits_b, &macs_b, &mut out_a).ok()?;
    gen_b.validate_open(b, &bits_a, &macs_a, &mut out_b).ok()?;
    assert_eq!(out_a, out_b);
    Some(out_a)
}

/// Open triples: each of `<x>`, `<y>`, `<z>`, checking `z = x·y`.
fn validate(
    gen_a: &LeakyAndTripleGenerator<Prover>,
    gen_b: &LeakyAndTripleGenerator<Verifier>,
    a: &[LeakyAndTriple<Prover>],
    b: &[LeakyAndTriple<Verifier>],
) -> bool {
    let (da, db) = (gen_a.delta(), gen_b.delta());
    let xs = open(da, db, &a.iter().map(|t| t.x()).collect::<Vec<_>>(), &b.iter().map(|t| t.x()).collect::<Vec<_>>());
    let ys = open(da, db, &a.iter().map(|t| t.y()).collect::<Vec<_>>(), &b.iter().map(|t| t.y()).collect::<Vec<_>>());
    let zs = open(da, db, &a.iter().map(|t| t.z()).collect::<Vec<_>>(), &b.iter().map(|t| t.z()).collect::<Vec<_>>());
    match (xs, ys, zs) {
        (Some(xs), Some(ys), Some(zs)) => {
            for i in 0..xs.len() {
                assert_eq!(xs[i] & ys[i], zs[i], "Iteration {i} failed");
            }
            true
        }
        _ => false,
    }
}

#[test]
fn leaky_and_triples_honest_generation_works() {
    let ntriples = 10000;
    let (output_a, output_b, generator_a, generator_b) = generate(ntriples, 40);
    assert_eq!(output_a.len(), ntriples);
    assert_eq!(output_b.len(), ntriples);
    assert!(validate(&generator_a, &generator_b, &output_a, &output_b));
}

#[test]
fn combine_works() {
    let ntriples = 320 * 5;
    let (output_a, output_b, generator_a, generator_b) = generate(ntriples, 41);
    let (da, db) = (generator_a.delta(), generator_b.delta());
    for (bucket_a, bucket_b) in output_a.chunks(5).zip(output_b.chunks(5)) {
        let opening_a = generator_a.combine_openings(bucket_a);
        let opening_b = generator_b.combine_openings(bucket_b);
        let ds = open(da, db, &opening_a, &opening_b).unwrap();
        let triple_a = generator_a.combine(bucket_a, &ds);
        let triple_b = generator_b.combine(bucket_b, &ds);
        assert!(validate(&generator_a, &generator_b, &[triple_a], &[triple_b]));
    }
}

#[test]
fn tampered_r_share_breaks_the_and_relation() {
    let mut rng = StdRng::seed_from_u64(42);
    let gen_a = LeakyAndTripleGenerator::<Prover>::new(rng.gen());
    let gen_b = LeakyAndTripleGenerator::<Verifier>::new(rng.gen());
    let (delta_a, delta_b) = (gen_a.delta(), gen_b.delta());
    let (xa, xb) = deal_share(&delta_a, &delta_b, &mut rng);
    let (ya, yb) = deal_share(&delta_a, &delta_b, &mut rng);
    let (ra, rb) = deal_share(&delta_a, &delta_b, &mut rng);
    let raw_a = [LeakyAndTriple::new(xa, ya, ra)];
    let raw_b = [LeakyAndTriple::new(xb, yb, rb)];
    let sa = gen_a.s_values(&raw_a, &gen_a.e_values(&raw_a, &gen_a.correlations(&raw_a), &gen_b.g_messages(&raw_b, &gen_b.correlations(&raw_b))));
    let sb = gen_b.s_values(&raw_b, &gen_b.e_values(&raw_b, &gen_b.correlations(&raw_b), &gen_a.g_messages(&raw_a, &gen_a.correlations(&raw_a))));
    let d = lsb(&sa[0]) ^ lsb(&sb[0]);
    assert_eq!(d, ((xa.bit() ^ xb.bit()) & (ya.bit() ^ yb.bit())) ^ ra.bit() ^ rb.bit());
    // Party B reports the wrong least-significant bit: the product is off.
    let mut out_a = vec![];
    gen_a.finish(&raw_a, &sa, &[!lsb(&sb[0])], &mut out_a);
    let mut out_b = vec![];
    gen_b.finish(&raw_b, &sb, &[lsb(&sa[0])], &mut out_b);
    let zs = open(delta_a, delta_b, &[out_a[0].z()], &[out_b[0].z()]);
    // Party A shifted its key by Δ_A while Party B kept its bit: B's bit
    // no longer opens.
    assert!(zs.is_none());
}

#[test]
fn delta_lsb_is_adjusted() {
    let mut even = [0x10u8; 16];
    even[0] = 0x22;
    let mut odd = even;
    odd[0] = 0x23;
    assert_eq!(LeakyAndTripleGenerator::<Prover>::new(even).delta(), odd);
    assert_eq!(LeakyAndTripleGenerator::<Prover>::new(odd).delta(), odd);
    assert_eq!(LeakyAndTripleGenerator::<Verifier>::new(odd).delta(), even);
    assert_eq!(LeakyAndTripleGenerator::<Verifier>::new(even).delta(), even);
    assert_eq!(LeakyAndTripleGenerator::<Prover>::new_with_delta(odd).delta(), odd);
    assert_eq!(AndTripleGenerator::<Verifier>::new(odd).delta(), even);
}

#[test]
fn bucket_sizes() {
    assert_eq!(bucket_size(320), 5);
    assert_eq!(bucket_size(3099), 5);
    assert_eq!(bucket_size(3100), 4);
    assert_eq!(bucket_size(279_999), 4);
    assert_eq!(bucket_size(280_000), 3);
    assert_eq!(bucket_size(usize::MAX), 3);
}

#[test]
fn and_triples_from_buckets() {
    let ntriples = 320;
    let b = bucket_size(ntriples);
    let (output_a, output_b, leaky_a, leaky_b) = generate(ntriples * b, 43);
    let gen_a = AndTripleGenerator::<Prover>::new_with_delta(leaky_a.delta());
    let gen_b = AndTripleGenerator::<Verifier>::new_with_delta(leaky_b.delta());
    let mut triples_a: Vec<AndTriple<Prover>> = vec![];
    let mut triples_b: Vec<AndTriple<Verifier>> = vec![];
    for (bucket_a, bucket_b) in output_a.chunks(b).zip(output_b.chunks(b)) {
        let ds = open(
            gen_a.delta(),
            gen_b.delta(),
            &gen_a.combine_openings(bucket_a),
            &gen_b.combine_openings(bucket_b),
        )
        .unwrap();
        triples_a.push(gen_a.combine(bucket_a, &ds));
        triples_b.push(gen_b.combine(bucket_b, &ds));
    }
    assert_eq!(triples_a.len(), ntriples);
    let xs = open(gen_a.delta(), gen_b.delta(), &triples_a.iter().map(|t| t.x()).collect::<Vec<_>>(), &triples_b.iter().map(|t| t.x()).collect::<Vec<_>>()).unwrap();
    let ys = open(gen_a.delta(), gen_b.delta(), &triples_a.iter().map(|t| t.y()).collect::<Vec<_>>(), &triples_b.iter().map(|t| t.y()).collect::<Vec<_>>()).unwrap();
    let zs = open(gen_a.delta(), gen_b.delta(), &triples_a.iter().map(|t| t.z()).collect::<Vec<_>>(), &triples_b.iter().map(|t| t.z()).collect::<Vec<_>>()).unwrap();
    for i in 0..ntriples {
        assert_eq!(xs[i] & ys[i], zs[i]);
    }
}

#[test]
fn and_triple_from_leaky_keeps_shares() {
    let mut rng = StdRng::seed_from_u64(44);
    let (x, _) = deal_share(&[1u8; 16], &[2u8; 16], &mut rng);
    let (y, _) = deal_share(&[1u8; 16], &[2u8; 16], &mut rng);
    let (z, _) = deal_share(&[1u8; 16], &[2u8; 16], &mut rng);
    let t = AndTriple::from(LeakyAndTriple::new(x, y, z));
    assert_eq!(t.x().mac(), x.mac());
    assert_eq!(t.y().key(), y.key());
    assert_eq!(t.z().bit(), z.bit());
}

#[test]
fn shuffle_then_bucket() {
    let items = [10u32, 11, 12, 13, 14, 15, 16];
    let perm = [6usize, 0, 5, 1, 4, 2, 3];
    let shuffled = shuffle_with(&items, &perm);
    assert_eq!(shuffled, vec![16, 10, 15, 11, 14, 12, 13]);
    let bs = buckets(&shuffled, 3);
    assert_eq!(bs, vec![vec![16, 10, 15], vec![11, 14, 12], vec![13]]);
    assert!(buckets(&[] as &[u32], 3).is_empty());
}
