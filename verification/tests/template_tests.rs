use iris_hnsw::bitvec::{IrisCodeArray, IRIS_CODE_SIZE};
use iris_hnsw::template::{
    IrisCode, MaskedDistance, CLEARED_PAIR_DRAWS, MATCH_THRESHOLD_DENOMINATOR,
    MATCH_THRESHOLD_NUMERATOR, MERGED_SIZE_U64, NOISE_DENOMINATOR, NOISE_NUMERATOR,
};
use rand::rngs::StdRng;
use rand::{Rng, SeedableRng};

fn with_low_bits(n: usize) -> IrisCodeArray {
    let mut v = IrisCodeArray::zero();
    for i in 0..n {
        v.set_bit(i, true);
    }
    v
}

#[test]
fn constants_of_the_model() {
    assert_eq!(MATCH_THRESHOLD_NUMERATOR as f64 / MATCH_THRESHOLD_DENOMINATOR as f64, 0.375);
    assert_eq!(NOISE_NUMERATOR as f64 / NOISE_DENOMINATOR as f64, 0.05);
    assert_eq!(CLEARED_PAIR_DRAWS, 6);
    assert_eq!(MERGED_SIZE_U64, 4);
}

#[test]
fn default_template_has_zero_code_and_full_mask() {
    let iris = IrisCode::default();
    assert_eq!(iris.code, IrisCodeArray::zero());
    assert_eq!(iris.mask, IrisCodeArray::ones());
}

#[test]
fn distance_counts_differing_bits_under_the_full_mask() {
    let a = IrisCode { code: IrisCodeArray([0b1111, 0]), mask: IrisCodeArray::ones() };
    let b = IrisCode::default();
    assert_eq!(a.get_distance(&b), Some(MaskedDistance { differing: 4, compared: 128 }));
}

#[test]
fn distance_looks_only_at_positions_valid_in_both_masks() {
    let a = IrisCode { code: IrisCodeArray([0b0101, 0]), mask: IrisCodeArray([0xff, 0]) };
    let b = IrisCode { code: IrisCodeArray([0b0011, 1]), mask: IrisCodeArray([0xf0f, 1]) };
    assert_eq!(a.get_distance(&b), Some(MaskedDistance { differing: 2, compared: 4 }));
    assert!(!a.is_close(&b));
}

#[test]
fn distance_of_equal_templates_is_zero() {
    let mut rng = StdRng::seed_from_u64(1);
    for _ in 0..50 {
        let a = IrisCode::random_rng(&mut rng);
        let b = a;
        let compared = a.mask.count_ones();
        assert!(compared > 0);
        assert_eq!(a.get_distance(&b), Some(MaskedDistance { differing: 0, compared }));
        assert!(a.is_close(&b));
    }
}

#[test]
fn distance_is_symmetric() {
    let mut rng = StdRng::seed_from_u64(2);
    for _ in 0..100 {
        let a = IrisCode::random_rng(&mut rng);
        let b = IrisCode::random_rng(&mut rng);
        assert_eq!(a.get_distance(&b), b.get_distance(&a));
        assert_eq!(a.is_close(&b), b.is_close(&a));
    }
}

#[test]
fn distance_lies_between_zero_and_one() {
    let mut rng = StdRng::seed_from_u64(3);
    for _ in 0..100 {
        let a = IrisCode::random_rng(&mut rng);
        let b = IrisCode::random_rng(&mut rng);
        let d = a.get_distance(&b).expect("random masks share positions");
        assert!(d.compared > 0 && d.compared <= IRIS_CODE_SIZE);
        assert!(d.differing <= d.compared);
        let ratio = d.differing as f64 / d.compared as f64;
        assert!((0.0..=1.0).contains(&ratio));
    }
}

#[test]
fn distance_of_opposite_codes_is_one() {
    let a = IrisCode { code: IrisCodeArray::zero(), mask: IrisCodeArray::ones() };
    let b = IrisCode { code: IrisCodeArray::ones(), mask: IrisCodeArray::ones() };
    assert_eq!(a.get_distance(&b), Some(MaskedDistance { differing: 128, compared: 128 }));
    assert!(!a.is_close(&b));
}

#[test]
fn disjoint_masks_give_no_distance() {
    let a = IrisCode { code: IrisCodeArray([0xffff, 7]), mask: IrisCodeArray([u64::MAX, 0]) };
    let b = IrisCode { code: IrisCodeArray([0x1234, 9]), mask: IrisCodeArray([0, u64::MAX]) };
    assert_eq!(a.get_distance(&b), None);
    assert_eq!(b.get_distance(&a), None);
    assert!(!a.is_close(&b));
    let blank = IrisCode { code: IrisCodeArray::zero(), mask: IrisCodeArray::zero() };
    assert_eq!(blank.get_distance(&blank), None);
    assert!(!blank.is_close(&blank));
}

#[test]
fn is_close_is_strict_at_the_threshold() {
    let mask = IrisCodeArray([0xff, 0]);
    let base = IrisCode { code: IrisCodeArray::zero(), mask };
    let two = IrisCode { code: with_low_bits(2), mask };
    let three = IrisCode { code: with_low_bits(3), mask };
    assert_eq!(base.get_distance(&two), Some(MaskedDistance { differing: 2, compared: 8 }));
    assert!(base.is_close(&two));
    assert_eq!(base.get_distance(&three), Some(MaskedDistance { differing: 3, compared: 8 }));
    assert!(!base.is_close(&three));
}

#[test]
fn is_close_under_the_full_mask() {
    let base = IrisCode::default();
    let near = IrisCode { code: with_low_bits(47), mask: IrisCodeArray::ones() };
    let edge = IrisCode { code: with_low_bits(48), mask: IrisCodeArray::ones() };
    assert!(base.is_close(&near));
    assert!(!base.is_close(&edge));
    for n in 0..=IRIS_CODE_SIZE {
        let other = IrisCode { code: with_low_bits(n), mask: IrisCodeArray::ones() };
        assert_eq!(base.is_close(&other), (n as f64 / 128.0) < 0.375);
    }
}

#[test]
fn merged_array_is_code_then_mask() {
    let iris = IrisCode { code: IrisCodeArray([1, 2]), mask: IrisCodeArray([3, 4]) };
    assert_eq!(iris.as_merged_array(), [1, 2, 3, 4]);
    assert_eq!(IrisCode::default().as_merged_array(), [0, 0, u64::MAX, u64::MAX]);
}

#[test]
fn occlude_pair_clears_both_positions() {
    for k in [0usize, 1, 31, 32, 63] {
        let mut iris = IrisCode { code: IrisCodeArray([5, 6]), mask: IrisCodeArray::ones() };
        iris.occlude_pair(k);
        assert_eq!(iris.code, IrisCodeArray([5, 6]));
        for i in 0..IRIS_CODE_SIZE {
            assert_eq!(iris.mask.get_bit(i), i / 2 != k);
        }
        iris.occlude_pair(k);
        assert_eq!(iris.mask.count_ones(), 126);
    }
}

#[test]
fn with_cleared_pairs_clears_the_named_pairs() {
    let code = IrisCodeArray([0xabcd, 0x1234]);
    let iris = IrisCode::with_cleared_pairs(code, &vec![0, 5, 63, 5, 32, 31]);
    assert_eq!(iris.code, code);
    for i in 0..IRIS_CODE_SIZE {
        let cleared = [0usize, 5, 31, 32, 63].contains(&(i / 2));
        assert_eq!(iris.mask.get_bit(i), !cleared);
    }
    assert_eq!(iris.mask.count_ones(), 118);
    assert_eq!(
        iris.mask,
        IrisCodeArray([!(0b11 | 0b11 << 10 | 0b11 << 62), !(0b11 | 0b11 << 62)])
    );
    let full = IrisCode::with_cleared_pairs(code, &vec![]);
    assert_eq!(full.mask, IrisCodeArray::ones());
    let one = IrisCode::with_cleared_pairs(code, &vec![7, 7, 7, 7, 7, 7]);
    assert_eq!(one.mask.count_ones(), 126);
}

#[test]
fn random_template_takes_its_draws_in_order() {
    let mut rng = StdRng::seed_from_u64(18);
    let code = IrisCodeArray::random_rng(&mut rng);
    let mut pairs = Vec::new();
    for _ in 0..CLEARED_PAIR_DRAWS {
        pairs.push(rng.gen_range(0..IRIS_CODE_SIZE / 2));
    }
    let iris = IrisCode::random_rng(&mut StdRng::seed_from_u64(18));
    assert_eq!(iris, IrisCode::with_cleared_pairs(code, &pairs));
}

#[test]
fn random_template_clears_whole_pairs() {
    let mut rng = StdRng::seed_from_u64(4);
    let mut fewer_than_six = false;
    for _ in 0..2000 {
        let iris = IrisCode::random_rng(&mut rng);
        for k in 0..IRIS_CODE_SIZE / 2 {
            assert_eq!(iris.mask.get_bit(2 * k), iris.mask.get_bit(2 * k + 1));
        }
        let cleared = IRIS_CODE_SIZE - iris.mask.count_ones();
        assert!(cleared % 2 == 0);
        assert!(cleared >= 2 && cleared <= 2 * CLEARED_PAIR_DRAWS);
        if cleared < 2 * CLEARED_PAIR_DRAWS {
            fewer_than_six = true;
        }
    }
    assert!(fewer_than_six, "a pair is drawn twice now and then");
}

#[test]
fn random_template_follows_the_seed() {
    let a = IrisCode::random_rng(&mut StdRng::seed_from_u64(5));
    let b = IrisCode::random_rng(&mut StdRng::seed_from_u64(5));
    let c = IrisCode::random_rng(&mut StdRng::seed_from_u64(6));
    assert_eq!(a, b);
    assert_ne!(a, c);
    assert_ne!(a.code, IrisCodeArray::zero());
}

#[test]
fn random_templates_are_far_apart() {
    let mut rng = StdRng::seed_from_u64(8);
    for _ in 0..100 {
        let a = IrisCode::random_rng(&mut rng);
        let b = IrisCode::random_rng(&mut rng);
        assert!(!a.is_close(&b));
    }
}

#[test]
fn with_flips_inverts_the_marked_positions() {
    let iris = IrisCode { code: IrisCodeArray([0b1100, 0]), mask: IrisCodeArray::ones() };
    let noisy = iris.with_flips(IrisCodeArray([0b1010, 1]), IrisCodeArray([0, 1u64 << 63]));
    assert_eq!(noisy.code, IrisCodeArray([0b0110, 1]));
    assert_eq!(noisy.mask, IrisCodeArray([u64::MAX, u64::MAX >> 1]));
}

#[test]
fn no_flips_give_the_template_back() {
    let mut rng = StdRng::seed_from_u64(9);
    for _ in 0..20 {
        let iris = IrisCode::random_rng(&mut rng);
        let same = iris.with_flips(IrisCodeArray::zero(), IrisCodeArray::zero());
        assert_eq!(same, iris);
        let d = iris.get_distance(&same).expect("the mask has set positions");
        assert_eq!(d.differing, 0);
        assert_eq!(d.compared, iris.mask.count_ones());
    }
}

#[test]
fn with_draws_pairs_the_draws_with_the_positions() {
    let iris = IrisCode { code: IrisCodeArray([0b1100, 0]), mask: IrisCodeArray::ones() };
    let mut draws = vec![false; 2 * IRIS_CODE_SIZE];
    draws[0] = true;
    draws[2 * 2] = true;
    draws[2 * 3 + 1] = true;
    draws[2 * 64] = true;
    draws[2 * 127 + 1] = true;
    let noisy = iris.with_draws(&draws);
    assert_eq!(noisy.code, IrisCodeArray([0b1001, 1]));
    assert_eq!(noisy.mask, IrisCodeArray([!0b1000, u64::MAX >> 1]));
    for i in 0..IRIS_CODE_SIZE {
        assert_eq!(noisy.code.get_bit(i), iris.code.get_bit(i) != draws[2 * i]);
        assert_eq!(noisy.mask.get_bit(i), iris.mask.get_bit(i) != draws[2 * i + 1]);
    }
}

#[test]
fn with_draws_of_no_flip_gives_the_template_back() {
    let mut rng = StdRng::seed_from_u64(15);
    let iris = IrisCode::random_rng(&mut rng);
    assert_eq!(iris.with_draws(&vec![false; 2 * IRIS_CODE_SIZE]), iris);
    let all = iris.with_draws(&vec![true; 2 * IRIS_CODE_SIZE]);
    assert_eq!(all.code, iris.code.bitxor(IrisCodeArray::ones()));
    assert_eq!(all.mask, iris.mask.bitxor(IrisCodeArray::ones()));
}

#[test]
fn similar_iris_takes_its_draws_in_order() {
    let iris = IrisCode::random_rng(&mut StdRng::seed_from_u64(16));
    let mut rng = StdRng::seed_from_u64(17);
    let mut draws = Vec::new();
    for _ in 0..2 * IRIS_CODE_SIZE {
        draws.push(rng.gen_ratio(NOISE_NUMERATOR, NOISE_DENOMINATOR));
    }
    assert!(draws.iter().any(|d| *d));
    let noisy = iris.get_similar_iris(&mut StdRng::seed_from_u64(17));
    assert_eq!(noisy, iris.with_draws(&draws));
    assert_ne!(noisy, iris);
}

#[test]
fn similar_iris_flips_one_bit_in_twenty() {
    let mut rng = StdRng::seed_from_u64(10);
    let trials = 400usize;
    let mut code_flips = 0usize;
    let mut mask_flips = 0usize;
    for _ in 0..trials {
        let iris = IrisCode::random_rng(&mut rng);
        let noisy = iris.get_similar_iris(&mut rng);
        code_flips += iris.code.bitxor(noisy.code).count_ones();
        mask_flips += iris.mask.bitxor(noisy.mask).count_ones();
    }
    let total = (trials * IRIS_CODE_SIZE) as f64;
    let code_share = code_flips as f64 / total;
    let mask_share = mask_flips as f64 / total;
    assert!((code_share - 0.05).abs() < 0.01, "share of flipped code bits was {}", code_share);
    assert!((mask_share - 0.05).abs() < 0.01, "share of flipped mask bits was {}", mask_share);
}

#[test]
fn similar_iris_stays_close_to_its_origin() {
    let mut rng = StdRng::seed_from_u64(12);
    let mut close = 0usize;
    let trials = 200usize;
    for _ in 0..trials {
        let iris = IrisCode::random_rng(&mut rng);
        let noisy = iris.get_similar_iris(&mut rng);
        if iris.is_close(&noisy) {
            close += 1;
        }
    }
    assert!(close * 100 >= trials * 99, "only {} of {} stayed close", close, trials);
}

#[test]
fn similar_iris_follows_the_seed() {
    let iris = IrisCode::random_rng(&mut StdRng::seed_from_u64(13));
    let a = iris.get_similar_iris(&mut StdRng::seed_from_u64(14));
    let b = iris.get_similar_iris(&mut StdRng::seed_from_u64(14));
    assert_eq!(a, b);
}
