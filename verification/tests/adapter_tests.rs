use iris_hnsw::adapter::{split, to_array, HD};
use iris_hnsw::bitvec::IrisCodeArray;
use iris_hnsw::template::{IrisCode, MaskedDistance};
use rand::rngs::StdRng;
use rand::SeedableRng;

#[test]
fn to_array_copies_the_two_words() {
    let words = vec![0xaaaa_bbbb_cccc_ddddu64, 42];
    assert_eq!(to_array(&words), [0xaaaa_bbbb_cccc_dddd, 42]);
    let flat = [1u64, 2, 3, 4];
    assert_eq!(to_array(&flat[0..2]), [1, 2]);
    assert_eq!(to_array(&flat[2..]), [3, 4]);
}

#[test]
fn split_cuts_at_the_midpoint() {
    let iris = split(&[1, 2, 3, 4]);
    assert_eq!(iris.code, IrisCodeArray([1, 2]));
    assert_eq!(iris.mask, IrisCodeArray([3, 4]));
}

#[test]
fn merge_then_split_gives_the_template_back() {
    let mut rng = StdRng::seed_from_u64(21);
    for _ in 0..100 {
        let iris = IrisCode::random_rng(&mut rng);
        let back = split(&iris.as_merged_array());
        assert_eq!(back, iris);
        for i in 0..128 {
            assert_eq!(back.code.get_bit(i), iris.code.get_bit(i));
            assert_eq!(back.mask.get_bit(i), iris.mask.get_bit(i));
        }
    }
}

#[test]
fn split_then_merge_gives_the_words_back() {
    let words = [0x0123_4567_89ab_cdefu64, 7, u64::MAX, 0x8000_0000_0000_0001];
    assert_eq!(split(&words).as_merged_array(), words);
}

#[test]
fn eval_is_the_distance_of_the_split_templates() {
    let metric = HD::new();
    let a = IrisCode { code: IrisCodeArray([0b0101, 0]), mask: IrisCodeArray([0xff, 0]) };
    let b = IrisCode { code: IrisCodeArray([0b0011, 1]), mask: IrisCodeArray([0xf0f, 1]) };
    let d = metric.eval(&a.as_merged_array(), &b.as_merged_array());
    assert_eq!(d, Some(MaskedDistance { differing: 2, compared: 4 }));
    assert_eq!(d, a.get_distance(&b));
    assert_eq!(metric.eval(&[0, 0, u64::MAX, 0], &[0, 0, 0, u64::MAX]), None);
}

#[test]
fn eval_agrees_with_get_distance_on_random_templates() {
    let metric = HD::new();
    let mut rng = StdRng::seed_from_u64(22);
    for _ in 0..100 {
        let a = IrisCode::random_rng(&mut rng);
        let b = IrisCode::random_rng(&mut rng);
        assert_eq!(metric.eval(&a.as_merged_array(), &b.as_merged_array()), a.get_distance(&b));
    }
}

#[test]
fn eval_counts_its_calls_until_reset() {
    let metric = HD::new();
    assert_eq!(metric.evaluations(), 0);
    let v = IrisCode::default().as_merged_array();
    for n in 1..=5usize {
        metric.eval(&v, &v);
        assert_eq!(metric.evaluations(), n);
    }
    metric.reset_evaluations();
    assert_eq!(metric.evaluations(), 0);
    metric.eval(&v, &v);
    assert_eq!(metric.evaluations(), 1);
}
