use anndists::dist::Distance;
use hnsw_rs::hnsw::Hnsw;
use iris_hnsw::adapter::HD;
use iris_hnsw::bench::Harness;
use iris_hnsw::template::{IrisCode, MERGED_SIZE_U64};
use rand::rngs::StdRng;
use rand::SeedableRng;
use std::sync::Arc;

/// The metric as the index wants it: a number, not a fraction.
struct Metric(Arc<HD>);

impl Distance<u64> for Metric {
    fn eval(&self, va: &[u64], vb: &[u64]) -> f32 {
        assert!(va.len() == MERGED_SIZE_U64 && vb.len() == MERGED_SIZE_U64);
        match self.0.eval(va, vb) {
            Some(d) => (d.differing as f64 / d.compared as f64) as f32,
            None => f32::NAN,
        }
    }
}

#[test]
fn end_to_end_recall_with_the_index() {
    let metric = Arc::new(HD::new());
    let mut rng = StdRng::seed_from_u64(2024);
    let mut run = Harness::new();
    run.populate(&mut rng, 100, 10).unwrap();
    let mut index = Hnsw::<u64, Metric>::new(128, 100, 4, 128, Metric(metric.clone()));
    for entry in run.insertions().unwrap() {
        index.insert_slice((&entry.vector, entry.id));
    }
    run.switch_to_search(&metric).unwrap();
    index.set_searching_mode(true);
    let probes = run.probes(&mut rng).unwrap();
    let answers: Vec<Option<usize>> = probes
        .iter()
        .map(|p| index.search(&p.vector, 1, 128).first().map(|n| n.d_id))
        .collect();
    let report = run.score(&answers, &metric).unwrap();
    assert_eq!(report.queries, 10);
    assert!(report.correct >= 8, "recall was {} of 10", report.correct);
    assert!(report.evaluations > 0);
    assert!(report.average_evaluations().unwrap() <= 100 * 4);
}

#[test]
fn sole_point_is_its_own_nearest_neighbour() {
    let metric = Arc::new(HD::new());
    let mut rng = StdRng::seed_from_u64(2025);
    let iris = IrisCode::random_rng(&mut rng);
    let mut index = Hnsw::<u64, Metric>::new(16, 1, 4, 16, Metric(metric.clone()));
    index.insert_slice((&iris.as_merged_array(), 17));
    index.set_searching_mode(true);
    let found = index.search(&iris.as_merged_array(), 1, 16);
    assert_eq!(found.len(), 1);
    assert_eq!(found[0].d_id, 17);
    assert_eq!(found[0].distance, 0.0);
}
