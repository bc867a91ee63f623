use yab::protocol::{estimate_iterations, previous_from_files, regressed};
use yab::{CachegrindOutput, CachegrindStats, Measurement, NextStep, Phase, SpawnRequest};

fn simple(n: u64) -> CachegrindOutput {
    CachegrindOutput::read(&format!("events: Ir\nsummary: {n}\n")).unwrap()
}

#[test]
fn calibration_selects_iterations() {
    assert_eq!(estimate_iterations(1_000_000, 5_000, 1_000), 200);
    let mut m = Measurement::new(1_000_000, 1_000);
    assert_eq!(m.calibration_request(), SpawnRequest { iterations: 2, is_baseline: true });
    match m.record(simple(5_000)) {
        NextStep::Spawn(req) => assert_eq!(req, SpawnRequest { iterations: 201, is_baseline: true }),
        NextStep::Publish(_) => panic!("expected a baseline run"),
    }
    assert_eq!(m.phase(), Phase::Baseline);
    match m.record(simple(1_000_000)) {
        NextStep::Spawn(req) => {
            assert_eq!(req, SpawnRequest { iterations: 201, is_baseline: false })
        }
        NextStep::Publish(_) => panic!("expected a full run"),
    }
    match m.record(simple(1_000_250)) {
        NextStep::Publish(out) => {
            assert_eq!(out.summary, CachegrindStats::Simple { instructions: 250 })
        }
        NextStep::Spawn(_) => panic!("expected the result"),
    }
    assert_eq!(m.phase(), Phase::Finished);
}

#[test]
fn calibration_reused_as_baseline() {
    let mut m = Measurement::new(1_000, 1_000);
    match m.record(simple(5_000)) {
        NextStep::Spawn(req) => assert_eq!(req, SpawnRequest { iterations: 2, is_baseline: false }),
        NextStep::Publish(_) => panic!("expected a full run"),
    }
    assert_eq!(m.phase(), Phase::Full);
    match m.record(simple(5_300)) {
        NextStep::Publish(out) => {
            assert_eq!(out.summary, CachegrindStats::Simple { instructions: 300 })
        }
        NextStep::Spawn(_) => panic!("expected the result"),
    }
}

#[test]
fn estimate_is_clamped() {
    assert_eq!(estimate_iterations(1_000_000, 10, 1_000), 1_000);
    assert_eq!(estimate_iterations(100, 5_000, 1_000), 1);
    assert_eq!(estimate_iterations(100, 0, 7), 7);
    assert_eq!(estimate_iterations(10_000, 5_000, 1_000), 2);
}

#[test]
fn regression_gate() {
    // 1.667% above the previous count
    assert!(regressed(1_800_019, 1_830_027, 10_000));
    assert!(!regressed(1_800_019, 1_830_027, 50_000));
    assert!(!regressed(1_830_027, 1_800_019, 0));
    assert!(!regressed(100, 100, 0));
    assert!(regressed(0, 1, 1_000_000));
    assert!(!regressed(100, 110, 100_000));
    assert!(regressed(100, 111, 100_000));
}

#[test]
fn previous_stats_need_both_files() {
    assert!(previous_from_files(Some(simple(10)), None).is_none());
    assert!(previous_from_files(None, Some(simple(10))).is_none());
    let prev = previous_from_files(Some(simple(10)), Some(simple(25))).unwrap();
    assert_eq!(prev.summary, CachegrindStats::Simple { instructions: 15 });
}
