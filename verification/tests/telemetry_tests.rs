use daily_commando::session::{Phase, SoldierStats};
use daily_commando::telemetry::{elapsed_total, overtime_total, phase_label, route, Route};

fn stat(index: u32, elapsed: u32, over: u32) -> SoldierStats {
    SoldierStats { index, name: format!("S{index}"), elapsed_seconds: elapsed, overtime_seconds: over }
}

#[test]
fn phase_labels() {
    assert_eq!(phase_label(Phase::Preparation), "preparation");
    assert_eq!(phase_label(Phase::Running), "running");
    assert_eq!(phase_label(Phase::Paused), "paused");
    assert_eq!(phase_label(Phase::Closing), "closing");
    assert_eq!(phase_label(Phase::Aborted), "aborted");
    assert_eq!(phase_label(Phase::Finished), "finished");
}

#[test]
fn debrief_totals() {
    let stats = vec![stat(1, 200, 20), stat(2, 100, 0), stat(3, 190, 10)];
    assert_eq!(overtime_total(&stats), Some(30));
    assert_eq!(elapsed_total(&stats), Some(490));
    assert_eq!(overtime_total(&[]), Some(0));
    let huge = vec![stat(1, u32::MAX, u32::MAX), stat(2, 1, 1)];
    assert_eq!(overtime_total(&huge), None);
    assert_eq!(elapsed_total(&huge), None);
}

#[test]
fn metrics_routes() {
    assert_eq!(route("/metrics"), Route::Metrics);
    assert_eq!(route("/metrics?x=1"), Route::Metrics);
    assert_eq!(route("/health"), Route::Health);
    assert_eq!(route("/healthz"), Route::Health);
    assert_eq!(route("/healthy"), Route::Banner);
    assert_eq!(route("/"), Route::Banner);
    assert_eq!(route("/metric"), Route::Banner);
}
