//! What the observability layer reports: the label of each phase, the
//! totals of a debrief, and which page a request to the metrics endpoint
//! asks for.

use vstd::prelude::*;
use crate::session::{Phase, SoldierStats};

verus! {

/// The metric label of a phase.
pub fn phase_label(phase: Phase) -> (r: &'static str)
    ensures
        r@ == match phase {
            Phase::Preparation => "preparation"@,
            Phase::Running => "running"@,
            Phase::Paused => "paused"@,
            Phase::Closing => "closing"@,
            Phase::Aborted => "aborted"@,
            Phase::Finished => "finished"@,
        },
{
    match phase {
        Phase::Preparation => "preparation",
        Phase::Running => "running",
        Phase::Paused => "paused",
        Phase::Closing => "closing",
        Phase::Aborted => "aborted",
        Phase::Finished => "finished",
    }
}

/// The sum of the soldiers' overtime.
pub open spec fn overtime_sum(s: Seq<SoldierStats>) -> int
    decreases s.len(),
{
    if s.len() == 0 { 0 } else { overtime_sum(s.drop_last()) + s.last().overtime_seconds }
}

/// The sum of the soldiers' speaking time.
pub open spec fn elapsed_sum(s: Seq<SoldierStats>) -> int
    decreases s.len(),
{
    if s.len() == 0 { 0 } else { elapsed_sum(s.drop_last()) + s.last().elapsed_seconds }
}

proof fn lemma_overtime_sum_grows(s: Seq<SoldierStats>, k: int)
    requires
        0 <= k <= s.len(),
    ensures
        0 <= overtime_sum(s.take(k)) <= overtime_sum(s),
    decreases s.len() - k,
{
    if k < s.len() {
        lemma_overtime_sum_grows(s, k + 1);
        assert(s.take(k + 1).drop_last() =~= s.take(k));
    } else {
        assert(s.take(k) =~= s);
    }
    lemma_overtime_sum_nonneg(s.take(k));
}

proof fn lemma_overtime_sum_nonneg(s: Seq<SoldierStats>)
    ensures
        overtime_sum(s) >= 0,
    decreases s.len(),
{
    if s.len() > 0 {
        lemma_overtime_sum_nonneg(s.drop_last());
    }
}

proof fn lemma_elapsed_sum_grows(s: Seq<SoldierStats>, k: int)
    requires
        0 <= k <= s.len(),
    ensures
        0 <= elapsed_sum(s.take(k)) <= elapsed_sum(s),
    decreases s.len() - k,
{
    if k < s.len() {
        lemma_elapsed_sum_grows(s, k + 1);
        assert(s.take(k + 1).drop_last() =~= s.take(k));
    } else {
        assert(s.take(k) =~= s);
    }
    lemma_elapsed_sum_nonneg(s.take(k));
}

proof fn lemma_elapsed_sum_nonneg(s: Seq<SoldierStats>)
    ensures
        elapsed_sum(s) >= 0,
    decreases s.len(),
{
    if s.len() > 0 {
        lemma_elapsed_sum_nonneg(s.drop_last());
    }
}

/// The total overtime of the debrief, or `None` when it does not fit in a
/// `u32`.
pub fn overtime_total(stats: &[SoldierStats]) -> (r: Option<u32>)
    ensures
        overtime_sum(stats@) <= u32::MAX ==> r == Some(overtime_sum(stats@) as u32),
        overtime_sum(stats@) > u32::MAX ==> r is None,
{
    let mut total: u64 = 0;
    let mut i: usize = 0;
    while i < stats.len()
        invariant
            i <= stats@.len(),
            total == overtime_sum(stats@.take(i as int)),
            total <= u32::MAX,
        decreases stats@.len() - i,
    {
        proof {
            assert(stats@.take(i as int + 1).drop_last() =~= stats@.take(i as int));
        }
        total = total + stats[i].overtime_seconds as u64;
        i = i + 1;
        if total > 0xffff_ffff {
            proof {
                lemma_overtime_sum_grows(stats@, i as int);
            }
            return None;
        }
    }
    assert(stats@.take(stats@.len() as int) =~= stats@);
    Some(total as u32)
}

/// The total speaking time of the debrief, or `None` when it does not fit
/// in a `u32`.
pub fn elapsed_total(stats: &[SoldierStats]) -> (r: Option<u32>)
    ensures
        elapsed_sum(stats@) <= u32::MAX ==> r == Some(elapsed_sum(stats@) as u32),
        elapsed_sum(stats@) > u32::MAX ==> r is None,
{
    let mut total: u64 = 0;
    let mut i: usize = 0;
    while i < stats.len()
        invariant
            i <= stats@.len(),
            total == elapsed_sum(stats@.take(i as int)),
            total <= u32::MAX,
        decreases stats@.len() - i,
    {
        proof {
            assert(stats@.take(i as int + 1).drop_last() =~= stats@.take(i as int));
        }
        total = total + stats[i].elapsed_seconds as u64;
        i = i + 1;
        if total > 0xffff_ffff {
            proof {
                lemma_elapsed_sum_grows(stats@, i as int);
            }
            return None;
        }
    }
    assert(stats@.take(stats@.len() as int) =~= stats@);
    Some(total as u32)
}

/// The pages of the metrics endpoint.
#[derive(Clone, Copy, Debug, PartialEq, Eq, Structural)]
pub enum Route {
    /// The Prometheus exposition.
    Metrics,
    /// The liveness probe, answered `ok`.
    Health,
    /// Any other path: a line pointing at `/metrics`.
    Banner,
}

/// The page a request for `url` gets: paths starting with `/metrics` get
/// the metrics, `/health` and `/healthz` the probe, anything else the banner.
pub open spec fn spec_route(url: Seq<char>) -> Route {
    if url.len() >= 8 && url.take(8) == "/metrics"@ {
        Route::Metrics
    } else if url == "/health"@ || url == "/healthz"@ {
        Route::Health
    } else {
        Route::Banner
    }
}

pub fn route(url: &str) -> (r: Route)
    ensures
        r == spec_route(url@),
{
    let n = url.unicode_len();
    proof {
        reveal_strlit("/metrics");
    }
    if n >= 8 {
        let head = String::from_str(url.substring_char(0, 8));
        let metrics = String::from_str("/metrics");
        assert(url@.take(8) =~= url@.subrange(0, 8));
        if head == metrics {
            return Route::Metrics;
        }
    }
    let whole = String::from_str(url);
    if whole == String::from_str("/health") || whole == String::from_str("/healthz") {
        Route::Health
    } else {
        Route::Banner
    }
}

/// The debrief totals add up every soldier: a soldier more adds their
/// overtime and their speaking time, and an empty debrief totals nothing.
pub proof fn law_totals_add_every_soldier(s: Seq<SoldierStats>, x: SoldierStats)
    ensures
        overtime_sum(Seq::<SoldierStats>::empty()) == 0,
        elapsed_sum(Seq::<SoldierStats>::empty()) == 0,
        overtime_sum(s.push(x)) == overtime_sum(s) + x.overtime_seconds,
        elapsed_sum(s.push(x)) == elapsed_sum(s) + x.elapsed_seconds,
{
    assert(s.push(x).drop_last() =~= s);
}

/// The metrics endpoint answers paths under `/metrics` with the metrics,
/// exactly `/health` and `/healthz` with the probe, and any other path
/// with the banner.
pub proof fn law_routes(url: Seq<char>)
    ensures
        url.len() >= 8 && url.subrange(0, 8) == "/metrics"@ ==> spec_route(url) == Route::Metrics,
        !(url.len() >= 8 && url.subrange(0, 8) == "/metrics"@) && (url == "/health"@ || url == "/healthz"@)
            ==> spec_route(url) == Route::Health,
        !(url.len() >= 8 && url.subrange(0, 8) == "/metrics"@) && url != "/health"@ && url != "/healthz"@
            ==> spec_route(url) == Route::Banner,
{
    if url.len() >= 8 {
        assert(url.take(8) =~= url.subrange(0, 8));
    }
}

} // verus!
