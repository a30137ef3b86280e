use daily_commando::session::{Phase, Session, SessionConfig};

fn cfg(n: u32, total: u32) -> SessionConfig {
    SessionConfig { soldiers: n, total_seconds: total, names: vec![] }
}

#[test]
fn per_soldier_divides_total() {
    assert_eq!(cfg(5, 900).per_soldier_seconds(), 180);
    assert_eq!(cfg(0, 900).per_soldier_seconds(), 0);
}

#[test]
fn names_default_to_soldier_n() {
    let mut c = cfg(3, 30);
    c.names = vec!["Alice".into(), "Bob".into()];
    assert_eq!(c.name_of(0), "Alice");
    assert_eq!(c.name_of(2), "Soldier 3");
}

#[test]
fn lifecycle_runs_through_all_soldiers_then_closing() {
    let mut s = Session::new(cfg(3, 30));
    assert_eq!(s.phase(), Phase::Preparation);
    s.tick_one_second(); // counted as prep
    assert_eq!(s.prep_seconds(), 1);
    s.commence();
    assert_eq!(s.phase(), Phase::Running);
    for _ in 0..10 { s.tick_one_second(); }
    s.next_soldier();
    for _ in 0..10 { s.tick_one_second(); }
    s.next_soldier();
    for _ in 0..10 { s.tick_one_second(); }
    s.next_soldier(); // last → Closing
    assert_eq!(s.phase(), Phase::Closing);
    s.tick_one_second();
    s.tick_one_second();
    assert_eq!(s.closing_seconds(), 2);
    // running counters frozen
    assert_eq!(s.elapsed()[2], 10);
}

#[test]
fn pause_blocks_tick() {
    let mut s = Session::new(cfg(2, 20));
    s.commence();
    s.tick_one_second();
    s.toggle_pause();
    s.tick_one_second();
    s.tick_one_second();
    assert_eq!(s.elapsed()[0], 1);
    s.toggle_pause();
    s.tick_one_second();
    assert_eq!(s.elapsed()[0], 2);
}

#[test]
fn overtime_reported_in_stats() {
    let mut s = Session::new(cfg(2, 20)); // 10s each
    s.commence();
    for _ in 0..15 { s.tick_one_second(); }
    let stats = s.stats();
    assert_eq!(stats[0].overtime_seconds, 5);
}

#[test]
fn update_config_only_in_preparation() {
    let mut s = Session::new(cfg(2, 20));
    s.update_config(cfg(4, 40));
    assert_eq!(s.config().soldiers, 4);
    s.commence();
    s.update_config(cfg(8, 80));
    assert_eq!(s.config().soldiers, 4);
}

#[test]
fn new_session_has_one_counter_per_soldier() {
    let s = Session::new(cfg(4, 40));
    assert_eq!(s.elapsed(), &[0, 0, 0, 0]);
    assert_eq!(s.current_index(), 0);
    let lone = Session::new(cfg(0, 40));
    assert_eq!(lone.elapsed(), &[0]);
}

#[test]
fn update_config_resets_counters() {
    let mut s = Session::new(cfg(2, 20));
    s.update_config(cfg(3, 30));
    assert_eq!(s.elapsed(), &[0, 0, 0]);
    assert_eq!(s.config().total_seconds, 30);
}

#[test]
fn snapshot_reports_every_field() {
    let mut c = cfg(3, 30);
    c.names = vec!["Alice".into()];
    let mut s = Session::new(c);
    s.tick_one_second();
    s.commence();
    for _ in 0..4 { s.tick_one_second(); }
    s.next_soldier();
    for _ in 0..13 { s.tick_one_second(); }
    let t = s.snapshot();
    assert_eq!(t.phase, Phase::Running);
    assert_eq!(t.current_soldier, 2);
    assert_eq!(t.current_name, "Soldier 2");
    assert_eq!(t.soldiers, 3);
    assert_eq!(t.per_soldier_seconds, 10);
    assert_eq!(t.allowance_seconds, 16); // 6 s saved by the first soldier
    assert_eq!(t.elapsed_current, 13);
    assert_eq!(t.remaining_current, 3);
    assert_eq!(t.total_elapsed, 17);
    assert_eq!(t.total_budget, 30);
    assert_eq!(t.prep_seconds, 1);
    assert_eq!(t.closing_seconds, 0);
}

#[test]
fn stats_list_every_soldier() {
    let mut c = cfg(2, 20);
    c.names = vec!["Zed".into()];
    let mut s = Session::new(c);
    s.commence();
    for _ in 0..3 { s.tick_one_second(); }
    s.next_soldier();
    for _ in 0..19 { s.tick_one_second(); }
    let stats = s.stats();
    assert_eq!(stats.len(), 2);
    assert_eq!(stats[0].index, 1);
    assert_eq!(stats[0].name, "Zed");
    assert_eq!(stats[0].elapsed_seconds, 3);
    assert_eq!(stats[0].overtime_seconds, 0);
    assert_eq!(stats[1].index, 2);
    assert_eq!(stats[1].name, "Soldier 2");
    assert_eq!(stats[1].elapsed_seconds, 19);
    assert_eq!(stats[1].overtime_seconds, 2); // 10 s share + 7 s saved
}

#[test]
fn abort_and_close_follow_the_phases() {
    let mut s = Session::new(cfg(2, 20));
    s.close(); // not running yet: no effect
    assert_eq!(s.phase(), Phase::Preparation);
    s.abort();
    assert_eq!(s.phase(), Phase::Aborted);
    s.commence(); // aborted stays aborted
    assert_eq!(s.phase(), Phase::Aborted);
    s.toggle_pause();
    assert_eq!(s.phase(), Phase::Aborted);

    let mut r = Session::new(cfg(2, 20));
    r.commence();
    r.toggle_pause();
    assert_eq!(r.phase(), Phase::Paused);
    r.close();
    assert_eq!(r.phase(), Phase::Closing);
    r.abort(); // the debrief cannot be aborted
    assert_eq!(r.phase(), Phase::Closing);
}

#[test]
fn next_soldier_resumes_a_paused_daily() {
    let mut s = Session::new(cfg(3, 30));
    s.commence();
    s.toggle_pause();
    s.next_soldier();
    assert_eq!(s.phase(), Phase::Running);
    assert_eq!(s.current_index(), 1);
}

#[test]
fn pausing_twice_restores_the_phase() {
    let mut s = Session::new(cfg(2, 20));
    s.commence();
    s.toggle_pause();
    s.toggle_pause();
    assert_eq!(s.phase(), Phase::Running);
}

#[test]
fn tick_never_hands_over() {
    let mut s = Session::new(cfg(2, 4)); // 2s each
    s.commence();
    for _ in 0..9 { s.tick_one_second(); }
    assert_eq!(s.current_index(), 0);
    assert_eq!(s.phase(), Phase::Running);
    assert_eq!(s.elapsed(), &[9, 0]);
}

#[test]
fn hand_overs_visit_every_soldier_then_close() {
    let mut s = Session::new(cfg(4, 40));
    s.commence();
    for k in 1..4u32 {
        s.next_soldier();
        assert_eq!(s.current_index(), k);
        assert_eq!(s.phase(), Phase::Running);
    }
    s.next_soldier();
    assert_eq!(s.phase(), Phase::Closing);
    assert_eq!(s.current_index(), 3);
}

#[test]
fn allowances_fit_the_budget() {
    for (n, t) in [(3u32, 100u32), (7, 45), (1, 61), (20, 900)] {
        let c = cfg(n, t);
        let per = c.per_soldier_seconds();
        assert!(per * n <= t);
        assert!(t - per * n < n);
    }
}

#[test]
fn can_tick_and_can_snapshot_hold_for_a_fresh_session() {
    let s = Session::new(cfg(2, 20));
    assert!(s.can_tick());
    assert!(s.can_snapshot());
}

#[test]
fn early_hand_over_carries_the_saved_seconds_forward() {
    let mut s = Session::new(cfg(3, 30)); // 10 s each
    s.commence();
    for _ in 0..4 {
        s.tick_one_second();
    }
    s.next_soldier(); // 6 s saved
    let t = s.snapshot();
    assert_eq!(t.per_soldier_seconds, 10);
    assert_eq!(t.allowance_seconds, 16);
    assert_eq!(t.remaining_current, 16);
    for _ in 0..12 {
        s.tick_one_second();
    }
    s.next_soldier(); // 4 s of the 16 saved
    let t = s.snapshot();
    assert_eq!(t.allowance_seconds, 14);
    for _ in 0..20 {
        s.tick_one_second();
    }
    let stats = s.stats();
    assert_eq!(stats[0].overtime_seconds, 0);
    assert_eq!(stats[1].overtime_seconds, 0);
    assert_eq!(stats[2].overtime_seconds, 6); // 20 s of a 14 s allowance
    assert_eq!(s.snapshot().remaining_current, -6);
}

#[test]
fn late_hand_over_brings_no_bonus() {
    let mut s = Session::new(cfg(2, 20));
    s.commence();
    for _ in 0..13 {
        s.tick_one_second();
    }
    s.next_soldier();
    assert_eq!(s.snapshot().allowance_seconds, 10);
    assert_eq!(s.stats()[0].overtime_seconds, 3);
}

#[test]
fn finish_ends_only_a_debrief() {
    let mut s = Session::new(cfg(1, 10));
    s.finish();
    assert_eq!(s.phase(), Phase::Preparation);
    s.commence();
    s.finish();
    assert_eq!(s.phase(), Phase::Running);
    s.next_soldier();
    assert_eq!(s.phase(), Phase::Closing);
    s.finish();
    assert_eq!(s.phase(), Phase::Finished);
}

#[test]
fn counters_count_exactly_their_ticks() {
    let mut s = Session::new(cfg(2, 20));
    s.tick_one_second();
    s.update_config(cfg(3, 30)); // still preparing: counters reset, prep kept
    s.tick_one_second();
    s.commence();
    s.update_config(cfg(5, 50)); // too late: ignored
    assert_eq!(s.config().soldiers, 3);
    s.tick_one_second();
    s.toggle_pause();
    s.tick_one_second(); // paused: counts nowhere
    s.toggle_pause();
    s.next_soldier();
    s.tick_one_second();
    s.tick_one_second();
    s.abort();
    s.tick_one_second(); // aborted: counts nowhere
    s.commence(); // an aborted daily stays aborted
    assert_eq!(s.phase(), Phase::Aborted);
    assert_eq!(s.prep_seconds(), 2);
    assert_eq!(s.elapsed(), &[1, 2, 0]);
    assert_eq!(s.closing_seconds(), 0);
    assert_eq!(s.current_index(), 1);
}
