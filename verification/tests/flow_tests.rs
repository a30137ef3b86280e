use daily_commando::flow::{closing_dismissed, json_debrief_over, running_over, Stage, JSON_CLOSING_WINDOW};
use daily_commando::session::{Phase, Session, SessionConfig};
use daily_commando::welcome::Key;

fn session(n: u32, total: u32) -> Session {
    Session::new(SessionConfig { soldiers: n, total_seconds: total, names: vec![] })
}

#[test]
fn stages_follow_in_order() {
    let mut s = session(2, 20);
    assert_eq!(s.next_stage(None, false), Stage::Welcome);
    assert_eq!(s.phase(), Phase::Preparation);
    assert_eq!(s.next_stage(Some(Stage::Welcome), false), Stage::Running);
    assert_eq!(s.phase(), Phase::Running);
    s.next_soldier();
    s.next_soldier();
    assert_eq!(s.next_stage(Some(Stage::Running), false), Stage::Closing);
    assert_eq!(s.next_stage(Some(Stage::Closing), false), Stage::Done);
    assert_eq!(s.phase(), Phase::Finished);
}

#[test]
fn skipping_the_briefing_commences_at_once() {
    let mut s = session(2, 20);
    assert_eq!(s.next_stage(None, true), Stage::Running);
    assert_eq!(s.phase(), Phase::Running);
}

#[test]
fn an_abort_skips_the_debrief() {
    let mut s = session(2, 20);
    s.abort();
    assert_eq!(s.next_stage(Some(Stage::Welcome), false), Stage::Done);
    let mut r = session(2, 20);
    r.commence();
    assert!(r.running_key(Key::Esc));
    assert_eq!(r.phase(), Phase::Aborted);
    assert_eq!(r.next_stage(Some(Stage::Running), false), Stage::Done);
}

#[test]
fn running_keys() {
    let mut s = session(3, 30);
    s.commence();
    assert!(!s.running_key(Key::Char(' ')));
    assert_eq!(s.phase(), Phase::Paused);
    assert!(!s.running_key(Key::Char(' ')));
    assert_eq!(s.phase(), Phase::Running);
    assert!(!s.running_key(Key::Char('n')));
    assert_eq!(s.current_index(), 1);
    assert!(!s.running_key(Key::Right));
    assert_eq!(s.current_index(), 2);
    assert!(!s.running_key(Key::Char('x')));
    assert!(!s.running_key(Key::Right));
    assert_eq!(s.phase(), Phase::Closing);
    assert!(running_over(s.phase()));
    assert!(s.running_key(Key::Char('q')));
    assert_eq!(s.phase(), Phase::Closing);
}

#[test]
fn no_hand_over_without_a_key() {
    let mut s = session(2, 4);
    s.commence();
    for _ in 0..5 {
        s.tick_one_second();
    }
    // the allowance of 2 s is long spent: the first soldier still speaks
    assert_eq!(s.current_index(), 0);
    assert_eq!(s.snapshot().remaining_current, -3);
    assert!(!s.running_key(Key::Char('x')));
    assert_eq!(s.current_index(), 0);
    assert!(!s.running_key(Key::Char('n')));
    assert_eq!(s.current_index(), 1);
}

#[test]
fn enter_ends_the_mission_with_a_debrief() {
    let mut s = session(3, 30);
    s.commence();
    assert!(s.running_key(Key::Enter));
    assert_eq!(s.phase(), Phase::Closing);
    assert_eq!(s.next_stage(Some(Stage::Running), false), Stage::Closing);
    let mut p = session(3, 30);
    p.commence();
    p.toggle_pause();
    assert!(p.running_key(Key::Enter));
    assert_eq!(p.phase(), Phase::Closing);
}

#[test]
fn dismissing_the_debrief_finishes_the_daily() {
    let mut s = session(1, 10);
    s.commence();
    s.next_soldier();
    assert_eq!(s.phase(), Phase::Closing);
    assert_eq!(s.next_stage(Some(Stage::Closing), false), Stage::Done);
    assert_eq!(s.phase(), Phase::Finished);
    s.tick_one_second();
    assert_eq!(s.closing_seconds(), 0);
}

#[test]
fn json_debrief_window() {
    assert_eq!(JSON_CLOSING_WINDOW, 3);
    assert!(!json_debrief_over(0));
    assert!(!json_debrief_over(2));
    assert!(json_debrief_over(3));
}

#[test]
fn closing_keys() {
    assert!(closing_dismissed(Key::Enter));
    assert!(closing_dismissed(Key::Esc));
    assert!(closing_dismissed(Key::Char('q')));
    assert!(!closing_dismissed(Key::Char(' ')));
    assert!(!running_over(Phase::Running));
    assert!(running_over(Phase::Aborted));
}
