use daily_commando::color::Color;
use daily_commando::screens::{
    bar_fill, fmt, fmt_signed, name_color, overtime_color, overtime_note, parade_spacing,
    phase_banner, robot_color, robot_line, robot_pose, status_of, Pose, Status,
};
use daily_commando::screens::{clock_font, timer_text};
use daily_commando::ascii_fonts::Font;
use daily_commando::session::Phase;

#[test]
fn clock_formats() {
    assert_eq!(fmt(0), "0:00");
    assert_eq!(fmt(59), "0:59");
    assert_eq!(fmt(61), "1:01");
    assert_eq!(fmt(900), "15:00");
    assert_eq!(fmt(u32::MAX), "71582788:15");
}

#[test]
fn signed_clock_formats() {
    assert_eq!(fmt_signed(75), " 1:15");
    assert_eq!(fmt_signed(0), " 0:00");
    assert_eq!(fmt_signed(-5), "-0:05");
    assert_eq!(fmt_signed(i32::MIN), "-35791394:08");
}

#[test]
fn status_thresholds() {
    assert_eq!(status_of(-1), Status::Overtime);
    assert_eq!(status_of(0), Status::Critical);
    assert_eq!(status_of(10), Status::Critical);
    assert_eq!(status_of(11), Status::Warning);
    assert_eq!(status_of(30), Status::Warning);
    assert_eq!(status_of(31), Status::OnTrack);
    assert_eq!(Status::Warning.label(), "WARNING ");
    assert_eq!(Status::OnTrack.label(), "ON TRACK");
    assert_eq!(Status::Overtime.label(), "OVERTIME");
    assert_eq!(Status::Critical.color(), Color::Red);
    assert_eq!(Status::Warning.color(), Color::Yellow);
    assert_eq!(Status::OnTrack.color(), Color::Green);
}

#[test]
fn progress_bar_fill() {
    assert_eq!(bar_fill(0, 180), 0);
    assert_eq!(bar_fill(90, 180), 25);
    assert_eq!(bar_fill(179, 180), 49);
    assert_eq!(bar_fill(180, 180), 50);
    assert_eq!(bar_fill(500, 180), 50);
    assert_eq!(bar_fill(7, 0), 0);
}

#[test]
fn phase_banners() {
    assert_eq!(phase_banner(Phase::Preparation), "PREP");
    assert_eq!(phase_banner(Phase::Paused), "PAUSED");
    assert_eq!(phase_banner(Phase::Finished), "FINISHED");
}

#[test]
fn parade_layout() {
    assert_eq!(parade_spacing(100, 5), 19);
    assert_eq!(parade_spacing(100, 20), 10);
    assert_eq!(parade_spacing(2, 0), 10);
    assert_eq!(robot_pose(0, 0), Pose::A);
    assert_eq!(robot_pose(1, 0), Pose::B);
    assert_eq!(robot_pose(0, 4), Pose::B);
    assert_eq!(robot_pose(0, 8), Pose::A);
    assert_eq!(robot_line(Pose::A, 2), " /|___|\\");
    assert_eq!(robot_line(Pose::B, 4), "  | X | ");
    assert_eq!(robot_color(1, 2), Color::Yellow);
    assert_eq!(robot_color(0, 2), Color::DarkGreen);
    assert_eq!(robot_color(2, 2), Color::DarkGrey);
    assert_eq!(name_color(1, 2), Color::Yellow);
    assert_eq!(name_color(0, 2), Color::DarkGrey);
}

#[test]
fn debrief_notes() {
    assert_eq!(overtime_note(0), "");
    assert_eq!(overtime_note(65), "  (+1:05 over)");
    assert_eq!(overtime_color(0), Color::Green);
    assert_eq!(overtime_color(3), Color::Red);
}

#[test]
fn big_timer_text() {
    assert_eq!(timer_text(75), "1:15");
    assert_eq!(timer_text(0), "0:00");
    assert_eq!(timer_text(-5), "-0:05");
    assert_eq!(timer_text(-125), "-2:05");
}

#[test]
fn big_timer_font() {
    // 60 s allowance: clean under 40 s, corrupt from 40 s
    assert_eq!(clock_font(39, 60, 0), Font::Okay);
    assert_eq!(clock_font(40, 60, 0), Font::Ko);
    assert_eq!(clock_font(54, 60, 0), Font::Ko);
    // last five seconds: alternates every second
    assert_eq!(clock_font(55, 60, 0), Font::Okay);
    assert_eq!(clock_font(56, 60, 0), Font::Ko);
    assert_eq!(clock_font(60, 60, 0), Font::Ko);
    // overtime: blinks every half second
    assert_eq!(clock_font(61, 60, 0), Font::Ko);
    assert_eq!(clock_font(61, 60, 499), Font::Ko);
    assert_eq!(clock_font(61, 60, 500), Font::Okay);
    assert_eq!(clock_font(61, 60, 1000), Font::Ko);
}
