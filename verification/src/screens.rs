//! What the terminal screens show: clock texts, the speaker's status, the
//! big timer's font, the progress bar, the robot parade and the debrief
//! lines.

use vstd::prelude::*;
use crate::ascii_fonts::Font;
use crate::color::Color;
use crate::session::Phase;
use crate::text::{
    all_digits, decimal, digits_value, lemma_decimal_digits, lemma_decimal_value, lemma_two_digits_value,
    push_char, push_decimal, two_digits,
};

verus! {

/// `m:ss` for `s` seconds.
pub open spec fn clock(s: nat) -> Seq<char> {
    decimal(s / 60) + seq![':'] + two_digits(s % 60)
}

/// Appends `n` with at least two digits.
fn push_two_digits(s: &mut String, n: u32)
    ensures
        final(s)@ == old(s)@ + two_digits(n as nat),
{
    if n < 10 {
        push_char(s, '0');
    }
    push_decimal(s, n);
    assert(final(s)@ =~= old(s)@ + two_digits(n as nat));
}

/// Formats `s` seconds as minutes and seconds: `m:ss`.
pub fn fmt(s: u32) -> (r: String)
    ensures
        r@ == clock(s as nat),
{
    let mut r = String::new();
    push_decimal(&mut r, s / 60);
    push_char(&mut r, ':');
    push_two_digits(&mut r, s % 60);
    assert(r@ =~= clock(s as nat));
    r
}

/// The magnitude of a signed number of seconds.
pub open spec fn magnitude(s: i32) -> nat {
    if s < 0 { (-(s as int)) as nat } else { s as nat }
}

/// A signed clock: `-m:ss` below zero, ` m:ss` (leading space) otherwise.
pub open spec fn signed_clock(s: i32) -> Seq<char> {
    seq![if s < 0 { '-' } else { ' ' }] + clock(magnitude(s))
}

/// Formats a signed number of seconds as `-m:ss` or ` m:ss`.
pub fn fmt_signed(s: i32) -> (r: String)
    ensures
        r@ == signed_clock(s),
{
    let mut r = String::new();
    push_char(&mut r, if s < 0 { '-' } else { ' ' });
    let v: u32 = if s < 0 { (-(s as i64)) as u32 } else { s as u32 };
    push_decimal(&mut r, v / 60);
    push_char(&mut r, ':');
    push_two_digits(&mut r, v % 60);
    assert(r@ =~= signed_clock(s));
    r
}

/// How the speaker stands against their allowance.
#[derive(Clone, Copy, Debug, PartialEq, Eq, Structural)]
pub enum Status {
    OnTrack,
    Warning,
    Critical,
    Overtime,
}

/// The status for `remaining` seconds: overtime below zero, critical up to
/// 10 s, warning up to 30 s, on track beyond.
pub open spec fn spec_status_of(remaining: i32) -> Status {
    if remaining < 0 {
        Status::Overtime
    } else if remaining <= 10 {
        Status::Critical
    } else if remaining <= 30 {
        Status::Warning
    } else {
        Status::OnTrack
    }
}

pub fn status_of(remaining: i32) -> (s: Status)
    ensures
        s == spec_status_of(remaining),
{
    if remaining < 0 {
        Status::Overtime
    } else if remaining <= 10 {
        Status::Critical
    } else if remaining <= 30 {
        Status::Warning
    } else {
        Status::OnTrack
    }
}

impl Status {
    /// The label shown next to the speaker, eight columns wide.
    pub fn label(&self) -> (r: &'static str)
        ensures
            r@ == match *self {
                Status::Overtime => "OVERTIME"@,
                Status::Critical => "CRITICAL"@,
                Status::Warning => "WARNING "@,
                Status::OnTrack => "ON TRACK"@,
            },
    {
        match self {
            Status::Overtime => "OVERTIME",
            Status::Critical => "CRITICAL",
            Status::Warning => "WARNING ",
            Status::OnTrack => "ON TRACK",
        }
    }

    /// Red when late or nearly so, yellow when close, green otherwise.
    pub fn color(&self) -> (c: Color)
        ensures
            c == match *self {
                Status::Overtime => Color::Red,
                Status::Critical => Color::Red,
                Status::Warning => Color::Yellow,
                Status::OnTrack => Color::Green,
            },
    {
        match self {
            Status::Overtime => Color::Red,
            Status::Critical => Color::Red,
            Status::Warning => Color::Yellow,
            Status::OnTrack => Color::Green,
        }
    }
}

/// Width of the progress bar, in cells.
pub const BAR_WIDTH: usize = 50;

/// The filled cells of the progress bar: the share of the allowance spoken,
/// capped at the whole bar (none when there is no allowance).
pub open spec fn spec_bar_fill(elapsed: u32, per: u32) -> int {
    if per == 0 {
        0
    } else {
        let spoken = if elapsed < per { elapsed as int } else { per as int };
        (BAR_WIDTH as int) * spoken / (per as int)
    }
}

pub fn bar_fill(elapsed: u32, per: u32) -> (r: usize)
    ensures
        r == spec_bar_fill(elapsed, per),
        r <= BAR_WIDTH,
{
    if per == 0 {
        0
    } else {
        let spoken: u64 = if elapsed < per { elapsed as u64 } else { per as u64 };
        proof {
            let s = spoken as int;
            let p = per as int;
            assert(50 * s <= 50 * p) by (nonlinear_arith)
                requires 0 <= s <= p;
            assert(50 * s / p <= 50) by (nonlinear_arith)
                requires 0 < p, 0 <= s, 50 * s <= 50 * p;
            assert(50 * s / p >= 0) by (nonlinear_arith)
                requires 0 < p, 0 <= s;
        }
        ((50 * spoken) / (per as u64)) as usize
    }
}

/// The progress bar never shrinks while the speaker talks, and it is full
/// exactly when the allowance is used up.
pub proof fn law_bar_grows_and_fills(e1: u32, e2: u32, per: u32)
    requires
        e1 <= e2,
        per > 0,
    ensures
        spec_bar_fill(e1, per) <= spec_bar_fill(e2, per),
        spec_bar_fill(e2, per) == BAR_WIDTH <==> e2 >= per,
{
    let p = per as int;
    let s1 = if e1 < per { e1 as int } else { p };
    let s2 = if e2 < per { e2 as int } else { p };
    assert(50 * s1 / p <= 50 * s2 / p) by (nonlinear_arith)
        requires 0 < p, 0 <= s1 <= s2;
    if e2 < per {
        assert(50 * s2 / p < 50) by (nonlinear_arith)
            requires 0 < p, 0 <= s2 < p;
    } else {
        assert(50 * p / p == 50) by (nonlinear_arith)
            requires 0 < p;
    }
}

/// The phase as shown on the running screen.
pub fn phase_banner(phase: Phase) -> (r: &'static str)
    ensures
        r@ == match phase {
            Phase::Preparation => "PREP"@,
            Phase::Running => "RUNNING"@,
            Phase::Paused => "PAUSED"@,
            Phase::Closing => "CLOSING"@,
            Phase::Aborted => "ABORTED"@,
            Phase::Finished => "FINISHED"@,
        },
{
    match phase {
        Phase::Preparation => "PREP",
        Phase::Running => "RUNNING",
        Phase::Paused => "PAUSED",
        Phase::Closing => "CLOSING",
        Phase::Aborted => "ABORTED",
        Phase::Finished => "FINISHED",
    }
}

/// The column width of each soldier in the parade: the screen shared among
/// the soldiers, never under 10.
pub open spec fn spec_parade_spacing(cols: u16, soldiers: u32) -> int {
    let usable = if cols >= 4 { cols - 4 } else { 0 };
    let share = usable / (if soldiers == 0 { 1 } else { soldiers as int });
    if share < 10 { 10 } else { share }
}

pub fn parade_spacing(cols: u16, soldiers: u32) -> (r: usize)
    ensures
        r == spec_parade_spacing(cols, soldiers),
        r >= 10,
{
    let usable: u32 = if cols >= 4 { (cols - 4) as u32 } else { 0 };
    let n: u32 = if soldiers == 0 { 1 } else { soldiers };
    let share = usable / n;
    if share < 10 { 10 } else { share as usize }
}

/// The two poses of the marching robots.
#[derive(Clone, Copy, Debug, PartialEq, Eq, Structural)]
pub enum Pose {
    A,
    B,
}

/// The pose of robot `i` at animation frame `frame`: neighbours march out
/// of step, and every robot changes pose every four frames.
pub open spec fn spec_robot_pose(i: usize, frame: u32) -> Pose {
    if (i + (frame / 4) % 2) % 2 == 0 { Pose::A } else { Pose::B }
}

pub fn robot_pose(i: usize, frame: u32) -> (p: Pose)
    requires
        i < usize::MAX,
    ensures
        p == spec_robot_pose(i, frame),
{
    let step = ((frame / 4) % 2) as usize;
    if (i + step) % 2 == 0 { Pose::A } else { Pose::B }
}

/// Line `line` (0..5) of a robot in pose `pose`.
pub fn robot_line(pose: Pose, line: usize) -> (r: &'static str)
    requires
        line < 5,
    ensures
        r@ == match pose {
            Pose::A => if line == 0 { "   ___ "@ } else if line == 1 { "  [o_o]"@ } else if line == 2 { " /|___|\\"@ } else if line == 3 { "  |   | "@ } else { " / \\ / \\"@ },
            Pose::B => if line == 0 { "   ___ "@ } else if line == 1 { "  [o_o]"@ } else if line == 2 { " \\|___|/"@ } else if line == 3 { "  |   | "@ } else { "  | X | "@ },
        },
{
    match pose {
        Pose::A => if line == 0 { "   ___ " } else if line == 1 { "  [o_o]" } else if line == 2 { " /|___|\\" } else if line == 3 { "  |   | " } else { " / \\ / \\" },
        Pose::B => if line == 0 { "   ___ " } else if line == 1 { "  [o_o]" } else if line == 2 { " \\|___|/" } else if line == 3 { "  |   | " } else { "  | X | " },
    }
}

/// The colour of robot `i` (0-based) when soldier `current` (1-based)
/// speaks: yellow for the speaker, dark green for those who spoke, dark
/// grey for those who wait.
pub open spec fn spec_robot_color(i: usize, current: u32) -> Color {
    if i + 1 == current {
        Color::Yellow
    } else if i < (if current >= 1 { current - 1 } else { 0 }) {
        Color::DarkGreen
    } else {
        Color::DarkGrey
    }
}

pub fn robot_color(i: usize, current: u32) -> (c: Color)
    requires
        i < u32::MAX,
    ensures
        c == spec_robot_color(i, current),
{
    if (i as u32) + 1 == current {
        Color::Yellow
    } else if i < (current as usize).saturating_sub(1) {
        Color::DarkGreen
    } else {
        Color::DarkGrey
    }
}

/// The colour of the name under robot `i`: yellow for the speaker.
pub fn name_color(i: usize, current: u32) -> (c: Color)
    requires
        i < u32::MAX,
    ensures
        c == (if i + 1 == current { Color::Yellow } else { Color::DarkGrey }),
{
    if (i as u32) + 1 == current { Color::Yellow } else { Color::DarkGrey }
}

/// The note after a soldier's time on the debrief: `  (+m:ss over)` when
/// they overran, nothing otherwise.
pub fn overtime_note(overtime: u32) -> (r: String)
    ensures
        overtime > 0 ==> r@ == seq![' ', ' ', '(', '+'] + clock(overtime as nat) + seq![' ', 'o', 'v', 'e', 'r', ')'],
        overtime == 0 ==> r@ == Seq::<char>::empty(),
{
    let mut r = String::new();
    if overtime > 0 {
        r.append("  (+");
        r.append(fmt(overtime).as_str());
        r.append(" over)");
        proof {
            reveal_strlit("  (+");
            reveal_strlit(" over)");
        }
        assert(r@ =~= seq![' ', ' ', '(', '+'] + clock(overtime as nat) + seq![' ', 'o', 'v', 'e', 'r', ')']);
    }
    r
}

/// Red for a soldier who overran, green otherwise.
pub fn overtime_color(overtime: u32) -> (c: Color)
    ensures
        c == (if overtime > 0 { Color::Red } else { Color::Green }),
{
    if overtime > 0 { Color::Red } else { Color::Green }
}

/// The text of the big timer: `m:ss` of the remaining time, with a minus
/// sign in overtime.
pub open spec fn timer_clock(remaining: i32) -> Seq<char> {
    if remaining < 0 { seq!['-'] + clock(magnitude(remaining)) } else { clock(magnitude(remaining)) }
}

pub fn timer_text(remaining: i32) -> (r: String)
    ensures
        r@ == timer_clock(remaining),
{
    let mut r = String::new();
    if remaining < 0 {
        push_char(&mut r, '-');
    }
    let v: u32 = if remaining < 0 { (-(remaining as i64)) as u32 } else { remaining as u32 };
    push_decimal(&mut r, v / 60);
    push_char(&mut r, ':');
    push_two_digits(&mut r, v % 60);
    assert(r@ =~= timer_clock(remaining));
    r
}

/// The font of the big timer for a speaker who has spoken `elapsed` of an
/// `allowance`, `ms` milliseconds into their turn: clean while under two
/// thirds of the allowance, corrupt from two thirds on, alternating every
/// second in the last five seconds, and blinking between the two every half
/// second in overtime.
pub open spec fn spec_clock_font(elapsed: u32, allowance: u32, ms: u64) -> Font {
    if elapsed > allowance {
        if (ms / 500) % 2 == 0 { Font::Ko } else { Font::Okay }
    } else if allowance - elapsed <= 5 {
        if elapsed % 2 == 0 { Font::Ko } else { Font::Okay }
    } else if 3 * elapsed >= 2 * allowance {
        Font::Ko
    } else {
        Font::Okay
    }
}

pub fn clock_font(elapsed: u32, allowance: u32, ms: u64) -> (f: Font)
    ensures
        f == spec_clock_font(elapsed, allowance, ms),
{
    if elapsed > allowance {
        if (ms / 500) % 2 == 0 { Font::Ko } else { Font::Okay }
    } else if allowance - elapsed <= 5 {
        if elapsed % 2 == 0 { Font::Ko } else { Font::Okay }
    } else if 3 * (elapsed as u64) >= 2 * (allowance as u64) {
        Font::Ko
    } else {
        Font::Okay
    }
}

/// The parade shows who spoke, who speaks and who waits: robot `i` (soldier
/// `i + 1`) is yellow while that soldier speaks, dark green once they have
/// spoken and dark grey while they wait.
pub proof fn law_parade_colours(i: usize, current: u32)
    ensures
        (spec_robot_color(i, current) == Color::Yellow) <==> i + 1 == current,
        (spec_robot_color(i, current) == Color::DarkGreen) <==> i + 1 < current,
        (spec_robot_color(i, current) == Color::DarkGrey) <==> i + 1 > current,
{
}

/// The speaker's status by the seconds left: on track above 30, warning
/// from 30 down to 11, critical from 10 down to 0, overtime below 0.
pub proof fn law_status_thresholds(remaining: i32)
    ensures
        (spec_status_of(remaining) == Status::OnTrack) <==> remaining > 30,
        (spec_status_of(remaining) == Status::Warning) <==> 10 < remaining && remaining <= 30,
        (spec_status_of(remaining) == Status::Critical) <==> 0 <= remaining && remaining <= 10,
        (spec_status_of(remaining) == Status::Overtime) <==> remaining < 0,
{
}

/// The big timer's font: clean below two thirds of the allowance, corrupt
/// from two thirds until the last five seconds, then switching every second,
/// and switching every half second in overtime.
pub proof fn law_clock_font(elapsed: u32, allowance: u32, ms: u64)
    ensures
        3 * elapsed < 2 * allowance && elapsed + 5 < allowance ==> spec_clock_font(elapsed, allowance, ms) == Font::Okay,
        3 * elapsed >= 2 * allowance && elapsed + 5 < allowance ==> spec_clock_font(elapsed, allowance, ms) == Font::Ko,
        elapsed <= allowance && allowance <= elapsed + 5
            ==> spec_clock_font(elapsed, allowance, ms) != spec_clock_font((elapsed + 1) as u32, allowance, ms)
                || elapsed + 1 > allowance,
        elapsed > allowance ==> spec_clock_font(elapsed, allowance, ms) != spec_clock_font(elapsed, allowance, (ms + 500) as u64)
            || ms + 500 > u64::MAX,
{
}

/// The progress bar shows the share of the allowance spoken, rounded down:
/// `fill` of 50 cells when `fill / 50 <= spoken / allowance < (fill + 1) / 50`.
pub proof fn law_bar_is_the_share_spoken(elapsed: u32, per: u32)
    requires
        per > 0,
        elapsed < per,
    ensures
        spec_bar_fill(elapsed, per) * per <= 50 * elapsed,
        50 * elapsed < (spec_bar_fill(elapsed, per) + 1) * per,
{
    let f = spec_bar_fill(elapsed, per);
    let e = elapsed as int;
    let p = per as int;
    assert(f == (50 * e) / p);
    assert(f * p <= 50 * e && 50 * e < (f + 1) * p) by (nonlinear_arith)
        requires f == (50 * e) / p, p > 0, e >= 0;
}

/// The robots share the width left beside a margin of four columns
/// evenly, at least ten columns each.
pub proof fn law_parade_shares_the_width(cols: u16, soldiers: u32)
    requires
        soldiers > 0,
        cols >= 4,
    ensures
        spec_parade_spacing(cols, soldiers) >= 10,
        spec_parade_spacing(cols, soldiers) > 10 ==> spec_parade_spacing(cols, soldiers) * soldiers <= cols - 4
            && cols - 4 < (spec_parade_spacing(cols, soldiers) + 1) * soldiers,
        (cols - 4) >= 10 * soldiers ==> spec_parade_spacing(cols, soldiers) * soldiers <= cols - 4,
{
    let u = cols as int - 4;
    let n = soldiers as int;
    let q = u / n;
    assert(q * n <= u && u < (q + 1) * n) by (nonlinear_arith)
        requires q == u / n, n > 0, u >= 0;
    if u >= 10 * n {
        assert(q >= 10) by (nonlinear_arith)
            requires q == u / n, n > 0, u >= 10 * n;
    }
}

/// Neighbouring robots march out of step, and each changes pose every four
/// frames.
pub proof fn law_robots_march(i: usize, frame: u32)
    requires
        i + 1 <= usize::MAX,
        frame + 4 <= u32::MAX,
    ensures
        spec_robot_pose(i, frame) != spec_robot_pose((i + 1) as usize, frame),
        spec_robot_pose(i, frame) != spec_robot_pose(i, (frame + 4) as u32),
{
    assert((frame + 4) / 4 == frame / 4 + 1) by (nonlinear_arith);
}

/// A clock text reads back as its time: the digits before the colon are
/// the minutes, the two after it the seconds below sixty.
pub proof fn law_clock_reads_back(s: nat)
    ensures
        ({
            let c = clock(s);
            &&& c.len() >= 4
            &&& c[c.len() - 3] == ':'
            &&& all_digits(c.take(c.len() - 3))
            &&& digits_value(c.take(c.len() - 3)) == s / 60
            &&& all_digits(c.skip(c.len() - 2))
            &&& digits_value(c.skip(c.len() - 2)) == s % 60
        }),
{
    let m = decimal(s / 60);
    let t = two_digits(s % 60);
    lemma_decimal_digits(s / 60);
    lemma_decimal_value(s / 60);
    lemma_two_digits_value(s % 60);
    let c = clock(s);
    assert(c == m + seq![':'] + t);
    assert(c.take(c.len() - 3) =~= m);
    assert(c.skip(c.len() - 2) =~= t);
}

} // verus!
