//! The decisions that drive a daily through its screens: which screen comes
//! next and what a key does on the running and closing screens. The word
//! never passes on by itself: only a key hands it over.

use vstd::prelude::*;
use crate::session::{Phase, Session, SessionModel};
use crate::welcome::Key;

verus! {

/// The screens of a daily, in order.
#[derive(Clone, Copy, Debug, PartialEq, Eq, Structural)]
pub enum Stage {
    Welcome,
    Running,
    Closing,
    Done,
}

/// The order of the screens.
pub open spec fn stage_rank(s: Stage) -> int {
    match s {
        Stage::Welcome => 0,
        Stage::Running => 1,
        Stage::Closing => 2,
        Stage::Done => 3,
    }
}

/// Leaving the briefing: an aborted daily ends, any other commences.
pub open spec fn leave_briefing(m: SessionModel) -> (SessionModel, Stage) {
    if m.phase == Phase::Aborted { (m, Stage::Done) } else { (m.commenced(), Stage::Running) }
}

/// The screen after `finished` (`None` at start) and the session after
/// entering it.
pub open spec fn spec_next_stage(m: SessionModel, finished: Option<Stage>, skip_welcome: bool) -> (SessionModel, Stage) {
    match finished {
        None => if skip_welcome { leave_briefing(m) } else { (m, Stage::Welcome) },
        Some(Stage::Welcome) => leave_briefing(m),
        Some(Stage::Running) => if m.phase == Phase::Aborted { (m, Stage::Done) } else { (m, Stage::Closing) },
        Some(Stage::Closing) => (m.finished(), Stage::Done),
        Some(Stage::Done) => (m, Stage::Done),
    }
}

/// What a key does on the running screen, and whether it leaves the screen.
pub open spec fn spec_running_key(m: SessionModel, key: Key) -> (SessionModel, bool) {
    match key {
        Key::Char(' ') => (m.toggled(), false),
        Key::Char('n') | Key::Right => (m.advanced(), false),
        Key::Char('q') | Key::Esc => (m.aborted(), true),
        Key::Enter => (m.closed(), true),
        _ => (m, false),
    }
}

impl Session {
    /// Moves the daily from the screen `finished` (`None` at start) to the
    /// next one and returns it: briefing (unless skipped), running, debrief,
    /// done; an abort skips straight to done.
    pub fn next_stage(&mut self, finished: Option<Stage>, skip_welcome: bool) -> (next: Stage)
        requires
            old(self)@.inv(),
        ensures
            final(self)@.inv(),
            (final(self)@, next) == spec_next_stage(old(self)@, finished, skip_welcome),
            finished matches Some(f) ==> stage_rank(f) < stage_rank(next) || next == Stage::Done,
    {
        match finished {
            None => {
                if !skip_welcome {
                    return Stage::Welcome;
                }
                self.leave_briefing()
            },
            Some(Stage::Welcome) => self.leave_briefing(),
            Some(Stage::Running) => {
                if self.phase() == Phase::Aborted {
                    Stage::Done
                } else {
                    Stage::Closing
                }
            },
            Some(Stage::Closing) => {
                self.finish();
                Stage::Done
            },
            Some(Stage::Done) => Stage::Done,
        }
    }

    fn leave_briefing(&mut self) -> (next: Stage)
        requires
            old(self)@.inv(),
        ensures
            final(self)@.inv(),
            (final(self)@, next) == leave_briefing(old(self)@),
    {
        if self.phase() == Phase::Aborted {
            Stage::Done
        } else {
            self.commence();
            Stage::Running
        }
    }

    /// Applies a key of the running screen: space pauses or resumes, `n` or
    /// → hands over, `q` or Esc aborts and Enter ends the mission (the
    /// debrief follows); both of these leave the screen.
    pub fn running_key(&mut self, key: Key) -> (leave: bool)
        requires
            old(self)@.inv(),
        ensures
            final(self)@.inv(),
            (final(self)@, leave) == spec_running_key(old(self)@, key),
    {
        match key {
            Key::Char(' ') => {
                self.toggle_pause();
                false
            },
            Key::Char('n') | Key::Right => {
                self.next_soldier();
                false
            },
            Key::Char('q') | Key::Esc => {
                self.abort();
                true
            },
            Key::Enter => {
                self.close();
                true
            },
            _ => false,
        }
    }
}

/// The running screen ends once the daily is over or aborted.
pub fn running_over(phase: Phase) -> (r: bool)
    ensures
        r == (phase == Phase::Closing || phase == Phase::Aborted),
{
    phase == Phase::Closing || phase == Phase::Aborted
}

/// The word passes on only when a key asks for it: on the running screen
/// only `n` or → change the speaker, and a tick never does.
pub proof fn law_only_a_key_hands_over(m: SessionModel, key: Key)
    ensures
        spec_running_key(m, key).0.current != m.current ==> key == Key::Char('n') || key == Key::Right,
        m.ticked().current == m.current,
{
}

/// How long the debrief stays up in the JSON stream before the summary:
/// three seconds.
pub const JSON_CLOSING_WINDOW: u32 = 3;

/// Whether the JSON stream ends its debrief after `shown` seconds of it.
pub fn json_debrief_over(shown: u32) -> (r: bool)
    ensures
        r == (shown >= JSON_CLOSING_WINDOW),
{
    shown >= JSON_CLOSING_WINDOW
}

/// `q`, Esc or Enter dismiss the debrief.
pub fn closing_dismissed(key: Key) -> (r: bool)
    ensures
        r == (key == Key::Char('q') || key == Key::Esc || key == Key::Enter),
{
    match key {
        Key::Char('q') | Key::Esc | Key::Enter => true,
        _ => false,
    }
}

/// The screens follow in order: each step moves forward, an aborted daily
/// goes straight to the end without a debrief, and dismissing the debrief
/// finishes the daily.
pub proof fn law_screens_move_forward(m: SessionModel, finished: Stage, skip_welcome: bool)
    requires
        m.inv(),
    ensures
        stage_rank(spec_next_stage(m, Some(finished), skip_welcome).1) > stage_rank(finished)
            || spec_next_stage(m, Some(finished), skip_welcome).1 == Stage::Done,
        m.phase == Phase::Aborted && finished != Stage::Closing && finished != Stage::Done
            ==> spec_next_stage(m, Some(finished), skip_welcome).1 == Stage::Done,
        finished == Stage::Welcome && m.phase == Phase::Preparation
            ==> spec_next_stage(m, Some(finished), skip_welcome).0.phase == Phase::Running,
        finished == Stage::Closing && m.phase == Phase::Closing
            ==> spec_next_stage(m, Some(finished), skip_welcome).0.phase == Phase::Finished,
{
}

/// On the running screen `q` and Esc abort the daily and Enter ends it
/// with a debrief, both leaving the screen; every other key stays on it.
pub proof fn law_running_keys(m: SessionModel, key: Key)
    requires
        m.inv(),
        m.phase == Phase::Running || m.phase == Phase::Paused,
    ensures
        (key == Key::Char('q') || key == Key::Esc) ==> spec_running_key(m, key).0.phase == Phase::Aborted
            && spec_running_key(m, key).1,
        key == Key::Enter ==> spec_running_key(m, key).0.phase == Phase::Closing && spec_running_key(m, key).1,
        key == Key::Char(' ') ==> spec_running_key(m, key).0.phase != m.phase && !spec_running_key(m, key).1,
        spec_running_key(m, key).1 <==> (key == Key::Char('q') || key == Key::Esc || key == Key::Enter),
        spec_running_key(m, key).0.elapsed == m.elapsed,
{
}

} // verus!
