//! Daily standup session state machine.
//!
//! Pure logic, no I/O. The same struct is driven from a TUI today and can be
//! driven from other front ends later.

use vstd::prelude::*;
use crate::text::{decimal, push_decimal};

verus! {

/// The configuration of a daily: how many soldiers speak, the total budget
/// in seconds and the names typed so far.
#[derive(Clone, Debug)]
pub struct SessionConfig {
    pub soldiers: u32,
    pub total_seconds: u32,
    pub names: Vec<String>,
}

/// `"Soldier "`, the prefix of a default name.
pub open spec fn soldier_prefix() -> Seq<char> {
    seq!['S', 'o', 'l', 'd', 'i', 'e', 'r', ' ']
}

/// The default name of the soldier at 1-based position `n`: `Soldier n`.
pub open spec fn default_name(n: nat) -> Seq<char> {
    soldier_prefix() + decimal(n)
}

/// The larger of `n` and 1: the number of per-soldier counters a session keeps.
pub open spec fn at_least_one(n: u32) -> nat {
    if n == 0 { 1 } else { n as nat }
}

impl SessionConfig {
    pub open spec fn spec_per_soldier_seconds(&self) -> u32 {
        if self.soldiers == 0 { 0 } else { (self.total_seconds / self.soldiers) as u32 }
    }

    /// The names as character sequences.
    pub open spec fn name_seqs(&self) -> Seq<Seq<char>> {
        self.names@.map_values(|s: String| s@)
    }

    /// The name shown for the soldier at 0-based index `idx`: the typed name
    /// when there is one, else `Soldier idx+1`.
    pub open spec fn spec_name_of(&self, idx: u32) -> Seq<char> {
        if (idx as int) < self.names@.len() {
            self.names@[idx as int]@
        } else {
            default_name(idx as nat + 1)
        }
    }

    /// The seconds each soldier may speak: the total budget divided evenly,
    /// or 0 when there is no soldier.
    #[verifier::when_used_as_spec(spec_per_soldier_seconds)]
    pub fn per_soldier_seconds(&self) -> (r: u32)
        ensures
            r == self.spec_per_soldier_seconds(),
    {
        if self.soldiers == 0 { 0 } else { self.total_seconds / self.soldiers }
    }

    /// The name of the soldier at 0-based index `idx`.
    pub fn name_of(&self, idx: u32) -> (r: String)
        requires
            (idx as int) < self.names@.len() || idx < u32::MAX,
        ensures
            r@ == self.spec_name_of(idx),
    {
        if (idx as usize) < self.names.len() {
            self.names[idx as usize].clone()
        } else {
            let mut s = String::from_str("Soldier ");
            proof {
                reveal_strlit("Soldier ");
            }
            assert(s@ =~= soldier_prefix());
            push_decimal(&mut s, idx + 1);
            s
        }
    }
}

/// The phases of a daily.
#[derive(Clone, Copy, Debug, PartialEq, Eq, Structural)]
pub enum Phase {
    /// App started, user filling the welcome form.
    Preparation,
    /// Daily in progress, current soldier speaking.
    Running,
    /// Timer paused mid-soldier.
    Paused,
    /// All soldiers done, debrief shown, app still open.
    Closing,
    /// User aborted before the end.
    Aborted,
    /// Final terminal state (after Closing, app exit).
    Finished,
}

/// What one soldier used of the daily.
#[derive(Clone, Debug)]
pub struct SoldierStats {
    pub index: u32,
    pub name: String,
    pub elapsed_seconds: u32,
    pub overtime_seconds: u32,
}

/// A snapshot of the session, as the renderers display it.
#[derive(Clone, Debug)]
pub struct Tick {
    pub phase: Phase,
    pub current_soldier: u32,
    pub current_name: String,
    pub soldiers: u32,
    pub per_soldier_seconds: u32,
    /// The current speaker's allowance: the per-soldier share plus the
    /// seconds carried forward by early hand-overs.
    pub allowance_seconds: u32,
    pub elapsed_current: u32,
    pub remaining_current: i32,
    pub total_elapsed: u32,
    pub total_budget: u32,
    pub prep_seconds: u32,
    pub closing_seconds: u32,
}

/// The abstract state of a session.
#[verifier::ext_equal]
pub struct SessionModel {
    pub config: SessionConfig,
    pub phase: Phase,
    /// 0-based index of the soldier speaking.
    pub current: u32,
    /// Seconds spoken by each soldier.
    pub elapsed: Seq<u32>,
    /// Seconds each soldier received from an early hand-over before them.
    pub bonus: Seq<u32>,
    pub prep_seconds: u32,
    pub closing_seconds: u32,
}

/// The sum of a sequence of counters.
pub open spec fn seq_sum(s: Seq<u32>) -> int
    decreases s.len(),
{
    if s.len() == 0 { 0 } else { seq_sum(s.drop_last()) + s.last() }
}

/// `a - b`, or 0 when `b > a`.
pub open spec fn sat_sub(a: u32, b: u32) -> u32 {
    if a >= b { (a - b) as u32 } else { 0 }
}

impl SessionModel {
    /// The state of a new session for `config`: in preparation, the first
    /// soldier up, every counter at zero.
    pub open spec fn initial(config: SessionConfig) -> SessionModel {
        SessionModel {
            config,
            phase: Phase::Preparation,
            current: 0,
            elapsed: Seq::new(at_least_one(config.soldiers), |i: int| 0u32),
            bonus: Seq::new(at_least_one(config.soldiers), |i: int| 0u32),
            prep_seconds: 0,
            closing_seconds: 0,
        }
    }

    /// The invariant every session keeps: one counter per soldier (at least
    /// one), the current index points at a counter, and nobody has been
    /// handed the word before the daily commences.
    pub open spec fn inv(self) -> bool {
        &&& self.elapsed.len() == at_least_one(self.config.soldiers)
        &&& self.bonus.len() == self.elapsed.len()
        &&& (self.current as int) < self.elapsed.len()
        &&& (self.phase == Phase::Preparation ==> self.current == 0)
        &&& forall|i: int| 0 <= i < self.bonus.len()
            ==> (#[trigger] self.bonus[i]) as int <= i * self.config.spec_per_soldier_seconds()
    }

    /// Seconds spoken by the current soldier.
    pub open spec fn elapsed_current(self) -> u32 {
        self.elapsed[self.current as int]
    }

    /// The allowance of soldier `i`: the per-soldier share plus the bonus
    /// carried forward to them.
    pub open spec fn allowance(self, i: int) -> int {
        self.config.spec_per_soldier_seconds() + self.bonus[i]
    }

    /// The allowance of the current speaker.
    pub open spec fn current_allowance(self) -> int {
        self.allowance(self.current as int)
    }

    /// The seconds the current speaker leaves unspoken of their allowance.
    pub open spec fn saved_seconds(self) -> int {
        let left = self.current_allowance() - self.elapsed_current();
        if left > 0 { left } else { 0 }
    }

    /// No counter that a tick would increment is at its maximum.
    pub open spec fn can_tick(self) -> bool {
        &&& (self.phase == Phase::Preparation ==> self.prep_seconds < u32::MAX)
        &&& (self.phase == Phase::Running ==> self.elapsed_current() < u32::MAX)
        &&& (self.phase == Phase::Closing ==> self.closing_seconds < u32::MAX)
    }

    /// The sum of all counters fits in a `u32` and the signed remaining time
    /// of the current soldier fits in an `i32`.
    pub open spec fn can_snapshot(self) -> bool {
        &&& seq_sum(self.elapsed) <= u32::MAX
        &&& i32::MIN <= (self.current_allowance() as i32) - (self.elapsed_current() as i32) <= i32::MAX
    }

    /// The state after one wall-clock second: the counter of the phase grows.
    pub open spec fn ticked(self) -> SessionModel {
        match self.phase {
            Phase::Preparation => SessionModel { prep_seconds: (self.prep_seconds + 1) as u32, ..self },
            Phase::Running => SessionModel {
                elapsed: self.elapsed.update(self.current as int, (self.elapsed_current() + 1) as u32),
                ..self
            },
            Phase::Closing => SessionModel { closing_seconds: (self.closing_seconds + 1) as u32, ..self },
            _ => self,
        }
    }

    /// The state after handing over to the next soldier, who receives the
    /// seconds the current speaker left unspoken as a bonus.
    pub open spec fn advanced(self) -> SessionModel {
        if self.phase != Phase::Running && self.phase != Phase::Paused {
            self
        } else if self.current + 1 >= self.config.soldiers {
            SessionModel { phase: Phase::Closing, ..self }
        } else {
            SessionModel {
                current: (self.current + 1) as u32,
                phase: Phase::Running,
                bonus: self.bonus.update(self.current + 1, self.saved_seconds() as u32),
                ..self
            }
        }
    }

    /// The state after `commence`: a daily in preparation starts running.
    pub open spec fn commenced(self) -> SessionModel {
        if self.phase == Phase::Preparation { SessionModel { phase: Phase::Running, ..self } } else { self }
    }

    /// The state after `abort`: a daily not yet over is aborted.
    pub open spec fn aborted(self) -> SessionModel {
        if self.phase == Phase::Running || self.phase == Phase::Paused || self.phase == Phase::Preparation {
            SessionModel { phase: Phase::Aborted, ..self }
        } else {
            self
        }
    }

    /// The state after `finish`: a daily whose debrief is dismissed is
    /// finished.
    pub open spec fn finished(self) -> SessionModel {
        if self.phase == Phase::Closing { SessionModel { phase: Phase::Finished, ..self } } else { self }
    }

    /// The state after `close`: a running or paused daily goes to the debrief.
    pub open spec fn closed(self) -> SessionModel {
        if self.phase == Phase::Running || self.phase == Phase::Paused {
            SessionModel { phase: Phase::Closing, ..self }
        } else {
            self
        }
    }

    /// The state after `update_config(config)`: in preparation the
    /// configuration is replaced and the counters are reset, one per soldier.
    pub open spec fn reconfigured(self, config: SessionConfig) -> SessionModel {
        if self.phase == Phase::Preparation {
            SessionModel {
                config: config,
                elapsed: Seq::new(at_least_one(config.soldiers), |i: int| 0u32),
                bonus: Seq::new(at_least_one(config.soldiers), |i: int| 0u32),
                ..self
            }
        } else {
            self
        }
    }

    /// The phase after pressing pause.
    pub open spec fn toggled(self) -> SessionModel {
        match self.phase {
            Phase::Running => SessionModel { phase: Phase::Paused, ..self },
            Phase::Paused => SessionModel { phase: Phase::Running, ..self },
            _ => self,
        }
    }
}

/// A daily standup in progress.
#[derive(Clone, Debug)]
pub struct Session {
    config: SessionConfig,
    phase: Phase,
    current: u32,
    elapsed: Vec<u32>,
    bonus: Vec<u32>,
    prep_seconds: u32,
    closing_seconds: u32,
}

impl View for Session {
    type V = SessionModel;

    closed spec fn view(&self) -> SessionModel {
        SessionModel {
            config: self.config,
            phase: self.phase,
            current: self.current,
            elapsed: self.elapsed@,
            bonus: self.bonus@,
            prep_seconds: self.prep_seconds,
            closing_seconds: self.closing_seconds,
        }
    }
}

fn zeros(n: u32) -> (v: Vec<u32>)
    ensures
        v@.len() == at_least_one(n),
        forall|i: int| 0 <= i < v@.len() ==> v@[i] == 0,
{
    let len: usize = if n == 0 { 1 } else { n as usize };
    let mut v: Vec<u32> = Vec::new();
    let mut i: usize = 0;
    while i < len
        invariant
            i <= len,
            len == at_least_one(n),
            v@.len() == i,
            forall|j: int| 0 <= j < i ==> v@[j] == 0,
        decreases len - i,
    {
        v.push(0);
        i = i + 1;
    }
    v
}

impl Session {
    /// New session in `Preparation` phase. Config can still be mutated until
    /// `commence()` is called.
    pub fn new(config: SessionConfig) -> (s: Self)
        ensures
            s@.inv(),
            s@.config == config,
            s@.phase == Phase::Preparation,
            s@.current == 0,
            s@.elapsed =~= Seq::new(at_least_one(config.soldiers), |i: int| 0u32),
            s@.bonus =~= Seq::new(at_least_one(config.soldiers), |i: int| 0u32),
            s@.prep_seconds == 0,
            s@.closing_seconds == 0,
            s@ == SessionModel::initial(config),
    {
        let elapsed = zeros(config.soldiers);
        let bonus = zeros(config.soldiers);
        Session {
            config,
            phase: Phase::Preparation,
            current: 0,
            elapsed,
            bonus,
            prep_seconds: 0,
            closing_seconds: 0,
        }
    }

    pub fn config(&self) -> (r: &SessionConfig)
        ensures
            *r == self@.config,
    {
        &self.config
    }

    pub fn phase(&self) -> (r: Phase)
        ensures
            r == self@.phase,
    {
        self.phase
    }

    pub fn current_index(&self) -> (r: u32)
        ensures
            r == self@.current,
    {
        self.current
    }

    pub fn elapsed(&self) -> (r: &[u32])
        ensures
            r@ == self@.elapsed,
    {
        self.elapsed.as_slice()
    }

    pub fn prep_seconds(&self) -> (r: u32)
        ensures
            r == self@.prep_seconds,
    {
        self.prep_seconds
    }

    pub fn closing_seconds(&self) -> (r: u32)
        ensures
            r == self@.closing_seconds,
    {
        self.closing_seconds
    }

    /// Replace the configuration while still in `Preparation`. No-op otherwise.
    pub fn update_config(&mut self, config: SessionConfig)
        requires
            old(self)@.inv(),
        ensures
            final(self)@.inv(),
            final(self)@ == old(self)@.reconfigured(config),
    {
        if self.phase == Phase::Preparation {
            let n = config.soldiers;
            self.elapsed = zeros(n);
            self.bonus = zeros(n);
            self.config = config;
        }
    }

    /// Move from Preparation to Running.
    pub fn commence(&mut self)
        requires
            old(self)@.inv(),
        ensures
            final(self)@.inv(),
            final(self)@ == old(self)@.commenced(),
    {
        if self.phase == Phase::Preparation {
            self.phase = Phase::Running;
        }
    }

    /// Pause a running daily, or resume a paused one.
    pub fn toggle_pause(&mut self)
        requires
            old(self)@.inv(),
        ensures
            final(self)@.inv(),
            final(self)@ == old(self)@.toggled(),
    {
        self.phase = match self.phase {
            Phase::Running => Phase::Paused,
            Phase::Paused => Phase::Running,
            other => other,
        };
    }

    /// Abort the daily, unless it is already over.
    pub fn abort(&mut self)
        requires
            old(self)@.inv(),
        ensures
            final(self)@.inv(),
            final(self)@ == old(self)@.aborted(),
    {
        if self.phase == Phase::Running || self.phase == Phase::Paused || self.phase == Phase::Preparation {
            self.phase = Phase::Aborted;
        }
    }

    /// The debrief is dismissed: a closing daily is finished.
    pub fn finish(&mut self)
        requires
            old(self)@.inv(),
        ensures
            final(self)@.inv(),
            final(self)@ == old(self)@.finished(),
    {
        if self.phase == Phase::Closing {
            self.phase = Phase::Finished;
        }
    }

    /// All soldiers are done. Move to Closing (debrief stays on screen).
    pub fn close(&mut self)
        requires
            old(self)@.inv(),
        ensures
            final(self)@.inv(),
            final(self)@ == old(self)@.closed(),
    {
        if self.phase == Phase::Running || self.phase == Phase::Paused {
            self.phase = Phase::Closing;
        }
    }

    /// Advance the wall clock by one second; the counter incremented depends
    /// on the phase.
    pub fn tick_one_second(&mut self)
        requires
            old(self)@.inv(),
            old(self)@.can_tick(),
        ensures
            final(self)@.inv(),
            final(self)@ == old(self)@.ticked(),
    {
        match self.phase {
            Phase::Preparation => self.prep_seconds = self.prep_seconds + 1,
            Phase::Running => {
                let idx = self.current as usize;
                if idx < self.elapsed.len() {
                    let v = self.elapsed[idx];
                    self.elapsed.set(idx, v + 1);
                }
            },
            Phase::Closing => self.closing_seconds = self.closing_seconds + 1,
            _ => {},
        }
    }

    /// Move to next soldier, who gets the seconds the current one left
    /// unspoken as a bonus; transition to Closing if last.
    pub fn next_soldier(&mut self)
        requires
            old(self)@.inv(),
        ensures
            final(self)@.inv(),
            final(self)@ == old(self)@.advanced(),
    {
        if !(self.phase == Phase::Running || self.phase == Phase::Paused) {
            return;
        }
        if self.current + 1 >= self.config.soldiers {
            self.phase = Phase::Closing;
        } else {
            let c = self.current as usize;
            let allowance = self.allowance_of(c);
            let e = self.elapsed[c];
            let saved = if allowance > e { allowance - e } else { 0 };
            proof {
                let per = self@.config.spec_per_soldier_seconds() as int;
                lemma_bonus_bound_step(c as int, per, self@.bonus[c as int] as int, saved as int);
            }
            self.bonus.set(c + 1, saved);
            self.current = self.current + 1;
            self.phase = Phase::Running;
            proof {
                assert forall|i: int| 0 <= i < self@.bonus.len() implies
                    (#[trigger] self@.bonus[i]) as int <= i * self@.config.spec_per_soldier_seconds() by {
                    if i != c + 1 {
                        assert(self@.bonus[i] == old(self)@.bonus[i]);
                    }
                }
            }
        }
    }

    /// The allowance of soldier `i`, which fits in a `u32`.
    fn allowance_of(&self, i: usize) -> (r: u32)
        requires
            self@.inv(),
            i < self@.elapsed.len(),
        ensures
            r == self@.allowance(i as int),
    {
        let per = self.config.per_soldier_seconds();
        proof {
            lemma_allowance_fits(self@, i as int);
        }
        per + self.bonus[i]
    }

    /// Whether a tick may run: the counter it would increment is below its
    /// maximum.
    pub fn can_tick(&self) -> (r: bool)
        requires
            self@.inv(),
        ensures
            r == self@.can_tick(),
    {
        match self.phase {
            Phase::Preparation => self.prep_seconds < u32::MAX,
            Phase::Running => self.elapsed[self.current as usize] < u32::MAX,
            Phase::Closing => self.closing_seconds < u32::MAX,
            _ => true,
        }
    }

    /// Whether a snapshot may be taken: the counters' sum fits in a `u32`
    /// and the remaining time in an `i32`.
    pub fn can_snapshot(&self) -> (r: bool)
        requires
            self@.inv(),
        ensures
            r == self@.can_snapshot(),
    {
        let mut total: u64 = 0;
        let mut i: usize = 0;
        while i < self.elapsed.len()
            invariant
                i <= self.elapsed@.len(),
                total == seq_sum(self.elapsed@.take(i as int)),
                total <= u32::MAX,
            decreases self.elapsed@.len() - i,
        {
            proof {
                assert(self.elapsed@.take(i as int + 1).drop_last() =~= self.elapsed@.take(i as int));
            }
            total = total + self.elapsed[i] as u64;
            i = i + 1;
            if total > 0xffff_ffff {
                proof {
                    lemma_seq_sum_prefix_le(self.elapsed@, i as int);
                }
                return false;
            }
        }
        assert(self.elapsed@.take(self.elapsed@.len() as int) =~= self.elapsed@);
        let per = self.allowance_of(self.current as usize) as i32 as i64;
        let cur = self.elapsed[self.current as usize] as i32 as i64;
        let diff = per - cur;
        -0x8000_0000 <= diff && diff <= 0x7fff_ffff
    }

    /// A snapshot of the session for display.
    pub fn snapshot(&self) -> (t: Tick)
        requires
            self@.inv(),
            self@.can_snapshot(),
        ensures
            t.phase == self@.phase,
            t.current_soldier == self@.current + 1,
            t.current_name@ == self@.config.spec_name_of(self@.current),
            t.soldiers == self@.config.soldiers,
            t.per_soldier_seconds == self@.config.spec_per_soldier_seconds(),
            t.allowance_seconds == self@.current_allowance(),
            t.elapsed_current == self@.elapsed_current(),
            t.remaining_current == (self@.current_allowance() as i32) - (self@.elapsed_current() as i32),
            t.total_elapsed == seq_sum(self@.elapsed),
            t.total_budget == self@.config.total_seconds,
            t.prep_seconds == self@.prep_seconds,
            t.closing_seconds == self@.closing_seconds,
    {
        let per = self.config.per_soldier_seconds();
        let idx = self.current as usize;
        let elapsed_current = self.elapsed[idx];
        let allowance = self.allowance_of(idx);
        let total_elapsed = sum_counters(&self.elapsed);
        let remaining_current = allowance as i32 - elapsed_current as i32;
        Tick {
            phase: self.phase,
            current_soldier: self.current + 1,
            current_name: self.config.name_of(self.current),
            soldiers: self.config.soldiers,
            per_soldier_seconds: per,
            allowance_seconds: allowance,
            elapsed_current,
            remaining_current,
            total_elapsed,
            total_budget: self.config.total_seconds,
            prep_seconds: self.prep_seconds,
            closing_seconds: self.closing_seconds,
        }
    }

    /// One line per soldier: 1-based index, name, seconds spoken and the
    /// seconds spoken beyond the soldier's allowance (share plus bonus).
    pub fn stats(&self) -> (r: Vec<SoldierStats>)
        requires
            self@.inv(),
        ensures
            r@.len() == self@.elapsed.len(),
            forall|i: int| #![trigger r@[i]] 0 <= i < r@.len() ==> {
                &&& r@[i].index == i + 1
                &&& r@[i].name@ == self@.config.spec_name_of(i as u32)
                &&& r@[i].elapsed_seconds == self@.elapsed[i]
                &&& r@[i].overtime_seconds == sat_sub(self@.elapsed[i], self@.allowance(i) as u32)
            },
    {
        let mut out: Vec<SoldierStats> = Vec::new();
        let n = self.elapsed.len();
        let mut i: usize = 0;
        while i < n
            invariant
                n == self@.elapsed.len(),
                self@.inv(),
                i <= n,
                out@.len() == i,
                forall|j: int| #![trigger out@[j]] 0 <= j < i ==> {
                    &&& out@[j].index == j + 1
                    &&& out@[j].name@ == self@.config.spec_name_of(j as u32)
                    &&& out@[j].elapsed_seconds == self@.elapsed[j]
                    &&& out@[j].overtime_seconds == sat_sub(self@.elapsed[j], self@.allowance(j) as u32)
                },
            decreases n - i,
        {
            let e = self.elapsed[i];
            let allowance = self.allowance_of(i);
            let idx = i as u32;
            let st = SoldierStats {
                index: idx + 1,
                name: self.config.name_of(idx),
                elapsed_seconds: e,
                overtime_seconds: e.saturating_sub(allowance),
            };
            out.push(st);
            i = i + 1;
        }
        out
    }
}

/// `(k + 1) * per` steps of `per`.
proof fn lemma_bonus_bound_step(c: int, per: int, bonus: int, saved: int)
    requires
        0 <= c,
        0 <= per,
        0 <= bonus <= c * per,
        0 <= saved <= per + bonus,
    ensures
        saved <= (c + 1) * per,
{
    assert((c + 1) * per == c * per + per) by (nonlinear_arith);
}

/// Under the invariant every allowance fits in the budget, hence in a `u32`.
proof fn lemma_allowance_fits(m: SessionModel, i: int)
    requires
        m.inv(),
        0 <= i < m.elapsed.len(),
    ensures
        m.allowance(i) <= m.config.total_seconds,
{
    let per = m.config.spec_per_soldier_seconds() as int;
    let n = m.config.soldiers as int;
    let t = m.config.total_seconds as int;
    law_allowances_fit_the_budget(m.config);
    assert(m.bonus[i] as int <= i * per);
    if n > 0 {
        assert((i + 1) * per <= n * per) by (nonlinear_arith)
            requires 0 <= i, i + 1 <= n, 0 <= per;
        assert((i + 1) * per == i * per + per) by (nonlinear_arith);
    } else {
        assert(per == 0);
        assert(i * per == 0) by (nonlinear_arith) requires per == 0;
    }
}

/// The sum of the counters (requires that it fits in a `u32`).
pub fn sum_counters(v: &Vec<u32>) -> (r: u32)
    requires
        seq_sum(v@) <= u32::MAX,
    ensures
        r == seq_sum(v@),
{
    let mut total: u32 = 0;
    let mut i: usize = 0;
    while i < v.len()
        invariant
            i <= v@.len(),
            seq_sum(v@) <= u32::MAX,
            total == seq_sum(v@.take(i as int)),
        decreases v@.len() - i,
    {
        proof {
            lemma_seq_sum_prefix_le(v@, i as int + 1);
            assert(v@.take(i as int + 1).drop_last() =~= v@.take(i as int));
        }
        total = total + v[i];
        i = i + 1;
    }
    assert(v@.take(v@.len() as int) =~= v@);
    total
}

/// The sum of a prefix is at most the sum of the whole.
pub proof fn lemma_seq_sum_prefix_le(s: Seq<u32>, k: int)
    requires
        0 <= k <= s.len(),
    ensures
        seq_sum(s.take(k)) <= seq_sum(s),
        0 <= seq_sum(s.take(k)),
    decreases s.len() - k,
{
    if k < s.len() {
        lemma_seq_sum_prefix_le(s, k + 1);
        assert(s.take(k + 1).drop_last() =~= s.take(k));
    } else {
        assert(s.take(k) =~= s);
    }
    lemma_seq_sum_nonneg(s.take(k));
}

pub proof fn lemma_seq_sum_nonneg(s: Seq<u32>)
    ensures
        seq_sum(s) >= 0,
    decreases s.len(),
{
    if s.len() > 0 {
        lemma_seq_sum_nonneg(s.drop_last());
    }
}

/// The state after `k` hand-overs.
pub open spec fn advanced_times(m: SessionModel, k: nat) -> SessionModel
    decreases k,
{
    if k == 0 { m } else { advanced_times(m, (k - 1) as nat).advanced() }
}

/// Every operation keeps the session invariant.
pub proof fn law_operations_keep_invariant(m: SessionModel, config: SessionConfig)
    requires
        m.inv(),
    ensures
        m.ticked().inv(),
        m.advanced().inv(),
        m.toggled().inv(),
        m.commenced().inv(),
        m.aborted().inv(),
        m.closed().inv(),
        m.finished().inv(),
        m.reconfigured(config).inv(),
{
    if m.phase == Phase::Running || m.phase == Phase::Paused {
        if m.current + 1 < m.config.soldiers {
            let per = m.config.spec_per_soldier_seconds() as int;
            let c = m.current as int;
            lemma_bonus_bound_step(c, per, m.bonus[c] as int, m.saved_seconds());
            let a = m.advanced();
            assert forall|i: int| 0 <= i < a.bonus.len() implies
                (#[trigger] a.bonus[i]) as int <= i * a.config.spec_per_soldier_seconds() by {
                if i != c + 1 {
                    assert(a.bonus[i] == m.bonus[i]);
                }
            }
        }
    }
}

/// Pausing twice gives back the running (or paused) daily unchanged.
pub proof fn law_pause_twice_is_identity(m: SessionModel)
    requires
        m.phase == Phase::Running || m.phase == Phase::Paused,
    ensures
        m.toggled().toggled() == m,
{
}

/// A tick never hands the word over and never changes the phase: there is
/// no auto-advance inside the session.
pub proof fn law_tick_keeps_phase_and_speaker(m: SessionModel)
    ensures
        m.ticked().phase == m.phase,
        m.ticked().current == m.current,
        m.ticked().config == m.config,
{
}

/// While running, a tick adds one second to the current soldier and to no
/// one else; outside `Running` no soldier's counter moves, and a paused,
/// aborted or finished daily does not count at all.
pub proof fn law_tick_counts_only_the_speaker(m: SessionModel)
    requires
        m.inv(),
        m.can_tick(),
    ensures
        m.phase == Phase::Running ==> {
            &&& m.ticked().elapsed_current() == m.elapsed_current() + 1
            &&& forall|j: int| 0 <= j < m.elapsed.len() && j != m.current ==> m.ticked().elapsed[j] == m.elapsed[j]
            &&& seq_sum(m.ticked().elapsed) == seq_sum(m.elapsed) + 1
        },
        m.phase != Phase::Running ==> m.ticked().elapsed == m.elapsed,
        (m.phase == Phase::Paused || m.phase == Phase::Aborted || m.phase == Phase::Finished) ==> m.ticked() == m,
{
    if m.phase == Phase::Running {
        lemma_seq_sum_update(m.elapsed, m.current as int, (m.elapsed_current() + 1) as u32);
    }
}

/// Once the daily is over (debrief, aborted or finished) no operation
/// changes its speaker or the soldiers' counters, and the only change of
/// phase left is from the debrief to finished.
pub proof fn law_over_is_final(m: SessionModel, config: SessionConfig)
    requires
        m.phase == Phase::Closing || m.phase == Phase::Aborted || m.phase == Phase::Finished,
    ensures
        m.advanced() == m,
        m.toggled() == m,
        m.commenced() == m,
        m.aborted() == m,
        m.closed() == m,
        m.reconfigured(config) == m,
        m.finished() == m || (m.phase == Phase::Closing && m.finished().phase == Phase::Finished
            && m.finished().elapsed == m.elapsed && m.finished().current == m.current),
        m.ticked().phase == m.phase,
        m.ticked().elapsed == m.elapsed,
        m.ticked().current == m.current,
{
}

/// The configuration can only change before the daily commences.
pub proof fn law_config_frozen_after_commence(m: SessionModel, config: SessionConfig)
    requires
        m.phase != Phase::Preparation,
    ensures
        m.reconfigured(config) == m,
{
}

/// Handing over from a running or paused daily walks the soldiers in order,
/// one per hand-over, and the hand-over after the last soldier closes the
/// daily.
pub proof fn law_hand_overs_visit_every_soldier(m: SessionModel, k: nat)
    requires
        m.inv(),
        m.phase == Phase::Running || m.phase == Phase::Paused,
        k >= 1,
    ensures
        m.current + k < m.config.soldiers ==> {
            &&& advanced_times(m, k).phase == Phase::Running
            &&& advanced_times(m, k).current == m.current + k
        },
        m.current + k >= m.config.soldiers ==> advanced_times(m, k).phase == Phase::Closing,
        advanced_times(m, k).elapsed == m.elapsed,
        advanced_times(m, k).config == m.config,
    decreases k,
{
    let prev = advanced_times(m, (k - 1) as nat);
    assert(advanced_times(m, k) == prev.advanced());
    if k > 1 {
        law_hand_overs_visit_every_soldier(m, (k - 1) as nat);
    }
}

/// The allowances of all soldiers together never exceed the budget.
pub proof fn law_allowances_fit_the_budget(c: SessionConfig)
    ensures
        c.spec_per_soldier_seconds() * c.soldiers <= c.total_seconds,
        c.soldiers > 0 ==> c.total_seconds - c.spec_per_soldier_seconds() * c.soldiers < c.soldiers,
{
    if c.soldiers > 0 {
        let t = c.total_seconds as int;
        let n = c.soldiers as int;
        assert(t / n * n <= t && t - t / n * n < n) by (nonlinear_arith)
            requires n > 0, t >= 0;
    }
}

/// The remaining time of the speaker goes negative exactly when they
/// overrun their allowance.
pub proof fn law_remaining_negative_iff_overtime(allowance: u32, elapsed: u32)
    requires
        allowance <= i32::MAX,
        elapsed <= i32::MAX,
    ensures
        (allowance as i32) - (elapsed as i32) == allowance - elapsed,
        ((allowance as i32) - (elapsed as i32) < 0) <==> sat_sub(elapsed, allowance) > 0,
{
}

/// Changing one counter changes the sum by the difference.
pub proof fn lemma_seq_sum_update(s: Seq<u32>, i: int, v: u32)
    requires
        0 <= i < s.len(),
    ensures
        seq_sum(s.update(i, v)) == seq_sum(s) - s[i] + v,
    decreases s.len(),
{
    if i == s.len() - 1 {
        assert(s.update(i, v).drop_last() =~= s.drop_last());
    } else {
        lemma_seq_sum_update(s.drop_last(), i, v);
        assert(s.update(i, v).drop_last() =~= s.drop_last().update(i, v));
    }
}

/// An early hand-over gives the next speaker, on top of their share of the
/// budget, exactly the seconds the current speaker left unspoken of their
/// own allowance (nothing when they overran); nobody else's bonus, counter
/// or allowance changes.
pub proof fn law_hand_over_carries_unspoken_seconds(m: SessionModel)
    requires
        m.inv(),
        m.phase == Phase::Running || m.phase == Phase::Paused,
        m.current + 1 < m.config.soldiers,
    ensures
        ({
            let c = m.current as int;
            let per = (m.config.total_seconds / m.config.soldiers) as int;
            let left = per + m.bonus[c] - m.elapsed[c];
            let a = m.advanced();
            &&& a.phase == Phase::Running
            &&& a.current == c + 1
            &&& a.bonus[c + 1] == (if left > 0 { left } else { 0 })
            &&& a.current_allowance() == per + (if left > 0 { left } else { 0 })
            &&& forall|j: int| 0 <= j < m.bonus.len() && j != c + 1 ==> a.bonus[j] == m.bonus[j]
            &&& a.elapsed == m.elapsed
            &&& a.config == m.config
        }),
{
    lemma_allowance_fits(m, m.current as int);
}

/// The allowance of a soldier is their share of the budget plus their
/// bonus, and a new session gives nobody a bonus.
pub proof fn law_allowance_is_share_plus_bonus(m: SessionModel, i: int, config: SessionConfig)
    requires
        m.config.soldiers > 0,
    ensures
        m.allowance(i) == m.config.total_seconds / m.config.soldiers + m.bonus[i],
        0 <= i < SessionModel::initial(config).bonus.len() ==> SessionModel::initial(config).bonus[i] == 0,
{
}

/// What each operation does to the phase: commencing starts a daily in
/// preparation; pausing swaps running and paused; aborting stops a daily in
/// preparation, running or paused; closing sends a running or paused daily
/// to the debrief; finishing ends a debrief; in any other phase the
/// operation changes nothing. A tick adds one second to the counter of the
/// phase (preparation, the speaker, or the debrief) and to nothing else.
pub proof fn law_operation_effects(m: SessionModel, config: SessionConfig)
    requires
        m.inv(),
        m.can_tick(),
    ensures
        m.phase == Phase::Preparation ==> m.commenced().phase == Phase::Running && m.commenced().elapsed == m.elapsed,
        m.phase != Phase::Preparation ==> m.commenced() == m,
        m.phase == Phase::Running ==> m.toggled().phase == Phase::Paused,
        m.phase == Phase::Paused ==> m.toggled().phase == Phase::Running,
        m.phase != Phase::Running && m.phase != Phase::Paused ==> m.toggled() == m && m.closed() == m,
        (m.phase == Phase::Preparation || m.phase == Phase::Running || m.phase == Phase::Paused)
            ==> m.aborted().phase == Phase::Aborted && m.aborted().elapsed == m.elapsed,
        (m.phase == Phase::Closing || m.phase == Phase::Aborted || m.phase == Phase::Finished) ==> m.aborted() == m,
        (m.phase == Phase::Running || m.phase == Phase::Paused) ==> m.closed().phase == Phase::Closing
            && m.closed().elapsed == m.elapsed && m.closed().current == m.current,
        m.phase == Phase::Closing ==> m.finished().phase == Phase::Finished && m.finished().elapsed == m.elapsed,
        m.phase != Phase::Closing ==> m.finished() == m,
        m.phase == Phase::Preparation ==> m.ticked().prep_seconds == m.prep_seconds + 1
            && m.ticked().closing_seconds == m.closing_seconds && m.ticked().elapsed == m.elapsed,
        m.phase == Phase::Closing ==> m.ticked().closing_seconds == m.closing_seconds + 1
            && m.ticked().prep_seconds == m.prep_seconds && m.ticked().elapsed == m.elapsed,
        m.phase == Phase::Running ==> m.ticked().elapsed[m.current as int] == m.elapsed[m.current as int] + 1
            && m.ticked().prep_seconds == m.prep_seconds && m.ticked().closing_seconds == m.closing_seconds,
        m.phase == Phase::Preparation ==> m.reconfigured(config).config == config
            && m.reconfigured(config).elapsed.len() == (if config.soldiers == 0 { 1 } else { config.soldiers as int })
            && (forall|i: int| 0 <= i < m.reconfigured(config).elapsed.len() ==> #[trigger] m.reconfigured(config).elapsed[i] == 0)
            && m.reconfigured(config).prep_seconds == m.prep_seconds,
{
}

/// Overtime is what a soldier spoke beyond their allowance, and nothing
/// when they kept within it.
pub proof fn law_overtime_is_time_past_allowance(spoken: u32, allowance: u32)
    ensures
        spoken > allowance ==> sat_sub(spoken, allowance) + allowance == spoken,
        spoken <= allowance ==> sat_sub(spoken, allowance) == 0,
{
}

/// The counters' total adds up every counter.
pub proof fn law_total_adds_every_counter(s: Seq<u32>, v: u32)
    ensures
        seq_sum(Seq::<u32>::empty()) == 0,
        seq_sum(s.push(v)) == seq_sum(s) + v,
{
    assert(s.push(v).drop_last() =~= s);
}

} // verus!
