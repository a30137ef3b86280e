//! Whole histories of a session: any sequence of its operations, applied
//! one after the other, and what holds after every such sequence.

use vstd::prelude::*;
use crate::session::{Phase, SessionConfig, SessionModel, law_operations_keep_invariant};

verus! {

/// One operation of a session, as its methods perform it.
pub enum Op {
    UpdateConfig(SessionConfig),
    Commence,
    TogglePause,
    Abort,
    Close,
    Finish,
    Tick,
    NextSoldier,
}

/// The state after one operation (`update_config`, `commence`,
/// `toggle_pause`, `abort`, `close`, `finish`, `tick_one_second`,
/// `next_soldier`).
pub open spec fn step(m: SessionModel, op: Op) -> SessionModel {
    match op {
        Op::UpdateConfig(c) => m.reconfigured(c),
        Op::Commence => m.commenced(),
        Op::TogglePause => m.toggled(),
        Op::Abort => m.aborted(),
        Op::Close => m.closed(),
        Op::Finish => m.finished(),
        Op::Tick => m.ticked(),
        Op::NextSoldier => m.advanced(),
    }
}

/// The state after the operations `ops`, in order.
pub open spec fn run(m: SessionModel, ops: Seq<Op>) -> SessionModel
    decreases ops.len(),
{
    if ops.len() == 0 { m } else { step(run(m, ops.drop_last()), ops.last()) }
}

/// Every tick of the history found its counter below the maximum, as
/// `tick_one_second` requires.
pub open spec fn ticks_allowed(m: SessionModel, ops: Seq<Op>) -> bool
    decreases ops.len(),
{
    ops.len() == 0 || (ticks_allowed(m, ops.drop_last())
        && (ops.last() is Tick ==> run(m, ops.drop_last()).can_tick()))
}

/// The ticks of the history that came while the daily was in phase `p`.
pub open spec fn ticks_in(m: SessionModel, ops: Seq<Op>, p: Phase) -> nat
    decreases ops.len(),
{
    if ops.len() == 0 {
        0
    } else {
        ticks_in(m, ops.drop_last(), p)
            + if ops.last() is Tick && run(m, ops.drop_last()).phase == p { 1nat } else { 0nat }
    }
}

/// The ticks of the history that came while soldier `i` (0-based) was
/// speaking.
pub open spec fn speaking_ticks(m: SessionModel, ops: Seq<Op>, i: int) -> nat
    decreases ops.len(),
{
    if ops.len() == 0 {
        0
    } else {
        let prev = run(m, ops.drop_last());
        speaking_ticks(m, ops.drop_last(), i)
            + if ops.last() is Tick && prev.phase == Phase::Running && prev.current == i { 1nat } else { 0nat }
    }
}

/// The phase changes one operation can make.
pub open spec fn allowed_transition(p0: Phase, p1: Phase) -> bool {
    p0 == p1 || match (p0, p1) {
        (Phase::Preparation, Phase::Running) => true,
        (Phase::Preparation, Phase::Aborted) => true,
        (Phase::Running, Phase::Paused) => true,
        (Phase::Paused, Phase::Running) => true,
        (Phase::Running, Phase::Closing) => true,
        (Phase::Paused, Phase::Closing) => true,
        (Phase::Running, Phase::Aborted) => true,
        (Phase::Paused, Phase::Aborted) => true,
        (Phase::Closing, Phase::Finished) => true,
        _ => false,
    }
}

/// Every operation changes the phase along the table: preparation to
/// running or aborted, running and paused into each other, to the debrief
/// or aborted, the debrief to finished; aborted and finished are final.
/// Every operation also keeps the speaker or moves to a later one.
pub proof fn law_phase_transitions(m: SessionModel, op: Op)
    ensures
        allowed_transition(m.phase, step(m, op).phase),
        step(m, op).current >= m.current,
        step(m, op).phase == Phase::Preparation ==> m.phase == Phase::Preparation,
{
}

/// Any sequence of operations keeps the session invariant.
pub proof fn law_history_keeps_invariant(m: SessionModel, ops: Seq<Op>)
    requires
        m.inv(),
    ensures
        run(m, ops).inv(),
    decreases ops.len(),
{
    if ops.len() > 0 {
        law_history_keeps_invariant(m, ops.drop_last());
        let c = match ops.last() {
            Op::UpdateConfig(c) => c,
            _ => m.config,
        };
        law_operations_keep_invariant(run(m, ops.drop_last()), c);
    }
}

/// The speaker index never decreases, and once out of preparation a
/// daily never returns to it.
pub proof fn law_speaker_never_goes_back(m: SessionModel, ops: Seq<Op>)
    ensures
        run(m, ops).current >= m.current,
        run(m, ops).phase == Phase::Preparation ==> m.phase == Phase::Preparation,
    decreases ops.len(),
{
    if ops.len() > 0 {
        law_speaker_never_goes_back(m, ops.drop_last());
        law_phase_transitions(run(m, ops.drop_last()), ops.last());
    }
}

/// Once out of preparation, no sequence of operations changes the
/// configuration.
pub proof fn law_config_frozen_over_history(m: SessionModel, ops: Seq<Op>)
    requires
        m.phase != Phase::Preparation,
    ensures
        run(m, ops).config == m.config,
    decreases ops.len(),
{
    if ops.len() > 0 {
        law_config_frozen_over_history(m, ops.drop_last());
        law_speaker_never_goes_back(m, ops.drop_last());
    }
}

/// From a new session, the preparation, speaking and closing counters hold
/// exactly the ticks spent in their phase: the preparation seconds count
/// the ticks in preparation, soldier `i`'s seconds the ticks while running
/// with `i` speaking, the closing seconds the ticks of the debrief. Ticks
/// while paused, aborted or finished count nowhere.
pub proof fn law_counters_count_ticks(config: SessionConfig, ops: Seq<Op>)
    requires
        ticks_allowed(SessionModel::initial(config), ops),
    ensures
        run(SessionModel::initial(config), ops).prep_seconds
            == ticks_in(SessionModel::initial(config), ops, Phase::Preparation),
        run(SessionModel::initial(config), ops).closing_seconds
            == ticks_in(SessionModel::initial(config), ops, Phase::Closing),
        forall|i: int| 0 <= i < run(SessionModel::initial(config), ops).elapsed.len()
            ==> #[trigger] run(SessionModel::initial(config), ops).elapsed[i]
                == speaking_ticks(SessionModel::initial(config), ops, i),
    decreases ops.len(),
{
    lemma_counters(config, ops);
}

proof fn lemma_counters(config: SessionConfig, ops: Seq<Op>)
    requires
        ticks_allowed(SessionModel::initial(config), ops),
    ensures
        run(SessionModel::initial(config), ops).inv(),
        run(SessionModel::initial(config), ops).prep_seconds
            == ticks_in(SessionModel::initial(config), ops, Phase::Preparation),
        run(SessionModel::initial(config), ops).closing_seconds
            == ticks_in(SessionModel::initial(config), ops, Phase::Closing),
        forall|i: int| 0 <= i < run(SessionModel::initial(config), ops).elapsed.len()
            ==> #[trigger] run(SessionModel::initial(config), ops).elapsed[i]
                == speaking_ticks(SessionModel::initial(config), ops, i),
        run(SessionModel::initial(config), ops).phase == Phase::Preparation
            ==> forall|i: int| #[trigger] speaking_ticks(SessionModel::initial(config), ops, i) == 0,
    decreases ops.len(),
{
    let m0 = SessionModel::initial(config);
    if ops.len() == 0 {
        assert(m0.inv());
    } else {
        let rest = ops.drop_last();
        let op = ops.last();
        lemma_counters(config, rest);
        let prev = run(m0, rest);
        let cur = run(m0, ops);
        assert(cur == step(prev, op));
        let c = match op {
            Op::UpdateConfig(c) => c,
            _ => prev.config,
        };
        law_operations_keep_invariant(prev, c);
        law_phase_transitions(prev, op);
        assert forall|i: int| 0 <= i < cur.elapsed.len() implies
            #[trigger] cur.elapsed[i] == speaking_ticks(m0, ops, i) by {
            assert(speaking_ticks(m0, ops, i) == speaking_ticks(m0, rest, i)
                + if op is Tick && prev.phase == Phase::Running && prev.current == i { 1nat } else { 0nat });
            match op {
                Op::UpdateConfig(cfg) => {
                    if prev.phase == Phase::Preparation {
                        assert(speaking_ticks(m0, rest, i) == 0);
                    }
                },
                Op::Tick => {
                    if prev.phase == Phase::Running {
                        assert(prev.elapsed[i] == speaking_ticks(m0, rest, i));
                    }
                },
                _ => {
                    assert(prev.elapsed[i] == speaking_ticks(m0, rest, i));
                },
            }
        }
        if cur.phase == Phase::Preparation {
            assert forall|i: int| #[trigger] speaking_ticks(m0, ops, i) == 0 by {
                assert(speaking_ticks(m0, rest, i) == 0);
            }
        }
    }
}

} // verus!
