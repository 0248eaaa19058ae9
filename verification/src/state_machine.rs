use vstd::prelude::*;

verus! {

/// Grace period after a session ends during which late transcriptions of
/// speech from the session are still typed.
pub const GRACE_PERIOD_MS: i64 = 1500;

/// Anti-latency time-window state machine.
///
/// A sentence reported with the interval `[w_start, w_end]` (milliseconds) is
/// typed when it overlaps the current hotkey session, or, once a session is
/// over, the last session extended by `grace_period_ms`. Before any session
/// nothing is typed.
///
/// The machine is a plain value: a copy is an independent machine, and the
/// hotkey, typer and overlay must share one instance (the plugin keeps it
/// inside the hotkey engine, behind one lock).
#[derive(Debug, Clone, Copy)]
pub struct TimeWindowStateMachine {
    pub is_active: bool,
    /// Has a session ended yet (so that `last_session_*` describe one)?
    pub has_finished_session: bool,
    pub current_session_start: i64,
    pub last_session_start: i64,
    pub last_session_end: i64,
    pub grace_period_ms: i64,
}

/// Does a sentence `[w_start, w_end]` fall in the window that `sm` describes?
pub open spec fn spec_should_inject(sm: TimeWindowStateMachine, w_start: int, w_end: int) -> bool {
    if sm.is_active {
        w_end >= sm.current_session_start
    } else if sm.has_finished_session {
        w_start <= sm.last_session_end + sm.grace_period_ms && w_end >= sm.last_session_start
    } else {
        false
    }
}

/// The state after the hotkey starts a session at `now`.
pub open spec fn spec_activate(sm: TimeWindowStateMachine, now: i64) -> TimeWindowStateMachine {
    if sm.is_active {
        sm
    } else {
        TimeWindowStateMachine { is_active: true, current_session_start: now, ..sm }
    }
}

/// The state after the hotkey ends a session at `now`.
pub open spec fn spec_deactivate(sm: TimeWindowStateMachine, now: i64) -> TimeWindowStateMachine {
    if sm.is_active {
        TimeWindowStateMachine {
            is_active: false,
            has_finished_session: true,
            last_session_start: sm.current_session_start,
            last_session_end: now,
            ..sm
        }
    } else {
        sm
    }
}

impl TimeWindowStateMachine {
    pub fn new(grace_period_ms: i64) -> (sm: Self)
        ensures
            !sm.is_active,
            !sm.has_finished_session,
            sm.current_session_start == 0,
            sm.last_session_start == 0,
            sm.last_session_end == 0,
            sm.grace_period_ms == grace_period_ms,
            forall|w_start: int, w_end: int| !spec_should_inject(sm, w_start, w_end),
    {
        TimeWindowStateMachine {
            is_active: false,
            has_finished_session: false,
            current_session_start: 0,
            last_session_start: 0,
            last_session_end: 0,
            grace_period_ms,
        }
    }

    /// Start a session at `now`; a second activation keeps the first start.
    pub fn on_activate(&mut self, now: i64)
        ensures
            *final(self) == spec_activate(*old(self), now),
    {
        if !self.is_active {
            self.is_active = true;
            self.current_session_start = now;
        }
    }

    /// End the running session at `now`; without a session nothing changes.
    pub fn on_deactivate(&mut self, now: i64)
        ensures
            *final(self) == spec_deactivate(*old(self), now),
    {
        if self.is_active {
            self.is_active = false;
            self.has_finished_session = true;
            self.last_session_start = self.current_session_start;
            self.last_session_end = now;
        }
    }

    /// Should a sentence spoken during `[w_start, w_end]` be typed?
    /// The end of the grace window is computed without overflow.
    pub fn should_inject(&self, w_start: i64, w_end: i64) -> (b: bool)
        ensures
            b == spec_should_inject(*self, w_start as int, w_end as int),
    {
        if self.is_active {
            return w_end >= self.current_session_start;
        }
        if !self.has_finished_session {
            return false;
        }
        let effective_window_end: i128 = self.last_session_end as i128 + self.grace_period_ms as i128;
        (w_start as i128) <= effective_window_end && w_end >= self.last_session_start
    }
}

/// Before the first session has ended, an idle machine types nothing.
pub proof fn lemma_fresh_machine_types_nothing(sm: TimeWindowStateMachine, w_start: int, w_end: int)
    requires
        !sm.is_active,
        !sm.has_finished_session,
    ensures
        !spec_should_inject(sm, w_start, w_end),
{
}

/// While a session that started at `t` runs, exactly the sentences that end
/// at or after `t` are typed.
pub proof fn lemma_running_session_window(sm: TimeWindowStateMachine, t: i64, w_start: int, w_end: int)
    requires
        !sm.is_active,
    ensures
        spec_should_inject(spec_activate(sm, t), w_start, w_end) <==> w_end >= t,
{
}

/// After a session from `t1` to `t2`, exactly the sentences that overlap
/// `[t1, t2 + grace]` are typed.
pub proof fn lemma_finished_session_window(
    sm: TimeWindowStateMachine,
    t1: i64,
    t2: i64,
    w_start: int,
    w_end: int,
)
    requires
        !sm.is_active,
    ensures
        spec_should_inject(spec_deactivate(spec_activate(sm, t1), t2), w_start, w_end) <==> (
        w_start <= t2 + sm.grace_period_ms && w_end >= t1),
{
}

/// A second activation does not move the start of the running session.
pub proof fn lemma_activate_idempotent(sm: TimeWindowStateMachine, t1: i64, t2: i64)
    ensures
        spec_activate(spec_activate(sm, t1), t2) == spec_activate(sm, t1),
{
}

/// Ending a session when none runs changes nothing, so a second
/// deactivation keeps the recorded session.
pub proof fn lemma_deactivate_idempotent(sm: TimeWindowStateMachine, t1: i64, t2: i64)
    ensures
        !sm.is_active ==> spec_deactivate(sm, t1) == sm,
        spec_deactivate(spec_deactivate(sm, t1), t2) == spec_deactivate(sm, t1),
{
}

/// No transition changes the grace period.
pub proof fn lemma_grace_period_constant(sm: TimeWindowStateMachine, t: i64)
    ensures
        spec_activate(sm, t).grace_period_ms == sm.grace_period_ms,
        spec_deactivate(sm, t).grace_period_ms == sm.grace_period_ms,
{
}

} // verus!
