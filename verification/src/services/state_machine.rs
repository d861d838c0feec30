use vstd::prelude::*;
use crate::models::cat::CatState;

verus! {

/// Seconds without any activity after which an idle avatar falls asleep.
pub const IDLE_TO_SLEEPING_SECS: u64 = 600;

/// Seconds without editor activity after which a coding avatar stops coding.
pub const CODING_TO_IDLE_SECS: u64 = 180;

/// Lifetime of the celebrating state, in seconds.
pub const CELEBRATING_DURATION_SECS: u64 = 5;

/// Lifetime of the frustrated state, in seconds.
pub const FRUSTRATED_DURATION_SECS: u64 = 5;

/// An input to the state machine. Each event is consumed by one transition
/// evaluation.
#[derive(Debug, Clone, Copy, PartialEq, Eq, Structural)]
pub enum StateEvent {
    ActivityDetected,
    /// Seconds since the last recognised coding activity.
    IdleTimeout(u64),
    CommitDetected,
    ErrorDetected,
    UserClicked,
    /// The lifetime of a transient state has run out.
    TimerExpired,
}

/// The transition table. `None` means that the event is ignored in this state.
pub open spec fn next_state(current: CatState, event: StateEvent, is_night: bool) -> Option<
    CatState,
> {
    match (current, event) {
        (CatState::Idle, StateEvent::ActivityDetected) => Some(CatState::Coding),
        (CatState::Idle, StateEvent::IdleTimeout(secs)) => if secs >= IDLE_TO_SLEEPING_SECS {
            Some(CatState::Sleeping)
        } else {
            None
        },
        (CatState::Idle, StateEvent::UserClicked) => Some(CatState::Interaction),
        (CatState::Coding, StateEvent::CommitDetected) => Some(CatState::Celebrating),
        (CatState::Coding, StateEvent::ErrorDetected) => Some(CatState::Frustrated),
        (CatState::Coding, StateEvent::IdleTimeout(secs)) => if secs >= CODING_TO_IDLE_SECS {
            if is_night {
                Some(CatState::Tired)
            } else {
                Some(CatState::Idle)
            }
        } else {
            None
        },
        (CatState::Coding, StateEvent::UserClicked) => Some(CatState::Interaction),
        (CatState::Celebrating, StateEvent::TimerExpired) => Some(CatState::Idle),
        (CatState::Frustrated, StateEvent::TimerExpired) => Some(CatState::Idle),
        (CatState::Sleeping, StateEvent::ActivityDetected) => Some(CatState::Idle),
        (CatState::Sleeping, StateEvent::UserClicked) => Some(CatState::Idle),
        (CatState::Interaction, StateEvent::TimerExpired) => Some(CatState::Idle),
        (CatState::Tired, StateEvent::ActivityDetected) => Some(CatState::Coding),
        _ => None,
    }
}

/// Evaluates one event against the transition table. `is_night` says
/// whether the moment falls into the night window; [`is_night_hour`]
/// classifies an hour of the day.
pub fn transition(current: &CatState, event: &StateEvent, is_night: bool) -> (next: Option<
    CatState,
>)
    ensures
        next == next_state(*current, *event, is_night),
{
    match (current, event) {
        (CatState::Idle, StateEvent::ActivityDetected) => Some(CatState::Coding),
        (CatState::Idle, StateEvent::IdleTimeout(secs)) => {
            if *secs >= IDLE_TO_SLEEPING_SECS {
                Some(CatState::Sleeping)
            } else {
                None
            }
        },
        (CatState::Idle, StateEvent::UserClicked) => Some(CatState::Interaction),
        (CatState::Coding, StateEvent::CommitDetected) => Some(CatState::Celebrating),
        (CatState::Coding, StateEvent::ErrorDetected) => Some(CatState::Frustrated),
        (CatState::Coding, StateEvent::IdleTimeout(secs)) => {
            if *secs < CODING_TO_IDLE_SECS {
                None
            } else if is_night {
                Some(CatState::Tired)
            } else {
                Some(CatState::Idle)
            }
        },
        (CatState::Coding, StateEvent::UserClicked) => Some(CatState::Interaction),
        (CatState::Celebrating, StateEvent::TimerExpired) => Some(CatState::Idle),
        (CatState::Frustrated, StateEvent::TimerExpired) => Some(CatState::Idle),
        (CatState::Sleeping, StateEvent::ActivityDetected) => Some(CatState::Idle),
        (CatState::Sleeping, StateEvent::UserClicked) => Some(CatState::Idle),
        (CatState::Interaction, StateEvent::TimerExpired) => Some(CatState::Idle),
        (CatState::Tired, StateEvent::ActivityDetected) => Some(CatState::Coding),
        _ => None,
    }
}

/// An event that is accepted always leads to another state, so that every
/// state-changed notification names two different states.
pub proof fn lemma_accepted_events_change_the_state(
    current: CatState,
    event: StateEvent,
    is_night: bool,
)
    ensures
        next_state(current, event, is_night) != Some(current),
{
}

/// Night and day differ in one row only: a coding avatar that has been idle
/// for the coding threshold goes tired by night and idle by day.
pub proof fn lemma_night_matters_in_one_row(current: CatState, event: StateEvent)
    ensures
        next_state(current, event, true) != next_state(current, event, false) <==> current
            == CatState::Coding && event is IdleTimeout && event->IdleTimeout_0
            >= CODING_TO_IDLE_SECS,
{
}

/// Start of the default night window, as an hour of the day.
pub const NIGHT_HOUR_START: u32 = 23;

/// End of the default night window, as an hour of the day.
pub const NIGHT_HOUR_END: u32 = 6;

/// Whether `hour` lies in the night window that runs from `start` (included)
/// to `end` (excluded). A window whose start is not before its end wraps
/// around midnight; one whose start equals its end covers the whole day.
pub open spec fn in_night_window(hour: u32, start: u32, end: u32) -> bool {
    if start < end {
        start <= hour && hour < end
    } else {
        hour >= start || hour < end
    }
}

/// Classifies an hour of the day against a configurable night window.
pub fn is_night_hour(hour: u32, start: u32, end: u32) -> (night: bool)
    ensures
        night == in_night_window(hour, start, end),
{
    if start < end {
        start <= hour && hour < end
    } else {
        hour >= start || hour < end
    }
}

/// Default lifetime of the interaction state, in seconds.
pub const INTERACTION_DURATION_SECS: u64 = 3;

/// A notification that the avatar left one state for another.
#[derive(Debug, Clone, Copy, PartialEq, Eq, Structural)]
pub struct StateChange {
    pub from: CatState,
    pub to: CatState,
}

/// What one call of [`Avatar::handle`] did: the expiry that was due, if any,
/// and the transition that the event caused, if any, in that order.
#[derive(Debug, Clone, Copy, PartialEq, Eq, Structural)]
pub struct Outcome {
    pub expired: Option<StateChange>,
    pub changed: Option<StateChange>,
}

impl Outcome {
    /// Whether the event was accepted and took the avatar into `state`.
    pub open spec fn entered(self, state: CatState) -> bool {
        self.changed matches Some(change) && change.to == state
    }

    /// Whether the event was accepted and took the avatar into `state`.
    pub fn has_entered(&self, state: CatState) -> (b: bool)
        ensures
            b == self.entered(state),
    {
        match self.changed {
            Some(change) => change.to == state,
            None => false,
        }
    }
}

/// The mathematical content of an [`Avatar`].
pub struct AvatarView {
    pub state: CatState,
    /// Reading of the caller's clock, in seconds, at which `state` was entered.
    pub entered_at: u64,
    /// Lifetime of the interaction state, in seconds.
    pub interaction_secs: u64,
}

/// The fixed lifetime of a transient state; `None` for a state that lasts
/// until an event ends it.
pub open spec fn lifetime_of(state: CatState, interaction_secs: u64) -> Option<u64> {
    match state {
        CatState::Celebrating => Some(CELEBRATING_DURATION_SECS),
        CatState::Frustrated => Some(FRUSTRATED_DURATION_SECS),
        CatState::Interaction => Some(interaction_secs),
        _ => None,
    }
}

impl AvatarView {
    /// Seconds spent in the current state at `now`; none on a clock that
    /// reads earlier than at entry.
    pub open spec fn elapsed(self, now: u64) -> int {
        if now >= self.entered_at {
            now - self.entered_at
        } else {
            0
        }
    }

    /// Whether the timer of the current state has run out at `now`.
    pub open spec fn timer_due(self, now: u64) -> bool {
        match lifetime_of(self.state, self.interaction_secs) {
            Some(lifetime) => self.elapsed(now) >= lifetime,
            None => false,
        }
    }

    /// The avatar after its timer was looked at: back in `Idle` if the timer
    /// was due, unchanged otherwise.
    pub open spec fn expire(self, now: u64) -> AvatarView {
        if self.timer_due(now) {
            AvatarView { state: CatState::Idle, entered_at: now, ..self }
        } else {
            self
        }
    }

    /// The avatar after one event went through the transition table.
    pub open spec fn react(self, event: StateEvent, is_night: bool, now: u64) -> AvatarView {
        match next_state(self.state, event, is_night) {
            Some(next) => AvatarView { state: next, entered_at: now, ..self },
            None => self,
        }
    }

    /// The notification that belongs to a step from `self` to `after`.
    pub open spec fn change_to(self, after: AvatarView, accepted: bool) -> Option<StateChange> {
        if accepted {
            Some(StateChange { from: self.state, to: after.state })
        } else {
            None
        }
    }
}

/// The single owner of the avatar's current state and of the timer that
/// ends a transient state.
pub struct Avatar {
    state: CatState,
    entered_at: u64,
    interaction_secs: u64,
}

impl View for Avatar {
    type V = AvatarView;

    closed spec fn view(&self) -> AvatarView {
        AvatarView {
            state: self.state,
            entered_at: self.entered_at,
            interaction_secs: self.interaction_secs,
        }
    }
}

impl Avatar {
    /// An idle avatar, created at clock reading `now`.
    pub fn new(now: u64, interaction_secs: u64) -> (avatar: Avatar)
        ensures
            avatar@ == (AvatarView {
                state: CatState::Idle,
                entered_at: now,
                interaction_secs: interaction_secs,
            }),
    {
        Avatar { state: CatState::Idle, entered_at: now, interaction_secs }
    }

    /// The current state.
    pub fn state(&self) -> (state: CatState)
        ensures
            state == self@.state,
    {
        self.state
    }

    /// The clock reading at which the current state was entered.
    pub fn entered_at(&self) -> (at: u64)
        ensures
            at == self@.entered_at,
    {
        self.entered_at
    }

    /// Seconds that the current transient state still has at `now`: `None`
    /// where the state has no timer, `Some(0)` where the timer is due.
    pub fn remaining(&self, now: u64) -> (left: Option<u64>)
        ensures
            left == match lifetime_of(self@.state, self@.interaction_secs) {
                None => None::<u64>,
                Some(lifetime) => if self@.timer_due(now) {
                    Some(0u64)
                } else {
                    Some((lifetime - self@.elapsed(now)) as u64)
                },
            },
    {
        let lifetime: u64 = match self.state {
            CatState::Celebrating => CELEBRATING_DURATION_SECS,
            CatState::Frustrated => FRUSTRATED_DURATION_SECS,
            CatState::Interaction => self.interaction_secs,
            _ => { return None; },
        };
        let elapsed: u64 = if now >= self.entered_at {
            now - self.entered_at
        } else {
            0
        };
        if elapsed >= lifetime {
            Some(0)
        } else {
            Some(lifetime - elapsed)
        }
    }

    /// Looks at the timer: a transient state whose lifetime has run out at
    /// `now` ends in `Idle`. A timer that fires late, after the state that
    /// scheduled it was left, finds nothing due and changes nothing.
    pub fn poll(&mut self, now: u64) -> (expired: Option<StateChange>)
        ensures
            final(self)@ == old(self)@.expire(now),
            expired == old(self)@.change_to(final(self)@, old(self)@.timer_due(now)),
    {
        match self.remaining(now) {
            Some(0) => {
                let change = StateChange { from: self.state, to: CatState::Idle };
                self.state = CatState::Idle;
                self.entered_at = now;
                Some(change)
            },
            _ => None,
        }
    }

    /// Consumes one event at clock reading `now`. A timer that is due at that
    /// moment is applied first; the event then meets the state that the
    /// expiry left.
    pub fn handle(&mut self, event: &StateEvent, is_night: bool, now: u64) -> (outcome: Outcome)
        ensures
            final(self)@ == old(self)@.expire(now).react(*event, is_night, now),
            outcome.expired == old(self)@.change_to(
                old(self)@.expire(now),
                old(self)@.timer_due(now),
            ),
            outcome.changed == old(self)@.expire(now).change_to(
                final(self)@,
                next_state(old(self)@.expire(now).state, *event, is_night) is Some,
            ),
    {
        let expired = self.poll(now);
        let before = self.state;
        let changed = match transition(&before, event, is_night) {
            Some(next) => {
                self.state = next;
                self.entered_at = now;
                Some(StateChange { from: before, to: next })
            },
            None => None,
        };
        Outcome { expired, changed }
    }
}

/// A transient state ends in `Idle` once its lifetime has passed, whatever
/// happened or did not happen in between, and `Idle` then stays until an
/// event arrives.
pub proof fn lemma_transient_state_expires(avatar: AvatarView, now: u64, later: u64)
    requires
        avatar.state.is_transient(),
        now - avatar.entered_at >= lifetime_of(avatar.state, avatar.interaction_secs).unwrap(),
    ensures
        avatar.timer_due(now),
        avatar.expire(now).state == CatState::Idle,
        avatar.expire(now).expire(later) == avatar.expire(now),
{
}

/// An event that the table ignores leaves the avatar as it is, as long as
/// no timer is due.
pub proof fn lemma_ignored_events_change_nothing(
    avatar: AvatarView,
    event: StateEvent,
    is_night: bool,
    now: u64,
)
    requires
        next_state(avatar.state, event, is_night) is None,
        !avatar.timer_due(now),
    ensures
        avatar.expire(now).react(event, is_night, now) == avatar,
{
}

/// The timer event ends every transient state in `Idle`, by day and by
/// night, and is ignored in every other state.
pub proof fn lemma_timer_event_returns_to_idle(state: CatState, is_night: bool)
    ensures
        state.is_transient() ==> next_state(state, StateEvent::TimerExpired, is_night) == Some(
            CatState::Idle,
        ),
        !state.is_transient() ==> next_state(state, StateEvent::TimerExpired, is_night)
            is None,
{
}

} // verus!
