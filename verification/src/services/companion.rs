use vstd::prelude::*;
use crate::events::event_names::{CAT_EXP_GAINED, CAT_LEVEL_UP, CAT_STATE_CHANGED};
use crate::models::activity::CodingStatus;
use crate::models::cat::{mood_of, CatInfo, CatMood, CatState};
use crate::models::growth::{
    exp_for_level, exp_required, lemma_with_exp_is_settled, next_commit_exp,
    record_coding_minutes, record_commit, ProgressionTotals,
};
use crate::models::settings::AppSettings;
use crate::services::activity::{text_of, ActivityStatus, Notice, Sampler, SamplerView};
use crate::services::state_machine::{
    in_night_window, next_state, Avatar, AvatarView, StateChange, StateEvent,
    IDLE_TO_SLEEPING_SECS,
};

verus! {

/// A message for the presentation layer.
#[derive(Debug, Clone, Copy, PartialEq, Eq, Structural)]
pub enum Message {
    /// The avatar left one state for another.
    StateChanged(StateChange),
    /// This many points were gained.
    ExpGained(u32),
    /// This level was reached.
    LevelUp(u32),
    /// Something about the activity of the user.
    Activity(Notice),
}

impl Message {
    /// The name under which the message goes out.
    pub open spec fn name(self) -> &'static str {
        match self {
            Message::StateChanged(_) => CAT_STATE_CHANGED,
            Message::ExpGained(_) => CAT_EXP_GAINED,
            Message::LevelUp(_) => CAT_LEVEL_UP,
            Message::Activity(notice) => notice.name(),
        }
    }

    /// The name under which the message goes out.
    pub fn event_name(&self) -> (name: &'static str)
        ensures
            name == self.name(),
    {
        match self {
            Message::StateChanged(_) => CAT_STATE_CHANGED,
            Message::ExpGained(_) => CAT_EXP_GAINED,
            Message::LevelUp(_) => CAT_LEVEL_UP,
            Message::Activity(notice) => notice.event_name(),
        }
    }
}

/// The message of a state change, if there was one.
pub open spec fn change_messages(change: Option<StateChange>) -> Seq<Message> {
    match change {
        Some(c) => seq![Message::StateChanged(c)],
        None => Seq::empty(),
    }
}

/// Each notice as a message, in the same order.
pub open spec fn notice_messages(notices: Seq<Notice>) -> Seq<Message> {
    Seq::new(notices.len(), |i: int| Message::Activity(notices[i]))
}

/// The mathematical content of a [`Companion`].
pub struct CompanionView {
    pub avatar: AvatarView,
    pub sampler: SamplerView,
    pub totals: ProgressionTotals,
    /// Clock reading of the last cycle, where that cycle saw an editor with
    /// activity tracking switched on.
    pub coding_since: Option<u64>,
    /// Seconds of coding that are not yet counted as a minute.
    pub coding_secs: u64,
}

impl CompanionView {
    /// Whether `event`, at `now`, takes the avatar into the celebrating state
    /// and the totals can take the commit that is celebrated.
    pub open spec fn pays(self, event: StateEvent, is_night: bool, now: u64) -> bool {
        next_state(self.avatar.expire(now).state, event, is_night) == Some(CatState::Celebrating)
            && self.totals.can_take_commit()
    }

    /// The companion after one event: the avatar looks at its timer and then
    /// at the event, and a celebration counts one commit.
    pub open spec fn after_event(self, event: StateEvent, is_night: bool, now: u64) -> CompanionView {
        CompanionView {
            avatar: self.avatar.expire(now).react(event, is_night, now),
            totals: if self.pays(event, is_night, now) {
                self.totals.with_commit()
            } else {
                self.totals
            },
            ..self
        }
    }

    /// The messages of one event: the expiry that was due, the transition
    /// that the event caused, and, for a celebration, the points gained and
    /// the level reached where it rose.
    pub open spec fn event_messages(self, event: StateEvent, is_night: bool, now: u64) -> Seq<
        Message,
    > {
        let due = self.avatar.expire(now);
        let after = due.react(event, is_night, now);
        change_messages(self.avatar.change_to(due, self.avatar.timer_due(now))) + change_messages(
            due.change_to(after, next_state(due.state, event, is_night) is Some),
        ) + (if self.pays(event, is_night, now) {
            seq![Message::ExpGained(next_commit_exp(self.totals.commits as nat) as u32)]
        } else {
            Seq::empty()
        }) + (if self.pays(event, is_night, now) && self.totals.with_commit().level
            > self.totals.level {
            seq![Message::LevelUp(self.totals.with_commit().level)]
        } else {
            Seq::empty()
        })
    }

    /// The companion after a row of events, each consumed in turn.
    pub open spec fn after_events(self, events: Seq<StateEvent>, is_night: bool, now: u64) -> CompanionView
        decreases events.len(),
    {
        if events.len() == 0 {
            self
        } else {
            self.after_event(events[0], is_night, now).after_events(
                events.drop_first(),
                is_night,
                now,
            )
        }
    }

    /// The messages of a row of events, each consumed in turn.
    pub open spec fn events_messages(self, events: Seq<StateEvent>, is_night: bool, now: u64) -> Seq<
        Message,
    >
        decreases events.len(),
    {
        if events.len() == 0 {
            Seq::empty()
        } else {
            self.event_messages(events[0], is_night, now) + self.after_event(
                events[0],
                is_night,
                now,
            ).events_messages(events.drop_first(), is_night, now)
        }
    }

    /// The companion with its sampler one cycle on.
    pub open spec fn sampled(self, seen: bool, now: u64, enabled: bool) -> CompanionView {
        CompanionView { sampler: self.sampler.advance(seen, now, now, enabled), ..self }
    }

    /// Seconds of coding that a cycle at `now` adds: the time since the
    /// cycle before, where both cycles saw an editor with activity tracking
    /// switched on; none on a clock that reads earlier than then.
    pub open spec fn coded_secs(self, seen: bool, now: u64, enabled: bool) -> int {
        match self.coding_since {
            Some(since) => if seen && enabled && now >= since {
                now - since
            } else {
                0
            },
            None => 0,
        }
    }

    /// Whole minutes of coding that are there to count at a cycle at `now`.
    pub open spec fn coded_minutes(self, seen: bool, now: u64, enabled: bool) -> int {
        (self.coding_secs + self.coded_secs(seen, now, enabled)) / 60
    }

    /// Whether a cycle at `now` counts coding time: at least one whole
    /// minute is there, and the totals can take the minutes.
    pub open spec fn counts_coding(self, seen: bool, now: u64, enabled: bool) -> bool {
        let minutes = self.coded_minutes(seen, now, enabled);
        0 < minutes <= u32::MAX && self.totals.can_take_coding(minutes as u32)
    }

    /// The companion after a cycle has looked at the coding time: whole
    /// minutes go to the totals, one point each, and the seconds beyond them
    /// are carried to the next cycle. Minutes that the totals cannot take are
    /// dropped.
    pub open spec fn after_coding(self, seen: bool, now: u64, enabled: bool) -> CompanionView {
        CompanionView {
            totals: if self.counts_coding(seen, now, enabled) {
                self.totals.with_coding(self.coded_minutes(seen, now, enabled) as u32)
            } else {
                self.totals
            },
            coding_since: if seen && enabled {
                Some(now)
            } else {
                None
            },
            coding_secs: ((self.coding_secs + self.coded_secs(seen, now, enabled)) % 60) as u64,
            ..self
        }
    }

    /// The messages of the coding time of one cycle: the points gained, and
    /// the level reached where it rose.
    pub open spec fn coding_messages(self, seen: bool, now: u64, enabled: bool) -> Seq<Message> {
        if self.counts_coding(seen, now, enabled) {
            let minutes = self.coded_minutes(seen, now, enabled) as u32;
            seq![Message::ExpGained(minutes)] + (if self.totals.with_coding(minutes).level
                > self.totals.level {
                seq![Message::LevelUp(self.totals.with_coding(minutes).level)]
            } else {
                Seq::empty()
            })
        } else {
            Seq::empty()
        }
    }

    /// The companion after the sampler moved on and the avatar consumed the
    /// events that the cycle derived.
    pub open spec fn after_cycle_events(
        self,
        seen: bool,
        now: u64,
        is_night: bool,
        enabled: bool,
    ) -> CompanionView {
        self.sampled(seen, now, enabled).after_events(
            self.sampler.derived(self.sampler.was_ide_running, seen, now, enabled),
            is_night,
            now,
        )
    }

    /// The companion after one cycle of the sampler: the sampler moves on,
    /// the avatar consumes the events that the cycle derived, and the coding
    /// time since the cycle before is counted.
    pub open spec fn after_cycle(
        self,
        seen: bool,
        now: u64,
        is_night: bool,
        enabled: bool,
    ) -> CompanionView {
        self.after_cycle_events(seen, now, is_night, enabled).after_coding(seen, now, enabled)
    }

    /// The messages of one cycle of the sampler: what the sampler has to
    /// say, then what the events it derived lead to, then what the coding
    /// time earned.
    pub open spec fn cycle_messages(
        self,
        seen: bool,
        now: u64,
        hour: u32,
        night_start: u32,
        night_end: u32,
        enabled: bool,
    ) -> Seq<Message> {
        notice_messages(self.sampler.notices(seen, now, hour, night_start, night_end, enabled))
            + self.sampled(seen, now, enabled).events_messages(
            self.sampler.derived(self.sampler.was_ide_running, seen, now, enabled),
            in_night_window(hour, night_start, night_end),
            now,
        ) + self.after_cycle_events(
            seen,
            now,
            in_night_window(hour, night_start, night_end),
            enabled,
        ).coding_messages(seen, now, enabled)
    }
}

/// What one cycle of the sampler gave rise to.
#[derive(Debug, Clone)]
pub struct CycleReport {
    /// Messages for the presentation layer, in the order in which to send them.
    pub messages: Vec<Message>,
    /// The status message that closes every cycle.
    pub status: ActivityStatus,
}

/// The single writer of the avatar, the sampler and the totals. Every change
/// goes through one of its methods, one call at a time.
pub struct Companion {
    pub avatar: Avatar,
    pub sampler: Sampler,
    pub totals: ProgressionTotals,
    /// Clock reading of the last cycle, where that cycle saw an editor with
    /// activity tracking switched on.
    pub coding_since: Option<u64>,
    /// Seconds of coding that are not yet counted as a minute.
    pub coding_secs: u64,
}

impl View for Companion {
    type V = CompanionView;

    open spec fn view(&self) -> CompanionView {
        CompanionView {
            avatar: self.avatar@,
            sampler: self.sampler@,
            totals: self.totals,
            coding_since: self.coding_since,
            coding_secs: self.coding_secs,
        }
    }
}

impl Companion {
    /// A companion that begins at clock reading `now` with an idle avatar,
    /// a sampler that has seen no editor, no coding time, and the totals
    /// given.
    pub fn new(now: u64, interaction_secs: u64, totals: ProgressionTotals) -> (companion: Companion)
        ensures
            companion.avatar@ == (AvatarView {
                state: CatState::Idle,
                entered_at: now,
                interaction_secs: interaction_secs,
            }),
            companion.sampler@ == (SamplerView {
                last_active_at: now,
                idle_emitted: false,
                sleep_emitted: false,
                was_ide_running: false,
            }),
            companion.totals == totals,
            companion.coding_since is None,
            companion.coding_secs == 0,
    {
        Companion {
            avatar: Avatar::new(now, interaction_secs),
            sampler: Sampler::new(now),
            totals,
            coding_since: None,
            coding_secs: 0,
        }
    }

    /// Hands one event to the avatar at clock reading `now` and returns the
    /// messages to send. An event that takes the avatar into the celebrating
    /// state counts one commit and reports the points it earns.
    pub fn deliver(&mut self, event: &StateEvent, is_night: bool, now: u64) -> (messages: Vec<
        Message,
    >)
        ensures
            final(self)@ == old(self)@.after_event(*event, is_night, now),
            messages@ == old(self)@.event_messages(*event, is_night, now),
    {
        let outcome = self.avatar.handle(event, is_night, now);
        let ghost before = old(self)@;
        let ghost due = before.avatar.expire(now);
        let ghost pays = before.pays(*event, is_night, now);
        let mut messages: Vec<Message> = Vec::new();
        if let Some(change) = outcome.expired {
            messages.push(Message::StateChanged(change));
        }
        if let Some(change) = outcome.changed {
            messages.push(Message::StateChanged(change));
        }
        let ghost changes = messages@;
        assert(changes =~= change_messages(before.avatar.change_to(due, before.avatar.timer_due(now)))
            + change_messages(
            due.change_to(
                due.react(*event, is_night, now),
                next_state(due.state, *event, is_night) is Some,
            ),
        ));
        let celebrates = outcome.has_entered(CatState::Celebrating);
        assert(celebrates == (next_state(due.state, *event, is_night) == Some(
            CatState::Celebrating,
        )));
        let ghost gained = if pays {
            seq![Message::ExpGained(next_commit_exp(before.totals.commits as nat) as u32)]
        } else {
            Seq::empty()
        };
        let ghost risen = if pays && before.totals.with_commit().level > before.totals.level {
            seq![Message::LevelUp(before.totals.with_commit().level)]
        } else {
            Seq::empty()
        };
        if celebrates {
            match record_commit(&mut self.totals) {
                Some(gain) => {
                    assert(pays);
                    messages.push(Message::ExpGained(gain.exp));
                    assert(messages@ =~= changes + gained);
                    if gain.levels > 0 {
                        messages.push(Message::LevelUp(self.totals.level));
                        assert(messages@ =~= changes + gained + risen);
                    } else {
                        assert(messages@ =~= changes + gained + risen);
                    }
                },
                None => {
                    assert(!pays);
                    assert(messages@ =~= changes + gained + risen);
                },
            }
        } else {
            assert(!pays);
            assert(messages@ =~= changes + gained + risen);
        }
        assert(before.event_messages(*event, is_night, now) == changes + gained + risen);
        messages
    }

    /// Looks at the avatar's timer at clock reading `now` and returns the
    /// message of the expiry, if one was due.
    pub fn poll(&mut self, now: u64) -> (messages: Vec<Message>)
        ensures
            final(self)@ == (CompanionView { avatar: old(self)@.avatar.expire(now), ..old(self)@ }),
            messages@ == change_messages(
                old(self)@.avatar.change_to(
                    old(self)@.avatar.expire(now),
                    old(self)@.avatar.timer_due(now),
                ),
            ),
    {
        let mut messages: Vec<Message> = Vec::new();
        if let Some(change) = self.avatar.poll(now) {
            messages.push(Message::StateChanged(change));
        }
        assert(messages@ =~= change_messages(
            old(self)@.avatar.change_to(
                old(self)@.avatar.expire(now),
                old(self)@.avatar.timer_due(now),
            ),
        ));
        messages
    }

    /// Runs one cycle on what the process query found at clock reading `now`
    /// and local hour `hour`: the sampler derives its events and notices, and
    /// the avatar consumes the events in order.
    pub fn tick(&mut self, detected: Option<String>, now: u64, hour: u32, settings: &AppSettings) -> (report:
        CycleReport)
        ensures
            ({
                let seen = settings.ide_detection && detected is Some;
                let enabled = settings.activity_tracking;
                let is_night = in_night_window(
                    hour,
                    settings.night_hour_start,
                    settings.night_hour_end,
                );
                &&& final(self)@ == old(self)@.after_cycle(seen, now, is_night, enabled)
                &&& report.messages@ == old(self)@.cycle_messages(
                    seen,
                    now,
                    hour,
                    settings.night_hour_start,
                    settings.night_hour_end,
                    enabled,
                )
                &&& report.status.is_ide_running == seen
                &&& text_of(report.status.active_ide) == if seen {
                    text_of(detected)
                } else {
                    None
                }
                &&& report.status.idle_seconds == final(self)@.sampler.idle_seconds(now)
            }),
    {
        let cycle = self.sampler.tick(detected, now, hour, settings);
        let mut messages: Vec<Message> = Vec::new();
        let mut i: usize = 0;
        while i < cycle.notices.len()
            invariant
                i <= cycle.notices.len(),
                messages@ == notice_messages(cycle.notices@.take(i as int)),
            decreases cycle.notices.len() - i,
        {
            messages.push(Message::Activity(cycle.notices[i]));
            assert(messages@ =~= notice_messages(cycle.notices@.take(i + 1)));
            i += 1;
        }
        assert(cycle.notices@.take(cycle.notices.len() as int) == cycle.notices@);
        let mut more = self.deliver_all(&cycle.events, cycle.is_night, now);
        proof {
            lemma_events_leave_the_sampler(
                old(self)@.sampled(
                    settings.ide_detection && detected is Some,
                    now,
                    settings.activity_tracking,
                ),
                cycle.events@,
                cycle.is_night,
                now,
            );
        }
        messages.append(&mut more);
        let mut earned = self.count_coding(
            cycle.status.is_ide_running,
            now,
            settings.activity_tracking,
        );
        messages.append(&mut earned);
        CycleReport { messages, status: cycle.status }
    }

    /// Counts the coding time of a cycle at clock reading `now`: the time
    /// since the cycle before, where both saw an editor with activity
    /// tracking switched on. Whole minutes go to the totals and earn one
    /// point each; the seconds beyond them wait for the next cycle.
    pub fn count_coding(&mut self, seen: bool, now: u64, enabled: bool) -> (messages: Vec<Message>)
        ensures
            final(self)@ == old(self)@.after_coding(seen, now, enabled),
            messages@ == old(self)@.coding_messages(seen, now, enabled),
    {
        let coded: u64 = match self.coding_since {
            Some(since) => if seen && enabled && now >= since {
                now - since
            } else {
                0
            },
            None => 0,
        };
        let pending: u128 = self.coding_secs as u128 + coded as u128;
        let minutes: u128 = pending / 60;
        self.coding_secs = (pending % 60) as u64;
        self.coding_since = if seen && enabled {
            Some(now)
        } else {
            None
        };
        let mut messages: Vec<Message> = Vec::new();
        if 0 < minutes && minutes <= 0xFFFF_FFFF {
            let whole: u32 = minutes as u32;
            match record_coding_minutes(&mut self.totals, whole) {
                Some(gain) => {
                    messages.push(Message::ExpGained(gain.exp));
                    if gain.levels > 0 {
                        messages.push(Message::LevelUp(self.totals.level));
                    }
                },
                None => {},
            }
        }
        assert(messages@ =~= old(self)@.coding_messages(seen, now, enabled));
        messages
    }

    /// Hands a row of events to the avatar, one after the other, at clock
    /// reading `now`, and returns the messages to send.
    pub fn deliver_all(&mut self, events: &Vec<StateEvent>, is_night: bool, now: u64) -> (messages:
        Vec<Message>)
        ensures
            final(self)@ == old(self)@.after_events(events@, is_night, now),
            messages@ == old(self)@.events_messages(events@, is_night, now),
    {
        let mut messages: Vec<Message> = Vec::new();
        let mut k: usize = 0;
        assert(events@.skip(0) == events@);
        assert(messages@ + old(self)@.events_messages(events@, is_night, now) == old(
            self,
        )@.events_messages(events@, is_night, now));
        while k < events.len()
            invariant
                k <= events.len(),
                old(self)@.after_events(events@, is_night, now) == self@.after_events(
                    events@.skip(k as int),
                    is_night,
                    now,
                ),
                old(self)@.events_messages(events@, is_night, now) == messages@
                    + self@.events_messages(events@.skip(k as int), is_night, now),
            decreases events.len() - k,
        {
            let ghost before = self@;
            let ghost heard = messages@;
            let mut more = self.deliver(&events[k], is_night, now);
            proof {
                lemma_events_step(before, events@, k as int, is_night, now);
                lemma_concat_is_associative(
                    heard,
                    more@,
                    self@.events_messages(events@.skip(k + 1), is_night, now),
                );
            }
            messages.append(&mut more);
            k += 1;
        }
        assert(messages@ + Seq::<Message>::empty() == messages@);
        messages
    }

    /// Whether the user is coding right now: the avatar is in the coding
    /// state. Editor and idle time are those of the last cycle, and the session
    /// is today's coding time.
    pub fn coding_status(&self, last: &ActivityStatus) -> (status: CodingStatus)
        ensures
            status.is_coding == (self.avatar@.state == CatState::Coding),
            text_of(status.active_ide) == text_of(last.active_ide),
            status.idle_seconds == last.idle_seconds,
            status.session_minutes == self.totals.coding_minutes,
    {
        let active_ide = match &last.active_ide {
            Some(name) => Some(name.clone()),
            None => None,
        };
        CodingStatus {
            is_coding: self.avatar.state() == CatState::Coding,
            active_ide,
            idle_seconds: last.idle_seconds,
            session_minutes: self.totals.coding_minutes,
        }
    }

    /// The avatar as the presentation layer shows it, where the experience
    /// fits in 32 bits.
    pub fn cat_info(&self) -> (info: Option<CatInfo>)
        ensures
            info == if self.totals.current_exp <= u32::MAX && exp_required(self.totals.level as nat)
                <= u32::MAX {
                Some(
                    CatInfo {
                        state: self.avatar@.state,
                        mood: mood_of(self.avatar@.state),
                        level: self.totals.level,
                        exp: self.totals.current_exp as u32,
                        exp_to_next: exp_required(self.totals.level as nat) as u32,
                        streak_days: self.totals.streak_days,
                    },
                )
            } else {
                None
            },
    {
        let needed: u64 = exp_for_level(self.totals.level);
        if self.totals.current_exp <= 0xFFFF_FFFF && needed <= 0xFFFF_FFFF {
            let state = self.avatar.state();
            Some(
                CatInfo {
                    state,
                    mood: CatMood::from(&state),
                    level: self.totals.level,
                    exp: self.totals.current_exp as u32,
                    exp_to_next: needed as u32,
                    streak_days: self.totals.streak_days,
                },
            )
        } else {
            None
        }
    }
}

/// Falling asleep is reported once. After a cycle without an editor at which
/// the seconds since the last activity have reached the sleeping threshold,
/// every further cycle without an editor sends nothing and changes nothing,
/// whatever the hour and however much later it comes.
pub proof fn lemma_sleeping_is_reported_once(
    companion: CompanionView,
    now: u64,
    is_night: bool,
    later: u64,
    later_hour: u32,
    night_start: u32,
    night_end: u32,
)
    requires
        companion.sampler.idle_seconds(now) >= IDLE_TO_SLEEPING_SECS,
    ensures
        ({
            let after = companion.after_cycle(false, now, is_night, true);
            &&& after.cycle_messages(false, later, later_hour, night_start, night_end, true)
                == Seq::<Message>::empty()
            &&& after.after_cycle(false, later, in_night_window(later_hour, night_start, night_end), true)
                == after
        }),
{
    let moved = companion.sampled(false, now, true);
    let events = companion.sampler.derived(companion.sampler.was_ide_running, false, now, true);
    lemma_events_leave_the_sampler(moved, events, is_night, now);
    lemma_events_leave_the_coding_time(moved, events, is_night, now);
    let after = companion.after_cycle(false, now, is_night, true);
    let later_night = in_night_window(later_hour, night_start, night_end);
    assert(after.sampler.derived(after.sampler.was_ide_running, false, later, true) =~= Seq::<
        StateEvent,
    >::empty());
    assert(after.sampler.notices(false, later, later_hour, night_start, night_end, true) =~= Seq::<
        Notice,
    >::empty());
    assert(after.cycle_messages(false, later, later_hour, night_start, night_end, true) =~= Seq::<
        Message,
    >::empty());
    assert(after.sampler.advance(false, later, later, true) == after.sampler);
}

proof fn lemma_events_step(
    companion: CompanionView,
    events: Seq<StateEvent>,
    k: int,
    is_night: bool,
    now: u64,
)
    requires
        0 <= k < events.len(),
    ensures
        companion.after_events(events.skip(k), is_night, now) == companion.after_event(
            events[k],
            is_night,
            now,
        ).after_events(events.skip(k + 1), is_night, now),
        companion.events_messages(events.skip(k), is_night, now) == companion.event_messages(
            events[k],
            is_night,
            now,
        ) + companion.after_event(events[k], is_night, now).events_messages(
            events.skip(k + 1),
            is_night,
            now,
        ),
{
    assert(events.skip(k)[0] == events[k]);
    assert(events.skip(k).drop_first() == events.skip(k + 1));
}

proof fn lemma_concat_is_associative(a: Seq<Message>, b: Seq<Message>, c: Seq<Message>)
    ensures
        (a + b) + c == a + (b + c),
{
    assert((a + b) + c =~= a + (b + c));
}

/// Totals that have come to rest stay at rest, whatever events arrive.
pub proof fn lemma_events_keep_the_totals_settled(
    companion: CompanionView,
    events: Seq<StateEvent>,
    is_night: bool,
    now: u64,
)
    requires
        companion.totals.settled(),
    ensures
        companion.after_events(events, is_night, now).totals.settled(),
    decreases events.len(),
{
    if events.len() > 0 {
        if companion.pays(events[0], is_night, now) {
            let counted = ProgressionTotals {
                commits: (companion.totals.commits + 1) as u32,
                ..companion.totals
            };
            lemma_with_exp_is_settled(
                counted,
                next_commit_exp(companion.totals.commits as nat) as u32,
            );
        }
        lemma_events_keep_the_totals_settled(
            companion.after_event(events[0], is_night, now),
            events.drop_first(),
            is_night,
            now,
        );
    }
}

/// Events go to the avatar and the totals; the coding time stays as it is.
pub proof fn lemma_events_leave_the_coding_time(
    companion: CompanionView,
    events: Seq<StateEvent>,
    is_night: bool,
    now: u64,
)
    ensures
        companion.after_events(events, is_night, now).coding_since == companion.coding_since,
        companion.after_events(events, is_night, now).coding_secs == companion.coding_secs,
    decreases events.len(),
{
    if events.len() > 0 {
        lemma_events_leave_the_coding_time(
            companion.after_event(events[0], is_night, now),
            events.drop_first(),
            is_night,
            now,
        );
    }
}

/// Totals that have come to rest stay at rest through every cycle.
pub proof fn lemma_cycles_keep_the_totals_settled(
    companion: CompanionView,
    seen: bool,
    now: u64,
    is_night: bool,
    enabled: bool,
)
    requires
        companion.totals.settled(),
    ensures
        companion.after_cycle(seen, now, is_night, enabled).totals.settled(),
{
    let heard = companion.after_cycle_events(seen, now, is_night, enabled);
    lemma_events_keep_the_totals_settled(
        companion.sampled(seen, now, enabled),
        companion.sampler.derived(companion.sampler.was_ide_running, seen, now, enabled),
        is_night,
        now,
    );
    if heard.counts_coding(seen, now, enabled) {
        let minutes = heard.coded_minutes(seen, now, enabled) as u32;
        let counted = ProgressionTotals {
            coding_minutes: (heard.totals.coding_minutes + minutes) as u32,
            ..heard.totals
        };
        lemma_with_exp_is_settled(counted, minutes);
    }
}

/// Events go to the avatar and the totals; the sampler stays as it is.
pub proof fn lemma_events_leave_the_sampler(
    companion: CompanionView,
    events: Seq<StateEvent>,
    is_night: bool,
    now: u64,
)
    ensures
        companion.after_events(events, is_night, now).sampler == companion.sampler,
    decreases events.len(),
{
    if events.len() > 0 {
        lemma_events_leave_the_sampler(
            companion.after_event(events[0], is_night, now),
            events.drop_first(),
            is_night,
            now,
        );
    }
}

} // verus!
