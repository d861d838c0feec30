use commit_cat::models::cat::{CatInfo, CatMood, CatState};
use commit_cat::services::state_machine::{
    is_night_hour, transition, Avatar, Outcome, StateChange, StateEvent,
    CELEBRATING_DURATION_SECS, CODING_TO_IDLE_SECS, FRUSTRATED_DURATION_SECS,
    IDLE_TO_SLEEPING_SECS, INTERACTION_DURATION_SECS, NIGHT_HOUR_END, NIGHT_HOUR_START,
};

const STATES: [CatState; 7] = [
    CatState::Idle,
    CatState::Coding,
    CatState::Celebrating,
    CatState::Frustrated,
    CatState::Sleeping,
    CatState::Tired,
    CatState::Interaction,
];

fn events() -> Vec<StateEvent> {
    vec![
        StateEvent::ActivityDetected,
        StateEvent::IdleTimeout(0),
        StateEvent::IdleTimeout(179),
        StateEvent::IdleTimeout(180),
        StateEvent::IdleTimeout(599),
        StateEvent::IdleTimeout(600),
        StateEvent::IdleTimeout(u64::MAX),
        StateEvent::CommitDetected,
        StateEvent::ErrorDetected,
        StateEvent::UserClicked,
        StateEvent::TimerExpired,
    ]
}

fn table(current: CatState, event: StateEvent, is_night: bool) -> Option<CatState> {
    match (current, event) {
        (CatState::Idle, StateEvent::ActivityDetected) => Some(CatState::Coding),
        (CatState::Idle, StateEvent::IdleTimeout(s)) if s >= 600 => Some(CatState::Sleeping),
        (CatState::Idle, StateEvent::UserClicked) => Some(CatState::Interaction),
        (CatState::Coding, StateEvent::CommitDetected) => Some(CatState::Celebrating),
        (CatState::Coding, StateEvent::ErrorDetected) => Some(CatState::Frustrated),
        (CatState::Coding, StateEvent::IdleTimeout(s)) if s >= 180 && is_night => {
            Some(CatState::Tired)
        }
        (CatState::Coding, StateEvent::IdleTimeout(s)) if s >= 180 => Some(CatState::Idle),
        (CatState::Coding, StateEvent::UserClicked) => Some(CatState::Interaction),
        (CatState::Celebrating, StateEvent::TimerExpired) => Some(CatState::Idle),
        (CatState::Frustrated, StateEvent::TimerExpired) => Some(CatState::Idle),
        (CatState::Sleeping, StateEvent::ActivityDetected) => Some(CatState::Idle),
        (CatState::Sleeping, StateEvent::UserClicked) => Some(CatState::Idle),
        (CatState::Interaction, StateEvent::TimerExpired) => Some(CatState::Idle),
        (CatState::Tired, StateEvent::ActivityDetected) => Some(CatState::Coding),
        _ => None,
    }
}

#[test]
fn default_state_is_idle() {
    assert_eq!(CatState::default(), CatState::Idle);
}

#[test]
fn thresholds_and_durations() {
    assert_eq!(IDLE_TO_SLEEPING_SECS, 600);
    assert_eq!(CODING_TO_IDLE_SECS, 180);
    assert_eq!(CELEBRATING_DURATION_SECS, 5);
    assert_eq!(FRUSTRATED_DURATION_SECS, 5);
    assert_eq!(INTERACTION_DURATION_SECS, 3);
    assert_eq!(NIGHT_HOUR_START, 23);
    assert_eq!(NIGHT_HOUR_END, 6);
}

#[test]
fn idle_goes_coding_on_activity() {
    assert_eq!(
        transition(&CatState::Idle, &StateEvent::ActivityDetected, false),
        Some(CatState::Coding)
    );
    assert_eq!(
        transition(&CatState::Idle, &StateEvent::ActivityDetected, true),
        Some(CatState::Coding)
    );
}

#[test]
fn coding_goes_idle_by_day_and_tired_by_night() {
    assert_eq!(
        transition(&CatState::Coding, &StateEvent::IdleTimeout(180), false),
        Some(CatState::Idle)
    );
    assert_eq!(
        transition(&CatState::Coding, &StateEvent::IdleTimeout(180), true),
        Some(CatState::Tired)
    );
    assert_eq!(transition(&CatState::Coding, &StateEvent::IdleTimeout(179), true), None);
    assert_eq!(transition(&CatState::Coding, &StateEvent::IdleTimeout(179), false), None);
}

#[test]
fn irrelevant_events_are_ignored() {
    assert_eq!(transition(&CatState::Idle, &StateEvent::CommitDetected, false), None);
    assert_eq!(transition(&CatState::Idle, &StateEvent::TimerExpired, false), None);
    assert_eq!(transition(&CatState::Idle, &StateEvent::IdleTimeout(599), false), None);
    assert_eq!(transition(&CatState::Sleeping, &StateEvent::IdleTimeout(600), true), None);
    assert_eq!(transition(&CatState::Celebrating, &StateEvent::UserClicked, false), None);
    assert_eq!(transition(&CatState::Tired, &StateEvent::UserClicked, true), None);
    assert_eq!(transition(&CatState::Idle, &StateEvent::CommitDetected, true), None);
}

#[test]
fn every_pair_follows_the_table() {
    for state in STATES {
        for event in events() {
            for night in [false, true] {
                assert_eq!(
                    transition(&state, &event, night),
                    table(state, event, night),
                    "{:?} {:?} night={}",
                    state,
                    event,
                    night
                );
            }
        }
    }
}

#[test]
fn the_hour_of_the_day_decides_between_tired_and_idle() {
    let event = StateEvent::IdleTimeout(200);
    for hour in 0..24u32 {
        let night = is_night_hour(hour, NIGHT_HOUR_START, NIGHT_HOUR_END);
        let expected = if hour >= 23 || hour < 6 { CatState::Tired } else { CatState::Idle };
        assert_eq!(transition(&CatState::Coding, &event, night), Some(expected), "hour {}", hour);
    }
}

#[test]
fn night_window_wraps_around_midnight() {
    assert!(is_night_hour(23, 23, 6));
    assert!(is_night_hour(0, 23, 6));
    assert!(is_night_hour(5, 23, 6));
    assert!(!is_night_hour(6, 23, 6));
    assert!(!is_night_hour(12, 23, 6));
    assert!(!is_night_hour(22, 23, 6));
}

#[test]
fn night_window_within_one_day() {
    assert!(is_night_hour(1, 1, 5));
    assert!(is_night_hour(4, 1, 5));
    assert!(!is_night_hour(5, 1, 5));
    assert!(!is_night_hour(0, 1, 5));
    assert!(is_night_hour(7, 3, 3));
}

#[test]
fn transient_states() {
    assert!(CatState::Celebrating.transient());
    assert!(CatState::Frustrated.transient());
    assert!(CatState::Interaction.transient());
    assert!(!CatState::Idle.transient());
    assert!(!CatState::Coding.transient());
    assert!(!CatState::Sleeping.transient());
    assert!(!CatState::Tired.transient());
}

#[test]
fn mood_follows_state() {
    assert_eq!(CatMood::from(&CatState::Idle), CatMood::Happy);
    assert_eq!(CatMood::from(&CatState::Coding), CatMood::Focused);
    assert_eq!(CatMood::from(&CatState::Celebrating), CatMood::Excited);
    assert_eq!(CatMood::from(&CatState::Frustrated), CatMood::Sad);
    assert_eq!(CatMood::from(&CatState::Sleeping), CatMood::Sleeping);
    assert_eq!(CatMood::from(&CatState::Tired), CatMood::Sad);
    assert_eq!(CatMood::from(&CatState::Interaction), CatMood::Happy);
}

#[test]
fn cat_info_holds_its_fields() {
    let info = CatInfo {
        state: CatState::Idle,
        mood: CatMood::Happy,
        level: 1,
        exp: 0,
        exp_to_next: 60,
        streak_days: 0,
    };
    assert_eq!(info.clone(), info);
}

#[test]
fn avatar_starts_idle_without_a_timer() {
    let avatar = Avatar::new(100, 3);
    assert_eq!(avatar.state(), CatState::Idle);
    assert_eq!(avatar.entered_at(), 100);
    assert_eq!(avatar.remaining(100), None);
}

#[test]
fn celebrating_returns_to_idle_after_five_seconds() {
    let mut avatar = Avatar::new(0, 3);
    avatar.handle(&StateEvent::ActivityDetected, false, 10);
    let outcome = avatar.handle(&StateEvent::CommitDetected, false, 20);
    assert_eq!(
        outcome,
        Outcome {
            expired: None,
            changed: Some(StateChange { from: CatState::Coding, to: CatState::Celebrating }),
        }
    );
    assert!(outcome.has_entered(CatState::Celebrating));
    assert!(!outcome.has_entered(CatState::Coding));
    assert_eq!(avatar.remaining(20), Some(5));
    assert_eq!(avatar.remaining(23), Some(2));
    assert_eq!(avatar.poll(24), None);
    assert_eq!(avatar.state(), CatState::Celebrating);
    assert_eq!(avatar.remaining(25), Some(0));
    assert_eq!(
        avatar.poll(25),
        Some(StateChange { from: CatState::Celebrating, to: CatState::Idle })
    );
    assert_eq!(avatar.state(), CatState::Idle);
    assert_eq!(avatar.entered_at(), 25);
    assert_eq!(avatar.poll(1000), None);
}

#[test]
fn frustrated_returns_to_idle_after_five_seconds() {
    let mut avatar = Avatar::new(0, 3);
    avatar.handle(&StateEvent::ActivityDetected, true, 1);
    avatar.handle(&StateEvent::ErrorDetected, true, 2);
    assert_eq!(avatar.state(), CatState::Frustrated);
    assert_eq!(avatar.poll(6), None);
    assert_eq!(
        avatar.poll(7),
        Some(StateChange { from: CatState::Frustrated, to: CatState::Idle })
    );
}

#[test]
fn interaction_returns_to_idle_after_its_window() {
    let mut avatar = Avatar::new(0, 2);
    avatar.handle(&StateEvent::UserClicked, false, 50);
    assert_eq!(avatar.state(), CatState::Interaction);
    assert_eq!(avatar.remaining(50), Some(2));
    assert_eq!(avatar.poll(51), None);
    assert_eq!(
        avatar.poll(52),
        Some(StateChange { from: CatState::Interaction, to: CatState::Idle })
    );
}

#[test]
fn timer_event_ends_a_transient_state_at_once() {
    let mut avatar = Avatar::new(0, 3);
    avatar.handle(&StateEvent::UserClicked, false, 50);
    let outcome = avatar.handle(&StateEvent::TimerExpired, false, 51);
    assert_eq!(outcome.expired, None);
    assert_eq!(
        outcome.changed,
        Some(StateChange { from: CatState::Interaction, to: CatState::Idle })
    );
}

#[test]
fn a_due_timer_goes_before_the_event() {
    let mut avatar = Avatar::new(0, 3);
    avatar.handle(&StateEvent::ActivityDetected, false, 1);
    avatar.handle(&StateEvent::CommitDetected, false, 2);
    let outcome = avatar.handle(&StateEvent::ActivityDetected, false, 7);
    assert_eq!(
        outcome.expired,
        Some(StateChange { from: CatState::Celebrating, to: CatState::Idle })
    );
    assert_eq!(
        outcome.changed,
        Some(StateChange { from: CatState::Idle, to: CatState::Coding })
    );
    assert_eq!(avatar.state(), CatState::Coding);
}

#[test]
fn an_event_before_the_timer_is_due_meets_the_transient_state() {
    let mut avatar = Avatar::new(0, 3);
    avatar.handle(&StateEvent::ActivityDetected, false, 1);
    avatar.handle(&StateEvent::CommitDetected, false, 2);
    let outcome = avatar.handle(&StateEvent::ActivityDetected, false, 6);
    assert_eq!(outcome, Outcome { expired: None, changed: None });
    assert_eq!(avatar.state(), CatState::Celebrating);
    assert_eq!(avatar.entered_at(), 2);
}

#[test]
fn a_stale_timer_changes_nothing() {
    let mut avatar = Avatar::new(0, 10);
    avatar.handle(&StateEvent::UserClicked, false, 0);
    avatar.handle(&StateEvent::TimerExpired, false, 1);
    avatar.handle(&StateEvent::UserClicked, false, 8);
    assert_eq!(avatar.state(), CatState::Interaction);
    assert_eq!(avatar.poll(10), None);
    assert_eq!(avatar.state(), CatState::Interaction);
    assert_eq!(
        avatar.poll(18),
        Some(StateChange { from: CatState::Interaction, to: CatState::Idle })
    );
}

#[test]
fn a_clock_that_runs_backwards_counts_as_no_time() {
    let mut avatar = Avatar::new(100, 3);
    avatar.handle(&StateEvent::UserClicked, false, 100);
    assert_eq!(avatar.remaining(50), Some(3));
    assert_eq!(avatar.poll(50), None);
}

#[test]
fn an_interaction_window_of_no_length_is_due_at_once() {
    let mut avatar = Avatar::new(0, 0);
    avatar.handle(&StateEvent::UserClicked, false, 5);
    assert_eq!(avatar.remaining(5), Some(0));
    assert_eq!(
        avatar.poll(5),
        Some(StateChange { from: CatState::Interaction, to: CatState::Idle })
    );
}

#[test]
fn sleeping_and_waking() {
    let mut avatar = Avatar::new(0, 3);
    let outcome = avatar.handle(&StateEvent::IdleTimeout(600), false, 600);
    assert!(outcome.has_entered(CatState::Sleeping));
    let outcome = avatar.handle(&StateEvent::IdleTimeout(900), false, 900);
    assert_eq!(outcome, Outcome { expired: None, changed: None });
    assert_eq!(avatar.remaining(900), None);
    let outcome = avatar.handle(&StateEvent::UserClicked, false, 901);
    assert!(outcome.has_entered(CatState::Idle));
}
