use commit_cat::models::cat::{CatInfo, CatMood, CatState};
use commit_cat::models::growth::ProgressionTotals;
use commit_cat::models::settings::AppSettings;
use commit_cat::services::activity::Notice;
use commit_cat::services::companion::{Companion, Message};
use commit_cat::services::state_machine::{StateChange, StateEvent};

fn changed(from: CatState, to: CatState) -> Message {
    Message::StateChanged(StateChange { from, to })
}

fn name(s: &str) -> Option<String> {
    Some(s.to_string())
}

#[test]
fn a_new_companion_is_idle() {
    let companion = Companion::new(7, 3, ProgressionTotals::new());
    assert_eq!(companion.avatar.state(), CatState::Idle);
    assert_eq!(companion.avatar.entered_at(), 7);
    assert_eq!(companion.sampler.idle_seconds(17), 10);
    assert_eq!(companion.totals, ProgressionTotals::new());
}

#[test]
fn an_ignored_event_sends_nothing() {
    let mut companion = Companion::new(0, 3, ProgressionTotals::new());
    assert_eq!(companion.deliver(&StateEvent::CommitDetected, false, 1), vec![]);
    assert_eq!(companion.avatar.state(), CatState::Idle);
    assert_eq!(companion.totals, ProgressionTotals::new());
}

#[test]
fn a_celebrated_commit_reports_the_points_it_earns() {
    let mut companion = Companion::new(0, 3, ProgressionTotals::new());
    assert_eq!(
        companion.deliver(&StateEvent::ActivityDetected, false, 1),
        vec![changed(CatState::Idle, CatState::Coding)]
    );
    assert_eq!(
        companion.deliver(&StateEvent::CommitDetected, false, 2),
        vec![changed(CatState::Coding, CatState::Celebrating), Message::ExpGained(20)]
    );
    assert_eq!(companion.totals.commits, 1);
    assert_eq!(companion.totals.current_exp, 20);
    assert_eq!(companion.totals.total_exp, 20);
}

#[test]
fn a_commit_that_fills_the_level_reports_the_level_reached() {
    let mut totals = ProgressionTotals::new();
    totals.current_exp = 45;
    totals.commits = 2;
    let mut companion = Companion::new(0, 3, totals);
    companion.deliver(&StateEvent::ActivityDetected, false, 1);
    assert_eq!(
        companion.deliver(&StateEvent::CommitDetected, false, 2),
        vec![
            changed(CatState::Coding, CatState::Celebrating),
            Message::ExpGained(20),
            Message::LevelUp(2),
        ]
    );
    assert_eq!(companion.totals.level, 2);
    assert_eq!(companion.totals.current_exp, 5);
    assert_eq!(companion.totals.commits, 3);
}

#[test]
fn a_commit_beyond_the_cap_earns_the_dampened_rate() {
    let mut totals = ProgressionTotals::new();
    totals.commits = 20;
    let mut companion = Companion::new(0, 3, totals);
    companion.deliver(&StateEvent::ActivityDetected, false, 1);
    assert_eq!(
        companion.deliver(&StateEvent::CommitDetected, false, 2),
        vec![changed(CatState::Coding, CatState::Celebrating), Message::ExpGained(4)]
    );
}

#[test]
fn a_commit_that_cannot_be_counted_is_still_celebrated() {
    let mut totals = ProgressionTotals::new();
    totals.commits = u32::MAX;
    let mut companion = Companion::new(0, 3, totals);
    companion.deliver(&StateEvent::ActivityDetected, false, 1);
    assert_eq!(
        companion.deliver(&StateEvent::CommitDetected, false, 2),
        vec![changed(CatState::Coding, CatState::Celebrating)]
    );
    assert_eq!(companion.totals, totals);
}

#[test]
fn a_due_timer_is_reported_before_the_event() {
    let mut companion = Companion::new(0, 3, ProgressionTotals::new());
    companion.deliver(&StateEvent::UserClicked, false, 10);
    assert_eq!(
        companion.deliver(&StateEvent::ActivityDetected, false, 13),
        vec![
            changed(CatState::Interaction, CatState::Idle),
            changed(CatState::Idle, CatState::Coding),
        ]
    );
}

#[test]
fn poll_reports_the_expiry() {
    let mut companion = Companion::new(0, 3, ProgressionTotals::new());
    companion.deliver(&StateEvent::UserClicked, false, 10);
    assert_eq!(companion.poll(12), vec![]);
    assert_eq!(companion.poll(13), vec![changed(CatState::Interaction, CatState::Idle)]);
    assert_eq!(companion.poll(14), vec![]);
}

#[test]
fn a_row_of_events_is_consumed_in_order() {
    let mut companion = Companion::new(0, 3, ProgressionTotals::new());
    let events = vec![
        StateEvent::ActivityDetected,
        StateEvent::CommitDetected,
        StateEvent::UserClicked,
    ];
    assert_eq!(
        companion.deliver_all(&events, false, 5),
        vec![
            changed(CatState::Idle, CatState::Coding),
            changed(CatState::Coding, CatState::Celebrating),
            Message::ExpGained(20),
        ]
    );
    assert_eq!(companion.avatar.state(), CatState::Celebrating);
    assert_eq!(companion.deliver_all(&Vec::new(), false, 100), vec![]);
    assert_eq!(companion.avatar.state(), CatState::Celebrating);
}

#[test]
fn a_cycle_takes_the_avatar_from_coding_to_sleeping() {
    let settings = AppSettings::default();
    let mut companion = Companion::new(0, 3, ProgressionTotals::new());

    let report = companion.tick(name("Zed"), 10, 12, &settings);
    assert_eq!(
        report.messages,
        vec![Message::Activity(Notice::IdeDetected), changed(CatState::Idle, CatState::Coding)]
    );
    assert!(report.status.is_ide_running);
    assert_eq!(report.status.active_ide, name("Zed"));

    let report = companion.tick(None, 20, 12, &settings);
    assert_eq!(report.messages, vec![Message::Activity(Notice::IdeClosed)]);

    let report = companion.tick(None, 190, 12, &settings);
    assert_eq!(
        report.messages,
        vec![Message::Activity(Notice::Idle(180)), changed(CatState::Coding, CatState::Idle)]
    );

    let report = companion.tick(None, 610, 12, &settings);
    assert_eq!(
        report.messages,
        vec![
            Message::Activity(Notice::Sleeping(600)),
            changed(CatState::Idle, CatState::Sleeping),
        ]
    );
    assert_eq!(report.status.idle_seconds, 600);

    for now in [620, 630, 1200, 100_000] {
        let report = companion.tick(None, now, 3, &settings);
        assert_eq!(report.messages, vec![]);
        assert_eq!(companion.avatar.state(), CatState::Sleeping);
    }

    let report = companion.tick(name("Zed"), 100_010, 12, &settings);
    assert_eq!(
        report.messages,
        vec![
            Message::Activity(Notice::IdeDetected),
            changed(CatState::Sleeping, CatState::Idle),
        ]
    );
}

#[test]
fn a_cycle_at_night_leaves_the_avatar_tired() {
    let settings = AppSettings::default();
    let mut companion = Companion::new(0, 3, ProgressionTotals::new());
    let report = companion.tick(name("Zed"), 10, 23, &settings);
    assert_eq!(
        report.messages,
        vec![
            Message::Activity(Notice::IdeDetected),
            Message::Activity(Notice::LateNightCoding(23)),
            changed(CatState::Idle, CatState::Coding),
        ]
    );
    let report = companion.tick(None, 200, 0, &settings);
    assert_eq!(
        report.messages,
        vec![
            Message::Activity(Notice::IdeClosed),
            Message::Activity(Notice::Idle(190)),
            changed(CatState::Coding, CatState::Tired),
        ]
    );
    let report = companion.tick(None, 700, 1, &settings);
    assert_eq!(report.messages, vec![Message::Activity(Notice::Sleeping(690))]);
    assert_eq!(companion.avatar.state(), CatState::Tired);
}

#[test]
fn a_long_gap_crosses_both_thresholds_at_once() {
    let settings = AppSettings::default();
    let mut companion = Companion::new(0, 3, ProgressionTotals::new());
    companion.tick(name("Zed"), 10, 12, &settings);
    let report = companion.tick(None, 900, 12, &settings);
    assert_eq!(
        report.messages,
        vec![
            Message::Activity(Notice::IdeClosed),
            Message::Activity(Notice::Idle(890)),
            Message::Activity(Notice::Sleeping(890)),
            changed(CatState::Coding, CatState::Idle),
            changed(CatState::Idle, CatState::Sleeping),
        ]
    );
}

#[test]
fn messages_go_out_under_their_names() {
    assert_eq!(changed(CatState::Idle, CatState::Coding).event_name(), "cat:state-changed");
    assert_eq!(Message::ExpGained(20).event_name(), "cat:exp-gained");
    assert_eq!(Message::LevelUp(2).event_name(), "cat:level-up");
    assert_eq!(Message::Activity(Notice::IdeClosed).event_name(), "activity:ide-closed");
}

#[test]
fn cat_info_shows_state_mood_and_level() {
    let mut totals = ProgressionTotals::new();
    totals.level = 3;
    totals.current_exp = 17;
    totals.streak_days = 9;
    let mut companion = Companion::new(0, 3, totals);
    companion.deliver(&StateEvent::ActivityDetected, false, 1);
    assert_eq!(
        companion.cat_info(),
        Some(CatInfo {
            state: CatState::Coding,
            mood: CatMood::Focused,
            level: 3,
            exp: 17,
            exp_to_next: 250,
            streak_days: 9,
        })
    );
    companion.totals.current_exp = 1 << 32;
    assert_eq!(companion.cat_info(), None);
    companion.totals.current_exp = 0;
    companion.totals.level = 1_200_000;
    assert_eq!(companion.cat_info(), None);
}

#[test]
fn a_new_companion_has_no_coding_time() {
    let companion = Companion::new(7, 3, ProgressionTotals::new());
    assert_eq!(companion.coding_since, None);
    assert_eq!(companion.coding_secs, 0);
}

#[test]
fn a_minute_of_coding_earns_one_point() {
    let settings = AppSettings::default();
    let mut companion = Companion::new(0, 3, ProgressionTotals::new());
    companion.tick(name("Zed"), 10, 12, &settings);
    for now in [20, 30, 40, 50, 60] {
        let report = companion.tick(name("Zed"), now, 12, &settings);
        assert_eq!(report.messages, vec![]);
    }
    assert_eq!(companion.coding_secs, 50);
    let report = companion.tick(name("Zed"), 70, 12, &settings);
    assert_eq!(report.messages, vec![Message::ExpGained(1)]);
    assert_eq!(companion.totals.coding_minutes, 1);
    assert_eq!(companion.totals.current_exp, 1);
    assert_eq!(companion.totals.total_exp, 1);
    assert_eq!(companion.coding_secs, 0);
    assert_eq!(companion.coding_since, Some(70));
}

#[test]
fn seconds_beyond_a_minute_are_carried() {
    let settings = AppSettings::default();
    let mut companion = Companion::new(0, 3, ProgressionTotals::new());
    companion.tick(name("Zed"), 0, 12, &settings);
    assert_eq!(companion.tick(name("Zed"), 45, 12, &settings).messages, vec![]);
    assert_eq!(companion.coding_secs, 45);
    assert_eq!(
        companion.tick(name("Zed"), 90, 12, &settings).messages,
        vec![Message::ExpGained(1)]
    );
    assert_eq!(companion.coding_secs, 30);
    assert_eq!(
        companion.tick(name("Zed"), 135, 12, &settings).messages,
        vec![Message::ExpGained(1)]
    );
    assert_eq!(companion.coding_secs, 15);
    assert_eq!(companion.totals.coding_minutes, 2);
}

#[test]
fn an_hour_of_coding_in_one_step_raises_the_level() {
    let settings = AppSettings::default();
    let mut companion = Companion::new(0, 3, ProgressionTotals::new());
    companion.tick(name("Zed"), 0, 12, &settings);
    let report = companion.tick(name("Zed"), 3600, 12, &settings);
    assert_eq!(report.messages, vec![Message::ExpGained(60), Message::LevelUp(2)]);
    assert_eq!(companion.totals.level, 2);
    assert_eq!(companion.totals.current_exp, 0);
    assert_eq!(companion.totals.coding_minutes, 60);
}

#[test]
fn time_without_an_editor_is_no_coding_time() {
    let settings = AppSettings::default();
    let mut companion = Companion::new(0, 3, ProgressionTotals::new());
    companion.tick(name("Zed"), 0, 12, &settings);
    companion.tick(None, 100, 12, &settings);
    assert_eq!(companion.coding_since, None);
    assert_eq!(companion.coding_secs, 0);
    let report = companion.tick(name("Zed"), 170, 12, &settings);
    assert_eq!(
        report.messages,
        vec![Message::Activity(Notice::IdeDetected)]
    );
    assert_eq!(companion.coding_since, Some(170));
    assert_eq!(companion.totals.coding_minutes, 0);
}

#[test]
fn coding_time_is_not_counted_while_tracking_is_off() {
    let mut settings = AppSettings::default();
    settings.activity_tracking = false;
    let mut companion = Companion::new(0, 3, ProgressionTotals::new());
    companion.tick(name("Zed"), 0, 12, &settings);
    let report = companion.tick(name("Zed"), 600, 12, &settings);
    assert_eq!(report.messages, vec![]);
    assert_eq!(companion.totals.coding_minutes, 0);
    assert_eq!(companion.coding_since, None);
    settings.activity_tracking = true;
    let report = companion.tick(name("Zed"), 700, 12, &settings);
    assert_eq!(report.messages, vec![]);
    assert_eq!(companion.coding_since, Some(700));
    let report = companion.tick(name("Zed"), 760, 12, &settings);
    assert_eq!(report.messages, vec![Message::ExpGained(1)]);
}

#[test]
fn count_coding_takes_whole_minutes_and_keeps_the_rest() {
    let mut companion = Companion::new(0, 3, ProgressionTotals::new());
    assert_eq!(companion.count_coding(true, 100, true), vec![]);
    assert_eq!(companion.coding_since, Some(100));
    assert_eq!(companion.count_coding(true, 225, true), vec![Message::ExpGained(2)]);
    assert_eq!(companion.coding_secs, 5);
    assert_eq!(companion.count_coding(true, 200, true), vec![]);
    assert_eq!(companion.coding_secs, 5);
    assert_eq!(companion.coding_since, Some(200));
    assert_eq!(companion.count_coding(false, 900, true), vec![]);
    assert_eq!(companion.coding_since, None);
    assert_eq!(companion.coding_secs, 5);
    assert_eq!(companion.totals.coding_minutes, 2);
}

#[test]
fn minutes_that_the_totals_cannot_take_are_dropped() {
    let mut totals = ProgressionTotals::new();
    totals.coding_minutes = u32::MAX;
    let mut companion = Companion::new(0, 3, totals);
    companion.count_coding(true, 0, true);
    assert_eq!(companion.count_coding(true, 130, true), vec![]);
    assert_eq!(companion.totals, totals);
    assert_eq!(companion.coding_secs, 10);

    let mut companion = Companion::new(0, 3, ProgressionTotals::new());
    companion.count_coding(true, 0, true);
    assert_eq!(companion.count_coding(true, u64::MAX, true), vec![]);
    assert_eq!(companion.totals, ProgressionTotals::new());
    assert_eq!(companion.coding_secs, u64::MAX % 60);
}

#[test]
fn carried_seconds_of_more_than_a_minute_are_counted_at_the_next_cycle() {
    let mut companion = Companion::new(0, 3, ProgressionTotals::new());
    companion.coding_secs = 125;
    assert_eq!(companion.count_coding(false, 10, true), vec![Message::ExpGained(2)]);
    assert_eq!(companion.coding_secs, 5);
}
