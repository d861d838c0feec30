use commit_cat::events::event_names;
use commit_cat::models::activity::{CodingStatus, DailySummary, PomodoroStatus};
use commit_cat::models::settings::{AppData, AppSettings, CatPersistence};
use commit_cat::services::storage::{cleanup_history, start_new_day, HISTORY_LIMIT};
use commit_cat::utils::{
    format_date, format_minutes, push_decimal, push_padded_decimal,
};

fn day(n: u32) -> DailySummary {
    DailySummary {
        date: format!("day-{}", n),
        coding_minutes: n,
        commits: n + 1,
        pomodoro_sessions: n + 2,
        exp_gained: n + 3,
    }
}

fn dates(data: &AppData) -> Vec<String> {
    data.history.iter().map(|d| d.date.clone()).collect()
}

#[test]
fn default_settings() {
    let s = AppSettings::default();
    assert!(s.auto_hide_fullscreen);
    assert!(s.activity_tracking);
    assert!(s.ide_detection);
    assert!(s.git_integration);
    assert!(!s.docker_integration);
    assert!(!s.ai_enabled);
    assert_eq!(s.pomodoro_minutes, 25);
    assert_eq!(s.idle_threshold_seconds, 300);
    assert_eq!(s.night_hour_start, 23);
    assert_eq!(s.night_hour_end, 6);
    assert!(s.git_repos.is_empty());
}

#[test]
fn default_persistence() {
    let c = CatPersistence::default();
    assert_eq!(c.level, 1);
    assert_eq!(c.exp, 0);
    assert_eq!(c.total_coding_minutes, 0);
    assert_eq!(c.total_commits, 0);
    assert_eq!(c.streak_days, 0);
    assert_eq!(c.last_active_date, None);
}

#[test]
fn default_summary_and_snapshot() {
    let d = DailySummary::default();
    assert_eq!(d.date, "");
    assert_eq!((d.coding_minutes, d.commits, d.pomodoro_sessions, d.exp_gained), (0, 0, 0, 0));
    let data = AppData::default();
    assert_eq!(data.version, 1);
    assert_eq!(data.settings.pomodoro_minutes, 25);
    assert_eq!(data.cat.level, 1);
    assert_eq!(data.today.date, "");
    assert!(data.history.is_empty());
}

#[test]
fn status_types_hold_their_fields() {
    let coding = CodingStatus {
        is_coding: false,
        active_ide: None,
        idle_seconds: 0,
        session_minutes: 0,
    };
    assert_eq!(coding.clone().active_ide, None);
    let pomodoro = PomodoroStatus {
        is_active: true,
        remaining_seconds: 25 * 60,
        total_seconds: 25 * 60,
        sessions_today: 0,
    };
    assert_eq!(pomodoro.clone(), pomodoro);
}

#[test]
fn cleanup_keeps_a_short_history() {
    let mut data = AppData::default();
    for n in 0..90 {
        data.history.push(day(n));
    }
    let before = dates(&data);
    cleanup_history(&mut data);
    assert_eq!(dates(&data), before);
}

#[test]
fn cleanup_keeps_the_last_ninety_entries() {
    assert_eq!(HISTORY_LIMIT, 90);
    let mut data = AppData::default();
    data.version = 7;
    data.cat.level = 4;
    data.today = day(1000);
    for n in 0..95 {
        data.history.push(day(n));
    }
    cleanup_history(&mut data);
    assert_eq!(data.history.len(), 90);
    assert_eq!(data.history[0].date, "day-5");
    assert_eq!(data.history[89].date, "day-94");
    assert_eq!(data.history[89].exp_gained, 97);
    assert_eq!(data.version, 7);
    assert_eq!(data.cat.level, 4);
    assert_eq!(data.today.date, "day-1000");
}

#[test]
fn cleanup_prunes_the_oldest_of_ninety_one_entries() {
    let mut data = AppData::default();
    for n in 0..91 {
        let mut summary = DailySummary::default();
        summary.coding_minutes = n;
        data.history.push(summary);
    }
    cleanup_history(&mut data);
    assert_eq!(data.history.len(), 90);
    assert_eq!(data.history[0].coding_minutes, 1);
    assert_eq!(data.history[89].coding_minutes, 90);
    let minutes: Vec<u32> = data.history.iter().map(|d| d.coding_minutes).collect();
    assert_eq!(minutes, (1..91).collect::<Vec<u32>>());
}

#[test]
fn cleanup_of_an_empty_history_changes_nothing() {
    let mut data = AppData::default();
    cleanup_history(&mut data);
    assert!(data.history.is_empty());
}

#[test]
fn a_new_day_appends_the_summary_to_the_history() {
    let mut data = AppData::default();
    data.today = DailySummary {
        date: "2026-02-22".to_string(),
        coding_minutes: 90,
        commits: 4,
        pomodoro_sessions: 2,
        exp_gained: 230,
    };
    data.history.push(day(1));
    assert!(start_new_day(&mut data, "2026-02-23"));
    assert_eq!(dates(&data), vec!["day-1".to_string(), "2026-02-22".to_string()]);
    assert_eq!(data.history[1].coding_minutes, 90);
    assert_eq!(data.history[1].exp_gained, 230);
    assert_eq!(data.today.date, "2026-02-23");
    assert_eq!(
        (
            data.today.coding_minutes,
            data.today.commits,
            data.today.pomodoro_sessions,
            data.today.exp_gained
        ),
        (0, 0, 0, 0)
    );
}

#[test]
fn the_same_day_changes_nothing() {
    let mut data = AppData::default();
    data.today = day(5);
    data.history.push(day(1));
    assert!(!start_new_day(&mut data, "day-5"));
    assert_eq!(data.today.commits, 6);
    assert_eq!(dates(&data), vec!["day-1".to_string()]);
}

#[test]
fn a_new_day_drops_the_oldest_day_of_a_full_history() {
    let mut data = AppData::default();
    data.today = day(1000);
    for n in 0..90 {
        data.history.push(day(n));
    }
    assert!(start_new_day(&mut data, "next"));
    assert_eq!(data.history.len(), 90);
    assert_eq!(data.history[0].date, "day-1");
    assert_eq!(data.history[88].date, "day-89");
    assert_eq!(data.history[89].date, "day-1000");
}

#[test]
fn days_stay_in_the_order_in_which_they_ended() {
    let mut data = AppData::default();
    data.today.date = "d0".to_string();
    for n in 1..=100u32 {
        data.today.commits = n;
        assert!(start_new_day(&mut data, &format!("d{}", n)));
    }
    assert_eq!(data.history.len(), 90);
    assert_eq!(data.history[0].date, "d10");
    assert_eq!(data.history[0].commits, 11);
    assert_eq!(data.history[89].date, "d99");
    assert_eq!(data.history[89].commits, 100);
    assert_eq!(data.today.date, "d100");
}

#[test]
fn minutes_below_an_hour() {
    assert_eq!(format_minutes(0), "0m");
    assert_eq!(format_minutes(7), "7m");
    assert_eq!(format_minutes(59), "59m");
}

#[test]
fn minutes_from_an_hour_on() {
    assert_eq!(format_minutes(60), "1h 0m");
    assert_eq!(format_minutes(61), "1h 1m");
    assert_eq!(format_minutes(125), "2h 5m");
    assert_eq!(format_minutes(1439), "23h 59m");
    assert_eq!(format_minutes(u32::MAX), "71582788h 15m");
}

#[test]
fn dates_are_padded() {
    assert_eq!(format_date(2026, 2, 22), "2026-02-22");
    assert_eq!(format_date(2026, 12, 1), "2026-12-01");
    assert_eq!(format_date(987, 1, 9), "0987-01-09");
    assert_eq!(format_date(0, 10, 31), "0000-10-31");
}

#[test]
fn years_outside_four_digits_carry_a_sign() {
    assert_eq!(format_date(10000, 1, 1), "+10000-01-01");
    assert_eq!(format_date(262142, 12, 31), "+262142-12-31");
    assert_eq!(format_date(-1, 3, 4), "-0001-03-04");
    assert_eq!(format_date(-12345, 3, 4), "-12345-03-04");
}

#[test]
fn dates_agree_with_the_calendar_library() {
    let days = [
        (2026, 2, 22),
        (1, 1, 1),
        (0, 6, 15),
        (999, 12, 31),
        (1000, 1, 1),
        (9999, 12, 31),
        (10000, 1, 1),
        (-1, 1, 1),
        (-999, 2, 28),
        (-9999, 7, 7),
        (-10000, 7, 7),
        (200000, 2, 29),
        (-200000, 2, 29),
    ];
    for (y, m, d) in days {
        let date = chrono::NaiveDate::from_ymd_opt(y, m, d).unwrap();
        assert_eq!(format_date(y, m, d), date.format("%Y-%m-%d").to_string());
    }
}

#[test]
fn message_names() {
    assert_eq!(event_names::CAT_STATE_CHANGED, "cat:state-changed");
    assert_eq!(event_names::CAT_LEVEL_UP, "cat:level-up");
    assert_eq!(event_names::CAT_EXP_GAINED, "cat:exp-gained");
    assert_eq!(event_names::ACTIVITY_IDE_DETECTED, "activity:ide-detected");
    assert_eq!(event_names::ACTIVITY_IDE_CLOSED, "activity:ide-closed");
    assert_eq!(event_names::ACTIVITY_IDLE, "activity:idle");
    assert_eq!(event_names::ACTIVITY_SLEEPING, "activity:sleeping");
    assert_eq!(event_names::ACTIVITY_LATE_NIGHT_CODING, "activity:late-night-coding");
    assert_eq!(event_names::ACTIVITY_STATUS, "activity:status");
    assert_eq!(event_names::ACTIVITY_FULLSCREEN, "activity:fullscreen");
    assert_eq!(event_names::GIT_NEW_COMMIT, "git:new-commit");
    assert_eq!(event_names::POMODORO_TICK, "pomodoro:tick");
    assert_eq!(event_names::POMODORO_COMPLETE, "pomodoro:complete");
    assert_eq!(event_names::POMODORO_CANCELLED, "pomodoro:cancelled");
    assert_eq!(event_names::DAY_CHANGED, "system:day-changed");
}

#[test]
fn decimals_are_written_at_the_end() {
    let mut out = String::from("n=");
    push_decimal(&mut out, 0);
    push_decimal(&mut out, 907);
    push_decimal(&mut out, u64::MAX);
    assert_eq!(out, "n=090718446744073709551615");
}

#[test]
fn padded_decimals_are_filled_with_zeros() {
    let mut out = String::new();
    push_padded_decimal(&mut out, 7, 3);
    out.push(' ');
    push_padded_decimal(&mut out, 12345, 3);
    out.push(' ');
    push_padded_decimal(&mut out, 0, 0);
    out.push(' ');
    push_padded_decimal(&mut out, 5, 25);
    assert_eq!(out, "007 12345 0 0000000000000000000000005");
}
