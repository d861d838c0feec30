use vstd::prelude::*;
use crate::models::activity::DailySummary;

verus! {

/// What the user switched on and off, and the thresholds that go with it.
#[derive(Debug, Clone)]
pub struct AppSettings {
    /// Hide the avatar while another application is in full screen.
    pub auto_hide_fullscreen: bool,
    /// Derive activity and idle events at all.
    pub activity_tracking: bool,
    /// Look for running editors.
    pub ide_detection: bool,
    /// Watch the registered repositories for commits.
    pub git_integration: bool,
    pub docker_integration: bool,
    pub ai_enabled: bool,
    /// Length of one focused-work session, in minutes.
    pub pomodoro_minutes: u32,
    /// Seconds without input after which the user counts as idle.
    pub idle_threshold_seconds: u64,
    /// First hour of the night, on a 24-hour clock.
    pub night_hour_start: u32,
    /// First hour of the day after the night, on a 24-hour clock.
    pub night_hour_end: u32,
    /// Paths of the registered repositories.
    pub git_repos: Vec<String>,
}

impl AppSettings {
    /// Every switch and threshold stands as it does on first start.
    pub open spec fn is_default(&self) -> bool {
        &&& self.auto_hide_fullscreen
        &&& self.activity_tracking
        &&& self.ide_detection
        &&& self.git_integration
        &&& !self.docker_integration
        &&& !self.ai_enabled
        &&& self.pomodoro_minutes == 25
        &&& self.idle_threshold_seconds == 300
        &&& self.night_hour_start == 23
        &&& self.night_hour_end == 6
        &&& self.git_repos@.len() == 0
    }
}

impl Default for AppSettings {
    fn default() -> (settings: Self)
        ensures
            settings.is_default(),
    {
        AppSettings {
            auto_hide_fullscreen: true,
            activity_tracking: true,
            ide_detection: true,
            git_integration: true,
            docker_integration: false,
            ai_enabled: false,
            pomodoro_minutes: 25,
            idle_threshold_seconds: 300,
            night_hour_start: 23,
            night_hour_end: 6,
            git_repos: Vec::new(),
        }
    }
}

/// The part of the avatar that outlives the process.
#[derive(Debug, Clone)]
pub struct CatPersistence {
    pub level: u32,
    pub exp: u32,
    pub total_coding_minutes: u32,
    pub total_commits: u32,
    pub streak_days: u32,
    pub last_active_date: Option<String>,
}

impl CatPersistence {
    /// A first level with nothing gathered and no day of activity.
    pub open spec fn is_default(&self) -> bool {
        &&& self.level == 1
        &&& self.exp == 0
        &&& self.total_coding_minutes == 0
        &&& self.total_commits == 0
        &&& self.streak_days == 0
        &&& self.last_active_date is None
    }
}

impl Default for CatPersistence {
    fn default() -> (cat: Self)
        ensures
            cat.is_default(),
    {
        CatPersistence {
            level: 1,
            exp: 0,
            total_coding_minutes: 0,
            total_commits: 0,
            streak_days: 0,
            last_active_date: None,
        }
    }
}

/// The snapshot that the persistent store loads and saves.
#[derive(Debug, Clone)]
pub struct AppData {
    pub version: u32,
    pub settings: AppSettings,
    pub cat: CatPersistence,
    pub today: DailySummary,
    pub history: Vec<DailySummary>,
}

impl AppData {
    /// A first snapshot: default settings, a fresh avatar, an empty day and
    /// no history.
    pub open spec fn is_default(&self) -> bool {
        &&& self.version == 1
        &&& self.settings.is_default()
        &&& self.cat.is_default()
        &&& self.today.is_empty()
        &&& self.history@.len() == 0
    }
}

impl Default for AppData {
    fn default() -> (data: Self)
        ensures
            data.is_default(),
    {
        AppData {
            version: 1,
            settings: AppSettings::default(),
            cat: CatPersistence::default(),
            today: DailySummary::default(),
            history: Vec::new(),
        }
    }
}

} // verus!
