use vstd::prelude::*;

verus! {

/// What one calendar day added up to.
#[derive(Debug, Clone)]
pub struct DailySummary {
    /// The day, as `YYYY-MM-DD`.
    pub date: String,
    pub coding_minutes: u32,
    pub commits: u32,
    pub pomodoro_sessions: u32,
    pub exp_gained: u32,
}

impl DailySummary {
    /// A summary of nothing: no date and all counters at zero.
    pub open spec fn is_empty(&self) -> bool {
        &&& self.date@.len() == 0
        &&& self.coding_minutes == 0
        &&& self.commits == 0
        &&& self.pomodoro_sessions == 0
        &&& self.exp_gained == 0
    }
}

impl Default for DailySummary {
    fn default() -> (summary: Self)
        ensures
            summary.is_empty(),
    {
        DailySummary {
            date: String::new(),
            coding_minutes: 0,
            commits: 0,
            pomodoro_sessions: 0,
            exp_gained: 0,
        }
    }
}

/// Whether the user is coding right now.
#[derive(Debug, Clone)]
pub struct CodingStatus {
    pub is_coding: bool,
    pub active_ide: Option<String>,
    pub idle_seconds: u64,
    pub session_minutes: u32,
}

/// Where the focused-work timer stands.
#[derive(Debug, Clone, Copy, PartialEq, Eq, Structural)]
pub struct PomodoroStatus {
    pub is_active: bool,
    pub remaining_seconds: u32,
    pub total_seconds: u32,
    pub sessions_today: u32,
}

} // verus!
