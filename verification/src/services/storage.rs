use vstd::prelude::*;
use vstd::string::*;
use crate::models::activity::DailySummary;
use crate::models::settings::AppData;

verus! {

/// Number of daily summaries that the history keeps.
pub const HISTORY_LIMIT: usize = 90;

/// The last [`HISTORY_LIMIT`] entries of `history`; all of it where it holds
/// no more than that.
pub open spec fn newest_of(history: Seq<DailySummary>) -> Seq<DailySummary> {
    if history.len() > HISTORY_LIMIT {
        history.subrange(history.len() - HISTORY_LIMIT, history.len() as int)
    } else {
        history
    }
}

/// Cuts the history down to its last [`HISTORY_LIMIT`] entries and leaves
/// everything else as it was. The history holds the days in the order in
/// which they ended, the oldest first, so the oldest days go and the newest
/// stay, in their order.
pub fn cleanup_history(data: &mut AppData)
    ensures
        final(data).history@ == newest_of(old(data).history@),
        final(data).version == old(data).version,
        final(data).settings == old(data).settings,
        final(data).cat == old(data).cat,
        final(data).today == old(data).today,
{
    let len: usize = data.history.len();
    if len > HISTORY_LIMIT {
        let newest = data.history.split_off(len - HISTORY_LIMIT);
        data.history = newest;
    }
}

/// The history after the day that ended was appended and the oldest days
/// beyond the limit went out.
pub open spec fn history_with(history: Seq<DailySummary>, ended: DailySummary) -> Seq<
    DailySummary,
> {
    newest_of(history.push(ended))
}

/// Turns the page where the calendar day has changed: the summary of the day
/// that ended is appended to the history, the history is cut down to its
/// limit, and a summary of nothing begins for `today`. Returns whether the day
/// changed; where it did not, nothing changes.
pub fn start_new_day(data: &mut AppData, today: &str) -> (changed: bool)
    ensures
        changed == (old(data).today.date@ != today@),
        !changed ==> *final(data) == *old(data),
        changed ==> {
            &&& final(data).history@ == history_with(old(data).history@, old(data).today)
            &&& final(data).today.date@ == today@
            &&& final(data).today.coding_minutes == 0
            &&& final(data).today.commits == 0
            &&& final(data).today.pomodoro_sessions == 0
            &&& final(data).today.exp_gained == 0
            &&& final(data).version == old(data).version
            &&& final(data).settings == old(data).settings
            &&& final(data).cat == old(data).cat
        },
{
    let date = String::from_str(today);
    if data.today.date == date {
        return false;
    }
    let mut ended = DailySummary {
        date,
        coding_minutes: 0,
        commits: 0,
        pomodoro_sessions: 0,
        exp_gained: 0,
    };
    core::mem::swap(&mut data.today, &mut ended);
    data.history.push(ended);
    cleanup_history(data);
    true
}

} // verus!
