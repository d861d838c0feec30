//! Names of the messages that go to the presentation layer, each in the
//! form `domain:action`.

use vstd::prelude::*;

verus! {

/// The avatar left one state for another.
pub const CAT_STATE_CHANGED: &'static str = "cat:state-changed";

/// A level was reached.
pub const CAT_LEVEL_UP: &'static str = "cat:level-up";

/// Points were gained.
pub const CAT_EXP_GAINED: &'static str = "cat:exp-gained";

/// An editor is running that was not running before.
pub const ACTIVITY_IDE_DETECTED: &'static str = "activity:ide-detected";

/// No editor is running any more.
pub const ACTIVITY_IDE_CLOSED: &'static str = "activity:ide-closed";

/// The coding threshold passed without an editor in sight.
pub const ACTIVITY_IDLE: &'static str = "activity:idle";

/// The sleeping threshold passed without an editor in sight.
pub const ACTIVITY_SLEEPING: &'static str = "activity:sleeping";

/// An editor is running at night.
pub const ACTIVITY_LATE_NIGHT_CODING: &'static str = "activity:late-night-coding";

/// The status that closes every cycle of the sampler.
pub const ACTIVITY_STATUS: &'static str = "activity:status";

/// Another application covers the whole screen.
pub const ACTIVITY_FULLSCREEN: &'static str = "activity:fullscreen";

/// The head of a watched repository moved.
pub const GIT_NEW_COMMIT: &'static str = "git:new-commit";

/// A focused-work session is one step further.
pub const POMODORO_TICK: &'static str = "pomodoro:tick";

/// A focused-work session ran to its end.
pub const POMODORO_COMPLETE: &'static str = "pomodoro:complete";

/// A focused-work session was given up.
pub const POMODORO_CANCELLED: &'static str = "pomodoro:cancelled";

/// The calendar day changed.
pub const DAY_CHANGED: &'static str = "system:day-changed";

} // verus!
