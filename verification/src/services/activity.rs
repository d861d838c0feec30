use vstd::prelude::*;
use vstd::string::*;
use crate::events::event_names::{
    ACTIVITY_IDE_CLOSED, ACTIVITY_IDE_DETECTED, ACTIVITY_IDLE, ACTIVITY_LATE_NIGHT_CODING,
    ACTIVITY_SLEEPING,
};
use crate::models::settings::AppSettings;
use crate::services::state_machine::{
    in_night_window, is_night_hour, StateEvent, CODING_TO_IDLE_SECS, IDLE_TO_SLEEPING_SECS,
};
use crate::utils::text::{
    basename, contains, ends_with, file_name, has_suffix, lines_of, occurs_in, same_text,
    split_lines, to_chars, trim, trimmed,
};

verus! {

/// One row of an editor table: the name under which the process shows up,
/// and the name under which the editor is reported.
#[derive(Debug, Clone, Copy)]
pub struct IdeEntry {
    pub process: &'static str,
    pub display: &'static str,
}

/// How a process name is looked for in the text that the system handed over.
#[derive(Debug, Clone, Copy, PartialEq, Eq, Structural)]
pub enum MatchRule {
    /// The process name occurs somewhere in the text.
    Substring,
    /// Some line of the text, trimmed, ends with the process name.
    LineSuffix,
    /// The file name of some line of the text, trimmed, is the process name.
    LineBasename,
}

/// Whether `process` is found in `text` under `rule`.
pub open spec fn hits(rule: MatchRule, text: Seq<char>, process: Seq<char>) -> bool {
    match rule {
        MatchRule::Substring => occurs_in(process, text),
        MatchRule::LineSuffix => exists|i: int|
            0 <= i < lines_of(text).len() && ends_with(
                trimmed(#[trigger] lines_of(text)[i]),
                process,
            ),
        MatchRule::LineBasename => exists|i: int|
            0 <= i < lines_of(text).len() && trimmed(basename(#[trigger] lines_of(text)[i]))
                == process,
    }
}

/// The display name of the first row of `table`, in table order, whose
/// process is found in `text`.
pub open spec fn first_display(table: Seq<IdeEntry>, rule: MatchRule, text: Seq<char>) -> Option<
    Seq<char>,
>
    decreases table.len(),
{
    if table.len() == 0 {
        None
    } else if hits(rule, text, table[0].process@) {
        Some(table[0].display@)
    } else {
        first_display(table.drop_first(), rule, text)
    }
}

/// The view of an optional string.
pub open spec fn text_of(name: Option<String>) -> Option<Seq<char>> {
    match name {
        Some(s) => Some(s@),
        None => None,
    }
}

/// Whether one of `candidates` ends with `process` (`exact` unset) or is
/// `process` (`exact` set).
fn some_candidate_hits(candidates: &Vec<Vec<char>>, process: &Vec<char>, exact: bool) -> (b: bool)
    ensures
        b == exists|i: int|
            0 <= i < candidates@.len() && if exact {
                (#[trigger] candidates@[i])@ == process@
            } else {
                ends_with(candidates@[i]@, process@)
            },
{
    let mut i: usize = 0;
    while i < candidates.len()
        invariant
            i <= candidates.len(),
            forall|j: int|
                0 <= j < i ==> !(if exact {
                    (#[trigger] candidates@[j])@ == process@
                } else {
                    ends_with(candidates@[j]@, process@)
                }),
        decreases candidates.len() - i,
    {
        let hit = if exact {
            same_text(&candidates[i], process)
        } else {
            has_suffix(&candidates[i], process)
        };
        if hit {
            return true;
        }
        i += 1;
    }
    false
}

/// What a line rule compares with the process names: each line of `text`,
/// reduced to its file name where `exact` is set, and trimmed.
fn line_candidates(text: &Vec<char>, exact: bool) -> (candidates: Vec<Vec<char>>)
    ensures
        candidates@.len() == lines_of(text@).len(),
        forall|i: int|
            0 <= i < candidates@.len() ==> (#[trigger] candidates@[i])@ == if exact {
                trimmed(basename(lines_of(text@)[i]))
            } else {
                trimmed(lines_of(text@)[i])
            },
{
    let lines = split_lines(text);
    let mut candidates: Vec<Vec<char>> = Vec::new();
    let mut i: usize = 0;
    while i < lines.len()
        invariant
            i <= lines.len(),
            candidates@.len() == i,
            lines@.len() == lines_of(text@).len(),
            forall|k: int| 0 <= k < lines@.len() ==> (#[trigger] lines@[k])@ == lines_of(text@)[k],
            forall|k: int|
                0 <= k < i ==> (#[trigger] candidates@[k])@ == if exact {
                    trimmed(basename(lines_of(text@)[k]))
                } else {
                    trimmed(lines_of(text@)[k])
                },
        decreases lines.len() - i,
    {
        let candidate = if exact {
            let name = file_name(&lines[i]);
            trim(&name)
        } else {
            trim(&lines[i])
        };
        candidates.push(candidate);
        i += 1;
    }
    candidates
}

/// Looks each row of `table` up in `text` and reports the first editor found.
pub fn find_ide(table: &Vec<IdeEntry>, rule: MatchRule, text: &str) -> (found: Option<String>)
    ensures
        text_of(found) == first_display(table@, rule, text@),
{
    let chars = to_chars(text);
    find_ide_in(table, rule, &chars)
}

/// Looks each row of `table` up in `text` and reports the first editor found.
pub fn find_ide_in(table: &Vec<IdeEntry>, rule: MatchRule, text: &Vec<char>) -> (found: Option<
    String,
>)
    ensures
        text_of(found) == first_display(table@, rule, text@),
{
    let exact = match rule {
        MatchRule::LineBasename => true,
        _ => false,
    };
    let candidates = match rule {
        MatchRule::Substring => Vec::new(),
        _ => line_candidates(text, exact),
    };
    let mut i: usize = 0;
    assert(table@.skip(0) == table@);
    while i < table.len()
        invariant
            i <= table.len(),
            exact == (rule == MatchRule::LineBasename),
            rule != MatchRule::Substring ==> candidates@.len() == lines_of(text@).len(),
            rule != MatchRule::Substring ==> forall|k: int|
                0 <= k < candidates@.len() ==> (#[trigger] candidates@[k])@ == if exact {
                    trimmed(basename(lines_of(text@)[k]))
                } else {
                    trimmed(lines_of(text@)[k])
                },
            first_display(table@, rule, text@) == first_display(table@.skip(i as int), rule, text@),
        decreases table.len() - i,
    {
        let process = to_chars(table[i].process);
        let hit = match rule {
            MatchRule::Substring => contains(text, &process),
            _ => some_candidate_hits(&candidates, &process, exact),
        };
        proof {
            assert(table@.skip(i as int)[0] == table@[i as int]);
            assert(table@.skip(i as int).drop_first() == table@.skip(i + 1));
            if rule != MatchRule::Substring {
                if hit {
                    let k = choose|k: int|
                        0 <= k < candidates@.len() && if exact {
                            (#[trigger] candidates@[k])@ == process@
                        } else {
                            ends_with(candidates@[k]@, process@)
                        };
                    assert(candidates@[k]@ == if exact {
                        trimmed(basename(lines_of(text@)[k]))
                    } else {
                        trimmed(lines_of(text@)[k])
                    });
                } else {
                    assert forall|k: int| 0 <= k < lines_of(text@).len() implies !(if exact {
                        trimmed(basename(#[trigger] lines_of(text@)[k])) == process@
                    } else {
                        ends_with(trimmed(lines_of(text@)[k]), process@)
                    }) by {
                        assert(candidates@[k]@ == if exact {
                            trimmed(basename(lines_of(text@)[k]))
                        } else {
                            trimmed(lines_of(text@)[k])
                        });
                    }
                }
            }
            assert(hit == hits(rule, text@, table@[i as int].process@));
        }
        if hit {
            return Some(String::from_str(table[i].display));
        }
        i += 1;
    }
    None
}

/// The editors that are recognised by process name on macOS and on other
/// Unix systems. Where two rows are found, the earlier one wins.
pub open spec fn ide_table() -> Seq<IdeEntry> {
    seq![
        IdeEntry { process: "Electron", display: "VS Code" },
        IdeEntry { process: "Code Helper", display: "VS Code" },
        IdeEntry { process: "code", display: "VS Code" },
        IdeEntry { process: "Code", display: "VS Code" },
        IdeEntry { process: "Code - Insiders", display: "VS Code Insiders" },
        IdeEntry { process: "idea", display: "IntelliJ IDEA" },
        IdeEntry { process: "IntelliJ IDEA", display: "IntelliJ IDEA" },
        IdeEntry { process: "webstorm", display: "WebStorm" },
        IdeEntry { process: "WebStorm", display: "WebStorm" },
        IdeEntry { process: "pycharm", display: "PyCharm" },
        IdeEntry { process: "PyCharm", display: "PyCharm" },
        IdeEntry { process: "goland", display: "GoLand" },
        IdeEntry { process: "GoLand", display: "GoLand" },
        IdeEntry { process: "clion", display: "CLion" },
        IdeEntry { process: "CLion", display: "CLion" },
        IdeEntry { process: "RustRover", display: "RustRover" },
        IdeEntry { process: "rustrover", display: "RustRover" },
        IdeEntry { process: "Xcode", display: "Xcode" },
        IdeEntry { process: "Cursor", display: "Cursor" },
        IdeEntry { process: "cursor", display: "Cursor" },
        IdeEntry { process: "Windsurf", display: "Windsurf" },
        IdeEntry { process: "zed", display: "Zed" },
        IdeEntry { process: "Zed", display: "Zed" },
    ]
}

/// The editors that are recognised by image name on Windows.
pub open spec fn windows_ide_table() -> Seq<IdeEntry> {
    seq![
        IdeEntry { process: "Code.exe", display: "VS Code" },
        IdeEntry { process: "devenv.exe", display: "Visual Studio" },
        IdeEntry { process: "idea64.exe", display: "IntelliJ IDEA" },
        IdeEntry { process: "webstorm64.exe", display: "WebStorm" },
        IdeEntry { process: "pycharm64.exe", display: "PyCharm" },
        IdeEntry { process: "goland64.exe", display: "GoLand" },
        IdeEntry { process: "clion64.exe", display: "CLion" },
        IdeEntry { process: "rustrover64.exe", display: "RustRover" },
        IdeEntry { process: "Cursor.exe", display: "Cursor" },
    ]
}

/// The editor table of macOS and other Unix systems.
pub fn ide_processes() -> (table: Vec<IdeEntry>)
    ensures
        table@ == ide_table(),
{
    let table = vec![
        IdeEntry { process: "Electron", display: "VS Code" },
        IdeEntry { process: "Code Helper", display: "VS Code" },
        IdeEntry { process: "code", display: "VS Code" },
        IdeEntry { process: "Code", display: "VS Code" },
        IdeEntry { process: "Code - Insiders", display: "VS Code Insiders" },
        IdeEntry { process: "idea", display: "IntelliJ IDEA" },
        IdeEntry { process: "IntelliJ IDEA", display: "IntelliJ IDEA" },
        IdeEntry { process: "webstorm", display: "WebStorm" },
        IdeEntry { process: "WebStorm", display: "WebStorm" },
        IdeEntry { process: "pycharm", display: "PyCharm" },
        IdeEntry { process: "PyCharm", display: "PyCharm" },
        IdeEntry { process: "goland", display: "GoLand" },
        IdeEntry { process: "GoLand", display: "GoLand" },
        IdeEntry { process: "clion", display: "CLion" },
        IdeEntry { process: "CLion", display: "CLion" },
        IdeEntry { process: "RustRover", display: "RustRover" },
        IdeEntry { process: "rustrover", display: "RustRover" },
        IdeEntry { process: "Xcode", display: "Xcode" },
        IdeEntry { process: "Cursor", display: "Cursor" },
        IdeEntry { process: "cursor", display: "Cursor" },
        IdeEntry { process: "Windsurf", display: "Windsurf" },
        IdeEntry { process: "zed", display: "Zed" },
        IdeEntry { process: "Zed", display: "Zed" },
    ];
    assert(table@ =~= ide_table());
    table
}

/// The editor table of Windows.
pub fn windows_ide_processes() -> (table: Vec<IdeEntry>)
    ensures
        table@ == windows_ide_table(),
{
    let table = vec![
        IdeEntry { process: "Code.exe", display: "VS Code" },
        IdeEntry { process: "devenv.exe", display: "Visual Studio" },
        IdeEntry { process: "idea64.exe", display: "IntelliJ IDEA" },
        IdeEntry { process: "webstorm64.exe", display: "WebStorm" },
        IdeEntry { process: "pycharm64.exe", display: "PyCharm" },
        IdeEntry { process: "goland64.exe", display: "GoLand" },
        IdeEntry { process: "clion64.exe", display: "CLion" },
        IdeEntry { process: "rustrover64.exe", display: "RustRover" },
        IdeEntry { process: "Cursor.exe", display: "Cursor" },
    ];
    assert(table@ =~= windows_ide_table());
    table
}

/// The system on which the process information was gathered.
#[derive(Debug, Clone, Copy, PartialEq, Eq, Structural)]
pub enum Platform {
    MacOs,
    Windows,
    Unix,
}

/// What the process listing of a Unix system shows: the first editor of the
/// table that some line of the listing, trimmed, ends with.
pub open spec fn unix_ide(listing: Seq<char>) -> Option<Seq<char>> {
    first_display(ide_table(), MatchRule::LineSuffix, listing)
}

/// What the task list of a Windows system shows: the first editor of the
/// Windows table whose image name occurs in it.
pub open spec fn windows_ide(listing: Seq<char>) -> Option<Seq<char>> {
    first_display(windows_ide_table(), MatchRule::Substring, listing)
}

/// What macOS shows: the first editor whose process name occurs in the
/// trimmed name of the frontmost application; failing that, the first editor
/// whose process name is the file name of some line of the process listing.
/// A query that failed contributes nothing.
pub open spec fn macos_ide(frontmost: Option<Seq<char>>, listing: Option<Seq<char>>) -> Option<
    Seq<char>,
> {
    let in_front = match frontmost {
        Some(name) => first_display(ide_table(), MatchRule::Substring, trimmed(name)),
        None => None,
    };
    match in_front {
        Some(display) => Some(display),
        None => match listing {
            Some(text) => first_display(ide_table(), MatchRule::LineBasename, text),
            None => None,
        },
    }
}

/// The editor that the gathered process information shows, if any.
pub open spec fn running_ide(
    platform: Platform,
    frontmost: Option<Seq<char>>,
    listing: Option<Seq<char>>,
) -> Option<Seq<char>> {
    match platform {
        Platform::MacOs => macos_ide(frontmost, listing),
        Platform::Windows => match listing {
            Some(text) => windows_ide(text),
            None => None,
        },
        Platform::Unix => match listing {
            Some(text) => unix_ide(text),
            None => None,
        },
    }
}

/// The view of an optional string slice.
pub open spec fn slice_text_of(text: Option<&str>) -> Option<Seq<char>> {
    match text {
        Some(s) => Some(s@),
        None => None,
    }
}

/// Recognises an editor from the name of the frontmost application and from
/// the output of `ps -A -o comm=`. Either may be missing.
pub fn detect_running_ide_macos(frontmost: Option<&str>, listing: Option<&str>) -> (found: Option<
    String,
>)
    ensures
        text_of(found) == macos_ide(slice_text_of(frontmost), slice_text_of(listing)),
{
    let table = ide_processes();
    if let Some(name) = frontmost {
        let chars = to_chars(name);
        let app_name = trim(&chars);
        let in_front = find_ide_in(&table, MatchRule::Substring, &app_name);
        if in_front.is_some() {
            return in_front;
        }
    }
    match listing {
        Some(text) => find_ide(&table, MatchRule::LineBasename, text),
        None => None,
    }
}

/// Recognises an editor from the output of `tasklist /FO CSV /NH`.
pub fn detect_running_ide_windows(listing: &str) -> (found: Option<String>)
    ensures
        text_of(found) == windows_ide(listing@),
{
    let table = windows_ide_processes();
    find_ide(&table, MatchRule::Substring, listing)
}

/// Recognises an editor from the output of `ps -A -o comm=`.
pub fn detect_running_ide_unix(listing: &str) -> (found: Option<String>)
    ensures
        text_of(found) == unix_ide(listing@),
{
    let table = ide_processes();
    find_ide(&table, MatchRule::LineSuffix, listing)
}

/// Recognises the running editor from what the system reported. A query that
/// failed is handed over as `None` and counts as no editor found by it.
pub fn detect_running_ide(
    platform: Platform,
    frontmost: Option<&str>,
    listing: Option<&str>,
) -> (found: Option<String>)
    ensures
        text_of(found) == running_ide(platform, slice_text_of(frontmost), slice_text_of(listing)),
{
    match platform {
        Platform::MacOs => detect_running_ide_macos(frontmost, listing),
        Platform::Windows => match listing {
            Some(text) => detect_running_ide_windows(text),
            None => None,
        },
        Platform::Unix => match listing {
            Some(text) => detect_running_ide_unix(text),
            None => None,
        },
    }
}

/// What the presentation layer is told about the activity at each cycle.
#[derive(Debug, Clone)]
pub struct ActivityStatus {
    pub is_ide_running: bool,
    pub active_ide: Option<String>,
    pub idle_seconds: u64,
}

/// The outcome of one look at the running processes.
#[derive(Debug, Clone)]
pub struct ActivitySample {
    /// Display name of the editor that was recognised, if one was.
    pub recognized_ide: Option<String>,
    /// Reading of the caller's clock, in seconds, at which the look was taken.
    pub sampled_at: u64,
}

/// Takes one sample from what the system reported at clock reading `now`.
/// With editor detection switched off no editor is ever recognised.
pub fn sample(
    platform: Platform,
    frontmost: Option<&str>,
    listing: Option<&str>,
    now: u64,
    ide_detection: bool,
) -> (taken: ActivitySample)
    ensures
        taken.sampled_at == now,
        text_of(taken.recognized_ide) == if ide_detection {
            running_ide(platform, slice_text_of(frontmost), slice_text_of(listing))
        } else {
            None
        },
{
    let recognized_ide = if ide_detection {
        detect_running_ide(platform, frontmost, listing)
    } else {
        None
    };
    ActivitySample { recognized_ide, sampled_at: now }
}

/// A message for the presentation layer that one cycle gave rise to.
#[derive(Debug, Clone, Copy, PartialEq, Eq, Structural)]
pub enum Notice {
    /// An editor is running that was not running at the cycle before.
    IdeDetected,
    /// No editor is running any more.
    IdeClosed,
    /// No editor was seen for this many seconds: the coding threshold passed.
    Idle(u64),
    /// No editor was seen for this many seconds: the sleeping threshold passed.
    Sleeping(u64),
    /// An editor is running at this hour of the night.
    LateNightCoding(u32),
}

impl Notice {
    /// The name under which the message goes out.
    pub open spec fn name(self) -> &'static str {
        match self {
            Notice::IdeDetected => ACTIVITY_IDE_DETECTED,
            Notice::IdeClosed => ACTIVITY_IDE_CLOSED,
            Notice::Idle(_) => ACTIVITY_IDLE,
            Notice::Sleeping(_) => ACTIVITY_SLEEPING,
            Notice::LateNightCoding(_) => ACTIVITY_LATE_NIGHT_CODING,
        }
    }

    /// The name under which the message goes out.
    pub fn event_name(&self) -> (name: &'static str)
        ensures
            name == self.name(),
    {
        match self {
            Notice::IdeDetected => ACTIVITY_IDE_DETECTED,
            Notice::IdeClosed => ACTIVITY_IDE_CLOSED,
            Notice::Idle(_) => ACTIVITY_IDLE,
            Notice::Sleeping(_) => ACTIVITY_SLEEPING,
            Notice::LateNightCoding(_) => ACTIVITY_LATE_NIGHT_CODING,
        }
    }
}

/// The mathematical content of a [`Sampler`].
pub struct SamplerView {
    /// Clock reading of the last sample that recognised an editor.
    pub last_active_at: u64,
    /// The coding threshold was reported since the last activity.
    pub idle_emitted: bool,
    /// The sleeping threshold was reported since the last activity.
    pub sleep_emitted: bool,
    /// An editor was recognised at the cycle before.
    pub was_ide_running: bool,
}

impl SamplerView {
    /// Seconds since the last recognised activity; none on a clock that reads
    /// earlier than then.
    pub open spec fn idle_seconds(self, now: u64) -> u64 {
        if now >= self.last_active_at {
            (now - self.last_active_at) as u64
        } else {
            0
        }
    }

    /// The coding threshold is passed at `now` and was not reported yet.
    pub open spec fn idle_due(self, now: u64) -> bool {
        self.idle_seconds(now) >= CODING_TO_IDLE_SECS && !self.idle_emitted
    }

    /// The sleeping threshold is passed at `now` and was not reported yet.
    pub open spec fn sleep_due(self, now: u64) -> bool {
        self.idle_seconds(now) >= IDLE_TO_SLEEPING_SECS && !self.sleep_emitted
    }

    /// The idle events of a cycle that saw no editor: one for each threshold
    /// that is due, the coding threshold first.
    pub open spec fn timeouts(self, now: u64) -> Seq<StateEvent> {
        let event = StateEvent::IdleTimeout(self.idle_seconds(now));
        (if self.idle_due(now) {
            seq![event]
        } else {
            Seq::empty()
        }) + (if self.sleep_due(now) {
            seq![event]
        } else {
            Seq::empty()
        })
    }

    /// The events of one cycle. `was_seen` and `seen` say whether the sample
    /// before and this sample recognised an editor.
    pub open spec fn derived(self, was_seen: bool, seen: bool, now: u64, enabled: bool) -> Seq<
        StateEvent,
    > {
        if !enabled {
            Seq::empty()
        } else if seen {
            if was_seen {
                Seq::empty()
            } else {
                seq![StateEvent::ActivityDetected]
            }
        } else {
            self.timeouts(now)
        }
    }

    /// The sampler after one cycle. Activity restarts the idle clock and
    /// clears both one-shot flags; a cycle without activity sets the flag of
    /// each threshold that was reported. With tracking switched off only the
    /// memory of the last sample moves on.
    pub open spec fn advance(self, seen: bool, at: u64, now: u64, enabled: bool) -> SamplerView {
        if !enabled {
            SamplerView { was_ide_running: seen, ..self }
        } else if seen {
            SamplerView {
                last_active_at: at,
                idle_emitted: false,
                sleep_emitted: false,
                was_ide_running: true,
            }
        } else {
            SamplerView {
                last_active_at: self.last_active_at,
                idle_emitted: self.idle_emitted || self.idle_due(now),
                sleep_emitted: self.sleep_emitted || self.sleep_due(now),
                was_ide_running: false,
            }
        }
    }

    /// The messages of one cycle, in the order in which they are sent.
    pub open spec fn notices(
        self,
        seen: bool,
        now: u64,
        hour: u32,
        night_start: u32,
        night_end: u32,
        enabled: bool,
    ) -> Seq<Notice> {
        (if seen && !self.was_ide_running {
            seq![Notice::IdeDetected]
        } else if !seen && self.was_ide_running {
            seq![Notice::IdeClosed]
        } else {
            Seq::empty()
        }) + (if enabled && !seen && self.idle_due(now) {
            seq![Notice::Idle(self.idle_seconds(now))]
        } else {
            Seq::empty()
        }) + (if enabled && !seen && self.sleep_due(now) {
            seq![Notice::Sleeping(self.idle_seconds(now))]
        } else {
            Seq::empty()
        }) + (if seen && in_night_window(hour, night_start, night_end) {
            seq![Notice::LateNightCoding(hour)]
        } else {
            Seq::empty()
        })
    }
}

/// Everything that one cycle of the sampler decided.
#[derive(Debug, Clone)]
pub struct TickReport {
    /// The sample of this cycle.
    pub sample: ActivitySample,
    /// Events for the state machine, in the order in which to consume them.
    pub events: Vec<StateEvent>,
    /// Messages for the presentation layer, in the order in which to send them.
    pub notices: Vec<Notice>,
    /// The status message that closes every cycle.
    pub status: ActivityStatus,
    /// Whether the cycle fell into the night window.
    pub is_night: bool,
}

/// The state that the sampler carries from one cycle to the next: when an
/// editor was last seen, and which idle thresholds were already reported
/// since.
pub struct Sampler {
    last_active_at: u64,
    idle_emitted: bool,
    sleep_emitted: bool,
    was_ide_running: bool,
}

impl View for Sampler {
    type V = SamplerView;

    closed spec fn view(&self) -> SamplerView {
        SamplerView {
            last_active_at: self.last_active_at,
            idle_emitted: self.idle_emitted,
            sleep_emitted: self.sleep_emitted,
            was_ide_running: self.was_ide_running,
        }
    }
}

impl Sampler {
    /// A sampler that starts its idle clock at `now` and has seen no editor.
    pub fn new(now: u64) -> (sampler: Sampler)
        ensures
            sampler@ == (SamplerView {
                last_active_at: now,
                idle_emitted: false,
                sleep_emitted: false,
                was_ide_running: false,
            }),
    {
        Sampler {
            last_active_at: now,
            idle_emitted: false,
            sleep_emitted: false,
            was_ide_running: false,
        }
    }

    /// Seconds since an editor was last seen, at clock reading `now`.
    pub fn idle_seconds(&self, now: u64) -> (secs: u64)
        ensures
            secs == self@.idle_seconds(now),
    {
        if now >= self.last_active_at {
            now - self.last_active_at
        } else {
            0
        }
    }

    fn step(&mut self, was_seen: bool, seen: bool, at: u64, now: u64, enabled: bool) -> (events:
        Vec<StateEvent>)
        ensures
            events@ == old(self)@.derived(was_seen, seen, now, enabled),
            final(self)@ == old(self)@.advance(seen, at, now, enabled),
    {
        let mut events: Vec<StateEvent> = Vec::new();
        self.was_ide_running = seen;
        if !enabled {
            return events;
        }
        if seen {
            self.last_active_at = at;
            self.idle_emitted = false;
            self.sleep_emitted = false;
            if !was_seen {
                events.push(StateEvent::ActivityDetected);
            }
            assert(events@ =~= old(self)@.derived(was_seen, seen, now, enabled));
            return events;
        }
        let idle: u64 = self.idle_seconds(now);
        if idle >= CODING_TO_IDLE_SECS && !self.idle_emitted {
            events.push(StateEvent::IdleTimeout(idle));
            self.idle_emitted = true;
        }
        if idle >= IDLE_TO_SLEEPING_SECS && !self.sleep_emitted {
            events.push(StateEvent::IdleTimeout(idle));
            self.sleep_emitted = true;
        }
        assert(events@ =~= old(self)@.derived(was_seen, seen, now, enabled));
        events
    }

    /// Turns two consecutive samples into events for the state machine.
    ///
    /// An editor that appears where the sample before had none gives
    /// `ActivityDetected`. A sample without an editor gives one
    /// `IdleTimeout`, carrying the seconds since the last activity, for each
    /// idle threshold that those seconds have reached and that was not
    /// reported since the last activity. With `enabled` unset no event is
    /// derived.
    pub fn derive_events(
        &mut self,
        previous: &ActivitySample,
        current: &ActivitySample,
        now: u64,
        enabled: bool,
    ) -> (events: Vec<StateEvent>)
        ensures
            events@ == old(self)@.derived(
                previous.recognized_ide is Some,
                current.recognized_ide is Some,
                now,
                enabled,
            ),
            final(self)@ == old(self)@.advance(
                current.recognized_ide is Some,
                current.sampled_at,
                now,
                enabled,
            ),
    {
        self.step(
            previous.recognized_ide.is_some(),
            current.recognized_ide.is_some(),
            current.sampled_at,
            now,
            enabled,
        )
    }

    /// Runs one cycle on what the process query found at clock reading `now`
    /// and local hour `hour`: the events for the state machine, the messages
    /// for the presentation layer and the closing status. The settings decide
    /// whether editors are looked at, whether events are derived, and where
    /// the night begins and ends.
    pub fn tick(&mut self, detected: Option<String>, now: u64, hour: u32, settings: &AppSettings) -> (report:
        TickReport)
        ensures
            ({
                let seen = settings.ide_detection && detected is Some;
                let before = old(self)@;
                let enabled = settings.activity_tracking;
                &&& final(self)@ == before.advance(seen, now, now, enabled)
                &&& report.events@ == before.derived(before.was_ide_running, seen, now, enabled)
                &&& report.notices@ == before.notices(
                    seen,
                    now,
                    hour,
                    settings.night_hour_start,
                    settings.night_hour_end,
                    enabled,
                )
                &&& report.is_night == in_night_window(
                    hour,
                    settings.night_hour_start,
                    settings.night_hour_end,
                )
                &&& report.sample.sampled_at == now
                &&& text_of(report.sample.recognized_ide) == if seen {
                    text_of(detected)
                } else {
                    None
                }
                &&& report.status.is_ide_running == seen
                &&& text_of(report.status.active_ide) == text_of(report.sample.recognized_ide)
                &&& report.status.idle_seconds == final(self)@.idle_seconds(now)
            }),
    {
        let ghost before = self@;
        let recognized_ide: Option<String> = if settings.ide_detection {
            detected
        } else {
            None
        };
        let seen = recognized_ide.is_some();
        let enabled = settings.activity_tracking;
        let was_seen = self.was_ide_running;
        let idle_before: u64 = self.idle_seconds(now);
        let idle_due = idle_before >= CODING_TO_IDLE_SECS && !self.idle_emitted;
        let sleep_due = idle_before >= IDLE_TO_SLEEPING_SECS && !self.sleep_emitted;
        let is_night = is_night_hour(hour, settings.night_hour_start, settings.night_hour_end);

        let events = self.step(was_seen, seen, now, now, enabled);

        let mut notices: Vec<Notice> = Vec::new();
        if seen && !was_seen {
            notices.push(Notice::IdeDetected);
        } else if !seen && was_seen {
            notices.push(Notice::IdeClosed);
        }
        if enabled && !seen && idle_due {
            notices.push(Notice::Idle(idle_before));
        }
        if enabled && !seen && sleep_due {
            notices.push(Notice::Sleeping(idle_before));
        }
        if seen && is_night {
            notices.push(Notice::LateNightCoding(hour));
        }
        assert(notices@ =~= before.notices(
            seen,
            now,
            hour,
            settings.night_hour_start,
            settings.night_hour_end,
            enabled,
        ));
        let active_ide = match &recognized_ide {
            Some(name) => Some(name.clone()),
            None => None,
        };
        let status = ActivityStatus {
            is_ide_running: seen,
            active_ide,
            idle_seconds: self.idle_seconds(now),
        };
        TickReport {
            sample: ActivitySample { recognized_ide, sampled_at: now },
            events,
            notices,
            status,
            is_night,
        }
    }
}

/// An idle threshold is reported once. After a cycle without an editor at
/// which the seconds since the last activity have reached the sleeping
/// threshold, every further cycle without an editor derives no event and
/// sends no idle or sleeping message, however much later it comes.
pub proof fn lemma_idle_timeout_fires_once(
    sampler: SamplerView,
    at: u64,
    now: u64,
    later_at: u64,
    later: u64,
    was_seen: bool,
    hour: u32,
    night_start: u32,
    night_end: u32,
)
    requires
        sampler.idle_seconds(now) >= IDLE_TO_SLEEPING_SECS,
    ensures
        ({
            let after = sampler.advance(false, at, now, true);
            &&& after.idle_emitted && after.sleep_emitted
            &&& after.derived(was_seen, false, later, true) == Seq::<StateEvent>::empty()
            &&& after.notices(false, later, hour, night_start, night_end, true) == Seq::<
                Notice,
            >::empty()
            &&& after.advance(false, later_at, later, true) == after
        }),
{
    let after = sampler.advance(false, at, now, true);
    assert(after.derived(was_seen, false, later, true) =~= Seq::<StateEvent>::empty());
    assert(after.notices(false, later, hour, night_start, night_end, true) =~= Seq::<
        Notice,
    >::empty());
}

/// Each threshold is reported when it is first reached: a cycle without an
/// editor derives an idle event exactly when a threshold is reached whose
/// flag is not set, and activity clears both flags.
pub proof fn lemma_idle_events_are_edge_triggered(sampler: SamplerView, at: u64, now: u64)
    ensures
        sampler.derived(false, false, now, true).len() == (if sampler.idle_due(now) {
            1int
        } else {
            0int
        }) + (if sampler.sleep_due(now) {
            1int
        } else {
            0int
        }),
        !sampler.advance(false, at, now, true).idle_due(now),
        !sampler.advance(false, at, now, true).sleep_due(now),
        !sampler.advance(true, at, now, true).idle_emitted,
        !sampler.advance(true, at, now, true).sleep_emitted,
{
}

} // verus!
