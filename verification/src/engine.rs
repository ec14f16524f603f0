use vstd::prelude::*;
use std::collections::VecDeque;
use crate::library::{Library, LockChange, improves, upgraded, toggled};
use crate::stats::{LibraryStats, stats_of};
use crate::status::{SongStatus, LrcFile, needs_search, spec_needs_search};
use crate::text::{push_two_digits, two_digits};

verus! {

/// The number of log lines that the engine keeps.
pub const LOG_CAPACITY: usize = 64;

/// The number of seconds between two quick checks for new music files.
pub const QUICK_SCAN_SECS: u64 = 240;

/// A command sent to the engine from the dashboard. (A timestamp offset for a
/// lyrics file is a command too; its offset is a float, which this library
/// leaves to the caller.)
#[derive(Debug)]
pub enum EngineCommand {
    Workdir(String),
    Interval(i32),
    Active(bool),
    Nuke(bool),
    SaveTrig(bool),
    EnableSynced(bool),
    EnablePlain(bool),
    ToggleLock(String),
}

/// The state of the lyrics engine: its settings, the pending requests of the
/// dashboard, the library with its counters, the log and the latest toast.
pub struct EngineState {
    /// The directory of the music library.
    pub workdir: String,
    /// Minutes between two full searches; 0 turns them off.
    pub interval: i32,
    /// Whether lyrics are searched for and downloaded at all.
    pub active: bool,
    /// A full search was asked for.
    pub nuke: bool,
    /// Whether synced lyrics are downloaded.
    pub enable_synced: bool,
    /// Whether plain lyrics are downloaded as a fallback.
    pub enable_plain: bool,
    /// Saving the settings was asked for.
    pub save_trig: bool,
    /// A song whose lock is to be toggled.
    pub toggle_lock: Option<String>,
    /// The dashboard's counters.
    pub stats: LibraryStats,
    /// The songs and their statuses.
    pub library: Library,
    /// The latest log lines, oldest first.
    pub logs: VecDeque<String>,
    /// The number of toasts raised so far.
    pub toast_counter: usize,
    /// The level and message of the latest toast.
    pub latest_toast: Option<(u8, String)>,
    /// Whether a scan holds the scanner.
    pub is_api_running: bool,
}

/// What one round of the engine loop is to do.
#[derive(Debug)]
pub struct TickPlan {
    /// Run a full scan and search (the scanner was claimed for it).
    pub full_scan: bool,
    /// Run a quick check for new files (the scanner was claimed for it).
    pub quick_scan: bool,
    /// Save the state.
    pub save: bool,
    /// Toggle the lock of this song.
    pub toggle_lock: Option<String>,
    /// The directory to scan.
    pub workdir: String,
}

/// Whether the interval since the last full search has run out.
pub open spec fn spec_interval_due(interval: i32, minutes_since_scan: i64) -> bool {
    interval > 0 && minutes_since_scan > interval as i64
}

/// The log after a line is added: the line goes at the end, and the oldest
/// line goes once there are more than `LOG_CAPACITY`.
pub open spec fn logged(logs: Seq<String>, line: String) -> Seq<String> {
    if logs.len() + 1 > LOG_CAPACITY {
        logs.push(line).drop_first()
    } else {
        logs.push(line)
    }
}

/// A log line: the time of day, `UTC` and the message, as
/// `HH:MM:SS UTC | message`.
pub open spec fn log_line(hour: nat, minute: nat, second: nat, msg: Seq<char>) -> Seq<char> {
    two_digits(hour) + seq![':'] + two_digits(minute) + seq![':'] + two_digits(second)
        + " UTC | "@ + msg
}

/// Writes a log line: the time of day, `UTC` and the message.
pub fn format_log_line(hour: u32, minute: u32, second: u32, msg: &str) -> (r: String)
    ensures
        r@ == log_line(hour as nat, minute as nat, second as nat, msg@),
{
    let colon = ":";
    let utc = " UTC | ";
    proof {
        reveal_strlit(":");
        reveal_strlit(" UTC | ");
    }
    let mut r = String::new();
    push_two_digits(&mut r, hour);
    r.append(colon);
    push_two_digits(&mut r, minute);
    r.append(colon);
    push_two_digits(&mut r, second);
    r.append(utc);
    r.append(msg);
    assert(r@ =~= log_line(hour as nat, minute as nat, second as nat, msg@));
    r
}

impl EngineState {
    /// The state of a fresh installation: the library at `/music`, a full
    /// search every 60 minutes, the engine inactive, synced and plain lyrics
    /// both wanted, nothing pending, an empty library, log and toast.
    pub fn new() -> (r: Self)
        ensures
            r.workdir@ == "/music"@,
            r.interval == 60,
            !r.active,
            !r.nuke,
            r.enable_synced,
            r.enable_plain,
            !r.save_trig,
            r.toggle_lock is None,
            r.stats == stats_of(Map::<Seq<char>, SongStatus>::empty()),
            r.library@ == Map::<Seq<char>, SongStatus>::empty(),
            r.logs@ == Seq::<String>::empty(),
            r.toast_counter == 0,
            r.latest_toast is None,
            !r.is_api_running,
    {
        EngineState {
            workdir: String::from_str("/music"),
            interval: 60,
            active: false,
            nuke: false,
            enable_synced: true,
            enable_plain: true,
            save_trig: false,
            toggle_lock: None,
            stats: LibraryStats::zero(),
            library: Library::new(),
            logs: VecDeque::new(),
            toast_counter: 0,
            latest_toast: None,
            is_api_running: false,
        }
    }

    /// Clears what a previous run may have left behind: no scan holds the
    /// scanner, no full search is pending, no toast has been raised.
    pub fn reset_on_startup(&mut self)
        ensures
            *final(self) == (EngineState {
                is_api_running: false,
                nuke: false,
                toast_counter: 0,
                ..*old(self)
            }),
    {
        self.is_api_running = false;
        self.nuke = false;
        self.toast_counter = 0;
    }

    /// The state once a command of the dashboard is applied.
    pub open spec fn commanded(self, cmd: EngineCommand) -> Self {
        match cmd {
            EngineCommand::Workdir(v) => EngineState { workdir: v, ..self },
            EngineCommand::Interval(v) => EngineState {
                interval: if v > 0 {
                    v
                } else {
                    0
                },
                ..self
            },
            EngineCommand::Active(v) => EngineState { active: v, ..self },
            EngineCommand::Nuke(v) => EngineState { nuke: v, ..self },
            EngineCommand::SaveTrig(v) => EngineState { save_trig: v, ..self },
            EngineCommand::EnableSynced(v) => EngineState { enable_synced: v, ..self },
            EngineCommand::EnablePlain(v) => EngineState { enable_plain: v, ..self },
            EngineCommand::ToggleLock(v) => EngineState { toggle_lock: Some(v), ..self },
        }
    }

    /// Applies a command of the dashboard: sets the setting or the request
    /// that it names (a negative interval counts as 0).
    pub fn apply_command(&mut self, cmd: EngineCommand)
        ensures
            *final(self) == old(self).commanded(cmd),
            (cmd matches EngineCommand::Active(v) ==> final(self).active == v),
            (cmd matches EngineCommand::Nuke(v) ==> final(self).nuke == v),
            (cmd matches EngineCommand::EnableSynced(v) ==> final(self).enable_synced == v),
            (cmd matches EngineCommand::EnablePlain(v) ==> final(self).enable_plain == v),
            (cmd matches EngineCommand::SaveTrig(v) ==> final(self).save_trig == v),
    {
        match cmd {
            EngineCommand::Workdir(v) => self.workdir = v,
            EngineCommand::Interval(v) => self.interval = if v > 0 {
                v
            } else {
                0
            },
            EngineCommand::Active(v) => self.active = v,
            EngineCommand::Nuke(v) => self.nuke = v,
            EngineCommand::SaveTrig(v) => self.save_trig = v,
            EngineCommand::EnableSynced(v) => self.enable_synced = v,
            EngineCommand::EnablePlain(v) => self.enable_plain = v,
            EngineCommand::ToggleLock(v) => self.toggle_lock = Some(v),
        }
    }

    /// The outcome of a claim of the scanner: whether it succeeded, and the
    /// state after it.
    pub open spec fn claim(self) -> (bool, Self) {
        (!self.is_api_running, EngineState { is_api_running: true, ..self })
    }

    /// The state once the scanner is given back.
    pub open spec fn released(self) -> Self {
        EngineState { is_api_running: false, ..self }
    }

    /// Claims the scanner for a scan: succeeds, and marks it held, only if
    /// no scan holds it.
    pub fn try_claim(&mut self) -> (claimed: bool)
        ensures
            (claimed, *final(self)) == old(self).claim(),
    {
        if !self.is_api_running {
            self.is_api_running = true;
            true
        } else {
            false
        }
    }

    /// Gives the scanner back.
    pub fn release(&mut self)
        ensures
            *final(self) == old(self).released(),
    {
        self.is_api_running = false;
    }

    /// Adds a line to the log, dropping the oldest line beyond
    /// `LOG_CAPACITY`; a message of a level above 0 also raises a toast.
    pub fn record_log(&mut self, level: u8, line: String, msg: String)
        requires
            level > 0 ==> old(self).toast_counter < usize::MAX,
        ensures
            final(self).logs@ == logged(old(self).logs@, line),
            level > 0 ==> final(self).toast_counter == old(self).toast_counter + 1
                && final(self).latest_toast == Some((level, msg)),
            level == 0 ==> final(self).toast_counter == old(self).toast_counter
                && final(self).latest_toast == old(self).latest_toast,
            *final(self) == (EngineState {
                logs: final(self).logs,
                toast_counter: final(self).toast_counter,
                latest_toast: final(self).latest_toast,
                ..*old(self)
            }),
    {
        self.logs.push_back(line);
        if self.logs.len() > LOG_CAPACITY {
            self.logs.pop_front();
            assert(self.logs@ =~= old(self).logs@.push(line).drop_first());
        }
        if level > 0 {
            self.toast_counter = self.toast_counter + 1;
            self.latest_toast = Some((level, msg));
        }
    }

    /// Starts one round of the engine loop, given the minutes since the last
    /// full search and the seconds since the last quick check. Takes the
    /// pending save and lock requests; runs a full search when one was asked
    /// for or the interval has run out, else a quick check when it is due,
    /// each only if the scanner can be claimed. A claimed full search clears
    /// the request for it.
    pub fn begin_tick(&mut self, minutes_since_scan: i64, secs_since_quick: u64) -> (plan:
        TickPlan)
        ensures
            ({
                let should_search = old(self).nuke || spec_interval_due(
                    old(self).interval,
                    minutes_since_scan,
                );
                let free = !old(self).is_api_running;
                &&& plan.full_scan == (should_search && free)
                &&& plan.quick_scan == (!should_search && secs_since_quick >= QUICK_SCAN_SECS
                    && free)
                &&& plan.save == old(self).save_trig
                &&& plan.toggle_lock == old(self).toggle_lock
                &&& plan.workdir == old(self).workdir
                &&& *final(self) == (EngineState {
                    save_trig: false,
                    toggle_lock: None,
                    is_api_running: old(self).is_api_running || plan.full_scan
                        || plan.quick_scan,
                    nuke: old(self).nuke && !plan.full_scan,
                    ..*old(self)
                })
            }),
            old(self).interval > 0 && minutes_since_scan > old(self).interval
                && !old(self).is_api_running ==> plan.full_scan,
            old(self).nuke && !old(self).is_api_running ==> plan.full_scan,
    {
        let workdir = self.workdir.clone();
        let interval_due = self.interval > 0 && minutes_since_scan > self.interval as i64;
        let save = self.save_trig;
        if save {
            self.save_trig = false;
        }
        let nuke = self.nuke;
        let toggle_lock = self.toggle_lock.take();
        let should_search = nuke || interval_due;
        let mut full_scan = false;
        let mut quick_scan = false;
        if should_search && self.try_claim() {
            self.nuke = false;
            full_scan = true;
        }
        if !should_search && secs_since_quick >= QUICK_SCAN_SECS && self.try_claim() {
            quick_scan = true;
        }
        TickPlan { full_scan, quick_scan, save, toggle_lock, workdir }
    }

    /// Recounts the counters from the library.
    pub fn refresh_stats(&mut self)
        ensures
            *final(self) == (EngineState { stats: stats_of(old(self).library@), ..*old(self) }),
    {
        self.stats = self.library.stats();
    }

    /// Records the status that a search found for the song at `path`: a
    /// status that comes after the song's present one replaces it, and the
    /// counters move the song from the old status to the new one.
    pub fn apply_search_result(&mut self, path: &str, found: SongStatus) -> (replaced: Option<
        SongStatus,
    >)
        requires
            improves(old(self).library@, path@, found) ==> old(self).stats.can_move(
                old(self).library@[path@],
                found,
            ),
        ensures
            final(self).library@ == upgraded(old(self).library@, path@, found),
            improves(old(self).library@, path@, found) ==> replaced == Some(
                old(self).library@[path@],
            ) && *final(self) == (EngineState {
                library: final(self).library,
                stats: old(self).stats.moved(old(self).library@[path@], found),
                ..*old(self)
            }),
            !improves(old(self).library@, path@, found) ==> replaced is None && *final(self)
                == *old(self),
    {
        let replaced = self.library.upgrade(path, found);
        if let Some(previous) = replaced {
            self.stats.move_song(previous, found);
        }
        replaced
    }

    /// Whether lyrics are to be fetched for the song at `path`: the library
    /// holds it and its status still calls for a search (never for a locked
    /// or synced song).
    pub fn should_fetch(&self, path: &str) -> (r: bool)
        ensures
            r == (self.library@.dom().contains(path@) && spec_needs_search(
                self.library@[path@],
                self.enable_synced,
            )),
    {
        match self.library.get(path) {
            None => false,
            Some(status) => needs_search(status, self.enable_synced),
        }
    }

    /// Whether the counters can take the move that recording `found` for the
    /// song at `path` would make.
    pub fn search_result_fits(&self, path: &str, found: SongStatus) -> (r: bool)
        ensures
            r == (improves(self.library@, path@, found) ==> self.stats.can_move(
                self.library@[path@],
                found,
            )),
    {
        match self.library.get(path) {
            None => true,
            Some(current) => {
                if found.is_above(&current) {
                    self.stats.can_record_move(current, found)
                } else {
                    true
                }
            },
        }
    }

    /// Toggles the lock of the song at `path` (see `Library::toggle_lock`).
    pub fn apply_toggle_lock(&mut self, path: &str, lrc: LrcFile) -> (r: LockChange)
        ensures
            *final(self) == (EngineState { library: final(self).library, ..*old(self) }),
            final(self).library@ == toggled(old(self).library@, path@, lrc),
            r == LockChange::Absent <==> !old(self).library@.dom().contains(path@),
            r == LockChange::Unlocked <==> old(self).library@.dom().contains(path@)
                && old(self).library@[path@] == SongStatus::Locked,
    {
        self.library.toggle_lock(path, lrc)
    }
}

} // verus!
