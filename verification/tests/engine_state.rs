use subtearium::engine::{EngineCommand, EngineState, LOG_CAPACITY};
use subtearium::library::LockChange;
use subtearium::stats::LibraryStats;
use subtearium::status::{LrcFile, SongStatus};

#[test]
fn fresh_state_defaults() {
    let s = EngineState::new();
    assert_eq!(s.workdir, "/music");
    assert_eq!(s.interval, 60);
    assert!(!s.active);
    assert!(!s.nuke);
    assert!(s.enable_synced);
    assert!(s.enable_plain);
    assert!(!s.save_trig);
    assert!(s.toggle_lock.is_none());
    assert_eq!(s.stats, LibraryStats::zero());
    assert_eq!(s.library.len(), 0);
    assert!(s.logs.is_empty());
    assert_eq!(s.toast_counter, 0);
    assert!(s.latest_toast.is_none());
    assert!(!s.is_api_running);
}

#[test]
fn zero_counters() {
    let z = LibraryStats::zero();
    assert_eq!(z, LibraryStats { amount: 0, synced: 0, plain: 0, noresult: 0, tagerr: 0, unaccounted: 0, locked: 0 });
}

#[test]
fn commands_set_settings() {
    let mut s = EngineState::new();
    s.apply_command(EngineCommand::Workdir("/lib".to_string()));
    s.apply_command(EngineCommand::Interval(30));
    s.apply_command(EngineCommand::Active(true));
    s.apply_command(EngineCommand::Nuke(true));
    s.apply_command(EngineCommand::SaveTrig(true));
    s.apply_command(EngineCommand::EnableSynced(false));
    s.apply_command(EngineCommand::EnablePlain(false));
    s.apply_command(EngineCommand::ToggleLock("/a".to_string()));
    assert_eq!(s.workdir, "/lib");
    assert_eq!(s.interval, 30);
    assert!(s.active && s.nuke && s.save_trig);
    assert!(!s.enable_synced && !s.enable_plain);
    assert_eq!(s.toggle_lock.as_deref(), Some("/a"));
}

#[test]
fn negative_interval_counts_as_zero() {
    let mut s = EngineState::new();
    s.apply_command(EngineCommand::Interval(-5));
    assert_eq!(s.interval, 0);
    s.apply_command(EngineCommand::Interval(i32::MAX));
    assert_eq!(s.interval, i32::MAX);
}

#[test]
fn startup_reset() {
    let mut s = EngineState::new();
    s.is_api_running = true;
    s.nuke = true;
    s.toast_counter = 9;
    s.active = true;
    s.reset_on_startup();
    assert!(!s.is_api_running && !s.nuke);
    assert_eq!(s.toast_counter, 0);
    assert!(s.active);
}

#[test]
fn scanner_claim_is_exclusive() {
    let mut s = EngineState::new();
    assert!(s.try_claim());
    assert!(s.is_api_running);
    assert!(!s.try_claim());
    s.release();
    assert!(!s.is_api_running);
    assert!(s.try_claim());
}

#[test]
fn log_keeps_last_lines() {
    let mut s = EngineState::new();
    for i in 0..(LOG_CAPACITY + 1) {
        s.record_log(0, format!("line {}", i), String::new());
    }
    assert_eq!(s.logs.len(), LOG_CAPACITY);
    assert_eq!(s.logs.front().unwrap(), "line 1");
    assert_eq!(s.logs.back().unwrap(), &format!("line {}", LOG_CAPACITY));
    assert_eq!(s.toast_counter, 0);
}

#[test]
fn log_with_level_raises_toast() {
    let mut s = EngineState::new();
    s.record_log(2, "12:00:00 UTC | done".to_string(), "done".to_string());
    assert_eq!(s.toast_counter, 1);
    assert_eq!(s.latest_toast, Some((2, "done".to_string())));
    s.record_log(0, "quiet".to_string(), "quiet".to_string());
    assert_eq!(s.toast_counter, 1);
    assert_eq!(s.latest_toast, Some((2, "done".to_string())));
}

#[test]
fn tick_runs_full_search_when_asked() {
    let mut s = EngineState::new();
    s.nuke = true;
    s.save_trig = true;
    s.toggle_lock = Some("/a".to_string());
    let plan = s.begin_tick(0, 1000);
    assert!(plan.full_scan);
    assert!(!plan.quick_scan);
    assert!(plan.save);
    assert_eq!(plan.toggle_lock.as_deref(), Some("/a"));
    assert_eq!(plan.workdir, "/music");
    assert!(s.is_api_running);
    assert!(!s.nuke && !s.save_trig && s.toggle_lock.is_none());
}

#[test]
fn tick_runs_full_search_when_interval_passed() {
    let mut s = EngineState::new();
    let plan = s.begin_tick(60, 0);
    assert!(!plan.full_scan && !plan.quick_scan);
    let plan = s.begin_tick(61, 0);
    assert!(plan.full_scan);
    s.interval = 0;
    s.release();
    let plan = s.begin_tick(100000, 0);
    assert!(!plan.full_scan);
}

#[test]
fn tick_quick_check_when_due() {
    let mut s = EngineState::new();
    let plan = s.begin_tick(0, 239);
    assert!(!plan.quick_scan && !plan.full_scan);
    let plan = s.begin_tick(0, 240);
    assert!(plan.quick_scan && !plan.full_scan);
    assert!(s.is_api_running);
    let plan = s.begin_tick(0, 500);
    assert!(!plan.quick_scan);
}

#[test]
fn tick_keeps_nuke_while_scanner_busy() {
    let mut s = EngineState::new();
    s.is_api_running = true;
    s.nuke = true;
    let plan = s.begin_tick(0, 1000);
    assert!(!plan.full_scan && !plan.quick_scan);
    assert!(s.nuke);
}

#[test]
fn search_result_moves_counters() {
    let mut s = EngineState::new();
    s.library.set("/a".to_string(), SongStatus::Unaccounted);
    s.library.set("/b".to_string(), SongStatus::Locked);
    s.refresh_stats();
    assert!(s.search_result_fits("/a", SongStatus::Synced));
    assert_eq!(s.apply_search_result("/a", SongStatus::Synced), Some(SongStatus::Unaccounted));
    assert_eq!(s.stats, s.library.stats());
    assert_eq!(s.stats.synced, 1);
    assert_eq!(s.stats.unaccounted, 0);
    assert_eq!(s.apply_search_result("/b", SongStatus::Synced), None);
    assert_eq!(s.apply_search_result("/a", SongStatus::Plain), None);
    assert_eq!(s.stats, s.library.stats());
}

#[test]
fn search_result_fits_guards_overflow() {
    let mut s = EngineState::new();
    s.library.set("/a".to_string(), SongStatus::Unaccounted);
    s.stats.synced = i32::MAX;
    assert!(!s.search_result_fits("/a", SongStatus::Synced));
    assert!(s.search_result_fits("/a", SongStatus::Unaccounted));
    assert!(s.search_result_fits("/none", SongStatus::Synced));
    s.stats.synced = 0;
    s.stats.unaccounted = i32::MIN;
    assert!(!s.search_result_fits("/a", SongStatus::Synced));
}

#[test]
fn move_song_counters() {
    let mut st = LibraryStats::zero();
    st.plain = 2;
    assert!(st.can_record_move(SongStatus::Plain, SongStatus::Synced));
    st.move_song(SongStatus::Plain, SongStatus::Synced);
    assert_eq!(st.plain, 1);
    assert_eq!(st.synced, 1);
    assert_eq!(st.counter_of(SongStatus::Synced), 1);
    st.move_song(SongStatus::Plain, SongStatus::Plain);
    assert_eq!(st.plain, 1);
    // Counters out of step with the library may go negative, as a plain
    // decrement would.
    st.move_song(SongStatus::NoResult, SongStatus::Locked);
    assert_eq!(st.noresult, -1);
    assert_eq!(st.locked, 1);
}

#[test]
fn engine_toggle_lock() {
    let mut s = EngineState::new();
    s.library.set("/a".to_string(), SongStatus::Plain);
    assert_eq!(s.apply_toggle_lock("/a", LrcFile::Absent), LockChange::Locked);
    assert_eq!(s.library.get("/a"), Some(SongStatus::Locked));
    assert_eq!(s.apply_toggle_lock("/a", LrcFile::Synced), LockChange::Unlocked);
    assert_eq!(s.library.get("/a"), Some(SongStatus::Synced));
    assert_eq!(s.apply_toggle_lock("/b", LrcFile::Synced), LockChange::Absent);
}

#[test]
fn locked_songs_are_not_fetched() {
    let mut s = EngineState::new();
    s.library.set("/l".to_string(), SongStatus::Locked);
    s.library.set("/s".to_string(), SongStatus::Synced);
    s.library.set("/p".to_string(), SongStatus::Plain);
    s.library.set("/u".to_string(), SongStatus::Unaccounted);
    assert!(!s.should_fetch("/l"));
    assert!(!s.should_fetch("/s"));
    assert!(s.should_fetch("/p"));
    assert!(s.should_fetch("/u"));
    assert!(!s.should_fetch("/missing"));
    s.enable_synced = false;
    assert!(!s.should_fetch("/p"));
}
