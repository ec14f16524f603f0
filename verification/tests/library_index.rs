use subtearium::library::{Library, LockChange};
use subtearium::stats::LibraryStats;
use subtearium::status::{LrcFile, SongStatus};

fn lib_of(items: &[(&str, SongStatus)]) -> Library {
    let mut lib = Library::new();
    for (p, s) in items {
        lib.set(p.to_string(), *s);
    }
    lib
}

#[test]
fn set_get_and_len() {
    let mut lib = Library::new();
    assert_eq!(lib.len(), 0);
    assert_eq!(lib.get("/m/a.mp3"), None);
    lib.set("/m/b.mp3".to_string(), SongStatus::Plain);
    lib.set("/m/a.mp3".to_string(), SongStatus::Synced);
    lib.set("/m/b.mp3".to_string(), SongStatus::NoResult);
    assert_eq!(lib.len(), 2);
    assert_eq!(lib.get("/m/a.mp3"), Some(SongStatus::Synced));
    assert_eq!(lib.get("/m/b.mp3"), Some(SongStatus::NoResult));
    assert!(lib.contains("/m/a.mp3"));
    assert!(!lib.contains("/m/c.mp3"));
}

#[test]
fn entries_in_path_order() {
    let lib = lib_of(&[
        ("/m/b.mp3", SongStatus::Plain),
        ("/m/B.mp3", SongStatus::Plain),
        ("/m/a.mp3", SongStatus::Synced),
        ("/m/\u{e9}.mp3", SongStatus::Synced),
        ("/m/ab.mp3", SongStatus::Synced),
    ]);
    let paths: Vec<String> = lib.entries().into_iter().map(|e| e.path).collect();
    let mut sorted = paths.clone();
    sorted.sort();
    assert_eq!(paths, sorted);
    assert_eq!(paths, vec!["/m/B.mp3", "/m/a.mp3", "/m/ab.mp3", "/m/b.mp3", "/m/\u{e9}.mp3"]);
}

#[test]
fn remove_and_remove_all() {
    let mut lib = lib_of(&[
        ("/a", SongStatus::Plain),
        ("/b", SongStatus::Synced),
        ("/c", SongStatus::Locked),
    ]);
    lib.remove("/b");
    lib.remove("/zzz");
    assert_eq!(lib.len(), 2);
    assert_eq!(lib.get("/b"), None);
    lib.remove_all(&vec!["/a".to_string(), "/x".to_string()]);
    assert_eq!(lib.len(), 1);
    assert_eq!(lib.get("/c"), Some(SongStatus::Locked));
}

#[test]
fn scan_adds_new_songs() {
    let mut lib = Library::new();
    assert!(lib.record_scan("/a.mp3".to_string(), LrcFile::Absent));
    assert!(lib.record_scan("/b.mp3".to_string(), LrcFile::Plain));
    assert!(lib.record_scan("/c.mp3".to_string(), LrcFile::Synced));
    assert_eq!(lib.get("/a.mp3"), Some(SongStatus::Unaccounted));
    assert_eq!(lib.get("/b.mp3"), Some(SongStatus::Plain));
    assert_eq!(lib.get("/c.mp3"), Some(SongStatus::Synced));
    assert!(!lib.record_scan("/a.mp3".to_string(), LrcFile::Synced));
    assert_eq!(lib.get("/a.mp3"), Some(SongStatus::Synced));
}

#[test]
fn scan_keeps_search_outcomes_without_file() {
    let mut lib = lib_of(&[("/t", SongStatus::TagErr), ("/n", SongStatus::NoResult), ("/p", SongStatus::Plain)]);
    assert!(!lib.record_scan("/t".to_string(), LrcFile::Absent));
    assert!(!lib.record_scan("/n".to_string(), LrcFile::Absent));
    assert!(!lib.record_scan("/p".to_string(), LrcFile::Absent));
    assert_eq!(lib.get("/t"), Some(SongStatus::TagErr));
    assert_eq!(lib.get("/n"), Some(SongStatus::NoResult));
    // A deleted lyrics file is noticed.
    assert_eq!(lib.get("/p"), Some(SongStatus::Unaccounted));
    assert!(!lib.record_scan("/n".to_string(), LrcFile::Plain));
    assert_eq!(lib.get("/n"), Some(SongStatus::Plain));
}

#[test]
fn scan_leaves_locked_songs() {
    let mut lib = lib_of(&[("/l", SongStatus::Locked)]);
    for lrc in [LrcFile::Absent, LrcFile::Plain, LrcFile::Synced] {
        assert!(!lib.record_scan("/l".to_string(), lrc));
        assert_eq!(lib.get("/l"), Some(SongStatus::Locked));
    }
}

#[test]
fn scan_twice_same_as_once() {
    let mut once = lib_of(&[("/p", SongStatus::NoResult)]);
    once.record_scan("/p".to_string(), LrcFile::Synced);
    let mut twice = lib_of(&[("/p", SongStatus::NoResult)]);
    twice.record_scan("/p".to_string(), LrcFile::Synced);
    twice.record_scan("/p".to_string(), LrcFile::Synced);
    assert_eq!(once.get("/p"), twice.get("/p"));
}

#[test]
fn toggle_lock_cases() {
    let mut lib = lib_of(&[("/a", SongStatus::Synced), ("/b", SongStatus::Locked), ("/c", SongStatus::Locked), ("/d", SongStatus::Locked)]);
    assert_eq!(lib.toggle_lock("/a", LrcFile::Absent), LockChange::Locked);
    assert_eq!(lib.get("/a"), Some(SongStatus::Locked));
    assert_eq!(lib.toggle_lock("/b", LrcFile::Absent), LockChange::Unlocked);
    assert_eq!(lib.get("/b"), Some(SongStatus::NoResult));
    assert_eq!(lib.toggle_lock("/c", LrcFile::Plain), LockChange::Unlocked);
    assert_eq!(lib.get("/c"), Some(SongStatus::Plain));
    assert_eq!(lib.toggle_lock("/d", LrcFile::Synced), LockChange::Unlocked);
    assert_eq!(lib.get("/d"), Some(SongStatus::Synced));
    assert_eq!(lib.toggle_lock("/zz", LrcFile::Synced), LockChange::Absent);
    assert_eq!(lib.len(), 4);
}

#[test]
fn toggle_locked_song_twice_restores_it() {
    let mut lib = lib_of(&[("/a", SongStatus::Locked)]);
    lib.toggle_lock("/a", LrcFile::Plain);
    lib.toggle_lock("/a", LrcFile::Synced);
    assert_eq!(lib.get("/a"), Some(SongStatus::Locked));
}

#[test]
fn upgrade_only_moves_forward() {
    let mut lib = lib_of(&[("/a", SongStatus::Plain), ("/l", SongStatus::Locked)]);
    assert_eq!(lib.upgrade("/a", SongStatus::NoResult), None);
    assert_eq!(lib.get("/a"), Some(SongStatus::Plain));
    assert_eq!(lib.upgrade("/a", SongStatus::Plain), None);
    assert_eq!(lib.upgrade("/a", SongStatus::Synced), Some(SongStatus::Plain));
    assert_eq!(lib.get("/a"), Some(SongStatus::Synced));
    assert_eq!(lib.upgrade("/l", SongStatus::Synced), None);
    assert_eq!(lib.get("/l"), Some(SongStatus::Locked));
    assert_eq!(lib.upgrade("/none", SongStatus::Synced), None);
    assert_eq!(lib.len(), 2);
}

#[test]
fn paths_to_search_selection() {
    let lib = lib_of(&[
        ("/u", SongStatus::Unaccounted),
        ("/t", SongStatus::TagErr),
        ("/n", SongStatus::NoResult),
        ("/p", SongStatus::Plain),
        ("/s", SongStatus::Synced),
        ("/l", SongStatus::Locked),
    ]);
    assert_eq!(lib.paths_to_search(true), vec!["/n", "/p", "/t", "/u"]);
    assert_eq!(lib.paths_to_search(false), vec!["/n", "/t", "/u"]);
}

#[test]
fn counts_and_stats() {
    let lib = lib_of(&[
        ("/u", SongStatus::Unaccounted),
        ("/t1", SongStatus::TagErr),
        ("/t2", SongStatus::TagErr),
        ("/p", SongStatus::Plain),
        ("/s1", SongStatus::Synced),
        ("/s2", SongStatus::Synced),
        ("/s3", SongStatus::Synced),
        ("/l", SongStatus::Locked),
    ]);
    assert_eq!(lib.count(None), 8);
    assert_eq!(lib.count(Some(SongStatus::Synced)), 3);
    assert_eq!(lib.count(Some(SongStatus::NoResult)), 0);
    let s = lib.stats();
    assert_eq!(
        s,
        LibraryStats { amount: 8, synced: 3, plain: 1, noresult: 0, tagerr: 2, unaccounted: 1, locked: 1 }
    );
    assert_eq!(s.synced + s.plain + s.noresult + s.tagerr + s.unaccounted + s.locked, s.amount);
}

#[test]
fn listing_filters_and_searches() {
    let lib = lib_of(&[
        ("/music/ABBA/Waterloo.mp3", SongStatus::Synced),
        ("/music/abba/Mamma Mia.flac", SongStatus::Plain),
        ("/music/Queen/Bohemian.mp3", SongStatus::Synced),
    ]);
    let all: Vec<String> = lib.listing(None, "").into_iter().map(|e| e.path).collect();
    assert_eq!(all.len(), 3);
    let abba: Vec<String> = lib.listing(None, "aBbA").into_iter().map(|e| e.path).collect();
    assert_eq!(abba, vec!["/music/ABBA/Waterloo.mp3", "/music/abba/Mamma Mia.flac"]);
    let synced_abba = lib.listing(Some(SongStatus::Synced), "abba");
    assert_eq!(synced_abba.len(), 1);
    assert_eq!(synced_abba[0].path, "/music/ABBA/Waterloo.mp3");
    assert_eq!(synced_abba[0].status, SongStatus::Synced);
    assert!(lib.listing(Some(SongStatus::Locked), "").is_empty());
    assert!(lib.listing(None, "beatles").is_empty());
}

#[test]
fn listing_with_non_ascii_case() {
    let lib = lib_of(&[("/m/\u{c9}t\u{c9}.mp3", SongStatus::Plain)]);
    assert_eq!(lib.listing(None, "\u{e9}t\u{e9}").len(), 1);
}
