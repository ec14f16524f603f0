use subtearium::dashboard::{
    at_bottom, interval_input, remove_toast, song_dialog, toast_kind, SongDialog, ToastData,
    ToastKind, ToastTracker,
};
use subtearium::scan::{music_extension, search_new_entry};
use subtearium::status::{needs_search, status_after_unlock, status_from_scan, LrcFile, SongStatus};

#[test]
fn toast_kinds() {
    assert_eq!(toast_kind(1), ToastKind::Info);
    assert_eq!(toast_kind(2), ToastKind::Success);
    assert_eq!(toast_kind(3), ToastKind::Error);
    assert_eq!(toast_kind(0), ToastKind::Info);
    assert_eq!(toast_kind(9), ToastKind::Info);
}

#[test]
fn tracker_shows_each_toast_once() {
    let mut t = ToastTracker::new();
    let latest = Some((2u8, "hi".to_string()));
    assert!(t.observe(5, &latest).is_none());
    assert_eq!(t.last_id, Some(5));
    assert!(t.observe(5, &latest).is_none());
    let shown = t.observe(6, &latest).unwrap();
    assert_eq!((shown.id, shown.level, shown.message.as_str()), (6, 2, "hi"));
    assert!(t.observe(6, &latest).is_none());
    assert!(t.observe(7, &Some((0u8, "quiet".to_string()))).is_none());
    assert_eq!(t.last_id, Some(7));
    assert!(t.observe(8, &None).is_none());
    assert!(t.observe(3, &latest).is_none());
    assert_eq!(t.last_id, Some(8));
}

#[test]
fn toasts_removed_by_id() {
    let toasts = vec![
        ToastData { id: 1, level: 1, message: "a".to_string() },
        ToastData { id: 2, level: 2, message: "b".to_string() },
        ToastData { id: 3, level: 3, message: "c".to_string() },
    ];
    let left = remove_toast(&toasts, 2);
    let ids: Vec<usize> = left.iter().map(|t| t.id).collect();
    assert_eq!(ids, vec![1, 3]);
    assert_eq!(left[1].message, "c");
    assert_eq!(remove_toast(&toasts, 9).len(), 3);
}

#[test]
fn dialogs() {
    assert_eq!(song_dialog(SongStatus::Locked), SongDialog::Unlock);
    assert_eq!(song_dialog(SongStatus::Plain), SongDialog::LockOnly);
    assert_eq!(song_dialog(SongStatus::Unaccounted), SongDialog::LockOnly);
    assert_eq!(song_dialog(SongStatus::Synced), SongDialog::ShiftOrLock);
}

#[test]
fn scroll_bottom() {
    assert!(at_bottom(1000, 500, 500));
    assert!(at_bottom(1000, 491, 500));
    assert!(!at_bottom(1000, 490, 500));
    assert!(at_bottom(1000, 509, 500));
    assert!(!at_bottom(1000, 510, 500));
}

#[test]
fn interval_clamped() {
    assert_eq!(interval_input(-3), 0);
    assert_eq!(interval_input(0), 0);
    assert_eq!(interval_input(55), 55);
    assert_eq!(interval_input(100), 100);
    assert_eq!(interval_input(101), 100);
}

#[test]
fn music_extensions() {
    assert!(music_extension(Some("mp3")));
    assert!(music_extension(Some("mp4")));
    assert!(music_extension(Some("m4a")));
    assert!(music_extension(Some("flac")));
    assert!(!music_extension(Some("MP3")));
    assert!(!music_extension(Some("lrc")));
    assert!(!music_extension(Some("nil")));
    assert!(!music_extension(None));
}

#[test]
fn new_entries_searched() {
    assert!(search_new_entry(true, true, true));
    assert!(!search_new_entry(false, true, true));
    assert!(!search_new_entry(true, false, true));
    assert!(!search_new_entry(true, true, false));
}

#[test]
fn status_order_and_rules() {
    let order = [
        SongStatus::Unaccounted,
        SongStatus::TagErr,
        SongStatus::NoResult,
        SongStatus::Plain,
        SongStatus::Synced,
        SongStatus::Locked,
    ];
    for (i, s) in order.iter().enumerate() {
        assert_eq!(s.rank_of() as usize, i);
    }
    assert!(SongStatus::Synced.is_above(&SongStatus::Plain));
    assert!(!SongStatus::Plain.is_above(&SongStatus::Plain));
    assert_eq!(status_from_scan(LrcFile::Absent), SongStatus::Unaccounted);
    assert_eq!(status_from_scan(LrcFile::Plain), SongStatus::Plain);
    assert_eq!(status_from_scan(LrcFile::Synced), SongStatus::Synced);
    assert_eq!(status_after_unlock(LrcFile::Absent), SongStatus::NoResult);
    assert_eq!(status_after_unlock(LrcFile::Plain), SongStatus::Plain);
    assert_eq!(status_after_unlock(LrcFile::Synced), SongStatus::Synced);
    assert!(needs_search(SongStatus::Plain, true));
    assert!(!needs_search(SongStatus::Plain, false));
    assert!(needs_search(SongStatus::TagErr, false));
    assert!(!needs_search(SongStatus::Synced, true));
    assert!(!needs_search(SongStatus::Locked, true));
}
