use vstd::prelude::*;
use crate::stats::{LibraryStats, stats_of, law_moving_a_song_keeps_counters};
use crate::lrc::{spec_line_is_synced, spec_lines_are_synced};
use crate::search::{spec_choose_lyrics, spec_status_of_choice, LyricsChoice};
use crate::text::{all_white, lemma_trim_white_around};
use crate::library::{matches_query, scanned, upgraded, toggled, improves, status_count, paths_with,
    lemma_count_insert_new};
use crate::status::{SongStatus, LrcFile, spec_needs_search, spec_scanned_status,
    spec_status_from_scan, spec_status_after_unlock};
use crate::dashboard::{tracker_after, shows_toast};
use crate::engine::{EngineState, EngineCommand, logged, LOG_CAPACITY, spec_interval_due};

verus! {

/// A locked song stays locked: a scan does not change it, a search does not
/// change it, and searches do not look at it.
pub proof fn law_locked_songs_stay_locked(
    m: Map<Seq<char>, SongStatus>,
    path: Seq<char>,
    found: SongStatus,
    lrc: LrcFile,
    enable_synced: bool,
)
    requires
        m.dom().contains(path),
        m[path] == SongStatus::Locked,
    ensures
        scanned(m, path, lrc) == m,
        upgraded(m, path, found) == m,
        !spec_needs_search(m[path], enable_synced),
{
    assert(scanned(m, path, lrc) =~= m);
}

/// A search never takes a song back to an earlier status, and never adds or
/// removes songs.
pub proof fn law_search_never_downgrades(
    m: Map<Seq<char>, SongStatus>,
    path: Seq<char>,
    found: SongStatus,
)
    requires
        m.dom().contains(path),
    ensures
        upgraded(m, path, found).dom() == m.dom(),
        upgraded(m, path, found)[path].rank() >= m[path].rank(),
        upgraded(m, path, found)[path].rank() >= found.rank(),
        forall|k: Seq<char>| k != path ==> #[trigger] upgraded(m, path, found).get(k) == m.get(k),
{
    if improves(m, path, found) {
        assert(m.insert(path, found).dom() =~= m.dom());
    }
}

/// Scanning a song twice with the same `.lrc` file gives what scanning it
/// once gives.
pub proof fn law_scan_is_idempotent(m: Map<Seq<char>, SongStatus>, path: Seq<char>, lrc: LrcFile)
    ensures
        scanned(scanned(m, path, lrc), path, lrc) == scanned(m, path, lrc),
{
    let once = scanned(m, path, lrc);
    assert(scanned(once, path, lrc) =~= once);
}

/// A scan that finds no `.lrc` file for a song that a search left without
/// result, or with bad tags, keeps that status; one that finds a file takes
/// the song to the status of the file unless it is locked.
pub proof fn law_scan_keeps_search_outcomes(
    m: Map<Seq<char>, SongStatus>,
    path: Seq<char>,
    lrc: LrcFile,
)
    requires
        m.dom().contains(path),
    ensures
        lrc == LrcFile::Absent && (m[path] == SongStatus::TagErr || m[path] == SongStatus::NoResult)
            ==> scanned(m, path, lrc) == m,
        lrc != LrcFile::Absent && m[path] != SongStatus::Locked ==> scanned(m, path, lrc)[path]
            == spec_status_from_scan(lrc),
        lrc == LrcFile::Plain && m[path] != SongStatus::Locked ==> scanned(m, path, lrc)[path]
            == SongStatus::Plain,
        lrc == LrcFile::Synced && m[path] != SongStatus::Locked ==> scanned(m, path, lrc)[path]
            == SongStatus::Synced,
{
    assert(m.insert(path, m[path]) =~= m);
}

/// A scan notices a deleted lyrics file: a song that is neither locked nor
/// left by a search with bad tags or without result, and whose `.lrc` file
/// is gone, becomes unaccounted for again (so it is searched again); the
/// rest of the library is untouched.
pub proof fn law_scan_notices_deleted_lyrics(m: Map<Seq<char>, SongStatus>, path: Seq<char>)
    requires
        m.dom().contains(path),
        m[path] != SongStatus::Locked,
        m[path] != SongStatus::TagErr,
        m[path] != SongStatus::NoResult,
    ensures
        scanned(m, path, LrcFile::Absent)[path] == SongStatus::Unaccounted,
        scanned(m, path, LrcFile::Absent).dom() == m.dom(),
        forall|k: Seq<char>| k != path ==> #[trigger] scanned(m, path, LrcFile::Absent).get(k)
            == m.get(k),
{
    assert(scanned(m, path, LrcFile::Absent).dom() =~= m.dom());
}

/// A scan adds a song it did not know with the status its `.lrc` file gives:
/// unaccounted without a file, plain or synced with one.
pub proof fn law_scan_adds_new_songs(m: Map<Seq<char>, SongStatus>, path: Seq<char>)
    requires
        !m.dom().contains(path),
    ensures
        scanned(m, path, LrcFile::Absent)[path] == SongStatus::Unaccounted,
        scanned(m, path, LrcFile::Plain)[path] == SongStatus::Plain,
        scanned(m, path, LrcFile::Synced)[path] == SongStatus::Synced,
        scanned(m, path, LrcFile::Absent).dom() == m.dom().insert(path),
{
}

/// Toggling the lock of a locked song twice leaves the library as it was;
/// toggling that of an unlocked song locks it.
pub proof fn law_toggle_lock_twice(
    m: Map<Seq<char>, SongStatus>,
    path: Seq<char>,
    first: LrcFile,
    second: LrcFile,
)
    requires
        m.dom().contains(path),
    ensures
        m[path] == SongStatus::Locked ==> toggled(toggled(m, path, first), path, second) == m,
        m[path] != SongStatus::Locked ==> toggled(m, path, first)[path] == SongStatus::Locked,
        m[path] != SongStatus::Locked ==> toggled(toggled(m, path, first), path, second)[path]
            == spec_status_after_unlock(second),
{
    if m[path] == SongStatus::Locked {
        let once = toggled(m, path, first);
        assert(once[path] != SongStatus::Locked);
        assert(toggled(once, path, second) =~= m);
    }
}

/// The number of songs of each status add up to the number of songs.
pub proof fn law_counters_add_up(m: Map<Seq<char>, SongStatus>)
    requires
        m.dom().finite(),
    ensures
        status_count(m, SongStatus::Unaccounted) + status_count(m, SongStatus::TagErr)
            + status_count(m, SongStatus::NoResult) + status_count(m, SongStatus::Plain)
            + status_count(m, SongStatus::Synced) + status_count(m, SongStatus::Locked)
            == m.dom().len(),
    decreases m.dom().len(),
{
    if m.dom().len() == 0 {
        assert(m.dom() =~= Set::empty());
        assert(paths_with(m, SongStatus::Unaccounted) =~= Set::empty());
        assert(paths_with(m, SongStatus::TagErr) =~= Set::empty());
        assert(paths_with(m, SongStatus::NoResult) =~= Set::empty());
        assert(paths_with(m, SongStatus::Plain) =~= Set::empty());
        assert(paths_with(m, SongStatus::Synced) =~= Set::empty());
        assert(paths_with(m, SongStatus::Locked) =~= Set::empty());
    } else {
        let k = m.dom().choose();
        let r = m.remove(k);
        assert(r.dom() =~= m.dom().remove(k));
        law_counters_add_up(r);
        assert(r.insert(k, m[k]) =~= m);
        lemma_count_insert_new(r, k, m[k], SongStatus::Unaccounted);
        lemma_count_insert_new(r, k, m[k], SongStatus::TagErr);
        lemma_count_insert_new(r, k, m[k], SongStatus::NoResult);
        lemma_count_insert_new(r, k, m[k], SongStatus::Plain);
        lemma_count_insert_new(r, k, m[k], SongStatus::Synced);
        lemma_count_insert_new(r, k, m[k], SongStatus::Locked);
    }
}

/// Once a scan holds the scanner, no other scan can claim it until it is
/// given back; once given back, it can be claimed again.
pub proof fn law_scanner_is_exclusive(s: EngineState)
    ensures
        !s.claim().1.claim().0,
        s.claim().1.released().claim().0,
        s.claim().0 ==> s.claim().1.released() == s,
{
}

/// The log never holds more than `LOG_CAPACITY` lines: adding a line puts
/// it last, keeps the lines in order, and drops the oldest line exactly when
/// the log was full.
pub proof fn law_log_stays_bounded(logs: Seq<String>, line: String)
    requires
        logs.len() <= LOG_CAPACITY,
    ensures
        logged(logs, line).len() <= LOG_CAPACITY,
        logged(logs, line).len() == if logs.len() < LOG_CAPACITY {
            logs.len() + 1
        } else {
            LOG_CAPACITY as nat
        },
        logged(logs, line).last() == line,
        logs.len() < LOG_CAPACITY ==> logged(logs, line) == logs.push(line),
        logs.len() == LOG_CAPACITY ==> logged(logs, line) == logs.drop_first().push(line),
{
    if logs.len() == LOG_CAPACITY {
        assert(logs.push(line).drop_first() =~= logs.drop_first().push(line));
    }
}

/// The interval between full searches is never negative once set by a
/// command, and commands leave the library and its counters alone.
pub proof fn law_commands_keep_interval_non_negative(s: EngineState, cmd: EngineCommand)
    requires
        s.interval >= 0,
    ensures
        s.commanded(cmd).interval >= 0,
        s.commanded(cmd).library == s.library,
        s.commanded(cmd).stats == s.stats,
{
}

/// Each toast is shown at most once: a second look at the same counter shows
/// nothing, the counter noted never goes back, and a toast shown carries a
/// counter above the one noted before.
pub proof fn law_each_toast_shown_once(
    last: Option<usize>,
    counter: usize,
    latest: Option<(u8, String)>,
)
    ensures
        !shows_toast(tracker_after(last, counter), counter, latest),
        (last matches Some(p) ==> (tracker_after(last, counter) matches Some(q) && q >= p)),
        shows_toast(last, counter, latest) ==> (last matches Some(p) && counter > p),
{
}

/// An empty search passes every path in the library view.
pub proof fn law_empty_search_shows_all(path: Seq<char>, q: Seq<char>)
    requires
        q.len() == 0,
    ensures
        matches_query(path, q),
{
}

/// Whether a lyrics line carries a timestamp does not depend on white space
/// around it.
pub proof fn law_white_space_around_line_is_ignored(pre: Seq<char>, line: Seq<char>, post: Seq<char>)
    requires
        all_white(pre),
        all_white(post),
    ensures
        spec_line_is_synced(pre + line + post) == spec_line_is_synced(line),
{
    lemma_trim_white_around(pre, line, post);
}

/// A kind of lyrics that the settings turn off is never written: with synced
/// lyrics off no search makes a song synced, with plain lyrics off none makes
/// it plain; and with synced lyrics off, songs with plain lyrics are not
/// searched again.
pub proof fn law_disabled_lyrics_are_never_written(
    enable_synced: bool,
    enable_plain: bool,
    has_synced: bool,
    has_plain: bool,
)
    ensures
        !enable_synced ==> spec_status_of_choice(
            spec_choose_lyrics(enable_synced, enable_plain, has_synced, has_plain),
        ) != SongStatus::Synced,
        !enable_plain ==> spec_status_of_choice(
            spec_choose_lyrics(enable_synced, enable_plain, has_synced, has_plain),
        ) != SongStatus::Plain,
        !enable_synced ==> !spec_needs_search(SongStatus::Plain, enable_synced),
{
}

/// Recording a search result keeps counters that agree with the library in
/// agreement: the song moves from its old status to the found one only when
/// the found one comes after it, the counters follow, and the number of songs
/// stays the same.
pub proof fn law_search_result_keeps_counters(
    m: Map<Seq<char>, SongStatus>,
    path: Seq<char>,
    found: SongStatus,
    stats: LibraryStats,
)
    requires
        m.dom().finite(),
        m.dom().len() < i32::MAX,
        stats == stats_of(m),
    ensures
        improves(m, path, found) ==> stats.can_move(m[path], found) && stats.moved(m[path], found)
            == stats_of(upgraded(m, path, found)),
        !improves(m, path, found) ==> upgraded(m, path, found) == m && stats == stats_of(
            upgraded(m, path, found),
        ),
        stats_of(upgraded(m, path, found)).amount == stats.amount,
{
    if improves(m, path, found) {
        law_moving_a_song_keeps_counters(m, path, found, stats);
        assert(m.insert(path, found).dom() =~= m.dom());
    }
}

/// Synced lyrics win whenever they are wanted and present, whatever the
/// plain-lyrics setting; plain lyrics are written only when wanted, present
/// and synced ones are not taken; otherwise nothing is written, and the song
/// then counts as a search without result.
pub proof fn law_lyrics_choice(
    enable_synced: bool,
    enable_plain: bool,
    has_synced: bool,
    has_plain: bool,
)
    ensures
        enable_synced && has_synced ==> spec_choose_lyrics(
            enable_synced,
            enable_plain,
            has_synced,
            has_plain,
        ) == LyricsChoice::Synced,
        !(enable_synced && has_synced) && enable_plain && has_plain ==> spec_choose_lyrics(
            enable_synced,
            enable_plain,
            has_synced,
            has_plain,
        ) == LyricsChoice::Plain,
        !(enable_synced && has_synced) && !(enable_plain && has_plain) ==> spec_choose_lyrics(
            enable_synced,
            enable_plain,
            has_synced,
            has_plain,
        ) == LyricsChoice::Nothing,
        spec_status_of_choice(LyricsChoice::Synced) == SongStatus::Synced,
        spec_status_of_choice(LyricsChoice::Plain) == SongStatus::Plain,
        spec_status_of_choice(LyricsChoice::Nothing) == SongStatus::NoResult,
{
}

/// Each command sets the setting it names to the value it carries (a
/// negative interval to 0), and leaves every other setting alone.
pub proof fn law_commands_set_their_setting(s: EngineState, v: bool, n: i32, text: String)
    ensures
        s.commanded(EngineCommand::Active(v)).active == v,
        s.commanded(EngineCommand::Nuke(v)).nuke == v,
        s.commanded(EngineCommand::SaveTrig(v)).save_trig == v,
        s.commanded(EngineCommand::EnableSynced(v)).enable_synced == v,
        s.commanded(EngineCommand::EnablePlain(v)).enable_plain == v,
        s.commanded(EngineCommand::Workdir(text)).workdir == text,
        s.commanded(EngineCommand::ToggleLock(text)).toggle_lock == Some(text),
        n >= 0 ==> s.commanded(EngineCommand::Interval(n)).interval == n,
        n < 0 ==> s.commanded(EngineCommand::Interval(n)).interval == 0,
        s.commanded(EngineCommand::Active(v)) == (EngineState { active: v, ..s }),
        s.commanded(EngineCommand::Nuke(v)) == (EngineState { nuke: v, ..s }),
        s.commanded(EngineCommand::SaveTrig(v)) == (EngineState { save_trig: v, ..s }),
        s.commanded(EngineCommand::EnableSynced(v)) == (EngineState { enable_synced: v, ..s }),
        s.commanded(EngineCommand::EnablePlain(v)) == (EngineState { enable_plain: v, ..s }),
        s.commanded(EngineCommand::Workdir(text)) == (EngineState { workdir: text, ..s }),
{
}

/// Whether lyrics are synced does not depend on where the timestamped line
/// stands: the lines of two parts are synced exactly when one of the parts
/// is, a single line exactly when it carries a timestamp, no lines never.
pub proof fn law_synced_lines_anywhere(a: Seq<String>, b: Seq<String>, line: String)
    ensures
        spec_lines_are_synced(a + b) == (spec_lines_are_synced(a) || spec_lines_are_synced(b)),
        spec_lines_are_synced(seq![line]) == spec_line_is_synced(line@),
        !spec_lines_are_synced(Seq::<String>::empty()),
{
    let ab = a + b;
    if spec_lines_are_synced(ab) {
        let i = choose|i: int| 0 <= i < ab.len() && spec_line_is_synced(#[trigger] ab[i]@);
        if i < a.len() {
            assert(ab[i] == a[i]);
        } else {
            assert(ab[i] == b[i - a.len()]);
        }
    }
    if spec_lines_are_synced(a) {
        let i = choose|i: int| 0 <= i < a.len() && spec_line_is_synced(#[trigger] a[i]@);
        assert(ab[i] == a[i]);
    }
    if spec_lines_are_synced(b) {
        let i = choose|i: int| 0 <= i < b.len() && spec_line_is_synced(#[trigger] b[i]@);
        assert(ab[i + a.len()] == b[i]);
    }
    let one = seq![line];
    if spec_line_is_synced(line@) {
        assert(one[0] == line);
    }
}

/// A positive interval runs out exactly when more minutes than it have passed
/// since the last full search, however long it is; an interval of 0 (or
/// below) never runs out. So a tick with a free scanner plans a full search
/// once any positive interval has run out.
pub proof fn law_interval_runs_out(interval: i32, minutes_since_scan: i64)
    ensures
        interval > 0 && minutes_since_scan > interval ==> spec_interval_due(
            interval,
            minutes_since_scan,
        ),
        interval <= 0 || minutes_since_scan <= interval ==> !spec_interval_due(
            interval,
            minutes_since_scan,
        ),
{
}

} // verus!
