use vstd::prelude::*;
use crate::library::{Library, status_count, paths_with, lemma_count_update};
use crate::status::SongStatus;

verus! {

/// The counters of the dashboard: the number of songs in the library and the
/// number of songs in each status.
#[derive(Clone, Copy, Debug, PartialEq, Eq, Structural)]
pub struct LibraryStats {
    pub amount: i32,
    pub synced: i32,
    pub plain: i32,
    pub noresult: i32,
    pub tagerr: i32,
    pub unaccounted: i32,
    pub locked: i32,
}

/// The counters of a library map, each count cast to `i32` as the dashboard
/// keeps it.
pub open spec fn stats_of(m: Map<Seq<char>, SongStatus>) -> LibraryStats {
    LibraryStats {
        amount: m.dom().len() as i32,
        synced: status_count(m, SongStatus::Synced) as i32,
        plain: status_count(m, SongStatus::Plain) as i32,
        noresult: status_count(m, SongStatus::NoResult) as i32,
        tagerr: status_count(m, SongStatus::TagErr) as i32,
        unaccounted: status_count(m, SongStatus::Unaccounted) as i32,
        locked: status_count(m, SongStatus::Locked) as i32,
    }
}

impl LibraryStats {
    /// Counters that are all zero.
    pub fn zero() -> (r: Self)
        ensures
            r == stats_of(Map::<Seq<char>, SongStatus>::empty()),
    {
        proof {
            let m = Map::<Seq<char>, SongStatus>::empty();
            assert forall|st: SongStatus| #[trigger] paths_with(m, st) =~= Set::empty() by {}
            assert(m.dom() =~= Set::empty());
            assert(paths_with(m, SongStatus::Synced) =~= Set::empty());
            assert(paths_with(m, SongStatus::Plain) =~= Set::empty());
            assert(paths_with(m, SongStatus::NoResult) =~= Set::empty());
            assert(paths_with(m, SongStatus::TagErr) =~= Set::empty());
            assert(paths_with(m, SongStatus::Unaccounted) =~= Set::empty());
            assert(paths_with(m, SongStatus::Locked) =~= Set::empty());
        }
        LibraryStats {
            amount: 0,
            synced: 0,
            plain: 0,
            noresult: 0,
            tagerr: 0,
            unaccounted: 0,
            locked: 0,
        }
    }

    /// The counter of songs in status `st`.
    pub open spec fn counter(self, st: SongStatus) -> i32 {
        match st {
            SongStatus::Unaccounted => self.unaccounted,
            SongStatus::TagErr => self.tagerr,
            SongStatus::NoResult => self.noresult,
            SongStatus::Plain => self.plain,
            SongStatus::Synced => self.synced,
            SongStatus::Locked => self.locked,
        }
    }

    /// The counters with the counter of status `st` set to `v`.
    pub open spec fn with_counter(self, st: SongStatus, v: i32) -> Self {
        match st {
            SongStatus::Unaccounted => LibraryStats { unaccounted: v, ..self },
            SongStatus::TagErr => LibraryStats { tagerr: v, ..self },
            SongStatus::NoResult => LibraryStats { noresult: v, ..self },
            SongStatus::Plain => LibraryStats { plain: v, ..self },
            SongStatus::Synced => LibraryStats { synced: v, ..self },
            SongStatus::Locked => LibraryStats { locked: v, ..self },
        }
    }

    /// The counters once one song has moved from status `from` to status `to`.
    pub open spec fn moved(self, from: SongStatus, to: SongStatus) -> Self {
        let t = self.with_counter(from, (self.counter(from) - 1) as i32);
        t.with_counter(to, (t.counter(to) + 1) as i32)
    }

    /// Whether the counters can record a move from `from` to `to` without
    /// leaving the range of `i32`.
    pub open spec fn can_move(self, from: SongStatus, to: SongStatus) -> bool {
        &&& self.counter(from) > i32::MIN
        &&& self.with_counter(from, (self.counter(from) - 1) as i32).counter(to) < i32::MAX
    }

    /// The counter of songs in status `st`.
    pub fn counter_of(&self, st: SongStatus) -> (r: i32)
        ensures
            r == self.counter(st),
    {
        match st {
            SongStatus::Unaccounted => self.unaccounted,
            SongStatus::TagErr => self.tagerr,
            SongStatus::NoResult => self.noresult,
            SongStatus::Plain => self.plain,
            SongStatus::Synced => self.synced,
            SongStatus::Locked => self.locked,
        }
    }

    /// Whether the counters can record a move from `from` to `to`.
    pub fn can_record_move(&self, from: SongStatus, to: SongStatus) -> (r: bool)
        ensures
            r == self.can_move(from, to),
    {
        let f = self.counter_of(from);
        if f == i32::MIN {
            return false;
        }
        if from == to {
            f - 1 < i32::MAX
        } else {
            self.counter_of(to) < i32::MAX
        }
    }

    fn add(&mut self, st: SongStatus, d: i32)
        requires
            i32::MIN <= old(self).counter(st) + d <= i32::MAX,
        ensures
            *final(self) == old(self).with_counter(st, (old(self).counter(st) + d) as i32),
    {
        match st {
            SongStatus::Unaccounted => self.unaccounted = self.unaccounted + d,
            SongStatus::TagErr => self.tagerr = self.tagerr + d,
            SongStatus::NoResult => self.noresult = self.noresult + d,
            SongStatus::Plain => self.plain = self.plain + d,
            SongStatus::Synced => self.synced = self.synced + d,
            SongStatus::Locked => self.locked = self.locked + d,
        }
    }

    /// Records that one song moved from status `from` to status `to`: one
    /// less in the first counter, one more in the second.
    pub fn move_song(&mut self, from: SongStatus, to: SongStatus)
        requires
            old(self).can_move(from, to),
        ensures
            *final(self) == old(self).moved(from, to),
    {
        self.add(from, -1);
        self.add(to, 1);
    }
}

impl Library {
    /// The counters of the library: all songs, and the songs of each status.
    pub fn stats(&self) -> (r: LibraryStats)
        ensures
            r == stats_of(self@),
    {
        let amount = self.len();
        let synced = self.count(Some(SongStatus::Synced));
        let plain = self.count(Some(SongStatus::Plain));
        let noresult = self.count(Some(SongStatus::NoResult));
        let tagerr = self.count(Some(SongStatus::TagErr));
        let unaccounted = self.count(Some(SongStatus::Unaccounted));
        let locked = self.count(Some(SongStatus::Locked));
        LibraryStats {
            amount: amount as i32,
            synced: synced as i32,
            plain: plain as i32,
            noresult: noresult as i32,
            tagerr: tagerr as i32,
            unaccounted: unaccounted as i32,
            locked: locked as i32,
        }
    }
}

/// Keeping the counters up to date as a song moves from one status to
/// another gives the counters that a fresh count of the library gives: where
/// the counters agreed with the library, they still agree after the move.
pub proof fn law_moving_a_song_keeps_counters(
    m: Map<Seq<char>, SongStatus>,
    path: Seq<char>,
    to: SongStatus,
    stats: LibraryStats,
)
    requires
        m.dom().finite(),
        m.dom().len() < i32::MAX,
        m.dom().contains(path),
        stats == stats_of(m),
    ensures
        stats.can_move(m[path], to),
        stats.moved(m[path], to) == stats_of(m.insert(path, to)),
{
    let from = m[path];
    let m2 = m.insert(path, to);
    assert(m2.dom() =~= m.dom());
    assert forall|st: SongStatus| status_count(m, st) <= m.dom().len() by {
        m.dom().lemma_len_filter(|k: Seq<char>| m[k] == st);
    }
    assert forall|st: SongStatus| #[trigger] status_count(m2, st) <= m2.dom().len() by {
        m2.dom().lemma_len_filter(|k: Seq<char>| m2[k] == st);
    }
    assert forall|st: SongStatus| stats.counter(st) == status_count(m, st) by {}
    assert(status_count(m, from) >= 1) by {
        assert(paths_with(m, from).contains(path));
        m.dom().lemma_len_filter(|k: Seq<char>| m[k] == from);
    }
    lemma_count_update(m, path, to, SongStatus::Synced);
    lemma_count_update(m, path, to, SongStatus::Plain);
    lemma_count_update(m, path, to, SongStatus::NoResult);
    lemma_count_update(m, path, to, SongStatus::TagErr);
    lemma_count_update(m, path, to, SongStatus::Unaccounted);
    lemma_count_update(m, path, to, SongStatus::Locked);
    lemma_count_update(m, path, to, from);
    lemma_count_update(m, path, to, to);
}

} // verus!
