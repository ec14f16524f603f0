use vstd::prelude::*;

verus! {

/// Where a song stands with its lyrics. The variants are ordered: a later
/// variant is a better (or more final) state than an earlier one.
#[derive(Clone, Copy, Debug, PartialEq, Eq, Structural, PartialOrd, Ord, Hash)]
pub enum SongStatus {
    Unaccounted,
    TagErr,
    NoResult,
    Plain,
    Synced,
    Locked,
}

/// What was found on disk next to a song: no `.lrc` file, an `.lrc` file
/// without timestamps, or an `.lrc` file with timestamps.
#[derive(Clone, Copy, Debug, PartialEq, Eq, Structural)]
pub enum LrcFile {
    Absent,
    Plain,
    Synced,
}

impl SongStatus {
    /// The position of the status in the order of the variants.
    pub open spec fn rank(self) -> nat {
        match self {
            SongStatus::Unaccounted => 0,
            SongStatus::TagErr => 1,
            SongStatus::NoResult => 2,
            SongStatus::Plain => 3,
            SongStatus::Synced => 4,
            SongStatus::Locked => 5,
        }
    }

    /// The position of the status in the order of the variants.
    pub fn rank_of(&self) -> (r: u8)
        ensures
            r as nat == self.rank(),
    {
        match self {
            SongStatus::Unaccounted => 0,
            SongStatus::TagErr => 1,
            SongStatus::NoResult => 2,
            SongStatus::Plain => 3,
            SongStatus::Synced => 4,
            SongStatus::Locked => 5,
        }
    }

    /// Whether `self` comes strictly after `other` in the order of the variants.
    pub fn is_above(&self, other: &SongStatus) -> (r: bool)
        ensures
            r == (self.rank() > other.rank()),
    {
        self.rank_of() > other.rank_of()
    }
}

/// The status that a scan of the library gives a song from its `.lrc` file.
pub open spec fn spec_status_from_scan(lrc: LrcFile) -> SongStatus {
    match lrc {
        LrcFile::Absent => SongStatus::Unaccounted,
        LrcFile::Plain => SongStatus::Plain,
        LrcFile::Synced => SongStatus::Synced,
    }
}

/// The status that a scan of the library gives a song from its `.lrc` file:
/// no file leaves the song unaccounted for.
pub fn status_from_scan(lrc: LrcFile) -> (r: SongStatus)
    ensures
        r == spec_status_from_scan(lrc),
{
    match lrc {
        LrcFile::Absent => SongStatus::Unaccounted,
        LrcFile::Plain => SongStatus::Plain,
        LrcFile::Synced => SongStatus::Synced,
    }
}

/// The status that a song gets when it is unlocked, from its `.lrc` file.
pub open spec fn spec_status_after_unlock(lrc: LrcFile) -> SongStatus {
    match lrc {
        LrcFile::Absent => SongStatus::NoResult,
        LrcFile::Plain => SongStatus::Plain,
        LrcFile::Synced => SongStatus::Synced,
    }
}

/// The status that a song gets when it is unlocked, from its `.lrc` file:
/// no file counts as a search without result.
pub fn status_after_unlock(lrc: LrcFile) -> (r: SongStatus)
    ensures
        r == spec_status_after_unlock(lrc),
{
    match lrc {
        LrcFile::Absent => SongStatus::NoResult,
        LrcFile::Plain => SongStatus::Plain,
        LrcFile::Synced => SongStatus::Synced,
    }
}

/// The status that a song of the library has after a scan found `found` for
/// it: a locked song keeps its status; a song that a search left without
/// result or with bad tags keeps that status while it still has no `.lrc`
/// file; any other song takes the status found.
pub open spec fn spec_scanned_status(current: SongStatus, found: SongStatus) -> SongStatus {
    if current == SongStatus::Locked {
        current
    } else if found == SongStatus::Unaccounted && (current == SongStatus::TagErr || current
        == SongStatus::NoResult) {
        current
    } else {
        found
    }
}

/// Whether a song in this status is still to be searched for: neither synced
/// nor locked, and, where synced lyrics are not wanted, not plain either.
pub open spec fn spec_needs_search(status: SongStatus, enable_synced: bool) -> bool {
    !(status.rank() >= SongStatus::Synced.rank() || (status == SongStatus::Plain
        && !enable_synced))
}

/// Whether a song in this status is still to be searched for.
pub fn needs_search(status: SongStatus, enable_synced: bool) -> (r: bool)
    ensures
        r == spec_needs_search(status, enable_synced),
{
    !(status.rank_of() >= SongStatus::Synced.rank_of() || (status == SongStatus::Plain
        && !enable_synced))
}

} // verus!
